//! One change to a profile at a time, and none without a fresh confirmation.
use std::collections::VecDeque;
use vstd::prelude::*;

use crate::error::{Error, Fault};
use crate::text;

verus! {

/// Guard so two windows cannot mutate profile state at the same time.
#[derive(Debug)]
pub struct PluginJobs {
    pub busy: bool,
}

/// A claim on the one profile-wide mutation slot.
#[derive(Debug)]
pub struct PluginJob {
    claimed: bool,
}

impl Default for PluginJobs {
    /// Nothing is running.
    fn default() -> (jobs: PluginJobs)
        ensures
            !jobs.busy,
    {
        PluginJobs { busy: false }
    }
}

impl PluginJobs {
    /// Claim the one profile-wide mutation slot.
    pub fn claim(&mut self) -> (claimed: Result<PluginJob, Error>)
        ensures
            final(self).busy,
            match claimed {
                Ok(_) => !old(self).busy,
                Err(error) => old(self).busy && error@ == Fault::PluginBusy,
            },
    {
        if self.busy {
            return Err(Error::PluginBusy);
        }
        self.busy = true;
        Ok(PluginJob { claimed: true })
    }

    /// Give the slot back. Only the claim that was handed out can do that.
    pub fn release(&mut self, _job: PluginJob)
        ensures
            !final(self).busy,
    {
        self.busy = false;
    }
}

/// How long a confirmation is good for, in milliseconds.
pub const INTENT_TTL: u64 = 120_000;

/// How many confirmations are kept.
pub const MAX_INTENTS: usize = 64;

/// How many random bytes name a confirmation.
pub const TOKEN_BYTES: usize = 32;

/// What a confirmed install is to do.
#[derive(Debug)]
pub struct InstallIntent {
    pub profile: String,
    pub spec: String,
    pub source_id: String,
    pub item_id: String,
    pub display_name: String,
    /// When the confirmation ends, in milliseconds.
    pub expires_at: u64,
}

/// What a confirmed install is to do, by what it says.
pub struct Intent {
    pub profile: Seq<char>,
    pub spec: Seq<char>,
    pub source_id: Seq<char>,
    pub item_id: Seq<char>,
    pub display_name: Seq<char>,
    pub expires_at: u64,
}

impl View for InstallIntent {
    type V = Intent;

    open spec fn view(&self) -> Intent {
        Intent {
            profile: self.profile@,
            spec: self.spec@,
            source_id: self.source_id@,
            item_id: self.item_id@,
            display_name: self.display_name@,
            expires_at: self.expires_at,
        }
    }
}

impl InstallIntent {
    /// A copy of the intent.
    fn duplicate(&self) -> (copy: InstallIntent)
        ensures
            copy@ == self@,
    {
        InstallIntent {
            profile: self.profile.clone(),
            spec: self.spec.clone(),
            source_id: self.source_id.clone(),
            item_id: self.item_id.clone(),
            display_name: self.display_name.clone(),
            expires_at: self.expires_at,
        }
    }
}

/// One-shot native confirmations for market installs, the oldest first.
#[derive(Debug)]
pub struct PluginIntents {
    pub entries: VecDeque<(String, InstallIntent)>,
}

/// Confirmations by what they say: a token and what it confirms.
pub open spec fn issued(entries: Seq<(String, InstallIntent)>) -> Seq<(Seq<char>, Intent)> {
    Seq::new(entries.len(), |i: int| (entries[i].0@, entries[i].1@))
}

impl View for PluginIntents {
    type V = Seq<(Seq<char>, Intent)>;

    open spec fn view(&self) -> Seq<(Seq<char>, Intent)> {
        issued(self.entries@)
    }
}

/// The confirmations that have not ended, in order.
pub open spec fn current(list: Seq<(Seq<char>, Intent)>, now: u64) -> Seq<(Seq<char>, Intent)>
    decreases list.len(),
{
    if list.len() == 0 {
        list
    } else if list.last().1.expires_at > now {
        current(list.drop_last(), now).push(list.last())
    } else {
        current(list.drop_last(), now)
    }
}

/// Where a token first stands.
pub open spec fn position(list: Seq<(Seq<char>, Intent)>, token: Seq<char>) -> Option<int>
    decreases list.len(),
{
    if list.len() == 0 {
        None
    } else if list[0].0 == token {
        Some(0)
    } else {
        match position(list.drop_first(), token) {
            Some(at) => Some(at + 1),
            None => None,
        }
    }
}

/// The confirmations with one more, without the oldest where there are too many.
pub open spec fn with_one_more(
    list: Seq<(Seq<char>, Intent)>,
    entry: (Seq<char>, Intent),
) -> Seq<(Seq<char>, Intent)> {
    let all = list.push(entry);
    if all.len() > MAX_INTENTS {
        all.skip(all.len() - MAX_INTENTS)
    } else {
        all
    }
}

/// Something done with the confirmations.
pub enum Deed {
    /// One is issued under that token.
    Issue(Seq<char>, Intent),
    /// One is read, or not found.
    Inspect,
    /// The one of that token is spent, for whichever profile.
    Consume(Seq<char>),
}

/// Something done with the confirmations at some time.
pub struct Event {
    pub at: u64,
    pub deed: Deed,
}

/// The confirmations after something was done with them.
pub open spec fn after(list: Seq<(Seq<char>, Intent)>, event: Event) -> Seq<(Seq<char>, Intent)> {
    let live = current(list, event.at);
    match event.deed {
        Deed::Issue(token, intent) => with_one_more(live, (token, intent)),
        Deed::Inspect => live,
        Deed::Consume(token) => match position(live, token) {
            Some(at) => live.remove(at),
            None => live,
        },
    }
}

/// The confirmations after many things were done with them, in order.
pub open spec fn after_all(list: Seq<(Seq<char>, Intent)>, events: Seq<Event>) -> Seq<
    (Seq<char>, Intent),
>
    decreases events.len(),
{
    if events.len() == 0 {
        list
    } else {
        after(after_all(list, events.drop_last()), events.last())
    }
}

/// What a token authorizes for a profile at some time, if anything.
pub open spec fn authorized(
    list: Seq<(Seq<char>, Intent)>,
    token: Seq<char>,
    profile: Seq<char>,
    now: u64,
) -> Option<Intent> {
    let live = current(list, now);
    match position(live, token) {
        Some(at) => if live[at].1.profile == profile {
            Some(live[at].1)
        } else {
            None
        },
        None => None,
    }
}

/// A position found holds the token, and none before it does.
pub proof fn lemma_position(list: Seq<(Seq<char>, Intent)>, token: Seq<char>)
    ensures
        match position(list, token) {
            Some(at) => 0 <= at < list.len() && list[at].0 == token && forall|i: int|
                0 <= i < at ==> (#[trigger] list[i]).0 != token,
            None => forall|i: int| 0 <= i < list.len() ==> (#[trigger] list[i]).0 != token,
        },
    decreases list.len(),
{
    if list.len() > 0 && list[0].0 != token {
        let rest = list.drop_first();
        lemma_position(rest, token);
        assert forall|i: int| 1 <= i < list.len() implies #[trigger] list[i] == rest[i - 1] by {
        }
    }
}

/// What is said of a token that names no confirmation.
pub const SPENT: &'static str =
    "the install confirmation expired or was already used; preview it again";

/// What is said where the profile changed meanwhile.
pub const MOVED: &'static str =
    "the active profile changed after the install preview; preview it again";

/// Fills a buffer with `getrandom::fill`; nothing where the system has no
/// randomness to give. Nothing is said of the bytes but how many they are: they
/// rest on chance.
#[verifier::external_body]
pub(crate) fn random_bytes(count: usize) -> (bytes: Option<Vec<u8>>)
    requires
        count <= 0xffff,
    ensures
        bytes matches Some(found) ==> found@.len() == count,
{
    let mut bytes = vec![0u8; count];
    getrandom::fill(&mut bytes).ok()?;
    Some(bytes)
}

impl Default for PluginIntents {
    /// No confirmations.
    fn default() -> (intents: PluginIntents)
        ensures
            intents@.len() == 0,
    {
        PluginIntents { entries: VecDeque::new() }
    }
}

impl PluginIntents {
    /// Drops the confirmations that have ended.
    fn purge(&mut self, now: u64)
        ensures
            final(self)@ == current(old(self)@, now),
    {
        let mut kept: VecDeque<(String, InstallIntent)> = VecDeque::new();
        let ghost all = self@;
        let ghost mut done: int = 0;
        assert(all.take(0) =~= Seq::empty());
        assert(issued(kept@) =~= Seq::empty());
        assert(all.skip(0) =~= all);
        while self.entries.len() > 0
            invariant
                0 <= done <= all.len(),
                self@ == all.skip(done),
                all == old(self)@,
                issued(kept@) == current(all.take(done), now),
            decreases self.entries@.len(),
        {
            let ghost before = issued(kept@);
            let ghost held = self.entries@;
            assert(issued(held) == all.skip(done));
            assert(issued(held).len() == held.len());
            assert(all.skip(done).len() == all.len() - done);
            assert forall|i: int| 0 <= i < held.len() implies issued(held)[i] == all[done + i] by {
                assert(all.skip(done)[i] == all[done + i]);
            }
            assert(self@[0] == all[done]);
            let taken = self.entries.pop_front();
            assert(all.take(done + 1).drop_last() =~= all.take(done));
            if let Some(entry) = taken {
                assert((entry.0@, entry.1@) == all[done]);
                if entry.1.expires_at > now {
                    kept.push_back(entry);
                    assert(issued(kept@) =~= before.push(all[done]));
                }
            }
            let ghost rest = self.entries@;
            assert forall|i: int| 0 <= i < rest.len() implies issued(rest)[i] == all.skip(done
                + 1)[i] by {
                assert(rest[i] == held[i + 1]);
                assert(issued(held)[i + 1] == all[done + (i + 1)]);
            }
            assert(issued(rest).len() == rest.len());
            assert(self@ =~= all.skip(done + 1));
            proof {
                done = done + 1;
            }
        }
        assert(all.skip(done).len() == 0);
        assert(all.take(done) =~= all);
        self.entries = kept;
    }

    /// Where a token first stands.
    fn find(&self, token: &str) -> (at: Option<usize>)
        ensures
            match position(self@, token@) {
                Some(wanted) => at matches Some(found) && found == wanted && found
                    < self.entries@.len(),
                None => at is None,
            },
    {
        let ghost all = self@;
        let mut index: usize = 0;
        proof {
            lemma_position(all, token@);
        }
        while index < self.entries.len()
            invariant
                index <= self.entries@.len(),
                all == self@,
                match position(all, token@) {
                    Some(at) => index <= at < all.len() && all[at].0 == token@ && forall|i: int|
                        0 <= i < at ==> (#[trigger] all[i]).0 != token@,
                    None => forall|i: int| 0 <= i < all.len() ==> (#[trigger] all[i]).0 != token@,
                },
            decreases self.entries@.len() - index,
        {
            assert(all[index as int].0 == self.entries@[index as int].0@);
            if text::same(&self.entries[index].0, token) {
                return Some(index);
            }
            index += 1;
        }
        None
    }

    /// Records a confirmation under the token that random bytes give.
    pub fn record(&mut self, random: &Vec<u8>, intent: InstallIntent, now: u64) -> (token: String)
        ensures
            token@ == text::hexadecimal(random@),
            final(self)@ == with_one_more(current(old(self)@, now), (token@, intent@)),
            final(self)@ == after(
                old(self)@,
                (Event { at: now, deed: Deed::Issue(token@, intent@) }),
            ),
    {
        let token = text::hexadecimal_text(random);
        self.purge(now);
        let ghost before = self@;
        self.entries.push_back((token.clone(), intent));
        let ghost all = before.push((token@, intent@));
        assert(self@ =~= all);
        let ghost mut dropped: int = 0;
        assert(all.skip(0) =~= all);
        while self.entries.len() > MAX_INTENTS
            invariant
                0 <= dropped <= all.len(),
                self@ == all.skip(dropped),
                dropped > 0 ==> all.len() - dropped >= MAX_INTENTS,
            decreases self.entries@.len(),
        {
            let ghost held = self.entries@;
            assert(issued(held) == all.skip(dropped));
            assert(issued(held).len() == held.len());
            assert(all.skip(dropped).len() == all.len() - dropped);
            assert forall|i: int| 0 <= i < held.len() implies issued(held)[i] == all[dropped
                + i] by {
                assert(all.skip(dropped)[i] == all[dropped + i]);
            }
            self.entries.pop_front();
            let ghost rest = self.entries@;
            assert forall|i: int| 0 <= i < rest.len() implies issued(rest)[i] == all.skip(dropped
                + 1)[i] by {
                assert(rest[i] == held[i + 1]);
                assert(issued(held)[i + 1] == all[dropped + (i + 1)]);
            }
            assert(issued(rest).len() == rest.len());
            assert(self@ =~= all.skip(dropped + 1));
            proof {
                dropped = dropped + 1;
            }
        }
        assert(self.entries@.len() == all.len() - dropped);
        token
    }

    /// Issue a confirmation for an install that was shown to the user. Its token
    /// is the hexadecimal text of random bytes, and which bytes rests on chance;
    /// nothing is recorded where there is no randomness to be had.
    pub fn issue(
        &mut self,
        profile: String,
        spec: String,
        source_id: String,
        item_id: String,
        display_name: String,
        now: u64,
    ) -> (issued: Result<String, Error>)
        ensures
            match issued {
                Ok(token) => {
                    &&& token@.len() == 2 * TOKEN_BYTES
                    &&& exists|random: Seq<u8>|
                        random.len() == TOKEN_BYTES && token@ == #[trigger] text::hexadecimal(
                            random,
                        )
                    &&& final(self)@ == after(
                        old(self)@,
                        (Event {
                            at: now,
                            deed: Deed::Issue(
                                token@,
                                Intent {
                                    profile: profile@,
                                    spec: spec@,
                                    source_id: source_id@,
                                    item_id: item_id@,
                                    display_name: display_name@,
                                    expires_at: now.saturating_add(INTENT_TTL),
                                },
                            ),
                        }),
                    )
                },
                Err(error) => error@ == Fault::Plugin("could not create an install confirmation"@)
                    && final(self)@ == old(self)@,
            },
    {
        let random = match random_bytes(TOKEN_BYTES) {
            Some(random) => random,
            None => {
                return Err(
                    Error::Plugin("could not create an install confirmation".to_owned()),
                );
            },
        };
        let intent = InstallIntent {
            profile,
            spec,
            source_id,
            item_id,
            display_name,
            expires_at: now.saturating_add(INTENT_TTL),
        };
        Ok(self.record(&random, intent, now))
    }

    /// Spend a confirmation. This is the only operation that authorizes the
    /// profile write, and it takes the confirmation away whatever comes of it.
    pub fn consume(&mut self, token: &str, profile: &str, now: u64) -> (spent: Result<
        InstallIntent,
        Error,
    >)
        ensures
            final(self)@ == after(
                old(self)@,
                (Event { at: now, deed: Deed::Consume(token@) }),
            ),
            match (spent, authorized(old(self)@, token@, profile@, now)) {
                (Ok(intent), Some(wanted)) => intent@ == wanted,
                (Err(_), None) => true,
                _ => false,
            },
            ({
                let live = current(old(self)@, now);
                match position(live, token@) {
                    Some(at) => {
                        &&& final(self)@ == live.remove(at)
                        &&& if live[at].1.profile == profile@ {
                            spent matches Ok(intent) && intent@ == live[at].1
                        } else {
                            spent matches Err(error) && error@ == Fault::Plugin(MOVED@)
                        }
                    },
                    None => {
                        &&& final(self)@ == live
                        &&& spent matches Err(error)
                        &&& error@ == Fault::Plugin(SPENT@)
                    },
                }
            }),
    {
        self.purge(now);
        let ghost live = self@;
        proof {
            lemma_position(live, token@);
        }
        let at = match self.find(token) {
            Some(at) => at,
            None => {
                return Err(Error::Plugin(SPENT.to_owned()));
            },
        };
        let taken = self.entries.remove(at);
        assert(self@ =~= live.remove(at as int));
        match taken {
            Some((_, intent)) => {
                if text::same(&intent.profile, profile) {
                    Ok(intent)
                } else {
                    Err(Error::Plugin(MOVED.to_owned()))
                }
            },
            None => Err(Error::Plugin(SPENT.to_owned())),
        }
    }

    /// Read a confirmation without spending it while registry and source checks
    /// are still allowed to fail.
    pub fn inspect(&mut self, token: &str, profile: &str, now: u64) -> (found: Result<
        InstallIntent,
        Error,
    >)
        ensures
            final(self)@ == after(old(self)@, (Event { at: now, deed: Deed::Inspect })),
            match (found, authorized(old(self)@, token@, profile@, now)) {
                (Ok(intent), Some(wanted)) => intent@ == wanted,
                (Err(_), None) => true,
                _ => false,
            },
            ({
                let live = current(old(self)@, now);
                &&& final(self)@ == live
                &&& match position(live, token@) {
                    Some(at) => if live[at].1.profile == profile@ {
                        found matches Ok(intent) && intent@ == live[at].1
                    } else {
                        found matches Err(error) && error@ == Fault::Plugin(MOVED@)
                    },
                    None => found matches Err(error) && error@ == Fault::Plugin(SPENT@),
                }
            }),
    {
        self.purge(now);
        proof {
            lemma_position(self@, token@);
        }
        match self.find(token) {
            Some(at) => {
                let intent = &self.entries[at].1;
                if text::same(&intent.profile, profile) {
                    Ok(intent.duplicate())
                } else {
                    Err(Error::Plugin(MOVED.to_owned()))
                }
            },
            None => Err(Error::Plugin(SPENT.to_owned())),
        }
    }
}

/// Dropping ended confirmations leaves only ones that are good, in their order
/// and no others.
pub proof fn lemma_current(list: Seq<(Seq<char>, Intent)>, now: u64)
    ensures
        current(list, now).len() <= list.len(),
        forall|i: int|
            0 <= i < current(list, now).len() ==> (#[trigger] current(list, now)[i]).1.expires_at
                > now && list.contains(current(list, now)[i]),
    decreases list.len(),
{
    if list.len() > 0 {
        let front = list.drop_last();
        lemma_current(front, now);
        let after = current(list, now);
        assert forall|i: int| 0 <= i < after.len() implies (#[trigger] after[i]).1.expires_at > now
            && list.contains(after[i]) by {
            if i < current(front, now).len() {
                assert(after[i] == current(front, now)[i]);
                let k = choose|k: int| 0 <= k < front.len() && front[k] == after[i];
                assert(list[k] == after[i]);
            } else {
                assert(list[list.len() - 1] == after[i]);
            }
        }
    }
}

/// No confirmation outlives its two minutes: whatever was issued, one that has
/// ended is found by no token.
pub proof fn an_ended_confirmation_authorizes_nothing(
    list: Seq<(Seq<char>, Intent)>,
    token: Seq<char>,
    now: u64,
)
    requires
        forall|i: int|
            0 <= i < list.len() && (#[trigger] list[i]).0 == token ==> list[i].1.expires_at <= now,
    ensures
        position(current(list, now), token) is None,
{
    lemma_current(list, now);
    let live = current(list, now);
    lemma_position(live, token);
    if let Some(at) = position(live, token) {
        assert(list.contains(live[at]));
        let k = choose|k: int| 0 <= k < list.len() && list[k] == live[at];
        assert(list[k].0 == token);
    }
}

/// Whether a token names at most one confirmation.
pub open spec fn single(list: Seq<(Seq<char>, Intent)>, token: Seq<char>) -> bool {
    forall|i: int, j: int|
        0 <= i < j < list.len() && (#[trigger] list[i]).0 == token ==> (#[trigger] list[j]).0
            != token
}

/// A confirmation is good once: after it was spent, for the right profile or for
/// a wrong one, its token finds nothing at any later time.
pub proof fn a_confirmation_is_good_once(
    live: Seq<(Seq<char>, Intent)>,
    token: Seq<char>,
    later: u64,
)
    requires
        single(live, token),
        position(live, token) is Some,
    ensures
        position(current(live.remove(position(live, token)->0), later), token) is None,
{
    lemma_position(live, token);
    let at = position(live, token)->0;
    let left = live.remove(at);
    assert forall|i: int| 0 <= i < left.len() implies (#[trigger] left[i]).0 != token by {
        if i < at {
            assert(left[i] == live[i]);
        } else {
            assert(left[i] == live[i + 1]);
            assert(live[at].0 == token);
        }
    }
    lemma_current(left, later);
    let kept = current(left, later);
    lemma_position(kept, token);
    if let Some(found) = position(kept, token) {
        assert(left.contains(kept[found]));
        let k = choose|k: int| 0 <= k < left.len() && left[k] == kept[found];
        assert(left[k].0 != token);
    }
}

/// There are never more confirmations than may be kept.
pub proof fn confirmations_are_bounded(
    list: Seq<(Seq<char>, Intent)>,
    entry: (Seq<char>, Intent),
)
    ensures
        with_one_more(list, entry).len() <= MAX_INTENTS,
        with_one_more(list, entry).last() == entry,
{
}

/// How many confirmations were issued.
pub open spec fn issues(events: Seq<Event>) -> nat
    decreases events.len(),
{
    if events.len() == 0 {
        0
    } else {
        issues(events.drop_last()) + (if events.last().deed is Issue {
            1nat
        } else {
            0nat
        })
    }
}

/// Whether some spending named a token.
pub open spec fn named(events: Seq<Event>, token: Seq<char>) -> bool {
    exists|i: int| 0 <= i < events.len() && (#[trigger] events[i]).deed == Deed::Consume(token)
}

/// Whether no confirmation was issued under a token.
pub open spec fn unissued(events: Seq<Event>, token: Seq<char>) -> bool {
    forall|i: int|
        0 <= i < events.len() ==> match (#[trigger] events[i]).deed {
            Deed::Issue(other, _) => other != token,
            _ => true,
        }
}

/// Whether no confirmation stands under a token.
pub open spec fn absent(list: Seq<(Seq<char>, Intent)>, token: Seq<char>) -> bool {
    forall|i: int| 0 <= i < list.len() ==> (#[trigger] list[i]).0 != token
}

/// Whether a confirmation stands at an index, alone under its token.
pub open spec fn stands(
    list: Seq<(Seq<char>, Intent)>,
    entry: (Seq<char>, Intent),
    at: int,
) -> bool {
    &&& 0 <= at < list.len()
    &&& list[at] == entry
    &&& forall|i: int| 0 <= i < list.len() && i != at ==> (#[trigger] list[i]).0 != entry.0
}

/// Whether a confirmation stands with at most so many behind it.
pub open spec fn kept(
    list: Seq<(Seq<char>, Intent)>,
    entry: (Seq<char>, Intent),
    behind: nat,
) -> bool {
    exists|at: int| #[trigger] stands(list, entry, at) && list.len() - 1 - at <= behind
}

/// Dropping ended confirmations leaves one that is good in its place among the
/// rest, with no more behind it.
proof fn lemma_current_keeps(
    list: Seq<(Seq<char>, Intent)>,
    entry: (Seq<char>, Intent),
    at: int,
    now: u64,
)
    requires
        stands(list, entry, at),
        entry.1.expires_at > now,
    ensures
        kept(current(list, now), entry, (list.len() - 1 - at) as nat),
    decreases list.len(),
{
    let front = list.drop_last();
    let left = current(list, now);
    if at == list.len() - 1 {
        lemma_current(front, now);
        let before = current(front, now);
        assert forall|i: int| 0 <= i < left.len() && i != before.len() implies (#[trigger] left[i]).0
            != entry.0 by {
            assert(left[i] == before[i]);
            let k = choose|k: int| 0 <= k < front.len() && front[k] == before[i];
            assert(list[k] == before[i]);
        }
        assert(stands(left, entry, before.len() as int));
    } else {
        assert(stands(front, entry, at)) by {
            assert forall|i: int| 0 <= i < front.len() && i != at implies (#[trigger] front[i]).0
                != entry.0 by {
                assert(front[i] == list[i]);
            }
        }
        lemma_current_keeps(front, entry, at, now);
        let before = current(front, now);
        let there = choose|there: int|
            #[trigger] stands(before, entry, there) && before.len() - 1 - there <= front.len() - 1
                - at;
        assert(list[list.len() - 1].0 != entry.0);
        assert forall|i: int| 0 <= i < left.len() && i != there implies (#[trigger] left[i]).0
            != entry.0 by {
            if i < before.len() {
                assert(left[i] == before[i]);
            }
        }
        assert(left[there] == before[there]);
        assert(stands(left, entry, there));
    }
}

/// Dropping ended confirmations brings none back.
proof fn lemma_current_absent(list: Seq<(Seq<char>, Intent)>, token: Seq<char>, now: u64)
    requires
        absent(list, token),
    ensures
        absent(current(list, now), token),
{
    lemma_current(list, now);
    let live = current(list, now);
    assert forall|i: int| 0 <= i < live.len() implies (#[trigger] live[i]).0 != token by {
        assert(list.contains(live[i]));
        let k = choose|k: int| 0 <= k < list.len() && list[k] == live[i];
    }
}

/// Nothing that is done brings a confirmation back that is gone.
proof fn lemma_after_absent(list: Seq<(Seq<char>, Intent)>, token: Seq<char>, event: Event)
    requires
        absent(list, token),
        event.deed matches Deed::Issue(other, _) ==> other != token,
    ensures
        absent(after(list, event), token),
{
    lemma_current_absent(list, token, event.at);
    let live = current(list, event.at);
    match event.deed {
        Deed::Issue(other, intent) => {
            let all = live.push((other, intent));
            assert(absent(all, token));
        },
        Deed::Inspect => {},
        Deed::Consume(other) => {
            lemma_position(live, other);
            if let Some(at) = position(live, other) {
                let left = live.remove(at);
                assert forall|i: int| 0 <= i < left.len() implies (#[trigger] left[i]).0
                    != token by {
                    if i < at {
                        assert(left[i] == live[i]);
                    } else {
                        assert(left[i] == live[i + 1]);
                    }
                }
            }
        },
    }
}

/// A confirmation that is good stays whatever is done with others, as long as
/// there is room for it.
proof fn lemma_after_keeps(
    list: Seq<(Seq<char>, Intent)>,
    entry: (Seq<char>, Intent),
    behind: nat,
    event: Event,
)
    requires
        kept(list, entry, behind),
        entry.1.expires_at > event.at,
        event.deed matches Deed::Issue(other, _) ==> other != entry.0 && behind + 1 < MAX_INTENTS,
    ensures
        event.deed == Deed::Consume(entry.0) ==> absent(after(list, event), entry.0),
        event.deed != Deed::Consume(entry.0) ==> kept(
            after(list, event),
            entry,
            behind + (if event.deed is Issue {
                1nat
            } else {
                0nat
            }),
        ),
{
    let first = choose|first: int|
        #[trigger] stands(list, entry, first) && list.len() - 1 - first <= behind;
    lemma_current_keeps(list, entry, first, event.at);
    let live = current(list, event.at);
    let at = choose|at: int|
        #[trigger] stands(live, entry, at) && live.len() - 1 - at <= list.len() - 1 - first;
    let left = after(list, event);
    match event.deed {
        Deed::Issue(other, intent) => {
            let all = live.push((other, intent));
            assert(stands(all, entry, at)) by {
                assert(all[at] == live[at]);
                assert forall|i: int| 0 <= i < all.len() && i != at implies (#[trigger] all[i]).0
                    != entry.0 by {
                    if i < live.len() {
                        assert(all[i] == live[i]);
                    }
                }
            }
            let dropped = all.len() - left.len();
            assert(left =~= all.skip(dropped));
            assert(left[at - dropped] == all[at]);
            assert forall|i: int| 0 <= i < left.len() && i != at - dropped implies (
            #[trigger] left[i]).0 != entry.0 by {
                assert(left[i] == all[i + dropped]);
            }
            assert(stands(left, entry, at - dropped));
        },
        Deed::Inspect => {
            assert(stands(left, entry, at));
        },
        Deed::Consume(other) => {
            lemma_position(live, other);
            if other == entry.0 {
                assert(live[at].0 == other);
                let gone = position(live, other)->0;
                assert(gone == at);
                assert forall|i: int| 0 <= i < left.len() implies (#[trigger] left[i]).0
                    != entry.0 by {
                    if i < at {
                        assert(left[i] == live[i]);
                    } else {
                        assert(left[i] == live[i + 1]);
                    }
                }
            } else if let Some(gone) = position(live, other) {
                let there = if gone < at {
                    at - 1
                } else {
                    at
                };
                assert(left[there] == live[at]);
                assert forall|i: int| 0 <= i < left.len() && i != there implies (
                #[trigger] left[i]).0 != entry.0 by {
                    if i < gone {
                        assert(left[i] == live[i]);
                    } else {
                        assert(left[i] == live[i + 1]);
                    }
                }
                assert(stands(left, entry, there));
            } else {
                assert(stands(left, entry, at));
            }
        },
    }
}

/// While a confirmation has not ended, it stands exactly until its token is named.
proof fn lemma_after_all(
    list: Seq<(Seq<char>, Intent)>,
    entry: (Seq<char>, Intent),
    events: Seq<Event>,
)
    requires
        kept(list, entry, 0),
        unissued(events, entry.0),
        issues(events) < MAX_INTENTS,
        forall|i: int| 0 <= i < events.len() ==> (#[trigger] events[i]).at < entry.1.expires_at,
    ensures
        named(events, entry.0) ==> absent(after_all(list, events), entry.0),
        !named(events, entry.0) ==> kept(after_all(list, events), entry, issues(events)),
    decreases events.len(),
{
    if events.len() > 0 {
        let before = events.drop_last();
        let last = events[events.len() - 1];
        assert(last == events.last());
        assert(unissued(before, entry.0)) by {
            assert forall|i: int| 0 <= i < before.len() implies match (
            #[trigger] before[i]).deed {
                Deed::Issue(other, _) => other != entry.0,
                _ => true,
            } by {
                assert(before[i] == events[i]);
            }
        }
        lemma_after_all(list, entry, before);
        let state = after_all(list, before);
        if named(before, entry.0) {
            let k = choose|k: int|
                0 <= k < before.len() && (#[trigger] before[k]).deed == Deed::Consume(entry.0);
            assert(events[k].deed == Deed::Consume(entry.0));
            lemma_after_absent(state, entry.0, last);
        } else {
            lemma_after_keeps(state, entry, issues(before), last);
            if named(events, entry.0) {
                let k = choose|k: int|
                    0 <= k < events.len() && (#[trigger] events[k]).deed == Deed::Consume(entry.0);
                if k < before.len() {
                    assert(before[k].deed == Deed::Consume(entry.0));
                }
                assert(last.deed == Deed::Consume(entry.0));
            }
        }
    }
}

/// Whatever is done, what stands under a token is what was issued under it.
proof fn lemma_only_issued(
    list: Seq<(Seq<char>, Intent)>,
    entry: (Seq<char>, Intent),
    events: Seq<Event>,
)
    requires
        forall|i: int| 0 <= i < list.len() && (#[trigger] list[i]).0 == entry.0 ==> list[i] == entry,
        unissued(events, entry.0),
    ensures
        forall|i: int|
            0 <= i < after_all(list, events).len() && (#[trigger] after_all(list, events)[i]).0
                == entry.0 ==> after_all(list, events)[i] == entry,
    decreases events.len(),
{
    if events.len() > 0 {
        let before = events.drop_last();
        let last = events[events.len() - 1];
        assert(last == events.last());
        assert(unissued(before, entry.0)) by {
            assert forall|i: int| 0 <= i < before.len() implies match (
            #[trigger] before[i]).deed {
                Deed::Issue(other, _) => other != entry.0,
                _ => true,
            } by {
                assert(before[i] == events[i]);
            }
        }
        lemma_only_issued(list, entry, before);
        let state = after_all(list, before);
        let live = current(state, last.at);
        lemma_current(state, last.at);
        assert forall|i: int| 0 <= i < live.len() && (#[trigger] live[i]).0 == entry.0 implies live[i]
            == entry by {
            assert(state.contains(live[i]));
            let k = choose|k: int| 0 <= k < state.len() && state[k] == live[i];
            assert(state[k].0 == entry.0);
        }
        let left = after_all(list, events);
        assert(left == after(state, last));
        assert forall|i: int| 0 <= i < left.len() && (#[trigger] left[i]).0 == entry.0 implies left[i]
            == entry by {
            match last.deed {
                Deed::Issue(other, intent) => {
                    let all = live.push((other, intent));
                    let dropped = all.len() - left.len();
                    assert(left[i] == all[i + dropped]);
                    if i + dropped < live.len() {
                        assert(left[i] == live[i + dropped]);
                    }
                },
                Deed::Inspect => {},
                Deed::Consume(other) => {
                    lemma_position(live, other);
                    if let Some(gone) = position(live, other) {
                        if i < gone {
                            assert(left[i] == live[i]);
                        } else {
                            assert(left[i] == live[i + 1]);
                        }
                    }
                },
            }
        }
    }
}

/// A confirmation is bound to its profile, good once and for two minutes: whatever
/// was done with the confirmations since it was issued, spending its token is
/// allowed exactly for the profile it was issued for, before its time is over, and
/// where no spending named the token before, and it then gives what was issued.
/// Reading confirmations, issuing fewer others than may be kept, and spending
/// others change nothing about that. Nothing was done later than now, and no other
/// confirmation was given the same token.
pub proof fn a_confirmation_is_bound_single_use_and_brief(
    list: Seq<(Seq<char>, Intent)>,
    token: Seq<char>,
    intent: Intent,
    issued_at: u64,
    events: Seq<Event>,
    profile: Seq<char>,
    now: u64,
)
    requires
        absent(list, token),
        intent.expires_at == issued_at + INTENT_TTL,
        unissued(events, token),
        issues(events) < MAX_INTENTS,
        forall|i: int| 0 <= i < events.len() ==> (#[trigger] events[i]).at <= now,
    ensures
        ({
            let begun = after(list, Event { at: issued_at, deed: Deed::Issue(token, intent) });
            let state = after_all(begun, events);
            authorized(state, token, profile, now) == (if profile == intent.profile && now
                < issued_at + INTENT_TTL && !named(events, token) {
                Some(intent)
            } else {
                None
            })
        }),
{
    let entry = (token, intent);
    let begun = after(list, Event { at: issued_at, deed: Deed::Issue(token, intent) });
    let state = after_all(begun, events);
    let live = current(state, now);
    lemma_current_absent(list, token, issued_at);
    let all = current(list, issued_at).push(entry);
    assert(begun.last() == entry);
    assert forall|i: int| 0 <= i < begun.len() && i != begun.len() - 1 implies (
    #[trigger] begun[i]).0 != token by {
        assert(begun[i] == all[i + (all.len() - begun.len())]);
    }
    assert(stands(begun, entry, begun.len() - 1));
    lemma_position(live, token);
    if now < intent.expires_at {
        lemma_after_all(begun, entry, events);
        if named(events, token) {
            lemma_current_absent(state, token, now);
        } else {
            let first = choose|first: int|
                #[trigger] stands(state, entry, first) && state.len() - 1 - first <= issues(
                    events,
                );
            lemma_current_keeps(state, entry, first, now);
            let at = choose|at: int| #[trigger] stands(live, entry, at);
            assert(live[at].0 == token);
        }
    } else {
        lemma_only_issued(begun, entry, events);
        an_ended_confirmation_authorizes_nothing(state, token, now);
    }
}

/// Sixty-four confirmations stand at most, the newest among them, and each for two
/// minutes; what is said of a spent one is not what is said where the profile changed.
pub proof fn the_newest_sixty_four_confirmations_stand(
    list: Seq<(Seq<char>, Intent)>,
    entry: (Seq<char>, Intent),
)
    ensures
        with_one_more(list, entry).len() == (if list.len() < 64 {
            list.len() + 1
        } else {
            64
        }),
        with_one_more(list, entry).last() == entry,
        list.len() < 64 ==> with_one_more(list, entry) == list.push(entry),
        list.len() == 64 ==> with_one_more(list, entry) == list.skip(1).push(entry),
        INTENT_TTL == 2 * 60 * 1000,
        SPENT@ == "the install confirmation expired or was already used; preview it again"@,
        MOVED@ == "the active profile changed after the install preview; preview it again"@,
{
    if list.len() == 64 {
        assert(with_one_more(list, entry) =~= list.skip(1).push(entry));
    }
}

/// A confirmation is seen as what it confirms, part by part, and confirmations one for
/// one and in order.
pub proof fn a_confirmation_is_seen_as_what_it_confirms(
    intent: InstallIntent,
    intents: PluginIntents,
    at: int,
)
    ensures
        intent@.profile == intent.profile@,
        intent@.spec == intent.spec@,
        intent@.source_id == intent.source_id@,
        intent@.item_id == intent.item_id@,
        intent@.display_name == intent.display_name@,
        intent@.expires_at == intent.expires_at,
        intents@.len() == intents.entries@.len(),
        0 <= at < intents.entries@.len() ==> intents@[at] == (
            intents.entries@[at].0@,
            intents.entries@[at].1@,
        ),
{
}

} // verus!
