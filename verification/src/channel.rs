//! Which Harness release the managed runtime tracks.
//!
//! The build pins one known-good release ([`install::VERSION`]): every patch the
//! installer applies is verified against exactly that source. The channel lets
//! the user aim the installer at another release instead. Registry lookups answer
//! what exists; preflight answers whether Studio can live with it; this module
//! only records the choice.
use vstd::prelude::*;

use crate::catalog;
use crate::catalog::Rule;
use crate::install;
use crate::json;
use crate::json::{Document, Json};
use crate::text;
use crate::version;
use crate::version::Release;

verus! {

/// Where the registry describes every release.
pub const REGISTRY_DOCUMENT: &'static str = "https://registry.npmjs.org/@deepseek-ai/dsh";

/// The user's release choice plus the registry facts gathered so far.
#[derive(Debug)]
pub struct Channel {
    /// Registry version the user pinned, or none for the built-in release.
    pub pinned: Option<String>,
    /// Every version the registry advertised at the last refresh, newest first.
    pub known: Vec<String>,
    /// `dist-tags.latest` at the last refresh.
    pub latest: Option<String>,
}

impl Default for Channel {
    /// No choice, and nothing known.
    fn default() -> (channel: Channel)
        ensures
            channel.pinned is None,
            channel.known@.len() == 0,
            channel.latest is None,
    {
        Channel { pinned: None, known: Vec::new(), latest: None }
    }
}

/// The recorded channel, tolerating a missing or stale record.
pub fn load(recorded: Option<Channel>) -> (channel: Channel)
    ensures
        match recorded {
            Some(found) => channel == found,
            None => channel.pinned is None && channel.known@.len() == 0 && channel.latest is None,
        },
{
    match recorded {
        Some(found) => found,
        None => Channel::default(),
    }
}

/// Pin a registry version, or return to the built-in release with `None`.
pub fn pin(channel: Channel, version: Option<String>) -> (changed: Channel)
    ensures
        changed == (Channel { pinned: version, ..channel }),
{
    Channel { pinned: version, known: channel.known, latest: channel.latest }
}

/// The release the installer and the runtime contract should expect.
pub fn selected(channel: &Channel) -> (version: String)
    ensures
        version@ == (match channel.pinned {
            Some(pinned) => pinned@,
            None => install::VERSION@,
        }),
{
    match &channel.pinned {
        Some(pinned) => pinned.clone(),
        None => install::VERSION.to_owned(),
    }
}

/// The versions a registry document lists.
pub open spec fn listed(document: Document) -> Seq<Seq<char>> {
    match document.get("versions"@) {
        Some(Document::Object(members)) => json::names(members),
        _ => Seq::empty(),
    }
}

/// Whether no text of a list is a release number.
pub open spec fn no_releases(list: Seq<Seq<char>>) -> bool {
    forall|i: int| 0 <= i < list.len() ==> version::release(#[trigger] list[i]) is None
}

/// Whether every text of a list comes after all that follow it.
pub open spec fn descending(list: Seq<Seq<char>>) -> bool {
    forall|i: int, j: int| 0 <= i < j < list.len() ==> text::earlier(list[j], list[i])
}

/// Puts a version in its place: before the first one that it outranks, and among
/// names that are no versions before the first one that comes before it.
fn place(list: &mut Vec<String>, entry: String)
    requires
        text::texts(old(list)@).no_duplicates(),
        !text::texts(old(list)@).contains(entry@),
    ensures
        exists|at: int|
            0 <= at <= old(list)@.len() && #[trigger] text::texts(old(list)@).insert(at, entry@)
                == text::texts(final(list)@),
        no_releases(text::texts(old(list)@)) && version::release(entry@) is None && descending(
            text::texts(old(list)@),
        ) ==> descending(text::texts(final(list)@)),
{
    let ghost all = text::texts(list@);
    let ghost unread = no_releases(all) && version::release(entry@) is None && descending(all);
    let mut at: usize = 0;
    while at < list.len()
        invariant
            at <= list@.len(),
            all == text::texts(list@),
            all == text::texts(old(list)@),
            !all.contains(entry@),
            unread == (no_releases(all) && version::release(entry@) is None && descending(all)),
            unread ==> forall|i: int| 0 <= i < at ==> text::earlier(entry@, #[trigger] all[i]),
        decreases list.len() - at,
    {
        let first = match version::newer(&entry, &list[at]) {
            Some(newer) => newer,
            None => text::comes_before(&list[at], &entry),
        };
        proof {
            assert(all[at as int] != entry@);
            text::lemma_earlier_total(all[at as int], entry@);
        }
        if first {
            list.insert(at, entry);
            let ghost after = all.insert(at as int, entry@);
            assert(text::texts(list@) =~= after);
            proof {
                if unread {
                    assert forall|i: int, j: int| 0 <= i < j < after.len() implies text::earlier(
                        after[j],
                        after[i],
                    ) by {
                        if i == at {
                            assert(after[j] == all[j - 1]);
                            if j - 1 > at {
                                text::lemma_earlier_transitive(
                                    all[j - 1],
                                    all[at as int],
                                    entry@,
                                );
                            }
                        } else if j == at {
                            assert(after[i] == all[i]);
                        } else {
                            let a = if i < at {
                                i
                            } else {
                                i - 1
                            };
                            let b = if j < at {
                                j
                            } else {
                                j - 1
                            };
                            assert(after[i] == all[a] && after[j] == all[b]);
                        }
                    }
                }
            }
            return;
        }
        at += 1;
    }
    list.push(entry);
    let ghost after = all.insert(at as int, entry@);
    assert(text::texts(list@) =~= after);
    proof {
        if unread {
            assert forall|i: int, j: int| 0 <= i < j < after.len() implies text::earlier(
                after[j],
                after[i],
            ) by {
                if j == at {
                    assert(after[i] == all[i]);
                } else {
                    assert(after[i] == all[i] && after[j] == all[j]);
                }
            }
        }
    }
}

/// Sorts names of which some may be no versions.
fn sort_mixed(list: &Vec<String>) -> (sorted: Vec<String>)
    requires
        text::texts(list@).no_duplicates(),
    ensures
        catalog::same_texts(text::texts(sorted@), text::texts(list@)),
        no_releases(text::texts(list@)) ==> descending(text::texts(sorted@)),
{
    let ghost all = text::texts(list@);
    let mut sorted: Vec<String> = Vec::new();
    let mut index: usize = 0;
    while index < list.len()
        invariant
            index <= list@.len(),
            all == text::texts(list@),
            all.no_duplicates(),
            catalog::same_texts(text::texts(sorted@), all.take(index as int)),
            no_releases(all) ==> descending(text::texts(sorted@)),
        decreases list.len() - index,
    {
        let ghost before = text::texts(sorted@);
        let ghost entry = all[index as int];
        assert(!all.take(index as int).contains(entry));
        assert(!before.contains(entry));
        proof {
            if no_releases(all) {
                assert forall|i: int| 0 <= i < before.len() implies version::release(
                    #[trigger] before[i],
                ) is None by {
                    assert(before.contains(before[i]));
                    let k = choose|k: int| 0 <= k < index && all.take(index as int)[k] == before[i];
                    assert(all[k] == before[i]);
                }
            }
        }
        place(&mut sorted, list[index].clone());
        proof {
            let at = choose|at: int|
                0 <= at <= before.len() && #[trigger] before.insert(at, entry) == text::texts(
                    sorted@,
                );
            catalog::lemma_inserted_text(before, at, entry);
            let taken = all.take(index + 1);
            assert(taken =~= all.take(index as int).push(entry));
            assert forall|name: Seq<char>| text::texts(sorted@).contains(name) <==> taken.contains(
                name,
            ) by {
                if taken.contains(name) {
                    let k = choose|k: int| 0 <= k < taken.len() && taken[k] == name;
                    if k < index {
                        assert(all.take(index as int)[k] == name);
                    }
                }
                if all.take(index as int).contains(name) {
                    let k = choose|k: int|
                        0 <= k < index && all.take(index as int)[k] == name;
                    assert(taken[k] == name);
                }
                assert(taken[index as int] == entry);
            }
        }
        index += 1;
    }
    assert(all.take(index as int) =~= all);
    sorted
}

/// Whether every name of a list is a release number.
fn all_read(list: &Vec<String>) -> (answer: bool)
    ensures
        answer == catalog::all_releases(text::texts(list@)),
{
    let mut index: usize = 0;
    while index < list.len()
        invariant
            index <= list@.len(),
            forall|i: int|
                0 <= i < index ==> version::release(#[trigger] text::texts(list@)[i]) is Some,
        decreases list.len() - index,
    {
        if Release::parse(&list[index]).is_none() {
            assert(version::release(text::texts(list@)[index as int]) is None);
            return false;
        }
        index += 1;
    }
    true
}

/// Takes over the registry facts: every published version, newest first, and
/// `dist-tags.latest`.
///
/// Names that are no versions are compared as texts. Where a registry mixes them
/// with versions the two comparisons need not agree, so that all that is said of
/// the order is what holds of versions alone and of other names alone.
pub fn refresh(channel: Channel, document: &Json) -> (changed: Channel)
    requires
        json::ordered(document@),
    ensures
        changed.pinned == channel.pinned,
        text::seen(changed.latest) == (match document@.within("dist-tags"@, "latest"@) {
            Some(latest) => latest.text(),
            None => None,
        }),
        catalog::same_texts(text::texts(changed.known@), listed(document@)),
        catalog::all_releases(listed(document@)) ==> catalog::in_order(
            text::texts(changed.known@),
            Rule::Newest,
        ),
        no_releases(listed(document@)) ==> descending(text::texts(changed.known@)),
{
    let names = match document.get("versions") {
        Some(versions) => match versions.names() {
            Some(names) => names,
            None => Vec::new(),
        },
        None => Vec::new(),
    };
    proof {
        match document@.get("versions"@) {
            Some(Document::Object(members)) => {
                json::lemma_member_ordered(document@, "versions"@);
                json::lemma_names_distinct(members);
            },
            _ => {
                assert(text::texts(names@) =~= Seq::empty());
            },
        }
        assert(text::texts(names@) == listed(document@));
    }
    let known = if all_read(&names) {
        let sorted = catalog::ordered(&names, &Rule::Newest);
        proof {
            if no_releases(listed(document@)) {
                if text::texts(names@).len() > 0 {
                    assert(version::release(text::texts(names@)[0]) is Some);
                }
                assert(text::texts(sorted@).len() == 0);
            }
        }
        sorted
    } else {
        sort_mixed(&names)
    };
    Channel {
        pinned: channel.pinned,
        known,
        latest: document.text_within("dist-tags", "latest"),
    }
}

/// The registry release worth telling the user about, if any.
pub open spec fn update(latest: Option<Seq<char>>, installed: Option<Seq<char>>) -> Option<
    Seq<char>,
> {
    match latest {
        Some(release) => {
            let current = match installed {
                Some(version) => version,
                None => install::VERSION@,
            };
            if version::release(release) is Some && version::release(current) is Some {
                if version::outranks(release, current) {
                    Some(release)
                } else {
                    None
                }
            } else if release != current {
                Some(release)
            } else {
                None
            }
        },
        None => None,
    }
}

/// The registry release worth telling the user about, from whether it is newer
/// than the current one; `newer` is nothing where that cannot be told.
pub fn worth_telling(latest: String, current: &str, newer: Option<bool>) -> (release: Option<
    String,
>)
    ensures
        text::seen(release) == (if (match newer {
            Some(answer) => answer,
            None => latest@ != current@,
        }) {
            Some(latest@)
        } else {
            None
        }),
{
    let tell = match newer {
        Some(answer) => answer,
        None => !text::same(&latest, current),
    };
    if tell {
        Some(latest)
    } else {
        None
    }
}

/// The registry release worth telling the user about, when it is newer than
/// everything Studio has seen or installed. It is never the installed one.
pub fn update_available(channel: &Channel, installed: Option<&str>) -> (release: Option<String>)
    ensures
        text::seen(release) == update(
            text::seen(channel.latest),
            match installed {
                Some(version) => Some(version@),
                None => None,
            },
        ),
        release matches Some(found) ==> found@ != (match installed {
            Some(version) => version@,
            None => install::VERSION@,
        }),
{
    let latest = match &channel.latest {
        Some(latest) => latest.clone(),
        None => {
            return None;
        },
    };
    let current = match installed {
        Some(version) => version,
        None => install::VERSION,
    };
    let newer = version::newer(&latest, current);
    worth_telling(latest, current, newer)
}

/// The user is told of the latest release exactly where it outranks the installed
/// one, or, where either is no version, where it is another one; a release that is
/// installed is never news, and without an installed one the built-in counts.
pub proof fn only_a_newer_release_is_news(latest: Seq<char>, installed: Seq<char>)
    ensures
        ({
            let news = update(Some(latest), Some(installed));
            let read = version::release(latest) is Some && version::release(installed) is Some;
            &&& news is Some ==> news == Some(latest)
            &&& read ==> (news is Some <==> version::outranks(latest, installed))
            &&& !read ==> (news is Some <==> latest != installed)
            &&& update(None, Some(installed)) is None
            &&& update(Some(latest), None) == update(Some(latest), Some("0.1.2-rc.1"@))
        }),
{
}

/// The versions a document lists are the names of its member for them, and there are
/// none where it has no such member.
pub proof fn versions_are_listed_by_name(document: Document, name: Seq<char>)
    ensures
        listed(document).contains(name) <==> document.within("versions"@, name) is Some,
{
    if let Some(Document::Object(members)) = document.get("versions"@) {
        let names = json::names(members);
        json::lemma_member(members, name);
        if names.contains(name) {
            let k = choose|k: int| 0 <= k < names.len() && names[k] == name;
            assert(members[k].0 == name);
        }
        if let Some(found) = json::member(members, name) {
            let k = choose|k: int| 0 <= k < members.len() && #[trigger] members[k] == (name, found);
            assert(names[k] == name);
        }
    }
}

/// Names that are no versions stand in reverse: one may stand behind others exactly
/// where it comes before each of them. No release is among them.
pub proof fn other_names_stand_in_reverse(list: Seq<Seq<char>>, name: Seq<char>)
    ensures
        descending(list.push(name)) <==> descending(list) && forall|i: int|
            0 <= i < list.len() ==> text::earlier(name, #[trigger] list[i]),
        no_releases(list.push(name)) <==> no_releases(list) && version::release(name) is None,
        no_releases(Seq::empty()),
{
    let longer = list.push(name);
    if descending(longer) {
        assert forall|i: int, j: int| 0 <= i < j < list.len() implies text::earlier(
            list[j],
            list[i],
        ) by {
            assert(text::earlier(longer[j], longer[i]));
        }
        assert forall|i: int| 0 <= i < list.len() implies text::earlier(name, #[trigger] list[i]) by {
            assert(text::earlier(longer[list.len() as int], longer[i]));
        }
    }
    if no_releases(longer) {
        assert forall|i: int| 0 <= i < list.len() implies version::release(
            #[trigger] list[i],
        ) is None by {
            assert(longer[i] == list[i]);
        }
        assert(longer[list.len() as int] == name);
    }
}

} // verus!
