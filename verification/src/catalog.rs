//! The published releases of the Harness, as a bounded list of exact versions.
//!
//! The registry is an authority for what exists, not for what this desktop build
//! can safely boot. Metadata never certifies compatibility: a selected version
//! must pass the isolated install and startup checks before it replaces the
//! current runtime.
use vstd::prelude::*;

use crate::error::{Error, Fault};
use crate::install;
use crate::text;
use crate::version;
use crate::version::Release;

verus! {

/// Where the releases of the Harness are published.
pub const HARNESSES_REGISTRY: &'static str = "https://registry.npmjs.org/@deepseek-ai%2Fdsh";

/// How many releases are shown at most.
pub const MAX_HARNESS_VERSIONS: usize = 50;

/// A published Harness release, annotated with the Studio runtime contract.
#[derive(Debug)]
pub struct HarnessVersion {
    pub version: String,
    /// Whether this is the bundled baseline.
    pub qualified: bool,
    pub installed: bool,
}

/// How releases are put in order.
pub enum Rule {
    /// The newest first.
    Newest,
    /// The bundled and the installed one first, then the newest.
    Retained(Option<String>),
}

/// Whether a release is kept whatever its age: the bundled and the installed one.
pub open spec fn retained(version: Seq<char>, installed: Option<Seq<char>>) -> bool {
    version == install::VERSION@ || installed == Some(version)
}

/// Whether a release goes before another where the bundled and the installed one
/// go first.
pub open spec fn preferred(
    left: Seq<char>,
    right: Seq<char>,
    installed: Option<Seq<char>>,
) -> bool {
    if retained(left, installed) == retained(right, installed) {
        version::outranks(left, right)
    } else {
        retained(left, installed)
    }
}

impl Rule {
    /// Whether a release goes before another.
    pub open spec fn ahead(self, left: Seq<char>, right: Seq<char>) -> bool {
        match self {
            Rule::Newest => version::outranks(left, right),
            Rule::Retained(installed) => preferred(left, right, text::seen(installed)),
        }
    }

    /// Whether a release goes before another. Of two that differ one goes before
    /// the other, and what goes before a release goes before all that it precedes.
    fn goes_ahead(&self, left: &str, right: &str) -> (answer: bool)
        requires
            version::release(left@) is Some,
            version::release(right@) is Some,
        ensures
            answer == self.ahead(left@, right@),
            answer ==> !self.ahead(right@, left@),
            !answer && left@ != right@ ==> self.ahead(right@, left@),
            answer ==> forall|third: Seq<char>|
                version::release(third) is Some && #[trigger] self.ahead(right@, third)
                    ==> self.ahead(left@, third),
    {
        let newer = match version::newer(left, right) {
            Some(answer) => answer,
            None => false,
        };
        match self {
            Rule::Newest => newer,
            Rule::Retained(installed) => {
                let keep_left = text::same(left, install::VERSION) || install::is_text(
                    installed,
                    left,
                );
                let keep_right = text::same(right, install::VERSION) || install::is_text(
                    installed,
                    right,
                );
                if keep_left == keep_right {
                    newer
                } else {
                    keep_left
                }
            },
        }
    }
}

/// Whether every text of a list is a release number.
pub open spec fn all_releases(list: Seq<Seq<char>>) -> bool {
    forall|i: int| 0 <= i < list.len() ==> version::release(#[trigger] list[i]) is Some
}

/// Whether every release of a list goes before all that follow it.
pub open spec fn in_order(list: Seq<Seq<char>>, rule: Rule) -> bool {
    forall|i: int, j: int| 0 <= i < j < list.len() ==> rule.ahead(list[i], list[j])
}

/// Puts a release in its place.
fn place(list: &mut Vec<String>, entry: String, rule: &Rule)
    requires
        all_releases(text::texts(old(list)@)),
        in_order(text::texts(old(list)@), *rule),
        version::release(entry@) is Some,
        !text::texts(old(list)@).contains(entry@),
    ensures
        in_order(text::texts(final(list)@), *rule),
        exists|at: int|
            0 <= at <= old(list)@.len() && #[trigger] text::texts(old(list)@).insert(at, entry@)
                == text::texts(final(list)@),
{
    let ghost all = text::texts(list@);
    let mut at: usize = 0;
    while at < list.len()
        invariant
            at <= list@.len(),
            all == text::texts(list@),
            all == text::texts(old(list)@),
            all_releases(all),
            in_order(all, *rule),
            version::release(entry@) is Some,
            !all.contains(entry@),
            forall|i: int| 0 <= i < at ==> rule.ahead(#[trigger] all[i], entry@),
        decreases list.len() - at,
    {
        assert(version::release(all[at as int]) is Some);
        assert(all[at as int] != entry@);
        if rule.goes_ahead(&entry, &list[at]) {
            list.insert(at, entry);
            let ghost after = all.insert(at as int, entry@);
            assert(text::texts(list@) =~= after);
            assert forall|i: int, j: int| 0 <= i < j < after.len() implies rule.ahead(
                after[i],
                after[j],
            ) by {
                if i == at {
                    assert(after[j] == all[j - 1]);
                    if j - 1 > at {
                        assert(rule.ahead(all[at as int], all[j - 1]));
                        assert(version::release(all[j - 1]) is Some);
                    }
                } else if j == at {
                    assert(after[i] == all[i]);
                } else {
                    let a = if i < at {
                        i
                    } else {
                        i - 1
                    };
                    let b = if j < at {
                        j
                    } else {
                        j - 1
                    };
                    assert(after[i] == all[a] && after[j] == all[b]);
                }
            }
            return;
        }
        at += 1;
    }
    list.push(entry);
    let ghost after = all.insert(at as int, entry@);
    assert(text::texts(list@) =~= after);
    assert forall|i: int, j: int| 0 <= i < j < after.len() implies rule.ahead(
        after[i],
        after[j],
    ) by {
        if j == at {
            assert(after[i] == all[i]);
        } else {
            assert(after[i] == all[i] && after[j] == all[j]);
        }
    }
}

/// Whether two lists hold the same texts, each once.
pub open spec fn same_texts(left: Seq<Seq<char>>, right: Seq<Seq<char>>) -> bool {
    &&& left.len() == right.len()
    &&& left.no_duplicates()
    &&& forall|name: Seq<char>| left.contains(name) <==> right.contains(name)
}

/// A list with one text more holds the text and what it held before.
pub proof fn lemma_inserted_text(list: Seq<Seq<char>>, at: int, entry: Seq<char>)
    requires
        0 <= at <= list.len(),
        list.no_duplicates(),
        !list.contains(entry),
    ensures
        list.insert(at, entry).no_duplicates(),
        list.insert(at, entry).len() == list.len() + 1,
        forall|name: Seq<char>|
            list.insert(at, entry).contains(name) <==> name == entry || list.contains(name),
{
    let after = list.insert(at, entry);
    assert forall|name: Seq<char>| after.contains(name) <==> name == entry || list.contains(
        name,
    ) by {
        if after.contains(name) {
            let i = choose|i: int| 0 <= i < after.len() && after[i] == name;
            if i < at {
                assert(list[i] == name);
            } else if i > at {
                assert(list[i - 1] == name);
            }
        }
        if name == entry {
            assert(after[at] == name);
        } else if list.contains(name) {
            let i = choose|i: int| 0 <= i < list.len() && list[i] == name;
            if i < at {
                assert(after[i] == name);
            } else {
                assert(after[i + 1] == name);
            }
        }
    }
    assert forall|i: int, j: int| 0 <= i < after.len() && 0 <= j < after.len() && i != j implies
        after[i] != after[j] by {
        let a = if i < at {
            i
        } else {
            i - 1
        };
        let b = if j < at {
            j
        } else {
            j - 1
        };
        if i == at {
            assert(after[j] == list[b]);
        } else if j == at {
            assert(after[i] == list[a]);
        } else {
            assert(after[i] == list[a] && after[j] == list[b]);
        }
    }
}

/// A list of releases without repetition, in order.
pub(crate) fn ordered(list: &Vec<String>, rule: &Rule) -> (sorted: Vec<String>)
    requires
        all_releases(text::texts(list@)),
        text::texts(list@).no_duplicates(),
    ensures
        in_order(text::texts(sorted@), *rule),
        same_texts(text::texts(sorted@), text::texts(list@)),
{
    let ghost all = text::texts(list@);
    let mut sorted: Vec<String> = Vec::new();
    let mut index: usize = 0;
    while index < list.len()
        invariant
            index <= list@.len(),
            all == text::texts(list@),
            all_releases(all),
            all.no_duplicates(),
            in_order(text::texts(sorted@), *rule),
            same_texts(text::texts(sorted@), all.take(index as int)),
        decreases list.len() - index,
    {
        let ghost before = text::texts(sorted@);
        let ghost entry = all[index as int];
        assert(!all.take(index as int).contains(entry));
        assert(!before.contains(entry));
        assert forall|i: int| 0 <= i < before.len() implies version::release(
            #[trigger] before[i],
        ) is Some by {
            assert(before.contains(before[i]));
            let k = choose|k: int| 0 <= k < index && all.take(index as int)[k] == before[i];
            assert(all[k] == before[i]);
        }
        place(&mut sorted, list[index].clone(), rule);
        proof {
            let at = choose|at: int|
                0 <= at <= before.len() && #[trigger] before.insert(at, entry) == text::texts(
                    sorted@,
                );
            lemma_inserted_text(before, at, entry);
            let taken = all.take(index + 1);
            assert(taken =~= all.take(index as int).push(entry));
            assert forall|name: Seq<char>| text::texts(sorted@).contains(name) <==> taken.contains(
                name,
            ) by {
                if taken.contains(name) {
                    let k = choose|k: int| 0 <= k < taken.len() && taken[k] == name;
                    if k < index {
                        assert(all.take(index as int)[k] == name);
                    }
                }
                if all.take(index as int).contains(name) {
                    let k = choose|k: int|
                        0 <= k < index && all.take(index as int)[k] == name;
                    assert(taken[k] == name);
                }
                assert(taken[index as int] == entry);
            }
        }
        index += 1;
    }
    assert(all.take(index as int) =~= all);
    sorted
}

/// Whether a name is an exact version without build metadata.
pub open spec fn offered(name: Seq<char>) -> bool {
    version::release(name) matches Some(number) && number.build.len() == 0
}

/// The names among these that are exact versions, in order.
pub open spec fn offers(names: Seq<Seq<char>>) -> Seq<Seq<char>> {
    names.filter(|name: Seq<char>| offered(name))
}

/// Whether a list is what is shown of the offers: the newest first, and where
/// there are too many, those that go first when the bundled and the installed
/// release do.
pub open spec fn selection(
    kept: Seq<Seq<char>>,
    all: Seq<Seq<char>>,
    installed: Option<Seq<char>>,
) -> bool {
    &&& kept.no_duplicates()
    &&& kept.len() == (if all.len() <= MAX_HARNESS_VERSIONS {
        all.len()
    } else {
        MAX_HARNESS_VERSIONS as nat
    })
    &&& forall|name: Seq<char>| #[trigger] kept.contains(name) ==> all.contains(name)
    &&& in_order(kept, Rule::Newest)
    &&& forall|name: Seq<char>, i: int|
        #![trigger all.contains(name), kept[i]]
        all.contains(name) && !kept.contains(name) && 0 <= i < kept.len() ==> preferred(
            kept[i],
            name,
            installed,
        )
}

/// Whatever else is left out, the bundled and the installed release are shown
/// where they are offered.
pub proof fn the_bundled_and_installed_releases_are_shown(
    kept: Seq<Seq<char>>,
    all: Seq<Seq<char>>,
    installed: Option<Seq<char>>,
    name: Seq<char>,
)
    requires
        all.no_duplicates(),
        selection(kept, all, installed),
        retained(name, installed),
        all.contains(name),
    ensures
        kept.contains(name),
{
    if !kept.contains(name) {
        if all.len() <= MAX_HARNESS_VERSIONS {
            lemma_all_kept(kept, all, name);
        } else {
            assert(kept.len() == 50);
            assert(preferred(kept[0], name, installed));
            assert(preferred(kept[1], name, installed));
            assert(kept.contains(kept[0]) && kept.contains(kept[1]));
            assert(kept[0] != kept[1]);
            assert(preferred(kept[2], name, installed));
            assert(kept.contains(kept[2]));
            assert(kept[0] != kept[2] && kept[1] != kept[2]);
        }
    }
}

/// As many texts out of a list without repetition as it has are all of them.
proof fn lemma_all_kept(kept: Seq<Seq<char>>, all: Seq<Seq<char>>, name: Seq<char>)
    requires
        kept.no_duplicates(),
        all.no_duplicates(),
        kept.len() == all.len(),
        forall|other: Seq<char>| #[trigger] kept.contains(other) ==> all.contains(other),
        all.contains(name),
    ensures
        kept.contains(name),
{
    kept.unique_seq_to_set();
    all.unique_seq_to_set();
    let smaller = kept.to_set();
    let larger = all.to_set();
    assert(smaller.subset_of(larger)) by {
        assert forall|other: Seq<char>| smaller.contains(other) implies larger.contains(other) by {
            assert(kept.contains(other));
        }
    }
    vstd::set_lib::lemma_subset_equality(smaller, larger);
    assert(larger.contains(name));
    assert(smaller.contains(name));
}

/// The releases are shown as annotated versions.
pub open spec fn annotated(
    list: Seq<HarnessVersion>,
    kept: Seq<Seq<char>>,
    installed: Option<Seq<char>>,
) -> bool {
    &&& list.len() == kept.len()
    &&& forall|i: int|
        0 <= i < list.len() ==> {
            &&& (#[trigger] list[i]).version@ == kept[i]
            &&& list[i].qualified == (kept[i] == install::VERSION@)
            &&& list[i].installed == (installed == Some(kept[i]))
        }
}

/// The names of annotated versions.
pub open spec fn version_names(list: Seq<HarnessVersion>) -> Seq<Seq<char>> {
    Seq::new(list.len(), |i: int| list[i].version@)
}

/// Keeps the names that are exact versions.
fn keep_offers(names: &Vec<String>) -> (kept: Vec<String>)
    ensures
        text::texts(kept@) == offers(text::texts(names@)),
        all_releases(text::texts(kept@)),
{
    let ghost wanted = |name: Seq<char>| offered(name);
    let ghost all = text::texts(names@);
    let mut kept: Vec<String> = Vec::new();
    let mut index: usize = 0;
    assert(all.take(0).filter(wanted) =~= Seq::empty()) by {
        reveal(Seq::filter);
    }
    assert(text::texts(kept@) =~= Seq::empty());
    while index < names.len()
        invariant
            index <= names@.len(),
            all == text::texts(names@),
            wanted == (|name: Seq<char>| offered(name)),
            text::texts(kept@) == all.take(index as int).filter(wanted),
            all_releases(text::texts(kept@)),
        decreases names.len() - index,
    {
        let ghost done = text::texts(kept@);
        proof {
            reveal(Seq::filter);
            assert(all.take(index + 1).drop_last() =~= all.take(index as int));
        }
        let keep = match Release::parse(&names[index]) {
            Some(number) => !number.built(),
            None => false,
        };
        if keep {
            kept.push(names[index].clone());
            assert(text::texts(kept@) =~= done.push(all[index as int]));
        }
        index += 1;
    }
    assert(all.take(index as int) =~= all);
    kept
}

/// Offers of names without repetition are without repetition.
proof fn lemma_offers(names: Seq<Seq<char>>)
    requires
        names.no_duplicates(),
    ensures
        offers(names).no_duplicates(),
        forall|name: Seq<char>| offers(names).contains(name) ==> names.contains(name),
    decreases names.len(),
{
    let wanted = |name: Seq<char>| offered(name);
    reveal(Seq::filter);
    if names.len() > 0 {
        let front = names.drop_last();
        lemma_offers(front);
        assert(front.filter(wanted) == offers(front));
        let before = offers(front);
        let after = offers(names);
        assert forall|name: Seq<char>| after.contains(name) implies names.contains(name) by {
            if before.contains(name) {
                assert(front.contains(name));
                let k = choose|k: int| 0 <= k < front.len() && front[k] == name;
                assert(names[k] == name);
            } else {
                assert(name == names.last());
            }
        }
        if offered(names.last()) {
            assert(after =~= before.push(names.last()));
            assert(!before.contains(names.last())) by {
                if before.contains(names.last()) {
                    assert(front.contains(names.last()));
                    let k = choose|k: int| 0 <= k < front.len() && front[k] == names.last();
                    assert(names[k] == names[names.len() - 1]);
                }
            }
        } else {
            assert(after =~= before);
        }
    } else {
        assert(offers(names) =~= Seq::empty());
    }
}

/// Picks what is shown of the offers among names, and annotates it.
pub fn select_versions(names: &Vec<String>, installed: &Option<String>) -> (list: Vec<
    HarnessVersion,
>)
    requires
        text::texts(names@).no_duplicates(),
    ensures
        selection(
            version_names(list@),
            offers(text::texts(names@)),
            text::seen(*installed),
        ),
        annotated(list@, version_names(list@), text::seen(*installed)),
{
    let candidates = keep_offers(names);
    let ghost all = text::texts(candidates@);
    proof {
        lemma_offers(text::texts(names@));
    }
    let rule = Rule::Retained(
        match installed {
            Some(current) => Some(current.clone()),
            None => None,
        },
    );
    let mut kept = ordered(&candidates, &rule);
    let ghost first = text::texts(kept@);
    if kept.len() > MAX_HARNESS_VERSIONS {
        kept.truncate(MAX_HARNESS_VERSIONS);
    }
    let ghost second = text::texts(kept@);
    proof {
        assert(second =~= first.take(second.len() as int));
        assert forall|i: int| 0 <= i < second.len() implies version::release(
            #[trigger] second[i],
        ) is Some by {
            assert(first.contains(first[i]));
            let k = choose|k: int| 0 <= k < all.len() && all[k] == first[i];
            assert(version::release(all[k]) is Some);
        }
    }
    let sorted = ordered(&kept, &Rule::Newest);
    let ghost third = text::texts(sorted@);
    proof {
        assert forall|name: Seq<char>| #[trigger] third.contains(name) implies all.contains(
            name,
        ) by {
            assert(second.contains(name));
            let k = choose|k: int| 0 <= k < second.len() && second[k] == name;
            assert(first[k] == name);
            assert(first.contains(name));
        }
        assert forall|name: Seq<char>, i: int|
            #![trigger all.contains(name), third[i]]
            all.contains(name) && !third.contains(name) && 0 <= i < third.len() implies preferred(
            third[i],
            name,
            text::seen(*installed),
        ) by {
            assert(first.contains(name));
            let k = choose|k: int| 0 <= k < first.len() && first[k] == name;
            if k < second.len() {
                assert(second[k] == name);
                assert(second.contains(name));
            }
            assert(third.contains(third[i]));
            assert(second.contains(third[i]));
            let m = choose|m: int| 0 <= m < second.len() && second[m] == third[i];
            assert(first[m] == third[i]);
            assert(rule.ahead(first[m], first[k]));
        }
    }
    let mut list: Vec<HarnessVersion> = Vec::new();
    let mut index: usize = 0;
    while index < sorted.len()
        invariant
            index <= sorted@.len(),
            third == text::texts(sorted@),
            annotated(list@, third.take(index as int), text::seen(*installed)),
        decreases sorted.len() - index,
    {
        list.push(
            HarnessVersion {
                qualified: text::same(&sorted[index], install::VERSION),
                installed: install::is_text(installed, &sorted[index]),
                version: sorted[index].clone(),
            },
        );
        index += 1;
    }
    assert(third.take(index as int) =~= third);
    assert(version_names(list@) =~= third);
    list
}

/// What the registry says of the Harness package: the names of its releases,
/// which are the names of an object's members.
pub struct NpmMetadata {
    pub versions: Vec<String>,
}

/// Takes the published Harness releases as the registry's answer was read, or why
/// it could not be: a bounded, exact-version view, the newest first, which keeps
/// the bundled and the installed release.
pub fn parse_harness_versions(
    read: &Result<NpmMetadata, String>,
    installed: &Option<String>,
) -> (list: Result<Vec<HarnessVersion>, Error>)
    requires
        read matches Ok(metadata) ==> text::texts(metadata.versions@).no_duplicates(),
    ensures
        match (list, read) {
            (Ok(found), Ok(metadata)) => selection(
                version_names(found@),
                offers(text::texts(metadata.versions@)),
                text::seen(*installed),
            ) && annotated(found@, version_names(found@), text::seen(*installed)),
            (Err(error), Err(cause)) => error@ == Fault::Network(
                "Harness version catalog is invalid: "@ + cause@,
            ),
            _ => false,
        },
{
    match read {
        Ok(metadata) => Ok(select_versions(&metadata.versions, installed)),
        Err(cause) => Err(
            Error::Network(text::join2("Harness version catalog is invalid: ", cause)),
        ),
    }
}

/// A name is offered exactly where it reads as a release number without build
/// metadata, and every name that is offered is among the offers.
pub proof fn every_exact_version_is_offered(names: Seq<Seq<char>>, name: Seq<char>)
    ensures
        offers(names).contains(name) <==> names.contains(name) && version::release(name) is Some
            && version::release(name)->0.build.len() == 0,
{
    text::lemma_picked(names, |name: Seq<char>| offered(name), name);
}

/// The bundled and the installed release go before every other one, and among those
/// two, as among all others, the one that ranks higher goes first.
pub proof fn the_bundled_and_the_installed_go_first(
    left: Seq<char>,
    right: Seq<char>,
    installed: Option<Seq<char>>,
)
    ensures
        ({
            let kept = left == "0.1.2-rc.1"@ || installed == Some(left);
            let other = right == "0.1.2-rc.1"@ || installed == Some(right);
            &&& kept && !other ==> preferred(left, right, installed)
            &&& !kept && other ==> !preferred(left, right, installed)
            &&& kept == other ==> (preferred(left, right, installed) <==> version::outranks(
                left,
                right,
            ))
        }),
{
}

/// All offers are shown where there are no more than fifty, and fifty where there
/// are; what is shown is offered, each once, and a release stands before every one
/// that it outranks.
pub proof fn no_more_than_fifty_are_shown(
    kept: Seq<Seq<char>>,
    all: Seq<Seq<char>>,
    installed: Option<Seq<char>>,
    name: Seq<char>,
    first: int,
    second: int,
)
    requires
        all.no_duplicates(),
        selection(kept, all, installed),
    ensures
        kept.len() <= 50,
        all.len() > 50 ==> kept.len() == 50,
        all.len() <= 50 ==> (all.contains(name) <==> kept.contains(name)),
        kept.contains(name) ==> all.contains(name),
        0 <= first < second < kept.len() ==> version::outranks(kept[first], kept[second])
            && kept[first] != kept[second],
        all.contains(name) && !kept.contains(name) && 0 <= first < kept.len() ==> preferred(
            kept[first],
            name,
            installed,
        ),
{
    if all.len() <= 50 && all.contains(name) {
        lemma_all_kept(kept, all, name);
    }
    if 0 <= first < second < kept.len() {
        assert(Rule::Newest.ahead(kept[first], kept[second]));
    }
    if all.contains(name) && !kept.contains(name) && 0 <= first < kept.len() {
        assert(preferred(kept[first], name, installed));
    }
}

/// A release is marked as the bundled one exactly where it is, and as installed
/// exactly where it is.
pub proof fn releases_are_marked_as_what_they_are(
    list: Seq<HarnessVersion>,
    kept: Seq<Seq<char>>,
    installed: Option<Seq<char>>,
    at: int,
)
    requires
        annotated(list, kept, installed),
        0 <= at < list.len(),
    ensures
        list[at].version@ == kept[at],
        list[at].qualified <==> list[at].version@ == "0.1.2-rc.1"@,
        list[at].installed <==> installed == Some(list[at].version@),
{
}

/// Two lists hold the same texts whichever of them is looked at first, and nothing
/// is lost, added or repeated on the way from one to the other.
pub proof fn the_same_texts_are_the_same_either_way(
    left: Seq<Seq<char>>,
    right: Seq<Seq<char>>,
    name: Seq<char>,
)
    requires
        same_texts(left, right),
    ensures
        left.len() == right.len(),
        left.contains(name) <==> right.contains(name),
        left.no_duplicates(),
        right.no_duplicates() ==> same_texts(right, left),
{
}

/// A list is one of releases exactly where each of its texts reads as a release
/// number, and in order exactly where none stands behind one that it goes before.
pub proof fn a_list_of_releases_is_read_one_by_one(
    list: Seq<Seq<char>>,
    name: Seq<char>,
    rule: Rule,
)
    ensures
        all_releases(list.push(name)) <==> all_releases(list) && version::release(name) is Some,
        in_order(list.push(name), rule) <==> in_order(list, rule) && forall|i: int|
            0 <= i < list.len() ==> rule.ahead(#[trigger] list[i], name),
        all_releases(Seq::empty()),
{
    let longer = list.push(name);
    if all_releases(longer) {
        assert forall|i: int| 0 <= i < list.len() implies version::release(
            #[trigger] list[i],
        ) is Some by {
            assert(longer[i] == list[i]);
        }
        assert(longer[list.len() as int] == name);
    }
    if in_order(longer, rule) {
        assert forall|i: int, j: int| 0 <= i < j < list.len() implies rule.ahead(
            list[i],
            list[j],
        ) by {
            assert(rule.ahead(longer[i], longer[j]));
        }
        assert forall|i: int| 0 <= i < list.len() implies rule.ahead(#[trigger] list[i], name) by {
            assert(rule.ahead(longer[i], longer[list.len() as int]));
        }
    }
}

/// Annotated releases are listed one for one under their own names.
pub proof fn annotated_releases_keep_their_names(
    list: Seq<HarnessVersion>,
    kept: Seq<Seq<char>>,
    installed: Option<Seq<char>>,
    at: int,
)
    ensures
        annotated(list, kept, installed) ==> list.len() == kept.len(),
        version_names(list).len() == list.len(),
        0 <= at < list.len() ==> version_names(list)[at] == list[at].version@,
{
}

} // verus!
