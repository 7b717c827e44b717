//! The plugin marketplace: what is installed, and changing it.
//!
//! Plugins are ordinary npm packages that declare a profile patch, and the
//! harness already knows how to add and remove them. This module reads the
//! profile manifest to say what is installed, and it drives the harness's own
//! command to change it.
use vstd::prelude::*;

use crate::error::{Error, Fault};
use crate::history;
use crate::history::History;
use crate::install;
use crate::json;
use crate::json::{Document, Json};
use crate::logging;
use crate::package;
use crate::paths::Location;
use crate::registry;
use crate::text;
use crate::text::Class;

verus! {

/// One entry in the profile's plugin list.
#[derive(Debug)]
pub struct InstalledPlugin {
    pub name: String,
    /// The range recorded in the profile manifest, empty for an in-box bundle.
    pub spec: String,
    /// In the layer stack: this package declares a profile patch, and the patch
    /// is applied. A dependency that is installed but inactive is a plain
    /// library, which is allowed and worth showing as different.
    pub active: bool,
    /// Installed and left installed, but taken out of the layer stack by the
    /// user. Distinct from a plain library, which was never in it: this one can
    /// be switched back on without a download.
    pub disabled: bool,
    /// Part of the profile template rather than something installed here.
    /// Shown because it explains the harness's behaviour, never removable.
    pub builtin: bool,
    /// Receipt id when this exact profile package came from the market.
    pub market_receipt: Option<String>,
}

/// One entry in the profile's plugin list, by what it says.
pub struct Entry {
    pub name: Seq<char>,
    pub spec: Seq<char>,
    pub active: bool,
    pub disabled: bool,
    pub builtin: bool,
    pub market_receipt: Option<Seq<char>>,
}

impl View for InstalledPlugin {
    type V = Entry;

    open spec fn view(&self) -> Entry {
        Entry {
            name: self.name@,
            spec: self.spec@,
            active: self.active,
            disabled: self.disabled,
            builtin: self.builtin,
            market_receipt: text::seen(self.market_receipt),
        }
    }
}

/// Plugins by what they say.
pub open spec fn entries(list: Seq<InstalledPlugin>) -> Seq<Entry> {
    Seq::new(list.len(), |i: int| list[i]@)
}

/// The bundles a profile switches on, in order.
pub open spec fn bundles(manifest: Document) -> Seq<Seq<char>> {
    match manifest.within("dsh"@, "profile"@) {
        Some(profile) => match profile.get("bundles"@) {
            Some(Document::List(list)) => registry::spoken(list),
            _ => Seq::empty(),
        },
        None => Seq::empty(),
    }
}

/// The members of a manifest's dependencies.
pub open spec fn dependencies(manifest: Document) -> Seq<(Seq<char>, Document)> {
    match manifest.get("dependencies"@) {
        Some(Document::Object(members)) => members,
        _ => Seq::empty(),
    }
}

/// What is shown of a dependency.
pub open spec fn dependency_entry(
    member: (Seq<char>, Document),
    layers: Seq<Seq<char>>,
    switched_off: Seq<Seq<char>>,
) -> Entry {
    Entry {
        name: member.0,
        spec: registry::or_empty(member.1.text()),
        active: layers.contains(member.0),
        disabled: switched_off.contains(member.0),
        builtin: false,
        market_receipt: None,
    }
}

/// What is shown of a bundle that came with the profile.
pub open spec fn builtin_entry(name: Seq<char>) -> Entry {
    Entry {
        name,
        spec: Seq::empty(),
        active: true,
        disabled: false,
        builtin: true,
        market_receipt: None,
    }
}

/// A sorted list of names with one more in its place, unless it is there already.
pub open spec fn sorted_in(list: Seq<Seq<char>>, name: Seq<char>) -> Seq<Seq<char>>
    decreases list.len(),
{
    if list.len() == 0 {
        seq![name]
    } else if list[0] == name {
        list
    } else if text::earlier(name, list[0]) {
        seq![name] + list
    } else {
        seq![list[0]] + sorted_in(list.drop_first(), name)
    }
}

/// The bundles among the first `count` that are no dependencies, sorted and each
/// once.
pub open spec fn builtins(
    layers: Seq<Seq<char>>,
    installed: Seq<Seq<char>>,
    count: nat,
) -> Seq<Seq<char>>
    decreases count,
{
    if count == 0 || count > layers.len() {
        Seq::empty()
    } else {
        let before = builtins(layers, installed, (count - 1) as nat);
        if installed.contains(layers[count - 1]) {
            before
        } else {
            sorted_in(before, layers[count - 1])
        }
    }
}

/// The list the panel shows: installed plugins first, since they are what the
/// user acted on, then the in-box bundles, each group alphabetical so the list
/// does not reshuffle.
pub open spec fn listed(manifest: Document, switched_off: Seq<Seq<char>>) -> Seq<Entry> {
    let layers = bundles(manifest);
    let members = dependencies(manifest);
    let boxed = builtins(layers, json::names(members), layers.len());
    Seq::new(members.len(), |i: int| dependency_entry(members[i], layers, switched_off)) + Seq::new(
        boxed.len(),
        |i: int| builtin_entry(boxed[i]),
    )
}

/// Whether names ascend.
pub open spec fn ascending(list: Seq<Seq<char>>) -> bool {
    forall|i: int, j: int| 0 <= i < j < list.len() ==> text::earlier(list[i], list[j])
}

/// Sorting a name in keeps a list ascending and adds nothing but the name.
pub proof fn lemma_sorted_in(list: Seq<Seq<char>>, name: Seq<char>)
    requires
        ascending(list),
    ensures
        ascending(sorted_in(list, name)),
        forall|i: int|
            0 <= i < sorted_in(list, name).len() ==> #[trigger] sorted_in(list, name)[i] == name
                || list.contains(sorted_in(list, name)[i]),
        sorted_in(list, name).contains(name),
        forall|other: Seq<char>|
            list.contains(other) ==> #[trigger] sorted_in(list, name).contains(other),
    decreases list.len(),
{
    let after = sorted_in(list, name);
    if list.len() == 0 {
        assert(after[0] == name);
    } else if list[0] == name {
        assert forall|i: int| 0 <= i < after.len() implies #[trigger] after[i] == name
            || list.contains(after[i]) by {
            assert(list[i] == after[i]);
        }
        assert(after[0] == name);
    } else if text::earlier(name, list[0]) {
        assert forall|i: int, j: int| 0 <= i < j < after.len() implies text::earlier(
            after[i],
            after[j],
        ) by {
            assert(after[j] == list[j - 1]);
            if i > 0 {
                assert(after[i] == list[i - 1]);
                assert(text::earlier(list[i - 1], list[j - 1]));
            } else if j > 1 {
                assert(text::earlier(list[0], list[j - 1]));
                text::lemma_earlier_transitive(name, list[0], list[j - 1]);
            }
        }
        assert forall|i: int| 0 <= i < after.len() implies #[trigger] after[i] == name
            || list.contains(after[i]) by {
            if i > 0 {
                assert(after[i] == list[i - 1]);
            }
        }
        assert(after[0] == name);
        assert forall|other: Seq<char>| list.contains(other) implies #[trigger] after.contains(
            other,
        ) by {
            let k = choose|k: int| 0 <= k < list.len() && list[k] == other;
            assert(after[k + 1] == other);
        }
    } else {
        let rest = list.drop_first();
        assert forall|i: int, j: int| 0 <= i < j < rest.len() implies text::earlier(
            rest[i],
            rest[j],
        ) by {
            assert(text::earlier(list[i + 1], list[j + 1]));
        }
        lemma_sorted_in(rest, name);
        text::lemma_earlier_total(name, list[0]);
        let deeper = sorted_in(rest, name);
        assert forall|i: int, j: int| 0 <= i < j < after.len() implies text::earlier(
            after[i],
            after[j],
        ) by {
            assert(after[j] == deeper[j - 1]);
            if i > 0 {
                assert(after[i] == deeper[i - 1]);
                assert(text::earlier(deeper[i - 1], deeper[j - 1]));
            } else if deeper[j - 1] != name {
                let k = choose|k: int| 0 <= k < rest.len() && rest[k] == deeper[j - 1];
                assert(list[k + 1] == deeper[j - 1]);
                assert(text::earlier(list[0], list[k + 1]));
            }
        }
        assert forall|i: int| 0 <= i < after.len() implies #[trigger] after[i] == name
            || list.contains(after[i]) by {
            if i == 0 {
                assert(after[0] == list[0]);
            } else {
                assert(after[i] == deeper[i - 1]);
                if deeper[i - 1] != name {
                    let k = choose|k: int| 0 <= k < rest.len() && rest[k] == deeper[i - 1];
                    assert(list[k + 1] == after[i]);
                }
            }
        }
        assert(deeper.contains(name));
        let at = choose|at: int| 0 <= at < deeper.len() && deeper[at] == name;
        assert(after[at + 1] == name);
        assert forall|other: Seq<char>| list.contains(other) implies #[trigger] after.contains(
            other,
        ) by {
            let k = choose|k: int| 0 <= k < list.len() && list[k] == other;
            if k == 0 {
                assert(after[0] == other);
            } else {
                assert(rest[k - 1] == other);
                assert(deeper.contains(other));
                let m = choose|m: int| 0 <= m < deeper.len() && deeper[m] == other;
                assert(after[m + 1] == other);
            }
        }
    }
}

/// The in-box bundles are sorted, each once, and none of them is a dependency.
pub proof fn lemma_builtins(layers: Seq<Seq<char>>, installed: Seq<Seq<char>>, count: nat)
    requires
        count <= layers.len(),
    ensures
        ascending(builtins(layers, installed, count)),
        forall|i: int|
            0 <= i < builtins(layers, installed, count).len() ==> !installed.contains(
                #[trigger] builtins(layers, installed, count)[i],
            ) && layers.contains(builtins(layers, installed, count)[i]),
        forall|k: int|
            0 <= k < count && !installed.contains(#[trigger] layers[k]) ==> builtins(
                layers,
                installed,
                count,
            ).contains(layers[k]),
    decreases count,
{
    if count > 0 {
        lemma_builtins(layers, installed, (count - 1) as nat);
        let before = builtins(layers, installed, (count - 1) as nat);
        let after = builtins(layers, installed, count);
        if !installed.contains(layers[count - 1]) {
            lemma_sorted_in(before, layers[count - 1]);
            assert forall|i: int| 0 <= i < after.len() implies !installed.contains(
                #[trigger] after[i],
            ) && layers.contains(after[i]) by {
                if after[i] != layers[count - 1] {
                    let k = choose|k: int| 0 <= k < before.len() && before[k] == after[i];
                    assert(!installed.contains(before[k]));
                }
            }
        }
    }
}

/// Every name is listed once: a dependency is never listed as an in-box bundle
/// too, whatever the layer stack repeats.
pub proof fn every_plugin_is_listed_once(manifest: Document, switched_off: Seq<Seq<char>>)
    requires
        json::ordered(manifest),
    ensures
        forall|i: int, j: int|
            0 <= i < j < listed(manifest, switched_off).len() ==> listed(manifest, switched_off)[i].name
                != listed(manifest, switched_off)[j].name,
{
    let layers = bundles(manifest);
    let members = dependencies(manifest);
    let installed = json::names(members);
    let boxed = builtins(layers, installed, layers.len());
    lemma_builtins(layers, installed, layers.len());
    if let Some(Document::Object(found)) = manifest.get("dependencies"@) {
        json::lemma_member_ordered(manifest, "dependencies"@);
    }
    let list = listed(manifest, switched_off);
    assert forall|i: int, j: int| 0 <= i < j < list.len() implies list[i].name != list[j].name by {
        if j < members.len() {
            assert(text::earlier(members[i].0, members[j].0));
            text::lemma_earlier_irreflexive(members[i].0);
        } else if i < members.len() {
            let k = j - members.len();
            assert(list[j].name == boxed[k]);
            assert(!installed.contains(boxed[k]));
            assert(installed[i] == members[i].0);
        } else {
            let a = i - members.len();
            let b = j - members.len();
            assert(list[i].name == boxed[a] && list[j].name == boxed[b]);
            assert(text::earlier(boxed[a], boxed[b]));
            text::lemma_earlier_irreflexive(boxed[a]);
        }
    }
}

/// The bundles a profile switches on.
fn bundles_in(manifest: &Json) -> (list: Vec<String>)
    ensures
        text::texts(list@) == bundles(manifest@),
{
    match manifest.within("dsh", "profile") {
        Some(profile) => match profile.get("bundles") {
            Some(Json::List(list)) => registry::spoken_in(list),
            _ => {
                let list: Vec<String> = Vec::new();
                assert(text::texts(list@) =~= Seq::empty());
                list
            },
        },
        None => {
            let list: Vec<String> = Vec::new();
            assert(text::texts(list@) =~= Seq::empty());
            list
        },
    }
}

/// Puts a name in its place in a sorted list, unless it is there already.
fn sort_in(list: &mut Vec<String>, name: &str)
    ensures
        text::texts(final(list)@) == sorted_in(text::texts(old(list)@), name@),
{
    let ghost all = text::texts(list@);
    let mut at: usize = 0;
    assert(all.skip(0) =~= all);
    assert(all.take(0) + sorted_in(all, name@) =~= sorted_in(all, name@));
    while at < list.len()
        invariant
            at <= list@.len(),
            all == text::texts(list@),
            all == text::texts(old(list)@),
            sorted_in(all, name@) == all.take(at as int) + sorted_in(all.skip(at as int), name@),
        decreases list.len() - at,
    {
        let ghost rest = all.skip(at as int);
        assert(rest[0] == all[at as int]);
        if text::same(&list[at], name) {
            assert(all.take(at as int) + rest =~= all);
            return;
        }
        if text::comes_before(name, &list[at]) {
            list.insert(at, name.to_owned());
            assert(text::texts(list@) =~= all.take(at as int) + (seq![name@] + rest));
            return;
        }
        assert(rest.drop_first() =~= all.skip(at + 1));
        assert(all.take(at as int) + (seq![all[at as int]] + sorted_in(all.skip(at + 1), name@))
            =~= all.take(at + 1) + sorted_in(all.skip(at + 1), name@));
        at += 1;
    }
    assert(all.skip(at as int) =~= Seq::empty());
    assert(all.take(at as int) =~= all);
    list.push(name.to_owned());
    assert(text::texts(list@) =~= all + seq![name@]);
}

/// Turn the manifest into the list the panel shows.
///
/// Three sources, deliberately merged: `dependencies` is what was installed,
/// `dsh.profile.bundles` is what is switched on, and `switched_off` is what the
/// user took out of that list. A name in the second but not the first came with
/// the profile template.
pub fn list(manifest: &Json, switched_off: &Vec<String>) -> (shown: Vec<InstalledPlugin>)
    requires
        json::ordered(manifest@),
    ensures
        entries(shown@) == listed(manifest@, text::texts(switched_off@)),
{
    let layers = bundles_in(manifest);
    let ghost members = dependencies(manifest@);
    let ghost off = text::texts(switched_off@);
    let ghost stack = text::texts(layers@);
    let ghost first = Seq::new(
        members.len(),
        |i: int| dependency_entry(members[i], stack, off),
    );
    let mut shown: Vec<InstalledPlugin> = Vec::new();
    let mut installed: Vec<String> = Vec::new();
    assert(entries(shown@) =~= first.take(0));
    assert(text::texts(installed@) =~= json::names(members).take(0));
    if let Some(found) = manifest.get("dependencies") {
        if let Json::Object(held) = found {
            let mut index: usize = 0;
            assert(found@->Object_0 == members);
            while index < held.len()
                invariant
                    index <= held@.len(),
                    *found == Json::Object(*held),
                    found@ == Document::Object(members),
                    members.len() == held@.len(),
                    stack == text::texts(layers@),
                    off == text::texts(switched_off@),
                    first == Seq::new(
                        members.len(),
                        |i: int| dependency_entry(members[i], stack, off),
                    ),
                    entries(shown@) == first.take(index as int),
                    text::texts(installed@) == json::names(members).take(index as int),
                decreases held.len() - index,
            {
                let ghost before = entries(shown@);
                let ghost known = text::texts(installed@);
                let name = held[index].0.clone();
                assert(members[index as int] == (
                    held@[index as int].0@,
                    json::document(held@[index as int].1),
                ));
                installed.push(name.clone());
                assert(text::texts(installed@) =~= known.push(members[index as int].0));
                assert(text::texts(installed@) =~= json::names(members).take(index + 1));
                let plugin = InstalledPlugin {
                    active: text::holds(&layers, &name),
                    disabled: text::holds(switched_off, &name),
                    name,
                    spec: registry::or_default(held[index].1.text()),
                    builtin: false,
                    market_receipt: None,
                };
                shown.push(plugin);
                assert(entries(shown@) =~= before.push(first[index as int]));
                assert(entries(shown@) =~= first.take(index + 1));
                index += 1;
            }
        }
    }
    assert(entries(shown@) =~= first);
    assert(text::texts(installed@) =~= json::names(members));
    let mut boxed: Vec<String> = Vec::new();
    let mut index: usize = 0;
    assert(text::texts(boxed@) =~= Seq::empty());
    while index < layers.len()
        invariant
            index <= layers@.len(),
            stack == text::texts(layers@),
            text::texts(installed@) == json::names(members),
            text::texts(boxed@) == builtins(stack, json::names(members), index as nat),
        decreases layers.len() - index,
    {
        if !text::holds(&installed, &layers[index]) {
            sort_in(&mut boxed, &layers[index]);
        }
        index += 1;
    }
    let ghost names = text::texts(boxed@);
    assert(stack.len() == layers@.len());
    let ghost second = Seq::new(names.len(), |i: int| builtin_entry(names[i]));
    let mut at: usize = 0;
    assert(entries(shown@) =~= first + second.take(0));
    while at < boxed.len()
        invariant
            at <= boxed@.len(),
            names == text::texts(boxed@),
            second == Seq::new(names.len(), |i: int| builtin_entry(names[i])),
            entries(shown@) == first + second.take(at as int),
        decreases boxed.len() - at,
    {
        let ghost before = entries(shown@);
        let plugin = InstalledPlugin {
            name: boxed[at].clone(),
            spec: String::new(),
            active: true,
            disabled: false,
            builtin: true,
            market_receipt: None,
        };
        assert(plugin@.spec =~= Seq::empty());
        shown.push(plugin);
        assert(entries(shown@) =~= before.push(second[at as int]));
        assert(entries(shown@) =~= first + second.take(at + 1));
        at += 1;
    }
    assert(second.take(at as int) =~= second);
    shown
}

/// Everything the plugin panel needs before it draws anything.
#[derive(Debug)]
pub struct PluginState {
    pub profile: String,
    pub profile_dir: Location,
    /// False until the harness has initialized the profile. The first install
    /// creates it, so this is a fact to display, not an error to report.
    pub initialized: bool,
    pub plugins: Vec<InstalledPlugin>,
    /// Whether a package manager is reachable. When false the first change
    /// installs one first, which is slow enough that the panel should say so.
    pub package_manager: bool,
}

/// The receipt recorded for a package, if there is one.
pub open spec fn receipt_for(
    receipts: Seq<(Seq<char>, Seq<char>)>,
    name: Seq<char>,
) -> Option<Seq<char>>
    decreases receipts.len(),
{
    if receipts.len() == 0 {
        None
    } else if receipts[0].0 == name {
        Some(receipts[0].1)
    } else {
        receipt_for(receipts.drop_first(), name)
    }
}

/// Names and receipts by what they say.
pub open spec fn receipted(list: Seq<(String, String)>) -> Seq<(Seq<char>, Seq<char>)> {
    Seq::new(list.len(), |i: int| (list[i].0@, list[i].1@))
}

/// The receipt recorded for a package, if there is one.
fn receipt(receipts: &Vec<(String, String)>, name: &str) -> (id: Option<String>)
    ensures
        text::seen(id) == receipt_for(receipted(receipts@), name@),
{
    let ghost all = receipted(receipts@);
    let mut index: usize = 0;
    assert(all.skip(0) =~= all);
    while index < receipts.len()
        invariant
            index <= receipts@.len(),
            all == receipted(receipts@),
            receipt_for(all, name@) == receipt_for(all.skip(index as int), name@),
        decreases receipts.len() - index,
    {
        assert(all.skip(index as int)[0] == all[index as int]);
        assert(all.skip(index as int).drop_first() =~= all.skip(index + 1));
        if text::same(&receipts[index].0, name) {
            return Some(receipts[index].1.clone());
        }
        index += 1;
    }
    None
}

/// What is listed for a profile, each entry with its receipt.
pub open spec fn shown_plugins(
    manifest: Option<Document>,
    switched_off: Seq<Seq<char>>,
    receipts: Seq<(Seq<char>, Seq<char>)>,
) -> Seq<Entry> {
    match manifest {
        Some(found) => {
            let list = listed(found, switched_off);
            Seq::new(
                list.len(),
                |i: int|
                    Entry { market_receipt: receipt_for(receipts, list[i].name), ..list[i] },
            )
        },
        None => Seq::empty(),
    }
}

/// The hosted profile as it is right now, from its manifest, what the user
/// switched off, the receipts and whether a package manager is reachable.
pub fn state(
    profile: String,
    profile_dir: Location,
    manifest: &Option<Json>,
    switched_off: &Vec<String>,
    receipts: &Vec<(String, String)>,
    package_manager: bool,
) -> (shown: PluginState)
    requires
        *manifest matches Some(found) ==> json::ordered(found@),
    ensures
        shown.profile == profile,
        shown.profile_dir == profile_dir,
        shown.initialized == (*manifest is Some),
        shown.package_manager == package_manager,
        entries(shown.plugins@) == shown_plugins(
            match *manifest {
                Some(found) => Some(found@),
                None => None,
            },
            text::texts(switched_off@),
            receipted(receipts@),
        ),
{
    let mut plugins: Vec<InstalledPlugin> = Vec::new();
    let ghost mut wanted: Seq<Entry> = Seq::empty();
    if let Some(found) = manifest {
        let mut all = list(found, switched_off);
        let ghost base = entries(all@);
        proof {
            wanted = Seq::new(
                base.len(),
                |i: int|
                    Entry {
                        market_receipt: receipt_for(receipted(receipts@), base[i].name),
                        ..base[i]
                    },
            );
        }
        assert(base.len() == all@.len());
        assert(entries(plugins@) =~= wanted.take(0));
        for plugin in iter: all
            invariant
                iter.seq() == all@,
                base == entries(all@),
                base.len() == all@.len(),
                wanted == Seq::new(
                    base.len(),
                    |i: int|
                        Entry {
                            market_receipt: receipt_for(receipted(receipts@), base[i].name),
                            ..base[i]
                        },
                ),
                entries(plugins@) == wanted.take(iter.index()),
        {
            let ghost before = entries(plugins@);
            assert(plugin@ == base[iter.index()]);
            let market_receipt = receipt(receipts, &plugin.name);
            let labelled = InstalledPlugin {
                name: plugin.name,
                spec: plugin.spec,
                active: plugin.active,
                disabled: plugin.disabled,
                builtin: plugin.builtin,
                market_receipt,
            };
            plugins.push(labelled);
            assert(entries(plugins@) =~= before.push(wanted[iter.index()]));
            assert(entries(plugins@) =~= wanted.take(iter.index() + 1));
        }
    }
    assert(entries(plugins@) =~= wanted);
    PluginState {
        profile,
        profile_dir,
        initialized: manifest.is_some(),
        plugins,
        package_manager,
    }
}

/// Whether a name belongs to a bundle that came with the profile.
pub open spec fn came_with_profile(list: Seq<Entry>, name: Seq<char>) -> bool {
    exists|i: int| 0 <= i < list.len() && (#[trigger] list[i]).name == name && list[i].builtin
}

/// A plugin to be switched on or off in a profile.
#[derive(Debug)]
pub struct Switch {
    pub profile: String,
    pub name: String,
    pub enabled: bool,
}

/// Switches an installed plugin on or off without uninstalling it: what is to be
/// recorded for the hosted profile, or why it is not.
///
/// The profile template's own bundles are what make the harness a harness.
/// Switching one off would leave a running application with no interface and no
/// obvious way back; they are shown, and they are not ours to turn off.
pub fn switch(name: &str, enabled: bool, hosted: &PluginState) -> (allowed: Result<Switch, Error>)
    ensures
        match allowed {
            Ok(switch) => {
                &&& package::package_spec(name@)
                &&& !came_with_profile(entries(hosted.plugins@), name@)
                &&& switch.profile@ == hosted.profile@
                &&& switch.name@ == name@
                &&& switch.enabled == enabled
            },
            Err(error) => {
                ||| !package::package_spec(name@) && error@ == Fault::Plugin(
                    name@ + " is not a package name this panel will pass on"@,
                )
                ||| package::package_spec(name@) && came_with_profile(
                    entries(hosted.plugins@),
                    name@,
                ) && error@ == Fault::Plugin(
                    name@ + " came with the profile and cannot be switched off"@,
                )
            },
        },
{
    if !package::is_package_spec(name) {
        return Err(
            Error::Plugin(text::join2(name, " is not a package name this panel will pass on")),
        );
    }
    let ghost all = entries(hosted.plugins@);
    let mut index: usize = 0;
    while index < hosted.plugins.len()
        invariant
            index <= hosted.plugins@.len(),
            all == entries(hosted.plugins@),
            package::package_spec(name@),
            forall|i: int|
                0 <= i < index ==> !((#[trigger] all[i]).name == name@ && all[i].builtin),
        decreases hosted.plugins.len() - index,
    {
        assert(all[index as int] == hosted.plugins@[index as int]@);
        if hosted.plugins[index].builtin && text::same(&hosted.plugins[index].name, name) {
            return Err(
                Error::Plugin(
                    text::join2(name, " came with the profile and cannot be switched off"),
                ),
            );
        }
        index += 1;
    }
    Ok(Switch { profile: hosted.profile.clone(), name: name.to_owned(), enabled })
}

/// What a change does to the profile.
#[derive(Clone, Copy, Debug, PartialEq, Eq, Structural)]
pub enum Change {
    Add,
    Remove,
}

impl Change {
    /// The package manager's own subcommand, because that is what `dsh plugin`
    /// forwards its arguments to.
    pub open spec fn word(self) -> Seq<char> {
        match self {
            Change::Add => "add"@,
            Change::Remove => "remove"@,
        }
    }

    /// The package manager's own subcommand.
    pub fn verb(self) -> (word: &'static str)
        ensures
            word@ == self.word(),
    {
        match self {
            Change::Add => "add",
            Change::Remove => "remove",
        }
    }
}

/// Whether a line names what went wrong in the package manager's own words.
pub open spec fn telling(line: Seq<char>) -> bool {
    ||| text::holds_text(line, "ERR_PNPM_"@)
    ||| text::holds_text(line, "npm ERR!"@)
    ||| text::holds_text(line, "npm error code"@)
    ||| text::holds_text(line, "EAI_AGAIN"@)
    ||| text::holds_text(line, "ECONNREFUSED"@)
    ||| text::holds_text(line, "ETIMEDOUT"@)
    ||| text::holds_text(line, "ENOSPC"@)
}

/// The lines from the first telling one on; nothing where there is none.
pub open spec fn from_telling(lines: Seq<Seq<char>>) -> Option<Seq<Seq<char>>>
    decreases lines.len(),
{
    if lines.len() == 0 {
        None
    } else if telling(lines[0]) {
        Some(lines)
    } else {
        from_telling(lines.drop_first())
    }
}

/// The lines that hold more than white space, in order.
pub open spec fn spoken_lines(lines: Seq<Seq<char>>) -> Seq<Seq<char>>
    decreases lines.len(),
{
    if lines.len() == 0 {
        Seq::empty()
    } else if text::trimmed(lines.last(), Class::White).len() > 0 {
        spoken_lines(lines.drop_last()).push(lines.last())
    } else {
        spoken_lines(lines.drop_last())
    }
}

/// Lines as one line an error message can carry, without credentials.
pub open spec fn carried(lines: Seq<Seq<char>>) -> Seq<char> {
    logging::redacted(text::joined(lines, " · "@), false)
}

/// The first lines, up to six.
pub open spec fn first_six(lines: Seq<Seq<char>>) -> Seq<Seq<char>> {
    if lines.len() <= 6 {
        lines
    } else {
        lines.take(6)
    }
}

/// What a stream says where it has a telling line.
pub open spec fn told(lines: Seq<Seq<char>>) -> Option<Seq<char>> {
    match from_telling(lines) {
        Some(rest) => Some(carried(first_six(spoken_lines(rest)))),
        None => None,
    }
}

/// What a stream said last, where it said anything.
pub open spec fn said_last(lines: Seq<Seq<char>>) -> Option<Seq<char>> {
    let spoken = spoken_lines(lines);
    if spoken.len() == 0 {
        None
    } else {
        Some(carried(history::kept(spoken, 6)))
    }
}

/// Why a package manager failed: its actual error on either stream before
/// anything else, then what the streams said last.
pub open spec fn reason(stdout: Seq<Seq<char>>, stderr: Seq<Seq<char>>) -> Option<Seq<char>> {
    match told(stdout) {
        Some(found) => Some(found),
        None => match told(stderr) {
            Some(found) => Some(found),
            None => match said_last(stderr) {
                Some(found) => Some(found),
                None => said_last(stdout),
            },
        },
    }
}

/// Whether a line names what went wrong in the package manager's own words.
fn is_telling(line: &str) -> (answer: bool)
    ensures
        answer == telling(line@),
{
    text::contains(line, "ERR_PNPM_") || text::contains(line, "npm ERR!") || text::contains(
        line,
        "npm error code",
    ) || text::contains(line, "EAI_AGAIN") || text::contains(line, "ECONNREFUSED")
        || text::contains(line, "ETIMEDOUT") || text::contains(line, "ENOSPC")
}

/// The lines from `start` on that hold more than white space.
fn keep_spoken(lines: &Vec<String>, start: usize) -> (kept: Vec<String>)
    requires
        start <= lines@.len(),
    ensures
        text::texts(kept@) == spoken_lines(text::texts(lines@).skip(start as int)),
{
    let ghost all = text::texts(lines@).skip(start as int);
    let mut kept: Vec<String> = Vec::new();
    let mut index: usize = start;
    assert(all.take(0) =~= Seq::empty());
    assert(text::texts(kept@) =~= Seq::empty());
    while index < lines.len()
        invariant
            start <= index <= lines@.len(),
            all == text::texts(lines@).skip(start as int),
            text::texts(kept@) == spoken_lines(all.take(index - start)),
        decreases lines.len() - index,
    {
        let ghost done = text::texts(kept@);
        assert(all.take(index - start + 1).drop_last() =~= all.take(index - start));
        assert(all.take(index - start + 1).last() == lines@[index as int]@);
        if text::characters(&text::trim(&lines[index], Class::White)).len() > 0 {
            kept.push(lines[index].clone());
            assert(text::texts(kept@) =~= done.push(lines@[index as int]@));
        }
        index += 1;
    }
    assert(all.take(index - start) =~= all);
    kept
}

/// Lines as one line an error message can carry, without credentials.
fn carry(lines: &Vec<String>) -> (line: String)
    ensures
        line@ == carried(text::texts(lines@)),
{
    logging::redact_secrets(&text::join(lines, " · "))
}

/// What a stream says where it has a telling line.
fn tell(lines: &Vec<String>) -> (found: Option<String>)
    ensures
        text::seen(found) == told(text::texts(lines@)),
{
    let ghost all = text::texts(lines@);
    let mut index: usize = 0;
    assert(all.skip(0) =~= all);
    while index < lines.len()
        invariant
            index <= lines@.len(),
            all == text::texts(lines@),
            from_telling(all) == from_telling(all.skip(index as int)),
        decreases lines.len() - index,
    {
        assert(all.skip(index as int)[0] == all[index as int]);
        assert(all.skip(index as int).drop_first() =~= all.skip(index + 1));
        if is_telling(&lines[index]) {
            let mut kept = keep_spoken(lines, index);
            let ghost spoken = text::texts(kept@);
            assert(spoken.len() == kept@.len());
            if kept.len() > 6 {
                kept.truncate(6);
            }
            assert(text::texts(kept@) =~= first_six(spoken));
            return Some(carry(&kept));
        }
        index += 1;
    }
    None
}

/// What a stream said last, where it said anything.
fn say_last(lines: &Vec<String>) -> (found: Option<String>)
    ensures
        text::seen(found) == said_last(text::texts(lines@)),
{
    assert(text::texts(lines@).skip(0) =~= text::texts(lines@));
    let kept = keep_spoken(lines, 0);
    let ghost spoken = text::texts(kept@);
    assert(spoken.len() == kept@.len());
    if kept.len() == 0 {
        return None;
    }
    let start: usize = if kept.len() > 6 {
        kept.len() - 6
    } else {
        0
    };
    let mut last: Vec<String> = Vec::new();
    let mut index: usize = start;
    assert(text::texts(last@) =~= spoken.subrange(start as int, start as int));
    while index < kept.len()
        invariant
            start <= index <= kept@.len(),
            spoken == text::texts(kept@),
            text::texts(last@) == spoken.subrange(start as int, index as int),
        decreases kept.len() - index,
    {
        let ghost done = text::texts(last@);
        last.push(kept[index].clone());
        assert(text::texts(last@) =~= done.push(spoken[index as int]));
        assert(text::texts(last@) =~= spoken.subrange(start as int, index + 1));
        index += 1;
    }
    assert(text::texts(last@) =~= history::kept(spoken, 6));
    Some(carry(&last))
}

/// Prefer the package manager's actual error over a harness wrapper printed to
/// the other stream, so that a useful error code is never reduced to the
/// sentence that wraps it.
pub fn package_manager_reason(stdout: &Vec<String>, stderr: &Vec<String>) -> (found: Option<
    String,
>)
    ensures
        text::seen(found) == reason(text::texts(stdout@), text::texts(stderr@)),
{
    match tell(stdout) {
        Some(found) => Some(found),
        None => match tell(stderr) {
            Some(found) => Some(found),
            None => match say_last(stderr) {
                Some(found) => Some(found),
                None => say_last(stdout),
            },
        },
    }
}

/// How many trailing lines are kept to explain a failure. Enough to hold an
/// error heading and the sentence under it; short enough to read at once.
pub const TAIL_LINES: usize = 16;

/// Takes in one line of a stream and gives what is reported of it: the line
/// without white space at its end, or nothing where none is left. Only the end
/// is taken, because package managers indent what they list under a heading.
pub fn take_line(tail: &mut History<String>, line: &str) -> (reported: Option<String>)
    requires
        old(tail).bounded(),
    ensures
        final(tail).bounded(),
        final(tail).limit == old(tail).limit,
        ({
            let trimmed = text::trimmed_end(line@, Class::White);
            if trimmed.len() == 0 {
                reported is None && text::texts(final(tail)@) == text::texts(old(tail)@)
            } else {
                reported matches Some(shown) && shown@ == trimmed && text::texts(final(tail)@)
                    == history::kept(
                    text::texts(old(tail)@).push(trimmed),
                    old(tail).limit as nat,
                )
            }
        }),
{
    let trimmed = text::trim_end(line, Class::White);
    if text::characters(&trimmed).len() == 0 {
        return None;
    }
    let ghost before = tail@;
    let kept = trimmed.clone();
    tail.add(kept);
    assert(text::texts(tail@) =~= history::kept(
        text::texts(before).push(trimmed@),
        tail.limit as nat,
    ));
    Some(trimmed)
}

/// Takes in one line of a stream as it was written. A byte that is not UTF-8 does
/// not end the output.
pub fn take_output(tail: &mut History<String>, raw: &Vec<u8>) -> (reported: Option<String>)
    requires
        old(tail).bounded(),
    ensures
        final(tail).bounded(),
        final(tail).limit == old(tail).limit,
        ({
            let trimmed = text::trimmed_end(text::lossy(raw@), Class::White);
            if trimmed.len() == 0 {
                reported is None && text::texts(final(tail)@) == text::texts(old(tail)@)
            } else {
                reported matches Some(shown) && shown@ == trimmed && text::texts(final(tail)@)
                    == history::kept(
                    text::texts(old(tail)@).push(trimmed),
                    old(tail).limit as nat,
                )
            }
        }),
{
    let line = text::decode_lossy(raw);
    take_line(tail, &line)
}

/// Adding and removing are told apart by their words.
pub proof fn a_change_goes_by_its_word(change: Change)
    ensures
        change is Add ==> change.word() == seq!['a', 'd', 'd'],
        change is Remove ==> change.word() == seq!['r', 'e', 'm', 'o', 'v', 'e'],
        Change::Add.word() != Change::Remove.word(),
{
    reveal_strlit("add");
    reveal_strlit("remove");
    assert("add"@ =~= seq!['a', 'd', 'd']);
    assert("remove"@ =~= seq!['r', 'e', 'm', 'o', 'v', 'e']);
    assert(Change::Add.word().len() == 3 && Change::Remove.word().len() == 6);
}

/// A profile switches on the bundles its manifest lists as texts, and no others.
pub proof fn listed_bundles_are_switched_on(manifest: Document, name: Seq<char>)
    ensures
        bundles(manifest).contains(name) <==> manifest.within("dsh"@, "profile"@) is Some && (
        manifest.within("dsh"@, "profile"@)->0.get("bundles"@) matches Some(
            Document::List(list),
        ) && list.contains(Document::Text(name))),
{
    if let Some(profile) = manifest.within("dsh"@, "profile"@) {
        if let Some(Document::List(list)) = profile.get("bundles"@) {
            registry::lemma_spoken(list, name);
        }
    }
}

/// Every dependency of a profile is listed, in the order the manifest has them,
/// before anything else: with the range it is recorded under, as active exactly
/// where the profile switches it on, and as disabled exactly where the user
/// switched it off; none of them is a part of the profile template.
pub proof fn every_dependency_is_listed(
    manifest: Document,
    switched_off: Seq<Seq<char>>,
    members: Seq<(Seq<char>, Document)>,
    at: int,
)
    requires
        manifest.get("dependencies"@) == Some(Document::Object(members)),
        0 <= at < members.len(),
    ensures
        ({
            let shown = listed(manifest, switched_off);
            &&& at < shown.len()
            &&& shown[at].name == members[at].0
            &&& members[at].1 matches Document::Text(range) ==> shown[at].spec == range
            &&& shown[at].active <==> bundles(manifest).contains(members[at].0)
            &&& shown[at].disabled <==> switched_off.contains(members[at].0)
            &&& !shown[at].builtin
            &&& shown[at].market_receipt is None
        }),
{
}

/// Whatever a profile switches on that it does not depend on came with its
/// template, and is listed as such behind the dependencies, as active and never as
/// switched off; nothing else is listed there.
pub proof fn every_bundle_of_the_template_is_listed(
    manifest: Document,
    switched_off: Seq<Seq<char>>,
    name: Seq<char>,
    at: int,
)
    ensures
        ({
            let shown = listed(manifest, switched_off);
            let installed = manifest.within("dependencies"@, name) is Some;
            &&& bundles(manifest).contains(name) && !installed ==> exists|i: int|
                0 <= i < shown.len() && (#[trigger] shown[i]).name == name && shown[i].builtin
            &&& 0 <= at < shown.len() && shown[at].builtin ==> {
                &&& shown[at].active && !shown[at].disabled && shown[at].spec.len() == 0
                &&& bundles(manifest).contains(shown[at].name)
                &&& manifest.within("dependencies"@, shown[at].name) is None
                &&& forall|i: int|
                    at <= i < shown.len() ==> (#[trigger] shown[i]).builtin
            }
        }),
{
    let layers = bundles(manifest);
    let members = dependencies(manifest);
    let installed = json::names(members);
    let boxed = builtins(layers, installed, layers.len());
    let shown = listed(manifest, switched_off);
    lemma_builtins(layers, installed, layers.len());
    lemma_named(manifest, name);
    if layers.contains(name) && manifest.within("dependencies"@, name) is None {
        let k = choose|k: int| 0 <= k < layers.len() && layers[k] == name;
        assert(!installed.contains(layers[k]));
        assert(boxed.contains(name));
        let m = choose|m: int| 0 <= m < boxed.len() && boxed[m] == name;
        assert(shown[members.len() + m] == builtin_entry(name));
        assert(shown[members.len() + m].name == name && shown[members.len() + m].builtin);
    }
    if 0 <= at < shown.len() && shown[at].builtin {
        assert(at >= members.len());
        let m = at - members.len();
        assert(shown[at] == builtin_entry(boxed[m]));
        assert(!installed.contains(boxed[m]) && layers.contains(boxed[m]));
        lemma_named(manifest, boxed[m]);
        assert forall|i: int| at <= i < shown.len() implies (#[trigger] shown[i]).builtin by {
            assert(shown[i] == builtin_entry(boxed[i - members.len()]));
        }
    }
}

/// A dependency is found by its name exactly where the name is one of theirs.
proof fn lemma_named(manifest: Document, name: Seq<char>)
    ensures
        json::names(dependencies(manifest)).contains(name) <==> manifest.within(
            "dependencies"@,
            name,
        ) is Some,
{
    let members = dependencies(manifest);
    let names = json::names(members);
    json::lemma_member(members, name);
    if names.contains(name) {
        let k = choose|k: int| 0 <= k < names.len() && names[k] == name;
        assert(members[k].0 == name);
    }
    if let Some(found) = json::member(members, name) {
        let k = choose|k: int| 0 <= k < members.len() && #[trigger] members[k] == (name, found);
        assert(names[k] == name);
    }
}

/// What is shown for a profile is its list, each entry with the receipt recorded
/// for its name and otherwise as it is; a profile without a manifest shows nothing.
pub proof fn receipts_are_shown_with_their_packages(
    manifest: Document,
    switched_off: Seq<Seq<char>>,
    receipts: Seq<(Seq<char>, Seq<char>)>,
    at: int,
    id: Seq<char>,
)
    requires
        0 <= at < listed(manifest, switched_off).len(),
    ensures
        ({
            let shown = shown_plugins(Some(manifest), switched_off, receipts);
            let plain = listed(manifest, switched_off);
            &&& shown.len() == plain.len()
            &&& shown[at] == (Entry { market_receipt: shown[at].market_receipt, ..plain[at] })
            &&& shown[at].market_receipt is Some <==> exists|i: int|
                0 <= i < receipts.len() && (#[trigger] receipts[i]).0 == plain[at].name
            &&& shown[at].market_receipt == Some(id) ==> exists|i: int|
                0 <= i < receipts.len() && #[trigger] receipts[i] == (plain[at].name, id)
            &&& shown_plugins(None, switched_off, receipts).len() == 0
        }),
{
    lemma_receipt(receipts, listed(manifest, switched_off)[at].name);
}

/// A receipt found is recorded for that name, and one is found where any is.
proof fn lemma_receipt(receipts: Seq<(Seq<char>, Seq<char>)>, name: Seq<char>)
    ensures
        match receipt_for(receipts, name) {
            Some(id) => exists|i: int|
                0 <= i < receipts.len() && #[trigger] receipts[i] == (name, id),
            None => forall|i: int| 0 <= i < receipts.len() ==> (#[trigger] receipts[i]).0 != name,
        },
    decreases receipts.len(),
{
    if receipts.len() > 0 {
        if receipts[0].0 == name {
            assert(receipts[0] == (name, receipts[0].1));
        } else {
            let rest = receipts.drop_first();
            lemma_receipt(rest, name);
            match receipt_for(rest, name) {
                Some(id) => {
                    let i = choose|i: int| 0 <= i < rest.len() && #[trigger] rest[i] == (name, id);
                    assert(receipts[i + 1] == (name, id));
                },
                None => {
                    assert forall|i: int| 0 <= i < receipts.len() implies (
                    #[trigger] receipts[i]).0 != name by {
                        if i > 0 {
                            assert(rest[i - 1].0 != name);
                        }
                    }
                },
            }
        }
    }
}

/// A line tells what went wrong where it carries one of the package managers' own
/// marks, wherever in it, and a line without any of them does not.
pub proof fn a_telling_line_carries_a_mark(before: Seq<char>, after: Seq<char>, line: Seq<char>)
    ensures
        telling(before + "ERR_PNPM_"@ + after),
        telling(before + "npm ERR!"@ + after),
        telling(before + "npm error code"@ + after),
        telling(before + "EAI_AGAIN"@ + after),
        telling(before + "ECONNREFUSED"@ + after),
        telling(before + "ETIMEDOUT"@ + after),
        telling(before + "ENOSPC"@ + after),
        telling(line) ==> text::holds_text(line, "ERR_PNPM_"@) || text::holds_text(
            line,
            "npm ERR!"@,
        ) || text::holds_text(line, "npm error code"@) || text::holds_text(line, "EAI_AGAIN"@)
            || text::holds_text(line, "ECONNREFUSED"@) || text::holds_text(line, "ETIMEDOUT"@)
            || text::holds_text(line, "ENOSPC"@),
{
    text::lemma_holds_between(before, "ERR_PNPM_"@, after);
    text::lemma_holds_between(before, "npm ERR!"@, after);
    text::lemma_holds_between(before, "npm error code"@, after);
    text::lemma_holds_between(before, "EAI_AGAIN"@, after);
    text::lemma_holds_between(before, "ECONNREFUSED"@, after);
    text::lemma_holds_between(before, "ETIMEDOUT"@, after);
    text::lemma_holds_between(before, "ENOSPC"@, after);
}

/// The lines that are carried are those with more than white space in them, in
/// order.
pub proof fn only_spoken_lines_are_carried(lines: Seq<Seq<char>>, line: Seq<char>)
    ensures
        spoken_lines(lines).contains(line) <==> lines.contains(line) && text::trimmed(
            line,
            Class::White,
        ).len() > 0,
        spoken_lines(lines.push(line)) == (if text::trimmed(line, Class::White).len() > 0 {
            spoken_lines(lines).push(line)
        } else {
            spoken_lines(lines)
        }),
    decreases lines.len(),
{
    assert(lines.push(line).drop_last() =~= lines);
    if lines.len() > 0 {
        let rest = lines.drop_last();
        only_spoken_lines_are_carried(rest, line);
        let before = spoken_lines(rest);
        let after = spoken_lines(lines);
        assert(lines[lines.len() - 1] == lines.last());
        if lines.contains(line) {
            let k = choose|k: int| 0 <= k < lines.len() && lines[k] == line;
            if k < rest.len() {
                assert(rest[k] == line);
            }
        }
        if rest.contains(line) {
            let k = choose|k: int| 0 <= k < rest.len() && rest[k] == line;
            assert(lines[k] == line);
        }
        if before.contains(line) {
            let k = choose|k: int| 0 <= k < before.len() && before[k] == line;
            assert(after[k] == line);
        }
        if after.contains(line) {
            let k = choose|k: int| 0 <= k < after.len() && after[k] == line;
            if k < before.len() {
                assert(before[k] == line);
            }
        }
        if text::trimmed(lines.last(), Class::White).len() > 0 {
            assert(after[before.len() as int] == lines.last());
        }
    }
}

/// A reason begins with the first telling line of a stream and takes up to six
/// lines from there, whatever was printed before it; standard output is asked
/// before standard error.
pub proof fn a_telling_line_is_the_reason(
    quiet: Seq<Seq<char>>,
    line: Seq<char>,
    rest: Seq<Seq<char>>,
    stderr: Seq<Seq<char>>,
)
    requires
        forall|i: int| 0 <= i < quiet.len() ==> !telling(#[trigger] quiet[i]),
        telling(line),
    ensures
        ({
            let spoken = spoken_lines(seq![line] + rest);
            let six = if spoken.len() < 6 {
                spoken
            } else {
                spoken.take(6)
            };
            let shown = logging::redacted(text::joined(six, " · "@), false);
            &&& told(quiet + seq![line] + rest) == Some(shown)
            &&& reason(quiet + seq![line] + rest, stderr) == Some(shown)
            &&& reason(quiet, quiet + seq![line] + rest) == Some(shown)
        }),
{
    lemma_from_telling(quiet, line, rest);
    lemma_nothing_telling(quiet);
    let spoken = spoken_lines(seq![line] + rest);
    assert(spoken.len() == 6 ==> spoken.take(6) =~= spoken);
}

/// The lines from the first telling one on.
proof fn lemma_from_telling(quiet: Seq<Seq<char>>, line: Seq<char>, rest: Seq<Seq<char>>)
    requires
        forall|i: int| 0 <= i < quiet.len() ==> !telling(#[trigger] quiet[i]),
        telling(line),
    ensures
        from_telling(quiet + seq![line] + rest) == Some(seq![line] + rest),
    decreases quiet.len(),
{
    let whole = quiet + seq![line] + rest;
    if quiet.len() > 0 {
        let fewer = quiet.drop_first();
        assert forall|i: int| 0 <= i < fewer.len() implies !telling(#[trigger] fewer[i]) by {
            assert(fewer[i] == quiet[i + 1]);
        }
        lemma_from_telling(fewer, line, rest);
        assert(whole[0] == quiet[0]);
        assert(whole.drop_first() =~= fewer + seq![line] + rest);
    } else {
        assert(whole =~= seq![line] + rest);
    }
}

/// Where no line is telling, there is nothing to begin with.
proof fn lemma_nothing_telling(quiet: Seq<Seq<char>>)
    requires
        forall|i: int| 0 <= i < quiet.len() ==> !telling(#[trigger] quiet[i]),
    ensures
        from_telling(quiet) is None,
    decreases quiet.len(),
{
    if quiet.len() > 0 {
        let fewer = quiet.drop_first();
        assert forall|i: int| 0 <= i < fewer.len() implies !telling(#[trigger] fewer[i]) by {
            assert(fewer[i] == quiet[i + 1]);
        }
        lemma_nothing_telling(fewer);
        assert(!telling(quiet[0]));
    }
}

/// Where nothing tells what went wrong, the reason is what was said last: up to six
/// lines of standard error, else of standard output; and there is no reason only
/// where neither said anything.
pub proof fn the_last_words_are_the_reason(stdout: Seq<Seq<char>>, stderr: Seq<Seq<char>>)
    requires
        forall|i: int| 0 <= i < stdout.len() ==> !telling(#[trigger] stdout[i]),
        forall|i: int| 0 <= i < stderr.len() ==> !telling(#[trigger] stderr[i]),
    ensures
        ({
            let said = if spoken_lines(stderr).len() > 0 {
                spoken_lines(stderr)
            } else {
                spoken_lines(stdout)
            };
            let last = if said.len() <= 6 {
                said
            } else {
                said.subrange(said.len() - 6, said.len() as int)
            };
            reason(stdout, stderr) == (if said.len() == 0 {
                None
            } else {
                Some(logging::redacted(text::joined(last, " · "@), false))
            })
        }),
{
    lemma_nothing_telling(stdout);
    lemma_nothing_telling(stderr);
    let said = if spoken_lines(stderr).len() > 0 {
        spoken_lines(stderr)
    } else {
        spoken_lines(stdout)
    };
    if said.len() > 6 {
        assert(said.skip(said.len() - 6) =~= said.subrange(said.len() - 6, said.len() as int));
    }
}

/// A plugin came with the profile exactly where some entry of that name is one of
/// the template's own, wherever in the list it stands.
pub proof fn the_templates_own_plugins_came_with_the_profile(
    front: Seq<Entry>,
    entry: Entry,
    back: Seq<Entry>,
    name: Seq<char>,
)
    ensures
        came_with_profile(front + seq![entry] + back, name) <==> came_with_profile(front, name)
            || entry.builtin && entry.name == name || came_with_profile(back, name),
        !came_with_profile(Seq::empty(), name),
{
    let list = front + seq![entry] + back;
    if came_with_profile(front, name) {
        let i = choose|i: int|
            0 <= i < front.len() && (#[trigger] front[i]).name == name && front[i].builtin;
        assert(list[i] == front[i]);
    }
    if came_with_profile(back, name) {
        let i = choose|i: int|
            0 <= i < back.len() && (#[trigger] back[i]).name == name && back[i].builtin;
        assert(list[front.len() + 1 + i] == back[i]);
    }
    if entry.builtin && entry.name == name {
        assert(list[front.len() as int] == entry);
    }
    if came_with_profile(list, name) {
        let i = choose|i: int|
            0 <= i < list.len() && (#[trigger] list[i]).name == name && list[i].builtin;
        if i < front.len() {
            assert(front[i] == list[i]);
        } else if i > front.len() {
            assert(back[i - front.len() - 1] == list[i]);
        }
    }
}

/// Plugins are listed one for one and in order, each by what it says.
pub proof fn plugins_are_seen_as_they_are(list: Seq<InstalledPlugin>, at: int)
    ensures
        entries(list).len() == list.len(),
        0 <= at < list.len() ==> entries(list)[at] == (Entry {
            name: list[at].name@,
            spec: list[at].spec@,
            active: list[at].active,
            disabled: list[at].disabled,
            builtin: list[at].builtin,
            market_receipt: text::seen(list[at].market_receipt),
        }),
{
}

/// A receipt list is seen one for one and in order.
pub proof fn receipts_are_seen_as_they_are(list: Seq<(String, String)>, at: int)
    ensures
        receipted(list).len() == list.len(),
        0 <= at < list.len() ==> receipted(list)[at] == (list[at].0@, list[at].1@),
{
}

} // verus!
