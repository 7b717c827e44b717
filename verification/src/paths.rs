//! Where the application keeps state it owns.
//!
//! The harness is installed into application data rather than next to the
//! binary: it is npm packages that the user updates on their own schedule, so it
//! must survive an application update and must not require write access to the
//! program directory.
use vstd::prelude::*;

use crate::text;

verus! {

/// A place in the file system: a root and the steps below it, one name each.
#[derive(Debug)]
pub struct Location {
    pub base: String,
    pub parts: Vec<String>,
}

/// A place by what it says.
#[verifier::ext_equal]
pub struct Place {
    pub base: Seq<char>,
    pub parts: Seq<Seq<char>>,
}

impl View for Location {
    type V = Place;

    open spec fn view(&self) -> Place {
        Place { base: self.base@, parts: text::texts(self.parts@) }
    }
}

impl Place {
    /// The place of that name inside this one.
    pub open spec fn below(self, name: Seq<char>) -> Place {
        Place { base: self.base, parts: self.parts.push(name) }
    }

    /// The place with a separator before every step.
    pub open spec fn shown(self, separator: Seq<char>) -> Seq<char>
        decreases self.parts.len(),
    {
        if self.parts.len() == 0 {
            self.base
        } else {
            Place { base: self.base, parts: self.parts.drop_last() }.shown(separator) + separator
                + self.parts.last()
        }
    }
}

impl Location {
    /// The root itself.
    pub fn root(base: &str) -> (place: Location)
        ensures
            place@ == (Place { base: base@, parts: Seq::empty() }),
    {
        let place = Location { base: base.to_owned(), parts: Vec::new() };
        assert(place@.parts =~= Seq::empty());
        place
    }

    /// The place of that name inside this one.
    pub fn below(&self, name: &str) -> (place: Location)
        ensures
            place@ == self@.below(name@),
    {
        let mut parts = text::copied(&self.parts);
        let ghost done = text::texts(parts@);
        parts.push(name.to_owned());
        assert(text::texts(parts@) =~= done.push(name@));
        Location { base: self.base.clone(), parts }
    }

    /// The place one step up; nothing for a root itself.
    pub fn parent(&self) -> (place: Option<Location>)
        ensures
            match place {
                Some(found) => self@.parts.len() > 0 && found@ == (Place {
                    base: self@.base,
                    parts: self@.parts.drop_last(),
                }),
                None => self@.parts.len() == 0,
            },
    {
        if self.parts.len() == 0 {
            return None;
        }
        let mut parts: Vec<String> = text::copied(&self.parts);
        let ghost all = parts@;
        parts.pop();
        assert(text::texts(parts@) =~= text::texts(all).drop_last());
        Some(Location { base: self.base.clone(), parts })
    }

    /// The place with a separator before every step.
    pub fn text(&self, separator: &str) -> (shown: String)
        ensures
            shown@ == self@.shown(separator@),
    {
        let mut shown = self.base.clone();
        let mut index: usize = 0;
        let ghost all = self@.parts;
        while index < self.parts.len()
            invariant
                index <= self.parts@.len(),
                all == self@.parts,
                shown@ == (Place { base: self.base@, parts: all.take(index as int) }).shown(
                    separator@,
                ),
            decreases self.parts.len() - index,
        {
            shown = text::join3(&shown, separator, &self.parts[index]);
            assert(all.take(index + 1).drop_last() =~= all.take(index as int));
            index += 1;
        }
        assert(all.take(index as int) =~= all);
        shown
    }
}

/// Prefix the managed harness is installed into, as an npm project root.
pub fn harness_dir(data: &Location) -> (place: Location)
    ensures
        place@ == data@.below("harness"@),
{
    data.below("harness")
}

/// Sibling used while a complete Harness runtime is assembled and verified.
///
/// A sibling, rather than a child of [`harness_dir`], lets the final promotion
/// be one same-volume rename. The live runtime is never npm's working directory.
pub fn harness_staging_dir(data: &Location) -> (place: Location)
    ensures
        place@ == data@.below("harness.installing"@),
{
    data.below("harness.installing")
}

/// Last complete runtime, kept only across the promotion crash window.
pub fn harness_backup_dir(data: &Location) -> (place: Location)
    ensures
        place@ == data@.below("harness.previous"@),
{
    data.below("harness.previous")
}

/// Durable marker that makes an interrupted runtime promotion recoverable.
pub fn harness_install_journal(data: &Location) -> (place: Location)
    ensures
        place@ == data@.below("harness-install.json"@),
{
    data.below("harness-install.json")
}

/// Prefix for command-line tools the shell installs for its own use.
///
/// Separate from the harness prefix so that reinstalling one never disturbs the
/// other.
pub fn tools_dir(data: &Location) -> (place: Location)
    ensures
        place@ == data@.below("tools"@),
{
    data.below("tools")
}

/// Stable pnpm content-addressed store used by profiles created on this
/// machine.
pub fn plugin_store_dir(data: &Location) -> (place: Location)
    ensures
        place@ == data@.below("tools"@).below("pnpm-store"@),
{
    data.below("tools").below("pnpm-store")
}

/// Short-lived isolated projects used to resolve a plugin's complete dependency
/// graph before the real profile is allowed to change.
pub fn plugin_preflight_dir(data: &Location) -> (place: Location)
    ensures
        place@ == data@.below("plugin-preflight"@),
{
    data.below("plugin-preflight")
}

/// Persistent application logs, separate from user-owned Harness state.
pub fn logs_dir(data: &Location) -> (place: Location)
    ensures
        place@ == data@.below("logs"@),
{
    data.below("logs")
}

/// Durable state and backups for an in-flight profile package operation.
pub fn plugin_recovery_dir(data: &Location) -> (place: Location)
    ensures
        place@ == data@.below("plugin-recovery"@),
{
    data.below("plugin-recovery")
}

/// User-selected and custom plugin catalog sources.
pub fn market_sources_file(data: &Location) -> (place: Location)
    ensures
        place@ == data@.below("market-sources.json"@),
{
    data.below("market-sources.json")
}

/// The exact Node executable selected by the user.
pub fn node_selection_file(data: &Location) -> (place: Location)
    ensures
        place@ == data@.below("node-selection.json"@),
{
    data.below("node-selection.json")
}

/// Where Node runtimes the shell downloaded are unpacked, one directory per
/// release.
pub fn managed_node_dir(data: &Location) -> (place: Location)
    ensures
        place@ == data@.below("tools"@).below("node"@),
{
    data.below("tools").below("node")
}

/// Where plugin archives installed from a file are kept.
///
/// Installing from a tarball records the path to it in the profile manifest, so
/// the file has to still be there the next time that profile is installed.
pub fn imports_dir(data: &Location) -> (place: Location)
    ensures
        place@ == data@.below("imports"@),
{
    data.below("imports")
}

/// The user's release choice and the registry facts gathered so far.
pub fn channel_file(data: &Location) -> (place: Location)
    ensures
        place@ == data@.below("dsh-channel.json"@),
{
    data.below("dsh-channel.json")
}

/// Where the window was and how big.
pub fn placement_file(data: &Location) -> (place: Location)
    ensures
        place@ == data@.below("window.json"@),
{
    data.below("window.json")
}

/// Entry point of the managed harness CLI: the Studio launcher where the
/// selected release carries one, the package's own entry otherwise.
pub fn harness_entry(data: &Location, launcher_is_file: bool) -> (place: Location)
    ensures
        place@ == (if launcher_is_file {
            data@.below("harness"@).below("studio-cli.mjs"@)
        } else {
            data@.below("harness"@).below("node_modules"@).below("@deepseek-ai"@).below(
                "dsh"@,
            ).below("lib"@).below("bin.js"@)
        }),
{
    if launcher_is_file {
        harness_dir(data).below("studio-cli.mjs")
    } else {
        harness_dir(data).below("node_modules").below("@deepseek-ai").below("dsh").below(
            "lib",
        ).below("bin.js")
    }
}

/// Root of everything this application writes: the relocated tree where one was
/// named, the application's own directory below the local data directory
/// otherwise, and below the working directory where there is none.
pub fn app_data_dir(relocated: Option<String>, local_data: Option<String>) -> (place: Location)
    ensures
        place@ == (match relocated {
            Some(root) => (Place { base: root@, parts: Seq::empty() }),
            None => (Place {
                base: match local_data {
                    Some(root) => root@,
                    None => "."@,
                },
                parts: Seq::empty(),
            }).below("dsh-studio"@),
        }),
{
    match relocated {
        Some(root) => Location::root(&root),
        None => match local_data {
            Some(root) => Location::root(&root).below("dsh-studio"),
            None => Location::root(".").below("dsh-studio"),
        },
    }
}

/// Root the harness keeps its own state under: `$DSH_HOME`, else `~/.dsh`.
///
/// This one is not ours. The harness owns the directory, the shell only reads
/// what is in it and asks the harness to change it.
pub fn dsh_home(named: Option<String>, home: Option<String>) -> (place: Location)
    ensures
        place@ == (match named {
            Some(root) => (Place { base: root@, parts: Seq::empty() }),
            None => (Place {
                base: match home {
                    Some(root) => root@,
                    None => "."@,
                },
                parts: Seq::empty(),
            }).below(".dsh"@),
        }),
{
    match named {
        Some(root) => Location::root(&root),
        None => default_workspace_dir(home).below(".dsh"),
    }
}

/// Where every profile lives, one directory each.
pub fn profiles_dir(home: &Location) -> (place: Location)
    ensures
        place@ == home@.below("profiles"@),
{
    home.below("profiles")
}

/// Directory holding one profile's plugin dependencies and manifest.
pub fn profile_dir(home: &Location, profile: &str) -> (place: Location)
    ensures
        place@ == home@.below("profiles"@).below(profile@),
{
    profiles_dir(home).below(profile)
}

/// Default working directory for harness sessions.
///
/// Tools the agent runs inherit this, so it has to be somewhere the user
/// actually keeps work, never the application install directory.
pub fn default_workspace_dir(home: Option<String>) -> (place: Location)
    ensures
        place@ == (Place {
            base: match home {
                Some(root) => root@,
                None => "."@,
            },
            parts: Seq::empty(),
        }),
{
    match home {
        Some(root) => Location::root(&root),
        None => Location::root("."),
    }
}

/// The live runtime, the one being assembled, the one kept across a promotion
/// and the journal are four different places directly below one root, so that
/// one takes the place of another by a rename on one volume.
pub proof fn runtime_places_are_siblings(data: Place)
    ensures
        data.below("harness"@) != data.below("harness.installing"@),
        data.below("harness"@) != data.below("harness.previous"@),
        data.below("harness"@) != data.below("harness-install.json"@),
        data.below("harness.installing"@) != data.below("harness.previous"@),
        data.below("harness.installing"@) != data.below("harness-install.json"@),
        data.below("harness.previous"@) != data.below("harness-install.json"@),
{
    reveal_strlit("harness");
    reveal_strlit("harness.installing");
    reveal_strlit("harness.previous");
    reveal_strlit("harness-install.json");
    assert(data.below("harness"@).parts.last() == "harness"@);
    assert(data.below("harness.installing"@).parts.last() == "harness.installing"@);
    assert(data.below("harness.previous"@).parts.last() == "harness.previous"@);
    assert(data.below("harness-install.json"@).parts.last() == "harness-install.json"@);
    assert("harness.installing"@[8] == 'i');
    assert("harness.previous"@[8] == 'p');
    assert("harness-install.json"@[7] == '-');
}

/// A place below another is shown behind it, after a separator, under its own name;
/// a root is shown as it is.
pub proof fn a_place_is_shown_step_by_step(
    place: Place,
    name: Seq<char>,
    separator: Seq<char>,
)
    ensures
        place.below(name).shown(separator) == place.shown(separator) + separator + name,
        place.below(name).parts.last() == name,
        place.below(name).parts.drop_last() == place.parts,
        place.below(name).base == place.base,
        place.parts.len() == 0 ==> place.shown(separator) == place.base,
{
    let deeper = place.below(name);
    assert(deeper.parts.drop_last() =~= place.parts);
}

/// A location is seen as its root and its steps, one for one and in order.
pub proof fn a_location_is_seen_as_its_steps(location: Location, at: int)
    ensures
        location@.base == location.base@,
        location@.parts.len() == location.parts@.len(),
        0 <= at < location.parts@.len() ==> location@.parts[at] == location.parts@[at]@,
{
}

} // verus!
