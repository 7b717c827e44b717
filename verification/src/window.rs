//! The application's windows: what they are called, and where they are put.
//!
//! There can be more than one. A second window is not a second application; it is
//! a view onto the same one. Only the first is put away rather than closed, and
//! only its size and position are written down between runs.
use vstd::prelude::*;

use crate::error::{Error, Fault};
use crate::text;

verus! {

/// Label every other module uses to find the window.
pub const MAIN_LABEL: &'static str = "main";

/// What the windows after the first are called: `work-2`, `work-3`, and so on.
pub const WORK_PREFIX: &'static str = "work-";

/// How many windows one harness is worth being spread across. A held-down
/// shortcut opens windows faster than a person can close them.
pub const CEILING: usize = 12;

/// What every window is called before its number is added.
pub const TITLE: &'static str = "DSH Studio";

/// Physical pixels into the window where the drag strip is, at 100% scaling.
pub const TITLE_BAR_DEPTH: i32 = 18;

/// The label of a numbered window.
pub open spec fn label_of(ordinal: nat) -> Seq<char> {
    WORK_PREFIX@ + text::decimal(ordinal)
}

/// The label of a numbered window.
pub fn label(ordinal: usize) -> (name: String)
    ensures
        name@ == label_of(ordinal as nat),
{
    text::join2(WORK_PREFIX, &text::number_text(ordinal as u64))
}

/// The title of a numbered window.
pub fn title(ordinal: usize) -> (name: String)
    ensures
        name@ == TITLE@ + " — "@ + text::decimal(ordinal as nat),
{
    text::join3(TITLE, " — ", &text::number_text(ordinal as u64))
}

/// No numbered window is called what the main one is called.
pub proof fn no_numbered_window_is_the_main_one(ordinal: nat)
    ensures
        label_of(ordinal) != MAIN_LABEL@,
{
    reveal_strlit("main");
    reveal_strlit("work-");
    assert(label_of(ordinal)[0] == 'w');
    assert(MAIN_LABEL@[0] == 'm');
}

/// Two numbers are written differently.
proof fn lemma_decimal_injective(left: nat, right: nat)
    requires
        text::decimal(left) == text::decimal(right),
    ensures
        left == right,
    decreases left,
{
    text::lemma_decimal(left);
    text::lemma_decimal(right);
    if left >= 10 {
        text::lemma_decimal(left / 10);
    }
    if right >= 10 {
        text::lemma_decimal(right / 10);
    }
    let shown = text::decimal(left);
    if left >= 10 && right >= 10 {
        assert(shown.drop_last() =~= text::decimal(left / 10));
        assert(text::decimal(right).drop_last() =~= text::decimal(right / 10));
        lemma_decimal_injective(left / 10, right / 10);
    }
    assert(shown.last() == text::decimal(right).last());
}

/// Two numbered windows never share a label.
pub proof fn numbered_windows_have_labels_of_their_own(left: nat, right: nat)
    requires
        label_of(left) == label_of(right),
    ensures
        left == right,
{
    let length = WORK_PREFIX@.len() as int;
    assert(text::decimal(left) =~= label_of(left).skip(length));
    assert(text::decimal(right) =~= label_of(right).skip(length));
    lemma_decimal_injective(left, right);
}

/// Whether a number is the lowest one from two on that no window is using.
pub open spec fn lowest_free(taken: Seq<Seq<char>>, ordinal: nat) -> bool {
    &&& 2 <= ordinal <= CEILING
    &&& !taken.contains(label_of(ordinal))
    &&& forall|lower: nat| 2 <= lower < ordinal ==> taken.contains(#[trigger] label_of(lower))
}

/// Whether every number up to the ceiling is used.
pub open spec fn crowded(taken: Seq<Seq<char>>) -> bool {
    forall|ordinal: nat| 2 <= ordinal <= CEILING ==> taken.contains(#[trigger] label_of(ordinal))
}

/// The lowest number no window is using, or nothing once the ceiling is reached.
///
/// The lowest rather than the next one, so closing the third window and opening
/// another gives the third window back instead of counting on forever.
pub fn vacancy(taken: &Vec<String>) -> (free: Option<usize>)
    ensures
        match free {
            Some(ordinal) => lowest_free(text::texts(taken@), ordinal as nat),
            None => crowded(text::texts(taken@)),
        },
{
    let mut ordinal: usize = 2;
    while ordinal <= CEILING
        invariant
            2 <= ordinal <= CEILING + 1,
            forall|lower: nat|
                2 <= lower < ordinal ==> text::texts(taken@).contains(#[trigger] label_of(lower)),
        decreases CEILING + 1 - ordinal,
    {
        let name = label(ordinal);
        if !text::holds(taken, &name) {
            return Some(ordinal);
        }
        ordinal += 1;
    }
    None
}

/// The number of a new window, or why there is none.
pub fn next_window(taken: &Vec<String>) -> (free: Result<usize, Error>)
    ensures
        match free {
            Ok(ordinal) => lowest_free(text::texts(taken@), ordinal as nat),
            Err(error) => crowded(text::texts(taken@)) && error@ == Fault::Window(
                text::decimal(CEILING as nat)
                    + " windows are open already, which is as many as this app will run at once"@,
            ),
        },
{
    match vacancy(taken) {
        Some(ordinal) => Ok(ordinal),
        None => Err(
            Error::Window(
                text::join2(
                    &text::number_text(CEILING as u64),
                    " windows are open already, which is as many as this app will run at once",
                ),
            ),
        ),
    }
}

/// What is said when a window cannot be opened.
pub fn open_failure(cause: &str) -> (error: Error)
    ensures
        error@ == Fault::Window("the window could not be opened: "@ + cause@),
{
    Error::Window(text::join2("the window could not be opened: ", cause))
}

/// The window a request from outside the application lands on: the main one while
/// it is there, else any window that is. A window that is closed while another
/// keeps the process alive must not leave a tray icon that does nothing.
pub fn front(open: &Vec<String>) -> (found: Option<String>)
    ensures
        match found {
            Some(name) => text::texts(open@).contains(name@) && (text::texts(open@).contains(
                MAIN_LABEL@,
            ) ==> name@ == MAIN_LABEL@),
            None => open@.len() == 0,
        },
{
    if text::holds(open, MAIN_LABEL) {
        return Some(MAIN_LABEL.to_owned());
    }
    if open.len() == 0 {
        assert(text::texts(open@).len() == 0);
        return None;
    }
    assert(text::texts(open@)[0] == open@[0]@);
    Some(open[0].clone())
}

/// What is run before the page's own scripts, so that the first paint is already
/// right: what stands behind the window, and whether it stays hidden.
pub fn announce(material: &Option<String>, standby: bool) -> (script: String)
    ensures
        script@ == "window.__DSH_MATERIAL__ = "@ + (match *material {
            Some(value) => value@,
            None => "null"@,
        }) + ";window.__DSH_STANDBY__ = "@ + (if standby {
            "true"@
        } else {
            "false"@
        }) + ";"@,
{
    let value = match material {
        Some(value) => value.clone(),
        None => "null".to_owned(),
    };
    text::join5(
        "window.__DSH_MATERIAL__ = ",
        &value,
        ";window.__DSH_STANDBY__ = ",
        if standby {
            "true"
        } else {
            "false"
        },
        ";",
    )
}

/// Where the window was and how big, in physical pixels.
///
/// Physical rather than logical because that is what both the window and the
/// monitor list report: a position saved on a second monitor has to be
/// recognisable as off-screen once that monitor is gone.
#[derive(Clone, Copy, Debug, PartialEq, Eq, Structural)]
pub struct Placement {
    pub x: i32,
    pub y: i32,
    pub width: u32,
    pub height: u32,
    pub maximized: bool,
}

/// One monitor, in physical pixels.
#[derive(Clone, Copy, Debug, PartialEq, Eq, Structural)]
pub struct Monitor {
    pub x: i32,
    pub y: i32,
    pub width: u32,
    pub height: u32,
}

/// An extent as a signed number; larger ones count as the largest.
pub open spec fn extent(length: u32) -> int {
    if length > i32::MAX {
        i32::MAX as int
    } else {
        length as int
    }
}

impl Monitor {
    /// Whether a point lies on the monitor.
    pub open spec fn shows(self, x: int, y: int) -> bool {
        self.x <= x < self.x + extent(self.width) && self.y <= y < self.y + extent(self.height)
    }
}

impl Placement {
    /// Where the window is dragged by, across.
    pub open spec fn grip_x(self) -> int {
        self.x + self.width as int / 2
    }

    /// Where the window is dragged by, down.
    pub open spec fn grip_y(self) -> int {
        self.y + TITLE_BAR_DEPTH
    }

    /// Whether the strip the window is dragged by lands on one of the monitors.
    pub open spec fn reachable(self, monitors: Seq<Monitor>) -> bool {
        exists|i: int|
            0 <= i < monitors.len() && (#[trigger] monitors[i]).shows(self.grip_x(), self.grip_y())
    }
}

/// An extent as a signed number; larger ones count as the largest.
fn extent_of(length: u32) -> (signed: i64)
    ensures
        signed == extent(length),
{
    if length > 0x7fff_ffff {
        0x7fff_ffff
    } else {
        length as i64
    }
}

/// Whether the strip the window is dragged by lands on a monitor that exists.
///
/// The test is the top edge and not the whole rectangle: a window may hang off
/// the bottom or the side of a display and still be usable, but one whose title
/// bar is off-screen cannot be moved back. Monitors that cannot be listed are no
/// monitors.
pub fn on_screen(placement: &Placement, monitors: &Option<Vec<Monitor>>) -> (answer: bool)
    ensures
        answer == (match *monitors {
            Some(list) => placement.reachable(list@),
            None => false,
        }),
{
    let list = match monitors {
        Some(list) => list,
        None => {
            return false;
        },
    };
    let grip_x: i64 = placement.x as i64 + (placement.width / 2) as i64;
    let grip_y: i64 = placement.y as i64 + TITLE_BAR_DEPTH as i64;
    let mut index: usize = 0;
    while index < list.len()
        invariant
            index <= list@.len(),
            *monitors == Some(*list),
            grip_x == placement.grip_x(),
            grip_y == placement.grip_y(),
            forall|i: int|
                0 <= i < index ==> !(#[trigger] list@[i]).shows(
                    placement.grip_x(),
                    placement.grip_y(),
                ),
        decreases list.len() - index,
    {
        let monitor = list[index];
        let right: i64 = monitor.x as i64 + extent_of(monitor.width);
        let bottom: i64 = monitor.y as i64 + extent_of(monitor.height);
        let shown = monitor.x as i64 <= grip_x && grip_x < right && monitor.y as i64 <= grip_y
            && grip_y < bottom;
        assert(shown == list@[index as int].shows(placement.grip_x(), placement.grip_y()));
        if shown {
            return true;
        }
        index += 1;
    }
    false
}

/// What is done to a window to put it back where it was left.
#[derive(Clone, Copy, Debug, PartialEq, Eq)]
pub struct Restoration {
    pub position: Option<(i32, i32)>,
    pub size: Option<(u32, u32)>,
    pub maximize: bool,
}

/// What is done to a window that was left there.
pub open spec fn restored(placement: Placement, monitors: Option<Vec<Monitor>>) -> Restoration {
    if monitors is Some && placement.reachable(monitors->0@) {
        Restoration {
            position: Some((placement.x, placement.y)),
            size: Some((placement.width, placement.height)),
            maximize: placement.maximized,
        }
    } else {
        Restoration { position: None, size: None, maximize: placement.maximized }
    }
}

/// Puts a window back where it was left. A window restored onto a monitor that is
/// no longer there is one the user cannot reach; it stays centred.
pub fn restore(placement: &Option<Placement>, monitors: &Option<Vec<Monitor>>) -> (done: Restoration)
    ensures
        done == (match *placement {
            None => Restoration { position: None, size: None, maximize: false },
            Some(left) => restored(left, *monitors),
        }),
{
    match placement {
        None => Restoration { position: None, size: None, maximize: false },
        Some(left) => if on_screen(left, monitors) {
            Restoration {
                position: Some((left.x, left.y)),
                size: Some((left.width, left.height)),
                maximize: left.maximized,
            }
        } else {
            Restoration { position: None, size: None, maximize: left.maximized }
        },
    }
}

/// A window is never put, neither back nor beside another one, where it cannot be
/// dragged from.
pub proof fn a_placed_window_can_be_reached(
    placement: Placement,
    origin: (i32, i32),
    step: i32,
    monitors: Option<Vec<Monitor>>,
)
    ensures
        restored(placement, monitors).position is Some ==> placement.reachable(monitors->0@),
        cascaded(origin, (placement.width, placement.height), step, monitors) matches Some((x, y))
            ==> (Placement { x, y, maximized: false, ..placement }).reachable(monitors->0@),
{
}

/// Where a window is put that was opened from another one.
pub open spec fn cascaded(
    origin: (i32, i32),
    size: (u32, u32),
    step: i32,
    monitors: Option<Vec<Monitor>>,
) -> Option<(i32, i32)> {
    let x = origin.0 + step;
    let y = origin.1 + step;
    let placement = Placement {
        x: x as i32,
        y: y as i32,
        width: size.0,
        height: size.1,
        maximized: false,
    };
    if i32::MIN <= x <= i32::MAX && i32::MIN <= y <= i32::MAX && monitors is Some
        && placement.reachable(monitors->0@) {
        Some((x as i32, y as i32))
    } else {
        None
    }
}

/// Where a window is put that was opened from another one: a step away from it,
/// unless that is off the end of the display. A centred second window would land
/// exactly on top of the first.
pub fn cascade(
    origin: (i32, i32),
    size: (u32, u32),
    step: i32,
    monitors: &Option<Vec<Monitor>>,
) -> (position: Option<(i32, i32)>)
    ensures
        position == cascaded(origin, size, step, *monitors),
{
    let (x, y) = match (origin.0.checked_add(step), origin.1.checked_add(step)) {
        (Some(x), Some(y)) => (x, y),
        _ => {
            return None;
        },
    };
    let placement = Placement { x, y, width: size.0, height: size.1, maximized: false };
    if on_screen(&placement, monitors) {
        Some((x, y))
    } else {
        None
    }
}

/// Where the window is, while it is open.
#[derive(Clone, Copy, Debug, PartialEq, Eq, Structural)]
pub struct Tracker {
    pub latest: Placement,
    /// Whether a write is already queued for the gesture in progress.
    pub scheduled: bool,
}

impl Tracker {
    /// After the window was moved or resized. A maximized window records only that
    /// it was maximized: its size is the screen's. Minimizing is a resize to
    /// something that is not a window shape.
    pub open spec fn after(
        self,
        minimized: bool,
        maximized: bool,
        fresh: Option<Placement>,
    ) -> Tracker {
        if minimized {
            self
        } else {
            Tracker {
                latest: match fresh {
                    Some(placement) if !maximized => Placement { maximized: false, ..placement },
                    _ => Placement { maximized, ..self.latest },
                },
                scheduled: true,
            }
        }
    }

    /// Tracks a window from where it is.
    pub fn new(initial: Placement) -> (tracker: Tracker)
        ensures
            tracker == (Tracker { latest: initial, scheduled: false }),
    {
        Tracker { latest: initial, scheduled: false }
    }

    /// The window was moved or resized. Whether a write is to be queued: one per
    /// gesture rather than one per event.
    pub fn moved(&mut self, minimized: bool, maximized: bool, fresh: Option<Placement>) -> (queue:
        bool)
        ensures
            *final(self) == old(self).after(minimized, maximized, fresh),
            queue == (!minimized && !old(self).scheduled),
    {
        if minimized {
            return false;
        }
        self.latest.maximized = maximized;
        if !maximized {
            if let Some(placement) = fresh {
                self.latest = Placement {
                    x: placement.x,
                    y: placement.y,
                    width: placement.width,
                    height: placement.height,
                    maximized: false,
                };
            }
        }
        let queued = self.scheduled;
        self.scheduled = true;
        !queued
    }

    /// The gesture has ended: what is written down.
    pub fn settle(&mut self) -> (written: Placement)
        ensures
            written == old(self).latest,
            *final(self) == (Tracker { scheduled: false, ..*old(self) }),
    {
        self.scheduled = false;
        self.latest
    }
}

/// A maximized window keeps the size it has when it is not.
pub proof fn maximizing_keeps_the_size(tracker: Tracker, fresh: Option<Placement>)
    ensures
        ({
            let after = tracker.after(false, true, fresh).latest;
            &&& after == (Placement { maximized: true, ..tracker.latest })
        }),
{
}

/// One look at a window that was moved or resized.
pub struct Motion {
    pub minimized: bool,
    pub maximized: bool,
    pub fresh: Option<Placement>,
}

impl Tracker {
    /// After many motions, in order.
    pub open spec fn after_all(self, motions: Seq<Motion>) -> Tracker
        decreases motions.len(),
    {
        if motions.len() == 0 {
            self
        } else {
            let last = motions.last();
            self.after_all(motions.drop_last()).after(last.minimized, last.maximized, last.fresh)
        }
    }

    /// How many writes are queued on the way.
    pub open spec fn queued(self, motions: Seq<Motion>) -> nat
        decreases motions.len(),
    {
        if motions.len() == 0 {
            0
        } else {
            let before = motions.drop_last();
            self.queued(before) + (if !motions.last().minimized && !self.after_all(
                before,
            ).scheduled {
                1nat
            } else {
                0nat
            })
        }
    }
}

/// However often a window moves in one gesture, one write is queued at most, and
/// one is queued as soon as a motion is worth writing down.
pub proof fn one_write_per_gesture(tracker: Tracker, motions: Seq<Motion>)
    requires
        !tracker.scheduled,
    ensures
        tracker.queued(motions) == (if tracker.after_all(motions).scheduled {
            1nat
        } else {
            0nat
        }),
        tracker.after_all(motions).scheduled == exists|i: int|
            0 <= i < motions.len() && !(#[trigger] motions[i]).minimized,
    decreases motions.len(),
{
    if motions.len() > 0 {
        let before = motions.drop_last();
        one_write_per_gesture(tracker, before);
        assert(forall|i: int| 0 <= i < before.len() ==> before[i] == motions[i]);
        if tracker.after_all(before).scheduled {
            let k = choose|k: int| 0 <= k < before.len() && !(#[trigger] before[k]).minimized;
            assert(!motions[k].minimized);
        }
        if tracker.after_all(motions).scheduled && !tracker.after_all(before).scheduled {
            assert(!motions[motions.len() - 1].minimized);
        }
        if exists|i: int| 0 <= i < motions.len() && !(#[trigger] motions[i]).minimized {
            let k = choose|k: int| 0 <= k < motions.len() && !(#[trigger] motions[k]).minimized;
            if k < before.len() {
                assert(!before[k].minimized);
            }
        }
    }
}

/// What is written down at the end of a gesture is where the window was last seen
/// while it was neither minimized nor maximized.
pub proof fn the_last_place_is_written(
    tracker: Tracker,
    motions: Seq<Motion>,
    minimizing: Seq<Motion>,
)
    requires
        motions.len() > 0,
        !motions.last().minimized,
        !motions.last().maximized,
        motions.last().fresh is Some,
        forall|i: int| 0 <= i < minimizing.len() ==> (#[trigger] minimizing[i]).minimized,
    ensures
        tracker.after_all(motions + minimizing).latest == (Placement {
            maximized: false,
            ..motions.last().fresh->0
        }),
    decreases minimizing.len(),
{
    if minimizing.len() > 0 {
        let fewer = minimizing.drop_last();
        assert(forall|i: int| 0 <= i < fewer.len() ==> fewer[i] == minimizing[i]);
        the_last_place_is_written(tracker, motions, fewer);
        assert((motions + minimizing).drop_last() =~= motions + fewer);
        assert((motions + minimizing).last() == minimizing.last());
        assert(minimizing[minimizing.len() - 1].minimized);
    } else {
        assert(motions + minimizing =~= motions);
    }
}

/// A numbered window is called by its number behind the common name, and the number
/// can be read off its label.
pub proof fn a_label_carries_its_number(ordinal: nat)
    ensures
        text::begins(label_of(ordinal), "work-"@),
        text::spelled(label_of(ordinal).skip(5)) == ordinal,
{
    reveal_strlit("work-");
    assert(label_of(ordinal).take(5) =~= "work-"@);
    assert(label_of(ordinal).skip(5) =~= text::decimal(ordinal));
    text::a_number_is_written_as_it_is_read(ordinal);
}

/// A new window gets the lowest number from two to twelve that none has, and there
/// is no such number exactly where all are taken.
pub proof fn a_new_window_gets_the_lowest_free_number(taken: Seq<Seq<char>>, ordinal: nat)
    requires
        2 <= ordinal <= 12,
        !taken.contains(label_of(ordinal)),
    ensures
        !crowded(taken),
        exists|lowest: nat| lowest <= ordinal && #[trigger] lowest_free(taken, lowest),
        forall|free: nat| #[trigger] lowest_free(taken, free) ==> 2 <= free <= ordinal,
    decreases ordinal,
{
    if forall|lower: nat| 2 <= lower < ordinal ==> taken.contains(#[trigger] label_of(lower)) {
        assert(lowest_free(taken, ordinal));
    } else {
        let lower = choose|lower: nat|
            2 <= lower < ordinal && !taken.contains(#[trigger] label_of(lower));
        a_new_window_gets_the_lowest_free_number(taken, lower);
    }
}

/// A monitor shows its upper left corner and everything up to, but not with, its
/// right and its lower edge.
pub proof fn a_monitor_shows_what_lies_on_it(monitor: Monitor, x: int, y: int)
    requires
        monitor.width <= i32::MAX,
        monitor.height <= i32::MAX,
    ensures
        monitor.shows(x, y) <==> 0 <= x - monitor.x < monitor.width && 0 <= y - monitor.y
            < monitor.height,
{
}

/// A window is dragged by the middle of its upper edge, a little below it, and can
/// be reached exactly where that point lies on some monitor.
pub proof fn a_window_is_dragged_by_its_middle(
    placement: Placement,
    monitors: Seq<Monitor>,
    at: int,
)
    ensures
        2 * (placement.grip_x() - placement.x) <= placement.width < 2 * (placement.grip_x()
            - placement.x) + 2,
        placement.grip_y() - placement.y == 18,
        0 <= at < monitors.len() && monitors[at].shows(placement.grip_x(), placement.grip_y())
            ==> placement.reachable(monitors),
        !placement.reachable(Seq::empty()),
{
}

/// A window is put back exactly where it was left and as large as it was, wherever
/// it can be reached there, and is neither moved nor resized where it cannot; it is
/// maximized exactly where it was.
pub proof fn a_window_is_put_back_as_it_was(placement: Placement, monitors: Vec<Monitor>)
    ensures
        placement.reachable(monitors@) ==> restored(placement, Some(monitors)) == (Restoration {
            position: Some((placement.x, placement.y)),
            size: Some((placement.width, placement.height)),
            maximize: placement.maximized,
        }),
        !placement.reachable(monitors@) ==> restored(placement, Some(monitors)) == (Restoration {
            position: None,
            size: None,
            maximize: placement.maximized,
        }),
        restored(placement, None) == (Restoration {
            position: None,
            size: None,
            maximize: placement.maximized,
        }),
{
}

/// A window opened from another one is put one step right of and below it, wherever
/// it can be reached there.
pub proof fn a_second_window_is_put_one_step_away(
    origin: (i32, i32),
    size: (u32, u32),
    step: i32,
    monitors: Vec<Monitor>,
    placement: Placement,
)
    requires
        placement.x == origin.0 + step,
        placement.y == origin.1 + step,
        placement.width == size.0,
        placement.height == size.1,
        !placement.maximized,
    ensures
        cascaded(origin, size, step, Some(monitors)) == (if placement.reachable(monitors@) {
            Some((placement.x, placement.y))
        } else {
            None
        }),
        cascaded(origin, size, step, None) is None,
{
}

/// A window that is minimized is not tracked; one that is neither minimized nor
/// maximized is tracked where it is; and one that is maximized, or that cannot be
/// looked at, keeps its place and is only marked.
pub proof fn a_window_is_tracked_while_it_has_a_shape(tracker: Tracker, place: Placement)
    ensures
        tracker.after(true, true, Some(place)) == tracker,
        tracker.after(true, false, None) == tracker,
        tracker.after(false, false, Some(place)).latest == (Placement {
            maximized: false,
            ..place
        }),
        tracker.after(false, false, None).latest == (Placement {
            maximized: false,
            ..tracker.latest
        }),
        tracker.after(false, true, None).latest == (Placement {
            maximized: true,
            ..tracker.latest
        }),
        tracker.after(false, true, Some(place)).scheduled,
        tracker.after(false, false, Some(place)).scheduled,
{
}

/// The first window goes by a name of its own.
pub proof fn the_first_window_is_the_main_one()
    ensures
        MAIN_LABEL@ == "main"@,
        TITLE@ == "DSH Studio"@,
{
}

/// The number of a new window is one that no window has, every lower one from two on
/// is taken, and there is only one such number; where there is none, every number up to
/// twelve is taken.
pub proof fn a_new_window_never_shares_a_number(
    taken: Seq<Seq<char>>,
    free: nat,
    other: nat,
    lower: nat,
)
    ensures
        lowest_free(taken, free) ==> 2 <= free <= 12 && !taken.contains(
            "work-"@ + text::decimal(free),
        ),
        lowest_free(taken, free) && 2 <= lower < free ==> taken.contains(
            "work-"@ + text::decimal(lower),
        ),
        lowest_free(taken, free) && lowest_free(taken, other) ==> free == other,
        crowded(taken) && 2 <= lower <= 12 ==> taken.contains("work-"@ + text::decimal(lower)),
        crowded(taken) ==> !lowest_free(taken, free),
{
    assert(label_of(free) == "work-"@ + text::decimal(free));
    assert(label_of(lower) == "work-"@ + text::decimal(lower));
    assert(label_of(other) == "work-"@ + text::decimal(other));
}

} // verus!
