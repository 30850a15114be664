//! Placement of the floating ball at start-up and persistence of the
//! position it is dragged to.
use vstd::prelude::*;

verus! {

/// Gap, in pixels, between the default position and the primary screen's right edge.
pub const FLOATING_DEFAULT_EDGE_GAP: i32 = 24;

/// Default vertical position of the ball's centre, in percent of the primary screen's height.
pub const FLOATING_DEFAULT_Y_PERCENT: i32 = 30;

/// How many times placing the ball is tried at start-up.
pub const STARTUP_RETRIES: usize = 20;

/// `v` saturated to the `i32` range.
pub open spec fn sat(v: int) -> i32 {
    if v > i32::MAX {
        i32::MAX
    } else if v < i32::MIN {
        i32::MIN
    } else {
        v as i32
    }
}

/// Division truncating toward zero, as Rust's `/` on integers.
pub open spec fn trunc_div(a: int, b: int) -> int {
    if a >= 0 {
        a / b
    } else {
        -((-a) / b)
    }
}

/// `v` clamped to `[lo, hi]` (`Ord::clamp`, `lo <= hi`).
pub open spec fn clamp(v: int, lo: int, hi: int) -> int {
    if v < lo {
        lo
    } else if v > hi {
        hi
    } else {
        v
    }
}

/// `i32::saturating_add`.
pub fn saturating_add(a: i32, b: i32) -> (r: i32)
    ensures
        r == sat(a + b),
{
    let s = a as i64 + b as i64;
    if s > i32::MAX as i64 {
        i32::MAX
    } else if s < i32::MIN as i64 {
        i32::MIN
    } else {
        s as i32
    }
}

/// `i32::saturating_sub`.
pub fn saturating_sub(a: i32, b: i32) -> (r: i32)
    ensures
        r == sat(a - b),
{
    let s = a as i64 - b as i64;
    if s > i32::MAX as i64 {
        i32::MAX
    } else if s < i32::MIN as i64 {
        i32::MIN
    } else {
        s as i32
    }
}

/// `i32::saturating_mul`.
pub fn saturating_mul(a: i32, b: i32) -> (r: i32)
    ensures
        r == sat(a * b),
{
    assert(-0x4000_0000_0000_0000 <= (a as int) * (b as int) <= 0x4000_0000_0000_0000) by (nonlinear_arith)
        requires
            i32::MIN <= a <= i32::MAX,
            i32::MIN <= b <= i32::MAX,
    ;
    let s = a as i64 * b as i64;
    if s > i32::MAX as i64 {
        i32::MAX
    } else if s < i32::MIN as i64 {
        i32::MIN
    } else {
        s as i32
    }
}

/// `i32::clamp` (`lo <= hi`).
pub fn clamp_i32(v: i32, lo: i32, hi: i32) -> (r: i32)
    requires
        lo <= hi,
    ensures
        r == clamp(v as int, lo as int, hi as int),
{
    if v < lo {
        lo
    } else if v > hi {
        hi
    } else {
        v
    }
}

/// The desktop geometry the start-up position depends on: the ball's window
/// rectangle, the virtual screen and the primary screen's size.
#[derive(Clone, Copy, Debug, PartialEq, Eq, Structural)]
pub struct StartupGeometry {
    pub rect_left: i32,
    pub rect_top: i32,
    pub rect_right: i32,
    pub rect_bottom: i32,
    pub virtual_left: i32,
    pub virtual_top: i32,
    pub virtual_width: i32,
    pub virtual_height: i32,
    pub primary_width: i32,
    pub primary_height: i32,
}

/// Where the ball is placed, and whether that is the saved position.
#[derive(Clone, Copy, Debug, PartialEq, Eq, Structural)]
pub struct StartupPosition {
    pub x: i32,
    pub y: i32,
    pub restored: bool,
}

/// The ball's width, at least 1.
pub open spec fn ball_width(g: StartupGeometry) -> int {
    let w = g.rect_right - g.rect_left;
    if w > 1 { w } else { 1 }
}

/// The ball's height, at least 1.
pub open spec fn ball_height(g: StartupGeometry) -> int {
    let h = g.rect_bottom - g.rect_top;
    if h > 1 { h } else { 1 }
}

/// The largest left edge that keeps the ball on the virtual screen, but never
/// left of the virtual screen's left edge.
pub open spec fn max_x(g: StartupGeometry) -> int {
    let m = sat(sat(g.virtual_left + g.virtual_width) - ball_width(g)) as int;
    if m > g.virtual_left { m } else { g.virtual_left as int }
}

/// The largest top edge that keeps the ball on the virtual screen, but never
/// above the virtual screen's top edge.
pub open spec fn max_y(g: StartupGeometry) -> int {
    let m = sat(sat(g.virtual_top + g.virtual_height) - ball_height(g)) as int;
    if m > g.virtual_top { m } else { g.virtual_top as int }
}

/// The saved position, when both coordinates are saved and keep the ball on
/// the virtual screen.
pub open spec fn usable_saved(g: StartupGeometry, saved_x: Option<i32>, saved_y: Option<i32>) -> Option<Position> {
    match (saved_x, saved_y) {
        (Some(x), Some(y)) => if g.virtual_left <= x <= max_x(g) && g.virtual_top <= y <= max_y(g) {
            Some(Position { x, y })
        } else {
            None
        },
        _ => None,
    }
}

/// The default left edge: the ball's width and the edge gap left of the
/// primary screen's right edge, kept on the virtual screen.
pub open spec fn default_x(g: StartupGeometry) -> int {
    clamp(
        sat(sat(g.primary_width - ball_width(g)) - FLOATING_DEFAULT_EDGE_GAP) as int,
        g.virtual_left as int,
        max_x(g),
    )
}

/// The default top edge: the ball centred at 30 % of the primary screen's
/// height, kept on the virtual screen.
pub open spec fn default_y(g: StartupGeometry) -> int {
    let centre = trunc_div(sat(g.primary_height * FLOATING_DEFAULT_Y_PERCENT) as int, 100);
    clamp(sat(centre - ball_height(g) / 2) as int, g.virtual_top as int, max_y(g))
}

/// Computes where the ball is placed at start-up: the saved position when it
/// keeps the ball on the virtual screen, the default position otherwise.
pub fn startup_position(g: &StartupGeometry, saved_x: Option<i32>, saved_y: Option<i32>) -> (r: StartupPosition)
    requires
        i32::MIN <= g.rect_right - g.rect_left <= i32::MAX,
        i32::MIN <= g.rect_bottom - g.rect_top <= i32::MAX,
    ensures
        usable_saved(*g, saved_x, saved_y) matches Some(p) ==> r == (StartupPosition { x: p.x, y: p.y, restored: true }),
        usable_saved(*g, saved_x, saved_y) is None ==> r == (StartupPosition {
            x: default_x(*g) as i32,
            y: default_y(*g) as i32,
            restored: false,
        }),
        g.virtual_left <= r.x <= max_x(*g),
        g.virtual_top <= r.y <= max_y(*g),
{
    let w = g.rect_right - g.rect_left;
    let width = if w > 1 { w } else { 1 };
    let h = g.rect_bottom - g.rect_top;
    let height = if h > 1 { h } else { 1 };
    let mx0 = saturating_sub(saturating_add(g.virtual_left, g.virtual_width), width);
    let max_x = if mx0 > g.virtual_left { mx0 } else { g.virtual_left };
    let my0 = saturating_sub(saturating_add(g.virtual_top, g.virtual_height), height);
    let max_y = if my0 > g.virtual_top { my0 } else { g.virtual_top };
    if let (Some(x), Some(y)) = (saved_x, saved_y) {
        if x >= g.virtual_left && x <= max_x && y >= g.virtual_top && y <= max_y {
            return StartupPosition { x, y, restored: true };
        }
    }
    let dx = clamp_i32(
        saturating_sub(saturating_sub(g.primary_width, width), FLOATING_DEFAULT_EDGE_GAP),
        g.virtual_left,
        max_x,
    );
    let scaled = saturating_mul(g.primary_height, FLOATING_DEFAULT_Y_PERCENT);
    let centre = if scaled >= 0 { scaled / 100 } else { -((-(scaled as i64)) / 100) as i32 };
    let dy = clamp_i32(saturating_sub(centre, height / 2), g.virtual_top, max_y);
    StartupPosition { x: dx, y: dy, restored: false }
}

/// Whether a dragged-to position differs from the saved one and must be stored.
pub fn position_changed(saved_x: Option<i32>, saved_y: Option<i32>, x: i32, y: i32) -> (r: bool)
    ensures
        r == !(saved_x == Some(x) && saved_y == Some(y)),
{
    !(saved_x == Some(x) && saved_y == Some(y))
}

/// What start-up placement does after an attempt.
#[derive(Clone, Copy, Debug, PartialEq, Eq, Structural)]
pub enum RetryStep {
    /// The ball is placed; stop trying.
    Positioned,
    /// Wait the retry interval and try again.
    RetryAfterDelay,
    /// The last attempt failed; go on without a placement.
    GiveUp,
}

/// The decision after attempt number `attempt` (counting from 1).
pub open spec fn retry_step_of(attempt: nat, succeeded: bool) -> RetryStep {
    if succeeded {
        RetryStep::Positioned
    } else if attempt < STARTUP_RETRIES {
        RetryStep::RetryAfterDelay
    } else {
        RetryStep::GiveUp
    }
}

/// Start-up placement tries up to `STARTUP_RETRIES` times and stops at the
/// first attempt that succeeds; after a failed attempt it waits and retries,
/// unless that was the last one.
pub fn retry_step(attempt: usize, succeeded: bool) -> (r: RetryStep)
    requires
        1 <= attempt <= STARTUP_RETRIES,
    ensures
        r == retry_step_of(attempt as nat, succeeded),
{
    if succeeded {
        RetryStep::Positioned
    } else if attempt < STARTUP_RETRIES {
        RetryStep::RetryAfterDelay
    } else {
        RetryStep::GiveUp
    }
}

/// The run of start-up attempts from attempt `next` on, where `succeeds(i)`
/// tells whether attempt `i` (from 1) succeeds: whether the ball was placed,
/// and how many attempts were made in all.
pub open spec fn retry_run(succeeds: spec_fn(nat) -> bool, next: nat) -> (bool, nat)
    decreases STARTUP_RETRIES - next,
{
    if next < 1 || next > STARTUP_RETRIES {
        (false, 0)
    } else {
        match retry_step_of(next, succeeds(next)) {
            RetryStep::Positioned => (true, next),
            RetryStep::GiveUp => (false, next),
            RetryStep::RetryAfterDelay => retry_run(succeeds, next + 1),
        }
    }
}

/// Placement succeeds exactly when one of the first `STARTUP_RETRIES`
/// attempts does; it then stops at the first such attempt, and otherwise
/// makes all `STARTUP_RETRIES` attempts.
pub proof fn law_retry_stops_at_first_success(succeeds: spec_fn(nat) -> bool)
    ensures
        retry_run(succeeds, 1).0 <==> exists|i: nat| 1 <= i <= STARTUP_RETRIES && #[trigger] succeeds(i),
        retry_run(succeeds, 1).0 ==> succeeds(retry_run(succeeds, 1).1) && 1 <= retry_run(succeeds, 1).1
            <= STARTUP_RETRIES && forall|i: nat| 1 <= i < retry_run(succeeds, 1).1 ==> !#[trigger] succeeds(i),
        !retry_run(succeeds, 1).0 ==> retry_run(succeeds, 1).1 == STARTUP_RETRIES,
{
    lemma_retry_run_from(succeeds, 1);
}

proof fn lemma_retry_run_from(succeeds: spec_fn(nat) -> bool, next: nat)
    requires
        1 <= next <= STARTUP_RETRIES,
    ensures
        retry_run(succeeds, next).0 <==> exists|i: nat| next <= i <= STARTUP_RETRIES && #[trigger] succeeds(i),
        retry_run(succeeds, next).0 ==> succeeds(retry_run(succeeds, next).1) && next <= retry_run(
            succeeds,
            next,
        ).1 <= STARTUP_RETRIES && forall|i: nat| next <= i < retry_run(succeeds, next).1 ==> !#[trigger] succeeds(i),
        !retry_run(succeeds, next).0 ==> retry_run(succeeds, next).1 == STARTUP_RETRIES,
    decreases STARTUP_RETRIES - next,
{
    if !succeeds(next) && next < STARTUP_RETRIES {
        lemma_retry_run_from(succeeds, next + 1);
        assert(retry_run(succeeds, next) == retry_run(succeeds, next + 1));
        if retry_run(succeeds, next).0 {
            let k = retry_run(succeeds, next).1;
            assert forall|i: nat| next <= i < k implies !#[trigger] succeeds(i) by {
                if i > next {
                    assert(next + 1 <= i < k);
                }
            }
        } else {
            assert forall|i: nat| next <= i <= STARTUP_RETRIES implies !#[trigger] succeeds(i) by {
                if i > next {
                    assert(next + 1 <= i <= STARTUP_RETRIES);
                }
            }
        }
    }
}

/// Visibility to apply once start-up placement has ended: `Some(v)` sets the
/// controller (or the list) to `v`, `None` leaves it as it is.
#[derive(Clone, Copy, Debug, PartialEq, Eq, Structural)]
pub struct VisibilityPlan {
    pub controller: Option<bool>,
    pub list: Option<bool>,
}

/// After placing the ball: the controller takes its initial visibility and
/// the list opens with it when tabs are always shown. When placing failed, a
/// controller meant to be visible is still shown, and nothing else changes.
pub fn startup_visibility(positioned: bool, initially_visible: bool, list_preference: bool) -> (r: VisibilityPlan)
    ensures
        positioned ==> r == (VisibilityPlan {
            controller: Some(initially_visible),
            list: Some(initially_visible && list_preference),
        }),
        !positioned && initially_visible ==> r == (VisibilityPlan { controller: Some(true), list: None }),
        !positioned && !initially_visible ==> r == (VisibilityPlan { controller: None, list: None }),
{
    if positioned {
        VisibilityPlan { controller: Some(initially_visible), list: Some(initially_visible && list_preference) }
    } else if initially_visible {
        VisibilityPlan { controller: Some(true), list: None }
    } else {
        VisibilityPlan { controller: None, list: None }
    }
}

/// A screen position of the ball's top-left corner.
#[derive(Clone, Copy, Debug, PartialEq, Eq, Structural)]
pub struct Position {
    pub x: i32,
    pub y: i32,
}

/// The drag watcher: the last known position and the left button's history.
#[derive(Clone, Copy, Debug, PartialEq, Eq, Structural)]
pub struct DragWatch {
    pub last_position: Option<Position>,
    pub left_was_down: bool,
    pub moved_while_down: bool,
}

/// One poll of the drag watcher: the state after it, and the position to
/// store, if any. The position is stored when the left button is released
/// after the ball moved while it was down.
pub open spec fn drag_step(s: DragWatch, left_down: bool, current: Option<Position>) -> (DragWatch, Option<Position>) {
    let moved = if left_down {
        s.moved_while_down || (match (s.last_position, current) {
            (Some(p), Some(c)) => p != c,
            _ => false,
        })
    } else if s.left_was_down && s.moved_while_down {
        false
    } else {
        s.moved_while_down
    };
    let persist = if !left_down && s.left_was_down && s.moved_while_down {
        current
    } else {
        None
    };
    (DragWatch {
        last_position: if current is Some { current } else { s.last_position },
        left_was_down: left_down,
        moved_while_down: moved,
    }, persist)
}

impl DragWatch {
    /// A watcher that starts from `initial` with the button up.
    pub fn new(initial: Option<Position>) -> (r: DragWatch)
        ensures
            r == (DragWatch { last_position: initial, left_was_down: false, moved_while_down: false }),
    {
        DragWatch { last_position: initial, left_was_down: false, moved_while_down: false }
    }

    /// Feeds one poll: whether the left button is down and where the ball is
    /// (if it could be read). Returns the position to store.
    pub fn step(&mut self, left_down: bool, current: Option<Position>) -> (r: Option<Position>)
        ensures
            (*final(self), r) == drag_step(*old(self), left_down, current),
    {
        let mut persist = None;
        if left_down {
            if let (Some(previous), Some(now)) = (self.last_position, current) {
                if previous.x != now.x || previous.y != now.y {
                    self.moved_while_down = true;
                }
            }
        } else if self.left_was_down && self.moved_while_down {
            persist = current;
            self.moved_while_down = false;
        }
        if current.is_some() {
            self.last_position = current;
        }
        self.left_was_down = left_down;
        persist
    }
}


/// The drag watcher asks to store a position only when the left button is
/// released after the ball moved while it was down, and it then stores the
/// position just read; after any release nothing counts as moved any more.
pub proof fn law_drag_persists_only_on_release(s: DragWatch, left_down: bool, current: Option<Position>)
    ensures
        drag_step(s, left_down, current).1 is Some ==> !left_down && s.left_was_down && s.moved_while_down
            && drag_step(s, left_down, current).1 == current,
        !left_down && s.left_was_down ==> !drag_step(s, left_down, current).0.moved_while_down,
        drag_step(s, left_down, current).0.left_was_down == left_down,
{
}

/// Holding the button while the ball moves, then releasing it over a readable
/// position, stores that position.
pub proof fn law_drag_then_release_persists(start: Position, moved_to: Position)
    requires
        start != moved_to,
    ensures
        ({
            let s0 = DragWatch { last_position: Some(start), left_was_down: false, moved_while_down: false };
            let s1 = drag_step(s0, true, Some(start)).0;
            let s2 = drag_step(s1, true, Some(moved_to)).0;
            drag_step(s2, false, Some(moved_to)).1 == Some(moved_to)
        }),
{
}

/// The watcher after the first `k` polls of `polls`, each poll being whether
/// the left button is down and the position read (if any), from `s0`.
pub open spec fn drag_state_at(s0: DragWatch, polls: Seq<(bool, Option<Position>)>, k: nat) -> DragWatch
    decreases k,
{
    if k == 0 || k > polls.len() {
        s0
    } else {
        drag_step(drag_state_at(s0, polls, (k - 1) as nat), polls[k - 1].0, polls[k - 1].1).0
    }
}

/// The position stored at poll `k` (from 0) of the run.
pub open spec fn drag_output_at(s0: DragWatch, polls: Seq<(bool, Option<Position>)>, k: nat) -> Option<Position> {
    drag_step(drag_state_at(s0, polls, k), polls[k as int].0, polls[k as int].1).1
}

/// The button was held at every poll from `j` up to (not including) `k`, and
/// at poll `j` the ball was read at a place other than the last one read.
pub open spec fn moved_while_held(s0: DragWatch, polls: Seq<(bool, Option<Position>)>, j: nat, k: nat) -> bool {
    &&& j < k <= polls.len()
    &&& forall|i: int| j <= i < k ==> (#[trigger] polls[i]).0
    &&& match (drag_state_at(s0, polls, j).last_position, polls[j as int].1) {
        (Some(p), Some(c)) => p != c,
        _ => false,
    }
}

proof fn lemma_drag_run(s0: DragWatch, polls: Seq<(bool, Option<Position>)>, k: nat)
    requires
        s0.left_was_down == false,
        s0.moved_while_down == false,
        k <= polls.len(),
    ensures
        drag_state_at(s0, polls, k).moved_while_down ==> drag_state_at(s0, polls, k).left_was_down,
        drag_state_at(s0, polls, k).moved_while_down ==> exists|j: nat| #[trigger] moved_while_held(s0, polls, j, k),
        k > 0 ==> drag_state_at(s0, polls, k).left_was_down == polls[k - 1].0,
    decreases k,
{
    if k > 0 {
        let km = (k - 1) as nat;
        lemma_drag_run(s0, polls, km);
        let prev = drag_state_at(s0, polls, km);
        let cur = drag_state_at(s0, polls, k);
        if cur.moved_while_down {
            if polls[km as int].0 {
                if prev.moved_while_down {
                    let j = choose|j: nat| #[trigger] moved_while_held(s0, polls, j, km);
                    assert(moved_while_held(s0, polls, j, k));
                } else {
                    assert(moved_while_held(s0, polls, km, k));
                }
            }
        }
    }
}

/// Over any run of polls from a fresh watcher, a position is stored only at a
/// poll where the button is up after being down at the poll before, after the
/// ball was read at a new place at some poll of that held stretch; and the
/// position stored is the one read at that poll. While the button is held
/// nothing is stored.
pub proof fn law_drag_run_persists_only_after_moved_release(
    initial: Option<Position>,
    polls: Seq<(bool, Option<Position>)>,
    k: nat,
)
    requires
        k < polls.len(),
    ensures
        ({
            let s0 = DragWatch { last_position: initial, left_was_down: false, moved_while_down: false };
            &&& polls[k as int].0 ==> drag_output_at(s0, polls, k) is None
            &&& drag_output_at(s0, polls, k) is Some ==> {
                &&& !polls[k as int].0
                &&& k > 0 && polls[k - 1].0
                &&& drag_output_at(s0, polls, k) == polls[k as int].1
                &&& exists|j: nat| #[trigger] moved_while_held(s0, polls, j, k)
            }
        }),
{
    let s0 = DragWatch { last_position: initial, left_was_down: false, moved_while_down: false };
    lemma_drag_run(s0, polls, k);
}

/// The same desktop with the ball's window rectangle moved by `(dx, dy)`.
pub open spec fn rect_moved(g: StartupGeometry, dx: int, dy: int) -> StartupGeometry {
    StartupGeometry {
        rect_left: (g.rect_left + dx) as i32,
        rect_top: (g.rect_top + dy) as i32,
        rect_right: (g.rect_right + dx) as i32,
        rect_bottom: (g.rect_bottom + dy) as i32,
        ..g
    }
}

/// Where the ball's window currently is does not matter, only its size:
/// moving its rectangle leaves both the acceptance of a saved position and
/// the default position unchanged.
pub proof fn law_placement_depends_on_the_ball_size_only(
    g: StartupGeometry,
    dx: int,
    dy: int,
    saved_x: Option<i32>,
    saved_y: Option<i32>,
)
    requires
        i32::MIN <= g.rect_left + dx <= i32::MAX,
        i32::MIN <= g.rect_right + dx <= i32::MAX,
        i32::MIN <= g.rect_top + dy <= i32::MAX,
        i32::MIN <= g.rect_bottom + dy <= i32::MAX,
    ensures
        usable_saved(rect_moved(g, dx, dy), saved_x, saved_y) == usable_saved(g, saved_x, saved_y),
        default_x(rect_moved(g, dx, dy)) == default_x(g),
        default_y(rect_moved(g, dx, dy)) == default_y(g),
{
    let g2 = rect_moved(g, dx, dy);
    assert(g2.rect_right - g2.rect_left == g.rect_right - g.rect_left);
    assert(g2.rect_bottom - g2.rect_top == g.rect_bottom - g.rect_top);
    assert(ball_width(g2) == ball_width(g));
    assert(ball_height(g2) == ball_height(g));
}

/// On a desktop of ordinary size (coordinates within 2^24 pixels), with a
/// ball `w` by `h` pixels:
/// - a saved position is restored whenever the whole ball stays on the
///   virtual screen there, and refused when any part of it would leave it;
/// - the default position leaves the edge gap (24 pixels) between the ball's
///   right side and the primary screen's right edge, and puts the ball's
///   centre at 30 % of the primary screen's height (rounded down), whenever
///   that keeps the ball on the virtual screen.
pub proof fn law_placement_keeps_the_ball_on_screen(g: StartupGeometry, x: i32, y: i32)
    requires
        1 <= g.rect_right - g.rect_left,
        1 <= g.rect_bottom - g.rect_top,
        -0x100_0000 <= g.rect_left <= 0x100_0000,
        -0x100_0000 <= g.rect_right <= 0x100_0000,
        -0x100_0000 <= g.rect_top <= 0x100_0000,
        -0x100_0000 <= g.rect_bottom <= 0x100_0000,
        -0x100_0000 <= g.virtual_left <= 0x100_0000,
        -0x100_0000 <= g.virtual_top <= 0x100_0000,
        0 <= g.virtual_width <= 0x100_0000,
        0 <= g.virtual_height <= 0x100_0000,
        0 <= g.primary_width <= 0x100_0000,
        0 <= g.primary_height <= 0x100_0000,
    ensures
        ({
            let w = g.rect_right - g.rect_left;
            let h = g.rect_bottom - g.rect_top;
            let fits = g.virtual_left <= x && x + w <= g.virtual_left + g.virtual_width
                && g.virtual_top <= y && y + h <= g.virtual_top + g.virtual_height;
            &&& fits ==> usable_saved(g, Some(x), Some(y)) == Some(Position { x, y })
            &&& w <= g.virtual_width && h <= g.virtual_height && !fits ==> usable_saved(
                g,
                Some(x),
                Some(y),
            ) is None
            &&& g.virtual_left <= g.primary_width - w - 24 && g.primary_width - 24 <= g.virtual_left
                + g.virtual_width ==> default_x(g) + w + 24 == g.primary_width
            &&& g.virtual_top <= g.primary_height * 30 / 100 - h / 2 && g.primary_height * 30 / 100
                - h / 2 + h <= g.virtual_top + g.virtual_height ==> default_y(g) == g.primary_height * 30
                / 100 - h / 2
        }),
{
    assert(g.primary_height * 30 <= 0x1e00_0000) by (nonlinear_arith)
        requires
            0 <= g.primary_height <= 0x100_0000,
    ;
    assert(g.primary_height * 30 >= 0) by (nonlinear_arith)
        requires
            0 <= g.primary_height,
    ;
}

} // verus!
