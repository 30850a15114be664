//! Decisions of the floating controller: how many session rows its list
//! shows and with which labels, when the list opens and closes as the
//! pointer comes and goes, and what its context menu commands are.
use vstd::prelude::*;
use crate::domain::{AppSettings, MstscWindow};
use crate::text::{decimal, push_decimal, string_push};

verus! {

/// The most sessions the floating list shows.
pub const FLOATING_MAX_TABS: usize = 9;

/// How long, in milliseconds, the list stays open after the pointer left.
pub const POINTER_LEAVE_GRACE_MS: u64 = 500;

/// Menu command ids of the floating ball's context menu.
pub const FLOATING_MENU_SHOW_MAIN: u16 = 2001;
pub const FLOATING_MENU_CLOSE: u16 = 2002;
pub const FLOATING_MENU_EXIT: u16 = 2003;

/// The rows the floating list is sized for: the number of sessions, at least
/// one (for the "No MSTSC windows" row) and at most nine.
pub fn floating_list_rows(window_count: usize) -> (r: usize)
    ensures
        window_count < 1 ==> r == 1,
        1 <= window_count <= FLOATING_MAX_TABS ==> r == window_count,
        window_count > FLOATING_MAX_TABS ==> r == FLOATING_MAX_TABS,
{
    if window_count < 1 {
        1
    } else if window_count > FLOATING_MAX_TABS {
        FLOATING_MAX_TABS
    } else {
        window_count
    }
}

/// The label of the session at list position `index`: its 1-based number,
/// two spaces and its window title.
pub open spec fn session_label(index: nat, title: Seq<char>) -> Seq<char> {
    decimal(index + 1) + "  "@ + title
}

/// The labels of the floating list: one per session, for the first nine.
pub fn floating_list_labels(windows: &[MstscWindow]) -> (r: Vec<String>)
    ensures
        r@.len() == if windows@.len() < FLOATING_MAX_TABS { windows@.len() } else { FLOATING_MAX_TABS as nat },
        forall|i: int| 0 <= i < r@.len() ==> #[trigger] r@[i]@ == session_label(i as nat, windows@[i].title@),
{
    let n = if windows.len() < FLOATING_MAX_TABS { windows.len() } else { FLOATING_MAX_TABS };
    let mut labels: Vec<String> = Vec::new();
    for i in 0..n
        invariant
            n <= windows@.len(),
            n <= FLOATING_MAX_TABS,
            labels@.len() == i,
            forall|k: int| 0 <= k < i ==> #[trigger] labels@[k]@ == session_label(k as nat, windows@[k].title@),
    {
        let mut label = String::new();
        push_decimal(&mut label, (i + 1) as u64);
        label.append("  ");
        label.append(windows[i].title.as_str());
        labels.push(label);
    }
    labels
}

/// What the floating list shows: a single "No MSTSC windows" note when there
/// is no session, otherwise one clickable row per session.
pub enum FloatingRows {
    Placeholder(String),
    Sessions(Vec<String>),
}

/// The rows of the floating list for `windows`.
pub fn floating_rows(windows: &[MstscWindow]) -> (r: FloatingRows)
    ensures
        windows@.len() == 0 ==> (r matches FloatingRows::Placeholder(t) && t@ == "No MSTSC windows"@),
        windows@.len() > 0 ==> (r matches FloatingRows::Sessions(labels) && labels@.len() == if windows@.len()
            < FLOATING_MAX_TABS {
            windows@.len()
        } else {
            FLOATING_MAX_TABS as nat
        } && forall|i: int| 0 <= i < labels@.len() ==> #[trigger] labels@[i]@ == session_label(
            i as nat,
            windows@[i].title@,
        )),
{
    if windows.len() == 0 {
        FloatingRows::Placeholder(String::from_str("No MSTSC windows"))
    } else {
        FloatingRows::Sessions(floating_list_labels(windows))
    }
}

/// Whether the list opens together with the controller: only when the
/// controller is enabled and tabs are always shown; `false` when the settings
/// could not be read.
pub fn initial_list_visibility(settings: Option<&AppSettings>) -> (r: bool)
    ensures
        settings is None ==> !r,
        settings matches Some(s) ==> r == (s.floating_controller && s.always_show_tabs),
{
    match settings {
        Some(s) => s.floating_controller && s.always_show_tabs,
        None => false,
    }
}

/// An entry of the floating ball's context menu.
#[derive(Clone, Copy, Debug, PartialEq, Eq, Structural)]
pub enum FloatingMenuAction {
    ShowMainWindow,
    CloseController,
    Exit,
}

/// The action of the command `TrackPopupMenu` returned (its low 16 bits); none
/// for a dismissed menu or an unknown command.
pub fn floating_menu_action(command: i32) -> (r: Option<FloatingMenuAction>)
    ensures
        command as u16 == FLOATING_MENU_SHOW_MAIN ==> r == Some(FloatingMenuAction::ShowMainWindow),
        command as u16 == FLOATING_MENU_CLOSE ==> r == Some(FloatingMenuAction::CloseController),
        command as u16 == FLOATING_MENU_EXIT ==> r == Some(FloatingMenuAction::Exit),
        command as u16 != FLOATING_MENU_SHOW_MAIN && command as u16 != FLOATING_MENU_CLOSE
            && command as u16 != FLOATING_MENU_EXIT ==> r is None,
{
    let c = command as u16;
    if c == FLOATING_MENU_SHOW_MAIN {
        Some(FloatingMenuAction::ShowMainWindow)
    } else if c == FLOATING_MENU_CLOSE {
        Some(FloatingMenuAction::CloseController)
    } else if c == FLOATING_MENU_EXIT {
        Some(FloatingMenuAction::Exit)
    } else {
        None
    }
}

/// The pointer-tracking state of the floating ball.
pub struct BallState {
    /// Whether the floating list is shown.
    pub list_visible: bool,
    /// When (in milliseconds on a monotonic clock) the pointer was last over
    /// the controls while the controller was shown.
    pub last_pointer_inside_ms: u64,
}

/// `a - b`, or 0 when `b` is later (`Instant::duration_since`).
pub open spec fn elapsed(a: u64, b: u64) -> u64 {
    if a >= b { (a - b) as u64 } else { 0 }
}

/// Whether the list should be shown after a poll at `now` by a ball in state
/// `s` (whose pointer time is already updated): only with the controller
/// shown, and then when tabs are always shown, the pointer is over the
/// controls, or the list is open and the pointer left less than the grace
/// period ago.
pub open spec fn desired_list_visible(s: BallState, now: u64, pointer_inside: bool, controller_visible: bool, always_show: bool) -> bool {
    let keep = s.list_visible && elapsed(now, s.last_pointer_inside_ms) < POINTER_LEAVE_GRACE_MS;
    controller_visible && (always_show || pointer_inside || keep)
}

impl BallState {
    /// A ball whose list is hidden, with the pointer last seen at `now_ms`.
    pub fn new(now_ms: u64) -> (r: BallState)
        ensures
            !r.list_visible,
            r.last_pointer_inside_ms == now_ms,
    {
        BallState { list_visible: false, last_pointer_inside_ms: now_ms }
    }

    /// One poll of the pointer at `now_ms`. Records the pointer time when the
    /// pointer is over the shown controller, and returns the visibility to
    /// request when it differs from the list's current one.
    pub fn poll(&mut self, now_ms: u64, pointer_inside: bool, controller_visible: bool, always_show: bool) -> (r: Option<bool>)
        ensures
            final(self).last_pointer_inside_ms == if pointer_inside && controller_visible {
                now_ms
            } else {
                old(self).last_pointer_inside_ms
            },
            final(self).list_visible == old(self).list_visible,
            ({
                let d = desired_list_visible(*final(self), now_ms, pointer_inside, controller_visible, always_show);
                &&& d != old(self).list_visible ==> r == Some(d)
                &&& d == old(self).list_visible ==> r is None
            }),
    {
        if pointer_inside && controller_visible {
            self.last_pointer_inside_ms = now_ms;
        }
        let since = if now_ms >= self.last_pointer_inside_ms { now_ms - self.last_pointer_inside_ms } else { 0 };
        let keep = self.list_visible && since < POINTER_LEAVE_GRACE_MS;
        let desired = controller_visible && (always_show || pointer_inside || keep);
        if desired != self.list_visible {
            Some(desired)
        } else {
            None
        }
    }

    /// Records that the requested list visibility took effect.
    pub fn list_visibility_applied(&mut self, visible: bool)
        ensures
            final(self).list_visible == visible,
            final(self).last_pointer_inside_ms == old(self).last_pointer_inside_ms,
    {
        self.list_visible = visible;
    }
}


/// Code-point lexicographic order on texts (the order of `str`'s `Ord`).
pub open spec fn text_le(a: Seq<char>, b: Seq<char>) -> bool
    decreases a.len(),
{
    if a.len() == 0 {
        true
    } else if b.len() == 0 {
        false
    } else if a[0] != b[0] {
        (a[0] as u32) < (b[0] as u32)
    } else {
        text_le(a.drop_first(), b.drop_first())
    }
}

proof fn lemma_text_le_total(a: Seq<char>, b: Seq<char>)
    ensures
        text_le(a, b) || text_le(b, a),
    decreases a.len(),
{
    if a.len() > 0 && b.len() > 0 {
        if a[0] == b[0] {
            lemma_text_le_total(a.drop_first(), b.drop_first());
        } else if (a[0] as u32) == (b[0] as u32) {
            vstd::utf8::char_u32_cast(a[0], a[0] as u32);
            vstd::utf8::char_u32_cast(b[0], b[0] as u32);
        }
    }
}

proof fn lemma_text_le_transitive(a: Seq<char>, b: Seq<char>, c: Seq<char>)
    requires
        text_le(a, b),
        text_le(b, c),
    ensures
        text_le(a, c),
    decreases a.len(),
{
    if a.len() > 0 && b.len() > 0 && c.len() > 0 && a[0] == b[0] && b[0] == c[0] {
        lemma_text_le_transitive(a.drop_first(), b.drop_first(), c.drop_first());
    }
}

proof fn lemma_text_le_skip(a: Seq<char>, b: Seq<char>, i: int)
    requires
        0 <= i <= a.len(),
        i <= b.len(),
        a.take(i) == b.take(i),
    ensures
        text_le(a, b) == text_le(a.skip(i), b.skip(i)),
    decreases i,
{
    if i > 0 {
        assert(a[0] == a.take(i)[0] && b[0] == b.take(i)[0]);
        assert(a.drop_first().take(i - 1) == a.take(i).drop_first());
        assert(b.drop_first().take(i - 1) == b.take(i).drop_first());
        lemma_text_le_skip(a.drop_first(), b.drop_first(), i - 1);
        assert(a.drop_first().skip(i - 1) == a.skip(i));
        assert(b.drop_first().skip(i - 1) == b.skip(i));
    } else {
        assert(a.skip(0) == a && b.skip(0) == b);
    }
}

/// `text_le`, computed.
pub fn title_le(a: &str, b: &str) -> (r: bool)
    ensures
        r == text_le(a@, b@),
{
    let n = a.unicode_len();
    let m = b.unicode_len();
    let mut i: usize = 0;
    while i < n && i < m
        invariant
            n == a@.len(),
            m == b@.len(),
            i <= n,
            i <= m,
            a@.take(i as int) == b@.take(i as int),
        decreases n - i,
    {
        let x = a.get_char(i);
        let y = b.get_char(i);
        if x != y {
            proof {
                lemma_text_le_skip(a@, b@, i as int);
                assert(a@.skip(i as int)[0] == x && b@.skip(i as int)[0] == y);
            }
            return (x as u32) < (y as u32);
        }
        assert(a@.take(i + 1) == a@.take(i as int).push(x));
        assert(b@.take(i + 1) == b@.take(i as int).push(y));
        i = i + 1;
    }
    proof {
        lemma_text_le_skip(a@, b@, i as int);
    }
    i == n
}

/// The order of MSTSC windows in the floating list: by process id, then by
/// window handle (as an unsigned number), then by title.
pub open spec fn window_le(a: MstscWindow, b: MstscWindow) -> bool {
    ||| a.pid < b.pid
    ||| a.pid == b.pid && (a.hwnd as usize) < (b.hwnd as usize)
    ||| a.pid == b.pid && (a.hwnd as usize) == (b.hwnd as usize) && text_le(a.title@, b.title@)
}

/// `window_le`, computed.
pub fn window_before_or_same(a: &MstscWindow, b: &MstscWindow) -> (r: bool)
    ensures
        r == window_le(*a, *b),
{
    if a.pid != b.pid {
        return a.pid < b.pid;
    }
    let x = a.hwnd as usize;
    let y = b.hwnd as usize;
    if x != y {
        return x < y;
    }
    title_le(a.title.as_str(), b.title.as_str())
}

proof fn lemma_window_le_total(a: MstscWindow, b: MstscWindow)
    ensures
        window_le(a, b) || window_le(b, a),
{
    lemma_text_le_total(a.title@, b.title@);
}

proof fn lemma_window_le_transitive(a: MstscWindow, b: MstscWindow, c: MstscWindow)
    requires
        window_le(a, b),
        window_le(b, c),
    ensures
        window_le(a, c),
{
    if a.pid == b.pid && b.pid == c.pid && (a.hwnd as usize) == (b.hwnd as usize) && (b.hwnd as usize) == (c.hwnd as usize) {
        lemma_text_le_transitive(a.title@, b.title@, c.title@);
    }
}

/// `s` is in floating-list order.
pub open spec fn windows_sorted(s: Seq<MstscWindow>) -> bool {
    forall|i: int, j: int| 0 <= i < j < s.len() ==> window_le(#[trigger] s[i], #[trigger] s[j])
}

/// Puts the MSTSC windows in floating-list order; the result holds the same
/// windows.
pub fn sort_windows(windows: Vec<MstscWindow>) -> (r: Vec<MstscWindow>)
    ensures
        r@.to_multiset() == windows@.to_multiset(),
        windows_sorted(r@),
{
    broadcast use vstd::multiset::group_multiset_axioms, vstd::seq_lib::group_to_multiset_ensures;
    let ghost unsorted = windows@;
    let mut rest = windows;
    let mut out: Vec<MstscWindow> = Vec::new();
    while rest.len() > 0
        invariant
            out@.to_multiset().add(rest@.to_multiset()) == unsorted.to_multiset(),
            windows_sorted(out@),
        decreases rest@.len(),
    {
        let ghost before_rest = rest@;
        let w = rest.pop().unwrap();
        assert(before_rest == rest@.push(w));
        let n = out.len();
        let mut j: usize = 0;
        while j < n && window_before_or_same(&out[j], &w)
            invariant
                n == out@.len(),
                j <= n,
                forall|k: int| 0 <= k < j ==> window_le(#[trigger] out@[k], w),
            decreases n - j,
        {
            j = j + 1;
        }
        let ghost before_out = out@;
        proof {
            if j < n {
                lemma_window_le_total(out@[j as int], w);
            }
            assert forall|k: int| j <= k < n implies window_le(w, #[trigger] before_out[k]) by {
                if k > j {
                    lemma_window_le_transitive(w, before_out[j as int], before_out[k]);
                }
            }
        }
        out.insert(j, w);
        proof {
            assert forall|a: int, b: int| 0 <= a < b < out@.len() implies window_le(#[trigger] out@[a], #[trigger] out@[b]) by {
                if a < j && b == j {
                } else if a == j {
                    assert(out@[b] == before_out[b - 1]);
                } else if a < j && b > j {
                    assert(out@[b] == before_out[b - 1]);
                    lemma_window_le_transitive(before_out[a], w, before_out[b - 1]);
                } else if b < j {
                } else {
                    assert(out@[a] == before_out[a - 1] && out@[b] == before_out[b - 1]);
                }
            }
            assert(out@ == before_out.insert(j as int, w));
            let m1 = before_out.to_multiset();
            let m2 = rest@.to_multiset();
            vstd::seq_lib::to_multiset_insert(before_out, j as int, w);
            vstd::seq_lib::to_multiset_build(rest@, w);
            assert(m1.insert(w).add(m2) =~= m1.add(m2.insert(w)));
            assert(out@.to_multiset().add(rest@.to_multiset()) == m1.insert(w).add(m2));
        }
    }
    assert(rest@ == Seq::<MstscWindow>::empty());
    assert(rest@.to_multiset() =~= vstd::multiset::Multiset::empty());
    assert(out@.to_multiset().add(rest@.to_multiset()) =~= out@.to_multiset());
    out
}

/// A window's place in the floating-list order: process id and handle.
#[derive(Clone, Copy, Debug, PartialEq, Eq, Structural)]
pub struct WindowKey {
    pub pid: u32,
    pub hwnd: usize,
}

/// The process ids and handles of `windows`, in their order.
pub fn window_order(windows: &[MstscWindow]) -> (r: Vec<WindowKey>)
    ensures
        r@.len() == windows@.len(),
        forall|i: int| 0 <= i < r@.len() ==> #[trigger] r@[i] == (WindowKey {
            pid: windows@[i].pid,
            hwnd: windows@[i].hwnd as usize,
        }),
{
    let n = windows.len();
    let mut out: Vec<WindowKey> = Vec::new();
    for i in 0..n
        invariant
            n == windows@.len(),
            out@.len() == i,
            forall|k: int| 0 <= k < i ==> #[trigger] out@[k] == (WindowKey {
                pid: windows@[k].pid,
                hwnd: windows@[k].hwnd as usize,
            }),
    {
        out.push(WindowKey { pid: windows[i].pid, hwnd: windows[i].hwnd as usize });
    }
    out
}

/// Whether the window order differs from the one last seen.
pub fn order_changed(current: &[WindowKey], last: &[WindowKey]) -> (r: bool)
    ensures
        r == (current@ != last@),
{
    let n = current.len();
    if n != last.len() {
        return true;
    }
    for i in 0..n
        invariant
            n == current@.len(),
            n == last@.len(),
            forall|k: int| 0 <= k < i ==> current@[k] == last@[k],
    {
        if current[i] != last[i] {
            return true;
        }
    }
    assert(current@ =~= last@);
    false
}

} // verus!
