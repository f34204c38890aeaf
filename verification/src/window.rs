//! The main window's snapping to screen edges and its collapse into a thin
//! line along the edge it snapped to.
//!
//! Positions are physical pixels. The window's size and position in logical
//! pixels, which are floating-point, are kept by the caller.

use vstd::prelude::*;

verus! {

/// A side of a monitor's work area.
#[derive(Clone, Copy, Debug, PartialEq, Eq)]
pub enum EdgeType {
    Left,
    Right,
}

/// A vertical edge of a monitor's work area. An edge is shared where two
/// monitors meet.
#[derive(Clone, Copy, Debug)]
pub struct ScreenEdge {
    pub edge_type: EdgeType,
    pub position: i32,
    pub is_shared: bool,
}

/// The edge along which the collapsed window's line is shown.
#[derive(Clone, Copy, Debug, PartialEq, Eq)]
pub enum LineEdge {
    Top,
    Left,
    Right,
}

/// The work area of a monitor (the screen without the task bar).
#[derive(Clone, Copy, Debug)]
pub struct WorkArea {
    pub x: i32,
    pub y: i32,
    pub width: u32,
    pub height: u32,
}

/// A coordinate far enough from the limits of `i32` that sums and
/// differences of a few of them do not overflow.
pub open spec fn coord_ok(v: int) -> bool {
    -0x1000_0000 <= v < 0x1000_0000
}

pub open spec fn abs(v: int) -> int {
    if v < 0 {
        -v
    } else {
        v
    }
}

// ---------------------------------------------------------------------------
// Monitor edges
// ---------------------------------------------------------------------------

/// How many edges of `edges` lie at `pos`.
pub open spec fn edges_at(edges: Seq<ScreenEdge>, pos: i32) -> nat
    decreases edges.len(),
{
    if edges.len() == 0 {
        0
    } else {
        edges_at(edges.drop_last(), pos) + if edges.last().position == pos {
            1nat
        } else {
            0nat
        }
    }
}

proof fn lemma_edges_at_bound(edges: Seq<ScreenEdge>, pos: i32)
    ensures
        edges_at(edges, pos) <= edges.len(),
    decreases edges.len(),
{
    if edges.len() > 0 {
        lemma_edges_at_bound(edges.drop_last(), pos);
    }
}

/// The edges of the work areas: for monitor `i`, its left edge at `2 * i` and
/// its right edge at `2 * i + 1`; an edge is shared when another edge lies at
/// the same place.
pub open spec fn is_edge_list(edges: Seq<ScreenEdge>, monitors: Seq<WorkArea>) -> bool {
    &&& edges.len() == 2 * monitors.len()
    &&& forall|i: int|
        0 <= i < monitors.len() ==> {
            &&& (#[trigger] edges[2 * i]).edge_type == EdgeType::Left
            &&& edges[2 * i].position == monitors[i].x
            &&& edges[2 * i + 1].edge_type == EdgeType::Right
            &&& edges[2 * i + 1].position == monitors[i].x + monitors[i].width
        }
    &&& forall|k: int| 0 <= k < edges.len() ==> ((#[trigger] edges[k]).is_shared <==> edges_at(edges, edges[k].position) >= 2)
}

/// The left and right edges of every work area, with the shared ones marked.
pub fn get_all_monitor_edges(monitors: &Vec<WorkArea>) -> (r: Vec<ScreenEdge>)
    requires
        monitors.len() < 0x1000_0000,
        forall|i: int| 0 <= i < monitors.len() ==> coord_ok((#[trigger] monitors[i]).x as int) && monitors[i].width < 0x1000_0000,
    ensures
        is_edge_list(r@, monitors@),
{
    let mut edges: Vec<ScreenEdge> = Vec::new();
    let mut i: usize = 0;
    while i < monitors.len()
        invariant
            i <= monitors.len() < 0x1000_0000,
            forall|i: int| 0 <= i < monitors.len() ==> coord_ok((#[trigger] monitors[i]).x as int) && monitors[i].width < 0x1000_0000,
            edges@.len() == 2 * i,
            forall|j: int|
                0 <= j < i ==> {
                    &&& (#[trigger] edges@[2 * j]).edge_type == EdgeType::Left
                    &&& edges@[2 * j].position == monitors@[j].x
                    &&& edges@[2 * j + 1].edge_type == EdgeType::Right
                    &&& edges@[2 * j + 1].position == monitors@[j].x + monitors@[j].width
                },
        decreases monitors.len() - i,
    {
        let wa = monitors[i];
        let left_x = wa.x;
        let right_x = wa.x + (wa.width as i32);
        edges.push(ScreenEdge { edge_type: EdgeType::Left, position: left_x, is_shared: false });
        edges.push(ScreenEdge { edge_type: EdgeType::Right, position: right_x, is_shared: false });
        proof {
            assert forall|j: int| 0 <= j < i + 1 implies {
                &&& (#[trigger] edges@[2 * j]).edge_type == EdgeType::Left
                &&& edges@[2 * j].position == monitors@[j].x
                &&& edges@[2 * j + 1].edge_type == EdgeType::Right
                &&& edges@[2 * j + 1].position == monitors@[j].x + monitors@[j].width
            } by {
                if j == i {
                    assert(edges@[2 * j] == edges@[2 * i]);
                }
            }
        }
        i = i + 1;
    }
    // Mark the edges that share their place with another.
    let ghost plain = edges@;
    let n = edges.len();
    let mut k: usize = 0;
    while k < n
        invariant
            n == edges@.len(),
            plain.len() == n,
            k <= n,
            forall|q: int| 0 <= q < n ==> (#[trigger] edges@[q]).edge_type == plain[q].edge_type && edges@[q].position == plain[q].position,
            forall|q: int| 0 <= q < k ==> ((#[trigger] edges@[q]).is_shared <==> edges_at(plain, plain[q].position) >= 2),
        decreases n - k,
    {
        let pos = edges[k].position;
        let mut c: usize = 0;
        let mut m: usize = 0;
        while m < n
            invariant
                n == edges@.len(),
                plain.len() == n,
                m <= n,
                forall|q: int| 0 <= q < n ==> (#[trigger] edges@[q]).position == plain[q].position,
                c == edges_at(plain.subrange(0, m as int), pos),
            decreases n - m,
        {
            proof {
                assert(plain.subrange(0, m + 1).drop_last() =~= plain.subrange(0, m as int));
                lemma_edges_at_bound(plain.subrange(0, m as int), pos);
            }
            if edges[m].position == pos {
                c = c + 1;
            }
            m = m + 1;
        }
        assert(plain.subrange(0, n as int) =~= plain);
        let old_edge = edges[k];
        edges.set(k, ScreenEdge { edge_type: old_edge.edge_type, position: old_edge.position, is_shared: c >= 2 });
        k = k + 1;
    }
    proof {
        assert forall|q: int| 0 <= q < n implies edges_at(edges@, edges@[q].position) == edges_at(plain, plain[q].position) by {
            lemma_edges_at_same(edges@, plain, edges@[q].position);
        }
    }
    edges
}

proof fn lemma_edges_at_same(a: Seq<ScreenEdge>, b: Seq<ScreenEdge>, pos: i32)
    requires
        a.len() == b.len(),
        forall|q: int| 0 <= q < a.len() ==> (#[trigger] a[q]).position == b[q].position,
    ensures
        edges_at(a, pos) == edges_at(b, pos),
    decreases a.len(),
{
    if a.len() > 0 {
        assert forall|q: int| 0 <= q < a.drop_last().len() implies (#[trigger] a.drop_last()[q]).position == b.drop_last()[q].position by {
            assert(a.drop_last()[q] == a[q] && b.drop_last()[q] == b[q]);
        }
        lemma_edges_at_same(a.drop_last(), b.drop_last(), pos);
    }
}

// ---------------------------------------------------------------------------
// Snapping
// ---------------------------------------------------------------------------

/// A shared edge within `th` of the window's left or right side.
pub open spec fn shared_hit(e: ScreenEdge, x: int, right: int, th: int) -> bool {
    e.is_shared && (abs(e.position - x) <= th || abs(right - e.position) <= th)
}

/// An edge of its own within `th` of the window's side that faces it.
pub open spec fn plain_hit(e: ScreenEdge, x: int, right: int, th: int) -> bool {
    !e.is_shared && match e.edge_type {
        EdgeType::Left => abs(x - e.position) <= th,
        EdgeType::Right => abs(right - e.position) <= th,
    }
}

/// The first edge at or after `i` that is a shared hit, or -1.
pub open spec fn first_shared_hit(edges: Seq<ScreenEdge>, x: int, right: int, th: int, i: int) -> int
    decreases edges.len() - i,
{
    if i < 0 || i >= edges.len() {
        -1
    } else if shared_hit(edges[i], x, right, th) {
        i
    } else {
        first_shared_hit(edges, x, right, th, i + 1)
    }
}

/// The first edge at or after `i` that is a plain hit, or -1.
pub open spec fn first_plain_hit(edges: Seq<ScreenEdge>, x: int, right: int, th: int, i: int) -> int
    decreases edges.len() - i,
{
    if i < 0 || i >= edges.len() {
        -1
    } else if plain_hit(edges[i], x, right, th) {
        i
    } else {
        first_plain_hit(edges, x, right, th, i + 1)
    }
}

/// Where snapping puts the window's left side, and the side it snapped to.
/// Shared edges come first: the window goes to whichever side of the shared
/// edge it mostly lies on. Then edges of their own, in order.
pub open spec fn snap_x(edges: Seq<ScreenEdge>, x: int, width: int, th: int) -> (int, Option<EdgeType>) {
    let right = x + width;
    let i = first_shared_hit(edges, x, right, th, 0);
    if i >= 0 {
        let p = edges[i].position as int;
        if p - x >= right - p {
            (p - width, Some(EdgeType::Right))
        } else {
            (p, Some(EdgeType::Left))
        }
    } else {
        let j = first_plain_hit(edges, x, right, th, 0);
        if j >= 0 {
            let p = edges[j].position as int;
            match edges[j].edge_type {
                EdgeType::Left => (p, Some(EdgeType::Left)),
                EdgeType::Right => (p - width, Some(EdgeType::Right)),
            }
        } else {
            (x, None)
        }
    }
}

proof fn lemma_first_hit_bounds(edges: Seq<ScreenEdge>, x: int, right: int, th: int, i: int)
    requires
        0 <= i,
    ensures
        first_shared_hit(edges, x, right, th, i) == -1 || (i <= first_shared_hit(edges, x, right, th, i) < edges.len()
            && shared_hit(edges[first_shared_hit(edges, x, right, th, i)], x, right, th)),
        first_plain_hit(edges, x, right, th, i) == -1 || (i <= first_plain_hit(edges, x, right, th, i) < edges.len()
            && plain_hit(edges[first_plain_hit(edges, x, right, th, i)], x, right, th)),
    decreases edges.len() - i,
{
    if i < edges.len() {
        lemma_first_hit_bounds(edges, x, right, th, i + 1);
    }
}

fn i32_abs_le(v: i32, th: i32) -> (r: bool)
    requires
        -0x4000_0000 <= v < 0x4000_0000,
    ensures
        r == (abs(v as int) <= th),
{
    if v < 0 {
        -v <= th
    } else {
        v <= th
    }
}

/// Snaps the window's left side `window_x` (its width `window_width`) to a
/// monitor edge within `threshold` pixels (see `snap_x`).
pub fn calculate_snap_x(edges: &Vec<ScreenEdge>, window_x: i32, window_width: u32, threshold: i32) -> (r: (i32, Option<EdgeType>))
    requires
        coord_ok(window_x as int),
        window_width < 0x1000_0000,
        0 <= threshold,
        forall|k: int| 0 <= k < edges@.len() ==> coord_ok((#[trigger] edges@[k]).position as int),
    ensures
        (r.0 as int, r.1) == snap_x(edges@, window_x as int, window_width as int, threshold as int),
{
    let w = window_width as i32;
    let right = window_x + w;
    let ghost xs = window_x as int;
    let ghost rs = right as int;
    let ghost ts = threshold as int;
    proof {
        lemma_first_hit_bounds(edges@, xs, rs, ts, 0);
    }
    let mut i: usize = 0;
    while i < edges.len()
        invariant
            i <= edges.len(),
            right == window_x + w,
            w == window_width,
            coord_ok(window_x as int),
            w < 0x1000_0000,
            forall|k: int| 0 <= k < edges@.len() ==> coord_ok((#[trigger] edges@[k]).position as int),
            xs == window_x as int && rs == right as int && ts == threshold as int,
            first_shared_hit(edges@, xs, rs, ts, 0) == first_shared_hit(edges@, xs, rs, ts, i as int),
        decreases edges.len() - i,
    {
        let e = edges[i];
        assert(e == edges@[i as int]);
        if e.is_shared {
            let dist_left = e.position - window_x;
            let dist_right = right - e.position;
            if i32_abs_le(dist_left, threshold) || i32_abs_le(dist_right, threshold) {
                assert(shared_hit(edges@[i as int], xs, rs, ts));
                assert(first_shared_hit(edges@, xs, rs, ts, i as int) == i);
                if dist_left >= dist_right {
                    return (e.position - w, Some(EdgeType::Right));
                } else {
                    return (e.position, Some(EdgeType::Left));
                }
            }
        }
        assert(!shared_hit(edges@[i as int], xs, rs, ts));
        i = i + 1;
    }
    let mut j: usize = 0;
    while j < edges.len()
        invariant
            j <= edges.len(),
            right == window_x + w,
            w == window_width,
            coord_ok(window_x as int),
            w < 0x1000_0000,
            forall|k: int| 0 <= k < edges@.len() ==> coord_ok((#[trigger] edges@[k]).position as int),
            xs == window_x as int && rs == right as int && ts == threshold as int,
            first_shared_hit(edges@, xs, rs, ts, 0) == -1,
            first_plain_hit(edges@, xs, rs, ts, 0) == first_plain_hit(edges@, xs, rs, ts, j as int),
        decreases edges.len() - j,
    {
        let e = edges[j];
        assert(e == edges@[j as int]);
        if !e.is_shared {
            match e.edge_type {
                EdgeType::Left => {
                    if i32_abs_le(window_x - e.position, threshold) {
                        assert(plain_hit(edges@[j as int], xs, rs, ts));
                        assert(first_plain_hit(edges@, xs, rs, ts, j as int) == j);
                        return (e.position, Some(EdgeType::Left));
                    }
                },
                EdgeType::Right => {
                    if i32_abs_le(right - e.position, threshold) {
                        assert(plain_hit(edges@[j as int], xs, rs, ts));
                        assert(first_plain_hit(edges@, xs, rs, ts, j as int) == j);
                        return (e.position - w, Some(EdgeType::Right));
                    }
                },
            }
        }
        assert(!plain_hit(edges@[j as int], xs, rs, ts));
        j = j + 1;
    }
    (window_x, None)
}

/// Where snapping puts the window's top: on the top of the work area when
/// within `th` pixels of it; unchanged without a monitor.
pub open spec fn snap_y(top: Option<i32>, y: int, th: int) -> int {
    match top {
        Some(t) => if abs(y - t) <= th {
            t as int
        } else {
            y
        },
        None => y,
    }
}

/// Snaps the window's top `window_y` to the top of the work area of its
/// monitor, `top` (see `snap_y`).
pub fn calculate_snap_y(top: Option<i32>, window_y: i32, threshold: i32) -> (r: i32)
    requires
        coord_ok(window_y as int),
        top matches Some(t) ==> coord_ok(t as int),
    ensures
        r as int == snap_y(top, window_y as int, threshold as int),
{
    match top {
        Some(t) => {
            if i32_abs_le(window_y - t, threshold) {
                t
            } else {
                window_y
            }
        },
        None => window_y,
    }
}

/// Snapping the top twice is snapping it once: a window snapped to the top
/// stays there.
pub proof fn lemma_snap_y_idempotent(top: Option<i32>, y: int, th: int)
    requires
        0 <= th,
    ensures
        snap_y(top, snap_y(top, y, th), th) == snap_y(top, y, th),
{
}

/// A window within the threshold of the top ends on the top.
pub proof fn lemma_snap_y_reaches_top(t: i32, y: int, th: int)
    requires
        abs(y - t) <= th,
    ensures
        snap_y(Some(t), y, th) == t,
{
}

// ---------------------------------------------------------------------------
// The window's state
// ---------------------------------------------------------------------------

/// The main window's snapping and collapsing state, and the settings that are
/// not positions.
#[derive(Clone, Copy, Debug)]
pub struct WindowManager {
    /// How near an edge, in pixels, the window must come to snap to it.
    pub drag_threshold: i32,
    pub is_dragging: bool,
    pub is_resizing: bool,
    /// The edge the window snapped to, if any.
    pub snap_line_edge: Option<LineEdge>,
    /// Whether the window is collapsed into its line.
    pub is_collapsed: bool,
    /// Whether the mouse was over the window since it last collapsed.
    pub mouse_was_in_window: bool,
    /// The window's outer position before it collapsed.
    pub collapsed_position: Option<(i32, i32)>,
    pub is_main_menu_open: bool,
    pub is_focused: bool,
    pub is_sub_window_open: bool,
    /// Whether the next snap is skipped (after the user unsnapped the window).
    pub skip_next_snap: bool,
    pub is_locked: bool,
    pub always_on_top: bool,
}

/// A collapsed window has an edge to show its line on.
pub open spec fn window_wf(s: WindowManager) -> bool {
    s.is_collapsed ==> s.snap_line_edge is Some
}

/// What setting the collapsed state asks of the windows.
#[derive(Clone, Copy, Debug, PartialEq, Eq)]
pub enum CollapseStep {
    /// The windows are missing: nothing changes.
    Nothing,
    /// Show the line and move the main window off the screen.
    Collapse,
    /// Hide the line, show the main window and move it to the position, or to
    /// the configured position when there is none.
    Expand(Option<(i32, i32)>),
}

/// The state and step of setting the collapsed state to `collapsed`.
pub open spec fn spec_set_collapsed(s: WindowManager, collapsed: bool, windows_present: bool) -> (WindowManager, CollapseStep) {
    if !windows_present {
        (s, CollapseStep::Nothing)
    } else if collapsed {
        (WindowManager { is_collapsed: true, ..s }, CollapseStep::Collapse)
    } else {
        (WindowManager { is_collapsed: false, ..s }, CollapseStep::Expand(s.collapsed_position))
    }
}

/// Whether collapsing goes ahead: not while dragging or resizing, not when
/// locked, not twice, and only along an edge.
pub open spec fn may_collapse(s: WindowManager, snap_window_present: bool) -> bool {
    !s.is_dragging && !s.is_resizing && !s.is_locked && !s.is_collapsed && s.snap_line_edge is Some
        && snap_window_present
}

/// The state and step of collapsing the window; `outer_position` is where it
/// stands, when known.
pub open spec fn spec_collapse(
    s: WindowManager,
    outer_position: Option<(i32, i32)>,
    snap_window_present: bool,
    windows_present: bool,
) -> (WindowManager, CollapseStep) {
    if !may_collapse(s, snap_window_present) {
        (s, CollapseStep::Nothing)
    } else {
        let s1 = match outer_position {
            Some(p) => WindowManager { collapsed_position: Some(p), ..s },
            None => s,
        };
        spec_set_collapsed(s1, true, windows_present)
    }
}

/// The state and step of expanding the window.
pub open spec fn spec_expand(s: WindowManager, windows_present: bool) -> (WindowManager, CollapseStep) {
    if !s.is_collapsed {
        (s, CollapseStep::Nothing)
    } else {
        spec_set_collapsed(WindowManager { mouse_was_in_window: true, ..s }, false, windows_present)
    }
}

/// What a drag that starts asks of the windows: when the window was
/// collapsed, it goes back to where it stood and its line is hidden.
#[derive(Clone, Copy, Debug, PartialEq, Eq)]
pub struct DragStart {
    pub hide_snap_line: bool,
    pub restore_position: Option<(i32, i32)>,
}

/// The geometry that snapping looks at.
#[derive(Clone, Copy, Debug)]
pub struct SnapInput {
    pub outer_x: i32,
    pub outer_y: i32,
    pub inner_x: i32,
    pub inner_y: i32,
    pub inner_width: u32,
    /// The top of the work area of the window's monitor, when known.
    pub monitor_top: Option<i32>,
}

/// What snapping asks of the windows.
#[derive(Clone, Copy, Debug, PartialEq, Eq)]
pub struct SnapOutcome {
    /// The outer position to move the window to, when it moves.
    pub move_to: Option<(i32, i32)>,
    /// The edge to place the line along, when the window snapped.
    pub line_edge: Option<LineEdge>,
}

pub open spec fn snap_input_ok(g: SnapInput, edges: Seq<ScreenEdge>) -> bool {
    &&& coord_ok(g.outer_x as int)
    &&& coord_ok(g.outer_y as int)
    &&& coord_ok(g.inner_x as int)
    &&& coord_ok(g.inner_y as int)
    &&& g.inner_width < 0x1000_0000
    &&& (g.monitor_top matches Some(t) ==> coord_ok(t as int))
    &&& forall|k: int| 0 <= k < edges.len() ==> coord_ok((#[trigger] edges[k]).position as int)
}

/// The line's edge after a snap to `(ax, edge_x)` and top `ay`: the top wins
/// when the window reached the top of its monitor (taken as 0 when unknown).
pub open spec fn line_edge_after(ay: int, monitor_top: Option<i32>, edge_x: Option<EdgeType>) -> Option<LineEdge> {
    let top = match monitor_top {
        Some(t) => t as int,
        None => 0,
    };
    if ay == top {
        Some(LineEdge::Top)
    } else {
        match edge_x {
            Some(EdgeType::Left) => Some(LineEdge::Left),
            Some(EdgeType::Right) => Some(LineEdge::Right),
            None => None,
        }
    }
}

/// The state and outcome of snapping the window.
pub open spec fn spec_perform_snap(s: WindowManager, g: SnapInput, edges: Seq<ScreenEdge>) -> (WindowManager, SnapOutcome) {
    if s.is_collapsed {
        (s, SnapOutcome { move_to: None, line_edge: None })
    } else if s.skip_next_snap {
        (WindowManager { skip_next_snap: false, ..s }, SnapOutcome { move_to: None, line_edge: None })
    } else {
        let (ax, edge_x) = snap_x(edges, g.inner_x as int, g.inner_width as int, s.drag_threshold as int);
        let ay = snap_y(g.monitor_top, g.inner_y as int, s.drag_threshold as int);
        let ox = ax - (g.inner_x - g.outer_x);
        let oy = ay - (g.inner_y - g.outer_y);
        let line = line_edge_after(ay, g.monitor_top, edge_x);
        let move_to = if ox != g.outer_x || oy != g.outer_y {
            Some((ox as i32, oy as i32))
        } else {
            None
        };
        (WindowManager { snap_line_edge: line, ..s }, SnapOutcome { move_to, line_edge: line })
    }
}

/// What one round of the watcher that collapses the window sees.
#[derive(Clone, Copy, Debug)]
pub struct WatchInput {
    pub is_minimized: bool,
    /// Whether one of the analysis windows or menus is shown.
    pub other_window_visible: bool,
    pub cursor: Option<(i32, i32)>,
    /// The window's outer position and size, when known.
    pub window_rect: Option<(i32, i32, u32, u32)>,
    /// Whether the window lost the focus in the last 300 ms.
    pub focus_lost_recently: bool,
    pub snap_window_present: bool,
    pub windows_present: bool,
}

/// Whether the watcher looks at the mouse at all.
pub open spec fn watch_active(s: WindowManager) -> bool {
    !s.is_collapsed && !s.is_dragging && !s.is_resizing && s.snap_line_edge is Some && !s.is_sub_window_open
}

pub open spec fn cursor_inside(c: (i32, i32), r: (i32, i32, u32, u32)) -> bool {
    c.0 >= r.0 && c.0 <= r.0 + r.2 && c.1 >= r.1 && c.1 <= r.1 + r.3
}

/// The state and step of one round of the watcher: while the mouse stays over
/// the window it is marked as visited; once it has left a visited window,
/// the window collapses, unless the window just lost the focus.
pub open spec fn spec_watch(s: WindowManager, w: WatchInput) -> (WindowManager, CollapseStep) {
    if !watch_active(s) || w.is_minimized || w.other_window_visible || s.is_main_menu_open {
        (s, CollapseStep::Nothing)
    } else {
        match (w.cursor, w.window_rect) {
            (Some(c), Some(r)) => if cursor_inside(c, r) {
                (WindowManager { mouse_was_in_window: true, ..s }, CollapseStep::Nothing)
            } else if s.mouse_was_in_window && !w.focus_lost_recently {
                spec_collapse(
                    WindowManager { mouse_was_in_window: false, ..s },
                    Some((r.0, r.1)),
                    w.snap_window_present,
                    w.windows_present,
                )
            } else {
                (s, CollapseStep::Nothing)
            },
            _ => (s, CollapseStep::Nothing),
        }
    }
}

impl WindowManager {
    pub fn new() -> (r: Self)
        ensures
            window_wf(r),
            r.drag_threshold == 40,
            !r.is_dragging && !r.is_resizing && !r.is_collapsed && !r.mouse_was_in_window,
            r.snap_line_edge is None && r.collapsed_position is None,
            !r.is_main_menu_open && r.is_focused && !r.is_sub_window_open && !r.skip_next_snap,
            !r.is_locked && r.always_on_top,
    {
        WindowManager {
            drag_threshold: 40,
            is_dragging: false,
            is_resizing: false,
            snap_line_edge: None,
            is_collapsed: false,
            mouse_was_in_window: false,
            collapsed_position: None,
            is_main_menu_open: false,
            is_focused: true,
            is_sub_window_open: false,
            skip_next_snap: false,
            is_locked: false,
            always_on_top: true,
        }
    }

    /// Marks the window as being resized or not; resizing ends any drag.
    /// Says whether a pending end-of-drag check is to be cancelled.
    pub fn set_resizing(&mut self, resizing: bool) -> (cancel_drag: bool)
        ensures
            cancel_drag == resizing,
            *final(self) == (if resizing {
                WindowManager { is_resizing: true, is_dragging: false, ..*old(self) }
            } else {
                WindowManager { is_resizing: false, ..*old(self) }
            }),
            window_wf(*old(self)) ==> window_wf(*final(self)),
    {
        self.is_resizing = resizing;
        if resizing {
            self.is_dragging = false;
        }
        resizing
    }

    /// Whether a resize of the window updates the stored height.
    pub fn accepts_resize(&self) -> (r: bool)
        ensures
            r == !self.is_resizing,
    {
        !self.is_resizing
    }

    /// Whether a move of the window updates the stored position: not while
    /// resizing, collapsed or locked.
    pub fn accepts_move(&self) -> (r: bool)
        ensures
            r == (!self.is_resizing && !self.is_collapsed && !self.is_locked),
    {
        !self.is_resizing && !self.is_collapsed && !self.is_locked
    }

    /// A drag starts; a collapsed window comes back first.
    pub fn start_dragging(&mut self) -> (r: DragStart)
        ensures
            r == (if old(self).is_collapsed {
                DragStart { hide_snap_line: true, restore_position: old(self).collapsed_position }
            } else {
                DragStart { hide_snap_line: false, restore_position: None }
            }),
            *final(self) == (WindowManager { is_collapsed: false, is_dragging: true, ..*old(self) }),
            window_wf(*final(self)),
    {
        let r = if self.is_collapsed {
            self.is_collapsed = false;
            DragStart { hide_snap_line: true, restore_position: self.collapsed_position }
        } else {
            DragStart { hide_snap_line: false, restore_position: None }
        };
        self.is_dragging = true;
        r
    }

    /// A drag ends (after the window has been snapped): the mouse is over
    /// the window.
    pub fn stop_dragging(&mut self)
        ensures
            *final(self) == (WindowManager { is_dragging: false, mouse_was_in_window: true, ..*old(self) }),
            window_wf(*old(self)) ==> window_wf(*final(self)),
    {
        self.is_dragging = false;
        self.mouse_was_in_window = true;
    }

    /// Forgets the snap: no edge, not collapsed, and the next snap is skipped.
    pub fn reset_snap_state(&mut self)
        ensures
            *final(self) == (WindowManager {
                snap_line_edge: None,
                is_collapsed: false,
                collapsed_position: None,
                mouse_was_in_window: false,
                skip_next_snap: true,
                ..*old(self)
            }),
            window_wf(*final(self)),
    {
        self.snap_line_edge = None;
        self.is_collapsed = false;
        self.collapsed_position = None;
        self.mouse_was_in_window = false;
        self.skip_next_snap = true;
    }

    /// Snaps the window to the edges near it (see `spec_perform_snap`).
    pub fn perform_snap(&mut self, g: SnapInput, edges: &Vec<ScreenEdge>) -> (r: SnapOutcome)
        requires
            snap_input_ok(g, edges@),
            0 <= old(self).drag_threshold < 0x1000_0000,
        ensures
            (*final(self), r) == spec_perform_snap(*old(self), g, edges@),
            window_wf(*old(self)) ==> window_wf(*final(self)),
    {
        if self.is_collapsed {
            return SnapOutcome { move_to: None, line_edge: None };
        }
        if self.skip_next_snap {
            self.skip_next_snap = false;
            return SnapOutcome { move_to: None, line_edge: None };
        }
        let shadow_x = g.inner_x - g.outer_x;
        let shadow_y = g.inner_y - g.outer_y;
        let (ax, edge_x) = calculate_snap_x(edges, g.inner_x, g.inner_width, self.drag_threshold);
        let ay = calculate_snap_y(g.monitor_top, g.inner_y, self.drag_threshold);
        proof {
            lemma_first_hit_bounds(edges@, g.inner_x as int, g.inner_x + g.inner_width, self.drag_threshold as int, 0);
        }
        let ox = ax - shadow_x;
        let oy = ay - shadow_y;
        let move_to = if ox != g.outer_x || oy != g.outer_y {
            Some((ox, oy))
        } else {
            None
        };
        let top = match g.monitor_top {
            Some(t) => t,
            None => 0,
        };
        let line = if ay == top {
            Some(LineEdge::Top)
        } else {
            match edge_x {
                Some(EdgeType::Left) => Some(LineEdge::Left),
                Some(EdgeType::Right) => Some(LineEdge::Right),
                None => None,
            }
        };
        self.snap_line_edge = line;
        SnapOutcome { move_to, line_edge: line }
    }

    /// Sets the collapsed state (see `spec_set_collapsed`).
    pub fn set_collapsed_state(&mut self, collapsed: bool, windows_present: bool) -> (r: CollapseStep)
        ensures
            (*final(self), r) == spec_set_collapsed(*old(self), collapsed, windows_present),
            window_wf(*old(self)) && (collapsed ==> old(self).snap_line_edge is Some) ==> window_wf(*final(self)),
    {
        if !windows_present {
            return CollapseStep::Nothing;
        }
        if collapsed {
            self.is_collapsed = true;
            CollapseStep::Collapse
        } else {
            self.is_collapsed = false;
            CollapseStep::Expand(self.collapsed_position)
        }
    }

    /// Collapses the window into its line (see `spec_collapse`). When it
    /// collapses, the menus are to be closed and the line placed along
    /// `snap_line_edge`.
    pub fn collapse_window(&mut self, outer_position: Option<(i32, i32)>, snap_window_present: bool, windows_present: bool) -> (r: CollapseStep)
        ensures
            (*final(self), r) == spec_collapse(*old(self), outer_position, snap_window_present, windows_present),
            window_wf(*old(self)) ==> window_wf(*final(self)),
    {
        if self.is_dragging || self.is_resizing || self.is_locked || self.is_collapsed || self.snap_line_edge.is_none() || !snap_window_present {
            return CollapseStep::Nothing;
        }
        if let Some(p) = outer_position {
            self.collapsed_position = Some(p);
        }
        self.set_collapsed_state(true, windows_present)
    }

    /// Expands a collapsed window (see `spec_expand`).
    pub fn expand_window(&mut self, windows_present: bool) -> (r: CollapseStep)
        ensures
            (*final(self), r) == spec_expand(*old(self), windows_present),
            window_wf(*old(self)) ==> window_wf(*final(self)),
    {
        if !self.is_collapsed {
            return CollapseStep::Nothing;
        }
        self.mouse_was_in_window = true;
        self.set_collapsed_state(false, windows_present)
    }

    /// The window got the focus: a collapsed window stays collapsed; a window
    /// that was minimised or moved off the screen collapses again when it has
    /// an edge, and comes back otherwise.
    pub fn handle_window_focused(&mut self, is_minimized: bool, outer_position: (i32, i32), snap_window_present: bool, windows_present: bool) -> (r: CollapseStep)
        ensures
            (*final(self), r) == (if old(self).is_collapsed {
                spec_set_collapsed(*old(self), true, windows_present)
            } else if is_minimized || outer_position.0 < -1000 || outer_position.1 < -1000 {
                if old(self).snap_line_edge is Some {
                    spec_collapse(*old(self), Some(outer_position), snap_window_present, windows_present)
                } else {
                    spec_set_collapsed(*old(self), false, windows_present)
                }
            } else {
                (*old(self), CollapseStep::Nothing)
            }),
            window_wf(*old(self)) ==> window_wf(*final(self)),
    {
        if self.is_collapsed {
            self.set_collapsed_state(true, windows_present)
        } else if is_minimized || outer_position.0 < -1000 || outer_position.1 < -1000 {
            if self.snap_line_edge.is_some() {
                self.collapse_window(Some(outer_position), snap_window_present, windows_present)
            } else {
                self.set_collapsed_state(false, windows_present)
            }
        } else {
            CollapseStep::Nothing
        }
    }

    /// Whether a round of the watcher gets as far as the mouse; only such a
    /// round is followed by the check that the line and the window agree.
    pub fn watch_reaches_mouse(&self, w: &WatchInput) -> (r: bool)
        ensures
            r == (watch_active(*self) && !w.is_minimized && !w.other_window_visible && !self.is_main_menu_open
                && w.cursor is Some && w.window_rect is Some),
    {
        !self.is_collapsed && !self.is_dragging && !self.is_resizing && self.snap_line_edge.is_some()
            && !self.is_sub_window_open && !w.is_minimized && !w.other_window_visible && !self.is_main_menu_open
            && w.cursor.is_some() && w.window_rect.is_some()
    }

    /// One round of the watcher (see `spec_watch`).
    pub fn watch(&mut self, w: WatchInput) -> (r: CollapseStep)
        ensures
            (*final(self), r) == spec_watch(*old(self), w),
            window_wf(*old(self)) ==> window_wf(*final(self)),
    {
        if self.is_collapsed || self.is_dragging || self.is_resizing || self.snap_line_edge.is_none() || self.is_sub_window_open {
            return CollapseStep::Nothing;
        }
        if w.is_minimized || w.other_window_visible || self.is_main_menu_open {
            return CollapseStep::Nothing;
        }
        match (w.cursor, w.window_rect) {
            (Some(c), Some(r)) => {
                let inside = (c.0 as i64) >= (r.0 as i64) && (c.0 as i64) <= (r.0 as i64) + (r.2 as i64)
                    && (c.1 as i64) >= (r.1 as i64) && (c.1 as i64) <= (r.1 as i64) + (r.3 as i64);
                if inside {
                    self.mouse_was_in_window = true;
                    CollapseStep::Nothing
                } else if self.mouse_was_in_window && !w.focus_lost_recently {
                    self.mouse_was_in_window = false;
                    self.collapse_window(Some((r.0, r.1)), w.snap_window_present, w.windows_present)
                } else {
                    CollapseStep::Nothing
                }
            },
            _ => CollapseStep::Nothing,
        }
    }

    /// Keeps the line and the window in agreement after a round of the
    /// watcher: a collapsed window whose line is hidden or which is on the
    /// screen is collapsed again; an expanded window whose line shows is
    /// expanded again.
    pub fn check_collapse_consistency(&mut self, snap_visible: bool, main_offscreen: bool, windows_present: bool) -> (r: CollapseStep)
        ensures
            (*final(self), r) == (if old(self).is_collapsed && (!snap_visible || !main_offscreen) {
                spec_set_collapsed(*old(self), true, windows_present)
            } else if !old(self).is_collapsed && snap_visible {
                spec_set_collapsed(*old(self), false, windows_present)
            } else {
                (*old(self), CollapseStep::Nothing)
            }),
            window_wf(*old(self)) ==> window_wf(*final(self)),
    {
        if self.is_collapsed && (!snap_visible || !main_offscreen) {
            self.set_collapsed_state(true, windows_present)
        } else if !self.is_collapsed && snap_visible {
            self.set_collapsed_state(false, windows_present)
        } else {
            CollapseStep::Nothing
        }
    }

    /// Marks the main menu as open or closed; while it is open the window does
    /// not collapse.
    pub fn set_main_menu_open(&mut self, open: bool)
        ensures
            *final(self) == (WindowManager { is_main_menu_open: open, ..*old(self) }),
            window_wf(*old(self)) ==> window_wf(*final(self)),
    {
        self.is_main_menu_open = open;
    }

    pub fn is_main_menu_open(&self) -> (r: bool)
        ensures
            r == self.is_main_menu_open,
    {
        self.is_main_menu_open
    }

    /// Marks a dialog, sub-window or menu as open or closed; while one is
    /// open the watcher leaves the window alone.
    pub fn set_sub_window_open(&mut self, open: bool)
        ensures
            *final(self) == (WindowManager { is_sub_window_open: open, ..*old(self) }),
            window_wf(*old(self)) ==> window_wf(*final(self)),
    {
        self.is_sub_window_open = open;
    }

    pub fn set_always_on_top(&mut self, enabled: bool)
        ensures
            *final(self) == (WindowManager { always_on_top: enabled, ..*old(self) }),
            window_wf(*old(self)) ==> window_wf(*final(self)),
    {
        self.always_on_top = enabled;
    }

    /// Locks or unlocks the window, as a stored setting says.
    pub fn set_locked(&mut self, locked: bool)
        ensures
            *final(self) == (WindowManager { is_locked: locked, ..*old(self) }),
            window_wf(*old(self)) ==> window_wf(*final(self)),
    {
        self.is_locked = locked;
    }

    /// Locks or unlocks the window; gives the new setting.
    pub fn toggle_lock(&mut self) -> (locked: bool)
        ensures
            locked == !old(self).is_locked,
            *final(self) == (WindowManager { is_locked: locked, ..*old(self) }),
            window_wf(*old(self)) ==> window_wf(*final(self)),
    {
        self.is_locked = !self.is_locked;
        self.is_locked
    }
}

// ---------------------------------------------------------------------------
// Laws
// ---------------------------------------------------------------------------

/// Expanding a window that has just collapsed brings it back to where it
/// stood when it collapsed, and keeps the edge it snapped to.
pub proof fn lemma_expand_undoes_collapse(s: WindowManager, p: (i32, i32))
    requires
        may_collapse(s, true),
    ensures
        ({
            let (c, step1) = spec_collapse(s, Some(p), true, true);
            let (e, step2) = spec_expand(c, true);
            &&& step1 == CollapseStep::Collapse
            &&& c.is_collapsed
            &&& step2 == CollapseStep::Expand(Some(p))
            &&& !e.is_collapsed
            &&& e.snap_line_edge == s.snap_line_edge
            &&& e.collapsed_position == Some(p)
            &&& e.mouse_was_in_window
        }),
{
}

/// A collapsed window does not snap: snapping changes nothing.
pub proof fn lemma_no_snap_while_collapsed(s: WindowManager, g: SnapInput, edges: Seq<ScreenEdge>)
    requires
        s.is_collapsed,
    ensures
        spec_perform_snap(s, g, edges) == (s, (SnapOutcome { move_to: None, line_edge: None })),
{
}

/// After a snap the window's line lies along the edge the snap reports.
pub proof fn lemma_snap_records_edge(s: WindowManager, g: SnapInput, edges: Seq<ScreenEdge>)
    ensures
        spec_perform_snap(s, g, edges).0.snap_line_edge == (if s.is_collapsed || s.skip_next_snap {
            s.snap_line_edge
        } else {
            spec_perform_snap(s, g, edges).1.line_edge
        }),
{
}

/// Every operation keeps a collapsed window's edge: a window collapses only
/// along an edge, and nothing removes the edge of a collapsed window without
/// expanding it.
pub proof fn lemma_collapse_needs_edge(s: WindowManager, p: Option<(i32, i32)>, snap: bool, present: bool)
    requires
        window_wf(s),
    ensures
        window_wf(spec_collapse(s, p, snap, present).0),
        window_wf(spec_expand(s, present).0),
        spec_collapse(s, p, snap, present).0.is_collapsed ==> spec_collapse(s, p, snap, present).0.snap_line_edge == s.snap_line_edge,
{
}

/// A snap that leaves the window's top on the top of its work area (taken
/// as 0 when unknown) puts the line along the top, whatever side the window
/// also snapped to; when the window moves, its top is where the move puts it.
pub proof fn lemma_top_wins(s: WindowManager, g: SnapInput, edges: Seq<ScreenEdge>)
    requires
        !s.is_collapsed,
        !s.skip_next_snap,
        snap_input_ok(g, edges),
        0 <= s.drag_threshold < 0x1000_0000,
    ensures
        ({
            let (s2, out) = spec_perform_snap(s, g, edges);
            let top: int = match g.monitor_top {
                Some(t) => t as int,
                None => 0,
            };
            let new_inner_y: int = match out.move_to {
                Some(p) => p.1 + (g.inner_y - g.outer_y),
                None => g.inner_y as int,
            };
            new_inner_y == top ==> {
                &&& out.line_edge == Some(LineEdge::Top)
                &&& s2.snap_line_edge == Some(LineEdge::Top)
            }
        }),
{
    let ay = snap_y(g.monitor_top, g.inner_y as int, s.drag_threshold as int);
    let oy = ay - (g.inner_y - g.outer_y);
    assert(coord_ok(ay));
    assert((oy as i32) as int == oy);
}

/// A round of the watcher never collapses the window while the mouse is over
/// it, edges included: the step is nothing and the collapsed state stays.
pub proof fn lemma_no_collapse_under_mouse(s: WindowManager, w: WatchInput, c: (i32, i32), r: (i32, i32, u32, u32))
    requires
        w.cursor == Some(c),
        w.window_rect == Some(r),
        r.0 <= c.0,
        c.0 <= r.0 + r.2,
        r.1 <= c.1,
        c.1 <= r.1 + r.3,
    ensures
        spec_watch(s, w).1 == CollapseStep::Nothing,
        spec_watch(s, w).0.is_collapsed == s.is_collapsed,
        spec_watch(s, w).0.snap_line_edge == s.snap_line_edge,
{
}

// ---------------------------------------------------------------------------
// Geometry of the line and of the window
// ---------------------------------------------------------------------------

/// Where the line's window goes and how it is clipped.
#[derive(Clone, Copy, Debug, PartialEq, Eq)]
pub struct SnapLineGeometry {
    /// The size of the line's window, mouse zone included.
    pub window_width: i32,
    pub window_height: i32,
    /// The outer position of the line's window.
    pub outer_x: i32,
    pub outer_y: i32,
    /// The visible part, relative to the window's content.
    pub visible_x: i32,
    pub visible_y: i32,
    pub visible_width: i32,
    pub visible_height: i32,
}

/// The line along `edge` of the main window (content at `(x, y)`, size
/// `w` x `h`): `thickness` pixels thick, with a mouse zone of `hotzone`
/// pixels toward the inside of the screen, and the line window's own shadow
/// `(sx, sy)` taken off.
pub open spec fn spec_snap_line_geometry(edge: LineEdge, x: int, y: int, w: int, h: int, thickness: int, hotzone: int, sx: int, sy: int) -> (int, int, int, int, int, int, int, int) {
    match edge {
        LineEdge::Top => (w, thickness + hotzone, x - sx, y - sy, 0, 0, w, thickness),
        LineEdge::Left => (thickness + hotzone, h, x - sx, y - sy, 0, 0, thickness, h),
        LineEdge::Right => (thickness + hotzone, h, x + w - (thickness + hotzone) - sx, y - sy, hotzone, 0, thickness, h),
    }
}

pub fn snap_line_geometry(edge: LineEdge, main_x: i32, main_y: i32, main_width: u32, main_height: u32, thickness: i32, hotzone: i32, shadow_x: i32, shadow_y: i32) -> (r: SnapLineGeometry)
    requires
        coord_ok(main_x as int),
        coord_ok(main_y as int),
        main_width < 0x1000_0000,
        main_height < 0x1000_0000,
        coord_ok(thickness as int),
        coord_ok(hotzone as int),
        coord_ok(shadow_x as int),
        coord_ok(shadow_y as int),
    ensures
        (r.window_width as int, r.window_height as int, r.outer_x as int, r.outer_y as int, r.visible_x as int, r.visible_y as int, r.visible_width as int, r.visible_height as int)
            == spec_snap_line_geometry(edge, main_x as int, main_y as int, main_width as int, main_height as int, thickness as int, hotzone as int, shadow_x as int, shadow_y as int),
{
    let w = main_width as i32;
    let h = main_height as i32;
    match edge {
        LineEdge::Top => SnapLineGeometry {
            window_width: w,
            window_height: thickness + hotzone,
            outer_x: main_x - shadow_x,
            outer_y: main_y - shadow_y,
            visible_x: 0,
            visible_y: 0,
            visible_width: w,
            visible_height: thickness,
        },
        LineEdge::Left => SnapLineGeometry {
            window_width: thickness + hotzone,
            window_height: h,
            outer_x: main_x - shadow_x,
            outer_y: main_y - shadow_y,
            visible_x: 0,
            visible_y: 0,
            visible_width: thickness,
            visible_height: h,
        },
        LineEdge::Right => SnapLineGeometry {
            window_width: thickness + hotzone,
            window_height: h,
            outer_x: main_x + w - (thickness + hotzone) - shadow_x,
            outer_y: main_y - shadow_y,
            visible_x: hotzone,
            visible_y: 0,
            visible_width: thickness,
            visible_height: h,
        },
    }
}

/// Rust's division by two of an `i64`, rounding toward zero.
pub open spec fn half_toward_zero(d: int) -> int {
    if d >= 0 {
        d / 2
    } else {
        -((-d) / 2)
    }
}

/// The outer position that centres a window of `w` x `h` on a work area.
pub fn center_in_work_area(area: WorkArea, w: u32, h: u32) -> (r: (i32, i32))
    requires
        area.width <= i32::MAX,
        area.height <= i32::MAX,
        w <= i32::MAX,
        h <= i32::MAX,
        i32::MIN <= half_toward_zero(area.width - w) + area.x <= i32::MAX,
        i32::MIN <= half_toward_zero(area.height - h) + area.y <= i32::MAX,
    ensures
        r.0 == half_toward_zero(area.width - w) + area.x,
        r.1 == half_toward_zero(area.height - h) + area.y,
{
    let dx: i32 = (area.width as i32) - (w as i32);
    let dy: i32 = (area.height as i32) - (h as i32);
    let hx: i32 = if dx >= 0 {
        dx / 2
    } else {
        -((-dx) / 2)
    };
    let hy: i32 = if dy >= 0 {
        dy / 2
    } else {
        -((-dy) / 2)
    };
    (hx + area.x, hy + area.y)
}

} // verus!
