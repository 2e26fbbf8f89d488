//! The window-manager core: it owns the monitor/workspace/client graph,
//! interprets structural events into state transitions, and hands the
//! backend a list of commands to apply.

use vstd::prelude::*;
use crate::bindings::ButtonBinding;
use crate::bindings::ButtonTarget;
use crate::bindings::KeyBinding;
use crate::client::Client;
use crate::drag::DragKind;
use crate::drag::DragState;
use crate::geometry::Dimensions;
use crate::geometry::MonitorConfig;
use crate::layout::area_bounded;
use crate::layout::layout_cell;
use crate::monitor::Monitor;
use crate::workspace::Workspace;
use crate::workspace::first_index_of;

verus! {

/// One call the backend must make on the core's behalf.
#[derive(Debug, PartialEq)]
pub enum WmCommand {
    /// move and resize the client's frame to the given geometry
    MoveResize(u64, Dimensions),
    /// raise the client's frame in the stacking order
    RaiseWindow(u64),
    /// map an unmanaged panel/dock window and raise it
    MapRaised(u64),
    /// give input focus to the client's frame
    SetInputFocus(u64),
    /// release the decoration resource
    DestroyFrame(u64),
    /// ask the client to terminate via the delete-window convention
    SendDelete(u64),
    /// force destruction of a client that does not support graceful deletion
    KillWindow(u64),
    /// set or clear the exported fullscreen state hint of the client
    SetFullscreenHint(u64, bool),
    /// attempt exclusive pointer capture to begin an interactive drag
    GrabPointer(u64, DragKind),
    /// export the focused window handle (0 when none)
    ExportActiveWindow(u64),
    /// export the client list, in creation order
    ExportClientList(Vec<u64>),
    /// export the client list in stacking order, bottom to top
    ExportClientListStacking(Vec<u64>),
    /// export the index of the visible workspace
    ExportCurrentWorkspace(u64),
    /// spawn a detached shell command, exit status discarded
    Spawn(String),
    /// exit the window manager
    ExitWm,
    /// restart the window manager
    RestartWm,
}

/// What to do with a newly appearing top-level window.
#[derive(Clone, Copy, Debug, PartialEq, Eq, Structural)]
pub enum ManageDecision {
    /// leave the window alone
    Ignore,
    /// a panel/dock window: map and raise it, but never manage it
    ShowDock,
    /// create a frame and manage the window
    Manage,
}

/// The position of the first arena entry for `window` (meaningful only when
/// one exists).
pub open spec fn client_index_spec(s: Seq<Client>, window: u64) -> int
    decreases s.len(),
{
    if s.len() == 0 {
        0
    } else if s[0].window == window {
        0
    } else {
        1 + client_index_spec(s.drop_first(), window)
    }
}

/// True when some arena entry has this window handle.
pub open spec fn arena_has(s: Seq<Client>, window: u64) -> bool {
    exists|k: int| 0 <= k < s.len() && (#[trigger] s[k]).window == window
}

/// The stacking-order bookkeeping is sound: no window is stacked twice, every
/// stacked window is managed, and every managed window is stacked.
pub open spec fn stacking_ok(stacking: Seq<u64>, arena: Seq<Client>) -> bool {
    &&& forall|i: int, j: int| 0 <= i < j < stacking.len() ==> stacking[i] != stacking[j]
    &&& forall|i: int| 0 <= i < stacking.len() ==> arena_has(arena, #[trigger] stacking[i])
    &&& forall|k: int| 0 <= k < arena.len() ==> stacking.contains((#[trigger] arena[k]).window)
}

/// Stacking soundness carries over to an arena whose entries keep their
/// window handles.
pub proof fn lemma_stacking_ok_same(stacking: Seq<u64>, a: Seq<Client>, b: Seq<Client>)
    requires
        stacking_ok(stacking, a),
        b.len() == a.len(),
        forall|k: int| 0 <= k < a.len() ==> (#[trigger] b[k]).window == a[k].window,
    ensures
        stacking_ok(stacking, b),
{
    assert forall|i: int| 0 <= i < stacking.len() implies arena_has(
        b,
        #[trigger] stacking[i],
    ) by {
        let k = choose|k: int| 0 <= k < a.len() && (#[trigger] a[k]).window == stacking[i];
        assert(b[k].window == stacking[i]);
    }
    assert forall|k: int| 0 <= k < b.len() implies stacking.contains(
        (#[trigger] b[k]).window,
    ) by {
        assert(b[k].window == a[k].window);
    }
}

/// Stacking soundness is preserved when a window leaves both the stacking
/// order and the arena.
pub proof fn lemma_stacking_ok_remove(stacking: Seq<u64>, a: Seq<Client>, k: int, window: u64)
    requires
        stacking_ok(stacking, a),
        forall|x: int, y: int| 0 <= x < y < a.len() ==> a[x].window != a[y].window,
        0 <= k < a.len(),
        a[k].window == window,
    ensures
        stacking.contains(window),
        stacking_ok(
            stacking.remove(first_index_of(stacking, window)),
            a.remove(k),
        ),
{
    assert(stacking.contains(window));
    crate::workspace::lemma_first_index_of(stacking, window);
    let fi = first_index_of(stacking, window);
    let st2 = stacking.remove(fi);
    let a2 = a.remove(k);
    assert forall|x: int, y: int| 0 <= x < y < st2.len() implies st2[x] != st2[y] by {
        let ox = if x < fi {
            x
        } else {
            x + 1
        };
        let oy = if y < fi {
            y
        } else {
            y + 1
        };
        assert(st2[x] == stacking[ox]);
        assert(st2[y] == stacking[oy]);
    }
    assert forall|i: int| 0 <= i < st2.len() implies arena_has(a2, #[trigger] st2[i]) by {
        let oi = if i < fi {
            i
        } else {
            i + 1
        };
        assert(st2[i] == stacking[oi]);
        assert(st2[i] != window) by {
            if st2[i] == window {
                assert(stacking[oi] == stacking[fi]);
            }
        }
        assert(arena_has(a, st2[i]));
        let j = choose|j: int| 0 <= j < a.len() && (#[trigger] a[j]).window == st2[i];
        assert(j != k);
        let nj = if j < k {
            j
        } else {
            j - 1
        };
        assert(a2[nj].window == st2[i]);
    }
    assert forall|j: int| 0 <= j < a2.len() implies st2.contains((#[trigger] a2[j]).window) by {
        let oj = if j < k {
            j
        } else {
            j + 1
        };
        assert(a2[j] == a[oj]);
        assert(a[oj].window != window);
        assert(stacking.contains(a[oj].window));
        let i = choose|i: int| 0 <= i < stacking.len() && stacking[i] == a[oj].window;
        assert(i != fi);
        let ni = if i < fi {
            i
        } else {
            i - 1
        };
        assert(st2[ni] == a[oj].window);
    }
}

/// Stacking soundness is preserved when a fresh window joins both the arena
/// and the top of the stacking order.
pub proof fn lemma_stacking_ok_push(stacking: Seq<u64>, a: Seq<Client>, c: Client)
    requires
        stacking_ok(stacking, a),
        !arena_has(a, c.window),
    ensures
        stacking_ok(stacking.push(c.window), a.push(c)),
{
    let st2 = stacking.push(c.window);
    let a2 = a.push(c);
    assert(!stacking.contains(c.window)) by {
        if stacking.contains(c.window) {
            let i = choose|i: int| 0 <= i < stacking.len() && stacking[i] == c.window;
            assert(arena_has(a, stacking[i]));
        }
    }
    assert forall|x: int, y: int| 0 <= x < y < st2.len() implies st2[x] != st2[y] by {
        if y < stacking.len() {
        } else {
            assert(st2[y] == c.window);
            assert(st2[x] == stacking[x]);
            assert(stacking.contains(stacking[x]));
        }
    }
    assert forall|i: int| 0 <= i < st2.len() implies arena_has(a2, #[trigger] st2[i]) by {
        if i < stacking.len() {
            let k = choose|k: int| 0 <= k < a.len() && (#[trigger] a[k]).window == stacking[i];
            assert(a2[k].window == st2[i]);
        } else {
            assert(a2[a.len() as int].window == st2[i]);
        }
    }
    assert forall|k: int| 0 <= k < a2.len() implies st2.contains((#[trigger] a2[k]).window) by {
        if k < a.len() {
            assert(stacking.contains(a[k].window));
            let i = choose|i: int| 0 <= i < stacking.len() && stacking[i] == a[k].window;
            assert(st2[i] == a2[k].window);
        } else {
            assert(st2[stacking.len() as int] == a2[k].window);
        }
    }
}

/// Stacking soundness is preserved when a stacked window is raised to the
/// top (removed and re-appended).
pub proof fn lemma_stacking_ok_raise(stacking: Seq<u64>, a: Seq<Client>, window: u64)
    requires
        stacking_ok(stacking, a),
        stacking.contains(window),
    ensures
        stacking_ok(
            stacking.remove(first_index_of(stacking, window)).push(window),
            a,
        ),
{
    crate::workspace::lemma_first_index_of(stacking, window);
    let fi = first_index_of(stacking, window);
    let mid = stacking.remove(fi);
    let st2 = mid.push(window);
    assert forall|x: int, y: int| 0 <= x < y < mid.len() implies mid[x] != mid[y] by {
        let ox = if x < fi {
            x
        } else {
            x + 1
        };
        let oy = if y < fi {
            y
        } else {
            y + 1
        };
        assert(mid[x] == stacking[ox]);
        assert(mid[y] == stacking[oy]);
    }
    assert(!mid.contains(window)) by {
        if mid.contains(window) {
            let i = choose|i: int| 0 <= i < mid.len() && mid[i] == window;
            let oi = if i < fi {
                i
            } else {
                i + 1
            };
            assert(mid[i] == stacking[oi]);
            assert(stacking[oi] == stacking[fi]);
        }
    }
    assert forall|x: int, y: int| 0 <= x < y < st2.len() implies st2[x] != st2[y] by {
        if y < mid.len() {
        } else {
            assert(st2[y] == window);
            assert(st2[x] == mid[x]);
            assert(mid.contains(mid[x]));
        }
    }
    assert forall|i: int| 0 <= i < st2.len() implies arena_has(a, #[trigger] st2[i]) by {
        if i < mid.len() {
            let oi = if i < fi {
                i
            } else {
                i + 1
            };
            assert(st2[i] == stacking[oi]);
        } else {
            assert(st2[i] == stacking[fi]);
        }
    }
    assert forall|k: int| 0 <= k < a.len() implies st2.contains((#[trigger] a[k]).window) by {
        assert(stacking.contains(a[k].window));
        let i = choose|i: int| 0 <= i < stacking.len() && stacking[i] == a[k].window;
        if i == fi {
            assert(st2[mid.len() as int] == window);
        } else {
            let ni = if i < fi {
                i
            } else {
                i - 1
            };
            assert(st2[ni] == a[k].window);
        }
    }
}

/// Characterization of `client_index_spec`.
pub proof fn lemma_client_index_spec(s: Seq<Client>, window: u64)
    requires
        arena_has(s, window),
    ensures
        0 <= client_index_spec(s, window) < s.len(),
        s[client_index_spec(s, window)].window == window,
        forall|j: int| 0 <= j < client_index_spec(s, window) ==> s[j].window != window,
    decreases s.len(),
{
    if s[0].window == window {
    } else {
        assert(arena_has(s.drop_first(), window)) by {
            let i = choose|i: int| 0 <= i < s.len() && s[i].window == window;
            assert(s.drop_first()[i - 1].window == window);
        }
        lemma_client_index_spec(s.drop_first(), window);
        assert forall|j: int| 0 <= j < client_index_spec(s, window) implies s[j].window
            != window by {
            if j > 0 {
                assert(s[j] == s.drop_first()[j - 1]);
            }
        }
    }
}

/// The first-entry position of a window depends only on the entries' window
/// handles.
pub proof fn lemma_client_index_same(a: Seq<Client>, b: Seq<Client>, window: u64)
    requires
        a.len() == b.len(),
        forall|k: int| 0 <= k < a.len() ==> (#[trigger] b[k]).window == a[k].window,
    ensures
        client_index_spec(a, window) == client_index_spec(b, window),
    decreases a.len(),
{
    if a.len() == 0 {
    } else if a[0].window == window {
        assert(b[0].window == window);
    } else {
        assert(b[0].window != window);
        assert forall|k: int|
            0 <= k < a.drop_first().len() implies (#[trigger] b.drop_first()[k]).window
            == a.drop_first()[k].window by {
            assert(a.drop_first()[k] == a[k + 1]);
            assert(b.drop_first()[k] == b[k + 1]);
        }
        lemma_client_index_same(a.drop_first(), b.drop_first(), window);
    }
}

/// The window-manager core: the client arena, the monitors with their
/// workspaces, the focus reference, the drag sub-state, and the binding
/// tables.
pub struct MarsWM {
    /// every managed client, in creation order (the arena)
    pub clients: Vec<Client>,
    /// the monitors, with their workspaces
    pub monitors: Vec<Monitor>,
    /// index of the monitor that has the focus
    pub cur_monitor: usize,
    /// the managed windows in stacking order, bottom to top
    pub stacking: Vec<u64>,
    /// the single globally-tracked focused client (its window handle)
    pub focused: Option<u64>,
    /// the drag sub-state, when an interactive drag is in progress
    pub drag: Option<DragState>,
    /// the key binding table, defaults first
    pub key_bindings: Vec<KeyBinding>,
    /// the pointer binding table, defaults first
    pub button_bindings: Vec<ButtonBinding>,
}

impl MarsWM {
    /// The client list of workspace `w` of monitor `m`.
    pub open spec fn ws_clients(&self, m: int, w: int) -> Seq<u64> {
        self.monitors@[m].workspaces@[w].clients@
    }

    /// True when `(m, w)` names an existing workspace.
    pub open spec fn valid_ws(&self, m: int, w: int) -> bool {
        &&& 0 <= m < self.monitors@.len()
        &&& 0 <= w < self.monitors@[m].workspaces@.len()
    }

    /// True when the window is managed (has an arena entry).
    pub open spec fn spec_is_managed(&self, window: u64) -> bool {
        arena_has(self.clients@, window)
    }

    /// A client is a member of at most one workspace's list at any point.
    pub open spec fn lists_disjoint(&self) -> bool {
        forall|a: int, b: int, c: int, d: int, x: u64|
            self.valid_ws(a, b) && self.valid_ws(c, d) && (a != c || b != d) && #[trigger] self.ws_clients(
                a,
                b,
            ).contains(x) ==> !(#[trigger] self.ws_clients(c, d).contains(x))
    }

    /// Every client a workspace lists has an arena entry.
    pub open spec fn listed_managed(&self) -> bool {
        forall|m: int, w: int, x: u64|
            self.valid_ws(m, w) && #[trigger] self.ws_clients(m, w).contains(x)
                ==> self.spec_is_managed(x)
    }

    /// Well-formedness of the whole graph: at least one well-formed monitor,
    /// a valid focused-monitor index, no two arena entries for one window,
    /// workspace lists pairwise disjoint, and every listed client managed.
    pub open spec fn wf(&self) -> bool {
        &&& self.monitors@.len() > 0
        &&& self.cur_monitor < self.monitors@.len()
        &&& forall|m: int| 0 <= m < self.monitors@.len() ==> (#[trigger] self.monitors@[m]).wf()
        &&& forall|k: int, l: int|
            0 <= k < l < self.clients@.len() ==> (#[trigger] self.clients@[k]).window != (
            #[trigger] self.clients@[l]).window
        &&& self.lists_disjoint()
        &&& self.listed_managed()
        &&& stacking_ok(self.stacking@, self.clients@)
    }

    /// A fresh core: one monitor per reported configuration, each with
    /// `nworkspaces` empty workspaces, no clients, nothing focused.
    pub fn new(
        monitor_configs: Vec<MonitorConfig>,
        nworkspaces: u32,
        key_bindings: Vec<KeyBinding>,
        button_bindings: Vec<ButtonBinding>,
    ) -> (wm: MarsWM)
        requires
            monitor_configs@.len() > 0,
            nworkspaces >= 1,
            forall|i: int|
                0 <= i < monitor_configs@.len() ==> area_bounded(
                    (#[trigger] monitor_configs@[i]).win_area,
                ) && area_bounded(monitor_configs@[i].dims),
        ensures
            wm.wf(),
            wm.clients@.len() == 0,
            wm.monitors@.len() == monitor_configs@.len(),
            wm.cur_monitor == 0,
            wm.stacking@.len() == 0,
            wm.focused is None,
            wm.drag is None,
            wm.key_bindings@ == key_bindings@,
            wm.button_bindings@ == button_bindings@,
            forall|m: int, w: int| wm.valid_ws(m, w) ==> #[trigger] wm.ws_clients(m, w).len() == 0,
    {
        let mut monitors: Vec<Monitor> = Vec::new();
        let n = monitor_configs.len();
        let mut i: usize = 0;
        while i < n
            invariant
                i <= n,
                n == monitor_configs@.len(),
                nworkspaces >= 1,
                forall|k: int|
                    0 <= k < n ==> area_bounded((#[trigger] monitor_configs@[k]).win_area)
                        && area_bounded(monitor_configs@[k].dims),
                monitors@.len() == i,
                forall|k: int| 0 <= k < i ==> (#[trigger] monitors@[k]).wf(),
                forall|k: int, w: int|
                    0 <= k < i && 0 <= w < monitors@[k].workspaces@.len() ==> (
                    #[trigger] monitors@[k].workspaces@[w]).clients@.len() == 0,
            decreases n - i,
        {
            monitors.push(Monitor::new(monitor_configs[i], nworkspaces));
            i = i + 1;
        }
        let wm = MarsWM {
            clients: Vec::new(),
            monitors,
            cur_monitor: 0,
            stacking: Vec::new(),
            focused: None,
            drag: None,
            key_bindings,
            button_bindings,
        };
        proof {
            assert forall|a: int, b: int, c: int, d: int, x: u64|
                wm.valid_ws(a, b) && wm.valid_ws(c, d) && (a != c || b != d) && #[trigger] wm.ws_clients(
                    a,
                    b,
                ).contains(x) implies !(#[trigger] wm.ws_clients(c, d).contains(x)) by {
                assert(wm.ws_clients(a, b).len() == 0);
            }
            assert forall|m: int, w: int, x: u64|
                wm.valid_ws(m, w) && #[trigger] wm.ws_clients(m, w).contains(x) implies wm.spec_is_managed(
                x,
            ) by {
                assert(wm.ws_clients(m, w).len() == 0);
            }
        }
        wm
    }

    /// The arena position of the client with this window handle: the
    /// dispatcher looks clients up by linear scan over the live client set.
    pub fn client_index(&self, window: u64) -> (r: Option<usize>)
        ensures
            match r {
                Some(k) => self.spec_is_managed(window) && k == client_index_spec(
                    self.clients@,
                    window,
                ) && k < self.clients@.len() && self.clients@[k as int].window == window,
                None => !self.spec_is_managed(window),
            },
    {
        let n = self.clients.len();
        let mut i: usize = 0;
        while i < n
            invariant
                i <= n,
                n == self.clients@.len(),
                forall|j: int| 0 <= j < i ==> (#[trigger] self.clients@[j]).window != window,
            decreases n - i,
        {
            if self.clients[i].window == window {
                proof {
                    assert(self.clients@[i as int].window == window);
                    assert(arena_has(self.clients@, window));
                    lemma_client_index_spec(self.clients@, window);
                    let k = client_index_spec(self.clients@, window);
                    assert(!(k < i) && !(i < k));
                }
                return Some(i);
            }
            i = i + 1;
        }
        proof {
            if self.spec_is_managed(window) {
                let k = choose|k: int|
                    0 <= k < self.clients@.len() && (#[trigger] self.clients@[k]).window == window;
                assert(self.clients@[k].window != window);
            }
        }
        None
    }

    /// The arena position of the client with this frame handle.
    pub fn client_index_by_frame(&self, frame: u64) -> (r: Option<usize>)
        ensures
            match r {
                Some(k) => k < self.clients@.len() && self.clients@[k as int].frame == frame
                    && forall|j: int|
                    0 <= j < k ==> (#[trigger] self.clients@[j]).frame != frame,
                None => forall|j: int|
                    0 <= j < self.clients@.len() ==> (#[trigger] self.clients@[j]).frame != frame,
            },
    {
        let n = self.clients.len();
        let mut i: usize = 0;
        while i < n
            invariant
                i <= n,
                n == self.clients@.len(),
                forall|j: int| 0 <= j < i ==> (#[trigger] self.clients@[j]).frame != frame,
            decreases n - i,
        {
            if self.clients[i].frame == frame {
                return Some(i);
            }
            i = i + 1;
        }
        None
    }

    /// The data of the client-list export: every managed window, in creation
    /// order.
    pub fn client_list_data(&self) -> (r: Vec<u64>)
        ensures
            r@.len() == self.clients@.len(),
            forall|k: int| 0 <= k < r@.len() ==> r@[k] == (#[trigger] self.clients@[k]).window,
    {
        let n = self.clients.len();
        let mut r: Vec<u64> = Vec::new();
        let mut i: usize = 0;
        while i < n
            invariant
                i <= n,
                n == self.clients@.len(),
                r@.len() == i,
                forall|k: int| 0 <= k < i ==> r@[k] == (#[trigger] self.clients@[k]).window,
            decreases n - i,
        {
            r.push(self.clients[i].window);
            i = i + 1;
        }
        r
    }

    /// The data of the active-window export: the focused client's window, or
    /// 0 when no client is focused.
    pub fn active_window_data(&self) -> (r: u64)
        ensures
            r == match self.focused {
                Some(w) => w,
                None => 0u64,
            },
    {
        match self.focused {
            Some(w) => w,
            None => 0,
        }
    }

    /// The data of the current-workspace export for the focused monitor.
    pub fn current_workspace_data(&self) -> (r: u64)
        requires
            self.wf(),
        ensures
            r == self.monitors@[self.cur_monitor as int].cur_workspace,
    {
        let mon = &self.monitors[self.cur_monitor];
        mon.cur_workspace as u64
    }
}


/// The position of the first occurrence of `x` in `v`, as `Workspace` lists
/// use it.
fn position_in(v: &Vec<u64>, x: u64) -> (r: Option<usize>)
    ensures
        match r {
            Some(i) => v@.contains(x) && i == first_index_of(v@, x),
            None => !v@.contains(x),
        },
{
    let n = v.len();
    let mut i: usize = 0;
    while i < n
        invariant
            i <= n,
            n == v@.len(),
            forall|j: int| 0 <= j < i ==> v@[j] != x,
        decreases n - i,
    {
        if v[i] == x {
            proof {
                assert(v@[i as int] == x);
                assert(v@.contains(x));
                crate::workspace::lemma_first_index_of(v@, x);
                let k = first_index_of(v@, x);
                assert(!(k < i) && !(i < k));
            }
            return Some(i);
        }
        i = i + 1;
    }
    None
}

/// A plain copy of a handle list.
fn copy_ids(v: &Vec<u64>) -> (r: Vec<u64>)
    ensures
        r@ == v@,
{
    let n = v.len();
    let mut r: Vec<u64> = Vec::new();
    let mut i: usize = 0;
    while i < n
        invariant
            i <= n,
            n == v@.len(),
            r@ == v@.subrange(0, i as int),
        decreases n - i,
    {
        r.push(v[i]);
        proof {
            assert(r@ =~= v@.subrange(0, i + 1));
        }
        i = i + 1;
    }
    proof {
        assert(v@.subrange(0, n as int) =~= v@);
    }
    r
}

/// The current geometries of the listed clients, in list order, read from the
/// arena.
pub open spec fn ws_dims(arena: Seq<Client>, list: Seq<u64>) -> Seq<Dimensions> {
    Seq::new(list.len(), |i: int| arena[client_index_spec(arena, list[i])].dimensions)
}

/// `cmds` is exactly the command list a re-run of the layout engine produces
/// for workspace `ws` with the clients' current geometries read from `arena`:
/// one geometry command per listed client, in list order.
pub open spec fn relayout_cmds(ws: Workspace, arena: Seq<Client>, cmds: Seq<WmCommand>) -> bool {
    let dims = ws_dims(arena, ws.clients@);
    &&& cmds.len() == ws.clients@.len()
    &&& forall|i: int|
        0 <= i < cmds.len() ==> cmds[i] == WmCommand::MoveResize(
            ws.clients@[i],
            layout_cell(ws.spec_params(), ws.win_area, dims, i),
        )
}

/// The arena after a re-run of the layout engine for workspace `ws`: every
/// listed client's cached geometry equals its computed rectangle, everything
/// else is untouched.
pub open spec fn relayout_arena(ws: Workspace, arena: Seq<Client>, after: Seq<Client>) -> bool {
    let list = ws.clients@;
    let dims = ws_dims(arena, list);
    &&& after.len() == arena.len()
    &&& forall|k: int|
        0 <= k < arena.len() ==> #[trigger] after[k] == (if list.contains(arena[k].window) {
            Client {
                dimensions: layout_cell(
                    ws.spec_params(),
                    ws.win_area,
                    dims,
                    first_index_of(list, arena[k].window),
                ),
                ..arena[k]
            }
        } else {
            arena[k]
        })
}

/// On a list without duplicates, the first occurrence of `s[i]` is `i` itself.
pub proof fn lemma_first_index_self(s: Seq<u64>, i: int)
    requires
        forall|a: int, b: int| 0 <= a < b < s.len() ==> s[a] != s[b],
        0 <= i < s.len(),
    ensures
        first_index_of(s, s[i]) == i,
{
    assert(s.contains(s[i]));
    crate::workspace::lemma_first_index_of(s, s[i]);
    let fi = first_index_of(s, s[i]);
    if fi < i {
        assert(s[fi] == s[i]);
    } else if fi > i {
        assert(s[i] != s[i]);
    }
}

impl MarsWM {
    /// True when only the cached geometry of arena entries may differ between
    /// the two arenas; identity, hints and flags are untouched.
    pub open spec fn same_clients_but_dims(before: Seq<Client>, after: Seq<Client>) -> bool {
        &&& after.len() == before.len()
        &&& forall|k: int|
            0 <= k < before.len() ==> after[k] == (Client {
                dimensions: (#[trigger] after[k]).dimensions,
                ..before[k]
            })
    }

    /// Re-invokes the layout engine for workspace `w` of monitor `m` (the
    /// invocation policy runs this on every membership, parameter, and
    /// work-area change): the clients' cached geometries are updated and one
    /// geometry command per listed client is returned, in list order.
    pub fn relayout_workspace(&mut self, m: usize, w: usize) -> (cmds: Vec<WmCommand>)
        requires
            old(self).wf(),
            old(self).valid_ws(m as int, w as int),
        ensures
            final(self).wf(),
            final(self).monitors@ == old(self).monitors@,
            final(self).cur_monitor == old(self).cur_monitor,
            final(self).focused == old(self).focused,
            final(self).drag == old(self).drag,
            final(self).key_bindings@ == old(self).key_bindings@,
            final(self).button_bindings@ == old(self).button_bindings@,
            final(self).stacking@ == old(self).stacking@,
            Self::same_clients_but_dims(old(self).clients@, final(self).clients@),
            relayout_arena(
                old(self).monitors@[m as int].workspaces@[w as int],
                old(self).clients@,
                final(self).clients@,
            ),
            relayout_cmds(
                old(self).monitors@[m as int].workspaces@[w as int],
                old(self).clients@,
                cmds@,
            ),
    {
        let ghost oldwm = *self;
        let ids = copy_ids(&self.monitors[m].workspaces[w].clients);
        let ghost list = ids@;
        let n = ids.len();

        // gather the current geometries in list order
        let mut dims: Vec<Dimensions> = Vec::new();
        let mut i: usize = 0;
        while i < n
            invariant
                i <= n,
                *self == oldwm,
                oldwm.wf(),
                oldwm.valid_ws(m as int, w as int),
                list == oldwm.ws_clients(m as int, w as int),
                n == list.len(),
                ids@ == list,
                dims@.len() == i,
                forall|j: int| 0 <= j < i ==> dims@[j] == ws_dims(oldwm.clients@, list)[j],
            decreases n - i,
        {
            proof {
                assert(list[i as int] == oldwm.ws_clients(m as int, w as int)[i as int]);
                assert(oldwm.ws_clients(m as int, w as int).contains(list[i as int]));
            }
            match self.client_index(ids[i]) {
                Some(k) => {
                    dims.push(self.clients[k].dimensions);
                },
                None => {
                    proof {
                        assert(false);
                    }
                },
            }
            i = i + 1;
        }

        // one rectangle per client, from the layout engine
        let mon = &self.monitors[m];
        let ws = &mon.workspaces[w];
        proof {
            assert(oldwm.monitors@[m as int].wf());
        }
        let rects = ws.apply_layout(&dims);
        proof {
            assert(dims@ =~= ws_dims(oldwm.clients@, list));
        }

        // update the cached geometries and build the command list
        let ghost wsq = oldwm.monitors@[m as int].workspaces@[w as int];
        let mut cmds: Vec<WmCommand> = Vec::new();
        let mut i: usize = 0;
        while i < n
            invariant
                i <= n,
                oldwm.wf(),
                oldwm.valid_ws(m as int, w as int),
                wsq == oldwm.monitors@[m as int].workspaces@[w as int],
                list == oldwm.ws_clients(m as int, w as int),
                n == list.len(),
                ids@ == list,
                rects@.len() == n,
                forall|j: int|
                    0 <= j < n ==> rects@[j] == layout_cell(
                        wsq.spec_params(),
                        wsq.win_area,
                        ws_dims(oldwm.clients@, list),
                        j,
                    ),
                self.monitors@ == oldwm.monitors@,
                self.cur_monitor == oldwm.cur_monitor,
                self.focused == oldwm.focused,
                self.drag == oldwm.drag,
                self.key_bindings@ == oldwm.key_bindings@,
                self.button_bindings@ == oldwm.button_bindings@,
                self.stacking@ == oldwm.stacking@,
                self.clients@.len() == oldwm.clients@.len(),
                forall|k: int|
                    0 <= k < oldwm.clients@.len() ==> #[trigger] self.clients@[k] == (if list.contains(
                        oldwm.clients@[k].window,
                    ) && 0 <= first_index_of(list, oldwm.clients@[k].window) < i {
                        Client {
                            dimensions: rects@[first_index_of(list, oldwm.clients@[k].window)],
                            ..oldwm.clients@[k]
                        }
                    } else {
                        oldwm.clients@[k]
                    }),
                cmds@.len() == i,
                forall|j: int|
                    0 <= j < i ==> cmds@[j] == WmCommand::MoveResize(list[j], rects@[j]),
            decreases n - i,
        {
            proof {
                assert(list[i as int] == oldwm.ws_clients(m as int, w as int)[i as int]);
                assert(oldwm.ws_clients(m as int, w as int).contains(list[i as int]));
                assert(oldwm.spec_is_managed(list[i as int]));
                assert forall|k2: int| 0 <= k2 < oldwm.clients@.len() implies (
                #[trigger] self.clients@[k2]).window == oldwm.clients@[k2].window by {}
                assert forall|x: u64| oldwm.spec_is_managed(x) implies self.spec_is_managed(
                    x,
                ) by {
                    let k = choose|k: int|
                        0 <= k < oldwm.clients@.len() && (#[trigger] oldwm.clients@[k]).window
                            == x;
                    assert(self.clients@[k].window == x);
                }
                // the list has no duplicates, so this entry's first occurrence
                // is this very position
                assert(oldwm.monitors@[m as int].wf());
                assert(wsq.wf());
                lemma_first_index_self(list, i as int);
            }
            let rect = rects[i];
            match self.client_index(ids[i]) {
                Some(k) => {
                    let ghost pre = self.clients@;
                    proof {
                        assert(pre[k as int].window == oldwm.clients@[k as int].window);
                        assert(oldwm.clients@[k as int].window == list[i as int]);
                        assert(first_index_of(list, oldwm.clients@[k as int].window) == i);
                        assert(pre[k as int] == oldwm.clients@[k as int]);
                    }
                    let c = &mut self.clients[k];
                    c.move_resize(rect.x, rect.y, rect.w, rect.h);
                    proof {
                        assert forall|k2: int|
                            0 <= k2 < oldwm.clients@.len() implies #[trigger] self.clients@[k2]
                            == (if list.contains(oldwm.clients@[k2].window) && 0
                            <= first_index_of(list, oldwm.clients@[k2].window) < i + 1 {
                            Client {
                                dimensions: rects@[first_index_of(
                                    list,
                                    oldwm.clients@[k2].window,
                                )],
                                ..oldwm.clients@[k2]
                            }
                        } else {
                            oldwm.clients@[k2]
                        }) by {
                            if k2 == k {
                            } else {
                                assert(self.clients@[k2] == pre[k2]);
                                if list.contains(oldwm.clients@[k2].window) {
                                    crate::workspace::lemma_first_index_of(
                                        list,
                                        oldwm.clients@[k2].window,
                                    );
                                    let fi = first_index_of(list, oldwm.clients@[k2].window);
                                    if fi == i {
                                        assert(list[fi] == oldwm.clients@[k2].window);
                                        assert(oldwm.clients@[k as int].window
                                            == oldwm.clients@[k2].window);
                                    }
                                }
                            }
                        }
                    }
                },
                None => {
                    proof {
                        assert(false);
                    }
                },
            }
            cmds.push(WmCommand::MoveResize(ids[i], rect));
            i = i + 1;
        }
        proof {
            assert forall|k: int|
                0 <= k < oldwm.clients@.len() && list.contains(
                    oldwm.clients@[k].window,
                ) implies first_index_of(list, oldwm.clients@[k].window) < n by {
                crate::workspace::lemma_first_index_of(list, oldwm.clients@[k].window);
            }
            assert forall|k: int| 0 <= k < oldwm.clients@.len() implies (
            #[trigger] self.clients@[k]).window == oldwm.clients@[k].window by {}
            lemma_same_windows_wf(oldwm, *self);
            assert forall|k: int|
                0 <= k < oldwm.clients@.len() implies #[trigger] self.clients@[k] == (
            if wsq.clients@.contains(oldwm.clients@[k].window) {
                Client {
                    dimensions: layout_cell(
                        wsq.spec_params(),
                        wsq.win_area,
                        ws_dims(oldwm.clients@, wsq.clients@),
                        first_index_of(wsq.clients@, oldwm.clients@[k].window),
                    ),
                    ..oldwm.clients@[k]
                }
            } else {
                oldwm.clients@[k]
            }) by {
                if list.contains(oldwm.clients@[k].window) {
                    crate::workspace::lemma_first_index_of(list, oldwm.clients@[k].window);
                    let fi = first_index_of(list, oldwm.clients@[k].window);
                    assert(rects@[fi] == layout_cell(
                        wsq.spec_params(),
                        wsq.win_area,
                        ws_dims(oldwm.clients@, list),
                        fi,
                    ));
                }
            }
            assert(relayout_arena(wsq, oldwm.clients@, self.clients@));
        }
        cmds
    }
}

/// A core whose monitors and stacking order are unchanged and whose arena
/// entries keep their window handles (geometry or flags may differ) is still
/// well-formed.
pub proof fn lemma_same_windows_wf(before: MarsWM, after: MarsWM)
    requires
        before.wf(),
        after.monitors@ == before.monitors@,
        after.cur_monitor < after.monitors@.len(),
        after.stacking@ == before.stacking@,
        after.clients@.len() == before.clients@.len(),
        forall|k: int|
            0 <= k < before.clients@.len() ==> (#[trigger] after.clients@[k]).window
                == before.clients@[k].window,
    ensures
        after.wf(),
{
    lemma_stacking_ok_same(before.stacking@, before.clients@, after.clients@);
    lemma_same_windows_stacking_wf(before, after);
}

/// As `lemma_same_windows_wf`, but for a permuted stacking order whose
/// soundness the caller establishes.
pub proof fn lemma_same_windows_stacking_wf(before: MarsWM, after: MarsWM)
    requires
        before.wf(),
        after.monitors@ == before.monitors@,
        after.cur_monitor < after.monitors@.len(),
        after.clients@.len() == before.clients@.len(),
        forall|k: int|
            0 <= k < before.clients@.len() ==> (#[trigger] after.clients@[k]).window
                == before.clients@[k].window,
        stacking_ok(after.stacking@, after.clients@),
    ensures
        after.wf(),
{
    assert forall|k: int, l: int| 0 <= k < l < after.clients@.len() implies (
    #[trigger] after.clients@[k]).window != (#[trigger] after.clients@[l]).window by {
        assert(after.clients@[k].window == before.clients@[k].window);
        assert(after.clients@[l].window == before.clients@[l].window);
    }
    assert forall|a: int, b: int, c: int, d: int, x: u64|
        after.valid_ws(a, b) && after.valid_ws(c, d) && (a != c || b != d)
            && #[trigger] after.ws_clients(a, b).contains(x) implies !(#[trigger] after.ws_clients(
        c,
        d,
    ).contains(x)) by {
        assert(after.ws_clients(a, b) == before.ws_clients(a, b));
        assert(after.ws_clients(c, d) == before.ws_clients(c, d));
        assert(before.ws_clients(a, b).contains(x));
    }
    assert forall|m: int, w: int, x: u64|
        after.valid_ws(m, w) && #[trigger] after.ws_clients(m, w).contains(x) implies after.spec_is_managed(
        x,
    ) by {
        assert(before.ws_clients(m, w).contains(x));
        assert(before.spec_is_managed(x));
        let k = choose|k: int|
            0 <= k < before.clients@.len() && (#[trigger] before.clients@[k]).window == x;
        assert(after.clients@[k].window == x);
    }
}


/// The client record created for a newly managed window, after its size
/// hints are applied.
pub open spec fn managed_client(
    window: u64,
    frame: u64,
    dimensions: Dimensions,
    min_w: u32,
    min_h: u32,
    inc_w: u32,
    inc_h: u32,
    transient_for: Option<u64>,
    supports_delete: bool,
) -> Client {
    Client {
        window,
        frame,
        dimensions: Dimensions {
            x: dimensions.x,
            y: dimensions.y,
            w: crate::client::hinted_len(dimensions.w, min_w, inc_w),
            h: crate::client::hinted_len(dimensions.h, min_h, inc_h),
        },
        min_w,
        min_h,
        inc_w,
        inc_h,
        transient_for,
        supports_delete,
        floating: false,
        fullscreen: false,
        urgent: false,
        reparenting: true,
    }
}

impl MarsWM {
    /// Classifies a newly appearing top-level window: an override-redirect
    /// window and an already managed one are left alone; a panel/dock window
    /// is mapped and raised but never managed; everything else is managed.
    pub fn classify_new_window(&self, window: u64, override_redirect: bool, is_dock: bool) -> (r:
        ManageDecision)
        ensures
            override_redirect ==> r == ManageDecision::Ignore,
            !override_redirect && is_dock ==> r == ManageDecision::ShowDock,
            !override_redirect && !is_dock && self.spec_is_managed(window) ==> r
                == ManageDecision::Ignore,
            !override_redirect && !is_dock && !self.spec_is_managed(window) ==> r
                == ManageDecision::Manage,
    {
        if override_redirect {
            return ManageDecision::Ignore;
        }
        if is_dock {
            return ManageDecision::ShowDock;
        }
        match self.client_index(window) {
            Some(_) => ManageDecision::Ignore,
            None => ManageDecision::Manage,
        }
    }

    /// Accepts a window for management: a client record is created with its
    /// size hints applied, attached to the front of the visible workspace of
    /// the focused monitor, the layout is re-run, and the client list is
    /// re-exported.
    pub fn manage(
        &mut self,
        window: u64,
        frame: u64,
        dimensions: Dimensions,
        min_w: u32,
        min_h: u32,
        inc_w: u32,
        inc_h: u32,
        transient_for: Option<u64>,
        supports_delete: bool,
    ) -> (cmds: Vec<WmCommand>)
        requires
            old(self).wf(),
            !old(self).spec_is_managed(window),
        ensures
            final(self).wf(),
            final(self).spec_is_managed(window),
            final(self).clients@.len() == old(self).clients@.len() + 1,
            final(self).clients@[old(self).clients@.len() as int] == (Client {
                dimensions: final(self).clients@[old(self).clients@.len() as int].dimensions,
                ..managed_client(
                    window,
                    frame,
                    dimensions,
                    min_w,
                    min_h,
                    inc_w,
                    inc_h,
                    transient_for,
                    supports_delete,
                )
            }),
            forall|k: int|
                0 <= k < old(self).clients@.len() ==> final(self).clients@[k] == (Client {
                    dimensions: (#[trigger] final(self).clients@[k]).dimensions,
                    ..old(self).clients@[k]
                }),
            ({
                let cm = old(self).cur_monitor as int;
                let cw = old(self).monitors@[cm].cur_workspace as int;
                &&& final(self).ws_clients(cm, cw) == seq![window] + old(self).ws_clients(cm, cw)
                &&& forall|m: int, w: int|
                    old(self).valid_ws(m, w) && (m != cm || w != cw)
                        ==> #[trigger] final(self).ws_clients(m, w) == old(self).ws_clients(m, w)
            }),
            final(self).cur_monitor == old(self).cur_monitor,
            final(self).focused == old(self).focused,
            final(self).drag == old(self).drag,
            final(self).stacking@ == old(self).stacking@.push(window),
            ({
                let cw = old(self).monitors@[old(self).cur_monitor as int].cur_workspace as int;
                let ws1 = final(self).monitors@[old(self).cur_monitor as int].workspaces@[cw];
                let arena1 = old(self).clients@.push(
                    managed_client(
                        window,
                        frame,
                        dimensions,
                        min_w,
                        min_h,
                        inc_w,
                        inc_h,
                        transient_for,
                        supports_delete,
                    ),
                );
                &&& cmds@.len() == ws1.clients@.len() + 2
                &&& relayout_cmds(ws1, arena1, cmds@.subrange(0, ws1.clients@.len() as int))
            }),
            cmds@[cmds@.len() - 2] matches WmCommand::ExportClientList(data) && data@.len()
                == final(self).clients@.len() && (forall|k: int|
                0 <= k < data@.len() ==> data@[k] == (#[trigger] final(self).clients@[k]).window),
            cmds@[cmds@.len() - 1] matches WmCommand::ExportClientListStacking(sdata) && sdata@
                == final(self).stacking@,
    {
        let ghost wm0 = *self;
        let mut c = Client::new(window, frame, dimensions);
        c.set_size_hints(min_w, min_h, inc_w, inc_h);
        c.apply_size_hints();
        c.transient_for = transient_for;
        c.supports_delete = supports_delete;
        c.set_reparenting(true);
        let ghost newc = c;
        self.clients.push(c);
        self.stacking.push(window);
        proof {
            lemma_stacking_ok_push(wm0.stacking@, wm0.clients@, newc);
        }
        let cm = self.cur_monitor;
        let mon = &mut self.monitors[cm];
        let cw = mon.cur_workspace;
        proof {
            assert(wm0.monitors@[cm as int].wf());
            assert(!wm0.ws_clients(cm as int, cw as int).contains(window)) by {
                if wm0.ws_clients(cm as int, cw as int).contains(window) {
                    assert(wm0.spec_is_managed(window));
                }
            }
        }
        let ws = &mut mon.workspaces[cw];
        ws.attach_client(window);
        proof {
            let s1 = *self;
            // the arena: the old entries plus the fresh one at the end
            assert forall|x: u64| wm0.spec_is_managed(x) implies s1.spec_is_managed(x) by {
                let k = choose|k: int|
                    0 <= k < wm0.clients@.len() && (#[trigger] wm0.clients@[k]).window == x;
                assert(s1.clients@[k].window == x);
            }
            assert(s1.clients@[wm0.clients@.len() as int].window == window);
            assert(s1.spec_is_managed(window));
            assert forall|k: int, l: int| 0 <= k < l < s1.clients@.len() implies (
            #[trigger] s1.clients@[k]).window != (#[trigger] s1.clients@[l]).window by {
                if l < wm0.clients@.len() {
                } else {
                    assert(s1.clients@[l].window == window);
                    assert(s1.clients@[k] == wm0.clients@[k]);
                    if wm0.clients@[k].window == window {
                        assert(wm0.spec_is_managed(window));
                    }
                }
            }
            // the workspace graph: one list gained the fresh window at the front
            assert(s1.ws_clients(cm as int, cw as int) =~= seq![window] + wm0.ws_clients(
                cm as int,
                cw as int,
            ));
            assert forall|m: int, w: int|
                s1.valid_ws(m, w) && (m != cm || w != cw) implies #[trigger] s1.ws_clients(m, w)
                == wm0.ws_clients(m, w) by {
                if m != cm {
                    assert(s1.monitors@[m] == wm0.monitors@[m]);
                } else {
                    assert(s1.monitors@[m].workspaces@[w] == wm0.monitors@[m].workspaces@[w]);
                }
            }
            assert forall|a: int, b: int, c2: int, d: int, x: u64|
                s1.valid_ws(a, b) && s1.valid_ws(c2, d) && (a != c2 || b != d)
                    && #[trigger] s1.ws_clients(a, b).contains(x) implies !(
            #[trigger] s1.ws_clients(c2, d).contains(x)) by {
                if a == cm && b == cw {
                    if x == window {
                        assert(wm0.ws_clients(c2, d) == s1.ws_clients(c2, d));
                        if wm0.ws_clients(c2, d).contains(window) {
                            assert(wm0.spec_is_managed(window));
                        }
                    } else {
                        let i = choose|i: int|
                            0 <= i < s1.ws_clients(a, b).len() && s1.ws_clients(a, b)[i] == x;
                        assert(wm0.ws_clients(a, b)[i - 1] == x);
                        assert(wm0.ws_clients(a, b).contains(x));
                    }
                } else if c2 == cm && d == cw {
                    assert(wm0.ws_clients(a, b).contains(x));
                    if s1.ws_clients(c2, d).contains(x) {
                        let i = choose|i: int|
                            0 <= i < s1.ws_clients(c2, d).len() && s1.ws_clients(c2, d)[i] == x;
                        if i == 0 {
                            assert(x == window);
                            assert(wm0.spec_is_managed(window));
                        } else {
                            assert(wm0.ws_clients(c2, d)[i - 1] == x);
                            assert(wm0.ws_clients(c2, d).contains(x));
                        }
                    }
                } else {
                    assert(wm0.ws_clients(a, b).contains(x));
                    assert(s1.ws_clients(c2, d) == wm0.ws_clients(c2, d));
                }
            }
            assert forall|m: int, w: int, x: u64|
                s1.valid_ws(m, w) && #[trigger] s1.ws_clients(m, w).contains(x) implies s1.spec_is_managed(
                x,
            ) by {
                if m == cm && w == cw {
                    let i = choose|i: int|
                        0 <= i < s1.ws_clients(m, w).len() && s1.ws_clients(m, w)[i] == x;
                    if i == 0 {
                    } else {
                        assert(wm0.ws_clients(m, w)[i - 1] == x);
                        assert(wm0.ws_clients(m, w).contains(x));
                    }
                } else {
                    assert(wm0.ws_clients(m, w).contains(x));
                }
            }
            // monitor well-formedness after the list update
            assert forall|m: int| 0 <= m < s1.monitors@.len() implies (
            #[trigger] s1.monitors@[m]).wf() by {
                if m == cm {
                    assert forall|w: int|
                        0 <= w < s1.monitors@[m].workspaces@.len() implies (
                    #[trigger] s1.monitors@[m].workspaces@[w]).wf() by {
                        if w != cw {
                            assert(s1.monitors@[m].workspaces@[w]
                                == wm0.monitors@[m].workspaces@[w]);
                        }
                    }
                }
            }
            assert(s1.wf());
        }
        let mut cmds = self.relayout_workspace(cm, cw);
        let data = self.client_list_data();
        cmds.push(WmCommand::ExportClientList(data));
        let sdata = self.stacking_data();
        cmds.push(WmCommand::ExportClientListStacking(sdata));
        cmds
    }

    /// The data of the stacking-order export: every managed window, bottom to
    /// top.
    pub fn stacking_data(&self) -> (r: Vec<u64>)
        ensures
            r@ == self.stacking@,
    {
        copy_ids(&self.stacking)
    }
}


impl MarsWM {
    /// The workspace listing the client, if any.
    pub fn find_client_workspace(&self, window: u64) -> (r: Option<(usize, usize)>)
        ensures
            match r {
                Some(p) => self.valid_ws(p.0 as int, p.1 as int) && self.ws_clients(
                    p.0 as int,
                    p.1 as int,
                ).contains(window),
                None => forall|m: int, w: int|
                    self.valid_ws(m, w) ==> !(#[trigger] self.ws_clients(m, w)).contains(window),
            },
    {
        let nm = self.monitors.len();
        let mut m: usize = 0;
        while m < nm
            invariant
                m <= nm,
                nm == self.monitors@.len(),
                forall|a: int, w: int|
                    0 <= a < m && self.valid_ws(a, w) ==> !(#[trigger] self.ws_clients(
                        a,
                        w,
                    )).contains(window),
            decreases nm - m,
        {
            match self.monitors[m].workspace_of_client(window) {
                Some(w) => {
                    return Some((m, w));
                },
                None => {},
            }
            m = m + 1;
        }
        None
    }

    /// Withdraws a window from management: it is detached from the workspace
    /// listing it, its arena entry is removed, the focus reference is cleared
    /// if it pointed there, the layout of the affected workspace is re-run,
    /// and the client list is re-exported. A window that is not managed is
    /// left alone.
    pub fn unmanage(&mut self, window: u64) -> (cmds: Vec<WmCommand>)
        requires
            old(self).wf(),
        ensures
            final(self).wf(),
            !final(self).spec_is_managed(window),
            !old(self).spec_is_managed(window) ==> *final(self) == *old(self) && cmds@.len() == 0,
            old(self).spec_is_managed(window) ==> {
                let k = client_index_spec(old(self).clients@, window);
                &&& MarsWM::same_clients_but_dims(
                    old(self).clients@.remove(k),
                    final(self).clients@,
                )
                &&& final(self).focused == (if old(self).focused == Some(window) {
                    None::<u64>
                } else {
                    old(self).focused
                })
                &&& final(self).stacking@ == old(self).stacking@.remove(
                    first_index_of(old(self).stacking@, window),
                )
                &&& (forall|m0: int, w0: int|
                    old(self).valid_ws(m0, w0) && #[trigger] old(self).ws_clients(
                        m0,
                        w0,
                    ).contains(window) ==> ({
                        let ws1 = final(self).monitors@[m0].workspaces@[w0];
                        &&& cmds@.len() == ws1.clients@.len() + 3
                        &&& relayout_cmds(
                            ws1,
                            old(self).clients@.remove(k),
                            cmds@.subrange(0, ws1.clients@.len() as int),
                        )
                    }))
                &&& ((forall|m0: int, w0: int|
                    old(self).valid_ws(m0, w0) ==> !(#[trigger] old(self).ws_clients(
                        m0,
                        w0,
                    )).contains(window)) ==> cmds@.len() == 3)
                &&& cmds@.len() >= 3
                &&& cmds@[cmds@.len() - 3] == WmCommand::DestroyFrame(
                    old(self).clients@[k].frame,
                )
                &&& (cmds@[cmds@.len() - 2] matches WmCommand::ExportClientList(data)
                    && data@.len() == final(self).clients@.len() && (forall|j: int|
                    0 <= j < data@.len() ==> data@[j] == (
                    #[trigger] final(self).clients@[j]).window))
                &&& (cmds@[cmds@.len() - 1] matches WmCommand::ExportClientListStacking(sdata)
                    && sdata@ == final(self).stacking@)
            },
    {
        let ghost wm0 = *self;
        let k_opt = self.client_index(window);
        match k_opt {
            None => {
                Vec::new()
            },
            Some(k) => {
                let frame = self.clients[k].frame;
                let listed = self.find_client_workspace(window);
                // remove the arena entry
                self.clients.remove(k);
                proof {
                    lemma_client_index_spec(wm0.clients@, window);
                    assert forall|k2: int, l: int| 0 <= k2 < l < self.clients@.len() implies (
                    #[trigger] self.clients@[k2]).window != (
                    #[trigger] self.clients@[l]).window by {
                        let ok = if k2 < k {
                            k2
                        } else {
                            k2 + 1
                        };
                        let ol = if l < k {
                            l
                        } else {
                            l + 1
                        };
                        assert(self.clients@[k2] == wm0.clients@[ok]);
                        assert(self.clients@[l] == wm0.clients@[ol]);
                    }
                    assert(!self.spec_is_managed(window)) by {
                        if self.spec_is_managed(window) {
                            let j = choose|j: int|
                                0 <= j < self.clients@.len() && (
                                #[trigger] self.clients@[j]).window == window;
                            let oj = if j < k {
                                j
                            } else {
                                j + 1
                            };
                            assert(wm0.clients@[oj].window == window);
                            assert(wm0.clients@[k as int].window == window);
                            assert(oj != k);
                        }
                    }
                }
                // drop the window from the stacking order as well
                proof {
                    assert(wm0.stacking@.contains(window)) by {
                        assert(wm0.clients@[k as int].window == window);
                    }
                }
                let sidx = match position_in(&self.stacking, window) {
                    Some(i) => i,
                    None => {
                        proof {
                            assert(false);
                        }
                        0
                    },
                };
                proof {
                    crate::workspace::lemma_first_index_of(self.stacking@, window);
                }
                self.stacking.remove(sidx);
                // clear the focus reference if it pointed at this client
                let clear = match self.focused {
                    Some(f) => f == window,
                    None => false,
                };
                if clear {
                    self.focused = None;
                }
                match listed {
                    None => {
                        proof {
                            lemma_unmanage_unlisted_wf(wm0, *self, window, k as int);
                        }
                        let mut cmds: Vec<WmCommand> = Vec::new();
                        cmds.push(WmCommand::DestroyFrame(frame));
                        cmds.push(WmCommand::ExportClientList(self.client_list_data()));
                        cmds.push(WmCommand::ExportClientListStacking(self.stacking_data()));
                        cmds
                    },
                    Some((m, w)) => {
                        let mon = &mut self.monitors[m];
                        let ws = &mut mon.workspaces[w];
                        proof {
                            assert(wm0.monitors@[m as int].wf());
                        }
                        ws.detach_client(window);
                        proof {
                            lemma_unmanage_listed_wf(wm0, *self, window, k as int, m as int, w as int);
                        }
                        let ghost rel = *self;
                        let mut cmds = self.relayout_workspace(m, w);
                        let ghost relcmds = cmds@;
                        cmds.push(WmCommand::DestroyFrame(frame));
                        cmds.push(WmCommand::ExportClientList(self.client_list_data()));
                        cmds.push(WmCommand::ExportClientListStacking(self.stacking_data()));
                        proof {
                            assert forall|m0: int, w0: int|
                                wm0.valid_ws(m0, w0) && #[trigger] wm0.ws_clients(
                                    m0,
                                    w0,
                                ).contains(window) implies m0 == m && w0 == w by {
                                if m0 != m || w0 != w {
                                    assert(wm0.ws_clients(m as int, w as int).contains(window));
                                }
                            }
                            assert(cmds@.subrange(0, relcmds.len() as int) =~= relcmds);
                        }
                        cmds
                    },
                }
            },
        }
    }
}

/// After removing the arena entry of a window that no workspace lists, the
/// graph is still well-formed.
pub proof fn lemma_unmanage_unlisted_wf(before: MarsWM, after: MarsWM, window: u64, k: int)
    requires
        before.wf(),
        0 <= k < before.clients@.len(),
        before.clients@[k].window == window,
        forall|m: int, w: int|
            before.valid_ws(m, w) ==> !(#[trigger] before.ws_clients(m, w)).contains(window),
        after.monitors@ == before.monitors@,
        after.cur_monitor == before.cur_monitor,
        after.clients@ == before.clients@.remove(k),
        after.stacking@ == before.stacking@.remove(
            first_index_of(before.stacking@, window),
        ),
        forall|k2: int, l: int|
            0 <= k2 < l < after.clients@.len() ==> (#[trigger] after.clients@[k2]).window != (
            #[trigger] after.clients@[l]).window,
    ensures
        after.wf(),
{
    lemma_stacking_ok_remove(before.stacking@, before.clients@, k, window);
    assert forall|a: int, b: int, c: int, d: int, x: u64|
        after.valid_ws(a, b) && after.valid_ws(c, d) && (a != c || b != d)
            && #[trigger] after.ws_clients(a, b).contains(x) implies !(#[trigger] after.ws_clients(
        c,
        d,
    ).contains(x)) by {
        assert(before.ws_clients(a, b).contains(x));
        if after.ws_clients(c, d).contains(x) {
            assert(before.ws_clients(c, d).contains(x));
        }
    }
    assert forall|m: int, w: int, x: u64|
        after.valid_ws(m, w) && #[trigger] after.ws_clients(m, w).contains(x) implies after.spec_is_managed(
        x,
    ) by {
        assert(before.ws_clients(m, w).contains(x));
        assert(before.spec_is_managed(x));
        assert(x != window);
        let j = choose|j: int|
            0 <= j < before.clients@.len() && (#[trigger] before.clients@[j]).window == x;
        let nj = if j < k {
            j
        } else {
            j - 1
        };
        assert(after.clients@[nj].window == x);
    }
}

/// After detaching a window from the single workspace listing it and removing
/// its arena entry, the graph is still well-formed.
pub proof fn lemma_unmanage_listed_wf(
    before: MarsWM,
    after: MarsWM,
    window: u64,
    k: int,
    m: int,
    w: int,
)
    requires
        before.wf(),
        0 <= k < before.clients@.len(),
        before.clients@[k].window == window,
        before.valid_ws(m, w),
        before.ws_clients(m, w).contains(window),
        after.cur_monitor == before.cur_monitor,
        after.clients@ == before.clients@.remove(k),
        after.stacking@ == before.stacking@.remove(
            first_index_of(before.stacking@, window),
        ),
        forall|k2: int, l: int|
            0 <= k2 < l < after.clients@.len() ==> (#[trigger] after.clients@[k2]).window != (
            #[trigger] after.clients@[l]).window,
        after.monitors@.len() == before.monitors@.len(),
        after.ws_clients(m, w) == before.ws_clients(m, w).remove(
            first_index_of(before.ws_clients(m, w), window),
        ),
        after.monitors@[m] == (Monitor {
            workspaces: after.monitors@[m].workspaces,
            ..before.monitors@[m]
        }),
        after.monitors@[m].workspaces@ == before.monitors@[m].workspaces@.update(
            w,
            after.monitors@[m].workspaces@[w],
        ),
        after.monitors@[m].workspaces@[w] == (Workspace {
            clients: after.monitors@[m].workspaces@[w].clients,
            ..before.monitors@[m].workspaces@[w]
        }),
        after.monitors@[m].workspaces@[w].wf(),
        forall|a: int| 0 <= a < before.monitors@.len() && a != m ==> after.monitors@[a]
            == before.monitors@[a],
    ensures
        after.wf(),
{
    lemma_stacking_ok_remove(before.stacking@, before.clients@, k, window);
    crate::workspace::lemma_first_index_of(before.ws_clients(m, w), window);
    let fi = first_index_of(before.ws_clients(m, w), window);
    assert forall|a: int| 0 <= a < after.monitors@.len() implies (
    #[trigger] after.monitors@[a]).wf() by {
        if a == m {
            assert forall|b: int|
                0 <= b < after.monitors@[a].workspaces@.len() implies (
            #[trigger] after.monitors@[a].workspaces@[b]).wf() by {
                if b != w {
                    assert(after.monitors@[a].workspaces@[b]
                        == before.monitors@[a].workspaces@[b]);
                    assert(before.monitors@[a].wf());
                }
            }
            assert(before.monitors@[a].wf());
        } else {
            assert(after.monitors@[a] == before.monitors@[a]);
            assert(before.monitors@[a].wf());
        }
    }
    assert forall|a: int, b: int, x: u64|
        after.valid_ws(a, b) && #[trigger] after.ws_clients(a, b).contains(x) implies before.ws_clients(
        a,
        b,
    ).contains(x) by {
        if a == m && b == w {
            let i = choose|i: int|
                0 <= i < after.ws_clients(a, b).len() && after.ws_clients(a, b)[i] == x;
            let oi = if i < fi {
                i
            } else {
                i + 1
            };
            assert(before.ws_clients(a, b)[oi] == x);
        } else {
            assert(after.ws_clients(a, b) == before.ws_clients(a, b));
        }
    }
    assert forall|a: int, b: int, c: int, d: int, x: u64|
        after.valid_ws(a, b) && after.valid_ws(c, d) && (a != c || b != d)
            && #[trigger] after.ws_clients(a, b).contains(x) implies !(#[trigger] after.ws_clients(
        c,
        d,
    ).contains(x)) by {
        assert(before.ws_clients(a, b).contains(x));
        if after.ws_clients(c, d).contains(x) {
            assert(before.ws_clients(c, d).contains(x));
        }
    }
    assert forall|a: int, b: int, x: u64|
        after.valid_ws(a, b) && #[trigger] after.ws_clients(a, b).contains(x) implies after.spec_is_managed(
        x,
    ) by {
        assert(before.ws_clients(a, b).contains(x));
        assert(before.spec_is_managed(x));
        assert(x != window) by {
            if x == window {
                if a == m && b == w {
                    // the detached list no longer holds the window: the old
                    // list held it only once, at its first index
                    let i = choose|i: int|
                        0 <= i < after.ws_clients(a, b).len() && after.ws_clients(a, b)[i] == x;
                    let oi = if i < fi {
                        i
                    } else {
                        i + 1
                    };
                    assert(before.ws_clients(a, b)[oi] == window);
                    assert(before.monitors@[m].wf());
                    assert(before.monitors@[m].workspaces@[w].wf());
                    assert(before.ws_clients(m, w)[fi] == window);
                    if oi < fi {
                    } else {
                        assert(fi < oi);
                    }
                } else {
                    assert(before.ws_clients(a, b).contains(window));
                    assert(before.ws_clients(m, w).contains(window));
                }
            }
        }
        let j = choose|j: int|
            0 <= j < before.clients@.len() && (#[trigger] before.clients@[j]).window == x;
        let nj = if j < k {
            j
        } else {
            j - 1
        };
        assert(j != k);
        assert(after.clients@[nj].window == x);
    }
}


impl MarsWM {
    /// Switches the visible workspace of the focused monitor (an index that
    /// resolves to no workspace is ignored): the current-workspace property
    /// is re-exported with the new index and the workspace's layout is
    /// re-applied against the monitor's work area.
    pub fn switch_workspace(&mut self, idx: u32) -> (cmds: Vec<WmCommand>)
        requires
            old(self).wf(),
        ensures
            final(self).wf(),
            idx >= old(self).monitors@[old(self).cur_monitor as int].workspaces@.len()
                ==> *final(self) == *old(self) && cmds@.len() == 0,
            idx < old(self).monitors@[old(self).cur_monitor as int].workspaces@.len() ==> {
                let cm = old(self).cur_monitor as int;
                let ws = old(self).monitors@[cm].workspaces@[idx as int];
                let dims = ws_dims(old(self).clients@, ws.clients@);
                &&& final(self).monitors@[cm].cur_workspace == idx
                &&& final(self).monitors@[cm].prev_workspace == old(self).monitors@[cm].cur_workspace
                &&& final(self).monitors@[cm].workspaces@ == old(self).monitors@[cm].workspaces@
                &&& MarsWM::same_clients_but_dims(old(self).clients@, final(self).clients@)
                &&& cmds@.len() == 1 + ws.clients@.len()
                &&& cmds@[0] == WmCommand::ExportCurrentWorkspace(idx as u64)
                &&& forall|i: int|
                    0 <= i < ws.clients@.len() ==> cmds@[1 + i] == WmCommand::MoveResize(
                        ws.clients@[i],
                        layout_cell(ws.spec_params(), ws.win_area, dims, i),
                    )
            },
            final(self).cur_monitor == old(self).cur_monitor,
            final(self).focused == old(self).focused,
            final(self).drag == old(self).drag,
    {
        let cm = self.cur_monitor;
        let count = self.monitors[cm].workspace_count();
        if idx as usize >= count {
            return Vec::new();
        }
        let ghost wm0 = *self;
        let mon = &mut self.monitors[cm];
        mon.switch_workspace(idx as usize);
        proof {
            assert(wm0.monitors@[cm as int].wf());
            assert forall|a: int| 0 <= a < self.monitors@.len() implies (
            #[trigger] self.monitors@[a]).wf() by {
                if a != cm {
                    assert(self.monitors@[a] == wm0.monitors@[a]);
                }
            }
            assert forall|a: int, b: int|
                self.valid_ws(a, b) implies #[trigger] self.ws_clients(a, b) == wm0.ws_clients(
                a,
                b,
            ) by {
                if a != cm {
                    assert(self.monitors@[a] == wm0.monitors@[a]);
                }
            }
            assert forall|a: int, b: int, c: int, d: int, x: u64|
                self.valid_ws(a, b) && self.valid_ws(c, d) && (a != c || b != d)
                    && #[trigger] self.ws_clients(a, b).contains(x) implies !(
            #[trigger] self.ws_clients(c, d).contains(x)) by {
                assert(wm0.ws_clients(a, b).contains(x));
                if self.ws_clients(c, d).contains(x) {
                    assert(wm0.ws_clients(c, d).contains(x));
                }
            }
            assert forall|m: int, w: int, x: u64|
                self.valid_ws(m, w) && #[trigger] self.ws_clients(m, w).contains(x) implies self.spec_is_managed(
                x,
            ) by {
                assert(wm0.ws_clients(m, w).contains(x));
            }
        }
        let mut cmds: Vec<WmCommand> = Vec::new();
        cmds.push(WmCommand::ExportCurrentWorkspace(idx as u64));
        let mut rest = self.relayout_workspace(cm, idx as usize);
        let ghost rest0 = rest@;
        cmds.append(&mut rest);
        proof {
            assert(cmds@ =~= seq![WmCommand::ExportCurrentWorkspace(idx as u64)] + rest0);
        }
        cmds
    }

    /// Records that a frame gained input focus: the single focused-client
    /// reference is updated and the active window is re-exported. A frame
    /// no client owns is ignored.
    pub fn handle_focus(&mut self, frame: u64) -> (cmds: Vec<WmCommand>)
        requires
            old(self).wf(),
        ensures
            final(self).wf(),
            ({
                match spec_client_by_frame(old(self).clients@, frame) {
                    Some(window) => {
                        &&& *final(self) == (MarsWM { focused: Some(window), ..*old(self) })
                        &&& cmds@ == seq![WmCommand::ExportActiveWindow(window)]
                    },
                    None => *final(self) == *old(self) && cmds@.len() == 0,
                }
            }),
    {
        match self.client_index_by_frame(frame) {
            Some(k) => {
                let window = self.clients[k].window;
                proof {
                    lemma_client_by_frame(self.clients@, frame, k as int);
                }
                self.focused = Some(window);
                let mut cmds: Vec<WmCommand> = Vec::new();
                cmds.push(WmCommand::ExportActiveWindow(window));
                proof {
                    assert(cmds@ =~= seq![WmCommand::ExportActiveWindow(window)]);
                    lemma_same_windows_wf(*old(self), *self);
                }
                cmds
            },
            None => {
                proof {
                    lemma_client_by_frame_none(self.clients@, frame);
                }
                Vec::new()
            },
        }
    }

    /// Records that a frame lost input focus: the focused-client reference is
    /// cleared if it pointed at that frame's client, and the active window is
    /// re-exported as none.
    pub fn handle_unfocus(&mut self, frame: u64) -> (cmds: Vec<WmCommand>)
        requires
            old(self).wf(),
        ensures
            final(self).wf(),
            ({
                match spec_client_by_frame(old(self).clients@, frame) {
                    Some(window) => {
                        if old(self).focused == Some(window) {
                            &&& *final(self) == (MarsWM { focused: None, ..*old(self) })
                            &&& cmds@ == seq![WmCommand::ExportActiveWindow(0u64)]
                        } else {
                            &&& *final(self) == *old(self)
                            &&& cmds@.len() == 0
                        }
                    },
                    None => *final(self) == *old(self) && cmds@.len() == 0,
                }
            }),
    {
        match self.client_index_by_frame(frame) {
            Some(k) => {
                let window = self.clients[k].window;
                proof {
                    lemma_client_by_frame(self.clients@, frame, k as int);
                }
                let is_focused = match self.focused {
                    Some(f) => f == window,
                    None => false,
                };
                if is_focused {
                    self.focused = None;
                    let mut cmds: Vec<WmCommand> = Vec::new();
                    cmds.push(WmCommand::ExportActiveWindow(0));
                    proof {
                        assert(cmds@ =~= seq![WmCommand::ExportActiveWindow(0u64)]);
                        lemma_same_windows_wf(*old(self), *self);
                    }
                    cmds
                } else {
                    Vec::new()
                }
            },
            None => {
                proof {
                    lemma_client_by_frame_none(self.clients@, frame);
                }
                Vec::new()
            },
        }
    }

    /// The pointer entered a managed frame: input focus is transferred to
    /// that client. A frame no client owns is ignored.
    pub fn pointer_entered(&self, frame: u64) -> (cmds: Vec<WmCommand>)
        ensures
            ({
                match spec_client_by_frame(self.clients@, frame) {
                    Some(_) => cmds@ == seq![WmCommand::SetInputFocus(frame)],
                    None => cmds@.len() == 0,
                }
            }),
    {
        match self.client_index_by_frame(frame) {
            Some(k) => {
                proof {
                    lemma_client_by_frame(self.clients@, frame, k as int);
                }
                let mut cmds: Vec<WmCommand> = Vec::new();
                cmds.push(WmCommand::SetInputFocus(frame));
                proof {
                    assert(cmds@ =~= seq![WmCommand::SetInputFocus(frame)]);
                }
                cmds
            },
            None => {
                proof {
                    lemma_client_by_frame_none(self.clients@, frame);
                }
                Vec::new()
            },
        }
    }

    /// An external request to activate a window: the client is promoted to
    /// focus and raised to the top of the stacking order, which is then
    /// re-exported. An unmanaged window is ignored.
    pub fn activate_client(&mut self, window: u64) -> (cmds: Vec<WmCommand>)
        requires
            old(self).wf(),
        ensures
            final(self).wf(),
            !old(self).spec_is_managed(window) ==> *final(self) == *old(self) && cmds@.len() == 0,
            old(self).spec_is_managed(window) ==> {
                let k = client_index_spec(old(self).clients@, window);
                &&& *final(self) == (MarsWM {
                    focused: Some(window),
                    stacking: final(self).stacking,
                    ..*old(self)
                })
                &&& final(self).stacking@ == old(self).stacking@.remove(
                    first_index_of(old(self).stacking@, window),
                ).push(window)
                &&& cmds@.len() == 4
                &&& cmds@[0] == WmCommand::RaiseWindow(window)
                &&& cmds@[1] == WmCommand::SetInputFocus(old(self).clients@[k].frame)
                &&& cmds@[2] == WmCommand::ExportActiveWindow(window)
                &&& (cmds@[3] matches WmCommand::ExportClientListStacking(sdata) && sdata@
                    == final(self).stacking@)
            },
    {
        match self.client_index(window) {
            Some(k) => {
                let frame = self.clients[k].frame;
                proof {
                    assert(old(self).stacking@.contains(window)) by {
                        assert(old(self).clients@[k as int].window == window);
                    }
                    crate::workspace::lemma_first_index_of(self.stacking@, window);
                }
                let sidx = match position_in(&self.stacking, window) {
                    Some(i) => i,
                    None => {
                        proof {
                            assert(false);
                        }
                        0
                    },
                };
                self.stacking.remove(sidx);
                self.stacking.push(window);
                self.focused = Some(window);
                proof {
                    lemma_stacking_ok_raise(old(self).stacking@, old(self).clients@, window);
                    lemma_same_windows_stacking_wf(*old(self), *self);
                }
                let mut cmds: Vec<WmCommand> = Vec::new();
                cmds.push(WmCommand::RaiseWindow(window));
                cmds.push(WmCommand::SetInputFocus(frame));
                cmds.push(WmCommand::ExportActiveWindow(window));
                cmds.push(WmCommand::ExportClientListStacking(self.stacking_data()));
                cmds
            },
            None => {
                Vec::new()
            },
        }
    }

    /// Decides what an unmap notification means: one generated by our own
    /// reparenting only clears the transient flag; a genuine withdrawal
    /// unmanages the window and releases its frame.
    pub fn on_unmap(&mut self, window: u64, event_on_root: bool) -> (cmds: Vec<WmCommand>)
        requires
            old(self).wf(),
        ensures
            final(self).wf(),
            !old(self).spec_is_managed(window) ==> *final(self) == *old(self) && cmds@.len() == 0,
            old(self).spec_is_managed(window) ==> {
                let k = client_index_spec(old(self).clients@, window);
                if event_on_root || old(self).clients@[k].reparenting {
                    &&& final(self).clients@ == old(self).clients@.update(
                        k,
                        (Client { reparenting: false, ..old(self).clients@[k] }),
                    )
                    &&& final(self).monitors@ == old(self).monitors@
                    &&& final(self).focused == old(self).focused
                    &&& cmds@.len() == 0
                } else {
                    &&& !final(self).spec_is_managed(window)
                    &&& MarsWM::same_clients_but_dims(
                        old(self).clients@.remove(k),
                        final(self).clients@,
                    )
                    &&& final(self).focused == (if old(self).focused == Some(window) {
                        None::<u64>
                    } else {
                        old(self).focused
                    })
                    &&& final(self).stacking@ == old(self).stacking@.remove(
                        first_index_of(old(self).stacking@, window),
                    )
                    &&& (forall|m0: int, w0: int|
                        old(self).valid_ws(m0, w0) && #[trigger] old(self).ws_clients(
                            m0,
                            w0,
                        ).contains(window) ==> ({
                            let ws1 = final(self).monitors@[m0].workspaces@[w0];
                            &&& cmds@.len() == ws1.clients@.len() + 3
                            &&& relayout_cmds(
                                ws1,
                                old(self).clients@.remove(k),
                                cmds@.subrange(0, ws1.clients@.len() as int),
                            )
                        }))
                    &&& cmds@.len() >= 3
                    &&& cmds@[cmds@.len() - 3] == WmCommand::DestroyFrame(
                        old(self).clients@[k].frame,
                    )
                    &&& (cmds@[cmds@.len() - 2] matches WmCommand::ExportClientList(data)
                        && data@.len() == final(self).clients@.len() && (forall|j: int|
                        0 <= j < data@.len() ==> data@[j] == (
                        #[trigger] final(self).clients@[j]).window))
                    &&& (cmds@[cmds@.len() - 1] matches WmCommand::ExportClientListStacking(
                        sdata,
                    ) && sdata@ == final(self).stacking@)
                }
            },
    {
        let ghost wm0 = *self;
        match self.client_index(window) {
            None => {
                Vec::new()
            },
            Some(k) => {
                let reparenting = self.clients[k].is_reparenting();
                if event_on_root || reparenting {
                    let c = &mut self.clients[k];
                    c.set_reparenting(false);
                    proof {
                        assert forall|k2: int, l: int|
                            0 <= k2 < l < self.clients@.len() implies (
                        #[trigger] self.clients@[k2]).window != (
                        #[trigger] self.clients@[l]).window by {
                            assert(self.clients@[k2].window == wm0.clients@[k2].window);
                            assert(self.clients@[l].window == wm0.clients@[l].window);
                        }
                        lemma_same_windows_wf(wm0, *self);
                    }
                    Vec::new()
                } else {
                    self.unmanage(window)
                }
            },
        }
    }
}

/// The window of the client owning this frame: the first match in arena
/// order, as the dispatcher's linear scan finds it.
pub open spec fn spec_client_by_frame(s: Seq<Client>, frame: u64) -> Option<u64> {
    if exists|k: int| 0 <= k < s.len() && (#[trigger] s[k]).frame == frame {
        let k = choose|k: int|
            0 <= k < s.len() && (#[trigger] s[k]).frame == frame && forall|j: int|
                0 <= j < k ==> s[j].frame != frame;
        Some(s[k].window)
    } else {
        None
    }
}

/// Connects an exec frame lookup that found index `k` to `spec_client_by_frame`.
pub proof fn lemma_client_by_frame(s: Seq<Client>, frame: u64, k: int)
    requires
        0 <= k < s.len(),
        s[k].frame == frame,
        forall|j: int| 0 <= j < k ==> s[j].frame != frame,
    ensures
        spec_client_by_frame(s, frame) == Some(s[k].window),
{
    assert(exists|k2: int| 0 <= k2 < s.len() && (#[trigger] s[k2]).frame == frame);
    let w = choose|k2: int|
        0 <= k2 < s.len() && (#[trigger] s[k2]).frame == frame && forall|j: int|
            0 <= j < k2 ==> s[j].frame != frame;
    assert(0 <= k < s.len() && s[k].frame == frame && forall|j: int|
        0 <= j < k ==> s[j].frame != frame);
    assert(!(w < k) && !(k < w));
}

/// Connects a failed exec frame lookup to `spec_client_by_frame`.
pub proof fn lemma_client_by_frame_none(s: Seq<Client>, frame: u64)
    requires
        forall|j: int| 0 <= j < s.len() ==> (#[trigger] s[j]).frame != frame,
    ensures
        spec_client_by_frame(s, frame) is None,
{
}


/// The index `delta` steps away from `idx` in a cycle of length `len`.
pub fn cycle_index(idx: usize, delta: i32, len: usize) -> (r: usize)
    requires
        len > 0,
        idx < len,
    ensures
        r < len,
        r == (idx + delta) % (len as int),
{
    if delta >= 0 {
        let step: usize = (delta as usize) % len;
        let t: u128 = idx as u128 + step as u128;
        let r: usize = if t >= len as u128 {
            (t - len as u128) as usize
        } else {
            t as usize
        };
        proof {
            let l = len as int;
            vstd::arithmetic::div_mod::lemma_fundamental_div_mod(delta as int, l);
            let q = delta as int / l;
            vstd::arithmetic::div_mod::lemma_mod_multiples_vanish(q, idx + step, l);
            assert(l * q + (idx + step) == idx + delta);
            if t >= len as u128 {
                vstd::arithmetic::div_mod::lemma_small_mod((t - len) as nat, len as nat);
                vstd::arithmetic::div_mod::lemma_mod_multiples_vanish(q + 1, t - len, l);
                assert(l * (q + 1) == l * q + l) by (nonlinear_arith);
                assert(l * (q + 1) + (t - len) == idx + delta);
            } else {
                vstd::arithmetic::div_mod::lemma_small_mod((idx + step) as nat, len as nat);
            }
        }
        r
    } else {
        let neg: i64 = -(delta as i64);
        let step: usize = if (neg as u64) > (usize::MAX as u64) {
            proof {
                assert(false);
            }
            0
        } else {
            (neg as usize) % len
        };
        let r: usize = if step > idx {
            ((idx as u128 + len as u128) - step as u128) as usize
        } else {
            idx - step
        };
        proof {
            let l = len as int;
            vstd::arithmetic::div_mod::lemma_fundamental_div_mod(neg as int, l);
            let q = neg as int / l;
            assert(0 < neg <= 0x80000000i64);
            assert((neg as usize) as int == neg as int);
            assert(step as int == (neg as int) % l);
            assert(neg == l * q + step);
            assert(idx + delta == idx - step - l * q);
            if step > idx {
                vstd::arithmetic::div_mod::lemma_mod_multiples_vanish(-q - 1, (idx + len - step) as int, l);
                assert(l * (-q - 1) == -(l * q) - l) by (nonlinear_arith);
                assert(l * (-q - 1) + (idx + len - step) == idx + delta);
                vstd::arithmetic::div_mod::lemma_small_mod((idx + len - step) as nat, len as nat);
            } else {
                vstd::arithmetic::div_mod::lemma_mod_multiples_vanish(-q, (idx - step) as int, l);
                assert(l * (-q) == -(l * q)) by (nonlinear_arith);
                assert(l * (-q) + (idx - step) == idx + delta);
                vstd::arithmetic::div_mod::lemma_small_mod((idx - step) as nat, len as nat);
            }
        }
        r
    }
}

impl MarsWM {
    /// Enters the drag sub-state of the dispatcher, if exclusive pointer
    /// capture succeeded: the client's original geometry and the pointer's
    /// original position are recorded. A failed capture leaves the whole
    /// state (client geometry and focus included) unchanged.
    pub fn begin_drag(&mut self, window: u64, kind: DragKind, grab_succeeded: bool, pointer: (
        i32,
        i32,
    )) -> (started: bool)
        requires
            old(self).wf(),
        ensures
            final(self).wf(),
            !grab_succeeded ==> *final(self) == *old(self) && !started,
            grab_succeeded && !old(self).spec_is_managed(window) ==> *final(self) == *old(self)
                && !started,
            grab_succeeded && old(self).spec_is_managed(window) ==> started && *final(self) == (
            MarsWM {
                drag: Some(
                    DragState {
                        window,
                        orig_pos: (
                            old(self).clients@[client_index_spec(old(self).clients@, window)].dimensions.x,
                            old(self).clients@[client_index_spec(old(self).clients@, window)].dimensions.y,
                        ),
                        orig_size: (
                            old(self).clients@[client_index_spec(old(self).clients@, window)].dimensions.w,
                            old(self).clients@[client_index_spec(old(self).clients@, window)].dimensions.h,
                        ),
                        orig_pointer: pointer,
                        kind,
                    },
                ),
                ..*old(self)
            }),
    {
        if !grab_succeeded {
            return false;
        }
        match self.client_index(window) {
            None => false,
            Some(k) => {
                let d = self.clients[k].dimensions;
                self.drag = Some(
                    DragState {
                        window,
                        orig_pos: (d.x, d.y),
                        orig_size: (d.w, d.h),
                        orig_pointer: pointer,
                        kind,
                    },
                );
                proof {
                    lemma_same_windows_wf(*old(self), *self);
                }
                true
            },
        }
    }

    /// A pointer motion during a drag: the placement function of the drag
    /// kind gives the client's new geometry from the delta to the original
    /// pointer position; the cached geometry is updated and one geometry
    /// command is returned. Outside a drag, or after the dragged client is
    /// gone, nothing happens.
    pub fn drag_motion(&mut self, pointer: (i32, i32)) -> (cmds: Vec<WmCommand>)
        requires
            old(self).wf(),
            old(self).drag matches Some(st) ==> {
                &&& i32::MIN <= pointer.0 - st.orig_pointer.0 <= i32::MAX
                &&& i32::MIN <= pointer.1 - st.orig_pointer.1 <= i32::MAX
                &&& st.kind == DragKind::Move ==> i32::MIN <= st.orig_pos.0 + (pointer.0
                    - st.orig_pointer.0) <= i32::MAX && i32::MIN <= st.orig_pos.1 + (pointer.1
                    - st.orig_pointer.1) <= i32::MAX
            },
        ensures
            final(self).wf(),
            old(self).drag is None ==> *final(self) == *old(self) && cmds@.len() == 0,
            old(self).drag matches Some(st) ==> {
                if old(self).spec_is_managed(st.window) {
                    let k = client_index_spec(old(self).clients@, st.window);
                    let geom = crate::drag::spec_motion_geometry(st, pointer);
                    &&& final(self).clients@ == old(self).clients@.update(
                        k,
                        (Client { dimensions: geom, ..old(self).clients@[k] }),
                    )
                    &&& final(self).monitors@ == old(self).monitors@
                    &&& final(self).drag == old(self).drag
                    &&& final(self).focused == old(self).focused
                    &&& cmds@ == seq![WmCommand::MoveResize(st.window, geom)]
                } else {
                    *final(self) == *old(self) && cmds@.len() == 0
                }
            },
    {
        let st_opt = self.drag;
        match st_opt {
            None => Vec::new(),
            Some(st) => {
                match self.client_index(st.window) {
                    None => Vec::new(),
                    Some(k) => {
                        let geom = st.motion_geometry(pointer);
                        let c = &mut self.clients[k];
                        c.move_resize(geom.x, geom.y, geom.w, geom.h);
                        proof {
                            assert forall|k2: int| 0 <= k2 < old(self).clients@.len() implies (
                            #[trigger] self.clients@[k2]).window == old(self).clients@[k2].window by {
                                if k2 != k {
                                    assert(self.clients@[k2] == old(self).clients@[k2]);
                                }
                            }
                            lemma_same_windows_wf(*old(self), *self);
                        }
                        let mut cmds: Vec<WmCommand> = Vec::new();
                        cmds.push(WmCommand::MoveResize(st.window, geom));
                        proof {
                            assert(cmds@ =~= seq![
                                WmCommand::MoveResize(
                                    st.window,
                                    crate::drag::spec_motion_geometry(st, pointer),
                                ),
                            ]);
                        }
                        cmds
                    },
                }
            },
        }
    }

    /// Leaves the drag sub-state on the terminating button release. The
    /// backend releases the exclusive capture on every exit path.
    pub fn end_drag(&mut self)
        requires
            old(self).wf(),
        ensures
            final(self).wf(),
            *final(self) == (MarsWM { drag: None, ..*old(self) }),
    {
        self.drag = None;
        proof {
            lemma_same_windows_wf(*old(self), *self);
        }
    }
}


impl MarsWM {
    /// Moves a client from the workspace listing it to the front of the
    /// target workspace, re-running both layouts. A client that is not listed
    /// anywhere, or a move onto the same workspace, does nothing.
    pub fn move_client_to(&mut self, window: u64, tm: usize, tw: usize) -> (cmds: Vec<WmCommand>)
        requires
            old(self).wf(),
            old(self).valid_ws(tm as int, tw as int),
        ensures
            final(self).wf(),
            MarsWM::same_clients_but_dims(old(self).clients@, final(self).clients@),
            final(self).cur_monitor == old(self).cur_monitor,
            final(self).focused == old(self).focused,
            final(self).drag == old(self).drag,
            final(self).stacking@ == old(self).stacking@,
            moved_client_effect(*old(self), *final(self), window, tm as int, tw as int, cmds@),
    {
        let ghost wm0 = *self;
        match self.find_client_workspace(window) {
            None => {
                Vec::new()
            },
            Some((m, w)) => {
                if m == tm && w == tw {
                    proof {
                        assert forall|m0: int, w0: int|
                            wm0.valid_ws(m0, w0) && #[trigger] wm0.ws_clients(m0, w0).contains(
                                window,
                            ) && (m0 != tm || w0 != tw) implies false by {
                            assert(wm0.ws_clients(m as int, w as int).contains(window));
                        }
                    }
                    return Vec::new();
                }
                proof {
                    assert(!wm0.ws_clients(tm as int, tw as int).contains(window)) by {
                        assert(wm0.ws_clients(m as int, w as int).contains(window));
                    }
                    assert(wm0.monitors@[m as int].wf());
                    assert(wm0.monitors@[tm as int].wf());
                }
                {
                    let mon = &mut self.monitors[m];
                    let ws = &mut mon.workspaces[w];
                    ws.detach_client(window);
                }
                {
                    let mon = &mut self.monitors[tm];
                    let ws = &mut mon.workspaces[tw];
                    ws.attach_client(window);
                }
                proof {
                    lemma_move_client_wf(wm0, *self, window, m as int, w as int, tm as int, tw as int);
                    assert forall|m0: int, w0: int|
                        wm0.valid_ws(m0, w0) && #[trigger] wm0.ws_clients(m0, w0).contains(window)
                            && (m0 != tm || w0 != tw) implies m0 == m && w0 == w by {
                        if m0 != m || w0 != w {
                            assert(wm0.ws_clients(m as int, w as int).contains(window));
                        }
                    }
                }
                let ghost s2 = *self;
                let mut cmds = self.relayout_workspace(m, w);
                let ghost mid3 = *self;
                let ghost srccmds = cmds@;
                let mut rest = self.relayout_workspace(tm, tw);
                let ghost restcmds = rest@;
                cmds.append(&mut rest);
                proof {
                    // the first relayout touched only the source list's
                    // clients; the lists are disjoint, so every target
                    // client's cached geometry is unchanged
                    let tgt_list = s2.ws_clients(tm as int, tw as int);
                    assert forall|i: int|
                        0 <= i < tgt_list.len() implies ws_dims(mid3.clients@, tgt_list)[i]
                        == ws_dims(wm0.clients@, tgt_list)[i] by {
                        let id = tgt_list[i];
                        assert(s2.ws_clients(tm as int, tw as int).contains(id));
                        assert(!s2.ws_clients(m as int, w as int).contains(id));
                        assert forall|k2: int| 0 <= k2 < wm0.clients@.len() implies (
                        #[trigger] mid3.clients@[k2]).window == wm0.clients@[k2].window by {
                            assert(mid3.clients@[k2] == (Client {
                                dimensions: mid3.clients@[k2].dimensions,
                                ..wm0.clients@[k2]
                            }));
                        }
                        lemma_client_index_same(wm0.clients@, mid3.clients@, id);
                        assert(s2.spec_is_managed(id));
                        lemma_client_index_spec(wm0.clients@, id);
                        let kk = client_index_spec(wm0.clients@, id);
                        assert(mid3.clients@[kk] == wm0.clients@[kk]);
                    }
                    assert(ws_dims(mid3.clients@, tgt_list) =~= ws_dims(wm0.clients@, tgt_list));
                    assert(cmds@.subrange(0, srccmds.len() as int) =~= srccmds);
                    assert(cmds@.subrange(srccmds.len() as int, cmds@.len() as int) =~= restcmds);
                    assert forall|m0: int, w0: int|
                        wm0.valid_ws(m0, w0) && #[trigger] wm0.ws_clients(m0, w0).contains(window)
                            && (m0 != tm || w0 != tw) implies m0 == m && w0 == w by {
                        if m0 != m || w0 != w {
                            assert(wm0.ws_clients(m as int, w as int).contains(window));
                        }
                    }
                }
                cmds
            },
        }
    }
}

/// After detaching a window from the workspace listing it and attaching it to
/// the front of a different workspace, the graph is still well-formed.
pub proof fn lemma_move_client_wf(
    before: MarsWM,
    after: MarsWM,
    window: u64,
    m: int,
    w: int,
    tm: int,
    tw: int,
)
    requires
        before.wf(),
        before.valid_ws(m, w),
        before.valid_ws(tm, tw),
        (m != tm || w != tw),
        before.ws_clients(m, w).contains(window),
        after.clients@ == before.clients@,
        after.cur_monitor == before.cur_monitor,
        after.monitors@.len() == before.monitors@.len(),
        forall|a: int|
            0 <= a < before.monitors@.len() ==> #[trigger] after.monitors@[a] == (Monitor {
                workspaces: after.monitors@[a].workspaces,
                ..before.monitors@[a]
            }),
        forall|a: int|
            0 <= a < before.monitors@.len() ==> (#[trigger] after.monitors@[a]).workspaces@.len()
                == before.monitors@[a].workspaces@.len(),
        forall|a: int, b: int|
            after.valid_ws(a, b) && (a != m || b != w) && (a != tm || b != tw)
                ==> #[trigger] after.monitors@[a].workspaces@[b]
                == before.monitors@[a].workspaces@[b],
        after.monitors@[m].workspaces@[w] == (Workspace {
            clients: after.monitors@[m].workspaces@[w].clients,
            ..before.monitors@[m].workspaces@[w]
        }),
        after.monitors@[tm].workspaces@[tw] == (Workspace {
            clients: after.monitors@[tm].workspaces@[tw].clients,
            ..before.monitors@[tm].workspaces@[tw]
        }),
        after.ws_clients(m, w) == before.ws_clients(m, w).remove(
            first_index_of(before.ws_clients(m, w), window),
        ),
        after.ws_clients(tm, tw) == seq![window] + before.ws_clients(tm, tw),
        after.monitors@[m].workspaces@[w].wf(),
        after.monitors@[tm].workspaces@[tw].wf(),
        after.stacking@ == before.stacking@,
    ensures
        after.wf(),
{
    crate::workspace::lemma_first_index_of(before.ws_clients(m, w), window);
    let fi = first_index_of(before.ws_clients(m, w), window);
    assert forall|a: int| 0 <= a < after.monitors@.len() implies (
    #[trigger] after.monitors@[a]).wf() by {
        assert(before.monitors@[a].wf());
        assert forall|b: int|
            0 <= b < after.monitors@[a].workspaces@.len() implies (
        #[trigger] after.monitors@[a].workspaces@[b]).wf() by {
            if (a != m || b != w) && (a != tm || b != tw) {
                assert(after.monitors@[a].workspaces@[b] == before.monitors@[a].workspaces@[b]);
            }
        }
    }
    // membership in an after-list maps back to a before-list, except for the
    // moved window at the front of the target list
    assert forall|a: int, b: int, x: u64|
        after.valid_ws(a, b) && #[trigger] after.ws_clients(a, b).contains(x) && !(a == tm && b
            == tw && x == window) implies before.ws_clients(a, b).contains(x) by {
        if a == m && b == w {
            let i = choose|i: int|
                0 <= i < after.ws_clients(a, b).len() && after.ws_clients(a, b)[i] == x;
            let oi = if i < fi {
                i
            } else {
                i + 1
            };
            assert(before.ws_clients(a, b)[oi] == x);
        } else if a == tm && b == tw {
            let i = choose|i: int|
                0 <= i < after.ws_clients(a, b).len() && after.ws_clients(a, b)[i] == x;
            assert(i != 0 ==> before.ws_clients(a, b)[i - 1] == x);
            assert(after.ws_clients(a, b)[0] == window);
        } else {
            assert(after.monitors@[a].workspaces@[b] == before.monitors@[a].workspaces@[b]);
        }
    }
    // the old list no longer holds the moved window
    assert(!after.ws_clients(m, w).contains(window)) by {
        if after.ws_clients(m, w).contains(window) {
            let i = choose|i: int|
                0 <= i < after.ws_clients(m, w).len() && after.ws_clients(m, w)[i] == window;
            let oi = if i < fi {
                i
            } else {
                i + 1
            };
            assert(before.ws_clients(m, w)[oi] == window);
            assert(before.monitors@[m].wf());
            assert(before.monitors@[m].workspaces@[w].wf());
            assert(before.ws_clients(m, w)[fi] == window);
            assert(oi != fi);
        }
    }
    // no list other than the source held the window before
    assert forall|a: int, b: int|
        before.valid_ws(a, b) && (a != m || b != w) implies !(#[trigger] before.ws_clients(
        a,
        b,
    ).contains(window)) by {
        assert(before.ws_clients(m, w).contains(window));
    }
    assert forall|a: int, b: int, c: int, d: int, x: u64|
        after.valid_ws(a, b) && after.valid_ws(c, d) && (a != c || b != d)
            && #[trigger] after.ws_clients(a, b).contains(x) implies !(#[trigger] after.ws_clients(
        c,
        d,
    ).contains(x)) by {
        if after.ws_clients(c, d).contains(x) {
            if a == tm && b == tw && x == window {
                if c == m && d == w {
                    assert(!after.ws_clients(m, w).contains(window));
                } else {
                    assert(before.ws_clients(c, d).contains(window));
                }
            } else if c == tm && d == tw && x == window {
                if a == m && b == w {
                    assert(!after.ws_clients(m, w).contains(window));
                } else {
                    assert(before.ws_clients(a, b).contains(window));
                }
            } else {
                assert(before.ws_clients(a, b).contains(x));
                assert(before.ws_clients(c, d).contains(x));
            }
        }
    }
    assert forall|a: int, b: int, x: u64|
        after.valid_ws(a, b) && #[trigger] after.ws_clients(a, b).contains(x) implies after.spec_is_managed(
        x,
    ) by {
        if a == tm && b == tw && x == window {
            assert(before.ws_clients(m, w).contains(window));
            assert(before.spec_is_managed(window));
        } else {
            assert(before.ws_clients(a, b).contains(x));
            assert(before.spec_is_managed(x));
        }
    }
}


/// Replacing one workspace's layout parameters (its client list unchanged)
/// keeps the graph well-formed.
pub proof fn lemma_ws_replaced_wf(before: MarsWM, after: MarsWM, m: int, w: int)
    requires
        before.wf(),
        before.valid_ws(m, w),
        after.clients@ == before.clients@,
        after.cur_monitor == before.cur_monitor,
        after.monitors@.len() == before.monitors@.len(),
        forall|a: int|
            0 <= a < before.monitors@.len() && a != m ==> #[trigger] after.monitors@[a]
                == before.monitors@[a],
        after.monitors@[m] == (Monitor {
            workspaces: after.monitors@[m].workspaces,
            ..before.monitors@[m]
        }),
        after.monitors@[m].workspaces@ == before.monitors@[m].workspaces@.update(
            w,
            after.monitors@[m].workspaces@[w],
        ),
        after.monitors@[m].workspaces@[w].clients@ == before.monitors@[m].workspaces@[w].clients@,
        after.monitors@[m].workspaces@[w].wf(),
        after.stacking@ == before.stacking@,
    ensures
        after.wf(),
{
    assert forall|a: int| 0 <= a < after.monitors@.len() implies (
    #[trigger] after.monitors@[a]).wf() by {
        assert(before.monitors@[a].wf());
        if a == m {
            assert forall|b: int|
                0 <= b < after.monitors@[a].workspaces@.len() implies (
            #[trigger] after.monitors@[a].workspaces@[b]).wf() by {
                if b != w {
                    assert(after.monitors@[a].workspaces@[b]
                        == before.monitors@[a].workspaces@[b]);
                }
            }
        }
    }
    assert forall|a: int, b: int|
        after.valid_ws(a, b) implies #[trigger] after.ws_clients(a, b) == before.ws_clients(
        a,
        b,
    ) by {
        if a != m {
            assert(after.monitors@[a] == before.monitors@[a]);
        } else if b != w {
            assert(after.monitors@[a].workspaces@[b] == before.monitors@[a].workspaces@[b]);
        }
    }
    assert forall|a: int, b: int, c: int, d: int, x: u64|
        after.valid_ws(a, b) && after.valid_ws(c, d) && (a != c || b != d)
            && #[trigger] after.ws_clients(a, b).contains(x) implies !(#[trigger] after.ws_clients(
        c,
        d,
    ).contains(x)) by {
        assert(before.ws_clients(a, b).contains(x));
        if after.ws_clients(c, d).contains(x) {
            assert(before.ws_clients(c, d).contains(x));
        }
    }
    assert forall|a: int, b: int, x: u64|
        after.valid_ws(a, b) && #[trigger] after.ws_clients(a, b).contains(x) implies after.spec_is_managed(
        x,
    ) by {
        assert(before.ws_clients(a, b).contains(x));
    }
}

impl MarsWM {
    /// The visible workspace of the focused monitor.
    pub open spec fn cur_ws(&self) -> Workspace {
        self.monitors@[self.cur_monitor as int].workspaces@[self.monitors@[self.cur_monitor as int].cur_workspace as int]
    }

    /// Selects the layout of the visible workspace and re-runs it.
    pub fn set_cur_layout(&mut self, layout: crate::layout::LayoutType) -> (cmds: Vec<WmCommand>)
        requires
            old(self).wf(),
        ensures
            final(self).wf(),
            final(self).cur_ws() == (Workspace { cur_layout: layout, ..old(self).cur_ws() }),
            MarsWM::same_clients_but_dims(old(self).clients@, final(self).clients@),
            final(self).focused == old(self).focused,
            final(self).drag == old(self).drag,
            final(self).cur_monitor == old(self).cur_monitor,
            final(self).stacking@ == old(self).stacking@,
            relayout_cmds(final(self).cur_ws(), old(self).clients@, cmds@),
            relayout_arena(final(self).cur_ws(), old(self).clients@, final(self).clients@),
    {
        let ghost wm0 = *self;
        let cm = self.cur_monitor;
        let mon = &mut self.monitors[cm];
        let cw = mon.cur_workspace;
        proof {
            assert(wm0.monitors@[cm as int].wf());
        }
        let ws = &mut mon.workspaces[cw];
        ws.set_layout(layout);
        proof {
            lemma_ws_replaced_wf(wm0, *self, cm as int, cw as int);
        }
        self.relayout_workspace(cm, cw)
    }

    /// Advances the visible workspace to the next layout algorithm and
    /// re-runs it.
    pub fn cycle_cur_layout(&mut self) -> (cmds: Vec<WmCommand>)
        requires
            old(self).wf(),
        ensures
            final(self).wf(),
            final(self).cur_ws() == (Workspace {
                cur_layout: old(self).cur_ws().cur_layout.spec_next(),
                ..old(self).cur_ws()
            }),
            MarsWM::same_clients_but_dims(old(self).clients@, final(self).clients@),
            final(self).focused == old(self).focused,
            final(self).drag == old(self).drag,
            final(self).cur_monitor == old(self).cur_monitor,
            final(self).stacking@ == old(self).stacking@,
            relayout_cmds(final(self).cur_ws(), old(self).clients@, cmds@),
            relayout_arena(final(self).cur_ws(), old(self).clients@, final(self).clients@),
    {
        let ghost wm0 = *self;
        let cm = self.cur_monitor;
        let mon = &mut self.monitors[cm];
        let cw = mon.cur_workspace;
        proof {
            assert(wm0.monitors@[cm as int].wf());
        }
        let ws = &mut mon.workspaces[cw];
        ws.cycle_layout();
        proof {
            lemma_ws_replaced_wf(wm0, *self, cm as int, cw as int);
        }
        self.relayout_workspace(cm, cw)
    }

    /// Selects the stack mode of the visible workspace and re-runs its layout.
    pub fn set_cur_stack_mode(&mut self, mode: crate::layout::StackMode) -> (cmds: Vec<WmCommand>)
        requires
            old(self).wf(),
        ensures
            final(self).wf(),
            final(self).cur_ws() == (Workspace { stack_mode: mode, ..old(self).cur_ws() }),
            MarsWM::same_clients_but_dims(old(self).clients@, final(self).clients@),
            final(self).focused == old(self).focused,
            final(self).drag == old(self).drag,
            final(self).cur_monitor == old(self).cur_monitor,
            final(self).stacking@ == old(self).stacking@,
            relayout_cmds(final(self).cur_ws(), old(self).clients@, cmds@),
            relayout_arena(final(self).cur_ws(), old(self).clients@, final(self).clients@),
    {
        let ghost wm0 = *self;
        let cm = self.cur_monitor;
        let mon = &mut self.monitors[cm];
        let cw = mon.cur_workspace;
        proof {
            assert(wm0.monitors@[cm as int].wf());
        }
        let ws = &mut mon.workspaces[cw];
        ws.set_stack_mode(mode);
        proof {
            lemma_ws_replaced_wf(wm0, *self, cm as int, cw as int);
        }
        self.relayout_workspace(cm, cw)
    }

    /// Selects the stack position of the visible workspace and re-runs its
    /// layout.
    pub fn set_cur_stack_position(&mut self, pos: crate::layout::StackPosition) -> (cmds: Vec<
        WmCommand,
    >)
        requires
            old(self).wf(),
        ensures
            final(self).wf(),
            final(self).cur_ws() == (Workspace { stack_position: pos, ..old(self).cur_ws() }),
            MarsWM::same_clients_but_dims(old(self).clients@, final(self).clients@),
            final(self).focused == old(self).focused,
            final(self).drag == old(self).drag,
            final(self).cur_monitor == old(self).cur_monitor,
            final(self).stacking@ == old(self).stacking@,
            relayout_cmds(final(self).cur_ws(), old(self).clients@, cmds@),
            relayout_arena(final(self).cur_ws(), old(self).clients@, final(self).clients@),
    {
        let ghost wm0 = *self;
        let cm = self.cur_monitor;
        let mon = &mut self.monitors[cm];
        let cw = mon.cur_workspace;
        proof {
            assert(wm0.monitors@[cm as int].wf());
        }
        let ws = &mut mon.workspaces[cw];
        ws.set_stack_position(pos);
        proof {
            lemma_ws_replaced_wf(wm0, *self, cm as int, cw as int);
        }
        self.relayout_workspace(cm, cw)
    }

    /// Changes the gap width of the visible workspace, bounded below at zero,
    /// and re-runs its layout.
    pub fn inc_cur_gaps(&mut self, delta: i32) -> (cmds: Vec<WmCommand>)
        requires
            old(self).wf(),
        ensures
            final(self).wf(),
            final(self).cur_ws() == (Workspace {
                gap_width: crate::geometry::clamp_u32(old(self).cur_ws().gap_width + delta),
                ..old(self).cur_ws()
            }),
            MarsWM::same_clients_but_dims(old(self).clients@, final(self).clients@),
            final(self).focused == old(self).focused,
            final(self).drag == old(self).drag,
            final(self).cur_monitor == old(self).cur_monitor,
            final(self).stacking@ == old(self).stacking@,
            relayout_cmds(final(self).cur_ws(), old(self).clients@, cmds@),
            relayout_arena(final(self).cur_ws(), old(self).clients@, final(self).clients@),
    {
        let ghost wm0 = *self;
        let cm = self.cur_monitor;
        let mon = &mut self.monitors[cm];
        let cw = mon.cur_workspace;
        proof {
            assert(wm0.monitors@[cm as int].wf());
        }
        let ws = &mut mon.workspaces[cw];
        ws.inc_gaps(delta);
        proof {
            lemma_ws_replaced_wf(wm0, *self, cm as int, cw as int);
        }
        self.relayout_workspace(cm, cw)
    }

    /// Changes the number of main-area clients of the visible workspace,
    /// bounded below at zero, and re-runs its layout.
    pub fn inc_cur_nmain(&mut self, delta: i32) -> (cmds: Vec<WmCommand>)
        requires
            old(self).wf(),
        ensures
            final(self).wf(),
            final(self).cur_ws() == (Workspace {
                nmain: crate::geometry::clamp_u32(old(self).cur_ws().nmain + delta),
                ..old(self).cur_ws()
            }),
            MarsWM::same_clients_but_dims(old(self).clients@, final(self).clients@),
            final(self).focused == old(self).focused,
            final(self).drag == old(self).drag,
            final(self).cur_monitor == old(self).cur_monitor,
            final(self).stacking@ == old(self).stacking@,
            relayout_cmds(final(self).cur_ws(), old(self).clients@, cmds@),
            relayout_arena(final(self).cur_ws(), old(self).clients@, final(self).clients@),
    {
        let ghost wm0 = *self;
        let cm = self.cur_monitor;
        let mon = &mut self.monitors[cm];
        let cw = mon.cur_workspace;
        proof {
            assert(wm0.monitors@[cm as int].wf());
        }
        let ws = &mut mon.workspaces[cw];
        ws.inc_nmain(delta);
        proof {
            lemma_ws_replaced_wf(wm0, *self, cm as int, cw as int);
        }
        self.relayout_workspace(cm, cw)
    }

    /// Changes the main-area ratio of the visible workspace, clamped to the
    /// sane ratio bounds, and re-runs its layout.
    pub fn change_cur_main_ratio(&mut self, delta: i32) -> (cmds: Vec<WmCommand>)
        requires
            old(self).wf(),
        ensures
            final(self).wf(),
            final(self).cur_ws() == (Workspace {
                main_ratio: {
                    let v = old(self).cur_ws().main_ratio + delta;
                    if v < crate::workspace::MAIN_RATIO_MIN {
                        crate::workspace::MAIN_RATIO_MIN
                    } else if v > crate::workspace::MAIN_RATIO_MAX {
                        crate::workspace::MAIN_RATIO_MAX
                    } else {
                        v as u32
                    }
                },
                ..old(self).cur_ws()
            }),
            MarsWM::same_clients_but_dims(old(self).clients@, final(self).clients@),
            final(self).focused == old(self).focused,
            final(self).drag == old(self).drag,
            final(self).cur_monitor == old(self).cur_monitor,
            final(self).stacking@ == old(self).stacking@,
            relayout_cmds(final(self).cur_ws(), old(self).clients@, cmds@),
            relayout_arena(final(self).cur_ws(), old(self).clients@, final(self).clients@),
    {
        let ghost wm0 = *self;
        let cm = self.cur_monitor;
        let mon = &mut self.monitors[cm];
        let cw = mon.cur_workspace;
        proof {
            assert(wm0.monitors@[cm as int].wf());
        }
        let ws = &mut mon.workspaces[cw];
        ws.change_main_ratio(delta);
        proof {
            lemma_ws_replaced_wf(wm0, *self, cm as int, cw as int);
        }
        self.relayout_workspace(cm, cw)
    }
}


/// Replacing one workspace's client list by a permutation with the same
/// members keeps the graph well-formed.
pub proof fn lemma_ws_permuted_wf(before: MarsWM, after: MarsWM, m: int, w: int)
    requires
        before.wf(),
        before.valid_ws(m, w),
        after.clients@ == before.clients@,
        after.cur_monitor == before.cur_monitor,
        after.monitors@.len() == before.monitors@.len(),
        forall|a: int|
            0 <= a < before.monitors@.len() && a != m ==> #[trigger] after.monitors@[a]
                == before.monitors@[a],
        after.monitors@[m] == (Monitor {
            workspaces: after.monitors@[m].workspaces,
            ..before.monitors@[m]
        }),
        after.monitors@[m].workspaces@ == before.monitors@[m].workspaces@.update(
            w,
            after.monitors@[m].workspaces@[w],
        ),
        forall|x: u64|
            #[trigger] after.ws_clients(m, w).contains(x) <==> before.ws_clients(m, w).contains(x),
        after.monitors@[m].workspaces@[w].wf(),
        after.stacking@ == before.stacking@,
    ensures
        after.wf(),
{
    assert forall|a: int| 0 <= a < after.monitors@.len() implies (
    #[trigger] after.monitors@[a]).wf() by {
        assert(before.monitors@[a].wf());
        if a == m {
            assert forall|b: int|
                0 <= b < after.monitors@[a].workspaces@.len() implies (
            #[trigger] after.monitors@[a].workspaces@[b]).wf() by {
                if b != w {
                    assert(after.monitors@[a].workspaces@[b]
                        == before.monitors@[a].workspaces@[b]);
                }
            }
        }
    }
    assert forall|a: int, b: int, x: u64|
        after.valid_ws(a, b) && #[trigger] after.ws_clients(a, b).contains(x) implies before.ws_clients(
        a,
        b,
    ).contains(x) by {
        if a != m {
            assert(after.monitors@[a] == before.monitors@[a]);
        } else if b != w {
            assert(after.monitors@[a].workspaces@[b] == before.monitors@[a].workspaces@[b]);
        }
    }
    assert forall|a: int, b: int, x: u64|
        before.valid_ws(a, b) && #[trigger] before.ws_clients(a, b).contains(x) implies after.ws_clients(
        a,
        b,
    ).contains(x) by {
        if a != m {
            assert(after.monitors@[a] == before.monitors@[a]);
        } else if b != w {
            assert(after.monitors@[a].workspaces@[b] == before.monitors@[a].workspaces@[b]);
        }
    }
    assert forall|a: int, b: int, c: int, d: int, x: u64|
        after.valid_ws(a, b) && after.valid_ws(c, d) && (a != c || b != d)
            && #[trigger] after.ws_clients(a, b).contains(x) implies !(#[trigger] after.ws_clients(
        c,
        d,
    ).contains(x)) by {
        assert(before.ws_clients(a, b).contains(x));
        if after.ws_clients(c, d).contains(x) {
            assert(before.ws_clients(c, d).contains(x));
        }
    }
    assert forall|a: int, b: int, x: u64|
        after.valid_ws(a, b) && #[trigger] after.ws_clients(a, b).contains(x) implies after.spec_is_managed(
        x,
    ) by {
        assert(before.ws_clients(a, b).contains(x));
    }
}

impl MarsWM {
    /// Transfers focus to another client of the visible workspace: `delta`
    /// list positions away from the focused one (from the front when nothing
    /// on the list is focused), wrapping around the ends.
    pub fn cycle_client(&mut self, delta: i32) -> (cmds: Vec<WmCommand>)
        requires
            old(self).wf(),
        ensures
            final(self).wf(),
            old(self).cur_ws().clients@.len() == 0 ==> *final(self) == *old(self) && cmds@.len()
                == 0,
            old(self).cur_ws().clients@.len() > 0 ==> {
                let list = old(self).cur_ws().clients@;
                let idx0 = match old(self).focused {
                    Some(f) => if list.contains(f) {
                        first_index_of(list, f)
                    } else {
                        0
                    },
                    None => 0,
                };
                let target = list[(idx0 + delta) % (list.len() as int)];
                &&& *final(self) == (MarsWM { focused: Some(target), ..*old(self) })
                &&& cmds@ == seq![
                    WmCommand::SetInputFocus(
                        old(self).clients@[client_index_spec(old(self).clients@, target)].frame,
                    ),
                    WmCommand::ExportActiveWindow(target),
                ]
            },
    {
        let cm = self.cur_monitor;
        let mon = &self.monitors[cm];
        proof {
            assert(self.monitors@[cm as int].wf());
        }
        let cw = mon.cur_workspace;
        let ws = &mon.workspaces[cw];
        let n = ws.clients.len();
        if n == 0 {
            return Vec::new();
        }
        let idx0: usize = match self.focused {
            Some(f) => {
                match position_in(&ws.clients, f) {
                    Some(i) => {
                        proof {
                            crate::workspace::lemma_first_index_of(ws.clients@, f);
                        }
                        i
                    },
                    None => 0,
                }
            },
            None => 0,
        };
        let j = cycle_index(idx0, delta, n);
        let target = ws.clients[j];
        proof {
            assert(self.ws_clients(cm as int, cw as int).contains(target)) by {
                assert(self.ws_clients(cm as int, cw as int)[j as int] == target);
            }
        }
        match self.client_index(target) {
            Some(k) => {
                let frame = self.clients[k].frame;
                self.focused = Some(target);
                proof {
                    lemma_same_windows_wf(*old(self), *self);
                }
                let mut cmds: Vec<WmCommand> = Vec::new();
                cmds.push(WmCommand::SetInputFocus(frame));
                cmds.push(WmCommand::ExportActiveWindow(target));
                proof {
                    assert(cmds@ =~= seq![
                        WmCommand::SetInputFocus(
                            old(self).clients@[client_index_spec(old(self).clients@, target)].frame,
                        ),
                        WmCommand::ExportActiveWindow(target),
                    ]);
                }
                cmds
            },
            None => {
                proof {
                    assert(false);
                }
                Vec::new()
            },
        }
    }

    /// Transfers focus to the main client: the front of the visible
    /// workspace's list.
    pub fn focus_main(&mut self) -> (cmds: Vec<WmCommand>)
        requires
            old(self).wf(),
        ensures
            final(self).wf(),
            old(self).cur_ws().clients@.len() == 0 ==> *final(self) == *old(self) && cmds@.len()
                == 0,
            old(self).cur_ws().clients@.len() > 0 ==> {
                let target = old(self).cur_ws().clients@[0];
                &&& *final(self) == (MarsWM { focused: Some(target), ..*old(self) })
                &&& cmds@ == seq![
                    WmCommand::SetInputFocus(
                        old(self).clients@[client_index_spec(old(self).clients@, target)].frame,
                    ),
                    WmCommand::ExportActiveWindow(target),
                ]
            },
    {
        let cm = self.cur_monitor;
        let mon = &self.monitors[cm];
        proof {
            assert(self.monitors@[cm as int].wf());
        }
        let cw = mon.cur_workspace;
        let ws = &mon.workspaces[cw];
        if ws.clients.len() == 0 {
            return Vec::new();
        }
        let target = ws.clients[0];
        proof {
            assert(self.ws_clients(cm as int, cw as int).contains(target)) by {
                assert(self.ws_clients(cm as int, cw as int)[0] == target);
            }
        }
        match self.client_index(target) {
            Some(k) => {
                let frame = self.clients[k].frame;
                self.focused = Some(target);
                proof {
                    lemma_same_windows_wf(*old(self), *self);
                }
                let mut cmds: Vec<WmCommand> = Vec::new();
                cmds.push(WmCommand::SetInputFocus(frame));
                cmds.push(WmCommand::ExportActiveWindow(target));
                proof {
                    assert(cmds@ =~= seq![
                        WmCommand::SetInputFocus(
                            old(self).clients@[client_index_spec(old(self).clients@, target)].frame,
                        ),
                        WmCommand::ExportActiveWindow(target),
                    ]);
                }
                cmds
            },
            None => {
                proof {
                    assert(false);
                }
                Vec::new()
            },
        }
    }

    /// Promotes the client to the main position of the visible workspace and
    /// re-runs the layout.
    pub fn move_main(&mut self, window: u64) -> (cmds: Vec<WmCommand>)
        requires
            old(self).wf(),
        ensures
            final(self).wf(),
            MarsWM::same_clients_but_dims(old(self).clients@, final(self).clients@),
            old(self).cur_ws().clients@.contains(window) ==> final(self).cur_ws().clients@ == seq![
                window,
            ] + old(self).cur_ws().clients@.remove(
                first_index_of(old(self).cur_ws().clients@, window),
            ),
            final(self).focused == old(self).focused,
            final(self).drag == old(self).drag,
            final(self).cur_monitor == old(self).cur_monitor,
            final(self).stacking@ == old(self).stacking@,
            relayout_cmds(final(self).cur_ws(), old(self).clients@, cmds@),
            relayout_arena(final(self).cur_ws(), old(self).clients@, final(self).clients@),
    {
        let ghost wm0 = *self;
        let cm = self.cur_monitor;
        let mon = &mut self.monitors[cm];
        let cw = mon.cur_workspace;
        proof {
            assert(wm0.monitors@[cm as int].wf());
        }
        let ws = &mut mon.workspaces[cw];
        let ghost list0 = ws.clients@;
        ws.pull_front(window);
        proof {
            if list0.contains(window) {
                crate::workspace::lemma_first_index_of(list0, window);
                let fi = first_index_of(list0, window);
                assert forall|x: u64|
                    #[trigger] self.ws_clients(cm as int, cw as int).contains(x)
                        <==> list0.contains(x) by {
                    let now = self.ws_clients(cm as int, cw as int);
                    if now.contains(x) {
                        let i = choose|i: int| 0 <= i < now.len() && now[i] == x;
                        if i == 0 {
                            assert(list0[fi] == x);
                        } else {
                            let oi = if i - 1 < fi {
                                i - 1
                            } else {
                                i
                            };
                            assert(list0[oi] == x);
                        }
                    }
                    if list0.contains(x) {
                        if x == window {
                            assert(now[0] == x);
                        } else {
                            let i = choose|i: int| 0 <= i < list0.len() && list0[i] == x;
                            let ni = if i < fi {
                                i + 1
                            } else {
                                i
                            };
                            assert(now[ni] == x);
                        }
                    }
                }
            }
            lemma_ws_permuted_wf(wm0, *self, cm as int, cw as int);
        }
        self.relayout_workspace(cm, cw)
    }

    /// Swaps the client with its neighbour `delta` positions away in the
    /// visible workspace's list, clamping at the ends, and re-runs the layout.
    pub fn stack_move(&mut self, window: u64, delta: i32) -> (cmds: Vec<WmCommand>)
        requires
            old(self).wf(),
        ensures
            final(self).wf(),
            MarsWM::same_clients_but_dims(old(self).clients@, final(self).clients@),
            old(self).cur_ws().clients@.contains(window) ==> {
                let list = old(self).cur_ws().clients@;
                let i = first_index_of(list, window);
                let j = crate::geometry::clamp_index(i + delta, list.len() as int);
                final(self).cur_ws().clients@ == list.update(i, list[j]).update(j, list[i])
            },
            final(self).focused == old(self).focused,
            final(self).drag == old(self).drag,
            final(self).cur_monitor == old(self).cur_monitor,
            final(self).stacking@ == old(self).stacking@,
            relayout_cmds(final(self).cur_ws(), old(self).clients@, cmds@),
            relayout_arena(final(self).cur_ws(), old(self).clients@, final(self).clients@),
    {
        let ghost wm0 = *self;
        let cm = self.cur_monitor;
        let mon = &mut self.monitors[cm];
        let cw = mon.cur_workspace;
        proof {
            assert(wm0.monitors@[cm as int].wf());
        }
        let ws = &mut mon.workspaces[cw];
        let ghost list0 = ws.clients@;
        ws.stack_move(window, delta);
        proof {
            if list0.contains(window) {
                crate::workspace::lemma_first_index_of(list0, window);
                let fi = first_index_of(list0, window);
                let j = crate::geometry::clamp_index(fi + delta, list0.len() as int);
                assert forall|x: u64|
                    #[trigger] self.ws_clients(cm as int, cw as int).contains(x)
                        <==> list0.contains(x) by {
                    let now = self.ws_clients(cm as int, cw as int);
                    if now.contains(x) {
                        let i = choose|i: int| 0 <= i < now.len() && now[i] == x;
                        let oi = if i == fi {
                            j
                        } else if i == j {
                            fi
                        } else {
                            i
                        };
                        assert(list0[oi] == x);
                    }
                    if list0.contains(x) {
                        let i = choose|i: int| 0 <= i < list0.len() && list0[i] == x;
                        let ni = if i == fi {
                            j
                        } else if i == j {
                            fi
                        } else {
                            i
                        };
                        assert(now[ni] == x);
                    }
                }
            }
            lemma_ws_permuted_wf(wm0, *self, cm as int, cw as int);
        }
        self.relayout_workspace(cm, cw)
    }

    /// Asks the client to close: gracefully via the delete-window convention
    /// when it supports it, by forced destruction otherwise.
    pub fn close_client(&self, window: u64) -> (cmds: Vec<WmCommand>)
        ensures
            !self.spec_is_managed(window) ==> cmds@.len() == 0,
            self.spec_is_managed(window) ==> cmds@ == (if self.clients@[client_index_spec(
                self.clients@,
                window,
            )].supports_delete {
                seq![WmCommand::SendDelete(window)]
            } else {
                seq![WmCommand::KillWindow(window)]
            }),
    {
        match self.client_index(window) {
            None => Vec::new(),
            Some(k) => {
                let mut cmds: Vec<WmCommand> = Vec::new();
                if self.clients[k].supports_delete {
                    cmds.push(WmCommand::SendDelete(window));
                    proof {
                        assert(cmds@ =~= seq![WmCommand::SendDelete(window)]);
                    }
                } else {
                    cmds.push(WmCommand::KillWindow(window));
                    proof {
                        assert(cmds@ =~= seq![WmCommand::KillWindow(window)]);
                    }
                }
                cmds
            },
        }
    }

    /// Toggles the floating state of the client and re-runs the visible
    /// workspace's layout.
    pub fn toggle_floating(&mut self, window: u64) -> (cmds: Vec<WmCommand>)
        requires
            old(self).wf(),
        ensures
            final(self).wf(),
            !old(self).spec_is_managed(window) ==> *final(self) == *old(self) && cmds@.len() == 0,
            old(self).spec_is_managed(window) ==> {
                let k = client_index_spec(old(self).clients@, window);
                let mid = old(self).clients@.update(
                    k,
                    (Client { floating: !old(self).clients@[k].floating, ..old(self).clients@[k] }),
                );
                &&& final(self).clients@.len() == old(self).clients@.len()
                &&& final(self).clients@[k].floating == !old(self).clients@[k].floating
                &&& final(self).clients@[k].window == window
                &&& final(self).stacking@ == old(self).stacking@
                &&& relayout_cmds(final(self).cur_ws(), mid, cmds@)
                &&& relayout_arena(final(self).cur_ws(), mid, final(self).clients@)
            },
    {
        match self.client_index(window) {
            None => Vec::new(),
            Some(k) => {
                let ghost wm0 = *self;
                let now = self.clients[k].floating;
                let c = &mut self.clients[k];
                c.floating = !now;
                proof {
                    assert(self.clients@ =~= wm0.clients@.update(
                        k as int,
                        (Client { floating: !wm0.clients@[k as int].floating, ..wm0.clients@[k as int] }),
                    ));
                }
                proof {
                    assert forall|k2: int| 0 <= k2 < wm0.clients@.len() implies (
                    #[trigger] self.clients@[k2]).window == wm0.clients@[k2].window by {
                        if k2 != k {
                            assert(self.clients@[k2] == wm0.clients@[k2]);
                        }
                    }
                    lemma_same_windows_wf(wm0, *self);
                }
                let cm = self.cur_monitor;
                let cw = self.monitors[cm].cur_workspace;
                proof {
                    assert(self.monitors@[cm as int].wf());
                }
                self.relayout_workspace(cm, cw)
            },
        }
    }

    /// Toggles the fullscreen state of the client: entering fullscreen moves
    /// it over the monitor's full physical dimensions; leaving it re-runs the
    /// visible workspace's layout.
    pub fn toggle_fullscreen(&mut self, window: u64) -> (cmds: Vec<WmCommand>)
        requires
            old(self).wf(),
        ensures
            final(self).wf(),
            !old(self).spec_is_managed(window) ==> *final(self) == *old(self) && cmds@.len() == 0,
            old(self).spec_is_managed(window) ==> {
                let k = client_index_spec(old(self).clients@, window);
                &&& final(self).clients@.len() == old(self).clients@.len()
                &&& final(self).clients@[k].fullscreen == !old(self).clients@[k].fullscreen
                &&& final(self).clients@[k].window == window
                &&& final(self).stacking@ == old(self).stacking@
                &&& (!old(self).clients@[k].fullscreen ==> cmds@ == seq![
                    WmCommand::MoveResize(
                        window,
                        old(self).monitors@[old(self).cur_monitor as int].config.dims,
                    ),
                    WmCommand::SetFullscreenHint(window, true),
                ])
                &&& (old(self).clients@[k].fullscreen ==> ({
                    let mid = old(self).clients@.update(
                        k,
                        (Client { fullscreen: false, ..old(self).clients@[k] }),
                    );
                    &&& cmds@.len() > 0
                    &&& cmds@[cmds@.len() - 1] == WmCommand::SetFullscreenHint(window, false)
                    &&& relayout_cmds(final(self).cur_ws(), mid, cmds@.drop_last())
                    &&& relayout_arena(final(self).cur_ws(), mid, final(self).clients@)
                }))
            },
    {
        match self.client_index(window) {
            None => Vec::new(),
            Some(k) => {
                let ghost wm0 = *self;
                let now = self.clients[k].fullscreen;
                let cm = self.cur_monitor;
                let dims = self.monitors[cm].config.dims;
                if !now {
                    let c = &mut self.clients[k];
                    c.fullscreen = true;
                    c.move_resize(dims.x, dims.y, dims.w, dims.h);
                    proof {
                        assert forall|k2: int| 0 <= k2 < wm0.clients@.len() implies (
                        #[trigger] self.clients@[k2]).window == wm0.clients@[k2].window by {
                            if k2 != k {
                                assert(self.clients@[k2] == wm0.clients@[k2]);
                            }
                        }
                        lemma_same_windows_wf(wm0, *self);
                    }
                    let mut cmds: Vec<WmCommand> = Vec::new();
                    cmds.push(WmCommand::MoveResize(window, dims));
                    cmds.push(WmCommand::SetFullscreenHint(window, true));
                    proof {
                        assert(cmds@ =~= seq![
                            WmCommand::MoveResize(window, dims),
                            WmCommand::SetFullscreenHint(window, true),
                        ]);
                    }
                    cmds
                } else {
                    let c = &mut self.clients[k];
                    c.fullscreen = false;
                    proof {
                        assert(self.clients@ =~= wm0.clients@.update(
                            k as int,
                            (Client { fullscreen: false, ..wm0.clients@[k as int] }),
                        ));
                        assert forall|k2: int| 0 <= k2 < wm0.clients@.len() implies (
                        #[trigger] self.clients@[k2]).window == wm0.clients@[k2].window by {
                            if k2 != k {
                                assert(self.clients@[k2] == wm0.clients@[k2]);
                            }
                        }
                        lemma_same_windows_wf(wm0, *self);
                    }
                    let cw = self.monitors[cm].cur_workspace;
                    proof {
                        assert(self.monitors@[cm as int].wf());
                    }
                    let mut cmds = self.relayout_workspace(cm, cw);
                    let ghost rel = cmds@;
                    cmds.push(WmCommand::SetFullscreenHint(window, false));
                    proof {
                        assert(cmds@.drop_last() =~= rel);
                    }
                    cmds
                }
            },
        }
    }

    /// Centers the client on the focused monitor's work area.
    pub fn center_client(&mut self, window: u64) -> (cmds: Vec<WmCommand>)
        requires
            old(self).wf(),
        ensures
            final(self).wf(),
            !old(self).spec_is_managed(window) ==> *final(self) == *old(self) && cmds@.len() == 0,
            old(self).spec_is_managed(window) ==> {
                let k = client_index_spec(old(self).clients@, window);
                let area = old(self).monitors@[old(self).cur_monitor as int].config.win_area;
                let c = old(self).clients@[k];
                let nx = crate::geometry::clamp_i32(
                    area.x + area.w as int / 2 - c.dimensions.w as int / 2,
                );
                let ny = crate::geometry::clamp_i32(
                    area.y + area.h as int / 2 - c.dimensions.h as int / 2,
                );
                &&& final(self).clients@ == old(self).clients@.update(
                    k,
                    (Client {
                        dimensions: (Dimensions {
                            x: nx as i32,
                            y: ny as i32,
                            ..c.dimensions
                        }),
                        ..c
                    }),
                )
                &&& cmds@ == seq![
                    WmCommand::MoveResize(
                        window,
                        (Dimensions { x: nx as i32, y: ny as i32, ..c.dimensions }),
                    ),
                ]
            },
    {
        match self.client_index(window) {
            None => Vec::new(),
            Some(k) => {
                let ghost wm0 = *self;
                let cm = self.cur_monitor;
                let area = self.monitors[cm].config.win_area;
                let d = self.clients[k].dimensions;
                let x64: i64 = area.x as i64 + (area.w / 2) as i64 - (d.w / 2) as i64;
                let y64: i64 = area.y as i64 + (area.h / 2) as i64 - (d.h / 2) as i64;
                let nx: i32 = if x64 > i32::MAX as i64 {
                    i32::MAX
                } else if x64 < i32::MIN as i64 {
                    i32::MIN
                } else {
                    x64 as i32
                };
                let ny: i32 = if y64 > i32::MAX as i64 {
                    i32::MAX
                } else if y64 < i32::MIN as i64 {
                    i32::MIN
                } else {
                    y64 as i32
                };
                let c = &mut self.clients[k];
                c.move_resize(nx, ny, d.w, d.h);
                proof {
                    assert forall|k2: int| 0 <= k2 < wm0.clients@.len() implies (
                    #[trigger] self.clients@[k2]).window == wm0.clients@[k2].window by {
                        if k2 != k {
                            assert(self.clients@[k2] == wm0.clients@[k2]);
                        }
                    }
                    lemma_same_windows_wf(wm0, *self);
                    assert(self.clients@ =~= wm0.clients@.update(
                        k as int,
                        (Client {
                            dimensions: (Dimensions { x: nx, y: ny, ..wm0.clients@[k as int].dimensions }),
                            ..wm0.clients@[k as int]
                        }),
                    ));
                }
                let mut cmds: Vec<WmCommand> = Vec::new();
                cmds.push(WmCommand::MoveResize(window, Dimensions { x: nx, y: ny, w: d.w, h: d.h }));
                proof {
                    assert(cmds@ =~= seq![
                        WmCommand::MoveResize(
                            window,
                            (Dimensions { x: nx, y: ny, ..wm0.clients@[k as int].dimensions }),
                        ),
                    ]);
                }
                cmds
            },
        }
    }
}


/// The effect of moving a client to workspace `(tm, tw)`: it leaves the list
/// that held it, enters the front of the target list, and both layouts are
/// re-run (the command list is the two relayouts, source first).
pub open spec fn moved_client_effect(
    pre: MarsWM,
    post: MarsWM,
    window: u64,
    tm: int,
    tw: int,
    cmds: Seq<WmCommand>,
) -> bool {
    forall|m0: int, w0: int|
        pre.valid_ws(m0, w0) && #[trigger] pre.ws_clients(m0, w0).contains(window) && (m0 != tm
            || w0 != tw) ==> {
            let src = post.monitors@[m0].workspaces@[w0];
            let tgt = post.monitors@[tm].workspaces@[tw];
            &&& post.ws_clients(m0, w0) == pre.ws_clients(m0, w0).remove(
                first_index_of(pre.ws_clients(m0, w0), window),
            )
            &&& post.ws_clients(tm, tw) == seq![window] + pre.ws_clients(tm, tw)
            &&& cmds.len() == src.clients@.len() + tgt.clients@.len()
            &&& relayout_cmds(src, pre.clients@, cmds.subrange(0, src.clients@.len() as int))
            &&& relayout_cmds(
                tgt,
                pre.clients@,
                cmds.subrange(src.clients@.len() as int, cmds.len() as int),
            )
        }
}

/// The full effect of executing one binding action against the core: the
/// state transition and the returned command list, per action tag. The
/// dispatching functions restate their behaviour through this predicate.
pub open spec fn action_effect(
    action: crate::bindings::BindingAction,
    client_option: Option<u64>,
    pre: MarsWM,
    post: MarsWM,
    cmds: Seq<WmCommand>,
) -> bool {
    &&& (crate::bindings::needs_target(action) && client_option is None ==> post == pre
        && cmds.len() == 0)
    &&& (action matches crate::bindings::BindingAction::Execute(cmd) ==> post == pre && cmds.len()
        == 1 && (cmds[0] matches WmCommand::Spawn(c) && c@ == cmd@))
    &&& (action == crate::bindings::BindingAction::Exit ==> post == pre && cmds == seq![
        WmCommand::ExitWm,
    ])
    &&& (action == crate::bindings::BindingAction::Restart ==> post == pre && cmds == seq![
        WmCommand::RestartWm,
    ])
    &&& (action matches crate::bindings::BindingAction::SetLayout(l) ==> post.cur_ws() == (
    Workspace { cur_layout: l, ..pre.cur_ws() }) && relayout_cmds(
        post.cur_ws(),
        pre.clients@,
        cmds,
    ))
    &&& (action == crate::bindings::BindingAction::CycleLayout ==> post.cur_ws() == (Workspace {
        cur_layout: pre.cur_ws().cur_layout.spec_next(),
        ..pre.cur_ws()
    }) && relayout_cmds(post.cur_ws(), pre.clients@, cmds))
    &&& (action matches crate::bindings::BindingAction::SetStackMode(sm) ==> post.cur_ws() == (
    Workspace { stack_mode: sm, ..pre.cur_ws() }) && relayout_cmds(
        post.cur_ws(),
        pre.clients@,
        cmds,
    ))
    &&& (action matches crate::bindings::BindingAction::SetStackPosition(sp) ==> post.cur_ws()
        == (Workspace { stack_position: sp, ..pre.cur_ws() }) && relayout_cmds(
        post.cur_ws(),
        pre.clients@,
        cmds,
    ))
    &&& (action matches crate::bindings::BindingAction::IncGaps(d) ==> post.cur_ws() == (
    Workspace {
        gap_width: crate::geometry::clamp_u32(pre.cur_ws().gap_width + d),
        ..pre.cur_ws()
    }) && relayout_cmds(post.cur_ws(), pre.clients@, cmds))
    &&& (action matches crate::bindings::BindingAction::IncNMain(d) ==> post.cur_ws() == (
    Workspace {
        nmain: crate::geometry::clamp_u32(pre.cur_ws().nmain + d),
        ..pre.cur_ws()
    }) && relayout_cmds(post.cur_ws(), pre.clients@, cmds))
    &&& (action matches crate::bindings::BindingAction::ChangeMainRatio(d) ==> post.cur_ws() == (
    Workspace {
        main_ratio: {
            let v = pre.cur_ws().main_ratio + d;
            if v < crate::workspace::MAIN_RATIO_MIN {
                crate::workspace::MAIN_RATIO_MIN
            } else if v > crate::workspace::MAIN_RATIO_MAX {
                crate::workspace::MAIN_RATIO_MAX
            } else {
                v as u32
            }
        },
        ..pre.cur_ws()
    }) && relayout_cmds(post.cur_ws(), pre.clients@, cmds))
    &&& (client_option matches Some(c) ==> (action
        == crate::bindings::BindingAction::CloseClient ==> post == pre && cmds == (
    if pre.spec_is_managed(c) {
        if pre.clients@[client_index_spec(pre.clients@, c)].supports_delete {
            seq![WmCommand::SendDelete(c)]
        } else {
            seq![WmCommand::KillWindow(c)]
        }
    } else {
        Seq::<WmCommand>::empty()
    })))
    &&& (client_option matches Some(c) ==> ((action == crate::bindings::BindingAction::MouseMove
        || action == crate::bindings::BindingAction::MousePlace) ==> post == pre && cmds == seq![
        WmCommand::GrabPointer(c, DragKind::Move),
    ]))
    &&& (client_option matches Some(c) ==> ((action
        == crate::bindings::BindingAction::MouseResize || action
        == crate::bindings::BindingAction::MouseResizeCentered) ==> post == pre && cmds == (
    if pre.spec_is_managed(c) && pre.clients@[client_index_spec(pre.clients@, c)].floating {
        seq![WmCommand::GrabPointer(c, DragKind::Resize)]
    } else {
        Seq::<WmCommand>::empty()
    })))
    &&& (action matches crate::bindings::BindingAction::SwitchWorkspace(n) ==> ({
        let cm = pre.cur_monitor as int;
        let count = pre.monitors@[cm].workspaces@.len();
        &&& (n < count ==> ({
            let ws = pre.monitors@[cm].workspaces@[n as int];
            let dims = ws_dims(pre.clients@, ws.clients@);
            &&& post.monitors@[cm].cur_workspace == n
            &&& cmds.len() == 1 + ws.clients@.len()
            &&& cmds[0] == WmCommand::ExportCurrentWorkspace(n as u64)
            &&& forall|i: int|
                0 <= i < ws.clients@.len() ==> cmds[1 + i] == WmCommand::MoveResize(
                    ws.clients@[i],
                    layout_cell(ws.spec_params(), ws.win_area, dims, i),
                )
        }))
        &&& (n >= count ==> post == pre && cmds.len() == 0)
    }))
    &&& (action matches crate::bindings::BindingAction::CycleMonitor(d) ==> post == (MarsWM {
        cur_monitor: ((pre.cur_monitor + d) % (pre.monitors@.len() as int)) as usize,
        ..pre
    }) && cmds.len() == 0)
    &&& (client_option matches Some(c) ==> (action == crate::bindings::BindingAction::MoveMain
        ==> MarsWM::same_clients_but_dims(pre.clients@, post.clients@) && relayout_cmds(
        post.cur_ws(),
        pre.clients@,
        cmds,
    ) && (pre.cur_ws().clients@.contains(c) ==> post.cur_ws().clients@ == seq![c]
        + pre.cur_ws().clients@.remove(first_index_of(pre.cur_ws().clients@, c)))))
    &&& (action matches crate::bindings::BindingAction::StackMove(d) ==> (client_option matches Some(
        c,
    ) ==> MarsWM::same_clients_but_dims(pre.clients@, post.clients@) && relayout_cmds(
        post.cur_ws(),
        pre.clients@,
        cmds,
    ) && (pre.cur_ws().clients@.contains(c) ==> ({
        let list = pre.cur_ws().clients@;
        let i = first_index_of(list, c);
        let j = crate::geometry::clamp_index(i + d, list.len() as int);
        post.cur_ws().clients@ == list.update(i, list[j]).update(j, list[i])
    }))))
    &&& (action == crate::bindings::BindingAction::FocusMain ==> ({
        &&& (pre.cur_ws().clients@.len() == 0 ==> post == pre && cmds.len() == 0)
        &&& (pre.cur_ws().clients@.len() > 0 ==> ({
            let target = pre.cur_ws().clients@[0];
            &&& post == (MarsWM { focused: Some(target), ..pre })
            &&& cmds == seq![
                WmCommand::SetInputFocus(
                    pre.clients@[client_index_spec(pre.clients@, target)].frame,
                ),
                WmCommand::ExportActiveWindow(target),
            ]
        }))
    }))
    &&& (action matches crate::bindings::BindingAction::CycleClient(d) ==> ({
        &&& (pre.cur_ws().clients@.len() == 0 ==> post == pre && cmds.len() == 0)
        &&& (pre.cur_ws().clients@.len() > 0 ==> ({
            let list = pre.cur_ws().clients@;
            let idx0 = match pre.focused {
                Some(f) => if list.contains(f) {
                    first_index_of(list, f)
                } else {
                    0
                },
                None => 0,
            };
            let target = list[(idx0 + d) % (list.len() as int)];
            &&& post == (MarsWM { focused: Some(target), ..pre })
            &&& cmds == seq![
                WmCommand::SetInputFocus(
                    pre.clients@[client_index_spec(pre.clients@, target)].frame,
                ),
                WmCommand::ExportActiveWindow(target),
            ]
        }))
    }))
    &&& (client_option matches Some(c) ==> (action
        == crate::bindings::BindingAction::ToggleFloating && pre.spec_is_managed(c) ==> ({
        let k = client_index_spec(pre.clients@, c);
        let mid = pre.clients@.update(
            k,
            (Client { floating: !pre.clients@[k].floating, ..pre.clients@[k] }),
        );
        &&& post.clients@.len() == pre.clients@.len()
        &&& post.clients@[k].floating == !pre.clients@[k].floating
        &&& post.clients@[k].window == c
        &&& relayout_cmds(post.cur_ws(), mid, cmds)
    })))
    &&& (client_option matches Some(c) ==> (action
        == crate::bindings::BindingAction::ToggleFullscreen && pre.spec_is_managed(c) ==> ({
        let k = client_index_spec(pre.clients@, c);
        &&& post.clients@.len() == pre.clients@.len()
        &&& post.clients@[k].fullscreen == !pre.clients@[k].fullscreen
        &&& post.clients@[k].window == c
        &&& (!pre.clients@[k].fullscreen ==> cmds == seq![
            WmCommand::MoveResize(c, pre.monitors@[pre.cur_monitor as int].config.dims),
            WmCommand::SetFullscreenHint(c, true),
        ])
        &&& (pre.clients@[k].fullscreen ==> cmds.len() > 0 && cmds[cmds.len() - 1]
            == WmCommand::SetFullscreenHint(c, false) && relayout_cmds(
            post.cur_ws(),
            pre.clients@.update(k, (Client { fullscreen: false, ..pre.clients@[k] })),
            cmds.drop_last(),
        ))
    })))
    &&& (client_option matches Some(c) ==> (action
        == crate::bindings::BindingAction::CenterClient && pre.spec_is_managed(c) ==> ({
        let k = client_index_spec(pre.clients@, c);
        let area = pre.monitors@[pre.cur_monitor as int].config.win_area;
        let cl = pre.clients@[k];
        let nx = crate::geometry::clamp_i32(area.x + area.w as int / 2 - cl.dimensions.w as int / 2);
        let ny = crate::geometry::clamp_i32(area.y + area.h as int / 2 - cl.dimensions.h as int / 2);
        &&& post.clients@ == pre.clients@.update(
            k,
            (Client {
                dimensions: (Dimensions { x: nx as i32, y: ny as i32, ..cl.dimensions }),
                ..cl
            }),
        )
        &&& cmds == seq![
            WmCommand::MoveResize(
                c,
                (Dimensions { x: nx as i32, y: ny as i32, ..cl.dimensions }),
            ),
        ]
    })))
    &&& (action matches crate::bindings::BindingAction::CycleWorkspace(d) ==> ({
        let cm = pre.cur_monitor as int;
        let count = pre.monitors@[cm].workspaces@.len() as int;
        let cur = pre.monitors@[cm].cur_workspace as int;
        count <= u32::MAX ==> post.monitors@[cm].cur_workspace == (cur + d) % count
    }))
    &&& (action == crate::bindings::BindingAction::PreviousWorkspace ==> ({
        let cm = pre.cur_monitor as int;
        pre.monitors@[cm].prev_workspace <= u32::MAX ==> post.monitors@[cm].cur_workspace
            == pre.monitors@[cm].prev_workspace
    }))
    &&& (action matches crate::bindings::BindingAction::MoveWorkspace(n) ==> (client_option matches Some(
        c,
    ) ==> ((n as int) < pre.monitors@[pre.cur_monitor as int].workspaces@.len()
        ==> moved_client_effect(pre, post, c, pre.cur_monitor as int, n as int, cmds))))
    &&& (action matches crate::bindings::BindingAction::MoveMonitor(d) ==> (client_option matches Some(
        c,
    ) ==> ({
        let tm = (pre.cur_monitor + d) % (pre.monitors@.len() as int);
        let tw = pre.monitors@[tm].cur_workspace as int;
        moved_client_effect(pre, post, c, tm, tw, cmds)
    })))
}

/// The effect predicate does not distinguish actions that are alike (equal up
/// to the characters of an `Execute` command string).
pub proof fn lemma_action_effect_like(
    a: crate::bindings::BindingAction,
    b: crate::bindings::BindingAction,
    client_option: Option<u64>,
    pre: MarsWM,
    post: MarsWM,
    cmds: Seq<WmCommand>,
)
    requires
        crate::bindings::action_like(a, b),
        action_effect(a, client_option, pre, post, cmds),
    ensures
        action_effect(b, client_option, pre, post, cmds),
{
    match a {
        crate::bindings::BindingAction::Execute(x) => {
            match b {
                crate::bindings::BindingAction::Execute(y) => {
                    assert(x@ == y@);
                },
                _ => {
                    assert(false);
                },
            }
        },
        _ => {
            assert(a == b);
        },
    }
}

impl crate::bindings::BindingAction {
    /// The action-execution interpreter: the action tag selects one core
    /// operation. Actions requiring a target client are no-ops when no client
    /// is associated with the triggering event (never an error).
    #[verifier::rlimit(100)]
    pub fn execute(&self, wm: &mut MarsWM, client_option: Option<u64>) -> (cmds: Vec<WmCommand>)
        requires
            old(wm).wf(),
        ensures
            final(wm).wf(),
            action_effect(*self, client_option, *old(wm), *final(wm), cmds@),
    {
        match self {
            crate::bindings::BindingAction::CenterClient => {
                let r = {
                match client_option {
                    Some(c) => wm.center_client(c),
                    None => Vec::new(),
                }
            };
                proof {
                    assert(action_effect(*self, client_option, *old(wm), *wm, r@));
                }
                r
            },
            crate::bindings::BindingAction::ChangeMainRatio(d) => {
                let r = wm.change_cur_main_ratio(*d);
                proof {
                    assert(action_effect(*self, client_option, *old(wm), *wm, r@));
                }
                r
            },
            crate::bindings::BindingAction::CloseClient => {
                let r = {
                match client_option {
                    Some(c) => wm.close_client(c),
                    None => Vec::new(),
                }
            };
                proof {
                    assert(*wm == *old(wm));
                    match client_option {
                        Some(c) => {
                            assert(r@ == (if old(wm).spec_is_managed(c) {
                                if old(wm).clients@[client_index_spec(
                                    old(wm).clients@,
                                    c,
                                )].supports_delete {
                                    seq![WmCommand::SendDelete(c)]
                                } else {
                                    seq![WmCommand::KillWindow(c)]
                                }
                            } else {
                                Seq::<WmCommand>::empty()
                            }));
                        },
                        None => {
                            assert(r@.len() == 0);
                        },
                    }
                    assert(action_effect(*self, client_option, *old(wm), *wm, r@));
                }
                r
            },
            crate::bindings::BindingAction::CycleClient(d) => {
                let r = wm.cycle_client(*d);
                proof {
                    assert(action_effect(*self, client_option, *old(wm), *wm, r@));
                }
                r
            },
            crate::bindings::BindingAction::CycleLayout => {
                let r = wm.cycle_cur_layout();
                proof {
                    assert(action_effect(*self, client_option, *old(wm), *wm, r@));
                }
                r
            },
            crate::bindings::BindingAction::CycleMonitor(d) => {
                let r = {
                let n = wm.monitors.len();
                wm.cur_monitor = cycle_index(wm.cur_monitor, *d, n);
                proof {
                    lemma_same_windows_wf(*old(wm), *wm);
                }
                Vec::new()
            };
                proof {
                    assert(action_effect(*self, client_option, *old(wm), *wm, r@));
                }
                r
            },
            crate::bindings::BindingAction::CycleWorkspace(d) => {
                let r = {
                let cm = wm.cur_monitor;
                let count = wm.monitors[cm].workspace_count();
                let cur = wm.monitors[cm].cur_workspace;
                proof {
                    assert(wm.monitors@[cm as int].wf());
                }
                let t = cycle_index(cur, *d, count);
                if t <= u32::MAX as usize {
                    wm.switch_workspace(t as u32)
                } else {
                    Vec::new()
                }
            };
                proof {
                    assert(action_effect(*self, client_option, *old(wm), *wm, r@));
                }
                r
            },
            crate::bindings::BindingAction::Execute(cmd) => {
                let r = {
                let mut cmds: Vec<WmCommand> = Vec::new();
                cmds.push(WmCommand::Spawn(crate::bindings::clone_string(cmd)));
                cmds
            };
                proof {
                    assert(action_effect(*self, client_option, *old(wm), *wm, r@));
                }
                r
            },
            crate::bindings::BindingAction::Exit => {
                let r = {
                let mut cmds: Vec<WmCommand> = Vec::new();
                cmds.push(WmCommand::ExitWm);
                proof {
                    assert(cmds@ =~= seq![WmCommand::ExitWm]);
                }
                cmds
            };
                proof {
                    assert(action_effect(*self, client_option, *old(wm), *wm, r@));
                }
                r
            },
            crate::bindings::BindingAction::FocusMain => {
                let r = wm.focus_main();
                proof {
                    assert(action_effect(*self, client_option, *old(wm), *wm, r@));
                }
                r
            },
            crate::bindings::BindingAction::IncGaps(d) => {
                let r = wm.inc_cur_gaps(*d);
                proof {
                    assert(action_effect(*self, client_option, *old(wm), *wm, r@));
                }
                r
            },
            crate::bindings::BindingAction::IncNMain(d) => {
                let r = wm.inc_cur_nmain(*d);
                proof {
                    assert(action_effect(*self, client_option, *old(wm), *wm, r@));
                }
                r
            },
            crate::bindings::BindingAction::MouseMove => {
                let r = {
                match client_option {
                    Some(c) => {
                        let mut cmds: Vec<WmCommand> = Vec::new();
                        cmds.push(WmCommand::GrabPointer(c, DragKind::Move));
                        proof {
                            assert(cmds@ =~= seq![WmCommand::GrabPointer(c, DragKind::Move)]);
                        }
                        cmds
                    },
                    None => Vec::new(),
                }
            };
                proof {
                    assert(action_effect(*self, client_option, *old(wm), *wm, r@));
                }
                r
            },
            crate::bindings::BindingAction::MousePlace => {
                let r = {
                match client_option {
                    Some(c) => {
                        let mut cmds: Vec<WmCommand> = Vec::new();
                        cmds.push(WmCommand::GrabPointer(c, DragKind::Move));
                        proof {
                            assert(cmds@ =~= seq![WmCommand::GrabPointer(c, DragKind::Move)]);
                        }
                        cmds
                    },
                    None => Vec::new(),
                }
            };
                proof {
                    assert(action_effect(*self, client_option, *old(wm), *wm, r@));
                }
                r
            },
            crate::bindings::BindingAction::MouseResize => {
                let r = {
                match client_option {
                    Some(c) => wm.grab_resize_if_floating(c),
                    None => Vec::new(),
                }
            };
                proof {
                    assert(action_effect(*self, client_option, *old(wm), *wm, r@));
                }
                r
            },
            crate::bindings::BindingAction::MouseResizeCentered => {
                let r = {
                match client_option {
                    Some(c) => wm.grab_resize_if_floating(c),
                    None => Vec::new(),
                }
            };
                proof {
                    assert(action_effect(*self, client_option, *old(wm), *wm, r@));
                }
                r
            },
            crate::bindings::BindingAction::MoveMain => {
                let r = {
                match client_option {
                    Some(c) => wm.move_main(c),
                    None => Vec::new(),
                }
            };
                proof {
                    assert(action_effect(*self, client_option, *old(wm), *wm, r@));
                }
                r
            },
            crate::bindings::BindingAction::MoveMonitor(d) => {
                let r = {
                match client_option {
                    Some(c) => {
                        let n = wm.monitors.len();
                        let tm = cycle_index(wm.cur_monitor, *d, n);
                        let tw = wm.monitors[tm].cur_workspace;
                        proof {
                            assert(wm.monitors@[tm as int].wf());
                        }
                        wm.move_client_to(c, tm, tw)
                    },
                    None => Vec::new(),
                }
            };
                proof {
                    assert(action_effect(*self, client_option, *old(wm), *wm, r@));
                }
                r
            },
            crate::bindings::BindingAction::MoveWorkspace(n) => {
                let r = {
                match client_option {
                    Some(c) => {
                        let cm = wm.cur_monitor;
                        let count = wm.monitors[cm].workspace_count();
                        if (*n as usize) < count {
                            wm.move_client_to(c, cm, *n as usize)
                        } else {
                            Vec::new()
                        }
                    },
                    None => Vec::new(),
                }
            };
                proof {
                    assert(action_effect(*self, client_option, *old(wm), *wm, r@));
                }
                r
            },
            crate::bindings::BindingAction::PreviousWorkspace => {
                let r = {
                let cm = wm.cur_monitor;
                let t = wm.monitors[cm].prev_workspace;
                if t <= u32::MAX as usize {
                    wm.switch_workspace(t as u32)
                } else {
                    Vec::new()
                }
            };
                proof {
                    assert(action_effect(*self, client_option, *old(wm), *wm, r@));
                }
                r
            },
            crate::bindings::BindingAction::Restart => {
                let r = {
                let mut cmds: Vec<WmCommand> = Vec::new();
                cmds.push(WmCommand::RestartWm);
                proof {
                    assert(cmds@ =~= seq![WmCommand::RestartWm]);
                }
                cmds
            };
                proof {
                    assert(action_effect(*self, client_option, *old(wm), *wm, r@));
                }
                r
            },
            crate::bindings::BindingAction::SetLayout(l) => {
                let r = wm.set_cur_layout(*l);
                proof {
                    assert(action_effect(*self, client_option, *old(wm), *wm, r@));
                }
                r
            },
            crate::bindings::BindingAction::SetStackMode(m) => {
                let r = wm.set_cur_stack_mode(*m);
                proof {
                    assert(action_effect(*self, client_option, *old(wm), *wm, r@));
                }
                r
            },
            crate::bindings::BindingAction::SetStackPosition(p) => {
                let r = wm.set_cur_stack_position(*p);
                proof {
                    assert(action_effect(*self, client_option, *old(wm), *wm, r@));
                }
                r
            },
            crate::bindings::BindingAction::StackMove(d) => {
                let r = {
                match client_option {
                    Some(c) => wm.stack_move(c, *d),
                    None => Vec::new(),
                }
            };
                proof {
                    assert(action_effect(*self, client_option, *old(wm), *wm, r@));
                }
                r
            },
            crate::bindings::BindingAction::SwitchWorkspace(n) => {
                let r = wm.switch_workspace(*n);
                proof {
                    assert(action_effect(*self, client_option, *old(wm), *wm, r@));
                }
                r
            },
            crate::bindings::BindingAction::ToggleFloating => {
                let r = {
                match client_option {
                    Some(c) => wm.toggle_floating(c),
                    None => Vec::new(),
                }
            };
                proof {
                    assert(action_effect(*self, client_option, *old(wm), *wm, r@));
                }
                r
            },
            crate::bindings::BindingAction::ToggleFullscreen => {
                let r = {
                match client_option {
                    Some(c) => wm.toggle_fullscreen(c),
                    None => Vec::new(),
                }
            };
                proof {
                    assert(action_effect(*self, client_option, *old(wm), *wm, r@));
                }
                r
            },
        }
    }
}

impl MarsWM {
    /// A resize drag is offered only for floating clients: the pointer grab
    /// command, or nothing.
    pub fn grab_resize_if_floating(&self, window: u64) -> (cmds: Vec<WmCommand>)
        ensures
            cmds@ == (if self.spec_is_managed(window) && self.clients@[client_index_spec(
                self.clients@,
                window,
            )].floating {
                seq![WmCommand::GrabPointer(window, DragKind::Resize)]
            } else {
                Seq::<WmCommand>::empty()
            }),
    {
        match self.client_index(window) {
            Some(k) => {
                if self.clients[k].floating {
                    let mut cmds: Vec<WmCommand> = Vec::new();
                    cmds.push(WmCommand::GrabPointer(window, DragKind::Resize));
                    proof {
                        assert(cmds@ =~= seq![WmCommand::GrabPointer(window, DragKind::Resize)]);
                    }
                    cmds
                } else {
                    Vec::new()
                }
            },
            None => Vec::new(),
        }
    }

    /// Resolves a key press: the sanitized modifier mask and key symbol are
    /// matched against the binding table, first match wins; the matched
    /// binding's action is executed. An event matching no binding produces no
    /// action.
    pub fn handle_key(&mut self, modifiers: u32, key: u32, client_option: Option<u64>) -> (cmds:
        Vec<WmCommand>)
        requires
            old(self).wf(),
        ensures
            final(self).wf(),
            ({
                let sm = modifiers & crate::bindings::HONORED_MODIFIERS;
                let bs = old(self).key_bindings@;
                let fi = crate::bindings::first_key_match(bs, sm, key);
                &&& (fi == bs.len() ==> *final(self) == *old(self) && cmds@.len() == 0)
                &&& (fi < bs.len() ==> action_effect(
                    bs[fi].action,
                    client_option,
                    *old(self),
                    *final(self),
                    cmds@,
                ))
            }),
    {
        let m = crate::bindings::sanitize_modifiers(modifiers);
        proof {
            crate::bindings::lemma_first_key_match(self.key_bindings@, m, key);
        }
        match crate::bindings::resolve_key_binding(&self.key_bindings, m, key) {
            None => {
                proof {
                    let fi = crate::bindings::first_key_match(self.key_bindings@, m, key);
                    if fi < self.key_bindings@.len() {
                        assert(crate::bindings::key_binding_matches(
                            &self.key_bindings@[fi],
                            m,
                            key,
                        ));
                    }
                }
                Vec::new()
            },
            Some(i) => {
                proof {
                    let fi = crate::bindings::first_key_match(self.key_bindings@, m, key);
                    assert(crate::bindings::key_binding_matches(
                        &self.key_bindings@[i as int],
                        m,
                        key,
                    ));
                    assert(!(fi < i) && !(i < fi));
                }
                let action = crate::bindings::clone_action(&self.key_bindings[i].action);
                let cmds = action.execute(self, client_option);
                proof {
                    lemma_action_effect_like(
                        action,
                        old(self).key_bindings@[i as int].action,
                        client_option,
                        *old(self),
                        *self,
                        cmds@,
                    );
                }
                cmds
            },
        }
    }

    /// Resolves a button press: the sanitized modifier mask, button index and
    /// target class are matched against the binding table, first match wins;
    /// the matched binding's action is executed. An event matching no binding
    /// produces no action.
    pub fn handle_button(
        &mut self,
        modifiers: u32,
        button: u32,
        target: ButtonTarget,
        client_option: Option<u64>,
    ) -> (cmds: Vec<WmCommand>)
        requires
            old(self).wf(),
        ensures
            final(self).wf(),
            ({
                let sm = modifiers & crate::bindings::HONORED_MODIFIERS;
                let bs = old(self).button_bindings@;
                let fi = crate::bindings::first_button_match(bs, sm, button, target);
                &&& (fi == bs.len() ==> *final(self) == *old(self) && cmds@.len() == 0)
                &&& (fi < bs.len() ==> action_effect(
                    bs[fi].action,
                    client_option,
                    *old(self),
                    *final(self),
                    cmds@,
                ))
            }),
    {
        let m = crate::bindings::sanitize_modifiers(modifiers);
        proof {
            crate::bindings::lemma_first_button_match(self.button_bindings@, m, button, target);
        }
        match crate::bindings::resolve_button_binding(&self.button_bindings, m, button, target) {
            None => {
                proof {
                    let fi = crate::bindings::first_button_match(
                        self.button_bindings@,
                        m,
                        button,
                        target,
                    );
                    if fi < self.button_bindings@.len() {
                        assert(crate::bindings::button_binding_matches(
                            &self.button_bindings@[fi],
                            m,
                            button,
                            target,
                        ));
                    }
                }
                Vec::new()
            },
            Some(i) => {
                proof {
                    let fi = crate::bindings::first_button_match(
                        self.button_bindings@,
                        m,
                        button,
                        target,
                    );
                    assert(crate::bindings::button_binding_matches(
                        &self.button_bindings@[i as int],
                        m,
                        button,
                        target,
                    ));
                    assert(!(fi < i) && !(i < fi));
                }
                let action = crate::bindings::clone_action(&self.button_bindings[i].action);
                let cmds = action.execute(self, client_option);
                proof {
                    lemma_action_effect_like(
                        action,
                        old(self).button_bindings@[i as int].action,
                        client_option,
                        *old(self),
                        *self,
                        cmds@,
                    );
                }
                cmds
            },
        }
    }
}


impl MarsWM {
    /// A monitor's usable work area changed (a bar or panel reservation, or a
    /// physical resize): every workspace of the monitor is kept in sync with
    /// it, and the visible workspace's layout is re-applied against the new
    /// area. The invocation policy runs the layout of the other workspaces
    /// when they next become visible.
    pub fn update_window_area(&mut self, m: usize, win_area: Dimensions) -> (cmds: Vec<WmCommand>)
        requires
            old(self).wf(),
            m < old(self).monitors@.len(),
            area_bounded(win_area),
        ensures
            final(self).wf(),
            final(self).monitors@.len() == old(self).monitors@.len(),
            final(self).monitors@[m as int].config == (MonitorConfig {
                win_area,
                ..old(self).monitors@[m as int].config
            }),
            final(self).monitors@[m as int].workspaces@.len() == old(self).monitors@[m as int].workspaces@.len(),
            forall|w: int|
                0 <= w < old(self).monitors@[m as int].workspaces@.len() ==> final(self).monitors@[m as int].workspaces@[w] == (Workspace {
                    win_area,
                    ..old(self).monitors@[m as int].workspaces@[w]
                }),
            final(self).monitors@[m as int].cur_workspace == old(self).monitors@[m as int].cur_workspace,
            forall|a: int|
                0 <= a < old(self).monitors@.len() && a != m ==> #[trigger] final(self).monitors@[a]
                    == old(self).monitors@[a],
            final(self).cur_monitor == old(self).cur_monitor,
            final(self).focused == old(self).focused,
            final(self).drag == old(self).drag,
            final(self).stacking@ == old(self).stacking@,
            MarsWM::same_clients_but_dims(old(self).clients@, final(self).clients@),
            ({
                let cw = old(self).monitors@[m as int].cur_workspace as int;
                let ws1 = final(self).monitors@[m as int].workspaces@[cw];
                &&& relayout_cmds(ws1, old(self).clients@, cmds@)
                &&& relayout_arena(ws1, old(self).clients@, final(self).clients@)
            }),
    {
        let ghost wm0 = *self;
        {
            let mon = &mut self.monitors[m];
            mon.update_window_area(win_area);
        }
        proof {
            assert(wm0.monitors@[m as int].wf());
            assert forall|a: int| 0 <= a < self.monitors@.len() implies (
            #[trigger] self.monitors@[a]).wf() by {
                if a != m {
                    assert(self.monitors@[a] == wm0.monitors@[a]);
                }
            }
            assert forall|a: int, b: int|
                self.valid_ws(a, b) implies #[trigger] self.ws_clients(a, b) == wm0.ws_clients(
                a,
                b,
            ) by {
                if a != m {
                    assert(self.monitors@[a] == wm0.monitors@[a]);
                }
            }
            assert forall|a: int, b: int, c: int, d: int, x: u64|
                self.valid_ws(a, b) && self.valid_ws(c, d) && (a != c || b != d)
                    && #[trigger] self.ws_clients(a, b).contains(x) implies !(
            #[trigger] self.ws_clients(c, d).contains(x)) by {
                assert(wm0.ws_clients(a, b).contains(x));
                if self.ws_clients(c, d).contains(x) {
                    assert(wm0.ws_clients(c, d).contains(x));
                }
            }
            assert forall|a: int, b: int, x: u64|
                self.valid_ws(a, b) && #[trigger] self.ws_clients(a, b).contains(x) implies self.spec_is_managed(
                x,
            ) by {
                assert(wm0.ws_clients(a, b).contains(x));
            }
        }
        let cw = self.monitors[m].cur_workspace;
        self.relayout_workspace(m, cw)
    }
}

} // verus!
