//! A monitor: a physical display area bound to a set of workspaces, tracking
//! which workspace is currently visible on it.

use vstd::prelude::*;
use crate::geometry::Dimensions;
use crate::geometry::MonitorConfig;
use crate::layout::area_bounded;
use crate::workspace::Workspace;

verus! {

/// The default display names of the workspaces of a monitor.
pub fn default_workspace_name(idx: u32) -> (r: &'static str)
    ensures
        r@ == spec_default_workspace_name(idx),
{
    match idx {
        0u32 => "1",
        1u32 => "2",
        2u32 => "3",
        3u32 => "4",
        4u32 => "5",
        5u32 => "6",
        6u32 => "7",
        7u32 => "8",
        8u32 => "9",
        _ => "workspace",
    }
}

pub open spec fn spec_default_workspace_name(idx: u32) -> Seq<char> {
    if idx == 0 {
        "1"@
    } else if idx == 1 {
        "2"@
    } else if idx == 2 {
        "3"@
    } else if idx == 3 {
        "4"@
    } else if idx == 4 {
        "5"@
    } else if idx == 5 {
        "6"@
    } else if idx == 6 {
        "7"@
    } else if idx == 7 {
        "8"@
    } else if idx == 8 {
        "9"@
    } else {
        "workspace"@
    }
}

/// A monitor: its physical dimensions and usable work area, its ordered
/// workspaces, and the index of the currently visible one.
pub struct Monitor {
    /// physical dimensions and usable work area
    pub config: MonitorConfig,
    /// the workspaces bound to this monitor
    pub workspaces: Vec<Workspace>,
    /// index of the currently visible workspace
    pub cur_workspace: usize,
    /// index of the previously visible workspace
    pub prev_workspace: usize,
}

impl Monitor {
    /// Well-formedness: at least one workspace, the visible indices are in
    /// range, every workspace is well-formed, and the work area lies within
    /// the physical dimensions of the coordinate space.
    pub open spec fn wf(&self) -> bool {
        &&& self.workspaces@.len() > 0
        &&& self.cur_workspace < self.workspaces@.len()
        &&& self.prev_workspace < self.workspaces@.len()
        &&& forall|i: int| 0 <= i < self.workspaces@.len() ==> (#[trigger] self.workspaces@[i]).wf()
        &&& area_bounded(self.config.win_area)
        &&& area_bounded(self.config.dims)
    }

    /// A fresh monitor with `nworkspaces` empty workspaces, the first one
    /// visible.
    pub fn new(config: MonitorConfig, nworkspaces: u32) -> (m: Monitor)
        requires
            nworkspaces >= 1,
            area_bounded(config.win_area),
            area_bounded(config.dims),
        ensures
            m.config == config,
            m.workspaces@.len() == nworkspaces,
            m.cur_workspace == 0,
            m.prev_workspace == 0,
            forall|i: int|
                0 <= i < nworkspaces ==> {
                    &&& (#[trigger] m.workspaces@[i]).num == i
                    &&& m.workspaces@[i].clients@.len() == 0
                    &&& m.workspaces@[i].win_area == config.win_area
                },
            m.wf(),
    {
        let mut workspaces: Vec<Workspace> = Vec::new();
        let mut i: u32 = 0;
        while i < nworkspaces
            invariant
                i <= nworkspaces,
                area_bounded(config.win_area),
                workspaces@.len() == i,
                forall|j: int|
                    0 <= j < i ==> {
                        &&& (#[trigger] workspaces@[j]).num == j
                        &&& workspaces@[j].clients@.len() == 0
                        &&& workspaces@[j].win_area == config.win_area
                        &&& workspaces@[j].wf()
                    },
            decreases nworkspaces - i,
        {
            let name = default_workspace_name(i);
            workspaces.push(Workspace::new(i, name, config.win_area));
            i = i + 1;
        }
        Monitor { config, workspaces, cur_workspace: 0, prev_workspace: 0 }
    }

    /// The number of workspaces on this monitor.
    pub fn workspace_count(&self) -> (r: usize)
        ensures
            r == self.workspaces@.len(),
    {
        self.workspaces.len()
    }

    /// The workspace with the given index, if it exists.
    pub fn workspace(&self, idx: u32) -> (r: Option<&Workspace>)
        ensures
            idx < self.workspaces@.len() ==> (r matches Some(w) && w == &self.workspaces@[
                idx as int
            ]),
            idx >= self.workspaces@.len() ==> r is None,
    {
        if (idx as usize) < self.workspaces.len() {
            Some(&self.workspaces[idx as usize])
        } else {
            None
        }
    }

    /// The currently visible workspace.
    pub fn current_workspace(&self) -> (r: &Workspace)
        requires
            self.cur_workspace < self.workspaces@.len(),
        ensures
            r == &self.workspaces@[self.cur_workspace as int],
    {
        &self.workspaces[self.cur_workspace]
    }

    /// Makes the workspace with index `idx` the visible one and remembers the
    /// previous one.
    pub fn switch_workspace(&mut self, idx: usize)
        requires
            idx < old(self).workspaces@.len(),
        ensures
            *final(self) == (Monitor {
                cur_workspace: idx,
                prev_workspace: old(self).cur_workspace,
                ..*old(self)
            }),
            old(self).wf() ==> final(self).wf(),
    {
        self.prev_workspace = self.cur_workspace;
        self.cur_workspace = idx;
    }

    /// Replaces the usable work area (after a bar/panel reservation change)
    /// and keeps every workspace's work area in sync with it.
    pub fn update_window_area(&mut self, win_area: Dimensions)
        requires
            area_bounded(win_area),
        ensures
            final(self).config == (MonitorConfig { win_area, ..old(self).config }),
            final(self).workspaces@.len() == old(self).workspaces@.len(),
            forall|i: int|
                0 <= i < final(self).workspaces@.len() ==> final(self).workspaces@[i] == (Workspace {
                    win_area,
                    ..old(self).workspaces@[i]
                }),
            final(self).cur_workspace == old(self).cur_workspace,
            final(self).prev_workspace == old(self).prev_workspace,
            old(self).wf() ==> final(self).wf(),
    {
        self.config = MonitorConfig { num: self.config.num, dims: self.config.dims, win_area };
        let n = self.workspaces.len();
        let mut i: usize = 0;
        while i < n
            invariant
                i <= n,
                area_bounded(win_area),
                n == self.workspaces@.len(),
                self.workspaces@.len() == old(self).workspaces@.len(),
                self.config == (MonitorConfig { win_area, ..old(self).config }),
                self.cur_workspace == old(self).cur_workspace,
                self.prev_workspace == old(self).prev_workspace,
                forall|j: int|
                    0 <= j < i ==> self.workspaces@[j] == (Workspace {
                        win_area,
                        ..old(self).workspaces@[j]
                    }),
                forall|j: int| i <= j < n ==> self.workspaces@[j] == old(self).workspaces@[j],
            decreases n - i,
        {
            let w = &mut self.workspaces[i];
            w.update_window_area(win_area);
            i = i + 1;
        }
    }

    /// The workspace listing the client, if any: the first such index.
    pub fn workspace_of_client(&self, client: u64) -> (r: Option<usize>)
        ensures
            match r {
                Some(i) => i < self.workspaces@.len() && self.workspaces@[
                    i as int
                ].clients@.contains(client) && forall|j: int|
                    0 <= j < i ==> !(#[trigger] self.workspaces@[j]).clients@.contains(client),
                None => forall|j: int|
                    0 <= j < self.workspaces@.len() ==> !(
                    #[trigger] self.workspaces@[j]).clients@.contains(client),
            },
    {
        let n = self.workspaces.len();
        let mut i: usize = 0;
        while i < n
            invariant
                i <= n,
                n == self.workspaces@.len(),
                forall|j: int|
                    0 <= j < i ==> !(#[trigger] self.workspaces@[j]).clients@.contains(client),
            decreases n - i,
        {
            if self.workspaces[i].contains_client(client) {
                return Some(i);
            }
            i = i + 1;
        }
        None
    }
}

} // verus!
