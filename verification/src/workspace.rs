//! A workspace: an ordered collection of clients bound to one virtual
//! desktop, plus the active layout and its tunable parameters.

use vstd::prelude::*;
use crate::geometry::Dimensions;
use crate::layout::LayoutParams;
use crate::layout::LayoutType;
use crate::layout::StackMode;
use crate::layout::StackPosition;
use crate::layout::apply_layout;
use crate::layout::area_bounded;
use crate::layout::layout_cell;

verus! {

/// Lower bound for the main-area ratio, in thousandths.
pub const MAIN_RATIO_MIN: u32 = 100;

/// Upper bound for the main-area ratio, in thousandths.
pub const MAIN_RATIO_MAX: u32 = 900;

/// The position of the first occurrence of `c` in `s` (meaningful only when
/// `s` contains `c`).
pub open spec fn first_index_of(s: Seq<u64>, c: u64) -> int
    decreases s.len(),
{
    if s.len() == 0 {
        0
    } else if s[0] == c {
        0
    } else {
        1 + first_index_of(s.drop_first(), c)
    }
}

/// Characterization of `first_index_of`: it is a valid index holding `c`,
/// and nothing before it holds `c`.
pub proof fn lemma_first_index_of(s: Seq<u64>, c: u64)
    requires
        s.contains(c),
    ensures
        0 <= first_index_of(s, c) < s.len(),
        s[first_index_of(s, c)] == c,
        forall|j: int| 0 <= j < first_index_of(s, c) ==> s[j] != c,
    decreases s.len(),
{
    if s[0] == c {
    } else {
        assert(s.drop_first().contains(c)) by {
            let i = choose|i: int| 0 <= i < s.len() && s[i] == c;
            assert(s.drop_first()[i - 1] == c);
        }
        lemma_first_index_of(s.drop_first(), c);
        assert forall|j: int| 0 <= j < first_index_of(s, c) implies s[j] != c by {
            if j > 0 {
                assert(s[j] == s.drop_first()[j - 1]);
            }
        }
    }
}

/// A workspace: its index and display name, the ordered client list (front =
/// most-recently-promoted), the work area it tiles into, and the layout
/// parameters. Clients are identified by their protocol window handle.
pub struct Workspace {
    /// index of the workspace on its monitor
    pub num: u32,
    /// display name exported to the protocol peer
    pub name: &'static str,
    /// ordered client list, front first
    pub clients: Vec<u64>,
    /// the work area the layout tiles into
    pub win_area: Dimensions,
    /// the active layout algorithm
    pub cur_layout: LayoutType,
    /// how many clients the main region holds at most
    pub nmain: u32,
    /// gap subtracted symmetrically from every computed rectangle
    pub gap_width: u32,
    /// share of the work area given to the main region, in thousandths
    pub main_ratio: u32,
    /// where the stack region lies (dynamic layout)
    pub stack_position: StackPosition,
    /// how the stack region is shared (dynamic layout)
    pub stack_mode: StackMode,
}

impl Workspace {
    /// Well-formedness: no client is listed twice, the ratio is within its
    /// sane bounds, and the work area's far edges lie in the `i32` range.
    pub open spec fn wf(&self) -> bool {
        &&& forall|i: int, j: int|
            0 <= i < j < self.clients@.len() ==> self.clients@[i] != self.clients@[j]
        &&& MAIN_RATIO_MIN <= self.main_ratio <= MAIN_RATIO_MAX
        &&& area_bounded(self.win_area)
    }

    /// The layout parameters this workspace currently uses.
    pub open spec fn spec_params(&self) -> LayoutParams {
        LayoutParams {
            layout: self.cur_layout,
            nmain: self.nmain,
            gap_width: self.gap_width,
            main_ratio: self.main_ratio,
            stack_position: self.stack_position,
            stack_mode: self.stack_mode,
        }
    }

    pub fn params(&self) -> (r: LayoutParams)
        ensures
            r == self.spec_params(),
    {
        LayoutParams {
            layout: self.cur_layout,
            nmain: self.nmain,
            gap_width: self.gap_width,
            main_ratio: self.main_ratio,
            stack_position: self.stack_position,
            stack_mode: self.stack_mode,
        }
    }

    /// A fresh workspace: no clients, floating layout, one main client.
    pub fn new(num: u32, name: &'static str, win_area: Dimensions) -> (w: Workspace)
        requires
            area_bounded(win_area),
        ensures
            w.num == num,
            w.name == name,
            w.clients@ == Seq::<u64>::empty(),
            w.win_area == win_area,
            w.cur_layout == LayoutType::Floating,
            w.nmain == 1,
            w.gap_width == 0,
            w.main_ratio == 550,
            w.stack_position == StackPosition::Right,
            w.stack_mode == StackMode::Split,
            w.wf(),
    {
        Workspace {
            num,
            name,
            clients: Vec::new(),
            win_area,
            cur_layout: LayoutType::Floating,
            nmain: 1,
            gap_width: 0,
            main_ratio: 550,
            stack_position: StackPosition::Right,
            stack_mode: StackMode::Split,
        }
    }

    pub fn name(&self) -> (r: &'static str)
        ensures
            r == self.name,
    {
        self.name
    }

    /// The ordered client list, front first.
    pub fn clients(&self) -> (r: &Vec<u64>)
        ensures
            r@ == self.clients@,
    {
        &self.clients
    }

    /// True when the workspace lists the client.
    pub fn contains_client(&self, client: u64) -> (r: bool)
        ensures
            r == self.clients@.contains(client),
    {
        let n = self.clients.len();
        let mut i: usize = 0;
        while i < n
            invariant
                i <= n,
                n == self.clients@.len(),
                forall|j: int| 0 <= j < i ==> self.clients@[j] != client,
            decreases n - i,
        {
            if self.clients[i] == client {
                assert(self.clients@.contains(client)) by {
                    assert(self.clients@[i as int] == client);
                }
                return true;
            }
            i = i + 1;
        }
        false
    }

    /// Re-invokes the layout engine for this workspace's clients. `current`
    /// holds the clients' current geometries in list order; the result holds
    /// their new geometries in the same order.
    pub fn apply_layout(&self, current: &Vec<Dimensions>) -> (r: Vec<Dimensions>)
        requires
            self.wf(),
            current@.len() == self.clients@.len(),
        ensures
            r@.len() == current@.len(),
            forall|i: int|
                0 <= i < r@.len() ==> r@[i] == layout_cell(
                    self.spec_params(),
                    self.win_area,
                    current@,
                    i,
                ),
    {
        let params = self.params();
        apply_layout(&params, self.win_area, current)
    }

    /// Advances to the next layout algorithm in the fixed cycling order.
    pub fn cycle_layout(&mut self)
        ensures
            *final(self) == (Workspace {
                cur_layout: old(self).cur_layout.spec_next(),
                ..*old(self)
            }),
    {
        self.cur_layout = self.cur_layout.next();
    }

    /// Selects a layout algorithm.
    pub fn set_layout(&mut self, layout: LayoutType)
        ensures
            *final(self) == (Workspace { cur_layout: layout, ..*old(self) }),
    {
        self.cur_layout = layout;
    }

    /// Selects the stack mode of the dynamic layout.
    pub fn set_stack_mode(&mut self, mode: StackMode)
        ensures
            *final(self) == (Workspace { stack_mode: mode, ..*old(self) }),
    {
        self.stack_mode = mode;
    }

    /// Selects the stack position of the dynamic layout.
    pub fn set_stack_position(&mut self, pos: StackPosition)
        ensures
            *final(self) == (Workspace { stack_position: pos, ..*old(self) }),
    {
        self.stack_position = pos;
    }

    /// Lowers the number of main-area clients by one, bounded at zero.
    pub fn dec_nmain(&mut self)
        ensures
            *final(self) == (Workspace {
                nmain: if old(self).nmain > 0 {
                    (old(self).nmain - 1) as u32
                } else {
                    0
                },
                ..*old(self)
            }),
    {
        if self.nmain > 0 {
            self.nmain = self.nmain - 1;
        }
    }

    /// Changes the number of main-area clients by `delta`, bounded below at
    /// zero and saturating at the top of the `u32` range.
    pub fn inc_nmain(&mut self, delta: i32)
        ensures
            *final(self) == (Workspace {
                nmain: crate::geometry::clamp_u32(old(self).nmain + delta),
                ..*old(self)
            }),
    {
        let v: i64 = self.nmain as i64 + delta as i64;
        self.nmain = if v < 0 {
            0
        } else if v > u32::MAX as i64 {
            u32::MAX
        } else {
            v as u32
        };
    }

    /// Changes the gap width by `delta`, bounded below at zero and saturating
    /// at the top of the `u32` range.
    pub fn inc_gaps(&mut self, delta: i32)
        ensures
            *final(self) == (Workspace {
                gap_width: crate::geometry::clamp_u32(old(self).gap_width + delta),
                ..*old(self)
            }),
    {
        let v: i64 = self.gap_width as i64 + delta as i64;
        self.gap_width = if v < 0 {
            0
        } else if v > u32::MAX as i64 {
            u32::MAX
        } else {
            v as u32
        };
    }

    /// Changes the main-area ratio by `delta` thousandths, clamped to the
    /// sane ratio bounds.
    pub fn change_main_ratio(&mut self, delta: i32)
        ensures
            *final(self) == (Workspace {
                main_ratio: {
                    let v = old(self).main_ratio + delta;
                    if v < MAIN_RATIO_MIN {
                        MAIN_RATIO_MIN
                    } else if v > MAIN_RATIO_MAX {
                        MAIN_RATIO_MAX
                    } else {
                        v as u32
                    }
                },
                ..*old(self)
            }),
    {
        let v: i64 = self.main_ratio as i64 + delta as i64;
        self.main_ratio = if v < MAIN_RATIO_MIN as i64 {
            MAIN_RATIO_MIN
        } else if v > MAIN_RATIO_MAX as i64 {
            MAIN_RATIO_MAX
        } else {
            v as u32
        };
    }

    /// Replaces the work area (the layout is re-applied by the caller).
    pub fn update_window_area(&mut self, win_area: Dimensions)
        requires
            area_bounded(win_area),
        ensures
            *final(self) == (Workspace { win_area, ..*old(self) }),
    {
        self.win_area = win_area;
    }

    /// Prepends a new client: it becomes the front of the list.
    pub fn attach_client(&mut self, client: u64)
        requires
            !old(self).clients@.contains(client),
        ensures
            final(self).clients@ == seq![client] + old(self).clients@,
            *final(self) == (Workspace { clients: final(self).clients, ..*old(self) }),
            old(self).wf() ==> final(self).wf(),
    {
        self.clients.insert(0, client);
        proof {
            assert(self.clients@ =~= seq![client] + old(self).clients@);
            if old(self).wf() {
                assert forall|i: int, j: int|
                    0 <= i < j < self.clients@.len() implies self.clients@[i]
                    != self.clients@[j] by {
                    if i > 0 {
                        assert(self.clients@[i] == old(self).clients@[i - 1]);
                        assert(self.clients@[j] == old(self).clients@[j - 1]);
                    } else {
                        assert(old(self).clients@.contains(old(self).clients@[j - 1]));
                    }
                }
            }
        }
    }

    /// Removes the client from the list, if it is listed.
    pub fn detach_client(&mut self, client: u64)
        ensures
            !old(self).clients@.contains(client) ==> final(self).clients@ == old(self).clients@,
            old(self).clients@.contains(client) ==> final(self).clients@ == old(
                self,
            ).clients@.remove(first_index_of(old(self).clients@, client)),
            *final(self) == (Workspace { clients: final(self).clients, ..*old(self) }),
            old(self).wf() ==> final(self).wf(),
    {
        let idx_opt = self.position_of(client);
        match idx_opt {
            Some(idx) => {
                proof {
                    lemma_first_index_of(self.clients@, client);
                }
                self.clients.remove(idx);
                proof {
                    if old(self).wf() {
                        let s = old(self).clients@;
                        let k = first_index_of(s, client);
                        assert forall|i: int, j: int|
                            0 <= i < j < self.clients@.len() implies self.clients@[i]
                            != self.clients@[j] by {
                            let oi = if i < k {
                                i
                            } else {
                                i + 1
                            };
                            let oj = if j < k {
                                j
                            } else {
                                j + 1
                            };
                            assert(self.clients@[i] == s[oi]);
                            assert(self.clients@[j] == s[oj]);
                        }
                    }
                }
            },
            None => {},
        }
    }

    /// The position of the client in the list: the first index holding it, or
    /// `None` when it is not listed.
    pub fn position_of(&self, client: u64) -> (r: Option<usize>)
        ensures
            match r {
                Some(idx) => self.clients@.contains(client) && idx == first_index_of(
                    self.clients@,
                    client,
                ),
                None => !self.clients@.contains(client),
            },
    {
        let n = self.clients.len();
        let mut i: usize = 0;
        while i < n
            invariant
                i <= n,
                n == self.clients@.len(),
                forall|j: int| 0 <= j < i ==> self.clients@[j] != client,
            decreases n - i,
        {
            if self.clients[i] == client {
                proof {
                    assert(self.clients@[i as int] == client);
                    assert(self.clients@.contains(client));
                    lemma_first_index_of(self.clients@, client);
                    let k = first_index_of(self.clients@, client);
                    assert(!(k < i) && !(i < k));
                }
                return Some(i);
            }
            i = i + 1;
        }
        None
    }

    /// Promotes the client to list position 0; the relative order of the
    /// remaining clients is unchanged. Does nothing when the client is not
    /// listed.
    pub fn pull_front(&mut self, client: u64)
        ensures
            !old(self).clients@.contains(client) ==> final(self).clients@ == old(self).clients@,
            old(self).clients@.contains(client) ==> final(self).clients@ == seq![client] + old(
                self,
            ).clients@.remove(first_index_of(old(self).clients@, client)),
            *final(self) == (Workspace { clients: final(self).clients, ..*old(self) }),
            old(self).wf() ==> final(self).wf(),
    {
        let idx_opt = self.position_of(client);
        match idx_opt {
            Some(idx) => {
                proof {
                    lemma_first_index_of(self.clients@, client);
                }
                self.clients.remove(idx);
                self.clients.insert(0, client);
                proof {
                    let s = old(self).clients@;
                    let k = first_index_of(s, client);
                    assert(self.clients@ =~= seq![client] + s.remove(k));
                    if old(self).wf() {
                        assert forall|i: int, j: int|
                            0 <= i < j < self.clients@.len() implies self.clients@[i]
                            != self.clients@[j] by {
                            if i > 0 {
                                let oi = if i - 1 < k {
                                    i - 1
                                } else {
                                    i
                                };
                                let oj = if j - 1 < k {
                                    j - 1
                                } else {
                                    j
                                };
                                assert(self.clients@[i] == s[oi]);
                                assert(self.clients@[j] == s[oj]);
                            } else {
                                let oj = if j - 1 < k {
                                    j - 1
                                } else {
                                    j
                                };
                                assert(self.clients@[j] == s[oj]);
                                assert(s[k] == client);
                            }
                        }
                    }
                }
            },
            None => {},
        }
    }

    /// Swaps the client with its neighbour `delta` positions away in the
    /// ordered list, clamping at the ends. Does nothing when the client is
    /// not listed.
    pub fn stack_move(&mut self, client: u64, delta: i32)
        ensures
            !old(self).clients@.contains(client) ==> *final(self) == *old(self),
            old(self).clients@.contains(client) ==> {
                let i = first_index_of(old(self).clients@, client);
                let j = crate::geometry::clamp_index(i + delta, old(self).clients@.len() as int);
                &&& final(self).clients@ == old(self).clients@.update(i, old(self).clients@[j]).update(
                    j,
                    old(self).clients@[i],
                )
                &&& *final(self) == (Workspace { clients: final(self).clients, ..*old(self) })
            },
            old(self).wf() ==> final(self).wf(),
    {
        let idx_opt = self.position_of(client);
        match idx_opt {
            Some(idx) => {
                let n = self.clients.len();
                proof {
                    lemma_first_index_of(self.clients@, client);
                    assert(n >= 1);
                }
                let t: i128 = idx as i128 + delta as i128;
                let j: usize = if t < 0 {
                    0
                } else if t > (n - 1) as i128 {
                    n - 1
                } else {
                    t as usize
                };
                let a = self.clients[idx];
                let b = self.clients[j];
                let ghost s = self.clients@;
                let p = &mut self.clients[idx];
                *p = b;
                let q = &mut self.clients[j];
                *q = a;
                proof {
                    assert(self.clients@ =~= s.update(idx as int, s[j as int]).update(
                        j as int,
                        s[idx as int],
                    ));
                    if old(self).wf() {
                        assert forall|x: int, y: int|
                            0 <= x < y < self.clients@.len() implies self.clients@[x]
                            != self.clients@[y] by {
                            let ox = if x == idx {
                                j as int
                            } else if x == j {
                                idx as int
                            } else {
                                x
                            };
                            let oy = if y == idx {
                                j as int
                            } else if y == j {
                                idx as int
                            } else {
                                y
                            };
                            assert(self.clients@[x] == s[ox]);
                            assert(self.clients@[y] == s[oy]);
                        }
                    }
                }
            },
            None => {},
        }
    }
}

/// Law: a client is listed by at most one workspace at a time, and moving a
/// client (detach from one workspace, attach to another) preserves the total
/// client count across workspaces and their disjointness.
pub proof fn lemma_move_preserves_total(
    w1_before: Seq<u64>,
    w2_before: Seq<u64>,
    w1_after: Seq<u64>,
    w2_after: Seq<u64>,
    client: u64,
)
    requires
        forall|i: int, j: int| 0 <= i < j < w1_before.len() ==> w1_before[i] != w1_before[j],
        w1_before.contains(client),
        !w2_before.contains(client),
        forall|i: int| 0 <= i < w2_before.len() ==> !w1_before.contains(w2_before[i]),
        w1_after == w1_before.remove(first_index_of(w1_before, client)),
        w2_after == seq![client] + w2_before,
    ensures
        w1_after.len() + w2_after.len() == w1_before.len() + w2_before.len(),
        !w1_after.contains(client),
        w2_after.contains(client),
        forall|i: int| 0 <= i < w2_after.len() ==> !w1_after.contains(w2_after[i]),
{
    lemma_first_index_of(w1_before, client);
    let k = first_index_of(w1_before, client);
    assert(w2_after[0] == client);
    assert forall|x: u64| w1_after.contains(x) implies w1_before.contains(x) by {
        let i = choose|i: int| 0 <= i < w1_after.len() && w1_after[i] == x;
        let oi = if i < k {
            i
        } else {
            i + 1
        };
        assert(w1_before[oi] == x);
    }
    assert(!w1_after.contains(client)) by {
        if w1_after.contains(client) {
            let i = choose|i: int| 0 <= i < w1_after.len() && w1_after[i] == client;
            let oi = if i < k {
                i
            } else {
                i + 1
            };
            assert(w1_before[oi] == client);
            assert(forall|j: int| 0 <= j < k ==> w1_before[j] != client);
            assert(oi > k);
            assert(w1_before[k] == client);
            assert(w1_before[k] != w1_before[oi]);
        }
    }
    assert forall|i: int| 0 <= i < w2_after.len() implies !w1_after.contains(w2_after[i]) by {
        if i == 0 {
            assert(w2_after[i] == client);
        } else {
            assert(w2_after[i] == w2_before[i - 1]);
            assert(w2_before.contains(w2_before[i - 1]));
            if w1_after.contains(w2_after[i]) {
                assert(w1_before.contains(w2_after[i]));
            }
        }
    }
}

} // verus!
