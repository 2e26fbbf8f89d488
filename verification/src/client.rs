//! The manager's view of one application window: cached geometry, advertised
//! hints, decoration identity, and state flags.

use vstd::prelude::*;
use crate::geometry::Dimensions;

verus! {

/// One managed top-level window. The protocol window handle is immutable for
/// the client's lifetime; the frame is the decoration window wrapped around
/// it. The cached geometry is kept consistent with the backend's live
/// geometry by the single dispatch thread.
pub struct Client {
    /// the protocol window handle (immutable identity)
    pub window: u64,
    /// the decoration frame handle
    pub frame: u64,
    /// current cached geometry
    pub dimensions: Dimensions,
    /// minimum width advertised by size hints (0 when unset)
    pub min_w: u32,
    /// minimum height advertised by size hints (0 when unset)
    pub min_h: u32,
    /// width increment advertised by size hints (0 when unset)
    pub inc_w: u32,
    /// height increment advertised by size hints (0 when unset)
    pub inc_h: u32,
    /// the window this one is transient for, if any (a weak reference)
    pub transient_for: Option<u64>,
    /// whether the client supports the graceful delete-window convention
    pub supports_delete: bool,
    /// floating state
    pub floating: bool,
    /// fullscreen state
    pub fullscreen: bool,
    /// urgency flag
    pub urgent: bool,
    /// reparenting in progress: disambiguates a self-caused unmap
    pub reparenting: bool,
}

/// A side length clamped to the advertised minimum and rounded down to the
/// nearest increment step above it.
pub open spec fn hinted_len(len: u32, min: u32, inc: u32) -> u32 {
    let floored = if len < min {
        min
    } else {
        len
    };
    if inc > 0 {
        (min + ((floored - min) as int / inc as int) * inc) as u32
    } else {
        floored
    }
}

/// Exec computation of `hinted_len`.
fn hinted_len_exec(len: u32, min: u32, inc: u32) -> (r: u32)
    ensures
        r == hinted_len(len, min, inc),
{
    let floored: u32 = if len < min {
        min
    } else {
        len
    };
    if inc > 0 {
        let steps: u32 = (floored - min) / inc;
        proof {
            let d = (floored - min) as int;
            vstd::arithmetic::div_mod::lemma_fundamental_div_mod(d, inc as int);
            vstd::arithmetic::div_mod::lemma_mod_division_less_than_divisor(d, inc as int);
            vstd::arithmetic::div_mod::lemma_div_pos_is_pos(d, inc as int);
        vstd::arithmetic::mul::lemma_mul_is_commutative(d / inc as int, inc as int);
        }
        min + steps * inc
    } else {
        floored
    }
}

impl Client {
    /// A fresh client for a newly managed window, before hints are applied.
    pub fn new(window: u64, frame: u64, dimensions: Dimensions) -> (c: Client)
        ensures
            c.window == window,
            c.frame == frame,
            c.dimensions == dimensions,
            c.min_w == 0 && c.min_h == 0 && c.inc_w == 0 && c.inc_h == 0,
            c.transient_for is None,
            !c.supports_delete,
            !c.floating && !c.fullscreen && !c.urgent && !c.reparenting,
    {
        Client {
            window,
            frame,
            dimensions,
            min_w: 0,
            min_h: 0,
            inc_w: 0,
            inc_h: 0,
            transient_for: None,
            supports_delete: false,
            floating: false,
            fullscreen: false,
            urgent: false,
            reparenting: false,
        }
    }

    pub fn window(&self) -> (r: u64)
        ensures
            r == self.window,
    {
        self.window
    }

    pub fn frame(&self) -> (r: u64)
        ensures
            r == self.frame,
    {
        self.frame
    }

    pub fn pos(&self) -> (r: (i32, i32))
        ensures
            r.0 == self.dimensions.x,
            r.1 == self.dimensions.y,
    {
        (self.dimensions.x, self.dimensions.y)
    }

    pub fn size(&self) -> (r: (u32, u32))
        ensures
            r.0 == self.dimensions.w,
            r.1 == self.dimensions.h,
    {
        (self.dimensions.w, self.dimensions.h)
    }

    pub fn is_reparenting(&self) -> (r: bool)
        ensures
            r == self.reparenting,
    {
        self.reparenting
    }

    pub fn set_reparenting(&mut self, value: bool)
        ensures
            *final(self) == (Client { reparenting: value, ..*old(self) }),
    {
        self.reparenting = value;
    }

    /// Records the advertised size constraints.
    pub fn set_size_hints(&mut self, min_w: u32, min_h: u32, inc_w: u32, inc_h: u32)
        ensures
            *final(self) == (Client { min_w, min_h, inc_w, inc_h, ..*old(self) }),
    {
        self.min_w = min_w;
        self.min_h = min_h;
        self.inc_w = inc_w;
        self.inc_h = inc_h;
    }

    /// Clamps the cached geometry to the advertised minimum size and
    /// increment constraints; called at manage time and before any resize.
    pub fn apply_size_hints(&mut self)
        ensures
            *final(self) == (Client {
                dimensions: Dimensions {
                    w: hinted_len(old(self).dimensions.w, old(self).min_w, old(self).inc_w),
                    h: hinted_len(old(self).dimensions.h, old(self).min_h, old(self).inc_h),
                    ..old(self).dimensions
                },
                ..*old(self)
            }),
            final(self).dimensions.w >= old(self).min_w,
            final(self).dimensions.h >= old(self).min_h,
    {
        let w = hinted_len_exec(self.dimensions.w, self.min_w, self.inc_w);
        let h = hinted_len_exec(self.dimensions.h, self.min_h, self.inc_h);
        proof {
            lemma_hinted_len_ge_min(old(self).dimensions.w, old(self).min_w, old(self).inc_w);
            lemma_hinted_len_ge_min(old(self).dimensions.h, old(self).min_h, old(self).inc_h);
        }
        self.dimensions = Dimensions { x: self.dimensions.x, y: self.dimensions.y, w, h };
    }

    /// Updates the cached geometry; the backend geometry-change call is issued
    /// by the caller with the same values, keeping both views consistent.
    pub fn move_resize(&mut self, x: i32, y: i32, w: u32, h: u32)
        ensures
            *final(self) == (Client { dimensions: (Dimensions { x, y, w, h }), ..*old(self) }),
    {
        self.dimensions = Dimensions { x, y, w, h };
    }
}

/// The hint clamp never goes below the advertised minimum, and it leaves a
/// length alone when no constraint applies.
pub proof fn lemma_hinted_len_ge_min(len: u32, min: u32, inc: u32)
    ensures
        hinted_len(len, min, inc) >= min,
        (min == 0 && inc == 0) ==> hinted_len(len, min, inc) == len,
{
    if inc > 0 {
        let floored: u32 = if len < min {
            min
        } else {
            len
        };
        let d = (floored - min) as int;
        vstd::arithmetic::div_mod::lemma_fundamental_div_mod(d, inc as int);
        vstd::arithmetic::div_mod::lemma_mod_division_less_than_divisor(d, inc as int);
        vstd::arithmetic::div_mod::lemma_div_pos_is_pos(d, inc as int);
        vstd::arithmetic::mul::lemma_mul_is_commutative(d / inc as int, inc as int);
        vstd::arithmetic::mul::lemma_mul_nonnegative(d / inc as int, inc as int);
    }
}

} // verus!
