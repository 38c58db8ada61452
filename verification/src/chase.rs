//! The chase animation: a head pixel runs around the strip carrying a fresh
//! colour from the wheel at half brightness, and every pixel it leaves behind
//! is dimmed by half again on each tick, so trails decay toward darkness.

use vstd::prelude::*;
use vstd::arithmetic::power2::pow2;
use vstd::arithmetic::power2::lemma_pow2_unfold;
use vstd::arithmetic::power2::lemma_pow2_pos;
use vstd::arithmetic::div_mod::lemma_div_denominator;
use crate::color::{Pixel, black, wheel_spec, scale_pixel, scale_channel, lemma_half_scale};
use crate::color::{colour_wheel, set_brightness, SCALE_HALF};
use crate::ring::{wrap, wrap_spec, steps_behind};
use crate::ring::{lemma_steps_behind_self, lemma_steps_behind_unique, lemma_steps_behind_wrap};
use crate::ring::lemma_wrap_total;

verus! {

/// The phase counter advances by 4 each tick, wrapping at 256.
pub open spec fn next_phase(phase: u8) -> u8 {
    ((phase + 4) % 256) as u8
}

/// The colour the head pixel takes on a tick: the wheel colour of the
/// advanced phase, at half brightness.
pub open spec fn head_colour(phase: u8) -> Pixel {
    scale_pixel(wheel_spec(next_phase(phase)), 128)
}

/// A fault reported by the strip's timed-pulse transmit channel. The
/// original hardware write has no error path; the engines still surface one
/// so a caller with a fallible channel can report it.
#[derive(Clone, Copy, Debug, PartialEq, Eq, Structural)]
pub struct StripFault {}

/// The chase animation engine: a frame buffer the length of the strip, the
/// head position, and the colour-wheel phase counter.
pub struct ChaseEngine {
    /// The frame buffer, one entry per LED of the strip.
    pub data: Vec<Pixel>,
    /// The position the next head colour is written to.
    pub index: usize,
    /// The colour-wheel phase of the last tick.
    pub phase: u8,
    /// True while a computed frame awaits emission on the strip's channel:
    /// the buffer must not be overwritten mid-transmission, so the next tick
    /// waits for the emission's outcome.
    pub pending: bool,
}

impl ChaseEngine {
    /// The buffer matches a real strip and the head is on it. The length
    /// bound keeps the index arithmetic inside machine integers.
    pub open spec fn wf(self) -> bool {
        &&& 0 < self.data@.len()
        &&& self.data@.len() <= 0x7fff_ffff
        &&& self.index < self.data@.len()
    }

    /// A dark strip of the given length, head at the start, phase at zero,
    /// no frame awaiting emission.
    pub fn new(num_leds: usize) -> (e: ChaseEngine)
        requires
            0 < num_leds <= 0x7fff_ffff,
        ensures
            e.wf(),
            e.data@.len() == num_leds,
            e.index == 0,
            e.phase == 0,
            !e.pending,
            forall|k: int| 0 <= k < num_leds ==> e.data@[k] == black(),
    {
        let mut data: Vec<Pixel> = Vec::new();
        while data.len() < num_leds
            invariant
                data@.len() <= num_leds,
                forall|k: int| 0 <= k < data@.len() ==> data@[k] == black(),
            decreases num_leds - data@.len(),
        {
            data.push(Pixel { r: 0, g: 0, b: 0 });
        }
        ChaseEngine { data, index: 0, phase: 0, pending: false }
    }

    /// The frame to hand to the strip's transmit channel.
    pub fn frame(&self) -> (f: &Vec<Pixel>)
        ensures
            f@ == self.data@,
    {
        &self.data
    }

    /// One animation tick: the phase advances by 4, the head pixel takes the
    /// fresh wheel colour at half brightness, every other pixel is dimmed by
    /// half, and the head moves one step forward around the strip. The new
    /// frame then awaits emission before the next tick may run.
    pub fn tick(&mut self)
        requires
            old(self).wf(),
            !old(self).pending,
        ensures
            final(self).wf(),
            final(self).pending,
            final(self).data@.len() == old(self).data@.len(),
            final(self).phase == next_phase(old(self).phase),
            final(self).index == wrap_spec(
                old(self).index as int,
                1,
                old(self).data@.len() as int,
            ),
            forall|k: int|
                0 <= k < old(self).data@.len() ==> final(self).data@[k] == (
                if k == old(self).index as int {
                    head_colour(old(self).phase)
                } else {
                    scale_pixel(old(self).data@[k], 128)
                }),
    {
        let ghost orig = old(self).data@;
        let n = self.data.len();
        let advanced: u8 = (((self.phase as u16) + 4) % 256) as u8;
        self.phase = advanced;
        let colour = set_brightness(colour_wheel(advanced), SCALE_HALF);
        let idx = self.index;
        self.data[idx] = colour;
        proof {
            assert forall|k: int| 0 <= k < n && k != idx as int implies steps_behind(
                idx as int,
                k,
                n as int,
            ) >= 1 by {
                lemma_steps_behind_unique(idx as int, k, n as int);
                if steps_behind(idx as int, k, n as int) == 0 {
                    lemma_wrap_total(idx as int, 0, n as int);
                }
            }
        }
        let mut off: usize = 1;
        while off < n
            invariant
                1 <= off <= n,
                n == self.data@.len(),
                n == orig.len(),
                0 < n <= 0x7fff_ffff,
                idx < n,
                self.index == idx,
                self.phase == advanced,
                colour == head_colour(old(self).phase),
                advanced == next_phase(old(self).phase),
                forall|k: int|
                    0 <= k < n ==> #[trigger] self.data@[k] == (if k == idx as int {
                        colour
                    } else if steps_behind(idx as int, k, n as int) < off as int {
                        scale_pixel(orig[k], 128)
                    } else {
                        orig[k]
                    }),
            decreases n - off,
        {
            let i = wrap(idx, -(off as i32), n);
            proof {
                lemma_steps_behind_wrap(idx as int, off as int, n as int);
                lemma_steps_behind_self(idx as int, n as int);
                assert(i as int != idx as int);
            }
            let dimmed = set_brightness(self.data[i], SCALE_HALF);
            self.data[i] = dimmed;
            proof {
                assert forall|k: int|
                    0 <= k < n && k != i as int && k != idx as int && steps_behind(
                        idx as int,
                        k,
                        n as int,
                    ) == off as int implies false by {
                    lemma_steps_behind_unique(idx as int, k, n as int);
                }
            }
            off = off + 1;
        }
        proof {
            assert forall|k: int| 0 <= k < n && k != idx as int implies steps_behind(
                idx as int,
                k,
                n as int,
            ) < n as int by {
                vstd::arithmetic::div_mod::lemma_mod_division_less_than_divisor(
                    idx as int - k,
                    n as int,
                );
            }
        }
        self.index = wrap(idx, 1, n);
        self.pending = true;
    }

    /// Records how the frame's emission went. The outcome is handed back to
    /// the caller; either way the frame attempt is over and the engine may
    /// compute its next frame, a failed frame is simply never shown.
    pub fn confirm_emitted(&mut self, outcome: Result<(), StripFault>) -> (r: Result<
        (),
        StripFault,
    >)
        requires
            old(self).pending,
        ensures
            r == outcome,
            !final(self).pending,
            final(self).data@ == old(self).data@,
            final(self).index == old(self).index,
            final(self).phase == old(self).phase,
    {
        self.pending = false;
        outcome
    }
}

/// A channel value after k dimming steps of the trail.
pub open spec fn decayed(v: u8, k: nat) -> u8
    decreases k,
{
    if k == 0 {
        v
    } else {
        scale_channel(decayed(v, (k - 1) as nat), 128)
    }
}

/// One trail step halves every channel of a pixel, truncating: exactly the
/// update the tick applies to each pixel behind the head.
pub proof fn lemma_trail_pixel(p: Pixel)
    ensures
        scale_pixel(p, 128) == (Pixel { r: p.r / 2, g: p.g / 2, b: p.b / 2 }),
{
    lemma_half_scale(p.r);
    lemma_half_scale(p.g);
    lemma_half_scale(p.b);
}

/// One dimming step of a trailing pixel halves a channel, truncating; it
/// never brightens, and it strictly darkens any lit channel.
pub proof fn lemma_dimming_decreases(v: u8)
    ensures
        scale_channel(v, 128) == v / 2,
        scale_channel(v, 128) <= v,
        v > 0 ==> scale_channel(v, 128) < v,
{
    lemma_half_scale(v);
}

/// After k dimming steps a trailing channel holds its starting value divided
/// by 2^k, truncating: the trail decays geometrically toward zero.
pub proof fn lemma_trailing_decay(v: u8, k: nat)
    ensures
        decayed(v, k) == v as int / pow2(k) as int,
    decreases k,
{
    if k == 0 {
        vstd::arithmetic::power2::lemma2_to64();
    } else {
        lemma_trailing_decay(v, (k - 1) as nat);
        lemma_half_scale(decayed(v, (k - 1) as nat));
        lemma_pow2_pos((k - 1) as nat);
        lemma_pow2_unfold(k);
        lemma_div_denominator(v as int, pow2((k - 1) as nat) as int, 2);
    }
}

} // verus!
