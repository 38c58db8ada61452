//! The wheel animation: every pixel of the strip cycles through the whole
//! colour wheel at a configurable brightness, pixels offset from one another
//! by their share of the wheel, paced by a counter that runs five full turns
//! before repeating.

use vstd::prelude::*;
use crate::chase::StripFault;
use crate::color::{Pixel, black, wheel_spec, scale_pixel};
use crate::color::{colour_wheel, set_brightness};

verus! {

/// Steps of the animation counter before the sequence repeats: five turns of
/// the 256-position wheel.
pub const WHEEL_CYCLE: u16 = 256 * 5;

/// The wheel position of pixel i on a strip of n pixels at counter j: the
/// pixel's fixed share of the wheel plus the running counter, reduced to one
/// turn.
pub open spec fn wheel_position(i: int, n: int, j: int) -> u8 {
    ((i * 256 / n + j) % 256) as u8
}

/// The wheel animation engine: a frame buffer, the running counter, and the
/// brightness applied to every pixel.
pub struct WheelEngine {
    /// The frame buffer, one entry per LED of the strip.
    pub data: Vec<Pixel>,
    /// The running animation counter, below WHEEL_CYCLE.
    pub counter: u16,
    /// The brightness factor in 256ths, clamped when applied.
    pub brightness: i32,
    /// True while a computed frame awaits emission on the strip's channel:
    /// the buffer must not be overwritten mid-transmission, so the next step
    /// waits for the emission's outcome.
    pub pending: bool,
}

impl WheelEngine {
    /// The buffer matches a real strip and the counter is inside its cycle.
    /// The length bound keeps the position arithmetic inside machine
    /// integers.
    pub open spec fn wf(self) -> bool {
        &&& 0 < self.data@.len()
        &&& self.data@.len() <= 0x10000
        &&& self.counter < WHEEL_CYCLE
    }

    /// A dark strip of the given length with the counter at the start and
    /// no frame awaiting emission.
    pub fn new(num_leds: usize, brightness: i32) -> (e: WheelEngine)
        requires
            0 < num_leds <= 0x10000,
        ensures
            e.wf(),
            e.data@.len() == num_leds,
            e.counter == 0,
            e.brightness == brightness,
            !e.pending,
            forall|k: int| 0 <= k < num_leds ==> e.data@[k] == black(),
    {
        let mut data: Vec<Pixel> = Vec::new();
        while data.len() < num_leds
            invariant
                data@.len() <= num_leds,
                forall|k: int| 0 <= k < data@.len() ==> data@[k] == black(),
            decreases num_leds - data@.len(),
        {
            data.push(Pixel { r: 0, g: 0, b: 0 });
        }
        WheelEngine { data, counter: 0, brightness, pending: false }
    }

    /// The frame to hand to the strip's transmit channel.
    pub fn frame(&self) -> (f: &Vec<Pixel>)
        ensures
            f@ == self.data@,
    {
        &self.data
    }

    /// One animation step: every pixel takes its wheel colour for the current
    /// counter, scaled by the engine's brightness, and the counter advances,
    /// wrapping at the end of its cycle. The new frame then awaits emission
    /// before the next step may run.
    pub fn step(&mut self)
        requires
            old(self).wf(),
            !old(self).pending,
        ensures
            final(self).wf(),
            final(self).pending,
            final(self).data@.len() == old(self).data@.len(),
            final(self).brightness == old(self).brightness,
            final(self).counter == if old(self).counter + 1 == WHEEL_CYCLE {
                0u16
            } else {
                (old(self).counter + 1) as u16
            },
            forall|k: int|
                0 <= k < old(self).data@.len() ==> final(self).data@[k] == scale_pixel(
                    wheel_spec(
                        wheel_position(k, old(self).data@.len() as int, old(self).counter as int),
                    ),
                    old(self).brightness as int,
                ),
    {
        let n = self.data.len();
        let j = self.counter;
        let bright = self.brightness;
        let mut i: usize = 0;
        while i < n
            invariant
                i <= n,
                n == self.data@.len(),
                0 < n <= 0x10000,
                j < WHEEL_CYCLE,
                self.counter == j,
                self.brightness == bright,
                forall|k: int|
                    0 <= k < i ==> #[trigger] self.data@[k] == scale_pixel(
                        wheel_spec(wheel_position(k, n as int, j as int)),
                        bright as int,
                    ),
            decreases n - i,
        {
            let pos: u8 = (((i as u32 * 256) / (n as u32) + j as u32) % 256) as u8;
            let c = set_brightness(colour_wheel(pos), bright);
            self.data[i] = c;
            i = i + 1;
        }
        self.counter = if j >= WHEEL_CYCLE - 1 {
            0
        } else {
            j + 1
        };
        self.pending = true;
    }

    /// Records how the frame's emission went. The outcome is handed back to
    /// the caller; either way the frame attempt is over and the engine may
    /// compute its next frame, a failed frame is simply never shown.
    pub fn confirm_emitted(&mut self, outcome: Result<(), StripFault>) -> (r: Result<
        (),
        StripFault,
    >)
        requires
            old(self).pending,
        ensures
            r == outcome,
            !final(self).pending,
            final(self).data@ == old(self).data@,
            final(self).counter == old(self).counter,
            final(self).brightness == old(self).brightness,
    {
        self.pending = false;
        outcome
    }
}

} // verus!
