//! A simulated bidirectional GPIO line with a microsecond clock.

use vstd::prelude::*;

verus! {

/// Electrical level of the single-wire line.
#[derive(Clone, Copy, PartialEq, Eq, Structural, Debug)]
pub enum Level {
    Low,
    High,
}

/// Direction of the bidirectional line: driven by the host, or floating so
/// that the sensor can drive it while the host only samples.
#[derive(Clone, Copy, PartialEq, Eq, Structural, Debug)]
pub enum PinMode {
    Output,
    Input,
}

/// Level seen when sampling the line at sample index `i` of the script `s`.
/// Past the end of the script the line floats at the pulled-up idle level.
pub open spec fn line_at(s: Seq<Level>, i: int) -> Level {
    if 0 <= i < s.len() {
        s[i]
    } else {
        Level::High
    }
}

/// Abstract state of a simulated pin.
pub struct SimPinView {
    /// Current direction of the line.
    pub mode: PinMode,
    /// Level the host drives while the line is an output.
    pub driven: Level,
    /// Scripted levels the line shows to successive samples.
    pub samples: Seq<Level>,
    /// Number of samples taken so far; index of the next sample.
    pub pos: int,
    /// Microseconds spent in delays and suspensions so far.
    pub now_us: int,
}

/// One physical GPIO line, simulated.
///
/// The levels the sensor side would produce are scripted in advance as a
/// sequence of samples; every read of the line consumes the next entry, and
/// a script that has run out reads as the pulled-up idle level.  The clock
/// advances only through [`SimPin::delay_us`] and [`SimPin::suspend_ms`].
pub struct SimPin {
    mode: PinMode,
    driven: Level,
    samples: Vec<Level>,
    pos: usize,
    now_us: u64,
}

impl View for SimPin {
    type V = SimPinView;

    closed spec fn view(&self) -> SimPinView {
        SimPinView {
            mode: self.mode,
            driven: self.driven,
            samples: self.samples@,
            pos: self.pos as int,
            now_us: self.now_us as int,
        }
    }
}

impl SimPin {
    /// A fresh line holding the scripted samples, idle-high as an output,
    /// with no samples taken and the clock at zero.
    pub fn new(samples: Vec<Level>) -> (p: SimPin)
        ensures
            p@.mode == PinMode::Output,
            p@.driven == Level::High,
            p@.samples == samples@,
            p@.pos == 0,
            p@.now_us == 0,
    {
        SimPin { mode: PinMode::Output, driven: Level::High, samples, pos: 0, now_us: 0 }
    }

    /// Switch the line to driven (push-pull) mode.  The driven level is kept
    /// from the last `set_level`; callers set it explicitly.
    pub fn configure_output(&mut self)
        ensures
            final(self)@.mode == PinMode::Output,
            final(self)@.driven == old(self)@.driven,
            final(self)@.samples == old(self)@.samples,
            final(self)@.pos == old(self)@.pos,
            final(self)@.now_us == old(self)@.now_us,
    {
        self.mode = PinMode::Output;
    }

    /// Switch the line to floating/pulled input mode, handing control of the
    /// level to the sensor side.
    pub fn configure_input(&mut self)
        ensures
            final(self)@.mode == PinMode::Input,
            final(self)@.driven == old(self)@.driven,
            final(self)@.samples == old(self)@.samples,
            final(self)@.pos == old(self)@.pos,
            final(self)@.now_us == old(self)@.now_us,
    {
        self.mode = PinMode::Input;
    }

    /// Drive the line to `level`.  Meaningful only while the line is an
    /// output.
    pub fn set_level(&mut self, level: Level)
        requires
            old(self)@.mode == PinMode::Output,
        ensures
            final(self)@.mode == old(self)@.mode,
            final(self)@.driven == level,
            final(self)@.samples == old(self)@.samples,
            final(self)@.pos == old(self)@.pos,
            final(self)@.now_us == old(self)@.now_us,
    {
        self.driven = level;
    }

    /// Sample the instantaneous level of the line, consuming one scripted
    /// sample.  Meaningful only while the line is an input.
    pub fn read_level(&mut self) -> (level: Level)
        requires
            old(self)@.mode == PinMode::Input,
            old(self)@.pos < usize::MAX,
        ensures
            level == line_at(old(self)@.samples, old(self)@.pos),
            final(self)@.mode == old(self)@.mode,
            final(self)@.driven == old(self)@.driven,
            final(self)@.samples == old(self)@.samples,
            final(self)@.pos == old(self)@.pos + 1,
            final(self)@.now_us == old(self)@.now_us,
    {
        let level = if self.pos < self.samples.len() {
            self.samples[self.pos]
        } else {
            Level::High
        };
        self.pos = self.pos + 1;
        level
    }

    /// Busy-wait for `us` microseconds: the clock advances, nothing yields.
    pub fn delay_us(&mut self, us: u64)
        requires
            old(self)@.now_us + us <= u64::MAX,
        ensures
            final(self)@.mode == old(self)@.mode,
            final(self)@.driven == old(self)@.driven,
            final(self)@.samples == old(self)@.samples,
            final(self)@.pos == old(self)@.pos,
            final(self)@.now_us == old(self)@.now_us + us,
    {
        self.now_us = self.now_us + us;
    }

    /// Yielding sleep for `ms` milliseconds, used only for the inter-read
    /// spacing.  In the model it advances the clock like a delay does.
    pub fn suspend_ms(&mut self, ms: u64)
        requires
            ms <= 1_000_000,
            old(self)@.now_us + ms * 1000 <= u64::MAX,
        ensures
            final(self)@.mode == old(self)@.mode,
            final(self)@.driven == old(self)@.driven,
            final(self)@.samples == old(self)@.samples,
            final(self)@.pos == old(self)@.pos,
            final(self)@.now_us == old(self)@.now_us + ms * 1000,
    {
        self.now_us = self.now_us + ms * 1000;
    }

    /// Current direction of the line.
    pub fn mode(&self) -> (m: PinMode)
        ensures
            m == self@.mode,
    {
        self.mode
    }

    /// Level the host is driving; meaningful while the line is an output.
    pub fn driven_level(&self) -> (level: Level)
        ensures
            level == self@.driven,
    {
        self.driven
    }

    /// Number of samples taken from the line so far.
    pub fn samples_taken(&self) -> (n: usize)
        ensures
            n == self@.pos,
    {
        self.pos
    }

    /// Microseconds spent in delays and suspensions so far.
    pub fn elapsed_us(&self) -> (us: u64)
        ensures
            us == self@.now_us,
    {
        self.now_us
    }
}

} // verus!
