//! The interrupt mask: which interrupt requests reach the CPU.

use vstd::prelude::*;
use crate::register::{next_word, Access, Register};

verus! {

/// The mask with the bit of every interrupt source set.
pub const ALL_INTERRUPTS: u32 = 0x0000_07FF;

/// The sources of interrupt requests, in the order of their mask bits.
#[derive(Debug, Clone, Copy, PartialEq, Eq, Structural)]
pub enum IRQ {
    /// The vertical blanking of the display.
    Vblank,
    /// The graphics coprocessor.
    GPU,
    /// The CD-ROM drive.
    CDROM,
    /// The DMA engine.
    DMA,
    /// Timer 0.
    Timer0,
    /// Timer 1.
    Timer1,
    /// Timer 2.
    Timer2,
    /// The controller and memory card port.
    Controller,
    /// The serial port.
    SIO,
    /// The sound processor.
    SPU,
    /// The second controller line.
    Controller2,
}

/// A choice of interrupt sources.
pub enum Interrupts<'a> {
    /// Every source.
    All,
    /// The sources of the slice.
    Subset(&'a [IRQ]),
}

impl IRQ {
    /// The mask bit of the source.
    pub open spec fn bit(self) -> u32 {
        match self {
            IRQ::Vblank => 0x001u32,
            IRQ::GPU => 0x002u32,
            IRQ::CDROM => 0x004u32,
            IRQ::DMA => 0x008u32,
            IRQ::Timer0 => 0x010u32,
            IRQ::Timer1 => 0x020u32,
            IRQ::Timer2 => 0x040u32,
            IRQ::Controller => 0x080u32,
            IRQ::SIO => 0x100u32,
            IRQ::SPU => 0x200u32,
            IRQ::Controller2 => 0x400u32,
        }
    }

    /// The mask bit of the source as a mask.
    pub fn mask(self) -> (r: u32)
        ensures
            r == self.bit(),
    {
        match self {
            IRQ::Vblank => 0x001,
            IRQ::GPU => 0x002,
            IRQ::CDROM => 0x004,
            IRQ::DMA => 0x008,
            IRQ::Timer0 => 0x010,
            IRQ::Timer1 => 0x020,
            IRQ::Timer2 => 0x040,
            IRQ::Controller => 0x080,
            IRQ::SIO => 0x100,
            IRQ::SPU => 0x200,
            IRQ::Controller2 => 0x400,
        }
    }
}

/// `word` with the bit of each source of `sources` set.
pub open spec fn with_enabled(word: u32, sources: Seq<IRQ>) -> u32
    decreases sources.len(),
{
    if sources.len() == 0 {
        word
    } else {
        with_enabled(word, sources.drop_last()) | sources.last().bit()
    }
}

/// `word` with the bit of each source of `sources` cleared.
pub open spec fn with_disabled(word: u32, sources: Seq<IRQ>) -> u32
    decreases sources.len(),
{
    if sources.len() == 0 {
        word
    } else {
        with_disabled(word, sources.drop_last()) & !sources.last().bit()
    }
}

/// The interrupt mask register.
pub struct Mask<R: Register> {
    register: R,
}

impl<R: Register> Mask<R> {
    /// Every access made to the register, oldest first.
    pub closed spec fn trace(&self) -> Seq<Access> {
        self.register.trace()
    }

    /// The mask behind `register`.
    pub fn new(register: R) -> (r: Self)
        ensures
            r.trace() == register.trace(),
    {
        Mask { register }
    }

    /// The register behind the mask.
    pub fn register(&self) -> (r: &R)
        ensures
            r.trace() == self.trace(),
    {
        &self.register
    }

    /// Lets the requests of `interrupts` through: all of them with one
    /// store, or those of a subset by setting their bits in what the
    /// register shows.
    pub fn enable(&mut self, interrupts: Interrupts)
        ensures
            match interrupts {
                Interrupts::All => final(self).trace() == old(self).trace().push(
                    Access::Store(ALL_INTERRUPTS),
                ),
                Interrupts::Subset(sources) => final(self).trace() == old(self).trace().push(
                    Access::Load(next_word(old(self).trace(), final(self).trace())),
                ).push(
                    Access::Store(
                        with_enabled(next_word(old(self).trace(), final(self).trace()), sources@),
                    ),
                ),
            },
    {
        match interrupts {
            Interrupts::All => {
                self.register.store(ALL_INTERRUPTS);
            },
            Interrupts::Subset(sources) => {
                let word: u32 = self.register.load();
                let mut val: u32 = word;
                let mut i: usize = 0;
                while i < sources.len()
                    invariant
                        i <= sources.len(),
                        val == with_enabled(word, sources@.take(i as int)),
                    decreases sources.len() - i,
                {
                    proof {
                        assert(sources@.take(i + 1).drop_last() =~= sources@.take(i as int));
                    }
                    val = val | sources[i].mask();
                    i = i + 1;
                }
                proof {
                    assert(sources@.take(sources.len() as int) =~= sources@);
                }
                self.register.store(val);
            },
        }
    }

    /// Holds the requests of `interrupts` back: all of them with one store,
    /// or those of a subset by clearing their bits in what the register
    /// shows.
    pub fn disable(&mut self, interrupts: Interrupts)
        ensures
            match interrupts {
                Interrupts::All => final(self).trace() == old(self).trace().push(Access::Store(0)),
                Interrupts::Subset(sources) => final(self).trace() == old(self).trace().push(
                    Access::Load(next_word(old(self).trace(), final(self).trace())),
                ).push(
                    Access::Store(
                        with_disabled(next_word(old(self).trace(), final(self).trace()), sources@),
                    ),
                ),
            },
    {
        match interrupts {
            Interrupts::All => {
                self.register.store(0);
            },
            Interrupts::Subset(sources) => {
                let word: u32 = self.register.load();
                let mut val: u32 = word;
                let mut i: usize = 0;
                while i < sources.len()
                    invariant
                        i <= sources.len(),
                        val == with_disabled(word, sources@.take(i as int)),
                    decreases sources.len() - i,
                {
                    proof {
                        assert(sources@.take(i + 1).drop_last() =~= sources@.take(i as int));
                    }
                    val = val & !sources[i].mask();
                    i = i + 1;
                }
                proof {
                    assert(sources@.take(sources.len() as int) =~= sources@);
                }
                self.register.store(val);
            },
        }
    }

    /// Runs `f` with every interrupt held back, and lets all of them
    /// through again when `f` has returned.
    pub fn free<F: FnOnce() -> T, T>(&mut self, f: F) -> (r: T)
        requires
            call_requires(f, ()),
        ensures
            call_ensures(f, (), r),
            final(self).trace() == old(self).trace().push(Access::Store(0)).push(
                Access::Store(ALL_INTERRUPTS),
            ),
    {
        self.disable(Interrupts::All);
        let ret = f();
        self.enable(Interrupts::All);
        ret
    }
}

} // verus!
