//! The channels that need no more than the common driver, each bound to its
//! place in the engine's control register.

use vstd::prelude::*;
use crate::dma::channel::{enabled, Channel, Name};
use crate::dma::mode::Step;
use crate::dma::ports::Port;
use crate::dma::roles::{BaseAddress, BlockControl, ChannelControl};
use crate::register::{word_of, Access, Register};

verus! {

/// The channel for transfers from memory to the macroblock decoder.
pub struct MDECIn<P: BaseAddress + BlockControl + ChannelControl>(pub Channel<P>);

impl<P: BaseAddress + BlockControl + ChannelControl> MDECIn<P> {
    /// Binds the registers `ports` of the channel and enables the channel
    /// in the control register `global` of the engine if it is not enabled
    /// yet.
    pub fn new<G: Register>(global: &mut G, ports: P) -> (r: Self)
        ensures
            enabled(old(global).trace(), final(global).trace(), Name::MDECIn.enable_bit()),
            r.0.trace() == ports.trace().push(
                (Port::Control, Access::Load(word_of(r.0.trace().last().1))),
            ),
            r.0.step() == Step::of(word_of(r.0.trace().last().1)),
    {
        MDECIn(Channel::new(Name::MDECIn, global, ports))
    }
}

/// The channel for transfers from the macroblock decoder to memory.
pub struct MDECOut<P: BaseAddress + BlockControl + ChannelControl>(pub Channel<P>);

impl<P: BaseAddress + BlockControl + ChannelControl> MDECOut<P> {
    /// Binds the registers `ports` of the channel and enables the channel
    /// in the control register `global` of the engine if it is not enabled
    /// yet.
    pub fn new<G: Register>(global: &mut G, ports: P) -> (r: Self)
        ensures
            enabled(old(global).trace(), final(global).trace(), Name::MDECOut.enable_bit()),
            r.0.trace() == ports.trace().push(
                (Port::Control, Access::Load(word_of(r.0.trace().last().1))),
            ),
            r.0.step() == Step::of(word_of(r.0.trace().last().1)),
    {
        MDECOut(Channel::new(Name::MDECOut, global, ports))
    }
}

/// The channel for transfers from the CD-ROM drive.
pub struct CDROM<P: BaseAddress + BlockControl + ChannelControl>(pub Channel<P>);

impl<P: BaseAddress + BlockControl + ChannelControl> CDROM<P> {
    /// Binds the registers `ports` of the channel and enables the channel
    /// in the control register `global` of the engine if it is not enabled
    /// yet.
    pub fn new<G: Register>(global: &mut G, ports: P) -> (r: Self)
        ensures
            enabled(old(global).trace(), final(global).trace(), Name::CDROM.enable_bit()),
            r.0.trace() == ports.trace().push(
                (Port::Control, Access::Load(word_of(r.0.trace().last().1))),
            ),
            r.0.step() == Step::of(word_of(r.0.trace().last().1)),
    {
        CDROM(Channel::new(Name::CDROM, global, ports))
    }
}

/// The channel for transfers to and from the sound processor.
pub struct SPU<P: BaseAddress + BlockControl + ChannelControl>(pub Channel<P>);

impl<P: BaseAddress + BlockControl + ChannelControl> SPU<P> {
    /// Binds the registers `ports` of the channel and enables the channel
    /// in the control register `global` of the engine if it is not enabled
    /// yet.
    pub fn new<G: Register>(global: &mut G, ports: P) -> (r: Self)
        ensures
            enabled(old(global).trace(), final(global).trace(), Name::SPU.enable_bit()),
            r.0.trace() == ports.trace().push(
                (Port::Control, Access::Load(word_of(r.0.trace().last().1))),
            ),
            r.0.step() == Step::of(word_of(r.0.trace().last().1)),
    {
        SPU(Channel::new(Name::SPU, global, ports))
    }
}

/// The channel for transfers to and from the expansion port.
pub struct PIO<P: BaseAddress + BlockControl + ChannelControl>(pub Channel<P>);

impl<P: BaseAddress + BlockControl + ChannelControl> PIO<P> {
    /// Binds the registers `ports` of the channel and enables the channel
    /// in the control register `global` of the engine if it is not enabled
    /// yet.
    pub fn new<G: Register>(global: &mut G, ports: P) -> (r: Self)
        ensures
            enabled(old(global).trace(), final(global).trace(), Name::PIO.enable_bit()),
            r.0.trace() == ports.trace().push(
                (Port::Control, Access::Load(word_of(r.0.trace().last().1))),
            ),
            r.0.step() == Step::of(word_of(r.0.trace().last().1)),
    {
        PIO(Channel::new(Name::PIO, global, ports))
    }
}

} // verus!
