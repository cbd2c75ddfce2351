//! The three roles that the registers of a channel play, and the handle on
//! a transfer in flight.
//!
//! Each role is an interface with the operations of its register, written
//! once over [`Ports`]; a device that offers the three ports gets them by
//! declaring that it plays the role.

use vstd::prelude::*;
use crate::addr::{is_valid_address, valid_address};
use crate::dma::mode::{
    busy_flag,
    is_busy,
    start_word,
    started,
    BlockMode,
    Chop,
    Direction,
    Step,
    TransferMode,
};
use crate::dma::ports::{Port, Ports, SimPorts};
use crate::dma::Error;
use crate::register::{word_of, Access};

verus! {

/// The word of the access that follows `before` in `after`.
pub open spec fn next_word(before: Seq<(Port, Access)>, after: Seq<(Port, Access)>) -> u32 {
    word_of(after[before.len() as int].1)
}

/// `after` is `before` and then one load of `port`.
pub open spec fn loaded(before: Seq<(Port, Access)>, after: Seq<(Port, Access)>, port: Port) -> bool {
    after == before.push((port, Access::Load(next_word(before, after))))
}

/// `after` is `before`, then a load of `port`, then a store to `port` of
/// what `change` makes of the loaded word.
pub open spec fn updated(
    before: Seq<(Port, Access)>,
    after: Seq<(Port, Access)>,
    port: Port,
    change: spec_fn(u32) -> u32,
) -> bool {
    after == before.push((port, Access::Load(next_word(before, after)))).push(
        (port, Access::Store(change(next_word(before, after)))),
    )
}

/// `polls` is what waiting for a transfer leaves behind: at least one load
/// of the control register, of which the last one, and no other, shows that
/// no transfer is in flight.
pub open spec fn waited(polls: Seq<(Port, Access)>) -> bool {
    &&& polls.len() >= 1
    &&& forall|i: int|
        0 <= i < polls.len() ==> (#[trigger] polls[i]).0 == Port::Control && polls[i].1 is Load
    &&& forall|i: int| 0 <= i < polls.len() - 1 ==> is_busy(word_of((#[trigger] polls[i]).1))
    &&& !is_busy(word_of(polls.last().1))
}

/// The register that holds the memory address at which a transfer starts.
pub trait BaseAddress: Ports {
    /// Loads the address at which the channel reads or writes next.
    fn get(&mut self) -> (address: u32)
        ensures
            final(self).trace() == old(self).trace().push((Port::Address, Access::Load(address))),
    {
        self.load(Port::Address)
    }

    /// Stores the address at which the next transfer starts. An address that
    /// is not word-aligned or lies outside the 24-bit space is refused, and
    /// the register is not touched.
    fn set(&mut self, address: u32) -> (r: Result<(), Error>)
        ensures
            valid_address(address as int) ==> r is Ok && final(self).trace() == old(
                self,
            ).trace().push((Port::Address, Access::Store(address))),
            !valid_address(address as int) ==> r == Err::<(), Error>(Error::UnalignedAddress)
                && *final(self) == *old(self),
    {
        if is_valid_address(address) {
            self.store(Port::Address, address);
            Ok(())
        } else {
            Err(Error::UnalignedAddress)
        }
    }
}

/// The register that holds the size of a transfer.
pub trait BlockControl: Ports {
    /// Loads the register and reads the word under `mode`.
    fn get(&mut self, mode: TransferMode) -> (r: Option<BlockMode>)
        ensures
            loaded(old(self).trace(), final(self).trace(), Port::Block),
            r == BlockMode::decoded(next_word(old(self).trace(), final(self).trace()), mode),
    {
        let word: u32 = self.load(Port::Block);
        BlockMode::decode(word, mode)
    }

    /// Stores the encoding of `block`. A size that has no encoding is
    /// refused, and the register is not touched.
    fn set(&mut self, block: BlockMode) -> (r: Result<(), Error>)
        ensures
            match block.encoded() {
                Ok(word) => r is Ok && final(self).trace() == old(self).trace().push(
                    (Port::Block, Access::Store(word)),
                ),
                Err(e) => r == Err::<(), Error>(e) && *final(self) == *old(self),
            },
    {
        match block.encode() {
            Ok(word) => {
                self.store(Port::Block, word);
                Ok(())
            },
            Err(e) => Err(e),
        }
    }
}

/// The register that configures the channel and starts its transfers.
pub trait ChannelControl: Ports {
    /// Replaces the direction and leaves the other fields as the register
    /// showed them.
    fn set_direction(&mut self, direction: Direction)
        ensures
            updated(
                old(self).trace(),
                final(self).trace(),
                Port::Control,
                |word: u32| direction.applied(word),
            ),
    {
        let word: u32 = self.load(Port::Control);
        self.store(Port::Control, direction.apply(word));
    }

    /// Replaces the step and leaves the other fields as the register showed
    /// them.
    fn set_step(&mut self, step: Step)
        ensures
            updated(
                old(self).trace(),
                final(self).trace(),
                Port::Control,
                |word: u32| step.applied(word),
            ),
    {
        let word: u32 = self.load(Port::Control);
        self.store(Port::Control, step.apply(word));
    }

    /// Enables chopping with the windows of `chop`, or disables it. A window
    /// wider than 3 bits is refused, and the register is not touched.
    fn set_chop(&mut self, chop: Option<Chop>) -> (r: Result<(), Error>)
        ensures
            chop is Some && !chop->Some_0.valid() ==> r == Err::<(), Error>(Error::InvalidChop)
                && *final(self) == *old(self),
            chop is None || chop->Some_0.valid() ==> r is Ok && updated(
                old(self).trace(),
                final(self).trace(),
                Port::Control,
                |word: u32| Chop::set(chop, word)->Ok_0,
            ),
    {
        if let Some(windows) = chop {
            if !windows.fits() {
                return Err(Error::InvalidChop);
            }
        }
        let word: u32 = self.load(Port::Control);
        match Chop::apply(chop, word) {
            Ok(changed) => {
                self.store(Port::Control, changed);
                Ok(())
            },
            Err(e) => {
                assert(false);
                Err(e)
            },
        }
    }

    /// Replaces the transfer mode and leaves the other fields as the
    /// register showed them.
    fn set_sync_mode(&mut self, mode: TransferMode)
        ensures
            updated(
                old(self).trace(),
                final(self).trace(),
                Port::Control,
                |word: u32| mode.applied(word),
            ),
    {
        let word: u32 = self.load(Port::Control);
        self.store(Port::Control, mode.apply(word));
    }

    /// Loads the register and reads its transfer mode.
    fn sync_mode(&mut self) -> (r: Option<TransferMode>)
        ensures
            loaded(old(self).trace(), final(self).trace(), Port::Control),
            r == TransferMode::of(next_word(old(self).trace(), final(self).trace())),
    {
        let word: u32 = self.load(Port::Control);
        TransferMode::read(word)
    }

    /// Starts a transfer with the configuration that the register shows and
    /// hands out the handle on it, which carries `result`.
    fn start<'a, T: Copy>(&'a mut self, result: T) -> (transfer: Transfer<'a, Self, T>)
        ensures
            transfer.result == result,
            updated(
                old(self).trace(),
                transfer.channel_control.trace(),
                Port::Control,
                |word: u32| started(word),
            ),
            *final(self) == *final(transfer.channel_control),
    {
        let word: u32 = self.load(Port::Control);
        self.store(Port::Control, start_word(word));
        Transfer { channel_control: self, result }
    }

    /// Loads the register and tells whether it shows a transfer in flight.
    fn busy(&mut self) -> (r: bool)
        ensures
            loaded(old(self).trace(), final(self).trace(), Port::Control),
            r == is_busy(next_word(old(self).trace(), final(self).trace())),
            r ==> final(self).patience() < old(self).patience(),
    {
        let word: u32 = self.load(Port::Control);
        busy_flag(word)
    }
}

/// The handle on a transfer in flight. It borrows the channel's control
/// register, so the channel cannot start another transfer while the handle
/// lives, and it carries the value that is handed out once the transfer is
/// complete.
#[must_use]
pub struct Transfer<'a, C: ChannelControl, T: Copy> {
    /// The control register of the channel that runs the transfer.
    pub channel_control: &'a mut C,
    /// The value that is handed out when the transfer is complete.
    pub result: T,
}

impl<'a, C: ChannelControl, T: Copy> Transfer<'a, C, T> {
    /// Loads the control register once and tells whether the transfer is
    /// still in flight.
    pub fn busy(&mut self) -> (r: bool)
        ensures
            final(self).result == old(self).result,
            *final(final(self).channel_control) == *final(old(self).channel_control),
            loaded(
                old(self).channel_control.trace(),
                final(self).channel_control.trace(),
                Port::Control,
            ),
            r == is_busy(
                next_word(old(self).channel_control.trace(), final(self).channel_control.trace()),
            ),
            r ==> final(self).channel_control.patience() < old(self).channel_control.patience(),
    {
        self.channel_control.busy()
    }

    /// Loads the control register until it shows the transfer complete, then
    /// hands out the carried value.
    pub fn wait(self) -> (r: T)
        ensures
            r == self.result,
            old(self.channel_control).trace().is_prefix_of(final(self.channel_control).trace()),
            waited(
                final(self.channel_control).trace().skip(
                    old(self.channel_control).trace().len() as int,
                ),
            ),
    {
        let mut me = self;
        let ghost before = me.channel_control.trace();
        let ghost mut polls: Seq<(Port, Access)> = Seq::empty();
        loop
            invariant_except_break
                me.channel_control.trace() == before + polls,
                forall|i: int|
                    0 <= i < polls.len() ==> (#[trigger] polls[i]).0 == Port::Control
                        && polls[i].1 is Load && is_busy(word_of(polls[i].1)),
            invariant
                me.result == self.result,
                *final(me.channel_control) == *final(self.channel_control),
                before == old(self.channel_control).trace(),
            ensures
                me.channel_control.trace() == before + polls,
                waited(polls),
            decreases me.channel_control.patience(),
        {
            let ghost previous = me.channel_control.trace();
            let busy: bool = me.busy();
            proof {
                let poll = me.channel_control.trace()[previous.len() as int];
                assert(me.channel_control.trace() == previous.push(poll));
                assert(before + polls.push(poll) =~= (before + polls).push(poll));
                polls = polls.push(poll);
            }
            if !busy {
                break ;
            }
        }
        proof {
            assert((before + polls).skip(before.len() as int) =~= polls);
            assert(before.is_prefix_of(before + polls));
        }
        me.result
    }

    /// Loads the control register once and hands out the carried value if
    /// the transfer is complete.
    pub fn if_done(&mut self) -> (r: Option<T>)
        ensures
            final(self).result == old(self).result,
            *final(final(self).channel_control) == *final(old(self).channel_control),
            loaded(
                old(self).channel_control.trace(),
                final(self).channel_control.trace(),
                Port::Control,
            ),
            r == if is_busy(
                next_word(old(self).channel_control.trace(), final(self).channel_control.trace()),
            ) {
                None
            } else {
                Some(old(self).result)
            },
    {
        if !self.busy() {
            Some(self.result)
        } else {
            None
        }
    }
}

/// The simulated registers play all three roles.
impl BaseAddress for SimPorts {

}

impl BlockControl for SimPorts {

}

impl ChannelControl for SimPorts {

}

} // verus!
