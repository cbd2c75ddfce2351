//! The three registers of one DMA channel, seen as one device.
//!
//! The registers are kept together because the device cares about the order
//! of accesses across them: some fields are latched only when the transfer
//! starts. One trace for the three makes that order something a contract can
//! state.

use vstd::prelude::*;
use crate::dma::mode::{is_busy, START_BIT, TRIGGER_BIT};
use crate::register::Access;

verus! {

/// The role that a register plays in its channel.
#[derive(Debug, Clone, Copy, PartialEq, Eq, Structural)]
pub enum Port {
    /// The memory address at which the transfer starts.
    Address,
    /// The size of the transfer.
    Block,
    /// The configuration of the channel and its start flag.
    Control,
}

/// The registers of one DMA channel, owned by one handle.
///
/// Nothing is promised about the word that a load returns, with one
/// exception that makes waiting for a transfer finite: the device completes
/// every transfer it was asked to start. `patience` bounds the loads of the
/// control register that can still show the start flag.
pub trait Ports: Sized {
    /// Every access made through this handle, oldest first.
    ///
    /// Registers that are simulated define their trace by what they
    /// recorded. For registers of the machine the trace is the history of
    /// the device itself, which no value in memory holds: such an
    /// implementation leaves it undefined.
    open spec fn trace(&self) -> Seq<(Port, Access)> {
        vstd::pervasive::arbitrary()
    }

    /// A bound on how many more loads of the control register can show a
    /// transfer in flight before the device completes it. For registers of
    /// the machine it is as undefined as the trace.
    open spec fn patience(&self) -> nat {
        vstd::pervasive::arbitrary()
    }

    /// Loads the register `port` once.
    fn load(&mut self, port: Port) -> (value: u32)
        ensures
            final(self).trace() == old(self).trace().push((port, Access::Load(value))),
            port == Port::Control && is_busy(value) ==> final(self).patience() < old(
                self,
            ).patience(),
    ;

    /// Stores `value` to the register `port` once.
    fn store(&mut self, port: Port, value: u32)
        ensures
            final(self).trace() == old(self).trace().push((port, Access::Store(value))),
    ;
}

/// The registers of a channel simulated in software.
///
/// Each register holds the last word stored to it. A transfer that is started
/// stays in flight for a fixed number of loads of the control register; the
/// load after those finds the start flag and the trigger cleared, as the
/// device leaves them when a transfer is complete.
pub struct SimPorts {
    address: u32,
    block: u32,
    control: u32,
    latency: usize,
    countdown: usize,
    log: Vec<(Port, Access)>,
}

impl SimPorts {
    /// The word that the register `port` holds.
    pub closed spec fn held(&self, port: Port) -> u32 {
        match port {
            Port::Address => self.address,
            Port::Block => self.block,
            Port::Control => self.control,
        }
    }

    /// Registers that hold `control` in the control register and 0 in the
    /// others, and that keep every started transfer in flight for `latency`
    /// loads of the control register.
    pub fn new(control: u32, latency: usize) -> (r: SimPorts)
        ensures
            r.trace() == Seq::<(Port, Access)>::empty(),
            r.held(Port::Address) == 0,
            r.held(Port::Block) == 0,
            r.held(Port::Control) == control,
    {
        SimPorts { address: 0, block: 0, control, latency, countdown: latency, log: Vec::new() }
    }

    /// The word that the register `port` holds now, read without an access.
    pub fn peek(&self, port: Port) -> (value: u32)
        ensures
            value == self.held(port),
    {
        match port {
            Port::Address => self.address,
            Port::Block => self.block,
            Port::Control => self.control,
        }
    }

    /// The accesses made so far, oldest first.
    pub fn accesses(&self) -> (log: &Vec<(Port, Access)>)
        ensures
            log@ == self.trace(),
    {
        &self.log
    }
}

impl Ports for SimPorts {
    closed spec fn trace(&self) -> Seq<(Port, Access)> {
        self.log@
    }

    closed spec fn patience(&self) -> nat {
        if is_busy(self.control) {
            (self.countdown + 1) as nat
        } else {
            0
        }
    }

    fn load(&mut self, port: Port) -> (value: u32)
        ensures
            port != Port::Control || !is_busy(old(self).held(Port::Control)) ==> value == old(
                self,
            ).held(port) && final(self).held(Port::Control) == old(self).held(Port::Control),
            port == Port::Control ==> value == final(self).held(Port::Control),
            forall|p: Port| p != Port::Control ==> final(self).held(p) == old(self).held(p),
    {
        let value: u32 = match port {
            Port::Address => self.address,
            Port::Block => self.block,
            Port::Control => {
                let before: u32 = self.control;
                if before & START_BIT != 0 {
                    if self.countdown == 0 {
                        self.control = before & !(START_BIT | TRIGGER_BIT);
                        assert((before & !(0x0100_0000u32 | 0x1000_0000u32)) & 0x0100_0000u32
                            == 0u32) by (bit_vector);
                    } else {
                        self.countdown = self.countdown - 1;
                    }
                }
                self.control
            },
        };
        self.log.push((port, Access::Load(value)));
        value
    }

    fn store(&mut self, port: Port, value: u32)
        ensures
            final(self).held(port) == value,
            forall|p: Port| p != port ==> final(self).held(p) == old(self).held(p),
    {
        match port {
            Port::Address => {
                self.address = value;
            },
            Port::Block => {
                self.block = value;
            },
            Port::Control => {
                self.control = value;
                if value & START_BIT != 0 {
                    self.countdown = self.latency;
                }
            },
        }
        self.log.push((port, Access::Store(value)));
    }
}

} // verus!
