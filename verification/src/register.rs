//! Memory-mapped registers as the drivers see them.
//!
//! A register is a device port, not a memory cell: the device may change what
//! a load returns at any time, and some loads and every store are events the
//! device reacts to. The interfaces here therefore promise nothing about the
//! value that a load returns. What they do promise is the record of accesses
//! (the trace), which is what the drivers' contracts are stated over.

use vstd::prelude::*;

verus! {

/// One access to a register.
#[derive(Debug, Clone, Copy, PartialEq, Eq, Structural)]
pub enum Access {
    /// A load, with the word that the device answered.
    Load(u32),
    /// A store, with the word that was written.
    Store(u32),
}

/// The word that an access loaded or stored.
pub open spec fn word_of(access: Access) -> u32 {
    match access {
        Access::Load(word) => word,
        Access::Store(word) => word,
    }
}

/// The word of the access that follows `before` in `after`.
pub open spec fn next_word(before: Seq<Access>, after: Seq<Access>) -> u32 {
    word_of(after[before.len() as int])
}

/// The words stored by the accesses of `trace`, oldest first.
pub open spec fn stores_of(trace: Seq<Access>) -> Seq<u32>
    decreases trace.len(),
{
    if trace.len() == 0 {
        Seq::empty()
    } else {
        match trace.last() {
            Access::Store(word) => stores_of(trace.drop_last()).push(word),
            Access::Load(_) => stores_of(trace.drop_last()),
        }
    }
}

/// A load leaves the stored words as they were.
pub proof fn lemma_stores_of_load(trace: Seq<Access>, word: u32)
    ensures
        stores_of(trace.push(Access::Load(word))) == stores_of(trace),
{
    assert(trace.push(Access::Load(word)).drop_last() =~= trace);
}

/// A store appends its word to the stored words.
pub proof fn lemma_stores_of_store(trace: Seq<Access>, word: u32)
    ensures
        stores_of(trace.push(Access::Store(word))) == stores_of(trace).push(word),
{
    assert(trace.push(Access::Store(word)).drop_last() =~= trace);
}

/// A single device register, owned by one handle.
pub trait Register: Sized {
    /// Every access made through this handle, oldest first.
    ///
    /// A register that is simulated defines its trace by what it recorded.
    /// For a register of the machine the trace is the history of the device
    /// itself, which no value in memory holds: such an implementation
    /// leaves it undefined.
    open spec fn trace(&self) -> Seq<Access> {
        vstd::pervasive::arbitrary()
    }

    /// Loads the register once.
    fn load(&mut self) -> (value: u32)
        ensures
            final(self).trace() == old(self).trace().push(Access::Load(value)),
    ;

    /// Stores `value` to the register once.
    fn store(&mut self, value: u32)
        ensures
            final(self).trace() == old(self).trace().push(Access::Store(value)),
    ;
}

/// A register simulated in software: it holds the last word stored to it and
/// records every access.
pub struct SimRegister {
    value: u32,
    log: Vec<Access>,
}

impl SimRegister {
    /// The word that the next load returns.
    pub closed spec fn held(&self) -> u32 {
        self.value
    }

    /// A register that holds `value` and has not been accessed.
    pub fn new(value: u32) -> (r: SimRegister)
        ensures
            r.held() == value,
            r.trace() == Seq::<Access>::empty(),
    {
        SimRegister { value, log: Vec::new() }
    }

    /// The word held now, read without an access.
    pub fn peek(&self) -> (value: u32)
        ensures
            value == self.held(),
    {
        self.value
    }

    /// The accesses made so far, oldest first.
    pub fn accesses(&self) -> (log: &Vec<Access>)
        ensures
            log@ == self.trace(),
    {
        &self.log
    }

    /// The words stored so far, oldest first.
    pub fn stores(&self) -> (words: Vec<u32>)
        ensures
            words@ == stores_of(self.trace()),
    {
        let mut words: Vec<u32> = Vec::new();
        let mut i: usize = 0;
        while i < self.log.len()
            invariant
                i <= self.log.len(),
                words@ == stores_of(self.log@.take(i as int)),
            decreases self.log.len() - i,
        {
            proof {
                let prefix = self.log@.take(i as int);
                assert(self.log@.take(i + 1) =~= prefix.push(self.log@[i as int]));
                match self.log@[i as int] {
                    Access::Store(word) => lemma_stores_of_store(prefix, word),
                    Access::Load(word) => lemma_stores_of_load(prefix, word),
                }
            }
            match self.log[i] {
                Access::Store(word) => {
                    words.push(word);
                },
                Access::Load(_) => {},
            }
            i = i + 1;
        }
        proof {
            assert(self.log@.take(self.log.len() as int) =~= self.log@);
        }
        words
    }
}

impl Register for SimRegister {
    closed spec fn trace(&self) -> Seq<Access> {
        self.log@
    }

    fn load(&mut self) -> (value: u32)
        ensures
            value == old(self).held(),
            final(self).held() == old(self).held(),
    {
        let value = self.value;
        self.log.push(Access::Load(value));
        value
    }

    fn store(&mut self, value: u32)
        ensures
            final(self).held() == value,
    {
        self.value = value;
        self.log.push(Access::Store(value));
    }
}

} // verus!
