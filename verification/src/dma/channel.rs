//! The driver of one DMA channel.
//!
//! Every transfer goes through the same steps: the request is checked, and
//! refused before any register is touched if it cannot be written to the
//! registers; then the address, the block size and the transfer mode are
//! stored, in this order, and the start flag is set last, because the device
//! latches the other fields when it starts. While the device moves the data
//! the caller's function runs; when it returns, the driver waits for the
//! device to clear the start flag.

use vstd::prelude::*;
use crate::addr::{is_valid_address, valid_address, ADDRESS_SPACE};
use crate::dma::mode::{started, BlockMode, Chop, Direction, Step, TransferMode, MAX_SINGLE_WORDS};
use crate::dma::ports::Port;
use crate::dma::roles::{updated, waited, BaseAddress, BlockControl, ChannelControl, Transfer};
use crate::dma::{Error, LinkedList};
use crate::gpu::{DMAMode, GP0, GP1};
use crate::ordering::OrderingTable;
use crate::register::{next_word, word_of, Access, Register};

verus! {

/// The channels of the DMA engine, in the order of their numbers.
#[derive(Debug, Clone, Copy, PartialEq, Eq, Structural)]
pub enum Name {
    /// Channel 0: from memory to the macroblock decoder.
    MDECIn,
    /// Channel 1: from the macroblock decoder to memory.
    MDECOut,
    /// Channel 2: the graphics coprocessor.
    GPU,
    /// Channel 3: the CD-ROM drive.
    CDROM,
    /// Channel 4: the sound processor.
    SPU,
    /// Channel 5: the expansion port.
    PIO,
    /// Channel 6: clearing of ordering tables.
    OTC,
}

impl Name {
    /// The bit of the engine's control register that enables the channel:
    /// bit 3 of the channel's group of four.
    pub open spec fn enable_bit(self) -> u32 {
        match self {
            Name::MDECIn => 0x0000_0008u32,
            Name::MDECOut => 0x0000_0080u32,
            Name::GPU => 0x0000_0800u32,
            Name::CDROM => 0x0000_8000u32,
            Name::SPU => 0x0008_0000u32,
            Name::PIO => 0x0080_0000u32,
            Name::OTC => 0x0800_0000u32,
        }
    }

    /// The enable bit of the channel as a mask.
    pub fn enable_mask(self) -> (r: u32)
        ensures
            r == self.enable_bit(),
    {
        match self {
            Name::MDECIn => 0x0000_0008,
            Name::MDECOut => 0x0000_0080,
            Name::GPU => 0x0000_0800,
            Name::CDROM => 0x0000_8000,
            Name::SPU => 0x0008_0000,
            Name::PIO => 0x0080_0000,
            Name::OTC => 0x0800_0000,
        }
    }
}

/// What enabling a channel leaves in the trace of the engine's control
/// register: one load, and one store of the loaded word with the enable bit
/// set if the load showed the bit clear.
pub open spec fn enabled(before: Seq<Access>, after: Seq<Access>, bit: u32) -> bool {
    let word = next_word(before, after);
    if word & bit != 0 {
        after == before.push(Access::Load(word))
    } else {
        after == before.push(Access::Load(word)).push(Access::Store(word | bit))
    }
}

/// A channel is enabled once: when the engine's control register shows what
/// was last stored to it, enabling a channel that was enabled before stores
/// nothing.
pub proof fn lemma_enabled_once(
    before: Seq<Access>,
    between: Seq<Access>,
    after: Seq<Access>,
    name: Name,
)
    requires
        enabled(before, between, name.enable_bit()),
        enabled(between, after, name.enable_bit()),
        next_word(between, after) == word_of(between.last()),
    ensures
        after == between.push(Access::Load(next_word(between, after))),
{
    let bit = name.enable_bit();
    let first = next_word(before, between);
    assert((first | bit) & bit != 0) by (bit_vector)
        requires
            bit != 0,
    ;
}

/// The address that the engine starts at for a block of `len` words at
/// `address`: the first word when it steps forward, the last word when it
/// steps backward.
pub open spec fn anchor(address: u32, len: nat, step: Step) -> int {
    match step {
        Step::Forward => address as int,
        Step::Backward => address + 4 * (len - 1),
    }
}

/// The address to write for a block of `len` words at `address`, or the
/// reason why the block cannot be sent.
pub open spec fn block_start(address: u32, len: nat, step: Step) -> Result<u32, Error> {
    if len == 0 {
        Err(Error::EmptyBlock)
    } else if !valid_address(anchor(address, len, step)) {
        Err(Error::UnalignedAddress)
    } else {
        Ok(anchor(address, len, step) as u32)
    }
}

/// The address and the block-control word to write for one block of `len`
/// words at `address`, or the reason why the block cannot be sent.
pub open spec fn single_block(address: u32, len: nat, step: Step) -> Result<(u32, u32), Error> {
    match block_start(address, len, step) {
        Err(e) => Err(e),
        Ok(start) => if len > MAX_SINGLE_WORDS {
            Err(Error::OversizedBlock)
        } else {
            match BlockMode::Single(len as u32).encoded() {
                Ok(word) => Ok((start, word)),
                Err(e) => Err(e),
            }
        },
    }
}

/// The address and the block-control word to write for `len` words at
/// `address` that go in `count` blocks of one size, or the reason why they
/// cannot be sent so.
pub open spec fn many_blocks(address: u32, len: nat, count: nat, step: Step) -> Result<
    (u32, u32),
    Error,
> {
    match block_start(address, len, step) {
        Err(e) => Err(e),
        Ok(start) => if count == 0 || len % count != 0 {
            Err(Error::BadBlockPartition)
        } else if len / count > 0xFFFF || count > 0xFFFF {
            Err(Error::OversizedBlock)
        } else {
            Ok((start, (len / count + count * 0x1_0000) as u32))
        },
    }
}

/// What a completed transfer leaves in the trace of a channel: the stores of
/// `setup`; then the transfer mode is replaced by `mode` in what the control
/// register shows; then the start flag is set in what it shows then; then
/// the control register is loaded until it shows the start flag clear.
pub open spec fn transferred(
    before: Seq<(Port, Access)>,
    after: Seq<(Port, Access)>,
    setup: Seq<(Port, Access)>,
    mode: TransferMode,
) -> bool {
    let n: int = (before.len() + setup.len()) as int;
    let shown = word_of(after[n].1);
    let armed = word_of(after[n + 2].1);
    &&& after.len() > n + 4
    &&& after.take(n + 4) == before + setup + seq![
        (Port::Control, Access::Load(shown)),
        (Port::Control, Access::Store(mode.applied(shown))),
        (Port::Control, Access::Load(armed)),
        (Port::Control, Access::Store(started(armed))),
    ]
    &&& waited(after.skip(n + 4))
}

/// What starting a transfer at `address` leaves in the trace of a channel:
/// the store of the address, and then the start flag is set in what the
/// control register shows.
pub open spec fn sent(before: Seq<(Port, Access)>, after: Seq<(Port, Access)>, address: u32) -> bool {
    let shown = word_of(after[before.len() as int + 1].1);
    after == before.push((Port::Address, Access::Store(address))).push(
        (Port::Control, Access::Load(shown)),
    ).push((Port::Control, Access::Store(started(shown))))
}

/// What starting the engine on a fresh ordering table leaves in the trace
/// of a channel: the stores of the address and of the size; then the
/// immediate mode, the backward step and the start flag are set one after
/// the other, each in what the control register shows then.
pub open spec fn cleared(
    before: Seq<(Port, Access)>,
    after: Seq<(Port, Access)>,
    address: u32,
    size: u32,
) -> bool {
    let n: int = before.len() as int + 2;
    let first = word_of(after[n].1);
    let second = word_of(after[n + 2].1);
    let third = word_of(after[n + 4].1);
    after == before + seq![
        (Port::Address, Access::Store(address)),
        (Port::Block, Access::Store(size)),
        (Port::Control, Access::Load(first)),
        (Port::Control, Access::Store(TransferMode::Immediate.applied(first))),
        (Port::Control, Access::Load(second)),
        (Port::Control, Access::Store(Step::Backward.applied(second))),
        (Port::Control, Access::Load(third)),
        (Port::Control, Access::Store(started(third))),
    ]
}

/// What sending one block and waiting for the device leaves in the trace of
/// a channel: the stores of the address and of the size; then the start flag
/// is set in what the control register shows; then the control register is
/// loaded until it shows the start flag clear.
pub open spec fn block_sent(
    before: Seq<(Port, Access)>,
    after: Seq<(Port, Access)>,
    address: u32,
    size: u32,
) -> bool {
    let n: int = before.len() as int;
    let shown = word_of(after[n + 2].1);
    &&& after.len() > n + 4
    &&& after.take(n + 4) == before + seq![
        (Port::Address, Access::Store(address)),
        (Port::Block, Access::Store(size)),
        (Port::Control, Access::Load(shown)),
        (Port::Control, Access::Store(started(shown))),
    ]
    &&& waited(after.skip(n + 4))
}

/// What preparing a channel for loading images leaves in its trace: the
/// direction from memory, the forward step, no chopping and the immediate
/// mode are set one after the other, each in what the control register
/// shows then.
pub open spec fn image_mode_set(before: Seq<(Port, Access)>, after: Seq<(Port, Access)>) -> bool {
    let n: int = before.len() as int;
    let first = word_of(after[n].1);
    let second = word_of(after[n + 2].1);
    let third = word_of(after[n + 4].1);
    let fourth = word_of(after[n + 6].1);
    after == before + seq![
        (Port::Control, Access::Load(first)),
        (Port::Control, Access::Store(Direction::FromMemory.applied(first))),
        (Port::Control, Access::Load(second)),
        (Port::Control, Access::Store(Step::Forward.applied(second))),
        (Port::Control, Access::Load(third)),
        (Port::Control, Access::Store(Chop::cleared(third))),
        (Port::Control, Access::Load(fourth)),
        (Port::Control, Access::Store(TransferMode::Immediate.applied(fourth))),
    ]
}

/// What loading an image leaves in the trace of a channel: the channel is
/// prepared; then the bitmap is sent and waited for; then the colour table,
/// if there is one, is sent and waited for.
pub open spec fn image_loaded(
    before: Seq<(Port, Access)>,
    after: Seq<(Port, Access)>,
    bitmap: (u32, u32),
    table: Option<(u32, u32)>,
) -> bool {
    let n: int = before.len() as int + 8;
    &&& after.len() >= n
    &&& image_mode_set(before, after.take(n))
    &&& match table {
        None => block_sent(after.take(n), after, bitmap.0, bitmap.1),
        Some(second) => exists|split: int|
            {
                &&& n <= split <= after.len()
                &&& block_sent(after.take(n), #[trigger] after.take(split), bitmap.0, bitmap.1)
                &&& block_sent(after.take(split), after, second.0, second.1)
            },
    }
}

/// The addresses and block-control words to write for the bitmap of an
/// image, of `bitmap_len` words at `bitmap_address`, and for its colour
/// table if it has one, or the reason why the image cannot be loaded. Both
/// go as single blocks with a forward step.
pub open spec fn image_blocks(bitmap_address: u32, bitmap_len: nat, clut: Option<(u32, nat)>) -> Result<
    ((u32, u32), Option<(u32, u32)>),
    Error,
> {
    match single_block(bitmap_address, bitmap_len, Step::Forward) {
        Err(e) => Err(e),
        Ok(bitmap) => match clut {
            None => Ok((bitmap, None)),
            Some((address, len)) => match single_block(address, len, Step::Forward) {
                Err(e) => Err(e),
                Ok(table) => Ok((bitmap, Some(table))),
            },
        },
    }
}

/// The command that tells the coprocessor to take the words that follow
/// into its memory.
pub const LOAD_IMAGE: u32 = 0xA000_0000;

/// Computes the address that the engine has to start at for a block of
/// `len` words at `address`.
pub fn block_address(address: u32, len: usize, step: Step) -> (r: Result<u32, Error>)
    ensures
        r == block_start(address, len as nat, step),
{
    if len == 0 {
        return Err(Error::EmptyBlock);
    }
    match step {
        Step::Forward => {
            if is_valid_address(address) {
                Ok(address)
            } else {
                Err(Error::UnalignedAddress)
            }
        },
        Step::Backward => {
            if address >= ADDRESS_SPACE || len - 1 > (ADDRESS_SPACE / 4) as usize {
                return Err(Error::UnalignedAddress);
            }
            let last: u32 = address + 4 * ((len - 1) as u32);
            if is_valid_address(last) {
                Ok(last)
            } else {
                Err(Error::UnalignedAddress)
            }
        },
    }
}

/// Computes the address and the block-control word to write for one block
/// of `len` words at `address`.
pub fn single_block_words(address: u32, len: usize, step: Step) -> (r: Result<(u32, u32), Error>)
    ensures
        r == single_block(address, len as nat, step),
{
    let start: u32 = match block_address(address, len, step) {
        Ok(start) => start,
        Err(e) => {
            return Err(e);
        },
    };
    if len > MAX_SINGLE_WORDS as usize {
        return Err(Error::OversizedBlock);
    }
    match BlockMode::Single(len as u32).encode() {
        Ok(word) => Ok((start, word)),
        Err(e) => Err(e),
    }
}

/// A handle on one DMA channel: the three registers of the channel, and the
/// step with which the channel is configured.
pub struct Channel<P: BaseAddress + BlockControl + ChannelControl> {
    ports: P,
    step: Step,
}

impl<P: BaseAddress + BlockControl + ChannelControl> Channel<P> {
    /// The registers of the channel.
    pub closed spec fn ports(&self) -> P {
        self.ports
    }

    /// The direction in which the channel steps through memory.
    pub closed spec fn step(&self) -> Step {
        self.step
    }

    /// Every access made to the registers of the channel, oldest first.
    pub open spec fn trace(&self) -> Seq<(Port, Access)> {
        self.ports().trace()
    }

    /// Binds the registers `ports` of the channel `name`, after making sure
    /// that the channel is enabled in the control register `global` of the
    /// engine: the enable bit is stored only if it is not set yet. The step
    /// of the channel is what its control register shows.
    pub fn new<G: Register>(name: Name, global: &mut G, ports: P) -> (r: Self)
        ensures
            enabled(old(global).trace(), final(global).trace(), name.enable_bit()),
            r.trace() == ports.trace().push(
                (Port::Control, Access::Load(word_of(r.trace().last().1))),
            ),
            r.step() == Step::of(word_of(r.trace().last().1)),
    {
        let word: u32 = global.load();
        if word & name.enable_mask() == 0 {
            global.store(word | name.enable_mask());
        }
        let mut ports = ports;
        let control: u32 = ports.load(Port::Control);
        Channel { ports, step: Step::read(control) }
    }

    /// The registers of the channel.
    pub fn registers(&self) -> (r: &P)
        ensures
            *r == self.ports(),
    {
        &self.ports
    }

    /// The direction in which the channel steps through memory.
    pub fn current_step(&self) -> (r: Step)
        ensures
            r == self.step(),
    {
        self.step
    }

    /// Sets the direction in which the channel steps through memory.
    pub fn set_step(&mut self, step: Step)
        ensures
            final(self).step() == step,
            updated(
                old(self).trace(),
                final(self).trace(),
                Port::Control,
                |word: u32| step.applied(word),
            ),
    {
        self.ports.set_step(step);
        self.step = step;
    }

    /// Sets the direction of the channel's transfers.
    pub fn set_direction(&mut self, direction: Direction)
        ensures
            final(self).step() == old(self).step(),
            updated(
                old(self).trace(),
                final(self).trace(),
                Port::Control,
                |word: u32| direction.applied(word),
            ),
    {
        self.ports.set_direction(direction);
    }

    /// Enables chopping with the windows of `chop`, or disables it. A window
    /// wider than 3 bits is refused, and no register is touched.
    pub fn set_chop(&mut self, chop: Option<Chop>) -> (r: Result<(), Error>)
        ensures
            chop is Some && !chop->Some_0.valid() ==> r == Err::<(), Error>(Error::InvalidChop)
                && *final(self) == *old(self),
            chop is None || chop->Some_0.valid() ==> r is Ok && final(self).step() == old(
                self,
            ).step() && updated(
                old(self).trace(),
                final(self).trace(),
                Port::Control,
                |word: u32| Chop::set(chop, word)->Ok_0,
            ),
    {
        self.ports.set_chop(chop)
    }

    /// The address that the engine has to start at for `block`, which lies
    /// at `address`: the address of the first word when the channel steps
    /// forward, of the last word when it steps backward.
    pub fn block_ptr(&self, block: &[u32], address: u32) -> (r: Result<u32, Error>)
        ensures
            r == block_start(address, block@.len(), self.step()),
    {
        block_address(address, block.len(), self.step)
    }

    /// Sets the transfer mode, starts the transfer, runs `f` while the
    /// device works, and waits for the device when `f` has returned.
    fn run<F: FnOnce() -> R, R>(&mut self, mode: TransferMode, f: F) -> (r: R)
        requires
            call_requires(f, ()),
        ensures
            call_ensures(f, (), r),
            final(self).step() == old(self).step(),
            transferred(old(self).trace(), final(self).trace(), Seq::empty(), mode),
    {
        let ghost before = self.ports.trace();
        self.ports.set_sync_mode(mode);
        let ghost moded = self.ports.trace();
        let transfer = self.ports.start(());
        let ghost armed = transfer.channel_control.trace();
        let res = f();
        transfer.wait();
        proof {
            let after = self.ports.trace();
            let n = before.len() as int;
            assert(armed.len() == n + 4);
            assert(after.take(n + 4) =~= armed);
            assert(after[n] == armed[n]);
            assert(after[n + 2] == armed[n + 2]);
            assert(armed[n] == moded[n]);
            assert(after.take(n + 4) =~= before + Seq::<(Port, Access)>::empty() + seq![
                (Port::Control, Access::Load(word_of(after[n].1))),
                (Port::Control, Access::Store(mode.applied(word_of(after[n].1)))),
                (Port::Control, Access::Load(word_of(after[n + 2].1))),
                (Port::Control, Access::Store(started(word_of(after[n + 2].1)))),
            ]);
        }
        res
    }

    /// Sends `block`, which lies at `address`, as a single block, and runs
    /// `f` while the device works. Returns what `f` returned, after the
    /// device has completed the transfer.
    ///
    /// An empty block, a start address that is not word-aligned or lies
    /// outside the 24-bit space, and a block of more than `0x1_0000` words
    /// are refused, in this order of precedence. `f` does not run then and
    /// no register is touched.
    pub fn send_and<F: FnOnce() -> R, R>(&mut self, block: &[u32], address: u32, f: F) -> (r:
        Result<R, Error>)
        requires
            call_requires(f, ()),
        ensures
            match single_block(address, block@.len(), old(self).step()) {
                Err(e) => r is Err && r->Err_0 == e && *final(self) == *old(self),
                Ok((start, word)) => r is Ok && call_ensures(f, (), r->Ok_0) && final(self).step()
                    == old(self).step() && transferred(
                    old(self).trace(),
                    final(self).trace(),
                    seq![
                        (Port::Address, Access::Store(start)),
                        (Port::Block, Access::Store(word)),
                    ],
                    TransferMode::Immediate,
                ),
            },
    {
        let start: u32 = match single_block_words(address, block.len(), self.step) {
            Ok((start, _)) => start,
            Err(e) => {
                return Err(e);
            },
        };
        let size = BlockMode::Single(block.len() as u32);
        let ghost before = self.ports.trace();
        match BaseAddress::set(&mut self.ports, start) {
            Ok(()) => {},
            Err(e) => {
                assert(false);
                return Err(e);
            },
        }
        match BlockControl::set(&mut self.ports, size) {
            Ok(()) => {},
            Err(e) => {
                assert(false);
                return Err(e);
            },
        }
        let ghost setup = seq![
            (Port::Address, Access::Store(start)),
            (Port::Block, Access::Store(size.encoded()->Ok_0)),
        ];
        assert(self.ports.trace() =~= before + setup);
        let res = self.run(TransferMode::Immediate, f);
        proof {
            lemma_transferred_after_setup(
                before,
                self.ports.trace(),
                setup,
                TransferMode::Immediate,
            );
        }
        Ok(res)
    }

    /// Sends `block`, which lies at `address`, in `block_count` blocks of
    /// one size, one block for each request of the device, and runs `f`
    /// while the device works. Returns what `f` returned, after the device
    /// has completed the transfer.
    ///
    /// An empty block, a start address that is not word-aligned or lies
    /// outside the 24-bit space, a length that is no multiple of
    /// `block_count`, and a block size or a block count above `0xFFFF` are
    /// refused, in this order of precedence. `f` does not run then and no
    /// register is touched.
    pub fn send_blocks_and<F: FnOnce() -> R, R>(
        &mut self,
        block: &[u32],
        address: u32,
        block_count: usize,
        f: F,
    ) -> (r: Result<R, Error>)
        requires
            call_requires(f, ()),
        ensures
            match many_blocks(address, block@.len(), block_count as nat, old(self).step()) {
                Err(e) => r is Err && r->Err_0 == e && *final(self) == *old(self),
                Ok((start, word)) => r is Ok && call_ensures(f, (), r->Ok_0) && final(self).step()
                    == old(self).step() && transferred(
                    old(self).trace(),
                    final(self).trace(),
                    seq![
                        (Port::Address, Access::Store(start)),
                        (Port::Block, Access::Store(word)),
                    ],
                    TransferMode::Request,
                ),
            },
    {
        let start: u32 = match self.block_ptr(block, address) {
            Ok(start) => start,
            Err(e) => {
                return Err(e);
            },
        };
        if block_count == 0 || block.len() % block_count != 0 {
            return Err(Error::BadBlockPartition);
        }
        let words: usize = block.len() / block_count;
        if words > 0xFFFF || block_count > 0xFFFF {
            return Err(Error::OversizedBlock);
        }
        let size = BlockMode::Multi { words: words as u16, blocks: block_count as u16 };
        let ghost before = self.ports.trace();
        match BaseAddress::set(&mut self.ports, start) {
            Ok(()) => {},
            Err(e) => {
                assert(false);
                return Err(e);
            },
        }
        match BlockControl::set(&mut self.ports, size) {
            Ok(()) => {},
            Err(e) => {
                assert(false);
                return Err(e);
            },
        }
        let ghost setup = seq![
            (Port::Address, Access::Store(start)),
            (Port::Block, Access::Store(size.encoded()->Ok_0)),
        ];
        assert(self.ports.trace() =~= before + setup);
        let res = self.run(TransferMode::Request, f);
        proof {
            lemma_transferred_after_setup(before, self.ports.trace(), setup, TransferMode::Request);
        }
        Ok(res)
    }

    /// Sends the linked list `list`, starting at the address that the list
    /// gives as its head, and runs `f` while the device works. Returns what
    /// `f` returned, after the device has completed the transfer. The
    /// block-control register plays no part in this mode.
    ///
    /// A head that is not word-aligned or lies outside the 24-bit space is
    /// refused. `f` does not run then and no register is touched.
    pub fn send_list_and<F: FnOnce() -> R, R, L: LinkedList>(&mut self, list: &L, f: F) -> (r:
        Result<R, Error>)
        requires
            call_requires(f, ()),
        ensures
            !valid_address(list.head() as int) ==> r is Err && r->Err_0 == Error::UnalignedAddress
                && *final(self) == *old(self),
            valid_address(list.head() as int) ==> r is Ok && call_ensures(f, (), r->Ok_0)
                && final(self).step() == old(self).step() && transferred(
                old(self).trace(),
                final(self).trace(),
                seq![(Port::Address, Access::Store(list.head()))],
                TransferMode::LinkedList,
            ),
    {
        let head: u32 = list.address();
        let ghost before = self.ports.trace();
        match BaseAddress::set(&mut self.ports, head) {
            Ok(()) => {},
            Err(e) => {
                return Err(e);
            },
        }
        let ghost setup = seq![(Port::Address, Access::Store(head))];
        assert(self.ports.trace() =~= before + setup);
        let res = self.run(TransferMode::LinkedList, f);
        proof {
            lemma_transferred_after_setup(
                before,
                self.ports.trace(),
                setup,
                TransferMode::LinkedList,
            );
        }
        Ok(res)
    }

    /// Sends the `len` words at `start` as one block and waits for the
    /// device.
    fn send_block(&mut self, start: u32, len: u32)
        requires
            valid_address(start as int),
            1 <= len <= MAX_SINGLE_WORDS,
        ensures
            final(self).step() == old(self).step(),
            block_sent(
                old(self).trace(),
                final(self).trace(),
                start,
                BlockMode::Single(len).encoded()->Ok_0,
            ),
    {
        let ghost before = self.ports.trace();
        match BaseAddress::set(&mut self.ports, start) {
            Ok(()) => {},
            Err(_) => {
                assert(false);
            },
        }
        match BlockControl::set(&mut self.ports, BlockMode::Single(len)) {
            Ok(()) => {},
            Err(_) => {
                assert(false);
            },
        }
        let transfer = self.ports.start(());
        let ghost armed = transfer.channel_control.trace();
        transfer.wait();
        proof {
            let after = self.ports.trace();
            let n = before.len() as int;
            assert(armed.len() == n + 4);
            assert(after.take(n + 4) =~= armed);
            assert(after[n + 2] == armed[n + 2]);
            assert(armed =~= before + seq![
                (Port::Address, Access::Store(start)),
                (Port::Block, Access::Store(BlockMode::Single(len).encoded()->Ok_0)),
                (Port::Control, Access::Load(word_of(armed[n + 2].1))),
                (Port::Control, Access::Store(started(word_of(armed[n + 2].1)))),
            ]);
        }
    }

    /// Loads an image into the coprocessor's memory: its bitmap, which lies
    /// at `bitmap_address`, and then its colour table, if it has one, which
    /// is given with its address. The channel is set to read from memory
    /// forward, unchopped, in immediate mode; each part is announced to the
    /// coprocessor on `gp0`, sent as one block and waited for.
    ///
    /// A part that cannot be sent as a single block is refused as by
    /// `send_and`, the bitmap before the colour table, and no register is
    /// touched.
    pub fn load_tim<G: Register>(
        &mut self,
        bitmap: &[u32],
        bitmap_address: u32,
        clut: Option<(&[u32], u32)>,
        gp0: &mut GP0<G>,
    ) -> (r: Result<(), Error>)
        ensures
            match image_blocks(
                bitmap_address,
                bitmap@.len(),
                match clut {
                    Some((words, address)) => Some((address, words@.len())),
                    None => None,
                },
            ) {
                Err(e) => r == Err::<(), Error>(e) && *final(self) == *old(self) && *final(gp0)
                    == *old(gp0),
                Ok((first, second)) => {
                    &&& r is Ok
                    &&& final(self).step() == Step::Forward
                    &&& final(gp0).trace() == old(gp0).trace() + if second is Some {
                        seq![Access::Store(LOAD_IMAGE), Access::Store(LOAD_IMAGE)]
                    } else {
                        seq![Access::Store(LOAD_IMAGE)]
                    }
                    &&& image_loaded(old(self).trace(), final(self).trace(), first, second)
                },
            },
    {
        let first: (u32, u32) = match single_block_words(bitmap_address, bitmap.len(), Step::Forward) {
            Ok(words) => words,
            Err(e) => {
                return Err(e);
            },
        };
        if let Some((words, address)) = clut {
            match single_block_words(address, words.len(), Step::Forward) {
                Ok(_) => {},
                Err(e) => {
                    return Err(e);
                },
            }
        }
        let ghost before = self.ports.trace();
        self.ports.set_direction(Direction::FromMemory);
        self.ports.set_step(Step::Forward);
        self.step = Step::Forward;
        match self.ports.set_chop(None) {
            Ok(()) => {},
            Err(_) => {
                assert(false);
            },
        }
        self.ports.set_sync_mode(TransferMode::Immediate);
        let ghost set = self.ports.trace();
        proof {
            let n = before.len() as int;
            assert(set =~= before + seq![
                (Port::Control, Access::Load(word_of(set[n].1))),
                (Port::Control, Access::Store(Direction::FromMemory.applied(word_of(set[n].1)))),
                (Port::Control, Access::Load(word_of(set[n + 2].1))),
                (Port::Control, Access::Store(Step::Forward.applied(word_of(set[n + 2].1)))),
                (Port::Control, Access::Load(word_of(set[n + 4].1))),
                (Port::Control, Access::Store(Chop::cleared(word_of(set[n + 4].1)))),
                (Port::Control, Access::Load(word_of(set[n + 6].1))),
                (Port::Control, Access::Store(TransferMode::Immediate.applied(word_of(set[n + 6].1)))),
            ]);
        }
        let ghost old_gp0 = gp0.trace();
        gp0.write(LOAD_IMAGE);
        self.send_block(first.0, bitmap.len() as u32);
        let ghost sent = self.ports.trace();
        proof {
            assert(sent.take(set.len() as int) =~= set);
            assert(gp0.trace() =~= old_gp0 + seq![Access::Store(LOAD_IMAGE)]);
        }
        if let Some((words, address)) = clut {
            gp0.write(LOAD_IMAGE);
            self.send_block(address, words.len() as u32);
            proof {
                let after = self.ports.trace();
                assert(after.take(sent.len() as int) =~= sent);
                assert(after.take(set.len() as int) =~= set);
                assert(gp0.trace() =~= old_gp0 + seq![
                    Access::Store(LOAD_IMAGE),
                    Access::Store(LOAD_IMAGE),
                ]);
            }
        }
        Ok(())
    }

    /// Prepares the channel for sending ordering tables to the graphics
    /// coprocessor: the coprocessor is told to take its DMA requests from
    /// memory, the block-control register is cleared, and the channel is
    /// set to read from memory in linked-list mode.
    pub fn prepare_ot<G: Register>(&mut self, gp1: &mut GP1<G>)
        ensures
            final(gp1).trace() == old(gp1).trace().push(Access::Store(0x0400_0002)),
            final(self).step() == old(self).step(),
            ({
                let before = old(self).trace().push((Port::Block, Access::Store(0)));
                let after = final(self).trace();
                let first = word_of(after[before.len() as int].1);
                let second = word_of(after[before.len() as int + 2].1);
                after == before.push((Port::Control, Access::Load(first))).push(
                    (Port::Control, Access::Store(Direction::FromMemory.applied(first))),
                ).push((Port::Control, Access::Load(second))).push(
                    (Port::Control, Access::Store(TransferMode::LinkedList.applied(second))),
                )
            }),
    {
        gp1.dma_mode(Some(DMAMode::GP0));
        match BlockControl::set(&mut self.ports, BlockMode::LinkedList) {
            Ok(()) => {},
            Err(_) => {
                assert(false);
            },
        }
        self.ports.set_direction(Direction::FromMemory);
        self.ports.set_sync_mode(TransferMode::LinkedList);
    }

    /// Starts sending the ordering table `ot` from its last entry on and
    /// hands out the handle on the transfer.
    pub fn send<'a, const N: usize>(&'a mut self, ot: &OrderingTable<N>) -> (transfer: Transfer<
        'a,
        P,
        (),
    >)
        requires
            ot.wf(),
        ensures
            final(self).step() == old(self).step(),
            final(self).ports() == *final(transfer.channel_control),
            sent(old(self).trace(), transfer.channel_control.trace(), ot@[N - 1].address),
    {
        self.send_offset(ot, N - 1)
    }

    /// Starts sending the ordering table `ot` from its entry `n` on and
    /// hands out the handle on the transfer.
    pub fn send_offset<'a, const N: usize>(&'a mut self, ot: &OrderingTable<N>, n: usize) -> (transfer:
        Transfer<'a, P, ()>)
        requires
            ot.wf(),
            n < N,
        ensures
            final(self).step() == old(self).step(),
            final(self).ports() == *final(transfer.channel_control),
            sent(old(self).trace(), transfer.channel_control.trace(), ot@[n as int].address),
    {
        let address: u32 = ot.entry_address(n);
        match BaseAddress::set(&mut self.ports, address) {
            Ok(()) => {},
            Err(_) => {
                assert(false);
            },
        }
        self.ports.start(())
    }

    /// Starts the engine on writing a fresh ordering table over `ot` and
    /// hands out the handle on the transfer. The engine works from the last
    /// entry of the table down to the first, so the channel steps backward
    /// from now on.
    pub fn clear<'a, const N: usize>(&'a mut self, ot: &OrderingTable<N>) -> (transfer: Transfer<
        'a,
        P,
        (),
    >)
        requires
            ot.wf(),
            N <= MAX_SINGLE_WORDS,
        ensures
            final(self).step() == Step::Backward,
            final(self).ports() == *final(transfer.channel_control),
            cleared(
                old(self).trace(),
                transfer.channel_control.trace(),
                ot@[N - 1].address,
                (BlockMode::Single(N as u32)).encoded()->Ok_0,
            ),
    {
        let ghost before = self.ports.trace();
        let address: u32 = ot.entry_address(N - 1);
        match BaseAddress::set(&mut self.ports, address) {
            Ok(()) => {},
            Err(_) => {
                assert(false);
            },
        }
        match BlockControl::set(&mut self.ports, BlockMode::Single(N as u32)) {
            Ok(()) => {},
            Err(_) => {
                assert(false);
            },
        }
        self.ports.set_sync_mode(TransferMode::Immediate);
        self.ports.set_step(Step::Backward);
        self.step = Step::Backward;
        let transfer = self.ports.start(());
        proof {
            let after = transfer.channel_control.trace();
            let n = before.len() as int + 2;
            assert(after =~= before + seq![
                (Port::Address, Access::Store(address)),
                (Port::Block, Access::Store((BlockMode::Single(N as u32)).encoded()->Ok_0)),
                (Port::Control, Access::Load(word_of(after[n].1))),
                (
                    Port::Control,
                    Access::Store(TransferMode::Immediate.applied(word_of(after[n].1))),
                ),
                (Port::Control, Access::Load(word_of(after[n + 2].1))),
                (Port::Control, Access::Store(Step::Backward.applied(word_of(after[n + 2].1)))),
                (Port::Control, Access::Load(word_of(after[n + 4].1))),
                (Port::Control, Access::Store(started(word_of(after[n + 4].1)))),
            ]);
        }
        transfer
    }
}

/// A transfer that follows the stores of its setup is a transfer with that
/// setup.
proof fn lemma_transferred_after_setup(
    before: Seq<(Port, Access)>,
    after: Seq<(Port, Access)>,
    setup: Seq<(Port, Access)>,
    mode: TransferMode,
)
    requires
        transferred(before + setup, after, Seq::empty(), mode),
    ensures
        transferred(before, after, setup, mode),
{
    let n = (before.len() + setup.len()) as int;
    let run = seq![
        (Port::Control, Access::Load(word_of(after[n].1))),
        (Port::Control, Access::Store(mode.applied(word_of(after[n].1)))),
        (Port::Control, Access::Load(word_of(after[n + 2].1))),
        (Port::Control, Access::Store(started(word_of(after[n + 2].1)))),
    ];
    assert((before + setup).len() == n);
    assert((before + setup) + Seq::<(Port, Access)>::empty() + run =~= before + setup + run);
}

} // verus!
