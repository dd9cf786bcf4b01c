//! The controller interface: raw transport boundary, wire framing, and the
//! busy-polling protocol codec.
//!
//! Every transaction on the controller's bus is a short framed exchange:
//! a 2-byte prefix selects command (`0x6000`), data write (`0x0000`) or data
//! read (`0x1000`), followed by big-endian 16-bit payload words. The codec in
//! this module turns logical operations into exactly those byte sequences,
//! polling the ready line before each transaction.
//!
//! The model of everything that went over the bus is a sequence of
//! [`BusOp`] values; each verified operation states precisely which
//! operations it appends.

use vstd::prelude::*;

verus! {

/// Interface error.
#[derive(Clone, Copy, PartialEq, Eq, Structural, Debug)]
pub enum Error {
    /// an error in the bus driver
    SpiError,
    /// an error in the gpio driver
    GPIOError,
    /// the controller's busy check timed out
    BusyTimeout,
    /// buffer alignment incorrect: payloads must be whole 16-bit words
    BufferAlignment,
}

/// One transaction on the wire, as recorded by the bus model: the bytes
/// written, the bytes sent during a read exchange, or a level driven onto the
/// reset line.
pub enum BusOp {
    /// a plain write of the given bytes
    Write(Seq<u8>),
    /// a full-duplex exchange; the field holds the bytes sent out
    Exchange(Seq<u8>),
    /// the reset line driven to the given level
    ResetLevel(bool),
}

/// High byte of a 16-bit value.
pub open spec fn hi8(v: u16) -> u8 {
    (v / 0x100) as u8
}

/// Low byte of a 16-bit value.
pub open spec fn lo8(v: u16) -> u8 {
    (v % 0x100) as u8
}

/// The 4-byte command frame: prefix `0x6000`, then the opcode big-endian.
pub open spec fn command_frame(cmd: u16) -> Seq<u8> {
    seq![0x60u8, 0x00u8, hi8(cmd), lo8(cmd)]
}

/// The 4-byte data-write frame: prefix `0x0000`, then the value big-endian.
pub open spec fn data_frame(data: u16) -> Seq<u8> {
    seq![0x00u8, 0x00u8, hi8(data), lo8(data)]
}

/// The block-write frame: prefix `0x0000` once, then the raw payload.
pub open spec fn block_frame(data: Seq<u8>) -> Seq<u8> {
    seq![0x00u8, 0x00u8] + data
}

/// The 6-byte single-word read exchange: prefix `0x1000`, two dummy bytes,
/// two bytes clocking in the result.
pub open spec fn read_frame() -> Seq<u8> {
    seq![0x10u8, 0x00u8, 0x00u8, 0x00u8, 0x00u8, 0x00u8]
}

/// The block read exchange for `count` words: prefix `0x1000`, two dummy
/// bytes, then two zero bytes per word clocking in the payload.
pub open spec fn read_block_frame(count: int) -> Seq<u8> {
    seq![0x10u8, 0x00u8] + Seq::new((2 + 2 * count) as nat, |i: int| 0x00u8)
}

/// The byte/word transport under the codec: write-only and full-duplex
/// transfers, the ready line, the reset line, and a delay source.
///
/// This is the boundary to the unverified world; an implementation drives a
/// real bus. The associated bus model `ops` records each completed
/// transaction, so that everything the driver proves about emitted bytes is
/// stated against it.
pub trait Transport: Sized {
    /// Model: every transaction completed on this transport so far.
    /// Implementations override this with their own model; the default
    /// (an always-empty history) cannot satisfy the write contracts.
    open spec fn ops(&self) -> Seq<BusOp> {
        Seq::empty()
    }

    /// Write the given bytes in one transaction.
    fn write(&mut self, data: &[u8]) -> (r: Result<(), Error>)
        ensures
            r is Ok ==> final(self).ops() == old(self).ops().push(BusOp::Write(data@)),
            r is Err ==> final(self).ops() == old(self).ops(),
    ;

    /// Full-duplex transfer: send `tx`, return the same number of bytes
    /// clocked in. Nothing is promised about the returned contents.
    fn exchange(&mut self, tx: Vec<u8>) -> (r: Result<Vec<u8>, Error>)
        ensures
            r is Ok ==> final(self).ops() == old(self).ops().push(BusOp::Exchange(tx@))
                && r.unwrap()@.len() == tx@.len(),
            r is Err ==> final(self).ops() == old(self).ops(),
    ;

    /// Sample the ready line: true when the controller can accept a new
    /// transaction. Nothing is promised about the value.
    fn is_ready(&mut self) -> (r: Result<bool, Error>)
        ensures
            final(self).ops() == old(self).ops(),
    ;

    /// Drive the reset line to the given level.
    fn set_reset(&mut self, level: bool) -> (r: Result<(), Error>)
        ensures
            r is Ok ==> final(self).ops() == old(self).ops().push(BusOp::ResetLevel(level)),
            r is Err ==> final(self).ops() == old(self).ops(),
    ;

    /// Block for the given number of microseconds.
    fn delay_us(&mut self, us: u32) -> (r: Result<(), Error>)
        ensures
            final(self).ops() == old(self).ops(),
    ;
}

/// The transactions of one command with its argument words: the command
/// frame, then one data frame per argument, in order.
pub open spec fn command_with_args_ops(cmd: u16, args: Seq<u16>) -> Seq<BusOp> {
    seq![BusOp::Write(command_frame(cmd))] + args.map_values(
        |a: u16| BusOp::Write(data_frame(a)),
    )
}

/// The reset pulse: the line driven high, low, high again (with delays in
/// between that the bus model does not record).
pub open spec fn reset_ops() -> Seq<BusOp> {
    seq![BusOp::ResetLevel(true), BusOp::ResetLevel(false), BusOp::ResetLevel(true)]
}

/// A sequence is a prefix of itself extended by anything.
pub proof fn lemma_prefix_extend(a: Seq<BusOp>, b: Seq<BusOp>)
    ensures
        a.is_prefix_of(a + b),
{
    assert(a =~= (a + b).subrange(0, a.len() as int));
}

/// Every sequence is a prefix of itself.
pub proof fn lemma_prefix_refl(a: Seq<BusOp>)
    ensures
        a.is_prefix_of(a),
{
    assert(a =~= a.subrange(0, a.len() as int));
}

/// The definition of prefix, packaged for one-line use at call sites: `a`
/// is a prefix of `b` when `b` starts with exactly `a`.
pub proof fn lemma_prefix_here(a: Seq<BusOp>, b: Seq<BusOp>)
    requires
        a.len() <= b.len(),
        a =~= b.subrange(0, a.len() as int),
    ensures
        a.is_prefix_of(b),
{
}

/// Prefixes compose.
pub broadcast proof fn lemma_prefix_trans(a: Seq<BusOp>, b: Seq<BusOp>, c: Seq<BusOp>)
    requires
        #[trigger] a.is_prefix_of(b),
        #[trigger] b.is_prefix_of(c),
    ensures
        a.is_prefix_of(c),
{
    assert(a =~= c.subrange(0, a.len() as int));
}

/// The word a 6-byte read exchange returned: the first 4 received bytes
/// (prefix echo and dummies) are discarded, the last two are the big-endian
/// result.
pub fn decode_word(rx: &[u8]) -> (r: u16)
    requires
        rx@.len() >= 6,
    ensures
        r == rx@[4] * 0x100 + rx@[5],
{
    (rx[4] as u16) * 0x100 + (rx[5] as u16)
}

/// The words a block read exchange returned: the first 4 received bytes are
/// discarded, then each pair of bytes is one big-endian 16-bit word.
pub fn decode_words(rx: &[u8], count: u16) -> (out: Vec<u16>)
    requires
        rx@.len() >= 4 + 2 * count,
    ensures
        out@.len() == count,
        forall|i: int|
            0 <= i < count ==> #[trigger] out@[i] == rx@[4 + 2 * i] * 0x100 + rx@[4 + 2 * i + 1],
{
    let mut out: Vec<u16> = Vec::new();
    let mut k: usize = 0;
    while k < count as usize
        invariant
            k <= count,
            rx@.len() >= 4 + 2 * count,
            out@.len() == k,
            forall|i: int|
                0 <= i < k ==> #[trigger] out@[i] == rx@[4 + 2 * i] * 0x100 + rx@[4 + 2 * i + 1],
        decreases count - k,
    {
        let value: u16 = (rx[4 + 2 * k] as u16) * 0x100 + (rx[4 + 2 * k + 1] as u16);
        out.push(value);
        k = k + 1;
    }
    out
}

/// The codec over a byte/word transport: a logical operation is one or more
/// framed transactions, each preceded by waiting for the ready line.
///
/// Each operation's contract states, over the transport's bus model, the
/// exact byte frames it appends; on failure the model is unchanged (or, for
/// multi-transaction operations, extended by a prefix of them).
pub trait IT8951Interface: Sized {
    /// Model: every transaction issued through this interface so far.
    spec fn bus(&self) -> Seq<BusOp>;

    /// Set the iteration budget for the busy wait, one iteration per
    /// microsecond of the intended timeout.
    fn set_busy_timeout(&mut self, us: u64)
        ensures
            final(self).bus() == old(self).bus(),
    ;

    /// Actively wait while the controller is busy and no new transactions
    /// should be issued; fail with [`Error::BusyTimeout`] once the budget is
    /// exhausted.
    fn wait_while_busy(&mut self) -> (r: Result<(), Error>)
        ensures
            final(self).bus() == old(self).bus(),
    ;

    /// Write a 16-bit value: the 4-byte data frame `00 00 hi lo`.
    fn write_data(&mut self, data: u16) -> (r: Result<(), Error>)
        ensures
            r is Ok ==> final(self).bus() == old(self).bus().push(
                BusOp::Write(data_frame(data)),
            ),
            r is Err ==> final(self).bus() == old(self).bus(),
    ;

    /// Write a block of data: the 2-byte data prefix once, then the raw
    /// payload, in one transaction. Fails with [`Error::BufferAlignment`]
    /// when the payload is not whole 16-bit words.
    fn write_multi_data(&mut self, data: &[u8]) -> (r: Result<(), Error>)
        ensures
            data@.len() % 2 != 0 ==> r == Err::<(), Error>(Error::BufferAlignment),
            r is Ok ==> final(self).bus() == old(self).bus().push(
                BusOp::Write(block_frame(data@)),
            ),
            r is Err ==> final(self).bus() == old(self).bus(),
    ;

    /// Issue a command: the 4-byte command frame `60 00 hi lo`.
    fn write_command(&mut self, cmd: u16) -> (r: Result<(), Error>)
        ensures
            r is Ok ==> final(self).bus() == old(self).bus().push(
                BusOp::Write(command_frame(cmd)),
            ),
            r is Err ==> final(self).bus() == old(self).bus(),
    ;

    /// Issue a command followed by one data write per argument, in order.
    fn write_command_with_args(&mut self, cmd: u16, args: &[u16]) -> (r: Result<(), Error>)
        ensures
            r is Ok ==> final(self).bus() == old(self).bus() + command_with_args_ops(cmd, args@),
            old(self).bus().is_prefix_of(final(self).bus()),
    ;

    /// Read a single 16-bit value via the 6-byte read exchange; the result
    /// is whatever the controller returned.
    fn read_data(&mut self) -> (r: Result<u16, Error>)
        ensures
            r is Ok ==> final(self).bus() == old(self).bus().push(BusOp::Exchange(read_frame())),
            r is Err ==> final(self).bus() == old(self).bus(),
    ;

    /// Read `count` 16-bit values via one block read exchange; the values
    /// are whatever the controller returned.
    fn read_multi_data(&mut self, count: u16) -> (r: Result<Vec<u16>, Error>)
        ensures
            r is Ok ==> r.unwrap()@.len() == count && final(self).bus() == old(self).bus().push(
                BusOp::Exchange(read_block_frame(count as int)),
            ),
            r is Err ==> final(self).bus() == old(self).bus(),
    ;

    /// Pulse the reset line: high (200 ms), low (20 ms), high (200 ms).
    fn reset(&mut self) -> (r: Result<(), Error>)
        ensures
            r is Ok ==> final(self).bus() == old(self).bus() + reset_ops(),
            old(self).bus().is_prefix_of(final(self).bus()),
    ;

    /// Block for the given number of microseconds.
    fn delay(&mut self, us: u32) -> (r: Result<(), Error>)
        ensures
            final(self).bus() == old(self).bus(),
    ;
}

/// The codec for a transport in the style of the SPI hardware interface:
/// polls the ready line before every transaction, then emits the framed
/// bytes through the underlying [`Transport`].
pub struct IT8951SPIInterface<T: Transport> {
    /// the raw transport underneath
    pub transport: T,
    /// busy-wait iteration budget
    pub busy_timeout: u64,
}

impl<T: Transport> IT8951SPIInterface<T> {
    /// Wrap a raw transport. The busy budget starts at ten million
    /// iterations; `set_busy_timeout` adjusts it.
    pub fn new(transport: T) -> (r: IT8951SPIInterface<T>)
        ensures
            r.transport.ops() == transport.ops(),
            r.busy_timeout == 10_000_000,
    {
        IT8951SPIInterface { transport, busy_timeout: 10_000_000 }
    }

    /// Give the raw transport back.
    pub fn into_transport(self) -> (r: T)
        ensures
            r.ops() == self.transport.ops(),
    {
        self.transport
    }
}

impl<T: Transport> IT8951Interface for IT8951SPIInterface<T> {
    open spec fn bus(&self) -> Seq<BusOp> {
        self.transport.ops()
    }

    fn set_busy_timeout(&mut self, us: u64) {
        self.busy_timeout = us;
    }

    #[verifier::loop_isolation(false)]
    fn wait_while_busy(&mut self) -> (r: Result<(), Error>) {
        let ghost orig = self.transport.ops();
        let budget: u64 = self.busy_timeout;
        let mut counter: u64 = 0;
        loop
            invariant
                self.transport.ops() == orig,
                counter <= budget,
            decreases budget - counter,
        {
            let ready = match self.transport.is_ready() {
                Ok(b) => b,
                Err(e) => {
                    return Err(e);
                },
            };
            if ready {
                return Ok(());
            }
            if counter >= budget {
                return Err(Error::BusyTimeout);
            }
            counter = counter + 1;
            match self.transport.delay_us(1) {
                Ok(_) => (),
                Err(e) => {
                    return Err(e);
                },
            }
        }
    }

    fn write_data(&mut self, data: u16) -> (r: Result<(), Error>) {
        self.wait_while_busy()?;
        let mut buf: Vec<u8> = Vec::new();
        buf.push(0x00);
        buf.push(0x00);
        buf.push((data / 0x100) as u8);
        buf.push((data % 0x100) as u8);
        proof {
            assert(buf@ =~= data_frame(data));
        }
        self.transport.write(buf.as_slice())?;
        Ok(())
    }

    fn write_multi_data(&mut self, data: &[u8]) -> (r: Result<(), Error>) {
        if data.len() % 2 > 0 {
            return Err(Error::BufferAlignment);
        }
        self.wait_while_busy()?;
        let mut buf: Vec<u8> = Vec::new();
        buf.push(0x00);
        buf.push(0x00);
        let mut i: usize = 0;
        while i < data.len()
            invariant
                i <= data@.len(),
                buf@.len() == 2 + i,
                buf@ =~= block_frame(data@.subrange(0, i as int)),
            decreases data@.len() - i,
        {
            let byte = data[i];
            buf.push(byte);
            i = i + 1;
            proof {
                assert(buf@ =~= block_frame(data@.subrange(0, i as int)));
            }
        }
        proof {
            assert(data@.subrange(0, data@.len() as int) =~= data@);
        }
        self.transport.write(buf.as_slice())?;
        Ok(())
    }

    fn write_command(&mut self, cmd: u16) -> (r: Result<(), Error>) {
        self.wait_while_busy()?;
        let mut buf: Vec<u8> = Vec::new();
        buf.push(0x60);
        buf.push(0x00);
        buf.push((cmd / 0x100) as u8);
        buf.push((cmd % 0x100) as u8);
        proof {
            assert(buf@ =~= command_frame(cmd));
        }
        self.transport.write(buf.as_slice())?;
        Ok(())
    }

    #[verifier::loop_isolation(false)]
    fn write_command_with_args(&mut self, cmd: u16, args: &[u16]) -> (r: Result<(), Error>) {
        let ghost orig = self.bus();
        match self.write_command(cmd) {
            Ok(_) => (),
            Err(e) => {
                proof {
                    lemma_prefix_extend(orig, Seq::<BusOp>::empty());
                    assert(orig =~= orig + Seq::<BusOp>::empty());
                }
                return Err(e);
            },
        }
        let mut i: usize = 0;
        while i < args.len()
            invariant
                i <= args@.len(),
                self.bus() =~= orig + command_with_args_ops(cmd, args@.subrange(0, i as int)),
            decreases args@.len() - i,
        {
            let ghost before = self.bus();
            let arg = args[i];
            match self.write_data(arg) {
                Ok(_) => (),
                Err(e) => {
                    proof {
                        lemma_prefix_extend(
                            orig,
                            command_with_args_ops(cmd, args@.subrange(0, i as int)),
                        );
                    }
                    return Err(e);
                },
            }
            i = i + 1;
            proof {
                assert(command_with_args_ops(cmd, args@.subrange(0, i as int)) =~= command_with_args_ops(
                    cmd,
                    args@.subrange(0, i as int - 1),
                ).push(BusOp::Write(data_frame(args@[i as int - 1]))));
                assert(self.bus() =~= orig + command_with_args_ops(
                    cmd,
                    args@.subrange(0, i as int),
                ));
            }
        }
        proof {
            assert(args@.subrange(0, args@.len() as int) =~= args@);
            lemma_prefix_extend(orig, command_with_args_ops(cmd, args@));
        }
        Ok(())
    }

    fn read_data(&mut self) -> (r: Result<u16, Error>) {
        self.wait_while_busy()?;
        let mut tx: Vec<u8> = Vec::new();
        tx.push(0x10);
        let mut i: usize = 0;
        while i < 5
            invariant
                i <= 5,
                tx@.len() == 1 + i,
                tx@[0] == 0x10u8,
                forall|j: int| 1 <= j < tx@.len() ==> tx@[j] == 0x00u8,
            decreases 5 - i,
        {
            tx.push(0x00);
            i = i + 1;
        }
        proof {
            assert(tx@ =~= read_frame());
        }
        let rx = self.transport.exchange(tx)?;
        Ok(decode_word(rx.as_slice()))
    }

    fn read_multi_data(&mut self, count: u16) -> (r: Result<Vec<u16>, Error>) {
        self.wait_while_busy()?;
        let payload: usize = 2 * count as usize + 2;
        let mut tx: Vec<u8> = Vec::new();
        tx.push(0x10);
        tx.push(0x00);
        let mut i: usize = 0;
        while i < payload
            invariant
                i <= payload,
                tx@.len() == 2 + i,
                tx@[0] == 0x10u8,
                forall|j: int| 1 <= j < tx@.len() ==> tx@[j] == 0x00u8,
            decreases payload - i,
        {
            tx.push(0x00);
            i = i + 1;
        }
        proof {
            assert(tx@ =~= read_block_frame(count as int));
        }
        let rx = self.transport.exchange(tx)?;
        Ok(decode_words(rx.as_slice(), count))
    }

    fn reset(&mut self) -> (r: Result<(), Error>) {
        let ghost orig = self.bus();
        proof {
            lemma_prefix_extend(orig, Seq::<BusOp>::empty());
            assert(orig =~= orig + Seq::<BusOp>::empty());
            lemma_prefix_extend(orig, seq![BusOp::ResetLevel(true)]);
            lemma_prefix_extend(orig, seq![BusOp::ResetLevel(true), BusOp::ResetLevel(false)]);
            lemma_prefix_extend(orig, reset_ops());
        }
        self.transport.set_reset(true)?;
        self.transport.delay_us(200_000)?;
        proof {
            assert(self.bus() =~= orig + seq![BusOp::ResetLevel(true)]);
        }
        self.transport.set_reset(false)?;
        self.transport.delay_us(20_000)?;
        proof {
            assert(self.bus() =~= orig + seq![BusOp::ResetLevel(true), BusOp::ResetLevel(false)]);
        }
        self.transport.set_reset(true)?;
        self.transport.delay_us(200_000)?;
        proof {
            assert(self.bus() =~= orig + reset_ops());
        }
        Ok(())
    }

    fn delay(&mut self, us: u32) -> (r: Result<(), Error>) {
        self.transport.delay_us(us)?;
        Ok(())
    }
}

} // verus!
