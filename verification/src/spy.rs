//! A transport spy for tests and bring-up: records every bus transaction
//! instead of driving hardware, and answers read exchanges from a scripted
//! reply queue.

use vstd::prelude::*;

use crate::interface::{BusOp, Error, Transport};

verus! {

/// One recorded bus transaction; the executable mirror of [`BusOp`].
#[derive(Clone, PartialEq, Eq, Debug)]
pub enum BusRec {
    /// a plain write of the given bytes
    Write(Vec<u8>),
    /// a full-duplex exchange; the field holds the bytes sent out
    Exchange(Vec<u8>),
    /// the reset line driven to the given level
    ResetLevel(bool),
}

impl View for BusRec {
    type V = BusOp;

    open spec fn view(&self) -> BusOp {
        match self {
            BusRec::Write(v) => BusOp::Write(v@),
            BusRec::Exchange(v) => BusOp::Exchange(v@),
            BusRec::ResetLevel(b) => BusOp::ResetLevel(*b),
        }
    }
}

/// A [`Transport`] that records instead of transmitting: every transaction
/// is appended to `log`, read exchanges are answered from the `replies`
/// queue (padded with zeros), and the ready line reports the fixed `ready`
/// level.
pub struct SpyTransport {
    /// every transaction issued so far, in order
    pub log: Vec<BusRec>,
    /// scripted replies for exchanges, consumed front to back
    pub replies: Vec<Vec<u8>>,
    /// how many scripted replies have been consumed
    pub next_reply: usize,
    /// the level the ready line reports
    pub ready: bool,
}

impl SpyTransport {
    /// A spy with no scripted replies whose ready line is always asserted:
    /// every exchange returns zero bytes.
    pub fn new() -> (r: SpyTransport)
        ensures
            r.ops() == Seq::<BusOp>::empty(),
            r.ready,
    {
        let r = SpyTransport { log: Vec::new(), replies: Vec::new(), next_reply: 0, ready: true };
        proof {
            assert(r.ops() =~= Seq::<BusOp>::empty());
        }
        r
    }

    /// A spy whose exchanges are answered, in order, with the given reply
    /// buffers (padded with zeros or truncated to the exchange length).
    pub fn with_replies(replies: Vec<Vec<u8>>) -> (r: SpyTransport)
        ensures
            r.ops() == Seq::<BusOp>::empty(),
            r.ready,
    {
        let r = SpyTransport { log: Vec::new(), replies, next_reply: 0, ready: true };
        proof {
            assert(r.ops() =~= Seq::<BusOp>::empty());
        }
        r
    }

    /// A spy whose ready line is never asserted, for exercising the busy
    /// timeout.
    pub fn never_ready() -> (r: SpyTransport)
        ensures
            r.ops() == Seq::<BusOp>::empty(),
            !r.ready,
    {
        let r = SpyTransport { log: Vec::new(), replies: Vec::new(), next_reply: 0, ready: false };
        proof {
            assert(r.ops() =~= Seq::<BusOp>::empty());
        }
        r
    }

    /// Record one transaction.
    fn record(&mut self, rec: BusRec)
        ensures
            final(self).ops() == old(self).ops().push(rec@),
            final(self).replies == old(self).replies,
            final(self).next_reply == old(self).next_reply,
            final(self).ready == old(self).ready,
    {
        self.log.push(rec);
        proof {
            assert(final(self).ops() =~= old(self).ops().push(final(self).log@.last()@));
        }
    }
}

impl Transport for SpyTransport {
    open spec fn ops(&self) -> Seq<BusOp> {
        self.log@.map_values(|r: BusRec| r@)
    }

    fn write(&mut self, data: &[u8]) -> (r: Result<(), Error>) {
        let copy: Vec<u8> = vstd::slice::slice_to_vec(data);
        self.record(BusRec::Write(copy));
        Ok(())
    }

    fn exchange(&mut self, tx: Vec<u8>) -> (r: Result<Vec<u8>, Error>) {
        let n: usize = tx.len();
        let mut rx: Vec<u8> = Vec::new();
        if self.next_reply < self.replies.len() {
            let mut i: usize = 0;
            while i < n
                invariant
                    rx@.len() == i,
                    i <= n,
                    self.next_reply < self.replies@.len(),
                decreases n - i,
            {
                let reply_len = self.replies[self.next_reply].len();
                if i < reply_len {
                    let byte = self.replies[self.next_reply][i];
                    rx.push(byte);
                } else {
                    rx.push(0);
                }
                i = i + 1;
            }
            self.next_reply = self.next_reply + 1;
        } else {
            let mut i: usize = 0;
            while i < n
                invariant
                    rx@.len() == i,
                    i <= n,
                decreases n - i,
            {
                rx.push(0);
                i = i + 1;
            }
        }
        self.record(BusRec::Exchange(tx));
        Ok(rx)
    }

    fn is_ready(&mut self) -> (r: Result<bool, Error>) {
        Ok(self.ready)
    }

    fn set_reset(&mut self, level: bool) -> (r: Result<(), Error>) {
        self.record(BusRec::ResetLevel(level));
        Ok(())
    }

    fn delay_us(&mut self, us: u32) -> (r: Result<(), Error>) {
        Ok(())
    }
}

} // verus!
