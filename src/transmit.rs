//! Sequencing of the bus operations that carry a byte sequence to the panel.
//!
//! A sequence travels in blocks of at most eight bytes. Each block is one
//! transaction: select line low, write of the packed block, select line
//! high. The caller performs each operation that `next_action` names and
//! reports its outcome to `advance`; the first failure ends the transfer.
use vstd::prelude::*;
use crate::packing::{encode_control_bit, packed, BLOCK_LEN};

verus! {

/// A bus operation as the wire sees it.
pub enum WireStep {
    SelectLow,
    Write(Seq<u8>),
    SelectHigh,
}

/// What the caller is to do next.
pub enum BusAction {
    /// Drive the select line low.
    SelectLow,
    /// Write the first `len` bytes of `bytes` on the bus.
    Write { bytes: [u8; 9], len: usize },
    /// Drive the select line high.
    SelectHigh,
    /// Every block went through.
    Finished,
    /// An operation failed; nothing more is sent.
    Failed,
}

impl BusAction {
    /// The wire operation that this action performs, if it is one.
    pub open spec fn wire(&self) -> Option<WireStep> {
        match self {
            BusAction::SelectLow => Some(WireStep::SelectLow),
            BusAction::Write { bytes, len } => Some(WireStep::Write(bytes@.take(*len as int))),
            BusAction::SelectHigh => Some(WireStep::SelectHigh),
            _ => None,
        }
    }
}

/// The control bit that classifies a sequence: 0 for commands, 1 for data.
pub open spec fn control_bit(is_command: bool) -> u8 {
    if is_command {
        0
    } else {
        1
    }
}

/// Number of blocks that carry `n` bytes.
pub open spec fn block_count(n: nat) -> nat {
    (n + 7) / 8
}

/// Block `b` of `data`: bytes `8b` up to `8b + 8`, or to the end.
pub open spec fn block_of(data: Seq<u8>, b: int) -> Seq<u8> {
    data.subrange(
        8 * b,
        if 8 * b + 8 <= data.len() {
            8 * b + 8
        } else {
            data.len() as int
        },
    )
}

/// Every wire operation that carries `data` under control bit `c`, in order.
pub open spec fn wire_trace(data: Seq<u8>, c: u8) -> Seq<WireStep> {
    Seq::new(
        3 * block_count(data.len()),
        |s: int|
            if s % 3 == 0 {
                WireStep::SelectLow
            } else if s % 3 == 1 {
                WireStep::Write(packed(block_of(data, s / 3), c))
            } else {
                WireStep::SelectHigh
            },
    )
}

/// A transfer of one byte sequence, as far as it has gone.
pub struct Transmission<'a> {
    data: &'a [u8],
    control: u8,
    step: usize,
    failed: bool,
}

impl<'a> Transmission<'a> {
    /// The bytes to carry.
    pub closed spec fn data(&self) -> Seq<u8> {
        self.data@
    }

    /// The control bit of every word.
    pub closed spec fn control(&self) -> u8 {
        self.control
    }

    /// How many operations of the trace have succeeded.
    pub closed spec fn step(&self) -> nat {
        self.step as nat
    }

    /// Whether an operation has failed.
    pub closed spec fn failed(&self) -> bool {
        self.failed
    }

    /// The operations that the whole transfer takes.
    pub open spec fn trace(&self) -> Seq<WireStep> {
        wire_trace(self.data(), self.control())
    }

    /// The internal invariant.
    pub closed spec fn wf(&self) -> bool {
        &&& self.control <= 1
        &&& self.step <= 3 * block_count(self.data@.len())
        &&& 3 * block_count(self.data@.len()) <= usize::MAX
    }

    /// A transfer of `data` as commands (`is_command`) or as display data.
    pub fn new(data: &'a [u8], is_command: bool) -> (r: Self)
        ensures
            r.wf(),
            r.data() == data@,
            r.control() == control_bit(is_command),
            r.step() == 0,
            !r.failed(),
    {
        let n = data.len();
        assert(8 * ((n + 7) / 8) <= n + 7);
        let control: u8 = if is_command {
            0
        } else {
            1
        };
        Transmission { data, control, step: 0, failed: false }
    }

    fn blocks(&self) -> (r: usize)
        requires
            self.wf(),
        ensures
            r == block_count(self.data@.len()),
    {
        let n = self.data.len();
        if n % BLOCK_LEN == 0 {
            n / BLOCK_LEN
        } else {
            n / BLOCK_LEN + 1
        }
    }

    /// Whether the transfer has ended, in success or in failure.
    pub fn is_done(&self) -> (r: bool)
        requires
            self.wf(),
        ensures
            r == (self.failed() || self.step() >= self.trace().len()),
    {
        self.failed || self.step >= 3 * self.blocks()
    }

    /// The operation to perform now.
    pub fn next_action(&self) -> (r: BusAction)
        requires
            self.wf(),
        ensures
            self.failed() ==> r is Failed,
            !self.failed() && self.step() < self.trace().len() ==> r.wire() == Some(
                self.trace()[self.step() as int],
            ),
            !self.failed() && self.step() >= self.trace().len() ==> r is Finished,
    {
        if self.failed {
            return BusAction::Failed;
        }
        let total = 3 * self.blocks();
        if self.step >= total {
            return BusAction::Finished;
        }
        if self.step % 3 == 0 {
            BusAction::SelectLow
        } else if self.step % 3 == 2 {
            BusAction::SelectHigh
        } else {
            let b = self.step / 3;
            let n = self.data.len();
            assert(b * 8 < n) by (nonlinear_arith)
                requires
                    b < (n + 7) / 8,
            ;
            let start = b * BLOCK_LEN;
            let end = if n - start >= BLOCK_LEN {
                start + BLOCK_LEN
            } else {
                n
            };
            let block = vstd::slice::slice_subrange(self.data, start, end);
            let mut buffer = [0u8; 9];
            let len = encode_control_bit(block, &mut buffer, self.control);
            proof {
                assert(block@ =~= block@.take(block@.len() as int));
                assert(block_of(self.data@, b as int) == block@);
            }
            BusAction::Write { bytes: buffer, len }
        }
    }

    /// Records the outcome of the operation that `next_action` named; a
    /// transfer that has ended stays as it is.
    pub fn advance(&mut self, ok: bool)
        requires
            old(self).wf(),
        ensures
            final(self).wf(),
            final(self).data() == old(self).data(),
            final(self).control() == old(self).control(),
            old(self).failed() || old(self).step() >= old(self).trace().len() ==> *final(self)
                == *old(self),
            !old(self).failed() && old(self).step() < old(self).trace().len() ==> {
                if ok {
                    final(self).step() == old(self).step() + 1 && !final(self).failed()
                } else {
                    final(self).step() == old(self).step() && final(self).failed()
                }
            },
    {
        if self.failed || self.step >= 3 * self.blocks() {
            return;
        }
        if ok {
            self.step = self.step + 1;
        } else {
            self.failed = true;
        }
    }
}

/// An empty sequence packs into no byte and takes no bus operation at all.
pub proof fn lemma_empty_transfer(c: u8)
    ensures
        packed(Seq::<u8>::empty(), c).len() == 0,
        wire_trace(Seq::<u8>::empty(), c).len() == 0,
{
}

} // verus!
