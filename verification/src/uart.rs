//! Assembly of newline-delimited input lines from the serial port into
//! transmit requests. Lines are cut to `MAX_LINE` bytes; empty lines are
//! skipped.
use vstd::prelude::*;

use crate::bounded::{request_bytes, request_extend_from_slice, request_new};
use crate::events::TxRequest;

verus! {

/// Longest line kept: the capacity of a transmit request's payload. Lines
/// up to this length are sent whole; further bytes of a longer line are
/// dropped.
///
/// Lines are meant to be cut only when they are longer than 128 bytes, but a
/// transmit request carries at most 124 bytes (the same cap as a BLE write),
/// so 124 is the longest line that can be forwarded whole; a shorter cut
/// would drop bytes of lines that fit in a request.
pub const MAX_LINE: usize = 124;

/// The line being received.
pub struct LineBuffer {
    line_buf: [u8; 124],
    line_pos: usize,
}

/// Line feed and carriage return end a line.
pub open spec fn is_line_end(b: u8) -> bool {
    b == 10 || b == 13
}

impl View for LineBuffer {
    type V = Seq<u8>;

    /// The bytes of the current line received so far.
    closed spec fn view(&self) -> Seq<u8> {
        self.line_buf@.take(self.line_pos as int)
    }
}

impl LineBuffer {
    pub closed spec fn wf(&self) -> bool {
        self.line_pos <= MAX_LINE
    }

    pub fn new() -> (r: Self)
        ensures
            r.wf(),
            r@ == Seq::<u8>::empty(),
    {
        let r = Self { line_buf: [0u8; 124], line_pos: 0 };
        assert(r@ =~= Seq::<u8>::empty());
        r
    }

    /// Forgets the current line (after a read error).
    pub fn reset(&mut self)
        requires
            old(self).wf(),
        ensures
            final(self).wf(),
            final(self)@ == Seq::<u8>::empty(),
    {
        self.line_pos = 0;
        assert(self@ =~= Seq::<u8>::empty());
    }

    /// Takes one received byte. A line end after a non-empty line hands the
    /// line out as a transmit request and starts a new one; other bytes are
    /// appended while the line is shorter than `MAX_LINE`.
    pub fn push_byte(&mut self, b: u8) -> (r: Option<TxRequest>)
        requires
            old(self).wf(),
        ensures
            final(self).wf(),
            b != 10 && b != 13 ==> r is None && final(self)@ == (if old(self)@.len() < MAX_LINE {
                old(self)@.push(b)
            } else {
                old(self)@
            }),
            is_line_end(b) && old(self)@.len() == 0 ==> r is None && final(self)@ == old(self)@,
            is_line_end(b) && old(self)@.len() > 0 ==> (r matches Some(req)
                && request_bytes(req.payload) == old(self)@) && final(self)@ == Seq::<u8>::empty(),
            !is_line_end(b) ==> r is None && final(self)@ == (if old(self)@.len() < MAX_LINE {
                old(self)@.push(b)
            } else {
                old(self)@
            }),
    {
        if b == 10 || b == 13 {
            if self.line_pos == 0 {
                return None;
            }
            let mut payload = request_new();
            let _ = request_extend_from_slice(&mut payload, &self.line_buf[0..self.line_pos]);
            assert(self.line_buf@.subrange(0, self.line_pos as int) == self@);
            self.line_pos = 0;
            assert(self@ =~= Seq::<u8>::empty());
            Some(TxRequest { payload })
        } else {
            if self.line_pos < MAX_LINE {
                let ghost before = self@;
                self.line_buf[self.line_pos] = b;
                self.line_pos += 1;
                assert(self@ =~= before.push(b));
            }
            None
        }
    }
}

/// Only a line feed or a carriage return ends a line: every other byte,
/// a space included, belongs to the line.
pub proof fn lemma_only_lf_and_cr_end_lines(b: u8)
    ensures
        is_line_end(b) <==> (b == 0x0Au8 || b == 0x0Du8),
        !is_line_end(0x20u8),
{
}

} // verus!
