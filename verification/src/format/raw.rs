//! The raw format: the output of the session as it came, behind one escape
//! sequence that sets the terminal to the size of the session.

use crate::recorder::Header;
use vstd::prelude::*;
use vstd::slice::slice_to_vec;

verus! {

/// The decimal digits of `n`, as ASCII, without leading zeros.
pub open spec fn decimal(n: nat) -> Seq<u8>
    decreases n,
{
    if n < 10 {
        seq![(48 + n) as u8]
    } else {
        decimal(n / 10).push((48 + n % 10) as u8)
    }
}

/// The escape sequence that asks a terminal to take the size of `rows` and
/// `cols`: `ESC [ 8 ;`, the rows, `;`, the columns, `t`.
pub open spec fn resize_sequence(rows: u16, cols: u16) -> Seq<u8> {
    seq![0x1bu8, 0x5bu8, 0x38u8, 0x3bu8] + decimal(rows as nat) + seq![0x3bu8] + decimal(
        cols as nat,
    ) + seq![0x74u8]
}

/// What the raw format writes at the start of a session: the size of the
/// terminal, unless the recording is added to an earlier one.
pub open spec fn start_bytes(header: Header, append: bool) -> Seq<u8> {
    if append {
        Seq::empty()
    } else {
        resize_sequence(header.rows, header.cols)
    }
}

fn push_decimal(out: &mut Vec<u8>, n: u16)
    ensures
        final(out)@ == old(out)@ + decimal(n as nat),
    decreases n,
{
    if n >= 10 {
        push_decimal(out, n / 10);
    }
    let digit: u8 = (n % 10) as u8;
    out.push(48 + digit);
    proof {
        if n >= 10 {
            assert(final(out)@ =~= old(out)@ + decimal(n as nat));
        } else {
            assert(final(out)@ =~= old(out)@ + decimal(n as nat));
        }
    }
}

/// A writer of the raw format on top of the byte sink `writer`. It says
/// which bytes each step of a session puts into the sink.
pub struct Writer<W> {
    pub writer: W,
}

impl<W> Writer<W> {
    /// A raw writer on top of `writer`.
    pub fn new(writer: W) -> (raw: Self)
        ensures
            raw.writer == writer,
    {
        Writer { writer }
    }

    /// The bytes that start a session: an escape sequence that sets the
    /// terminal to the size in `header`, and nothing where the recording is
    /// added to an earlier one.
    pub fn start(&self, header: &Header, append: bool) -> (bytes: Vec<u8>)
        ensures
            bytes@ == start_bytes(*header, append),
    {
        let mut bytes: Vec<u8> = Vec::new();
        if !append {
            bytes.push(0x1b);
            bytes.push(0x5b);
            bytes.push(0x38);
            bytes.push(0x3b);
            push_decimal(&mut bytes, header.rows);
            bytes.push(0x3b);
            push_decimal(&mut bytes, header.cols);
            bytes.push(0x74);
            assert(bytes@ =~= resize_sequence(header.rows, header.cols));
        }
        bytes
    }

    /// The bytes that output of the session puts into the sink: the output
    /// itself.
    pub fn output(&self, time: u64, data: &[u8]) -> (bytes: Vec<u8>)
        ensures
            bytes@ == data@,
    {
        slice_to_vec(data)
    }

    /// Input leaves no trace in the raw format.
    pub fn input(&self, time: u64, data: &[u8]) -> (bytes: Vec<u8>)
        ensures
            bytes@ == Seq::<u8>::empty(),
    {
        Vec::new()
    }

    /// A change of size leaves no trace in the raw format.
    pub fn resize(&self, time: u64, size: (u16, u16)) -> (bytes: Vec<u8>)
        ensures
            bytes@ == Seq::<u8>::empty(),
    {
        Vec::new()
    }

    /// A marker leaves no trace in the raw format.
    pub fn marker(&self, time: u64) -> (bytes: Vec<u8>)
        ensures
            bytes@ == Seq::<u8>::empty(),
    {
        Vec::new()
    }
}

} // verus!
