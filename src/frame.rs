//! The byte encoding of reply frames in the key-value wire protocol.
use vstd::prelude::*;

verus! {

/// A reply frame. Array frames are not part of what this library writes.
#[derive(Clone, Debug)]
pub enum Frame {
    /// A simple string: `+` text CRLF.
    Simple(Vec<u8>),
    /// An error message: `-` text CRLF.
    Error(Vec<u8>),
    /// An integer: `:` decimal CRLF.
    Integer(u64),
    /// A bulk payload: `$` length CRLF payload CRLF.
    Bulk(Vec<u8>),
    /// The null reply: `$-1` CRLF.
    Null,
}

/// Line terminator.
pub open spec fn crlf() -> Seq<u8> {
    seq![13u8, 10u8]
}

/// The ASCII decimal digits of `n`, most significant first, without
/// leading zeros.
pub open spec fn decimal(n: nat) -> Seq<u8>
    decreases n,
{
    if n < 10 {
        seq![(48 + n) as u8]
    } else {
        decimal(n / 10).push((48 + n % 10) as u8)
    }
}

/// The bytes that stand for frame `f` on the wire.
pub open spec fn encoding(f: Frame) -> Seq<u8> {
    match f {
        Frame::Simple(s) => seq![43u8] + s@ + crlf(),
        Frame::Error(s) => seq![45u8] + s@ + crlf(),
        Frame::Integer(v) => seq![58u8] + decimal(v as nat) + crlf(),
        Frame::Null => seq![36u8, 45u8, 49u8] + crlf(),
        Frame::Bulk(b) => seq![36u8] + decimal(b@.len()) + crlf() + b@ + crlf(),
    }
}

/// Appends the decimal digits of `val`.
pub fn write_decimal(out: &mut Vec<u8>, val: u64)
    ensures
        final(out)@ == old(out)@ + decimal(val as nat),
    decreases val,
{
    if val >= 10 {
        write_decimal(out, val / 10);
    }
    let digit: u8 = (val % 10) as u8;
    out.push(48u8 + digit);
    proof {
        if val >= 10 {
            assert(old(out)@ + decimal(val as nat) =~= (old(out)@ + decimal((val / 10) as nat)).push(
                (48 + val % 10) as u8,
            ));
        } else {
            assert(old(out)@ + decimal(val as nat) =~= old(out)@.push((48 + val) as u8));
        }
    }
}

/// Appends `bytes`.
pub(crate) fn write_bytes(out: &mut Vec<u8>, bytes: &Vec<u8>)
    ensures
        final(out)@ == old(out)@ + bytes@,
{
    let mut i: usize = 0;
    while i < bytes.len()
        invariant
            0 <= i <= bytes@.len(),
            out@ == old(out)@ + bytes@.subrange(0, i as int),
        decreases bytes@.len() - i,
    {
        out.push(bytes[i]);
        i = i + 1;
        proof {
            assert(bytes@.subrange(0, i as int) =~= bytes@.subrange(0, i - 1).push(bytes@[i - 1]));
        }
    }
    proof {
        assert(bytes@.subrange(0, bytes@.len() as int) =~= bytes@);
    }
}

/// Appends a line terminator.
fn write_crlf(out: &mut Vec<u8>)
    ensures
        final(out)@ == old(out)@ + crlf(),
{
    out.push(13u8);
    out.push(10u8);
    proof {
        assert(final(out)@ =~= old(out)@ + crlf());
    }
}

/// The bytes of `frame` on the wire.
pub fn encode_frame(frame: &Frame) -> (r: Vec<u8>)
    ensures
        r@ == encoding(*frame),
{
    let mut out: Vec<u8> = Vec::new();
    match frame {
        Frame::Simple(s) => {
            out.push(43u8);
            write_bytes(&mut out, s);
            write_crlf(&mut out);
        },
        Frame::Error(s) => {
            out.push(45u8);
            write_bytes(&mut out, s);
            write_crlf(&mut out);
        },
        Frame::Integer(v) => {
            out.push(58u8);
            write_decimal(&mut out, *v);
            write_crlf(&mut out);
        },
        Frame::Null => {
            out.push(36u8);
            out.push(45u8);
            out.push(49u8);
            write_crlf(&mut out);
        },
        Frame::Bulk(b) => {
            out.push(36u8);
            write_decimal(&mut out, b.len() as u64);
            write_crlf(&mut out);
            write_bytes(&mut out, b);
            write_crlf(&mut out);
        },
    }
    proof {
        assert(out@ =~= encoding(*frame));
    }
    out
}

} // verus!
