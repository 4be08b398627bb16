use vstd::prelude::*;
use vstd::string::StringSliceAdditionalSpecFns;
use vstd::utf8::encode_utf8;
use crate::hex::{from_hex, spec_from_hex, pairs_on_boundaries, HexError};

verus! {

/// What a model value is made from, or a batch of them read from.
#[derive(Debug, PartialEq, Eq)]
pub enum Source {
    /// Nothing.
    Absent,
    /// A value of the model itself.
    Given,
    /// Bytes.
    Bytes(Vec<u8>),
    /// Text.
    Text(String),
    /// Anything else.
    Other,
}

/// Whether text of the expected length can be read pair by pair.
pub open spec fn source_readable(src: Source, size: nat) -> bool {
    src matches Source::Text(s) ==> (encode_utf8(s@).len() == 2 * size ==> pairs_on_boundaries(encode_utf8(s@)))
}

/// How a new model value is made.
#[derive(Debug, PartialEq, Eq)]
pub enum NewPlan {
    /// The model's default value.
    Default,
    /// The given value as it is.
    KeepGiven,
    /// The value that these bytes of its C layout hold.
    Decode(Vec<u8>),
}

/// Why a new model value is refused.
#[derive(Debug, PartialEq, Eq, Structural)]
pub enum NewError {
    /// Bytes that are not of the C layout's size.
    InvalidInputLength,
}

/// How a model whose C layout takes `size` bytes makes a new value: a given
/// value is kept; bytes must have the layout's size and are decoded; text is
/// read as hex of that size and decoded, and text that cannot be read gives
/// the default, as do nothing and anything else.
pub fn new_plan(src: Source, size: usize) -> (r: Result<NewPlan, NewError>)
    requires
        source_readable(src, size as nat),
    ensures
        match src {
            Source::Absent | Source::Other => r matches Ok(NewPlan::Default),
            Source::Given => r matches Ok(NewPlan::KeepGiven),
            Source::Bytes(b) => if b@.len() == size {
                r matches Ok(NewPlan::Decode(d)) && d@ == b@
            } else {
                r matches Err(NewError::InvalidInputLength)
            },
            Source::Text(s) => match spec_from_hex(encode_utf8(s@), size as nat) {
                Ok(b) => r matches Ok(NewPlan::Decode(d)) && d@ == b,
                Err(_) => r matches Ok(NewPlan::Default),
            },
        },
{
    match src {
        Source::Absent => Ok(NewPlan::Default),
        Source::Other => Ok(NewPlan::Default),
        Source::Given => Ok(NewPlan::KeepGiven),
        Source::Bytes(b) => {
            if b.len() != size {
                Err(NewError::InvalidInputLength)
            } else {
                Ok(NewPlan::Decode(b))
            }
        },
        Source::Text(s) => match from_hex(s.as_str(), size) {
            Ok(b) => Ok(NewPlan::Decode(b)),
            Err(_) => Ok(NewPlan::Default),
        },
    }
}

/// Why a batch is refused.
#[derive(Debug, PartialEq, Eq, Structural)]
pub enum BatchError {
    /// The bytes are not a whole number of records.
    InvalidInputLength,
    /// Neither bytes nor hex text of one record.
    InvalidData,
}

/// The bytes of the `i`-th record of `size` bytes.
pub open spec fn chunk(data: Seq<u8>, size: nat, i: int) -> Seq<u8> {
    data.subrange(i * size, (i + 1) * size)
}

/// Whether `chunks` are the records of `data`, in order.
pub open spec fn chunks_of(chunks: Seq<Vec<u8>>, data: Seq<u8>, size: nat) -> bool {
    &&& chunks.len() * size == data.len()
    &&& forall|i: int| 0 <= i < chunks.len() ==> (#[trigger] chunks[i])@ == chunk(data, size, i)
}

/// Splits bytes into records of `size` bytes: no bytes give no records, and
/// the bytes must be a whole number of records.
pub fn split_records(data: &[u8], size: usize) -> (r: Result<Vec<Vec<u8>>, BatchError>)
    requires
        data@.len() > 0 ==> size > 0,
    ensures
        data@.len() == 0 ==> (r matches Ok(v) && v@.len() == 0),
        data@.len() > 0 && data@.len() % (size as nat) != 0 ==> r == Err::<Vec<Vec<u8>>, _>(
            BatchError::InvalidInputLength,
        ),
        data@.len() > 0 && data@.len() % (size as nat) == 0 ==> (r matches Ok(v) && chunks_of(
            v@,
            data@,
            size as nat,
        )),
{
    let mut out: Vec<Vec<u8>> = Vec::new();
    if data.len() == 0 {
        return Ok(out);
    }
    if data.len() % size != 0 {
        return Err(BatchError::InvalidInputLength);
    }
    let n = data.len();
    let mut off: usize = 0;
    assert(out@.len() * size == 0) by (nonlinear_arith)
        requires
            out@.len() == 0,
    ;
    while off < n
        invariant
            n == data@.len(),
            size > 0,
            n % size == 0,
            off <= n,
            off % size == 0,
            out@.len() * size == off,
            forall|i: int| 0 <= i < out@.len() ==> (#[trigger] out@[i])@ == chunk(data@, size as nat, i),
        decreases n - off,
    {
        proof {
            vstd::arithmetic::div_mod::lemma_mod_sub_multiples_vanish(n as int, size as int);
            assert(off + size <= n) by (nonlinear_arith)
                requires
                    off < n,
                    off % size == 0,
                    n % size == 0,
                    size > 0,
            {
                vstd::arithmetic::div_mod::lemma_fundamental_div_mod(off as int, size as int);
                vstd::arithmetic::div_mod::lemma_fundamental_div_mod(n as int, size as int);
            }
        }
        let mut c: Vec<u8> = Vec::new();
        let mut j: usize = 0;
        while j < size
            invariant
                off + size <= n,
                n == data@.len(),
                j <= size,
                c@ == data@.subrange(off as int, off + j),
            decreases size - j,
        {
            c.push(data[off + j]);
            j = j + 1;
            assert(c@ =~= data@.subrange(off as int, off + j));
        }
        proof {
            let i = out@.len() as int;
            assert((i + 1) * size == i * size + size) by (nonlinear_arith);
            assert(c@ == chunk(data@, size as nat, i));
        }
        out.push(c);
        off = off + size;
        proof {
            assert(out@.len() * size == (out@.len() - 1) * size + size) by (nonlinear_arith);
            vstd::arithmetic::div_mod::lemma_mod_adds(off - size, size as int, size as int);
        }
    }
    Ok(out)
}

/// Reads a batch of records of `size` bytes: bytes are split into records,
/// text must be hex of exactly one record, and anything else is refused.
pub fn batch(src: Source, size: usize) -> (r: Result<Vec<Vec<u8>>, BatchError>)
    requires
        source_readable(src, size as nat),
        src matches Source::Bytes(b) && b@.len() > 0 ==> size > 0,
    ensures
        match src {
            Source::Bytes(b) => if b@.len() == 0 {
                r matches Ok(v) && v@.len() == 0
            } else if b@.len() % (size as nat) != 0 {
                r == Err::<Vec<Vec<u8>>, _>(BatchError::InvalidInputLength)
            } else {
                r matches Ok(v) && chunks_of(v@, b@, size as nat)
            },
            Source::Text(s) => match spec_from_hex(encode_utf8(s@), size as nat) {
                Ok(b) => if b.len() == 0 {
                    r matches Ok(v) && v@.len() == 0
                } else {
                    r matches Ok(v) && chunks_of(v@, b, size as nat)
                },
                Err(_) => r == Err::<Vec<Vec<u8>>, _>(BatchError::InvalidData),
            },
            _ => r == Err::<Vec<Vec<u8>>, _>(BatchError::InvalidData),
        },
{
    match src {
        Source::Bytes(b) => split_records(b.as_slice(), size),
        Source::Text(s) => match from_hex(s.as_str(), size) {
            Ok(b) => {
                proof {
                    crate::hex::lemma_from_hex_len(encode_utf8(s@), size as nat);
                    if b@.len() > 0 {
                        assert(b@.len() % (size as nat) == 0) by (nonlinear_arith)
                            requires
                                b@.len() == size,
                                size > 0,
                        ;
                    }
                }
                split_records(b.as_slice(), size)
            },
            Err(_) => Err(BatchError::InvalidData),
        },
        _ => Err(BatchError::InvalidData),
    }
}

} // verus!
