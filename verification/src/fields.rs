use vstd::prelude::*;
use vstd::string::StringSliceAdditionalSpecFns;
use vstd::utf8::{encode_utf8, valid_utf8, decode_utf8, encode_scalar};
use crate::text::{chars_of, push_char};

verus! {

// ---------------------------------------------------------------------------
// Numbers
// ---------------------------------------------------------------------------

/// Why a number is refused.
#[derive(Debug, PartialEq, Eq, Structural)]
pub enum BoundError {
    /// The value is below the minimum.
    BelowMin,
    /// The value is above the maximum.
    AboveMax,
}

/// Checks a signed number against its optional bounds, the minimum first;
/// the bounds are inclusive. Every signed type widens to `i128` exactly.
pub fn check_bounds(value: i128, min: Option<i128>, max: Option<i128>) -> (r: Result<(), BoundError>)
    ensures
        r == (if min matches Some(m) && value < m {
            Err::<(), _>(BoundError::BelowMin)
        } else if max matches Some(m) && value > m {
            Err(BoundError::AboveMax)
        } else {
            Ok(())
        }),
{
    if let Some(m) = min {
        if value < m {
            return Err(BoundError::BelowMin);
        }
    }
    if let Some(m) = max {
        if value > m {
            return Err(BoundError::AboveMax);
        }
    }
    Ok(())
}

/// Checks an unsigned number against its optional bounds, the minimum first;
/// the bounds are inclusive. Every unsigned type widens to `u128` exactly.
pub fn check_bounds_unsigned(value: u128, min: Option<u128>, max: Option<u128>) -> (r: Result<(), BoundError>)
    ensures
        r == (if min matches Some(m) && value < m {
            Err::<(), _>(BoundError::BelowMin)
        } else if max matches Some(m) && value > m {
            Err(BoundError::AboveMax)
        } else {
            Ok(())
        }),
{
    if let Some(m) = min {
        if value < m {
            return Err(BoundError::BelowMin);
        }
    }
    if let Some(m) = max {
        if value > m {
            return Err(BoundError::AboveMax);
        }
    }
    Ok(())
}

// ---------------------------------------------------------------------------
// Flags
// ---------------------------------------------------------------------------

/// Whether every bit of `fl` is set in `flag`.
pub open spec fn spec_flag_get(flag: u64, fl: u64) -> bool {
    flag & fl == fl
}

/// `flag` with the bits of `fl` set or cleared.
pub open spec fn spec_flag_set(flag: u64, fl: u64, value: bool) -> u64 {
    if value {
        flag | fl
    } else {
        flag & !fl
    }
}

/// Whether every bit of the mask is set.
pub fn flag_get(flag: u64, fl: u64) -> (r: bool)
    ensures
        r == spec_flag_get(flag, fl),
{
    (flag & fl) == fl
}

/// Sets or clears every bit of the mask.
pub fn flag_set(flag: u64, fl: u64, value: bool) -> (r: u64)
    ensures
        r == spec_flag_set(flag, fl, value),
{
    if value {
        flag | fl
    } else {
        flag & !fl
    }
}

/// Setting a flag's bits and then reading them gives what was set (a mask of
/// no bits always reads as set), and leaves every other bit as it was.
pub proof fn law_flag_set_get(flag: u64, fl: u64, value: bool)
    ensures
        spec_flag_get(spec_flag_set(flag, fl, value), fl) == (value || fl == 0),
        spec_flag_set(flag, fl, value) & !fl == flag & !fl,
{
    if value {
        assert((flag | fl) & fl == fl) by (bit_vector);
        assert((flag | fl) & !fl == flag & !fl) by (bit_vector);
    } else {
        assert(((flag & !fl) & fl == fl) == (fl == 0)) by (bit_vector);
        assert((flag & !fl) & !fl == flag & !fl) by (bit_vector);
    }
}

// ---------------------------------------------------------------------------
// Bytes
// ---------------------------------------------------------------------------

/// Why bytes are refused.
#[derive(Debug, PartialEq, Eq, Structural)]
pub enum BytesError {
    /// The input is not of the member's length.
    InvalidLength,
}

/// The new value of a bytes member of length `len`: the input, which must
/// have that length.
pub fn set_bytes(value: &[u8], len: usize) -> (r: Result<Vec<u8>, BytesError>)
    ensures
        value@.len() == len ==> (r matches Ok(v) && v@ == value@),
        value@.len() != len ==> r == Err::<Vec<u8>, _>(BytesError::InvalidLength),
{
    if value.len() != len {
        return Err(BytesError::InvalidLength);
    }
    let mut v: Vec<u8> = Vec::new();
    let mut i: usize = 0;
    while i < value.len()
        invariant
            i <= value@.len(),
            v@ == value@.take(i as int),
        decreases value.len() - i,
    {
        v.push(value[i]);
        i = i + 1;
        assert(v@ =~= value@.take(i as int));
    }
    assert(value@.take(i as int) =~= value@);
    Ok(v)
}

// ---------------------------------------------------------------------------
// Text kept in fixed bytes
// ---------------------------------------------------------------------------

/// The UTF-8 encoding of a concatenation is the concatenation of encodings.
pub proof fn lemma_encode_concat(a: Seq<char>, b: Seq<char>)
    ensures
        encode_utf8(a + b) == encode_utf8(a) + encode_utf8(b),
    decreases a.len(),
{
    if a.len() == 0 {
        assert(a + b =~= b);
        assert(encode_utf8(a) + encode_utf8(b) =~= encode_utf8(b));
    } else {
        lemma_encode_concat(a.drop_first(), b);
        assert((a + b).drop_first() =~= a.drop_first() + b);
        assert((a + b)[0] == a[0]);
    }
}

/// The number of bytes of a character's UTF-8 encoding.
fn char_width(c: char) -> (w: usize)
    ensures
        w == encode_utf8(seq![c]).len(),
        1 <= w <= 4,
{
    proof {
        vstd::utf8::char_is_scalar(c);
        assert(seq![c].drop_first() =~= Seq::<char>::empty());
        assert(encode_utf8(Seq::<char>::empty()) =~= Seq::<u8>::empty());
        assert(encode_utf8(seq![c]) == encode_scalar(c as u32) + encode_utf8(Seq::<char>::empty()));
        assert(encode_utf8(seq![c]) =~= encode_scalar(c as u32));
    }
    let u = c as u32;
    if u <= 0x7f {
        1
    } else if u <= 0x7ff {
        2
    } else if u <= 0xffff {
        3
    } else {
        4
    }
}

/// The text a string member keeps when set to `value` with room for `len`
/// bytes: the longest prefix of whole characters that fits.
pub fn truncate_to(value: &str, len: usize) -> (r: String)
    ensures
        r@ == value@.take(r@.len() as int),
        encode_utf8(r@).len() <= len,
        r@.len() < value@.len() ==> encode_utf8(value@.take(r@.len() as int + 1)).len() > len,
{
    let v = chars_of(value);
    let mut r = String::new();
    let mut total: usize = 0;
    let mut i: usize = 0;
    assert(v@.take(0) =~= Seq::<char>::empty());
    while i < v.len()
        invariant_except_break
            i <= v@.len(),
            v@ == value@,
            r@ == v@.take(i as int),
            total == encode_utf8(r@).len(),
            total <= len,
        ensures
            i <= v@.len(),
            v@ == value@,
            r@ == v@.take(i as int),
            total == encode_utf8(r@).len(),
            total <= len,
            i < v@.len() ==> encode_utf8(v@.take(i + 1)).len() > len,
        decreases v.len() - i,
    {
        let c = v[i];
        let w = char_width(c);
        proof {
            assert(v@.take(i + 1) =~= v@.take(i as int) + seq![c]);
            lemma_encode_concat(v@.take(i as int), seq![c]);
        }
        if w > len - total {
            break;
        }
        push_char(&mut r, c);
        total = total + w;
        assert(r@ =~= v@.take(i + 1));
        assert(encode_utf8(v@.take(i + 1)).len() == encode_utf8(v@.take(i as int)).len() + w);
        i = i + 1;
    }
    r
}

/// `b` cut or padded with zeros to exactly `len` bytes.
pub open spec fn fixed(b: Seq<u8>, len: nat) -> Seq<u8> {
    Seq::new(len, |i: int| if i < b.len() { b[i] } else { 0u8 })
}

/// The bytes that a string member keeps for `value`: its UTF-8 encoding, cut
/// or padded with zeros to exactly `len` bytes.
pub fn to_fixed_bytes(value: &str, len: usize) -> (r: Vec<u8>)
    ensures
        r@ == fixed(value.spec_bytes(), len as nat),
{
    let b = value.as_bytes();
    let mut r: Vec<u8> = Vec::new();
    let mut i: usize = 0;
    while i < len
        invariant
            i <= len,
            b@ == value.spec_bytes(),
            r@ == fixed(b@, len as nat).take(i as int),
        decreases len - i,
    {
        if i < b.len() {
            r.push(b[i]);
        } else {
            r.push(0u8);
        }
        i = i + 1;
        assert(r@ =~= fixed(b@, len as nat).take(i as int));
    }
    assert(fixed(b@, len as nat).take(len as int) =~= fixed(b@, len as nat));
    r
}

/// std's `str::from_utf8` on `b`: the text that `b` encodes when it is valid
/// UTF-8; otherwise the length of its longest valid prefix, which
/// `Utf8Error::valid_up_to` reports (the largest index up to which the bytes
/// are valid UTF-8).
#[verifier::external_body]
fn utf8_str(b: &[u8]) -> (r: Result<&str, usize>)
    ensures
        match r {
            Ok(s) => valid_utf8(b@) && s.spec_bytes() == b@,
            Err(k) => !valid_utf8(b@) && k <= b@.len() && valid_utf8(b@.take(k as int)) && forall|j: int|
                k < j <= b@.len() ==> !valid_utf8(#[trigger] b@.take(j)),
        },
{
    match std::str::from_utf8(b) {
        Ok(s) => Ok(s),
        Err(e) => Err(e.valid_up_to()),
    }
}

/// The text that a string member shows for its bytes: the characters of the
/// longest prefix of the bytes that is valid UTF-8 (padding zeros included).
pub fn from_fixed_bytes(b: &[u8]) -> (r: String)
    ensures
        encode_utf8(r@) == b@.take(encode_utf8(r@).len() as int),
        encode_utf8(r@).len() <= b@.len(),
        forall|j: int| encode_utf8(r@).len() < j <= b@.len() ==> !valid_utf8(#[trigger] b@.take(j)),
{
    match utf8_str(b) {
        Ok(s) => {
            assert(b@.take(b@.len() as int) =~= b@);
            s.to_owned()
        },
        Err(k) => {
            let mut p: Vec<u8> = Vec::new();
            let mut i: usize = 0;
            while i < k
                invariant
                    i <= k <= b@.len(),
                    p@ == b@.take(i as int),
                decreases k - i,
            {
                p.push(b[i]);
                i = i + 1;
                assert(p@ =~= b@.take(i as int));
            }
            match utf8_str(p.as_slice()) {
                Ok(s) => s.to_owned(),
                Err(_) => String::new(),
            }
        },
    }
}

} // verus!

verus! {

/// `k` NUL characters.
pub open spec fn nuls(k: nat) -> Seq<char> {
    Seq::new(k, |i: int| '\0')
}

proof fn lemma_encode_nuls(k: nat)
    ensures
        encode_utf8(nuls(k)) == Seq::new(k, |i: int| 0u8),
    decreases k,
{
    if k > 0 {
        lemma_encode_nuls((k - 1) as nat);
        assert(nuls(k).drop_first() =~= nuls((k - 1) as nat));
        vstd::utf8::char_is_scalar('\0');
        assert(encode_scalar('\0' as u32) =~= seq![0u8]) by {
            let z: u32 = '\0' as u32;
            assert(z == 0);
            assert(z & 0x7F == 0) by (bit_vector)
                requires
                    z == 0,
            ;
        }
        assert(encode_utf8(nuls(k)) =~= Seq::new(k, |i: int| 0u8));
    } else {
        assert(encode_utf8(nuls(k)) =~= Seq::new(k, |i: int| 0u8));
    }
}

/// What a string member shows after keeping text that fits: the text, then as
/// many NUL characters as there are padding bytes. `shown` is any text that
/// `from_fixed_bytes` may return for the kept bytes.
pub proof fn law_string_member_roundtrip(s: Seq<char>, len: nat, shown: Seq<char>)
    requires
        encode_utf8(s).len() <= len,
        encode_utf8(shown) == fixed(encode_utf8(s), len).take(encode_utf8(shown).len() as int),
        encode_utf8(shown).len() <= len,
        forall|j: int|
            encode_utf8(shown).len() < j <= len ==> !valid_utf8(#[trigger] fixed(encode_utf8(s), len).take(j)),
    ensures
        shown == s + nuls((len - encode_utf8(s).len()) as nat),
{
    let n = encode_utf8(s).len();
    let k = (len - n) as nat;
    let full = s + nuls(k);
    let b = fixed(encode_utf8(s), len);
    lemma_encode_concat(s, nuls(k));
    lemma_encode_nuls(k);
    assert(encode_utf8(full) =~= b);
    vstd::utf8::encode_utf8_valid_utf8(full);
    assert(b.take(len as int) =~= b);
    if encode_utf8(shown).len() < len {
        assert(!valid_utf8(b.take(len as int)));
    }
    assert(encode_utf8(shown) =~= b);
    vstd::utf8::encode_utf8_decode_utf8(shown);
    vstd::utf8::encode_utf8_decode_utf8(full);
}

} // verus!
