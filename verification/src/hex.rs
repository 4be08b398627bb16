use vstd::prelude::*;
use vstd::utf8::{encode_utf8, is_ascii_chars, is_continuation_byte};
use vstd::string::StringSliceAdditionalSpecFns;
use crate::text::push_char;

verus! {

/// The lowercase hex digit of `d` (below 16).
pub open spec fn hex_digit(d: nat) -> char {
    if d < 10 {
        ((d + 48) as u8) as char
    } else {
        ((d + 87) as u8) as char
    }
}

/// The lowercase hex text of bytes: two digits per byte, high nibble first.
pub open spec fn hex_lower(b: Seq<u8>) -> Seq<char>
    decreases b.len(),
{
    if b.len() == 0 {
        Seq::empty()
    } else {
        hex_lower(b.drop_last()) + seq![hex_digit(b.last() as nat / 16), hex_digit(b.last() as nat % 16)]
    }
}

fn hex_digit_exec(d: u8) -> (c: char)
    requires
        d < 16,
    ensures
        c == hex_digit(d as nat),
{
    if d < 10 {
        (d + 48) as char
    } else {
        (d + 87) as char
    }
}

/// Appends the lowercase hex text of `data`.
pub fn push_hex(s: &mut String, data: &[u8])
    ensures
        final(s)@ == old(s)@ + hex_lower(data@),
{
    let mut i: usize = 0;
    assert(data@.take(0) =~= Seq::<u8>::empty());
    assert(old(s)@ + hex_lower(Seq::empty()) =~= old(s)@);
    while i < data.len()
        invariant
            i <= data@.len(),
            s@ == old(s)@ + hex_lower(data@.take(i as int)),
        decreases data.len() - i,
    {
        let b = data[i];
        assert(data@.take(i + 1).drop_last() =~= data@.take(i as int));
        assert(data@.take(i + 1).last() == b);
        push_char(s, hex_digit_exec(b / 16));
        push_char(s, hex_digit_exec(b % 16));
        i = i + 1;
        assert(s@ =~= old(s)@ + hex_lower(data@.take(i as int)));
    }
    assert(data@.take(i as int) =~= data@);
}

/// The lowercase hex text of `data`, two digits per byte.
pub fn hex(data: &[u8]) -> (s: String)
    ensures
        s@ == hex_lower(data@),
{
    let mut s = String::new();
    push_hex(&mut s, data);
    assert(s@ =~= hex_lower(data@));
    s
}

/// The value of a hex digit byte, either case.
pub open spec fn hex_value(b: u8) -> Option<nat> {
    if 48 <= b <= 57 {
        Some((b - 48) as nat)
    } else if 97 <= b <= 102 {
        Some((b - 87) as nat)
    } else if 65 <= b <= 70 {
        Some((b - 55) as nat)
    } else {
        None
    }
}

/// std's `u8::from_str_radix(pair, 16)` on two bytes: a `+` then one hex
/// digit, or two hex digits, high first.
pub open spec fn pair_value(b0: u8, b1: u8) -> Option<u8> {
    if b0 == 43 {
        match hex_value(b1) {
            Some(l) => Some(l as u8),
            None => None,
        }
    } else {
        match (hex_value(b0), hex_value(b1)) {
            (Some(h), Some(l)) => Some((h * 16 + l) as u8),
            _ => None,
        }
    }
}

/// The bytes that consecutive pairs of `b` stand for, if every pair is valid.
pub open spec fn hex_pairs(b: Seq<u8>) -> Option<Seq<u8>>
    decreases b.len(),
{
    if b.len() < 2 {
        Some(Seq::empty())
    } else {
        match (hex_pairs(b.take(b.len() - 2)), pair_value(b[b.len() - 2], b[b.len() - 1])) {
            (Some(v), Some(x)) => Some(v.push(x)),
            _ => None,
        }
    }
}

/// The reasons hex text is refused.
#[derive(Debug, PartialEq, Eq, Structural)]
pub enum HexError {
    /// The text does not hold twice as many bytes as the value it stands for.
    InvalidLength,
    /// Some pair is not a byte in hex.
    InvalidHex,
}

/// What hex text of `bytes` (UTF-8) stands for, expecting `size` bytes.
pub open spec fn spec_from_hex(bytes: Seq<u8>, size: nat) -> Result<Seq<u8>, HexError> {
    if bytes.len() != 2 * size {
        Err(HexError::InvalidLength)
    } else {
        match hex_pairs(bytes) {
            Some(v) => Ok(v),
            None => Err(HexError::InvalidHex),
        }
    }
}

/// Whether every pair of the text starts on a character boundary, so that it
/// can be read pair by pair.
pub open spec fn pairs_on_boundaries(bytes: Seq<u8>) -> bool {
    forall|i: int| 0 <= i < bytes.len() && i % 2 == 0 ==> !is_continuation_byte(#[trigger] bytes[i])
}

/// Whether the text can be read pair by pair.
pub fn hex_pairs_readable(s: &str) -> (r: bool)
    ensures
        r == pairs_on_boundaries(s.spec_bytes()),
{
    let b = s.as_bytes();
    let mut i: usize = 0;
    while i < b.len()
        invariant
            b@ == s.spec_bytes(),
            i <= b@.len(),
            forall|k: int| 0 <= k < i && k % 2 == 0 ==> !is_continuation_byte(#[trigger] b@[k]),
        decreases b.len() - i,
    {
        if i % 2 == 0 && 0x80 <= b[i] && b[i] <= 0xbf {
            assert(is_continuation_byte(b@[i as int]));
            return false;
        }
        i = i + 1;
    }
    true
}

fn hex_value_exec(b: u8) -> (r: Option<u8>)
    ensures
        match r {
            Some(v) => hex_value(b) == Some(v as nat),
            None => hex_value(b) is None,
        },
{
    if 48 <= b && b <= 57 {
        Some(b - 48)
    } else if 97 <= b && b <= 102 {
        Some(b - 87)
    } else if 65 <= b && b <= 70 {
        Some(b - 55)
    } else {
        None
    }
}

fn pair_value_exec(b0: u8, b1: u8) -> (r: Option<u8>)
    ensures
        r == pair_value(b0, b1),
{
    if b0 == 43 {
        hex_value_exec(b1)
    } else {
        match (hex_value_exec(b0), hex_value_exec(b1)) {
            (Some(h), Some(l)) => Some(h * 16 + l),
            _ => None,
        }
    }
}

proof fn lemma_hex_pairs_err_prefix(b: Seq<u8>, j: int)
    requires
        0 <= j <= b.len(),
        j % 2 == 0,
        b.len() % 2 == 0,
        hex_pairs(b.take(j)) is None,
    ensures
        hex_pairs(b) is None,
    decreases b.len() - j,
{
    if j < b.len() {
        assert(b.take(j + 2).take(j) =~= b.take(j));
        lemma_hex_pairs_err_prefix(b, j + 2);
    } else {
        assert(b.take(j) =~= b);
    }
}

/// Reads hex text that stands for `size` bytes, as the models read a string:
/// the text must hold exactly `2 * size` bytes, and each pair is read as
/// std's `u8::from_str_radix(pair, 16)` reads it.
pub fn from_hex(s: &str, size: usize) -> (r: Result<Vec<u8>, HexError>)
    requires
        s.spec_bytes().len() == 2 * size ==> pairs_on_boundaries(s.spec_bytes()),
    ensures
        match r {
            Ok(v) => spec_from_hex(s.spec_bytes(), size as nat) == Ok::<_, HexError>(v@),
            Err(e) => spec_from_hex(s.spec_bytes(), size as nat) == Err::<Seq<u8>, _>(e),
        },
{
    let b = s.as_bytes();
    let n = b.len();
    if n % 2 != 0 || n / 2 != size {
        return Err(HexError::InvalidLength);
    }
    let mut v: Vec<u8> = Vec::new();
    let mut i: usize = 0;
    assert(b@.take(0) =~= Seq::<u8>::empty());
    while i < n
        invariant
            b@ == s.spec_bytes(),
            n == b@.len(),
            n == 2 * size,
            n % 2 == 0,
            i % 2 == 0,
            i <= n,
            hex_pairs(b@.take(i as int)) == Some(v@),
        decreases n - i,
    {
        let ghost t = b@.take(i + 2);
        assert(t.take(t.len() - 2) =~= b@.take(i as int));
        assert(t[t.len() - 2] == b@[i as int]);
        assert(t[t.len() - 1] == b@[i + 1]);
        match pair_value_exec(b[i], b[i + 1]) {
            None => {
                proof {
                    assert(hex_pairs(t) is None);
                    lemma_hex_pairs_err_prefix(b@, i + 2);
                }
                return Err(HexError::InvalidHex);
            },
            Some(x) => {
                v.push(x);
            },
        }
        i = i + 2;
    }
    assert(b@.take(n as int) =~= b@);
    Ok(v)
}

} // verus!

verus! {

proof fn lemma_hex_digit(d: nat)
    requires
        d < 16,
    ensures
        '\0' <= hex_digit(d) <= '\u{7f}',
        hex_value(hex_digit(d) as u8) == Some(d),
        hex_digit(d) as u8 != 43,
{
}

proof fn lemma_hex_lower_shape(b: Seq<u8>)
    ensures
        hex_lower(b).len() == 2 * b.len(),
        is_ascii_chars(hex_lower(b)),
    decreases b.len(),
{
    if b.len() > 0 {
        lemma_hex_lower_shape(b.drop_last());
        lemma_hex_digit(b.last() as nat / 16);
        lemma_hex_digit(b.last() as nat % 16);
        let h = hex_lower(b);
        let p = hex_lower(b.drop_last());
        assert forall|i: int| 0 <= i < h.len() implies '\0' <= #[trigger] h[i] <= '\u{7f}' by {
            if i < p.len() {
                assert(h[i] == p[i]);
            }
        }
    }
}

proof fn lemma_hex_pairs_of_text(b: Seq<u8>, bytes: Seq<u8>)
    requires
        bytes.len() == 2 * b.len(),
        hex_lower(b).len() == 2 * b.len(),
        forall|i: int| 0 <= i < bytes.len() ==> #[trigger] bytes[i] == hex_lower(b)[i] as u8,
    ensures
        hex_pairs(bytes) == Some(b),
    decreases b.len(),
{
    if b.len() == 0 {
        assert(b =~= Seq::<u8>::empty());
    } else {
        let p = b.drop_last();
        let h = hex_lower(b);
        let hp = hex_lower(p);
        lemma_hex_lower_shape(p);
        let pre = bytes.take(bytes.len() - 2);
        assert forall|i: int| 0 <= i < pre.len() implies #[trigger] pre[i] == hp[i] as u8 by {
            assert(h[i] == hp[i]);
            assert(pre[i] == bytes[i]);
        }
        lemma_hex_pairs_of_text(p, pre);
        let x = b.last();
        lemma_hex_digit(x as nat / 16);
        lemma_hex_digit(x as nat % 16);
        assert(bytes[bytes.len() - 2] == h[h.len() - 2] as u8);
        assert(bytes[bytes.len() - 1] == h[h.len() - 1] as u8);
        assert(h[h.len() - 2] == hex_digit(x as nat / 16));
        assert(h[h.len() - 1] == hex_digit(x as nat % 16));
        assert(pair_value(bytes[bytes.len() - 2], bytes[bytes.len() - 1]) == Some(x));
        assert(p.push(x) =~= b);
    }
}

/// Reading back the hex text of any bytes gives those bytes: the text is
/// readable pair by pair and has the expected length.
pub proof fn law_hex_roundtrip(b: Seq<u8>)
    ensures
        pairs_on_boundaries(encode_utf8(hex_lower(b))),
        spec_from_hex(encode_utf8(hex_lower(b)), b.len()) == Ok::<_, HexError>(b),
{
    let h = hex_lower(b);
    lemma_hex_lower_shape(b);
    vstd::utf8::is_ascii_chars_encode_utf8(h);
    let bytes = encode_utf8(h);
    assert forall|i: int| 0 <= i < bytes.len() implies #[trigger] bytes[i] == h[i] as u8 by {
        assert(h[i] as u8 == bytes[i]);
    }
    lemma_hex_pairs_of_text(b, bytes);
    assert forall|i: int| 0 <= i < bytes.len() && i % 2 == 0 implies !is_continuation_byte(#[trigger] bytes[i]) by {
        assert(h[i] as u8 == bytes[i]);
        assert('\0' <= h[i] <= '\u{7f}');
    }
}

} // verus!

verus! {

/// Hex text that is read has half as many bytes as it holds.
pub proof fn lemma_from_hex_len(bytes: Seq<u8>, size: nat)
    ensures
        spec_from_hex(bytes, size) matches Ok(v) ==> v.len() == size,
{
    if spec_from_hex(bytes, size) is Ok {
        lemma_hex_pairs_len(bytes);
    }
}

proof fn lemma_hex_pairs_len(b: Seq<u8>)
    ensures
        hex_pairs(b) matches Some(v) ==> v.len() == b.len() / 2,
    decreases b.len(),
{
    if b.len() >= 2 {
        lemma_hex_pairs_len(b.take(b.len() - 2));
    }
}

} // verus!
