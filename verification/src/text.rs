use vstd::prelude::*;

verus! {

/// The decimal digits of `n`, most significant first, with no leading zeros
/// ("0" for zero).
pub open spec fn dec(n: nat) -> Seq<char>
    decreases n,
{
    if n < 10 {
        seq![digit_char(n)]
    } else {
        dec(n / 10).push(digit_char(n % 10))
    }
}

/// The ASCII character of a decimal digit.
pub open spec fn digit_char(d: nat) -> char {
    ((d + 48) as u8) as char
}

/// Appends one character to a string: std's `String::push`, which appends the
/// given `char` to the end of the string.
#[verifier::external_body]
pub(crate) fn push_char(s: &mut String, c: char)
    ensures
        final(s)@ == old(s)@.push(c),
{
    s.push(c);
}

/// Appends the decimal text of `n` to `s`.
pub fn push_dec(s: &mut String, n: u128)
    ensures
        final(s)@ == old(s)@ + dec(n as nat),
    decreases n,
{
    if n < 10 {
        push_char(s, ((n as u8) + 48u8) as char);
        assert(old(s)@ + dec(n as nat) =~= old(s)@.push(digit_char(n as nat)));
    } else {
        push_dec(s, n / 10);
        let d: u128 = n % 10;
        push_char(s, ((d as u8) + 48u8) as char);
        assert(old(s)@ + dec(n as nat) =~= old(s)@ + dec((n / 10) as nat) + seq![digit_char(d as nat)]);
    }
}

/// The decimal text of `n`.
pub fn dec_string(n: u128) -> (s: String)
    ensures
        s@ == dec(n as nat),
{
    let mut s = String::new();
    push_dec(&mut s, n);
    assert(s@ =~= dec(n as nat));
    s
}

/// Whether two strings hold the same characters.
pub fn str_eq(a: &str, b: &str) -> (r: bool)
    ensures
        r == (a@ == b@),
{
    let x = a.to_owned();
    let y = b.to_owned();
    x == y
}

} // verus!

verus! {

/// The characters of `s`, one by one.
pub fn chars_of(s: &str) -> (v: Vec<char>)
    ensures
        v@ == s@,
{
    let mut v: Vec<char> = Vec::new();
    for c in it: s.chars()
        invariant
            v@ == it.seq().take(it.index() as int),
            it.seq() == s@,
    {
        v.push(c);
    }
    v
}

} // verus!

verus! {

/// Whether `c` is an ASCII decimal digit.
pub open spec fn is_digit(c: char) -> bool {
    48 <= (c as u32) <= 57
}

/// The value of a digit character.
pub open spec fn digit_value(c: char) -> nat {
    ((c as u32) - 48) as nat
}

/// The value of a string of decimal digits, most significant first.
pub open spec fn digits_value(s: Seq<char>) -> nat
    decreases s.len(),
{
    if s.len() == 0 {
        0
    } else {
        digits_value(s.drop_last()) * 10 + digit_value(s.last())
    }
}

/// Whether every character of `s` is a decimal digit.
pub open spec fn all_digits(s: Seq<char>) -> bool {
    forall|i: int| 0 <= i < s.len() ==> #[trigger] is_digit(s[i])
}

/// The digits that std's unsigned parsing reads: `s` without one leading `+`.
pub open spec fn unsigned_digits(s: Seq<char>) -> Seq<char> {
    if s.len() > 0 && s[0] == '+' {
        s.drop_first()
    } else {
        s
    }
}

/// std's parsing of an unsigned integer bounded by `max` (`str::parse`,
/// `from_str_radix` with radix 10): an optional `+`, then one or more decimal
/// digits whose value does not exceed `max`.
pub open spec fn parse_unsigned(s: Seq<char>, max: nat) -> Option<nat> {
    let d = unsigned_digits(s);
    if d.len() > 0 && all_digits(d) && digits_value(d) <= max {
        Some(digits_value(d))
    } else {
        None
    }
}

proof fn lemma_digits_value_prefix(s: Seq<char>, j: int)
    requires
        0 <= j <= s.len(),
    ensures
        digits_value(s.take(j)) <= digits_value(s),
    decreases s.len() - j,
{
    if j < s.len() {
        lemma_digits_value_prefix(s, j + 1);
        assert(s.take(j + 1).drop_last() =~= s.take(j));
    } else {
        assert(s.take(j) =~= s);
    }
}

/// Parses `s` as std parses an unsigned integer type whose largest value is `max`.
pub fn parse_unsigned_exec(s: &[char], max: u64) -> (r: Option<u64>)
    ensures
        r matches Some(v) ==> parse_unsigned(s@, max as nat) == Some(v as nat),
        r is None ==> parse_unsigned(s@, max as nat) is None,
{
    let n = s.len();
    let start: usize = if n > 0 && s[0] == '+' { 1 } else { 0 };
    let ghost d = unsigned_digits(s@);
    assert(d =~= s@.skip(start as int));
    if start == n {
        return None;
    }
    let mut v: u128 = 0;
    let mut i: usize = start;
    while i < n
        invariant
            start <= i <= n,
            n == s@.len(),
            d =~= s@.skip(start as int),
            d == unsigned_digits(s@),
            all_digits(d.take(i - start)),
            v as nat == digits_value(d.take(i - start)),
            v <= max,
        decreases n - i,
    {
        let c = s[i];
        assert(d[i - start] == c);
        let cu: u32 = c as u32;
        if !(48 <= cu && cu <= 57) {
            assert(!is_digit(d[i - start]));
            assert(!all_digits(d));
            return None;
        }
        let dv: u128 = (cu - 48) as u128;
        assert(d.take(i - start + 1).drop_last() =~= d.take(i - start));
        let w: u128 = v * 10 + dv;
        assert(w as nat == digits_value(d.take(i - start + 1)));
        if w > max as u128 {
            proof {
                lemma_digits_value_prefix(d, i - start + 1);
            }
            assert(digits_value(d) > max);
            return None;
        }
        v = w;
        i = i + 1;
        assert forall|k: int| 0 <= k < i - start implies #[trigger] is_digit(d.take(i - start)[k]) by {
            if k < i - start - 1 {
                assert(d.take(i - start)[k] == d.take(i - start - 1)[k]);
            }
        }
    }
    assert(d.take(n - start) =~= d);
    Some(v as u64)
}

} // verus!

verus! {

/// Whether `c` has the Unicode `Uppercase` property, as std reports it.
pub uninterp spec fn char_is_uppercase(c: char) -> bool;

/// Whether `c` is uppercase: within ASCII exactly `A` to `Z`; beyond it, as
/// the Unicode `Uppercase` property says.
pub open spec fn uppercase(c: char) -> bool {
    if (c as u32) < 128 {
        65 <= (c as u32) <= 90
    } else {
        char_is_uppercase(c)
    }
}

/// std's `char::is_uppercase`: whether `c` has the Unicode `Uppercase` derived
/// property. The contract names that property and states what std documents of
/// the ASCII range: there exactly `A` to `Z` are uppercase. The property outside
/// ASCII is left to the name.
#[verifier::external_body]
pub(crate) fn is_uppercase(c: char) -> (r: bool)
    ensures
        r == char_is_uppercase(c),
        (c as u32) < 128 ==> (r <==> 65 <= (c as u32) <= 90),
{
    c.is_uppercase()
}

/// The first character of a non-empty string.
pub fn first_char(s: &String) -> (c: char)
    requires
        s@.len() > 0,
    ensures
        c == s@[0],
{
    s.as_str().get_char(0)
}

} // verus!

verus! {

/// Appends the characters of `s` from position `start` on.
pub fn push_str_from(out: &mut String, s: &str, start: usize)
    requires
        start <= s@.len(),
    ensures
        final(out)@ == old(out)@ + s@.skip(start as int),
{
    let v = chars_of(s);
    let mut i = start;
    while i < v.len()
        invariant
            start <= i <= v@.len(),
            v@ == s@,
            out@ == old(out)@ + s@.subrange(start as int, i as int),
        decreases v.len() - i,
    {
        push_char(out, v[i]);
        i = i + 1;
        assert(s@.subrange(start as int, i as int) =~= s@.subrange(start as int, i - 1).push(s@[i - 1]));
    }
    assert(s@.subrange(start as int, i as int) =~= s@.skip(start as int));
}

} // verus!

verus! {

/// The decimal text of a number is a non-empty run of digits that reads back
/// as the number.
pub proof fn lemma_dec(n: nat)
    ensures
        dec(n).len() > 0,
        all_digits(dec(n)),
        digits_value(dec(n)) == n,
        parse_unsigned(dec(n), n) == Some(n),
        n < 10 ==> dec(n).len() == 1,
        n < 100 ==> dec(n).len() <= 2,
        n < 1000 ==> dec(n).len() <= 3,
        forall|i: int| 0 <= i < dec(n).len() ==> '\0' <= #[trigger] dec(n)[i] <= '\u{7f}',
    decreases n,
{
    if n >= 10 {
        lemma_dec(n / 10);
        let d = dec(n);
        let p = dec(n / 10);
        assert(d.drop_last() =~= p);
        assert forall|i: int| 0 <= i < d.len() implies #[trigger] is_digit(d[i]) by {
            if i < p.len() {
                assert(d[i] == p[i]);
            }
        }
        assert forall|i: int| 0 <= i < d.len() implies '\0' <= #[trigger] d[i] <= '\u{7f}' by {
            if i < p.len() {
                assert(d[i] == p[i]);
            }
        }
    }
    let d = dec(n);
    assert(digit_char(n % 10) as u32 == n % 10 + 48);
    assert(digit_value(digit_char(n % 10)) == n % 10);
    if n < 10 {
        assert(n % 10 == n);
        assert(d.drop_last() =~= Seq::<char>::empty());
        assert(d.last() == digit_char(n));
        assert(digits_value(d.drop_last()) == 0);
        assert(digit_value(d.last()) == n);
        assert(digits_value(d) == n);
    } else {
        assert(digits_value(d) == digits_value(dec(n / 10)) * 10 + n % 10);
    }
    assert(is_digit(d[0]));
    assert(unsigned_digits(d) == d);
}

} // verus!
