use vstd::prelude::*;
use vstd::string::StringSliceAdditionalSpecFns;
use vstd::string::StringExecFns;
use vstd::utf8::encode_utf8;
use crate::text::{dec, push_dec, push_char, chars_of, parse_unsigned, parse_unsigned_exec, digits_value,
    all_digits, is_digit, digit_char};

verus! {

/// The dotted text of an address: each byte in decimal, separated by `.`.
pub open spec fn ipv4_text(ip: Seq<u8>) -> Seq<char>
    decreases ip.len(),
{
    if ip.len() == 0 {
        Seq::empty()
    } else if ip.len() == 1 {
        dec(ip[0] as nat)
    } else {
        ipv4_text(ip.drop_last()) + "."@ + dec(ip.last() as nat)
    }
}

/// The dotted text of an address.
pub fn ipv4_string(ip: &[u8]) -> (s: String)
    ensures
        s@ == ipv4_text(ip@),
{
    let mut s = String::new();
    let mut i: usize = 0;
    assert(ip@.take(0) =~= Seq::<u8>::empty());
    while i < ip.len()
        invariant
            i <= ip@.len(),
            s@ == ipv4_text(ip@.take(i as int)),
        decreases ip.len() - i,
    {
        assert(ip@.take(i + 1).drop_last() =~= ip@.take(i as int));
        assert(ip@.take(i + 1).last() == ip@[i as int]);
        if i > 0 {
            s.append(".");
        }
        push_dec(&mut s, ip[i] as u128);
        i = i + 1;
        assert(s@ =~= ipv4_text(ip@.take(i as int)));
    }
    assert(ip@.take(i as int) =~= ip@);
    s
}

/// The parts of `s` between dots, in order; there is one more part than dots.
pub open spec fn split_dots(s: Seq<char>) -> Seq<Seq<char>>
    decreases s.len(),
{
    if s.len() == 0 {
        seq![Seq::empty()]
    } else {
        let p = split_dots(s.drop_last());
        if s.last() == '.' {
            p.push(Seq::empty())
        } else {
            p.update(p.len() - 1, p.last().push(s.last()))
        }
    }
}

/// An address typed as text: at most 16 bytes, split at each `.` into exactly
/// four parts, each a byte as std's `u8` parsing reads it.
pub open spec fn parse_ipv4(s: Seq<char>) -> Option<Seq<u8>> {
    let parts = split_dots(s);
    if encode_utf8(s).len() <= 16 && parts.len() == 4 && forall|k: int|
        0 <= k < 4 ==> #[trigger] parse_unsigned(parts[k], 255) is Some {
        Some(Seq::new(4, |k: int| parse_unsigned(parts[k], 255)->Some_0 as u8))
    } else {
        None
    }
}

proof fn lemma_split_nonempty(s: Seq<char>)
    ensures
        split_dots(s).len() >= 1,
    decreases s.len(),
{
    if s.len() > 0 {
        lemma_split_nonempty(s.drop_last());
    }
}

proof fn lemma_split_prefix(s: Seq<char>, i: int, j: int)
    requires
        0 <= i <= j <= s.len(),
    ensures
        split_dots(s.take(i)).len() <= split_dots(s.take(j)).len(),
        forall|k: int|
            0 <= k < split_dots(s.take(i)).len() - 1 ==> #[trigger] split_dots(s.take(j))[k] == split_dots(
                s.take(i),
            )[k],
    decreases j - i,
{
    if i < j {
        lemma_split_prefix(s, i, j - 1);
        let t = s.take(j);
        assert(t.drop_last() =~= s.take(j - 1));
        lemma_split_nonempty(s.take(j - 1));
        lemma_split_nonempty(s.take(i));
    }
}

/// The byte that a part of an address stands for.
fn part_value(cur: &Vec<char>) -> (r: Option<u8>)
    ensures
        match r {
            Some(v) => parse_unsigned(cur@, 255) == Some(v as nat),
            None => parse_unsigned(cur@, 255) is None,
        },
{
    match parse_unsigned_exec(cur.as_slice(), 255) {
        Some(v) => Some(v as u8),
        None => None,
    }
}

/// Reads an address typed as text.
pub fn ipv4_from_str(value: &str) -> (r: Option<[u8; 4]>)
    ensures
        match r {
            Some(ip) => parse_ipv4(value@) == Some(ip@),
            None => parse_ipv4(value@) is None,
        },
{
    if value.as_bytes().len() > 16 {
        return None;
    }
    let s = chars_of(value);
    let mut vals: Vec<u8> = Vec::new();
    let mut cur: Vec<char> = Vec::new();
    let mut i: usize = 0;
    assert(s@.take(0) =~= Seq::<char>::empty());
    while i < s.len()
        invariant
            i <= s@.len(),
            s@ == value@,
            split_dots(s@.take(i as int)).len() == vals@.len() + 1,
            value.spec_bytes().len() <= 16,
            split_dots(s@.take(i as int)).last() == cur@,
            forall|k: int|
                0 <= k < vals@.len() ==> parse_unsigned(#[trigger] split_dots(s@.take(i as int))[k], 255) == Some(
                    vals@[k] as nat,
                ),
        decreases s.len() - i,
    {
        let c = s[i];
        let ghost p = split_dots(s@.take(i as int));
        assert(s@.take(i + 1).drop_last() =~= s@.take(i as int));
        assert(s@.take(i + 1).last() == c);
        if c == '.' {
            match part_value(&cur) {
                None => {
                    proof {
                        lemma_split_prefix(s@, i + 1, s@.len() as int);
                        assert(s@.take(s@.len() as int) =~= s@);
                        let q = split_dots(s@);
                        assert(q[vals@.len() as int] == split_dots(s@.take(i + 1))[vals@.len() as int]);
                        assert(parse_unsigned(q[vals@.len() as int], 255) is None);
                        if q.len() == 4 && vals@.len() < 4 {
                            assert(!(parse_unsigned(q[vals@.len() as int], 255) is Some));
                        }
                        if vals@.len() >= 4 {
                            assert(q.len() >= 6);
                        }
                    }
                    return None;
                },
                Some(v) => {
                    vals.push(v);
                },
            }
            cur = Vec::new();
        } else {
            cur.push(c);
        }
        i = i + 1;
        proof {
            let q = split_dots(s@.take(i as int));
            assert forall|k: int| 0 <= k < vals@.len() implies parse_unsigned(#[trigger] q[k], 255) == Some(
                vals@[k] as nat,
            ) by {
                if k < vals@.len() - 1 || c != '.' {
                    assert(q[k] == p[k]);
                }
            }
        }
    }
    assert(s@.take(i as int) =~= s@);
    let last = match part_value(&cur) {
        None => {
            proof {
                let q = split_dots(s@);
                if q.len() == 4 {
                    assert(!(parse_unsigned(q[3], 255) is Some));
                }
            }
            return None;
        },
        Some(v) => v,
    };
    if vals.len() != 3 {
        return None;
    }
    let ip: [u8; 4] = [vals[0], vals[1], vals[2], last];
    proof {
        let q = split_dots(s@);
        assert(parse_unsigned(q[3], 255) == Some(last as nat));
        assert(ip@ =~= Seq::new(4, |k: int| parse_unsigned(q[k], 255)->Some_0 as u8));
    }
    Some(ip)
}

} // verus!

verus! {

proof fn lemma_split_dotless(d: Seq<char>)
    requires
        forall|i: int| 0 <= i < d.len() ==> #[trigger] d[i] != '.',
    ensures
        split_dots(d) == seq![d],
    decreases d.len(),
{
    if d.len() > 0 {
        lemma_split_dotless(d.drop_last());
        assert(d.drop_last().push(d.last()) =~= d);
        assert(split_dots(d) =~= seq![d]);
    } else {
        assert(d =~= Seq::<char>::empty());
    }
}

proof fn lemma_split_concat(p: Seq<char>, q: Seq<char>)
    ensures
        split_dots(p + seq!['.'] + q) == split_dots(p) + split_dots(q),
    decreases q.len(),
{
    let pq = p + seq!['.'] + q;
    if q.len() == 0 {
        assert(pq.drop_last() =~= p);
        assert(split_dots(pq) =~= split_dots(p) + split_dots(q));
    } else {
        lemma_split_concat(p, q.drop_last());
        assert(pq.drop_last() =~= p + seq!['.'] + q.drop_last());
        lemma_split_nonempty(q.drop_last());
        lemma_split_nonempty(p);
        assert(split_dots(pq) =~= split_dots(p) + split_dots(q));
    }
}

proof fn lemma_dec_dotless(n: nat)
    ensures
        forall|i: int| 0 <= i < dec(n).len() ==> #[trigger] dec(n)[i] != '.',
{
    crate::text::lemma_dec(n);
    assert forall|i: int| 0 <= i < dec(n).len() implies #[trigger] dec(n)[i] != '.' by {
        assert(is_digit(dec(n)[i]));
    }
}

/// Reading back the dotted text of an address gives the address.
pub proof fn law_ipv4_roundtrip(ip: Seq<u8>)
    requires
        ip.len() == 4,
    ensures
        parse_ipv4(ipv4_text(ip)) == Some(ip),
{
    reveal_strlit(".");
    let a = dec(ip[0] as nat);
    let b = dec(ip[1] as nat);
    let c = dec(ip[2] as nat);
    let d = dec(ip[3] as nat);
    assert(ip.drop_last().drop_last().drop_last() =~= seq![ip[0]]);
    assert(ip.drop_last().drop_last() =~= seq![ip[0], ip[1]]);
    assert(ip.drop_last() =~= seq![ip[0], ip[1], ip[2]]);
    let t = ipv4_text(ip);
    assert(ipv4_text(seq![ip[0]]) == a);
    assert(seq![ip[0], ip[1]].drop_last() =~= seq![ip[0]]);
    assert(ipv4_text(seq![ip[0], ip[1]]) == a + "."@ + b);
    assert(seq![ip[0], ip[1], ip[2]].drop_last() =~= seq![ip[0], ip[1]]);
    assert(ipv4_text(seq![ip[0], ip[1], ip[2]]) == a + "."@ + b + "."@ + c);
    assert(t == a + "."@ + b + "."@ + c + "."@ + d);
    assert(t =~= a + seq!['.'] + b + seq!['.'] + c + seq!['.'] + d);
    lemma_dec_dotless(ip[0] as nat);
    lemma_dec_dotless(ip[1] as nat);
    lemma_dec_dotless(ip[2] as nat);
    lemma_dec_dotless(ip[3] as nat);
    lemma_split_dotless(a);
    lemma_split_dotless(b);
    lemma_split_dotless(c);
    lemma_split_dotless(d);
    lemma_split_concat(a, b);
    lemma_split_concat(a + seq!['.'] + b, c);
    lemma_split_concat(a + seq!['.'] + b + seq!['.'] + c, d);
    let parts = split_dots(t);
    assert(parts =~= seq![a, b, c, d]);
    crate::text::lemma_dec(ip[0] as nat);
    crate::text::lemma_dec(ip[1] as nat);
    crate::text::lemma_dec(ip[2] as nat);
    crate::text::lemma_dec(ip[3] as nat);
    assert forall|k: int| 0 <= k < 4 implies #[trigger] parse_unsigned(parts[k], 255) == Some(ip[k] as nat) by {
        assert(parts[k] == dec(ip[k] as nat));
    }
    assert(t.len() <= 15);
    assert(vstd::utf8::is_ascii_chars(t)) by {
        assert forall|i: int| 0 <= i < t.len() implies '\0' <= #[trigger] t[i] <= '\u{7f}' by {
            if i < a.len() {
                assert(t[i] == a[i]);
            } else if i == a.len() {
            } else if i < a.len() + 1 + b.len() {
                assert(t[i] == b[i - a.len() - 1]);
            } else if i == a.len() + 1 + b.len() {
            } else if i < a.len() + 2 + b.len() + c.len() {
                assert(t[i] == c[i - a.len() - 2 - b.len()]);
            } else if i == a.len() + 2 + b.len() + c.len() {
            } else {
                assert(t[i] == d[i - a.len() - 3 - b.len() - c.len()]);
            }
        }
    }
    vstd::utf8::is_ascii_chars_encode_utf8(t);
    assert(Seq::new(4, |k: int| parse_unsigned(parts[k], 255)->Some_0 as u8) =~= ip);
}

} // verus!
