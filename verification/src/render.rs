use vstd::prelude::*;
use vstd::string::StringExecFns;
use crate::model::{AttrToken, TokenV, tokens_v};
use crate::text::{dec, push_char, push_dec};

verus! {

/// The text of one token.
pub open spec fn token_text(t: TokenV) -> Seq<char> {
    match t {
        TokenV::Ident(s) => s,
        TokenV::Punct(c, _) => seq![c],
        TokenV::Other(s) => s,
    }
}

/// The text of a token list: the tokens' texts, separated by one space except
/// after a punctuation joined to what follows it.
pub open spec fn tokens_text(ts: Seq<TokenV>) -> Seq<char>
    decreases ts.len(),
{
    if ts.len() == 0 {
        Seq::empty()
    } else if ts.len() == 1 {
        token_text(ts[0])
    } else {
        let prev = ts[ts.len() - 2];
        let sep = if prev matches TokenV::Punct(_, j) && j { Seq::empty() } else { seq![' '] };
        tokens_text(ts.drop_last()) + sep + token_text(ts.last())
    }
}

/// Appends the text of a token list.
pub fn push_tokens(s: &mut String, ts: &Vec<AttrToken>)
    ensures
        final(s)@ == old(s)@ + tokens_text(tokens_v(ts@)),
{
    let ghost tv = tokens_v(ts@);
    let mut i: usize = 0;
    assert(tv.take(0) =~= Seq::<TokenV>::empty());
    while i < ts.len()
        invariant
            i <= ts@.len(),
            tv == tokens_v(ts@),
            s@ == old(s)@ + tokens_text(tv.take(i as int)),
        decreases ts.len() - i,
    {
        assert(tv.take(i + 1).drop_last() =~= tv.take(i as int));
        assert(tv[i as int] == ts@[i as int]@);
        if i > 0 {
            assert(tv.take(i + 1)[i - 1] == tv[i - 1]);
            assert(tv[i - 1] == ts@[i - 1]@);
            let joined = match &ts[i - 1] {
                AttrToken::Punct(_, j) => *j,
                _ => false,
            };
            if !joined {
                push_char(s, ' ');
            }
        }
        match &ts[i] {
            AttrToken::Ident(t) => s.append(t.as_str()),
            AttrToken::Punct(c, _) => push_char(s, *c),
            AttrToken::Other(t) => s.append(t.as_str()),
        }
        i = i + 1;
    }
    assert(tv.take(i as int) =~= tv);
}

/// `[d]` for each dimension, outermost first.
pub open spec fn dims_text(dims: Seq<usize>) -> Seq<char>
    decreases dims.len(),
{
    if dims.len() == 0 {
        Seq::empty()
    } else {
        dims_text(dims.drop_last()) + "["@ + dec(dims.last() as nat) + "]"@
    }
}

/// Appends `[d]` for each dimension.
pub fn push_dims(s: &mut String, dims: &Vec<usize>)
    ensures
        final(s)@ == old(s)@ + dims_text(dims@),
{
    let mut i: usize = 0;
    assert(dims@.take(0) =~= Seq::<usize>::empty());
    while i < dims.len()
        invariant
            i <= dims@.len(),
            s@ == old(s)@ + dims_text(dims@.take(i as int)),
        decreases dims.len() - i,
    {
        assert(dims@.take(i + 1).drop_last() =~= dims@.take(i as int));
        s.append("[");
        push_dec(s, dims[i] as u128);
        s.append("]");
        i = i + 1;
    }
    assert(dims@.take(i as int) =~= dims@);
}

/// Appends `[n]`.
pub fn push_bracketed(s: &mut String, n: usize)
    ensures
        final(s)@ == old(s)@ + "["@ + dec(n as nat) + "]"@,
{
    s.append("[");
    push_dec(s, n as u128);
    s.append("]");
}

} // verus!

verus! {

/// `s` repeated `k` times.
pub open spec fn rep(s: Seq<char>, k: nat) -> Seq<char>
    decreases k,
{
    if k == 0 {
        Seq::empty()
    } else {
        rep(s, (k - 1) as nat) + s
    }
}

/// Appends `t` `k` times.
pub fn push_rep(s: &mut String, t: &str, k: usize)
    ensures
        final(s)@ == old(s)@ + rep(t@, k as nat),
{
    let mut i: usize = 0;
    assert(old(s)@ + rep(t@, 0) =~= old(s)@);
    while i < k
        invariant
            i <= k,
            s@ == old(s)@ + rep(t@, i as nat),
        decreases k - i,
    {
        s.append(t);
        i = i + 1;
        assert(s@ =~= old(s)@ + rep(t@, i as nat));
    }
}

} // verus!
