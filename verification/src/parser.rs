use vstd::prelude::*;
use vstd::string::StringExecFns;
use crate::model::{
    AttrMeta, AttrToken, TokenV, ModelError, ModelErrorV, tokens_v, opt_tokens_v, copy_tokens,
    copy_opt_tokens, TypeExpr, PathArgs, GenericArg, ArrayLen, MemberType, MemberTypeV, opt_dims_v,
    FieldDecl, FieldsDecl, StructDecl, Member, MemberV, members_v, Model, ModelV,
};
use crate::text::{
    str_eq, chars_of, parse_unsigned, parse_unsigned_exec, uppercase, is_uppercase, first_char,
};

verus! {

/// What a field's first attribute asks for.
#[derive(Debug, PartialEq, Eq)]
pub enum Attr {
    Str { validator: Option<Vec<AttrToken>> },
    Int { min: Option<Vec<AttrToken>>, max: Option<Vec<AttrToken>> },
    BigInt,
    Flg,
    Ip4,
    Non,
}

pub enum AttrV {
    Str { validator: Option<Seq<TokenV>> },
    Int { min: Option<Seq<TokenV>>, max: Option<Seq<TokenV>> },
    BigInt,
    Flg,
    Ip4,
    Non,
}

impl View for Attr {
    type V = AttrV;

    open spec fn view(&self) -> AttrV {
        match self {
            Attr::Str { validator } => AttrV::Str { validator: opt_tokens_v(*validator) },
            Attr::Int { min, max } => AttrV::Int { min: opt_tokens_v(*min), max: opt_tokens_v(*max) },
            Attr::BigInt => AttrV::BigInt,
            Attr::Flg => AttrV::Flg,
            Attr::Ip4 => AttrV::Ip4,
            Attr::Non => AttrV::Non,
        }
    }
}

/// Whether a token is the punctuation `c`.
pub open spec fn is_punct(t: TokenV, c: char) -> bool {
    match t {
        TokenV::Punct(p, _) => p == c,
        _ => false,
    }
}

/// The position of the first `,` in `s`, or its length.
pub open spec fn comma_index(s: Seq<TokenV>) -> int
    decreases s.len(),
{
    if s.len() == 0 {
        0
    } else if is_punct(s[0], ',') {
        0
    } else {
        1 + comma_index(s.drop_first())
    }
}

/// The `key = value` pairs of an attribute's list, in order: each key an
/// identifier, then `=`, then the tokens up to the next `,` or the end.
pub open spec fn attr_values(toks: Seq<TokenV>) -> Result<Seq<(Seq<char>, Seq<TokenV>)>, ModelErrorV>
    decreases toks.len(),
{
    if toks.len() == 0 {
        Ok(Seq::empty())
    } else {
        match toks[0] {
            TokenV::Ident(k) => {
                if toks.len() < 2 || !is_punct(toks[1], '=') {
                    Err(ModelErrorV::InvalidAttrs)
                } else {
                    let rest = toks.skip(2);
                    let c = comma_index(rest);
                    proof {
                        lemma_comma_index_bound(rest);
                    }
                    let after = if c < rest.len() { rest.skip(c + 1) } else { Seq::empty() };
                    match attr_values(after) {
                        Ok(vs) => Ok(seq![(k, rest.take(c))] + vs),
                        Err(e) => Err(e),
                    }
                }
            },
            _ => Err(ModelErrorV::AttrKeyNotIdent(toks[0])),
        }
    }
}

/// The value of the first pair whose key is `k`.
pub open spec fn first_value(vs: Seq<(Seq<char>, Seq<TokenV>)>, k: Seq<char>) -> Option<Seq<TokenV>>
    decreases vs.len(),
{
    if vs.len() == 0 {
        None
    } else if vs[0].0 == k {
        Some(vs[0].1)
    } else {
        first_value(vs.drop_first(), k)
    }
}

/// The value of the last pair whose key is `k`.
pub open spec fn last_value(vs: Seq<(Seq<char>, Seq<TokenV>)>, k: Seq<char>) -> Option<Seq<TokenV>>
    decreases vs.len(),
{
    if vs.len() == 0 {
        None
    } else if vs.last().0 == k {
        Some(vs.last().1)
    } else {
        last_value(vs.drop_last(), k)
    }
}

/// What the first attribute of a field asks for.
pub open spec fn spec_parse_attrs(attrs: Seq<AttrMeta>) -> Result<AttrV, ModelErrorV> {
    if attrs.len() == 0 {
        Ok(AttrV::Non)
    } else {
        match attrs[0] {
            AttrMeta::Path(seg) => Ok(
                if seg@ == "str"@ {
                    AttrV::Str { validator: None }
                } else if seg@ == "int"@ {
                    AttrV::Int { min: None, max: None }
                } else if seg@ == "bigint"@ {
                    AttrV::BigInt
                } else if seg@ == "flag"@ {
                    AttrV::Flg
                } else if seg@ == "ipv4"@ {
                    AttrV::Ip4
                } else {
                    AttrV::Non
                },
            ),
            AttrMeta::List(seg, toks) => match attr_values(tokens_v(toks@)) {
                Err(e) => Err(e),
                Ok(vs) => Ok(
                    if seg@ == "str"@ {
                        AttrV::Str { validator: first_value(vs, "validator"@) }
                    } else if seg@ == "int"@ {
                        AttrV::Int { min: last_value(vs, "min"@), max: last_value(vs, "max"@) }
                    } else if seg@ == "flag"@ {
                        AttrV::Flg
                    } else if seg@ == "ipv4"@ {
                        AttrV::Ip4
                    } else {
                        AttrV::Non
                    },
                ),
            },
            AttrMeta::NameValue => Ok(AttrV::Non),
        }
    }
}

/// The view of a list of pairs.
pub open spec fn pairs_v(v: Seq<(String, Vec<AttrToken>)>) -> Seq<(Seq<char>, Seq<TokenV>)> {
    v.map_values(|p: (String, Vec<AttrToken>)| (p.0@, tokens_v(p.1@)))
}

pub proof fn lemma_comma_index_bound(s: Seq<TokenV>)
    ensures
        0 <= comma_index(s) <= s.len(),
    decreases s.len(),
{
    if s.len() > 0 {
        lemma_comma_index_bound(s.drop_first());
    }
}

proof fn lemma_comma_index(s: Seq<TokenV>, c: int)
    requires
        0 <= c <= s.len(),
        c < s.len() ==> is_punct(s[c], ','),
        forall|k: int| 0 <= k < c ==> !is_punct(#[trigger] s[k], ','),
    ensures
        comma_index(s) == c,
    decreases c,
{
    if c > 0 {
        assert(!is_punct(s[0], ','));
        assert forall|k: int| 0 <= k < c - 1 implies !is_punct(#[trigger] s.drop_first()[k], ',') by {
            assert(s.drop_first()[k] == s[k + 1]);
        }
        lemma_comma_index(s.drop_first(), c - 1);
    }
}

/// The `key = value` pairs of `toks` from position `i` on.
fn split_values(toks: &Vec<AttrToken>, i: usize) -> (r: Result<Vec<(String, Vec<AttrToken>)>, ModelError>)
    requires
        i <= toks@.len(),
    ensures
        match r {
            Ok(v) => attr_values(tokens_v(toks@).skip(i as int)) == Ok::<_, ModelErrorV>(pairs_v(v@)),
            Err(e) => attr_values(tokens_v(toks@).skip(i as int)) == Err::<Seq<(Seq<char>, Seq<TokenV>)>, _>(e@),
        },
    decreases toks@.len() - i,
{
    let ghost t = tokens_v(toks@).skip(i as int);
    let n = toks.len();
    if i == n {
        assert(t.len() == 0);
        let v: Vec<(String, Vec<AttrToken>)> = Vec::new();
        assert(pairs_v(v@) =~= Seq::empty());
        return Ok(v);
    }
    assert(t[0] == toks@[i as int]@);
    let key = match &toks[i] {
        AttrToken::Ident(k) => k.clone(),
        other => {
            return Err(ModelError::AttrKeyNotIdent(other.copy()));
        },
    };
    if i + 1 >= n {
        return Err(ModelError::InvalidAttrs);
    }
    assert(t[1] == toks@[i + 1]@);
    match &toks[i + 1] {
        AttrToken::Punct(c, _) => {
            if *c != '=' {
                return Err(ModelError::InvalidAttrs);
            }
        },
        _ => {
            return Err(ModelError::InvalidAttrs);
        },
    }
    let ghost rest = t.skip(2);
    let start = i + 2;
    let mut j = start;
    let mut value: Vec<AttrToken> = Vec::new();
    let mut found = false;
    while j < n
        invariant_except_break
            !found,
        invariant
            start <= j <= n,
            n == toks@.len(),
            rest == tokens_v(toks@).skip(start as int),
            tokens_v(value@) == rest.take(j - start),
            forall|k: int| 0 <= k < j - start ==> !is_punct(#[trigger] rest[k], ','),
        ensures
            found ==> j < n && is_punct(rest[j - start], ','),
            !found ==> j == n,
        decreases n - j,
    {
        let tok = &toks[j];
        assert(rest[j - start] == toks@[j as int]@);
        let is_comma = match tok {
            AttrToken::Punct(c, _) => *c == ',',
            _ => false,
        };
        if is_comma {
            found = true;
            break;
        }
        let ghost old_v = value@;
        let cp = tok.copy();
        value.push(cp);
        assert(tokens_v(value@) =~= tokens_v(old_v).push(rest[j - start]));
        assert(rest.take(j - start + 1) =~= rest.take(j - start).push(rest[j - start]));
        j = j + 1;
    }
    proof {
        lemma_comma_index(rest, j - start);
    }
    let next = if found { j + 1 } else { j };
    let ghost after = if j - start < rest.len() { rest.skip(j - start + 1) } else { Seq::<TokenV>::empty() };
    assert(after =~= tokens_v(toks@).skip(next as int));
    match split_values(toks, next) {
        Err(e) => Err(e),
        Ok(mut vs) => {
            let ghost old_vs = vs@;
            vs.insert(0, (key, value));
            assert(pairs_v(vs@) =~= seq![(toks@[i as int]@->Ident_0, rest.take(j - start))] + pairs_v(old_vs));
            Ok(vs)
        },
    }
}

} // verus!

verus! {

/// The value of the first pair whose key is `k`.
fn find_first(vs: &Vec<(String, Vec<AttrToken>)>, k: &str) -> (r: Option<Vec<AttrToken>>)
    ensures
        opt_tokens_v(r) == first_value(pairs_v(vs@), k@),
{
    let ghost pv = pairs_v(vs@);
    let mut i: usize = 0;
    assert(pv.skip(0) =~= pv);
    while i < vs.len()
        invariant
            i <= vs@.len(),
            pv == pairs_v(vs@),
            first_value(pv, k@) == first_value(pv.skip(i as int), k@),
        decreases vs.len() - i,
    {
        assert(pv.skip(i as int)[0] == pv[i as int]);
        assert(pv[i as int].0 == vs@[i as int].0@);
        if str_eq(vs[i].0.as_str(), k) {
            return Some(copy_tokens(&vs[i].1));
        }
        assert(pv.skip(i as int).drop_first() =~= pv.skip(i + 1));
        i = i + 1;
    }
    assert(pv.skip(i as int).len() == 0);
    None
}

/// The value of the last pair whose key is `k`.
fn find_last(vs: &Vec<(String, Vec<AttrToken>)>, k: &str) -> (r: Option<Vec<AttrToken>>)
    ensures
        opt_tokens_v(r) == last_value(pairs_v(vs@), k@),
{
    let ghost pv = pairs_v(vs@);
    let mut cur: Option<Vec<AttrToken>> = None;
    let mut i: usize = 0;
    while i < vs.len()
        invariant
            i <= vs@.len(),
            pv == pairs_v(vs@),
            opt_tokens_v(cur) == last_value(pv.take(i as int), k@),
        decreases vs.len() - i,
    {
        assert(pv.take(i + 1).drop_last() =~= pv.take(i as int));
        assert(pv.take(i + 1).last() == pv[i as int]);
        if str_eq(vs[i].0.as_str(), k) {
            cur = Some(copy_tokens(&vs[i].1));
        }
        i = i + 1;
    }
    assert(pv.take(i as int) =~= pv);
    cur
}

/// What the first attribute of a field asks for, or the reason the macro
/// refuses the list.
pub fn try_parse_attrs(attrs: &Vec<AttrMeta>) -> (r: Result<Attr, ModelError>)
    ensures
        match r {
            Ok(a) => spec_parse_attrs(attrs@) == Ok::<_, ModelErrorV>(a@),
            Err(e) => spec_parse_attrs(attrs@) == Err::<AttrV, _>(e@),
        },
{
    if attrs.len() == 0 {
        return Ok(Attr::Non);
    }
    match &attrs[0] {
        AttrMeta::Path(seg) => {
            let s = seg.as_str();
            Ok(
                if str_eq(s, "str") {
                    Attr::Str { validator: None }
                } else if str_eq(s, "int") {
                    Attr::Int { min: None, max: None }
                } else if str_eq(s, "bigint") {
                    Attr::BigInt
                } else if str_eq(s, "flag") {
                    Attr::Flg
                } else if str_eq(s, "ipv4") {
                    Attr::Ip4
                } else {
                    Attr::Non
                },
            )
        },
        AttrMeta::List(seg, toks) => {
            assert(tokens_v(toks@).skip(0) =~= tokens_v(toks@));
            let values = match split_values(toks, 0) {
                Err(e) => {
                    return Err(e);
                },
                Ok(v) => v,
            };
            let s = seg.as_str();
            Ok(
                if str_eq(s, "str") {
                    Attr::Str { validator: find_first(&values, "validator") }
                } else if str_eq(s, "int") {
                    let min = find_last(&values, "min");
                    let max = find_last(&values, "max");
                    Attr::Int { min, max }
                } else if str_eq(s, "flag") {
                    Attr::Flg
                } else if str_eq(s, "ipv4") {
                    Attr::Ip4
                } else {
                    Attr::Non
                },
            )
        },
        AttrMeta::NameValue => Ok(Attr::Non),
    }
}

} // verus!

verus! {

/// Whether every path in a type names a non-empty identifier.
pub open spec fn type_idents_ok(ty: TypeExpr) -> bool
    decreases ty,
{
    match ty {
        TypeExpr::Path(id, args) => id@.len() > 0 && match args {
            PathArgs::Angle(Some(ga)) => match *ga {
                GenericArg::Type(t) => type_idents_ok(t),
                GenericArg::Other => true,
            },
            _ => true,
        },
        TypeExpr::Array(e, _) => type_idents_ok(*e),
        TypeExpr::Other => true,
    }
}

/// The member type and array dimensions that a field's type and attribute give.
///
/// `Option<T>` makes a model optional and leaves any other `T` as it is; with
/// a `flag` attribute a path names the mask of a flag; a path that starts with
/// an uppercase letter names another model; any other path names a number, a
/// float when it starts with `f`. An array of `u8` is text, a big integer, an
/// IPv4 address or raw bytes by its attribute; any other array adds its length
/// in front of the element's dimensions.
pub open spec fn spec_parse_type(ty: TypeExpr, attr: AttrV) -> Result<(MemberTypeV, Option<Seq<usize>>), ModelErrorV>
    decreases ty,
{
    match ty {
        TypeExpr::Path(ident, args) => {
            if ident@ == "Option"@ {
                match args {
                    PathArgs::Angle(Some(ga)) => match *ga {
                        GenericArg::Type(t) => match spec_parse_type(t, attr) {
                            Err(e) => Err(e),
                            Ok((mt, arr)) => match mt {
                                MemberTypeV::Model { ty, cty, optional } => Ok(
                                    (MemberTypeV::Model { ty, cty, optional: true }, arr),
                                ),
                                _ => Ok((mt, arr)),
                            },
                        },
                        GenericArg::Other => Err(ModelErrorV::InvalidGenericArg),
                    },
                    PathArgs::Angle(None) => Err(ModelErrorV::MissingGenericArg),
                    _ => Err(ModelErrorV::InvalidOptionArgs),
                }
            } else if attr is Flg {
                Ok((MemberTypeV::Flag { fl: ident@ }, None))
            } else if uppercase(ident@[0]) {
                Ok((MemberTypeV::Model { ty: ident@, cty: "C"@ + ident@, optional: false }, None))
            } else {
                let is_float = ident@[0] == 'f';
                match attr {
                    AttrV::Int { min, max } => Ok(
                        (MemberTypeV::Number { ty: ident@, min, max, is_float }, None),
                    ),
                    _ => Ok((MemberTypeV::Number { ty: ident@, min: None, max: None, is_float }, None)),
                }
            }
        },
        TypeExpr::Array(elem, len) => match len {
            ArrayLen::Other => Err(ModelErrorV::ArrayLenNotLiteral),
            ArrayLen::Int(digits) => match parse_unsigned(digits@, usize::MAX as nat) {
                None => Err(ModelErrorV::ArrayLenOverflow),
                Some(n) => {
                    let n = n as usize;
                    match spec_parse_type(*elem, attr) {
                        Err(e) => Err(e),
                        Ok((mt, arr)) => {
                            if mt matches MemberTypeV::Number { ty, .. } && ty == "u8"@ {
                                match attr {
                                    AttrV::BigInt => Ok((MemberTypeV::BigInt { len: n }, None)),
                                    AttrV::Str { validator } => Ok(
                                        (MemberTypeV::String { len: n, validator }, None),
                                    ),
                                    AttrV::Ip4 => if n != 4 {
                                        Err(ModelErrorV::Ipv4Length)
                                    } else {
                                        Ok((MemberTypeV::Ipv4, None))
                                    },
                                    AttrV::Non => Ok((MemberTypeV::Bytes { len: n }, None)),
                                    _ => Err(ModelErrorV::UnsupportedByteArrayAttr),
                                }
                            } else {
                                let inner = match arr {
                                    Some(a) => a,
                                    None => Seq::empty(),
                                };
                                Ok((mt, Some(seq![n] + inner)))
                            }
                        },
                    }
                },
            },
        },
        TypeExpr::Other => Err(ModelErrorV::InvalidType),
    }
}

/// A copy of an attribute.
fn copy_attr_tokens_of_str(attr: &Attr) -> (r: Option<Vec<AttrToken>>)
    ensures
        attr@ matches AttrV::Str { validator } ==> opt_tokens_v(r) == validator,
{
    match attr {
        Attr::Str { validator } => copy_opt_tokens(validator),
        _ => None,
    }
}

/// The member type and array dimensions of a field's type under its attribute,
/// or the reason the macro refuses the type.
pub fn try_parse_type(ty: &TypeExpr, attr: &Attr) -> (r: Result<(MemberType, Option<Vec<usize>>), ModelError>)
    requires
        type_idents_ok(*ty),
    ensures
        match r {
            Ok((mt, arr)) => spec_parse_type(*ty, attr@) == Ok::<_, ModelErrorV>((mt@, opt_dims_v(arr))),
            Err(e) => spec_parse_type(*ty, attr@) == Err::<(MemberTypeV, Option<Seq<usize>>), _>(e@),
        },
    decreases ty,
{
    match ty {
        TypeExpr::Path(ident, args) => {
            if str_eq(ident.as_str(), "Option") {
                match args {
                    PathArgs::Angle(Some(ga)) => match &**ga {
                        GenericArg::Type(t) => {
                            let (mt, arr) = match try_parse_type(t, attr) {
                                Err(e) => {
                                    return Err(e);
                                },
                                Ok(x) => x,
                            };
                            match mt {
                                MemberType::Model { ty, cty, .. } => Ok(
                                    (MemberType::Model { ty, cty, optional: true }, arr),
                                ),
                                other => Ok((other, arr)),
                            }
                        },
                        GenericArg::Other => Err(ModelError::InvalidGenericArg),
                    },
                    PathArgs::Angle(None) => Err(ModelError::MissingGenericArg),
                    _ => Err(ModelError::InvalidOptionArgs),
                }
            } else if matches!(attr, Attr::Flg) {
                Ok((MemberType::Flag { fl: ident.clone() }, None))
            } else {
                let fc = first_char(ident);
                if is_uppercase(fc) {
                    let mut cty = "C".to_owned();
                    cty.append(ident.as_str());
                    Ok((MemberType::Model { ty: ident.clone(), cty, optional: false }, None))
                } else {
                    let is_float = fc == 'f';
                    match attr {
                        Attr::Int { min, max } => Ok(
                            (
                                MemberType::Number {
                                    ty: ident.clone(),
                                    min: copy_opt_tokens(min),
                                    max: copy_opt_tokens(max),
                                    is_float,
                                },
                                None,
                            ),
                        ),
                        _ => Ok(
                            (MemberType::Number { ty: ident.clone(), min: None, max: None, is_float }, None),
                        ),
                    }
                }
            }
        },
        TypeExpr::Array(elem, len) => {
            let digits = match len {
                ArrayLen::Other => {
                    return Err(ModelError::ArrayLenNotLiteral);
                },
                ArrayLen::Int(d) => d,
            };
            let dv = chars_of(digits.as_str());
            let n: usize = match parse_unsigned_exec(dv.as_slice(), usize::MAX as u64) {
                None => {
                    return Err(ModelError::ArrayLenOverflow);
                },
                Some(v) => v as usize,
            };
            let (mt, arr) = match try_parse_type(&**elem, attr) {
                Err(e) => {
                    return Err(e);
                },
                Ok(x) => x,
            };
            let is_u8 = match &mt {
                MemberType::Number { ty, .. } => str_eq(ty.as_str(), "u8"),
                _ => false,
            };
            if is_u8 {
                match attr {
                    Attr::BigInt => Ok((MemberType::BigInt { len: n }, None)),
                    Attr::Str { .. } => Ok(
                        (MemberType::String { len: n, validator: copy_attr_tokens_of_str(attr) }, None),
                    ),
                    Attr::Ip4 => if n != 4 {
                        Err(ModelError::Ipv4Length)
                    } else {
                        Ok((MemberType::Ipv4, None))
                    },
                    Attr::Non => Ok((MemberType::Bytes { len: n }, None)),
                    _ => Err(ModelError::UnsupportedByteArrayAttr),
                }
            } else {
                let mut lenv: Vec<usize> = Vec::new();
                lenv.push(n);
                match arr {
                    Some(a) => {
                        let mut k: usize = 0;
                        while k < a.len()
                            invariant
                                k <= a@.len(),
                                lenv@ == seq![n] + a@.take(k as int),
                            decreases a.len() - k,
                        {
                            lenv.push(a[k]);
                            k = k + 1;
                            assert(lenv@ =~= seq![n] + a@.take(k as int));
                        }
                        assert(a@.take(k as int) =~= a@);
                    },
                    None => {
                        assert(lenv@ =~= seq![n] + Seq::<usize>::empty());
                    },
                }
                Ok((mt, Some(lenv)))
            }
        },
        TypeExpr::Other => Err(ModelError::InvalidType),
    }
}

} // verus!

verus! {

/// Whether every identifier of a field is non-empty.
pub open spec fn field_idents_ok(f: FieldDecl) -> bool {
    &&& f.ident matches Some(id) ==> id@.len() > 0
    &&& type_idents_ok(f.ty)
}

/// The member that a field declares.
pub open spec fn spec_parse_member(f: FieldDecl) -> Result<MemberV, ModelErrorV> {
    match f.ident {
        None => Err(ModelErrorV::FieldIdentNotFound),
        Some(ident) => match spec_parse_attrs(f.attrs@) {
            Err(e) => Err(e),
            Ok(attr) => match spec_parse_type(f.ty, attr) {
                Err(e) => Err(e),
                Ok((ty, arr)) => Ok(MemberV { ident: ident@, ty, private: ident@[0] == '_', arr }),
            },
        },
    }
}

/// The member that a field declares, or the reason the macro refuses the field.
pub fn try_parse_member(f: &FieldDecl) -> (r: Result<Member, ModelError>)
    requires
        field_idents_ok(*f),
    ensures
        match r {
            Ok(m) => spec_parse_member(*f) == Ok::<_, ModelErrorV>(m@),
            Err(e) => spec_parse_member(*f) == Err::<MemberV, _>(e@),
        },
{
    let ident = match &f.ident {
        Some(i) => i,
        None => {
            return Err(ModelError::FieldIdentNotFound);
        },
    };
    let attr = match try_parse_attrs(&f.attrs) {
        Err(e) => {
            return Err(e);
        },
        Ok(a) => a,
    };
    let (ty, arr) = match try_parse_type(&f.ty, &attr) {
        Err(e) => {
            return Err(e);
        },
        Ok(x) => x,
    };
    let private = first_char(ident) == '_';
    Ok(Member { ident: ident.clone(), ty, private, arr })
}

/// The members that the fields declare, in order; the first refused field
/// refuses them all.
pub open spec fn spec_parse_members(fs: Seq<FieldDecl>) -> Result<Seq<MemberV>, ModelErrorV>
    decreases fs.len(),
{
    if fs.len() == 0 {
        Ok(Seq::empty())
    } else {
        match spec_parse_members(fs.drop_last()) {
            Err(e) => Err(e),
            Ok(ms) => match spec_parse_member(fs.last()) {
                Err(e) => Err(e),
                Ok(m) => Ok(ms.push(m)),
            },
        }
    }
}

proof fn lemma_members_err_prefix(fs: Seq<FieldDecl>, j: int)
    requires
        0 <= j <= fs.len(),
        spec_parse_members(fs.take(j)) is Err,
    ensures
        spec_parse_members(fs) == spec_parse_members(fs.take(j)),
    decreases fs.len() - j,
{
    if j < fs.len() {
        assert(fs.take(j + 1).drop_last() =~= fs.take(j));
        lemma_members_err_prefix(fs, j + 1);
    } else {
        assert(fs.take(j) =~= fs);
    }
}

/// The three flag members that a model with a `flag` member gains.
pub open spec fn flag_members() -> Seq<MemberV> {
    seq![
        MemberV { ident: "alive"@, ty: MemberTypeV::Flag { fl: "FLAG_ALIVE"@ }, private: false, arr: None },
        MemberV { ident: "edited"@, ty: MemberTypeV::Flag { fl: "FLAG_EDITED"@ }, private: false, arr: None },
        MemberV { ident: "private"@, ty: MemberTypeV::Flag { fl: "FLAG_PRIVATE"@ }, private: false, arr: None },
    ]
}

/// Whether some member is named `flag`.
pub open spec fn has_flag_member(ms: Seq<MemberV>) -> bool {
    exists|i: int| 0 <= i < ms.len() && #[trigger] ms[i].ident == "flag"@
}

/// Whether every field's identifiers are non-empty.
pub open spec fn fields_idents_ok(fields: FieldsDecl) -> bool {
    fields matches FieldsDecl::Named(v) ==> forall|i: int| 0 <= i < v@.len() ==> field_idents_ok(#[trigger] v@[i])
}

/// The members of a model: those its fields declare, then the three flags
/// when one of them is named `flag`.
pub open spec fn spec_parse_fields(fields: FieldsDecl) -> Result<Seq<MemberV>, ModelErrorV> {
    match fields {
        FieldsDecl::Unnamed => Err(ModelErrorV::InvalidStructFields),
        FieldsDecl::Unit => Ok(Seq::empty()),
        FieldsDecl::Named(v) => match spec_parse_members(v@) {
            Err(e) => Err(e),
            Ok(ms) => Ok(if has_flag_member(ms) { ms + flag_members() } else { ms }),
        },
    }
}

fn flag_member(ident: &str, fl: &str) -> (m: Member)
    ensures
        m@ == (MemberV { ident: ident@, ty: MemberTypeV::Flag { fl: fl@ }, private: false, arr: None }),
{
    Member { ident: ident.to_owned(), ty: MemberType::Flag { fl: fl.to_owned() }, private: false, arr: None }
}

/// The members of a model, or the reason the macro refuses the fields.
pub fn try_parse_fields(fields: &FieldsDecl) -> (r: Result<Vec<Member>, ModelError>)
    requires
        fields_idents_ok(*fields),
    ensures
        match r {
            Ok(ms) => spec_parse_fields(*fields) == Ok::<_, ModelErrorV>(members_v(ms@)),
            Err(e) => spec_parse_fields(*fields) == Err::<Seq<MemberV>, _>(e@),
        },
{
    let named = match fields {
        FieldsDecl::Named(v) => v,
        FieldsDecl::Unit => {
            let ms: Vec<Member> = Vec::new();
            assert(members_v(ms@) =~= Seq::empty());
            return Ok(ms);
        },
        FieldsDecl::Unnamed => {
            return Err(ModelError::InvalidStructFields);
        },
    };
    let mut members: Vec<Member> = Vec::new();
    let mut i: usize = 0;
    let mut has_flag = false;
    assert(named@.take(0) =~= Seq::<FieldDecl>::empty());
    assert(members_v(members@) =~= Seq::<MemberV>::empty());
    while i < named.len()
        invariant
            i <= named@.len(),
            *fields == FieldsDecl::Named(*named),
            forall|k: int| 0 <= k < named@.len() ==> field_idents_ok(#[trigger] named@[k]),
            spec_parse_members(named@.take(i as int)) == Ok::<_, ModelErrorV>(members_v(members@)),
            has_flag == has_flag_member(members_v(members@)),
        decreases named.len() - i,
    {
        assert(named@.take(i + 1).drop_last() =~= named@.take(i as int));
        assert(named@.take(i + 1).last() == named@[i as int]);
        let m = match try_parse_member(&named[i]) {
            Err(e) => {
                proof {
                    lemma_members_err_prefix(named@, i + 1);
                }
                return Err(e);
            },
            Ok(m) => m,
        };
        let ghost old_ms = members_v(members@);
        let is_flag = str_eq(m.ident.as_str(), "flag");
        members.push(m);
        assert(members_v(members@) =~= old_ms.push(m@));
        proof {
            let ms = members_v(members@);
            if has_flag_member(old_ms) {
                let w = choose|w: int| 0 <= w < old_ms.len() && #[trigger] old_ms[w].ident == "flag"@;
                assert(ms[w] == old_ms[w]);
            }
            if is_flag {
                assert(ms[ms.len() - 1].ident == "flag"@);
            }
            if has_flag_member(ms) {
                let w = choose|w: int| 0 <= w < ms.len() && #[trigger] ms[w].ident == "flag"@;
                if w < old_ms.len() {
                    assert(old_ms[w] == ms[w]);
                }
            }
        }
        has_flag = has_flag || is_flag;
        i = i + 1;
    }
    assert(named@.take(i as int) =~= named@);
    if has_flag {
        let ghost old_ms = members_v(members@);
        members.push(flag_member("alive", "FLAG_ALIVE"));
        members.push(flag_member("edited", "FLAG_EDITED"));
        members.push(flag_member("private", "FLAG_PRIVATE"));
        assert(members_v(members@) =~= old_ms + flag_members());
    }
    Ok(members)
}

/// Whether the macro's arguments hold the identifier `hex`.
pub open spec fn spec_hexable(args: Seq<TokenV>) -> bool {
    exists|i: int| 0 <= i < args.len() && #[trigger] args[i] == TokenV::Ident("hex"@)
}

/// Whether some member is another model.
pub open spec fn spec_has_models(ms: Seq<MemberV>) -> bool {
    exists|i: int| 0 <= i < ms.len() && #[trigger] ms[i].ty is Model
}

/// The model that a struct declaration and the macro's arguments describe.
pub open spec fn spec_parse(args: Seq<TokenV>, item: StructDecl) -> Result<ModelV, ModelErrorV> {
    match spec_parse_fields(item.fields) {
        Err(e) => Err(e),
        Ok(ms) => Ok(
            ModelV {
                ident: item.ident@,
                c_ident: "C"@ + item.ident@,
                members: ms,
                has_models: spec_has_models(ms),
                hexable: spec_hexable(args),
            },
        ),
    }
}

fn hexable(args: &Vec<AttrToken>) -> (r: bool)
    ensures
        r == spec_hexable(tokens_v(args@)),
{
    let ghost t = tokens_v(args@);
    let mut i: usize = 0;
    while i < args.len()
        invariant
            i <= args@.len(),
            t == tokens_v(args@),
            forall|k: int| 0 <= k < i ==> t[k] != TokenV::Ident("hex"@),
        decreases args.len() - i,
    {
        assert(t[i as int] == args@[i as int]@);
        match &args[i] {
            AttrToken::Ident(x) => {
                if str_eq(x.as_str(), "hex") {
                    return true;
                }
            },
            _ => {},
        }
        i = i + 1;
    }
    false
}

fn has_models(ms: &Vec<Member>) -> (r: bool)
    ensures
        r == spec_has_models(members_v(ms@)),
{
    let ghost t = members_v(ms@);
    let mut i: usize = 0;
    while i < ms.len()
        invariant
            i <= ms@.len(),
            t == members_v(ms@),
            forall|k: int| 0 <= k < i ==> !(#[trigger] t[k].ty is Model),
        decreases ms.len() - i,
    {
        assert(t[i as int] == ms@[i as int]@);
        if matches!(ms[i].ty, MemberType::Model { .. }) {
            assert(t[i as int].ty is Model);
            return true;
        }
        i = i + 1;
    }
    false
}

/// The model that a struct declaration and the macro's arguments describe, or
/// the reason the macro refuses them.
pub fn try_parse(args: &Vec<AttrToken>, item: &StructDecl) -> (r: Result<Model, ModelError>)
    requires
        fields_idents_ok(item.fields),
    ensures
        match r {
            Ok(m) => spec_parse(tokens_v(args@), *item) == Ok::<_, ModelErrorV>(m@),
            Err(e) => spec_parse(tokens_v(args@), *item) == Err::<ModelV, _>(e@),
        },
{
    let members = match try_parse_fields(&item.fields) {
        Err(e) => {
            return Err(e);
        },
        Ok(ms) => ms,
    };
    let mut c_ident = "C".to_owned();
    c_ident.append(item.ident.as_str());
    let has_models = has_models(&members);
    let hexable = hexable(args);
    Ok(Model { ident: item.ident.clone(), c_ident, members, has_models, hexable })
}

/// What the first attribute of a field asks for. The macro refuses (and
/// panics on) a list whose keys are not identifiers each followed by `=`; such
/// lists are left out here, and `try_parse_attrs` names them.
pub fn parse_attrs(attrs: &Vec<AttrMeta>) -> (r: Attr)
    requires
        spec_parse_attrs(attrs@) is Ok,
    ensures
        spec_parse_attrs(attrs@) == Ok::<_, ModelErrorV>(r@),
{
    try_parse_attrs(attrs).unwrap()
}

/// The member type and array dimensions of a field's type under its
/// attribute. The types the macro refuses (and panics on) are left out: an
/// `Option` without one type argument, an array length that is not an integer
/// literal, an IPv4 array that is not four bytes, a byte array under `int` or
/// `flag`, a type that is neither a path nor an array; `try_parse_type` names
/// them.
pub fn parse_type(ty: &TypeExpr, attr: &Attr) -> (r: (MemberType, Option<Vec<usize>>))
    requires
        type_idents_ok(*ty),
        spec_parse_type(*ty, attr@) is Ok,
    ensures
        spec_parse_type(*ty, attr@) == Ok::<_, ModelErrorV>((r.0@, opt_dims_v(r.1))),
{
    try_parse_type(ty, attr).unwrap()
}

/// The member that a field declares; a name that starts with `_` is private.
/// Fields the macro refuses are left out (`try_parse_member` names them).
pub fn parse_member(f: &FieldDecl) -> (r: Member)
    requires
        field_idents_ok(*f),
        spec_parse_member(*f) is Ok,
    ensures
        spec_parse_member(*f) == Ok::<_, ModelErrorV>(r@),
{
    try_parse_member(f).unwrap()
}

/// The members of a model: those of the named fields in order (none for a
/// unit struct), then the `alive`, `edited` and `private` flags when a field is
/// named `flag`. Unnamed fields, and fields the macro refuses, are left out
/// (`try_parse_fields` names them).
pub fn parse_fields(fields: &FieldsDecl) -> (r: Vec<Member>)
    requires
        fields_idents_ok(*fields),
        spec_parse_fields(*fields) is Ok,
    ensures
        spec_parse_fields(*fields) == Ok::<_, ModelErrorV>(members_v(r@)),
{
    try_parse_fields(fields).unwrap()
}

/// The model that a struct declaration and the macro's arguments describe: its
/// C name is the struct's name behind `C`; it holds other models when some
/// member is one, and is written as hex when the arguments hold `hex`.
/// Declarations the macro refuses are left out (`try_parse` names them).
pub fn parse(args: &Vec<AttrToken>, item: &StructDecl) -> (r: Model)
    requires
        fields_idents_ok(item.fields),
        spec_parse(tokens_v(args@), *item) is Ok,
    ensures
        spec_parse(tokens_v(args@), *item) == Ok::<_, ModelErrorV>(r@),
{
    try_parse(args, item).unwrap()
}

} // verus!

verus! {

proof fn lemma_parse_type_number_named(ty: TypeExpr, attr: AttrV)
    requires
        type_idents_ok(ty),
    ensures
        spec_parse_type(ty, attr) matches Ok((MemberTypeV::Number { ty: t, .. }, _)) ==> t.len() > 0,
    decreases ty,
{
    match ty {
        TypeExpr::Path(ident, args) => {
            if ident@ == "Option"@ {
                match args {
                    PathArgs::Angle(Some(ga)) => match *ga {
                        GenericArg::Type(t) => lemma_parse_type_number_named(t, attr),
                        GenericArg::Other => {},
                    },
                    _ => {},
                }
            }
        },
        TypeExpr::Array(elem, _) => lemma_parse_type_number_named(*elem, attr),
        TypeExpr::Other => {},
    }
}

proof fn lemma_members(fs: Seq<FieldDecl>)
    requires
        forall|i: int| 0 <= i < fs.len() ==> field_idents_ok(#[trigger] fs[i]),
    ensures
        spec_parse_members(fs) matches Ok(ms) ==> ms.len() == fs.len() && crate::cs::numbers_named(ms)
            && forall|i: int| 0 <= i < fs.len() ==> spec_parse_member(#[trigger] fs[i]) == Ok::<_, ModelErrorV>(ms[i]),
    decreases fs.len(),
{
    if fs.len() > 0 {
        let pre = fs.drop_last();
        assert forall|i: int| 0 <= i < pre.len() implies field_idents_ok(#[trigger] pre[i]) by {
            assert(pre[i] == fs[i]);
        }
        lemma_members(pre);
        if let Ok(ms) = spec_parse_members(fs) {
            let pms = spec_parse_members(pre)->Ok_0;
            let f = fs.last();
            assert(field_idents_ok(fs[fs.len() - 1]));
            if let Ok(attr) = spec_parse_attrs(f.attrs@) {
                lemma_parse_type_number_named(f.ty, attr);
            }
            assert forall|i: int| 0 <= i < fs.len() implies spec_parse_member(#[trigger] fs[i]) == Ok::<
                _,
                ModelErrorV,
            >(ms[i]) by {
                if i < pre.len() {
                    assert(fs[i] == pre[i]);
                    assert(ms[i] == pms[i]);
                }
            }
            assert forall|i: int| 0 <= i < ms.len() implies (#[trigger] ms[i].ty matches MemberTypeV::Number {
                ty,
                ..
            } ==> ty.len() > 0) by {
                if i < pms.len() {
                    assert(ms[i] == pms[i]);
                }
            }
        }
    }
}

/// What a parsed model holds: one member per declared field, in order, each
/// the member that field declares (so a member is private exactly when its
/// name starts with `_`), then the `alive`, `edited` and `private` flags
/// exactly when a declared member is named `flag`; and every number member
/// names its type, as the text generators ask.
pub proof fn law_parse_members(args: Seq<TokenV>, item: StructDecl)
    requires
        fields_idents_ok(item.fields),
    ensures
        spec_parse(args, item) matches Ok(m) ==> {
            let declared = match item.fields {
                FieldsDecl::Named(v) => v@,
                _ => Seq::empty(),
            };
            let n = declared.len();
            &&& crate::cs::numbers_named(m.members)
            &&& m.members.len() == n + if has_flag_member(m.members.take(n as int)) { 3int } else { 0int }
            &&& forall|i: int|
                0 <= i < n ==> spec_parse_member(#[trigger] declared[i]) == Ok::<_, ModelErrorV>(m.members[i])
                    && m.members[i].private == (m.members[i].ident[0] == '_')
            &&& has_flag_member(m.members.take(n as int)) ==> m.members.skip(n as int) == flag_members()
        },
{
    if let Ok(m) = spec_parse(args, item) {
        match item.fields {
            FieldsDecl::Named(v) => {
                assert forall|i: int| 0 <= i < v@.len() implies field_idents_ok(#[trigger] v@[i]) by {}
                lemma_members(v@);
                let ms = spec_parse_members(v@)->Ok_0;
                assert(m.members.take(v@.len() as int) =~= ms);
                if has_flag_member(ms) {
                    assert(m.members.skip(v@.len() as int) =~= flag_members());
                }
                assert forall|i: int| 0 <= i < v@.len() implies spec_parse_member(#[trigger] v@[i]) == Ok::<
                    _,
                    ModelErrorV,
                >(m.members[i]) && m.members[i].private == (m.members[i].ident[0] == '_') by {
                    assert(m.members[i] == ms[i]);
                }
                assert forall|i: int| 0 <= i < m.members.len() implies (#[trigger] m.members[i].ty matches MemberTypeV::Number {
                    ty,
                    ..
                } ==> ty.len() > 0) by {
                    if i < ms.len() {
                        assert(m.members[i] == ms[i]);
                    }
                }
            },
            FieldsDecl::Unit => {
                assert(m.members.take(0) =~= Seq::<MemberV>::empty());
            },
            FieldsDecl::Unnamed => {},
        }
    }
}

/// A `u8` array under a `str` attribute is a text member as long as the
/// array, with no dimensions of its own, that keeps the attribute's validator
/// (or its absence) as it is, whatever the validator.
pub proof fn law_str_array_keeps_validator(elem: String, digits: String, validator: Option<Seq<TokenV>>, n: nat)
    requires
        elem@ == "u8"@,
        parse_unsigned(digits@, usize::MAX as nat) == Some(n),
    ensures
        spec_parse_type(
            TypeExpr::Array(Box::new(TypeExpr::Path(elem, PathArgs::Plain)), ArrayLen::Int(digits)),
            AttrV::Str { validator },
        ) == Ok::<_, ModelErrorV>((MemberTypeV::String { len: n as usize, validator }, None::<Seq<usize>>)),
{
    reveal_strlit("u8");
    reveal_strlit("Option");
    assert("u8"@.len() == 2);
    assert("Option"@.len() == 6);
    assert(elem@.len() == 2);
    assert(elem@ != "Option"@);
    assert(elem@[0] == 'u');
    assert(!uppercase(elem@[0]));
    let t = TypeExpr::Path(elem, PathArgs::Plain);
    assert(spec_parse_type(t, AttrV::Str { validator }) == Ok::<_, ModelErrorV>(
        (MemberTypeV::Number { ty: elem@, min: None, max: None, is_float: false }, None::<Seq<usize>>),
    ));
}

/// `#[str(validator = v)]` on a field asks for a text member validated by
/// exactly `v`, for any tokens `v` without a comma.
pub proof fn law_str_attr_validator(attrs: Seq<AttrMeta>, joint: bool, v: Seq<TokenV>)
    requires
        attrs.len() > 0,
        attrs[0] is List,
        attrs[0]->List_0@ == "str"@,
        tokens_v(attrs[0]->List_1@) == seq![TokenV::Ident("validator"@), TokenV::Punct('=', joint)] + v,
        forall|k: int| 0 <= k < v.len() ==> !is_punct(#[trigger] v[k], ','),
    ensures
        spec_parse_attrs(attrs) == Ok::<_, ModelErrorV>(AttrV::Str { validator: Some(v) }),
{
    let toks = seq![TokenV::Ident("validator"@), TokenV::Punct('=', joint)] + v;
    assert(toks[0] == TokenV::Ident("validator"@));
    assert(toks[1] == TokenV::Punct('=', joint));
    assert(toks.skip(2) =~= v);
    lemma_comma_index(v, v.len() as int);
    assert(v.take(v.len() as int) =~= v);
    assert(attr_values(Seq::<TokenV>::empty()) == Ok::<_, ModelErrorV>(Seq::<(Seq<char>, Seq<TokenV>)>::empty()));
    let vs = seq![("validator"@, v)];
    assert(attr_values(toks) == Ok::<_, ModelErrorV>(vs)) by {
        assert(seq![("validator"@, v.take(v.len() as int))] + Seq::<(Seq<char>, Seq<TokenV>)>::empty() =~= vs);
    }
    assert(first_value(vs, "validator"@) == Some(v));
}

/// A `u8` array is read by its attribute: text (keeping the validator), a big
/// integer or raw bytes as long as the array, an address only when four bytes
/// long; `int` is refused; under `flag` the array is an array of flag masks.
pub proof fn law_u8_array_by_attr(elem: String, digits: String, n: nat, attr: AttrV)
    requires
        elem@ == "u8"@,
        parse_unsigned(digits@, usize::MAX as nat) == Some(n),
    ensures
        ({
            let ty = TypeExpr::Array(Box::new(TypeExpr::Path(elem, PathArgs::Plain)), ArrayLen::Int(digits));
            let r = spec_parse_type(ty, attr);
            &&& attr is Str ==> r == Ok::<_, ModelErrorV>(
                (MemberTypeV::String { len: n as usize, validator: attr->Str_validator }, None::<Seq<usize>>),
            )
            &&& attr is BigInt ==> r == Ok::<_, ModelErrorV>((MemberTypeV::BigInt { len: n as usize }, None::<Seq<usize>>))
            &&& attr is Non ==> r == Ok::<_, ModelErrorV>((MemberTypeV::Bytes { len: n as usize }, None::<Seq<usize>>))
            &&& (attr is Ip4 && n == 4) ==> r == Ok::<_, ModelErrorV>((MemberTypeV::Ipv4, None::<Seq<usize>>))
            &&& (attr is Ip4 && n != 4) ==> r == Err::<(MemberTypeV, Option<Seq<usize>>), _>(ModelErrorV::Ipv4Length)
            &&& attr is Int ==> r == Err::<(MemberTypeV, Option<Seq<usize>>), _>(ModelErrorV::UnsupportedByteArrayAttr)
            &&& attr is Flg ==> r == Ok::<_, ModelErrorV>((MemberTypeV::Flag { fl: "u8"@ }, Some(seq![n as usize])))
        }),
{
    reveal_strlit("u8");
    reveal_strlit("Option");
    assert("u8"@.len() == 2);
    assert("Option"@.len() == 6);
    assert(elem@ != "Option"@);
    assert(elem@[0] == 'u');
    assert(!uppercase(elem@[0]));
    let t = TypeExpr::Path(elem, PathArgs::Plain);
    if attr is Flg {
        assert(spec_parse_type(t, attr) == Ok::<_, ModelErrorV>((MemberTypeV::Flag { fl: elem@ }, None::<Seq<usize>>)));
        assert(seq![n as usize] + Seq::<usize>::empty() =~= seq![n as usize]);
    } else {
        let min = if attr is Int { attr->Int_min } else { None };
        let max = if attr is Int { attr->Int_max } else { None };
        assert(spec_parse_type(t, attr) == Ok::<_, ModelErrorV>(
            (MemberTypeV::Number { ty: elem@, min, max, is_float: false }, None::<Seq<usize>>),
        ));
    }
}

/// An array of anything but `u8` numbers keeps its element's member type and
/// puts its own length in front of the element's dimensions: `[[T; a]; b]` has
/// dimensions `b, a`.
pub proof fn law_array_dims_outer_first(elem: TypeExpr, digits: String, n: nat, attr: AttrV)
    requires
        parse_unsigned(digits@, usize::MAX as nat) == Some(n),
        spec_parse_type(elem, attr) is Ok,
        !((spec_parse_type(elem, attr)->Ok_0).0 is Number && (spec_parse_type(elem, attr)->Ok_0).0->Number_ty
            == "u8"@),
    ensures
        spec_parse_type(TypeExpr::Array(Box::new(elem), ArrayLen::Int(digits)), attr) == Ok::<_, ModelErrorV>(
            (
                (spec_parse_type(elem, attr)->Ok_0).0,
                Some(seq![n as usize] + crate::cs::dims_of((spec_parse_type(elem, attr)->Ok_0).1)),
            ),
        ),
{
}

/// `Option<T>` is the member type of `T`, made optional when `T` is a model;
/// what `T` is refused for, `Option<T>` is refused for.
pub proof fn law_option(opt: String, t: TypeExpr, attr: AttrV)
    requires
        opt@ == "Option"@,
    ensures
        ({
            let o = TypeExpr::Path(opt, PathArgs::Angle(Some(Box::new(GenericArg::Type(t)))));
            match spec_parse_type(t, attr) {
                Err(e) => spec_parse_type(o, attr) == Err::<(MemberTypeV, Option<Seq<usize>>), _>(e),
                Ok((mt, arr)) => spec_parse_type(o, attr) == Ok::<_, ModelErrorV>(
                    (
                        if mt is Model {
                            MemberTypeV::Model { ty: mt->Model_ty, cty: mt->Model_cty, optional: true }
                        } else {
                            mt
                        },
                        arr,
                    ),
                ),
            }
        }),
{
}

} // verus!
