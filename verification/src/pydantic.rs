use vstd::prelude::*;
use vstd::string::StringExecFns;
use crate::model::{AttrToken, Member, MemberType, MemberTypeV, MemberV, Model, ModelV, TokenV, members_v, opt_tokens_v};
use crate::render::{rep, push_rep, tokens_text, push_tokens};
use crate::cs::{GenError, dims_of};
use crate::text::{dec, push_dec, first_char, push_str_from};

verus! {

/// The default bound of a number type with no bound given: `lower` picks the
/// lower one. Types that start with `u` are bounded by `-1` and `1 << bits`,
/// those that start with `i` by `-(1 << bits) - 1` and `1 << (bits - 1)`,
/// where `bits` is the type without its first letter.
pub open spec fn default_bound(ty: Seq<char>, lower: bool) -> Result<Seq<char>, GenError> {
    let t = ty[0];
    let s = ty.drop_first();
    if t == 'u' {
        Ok(if lower { "-1"@ } else { "1 << "@ + s })
    } else if t == 'i' {
        Ok(if lower { "-(1 << "@ + s + ") - 1"@ } else { "1 << ("@ + s + " - 1)"@ })
    } else if t == 'f' {
        Err(GenError::NoMinMaxForFloats)
    } else {
        Err(GenError::InvalidNumberType)
    }
}

/// A bound: the given tokens' text, or the type's default.
pub open spec fn bound(given: Option<Seq<TokenV>>, ty: Seq<char>, lower: bool) -> Result<Seq<char>, GenError> {
    match given {
        Some(g) => Ok(tokens_text(g)),
        None => default_bound(ty, lower),
    }
}

/// The exclusive bounds of an integer member for pydantic.
pub open spec fn spec_min_max(min: Option<Seq<TokenV>>, max: Option<Seq<TokenV>>, ty: Seq<char>) -> Result<
    (Seq<char>, Seq<char>),
    GenError,
> {
    match bound(min, ty, true) {
        Err(e) => Err(e),
        Ok(mn) => match bound(max, ty, false) {
            Err(e) => Err(e),
            Ok(mx) => Ok((mn, mx)),
        },
    }
}

fn bound_text(given: &Option<Vec<AttrToken>>, ty: &String, lower: bool) -> (r: Result<String, GenError>)
    requires
        ty@.len() > 0,
    ensures
        match r {
            Ok(t) => bound(opt_tokens_v(*given), ty@, lower) == Ok::<_, GenError>(t@),
            Err(e) => bound(opt_tokens_v(*given), ty@, lower) == Err::<Seq<char>, _>(e),
        },
{
    match given {
        Some(g) => {
            let mut t = String::new();
            push_tokens(&mut t, g);
            assert(t@ =~= tokens_text(crate::model::tokens_v(g@)));
            Ok(t)
        },
        None => {
            let c = first_char(ty);
            if c == 'u' {
                if lower {
                    Ok("-1".to_owned())
                } else {
                    let mut t = "1 << ".to_owned();
                    push_str_from(&mut t, ty.as_str(), 1);
                    Ok(t)
                }
            } else if c == 'i' {
                let mut t = if lower { "-(1 << ".to_owned() } else { "1 << (".to_owned() };
                push_str_from(&mut t, ty.as_str(), 1);
                if lower {
                    t.append(") - 1");
                } else {
                    t.append(" - 1)");
                }
                Ok(t)
            } else if c == 'f' {
                Err(GenError::NoMinMaxForFloats)
            } else {
                Err(GenError::InvalidNumberType)
            }
        },
    }
}

/// The exclusive bounds that pydantic gives an integer member, or why the
/// type has none.
fn try_min_max(min: &Option<Vec<AttrToken>>, max: &Option<Vec<AttrToken>>, ty: &String) -> (r: Result<
    (String, String),
    GenError,
>)
    requires
        ty@.len() > 0,
    ensures
        match r {
            Ok((a, b)) => spec_min_max(opt_tokens_v(*min), opt_tokens_v(*max), ty@) == Ok::<_, GenError>((a@, b@)),
            Err(e) => spec_min_max(opt_tokens_v(*min), opt_tokens_v(*max), ty@) == Err::<(Seq<char>, Seq<char>), _>(e),
        },
{
    let mn = match bound_text(min, ty, true) {
        Err(e) => {
            return Err(e);
        },
        Ok(t) => t,
    };
    let mx = match bound_text(max, ty, false) {
        Err(e) => {
            return Err(e);
        },
        Ok(t) => t,
    };
    Ok((mn, mx))
}

/// The exclusive bounds that pydantic gives an integer member: each given
/// bound's text, else the default of a `u` or `i` type. A missing bound of any
/// other type (a float among them) is refused by the macro, which panics; such
/// inputs are left out here.
pub fn min_max(min: &Option<Vec<AttrToken>>, max: &Option<Vec<AttrToken>>, ty: &String) -> (r: (String, String))
    requires
        ty@.len() > 0,
        spec_min_max(opt_tokens_v(*min), opt_tokens_v(*max), ty@) is Ok,
    ensures
        spec_min_max(opt_tokens_v(*min), opt_tokens_v(*max), ty@) == Ok::<_, GenError>((r.0@, r.1@)),
{
    try_min_max(min, max, ty).unwrap()
}

/// The pydantic type of one element of a member.
pub open spec fn pyd_base(mt: MemberTypeV) -> Result<Seq<char>, GenError> {
    match mt {
        MemberTypeV::Number { ty, min, max, is_float } => if is_float {
            Ok(
                "pydantic.confloat("@ + (match min {
                    Some(g) => "gt="@ + tokens_text(g) + ","@,
                    None => Seq::empty(),
                }) + (match max {
                    Some(g) => "lt="@ + tokens_text(g),
                    None => Seq::empty(),
                }) + ")"@,
            )
        } else {
            match spec_min_max(min, max, ty) {
                Err(e) => Err(e),
                Ok((a, b)) => Ok("pydantic.conint(gt="@ + a + ", lt="@ + b + ")"@),
            }
        },
        MemberTypeV::String { len, .. } => Ok("pydantic.constr(max_length="@ + dec(len as nat) + ")"@),
        MemberTypeV::Bytes { len } => Ok(
            "pydantic.constr(min_length="@ + dec(2 * len as nat) + ", max_length="@ + dec(2 * len as nat) + ")"@,
        ),
        MemberTypeV::BigInt { .. } => Ok("str"@),
        MemberTypeV::Model { ty, optional, .. } => Ok(
            ty + "Model"@ + if optional { " | None"@ } else { Seq::empty() },
        ),
        MemberTypeV::Ipv4 => Ok("str"@),
        MemberTypeV::Flag { .. } => Ok("bool"@),
    }
}

/// What closes one `pydantic.conlist(` of dimension `d`.
pub open spec fn list_suffix(d: usize) -> Seq<char> {
    ", min_length="@ + dec(d as nat) + ", max_length="@ + dec(d as nat) + ")"@
}

/// What closes the `pydantic.conlist(`s of the dimensions, innermost first.
pub open spec fn list_suffixes(dims: Seq<usize>) -> Seq<char>
    decreases dims.len(),
{
    if dims.len() == 0 {
        Seq::empty()
    } else {
        list_suffixes(dims.drop_first()) + list_suffix(dims[0])
    }
}

/// The pydantic type of a member: its element type inside one
/// `pydantic.conlist(.., min_length=d, max_length=d)` per dimension `d`,
/// the outermost dimension outside.
pub open spec fn pyd_type(m: MemberV) -> Result<Seq<char>, GenError> {
    let d = dims_of(m.arr);
    match pyd_base(m.ty) {
        Err(e) => Err(e),
        Ok(b) => Ok(rep("pydantic.conlist("@, d.len()) + b + list_suffixes(d)),
    }
}

/// The field lines of the public members, in order.
pub open spec fn pyd_lines(ms: Seq<MemberV>) -> Result<Seq<char>, GenError>
    decreases ms.len(),
{
    if ms.len() == 0 {
        Ok(Seq::empty())
    } else {
        match pyd_lines(ms.drop_last()) {
            Err(e) => Err(e),
            Ok(t) => if ms.last().private {
                Ok(t)
            } else {
                match pyd_type(ms.last()) {
                    Err(e) => Err(e),
                    Ok(ty) => Ok(t + "    "@ + ms.last().ident + ": "@ + ty + "\n"@),
                }
            },
        }
    }
}

/// The pydantic class of a model that is not written as hex.
pub open spec fn spec_pydantic_class(m: ModelV) -> Result<Seq<char>, GenError> {
    match pyd_lines(m.members) {
        Err(e) => Err(e),
        Ok(lines) => Ok("class "@ + m.ident + "Model(pydantic.BaseModel):\n"@ + lines),
    }
}

/// The pydantic type of a model written as hex: a string of exactly twice its
/// size in characters.
pub open spec fn spec_pydantic_hex(ident: Seq<char>, size: nat) -> Seq<char> {
    ident + "Model = pydantic.constr(min_length="@ + dec(2 * size) + ", max_length="@ + dec(2 * size) + ")"@
}

/// The pydantic definition of a model of C size `size`.
pub open spec fn spec_pydantic(m: ModelV, size: nat) -> Result<Seq<char>, GenError> {
    if m.hexable {
        Ok(spec_pydantic_hex(m.ident, size))
    } else {
        spec_pydantic_class(m)
    }
}

fn push_float_type(s: &mut String, min: &Option<Vec<AttrToken>>, max: &Option<Vec<AttrToken>>)
    ensures
        final(s)@ == old(s)@ + "pydantic.confloat("@ + (match opt_tokens_v(*min) {
            Some(g) => "gt="@ + tokens_text(g) + ","@,
            None => Seq::empty(),
        }) + (match opt_tokens_v(*max) {
            Some(g) => "lt="@ + tokens_text(g),
            None => Seq::empty(),
        }) + ")"@,
{
    let mut t = "pydantic.confloat(".to_owned();
    match min {
        Some(g) => {
            t.append("gt=");
            push_tokens(&mut t, g);
            t.append(",");
        },
        None => {},
    }
    match max {
        Some(g) => {
            t.append("lt=");
            push_tokens(&mut t, g);
        },
        None => {},
    }
    t.append(")");
    assert(t@ =~= "pydantic.confloat("@ + (match opt_tokens_v(*min) {
        Some(g) => "gt="@ + tokens_text(g) + ","@,
        None => Seq::empty(),
    }) + (match opt_tokens_v(*max) {
        Some(g) => "lt="@ + tokens_text(g),
        None => Seq::empty(),
    }) + ")"@);
    s.append(t.as_str());
}

fn pyd_base_text(mt: &MemberType) -> (r: Result<String, GenError>)
    requires
        mt@ matches MemberTypeV::Number { ty, .. } ==> ty.len() > 0,
    ensures
        match r {
            Ok(t) => pyd_base(mt@) == Ok::<_, GenError>(t@),
            Err(e) => pyd_base(mt@) == Err::<Seq<char>, _>(e),
        },
{
    match mt {
        MemberType::Number { ty, min, max, is_float } => {
            if *is_float {
                let mut t = String::new();
                push_float_type(&mut t, min, max);
                assert(t@ =~= pyd_base(mt@)->Ok_0);
                Ok(t)
            } else {
                let (a, b) = match try_min_max(min, max, ty) {
                    Err(e) => {
                        return Err(e);
                    },
                    Ok(x) => x,
                };
                let mut t = "pydantic.conint(gt=".to_owned();
                t.append(a.as_str());
                t.append(", lt=");
                t.append(b.as_str());
                t.append(")");
                assert(t@ =~= pyd_base(mt@)->Ok_0);
                Ok(t)
            }
        },
        MemberType::String { len, .. } => {
            let mut t = "pydantic.constr(max_length=".to_owned();
            push_dec(&mut t, *len as u128);
            t.append(")");
            Ok(t)
        },
        MemberType::Bytes { len } => {
            let d: u128 = 2 * (*len as u128);
            let mut t = "pydantic.constr(min_length=".to_owned();
            push_dec(&mut t, d);
            t.append(", max_length=");
            push_dec(&mut t, d);
            t.append(")");
            Ok(t)
        },
        MemberType::BigInt { .. } => Ok("str".to_owned()),
        MemberType::Model { ty, optional, .. } => {
            let mut t = ty.clone();
            t.append("Model");
            if *optional {
                t.append(" | None");
            } else {
                assert(t@ + Seq::<char>::empty() =~= t@);
            }
            Ok(t)
        },
        MemberType::Ipv4 => Ok("str".to_owned()),
        MemberType::Flag { .. } => Ok("bool".to_owned()),
    }
}

/// Appends the pydantic type of a member.
fn push_pyd_type(s: &mut String, m: &Member) -> (r: Result<(), GenError>)
    requires
        m@.ty matches MemberTypeV::Number { ty, .. } ==> ty.len() > 0,
    ensures
        match r {
            Ok(()) => pyd_type(m@) matches Ok(t) && final(s)@ == old(s)@ + t,
            Err(e) => pyd_type(m@) == Err::<Seq<char>, _>(e),
        },
{
    let b = match pyd_base_text(&m.ty) {
        Err(e) => {
            return Err(e);
        },
        Ok(b) => b,
    };
    let empty: Vec<usize> = Vec::new();
    let dims: &Vec<usize> = match &m.arr {
        Some(d) => d,
        None => &empty,
    };
    assert(dims@ == dims_of(m@.arr));
    let k = dims.len();
    let mut t = String::new();
    push_rep(&mut t, "pydantic.conlist(", k);
    t.append(b.as_str());
    let ghost pre = t@;
    let mut j = k;
    assert(dims@.skip(k as int) =~= Seq::<usize>::empty());
    assert(pre + list_suffixes(dims@.skip(k as int)) =~= pre);
    while j > 0
        invariant
            j <= k,
            k == dims@.len(),
            t@ == pre + list_suffixes(dims@.skip(j as int)),
        decreases j,
    {
        assert(dims@.skip(j - 1).drop_first() =~= dims@.skip(j as int));
        assert(dims@.skip(j - 1)[0] == dims@[j - 1]);
        let d = dims[j - 1];
        t.append(", min_length=");
        push_dec(&mut t, d as u128);
        t.append(", max_length=");
        push_dec(&mut t, d as u128);
        t.append(")");
        j = j - 1;
        assert(t@ =~= pre + list_suffixes(dims@.skip(j as int)));
    }
    assert(dims@.skip(0) =~= dims@);
    s.append(t.as_str());
    assert(s@ =~= old(s)@ + pyd_type(m@)->Ok_0);
    Ok(())
}

proof fn lemma_pyd_lines_err(ms: Seq<MemberV>, j: int)
    requires
        0 <= j <= ms.len(),
        pyd_lines(ms.take(j)) is Err,
    ensures
        pyd_lines(ms) == pyd_lines(ms.take(j)),
    decreases ms.len() - j,
{
    if j < ms.len() {
        assert(ms.take(j + 1).drop_last() =~= ms.take(j));
        lemma_pyd_lines_err(ms, j + 1);
    } else {
        assert(ms.take(j) =~= ms);
    }
}

/// The pydantic class of a model, or why the macro refuses it (a number type
/// without a bound whose default cannot be told).
pub fn try_pydantic_class(model: &Model) -> (r: Result<String, GenError>)
    requires
        crate::cs::numbers_named(model@.members),
    ensures
        match r {
            Ok(s) => spec_pydantic_class(model@) == Ok::<_, GenError>(s@),
            Err(e) => spec_pydantic_class(model@) == Err::<Seq<char>, _>(e),
        },
{
    let ghost ms = model@.members;
    let mut result = "class ".to_owned();
    result.append(model.ident.as_str());
    result.append("Model(pydantic.BaseModel):\n");
    let ghost head = result@;
    let mut i: usize = 0;
    assert(ms.take(0) =~= Seq::<MemberV>::empty());
    assert(head + Seq::<char>::empty() =~= head);
    while i < model.members.len()
        invariant
            i <= ms.len(),
            ms == members_v(model.members@),
            crate::cs::numbers_named(ms),
            pyd_lines(ms.take(i as int)) matches Ok(t) && result@ == head + t,
        decreases model.members.len() - i,
    {
        assert(ms.take(i + 1).drop_last() =~= ms.take(i as int));
        assert(ms.take(i + 1).last() == ms[i as int]);
        assert(ms[i as int] == model.members@[i as int]@);
        let m = &model.members[i];
        if !m.private {
            let mut line = "    ".to_owned();
            line.append(m.ident.as_str());
            line.append(": ");
            match push_pyd_type(&mut line, m) {
                Err(e) => {
                    proof {
                        lemma_pyd_lines_err(ms, i + 1);
                    }
                    return Err(e);
                },
                Ok(()) => {},
            }
            line.append("\n");
            result.append(line.as_str());
            assert(result@ =~= head + pyd_lines(ms.take(i + 1))->Ok_0);
        }
        i = i + 1;
    }
    assert(ms.take(i as int) =~= ms);
    Ok(result)
}

/// The pydantic type of a model written as hex.
pub fn pydantic_hex(ident: &str, size: usize) -> (r: String)
    ensures
        r@ == spec_pydantic_hex(ident@, size as nat),
{
    let d: u128 = 2 * (size as u128);
    let mut t = ident.to_owned();
    t.append("Model = pydantic.constr(min_length=");
    push_dec(&mut t, d);
    t.append(", max_length=");
    push_dec(&mut t, d);
    t.append(")");
    t
}

/// The pydantic definition of a model whose C struct takes `size` bytes, or
/// why the macro refuses it.
pub fn try_pydantic(model: &Model, size: usize) -> (r: Result<String, GenError>)
    requires
        crate::cs::numbers_named(model@.members),
    ensures
        match r {
            Ok(s) => spec_pydantic(model@, size as nat) == Ok::<_, GenError>(s@),
            Err(e) => spec_pydantic(model@, size as nat) == Err::<Seq<char>, _>(e),
        },
{
    if model.hexable {
        Ok(pydantic_hex(model.ident.as_str(), size))
    } else {
        try_pydantic_class(model)
    }
}

/// The pydantic class of a model: one constrained field per public member.
/// A number member without a bound whose type is neither `u..` nor `i..` is
/// refused by the macro, which panics; such models are left out here
/// (`try_pydantic_class` names them).
pub fn pydantic_class(model: &Model) -> (r: String)
    requires
        crate::cs::numbers_named(model@.members),
        spec_pydantic_class(model@) is Ok,
    ensures
        spec_pydantic_class(model@) == Ok::<_, GenError>(r@),
{
    try_pydantic_class(model).unwrap()
}

/// The pydantic definition of a model whose C struct takes `size` bytes: a
/// hex string type for a model written as hex, else a class. Models the macro
/// refuses are left out (`try_pydantic` names them).
pub fn pydantic(model: &Model, size: usize) -> (r: String)
    requires
        crate::cs::numbers_named(model@.members),
        spec_pydantic(model@, size as nat) is Ok,
    ensures
        spec_pydantic(model@, size as nat) == Ok::<_, GenError>(r@),
{
    try_pydantic(model, size).unwrap()
}

} // verus!
