use vstd::prelude::*;
use vstd::string::StringExecFns;
use crate::model::{Member, MemberType, MemberTypeV, MemberV, Model, members_v};
use crate::render::{rep, push_rep};
use crate::cs::dims_of;
use crate::text::{dec, push_dec};

verus! {

/// What closes the `[`s of a Rust array type, innermost dimension first.
pub open spec fn array_suffixes(dims: Seq<usize>) -> Seq<char>
    decreases dims.len(),
{
    if dims.len() == 0 {
        Seq::empty()
    } else {
        array_suffixes(dims.drop_first()) + "; "@ + dec(dims[0] as nat) + "]"@
    }
}

/// A Rust element type inside one array per dimension, the outermost first:
/// `[[t; d2]; d1]` for dimensions `d1, d2`.
pub open spec fn rust_array(t: Seq<char>, dims: Seq<usize>) -> Seq<char> {
    rep("["@, dims.len()) + t + array_suffixes(dims)
}

/// The Rust type of one element of a member in the C struct; none for a flag,
/// which is a bit of `flag`.
pub open spec fn c_elem_type(mt: MemberTypeV) -> Option<Seq<char>> {
    match mt {
        MemberTypeV::Number { ty, .. } => Some(ty),
        MemberTypeV::BigInt { len } => Some("[u8; "@ + dec(len as nat) + "]"@),
        MemberTypeV::Bytes { len } => Some("[u8; "@ + dec(len as nat) + "]"@),
        MemberTypeV::String { len, .. } => Some("[u8; "@ + dec(len as nat) + "]"@),
        MemberTypeV::Model { cty, .. } => Some(cty),
        MemberTypeV::Ipv4 => Some("[u8; 4]"@),
        MemberTypeV::Flag { .. } => None,
    }
}

/// The Rust type of one element of a member in the Python class; none for a
/// flag.
pub open spec fn py_elem_type(mt: MemberTypeV) -> Option<Seq<char>> {
    match mt {
        MemberTypeV::Number { ty, .. } => Some(ty),
        MemberTypeV::BigInt { len } => Some("[u8; "@ + dec(len as nat) + "]"@),
        MemberTypeV::Bytes { len } => Some("[u8; "@ + dec(len as nat) + "]"@),
        MemberTypeV::String { .. } => Some("String"@),
        MemberTypeV::Model { ty, optional, .. } => Some(
            if optional {
                "Option<::pyo3::Py<"@ + ty + ">>"@
            } else {
                "::pyo3::Py<"@ + ty + ">"@
            },
        ),
        MemberTypeV::Ipv4 => Some("[u8; 4]"@),
        MemberTypeV::Flag { .. } => None,
    }
}

/// The Rust type of a member in the C struct.
pub open spec fn spec_c_field_type(m: MemberV) -> Option<Seq<char>> {
    match c_elem_type(m.ty) {
        Some(t) => Some(rust_array(t, dims_of(m.arr))),
        None => None,
    }
}

/// The Rust type of a member in the Python class: none for a private member
/// or a flag.
pub open spec fn spec_py_field_type(m: MemberV) -> Option<Seq<char>> {
    if m.private {
        None
    } else {
        match py_elem_type(m.ty) {
            Some(t) => Some(rust_array(t, dims_of(m.arr))),
            None => None,
        }
    }
}

fn bytes_type(len: usize) -> (r: String)
    ensures
        r@ == "[u8; "@ + dec(len as nat) + "]"@,
{
    let mut t = "[u8; ".to_owned();
    push_dec(&mut t, len as u128);
    t.append("]");
    t
}

fn wrap_array(t: String, arr: &Option<Vec<usize>>) -> (r: String)
    ensures
        r@ == rust_array(t@, dims_of(crate::model::opt_dims_v(*arr))),
{
    let empty: Vec<usize> = Vec::new();
    let dims: &Vec<usize> = match arr {
        Some(d) => d,
        None => &empty,
    };
    let k = dims.len();
    let mut r = String::new();
    push_rep(&mut r, "[", k);
    r.append(t.as_str());
    let ghost pre = r@;
    let mut j = k;
    assert(dims@.skip(k as int) =~= Seq::<usize>::empty());
    assert(pre + array_suffixes(dims@.skip(k as int)) =~= pre);
    while j > 0
        invariant
            j <= k,
            k == dims@.len(),
            r@ == pre + array_suffixes(dims@.skip(j as int)),
        decreases j,
    {
        assert(dims@.skip(j - 1).drop_first() =~= dims@.skip(j as int));
        assert(dims@.skip(j - 1)[0] == dims@[j - 1]);
        r.append("; ");
        push_dec(&mut r, dims[j - 1] as u128);
        r.append("]");
        j = j - 1;
        assert(r@ =~= pre + array_suffixes(dims@.skip(j as int)));
    }
    assert(dims@.skip(0) =~= dims@);
    assert(r@ =~= rust_array(t@, dims@));
    r
}

/// The Rust type of a member in the C struct: its element type inside one
/// array per dimension; none for a flag.
pub fn c_field_type(m: &Member) -> (r: Option<String>)
    ensures
        match r {
            Some(t) => spec_c_field_type(m@) == Some(t@),
            None => spec_c_field_type(m@) is None,
        },
{
    let t = match &m.ty {
        MemberType::Number { ty, .. } => ty.clone(),
        MemberType::BigInt { len } => bytes_type(*len),
        MemberType::Bytes { len } => bytes_type(*len),
        MemberType::String { len, .. } => bytes_type(*len),
        MemberType::Model { cty, .. } => cty.clone(),
        MemberType::Ipv4 => "[u8; 4]".to_owned(),
        MemberType::Flag { .. } => {
            return None;
        },
    };
    Some(wrap_array(t, &m.arr))
}

/// The Rust type of a member in the Python class: its element type inside one
/// array per dimension; none for a private member or a flag.
pub fn py_field_type(m: &Member) -> (r: Option<String>)
    ensures
        match r {
            Some(t) => spec_py_field_type(m@) == Some(t@),
            None => spec_py_field_type(m@) is None,
        },
{
    if m.private {
        return None;
    }
    let t = match &m.ty {
        MemberType::Number { ty, .. } => ty.clone(),
        MemberType::BigInt { len } => bytes_type(*len),
        MemberType::Bytes { len } => bytes_type(*len),
        MemberType::String { .. } => "String".to_owned(),
        MemberType::Model { ty, optional, .. } => {
            let mut t = if *optional { "Option<::pyo3::Py<".to_owned() } else { "::pyo3::Py<".to_owned() };
            t.append(ty.as_str());
            if *optional {
                t.append(">>");
            } else {
                t.append(">");
            }
            t
        },
        MemberType::Ipv4 => "[u8; 4]".to_owned(),
        MemberType::Flag { .. } => {
            return None;
        },
    };
    Some(wrap_array(t, &m.arr))
}

/// Whether a private member can be kept: only numbers and bytes can.
pub open spec fn private_ok(m: MemberV) -> bool {
    m.private ==> (m.ty is Number || m.ty is Bytes)
}

/// The first member that is private and neither a number nor bytes, if any:
/// the C struct fills private members with zeros, which only numbers and bytes
/// allow.
pub fn invalid_private_member(model: &Model) -> (r: Option<usize>)
    ensures
        match r {
            Some(i) => i < model@.members.len() && !private_ok(model@.members[i as int]) && forall|k: int|
                0 <= k < i ==> private_ok(#[trigger] model@.members[k]),
            None => forall|k: int| 0 <= k < model@.members.len() ==> private_ok(#[trigger] model@.members[k]),
        },
{
    let ghost ms = model@.members;
    let mut i: usize = 0;
    while i < model.members.len()
        invariant
            i <= ms.len(),
            ms == members_v(model.members@),
            forall|k: int| 0 <= k < i ==> private_ok(#[trigger] ms[k]),
        decreases model.members.len() - i,
    {
        assert(ms[i as int] == model.members@[i as int]@);
        let m = &model.members[i];
        if m.private && !matches!(m.ty, MemberType::Number { .. }) && !matches!(m.ty, MemberType::Bytes { .. }) {
            return Some(i);
        }
        i = i + 1;
    }
    None
}

} // verus!
