use vstd::prelude::*;
use crate::model::{Member, MemberType, MemberTypeV, MemberV, Model, ModelV, members_v};
use crate::layout::{FieldShape, Layout, c_layout, offsets, struct_size, struct_align};
use crate::cs::dims_of;
use crate::text::str_eq;

verus! {

/// Why the C layout of a model cannot be told.
#[derive(Debug, PartialEq, Eq, Structural)]
pub enum ShapeError {
    /// A number type or a model whose shape is not given.
    UnknownType,
    /// A size that does not fit in `usize`.
    Overflow,
}

/// The shape registered for a type's name: the first entry with that name.
pub open spec fn lookup(reg: Seq<(Seq<char>, FieldShape)>, name: Seq<char>) -> Option<FieldShape>
    decreases reg.len(),
{
    if reg.len() == 0 {
        None
    } else if reg[0].0 == name {
        Some(reg[0].1)
    } else {
        lookup(reg.drop_first(), name)
    }
}

/// The size and alignment of one element of a stored member.
pub open spec fn elem_shape(mt: MemberTypeV, reg: Seq<(Seq<char>, FieldShape)>) -> Option<(nat, nat)> {
    match mt {
        MemberTypeV::Number { ty, .. } => match lookup(reg, ty) {
            Some(s) => Some((s.size as nat, s.align as nat)),
            None => None,
        },
        MemberTypeV::BigInt { len } => Some((len as nat, 1)),
        MemberTypeV::Bytes { len } => Some((len as nat, 1)),
        MemberTypeV::String { len, .. } => Some((len as nat, 1)),
        MemberTypeV::Ipv4 => Some((4, 1)),
        MemberTypeV::Model { ty, .. } => match lookup(reg, ty) {
            Some(s) => Some((s.size as nat, s.align as nat)),
            None => None,
        },
        MemberTypeV::Flag { .. } => None,
    }
}

/// The number of elements of an array of the given dimensions.
pub open spec fn count(dims: Seq<usize>) -> nat
    decreases dims.len(),
{
    if dims.len() == 0 {
        1
    } else {
        (dims[0] as nat) * count(dims.drop_first())
    }
}

/// Whether some array type, from the innermost out, is too large: an element
/// of `s` bytes under the dimensions from `j` on takes more than `usize::MAX`.
pub open spec fn too_large(s: nat, dims: Seq<usize>) -> bool {
    exists|j: int| 0 <= j <= dims.len() && #[trigger] (s * count(dims.skip(j))) > usize::MAX
}

/// The shape of a stored member, none for a flag.
pub open spec fn spec_member_shape(m: MemberV, reg: Seq<(Seq<char>, FieldShape)>) -> Result<
    Option<FieldShape>,
    ShapeError,
> {
    if m.ty is Flag {
        Ok(None)
    } else {
        match elem_shape(m.ty, reg) {
            None => Err(ShapeError::UnknownType),
            Some((s, a)) => if too_large(s, dims_of(m.arr)) {
                Err(ShapeError::Overflow)
            } else {
                Ok(Some(FieldShape { size: (s * count(dims_of(m.arr))) as usize, align: a as usize }))
            },
        }
    }
}

/// The view of a registry.
pub open spec fn reg_v(reg: Seq<(String, FieldShape)>) -> Seq<(Seq<char>, FieldShape)> {
    reg.map_values(|e: (String, FieldShape)| (e.0@, e.1))
}

fn lookup_exec(reg: &Vec<(String, FieldShape)>, name: &String) -> (r: Option<FieldShape>)
    ensures
        r == lookup(reg_v(reg@), name@),
{
    let ghost rv = reg_v(reg@);
    let mut i: usize = 0;
    assert(rv.skip(0) =~= rv);
    while i < reg.len()
        invariant
            i <= reg@.len(),
            rv == reg_v(reg@),
            lookup(rv, name@) == lookup(rv.skip(i as int), name@),
        decreases reg.len() - i,
    {
        assert(rv.skip(i as int)[0] == rv[i as int]);
        if str_eq(reg[i].0.as_str(), name.as_str()) {
            return Some(reg[i].1);
        }
        assert(rv.skip(i as int).drop_first() =~= rv.skip(i + 1));
        i = i + 1;
    }
    assert(rv.skip(i as int).len() == 0);
    None
}

/// The size and alignment of a stored member of a C struct, given the shapes
/// of the number types and models it may hold (`reg`, by name); no shape for a
/// flag, which is not stored.
pub fn member_shape(m: &Member, reg: &Vec<(String, FieldShape)>) -> (r: Result<Option<FieldShape>, ShapeError>)
    ensures
        r == spec_member_shape(m@, reg_v(reg@)),
{
    let (s, a): (usize, usize) = match &m.ty {
        MemberType::Flag { .. } => {
            return Ok(None);
        },
        MemberType::Number { ty, .. } => match lookup_exec(reg, ty) {
            Some(f) => (f.size, f.align),
            None => {
                return Err(ShapeError::UnknownType);
            },
        },
        MemberType::BigInt { len } => (*len, 1),
        MemberType::Bytes { len } => (*len, 1),
        MemberType::String { len, .. } => (*len, 1),
        MemberType::Ipv4 => (4, 1),
        MemberType::Model { ty, .. } => match lookup_exec(reg, ty) {
            Some(f) => (f.size, f.align),
            None => {
                return Err(ShapeError::UnknownType);
            },
        },
    };
    let empty: Vec<usize> = Vec::new();
    let dims: &Vec<usize> = match &m.arr {
        Some(d) => d,
        None => &empty,
    };
    assert(dims@ == dims_of(m@.arr));
    let n = dims.len();
    let mut total: usize = s;
    let mut i: usize = n;
    assert(dims@.skip(n as int) =~= Seq::<usize>::empty());
    assert(s as nat * count(Seq::<usize>::empty()) == s) by (nonlinear_arith);
    while i > 0
        invariant
            i <= n,
            n == dims@.len(),
            dims@ == dims_of(m@.arr),
            !(m@.ty is Flag),
            elem_shape(m@.ty, reg_v(reg@)) == Some((s as nat, a as nat)),
            total as nat == s as nat * count(dims@.skip(i as int)),
            forall|j: int| i <= j <= n ==> #[trigger] (s as nat * count(dims@.skip(j))) <= usize::MAX,
        decreases i,
    {
        assert(dims@.skip(i - 1).drop_first() =~= dims@.skip(i as int));
        assert(dims@.skip(i - 1)[0] == dims@[i - 1]);
        let d = dims[i - 1];
        assert(s as nat * count(dims@.skip(i - 1)) == (total as nat) * (d as nat)) by (nonlinear_arith)
            requires
                total as nat == s as nat * count(dims@.skip(i as int)),
                count(dims@.skip(i - 1)) == (d as nat) * count(dims@.skip(i as int)),
        ;
        match total.checked_mul(d) {
            Some(t) => {
                total = t;
            },
            None => {
                assert(s as nat * count(dims@.skip(i - 1)) > usize::MAX);
                return Err(ShapeError::Overflow);
            },
        }
        i = i - 1;
    }
    assert(dims@.skip(0) =~= dims@);
    assert(!too_large(s as nat, dims@));
    Ok(Some(FieldShape { size: total, align: a }))
}

/// The shapes of the stored members, in order.
pub open spec fn stored_shapes(ms: Seq<MemberV>, reg: Seq<(Seq<char>, FieldShape)>) -> Result<
    Seq<FieldShape>,
    ShapeError,
>
    decreases ms.len(),
{
    if ms.len() == 0 {
        Ok(Seq::empty())
    } else {
        match stored_shapes(ms.drop_last(), reg) {
            Err(e) => Err(e),
            Ok(fs) => match spec_member_shape(ms.last(), reg) {
                Err(e) => Err(e),
                Ok(None) => Ok(fs),
                Ok(Some(f)) => Ok(fs.push(f)),
            },
        }
    }
}

proof fn lemma_stored_shapes_err(ms: Seq<MemberV>, reg: Seq<(Seq<char>, FieldShape)>, j: int)
    requires
        0 <= j <= ms.len(),
        stored_shapes(ms.take(j), reg) is Err,
    ensures
        stored_shapes(ms, reg) == stored_shapes(ms.take(j), reg),
    decreases ms.len() - j,
{
    if j < ms.len() {
        assert(ms.take(j + 1).drop_last() =~= ms.take(j));
        lemma_stored_shapes_err(ms, reg, j + 1);
    } else {
        assert(ms.take(j) =~= ms);
    }
}

/// The C layout of a model, given the shapes of the number types and models it
/// may hold (`reg`, by name): its stored members in order, flags left out.
pub fn model_layout(model: &Model, reg: &Vec<(String, FieldShape)>) -> (r: Result<Layout, ShapeError>)
    ensures
        match stored_shapes(model@.members, reg_v(reg@)) {
            Err(e) => r == Err::<Layout, _>(e),
            Ok(fs) => if offsets(fs).1 > usize::MAX || struct_size(fs) > usize::MAX {
                r == Err::<Layout, _>(ShapeError::Overflow)
            } else {
                r matches Ok(l) && l.offsets@.len() == fs.len() && (forall|i: int|
                    0 <= i < fs.len() ==> l.offsets@[i] as nat == #[trigger] offsets(fs).0[i]) && l.size as nat
                    == struct_size(fs) && l.align as nat == struct_align(fs)
            },
        },
{
    let ghost ms = model@.members;
    let ghost rv = reg_v(reg@);
    let mut shapes: Vec<FieldShape> = Vec::new();
    let mut i: usize = 0;
    assert(ms.take(0) =~= Seq::<MemberV>::empty());
    while i < model.members.len()
        invariant
            i <= ms.len(),
            ms == members_v(model.members@),
            rv == reg_v(reg@),
            stored_shapes(ms.take(i as int), rv) == Ok::<_, ShapeError>(shapes@),
        decreases model.members.len() - i,
    {
        assert(ms.take(i + 1).drop_last() =~= ms.take(i as int));
        assert(ms.take(i + 1).last() == ms[i as int]);
        assert(ms[i as int] == model.members@[i as int]@);
        match member_shape(&model.members[i], reg) {
            Err(e) => {
                proof {
                    lemma_stored_shapes_err(ms, rv, i + 1);
                }
                return Err(e);
            },
            Ok(None) => {},
            Ok(Some(f)) => {
                shapes.push(f);
            },
        }
        i = i + 1;
    }
    assert(ms.take(i as int) =~= ms);
    match c_layout(&shapes) {
        Some(l) => Ok(l),
        None => Err(ShapeError::Overflow),
    }
}

/// The length in bytes of a member kept as an array of bytes: text, raw
/// bytes and big integers by their length, an address in four.
pub open spec fn byte_array_len(mt: MemberTypeV) -> Option<nat> {
    match mt {
        MemberTypeV::String { len, .. } => Some(len as nat),
        MemberTypeV::Bytes { len } => Some(len as nat),
        MemberTypeV::BigInt { len } => Some(len as nat),
        MemberTypeV::Ipv4 => Some(4),
        _ => None,
    }
}

/// A text, bytes, big-integer or address member is stored as `u8` arrays of
/// its length: its size is that length times the number of its elements, its
/// alignment 1, whatever the registry; it is refused only when its size does
/// not fit in `usize`.
pub proof fn law_byte_member_shape(m: MemberV, reg: Seq<(Seq<char>, FieldShape)>)
    requires
        byte_array_len(m.ty) is Some,
    ensures
        match spec_member_shape(m, reg) {
            Ok(Some(f)) => f.size == byte_array_len(m.ty)->0 * count(dims_of(m.arr)) && f.align == 1,
            Ok(None) => false,
            Err(e) => e == ShapeError::Overflow,
        },
{
    let d = dims_of(m.arr);
    let s = byte_array_len(m.ty)->0;
    assert(d.skip(0) =~= d);
    if !too_large(s, d) {
        assert(!((s * count(d.skip(0))) > usize::MAX));
    }
}

/// A number or nested-model member takes the registered shape of its type
/// once per element: its size is the registered size times the number of its
/// elements and its alignment the registered one; a type that is not
/// registered is refused.
pub proof fn law_registered_member_shape(m: MemberV, reg: Seq<(Seq<char>, FieldShape)>)
    requires
        m.ty is Number || m.ty is Model,
    ensures
        ({
            let name = if m.ty is Number { m.ty->Number_ty } else { m.ty->Model_ty };
            match spec_member_shape(m, reg) {
                Ok(Some(f)) => lookup(reg, name) is Some && f.size == lookup(reg, name)->0.size * count(
                    dims_of(m.arr),
                ) && f.align == lookup(reg, name)->0.align,
                Ok(None) => false,
                Err(e) => lookup(reg, name) is None ==> e == ShapeError::UnknownType,
            }
        }),
        ({
            let name = if m.ty is Number { m.ty->Number_ty } else { m.ty->Model_ty };
            lookup(reg, name) is None ==> spec_member_shape(m, reg) == Err::<Option<FieldShape>, _>(
                ShapeError::UnknownType,
            )
        }),
{
    let d = dims_of(m.arr);
    assert(d.skip(0) =~= d);
    match elem_shape(m.ty, reg) {
        Some((s, a)) => {
            if !too_large(s, d) {
                assert(!((s * count(d.skip(0))) > usize::MAX));
            }
        },
        None => {},
    }
}

} // verus!
