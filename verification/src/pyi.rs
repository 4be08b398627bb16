use vstd::prelude::*;
use vstd::string::StringExecFns;
use crate::model::{Member, MemberType, MemberTypeV, MemberV, Model, ModelV, members_v};
use crate::render::{rep, push_rep};
use crate::cs::dims_of;

verus! {

/// The Python type of one element of a member.
pub open spec fn py_base(mt: MemberTypeV) -> Seq<char> {
    match mt {
        MemberTypeV::Number { is_float, .. } => if is_float { "float"@ } else { "int"@ },
        MemberTypeV::String { .. } => "str"@,
        MemberTypeV::Bytes { .. } => "bytes"@,
        MemberTypeV::BigInt { .. } => "str"@,
        MemberTypeV::Model { ty, .. } => ty,
        MemberTypeV::Ipv4 => "str"@,
        MemberTypeV::Flag { .. } => "bool"@,
    }
}

/// The Python type of a member: its element type inside one `list[..]` per
/// array dimension.
pub open spec fn py_type(m: MemberV) -> Seq<char> {
    let k = dims_of(m.arr).len();
    rep("list["@, k) + py_base(m.ty) + rep("]"@, k)
}

/// The stub lines of the public members, in order.
pub open spec fn pyi_lines(ms: Seq<MemberV>) -> Seq<char>
    decreases ms.len(),
{
    if ms.len() == 0 {
        Seq::empty()
    } else if ms.last().private {
        pyi_lines(ms.drop_last())
    } else {
        pyi_lines(ms.drop_last()) + "    "@ + ms.last().ident + ": "@ + py_type(ms.last()) + "\n"@
    }
}

/// The methods that every model class offers.
pub open spec fn pyi_methods(ident: Seq<char>, hexable: bool) -> Seq<char> {
    "\n    SIZE: int\n\n"@ + "    def __new__(value: str | bytes = None) -> bytes: ...\n"@
        + "    def __bytes__(self) -> bytes: ...\n"@ + "    def hex(self) -> str: ...\n"@
        + "    @classmethod\n    "@ + "def batch(cls, value: str | bytes) -> list["@ + ident + "]: ...\n"@
        + if hexable {
        "    def dict(self) -> str: ...\n"@
    } else {
        "    def dict(self) -> dict: ...\n"@
    }
}

/// The Python stub of a model's class.
pub open spec fn spec_pyi(m: ModelV) -> Seq<char> {
    "class "@ + m.ident + "(plutus."@ + m.ident + "):\n"@ + pyi_lines(m.members) + pyi_methods(
        m.ident,
        m.hexable,
    )
}

/// The Python base type of a member.
fn py_base_text(mt: &MemberType) -> (r: String)
    ensures
        r@ == py_base(mt@),
{
    match mt {
        MemberType::Number { is_float, .. } => if *is_float { "float".to_owned() } else { "int".to_owned() },
        MemberType::String { .. } => "str".to_owned(),
        MemberType::Bytes { .. } => "bytes".to_owned(),
        MemberType::BigInt { .. } => "str".to_owned(),
        MemberType::Model { ty, .. } => ty.clone(),
        MemberType::Ipv4 => "str".to_owned(),
        MemberType::Flag { .. } => "bool".to_owned(),
    }
}

/// The number of array dimensions of a member.
pub fn dims_count(arr: &Option<Vec<usize>>) -> (k: usize)
    ensures
        k == dims_of(crate::model::opt_dims_v(*arr)).len(),
{
    match arr {
        Some(d) => d.len(),
        None => 0,
    }
}

/// Appends the Python type of a member.
pub fn push_py_type(s: &mut String, m: &Member)
    ensures
        final(s)@ == old(s)@ + py_type(m@),
{
    let k = dims_count(&m.arr);
    let mut t = String::new();
    push_rep(&mut t, "list[", k);
    let b = py_base_text(&m.ty);
    t.append(b.as_str());
    push_rep(&mut t, "]", k);
    assert(t@ =~= py_type(m@));
    s.append(t.as_str());
}

/// The Python stub of a model's class: one annotated line per public member,
/// then the methods that every model class offers.
pub fn pyi(model: &Model) -> (r: String)
    ensures
        r@ == spec_pyi(model@),
{
    let ghost ms = model@.members;
    let mut result = "class ".to_owned();
    result.append(model.ident.as_str());
    result.append("(plutus.");
    result.append(model.ident.as_str());
    result.append("):\n");
    let ghost head = result@;
    let mut i: usize = 0;
    assert(ms.take(0) =~= Seq::<MemberV>::empty());
    assert(head + Seq::<char>::empty() =~= head);
    while i < model.members.len()
        invariant
            i <= ms.len(),
            ms == members_v(model.members@),
            result@ == head + pyi_lines(ms.take(i as int)),
        decreases model.members.len() - i,
    {
        assert(ms.take(i + 1).drop_last() =~= ms.take(i as int));
        assert(ms.take(i + 1).last() == ms[i as int]);
        assert(ms[i as int] == model.members@[i as int]@);
        let m = &model.members[i];
        if !m.private {
            let mut line = "    ".to_owned();
            line.append(m.ident.as_str());
            line.append(": ");
            push_py_type(&mut line, m);
            line.append("\n");
            result.append(line.as_str());
            assert(result@ =~= head + pyi_lines(ms.take(i + 1)));
        }
        i = i + 1;
    }
    assert(ms.take(i as int) =~= ms);
    let mut tail = "\n    SIZE: int\n\n".to_owned();
    tail.append("    def __new__(value: str | bytes = None) -> bytes: ...\n");
    tail.append("    def __bytes__(self) -> bytes: ...\n");
    tail.append("    def hex(self) -> str: ...\n");
    tail.append("    @classmethod\n    ");
    tail.append("def batch(cls, value: str | bytes) -> list[");
    tail.append(model.ident.as_str());
    tail.append("]: ...\n");
    if model.hexable {
        tail.append("    def dict(self) -> str: ...\n");
    } else {
        tail.append("    def dict(self) -> dict: ...\n");
    }
    assert(tail@ =~= pyi_methods(model.ident@, model.hexable));
    result.append(tail.as_str());
    assert(result@ =~= spec_pyi(model@));
    result
}

/// The Python type of a value of a scalar Rust field type of the Python
/// class: `String` is `str`, `bool` is `bool`, a float type is `float` and an
/// integer type `int`.
pub open spec fn python_of_rust(t: Seq<char>) -> Option<Seq<char>> {
    if t == "String"@ {
        Some("str"@)
    } else if t == "bool"@ {
        Some("bool"@)
    } else if t.len() > 1 && t[0] == 'f' {
        Some("float"@)
    } else if t.len() > 1 && (t[0] == 'u' || t[0] == 'i') {
        Some("int"@)
    } else {
        None
    }
}

/// The stub annotates a text or number member with the Python type of the
/// member's field in the Python class: text, kept as a Rust `String`, is
/// `str`; a float `float`; an integer `int`. Without dimensions that is the
/// whole annotation.
pub proof fn law_stub_matches_class_field(m: MemberV)
    requires
        m.ty is String || (m.ty is Number && m.ty->Number_ty.len() > 1 && (m.ty->Number_ty[0] == 'u'
            || m.ty->Number_ty[0] == 'i' || m.ty->Number_ty[0] == 'f') && m.ty->Number_is_float == (
        m.ty->Number_ty[0] == 'f')),
    ensures
        crate::codegen::py_elem_type(m.ty) is Some,
        python_of_rust(crate::codegen::py_elem_type(m.ty)->0) == Some(py_base(m.ty)),
        m.arr is None ==> py_type(m) == py_base(m.ty),
{
    reveal_strlit("String");
    reveal_strlit("bool");
    reveal_strlit("str");
    assert("String"@[0] == 'S');
    assert("bool"@[0] == 'b');
    if m.ty is Number {
        let t = m.ty->Number_ty;
        assert(t != "String"@);
        assert(t != "bool"@);
    }
    if m.arr is None {
        assert(dims_of(m.arr).len() == 0);
        assert(py_type(m) =~= py_base(m.ty));
    }
}

} // verus!
