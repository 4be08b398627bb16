use vstd::prelude::*;
use vstd::string::StringExecFns;
use crate::model::{Member, MemberType, MemberTypeV, MemberV, Model, ModelV, members_v};
use crate::render::{dims_text, push_dims, push_bracketed};
use crate::text::{dec, first_char, push_str_from};

verus! {

/// The reasons a text generator refuses a model.
#[derive(Debug, PartialEq, Eq, Structural)]
pub enum GenError {
    /// A float type other than `f32` or `f64`.
    InvalidFloat,
    /// Bounds were asked of a float type.
    NoMinMaxForFloats,
    /// A number type that starts with neither `u`, `i` nor `f`.
    InvalidNumberType,
}

/// The dimensions of an optional array, none for a scalar.
pub open spec fn dims_of(arr: Option<Seq<usize>>) -> Seq<usize> {
    match arr {
        Some(d) => d,
        None => Seq::empty(),
    }
}

/// Whether every number member names a non-empty type.
pub open spec fn numbers_named(ms: Seq<MemberV>) -> bool {
    forall|i: int| 0 <= i < ms.len() ==> (#[trigger] ms[i].ty matches MemberTypeV::Number { ty, .. } ==> ty.len() > 0)
}

/// The C type of a number: `float` and `double` for `f32` and `f64`;
/// otherwise `uint<rest>_t` when the type starts with `u`, `int<rest>_t` when
/// it does not, where `<rest>` is the type without its first letter.
pub open spec fn c_number_type(ty: Seq<char>, is_float: bool) -> Result<Seq<char>, GenError> {
    if is_float {
        if ty == "f32"@ {
            Ok("float"@)
        } else if ty == "f64"@ {
            Ok("double"@)
        } else {
            Err(GenError::InvalidFloat)
        }
    } else {
        Ok((if ty[0] == 'u' { "u"@ } else { ""@ }) + "int"@ + ty.drop_first() + "_t"@)
    }
}

/// The C type of a member and the suffix that follows its name.
pub open spec fn c_parts(mt: MemberTypeV) -> Result<(Seq<char>, Seq<char>), GenError> {
    match mt {
        MemberTypeV::Number { ty, is_float, .. } => match c_number_type(ty, is_float) {
            Ok(t) => Ok((t, Seq::empty())),
            Err(e) => Err(e),
        },
        MemberTypeV::String { len, .. } => Ok(("char"@, "["@ + dec(len as nat) + "]"@)),
        MemberTypeV::Bytes { len } => Ok(("uint8_t"@, "["@ + dec(len as nat) + "]"@)),
        MemberTypeV::BigInt { len } => Ok(("uint8_t"@, "["@ + dec(len as nat) + "]"@)),
        MemberTypeV::Model { ty, .. } => Ok((ty, Seq::empty())),
        MemberTypeV::Ipv4 => Ok(("uint8_t"@, "[4]"@)),
        MemberTypeV::Flag { .. } => Ok((Seq::empty(), Seq::empty())),
    }
}

/// The line that declares a member in the C struct; flags declare nothing.
pub open spec fn cs_line(m: MemberV) -> Result<Seq<char>, GenError> {
    if m.ty is Flag {
        Ok(Seq::empty())
    } else {
        match c_parts(m.ty) {
            Err(e) => Err(e),
            Ok((a, b)) => Ok("    "@ + a + " "@ + m.ident + dims_text(dims_of(m.arr)) + b + ";\n"@),
        }
    }
}

/// The declaration lines of the members, in order.
pub open spec fn cs_lines(ms: Seq<MemberV>) -> Result<Seq<char>, GenError>
    decreases ms.len(),
{
    if ms.len() == 0 {
        Ok(Seq::empty())
    } else {
        match cs_lines(ms.drop_last()) {
            Err(e) => Err(e),
            Ok(t) => match cs_line(ms.last()) {
                Err(e) => Err(e),
                Ok(l) => Ok(t + l),
            },
        }
    }
}

/// The names of the members that are not flags, in order.
pub open spec fn stored_names(ms: Seq<MemberV>) -> Seq<Seq<char>>
    decreases ms.len(),
{
    if ms.len() == 0 {
        Seq::empty()
    } else if ms.last().ty is Flag {
        stored_names(ms.drop_last())
    } else {
        stored_names(ms.drop_last()).push(ms.last().ident)
    }
}

/// The check that the first stored member is at offset zero.
pub open spec fn first_pad(ident: Seq<char>, p: Seq<char>) -> Seq<char> {
    "\n_Static_assert(offsetof("@ + ident + ", "@ + p + ") == 0, \"invalid offset of "@ + ident + "."@ + p
        + " must be 0\");"@
}

/// The check that member `p` follows member `prev` with no padding between.
pub open spec fn next_pad(ident: Seq<char>, prev: Seq<char>, p: Seq<char>) -> Seq<char> {
    "\n_Static_assert(\n    offsetof("@ + ident + ", "@ + p + ") == (offsetof("@ + ident + ", "@ + prev
        + ") + sizeof( (("@ + ident + " *)0)->"@ + prev + " )),\n    \"invalid "@ + ident + "->"@ + p
        + " offset\"\n);"@
}

/// The padding checks of the stored members, in order.
pub open spec fn pad_checks(ident: Seq<char>, names: Seq<Seq<char>>) -> Seq<char>
    decreases names.len(),
{
    if names.len() == 0 {
        Seq::empty()
    } else if names.len() == 1 {
        first_pad(ident, names[0])
    } else {
        pad_checks(ident, names.drop_last()) + next_pad(ident, names[names.len() - 2], names.last())
    }
}

/// The C header text of a model: a `typedef struct` with one line per stored
/// member, then, under `DO_PAD_CHECK`, static checks that the members follow
/// one another with no padding.
pub open spec fn spec_cs(m: ModelV) -> Result<Seq<char>, GenError> {
    match cs_lines(m.members) {
        Err(e) => Err(e),
        Ok(lines) => Ok(
            "typedef struct "@ + m.ident + " {\n"@ + lines + "} "@ + m.ident + ";\n\n#ifdef DO_PAD_CHECK\n"@
                + pad_checks(m.ident, stored_names(m.members)) + "\n#endif // DO_PAD_CHECK\n"@,
        ),
    }
}

/// The C type of a number.
fn c_number_type_text(ty: &String, is_float: bool) -> (r: Result<String, GenError>)
    requires
        ty@.len() > 0,
    ensures
        match r {
            Ok(t) => c_number_type(ty@, is_float) == Ok::<_, GenError>(t@),
            Err(e) => c_number_type(ty@, is_float) == Err::<Seq<char>, _>(e),
        },
{
    if is_float {
        if crate::text::str_eq(ty.as_str(), "f32") {
            Ok("float".to_owned())
        } else if crate::text::str_eq(ty.as_str(), "f64") {
            Ok("double".to_owned())
        } else {
            Err(GenError::InvalidFloat)
        }
    } else {
        let mut t = if first_char(ty) == 'u' { "u".to_owned() } else { "".to_owned() };
        t.append("int");
        push_str_from(&mut t, ty.as_str(), 1);
        t.append("_t");
        Ok(t)
    }
}

/// The C type of a stored member and the suffix after its name.
fn c_parts_text(mt: &MemberType) -> (r: Result<(String, String), GenError>)
    requires
        mt@ matches MemberTypeV::Number { ty, .. } ==> ty.len() > 0,
    ensures
        match r {
            Ok((a, b)) => c_parts(mt@) == Ok::<_, GenError>((a@, b@)),
            Err(e) => c_parts(mt@) == Err::<(Seq<char>, Seq<char>), _>(e),
        },
{
    match mt {
        MemberType::Number { ty, is_float, .. } => match c_number_type_text(ty, *is_float) {
            Ok(t) => Ok((t, String::new())),
            Err(e) => Err(e),
        },
        MemberType::String { len, .. } => Ok(("char".to_owned(), bracketed(*len))),
        MemberType::Bytes { len } => Ok(("uint8_t".to_owned(), bracketed(*len))),
        MemberType::BigInt { len } => Ok(("uint8_t".to_owned(), bracketed(*len))),
        MemberType::Model { ty, .. } => Ok((ty.clone(), String::new())),
        MemberType::Ipv4 => Ok(("uint8_t".to_owned(), "[4]".to_owned())),
        MemberType::Flag { .. } => Ok((String::new(), String::new())),
    }
}

/// `[n]`.
fn bracketed(n: usize) -> (r: String)
    ensures
        r@ == "["@ + dec(n as nat) + "]"@,
{
    let mut s = String::new();
    push_bracketed(&mut s, n);
    assert(s@ =~= "["@ + dec(n as nat) + "]"@);
    s
}

fn push_cs_line(s: &mut String, m: &Member) -> (r: Result<(), GenError>)
    requires
        m@.ty matches MemberTypeV::Number { ty, .. } ==> ty.len() > 0,
    ensures
        match r {
            Ok(()) => cs_line(m@) matches Ok(l) && final(s)@ == old(s)@ + l,
            Err(e) => cs_line(m@) == Err::<Seq<char>, _>(e),
        },
{
    if matches!(m.ty, MemberType::Flag { .. }) {
        assert(old(s)@ + Seq::empty() =~= old(s)@);
        return Ok(());
    }
    let (a, b) = match c_parts_text(&m.ty) {
        Err(e) => {
            return Err(e);
        },
        Ok(x) => x,
    };
    let mut line = "    ".to_owned();
    line.append(a.as_str());
    line.append(" ");
    line.append(m.ident.as_str());
    match &m.arr {
        Some(d) => push_dims(&mut line, d),
        None => {
            assert(line@ + dims_text(Seq::empty()) =~= line@);
        },
    }
    line.append(b.as_str());
    line.append(";\n");
    assert(line@ =~= "    "@ + a@ + " "@ + m@.ident + dims_text(dims_of(m@.arr)) + b@ + ";\n"@);
    s.append(line.as_str());
    Ok(())
}

/// Appends the check that the first stored member is at offset zero.
fn push_first_pad(s: &mut String, ident: &str, p: &str)
    ensures
        final(s)@ == old(s)@ + first_pad(ident@, p@),
{
    let mut t = "\n_Static_assert(offsetof(".to_owned();
    t.append(ident);
    t.append(", ");
    t.append(p);
    t.append(") == 0, \"invalid offset of ");
    t.append(ident);
    t.append(".");
    t.append(p);
    t.append(" must be 0\");");
    assert(t@ =~= first_pad(ident@, p@));
    s.append(t.as_str());
}

/// Appends the check that member `p` directly follows member `prev`.
fn push_next_pad(s: &mut String, ident: &str, prev: &str, p: &str)
    ensures
        final(s)@ == old(s)@ + next_pad(ident@, prev@, p@),
{
    let mut t = "\n_Static_assert(\n    offsetof(".to_owned();
    t.append(ident);
    t.append(", ");
    t.append(p);
    t.append(") == (offsetof(");
    t.append(ident);
    t.append(", ");
    t.append(prev);
    t.append(") + sizeof( ((");
    t.append(ident);
    t.append(" *)0)->");
    t.append(prev);
    t.append(" )),\n    \"invalid ");
    t.append(ident);
    t.append("->");
    t.append(p);
    t.append(" offset\"\n);");
    assert(t@ =~= next_pad(ident@, prev@, p@));
    s.append(t.as_str());
}

/// The C header text of a model, or why the macro refuses it (a float type
/// other than `f32` or `f64`).
pub fn try_cs(model: &Model) -> (r: Result<String, GenError>)
    requires
        numbers_named(model@.members),
    ensures
        match r {
            Ok(s) => spec_cs(model@) == Ok::<_, GenError>(s@),
            Err(e) => spec_cs(model@) == Err::<Seq<char>, _>(e),
        },
{
    let ghost ms = model@.members;
    let ghost ident = model.ident@;
    let mut result = "typedef struct ".to_owned();
    result.append(model.ident.as_str());
    result.append(" {\n");
    let ghost head = result@;
    let mut i: usize = 0;
    assert(ms.take(0) =~= Seq::<MemberV>::empty());
    assert(head + Seq::<char>::empty() =~= head);
    while i < model.members.len()
        invariant
            i <= ms.len(),
            ms == members_v(model.members@),
            numbers_named(ms),
            cs_lines(ms.take(i as int)) matches Ok(t) && result@ == head + t,
        decreases model.members.len() - i,
    {
        assert(ms.take(i + 1).drop_last() =~= ms.take(i as int));
        assert(ms.take(i + 1).last() == ms[i as int]);
        assert(ms[i as int] == model.members@[i as int]@);
        let ghost t = cs_lines(ms.take(i as int))->Ok_0;
        match push_cs_line(&mut result, &model.members[i]) {
            Err(e) => {
                proof {
                    lemma_cs_lines_err(ms, i + 1);
                }
                return Err(e);
            },
            Ok(()) => {},
        }
        proof {
            let l = cs_line(ms[i as int])->Ok_0;
            assert(result@ =~= head + (t + l));
        }
        i = i + 1;
    }
    assert(ms.take(i as int) =~= ms);
    result.append("} ");
    result.append(model.ident.as_str());
    result.append(";\n\n#ifdef DO_PAD_CHECK\n");
    let ghost head2 = result@;
    let mut prev: Option<usize> = None;
    let mut j: usize = 0;
    assert(stored_names(ms.take(0)) =~= Seq::<Seq<char>>::empty());
    assert(head2 + Seq::<char>::empty() =~= head2);
    while j < model.members.len()
        invariant
            j <= ms.len(),
            ms == members_v(model.members@),
            ident == model.ident@,
            result@ == head2 + pad_checks(ident, stored_names(ms.take(j as int))),
            match prev {
                None => stored_names(ms.take(j as int)).len() == 0,
                Some(p) => p < j && stored_names(ms.take(j as int)).len() > 0 && stored_names(
                    ms.take(j as int),
                ).last() == ms[p as int].ident,
            },
        decreases model.members.len() - j,
    {
        assert(ms.take(j + 1).drop_last() =~= ms.take(j as int));
        assert(ms.take(j + 1).last() == ms[j as int]);
        assert(ms[j as int] == model.members@[j as int]@);
        let m = &model.members[j];
        if !matches!(m.ty, MemberType::Flag { .. }) {
            let ghost names = stored_names(ms.take(j as int));
            match prev {
                None => {
                    push_first_pad(&mut result, model.ident.as_str(), m.ident.as_str());
                    proof {
                        assert(names.push(m@.ident).len() == 1);
                        assert(result@ =~= head2 + pad_checks(ident, names.push(m@.ident)));
                    }
                },
                Some(p) => {
                    let pv = &model.members[p].ident;
                    assert(model.members@[p as int]@ == ms[p as int]);
                    push_next_pad(&mut result, model.ident.as_str(), pv.as_str(), m.ident.as_str());
                    proof {
                        let nn = names.push(m@.ident);
                        assert(nn.drop_last() =~= names);
                        assert(nn[nn.len() - 2] == names.last());
                        assert(result@ =~= head2 + pad_checks(ident, nn));
                    }
                },
            }
            prev = Some(j);
        }
        j = j + 1;
    }
    assert(ms.take(j as int) =~= ms);
    result.append("\n#endif // DO_PAD_CHECK\n");
    Ok(result)
}

proof fn lemma_cs_lines_err(ms: Seq<MemberV>, j: int)
    requires
        0 <= j <= ms.len(),
        cs_lines(ms.take(j)) is Err,
    ensures
        cs_lines(ms) == cs_lines(ms.take(j)),
    decreases ms.len() - j,
{
    if j < ms.len() {
        assert(ms.take(j + 1).drop_last() =~= ms.take(j));
        lemma_cs_lines_err(ms, j + 1);
    } else {
        assert(ms.take(j) =~= ms);
    }
}

/// The C header text of a model: its typedef, then the offset checks of its
/// stored members. A float type other than `f32` or `f64` is refused by the
/// macro, which panics; such models are left out here (`try_cs` names them).
pub fn cs(model: &Model) -> (r: String)
    requires
        numbers_named(model@.members),
        spec_cs(model@) is Ok,
    ensures
        spec_cs(model@) == Ok::<_, GenError>(r@),
{
    try_cs(model).unwrap()
}

/// The width in bytes and the kind (`f` float, `u` unsigned, `i` signed) of
/// a C number type of `stdint.h` or a C float type.
pub open spec fn c_number_info(t: Seq<char>) -> Option<(nat, char)> {
    if t == "float"@ {
        Some((4, 'f'))
    } else if t == "double"@ {
        Some((8, 'f'))
    } else if t == "uint8_t"@ {
        Some((1, 'u'))
    } else if t == "uint16_t"@ {
        Some((2, 'u'))
    } else if t == "uint32_t"@ {
        Some((4, 'u'))
    } else if t == "uint64_t"@ {
        Some((8, 'u'))
    } else if t == "int8_t"@ {
        Some((1, 'i'))
    } else if t == "int16_t"@ {
        Some((2, 'i'))
    } else if t == "int32_t"@ {
        Some((4, 'i'))
    } else if t == "int64_t"@ {
        Some((8, 'i'))
    } else {
        None
    }
}

/// The width in bytes and the kind of a Rust primitive number type that C
/// has a counterpart of.
pub open spec fn rust_number_info(ty: Seq<char>) -> Option<(nat, char)> {
    if ty == "f32"@ {
        Some((4, 'f'))
    } else if ty == "f64"@ {
        Some((8, 'f'))
    } else if ty == "u8"@ {
        Some((1, 'u'))
    } else if ty == "u16"@ {
        Some((2, 'u'))
    } else if ty == "u32"@ {
        Some((4, 'u'))
    } else if ty == "u64"@ {
        Some((8, 'u'))
    } else if ty == "i8"@ {
        Some((1, 'i'))
    } else if ty == "i16"@ {
        Some((2, 'i'))
    } else if ty == "i32"@ {
        Some((4, 'i'))
    } else if ty == "i64"@ {
        Some((8, 'i'))
    } else {
        None
    }
}

/// The C type that the header gives a number member has the Rust type's width
/// and kind: a float stays a float of the same size (`f32` is `float`, `f64`
/// is `double`), an integer an integer of the same size and signedness.
pub proof fn law_c_number_width(ty: Seq<char>, is_float: bool)
    requires
        rust_number_info(ty) is Some,
        is_float == ((rust_number_info(ty)->0).1 == 'f'),
    ensures
        c_number_type(ty, is_float) is Ok,
        c_number_info(c_number_type(ty, is_float)->Ok_0) == rust_number_info(ty),
{
    reveal_strlit("float");
    reveal_strlit("double");
    reveal_strlit("uint8_t");
    reveal_strlit("uint16_t");
    reveal_strlit("uint32_t");
    reveal_strlit("uint64_t");
    reveal_strlit("int8_t");
    reveal_strlit("int16_t");
    reveal_strlit("int32_t");
    reveal_strlit("int64_t");
    reveal_strlit("f32");
    reveal_strlit("f64");
    reveal_strlit("u8");
    reveal_strlit("u16");
    reveal_strlit("u32");
    reveal_strlit("u64");
    reveal_strlit("i8");
    reveal_strlit("i16");
    reveal_strlit("i32");
    reveal_strlit("i64");
    reveal_strlit("u");
    reveal_strlit("");
    reveal_strlit("int");
    reveal_strlit("_t");
    assert("float"@.len() == 5 && "float"@[0] == 'f' && "float"@[1] == 'l' && "float"@[2] == 'o' && "float"@[3] == 'a' && "float"@[4] == 't');
    assert("double"@.len() == 6 && "double"@[0] == 'd' && "double"@[1] == 'o' && "double"@[2] == 'u' && "double"@[3] == 'b' && "double"@[4] == 'l' && "double"@[5] == 'e');
    assert("uint8_t"@.len() == 7 && "uint8_t"@[0] == 'u' && "uint8_t"@[1] == 'i' && "uint8_t"@[2] == 'n' && "uint8_t"@[3] == 't' && "uint8_t"@[4] == '8' && "uint8_t"@[5] == '_' && "uint8_t"@[6] == 't');
    assert("uint16_t"@.len() == 8 && "uint16_t"@[0] == 'u' && "uint16_t"@[1] == 'i' && "uint16_t"@[2] == 'n' && "uint16_t"@[3] == 't' && "uint16_t"@[4] == '1' && "uint16_t"@[5] == '6' && "uint16_t"@[6] == '_' && "uint16_t"@[7] == 't');
    assert("uint32_t"@.len() == 8 && "uint32_t"@[0] == 'u' && "uint32_t"@[1] == 'i' && "uint32_t"@[2] == 'n' && "uint32_t"@[3] == 't' && "uint32_t"@[4] == '3' && "uint32_t"@[5] == '2' && "uint32_t"@[6] == '_' && "uint32_t"@[7] == 't');
    assert("uint64_t"@.len() == 8 && "uint64_t"@[0] == 'u' && "uint64_t"@[1] == 'i' && "uint64_t"@[2] == 'n' && "uint64_t"@[3] == 't' && "uint64_t"@[4] == '6' && "uint64_t"@[5] == '4' && "uint64_t"@[6] == '_' && "uint64_t"@[7] == 't');
    assert("int8_t"@.len() == 6 && "int8_t"@[0] == 'i' && "int8_t"@[1] == 'n' && "int8_t"@[2] == 't' && "int8_t"@[3] == '8' && "int8_t"@[4] == '_' && "int8_t"@[5] == 't');
    assert("int16_t"@.len() == 7 && "int16_t"@[0] == 'i' && "int16_t"@[1] == 'n' && "int16_t"@[2] == 't' && "int16_t"@[3] == '1' && "int16_t"@[4] == '6' && "int16_t"@[5] == '_' && "int16_t"@[6] == 't');
    assert("int32_t"@.len() == 7 && "int32_t"@[0] == 'i' && "int32_t"@[1] == 'n' && "int32_t"@[2] == 't' && "int32_t"@[3] == '3' && "int32_t"@[4] == '2' && "int32_t"@[5] == '_' && "int32_t"@[6] == 't');
    assert("int64_t"@.len() == 7 && "int64_t"@[0] == 'i' && "int64_t"@[1] == 'n' && "int64_t"@[2] == 't' && "int64_t"@[3] == '6' && "int64_t"@[4] == '4' && "int64_t"@[5] == '_' && "int64_t"@[6] == 't');
    assert("f32"@.len() == 3 && "f32"@[0] == 'f' && "f32"@[1] == '3' && "f32"@[2] == '2');
    assert("f64"@.len() == 3 && "f64"@[0] == 'f' && "f64"@[1] == '6' && "f64"@[2] == '4');
    assert("u8"@.len() == 2 && "u8"@[0] == 'u' && "u8"@[1] == '8');
    assert("u16"@.len() == 3 && "u16"@[0] == 'u' && "u16"@[1] == '1' && "u16"@[2] == '6');
    assert("u32"@.len() == 3 && "u32"@[0] == 'u' && "u32"@[1] == '3' && "u32"@[2] == '2');
    assert("u64"@.len() == 3 && "u64"@[0] == 'u' && "u64"@[1] == '6' && "u64"@[2] == '4');
    assert("i8"@.len() == 2 && "i8"@[0] == 'i' && "i8"@[1] == '8');
    assert("i16"@.len() == 3 && "i16"@[0] == 'i' && "i16"@[1] == '1' && "i16"@[2] == '6');
    assert("i32"@.len() == 3 && "i32"@[0] == 'i' && "i32"@[1] == '3' && "i32"@[2] == '2');
    assert("i64"@.len() == 3 && "i64"@[0] == 'i' && "i64"@[1] == '6' && "i64"@[2] == '4');
    if !is_float {
        let t = c_number_type(ty, false)->Ok_0;
        if ty == "u8"@ {
            assert(t =~= "uint8_t"@);
        } else if ty == "u16"@ {
            assert(t =~= "uint16_t"@);
        } else if ty == "u32"@ {
            assert(t =~= "uint32_t"@);
        } else if ty == "u64"@ {
            assert(t =~= "uint64_t"@);
        } else if ty == "i8"@ {
            assert(t =~= "int8_t"@);
        } else if ty == "i16"@ {
            assert(t =~= "int16_t"@);
        } else if ty == "i32"@ {
            assert(t =~= "int32_t"@);
        } else {
            assert(ty == "i64"@);
            assert(t =~= "int64_t"@);
        }
    }
}

/// The line that declares a member in the C header: a number of a Rust type
/// that C has is declared with the C type of the same width and kind; text is
/// a `char` array and raw bytes or a big integer a `uint8_t` array, each as
/// long as the member, an address four `uint8_t`; the member's own dimensions
/// come first; a flag declares nothing.
pub proof fn law_cs_member_line(m: MemberV)
    ensures
        (m.ty is Number && rust_number_info(m.ty->Number_ty) is Some && m.ty->Number_is_float == ((rust_number_info(
            m.ty->Number_ty,
        )->0).1 == 'f')) ==> (c_number_type(m.ty->Number_ty, m.ty->Number_is_float) is Ok && c_number_info(
            c_number_type(m.ty->Number_ty, m.ty->Number_is_float)->Ok_0,
        ) == rust_number_info(m.ty->Number_ty) && cs_line(m) == Ok::<_, GenError>(
            "    "@ + c_number_type(m.ty->Number_ty, m.ty->Number_is_float)->Ok_0 + " "@ + m.ident + dims_text(
                dims_of(m.arr),
            ) + ";\n"@,
        )),
        m.ty is String ==> cs_line(m) == Ok::<_, GenError>(
            "    char "@ + m.ident + dims_text(dims_of(m.arr)) + "["@ + dec(m.ty->String_len as nat) + "];\n"@,
        ),
        m.ty is Bytes ==> cs_line(m) == Ok::<_, GenError>(
            "    uint8_t "@ + m.ident + dims_text(dims_of(m.arr)) + "["@ + dec(m.ty->Bytes_len as nat) + "];\n"@,
        ),
        m.ty is BigInt ==> cs_line(m) == Ok::<_, GenError>(
            "    uint8_t "@ + m.ident + dims_text(dims_of(m.arr)) + "["@ + dec(m.ty->BigInt_len as nat) + "];\n"@,
        ),
        m.ty is Ipv4 ==> cs_line(m) == Ok::<_, GenError>(
            "    uint8_t "@ + m.ident + dims_text(dims_of(m.arr)) + "[4];\n"@,
        ),
        m.ty is Flag ==> cs_line(m) == Ok::<_, GenError>(Seq::<char>::empty()),
{
    reveal_strlit("    ");
    reveal_strlit(" ");
    reveal_strlit("    char ");
    reveal_strlit("char");
    reveal_strlit("    uint8_t ");
    reveal_strlit("uint8_t");
    reveal_strlit("[");
    reveal_strlit("];\n");
    reveal_strlit("]");
    reveal_strlit(";\n");
    reveal_strlit("[4];\n");
    reveal_strlit("[4]");
    let d = dims_text(dims_of(m.arr));
    if m.ty is Number && rust_number_info(m.ty->Number_ty) is Some && m.ty->Number_is_float == ((rust_number_info(
        m.ty->Number_ty,
    )->0).1 == 'f') {
        law_c_number_width(m.ty->Number_ty, m.ty->Number_is_float);
    }
    if m.ty is String {
        assert("    "@ + "char"@ + " "@ + m.ident + d + ("["@ + dec(m.ty->String_len as nat) + "]"@) + ";\n"@
            =~= "    char "@ + m.ident + d + "["@ + dec(m.ty->String_len as nat) + "];\n"@);
    }
    if m.ty is Bytes {
        assert("    "@ + "uint8_t"@ + " "@ + m.ident + d + ("["@ + dec(m.ty->Bytes_len as nat) + "]"@) + ";\n"@
            =~= "    uint8_t "@ + m.ident + d + "["@ + dec(m.ty->Bytes_len as nat) + "];\n"@);
    }
    if m.ty is BigInt {
        assert("    "@ + "uint8_t"@ + " "@ + m.ident + d + ("["@ + dec(m.ty->BigInt_len as nat) + "]"@) + ";\n"@
            =~= "    uint8_t "@ + m.ident + d + "["@ + dec(m.ty->BigInt_len as nat) + "];\n"@);
    }
    if m.ty is Ipv4 {
        assert("    "@ + "uint8_t"@ + " "@ + m.ident + d + "[4]"@ + ";\n"@ =~= "    uint8_t "@ + m.ident + d
            + "[4];\n"@);
    }
}

} // verus!
