use plutus::model::{AttrToken, Member, MemberType, Model};
use plutus::plan::{
    accessors, c_fields, class_fields, default_plan, dict_plan, from_c_plan, to_c_plan, Accessor,
    Bound, CField, ClassField, Codec, DictEntry, DictPlan, DictValue, FromC, PyZero, ToC,
};

fn s(x: &str) -> String {
    x.to_string()
}

fn member(ident: &str, ty: MemberType, arr: Option<Vec<usize>>) -> Member {
    Member { ident: s(ident), ty, private: ident.starts_with('_'), arr }
}

/// A model with one member of each kind, a private one and the flag members.
fn user() -> Model {
    let members = vec![
        member("flag", MemberType::Number { ty: s("u64"), min: None, max: None, is_float: false }, None),
        member(
            "cc",
            MemberType::Number {
                ty: s("u16"),
                min: Some(vec![AttrToken::Other(s("1"))]),
                max: Some(vec![AttrToken::Other(s("999"))]),
                is_float: false,
            },
            None,
        ),
        member(
            "phone",
            MemberType::String { len: 12, validator: Some(vec![AttrToken::Ident(s("phone_validator"))]) },
            None,
        ),
        member("checksum", MemberType::Bytes { len: 16 }, None),
        member("ip", MemberType::Ipv4, None),
        member("amount", MemberType::BigInt { len: 64 }, None),
        member("gene", MemberType::Model { ty: s("Gene"), cty: s("CGene"), optional: false }, None),
        member("agents", MemberType::Model { ty: s("Gene"), cty: s("CGene"), optional: true }, Some(vec![3])),
        member("_pad", MemberType::Bytes { len: 3 }, None),
        member("alive", MemberType::Flag { fl: s("FLAG_ALIVE") }, None),
    ];
    Model { ident: s("User"), c_ident: s("CUser"), members, has_models: true, hexable: false }
}

#[test]
fn accessors_by_member() {
    let a = accessors(&user());
    assert_eq!(a.len(), 10);
    assert_eq!(a[0], Some(Accessor::Number { ty: s("u64"), min: None, max: None, is_float: false, unsigned: true }));
    assert_eq!(
        a[1],
        Some(Accessor::Number {
            ty: s("u16"),
            min: Some(Bound { text: s("1"), message: s("minimum value is 1") }),
            max: Some(Bound { text: s("999"), message: s("maximum value is 999") }),
            is_float: false,
            unsigned: true,
        })
    );
    assert_eq!(a[2], Some(Accessor::Text { len: 12, validator: Some(s("phone_validator")) }));
    assert_eq!(a[3], Some(Accessor::Bytes { len: 16 }));
    assert_eq!(a[4], Some(Accessor::Ipv4));
    assert_eq!(a[5], None);
    assert_eq!(a[6], None);
    assert_eq!(a[7], None);
    assert_eq!(a[8], None);
    assert_eq!(a[9], Some(Accessor::Flag { mask: s("FLAG_ALIVE") }));
}

#[test]
fn dict_keys_in_member_order() {
    let DictPlan::Keys(e) = dict_plan(&user()) else { panic!("a dict of keys") };
    assert_eq!(e.len(), 10);
    assert_eq!(e[1], Some(DictEntry { key: s("cc"), value: DictValue::Number }));
    assert_eq!(e[2], Some(DictEntry { key: s("phone"), value: DictValue::Text }));
    assert_eq!(e[3], Some(DictEntry { key: s("checksum"), value: DictValue::Bytes }));
    assert_eq!(e[4], Some(DictEntry { key: s("ip"), value: DictValue::Ipv4 }));
    assert_eq!(e[5], Some(DictEntry { key: s("amount"), value: DictValue::BigInt }));
    assert_eq!(e[7], Some(DictEntry { key: s("agents"), value: DictValue::Model { optional: true } }));
    assert_eq!(e[8], None);
    assert_eq!(e[9], Some(DictEntry { key: s("alive"), value: DictValue::Flag { mask: s("FLAG_ALIVE") } }));
}

#[test]
fn dict_of_hex_model() {
    let mut m = user();
    m.hexable = true;
    assert_eq!(dict_plan(&m), DictPlan::Hex);
}

#[test]
fn class_fields_of_public_members() {
    let f = class_fields(&user());
    assert_eq!(f[1], Some(ClassField { ty: s("u16"), get: true, set: false }));
    assert_eq!(f[2], Some(ClassField { ty: s("String"), get: true, set: false }));
    assert_eq!(f[3], Some(ClassField { ty: s("[u8; 16]"), get: false, set: false }));
    assert_eq!(f[6], Some(ClassField { ty: s("::pyo3::Py<Gene>"), get: true, set: true }));
    assert_eq!(f[7], Some(ClassField { ty: s("[Option<::pyo3::Py<Gene>>; 3]"), get: true, set: true }));
    assert_eq!(f[8], None);
    assert_eq!(f[9], None);
}

#[test]
fn c_fields_of_stored_members() {
    let f = c_fields(&user());
    assert_eq!(f[1], Some(CField { ty: s("u16"), codec: Codec::Number { ty: s("u16"), is_float: false } }));
    assert_eq!(f[2], Some(CField { ty: s("[u8; 12]"), codec: Codec::Raw { len: 12 } }));
    assert_eq!(f[4], Some(CField { ty: s("[u8; 4]"), codec: Codec::Raw { len: 4 } }));
    assert_eq!(f[7], Some(CField { ty: s("[CGene; 3]"), codec: Codec::Nested { cty: s("CGene") } }));
    assert_eq!(f[8], Some(CField { ty: s("[u8; 3]"), codec: Codec::Raw { len: 3 } }));
    assert_eq!(f[9], None);
}

#[test]
fn conversions_to_and_from_c() {
    let m = user();
    let to = to_c_plan(&m);
    assert_eq!(to[1], Some(ToC::Copy));
    assert_eq!(to[2], Some(ToC::Text { len: 12 }));
    assert_eq!(to[5], Some(ToC::Copy));
    assert_eq!(to[6], Some(ToC::Nested));
    assert_eq!(to[7], Some(ToC::OptionalNested { cty: s("CGene") }));
    assert_eq!(to[8], Some(ToC::ZeroBytes { len: 3 }));
    assert_eq!(to[9], None);
    let from = from_c_plan(&m);
    assert_eq!(from[2], Some(FromC::Text));
    assert_eq!(from[3], Some(FromC::Copy));
    assert_eq!(from[6], Some(FromC::Nested { ty: s("Gene") }));
    assert_eq!(from[7], Some(FromC::OptionalNested { ty: s("Gene") }));
    assert_eq!(from[8], None);
    assert_eq!(from[9], None);
}

#[test]
fn private_number_becomes_zero() {
    let m = Model {
        ident: s("T"),
        c_ident: s("CT"),
        members: vec![member("_n", MemberType::Number { ty: s("u8"), min: None, max: None, is_float: false }, None)],
        has_models: false,
        hexable: false,
    };
    assert_eq!(to_c_plan(&m), vec![Some(ToC::ZeroNumber)]);
    assert_eq!(from_c_plan(&m), vec![None]);
}

#[test]
fn python_defaults() {
    let z = default_plan(&user());
    assert_eq!(z[1], Some(PyZero::Number { is_float: false }));
    assert_eq!(z[2], Some(PyZero::Text));
    assert_eq!(z[4], Some(PyZero::Bytes { len: 4 }));
    assert_eq!(z[5], Some(PyZero::Bytes { len: 64 }));
    assert_eq!(z[6], Some(PyZero::Nested { ty: s("Gene") }));
    assert_eq!(z[7], Some(PyZero::Missing));
    assert_eq!(z[8], None);
    assert_eq!(z[9], None);
}

#[test]
fn signed_number_setter() {
    let m = Model {
        ident: s("T"),
        c_ident: s("CT"),
        members: vec![member("t", MemberType::Number { ty: s("i32"), min: None, max: None, is_float: false }, None)],
        has_models: false,
        hexable: false,
    };
    assert_eq!(
        accessors(&m),
        vec![Some(Accessor::Number { ty: s("i32"), min: None, max: None, is_float: false, unsigned: false })]
    );
}
