use plutus::model::{
    ArrayLen, AttrMeta, AttrToken, FieldDecl, FieldsDecl, GenericArg, Member, MemberType, Model,
    ModelError, PathArgs, StructDecl, TypeExpr,
};
use plutus::parser::{
    parse, parse_attrs, parse_fields, parse_member, parse_type, try_parse, try_parse_attrs, try_parse_fields,
    try_parse_member, try_parse_type, Attr,
};

fn s(x: &str) -> String {
    x.to_string()
}

fn path(x: &str) -> TypeExpr {
    TypeExpr::Path(s(x), PathArgs::Plain)
}

fn option(t: TypeExpr) -> TypeExpr {
    TypeExpr::Path(s("Option"), PathArgs::Angle(Some(Box::new(GenericArg::Type(t)))))
}

fn array(t: TypeExpr, n: &str) -> TypeExpr {
    TypeExpr::Array(Box::new(t), ArrayLen::Int(s(n)))
}

fn field(name: &str, ty: TypeExpr, attrs: Vec<AttrMeta>) -> FieldDecl {
    FieldDecl { ident: Some(s(name)), ty, attrs }
}

fn int_max(v: &str) -> AttrMeta {
    AttrMeta::List(
        s("int"),
        vec![AttrToken::Ident(s("max")), AttrToken::Punct('=', false), AttrToken::Other(s(v))],
    )
}

fn duration() -> StructDecl {
    StructDecl {
        ident: s("Duration"),
        fields: FieldsDecl::Named(vec![
            field("open", path("u8"), vec![int_max("97")]),
            field("close", path("u8"), vec![int_max("98")]),
        ]),
    }
}

fn number(ty: &str) -> MemberType {
    MemberType::Number { ty: s(ty), min: None, max: None, is_float: false }
}

#[test]
fn parse_duration_model() {
    let m = parse(&vec![], &duration());
    assert_eq!(
        m,
        Model {
            ident: s("Duration"),
            c_ident: s("CDuration"),
            members: vec![
                Member {
                    ident: s("open"),
                    ty: MemberType::Number {
                        ty: s("u8"),
                        min: None,
                        max: Some(vec![AttrToken::Other(s("97"))]),
                        is_float: false,
                    },
                    private: false,
                    arr: None,
                },
                Member {
                    ident: s("close"),
                    ty: MemberType::Number {
                        ty: s("u8"),
                        min: None,
                        max: Some(vec![AttrToken::Other(s("98"))]),
                        is_float: false,
                    },
                    private: false,
                    arr: None,
                },
            ],
            has_models: false,
            hexable: false,
        }
    );
}

#[test]
fn parse_hex_gene_with_private_member() {
    let item = StructDecl {
        ident: s("Gene"),
        fields: FieldsDecl::Named(vec![
            field("id", path("u32"), vec![]),
            field("_reserved", path("u8"), vec![]),
        ]),
    };
    let m = parse(&vec![AttrToken::Ident(s("hex"))], &item);
    assert!(m.hexable);
    assert!(!m.has_models);
    assert_eq!(m.members.len(), 2);
    assert!(!m.members[0].private);
    assert!(m.members[1].private);
}

#[test]
fn parse_flag_member_adds_three_flags() {
    let item = StructDecl {
        ident: s("Dish"),
        fields: FieldsDecl::Named(vec![
            field("flag", path("u64"), vec![]),
            field("gene", path("Gene"), vec![]),
            field("available", path("FLAG_DISH_AVAILABLE"), vec![AttrMeta::Path(s("flag"))]),
        ]),
    };
    let m = parse(&vec![], &item);
    assert!(m.has_models);
    let names: Vec<&str> = m.members.iter().map(|x| x.ident.as_str()).collect();
    assert_eq!(names, vec!["flag", "gene", "available", "alive", "edited", "private"]);
    assert_eq!(m.members[1].ty, MemberType::Model { ty: s("Gene"), cty: s("CGene"), optional: false });
    assert_eq!(m.members[2].ty, MemberType::Flag { fl: s("FLAG_DISH_AVAILABLE") });
    assert_eq!(m.members[3].ty, MemberType::Flag { fl: s("FLAG_ALIVE") });
    assert_eq!(m.members[4].ty, MemberType::Flag { fl: s("FLAG_EDITED") });
    assert_eq!(m.members[5].ty, MemberType::Flag { fl: s("FLAG_PRIVATE") });
}

#[test]
fn parse_without_flag_member_adds_nothing() {
    let m = parse(&vec![], &duration());
    assert_eq!(m.members.len(), 2);
}

#[test]
fn parse_unit_struct() {
    let item = StructDecl { ident: s("Empty"), fields: FieldsDecl::Unit };
    let m = parse(&vec![], &item);
    assert!(m.members.is_empty());
    assert_eq!(m.c_ident, "CEmpty");
}

#[test]
fn parse_unnamed_fields_refused() {
    let item = StructDecl { ident: s("T"), fields: FieldsDecl::Unnamed };
    assert_eq!(try_parse(&vec![], &item), Err(ModelError::InvalidStructFields));
    assert_eq!(try_parse_fields(&FieldsDecl::Unnamed), Err(ModelError::InvalidStructFields));
}

#[test]
fn parse_member_without_name_refused() {
    let f = FieldDecl { ident: None, ty: path("u8"), attrs: vec![] };
    assert_eq!(try_parse_member(&f), Err(ModelError::FieldIdentNotFound));
}

#[test]
fn parse_arrays_of_models_and_text() {
    let attr = Attr::Non;
    let (t, arr) = parse_type(&array(array(path("Duration"), "4"), "7"), &attr);
    assert_eq!(t, MemberType::Model { ty: s("Duration"), cty: s("CDuration"), optional: false });
    assert_eq!(arr, Some(vec![7, 4]));
    let (t, arr) = parse_type(&array(option(path("Gene")), "7"), &attr);
    assert_eq!(t, MemberType::Model { ty: s("Gene"), cty: s("CGene"), optional: true });
    assert_eq!(arr, Some(vec![7]));
    let (t, arr) = parse_type(&array(path("u64"), "5"), &attr);
    assert_eq!(t, number("u64"));
    assert_eq!(arr, Some(vec![5]));
    let str_attr = Attr::Str { validator: None };
    let (t, arr) = parse_type(&array(path("u8"), "12"), &str_attr);
    assert_eq!(t, MemberType::String { len: 12, validator: None });
    assert_eq!(arr, None);
    let (t, _) = parse_type(&array(path("u8"), "16"), &attr);
    assert_eq!(t, MemberType::Bytes { len: 16 });
    let (t, _) = parse_type(&array(path("u8"), "64"), &Attr::BigInt);
    assert_eq!(t, MemberType::BigInt { len: 64 });
    let (t, _) = parse_type(&array(path("u8"), "4"), &Attr::Ip4);
    assert_eq!(t, MemberType::Ipv4);
    let (t, arr) = parse_type(&array(array(path("u8"), "12"), "3"), &str_attr);
    assert_eq!(t, MemberType::String { len: 12, validator: None });
    assert_eq!(arr, Some(vec![3]));
}

#[test]
fn parse_floats_and_optional_numbers() {
    let (t, _) = parse_type(&path("f64"), &Attr::Non);
    assert_eq!(t, MemberType::Number { ty: s("f64"), min: None, max: None, is_float: true });
    let (t, _) = parse_type(&option(path("u8")), &Attr::Non);
    assert_eq!(t, number("u8"));
}

#[test]
fn parse_array_length_with_plus_sign() {
    let (t, _) = parse_type(&array(path("u8"), "+3"), &Attr::Non);
    assert_eq!(t, MemberType::Bytes { len: 3 });
}

#[test]
fn parse_type_errors() {
    let non = Attr::Non;
    let empty_option = TypeExpr::Path(s("Option"), PathArgs::Angle(None));
    assert_eq!(try_parse_type(&empty_option, &non), Err(ModelError::MissingGenericArg));
    let lifetime = TypeExpr::Path(s("Option"), PathArgs::Angle(Some(Box::new(GenericArg::Other))));
    assert_eq!(try_parse_type(&lifetime, &non), Err(ModelError::InvalidGenericArg));
    assert_eq!(try_parse_type(&path("Option"), &non), Err(ModelError::InvalidOptionArgs));
    let paren = TypeExpr::Path(s("Option"), PathArgs::Paren);
    assert_eq!(try_parse_type(&paren, &non), Err(ModelError::InvalidOptionArgs));
    let not_lit = TypeExpr::Array(Box::new(path("u8")), ArrayLen::Other);
    assert_eq!(try_parse_type(&not_lit, &non), Err(ModelError::ArrayLenNotLiteral));
    let huge = array(path("u8"), "340282366920938463463374607431768211456");
    assert_eq!(try_parse_type(&huge, &non), Err(ModelError::ArrayLenOverflow));
    assert_eq!(try_parse_type(&array(path("u8"), "5"), &Attr::Ip4), Err(ModelError::Ipv4Length));
    let int = Attr::Int { min: None, max: None };
    assert_eq!(try_parse_type(&array(path("u8"), "4"), &int), Err(ModelError::UnsupportedByteArrayAttr));
    // with `flag`, the element is a flag mask, so the array is no byte array
    assert_eq!(
        try_parse_type(&array(path("u8"), "4"), &Attr::Flg),
        Ok((MemberType::Flag { fl: s("u8") }, Some(vec![4])))
    );
    assert_eq!(try_parse_type(&TypeExpr::Other, &non), Err(ModelError::InvalidType));
}

#[test]
fn parse_attrs_forms() {
    assert_eq!(parse_attrs(&vec![]), Attr::Non);
    assert_eq!(parse_attrs(&vec![AttrMeta::Path(s("str"))]), Attr::Str { validator: None });
    assert_eq!(parse_attrs(&vec![AttrMeta::Path(s("int"))]), Attr::Int { min: None, max: None });
    assert_eq!(parse_attrs(&vec![AttrMeta::Path(s("bigint"))]), Attr::BigInt);
    assert_eq!(parse_attrs(&vec![AttrMeta::Path(s("flag"))]), Attr::Flg);
    assert_eq!(parse_attrs(&vec![AttrMeta::Path(s("ipv4"))]), Attr::Ip4);
    assert_eq!(parse_attrs(&vec![AttrMeta::Path(s("other"))]), Attr::Non);
    assert_eq!(parse_attrs(&vec![AttrMeta::NameValue]), Attr::Non);
    assert_eq!(parse_attrs(&vec![AttrMeta::List(s("bigint"), vec![])]), Attr::Non);
    let v = vec![
        AttrToken::Ident(s("validator")),
        AttrToken::Punct('=', false),
        AttrToken::Ident(s("phone_validator")),
    ];
    assert_eq!(
        parse_attrs(&vec![AttrMeta::List(s("str"), v)]),
        Attr::Str { validator: Some(vec![AttrToken::Ident(s("phone_validator"))]) }
    );
    // the last `max` wins, values run to the next comma
    let v = vec![
        AttrToken::Ident(s("max")),
        AttrToken::Punct('=', false),
        AttrToken::Other(s("1")),
        AttrToken::Punct(',', false),
        AttrToken::Ident(s("min")),
        AttrToken::Punct('=', false),
        AttrToken::Punct('-', false),
        AttrToken::Other(s("5")),
        AttrToken::Punct(',', false),
        AttrToken::Ident(s("max")),
        AttrToken::Punct('=', false),
        AttrToken::Other(s("9")),
    ];
    assert_eq!(
        parse_attrs(&vec![AttrMeta::List(s("int"), v)]),
        Attr::Int {
            min: Some(vec![AttrToken::Punct('-', false), AttrToken::Other(s("5"))]),
            max: Some(vec![AttrToken::Other(s("9"))]),
        }
    );
}

#[test]
fn parse_attrs_errors() {
    let key_not_ident = vec![AttrToken::Other(s("1"))];
    assert_eq!(
        try_parse_attrs(&vec![AttrMeta::List(s("int"), key_not_ident)]),
        Err(ModelError::AttrKeyNotIdent(AttrToken::Other(s("1"))))
    );
    let no_eq = vec![AttrToken::Ident(s("max"))];
    assert_eq!(try_parse_attrs(&vec![AttrMeta::List(s("int"), no_eq)]), Err(ModelError::InvalidAttrs));
    let wrong_punct = vec![AttrToken::Ident(s("max")), AttrToken::Punct(':', false)];
    assert_eq!(try_parse_attrs(&vec![AttrMeta::List(s("int"), wrong_punct)]), Err(ModelError::InvalidAttrs));
    let not_punct = vec![AttrToken::Ident(s("max")), AttrToken::Other(s("1"))];
    assert_eq!(try_parse_attrs(&vec![AttrMeta::List(s("x"), not_punct)]), Err(ModelError::InvalidAttrs));
}
