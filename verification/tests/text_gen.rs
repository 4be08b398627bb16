use plutus::codegen::{c_field_type, invalid_private_member, py_field_type};
use plutus::cs::{cs, try_cs, GenError};
use plutus::model::{AttrToken, Member, MemberType, Model};
use plutus::pydantic::{min_max, pydantic, pydantic_class, pydantic_hex, try_pydantic, try_pydantic_class};
use plutus::pyi::pyi;
use plutus::render::push_tokens;

fn s(x: &str) -> String {
    x.to_string()
}

fn num(name: &str, ty: &str, max: Option<&str>) -> Member {
    Member {
        ident: s(name),
        ty: MemberType::Number {
            ty: s(ty),
            min: None,
            max: max.map(|m| vec![AttrToken::Other(s(m))]),
            is_float: ty.starts_with('f'),
        },
        private: name.starts_with('_'),
        arr: None,
    }
}

fn duration() -> Model {
    Model {
        ident: s("Duration"),
        c_ident: s("CDuration"),
        members: vec![num("open", "u8", Some("97")), num("close", "u8", Some("98"))],
        has_models: false,
        hexable: false,
    }
}

fn eatery_like() -> Model {
    Model {
        ident: s("Eatery"),
        c_ident: s("CEatery"),
        members: vec![
            num("latitude", "f64", None),
            Member {
                ident: s("photos"),
                ty: MemberType::Model { ty: s("Gene"), cty: s("CGene"), optional: true },
                private: false,
                arr: Some(vec![7]),
            },
            Member {
                ident: s("opening_hours"),
                ty: MemberType::Model { ty: s("Duration"), cty: s("CDuration"), optional: false },
                private: false,
                arr: Some(vec![7, 4]),
            },
            Member { ident: s("phone"), ty: MemberType::String { len: 12, validator: None }, private: false, arr: None },
            Member { ident: s("ip"), ty: MemberType::Ipv4, private: false, arr: None },
            Member { ident: s("token"), ty: MemberType::Bytes { len: 64 }, private: false, arr: None },
            Member { ident: s("closed"), ty: MemberType::Flag { fl: s("FLAG_EATERY_CLOSED") }, private: false, arr: None },
            num("tables", "i16", None),
        ],
        has_models: true,
        hexable: false,
    }
}

#[test]
fn cs_of_duration() {
    let text = cs(&duration());
    let expected = "typedef struct Duration {\n    uint8_t open;\n    uint8_t close;\n} Duration;\n\n#ifdef DO_PAD_CHECK\n\n_Static_assert(offsetof(Duration, open) == 0, \"invalid offset of Duration.open must be 0\");\n_Static_assert(\n    offsetof(Duration, close) == (offsetof(Duration, open) + sizeof( ((Duration *)0)->open )),\n    \"invalid Duration->close offset\"\n);\n#endif // DO_PAD_CHECK\n";
    assert_eq!(text, expected);
}

#[test]
fn cs_member_lines() {
    let text = cs(&eatery_like());
    assert!(text.starts_with("typedef struct Eatery {\n    double latitude;\n    Gene photos[7];\n    Duration opening_hours[7][4];\n    char phone[12];\n    uint8_t ip[4];\n    uint8_t token[64];\n    int16_t tables;\n} Eatery;\n"));
    // flags are not stored, so the check after `token` is `tables`
    assert!(text.contains("offsetof(Eatery, tables) == (offsetof(Eatery, token) + sizeof( ((Eatery *)0)->token ))"));
    assert!(!text.contains("closed"));
}

#[test]
fn cs_refuses_unknown_float() {
    let mut m = duration();
    m.members.push(num("half", "f16", None));
    assert_eq!(try_cs(&m), Err(GenError::InvalidFloat));
}

#[test]
fn pyi_of_duration() {
    let expected = "class Duration(plutus.Duration):\n    open: int\n    close: int\n\n    SIZE: int\n\n    def __new__(value: str | bytes = None) -> bytes: ...\n    def __bytes__(self) -> bytes: ...\n    def hex(self) -> str: ...\n    @classmethod\n    def batch(cls, value: str | bytes) -> list[Duration]: ...\n    def dict(self) -> dict: ...\n";
    assert_eq!(pyi(&duration()), expected);
}

#[test]
fn pyi_of_hex_model_and_arrays() {
    let mut m = eatery_like();
    m.hexable = true;
    m.members.push(num("_reserved", "u8", None));
    let text = pyi(&m);
    assert!(text.contains("    photos: list[Gene]\n"));
    assert!(text.contains("    opening_hours: list[list[Duration]]\n"));
    assert!(text.contains("    latitude: float\n"));
    assert!(text.contains("    closed: bool\n"));
    assert!(text.contains("    token: bytes\n"));
    assert!(!text.contains("_reserved"));
    assert!(text.ends_with("    def dict(self) -> str: ...\n"));
}

#[test]
fn pydantic_of_duration() {
    let expected = "class DurationModel(pydantic.BaseModel):\n    open: pydantic.conint(gt=-1, lt=97)\n    close: pydantic.conint(gt=-1, lt=98)\n";
    assert_eq!(pydantic_class(&duration()), expected);
    assert_eq!(pydantic(&duration(), 2), expected);
}

#[test]
fn pydantic_of_members() {
    let text = pydantic_class(&eatery_like());
    assert!(text.contains("    latitude: pydantic.confloat()\n"));
    assert!(text.contains("    photos: pydantic.conlist(GeneModel | None, min_length=7, max_length=7)\n"));
    assert!(text.contains(
        "    opening_hours: pydantic.conlist(pydantic.conlist(DurationModel, min_length=4, max_length=4), min_length=7, max_length=7)\n"
    ));
    assert!(text.contains("    phone: pydantic.constr(max_length=12)\n"));
    assert!(text.contains("    ip: str\n"));
    assert!(text.contains("    token: pydantic.constr(min_length=128, max_length=128)\n"));
    assert!(text.contains("    closed: bool\n"));
    assert!(text.contains("    tables: pydantic.conint(gt=-(1 << 16) - 1, lt=1 << (16 - 1))\n"));
}

#[test]
fn pydantic_of_hex_model() {
    assert_eq!(pydantic_hex("Gene", 16), "GeneModel = pydantic.constr(min_length=32, max_length=32)");
    let mut m = duration();
    m.hexable = true;
    assert_eq!(pydantic(&m, 2), "DurationModel = pydantic.constr(min_length=4, max_length=4)");
}

#[test]
fn pydantic_refuses_non_number_type() {
    let mut m = duration();
    m.members.push(num("ok", "bool", None));
    assert_eq!(try_pydantic_class(&m), Err(GenError::InvalidNumberType));
    assert_eq!(try_pydantic(&m, 2), Err(GenError::InvalidNumberType));
}

#[test]
fn min_max_bounds() {
    assert_eq!(min_max(&None, &None, &s("u32")), (s("-1"), s("1 << 32")));
    assert_eq!(min_max(&None, &None, &s("i8")), (s("-(1 << 8) - 1"), s("1 << (8 - 1)")));
    let lo = Some(vec![AttrToken::Punct('-', false), AttrToken::Other(s("3"))]);
    let hi = Some(vec![AttrToken::Other(s("7"))]);
    assert_eq!(min_max(&lo, &hi, &s("i32")), (s("- 3"), s("7")));
    // both bounds given: the type's own defaults are not asked for
    assert_eq!(min_max(&lo, &hi, &s("f32")), (s("- 3"), s("7")));
    assert_eq!(min_max(&lo, &hi, &s("bool")), (s("- 3"), s("7")));
}

#[test]
fn token_text_spacing() {
    let mut t = String::new();
    let toks = vec![
        AttrToken::Ident(s("a")),
        AttrToken::Punct(':', true),
        AttrToken::Punct(':', false),
        AttrToken::Ident(s("b")),
    ];
    push_tokens(&mut t, &toks);
    assert_eq!(t, "a :: b");
}

#[test]
fn rust_field_types() {
    let m = eatery_like();
    assert_eq!(c_field_type(&m.members[0]), Some(s("f64")));
    assert_eq!(c_field_type(&m.members[1]), Some(s("[CGene; 7]")));
    assert_eq!(c_field_type(&m.members[2]), Some(s("[[CDuration; 4]; 7]")));
    assert_eq!(c_field_type(&m.members[3]), Some(s("[u8; 12]")));
    assert_eq!(c_field_type(&m.members[4]), Some(s("[u8; 4]")));
    assert_eq!(c_field_type(&m.members[6]), None);
    assert_eq!(py_field_type(&m.members[1]), Some(s("[Option<::pyo3::Py<Gene>>; 7]")));
    assert_eq!(py_field_type(&m.members[2]), Some(s("[[::pyo3::Py<Duration>; 4]; 7]")));
    assert_eq!(py_field_type(&m.members[3]), Some(s("String")));
    assert_eq!(py_field_type(&m.members[6]), None);
    assert_eq!(py_field_type(&num("_pad", "u16", None)), None);
}

#[test]
fn private_members_must_be_numbers_or_bytes() {
    let mut m = duration();
    assert_eq!(invalid_private_member(&m), None);
    m.members.push(num("_pad", "u16", None));
    m.members.push(Member { ident: s("_r"), ty: MemberType::Bytes { len: 3 }, private: true, arr: None });
    assert_eq!(invalid_private_member(&m), None);
    m.members.push(Member { ident: s("_s"), ty: MemberType::Ipv4, private: true, arr: None });
    assert_eq!(invalid_private_member(&m), Some(4));
}
