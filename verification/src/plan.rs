//! What the `model` attribute generates for each member of a model: the
//! fields of the Python class and of the C struct, the conversions between
//! them, the Python default, the `dict` method and the getters and setters.
//! Each plan is a list with one entry per member, in member order; `None`
//! where nothing is generated for that member.
use vstd::prelude::*;
use vstd::string::{StringExecFns, StrSliceExecFns};
use crate::model::{AttrToken, Member, MemberType, MemberTypeV, MemberV, Model, TokenV, tokens_v};
use crate::render::{tokens_text, push_tokens};
use crate::codegen::{py_field_type, spec_py_field_type, c_field_type, spec_c_field_type, private_ok};

verus! {

fn text_of(g: &Vec<AttrToken>) -> (r: String)
    ensures
        r@ == tokens_text(tokens_v(g@)),
{
    let mut t = String::new();
    push_tokens(&mut t, g);
    assert(t@ =~= tokens_text(tokens_v(g@)));
    t
}

// ---------------------------------------------------------------------------
// Getters and setters.
// ---------------------------------------------------------------------------

/// A bound that a number setter enforces: its text, and the message of the
/// error for a value past it.
#[derive(Debug, PartialEq, Eq)]
pub struct Bound {
    pub text: String,
    pub message: String,
}

pub struct BoundV {
    pub text: Seq<char>,
    pub message: Seq<char>,
}

impl View for Bound {
    type V = BoundV;

    open spec fn view(&self) -> BoundV {
        BoundV { text: self.text@, message: self.message@ }
    }
}

/// The accessors of a public member.
#[derive(Debug, PartialEq, Eq)]
pub enum Accessor {
    /// A setter of a number of type `ty` that refuses a value below `min` or
    /// above `max`: compared as floats when `is_float`, else as unsigned
    /// integers when `unsigned` (the type starts with `u`), else as signed ones.
    Number { ty: String, min: Option<Bound>, max: Option<Bound>, is_float: bool, unsigned: bool },
    /// A setter that keeps the longest prefix of the text that fits in `len`
    /// bytes, then passes it through the `validator` function.
    Text { len: usize, validator: Option<String> },
    /// A getter of the bytes, and a setter that takes exactly `len` bytes.
    Bytes { len: usize },
    /// A getter and a setter of the address as dotted text.
    Ipv4,
    /// A getter and a setter of the bits `mask` of the `flag` member.
    Flag { mask: String },
}

pub enum AccessorV {
    Number { ty: Seq<char>, min: Option<BoundV>, max: Option<BoundV>, is_float: bool, unsigned: bool },
    Text { len: usize, validator: Option<Seq<char>> },
    Bytes { len: usize },
    Ipv4,
    Flag { mask: Seq<char> },
}

pub open spec fn opt_bound_v(b: Option<Bound>) -> Option<BoundV> {
    match b {
        Some(b) => Some(b@),
        None => None,
    }
}

pub open spec fn opt_text_v(t: Option<String>) -> Option<Seq<char>> {
    match t {
        Some(t) => Some(t@),
        None => None,
    }
}

impl View for Accessor {
    type V = AccessorV;

    open spec fn view(&self) -> AccessorV {
        match self {
            Accessor::Number { ty, min, max, is_float, unsigned } => AccessorV::Number {
                ty: ty@,
                min: opt_bound_v(*min),
                max: opt_bound_v(*max),
                is_float: *is_float,
                unsigned: *unsigned,
            },
            Accessor::Text { len, validator } => AccessorV::Text { len: *len, validator: opt_text_v(*validator) },
            Accessor::Bytes { len } => AccessorV::Bytes { len: *len },
            Accessor::Ipv4 => AccessorV::Ipv4,
            Accessor::Flag { mask } => AccessorV::Flag { mask: mask@ },
        }
    }
}

pub open spec fn opt_accessor_v(a: Option<Accessor>) -> Option<AccessorV> {
    match a {
        Some(a) => Some(a@),
        None => None,
    }
}

/// A given bound: its text, and `which` (`minimum` or `maximum`) in the
/// message `<which> value is <text>`.
pub open spec fn spec_bound(given: Option<Seq<TokenV>>, which: Seq<char>) -> Option<BoundV> {
    match given {
        Some(g) => Some(BoundV { text: tokens_text(g), message: which + " value is "@ + tokens_text(g) }),
        None => None,
    }
}

/// The accessors of a member: none for a private member, a nested model or a
/// big integer; otherwise by the member's type.
pub open spec fn spec_accessor(m: MemberV) -> Option<AccessorV> {
    if m.private {
        None
    } else {
        match m.ty {
            MemberTypeV::Number { ty, min, max, is_float } => Some(
                AccessorV::Number {
                    ty,
                    min: spec_bound(min, "minimum"@),
                    max: spec_bound(max, "maximum"@),
                    is_float,
                    unsigned: ty.len() > 0 && ty[0] == 'u',
                },
            ),
            MemberTypeV::String { len, validator } => Some(
                AccessorV::Text {
                    len,
                    validator: match validator {
                        Some(v) => Some(tokens_text(v)),
                        None => None,
                    },
                },
            ),
            MemberTypeV::Bytes { len } => Some(AccessorV::Bytes { len }),
            MemberTypeV::Ipv4 => Some(AccessorV::Ipv4),
            MemberTypeV::Flag { fl } => Some(AccessorV::Flag { mask: fl }),
            MemberTypeV::Model { .. } => None,
            MemberTypeV::BigInt { .. } => None,
        }
    }
}

fn bound_of(given: &Option<Vec<AttrToken>>, which: &str) -> (r: Option<Bound>)
    ensures
        opt_bound_v(r) == spec_bound(crate::model::opt_tokens_v(*given), which@),
{
    match given {
        Some(g) => {
            let text = text_of(g);
            let mut message = which.to_owned();
            message.append(" value is ");
            message.append(text.as_str());
            Some(Bound { text, message })
        },
        None => None,
    }
}

fn accessor_of(m: &Member) -> (r: Option<Accessor>)
    ensures
        opt_accessor_v(r) == spec_accessor(m@),
{
    if m.private {
        return None;
    }
    match &m.ty {
        MemberType::Number { ty, min, max, is_float } => {
            let min = bound_of(min, "minimum");
            let max = bound_of(max, "maximum");
            let unsigned = ty.as_str().unicode_len() > 0 && crate::text::first_char(ty) == 'u';
            Some(Accessor::Number { ty: ty.clone(), min, max, is_float: *is_float, unsigned })
        },
        MemberType::String { len, validator } => {
            let validator = match validator {
                Some(v) => Some(text_of(v)),
                None => None,
            };
            Some(Accessor::Text { len: *len, validator })
        },
        MemberType::Bytes { len } => Some(Accessor::Bytes { len: *len }),
        MemberType::Ipv4 => Some(Accessor::Ipv4),
        MemberType::Flag { fl } => Some(Accessor::Flag { mask: fl.clone() }),
        MemberType::Model { .. } => None,
        MemberType::BigInt { .. } => None,
    }
}

/// The getters and setters of each member of a model, in member order.
pub fn accessors(model: &Model) -> (r: Vec<Option<Accessor>>)
    ensures
        r@.len() == model@.members.len(),
        forall|k: int| 0 <= k < r@.len() ==> opt_accessor_v(#[trigger] r@[k]) == spec_accessor(model@.members[k]),
{
    let mut r: Vec<Option<Accessor>> = Vec::new();
    let mut i: usize = 0;
    while i < model.members.len()
        invariant
            i <= model.members@.len(),
            r@.len() == i,
            forall|k: int| 0 <= k < i ==> opt_accessor_v(#[trigger] r@[k]) == spec_accessor(model@.members[k]),
        decreases model.members.len() - i,
    {
        assert(model@.members[i as int] == model.members@[i as int]@);
        r.push(accessor_of(&model.members[i]));
        i = i + 1;
    }
    r
}

// ---------------------------------------------------------------------------
// The `dict` method.
// ---------------------------------------------------------------------------

/// What the `dict` method holds for a member.
#[derive(Debug, PartialEq, Eq)]
pub enum DictValue {
    /// The dotted text of each address.
    Ipv4,
    /// The decimal text of each little-endian integer.
    BigInt,
    /// The lowercase hex text of each byte array.
    Bytes,
    /// The number, or array of numbers, as it is.
    Number,
    /// The `dict` of each nested model; when `optional`, `None` for a missing one.
    Model { optional: bool },
    /// The text, or array of texts, as it is.
    Text,
    /// Whether the bits `mask` of the `flag` member are all set.
    Flag { mask: String },
}

pub enum DictValueV {
    Ipv4,
    BigInt,
    Bytes,
    Number,
    Model { optional: bool },
    Text,
    Flag { mask: Seq<char> },
}

impl View for DictValue {
    type V = DictValueV;

    open spec fn view(&self) -> DictValueV {
        match self {
            DictValue::Ipv4 => DictValueV::Ipv4,
            DictValue::BigInt => DictValueV::BigInt,
            DictValue::Bytes => DictValueV::Bytes,
            DictValue::Number => DictValueV::Number,
            DictValue::Model { optional } => DictValueV::Model { optional: *optional },
            DictValue::Text => DictValueV::Text,
            DictValue::Flag { mask } => DictValueV::Flag { mask: mask@ },
        }
    }
}

/// One key of the `dict` method and what it holds.
#[derive(Debug, PartialEq, Eq)]
pub struct DictEntry {
    pub key: String,
    pub value: DictValue,
}

pub struct DictEntryV {
    pub key: Seq<char>,
    pub value: DictValueV,
}

impl View for DictEntry {
    type V = DictEntryV;

    open spec fn view(&self) -> DictEntryV {
        DictEntryV { key: self.key@, value: self.value@ }
    }
}

pub open spec fn opt_entry_v(e: Option<DictEntry>) -> Option<DictEntryV> {
    match e {
        Some(e) => Some(e@),
        None => None,
    }
}

/// What the `dict` method of a model returns.
#[derive(Debug, PartialEq, Eq)]
pub enum DictPlan {
    /// The hex text of the model's C bytes (and `__bool__` is whether the C
    /// value is not the empty one).
    Hex,
    /// A Python dict with one entry per member, in member order; `None` for a
    /// member without a key.
    Keys(Vec<Option<DictEntry>>),
}

pub enum DictPlanV {
    Hex,
    Keys(Seq<Option<DictEntryV>>),
}

impl View for DictPlan {
    type V = DictPlanV;

    open spec fn view(&self) -> DictPlanV {
        match self {
            DictPlan::Hex => DictPlanV::Hex,
            DictPlan::Keys(v) => DictPlanV::Keys(v@.map_values(|e: Option<DictEntry>| opt_entry_v(e))),
        }
    }
}

/// The `dict` entry of a member: none for a private one; otherwise the
/// member's name, with its value by its type.
pub open spec fn spec_dict_entry(m: MemberV) -> Option<DictEntryV> {
    if m.private {
        None
    } else {
        Some(
            DictEntryV {
                key: m.ident,
                value: match m.ty {
                    MemberTypeV::Ipv4 => DictValueV::Ipv4,
                    MemberTypeV::BigInt { .. } => DictValueV::BigInt,
                    MemberTypeV::Bytes { .. } => DictValueV::Bytes,
                    MemberTypeV::Number { .. } => DictValueV::Number,
                    MemberTypeV::Model { optional, .. } => DictValueV::Model { optional },
                    MemberTypeV::String { .. } => DictValueV::Text,
                    MemberTypeV::Flag { fl } => DictValueV::Flag { mask: fl },
                },
            },
        )
    }
}

/// The `dict` method of a model: its hex text when the model is written as
/// hex, otherwise the entry of each member.
pub open spec fn spec_dict_plan(m: crate::model::ModelV) -> DictPlanV {
    if m.hexable {
        DictPlanV::Hex
    } else {
        DictPlanV::Keys(m.members.map_values(|x: MemberV| spec_dict_entry(x)))
    }
}

fn dict_entry_of(m: &Member) -> (r: Option<DictEntry>)
    ensures
        opt_entry_v(r) == spec_dict_entry(m@),
{
    if m.private {
        return None;
    }
    let value = match &m.ty {
        MemberType::Ipv4 => DictValue::Ipv4,
        MemberType::BigInt { .. } => DictValue::BigInt,
        MemberType::Bytes { .. } => DictValue::Bytes,
        MemberType::Number { .. } => DictValue::Number,
        MemberType::Model { optional, .. } => DictValue::Model { optional: *optional },
        MemberType::String { .. } => DictValue::Text,
        MemberType::Flag { fl } => DictValue::Flag { mask: fl.clone() },
    };
    Some(DictEntry { key: m.ident.clone(), value })
}

/// What the `dict` method of a model returns.
pub fn dict_plan(model: &Model) -> (r: DictPlan)
    ensures
        r@ == spec_dict_plan(model@),
{
    if model.hexable {
        return DictPlan::Hex;
    }
    let ghost ms = model@.members;
    let mut r: Vec<Option<DictEntry>> = Vec::new();
    let mut i: usize = 0;
    while i < model.members.len()
        invariant
            i <= model.members@.len(),
            ms == model@.members,
            r@.len() == i,
            forall|k: int| 0 <= k < i ==> opt_entry_v(#[trigger] r@[k]) == spec_dict_entry(ms[k]),
        decreases model.members.len() - i,
    {
        assert(ms[i as int] == model.members@[i as int]@);
        r.push(dict_entry_of(&model.members[i]));
        i = i + 1;
    }
    assert(r@.map_values(|e: Option<DictEntry>| opt_entry_v(e)) =~= ms.map_values(|x: MemberV| spec_dict_entry(x)));
    DictPlan::Keys(r)
}

// ---------------------------------------------------------------------------
// The fields of the Python class.
// ---------------------------------------------------------------------------

/// A field of the Python class: its Rust type, and whether Python can read it
/// and set it directly.
#[derive(Debug, PartialEq, Eq)]
pub struct ClassField {
    pub ty: String,
    pub get: bool,
    pub set: bool,
}

pub struct ClassFieldV {
    pub ty: Seq<char>,
    pub get: bool,
    pub set: bool,
}

impl View for ClassField {
    type V = ClassFieldV;

    open spec fn view(&self) -> ClassFieldV {
        ClassFieldV { ty: self.ty@, get: self.get, set: self.set }
    }
}

pub open spec fn opt_class_field_v(f: Option<ClassField>) -> Option<ClassFieldV> {
    match f {
        Some(f) => Some(f@),
        None => None,
    }
}

/// The field of the Python class for a member: none for a private member or a
/// flag; otherwise its Python type, readable when a number, a text or a
/// nested model, and settable when a nested model.
pub open spec fn spec_class_field(m: MemberV) -> Option<ClassFieldV> {
    match spec_py_field_type(m) {
        None => None,
        Some(t) => Some(
            ClassFieldV {
                ty: t,
                get: m.ty is Number || m.ty is String || m.ty is Model,
                set: m.ty is Model,
            },
        ),
    }
}

/// The fields of the Python class of a model, one entry per member.
pub fn class_fields(model: &Model) -> (r: Vec<Option<ClassField>>)
    ensures
        r@.len() == model@.members.len(),
        forall|k: int| 0 <= k < r@.len() ==> opt_class_field_v(#[trigger] r@[k]) == spec_class_field(model@.members[k]),
{
    let mut r: Vec<Option<ClassField>> = Vec::new();
    let mut i: usize = 0;
    while i < model.members.len()
        invariant
            i <= model.members@.len(),
            r@.len() == i,
            forall|k: int| 0 <= k < i ==> opt_class_field_v(#[trigger] r@[k]) == spec_class_field(model@.members[k]),
        decreases model.members.len() - i,
    {
        assert(model@.members[i as int] == model.members@[i as int]@);
        let m = &model.members[i];
        let f = match py_field_type(m) {
            None => None,
            Some(ty) => {
                let get = matches!(m.ty, MemberType::Number { .. }) || matches!(m.ty, MemberType::String { .. })
                    || matches!(m.ty, MemberType::Model { .. });
                let set = matches!(m.ty, MemberType::Model { .. });
                Some(ClassField { ty, get, set })
            },
        };
        r.push(f);
        i = i + 1;
    }
    r
}

// ---------------------------------------------------------------------------
// The fields of the C struct.
// ---------------------------------------------------------------------------

/// How the elements of a stored member are written to and read from the C
/// struct's bytes, and what its zero value is.
#[derive(Debug, PartialEq, Eq)]
pub enum Codec {
    /// A number of primitive type `ty` in little-endian bytes; zero is `0`,
    /// or `0.0` when `is_float`.
    Number { ty: String, is_float: bool },
    /// A nested model's C struct `cty`, by its own byte conversion; zero is
    /// its default.
    Nested { cty: String },
    /// `len` raw bytes; zero is `len` zero bytes.
    Raw { len: usize },
}

pub enum CodecV {
    Number { ty: Seq<char>, is_float: bool },
    Nested { cty: Seq<char> },
    Raw { len: usize },
}

impl View for Codec {
    type V = CodecV;

    open spec fn view(&self) -> CodecV {
        match self {
            Codec::Number { ty, is_float } => CodecV::Number { ty: ty@, is_float: *is_float },
            Codec::Nested { cty } => CodecV::Nested { cty: cty@ },
            Codec::Raw { len } => CodecV::Raw { len: *len },
        }
    }
}

/// A field of the C struct: its Rust type and the codec of its elements.
#[derive(Debug, PartialEq, Eq)]
pub struct CField {
    pub ty: String,
    pub codec: Codec,
}

pub struct CFieldV {
    pub ty: Seq<char>,
    pub codec: CodecV,
}

impl View for CField {
    type V = CFieldV;

    open spec fn view(&self) -> CFieldV {
        CFieldV { ty: self.ty@, codec: self.codec@ }
    }
}

pub open spec fn opt_c_field_v(f: Option<CField>) -> Option<CFieldV> {
    match f {
        Some(f) => Some(f@),
        None => None,
    }
}

/// The codec of a member's elements: numbers by their type, nested models by
/// their C struct, everything else as raw bytes of its length (four for an
/// address).
pub open spec fn spec_codec(mt: MemberTypeV) -> CodecV {
    match mt {
        MemberTypeV::Number { ty, is_float, .. } => CodecV::Number { ty, is_float },
        MemberTypeV::Model { cty, .. } => CodecV::Nested { cty },
        MemberTypeV::BigInt { len } => CodecV::Raw { len },
        MemberTypeV::Bytes { len } => CodecV::Raw { len },
        MemberTypeV::String { len, .. } => CodecV::Raw { len },
        MemberTypeV::Ipv4 => CodecV::Raw { len: 4 },
        MemberTypeV::Flag { .. } => CodecV::Raw { len: 0 },
    }
}

/// The field of the C struct for a member: none for a flag, which is a bit of
/// `flag`; otherwise its C type and codec. Private members are stored too.
pub open spec fn spec_c_field(m: MemberV) -> Option<CFieldV> {
    match spec_c_field_type(m) {
        None => None,
        Some(t) => Some(CFieldV { ty: t, codec: spec_codec(m.ty) }),
    }
}

/// The fields of the C struct of a model, one entry per member.
pub fn c_fields(model: &Model) -> (r: Vec<Option<CField>>)
    ensures
        r@.len() == model@.members.len(),
        forall|k: int| 0 <= k < r@.len() ==> opt_c_field_v(#[trigger] r@[k]) == spec_c_field(model@.members[k]),
{
    let mut r: Vec<Option<CField>> = Vec::new();
    let mut i: usize = 0;
    while i < model.members.len()
        invariant
            i <= model.members@.len(),
            r@.len() == i,
            forall|k: int| 0 <= k < i ==> opt_c_field_v(#[trigger] r@[k]) == spec_c_field(model@.members[k]),
        decreases model.members.len() - i,
    {
        assert(model@.members[i as int] == model.members@[i as int]@);
        let m = &model.members[i];
        let f = match c_field_type(m) {
            None => None,
            Some(ty) => {
                let codec = match &m.ty {
                    MemberType::Number { ty, is_float, .. } => Codec::Number { ty: ty.clone(), is_float: *is_float },
                    MemberType::Model { cty, .. } => Codec::Nested { cty: cty.clone() },
                    MemberType::BigInt { len } => Codec::Raw { len: *len },
                    MemberType::Bytes { len } => Codec::Raw { len: *len },
                    MemberType::String { len, .. } => Codec::Raw { len: *len },
                    MemberType::Ipv4 => Codec::Raw { len: 4 },
                    MemberType::Flag { .. } => Codec::Raw { len: 0 },
                };
                Some(CField { ty, codec })
            },
        };
        r.push(f);
        i = i + 1;
    }
    r
}

// ---------------------------------------------------------------------------
// The conversions between the Python class and the C struct.
// ---------------------------------------------------------------------------

/// How a member of the Python class becomes its field of the C struct.
#[derive(Debug, PartialEq, Eq)]
pub enum ToC {
    /// A private number: zero.
    ZeroNumber,
    /// A private byte array: `len` zero bytes.
    ZeroBytes { len: usize },
    /// The value as it is.
    Copy,
    /// Each text's bytes, cut or padded with zeros to `len` bytes.
    Text { len: usize },
    /// Each nested model's C struct.
    Nested,
    /// Each optional nested model's C struct; the default `cty` for a missing one.
    OptionalNested { cty: String },
}

pub enum ToCV {
    ZeroNumber,
    ZeroBytes { len: usize },
    Copy,
    Text { len: usize },
    Nested,
    OptionalNested { cty: Seq<char> },
}

impl View for ToC {
    type V = ToCV;

    open spec fn view(&self) -> ToCV {
        match self {
            ToC::ZeroNumber => ToCV::ZeroNumber,
            ToC::ZeroBytes { len } => ToCV::ZeroBytes { len: *len },
            ToC::Copy => ToCV::Copy,
            ToC::Text { len } => ToCV::Text { len: *len },
            ToC::Nested => ToCV::Nested,
            ToC::OptionalNested { cty } => ToCV::OptionalNested { cty: cty@ },
        }
    }
}

pub open spec fn opt_to_c_v(s: Option<ToC>) -> Option<ToCV> {
    match s {
        Some(s) => Some(s@),
        None => None,
    }
}

/// How a member becomes its C field: a private member (a number or bytes)
/// becomes zero; a flag has no field of its own; a text becomes its fixed
/// bytes, a nested model its C struct, anything else is copied.
pub open spec fn spec_to_c(m: MemberV) -> Option<ToCV> {
    if m.private {
        match m.ty {
            MemberTypeV::Bytes { len } => Some(ToCV::ZeroBytes { len }),
            _ => Some(ToCV::ZeroNumber),
        }
    } else {
        match m.ty {
            MemberTypeV::Flag { .. } => None,
            MemberTypeV::String { len, .. } => Some(ToCV::Text { len }),
            MemberTypeV::Model { cty, optional, .. } => Some(
                if optional {
                    ToCV::OptionalNested { cty }
                } else {
                    ToCV::Nested
                },
            ),
            _ => Some(ToCV::Copy),
        }
    }
}

/// How each member of the Python class becomes its C field, one entry per
/// member. The macro refuses (and panics on) a private member that is neither
/// a number nor bytes, which `invalid_private_member` finds; such models are
/// left out here.
pub fn to_c_plan(model: &Model) -> (r: Vec<Option<ToC>>)
    requires
        forall|k: int| 0 <= k < model@.members.len() ==> private_ok(#[trigger] model@.members[k]),
    ensures
        r@.len() == model@.members.len(),
        forall|k: int| 0 <= k < r@.len() ==> opt_to_c_v(#[trigger] r@[k]) == spec_to_c(model@.members[k]),
{
    let mut r: Vec<Option<ToC>> = Vec::new();
    let mut i: usize = 0;
    while i < model.members.len()
        invariant
            i <= model.members@.len(),
            r@.len() == i,
            forall|k: int| 0 <= k < i ==> opt_to_c_v(#[trigger] r@[k]) == spec_to_c(model@.members[k]),
        decreases model.members.len() - i,
    {
        assert(model@.members[i as int] == model.members@[i as int]@);
        let m = &model.members[i];
        let s = if m.private {
            match &m.ty {
                MemberType::Bytes { len } => Some(ToC::ZeroBytes { len: *len }),
                _ => Some(ToC::ZeroNumber),
            }
        } else {
            match &m.ty {
                MemberType::Flag { .. } => None,
                MemberType::String { len, .. } => Some(ToC::Text { len: *len }),
                MemberType::Model { cty, optional, .. } => Some(
                    if *optional {
                        ToC::OptionalNested { cty: cty.clone() }
                    } else {
                        ToC::Nested
                    },
                ),
                _ => Some(ToC::Copy),
            }
        };
        r.push(s);
        i = i + 1;
    }
    r
}

/// How a field of the C struct becomes its member of the Python class.
#[derive(Debug, PartialEq, Eq)]
pub enum FromC {
    /// The value as it is.
    Copy,
    /// Each text read from its fixed bytes (`from_fixed_bytes`).
    Text,
    /// Each nested model `ty` read from its C struct.
    Nested { ty: String },
    /// Each optional nested model `ty`: `None` where the C struct is the
    /// empty one, the model read from it otherwise.
    OptionalNested { ty: String },
}

pub enum FromCV {
    Copy,
    Text,
    Nested { ty: Seq<char> },
    OptionalNested { ty: Seq<char> },
}

impl View for FromC {
    type V = FromCV;

    open spec fn view(&self) -> FromCV {
        match self {
            FromC::Copy => FromCV::Copy,
            FromC::Text => FromCV::Text,
            FromC::Nested { ty } => FromCV::Nested { ty: ty@ },
            FromC::OptionalNested { ty } => FromCV::OptionalNested { ty: ty@ },
        }
    }
}

pub open spec fn opt_from_c_v(s: Option<FromC>) -> Option<FromCV> {
    match s {
        Some(s) => Some(s@),
        None => None,
    }
}

/// How a C field becomes its member: private members and flags are not read
/// back; a text is read from its bytes, a nested model from its C struct,
/// anything else is copied.
pub open spec fn spec_from_c(m: MemberV) -> Option<FromCV> {
    if m.private {
        None
    } else {
        match m.ty {
            MemberTypeV::Flag { .. } => None,
            MemberTypeV::String { .. } => Some(FromCV::Text),
            MemberTypeV::Model { ty, optional, .. } => Some(
                if optional {
                    FromCV::OptionalNested { ty }
                } else {
                    FromCV::Nested { ty }
                },
            ),
            _ => Some(FromCV::Copy),
        }
    }
}

/// How each C field becomes its member of the Python class, one entry per
/// member.
pub fn from_c_plan(model: &Model) -> (r: Vec<Option<FromC>>)
    ensures
        r@.len() == model@.members.len(),
        forall|k: int| 0 <= k < r@.len() ==> opt_from_c_v(#[trigger] r@[k]) == spec_from_c(model@.members[k]),
{
    let mut r: Vec<Option<FromC>> = Vec::new();
    let mut i: usize = 0;
    while i < model.members.len()
        invariant
            i <= model.members@.len(),
            r@.len() == i,
            forall|k: int| 0 <= k < i ==> opt_from_c_v(#[trigger] r@[k]) == spec_from_c(model@.members[k]),
        decreases model.members.len() - i,
    {
        assert(model@.members[i as int] == model.members@[i as int]@);
        let m = &model.members[i];
        let s = if m.private {
            None
        } else {
            match &m.ty {
                MemberType::Flag { .. } => None,
                MemberType::String { .. } => Some(FromC::Text),
                MemberType::Model { ty, optional, .. } => Some(
                    if *optional {
                        FromC::OptionalNested { ty: ty.clone() }
                    } else {
                        FromC::Nested { ty: ty.clone() }
                    },
                ),
                _ => Some(FromC::Copy),
            }
        };
        r.push(s);
        i = i + 1;
    }
    r
}

/// A member survives the trip through the C struct: each public member other
/// than a flag is written to its C field and read back by the matching step
/// (what is copied is copied back, a text is read from the bytes it was fixed
/// to, a nested model from its C struct); a private member is written as zeros
/// and not read back; a flag is neither, being a bit of `flag`. Every member
/// but a flag has a C field.
pub proof fn law_conversions_match(m: MemberV)
    requires
        private_ok(m),
    ensures
        m.private ==> spec_from_c(m) is None && (spec_to_c(m) matches Some(s) && (s is ZeroNumber
            || s is ZeroBytes)),
        !m.private && !(m.ty is Flag) ==> match (spec_to_c(m), spec_from_c(m)) {
            (Some(ToCV::Copy), Some(FromCV::Copy)) => true,
            (Some(ToCV::Text { .. }), Some(FromCV::Text)) => true,
            (Some(ToCV::Nested), Some(FromCV::Nested { .. })) => true,
            (Some(ToCV::OptionalNested { .. }), Some(FromCV::OptionalNested { .. })) => true,
            _ => false,
        },
        m.ty is Flag ==> spec_to_c(m) is None && spec_from_c(m) is None && spec_c_field(m) is None,
        !(m.ty is Flag) ==> spec_c_field(m) is Some,
{
}

/// Only text goes through text: a public member is fixed to bytes on the way
/// to C, and read back as text, exactly when it is a text member, and then to
/// the length of its text and of its C field. Numbers, raw bytes, big
/// integers and addresses are copied each way, byte for byte.
pub proof fn law_text_conversion_only_for_text(m: MemberV)
    requires
        !m.private,
    ensures
        (spec_to_c(m) is Some && spec_to_c(m)->0 is Text) ==> (m.ty is String && m.ty->String_len == spec_to_c(
            m,
        )->0->Text_len && spec_c_field(m) is Some && spec_c_field(m)->0.codec == (CodecV::Raw {
            len: m.ty->String_len,
        })),
        m.ty is String ==> spec_to_c(m) == Some((ToCV::Text { len: m.ty->String_len })),
        (spec_from_c(m) == Some(FromCV::Text)) <==> (m.ty is String),
        (m.ty is Number || m.ty is Bytes || m.ty is BigInt || m.ty is Ipv4) ==> (spec_to_c(m) == Some(ToCV::Copy)
            && spec_from_c(m) == Some(FromCV::Copy)),
{
}

/// What the accessors and the `dict` method of a public member keep of it:
/// a text setter keeps the text's length and the text of its validator; a
/// number setter keeps the number's type and the text of each given bound (and
/// has no bound that was not given); the `dict` key is the member's name; a
/// private member gets neither.
pub proof fn law_accessors_keep_member(m: MemberV)
    ensures
        m.private ==> spec_accessor(m) is None && spec_dict_entry(m) is None,
        !m.private ==> spec_dict_entry(m) is Some && spec_dict_entry(m)->0.key == m.ident,
        (!m.private && m.ty is String) ==> (spec_accessor(m) is Some && spec_accessor(m)->0 is Text
            && spec_accessor(m)->0->Text_len == m.ty->String_len && (spec_accessor(m)->0->Text_validator is Some
            <==> m.ty->String_validator is Some) && (m.ty->String_validator is Some ==> spec_accessor(
            m,
        )->0->Text_validator->0 == tokens_text(m.ty->String_validator->0))),
        (!m.private && m.ty is Number) ==> (spec_accessor(m) is Some && spec_accessor(m)->0 is Number
            && spec_accessor(m)->0->Number_ty == m.ty->Number_ty && (spec_accessor(m)->0->Number_min is Some
            <==> m.ty->Number_min is Some) && (spec_accessor(m)->0->Number_max is Some
            <==> m.ty->Number_max is Some) && (m.ty->Number_min is Some ==> spec_accessor(
            m,
        )->0->Number_min->0.text == tokens_text(m.ty->Number_min->0)) && (m.ty->Number_max is Some
            ==> spec_accessor(m)->0->Number_max->0.text == tokens_text(m.ty->Number_max->0))),
{
}

/// Each stored member's C field is coded by what it holds: a number by its own
/// type and float-ness, a nested model by its C struct, and text, raw bytes,
/// a big integer or an address as that many raw bytes (four for an address);
/// a private byte array goes to C as zeros of its own length.
pub proof fn law_c_codec_by_member(m: MemberV)
    ensures
        m.ty is Number ==> (spec_c_field(m) is Some && spec_c_field(m)->0.codec == (CodecV::Number {
            ty: m.ty->Number_ty,
            is_float: m.ty->Number_is_float,
        })),
        m.ty is Model ==> (spec_c_field(m) is Some && spec_c_field(m)->0.codec == (CodecV::Nested {
            cty: m.ty->Model_cty,
        })),
        m.ty is String ==> (spec_c_field(m) is Some && spec_c_field(m)->0.codec == (CodecV::Raw {
            len: m.ty->String_len,
        })),
        m.ty is Bytes ==> (spec_c_field(m) is Some && spec_c_field(m)->0.codec == (CodecV::Raw {
            len: m.ty->Bytes_len,
        })),
        m.ty is BigInt ==> (spec_c_field(m) is Some && spec_c_field(m)->0.codec == (CodecV::Raw {
            len: m.ty->BigInt_len,
        })),
        m.ty is Ipv4 ==> (spec_c_field(m) is Some && spec_c_field(m)->0.codec == (CodecV::Raw { len: 4 })),
        (m.private && m.ty is Bytes) ==> spec_to_c(m) == Some((ToCV::ZeroBytes { len: m.ty->Bytes_len })),
        (m.private && m.ty is Number) ==> spec_to_c(m) == Some(ToCV::ZeroNumber),
{
}

// ---------------------------------------------------------------------------
// The default value of the Python class.
// ---------------------------------------------------------------------------

/// The default of each element of a member of the Python class.
#[derive(Debug, PartialEq, Eq)]
pub enum PyZero {
    /// `len` zero bytes.
    Bytes { len: usize },
    /// The empty text.
    Text,
    /// The default of the nested model `ty`.
    Nested { ty: String },
    /// No model (`None`).
    Missing,
    /// Zero, `0.0` when `is_float`.
    Number { is_float: bool },
}

pub enum PyZeroV {
    Bytes { len: usize },
    Text,
    Nested { ty: Seq<char> },
    Missing,
    Number { is_float: bool },
}

impl View for PyZero {
    type V = PyZeroV;

    open spec fn view(&self) -> PyZeroV {
        match self {
            PyZero::Bytes { len } => PyZeroV::Bytes { len: *len },
            PyZero::Text => PyZeroV::Text,
            PyZero::Nested { ty } => PyZeroV::Nested { ty: ty@ },
            PyZero::Missing => PyZeroV::Missing,
            PyZero::Number { is_float } => PyZeroV::Number { is_float: *is_float },
        }
    }
}

pub open spec fn opt_py_zero_v(z: Option<PyZero>) -> Option<PyZeroV> {
    match z {
        Some(z) => Some(z@),
        None => None,
    }
}

/// The default of a member's elements: none for a private member or a flag;
/// zero bytes for bytes, a big integer or an address (four), the empty text,
/// a default nested model, no optional model, and zero for a number.
pub open spec fn spec_py_zero(m: MemberV) -> Option<PyZeroV> {
    if m.private {
        None
    } else {
        match m.ty {
            MemberTypeV::Bytes { len } => Some(PyZeroV::Bytes { len }),
            MemberTypeV::BigInt { len } => Some(PyZeroV::Bytes { len }),
            MemberTypeV::Ipv4 => Some(PyZeroV::Bytes { len: 4 }),
            MemberTypeV::String { .. } => Some(PyZeroV::Text),
            MemberTypeV::Model { ty, optional, .. } => Some(
                if optional {
                    PyZeroV::Missing
                } else {
                    PyZeroV::Nested { ty }
                },
            ),
            MemberTypeV::Number { is_float, .. } => Some(PyZeroV::Number { is_float }),
            MemberTypeV::Flag { .. } => None,
        }
    }
}

/// The default value of the Python class of a model, one entry per member.
pub fn default_plan(model: &Model) -> (r: Vec<Option<PyZero>>)
    ensures
        r@.len() == model@.members.len(),
        forall|k: int| 0 <= k < r@.len() ==> opt_py_zero_v(#[trigger] r@[k]) == spec_py_zero(model@.members[k]),
{
    let mut r: Vec<Option<PyZero>> = Vec::new();
    let mut i: usize = 0;
    while i < model.members.len()
        invariant
            i <= model.members@.len(),
            r@.len() == i,
            forall|k: int| 0 <= k < i ==> opt_py_zero_v(#[trigger] r@[k]) == spec_py_zero(model@.members[k]),
        decreases model.members.len() - i,
    {
        assert(model@.members[i as int] == model.members@[i as int]@);
        let m = &model.members[i];
        let z = if m.private {
            None
        } else {
            match &m.ty {
                MemberType::Bytes { len } => Some(PyZero::Bytes { len: *len }),
                MemberType::BigInt { len } => Some(PyZero::Bytes { len: *len }),
                MemberType::Ipv4 => Some(PyZero::Bytes { len: 4 }),
                MemberType::String { .. } => Some(PyZero::Text),
                MemberType::Model { ty, optional, .. } => Some(
                    if *optional {
                        PyZero::Missing
                    } else {
                        PyZero::Nested { ty: ty.clone() }
                    },
                ),
                MemberType::Number { is_float, .. } => Some(PyZero::Number { is_float: *is_float }),
                MemberType::Flag { .. } => None,
            }
        };
        r.push(z);
        i = i + 1;
    }
    r
}

} // verus!
