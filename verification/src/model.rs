use vstd::prelude::*;

verus! {

// ---------------------------------------------------------------------------
// The declaration of a model struct, as written by the user: plain values.
// ---------------------------------------------------------------------------

/// One token of an attribute's argument list or of the macro's arguments.
#[derive(Debug, PartialEq, Eq)]
pub enum AttrToken {
    /// An identifier, by its text.
    Ident(String),
    /// A punctuation character and whether it is joined to the next token.
    Punct(char, bool),
    /// A literal or a delimited group, by its text.
    Other(String),
}

/// The first attribute of a field, by its form.
#[derive(Debug, PartialEq, Eq)]
pub enum AttrMeta {
    /// `#[name]`: the first segment of the path.
    Path(String),
    /// `#[name(tokens)]`: the first segment of the path and the tokens.
    List(String, Vec<AttrToken>),
    /// `#[name = value]`.
    NameValue,
}

/// The length expression of an array type.
#[derive(Debug, PartialEq, Eq)]
pub enum ArrayLen {
    /// An integer literal, by its base-10 digits.
    Int(String),
    /// Any other expression.
    Other,
}

/// A field's type.
#[derive(Debug, PartialEq, Eq)]
pub enum TypeExpr {
    /// A path type, by its first segment and that segment's arguments.
    Path(String, PathArgs),
    /// `[elem; len]`.
    Array(Box<TypeExpr>, ArrayLen),
    /// Any other type.
    Other,
}

/// The arguments of a path segment.
#[derive(Debug, PartialEq, Eq)]
pub enum PathArgs {
    /// No arguments.
    Plain,
    /// `<..>`: the first argument, if there is one.
    Angle(Option<Box<GenericArg>>),
    /// `(..)`.
    Paren,
}

/// A generic argument.
#[derive(Debug, PartialEq, Eq)]
pub enum GenericArg {
    /// A type argument.
    Type(TypeExpr),
    /// A lifetime, a constant or a binding.
    Other,
}

/// One field of the declared struct.
#[derive(Debug, PartialEq, Eq)]
pub struct FieldDecl {
    pub ident: Option<String>,
    pub ty: TypeExpr,
    pub attrs: Vec<AttrMeta>,
}

/// The fields of the declared struct.
#[derive(Debug, PartialEq, Eq)]
pub enum FieldsDecl {
    Named(Vec<FieldDecl>),
    Unit,
    Unnamed,
}

/// The declared struct.
#[derive(Debug, PartialEq, Eq)]
pub struct StructDecl {
    pub ident: String,
    pub fields: FieldsDecl,
}

// ---------------------------------------------------------------------------
// The parsed model.
// ---------------------------------------------------------------------------

/// How a member is stored and shown.
#[derive(Debug, PartialEq, Eq)]
pub enum MemberType {
    /// Text kept in a fixed number of bytes, with an optional validator.
    String { len: usize, validator: Option<Vec<AttrToken>> },
    /// A number of primitive type `ty`, with optional bounds.
    Number { ty: String, min: Option<Vec<AttrToken>>, max: Option<Vec<AttrToken>>, is_float: bool },
    /// An unsigned integer kept in `len` little-endian bytes.
    BigInt { len: usize },
    /// Raw bytes.
    Bytes { len: usize },
    /// Another model, possibly optional.
    Model { ty: String, cty: String, optional: bool },
    /// A bit of the `flag` member, by the name of its mask.
    Flag { fl: String },
    /// An IPv4 address in four bytes.
    Ipv4,
}

/// One member of a model.
#[derive(Debug, PartialEq, Eq)]
pub struct Member {
    pub ident: String,
    pub ty: MemberType,
    pub private: bool,
    pub arr: Option<Vec<usize>>,
}

/// A parsed model.
#[derive(Debug, PartialEq, Eq)]
pub struct Model {
    pub ident: String,
    pub c_ident: String,
    pub members: Vec<Member>,
    pub has_models: bool,
    pub hexable: bool,
}

/// The reasons a declaration is refused.
#[derive(Debug, PartialEq, Eq)]
pub enum ModelError {
    /// The struct has unnamed fields.
    InvalidStructFields,
    /// A field has no name.
    FieldIdentNotFound,
    /// A key in an attribute's list is not an identifier.
    AttrKeyNotIdent(AttrToken),
    /// An attribute's list is not of the form `key = value, ..`.
    InvalidAttrs,
    /// `Option<>` is given no argument.
    MissingGenericArg,
    /// The argument of `Option` is not a type.
    InvalidGenericArg,
    /// `Option` is not given one angle-bracketed argument.
    InvalidOptionArgs,
    /// An array length is not an integer literal.
    ArrayLenNotLiteral,
    /// An array length does not fit in `usize`.
    ArrayLenOverflow,
    /// An `ipv4` array does not have four bytes.
    Ipv4Length,
    /// A byte array carries an attribute that does not apply to it.
    UnsupportedByteArrayAttr,
    /// A field's type is neither a path nor an array.
    InvalidType,
}

// ---------------------------------------------------------------------------
// Views.
// ---------------------------------------------------------------------------

pub enum TokenV {
    Ident(Seq<char>),
    Punct(char, bool),
    Other(Seq<char>),
}

impl View for AttrToken {
    type V = TokenV;

    open spec fn view(&self) -> TokenV {
        match self {
            AttrToken::Ident(s) => TokenV::Ident(s@),
            AttrToken::Punct(c, j) => TokenV::Punct(*c, *j),
            AttrToken::Other(s) => TokenV::Other(s@),
        }
    }
}

/// The view of a token list.
pub open spec fn tokens_v(v: Seq<AttrToken>) -> Seq<TokenV> {
    v.map_values(|t: AttrToken| t@)
}

/// The view of an optional token list.
pub open spec fn opt_tokens_v(o: Option<Vec<AttrToken>>) -> Option<Seq<TokenV>> {
    match o {
        Some(v) => Some(tokens_v(v@)),
        None => None,
    }
}

pub enum MemberTypeV {
    String { len: usize, validator: Option<Seq<TokenV>> },
    Number { ty: Seq<char>, min: Option<Seq<TokenV>>, max: Option<Seq<TokenV>>, is_float: bool },
    BigInt { len: usize },
    Bytes { len: usize },
    Model { ty: Seq<char>, cty: Seq<char>, optional: bool },
    Flag { fl: Seq<char> },
    Ipv4,
}

impl View for MemberType {
    type V = MemberTypeV;

    open spec fn view(&self) -> MemberTypeV {
        match self {
            MemberType::String { len, validator } => MemberTypeV::String {
                len: *len,
                validator: opt_tokens_v(*validator),
            },
            MemberType::Number { ty, min, max, is_float } => MemberTypeV::Number {
                ty: ty@,
                min: opt_tokens_v(*min),
                max: opt_tokens_v(*max),
                is_float: *is_float,
            },
            MemberType::BigInt { len } => MemberTypeV::BigInt { len: *len },
            MemberType::Bytes { len } => MemberTypeV::Bytes { len: *len },
            MemberType::Model { ty, cty, optional } => MemberTypeV::Model {
                ty: ty@,
                cty: cty@,
                optional: *optional,
            },
            MemberType::Flag { fl } => MemberTypeV::Flag { fl: fl@ },
            MemberType::Ipv4 => MemberTypeV::Ipv4,
        }
    }
}

/// The view of optional array dimensions.
pub open spec fn opt_dims_v(o: Option<Vec<usize>>) -> Option<Seq<usize>> {
    match o {
        Some(v) => Some(v@),
        None => None,
    }
}

pub struct MemberV {
    pub ident: Seq<char>,
    pub ty: MemberTypeV,
    pub private: bool,
    pub arr: Option<Seq<usize>>,
}

impl View for Member {
    type V = MemberV;

    open spec fn view(&self) -> MemberV {
        MemberV { ident: self.ident@, ty: self.ty@, private: self.private, arr: opt_dims_v(self.arr) }
    }
}

/// The view of a list of members.
pub open spec fn members_v(v: Seq<Member>) -> Seq<MemberV> {
    v.map_values(|m: Member| m@)
}

pub struct ModelV {
    pub ident: Seq<char>,
    pub c_ident: Seq<char>,
    pub members: Seq<MemberV>,
    pub has_models: bool,
    pub hexable: bool,
}

impl View for Model {
    type V = ModelV;

    open spec fn view(&self) -> ModelV {
        ModelV {
            ident: self.ident@,
            c_ident: self.c_ident@,
            members: members_v(self.members@),
            has_models: self.has_models,
            hexable: self.hexable,
        }
    }
}

pub enum ModelErrorV {
    InvalidStructFields,
    FieldIdentNotFound,
    AttrKeyNotIdent(TokenV),
    InvalidAttrs,
    MissingGenericArg,
    InvalidGenericArg,
    InvalidOptionArgs,
    ArrayLenNotLiteral,
    ArrayLenOverflow,
    Ipv4Length,
    UnsupportedByteArrayAttr,
    InvalidType,
}

impl View for ModelError {
    type V = ModelErrorV;

    open spec fn view(&self) -> ModelErrorV {
        match self {
            ModelError::InvalidStructFields => ModelErrorV::InvalidStructFields,
            ModelError::FieldIdentNotFound => ModelErrorV::FieldIdentNotFound,
            ModelError::AttrKeyNotIdent(t) => ModelErrorV::AttrKeyNotIdent(t@),
            ModelError::InvalidAttrs => ModelErrorV::InvalidAttrs,
            ModelError::MissingGenericArg => ModelErrorV::MissingGenericArg,
            ModelError::InvalidGenericArg => ModelErrorV::InvalidGenericArg,
            ModelError::InvalidOptionArgs => ModelErrorV::InvalidOptionArgs,
            ModelError::ArrayLenNotLiteral => ModelErrorV::ArrayLenNotLiteral,
            ModelError::ArrayLenOverflow => ModelErrorV::ArrayLenOverflow,
            ModelError::Ipv4Length => ModelErrorV::Ipv4Length,
            ModelError::UnsupportedByteArrayAttr => ModelErrorV::UnsupportedByteArrayAttr,
            ModelError::InvalidType => ModelErrorV::InvalidType,
        }
    }
}

} // verus!

verus! {

impl AttrToken {
    /// A token with the same view.
    pub fn copy(&self) -> (r: AttrToken)
        ensures
            r@ == self@,
    {
        match self {
            AttrToken::Ident(s) => AttrToken::Ident(s.clone()),
            AttrToken::Punct(c, j) => AttrToken::Punct(*c, *j),
            AttrToken::Other(s) => AttrToken::Other(s.clone()),
        }
    }
}

/// A token list with the same view.
pub fn copy_tokens(v: &Vec<AttrToken>) -> (r: Vec<AttrToken>)
    ensures
        tokens_v(r@) == tokens_v(v@),
{
    let mut r: Vec<AttrToken> = Vec::new();
    let mut i: usize = 0;
    while i < v.len()
        invariant
            i <= v.len(),
            r@.len() == i,
            forall|k: int| 0 <= k < i ==> #[trigger] r@[k]@ == v@[k]@,
        decreases v.len() - i,
    {
        r.push(v[i].copy());
        i = i + 1;
    }
    assert(tokens_v(r@) =~= tokens_v(v@));
    r
}

/// An optional token list with the same view.
pub fn copy_opt_tokens(o: &Option<Vec<AttrToken>>) -> (r: Option<Vec<AttrToken>>)
    ensures
        opt_tokens_v(r) == opt_tokens_v(*o),
{
    match o {
        Some(v) => Some(copy_tokens(v)),
        None => None,
    }
}

} // verus!
