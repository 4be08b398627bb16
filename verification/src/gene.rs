use vstd::prelude::*;
use vstd::string::StringSliceAdditionalSpecFns;
use vstd::utf8::encode_utf8;
use crate::hex::{from_hex, hex, hex_lower, spec_from_hex, pairs_on_boundaries, HexError};

verus! {

/// The identity of a record: who made it and where it lives.
#[derive(Debug, Clone, Copy, PartialEq, Eq, Structural)]
pub struct Gene {
    pub id: u32,
    pub pepper: u16,
    pub server: u16,
}

/// The C layout of a gene: `id`, `pepper`, `server`, in that order and with no
/// padding, each in the machine's byte order.
#[derive(Debug, Clone, Copy, PartialEq, Eq, Structural)]
pub struct CGene {
    pub id: u32,
    pub pepper: u16,
    pub server: u16,
}

/// The size of a gene in bytes.
pub const GENE_SIZE: usize = 8;

/// The reasons a gene is refused.
#[derive(Debug, PartialEq, Eq, Structural)]
pub enum GeneError {
    /// The bytes or text are not of a gene's length.
    InvalidValueLength,
    /// The text is not hex.
    InvalidHex,
}

/// The little-endian value of `n` bytes of `b` from `off` on.
pub open spec fn le_value(b: Seq<u8>, off: int, n: nat) -> nat
    decreases n,
{
    if n == 0 {
        0
    } else {
        b[off] as nat + 256 * le_value(b, off + 1, (n - 1) as nat)
    }
}

/// The little-endian bytes of the low `n` bytes of `x`.
pub open spec fn le_bytes(x: nat, n: nat) -> Seq<u8>
    decreases n,
{
    if n == 0 {
        Seq::empty()
    } else {
        seq![(x % 256) as u8] + le_bytes(x / 256, (n - 1) as nat)
    }
}

/// The big-endian value of `n` bytes of `b` from `off` on.
pub open spec fn be_value(b: Seq<u8>, off: int, n: nat) -> nat
    decreases n,
{
    if n == 0 {
        0
    } else {
        256 * be_value(b, off, (n - 1) as nat) + b[off + n - 1] as nat
    }
}

/// The big-endian bytes of the low `n` bytes of `x`.
pub open spec fn be_bytes(x: nat, n: nat) -> Seq<u8>
    decreases n,
{
    if n == 0 {
        Seq::empty()
    } else {
        be_bytes(x / 256, (n - 1) as nat) + seq![(x % 256) as u8]
    }
}

/// The order in which a machine keeps the bytes of a number.
#[derive(Debug, Clone, Copy, PartialEq, Eq, Structural)]
pub enum ByteOrder {
    Little,
    Big,
}

/// The value of `n` bytes of `b` from `off` on, in byte order `o`.
pub open spec fn value_in(b: Seq<u8>, off: int, n: nat, o: ByteOrder) -> nat {
    match o {
        ByteOrder::Little => le_value(b, off, n),
        ByteOrder::Big => be_value(b, off, n),
    }
}

/// The bytes of the low `n` bytes of `x`, in byte order `o`.
pub open spec fn bytes_in(x: nat, n: nat, o: ByteOrder) -> Seq<u8> {
    match o {
        ByteOrder::Little => le_bytes(x, n),
        ByteOrder::Big => be_bytes(x, n),
    }
}

/// The bytes of a gene's C struct in byte order `o`: `id`, `pepper` and
/// `server`, each in that order.
pub open spec fn gene_bytes(g: Gene, o: ByteOrder) -> Seq<u8> {
    bytes_in(g.id as nat, 4, o) + bytes_in(g.pepper as nat, 2, o) + bytes_in(g.server as nat, 2, o)
}

/// The gene that eight bytes of a C struct hold in byte order `o`.
pub open spec fn gene_of(b: Seq<u8>, o: ByteOrder) -> Gene {
    Gene {
        id: value_in(b, 0, 4, o) as u32,
        pepper: value_in(b, 4, 2, o) as u16,
        server: value_in(b, 6, 2, o) as u16,
    }
}

/// What reading a gene from bytes gives in byte order `o`.
pub open spec fn spec_from_bytes(b: Seq<u8>, o: ByteOrder) -> Result<Gene, GeneError> {
    if b.len() == GENE_SIZE {
        Ok(gene_of(b, o))
    } else {
        Err(GeneError::InvalidValueLength)
    }
}

/// What reading a gene from text gives in byte order `o`.
pub open spec fn spec_from_text(t: Seq<u8>, o: ByteOrder) -> Result<Gene, GeneError> {
    match spec_from_hex(t, GENE_SIZE as nat) {
        Ok(b) => Ok(gene_of(b, o)),
        Err(HexError::InvalidLength) => Err(GeneError::InvalidValueLength),
        Err(HexError::InvalidHex) => Err(GeneError::InvalidHex),
    }
}

/// std's `u16::from_ne_bytes`: the number that two bytes hold in the
/// machine's byte order. The contract states what holds on every machine:
/// the bytes are read little-endian or big-endian. Which of the two is left
/// unsaid, as it depends on the machine.
#[verifier::external_body]
fn u16_from_ne(b: [u8; 2]) -> (r: u16)
    ensures
        r == b[0] + 256 * b[1] || r == 256 * b[0] + b[1],
{
    u16::from_ne_bytes(b)
}

/// The byte order of this machine, told by reading the bytes `1, 0` as a
/// number: little-endian gives 1.
fn native_order() -> ByteOrder {
    if u16_from_ne([1, 0]) == 1 {
        ByteOrder::Little
    } else {
        ByteOrder::Big
    }
}

impl Gene {
    /// The gene of all zeros.
    pub fn default() -> (g: Gene)
        ensures
            g == (Gene { id: 0, pepper: 0, server: 0 }),
    {
        Gene { id: 0, pepper: 0, server: 0 }
    }

    /// The gene that `value` holds in byte order `order`: it must hold
    /// exactly eight bytes.
    pub fn from_bytes_in(value: &[u8], order: ByteOrder) -> (r: Result<Gene, GeneError>)
        ensures
            r == spec_from_bytes(value@, order),
    {
        if value.len() != GENE_SIZE {
            return Err(GeneError::InvalidValueLength);
        }
        let b0 = value[0] as u32;
        let b1 = value[1] as u32;
        let b2 = value[2] as u32;
        let b3 = value[3] as u32;
        let (id, pepper, server): (u32, u16, u16) = match order {
            ByteOrder::Little => (
                b0 + 256 * (b1 + 256 * (b2 + 256 * b3)),
                value[4] as u16 + 256 * (value[5] as u16),
                value[6] as u16 + 256 * (value[7] as u16),
            ),
            ByteOrder::Big => (
                256 * (256 * (256 * b0 + b1) + b2) + b3,
                256 * (value[4] as u16) + value[5] as u16,
                256 * (value[6] as u16) + value[7] as u16,
            ),
        };
        proof {
            reveal_with_fuel(le_value, 5);
            reveal_with_fuel(be_value, 5);
        }
        Ok(Gene { id, pepper, server })
    }

    /// The gene that `value` holds in this machine's byte order, as the C
    /// struct keeps it: it must hold exactly eight bytes.
    pub fn from_bytes(value: &[u8]) -> (r: Result<Gene, GeneError>)
        ensures
            r == spec_from_bytes(value@, ByteOrder::Little) || r == spec_from_bytes(value@, ByteOrder::Big),
    {
        Gene::from_bytes_in(value, native_order())
    }

    /// The gene that hex text holds in byte order `order`: exactly sixteen hex
    /// digits, two per byte.
    pub fn from_str_in(value: &str, order: ByteOrder) -> (r: Result<Gene, GeneError>)
        requires
            value.spec_bytes().len() == 2 * GENE_SIZE ==> pairs_on_boundaries(value.spec_bytes()),
        ensures
            r == spec_from_text(value.spec_bytes(), order),
    {
        match from_hex(value, GENE_SIZE) {
            Err(HexError::InvalidLength) => Err(GeneError::InvalidValueLength),
            Err(HexError::InvalidHex) => Err(GeneError::InvalidHex),
            Ok(b) => {
                proof {
                    crate::hex::lemma_from_hex_len(value.spec_bytes(), GENE_SIZE as nat);
                }
                Gene::from_bytes_in(b.as_slice(), order)
            },
        }
    }

    /// The gene that hex text holds in this machine's byte order.
    pub fn from_str(value: &str) -> (r: Result<Gene, GeneError>)
        requires
            value.spec_bytes().len() == 2 * GENE_SIZE ==> pairs_on_boundaries(value.spec_bytes()),
        ensures
            r == spec_from_text(value.spec_bytes(), ByteOrder::Little) || r == spec_from_text(
                value.spec_bytes(),
                ByteOrder::Big,
            ),
    {
        Gene::from_str_in(value, native_order())
    }

    /// The eight bytes of the gene's C struct in byte order `order`.
    pub fn to_bytes_in(&self, order: ByteOrder) -> (r: Vec<u8>)
        ensures
            r@ == gene_bytes(*self, order),
    {
        let id = self.id;
        let p = self.pepper;
        let s = self.server;
        let i0 = (id % 256) as u8;
        let i1 = ((id / 256) % 256) as u8;
        let i2 = ((id / 65536) % 256) as u8;
        let i3 = (id / 16777216) as u8;
        let p0 = (p % 256) as u8;
        let p1 = (p / 256) as u8;
        let s0 = (s % 256) as u8;
        let s1 = (s / 256) as u8;
        let mut r: Vec<u8> = Vec::new();
        match order {
            ByteOrder::Little => {
                r.push(i0);
                r.push(i1);
                r.push(i2);
                r.push(i3);
                r.push(p0);
                r.push(p1);
                r.push(s0);
                r.push(s1);
            },
            ByteOrder::Big => {
                r.push(i3);
                r.push(i2);
                r.push(i1);
                r.push(i0);
                r.push(p1);
                r.push(p0);
                r.push(s1);
                r.push(s0);
            },
        }
        proof {
            reveal_with_fuel(le_bytes, 5);
            reveal_with_fuel(be_bytes, 5);
            assert(id / 16777216 < 256);
            assert(p / 256 < 256);
            assert(s / 256 < 256);
            assert((id / 16777216) % 256 == id / 16777216);
            assert((p / 256) % 256 == p / 256);
            assert((s / 256) % 256 == s / 256);
        }
        assert(r@ =~= gene_bytes(*self, order));
        r
    }

    /// The eight bytes of the gene's C struct, in this machine's byte order.
    pub fn to_bytes(&self) -> (r: Vec<u8>)
        ensures
            r@ == gene_bytes(*self, ByteOrder::Little) || r@ == gene_bytes(*self, ByteOrder::Big),
    {
        self.to_bytes_in(native_order())
    }

    /// The gene as hex text in byte order `order`: its eight bytes, two
    /// lowercase digits each.
    pub fn to_str_in(&self, order: ByteOrder) -> (r: String)
        ensures
            r@ == hex_lower(gene_bytes(*self, order)),
    {
        let b = self.to_bytes_in(order);
        hex(b.as_slice())
    }

    /// The gene as hex text, its bytes in this machine's byte order.
    pub fn to_str(&self) -> (r: String)
        ensures
            r@ == hex_lower(gene_bytes(*self, ByteOrder::Little)) || r@ == hex_lower(
                gene_bytes(*self, ByteOrder::Big),
            ),
    {
        self.to_str_in(native_order())
    }

    /// The gene as it is shown: the same text as `to_str`.
    pub fn repr(&self) -> (r: String)
        ensures
            r@ == hex_lower(gene_bytes(*self, ByteOrder::Little)) || r@ == hex_lower(
                gene_bytes(*self, ByteOrder::Big),
            ),
    {
        self.to_str()
    }
}

impl CGene {
    /// The C layout of a gene.
    pub fn from_gene(g: &Gene) -> (c: CGene)
        ensures
            c.id == g.id && c.pepper == g.pepper && c.server == g.server,
    {
        CGene { id: g.id, pepper: g.pepper, server: g.server }
    }

    /// Whether the gene is empty: its `id` is zero.
    pub fn is_none(&self) -> (r: bool)
        ensures
            r == (self.id == 0),
    {
        self.id == 0
    }
}

/// What a new gene is made from.
#[derive(Debug, PartialEq, Eq)]
pub enum GeneSource {
    /// Nothing.
    Absent,
    /// A gene.
    Given(Gene),
    /// Bytes.
    Bytes(Vec<u8>),
    /// Text.
    Text(String),
    /// Anything else.
    Other,
}

/// Whether a gene source can be read: text of a gene's length is read pair by
/// pair.
pub open spec fn source_readable(v: GeneSource) -> bool {
    v matches GeneSource::Text(s) ==> (encode_utf8(s@).len() == 2 * GENE_SIZE ==> pairs_on_boundaries(
        encode_utf8(s@),
    ))
}

/// What a new gene is made from a source, in byte order `o`.
pub open spec fn spec_py_new(v: GeneSource, o: ByteOrder) -> Result<Gene, GeneError> {
    match v {
        GeneSource::Absent | GeneSource::Other => Ok(Gene { id: 0, pepper: 0, server: 0 }),
        GeneSource::Given(g) => Ok(g),
        GeneSource::Bytes(b) => spec_from_bytes(b@, o),
        GeneSource::Text(s) => spec_from_text(encode_utf8(s@), o),
    }
}

impl Gene {
    /// A new gene, bytes read in byte order `order`: a given gene as it is,
    /// bytes and text read as a gene's, and the gene of zeros from nothing or
    /// anything else.
    pub fn py_new_in(value: GeneSource, order: ByteOrder) -> (r: Result<Gene, GeneError>)
        requires
            source_readable(value),
        ensures
            r == spec_py_new(value, order),
    {
        match value {
            GeneSource::Given(g) => Ok(g),
            GeneSource::Bytes(b) => Gene::from_bytes_in(b.as_slice(), order),
            GeneSource::Text(s) => Gene::from_str_in(s.as_str(), order),
            _ => Ok(Gene::default()),
        }
    }

    /// A new gene, bytes read in this machine's byte order.
    pub fn py_new(value: GeneSource) -> (r: Result<Gene, GeneError>)
        requires
            source_readable(value),
        ensures
            r == spec_py_new(value, ByteOrder::Little) || r == spec_py_new(value, ByteOrder::Big),
    {
        let ghost v = value;
        let order = native_order();
        let r = Gene::py_new_in(value, order);
        assert(r == spec_py_new(v, order));
        r
    }
}

} // verus!

verus! {

proof fn lemma_le_roundtrip_4(x: u32)
    ensures
        le_bytes(x as nat, 4).len() == 4,
        le_value(le_bytes(x as nat, 4), 0, 4) == x,
{
    reveal_with_fuel(le_bytes, 5);
    reveal_with_fuel(le_value, 5);
    let b = le_bytes(x as nat, 4);
    assert(b[0] == x % 256);
    assert(b[1] == (x / 256) % 256);
    assert(b[2] == (x / 256 / 256) % 256);
    assert(b[3] == (x / 256 / 256 / 256) % 256);
    assert(x % 256 + 256 * ((x / 256) % 256 + 256 * ((x / 256 / 256) % 256 + 256 * ((x / 256 / 256 / 256) % 256))) == x)
        by (nonlinear_arith);
}

proof fn lemma_le_roundtrip_2(x: u16)
    ensures
        le_bytes(x as nat, 2).len() == 2,
        le_value(le_bytes(x as nat, 2), 0, 2) == x,
{
    reveal_with_fuel(le_bytes, 3);
    reveal_with_fuel(le_value, 3);
    let b = le_bytes(x as nat, 2);
    assert(b[0] == x % 256);
    assert(b[1] == (x / 256) % 256);
    assert(x % 256 + 256 * ((x / 256) % 256) == x) by (nonlinear_arith);
}

proof fn lemma_be_roundtrip_4(x: u32)
    ensures
        be_bytes(x as nat, 4).len() == 4,
        be_value(be_bytes(x as nat, 4), 0, 4) == x,
{
    reveal_with_fuel(be_bytes, 5);
    reveal_with_fuel(be_value, 5);
    let b = be_bytes(x as nat, 4);
    assert(b[3] == x % 256);
    assert(b[2] == (x / 256) % 256);
    assert(b[1] == (x / 256 / 256) % 256);
    assert(b[0] == (x / 256 / 256 / 256) % 256);
    assert(256 * (256 * (256 * ((x / 256 / 256 / 256) % 256) + (x / 256 / 256) % 256) + (x / 256) % 256) + x % 256 == x)
        by (nonlinear_arith);
}

proof fn lemma_be_roundtrip_2(x: u16)
    ensures
        be_bytes(x as nat, 2).len() == 2,
        be_value(be_bytes(x as nat, 2), 0, 2) == x,
{
    reveal_with_fuel(be_bytes, 3);
    reveal_with_fuel(be_value, 3);
    let b = be_bytes(x as nat, 2);
    assert(b[1] == x % 256);
    assert(b[0] == (x / 256) % 256);
    assert(256 * ((x / 256) % 256) + x % 256 == x) by (nonlinear_arith);
}

proof fn lemma_gene_of_bytes(g: Gene, o: ByteOrder)
    ensures
        gene_bytes(g, o).len() == GENE_SIZE,
        gene_of(gene_bytes(g, o), o) == g,
{
    reveal_with_fuel(le_bytes, 5);
    reveal_with_fuel(le_value, 5);
    reveal_with_fuel(be_bytes, 5);
    reveal_with_fuel(be_value, 5);
    let bs = gene_bytes(g, o);
    let x = bytes_in(g.id as nat, 4, o);
    let y = bytes_in(g.pepper as nat, 2, o);
    let z = bytes_in(g.server as nat, 2, o);
    match o {
        ByteOrder::Little => {
            lemma_le_roundtrip_4(g.id);
            lemma_le_roundtrip_2(g.pepper);
            lemma_le_roundtrip_2(g.server);
        },
        ByteOrder::Big => {
            lemma_be_roundtrip_4(g.id);
            lemma_be_roundtrip_2(g.pepper);
            lemma_be_roundtrip_2(g.server);
        },
    }
    assert(bs[0] == x[0] && bs[1] == x[1] && bs[2] == x[2] && bs[3] == x[3]);
    assert(bs[4] == y[0] && bs[5] == y[1] && bs[6] == z[0] && bs[7] == z[1]);
    assert(value_in(bs, 0, 4, o) == value_in(x, 0, 4, o));
    assert(value_in(bs, 4, 2, o) == value_in(y, 0, 2, o));
    assert(value_in(bs, 6, 2, o) == value_in(z, 0, 2, o));
}

proof fn lemma_bytes_of_gene(b: Seq<u8>, o: ByteOrder)
    requires
        b.len() == GENE_SIZE,
    ensures
        gene_bytes(gene_of(b, o), o) == b,
{
    reveal_with_fuel(le_bytes, 5);
    reveal_with_fuel(le_value, 5);
    reveal_with_fuel(be_bytes, 5);
    reveal_with_fuel(be_value, 5);
    let h = gene_of(b, o);
    match o {
        ByteOrder::Little => {
            let id = b[0] as nat + 256 * (b[1] as nat + 256 * (b[2] as nat + 256 * (b[3] as nat)));
            assert(le_value(b, 0, 4) == id);
            assert(id < 0x1_0000_0000 && id % 256 == b[0] && (id / 256) % 256 == b[1] && (id / 256 / 256) % 256
                == b[2] && (id / 256 / 256 / 256) % 256 == b[3]) by (nonlinear_arith)
                requires
                    id == b[0] as nat + 256 * (b[1] as nat + 256 * (b[2] as nat + 256 * (b[3] as nat))),
                    b[0] < 256 && b[1] < 256 && b[2] < 256 && b[3] < 256,
            ;
            let p = b[4] as nat + 256 * (b[5] as nat);
            let q = b[6] as nat + 256 * (b[7] as nat);
            assert(p % 256 == b[4] && (p / 256) % 256 == b[5]) by (nonlinear_arith)
                requires
                    p == b[4] as nat + 256 * (b[5] as nat),
                    b[4] < 256 && b[5] < 256,
            ;
            assert(q % 256 == b[6] && (q / 256) % 256 == b[7]) by (nonlinear_arith)
                requires
                    q == b[6] as nat + 256 * (b[7] as nat),
                    b[6] < 256 && b[7] < 256,
            ;
        },
        ByteOrder::Big => {
            let id = 256 * (256 * (256 * (b[0] as nat) + b[1] as nat) + b[2] as nat) + b[3] as nat;
            assert(be_value(b, 0, 4) == id);
            assert(id < 0x1_0000_0000 && id % 256 == b[3] && (id / 256) % 256 == b[2] && (id / 256 / 256) % 256
                == b[1] && (id / 256 / 256 / 256) % 256 == b[0]) by (nonlinear_arith)
                requires
                    id == 256 * (256 * (256 * (b[0] as nat) + b[1] as nat) + b[2] as nat) + b[3] as nat,
                    b[0] < 256 && b[1] < 256 && b[2] < 256 && b[3] < 256,
            ;
            let p = 256 * (b[4] as nat) + b[5] as nat;
            let q = 256 * (b[6] as nat) + b[7] as nat;
            assert(be_value(b, 4, 2) == p);
            assert(be_value(b, 6, 2) == q);
            assert(p % 256 == b[5] && (p / 256) % 256 == b[4]) by (nonlinear_arith)
                requires
                    p == 256 * (b[4] as nat) + b[5] as nat,
                    b[4] < 256 && b[5] < 256,
            ;
            assert(q % 256 == b[7] && (q / 256) % 256 == b[6]) by (nonlinear_arith)
                requires
                    q == 256 * (b[6] as nat) + b[7] as nat,
                    b[6] < 256 && b[7] < 256,
            ;
        },
    }
    assert(gene_bytes(h, o) =~= b);
}

/// In either byte order, the bytes of a gene hold the gene, and any eight
/// bytes are the bytes of the gene they hold.
pub proof fn law_gene_bytes_roundtrip(g: Gene, b: Seq<u8>, o: ByteOrder)
    ensures
        gene_bytes(g, o).len() == GENE_SIZE,
        gene_of(gene_bytes(g, o), o) == g,
        b.len() == GENE_SIZE ==> gene_bytes(gene_of(b, o), o) == b,
{
    lemma_gene_of_bytes(g, o);
    if b.len() == GENE_SIZE {
        lemma_bytes_of_gene(b, o);
    }
}

} // verus!

verus! {

/// In either byte order, reading back the text of a gene gives the gene: the
/// text has a gene's length, is readable pair by pair, and holds the gene's
/// bytes.
pub proof fn law_gene_text_roundtrip(g: Gene, o: ByteOrder)
    ensures
        pairs_on_boundaries(encode_utf8(hex_lower(gene_bytes(g, o)))),
        spec_from_hex(encode_utf8(hex_lower(gene_bytes(g, o))), GENE_SIZE as nat) == Ok::<_, HexError>(
            gene_bytes(g, o),
        ),
        spec_from_text(encode_utf8(hex_lower(gene_bytes(g, o))), o) == Ok::<_, GeneError>(g),
{
    law_gene_bytes_roundtrip(g, gene_bytes(g, o), o);
    crate::hex::law_hex_roundtrip(gene_bytes(g, o));
}

} // verus!
