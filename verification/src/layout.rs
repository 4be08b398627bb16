use vstd::prelude::*;

verus! {

/// The size and alignment of one field of a C struct.
#[derive(Debug, Clone, Copy, PartialEq, Eq, Structural)]
pub struct FieldShape {
    pub size: usize,
    pub align: usize,
}

/// `x` rounded up to a multiple of `a`.
pub open spec fn align_up(x: nat, a: nat) -> nat {
    if a == 0 || x % a == 0 {
        x
    } else {
        (x + (a - x % a)) as nat
    }
}

/// Where the fields of a C struct start, and where the last one ends: each
/// field starts at the first multiple of its alignment at or after the end of
/// the one before, the first at zero.
pub open spec fn offsets(fs: Seq<FieldShape>) -> (Seq<nat>, nat)
    decreases fs.len(),
{
    if fs.len() == 0 {
        (Seq::empty(), 0)
    } else {
        let (offs, end) = offsets(fs.drop_last());
        let o = align_up(end, fs.last().align as nat);
        (offs.push(o), o + fs.last().size as nat)
    }
}

/// The alignment of a C struct: the largest alignment of its fields, at least 1.
pub open spec fn struct_align(fs: Seq<FieldShape>) -> nat
    decreases fs.len(),
{
    if fs.len() == 0 {
        1
    } else {
        let a = struct_align(fs.drop_last());
        if fs.last().align > a {
            fs.last().align as nat
        } else {
            a
        }
    }
}

/// The size of a C struct: the end of its last field rounded up to the
/// struct's alignment.
pub open spec fn struct_size(fs: Seq<FieldShape>) -> nat {
    align_up(offsets(fs).1, struct_align(fs))
}

/// The layout of a C struct.
#[derive(Debug, PartialEq, Eq)]
pub struct Layout {
    pub offsets: Vec<usize>,
    pub size: usize,
    pub align: usize,
}

fn align_up_exec(x: usize, a: usize) -> (r: Option<usize>)
    ensures
        match r {
            Some(v) => v == align_up(x as nat, a as nat),
            None => align_up(x as nat, a as nat) > usize::MAX,
        },
{
    if a == 0 || x % a == 0 {
        Some(x)
    } else {
        let pad = a - x % a;
        x.checked_add(pad)
    }
}

/// The C (`repr(C)`) layout of a struct with the given fields: the start of
/// each field, the struct's size and its alignment; `None` when the size does
/// not fit in `usize`.
pub fn c_layout(fs: &Vec<FieldShape>) -> (r: Option<Layout>)
    ensures
        match r {
            Some(l) => l.offsets@.len() == fs@.len() && (forall|i: int|
                0 <= i < fs@.len() ==> l.offsets@[i] as nat == #[trigger] offsets(fs@).0[i]) && l.size as nat
                == struct_size(fs@) && l.align as nat == struct_align(fs@),
            None => offsets(fs@).1 > usize::MAX || struct_size(fs@) > usize::MAX,
        },
{
    let mut offs: Vec<usize> = Vec::new();
    let mut end: usize = 0;
    let mut al: usize = 1;
    let mut i: usize = 0;
    assert(fs@.take(0) =~= Seq::<FieldShape>::empty());
    while i < fs.len()
        invariant
            i <= fs@.len(),
            offs@.len() == i,
            offsets(fs@.take(i as int)).1 == end as nat,
            offsets(fs@.take(i as int)).0.len() == i,
            forall|k: int| 0 <= k < i ==> offs@[k] as nat == #[trigger] offsets(fs@.take(i as int)).0[k],
            struct_align(fs@.take(i as int)) == al as nat,
        decreases fs.len() - i,
    {
        let f = fs[i];
        let ghost pre = fs@.take(i as int);
        assert(fs@.take(i + 1).drop_last() =~= pre);
        assert(fs@.take(i + 1).last() == f);
        let o = match align_up_exec(end, f.align) {
            Some(o) => o,
            None => {
                proof {
                    lemma_offsets_grow(fs@, i + 1, fs@.len() as int);
                    assert(fs@.take(fs@.len() as int) =~= fs@);
                }
                return None;
            },
        };
        let e = match o.checked_add(f.size) {
            Some(e) => e,
            None => {
                proof {
                    lemma_offsets_grow(fs@, i + 1, fs@.len() as int);
                    assert(fs@.take(fs@.len() as int) =~= fs@);
                }
                return None;
            },
        };
        offs.push(o);
        end = e;
        if f.align > al {
            al = f.align;
        }
        i = i + 1;
        proof {
            let now = offsets(fs@.take(i as int)).0;
            assert forall|k: int| 0 <= k < i implies offs@[k] as nat == #[trigger] now[k] by {
                if k < i - 1 {
                    assert(now[k] == offsets(pre).0[k]);
                }
            }
        }
    }
    assert(fs@.take(i as int) =~= fs@);
    match align_up_exec(end, al) {
        Some(size) => Some(Layout { offsets: offs, size, align: al }),
        None => None,
    }
}

proof fn lemma_align_up_ge(x: nat, a: nat)
    ensures
        align_up(x, a) >= x,
{
}

proof fn lemma_offsets_grow(fs: Seq<FieldShape>, i: int, j: int)
    requires
        0 <= i <= j <= fs.len(),
    ensures
        offsets(fs.take(i)).1 <= offsets(fs.take(j)).1,
    decreases j - i,
{
    if i < j {
        lemma_offsets_grow(fs, i, j - 1);
        assert(fs.take(j).drop_last() =~= fs.take(j - 1));
        lemma_align_up_ge(offsets(fs.take(j - 1)).1, fs.take(j).last().align as nat);
    }
}

} // verus!

verus! {

proof fn lemma_align_up(x: nat, a: nat)
    requires
        a > 0,
    ensures
        align_up(x, a) % a == 0,
        x <= align_up(x, a) < x + a,
{
    if x % a != 0 {
        vstd::arithmetic::div_mod::lemma_fundamental_div_mod(x as int, a as int);
        let q = x as int / a as int;
        assert(align_up(x, a) == (q + 1) * a) by (nonlinear_arith)
            requires
                x == a * q + x % a,
                align_up(x, a) == x + (a - x % a),
        ;
        vstd::arithmetic::div_mod::lemma_mod_multiples_basic(q + 1, a as int);
    }
}

proof fn lemma_offsets_len(fs: Seq<FieldShape>)
    ensures
        offsets(fs).0.len() == fs.len(),
    decreases fs.len(),
{
    if fs.len() > 0 {
        lemma_offsets_len(fs.drop_last());
    }
}

/// The C layout puts every field at a multiple of its alignment, after the end
/// of the field before it and within the struct, and the struct's size is a
/// multiple of its alignment.
pub proof fn law_layout(fs: Seq<FieldShape>)
    requires
        forall|i: int| 0 <= i < fs.len() ==> #[trigger] fs[i].align > 0,
    ensures
        offsets(fs).0.len() == fs.len(),
        forall|i: int| 0 <= i < fs.len() ==> #[trigger] offsets(fs).0[i] % (fs[i].align as nat) == 0,
        forall|i: int|
            0 < i < fs.len() ==> #[trigger] offsets(fs).0[i] >= offsets(fs).0[i - 1] + fs[i - 1].size,
        forall|i: int| 0 <= i < fs.len() ==> #[trigger] offsets(fs).0[i] + fs[i].size <= offsets(fs).1,
        offsets(fs).1 <= struct_size(fs),
        struct_size(fs) % struct_align(fs) == 0,
    decreases fs.len(),
{
    lemma_offsets_len(fs);
    lemma_struct_align_pos(fs);
    lemma_align_up(offsets(fs).1, struct_align(fs));
    if fs.len() > 0 {
        let pre = fs.drop_last();
        assert forall|i: int| 0 <= i < pre.len() implies #[trigger] pre[i].align > 0 by {
            assert(pre[i] == fs[i]);
        }
        law_layout(pre);
        let (po, pend) = offsets(pre);
        let f = fs.last();
        lemma_align_up(pend, f.align as nat);
        let offs = offsets(fs).0;
        assert forall|i: int| 0 <= i < fs.len() implies #[trigger] offs[i] % (fs[i].align as nat) == 0 by {
            if i < pre.len() {
                assert(offs[i] == po[i]);
                assert(fs[i] == pre[i]);
            }
        }
        assert forall|i: int| 0 < i < fs.len() implies #[trigger] offs[i] >= offs[i - 1] + fs[i - 1].size by {
            if i < pre.len() {
                assert(offs[i] == po[i]);
                assert(offs[i - 1] == po[i - 1]);
                assert(fs[i - 1] == pre[i - 1]);
                assert(po[i] >= po[i - 1] + pre[i - 1].size);
            } else {
                assert(offs[i - 1] == po[i - 1]);
                assert(fs[i - 1] == pre[i - 1]);
                assert(po[i - 1] + pre[i - 1].size <= pend);
            }
        }
        assert forall|i: int| 0 <= i < fs.len() implies #[trigger] offs[i] + fs[i].size <= offsets(fs).1 by {
            if i < pre.len() {
                assert(offs[i] == po[i]);
                assert(fs[i] == pre[i]);
                assert(po[i] + pre[i].size <= pend);
            }
        }
    }
}

proof fn lemma_struct_align_pos(fs: Seq<FieldShape>)
    ensures
        struct_align(fs) >= 1,
    decreases fs.len(),
{
    if fs.len() > 0 {
        lemma_struct_align_pos(fs.drop_last());
    }
}

} // verus!

verus! {

/// Writes `bytes` into `buf` from `off` on, leaving every other byte.
pub fn write_at(buf: &mut Vec<u8>, off: usize, bytes: &[u8])
    requires
        off + bytes@.len() <= old(buf)@.len(),
    ensures
        final(buf)@ == old(buf)@.take(off as int) + bytes@ + old(buf)@.skip(off + bytes@.len()),
{
    let total = buf.len();
    let mut i: usize = 0;
    while i < bytes.len()
        invariant
            total == buf@.len(),
            off + bytes@.len() <= buf@.len(),
            buf@.len() == old(buf)@.len(),
            i <= bytes@.len(),
            forall|k: int| 0 <= k < buf@.len() && off <= k < off + i ==> #[trigger] buf@[k] == bytes@[k - off],
            forall|k: int| 0 <= k < buf@.len() && !(off <= k < off + i) ==> #[trigger] buf@[k] == old(buf)@[k],
        decreases bytes.len() - i,
    {
        buf.set(off + i, bytes[i]);
        i = i + 1;
    }
    assert(buf@ =~= old(buf)@.take(off as int) + bytes@ + old(buf)@.skip(off + bytes@.len()));
}

/// The `n` bytes of `buf` from `off` on.
pub fn read_at(buf: &[u8], off: usize, n: usize) -> (r: Vec<u8>)
    requires
        off + n <= buf@.len(),
    ensures
        r@ == buf@.subrange(off as int, off + n),
{
    let mut r: Vec<u8> = Vec::new();
    let total = buf.len();
    let mut i: usize = 0;
    while i < n
        invariant
            total == buf@.len(),
            off + n <= buf@.len(),
            i <= n,
            r@ == buf@.subrange(off as int, off + i),
        decreases n - i,
    {
        r.push(buf[off + i]);
        i = i + 1;
        assert(r@ =~= buf@.subrange(off as int, off + i));
    }
    r
}

/// Reading back what was written at an offset gives what was written, and
/// the buffer keeps its length.
pub proof fn law_write_read(buf: Seq<u8>, off: int, bytes: Seq<u8>)
    requires
        0 <= off,
        off + bytes.len() <= buf.len(),
    ensures
        (buf.take(off) + bytes + buf.skip(off + bytes.len())).subrange(off, off + bytes.len()) == bytes,
        (buf.take(off) + bytes + buf.skip(off + bytes.len())).len() == buf.len(),
{
    assert((buf.take(off) + bytes + buf.skip(off + bytes.len())).subrange(off, off + bytes.len()) =~= bytes);
}

} // verus!

verus! {

// ---------------------------------------------------------------------------
// The bytes of a whole C struct.
// ---------------------------------------------------------------------------

/// Whether fields of the given sizes lie at the given offsets in order, each
/// ending at or before the next one starts, the last within `size` bytes.
pub open spec fn fields_fit(offs: Seq<usize>, sizes: Seq<usize>, size: nat) -> bool {
    &&& offs.len() == sizes.len()
    &&& forall|i: int| 0 <= i < offs.len() - 1 ==> #[trigger] offs[i] + sizes[i] <= offs[i + 1]
    &&& offs.len() > 0 ==> offs[offs.len() - 1] + sizes[offs.len() - 1] <= size
}

/// Whether the fields cover the struct's bytes with no gap: the first starts
/// at zero, each starts where the one before ends, and the last ends at the
/// struct's end.
pub open spec fn no_padding(offs: Seq<usize>, sizes: Seq<usize>, size: nat) -> bool {
    &&& offs.len() == sizes.len()
    &&& offs.len() == 0 ==> size == 0
    &&& offs.len() > 0 ==> offs[0] == 0 && offs[offs.len() - 1] + sizes[offs.len() - 1] == size
    &&& forall|i: int| 0 <= i < offs.len() - 1 ==> #[trigger] offs[i] + sizes[i] == offs[i + 1]
}

/// Whether each field's bytes have its size.
pub open spec fn sizes_match(fields: Seq<Seq<u8>>, sizes: Seq<usize>) -> bool {
    &&& fields.len() == sizes.len()
    &&& forall|i: int| 0 <= i < fields.len() ==> #[trigger] fields[i].len() == sizes[i]
}

/// `bytes` written into `buf` from `off` on.
pub open spec fn written(buf: Seq<u8>, off: int, bytes: Seq<u8>) -> Seq<u8> {
    buf.take(off) + bytes + buf.skip(off + bytes.len())
}

/// The bytes of a struct of `size` bytes: zeros, with each field's bytes
/// written at its offset, in order.
pub open spec fn spec_encode(offs: Seq<usize>, fields: Seq<Seq<u8>>, size: nat) -> Seq<u8>
    decreases fields.len(),
{
    if fields.len() == 0 {
        Seq::new(size, |i: int| 0u8)
    } else {
        written(spec_encode(offs, fields.drop_last(), size), offs[fields.len() - 1] as int, fields.last())
    }
}

/// The bytes of each field of a struct, read at its offset.
pub open spec fn spec_decode(offs: Seq<usize>, sizes: Seq<usize>, b: Seq<u8>) -> Seq<Seq<u8>> {
    Seq::new(offs.len(), |i: int| b.subrange(offs[i] as int, offs[i] + sizes[i]))
}

proof fn lemma_fit_pair(offs: Seq<usize>, sizes: Seq<usize>, size: nat, i: int, j: int)
    requires
        fields_fit(offs, sizes, size),
        0 <= i < j < offs.len(),
    ensures
        offs[i] + sizes[i] <= offs[j],
    decreases j - i,
{
    if j > i + 1 {
        lemma_fit_pair(offs, sizes, size, i, j - 1);
        assert(offs[j - 1] + sizes[j - 1] <= offs[j]);
    } else {
        assert(offs[i] + sizes[i] <= offs[i + 1]);
    }
}

proof fn lemma_fit_within(offs: Seq<usize>, sizes: Seq<usize>, size: nat, i: int)
    requires
        fields_fit(offs, sizes, size),
        0 <= i < offs.len(),
    ensures
        offs[i] + sizes[i] <= size,
{
    let n = offs.len() - 1;
    if i < n {
        lemma_fit_pair(offs, sizes, size, i, n);
    }
}

proof fn lemma_encode_prefix(offs: Seq<usize>, sizes: Seq<usize>, size: nat, fields: Seq<Seq<u8>>, m: int)
    requires
        fields_fit(offs, sizes, size),
        sizes_match(fields, sizes),
        0 <= m <= fields.len(),
    ensures
        spec_encode(offs, fields.take(m), size).len() == size,
        forall|k: int|
            0 <= k < m ==> #[trigger] spec_encode(offs, fields.take(m), size).subrange(
                offs[k] as int,
                offs[k] + sizes[k],
            ) == fields[k],
    decreases m,
{
    if m == 0 {
        assert(fields.take(0) =~= Seq::<Seq<u8>>::empty());
    } else {
        lemma_encode_prefix(offs, sizes, size, fields, m - 1);
        let pre = spec_encode(offs, fields.take(m - 1), size);
        assert(fields.take(m).drop_last() =~= fields.take(m - 1));
        let o = offs[m - 1] as int;
        let f = fields[m - 1];
        lemma_fit_within(offs, sizes, size, m - 1);
        let e = spec_encode(offs, fields.take(m), size);
        assert(e == written(pre, o, f));
        assert forall|k: int| 0 <= k < m implies #[trigger] e.subrange(offs[k] as int, offs[k] + sizes[k])
            == fields[k] by {
            if k < m - 1 {
                lemma_fit_pair(offs, sizes, size, k, m - 1);
                assert(e.subrange(offs[k] as int, offs[k] + sizes[k]) =~= pre.subrange(
                    offs[k] as int,
                    offs[k] + sizes[k],
                ));
            } else {
                assert(e.subrange(o, o + f.len()) =~= f);
            }
        }
    }
}

/// Reading the fields back from the bytes of a struct gives the fields, and
/// the bytes have the struct's size; when the fields leave no padding,
/// writing the fields read from any bytes of the struct's size gives those
/// bytes back.
pub proof fn law_struct_roundtrip(offs: Seq<usize>, sizes: Seq<usize>, size: nat, fields: Seq<Seq<u8>>, b: Seq<u8>)
    requires
        fields_fit(offs, sizes, size),
    ensures
        sizes_match(fields, sizes) ==> spec_encode(offs, fields, size).len() == size && spec_decode(
            offs,
            sizes,
            spec_encode(offs, fields, size),
        ) == fields,
        no_padding(offs, sizes, size) && b.len() == size ==> spec_encode(offs, spec_decode(offs, sizes, b), size)
            == b,
{
    if sizes_match(fields, sizes) {
        lemma_encode_prefix(offs, sizes, size, fields, fields.len() as int);
        assert(fields.take(fields.len() as int) =~= fields);
        let e = spec_encode(offs, fields, size);
        assert(spec_decode(offs, sizes, e) =~= fields);
    }
    if no_padding(offs, sizes, size) && b.len() == size {
        let d = spec_decode(offs, sizes, b);
        lemma_encode_no_padding(offs, sizes, size, b, offs.len() as int);
        assert(d.take(offs.len() as int) =~= d);
        if offs.len() == 0 {
            assert(spec_encode(offs, d, size) =~= b);
        } else {
            assert(spec_encode(offs, d, size).take(size as int) =~= spec_encode(offs, d, size));
            assert(b.take(size as int) =~= b);
        }
    }
}

proof fn lemma_encode_no_padding(offs: Seq<usize>, sizes: Seq<usize>, size: nat, b: Seq<u8>, m: int)
    requires
        no_padding(offs, sizes, size),
        b.len() == size,
        0 <= m <= offs.len(),
    ensures
        ({
            let e = spec_encode(offs, spec_decode(offs, sizes, b).take(m), size);
            let end = if m == 0 { 0int } else { offs[m - 1] + sizes[m - 1] };
            &&& e.len() == size
            &&& 0 <= end <= size
            &&& e.take(end) == b.take(end)
        }),
    decreases m,
{
    let d = spec_decode(offs, sizes, b);
    if m == 0 {
        assert(d.take(0) =~= Seq::<Seq<u8>>::empty());
        assert(spec_encode(offs, d.take(0), size).take(0) =~= b.take(0));
    } else {
        lemma_encode_no_padding(offs, sizes, size, b, m - 1);
        assert(d.take(m).drop_last() =~= d.take(m - 1));
        let pre = spec_encode(offs, d.take(m - 1), size);
        let o = offs[m - 1] as int;
        let s = sizes[m - 1] as int;
        let end0 = if m - 1 == 0 { 0int } else { offs[m - 2] + sizes[m - 2] };
        if m - 1 > 0 {
            assert(offs[m - 2] + sizes[m - 2] == offs[m - 1]);
        }
        assert(end0 == o);
        lemma_no_padding_within(offs, sizes, size, m - 1);
        let f = b.subrange(o, o + s);
        assert(d.take(m).last() == f);
        let e = spec_encode(offs, d.take(m), size);
        assert(e == written(pre, o, f));
        assert(e.take(o + s) =~= b.take(o + s));
    }
}

proof fn lemma_no_padding_within(offs: Seq<usize>, sizes: Seq<usize>, size: nat, i: int)
    requires
        no_padding(offs, sizes, size),
        0 <= i < offs.len(),
    ensures
        offs[i] + sizes[i] <= size,
    decreases offs.len() - i,
{
    if i < offs.len() - 1 {
        assert(offs[i] + sizes[i] == offs[i + 1]);
        lemma_no_padding_within(offs, sizes, size, i + 1);
    }
}

/// The bytes of a C struct of the given layout whose fields (in layout order)
/// have the given sizes and bytes: zeros, each field's bytes at its offset.
/// `None` when the fields do not fit the layout in order or a field's bytes
/// are not of its size.
pub fn encode_struct(layout: &Layout, sizes: &Vec<usize>, fields: &Vec<Vec<u8>>) -> (r: Option<Vec<u8>>)
    ensures
        match r {
            Some(b) => fields_fit(layout.offsets@, sizes@, layout.size as nat) && sizes_match(
                fields@.map_values(|f: Vec<u8>| f@),
                sizes@,
            ) && b@ == spec_encode(layout.offsets@, fields@.map_values(|f: Vec<u8>| f@), layout.size as nat),
            None => !(fields_fit(layout.offsets@, sizes@, layout.size as nat) && sizes_match(
                fields@.map_values(|f: Vec<u8>| f@),
                sizes@,
            )),
        },
{
    let ghost fv = fields@.map_values(|f: Vec<u8>| f@);
    if !fits_exec(layout, sizes) || fields.len() != sizes.len() {
        return None;
    }
    let mut k: usize = 0;
    while k < fields.len()
        invariant
            k <= fields@.len(),
            fields@.len() == sizes@.len(),
            fv == fields@.map_values(|f: Vec<u8>| f@),
            forall|i: int| 0 <= i < k ==> #[trigger] fv[i].len() == sizes@[i],
        decreases fields.len() - k,
    {
        if fields[k].len() != sizes[k] {
            assert(fv[k as int].len() != sizes@[k as int]);
            return None;
        }
        k = k + 1;
    }
    let ghost offs = layout.offsets@;
    let ghost size = layout.size as nat;
    let mut buf: Vec<u8> = Vec::new();
    let mut z: usize = 0;
    while z < layout.size
        invariant
            z <= layout.size,
            buf@ == Seq::new(z as nat, |i: int| 0u8),
        decreases layout.size - z,
    {
        buf.push(0);
        z = z + 1;
        assert(buf@ =~= Seq::new(z as nat, |i: int| 0u8));
    }
    let mut i: usize = 0;
    assert(fv.take(0) =~= Seq::<Seq<u8>>::empty());
    while i < fields.len()
        invariant
            i <= fields@.len(),
            fields_fit(offs, sizes@, size),
            sizes_match(fv, sizes@),
            offs == layout.offsets@,
            size == layout.size,
            fv == fields@.map_values(|f: Vec<u8>| f@),
            buf@ == spec_encode(offs, fv.take(i as int), size),
            buf@.len() == size,
        decreases fields.len() - i,
    {
        proof {
            lemma_fit_within(offs, sizes@, size, i as int);
            assert(fv.take(i + 1).drop_last() =~= fv.take(i as int));
            assert(fv[i as int] == fields@[i as int]@);
        }
        write_at(&mut buf, layout.offsets[i], fields[i].as_slice());
        i = i + 1;
        proof {
            lemma_encode_prefix(offs, sizes@, size, fv, i as int);
        }
    }
    assert(fv.take(i as int) =~= fv);
    Some(buf)
}

fn fits_exec(layout: &Layout, sizes: &Vec<usize>) -> (r: bool)
    ensures
        r == fields_fit(layout.offsets@, sizes@, layout.size as nat),
{
    let n = layout.offsets.len();
    if n != sizes.len() {
        return false;
    }
    if n == 0 {
        return true;
    }
    let mut i: usize = 0;
    while i + 1 < n
        invariant
            n == layout.offsets@.len(),
            n == sizes@.len(),
            n > 0,
            i + 1 <= n,
            forall|k: int| 0 <= k < i ==> #[trigger] layout.offsets@[k] + sizes@[k] <= layout.offsets@[k + 1],
        decreases n - i,
    {
        if layout.offsets[i] as u128 + sizes[i] as u128 > layout.offsets[i + 1] as u128 {
            return false;
        }
        i = i + 1;
    }
    layout.offsets[n - 1] as u128 + sizes[n - 1] as u128 <= layout.size as u128
}

/// The bytes of each field of a C struct of the given layout, whose fields
/// (in layout order) have the given sizes: each read at its offset. `None`
/// when `b` is not of the struct's size or the fields do not fit the layout.
pub fn decode_struct(layout: &Layout, sizes: &Vec<usize>, b: &[u8]) -> (r: Option<Vec<Vec<u8>>>)
    ensures
        match r {
            Some(v) => b@.len() == layout.size && fields_fit(layout.offsets@, sizes@, layout.size as nat)
                && v@.map_values(|f: Vec<u8>| f@) == spec_decode(layout.offsets@, sizes@, b@),
            None => !(b@.len() == layout.size && fields_fit(layout.offsets@, sizes@, layout.size as nat)),
        },
{
    if b.len() != layout.size || !fits_exec(layout, sizes) {
        return None;
    }
    let ghost offs = layout.offsets@;
    let ghost size = layout.size as nat;
    let mut v: Vec<Vec<u8>> = Vec::new();
    let mut i: usize = 0;
    while i < layout.offsets.len()
        invariant
            i <= offs.len(),
            offs == layout.offsets@,
            size == layout.size,
            b@.len() == size,
            fields_fit(offs, sizes@, size),
            v@.len() == i,
            forall|k: int| 0 <= k < i ==> #[trigger] v@[k]@ == b@.subrange(offs[k] as int, offs[k] + sizes@[k]),
        decreases offs.len() - i,
    {
        proof {
            lemma_fit_within(offs, sizes@, size, i as int);
        }
        let f = read_at(b, layout.offsets[i], sizes[i]);
        v.push(f);
        i = i + 1;
    }
    assert(v@.map_values(|f: Vec<u8>| f@) =~= spec_decode(offs, sizes@, b@));
    Some(v)
}

/// `count` equal parts of `img`, in order: part `j` is the bytes from
/// `j * (len / count)` on, `len / count` of them. None for no parts.
pub fn split_even(img: &[u8], count: usize) -> (r: Vec<Vec<u8>>)
    ensures
        r@.len() == count,
        forall|j: int|
            0 <= j < count ==> #[trigger] r@[j]@ == img@.subrange(
                j * (img@.len() / (count as nat)),
                (j + 1) * (img@.len() / (count as nat)),
            ),
{
    let mut r: Vec<Vec<u8>> = Vec::new();
    if count == 0 {
        return r;
    }
    let len = img.len() / count;
    let mut j: usize = 0;
    proof {
        assert(len * count <= img@.len()) by (nonlinear_arith)
            requires
                len == img@.len() / (count as nat),
                count > 0,
        ;
    }
    while j < count
        invariant
            j <= count,
            count > 0,
            len == img@.len() / (count as nat),
            len * count <= img@.len(),
            r@.len() == j,
            forall|k: int|
                0 <= k < j ==> #[trigger] r@[k]@ == img@.subrange(k * (img@.len() / (count as nat)), (k + 1) * (
                img@.len() / (count as nat))),
        decreases count - j,
    {
        proof {
            assert((j + 1) * len <= len * count) by (nonlinear_arith)
                requires
                    j < count,
                    len >= 0,
            ;
            assert(j * len + len == (j + 1) * len) by (nonlinear_arith);
            assert(j * len <= (j + 1) * len) by (nonlinear_arith)
                requires
                    len >= 0,
            ;
        }
        assert(j * len + len <= img@.len());
        assert(img@.len() == img.len());
        let part = read_at(img, j * len, len);
        r.push(part);
        j = j + 1;
    }
    r
}

/// The sizes of the fields of a struct.
pub open spec fn shape_sizes(fs: Seq<FieldShape>) -> Seq<usize> {
    fs.map_values(|f: FieldShape| f.size)
}

/// The C layout of fields always fits them: a struct's bytes made from its
/// fields with the layout that `c_layout` gives (its offsets and size) can be
/// made and read back.
pub proof fn law_c_layout_fits(fs: Seq<FieldShape>, offs: Seq<usize>, size: usize)
    requires
        forall|i: int| 0 <= i < fs.len() ==> #[trigger] fs[i].align > 0,
        offs.len() == fs.len(),
        forall|i: int| 0 <= i < fs.len() ==> offs[i] as nat == #[trigger] offsets(fs).0[i],
        size as nat == struct_size(fs),
    ensures
        fields_fit(offs, shape_sizes(fs), size as nat),
{
    law_layout(fs);
    let sz = shape_sizes(fs);
    assert forall|i: int| 0 <= i < offs.len() - 1 implies #[trigger] offs[i] + sz[i] <= offs[i + 1] by {
        assert(offsets(fs).0[i + 1] >= offsets(fs).0[i + 1 - 1] + fs[i + 1 - 1].size);
        assert(offs[i + 1] as nat == offsets(fs).0[i + 1]);
        assert(offs[i] as nat == offsets(fs).0[i]);
    }
    if offs.len() > 0 {
        let n = offs.len() - 1;
        assert(offs[n] as nat == offsets(fs).0[n]);
        assert(offsets(fs).0[n] + fs[n].size <= offsets(fs).1);
    }
}

} // verus!
