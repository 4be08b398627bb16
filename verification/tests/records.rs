use plutus::batch::{batch, new_plan, split_records, BatchError, NewError, NewPlan, Source};
use plutus::consts::{FLAG_ALIVE, FLAG_DISH_AVAILABLE, FLAG_EATERY_CLOSED, FLAG_EDITED, FLAG_PRIVATE, PAGE_SIZE};
use plutus::gene::{ByteOrder, CGene, Gene, GeneError, GeneSource, GENE_SIZE};
use plutus::index::{array_index, IndexTree};
use plutus::layout::{c_layout, decode_struct, encode_struct, read_at, split_even, write_at, FieldShape, Layout};
use plutus::model::{MemberType, Model};
use plutus::shape::{member_shape, model_layout, ShapeError};

fn g(id: u32, pepper: u16, server: u16) -> Gene {
    Gene { id, pepper, server }
}

/// The byte order of the machine the tests run on, as std tells it.
fn native() -> ByteOrder {
    if u16::from_ne_bytes([1, 0]) == 1 {
        ByteOrder::Little
    } else {
        ByteOrder::Big
    }
}

#[test]
fn gene_bytes_in_each_order() {
    let gene = g(0x04030201, 0x0605, 0x0807);
    assert_eq!(gene.to_bytes_in(ByteOrder::Little), vec![1, 2, 3, 4, 5, 6, 7, 8]);
    assert_eq!(gene.to_bytes_in(ByteOrder::Big), vec![4, 3, 2, 1, 6, 5, 8, 7]);
    assert_eq!(Gene::from_bytes_in(&[1, 2, 3, 4, 5, 6, 7, 8], ByteOrder::Little), Ok(gene));
    assert_eq!(Gene::from_bytes_in(&[4, 3, 2, 1, 6, 5, 8, 7], ByteOrder::Big), Ok(gene));
    assert_eq!(Gene::from_bytes_in(&[1, 0, 0, 0, 2, 0, 3, 0], ByteOrder::Big), Ok(g(16777216, 512, 768)));
    assert_eq!(GENE_SIZE, 8);
}

#[test]
fn gene_bytes_in_machine_order() {
    let gene = g(0x04030201, 0x0605, 0x0807);
    let mut expected: Vec<u8> = Vec::new();
    expected.extend_from_slice(&gene.id.to_ne_bytes());
    expected.extend_from_slice(&gene.pepper.to_ne_bytes());
    expected.extend_from_slice(&gene.server.to_ne_bytes());
    assert_eq!(gene.to_bytes(), expected);
    assert_eq!(gene.to_bytes(), gene.to_bytes_in(native()));
    assert_eq!(Gene::from_bytes(&expected), Ok(gene));
}

#[test]
fn gene_roundtrips() {
    for gene in [g(0, 0, 0), g(u32::MAX, u16::MAX, u16::MAX), g(7, 300, 65000)] {
        assert_eq!(Gene::from_bytes(&gene.to_bytes()), Ok(gene));
        assert_eq!(Gene::from_str(&gene.to_str()), Ok(gene));
        assert_eq!(gene.repr(), gene.to_str());
        for o in [ByteOrder::Little, ByteOrder::Big] {
            assert_eq!(Gene::from_bytes_in(&gene.to_bytes_in(o), o), Ok(gene));
            assert_eq!(Gene::from_str_in(&gene.to_str_in(o), o), Ok(gene));
        }
    }
    let b = [9u8, 8, 7, 6, 5, 4, 3, 2];
    assert_eq!(Gene::from_bytes(&b).unwrap().to_bytes(), b.to_vec());
    assert_eq!(Gene::from_bytes_in(&b, ByteOrder::Big).unwrap().to_bytes_in(ByteOrder::Big), b.to_vec());
}

#[test]
fn gene_text() {
    assert_eq!(g(1, 2, 3).to_str_in(ByteOrder::Little), "0100000002000300");
    assert_eq!(g(1, 2, 3).to_str_in(ByteOrder::Big), "0000000100020003");
    assert_eq!(g(1, 2, 3).to_str(), g(1, 2, 3).to_str_in(native()));
    assert_eq!(Gene::from_str_in("0100000002000300", ByteOrder::Little), Ok(g(1, 2, 3)));
    assert_eq!(Gene::from_str_in("0000000100020003", ByteOrder::Big), Ok(g(1, 2, 3)));
    assert_eq!(Gene::from_str("01000000020003"), Err(GeneError::InvalidValueLength));
    assert_eq!(Gene::from_str("010000000200030g"), Err(GeneError::InvalidHex));
    assert_eq!(Gene::from_bytes(&[1, 2, 3]), Err(GeneError::InvalidValueLength));
}

#[test]
fn gene_new_from_sources() {
    assert_eq!(Gene::py_new(GeneSource::Absent), Ok(g(0, 0, 0)));
    assert_eq!(Gene::py_new(GeneSource::Other), Ok(Gene::default()));
    assert_eq!(Gene::py_new(GeneSource::Given(g(5, 6, 7))), Ok(g(5, 6, 7)));
    let le = GeneSource::Bytes(vec![5, 0, 0, 0, 6, 0, 7, 0]);
    assert_eq!(Gene::py_new_in(le, ByteOrder::Little), Ok(g(5, 6, 7)));
    let be = GeneSource::Bytes(vec![0, 0, 0, 5, 0, 6, 0, 7]);
    assert_eq!(Gene::py_new_in(be, ByteOrder::Big), Ok(g(5, 6, 7)));
    let bytes = GeneSource::Bytes(g(5, 6, 7).to_bytes());
    assert_eq!(Gene::py_new(bytes), Ok(g(5, 6, 7)));
    assert_eq!(Gene::py_new(GeneSource::Bytes(vec![5])), Err(GeneError::InvalidValueLength));
    assert_eq!(Gene::py_new_in(GeneSource::Text("0500000006000700".to_string()), ByteOrder::Little), Ok(g(5, 6, 7)));
    assert_eq!(Gene::py_new(GeneSource::Text(g(5, 6, 7).to_str())), Ok(g(5, 6, 7)));
    assert_eq!(Gene::py_new(GeneSource::Text("05".to_string())), Err(GeneError::InvalidValueLength));
}

#[test]
fn gene_emptiness() {
    assert!(CGene::from_gene(&g(0, 3, 4)).is_none());
    assert!(!CGene::from_gene(&g(1, 0, 0)).is_none());
}

#[test]
fn new_values() {
    assert_eq!(new_plan(Source::Absent, 4), Ok(NewPlan::Default));
    assert_eq!(new_plan(Source::Other, 4), Ok(NewPlan::Default));
    assert_eq!(new_plan(Source::Given, 4), Ok(NewPlan::KeepGiven));
    assert_eq!(new_plan(Source::Bytes(vec![1, 2, 3, 4]), 4), Ok(NewPlan::Decode(vec![1, 2, 3, 4])));
    assert_eq!(new_plan(Source::Bytes(vec![1, 2, 3]), 4), Err(NewError::InvalidInputLength));
    assert_eq!(new_plan(Source::Text("01020304".to_string()), 4), Ok(NewPlan::Decode(vec![1, 2, 3, 4])));
    // text that cannot be read gives the default value
    assert_eq!(new_plan(Source::Text("zz020304".to_string()), 4), Ok(NewPlan::Default));
    assert_eq!(new_plan(Source::Text("01".to_string()), 4), Ok(NewPlan::Default));
}

#[test]
fn batches() {
    assert_eq!(split_records(&[], 4), Ok(vec![]));
    assert_eq!(split_records(&[1, 2, 3, 4, 5, 6], 3), Ok(vec![vec![1, 2, 3], vec![4, 5, 6]]));
    assert_eq!(split_records(&[1, 2, 3, 4], 3), Err(BatchError::InvalidInputLength));
    assert_eq!(batch(Source::Bytes(vec![1, 2]), 1), Ok(vec![vec![1], vec![2]]));
    assert_eq!(batch(Source::Text("0102".to_string()), 2), Ok(vec![vec![1, 2]]));
    assert_eq!(batch(Source::Text("01020304".to_string()), 2), Err(BatchError::InvalidData));
    assert_eq!(batch(Source::Text("zz02".to_string()), 2), Err(BatchError::InvalidData));
    assert_eq!(batch(Source::Other, 2), Err(BatchError::InvalidData));
    assert_eq!(batch(Source::Absent, 2), Err(BatchError::InvalidData));
}

#[test]
fn array_indices() {
    assert_eq!(array_index(&None), IndexTree::Leaf(vec![]));
    assert_eq!(
        array_index(&Some(vec![2, 1])),
        IndexTree::Node(vec![
            IndexTree::Node(vec![IndexTree::Leaf(vec![0, 0])]),
            IndexTree::Node(vec![IndexTree::Leaf(vec![1, 0])]),
        ])
    );
    assert_eq!(array_index(&Some(vec![0])), IndexTree::Node(vec![]));
}

#[test]
fn c_layouts() {
    let f = |size, align| FieldShape { size, align };
    let l = c_layout(&vec![f(8, 8), f(16, 4)]).unwrap();
    assert_eq!((l.offsets, l.size, l.align), (vec![0, 8], 24, 8));
    let l = c_layout(&vec![f(1, 1), f(4, 4), f(2, 2)]).unwrap();
    assert_eq!((l.offsets, l.size, l.align), (vec![0, 4, 8], 12, 4));
    let l = c_layout(&vec![]).unwrap();
    assert_eq!((l.offsets, l.size, l.align), (vec![], 0, 1));
    assert!(c_layout(&vec![f(usize::MAX, 1), f(1, 1)]).is_none());
}

#[test]
fn write_then_read() {
    let mut buf = vec![0u8; 6];
    write_at(&mut buf, 2, &[7, 8, 9]);
    assert_eq!(buf, vec![0, 0, 7, 8, 9, 0]);
    assert_eq!(read_at(&buf, 2, 3), vec![7, 8, 9]);
}

#[test]
fn constants() {
    assert_eq!(PAGE_SIZE, 32);
    assert_eq!((FLAG_ALIVE, FLAG_EDITED, FLAG_PRIVATE), (1, 2, 4));
    assert_eq!(FLAG_DISH_AVAILABLE, 1 << 16);
    assert_eq!(FLAG_EATERY_CLOSED, 1 << 16);
}



fn member(name: &str, ty: plutus::model::MemberType, arr: Option<Vec<usize>>) -> plutus::model::Member {
    plutus::model::Member { ident: name.to_string(), private: name.starts_with('_'), ty, arr }
}

fn shape_of<T>(name: &str) -> (String, FieldShape) {
    (name.to_string(), FieldShape { size: core::mem::size_of::<T>(), align: core::mem::align_of::<T>() })
}

/// The shapes of the primitive number types on this machine.
fn prims() -> Vec<(String, FieldShape)> {
    vec![
        shape_of::<u8>("u8"),
        shape_of::<u16>("u16"),
        shape_of::<u32>("u32"),
        shape_of::<u64>("u64"),
        shape_of::<u128>("u128"),
        shape_of::<usize>("usize"),
        shape_of::<i8>("i8"),
        shape_of::<i16>("i16"),
        shape_of::<i32>("i32"),
        shape_of::<i64>("i64"),
        shape_of::<i128>("i128"),
        shape_of::<isize>("isize"),
        shape_of::<f32>("f32"),
        shape_of::<f64>("f64"),
        shape_of::<bool>("bool"),
        shape_of::<char>("char"),
    ]
}

fn number(ty: &str) -> plutus::model::MemberType {
    plutus::model::MemberType::Number { ty: ty.to_string(), min: None, max: None, is_float: ty.starts_with('f') }
}

#[test]
fn model_sizes() {
    let gene = Model {
        ident: "Gene".to_string(),
        c_ident: "CGene".to_string(),
        members: vec![
            member("id", number("u32"), None),
            member("pepper", number("u32"), None),
            member("server", number("u32"), None),
            member("version", number("u8"), None),
            member("idx", number("u8"), None),
            member("iter", number("u8"), None),
            member("_reserved", number("u8"), None),
        ],
        has_models: false,
        hexable: true,
    };
    let l = model_layout(&gene, &prims()).unwrap();
    assert_eq!((l.size, l.align), (16, 4));
    assert_eq!(l.offsets, vec![0, 4, 8, 12, 13, 14, 15]);
    let mut reg = prims();
    reg.push(("Gene".to_string(), FieldShape { size: 16, align: 4 }));
    let gene_member = |name: &str| member(name, MemberType::Model { ty: "Gene".to_string(), cty: "CGene".to_string(), optional: false }, None);
    let pond = Model {
        ident: "PondIndex".to_string(),
        c_ident: "CPondIndex".to_string(),
        members: vec![
            member("flag", number("u64"), None),
            gene_member("gene"),
            gene_member("owner"),
            member("block_count", number("u64"), None),
            member("item_count", number("u64"), None),
            gene_member("first"),
            gene_member("last"),
            member("alive", MemberType::Flag { fl: "FLAG_ALIVE".to_string() }, None),
        ],
        has_models: true,
        hexable: false,
    };
    let l = model_layout(&pond, &reg).unwrap();
    assert_eq!((l.size, l.align), (88, 8));
    assert_eq!(l.offsets, vec![0, 8, 24, 40, 48, 56, 72]);
    assert_eq!(model_layout(&pond, &prims()).unwrap_err(), ShapeError::UnknownType);
    let hours = member("opening_hours", MemberType::Model { ty: "Duration".to_string(), cty: "CDuration".to_string(), optional: false }, Some(vec![7, 4]));
    let mut dreg = prims();
    dreg.push(("Duration".to_string(), FieldShape { size: 2, align: 1 }));
    assert_eq!(member_shape(&hours, &dreg), Ok(Some(FieldShape { size: 56, align: 1 })));
    assert_eq!(member_shape(&member("x", number("bool"), None), &dreg), Ok(Some(FieldShape { size: 1, align: 1 })));
    assert_eq!(member_shape(&member("x", number("char"), Some(vec![3])), &dreg), Ok(Some(FieldShape { size: 12, align: 4 })));
    assert_eq!(member_shape(&member("x", number("u128"), None), &dreg).unwrap().unwrap().size, 16);
    assert_eq!(member_shape(&member("x", number("u24"), None), &dreg), Err(ShapeError::UnknownType));
    let huge = member("x", number("u64"), Some(vec![0, usize::MAX]));
    assert_eq!(member_shape(&huge, &dreg), Err(ShapeError::Overflow));
    let zero = member("x", number("u64"), Some(vec![usize::MAX, 0]));
    assert_eq!(member_shape(&zero, &dreg), Ok(Some(FieldShape { size: 0, align: 8 })));
}

#[test]
fn struct_bytes_roundtrip() {
    // a u8 then a u32: three padding bytes between them
    let shapes = vec![FieldShape { size: 1, align: 1 }, FieldShape { size: 4, align: 4 }];
    let layout = c_layout(&shapes).unwrap();
    let sizes = vec![1, 4];
    let fields = vec![vec![7u8], vec![1, 2, 3, 4]];
    let b = encode_struct(&layout, &sizes, &fields).unwrap();
    assert_eq!(b, vec![7, 0, 0, 0, 1, 2, 3, 4]);
    assert_eq!(decode_struct(&layout, &sizes, &b), Some(fields));
    // padding bytes come back as zeros
    let dirty = vec![7u8, 9, 9, 9, 1, 2, 3, 4];
    let read = decode_struct(&layout, &sizes, &dirty).unwrap();
    assert_eq!(encode_struct(&layout, &sizes, &read), Some(b.clone()));
    // without padding, bytes come back as they were
    let tight = Layout { offsets: vec![0, 4], size: 8, align: 4 };
    let any = vec![9u8, 8, 7, 6, 5, 4, 3, 2];
    let read = decode_struct(&tight, &vec![4, 4], &any).unwrap();
    assert_eq!(encode_struct(&tight, &vec![4, 4], &read), Some(any));
}

#[test]
fn struct_bytes_refused() {
    let layout = Layout { offsets: vec![0, 4], size: 8, align: 4 };
    assert_eq!(decode_struct(&layout, &vec![4, 4], &[0u8; 7]), None);
    assert_eq!(encode_struct(&layout, &vec![4, 4], &vec![vec![0u8; 4], vec![0u8; 3]]), None);
    // overlapping fields do not fit
    assert_eq!(encode_struct(&layout, &vec![5, 4], &vec![vec![0u8; 5], vec![0u8; 4]]), None);
    assert_eq!(decode_struct(&layout, &vec![4, 5], &[0u8; 8]), None);
}

#[test]
fn even_parts() {
    assert_eq!(split_even(&[1, 2, 3, 4, 5, 6], 3), vec![vec![1, 2], vec![3, 4], vec![5, 6]]);
    assert_eq!(split_even(&[1, 2, 3], 1), vec![vec![1, 2, 3]]);
    assert_eq!(split_even(&[1, 2, 3], 0), Vec::<Vec<u8>>::new());
}
