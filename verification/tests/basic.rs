use pcd_rs::header::{DataFormat, PcdHeader, ValueType};
use pcd_rs::layout::PcdLayout;
use pcd_rs::storage::{Column, PointBlock};

fn header_xyzi() -> PcdHeader {
    PcdHeader {
        version: "0.7".to_string(),
        fields: vec![
            "x".to_string(),
            "y".to_string(),
            "z".to_string(),
            "intensity".to_string(),
        ],
        sizes: vec![4, 4, 4, 4],
        types: vec!['F', 'F', 'F', 'F'],
        counts: vec![1, 1, 1, 1],
        width: 2,
        height: 1,
        viewpoint: vec![0, 0, 0, pcd_rs::header::F64_ONE_BITS, 0, 0, 0],
        points: 2,
        data: DataFormat::Ascii,
    }
}

#[test]
fn value_type_sizes() {
    assert_eq!(ValueType::U8.size(), 1);
    assert_eq!(ValueType::I16.size(), 2);
    assert_eq!(ValueType::U32.size(), 4);
    assert_eq!(ValueType::F32.size(), 4);
    assert_eq!(ValueType::F64.size(), 8);
}

#[test]
fn layout_offsets_and_stride() {
    let mut h = header_xyzi();
    h.fields.push("id".to_string());
    h.sizes.push(2);
    h.types.push('U');
    h.counts.push(1);
    let l = PcdLayout::from_header(&h).expect("layout");
    assert_eq!(l.fields.len(), 5);
    assert_eq!(l.fields[0].offset, 0);
    assert_eq!(l.fields[1].offset, 4);
    assert_eq!(l.fields[3].offset, 12);
    assert_eq!(l.fields[4].offset, 16);
    assert_eq!(l.fields[4].type_, ValueType::U16);
    assert_eq!(l.total_size, 18);
    assert_eq!(l.get_field("id").unwrap().offset, 16);
    assert!(l.get_field("missing").is_none());
}

#[test]
fn layout_rejects_unsupported_type() {
    let mut h = header_xyzi();
    h.sizes[1] = 8;
    h.types[1] = 'U';
    assert!(matches!(
        PcdLayout::from_header(&h),
        Err(pcd_rs::PcdError::UnsupportedType(_))
    ));
}

#[test]
fn layout_rejects_short_type_list() {
    let mut h = header_xyzi();
    h.types.pop();
    assert!(matches!(
        PcdLayout::from_header(&h),
        Err(pcd_rs::PcdError::LayoutMismatch { .. })
    ));
}

fn schema_xy_id() -> Vec<(String, ValueType)> {
    vec![
        ("x".to_string(), ValueType::F32),
        ("y".to_string(), ValueType::F32),
        ("id".to_string(), ValueType::U32),
    ]
}

#[test]
fn columns_mut_rejects_duplicates() {
    let block = PointBlock::new(&schema_xy_id(), 4);
    let names = vec!["x".to_string(), "y".to_string(), "x".to_string()];
    assert!(block.get_columns_mut(&names).is_none());
}

#[test]
fn columns_mut_rejects_absent_name() {
    let block = PointBlock::new(&schema_xy_id(), 4);
    let names = vec!["x".to_string(), "w".to_string()];
    assert!(block.get_columns_mut(&names).is_none());
}

#[test]
fn columns_mut_returns_distinct_indices() {
    let block = PointBlock::new(&schema_xy_id(), 4);
    let names = vec!["id".to_string(), "x".to_string()];
    let idxs = block.get_columns_mut(&names).expect("columns");
    assert_eq!(idxs, vec![2, 0]);
}

#[test]
fn resize_zero_fills_every_column() {
    let mut block = PointBlock::new(&schema_xy_id(), 2);
    block.set_bits_at(2, 1, 77);
    block.resize(5);
    assert_eq!(block.len, 5);
    for c in 0..block.num_columns() {
        let col = block.get_column_by_index(c).unwrap();
        assert_eq!(col.len(), 5);
    }
    assert_eq!(block.get_bits_at(2, 1), 77);
    assert_eq!(block.get_bits_at(2, 4), 0);
    block.resize(1);
    assert_eq!(block.len, 1);
    assert_eq!(block.get_column("x").unwrap().len(), 1);
}

#[test]
fn column_bits_round_trip_signed() {
    let mut col = Column::new(ValueType::I16, 3);
    col.set_bits(0, 0xFFFF);
    col.set_bits(1, 5);
    assert_eq!(col.get_bits(0), 0xFFFF);
    assert_eq!(col.get_bits(1), 5);
    let v = col.as_i16().expect("typed view");
    assert_eq!(v[0], -1);
    assert_eq!(v[1], 5);
    assert!(col.as_u16().is_none());
}

#[test]
fn column_f32_bits_view() {
    let mut col = Column::new(ValueType::F32, 2);
    col.set_bits(0, 42.0f32.to_bits() as u64);
    let v = col.as_f32().expect("bits view");
    assert_eq!(f32::from_bits(v[0]), 42.0);
    assert_eq!(f32::from_bits(v[1]), 0.0);
}

#[test]
fn header_steps() {
    let h = header_xyzi();
    assert_eq!(h.point_step(), 16);
    assert_eq!(h.total_point_step(), 16);
    assert!(!h.is_organized());
}
