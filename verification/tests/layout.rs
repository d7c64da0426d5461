use io_unity::type_tree::reader::{
    calc_no_array_field_size, TypeTreeObjectBinReadArgs, TypeTreeObjectBinReadClassArgs,
};
use io_unity::type_tree::{TypeTreeNode, TypeTreeObject};
use io_unity::until::Endian;

fn node(level: u8, ty: &str, name: &str, size: i32, meta: i32) -> TypeTreeNode {
    TypeTreeNode {
        version: 1,
        level,
        type_flags: 0,
        type_string: ty.to_string(),
        name: name.to_string(),
        byte_size: size,
        index: 0,
        meta_flag: meta,
        ref_type_hash: None,
    }
}

/// `Base { m_A: int, m_C: UInt8 (aligned), m_D: SInt16 }`: 4 + 1 + 3 padding + 2.
fn nodes() -> Vec<TypeTreeNode> {
    vec![
        node(0, "Sample", "Base", -1, 0),
        node(1, "int", "m_A", 4, 0),
        node(1, "UInt8", "m_C", 1, 0x4000),
        node(1, "SInt16", "m_D", 2, 0),
    ]
}

#[test]
fn fixed_size_read_consumes_computed_size() {
    let fields = nodes();
    let mut index = 0usize;
    let mut size = 0usize;
    assert_eq!(calc_no_array_field_size(&fields, &mut index, &mut size), Some(10));
    assert_eq!(index, 3);
    // a 4-aligned start only shifts the size
    let mut index2 = 0usize;
    let mut size2 = 8usize;
    assert_eq!(calc_no_array_field_size(&fields, &mut index2, &mut size2), Some(18));
    assert_eq!(index2, 3);
    let args = TypeTreeObjectBinReadArgs::new(0, TypeTreeObjectBinReadClassArgs::new(1, fields));
    let buf = vec![0u8; 4 + 10];
    let (object, end) = TypeTreeObject::read_options(&buf, 4, Endian::Little, &args).unwrap();
    assert_eq!(end, 14);
    assert_eq!(object.get_data_buff().len(), 10);
    // one byte short of the computed size
    assert!(TypeTreeObject::read_options(&buf[..13], 4, Endian::Little, &args).is_err());
}
