use io_unity::serialized_file::SerializedFile;
use io_unity::type_tree::attr::AttrValue;
use io_unity::type_tree::convert::CastError;
use io_unity::type_tree::display::{DisplayLine, DisplayValue};

fn push_i32(out: &mut Vec<u8>, v: i32) {
    out.extend_from_slice(&v.to_le_bytes());
}

fn push_str(out: &mut Vec<u8>, s: &str) {
    out.extend_from_slice(s.as_bytes());
    out.push(0);
}

/// One node record of a revision 6 type tree; `array` sets the array flag.
fn node(out: &mut Vec<u8>, ty: &str, name: &str, size: i32, array: bool, meta: i32, children: i32) {
    push_str(out, ty);
    push_str(out, name);
    push_i32(out, size);
    push_i32(out, 0); // index
    push_i32(out, if array { 1 } else { 0 });
    push_i32(out, 1); // version
    push_i32(out, meta);
    push_i32(out, children);
}

/// A revision 6 file whose one object (path id 1) holds a vector of ints `m_V`, a
/// vector of structures `m_S` and a map from strings to ints `m_M`.
fn collections_file(ints: &[i32], items: &[i32], entries: &[(&str, i32)]) -> Vec<u8> {
    let mut data = Vec::new();
    push_i32(&mut data, ints.len() as i32);
    for v in ints {
        push_i32(&mut data, *v);
    }
    push_i32(&mut data, items.len() as i32);
    for v in items {
        push_i32(&mut data, *v);
    }
    push_i32(&mut data, entries.len() as i32);
    for (k, v) in entries {
        push_i32(&mut data, k.len() as i32);
        data.extend_from_slice(k.as_bytes());
        while data.len() % 4 != 0 {
            data.push(0);
        }
        push_i32(&mut data, *v);
    }

    let mut meta = Vec::new();
    meta.push(0u8); // little endian
    meta.extend_from_slice(&1u32.to_le_bytes()); // one type
    push_i32(&mut meta, 1); // class id
    node(&mut meta, "Sample", "Base", -1, false, 0, 3);
    node(&mut meta, "vector", "m_V", -1, false, 0, 1);
    node(&mut meta, "Array", "Array", -1, true, 0, 2);
    node(&mut meta, "int", "size", 4, false, 0, 0);
    node(&mut meta, "int", "data", 4, false, 0, 0);
    node(&mut meta, "vector", "m_S", -1, false, 0, 1);
    node(&mut meta, "Array", "Array", -1, true, 0, 2);
    node(&mut meta, "int", "size", 4, false, 0, 0);
    node(&mut meta, "Item", "data", 4, false, 0, 1);
    node(&mut meta, "int", "m_x", 4, false, 0, 0);
    node(&mut meta, "map", "m_M", -1, false, 0, 1);
    node(&mut meta, "Array", "Array", -1, true, 0, 2);
    node(&mut meta, "int", "size", 4, false, 0, 0);
    node(&mut meta, "pair", "data", -1, false, 0, 2);
    node(&mut meta, "string", "first", -1, false, 0x4000, 1);
    node(&mut meta, "Array", "Array", -1, true, 0, 2);
    node(&mut meta, "int", "size", 4, false, 0, 0);
    node(&mut meta, "char", "data", 1, false, 0, 0);
    node(&mut meta, "int", "second", 4, false, 0, 0);
    push_i32(&mut meta, 1); // one object
    push_i32(&mut meta, 1); // path id
    meta.extend_from_slice(&0u32.to_le_bytes()); // byte start
    meta.extend_from_slice(&(data.len() as u32).to_le_bytes()); // byte size
    push_i32(&mut meta, 1); // type id
    meta.extend_from_slice(&1u16.to_le_bytes()); // class id
    meta.extend_from_slice(&0u16.to_le_bytes()); // destroyed
    push_i32(&mut meta, 0); // no externals
    push_str(&mut meta, ""); // user string

    let header_len = 16usize;
    let mut data_offset = header_len + meta.len();
    while data_offset % 16 != 0 {
        data_offset += 1;
    }
    let file_size = data_offset + data.len();
    let mut out = Vec::new();
    out.extend_from_slice(&((file_size - header_len) as u32).to_be_bytes()); // metadata size
    out.extend_from_slice(&(file_size as u32).to_be_bytes());
    out.extend_from_slice(&6u32.to_be_bytes());
    out.extend_from_slice(&(data_offset as u32).to_be_bytes());
    out.extend_from_slice(&meta);
    out.resize(data_offset, 0);
    out.extend_from_slice(&data);
    out
}

#[test]
fn vectors_and_maps_as_plain_values() {
    let bytes = collections_file(&[10, 20], &[7, 8], &[("a", 1), ("b", 2)]);
    let file = SerializedFile::read(bytes, 0, None).unwrap();
    let object = file.get_tt_object_by_path_id(1).unwrap().unwrap().into_ref();

    match object.get_attr("m_V") {
        Ok(AttrValue::U32List(v)) => assert_eq!(v, vec![10u32, 20]),
        other => panic!("unexpected {:?}", other),
    }
    match object.get_attr("m_S") {
        Ok(AttrValue::List(items)) => {
            assert_eq!(items.len(), 2);
            let xs: Vec<i32> = items
                .iter()
                .map(|item| match item {
                    AttrValue::Object(r) => match r.get_attr("m_x") {
                        Ok(AttrValue::I32(x)) => x,
                        other => panic!("unexpected {:?}", other),
                    },
                    other => panic!("unexpected {:?}", other),
                })
                .collect();
            assert_eq!(xs, vec![7, 8]);
        }
        other => panic!("unexpected {:?}", other),
    }
    match object.get_attr("m_M") {
        Ok(AttrValue::Entries(es)) => {
            assert_eq!(es.len(), 2);
            assert_eq!(es[0].0, "a");
            assert!(matches!(es[0].1, AttrValue::I32(1)));
            assert_eq!(es[1].0, "b");
            assert!(matches!(es[1].1, AttrValue::I32(2)));
        }
        other => panic!("unexpected {:?}", other),
    }
    assert!(matches!(object.get_attr("m_Q"), Err(CastError::CannotGetField)));
}

#[test]
fn repeated_map_key_keeps_its_place_and_takes_the_later_value() {
    let bytes = collections_file(&[], &[], &[("a", 1), ("b", 2), ("a", 3)]);
    let file = SerializedFile::read(bytes, 0, None).unwrap();
    let object = file.get_tt_object_by_path_id(1).unwrap().unwrap().into_ref();
    match object.get_attr("m_M") {
        Ok(AttrValue::Entries(es)) => {
            assert_eq!(es.len(), 2);
            assert_eq!(es[0].0, "a");
            assert!(matches!(es[0].1, AttrValue::I32(3)));
            assert_eq!(es[1].0, "b");
            assert!(matches!(es[1].1, AttrValue::I32(2)));
        }
        other => panic!("unexpected {:?}", other),
    }
    match object.get_attr("m_V") {
        Ok(AttrValue::U32List(v)) => assert!(v.is_empty()),
        other => panic!("unexpected {:?}", other),
    }
    match object.get_attr("m_S") {
        Ok(AttrValue::List(items)) => assert!(items.is_empty()),
        other => panic!("unexpected {:?}", other),
    }
}

/// A revision 6 file whose one object has two members named `m_A`: an int, then a
/// byte that replaces it.
fn shadowed_file() -> Vec<u8> {
    let mut data = Vec::new();
    push_i32(&mut data, 7);
    data.push(9);
    let mut meta = Vec::new();
    meta.push(0u8); // little endian
    meta.extend_from_slice(&1u32.to_le_bytes()); // one type
    push_i32(&mut meta, 1); // class id
    node(&mut meta, "Sample", "Base", 5, false, 0, 2);
    node(&mut meta, "int", "m_A", 4, false, 0, 0);
    node(&mut meta, "UInt8", "m_A", 1, false, 0, 0);
    push_i32(&mut meta, 1); // one object
    push_i32(&mut meta, 1); // path id
    meta.extend_from_slice(&0u32.to_le_bytes()); // byte start
    meta.extend_from_slice(&(data.len() as u32).to_le_bytes()); // byte size
    push_i32(&mut meta, 1); // type id
    meta.extend_from_slice(&1u16.to_le_bytes()); // class id
    meta.extend_from_slice(&0u16.to_le_bytes()); // destroyed
    push_i32(&mut meta, 0); // no externals
    push_str(&mut meta, ""); // user string
    let header_len = 16usize;
    let mut data_offset = header_len + meta.len();
    while data_offset % 16 != 0 {
        data_offset += 1;
    }
    let file_size = data_offset + data.len();
    let mut out = Vec::new();
    out.extend_from_slice(&((file_size - header_len) as u32).to_be_bytes());
    out.extend_from_slice(&(file_size as u32).to_be_bytes());
    out.extend_from_slice(&6u32.to_be_bytes());
    out.extend_from_slice(&(data_offset as u32).to_be_bytes());
    out.extend_from_slice(&meta);
    out.resize(data_offset, 0);
    out.extend_from_slice(&data);
    out
}

#[test]
fn a_replaced_member_is_neither_shown_nor_read() {
    let file = SerializedFile::read(shadowed_file(), 0, None).unwrap();
    let object = file.get_tt_object_by_path_id(1).unwrap().unwrap();
    let lines = object.display_tree();
    assert_eq!(lines.len(), 3);
    match &lines[2] {
        DisplayLine::Field { path, type_string, value, .. } => {
            assert_eq!(path, "/Base/m_A");
            assert_eq!(type_string, "UInt8");
            assert_eq!(*value, DisplayValue::Unsigned(9));
        }
        other => panic!("unexpected {:?}", other),
    }
    assert!(matches!(object.into_ref().get_attr("m_A"), Ok(AttrValue::U8(9))));
}
