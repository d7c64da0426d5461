use io_unity::error::ReadError;
use io_unity::unity_asset_view::{ObjectRef, UnityAssetViewer};

fn push_i32(out: &mut Vec<u8>, v: i32) {
    out.extend_from_slice(&v.to_le_bytes());
}

fn push_str(out: &mut Vec<u8>, s: &str) {
    out.extend_from_slice(s.as_bytes());
    out.push(0);
}

#[allow(clippy::too_many_arguments)]
fn push_node(out: &mut Vec<u8>, ty: &str, name: &str, size: i32, index: i32, meta: i32, children: i32) {
    push_str(out, ty);
    push_str(out, name);
    push_i32(out, size);
    push_i32(out, index);
    push_i32(out, 0); // type flags
    push_i32(out, 1); // version
    push_i32(out, meta);
    push_i32(out, children);
}

/// A little-endian file of revision `revision` (5 or 6) with one type (class 1:
/// `m_A: int`, `m_B: float`, `m_C: UInt8` aligned) and one object of it, path id 42.
fn sample_file(revision: u32) -> Vec<u8> {
    let mut meta = Vec::new();
    meta.push(0u8); // little endian
    meta.extend_from_slice(&1u32.to_le_bytes()); // one type
    push_i32(&mut meta, 1); // class id
    push_node(&mut meta, "Sample", "Base", 12, 0, 0, 3);
    push_node(&mut meta, "int", "m_A", 4, 1, 0, 0);
    push_node(&mut meta, "float", "m_B", 4, 2, 0, 0);
    push_node(&mut meta, "UInt8", "m_C", 1, 3, 0x4000, 0);
    push_i32(&mut meta, 1); // one object
    push_i32(&mut meta, 42); // path id
    meta.extend_from_slice(&0u32.to_le_bytes()); // byte start
    meta.extend_from_slice(&12u32.to_le_bytes()); // byte size
    push_i32(&mut meta, 1); // type id
    meta.extend_from_slice(&1u16.to_le_bytes()); // class id
    meta.extend_from_slice(&0u16.to_le_bytes()); // destroyed
    push_i32(&mut meta, 1); // one external
    if revision == 6 {
        push_str(&mut meta, "");
    }
    meta.extend_from_slice(&[7u8; 16]);
    push_i32(&mut meta, 3);
    push_str(&mut meta, "library/extra");
    if revision == 6 {
        push_str(&mut meta, "");
    }
    let header_len = 16usize;
    let mut data_offset = header_len + meta.len();
    while data_offset % 16 != 0 {
        data_offset += 1;
    }
    let file_size = data_offset + 12;
    let mut out = Vec::new();
    out.extend_from_slice(&((file_size - header_len) as u32).to_be_bytes()); // metadata size
    out.extend_from_slice(&(file_size as u32).to_be_bytes());
    out.extend_from_slice(&revision.to_be_bytes());
    out.extend_from_slice(&(data_offset as u32).to_be_bytes());
    out.extend_from_slice(&meta);
    out.resize(data_offset, 0);
    push_i32(&mut out, -5);
    out.extend_from_slice(&1.5f32.to_bits().to_le_bytes());
    out.extend_from_slice(&[9, 0, 0, 0]);
    out
}

const CAB: &str = "CAB-0123456789abcdef0123456789abcdef";

/// A version 6 bundle with one stored data block holding two files; the block table
/// is compressed with `table_code` (0 stored, 2 LZ4).
fn bundle(table_code: u32, serialized: Vec<u8>) -> Vec<u8> {
    let files: [(&str, &[u8]); 2] = [(CAB, serialized.as_slice()), ("CAB-0123456789abcdef0123456789abcdef.resS", b"xyz")];
    let mut data = Vec::new();
    let mut table = vec![0u8; 16]; // hash
    table.extend_from_slice(&1u32.to_be_bytes()); // one block
    let total: usize = files.iter().map(|f| f.1.len()).sum();
    table.extend_from_slice(&(total as u32).to_be_bytes());
    table.extend_from_slice(&(total as i32).to_be_bytes());
    table.extend_from_slice(&0u16.to_be_bytes());
    table.extend_from_slice(&(files.len() as u32).to_be_bytes());
    for (path, bytes) in files.iter() {
        table.extend_from_slice(&(data.len() as i64).to_be_bytes());
        table.extend_from_slice(&(bytes.len() as i64).to_be_bytes());
        table.extend_from_slice(&4u32.to_be_bytes());
        table.extend_from_slice(path.as_bytes());
        table.push(0);
        data.extend_from_slice(bytes);
    }
    let stored_table = if table_code == 2 {
        lz4::block::compress(&table, None, false).unwrap()
    } else {
        table.clone()
    };
    let mut out = b"UnityFS\0".to_vec();
    out.extend_from_slice(&6u32.to_be_bytes());
    out.extend_from_slice(b"5.x.x\0");
    out.extend_from_slice(b"2019.4.0f1\0");
    let size_at = out.len();
    out.extend_from_slice(&0i64.to_be_bytes());
    out.extend_from_slice(&(stored_table.len() as u32).to_be_bytes());
    out.extend_from_slice(&(table.len() as u32).to_be_bytes());
    out.extend_from_slice(&table_code.to_be_bytes());
    out.extend_from_slice(&stored_table);
    out.extend_from_slice(&data);
    let size = out.len() as i64;
    out[size_at..size_at + 8].copy_from_slice(&size.to_be_bytes());
    out
}

#[test]
fn viewer_numbers_serialized_files_in_order() {
    let mut viewer = UnityAssetViewer::new();
    assert_eq!(viewer.add_serialized_file(sample_file(6), None), Ok(0));
    assert_eq!(viewer.add_serialized_file(sample_file(5), None), Ok(1));
    // a file that cannot be read uses up its id
    assert_eq!(viewer.add_serialized_file(vec![1, 2, 3], None), Err(ReadError::UnexpectedEof));
    assert_eq!(viewer.add_serialized_file(sample_file(6), None), Ok(3));
    assert_eq!(viewer.get_serialized_file_map().len(), 3);
    assert!(viewer.get_serialized_file_map().get(&2).is_none());
    assert_eq!(viewer.get_serialized_file_map().get(&3).unwrap().get_serialized_file_id(), 3);
    assert!(viewer.get_container_maps().is_empty());
}

#[test]
fn viewer_opens_bundles_and_their_cab_files() {
    let mut viewer = UnityAssetViewer::new();
    assert_eq!(viewer.add_serialized_file(sample_file(6), None), Ok(0));
    let id = viewer.add_bundle_file(bundle(0, sample_file(6)), None).unwrap();
    assert_eq!(id, 0);
    assert_eq!(viewer.get_cab_maps(), &vec![(CAB.to_string(), 1i64)]);
    let file = viewer.get_serialized_file_by_path(&CAB.to_string()).unwrap();
    assert_eq!(file.get_serialized_file_id(), 1);
    let fs = viewer.get_unity_fs_by_cab_path(&CAB.to_string()).unwrap();
    assert_eq!(fs.get_cab_path(), vec![CAB.to_string()]);
    assert!(viewer.get_unity_fs_by_serialized_file(file).is_some());
    let loose = viewer.get_serialized_file_map().get(&0).unwrap();
    assert!(viewer.get_unity_fs_by_serialized_file(loose).is_none());
    let object = file.get_tt_object_by_path_id(42).unwrap().unwrap();
    assert!(viewer.get_unity_fs_by_type_tree_object(&object).is_some());
    assert!(viewer.get_serialized_file_by_path(&"CAB-other".to_string()).is_none());
    assert!(viewer.get_container_name_by_path_id(&CAB.to_string(), 42).is_none());
    assert!(viewer.get_serialized_file_by_container_name(&"assets/x.prefab".to_string()).is_none());
}

#[test]
fn viewer_refuses_bad_bundle() {
    let mut viewer = UnityAssetViewer::new();
    assert_eq!(viewer.add_bundle_file(b"NotUnity....".to_vec(), None), Err(ReadError::BadMagic));
    assert!(viewer.get_cab_maps().is_empty());
}

#[test]
fn viewer_insert_cab_names_a_file() {
    let mut viewer = UnityAssetViewer::new();
    assert_eq!(viewer.add_serialized_file(sample_file(6), None), Ok(0));
    viewer.insert_cab("level0".to_string(), 0);
    assert!(viewer.get_serialized_file_by_path(&"level0".to_string()).is_some());
    viewer.insert_cab("level0".to_string(), 5);
    assert!(viewer.get_serialized_file_by_path(&"level0".to_string()).is_none());
    assert_eq!(viewer.get_cab_maps().len(), 1);
}

#[test]
fn viewer_lists_and_reads_objects() {
    let mut viewer = UnityAssetViewer::new();
    assert_eq!(viewer.add_serialized_file(sample_file(5), None), Ok(0));
    assert_eq!(viewer.add_serialized_file(sample_file(6), None), Ok(1));
    let refs = viewer.object_refs();
    assert_eq!(
        refs,
        vec![
            ObjectRef { serialized_file_id: 0, path_id: 42, class_id: 1 },
            ObjectRef { serialized_file_id: 1, path_id: 42, class_id: 1 },
        ]
    );
    let object = viewer.deref_object_ref(&refs[1]).unwrap().unwrap();
    assert_eq!(object.get_class_id(), 1);
    assert_eq!(object.get_serialized_file_id(), 1);
    assert!(object.path.is_empty());
    let missing_file = ObjectRef { serialized_file_id: 9, path_id: 42, class_id: 1 };
    assert!(viewer.deref_object_ref(&missing_file).unwrap().is_none());
    let missing_object = ObjectRef { serialized_file_id: 0, path_id: 3, class_id: 1 };
    assert!(viewer.deref_object_ref(&missing_object).unwrap().is_none());
}

#[test]
fn viewer_bundle_with_unreadable_cab_file() {
    let mut viewer = UnityAssetViewer::new();
    assert_eq!(viewer.add_bundle_file(bundle(0, vec![1, 2, 3]), None), Err(ReadError::UnexpectedEof));
    assert!(viewer.get_cab_maps().is_empty());
    // the bundle id and the cab file's id were used up
    assert_eq!(viewer.add_bundle_file(bundle(0, sample_file(6)), None), Ok(1));
    assert_eq!(viewer.get_cab_maps(), &vec![(CAB.to_string(), 1i64)]);
}
