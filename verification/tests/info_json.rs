use io_unity::error::ReadError;
use io_unity::type_tree::type_tree_json::{
    class_args_from_info_json, get_type_object_args_by_version_class_id, set_info_json_tar_reader,
    Class, InfoJson, InfoJsonStore, Node,
};

fn node(type_string: &str, name: &str, level: u8, index: i32, sub_nodes: Vec<Node>) -> Node {
    Node {
        type_string: type_string.to_string(),
        name: name.to_string(),
        level,
        byte_size: 4,
        index,
        version: 1,
        type_flags: 0,
        meta_flag: 0,
        sub_nodes,
    }
}

fn class(type_id: i32, root: Option<Node>) -> Class {
    Class {
        name: "Sample".to_string(),
        full_name: "Sample".to_string(),
        type_id,
        base: String::new(),
        derived: Vec::new(),
        descendant_count: 0,
        size: 0,
        type_index: 0,
        is_abstract: false,
        is_sealed: false,
        is_editor_only: false,
        is_stripped: false,
        release_root_node: root,
        editor_root_node: None,
    }
}

/// A dump whose class 1 has a tree listed out of index order.
fn sample_info() -> InfoJson {
    let tree = node(
        "Sample",
        "Base",
        0,
        0,
        vec![
            node("int", "m_B", 1, 2, vec![]),
            node("Inner", "m_A", 1, 1, vec![node("float", "x", 2, 3, vec![])]),
        ],
    );
    InfoJson {
        version: "2019.4.0f1".to_string(),
        strings: Vec::new(),
        classes: vec![class(2, None), class(1, Some(tree)), class(1, None)],
    }
}

#[test]
fn class_nodes_are_ordered_by_index() {
    let args = class_args_from_info_json(&sample_info(), 1).unwrap();
    assert_eq!(args.get_class_id(), 1);
    let names: Vec<&str> = args.get_type_fields().iter().map(|n| n.name.as_str()).collect();
    assert_eq!(names, vec!["Base", "m_A", "m_B", "x"]);
    let indexes: Vec<i32> = args.get_type_fields().iter().map(|n| n.index).collect();
    assert_eq!(indexes, vec![0, 1, 2, 3]);
}

#[test]
fn class_without_release_tree_or_absent() {
    assert!(class_args_from_info_json(&sample_info(), 2).is_none());
    assert!(class_args_from_info_json(&sample_info(), 99).is_none());
}

#[test]
fn store_keeps_first_dump_per_version() {
    let mut store = InfoJsonStore::new();
    let v = "2019.4.0f1".to_string();
    assert!(!store.has_info_json(&v));
    assert!(get_type_object_args_by_version_class_id(&store, &v, 1).is_none());
    store.add_info_json(v.clone(), sample_info());
    assert!(store.has_info_json(&v));
    let args = get_type_object_args_by_version_class_id(&store, &v, 1).unwrap();
    assert_eq!(args.get_type_fields().len(), 4);
    // a second dump for the same version does not replace the first
    store.add_info_json(v.clone(), InfoJson { version: v.clone(), strings: Vec::new(), classes: Vec::new() });
    assert!(get_type_object_args_by_version_class_id(&store, &v, 1).is_some());
    // other versions are unaffected
    assert!(get_type_object_args_by_version_class_id(&store, &"5.0.0".to_string(), 1).is_none());
}

#[test]
fn archive_lookup_errors() {
    let mut store = InfoJsonStore::new();
    assert_eq!(store.info_json_bytes(&"1.0".to_string()).err(), Some(ReadError::NotFound));
    set_info_json_tar_reader(&mut store, vec![1, 2, 3, 4]);
    // bytes that are no zstd stream cannot be read as an entry
    assert_eq!(store.info_json_bytes(&"1.0".to_string()).err(), Some(ReadError::InvalidValue));
}

fn archive(entries: &[(&str, &[u8])]) -> Vec<u8> {
    let mut builder = tar::Builder::new(Vec::new());
    for (path, data) in entries {
        let mut header = tar::Header::new_gnu();
        header.set_size(data.len() as u64);
        header.set_mode(0o644);
        header.set_cksum();
        builder.append_data(&mut header, path, *data).unwrap();
    }
    let tar_bytes = builder.into_inner().unwrap();
    zstd::stream::encode_all(&tar_bytes[..], 3).unwrap()
}

#[test]
fn archive_lookup_finds_dump_by_version() {
    let mut store = InfoJsonStore::new();
    set_info_json_tar_reader(
        &mut store,
        archive(&[("InfoJson/3.4.0.json", b"{\"a\":1}"), ("InfoJson/5.0.0.json", b"{}")]),
    );
    assert_eq!(store.info_json_bytes(&"3.4.0".to_string()).unwrap(), b"{\"a\":1}".to_vec());
    assert_eq!(store.info_json_bytes(&"5.0.0".to_string()).unwrap(), b"{}".to_vec());
    assert_eq!(store.info_json_bytes(&"6.0.0".to_string()).err(), Some(ReadError::NotFound));
    // loading the archive keeps nothing parsed yet
    assert!(!store.has_info_json(&"3.4.0".to_string()));
}

#[test]
fn damage_after_the_wanted_dump_does_not_matter() {
    // a large incompressible entry after the wanted one spreads over many blocks
    let mut noise = Vec::with_capacity(600_000);
    let mut x: u32 = 12345;
    for _ in 0..600_000 {
        x = x.wrapping_mul(1_103_515_245).wrapping_add(12_345);
        noise.push((x >> 16) as u8);
    }
    let mut bytes = archive(&[("InfoJson/3.4.0.json", b"{\"a\":1}"), ("InfoJson/big.bin", &noise)]);
    let n = bytes.len();
    for b in &mut bytes[n - 2000..n - 1000] {
        *b ^= 0x5a;
    }
    let mut store = InfoJsonStore::new();
    set_info_json_tar_reader(&mut store, bytes);
    assert_eq!(store.info_json_bytes(&"3.4.0".to_string()).unwrap(), b"{\"a\":1}".to_vec());
    assert_eq!(store.info_json_bytes(&"6.0.0".to_string()).err(), Some(ReadError::InvalidValue));
}
