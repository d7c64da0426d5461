use io_unity::unity_asset_view::UnityAssetViewer;

fn push_i32(out: &mut Vec<u8>, v: i32) {
    out.extend_from_slice(&v.to_le_bytes());
}

fn push_str(out: &mut Vec<u8>, s: &str) {
    out.extend_from_slice(s.as_bytes());
    out.push(0);
}

/// One node record of a revision 6 type tree; `array` sets the array flag.
fn node(out: &mut Vec<u8>, ty: &str, name: &str, size: i32, array: bool, meta: i32, children: i32) {
    push_str(out, ty);
    push_str(out, name);
    push_i32(out, size);
    push_i32(out, 0); // index
    push_i32(out, if array { 1 } else { 0 });
    push_i32(out, 1); // version
    push_i32(out, meta);
    push_i32(out, children);
}

/// A revision 6 file whose asset bundle (path id 1) names the assets `names`, the
/// n-th of them at path id `10 + n`.
fn bundle_file(names: &[&str]) -> Vec<u8> {
    let mut data = Vec::new();
    push_i32(&mut data, names.len() as i32);
    for (n, name) in names.iter().enumerate() {
        push_i32(&mut data, name.len() as i32);
        data.extend_from_slice(name.as_bytes());
        while data.len() % 4 != 0 {
            data.push(0);
        }
        push_i32(&mut data, 0); // m_FileID
        data.extend_from_slice(&(10 + n as i64).to_le_bytes()); // m_PathID
    }

    let mut meta = Vec::new();
    meta.push(0u8); // little endian
    meta.extend_from_slice(&1u32.to_le_bytes()); // one type
    push_i32(&mut meta, 142); // class id
    node(&mut meta, "AssetBundle", "Base", -1, false, 0, 1);
    node(&mut meta, "map", "m_Container", -1, false, 0, 1);
    node(&mut meta, "Array", "Array", -1, true, 0, 2);
    node(&mut meta, "int", "size", 4, false, 0, 0);
    node(&mut meta, "pair", "data", -1, false, 0, 2);
    node(&mut meta, "string", "first", -1, false, 0x4000, 1);
    node(&mut meta, "Array", "Array", -1, true, 0, 2);
    node(&mut meta, "int", "size", 4, false, 0, 0);
    node(&mut meta, "char", "data", 1, false, 0, 0);
    node(&mut meta, "AssetInfo", "second", -1, false, 0, 1);
    node(&mut meta, "PPtr<Object>", "asset", 12, false, 0, 2);
    node(&mut meta, "int", "m_FileID", 4, false, 0, 0);
    node(&mut meta, "SInt64", "m_PathID", 8, false, 0, 0);
    push_i32(&mut meta, 1); // one object
    push_i32(&mut meta, 1); // path id
    meta.extend_from_slice(&0u32.to_le_bytes()); // byte start
    meta.extend_from_slice(&(data.len() as u32).to_le_bytes()); // byte size
    push_i32(&mut meta, 142); // type id: the class
    meta.extend_from_slice(&142u16.to_le_bytes()); // class id
    meta.extend_from_slice(&0u16.to_le_bytes()); // destroyed
    push_i32(&mut meta, 0); // no externals
    push_str(&mut meta, ""); // user string

    let header_len = 16usize;
    let mut data_offset = header_len + meta.len();
    while data_offset % 16 != 0 {
        data_offset += 1;
    }
    let file_size = data_offset + data.len();
    let mut out = Vec::new();
    out.extend_from_slice(&((file_size - header_len) as u32).to_be_bytes()); // metadata size
    out.extend_from_slice(&(file_size as u32).to_be_bytes());
    out.extend_from_slice(&6u32.to_be_bytes());
    out.extend_from_slice(&(data_offset as u32).to_be_bytes());
    out.extend_from_slice(&meta);
    out.resize(data_offset, 0);
    out.extend_from_slice(&data);
    out
}

#[test]
fn asset_bundle_names_its_assets() {
    let mut viewer = UnityAssetViewer::new();
    assert_eq!(viewer.add_serialized_file(bundle_file(&["assets/a.prefab", "assets/b.png"]), None), Ok(0));
    assert_eq!(
        viewer.get_container_name_by_serialized_file_id_and_path_id(0, 10),
        Some(&"assets/a.prefab".to_string())
    );
    assert_eq!(
        viewer.get_container_name_by_serialized_file_id_and_path_id(0, 11),
        Some(&"assets/b.png".to_string())
    );
    assert!(viewer.get_container_name_by_serialized_file_id_and_path_id(0, 12).is_none());
    let file = viewer.get_serialized_file_by_container_name(&"assets/b.png".to_string()).unwrap();
    assert_eq!(file.get_serialized_file_id(), 0);
    let maps = viewer.get_container_maps();
    assert_eq!(maps.len(), 2);
    assert_eq!(maps[0].0, "assets/a.prefab");
    assert_eq!(maps[0].1.len(), 1);
    assert_eq!(maps[0].1[0].0, 0);
    assert_eq!(maps[0].1[0].1.path, vec!["m_Container", "Array", "0", "second", "asset"]);
    let pptr = &maps[1].1[0].1;
    assert_eq!(viewer.get_container_name_by_pptr(pptr), Some(&"assets/b.png".to_string()));
    assert!(viewer.get_unity_fs_by_pptr(pptr).is_none());
    let not_a_pointer = &viewer.get_container_maps()[0].1[0].1.with_path(vec!["m_Container".to_string()]);
    assert!(viewer.get_container_name_by_pptr(not_a_pointer).is_none());
}

#[test]
fn a_second_file_adds_to_a_shared_name() {
    let mut viewer = UnityAssetViewer::new();
    assert_eq!(viewer.add_serialized_file(bundle_file(&["assets/a.prefab"]), None), Ok(0));
    assert_eq!(viewer.add_serialized_file(bundle_file(&["assets/a.prefab"]), None), Ok(1));
    let maps = viewer.get_container_maps();
    assert_eq!(maps.len(), 1);
    let ids: Vec<i64> = maps[0].1.iter().map(|e| e.0).collect();
    assert_eq!(ids, vec![0, 1]);
    assert_eq!(
        viewer.get_container_name_by_serialized_file_id_and_path_id(1, 10),
        Some(&"assets/a.prefab".to_string())
    );
}

