use io_unity::error::ReadError;
use io_unity::resource::{
    data_dir_file, data_dir_next, file_name, get_resource_location, level_file_name, shared_assets_file_name,
    DataDirStep, ResourceLocation,
};
use io_unity::unityfs::{block_uncompressed, compression_type_from_code, CompressionType, UnityFS};

const CAB: &str = "CAB-0123456789abcdef0123456789abcdef";

/// A version 6 bundle with one stored data block holding two files; the block table
/// is compressed with `table_code` (0 stored, 2 LZ4).
fn bundle(table_code: u32) -> Vec<u8> {
    let files: [(&str, &[u8]); 2] = [(CAB, b"serialized"), ("CAB-0123456789abcdef0123456789abcdef.resS", b"xyz")];
    let mut data = Vec::new();
    let mut table = vec![0u8; 16]; // hash
    table.extend_from_slice(&1u32.to_be_bytes()); // one block
    let total: usize = files.iter().map(|f| f.1.len()).sum();
    table.extend_from_slice(&(total as u32).to_be_bytes());
    table.extend_from_slice(&(total as i32).to_be_bytes());
    table.extend_from_slice(&0u16.to_be_bytes());
    table.extend_from_slice(&(files.len() as u32).to_be_bytes());
    for (path, bytes) in files.iter() {
        table.extend_from_slice(&(data.len() as i64).to_be_bytes());
        table.extend_from_slice(&(bytes.len() as i64).to_be_bytes());
        table.extend_from_slice(&4u32.to_be_bytes());
        table.extend_from_slice(path.as_bytes());
        table.push(0);
        data.extend_from_slice(bytes);
    }
    let stored_table = if table_code == 2 {
        lz4::block::compress(&table, None, false).unwrap()
    } else {
        table.clone()
    };
    let mut out = b"UnityFS\0".to_vec();
    out.extend_from_slice(&6u32.to_be_bytes());
    out.extend_from_slice(b"5.x.x\0");
    out.extend_from_slice(b"2019.4.0f1\0");
    let size_at = out.len();
    out.extend_from_slice(&0i64.to_be_bytes());
    out.extend_from_slice(&(stored_table.len() as u32).to_be_bytes());
    out.extend_from_slice(&(table.len() as u32).to_be_bytes());
    out.extend_from_slice(&table_code.to_be_bytes());
    out.extend_from_slice(&stored_table);
    out.extend_from_slice(&data);
    let size = out.len() as i64;
    out[size_at..size_at + 8].copy_from_slice(&size.to_be_bytes());
    out
}

#[test]
fn stored_bundle_lists_and_reads_files() {
    let fs = UnityFS::read(bundle(0), None).unwrap();
    assert_eq!(fs.get_files().len(), 2);
    assert_eq!(fs.get_cab_path(), vec![CAB.to_string()]);
    assert_eq!(fs.get_file_data_by_path(&CAB.to_string()).unwrap(), b"serialized".to_vec());
    assert_eq!(
        fs.get_file_by_path(format!("{}.resS", CAB)).unwrap(),
        b"xyz".to_vec()
    );
    assert_eq!(fs.get_cab().unwrap(), b"serialized".to_vec());
    assert_eq!(fs.get_file_data_by_path(&"missing".to_string()).err(), Some(ReadError::NotFound));
}

#[test]
fn lz4_block_table_is_decompressed() {
    let fs = UnityFS::read(bundle(2), Some("here".to_string())).unwrap();
    assert_eq!(fs.get_cab_path(), vec![CAB.to_string()]);
    assert_eq!(fs.get_file_data_by_path(&CAB.to_string()).unwrap(), b"serialized".to_vec());
    assert_eq!(fs.resource_search_path, Some("here".to_string()));
}

#[test]
fn refused_bundles() {
    let mut bad = bundle(0);
    bad[0] = b'X';
    assert_eq!(UnityFS::read(bad, None).err(), Some(ReadError::BadMagic));
    assert_eq!(UnityFS::read(b"Unity".to_vec(), None).err(), Some(ReadError::UnexpectedEof));
    // LZMA tables are not decoded
    let mut lzma = bundle(0);
    let flags_at = 8 + 4 + 6 + 11 + 8 + 4 + 4;
    lzma[flags_at..flags_at + 4].copy_from_slice(&1u32.to_be_bytes());
    assert_eq!(UnityFS::read(lzma, None).err(), Some(ReadError::UnsupportedCompression));
    // an undefined compression code
    let mut odd = bundle(0);
    odd[flags_at..flags_at + 4].copy_from_slice(&9u32.to_be_bytes());
    assert_eq!(UnityFS::read(odd, None).err(), Some(ReadError::InvalidValue));
}

#[test]
fn block_decompression() {
    let raw = b"abcabcabcabcabcabc".to_vec();
    let packed = lz4::block::compress(&raw, None, false).unwrap();
    assert_eq!(block_uncompressed(raw.len() as u64, CompressionType::Lz4, packed.clone()).unwrap(), raw);
    assert_eq!(block_uncompressed(raw.len() as u64, CompressionType::Lz4HC, packed).unwrap(), raw);
    assert_eq!(block_uncompressed(3, CompressionType::Uncompressed, vec![1, 2, 3]).unwrap(), vec![1, 2, 3]);
    assert_eq!(
        block_uncompressed(3, CompressionType::Lzma, vec![1, 2, 3]).err(),
        Some(ReadError::UnsupportedCompression)
    );
    assert_eq!(
        block_uncompressed(100, CompressionType::Lz4, vec![0xff, 0xff, 0xff]).err(),
        Some(ReadError::Decompress)
    );
}

#[test]
fn compression_codes() {
    assert_eq!(compression_type_from_code(0), Some(CompressionType::Uncompressed));
    assert_eq!(compression_type_from_code(3), Some(CompressionType::Lz4HC));
    assert_eq!(compression_type_from_code(5), None);
}

#[test]
fn resource_file_names_and_places() {
    assert_eq!(file_name(&"archive:/CAB-x/CAB-x.resS".to_string()), Some("CAB-x.resS".to_string()));
    assert_eq!(file_name(&"a/b/.".to_string()), Some("b".to_string()));
    assert_eq!(file_name(&"a/..".to_string()), None);
    assert_eq!(file_name(&"/".to_string()), None);
    assert_eq!(file_name(&"tex.resource".to_string()), Some("tex.resource".to_string()));

    let fs = UnityFS::read(bundle(0), Some("bundles".to_string())).unwrap();
    let inside = format!("archive:/{}/{}.resS", CAB, CAB);
    match get_resource_location(&inside, None, Some(&fs), None) {
        ResourceLocation::Archive(Some(_)) => {}
        other => panic!("unexpected {:?}", other),
    }
    match get_resource_location(&inside, None, None, None) {
        ResourceLocation::Archive(None) => {}
        other => panic!("unexpected {:?}", other),
    }
    let search = "here".to_string();
    match get_resource_location(&"sub/tex.resource".to_string(), None, Some(&fs), Some(&search)) {
        ResourceLocation::Directories { file_name, dirs } => {
            assert_eq!(file_name, "tex.resource");
            assert_eq!(dirs, vec!["here".to_string(), "bundles".to_string(), ".".to_string()]);
        }
        other => panic!("unexpected {:?}", other),
    }
    assert!(matches!(
        get_resource_location(&"..".to_string(), None, None, None),
        ResourceLocation::NoFileName
    ));
}

#[test]
fn reader_and_direct_read_agree() {
    let fs = UnityFS::read(bundle(0), None).unwrap();
    for node in fs.get_files() {
        let direct = fs.get_file_data_by_path(&node.path).unwrap();
        let mut reader = fs.get_file_reader_by_path(&node.path).unwrap();
        let read = reader.read(node.size as usize).unwrap();
        assert_eq!(read, direct);
    }
    assert!(fs.get_file_reader_by_path(&"missing".to_string()).is_none());
}

#[test]
fn data_directory_file_names() {
    assert_eq!(level_file_name(0), "level0");
    assert_eq!(level_file_name(12), "level12");
    assert_eq!(shared_assets_file_name(3), "sharedassets3.assets");
    // the scan: scenes until one is missing, shared assets likewise, then the managers
    let present = ["level0", "level1", "sharedassets0.assets", "globalgamemanagers"];
    let mut step = DataDirStep::Levels(0);
    let mut tried = Vec::new();
    while let Some(name) = data_dir_file(step) {
        let opened = present.contains(&name.as_str());
        tried.push(name);
        step = data_dir_next(step, opened);
    }
    assert_eq!(
        tried,
        vec![
            "level0",
            "level1",
            "level2",
            "sharedassets0.assets",
            "sharedassets1.assets",
            "resources.assets",
            "globalgamemanagers.assets",
            "globalgamemanagers",
        ]
    );
    assert_eq!(data_dir_next(DataDirStep::Levels(254), true), DataDirStep::SharedAssets(0));
}
