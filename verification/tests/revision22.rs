use io_unity::serialized_file::{BuildTarget, SerializedFile, SerializedFileFormatVersion};
use io_unity::serialized_file::version22::{read_type_tree_string, TypeTreeNodeBlob};
use io_unity::type_tree::convert::{CastError, F32Bits, TryCastFrom};
use io_unity::until::Endian;

const COMMON: u32 = 0x8000_0000;

fn blob(out: &mut Vec<u8>, level: u8, type_off: u32, name_off: u32, size: i32, index: i32, meta: i32) {
    out.extend_from_slice(&1u16.to_le_bytes()); // version
    out.push(level);
    out.push(0); // type flags
    out.extend_from_slice(&type_off.to_le_bytes());
    out.extend_from_slice(&name_off.to_le_bytes());
    out.extend_from_slice(&size.to_le_bytes());
    out.extend_from_slice(&index.to_le_bytes());
    out.extend_from_slice(&meta.to_le_bytes());
    out.extend_from_slice(&0u64.to_le_bytes()); // reference type hash
}

/// A little-endian revision 22 file with one type (class 1: `m_A: int`, `m_B: float`,
/// `m_C: UInt8` aligned, names from the tree's own strings and type names from the
/// common strings), and one object of it with path id `path_id`.
fn revision22_file(path_id: i64, type_index: i32) -> Vec<u8> {
    let mut meta = Vec::new();
    meta.extend_from_slice(b"2020.3.1f1\0");
    meta.extend_from_slice(&19i32.to_le_bytes()); // platform
    meta.push(1); // type trees stored
    meta.extend_from_slice(&1u32.to_le_bytes()); // one type
    meta.extend_from_slice(&1i32.to_le_bytes()); // class id
    meta.push(0); // not stripped
    meta.extend_from_slice(&(-1i16).to_le_bytes()); // script type index
    meta.extend_from_slice(&[0u8; 16]); // old type hash
    let strings = b"Sample\0m_A\0m_B\0m_C\0".to_vec();
    meta.extend_from_slice(&4i32.to_le_bytes()); // nodes
    meta.extend_from_slice(&(strings.len() as i32).to_le_bytes());
    blob(&mut meta, 0, 0, COMMON | 55, 12, 0, 0); // Sample Base
    blob(&mut meta, 1, COMMON | 222, 7, 4, 1, 0); // int m_A
    blob(&mut meta, 1, COMMON | 161, 11, 4, 2, 0); // float m_B
    blob(&mut meta, 1, COMMON | 928, 15, 1, 3, 0x4000); // UInt8 m_C
    meta.extend_from_slice(&strings);
    meta.extend_from_slice(&0i32.to_le_bytes()); // no dependencies
    meta.extend_from_slice(&1i32.to_le_bytes()); // one object
    // object records are aligned to 4 bytes from the start of the file
    let header_len = 48usize;
    while (header_len + meta.len()) % 4 != 0 {
        meta.push(0);
    }
    meta.extend_from_slice(&path_id.to_le_bytes());
    meta.extend_from_slice(&0u64.to_le_bytes()); // byte start
    meta.extend_from_slice(&12u32.to_le_bytes()); // byte size
    meta.extend_from_slice(&type_index.to_le_bytes());
    meta.extend_from_slice(&0i32.to_le_bytes()); // no scripts
    meta.extend_from_slice(&1i32.to_le_bytes()); // one external
    meta.push(0);
    meta.extend_from_slice(&[3u8; 16]);
    meta.extend_from_slice(&0i32.to_le_bytes());
    meta.extend_from_slice(b"archive:/CAB-other/CAB-other\0");
    meta.extend_from_slice(&0i32.to_le_bytes()); // no reference types
    meta.push(0); // user information
    let mut data_offset = header_len + meta.len();
    while data_offset % 16 != 0 {
        data_offset += 1;
    }
    let file_size = data_offset + 12;
    let mut out = Vec::new();
    out.extend_from_slice(&0u32.to_be_bytes());
    out.extend_from_slice(&0u32.to_be_bytes());
    out.extend_from_slice(&22u32.to_be_bytes());
    out.extend_from_slice(&0u32.to_be_bytes());
    out.push(0); // little endian
    out.extend_from_slice(&[0, 0, 0]);
    out.extend_from_slice(&(meta.len() as u32).to_be_bytes());
    out.extend_from_slice(&(file_size as u64).to_be_bytes());
    out.extend_from_slice(&(data_offset as u64).to_be_bytes());
    out.extend_from_slice(&0u64.to_be_bytes());
    assert_eq!(out.len(), header_len);
    out.extend_from_slice(&meta);
    out.resize(data_offset, 0);
    out.extend_from_slice(&(-5i32).to_le_bytes());
    out.extend_from_slice(&2.5f32.to_bits().to_le_bytes());
    out.extend_from_slice(&[9, 0, 0, 0]);
    out
}

#[test]
fn revision_22_file_reads() {
    let file = SerializedFile::read(revision22_file(-7, 0), 2, None).unwrap();
    assert_eq!(file.get_serialized_file_version(), SerializedFileFormatVersion::LargeFilesSupport);
    assert_eq!(file.get_unity_version(), "2020.3.1f1");
    assert_eq!(file.get_target_platform(), BuildTarget::StandaloneWindows64);
    assert_eq!(file.get_endianess(), Endian::Little);
    assert!(file.get_enable_type_tree());
    let obj = file.get_object_map().get(&-7).unwrap();
    assert_eq!(obj.class, 1);
    assert_eq!(obj.type_id, 0);
    let externals = file.get_externals();
    assert_eq!(externals[0].path, "archive:/CAB-other/CAB-other");
    let args = file.get_type_object_args_by_type_id(0).unwrap();
    let names: Vec<&str> = args.get_type_fields().iter().map(|n| n.name.as_str()).collect();
    assert_eq!(names, vec!["Base", "m_A", "m_B", "m_C"]);
    let types: Vec<&str> = args.get_type_fields().iter().map(|n| n.type_string.as_str()).collect();
    assert_eq!(types, vec!["Sample", "int", "float", "UInt8"]);
    assert!(file.get_type_object_args_by_type_id(1).is_none());

    let object = file.get_tt_object_by_path_id(-7).unwrap().unwrap();
    let a: Result<i32, CastError> = <i32 as TryCastFrom<_, _>>::try_cast_from(&object, "Base/m_A");
    assert_eq!(a, Ok(-5));
    let b: Result<F32Bits, CastError> = <F32Bits as TryCastFrom<_, _>>::try_cast_from(&object, "Base/m_B");
    assert_eq!(f32::from_bits(b.unwrap().0), 2.5);
    let metadata = file.get_metadata().unwrap();
    assert_eq!(metadata.unity_version.get_version(), &vec![2020, 3, 1, 1]);
}

#[test]
fn revision_22_refuses_unknown_type_index() {
    assert!(SerializedFile::read(revision22_file(1, 3), 0, None).is_err());
}

#[test]
fn type_tree_strings() {
    let strings = b"abc\0de\0";
    assert_eq!(read_type_tree_string(0, strings), Some("abc".to_string()));
    assert_eq!(read_type_tree_string(4, strings), Some("de".to_string()));
    assert_eq!(read_type_tree_string(9, strings), None);
    assert_eq!(read_type_tree_string(COMMON | 55, strings), Some("Base".to_string()));
    assert_eq!(read_type_tree_string(COMMON | 3, strings), None);
    let node = TypeTreeNodeBlob {
        version: 1,
        level: 0,
        type_flags: 0,
        type_str_offset: COMMON | 427,
        name_str_offset: 4,
        byte_size: 4,
        index: 0,
        meta_flag: 0,
        ref_type_hash: 0,
    };
    assert_eq!(node.get_type_str(strings), Some("m_Name".to_string()));
    assert_eq!(node.get_name_str(strings), Some("de".to_string()));
}
