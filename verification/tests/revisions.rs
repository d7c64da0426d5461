use io_unity::error::ReadError;
use io_unity::serialized_file::{BuildTarget, SerializedFile, SerializedFileFormatVersion};
use io_unity::type_tree::convert::{CastError, F32Bits, TryCastFrom};
use io_unity::until::Endian;

const COMMON: u32 = 0x8000_0000;

fn push_i32(out: &mut Vec<u8>, v: i32) {
    out.extend_from_slice(&v.to_le_bytes());
}

fn push_str(out: &mut Vec<u8>, s: &str) {
    out.extend_from_slice(s.as_bytes());
    out.push(0);
}

fn blob(out: &mut Vec<u8>, level: u8, type_off: u32, name_off: u32, size: i32, index: i32, meta: i32) {
    out.extend_from_slice(&1u16.to_le_bytes()); // version
    out.push(level);
    out.push(0); // type flags
    out.extend_from_slice(&type_off.to_le_bytes());
    out.extend_from_slice(&name_off.to_le_bytes());
    out.extend_from_slice(&size.to_le_bytes());
    out.extend_from_slice(&index.to_le_bytes());
    out.extend_from_slice(&meta.to_le_bytes());
    out.extend_from_slice(&0u64.to_le_bytes()); // reference type hash
}

/// The header of a file whose metadata follows it: sizes, revision, data offset,
/// then a little-endian flag and three reserved bytes.
fn finish(revision: u32, meta: Vec<u8>) -> Vec<u8> {
    let header_len = 20usize;
    let mut data_offset = header_len + meta.len();
    while data_offset % 16 != 0 {
        data_offset += 1;
    }
    let file_size = data_offset + 12;
    let mut out = Vec::new();
    out.extend_from_slice(&(meta.len() as u32).to_be_bytes());
    out.extend_from_slice(&(file_size as u32).to_be_bytes());
    out.extend_from_slice(&revision.to_be_bytes());
    out.extend_from_slice(&(data_offset as u32).to_be_bytes());
    out.push(0); // little endian
    out.extend_from_slice(&[0, 0, 0]);
    out.extend_from_slice(&meta);
    out.resize(data_offset, 0);
    push_i32(&mut out, -5);
    out.extend_from_slice(&2.5f32.to_bits().to_le_bytes());
    out.extend_from_slice(&[9, 0, 0, 0]);
    out
}

/// A revision 20 file with one type (class 1: `m_A: int`, `m_B: float`, `m_C: UInt8`
/// aligned) as node blobs, and one object of it with path id `path_id`.
fn revision20_file(path_id: i64) -> Vec<u8> {
    let mut meta = Vec::new();
    push_str(&mut meta, "2019.3.0f1");
    push_i32(&mut meta, 19); // platform
    meta.push(1); // type trees stored
    meta.extend_from_slice(&1u32.to_le_bytes()); // one type
    push_i32(&mut meta, 1); // class id
    meta.push(0); // not stripped
    meta.extend_from_slice(&(-1i16).to_le_bytes()); // script type index
    meta.extend_from_slice(&[0u8; 16]); // old type hash
    let strings = b"Sample\0m_A\0m_B\0m_C\0".to_vec();
    push_i32(&mut meta, 4); // nodes
    push_i32(&mut meta, strings.len() as i32);
    blob(&mut meta, 0, 0, COMMON | 55, 12, 0, 0); // Sample Base
    blob(&mut meta, 1, COMMON | 222, 7, 4, 1, 0); // int m_A
    blob(&mut meta, 1, COMMON | 161, 11, 4, 2, 0); // float m_B
    blob(&mut meta, 1, COMMON | 928, 15, 1, 3, 0x4000); // UInt8 m_C
    meta.extend_from_slice(&strings);
    push_i32(&mut meta, 1); // one object
    while (20 + meta.len()) % 4 != 0 {
        meta.push(0);
    }
    meta.extend_from_slice(&path_id.to_le_bytes());
    meta.extend_from_slice(&0u32.to_le_bytes()); // byte start
    meta.extend_from_slice(&12u32.to_le_bytes()); // byte size
    push_i32(&mut meta, 0); // type index
    push_i32(&mut meta, 0); // no scripts
    push_i32(&mut meta, 1); // one external
    push_str(&mut meta, "");
    meta.extend_from_slice(&[3u8; 16]);
    push_i32(&mut meta, 0);
    push_str(&mut meta, "archive:/CAB-other/CAB-other");
    push_i32(&mut meta, 0); // no reference types
    push_str(&mut meta, ""); // user information
    finish(20, meta)
}

fn node(out: &mut Vec<u8>, ty: &str, name: &str, size: i32, index: i32, meta: i32, children: i32) {
    push_str(out, ty);
    push_str(out, name);
    push_i32(out, size);
    push_i32(out, index);
    push_i32(out, 0); // type flags
    push_i32(out, 1); // version
    push_i32(out, meta);
    push_i32(out, children);
}

/// A revision 11 file with one type (class 1, the same fields as nested node
/// records), one object of it with path id `path_id` (64 bits wide when `big_ids`)
/// and two script types.
fn revision11_file(path_id: i64, big_ids: bool) -> Vec<u8> {
    let mut meta = Vec::new();
    push_str(&mut meta, "5.0.0f1");
    push_i32(&mut meta, 5); // platform
    meta.extend_from_slice(&1u32.to_le_bytes()); // one type
    push_i32(&mut meta, 1); // class id
    node(&mut meta, "Sample", "Base", 12, 0, 0, 3);
    node(&mut meta, "int", "m_A", 4, 1, 0, 0);
    node(&mut meta, "float", "m_B", 4, 2, 0, 0);
    node(&mut meta, "UInt8", "m_C", 1, 3, 0x4000, 0);
    push_i32(&mut meta, if big_ids { 1 } else { 0 });
    push_i32(&mut meta, 1); // one object
    if big_ids {
        meta.extend_from_slice(&path_id.to_le_bytes());
    } else {
        push_i32(&mut meta, path_id as i32);
    }
    meta.extend_from_slice(&0u32.to_le_bytes()); // byte start
    meta.extend_from_slice(&12u32.to_le_bytes()); // byte size
    push_i32(&mut meta, 1); // type id: the class
    meta.extend_from_slice(&1u16.to_le_bytes()); // class id
    meta.extend_from_slice(&(-1i16).to_le_bytes()); // script type index
    push_i32(&mut meta, 2); // two script types
    for _ in 0..2 {
        push_i32(&mut meta, 0);
        push_i32(&mut meta, 7);
    }
    push_i32(&mut meta, 1); // one external
    push_str(&mut meta, "");
    meta.extend_from_slice(&[4u8; 16]);
    push_i32(&mut meta, 2);
    push_str(&mut meta, "library/unity default resources");
    push_str(&mut meta, ""); // user information
    finish(11, meta)
}

#[test]
fn revision_20_file_reads() {
    let file = SerializedFile::read(revision20_file(-7), 4, None).unwrap();
    assert_eq!(file.get_serialized_file_version(), SerializedFileFormatVersion::SupportsRefObject);
    assert_eq!(file.get_unity_version(), "2019.3.0f1");
    assert_eq!(file.get_target_platform(), BuildTarget::StandaloneWindows64);
    assert_eq!(file.get_endianess(), Endian::Little);
    let obj = file.get_object_map().get(&-7).unwrap();
    assert_eq!(obj.class, 1);
    assert_eq!(obj.byte_size, 12);
    assert_eq!(file.get_externals()[0].path, "archive:/CAB-other/CAB-other");
    let object = file.get_tt_object_by_path_id(-7).unwrap().unwrap();
    let a: Result<i32, CastError> = <i32 as TryCastFrom<_, _>>::try_cast_from(&object, "Base/m_A");
    assert_eq!(a, Ok(-5));
    let b: Result<F32Bits, CastError> = <F32Bits as TryCastFrom<_, _>>::try_cast_from(&object, "Base/m_B");
    assert_eq!(f32::from_bits(b.unwrap().0), 2.5);
}

#[test]
fn revision_11_file_reads_with_narrow_and_wide_ids() {
    for big_ids in [false, true] {
        let file = SerializedFile::read(revision11_file(-3, big_ids), 1, None).unwrap();
        assert_eq!(file.get_serialized_file_version(), SerializedFileFormatVersion::HasScriptTypeIndex);
        assert_eq!(file.get_unity_version(), "5.0.0f1");
        assert_eq!(file.get_target_platform(), BuildTarget::StandaloneWindows);
        assert!(file.get_enable_type_tree());
        let obj = file.get_object_map().get(&-3).unwrap();
        assert_eq!(obj.class, 1);
        let externals = file.get_externals();
        assert_eq!(externals[0].path, "library/unity default resources");
        assert_eq!(externals[0].guid, vec![4u8; 16]);
        assert_eq!(externals[0].file_type, 2);
        let object = file.get_tt_object_by_path_id(-3).unwrap().unwrap();
        let c: Result<u8, CastError> = <u8 as TryCastFrom<_, _>>::try_cast_from(&object, "Base/m_C");
        assert_eq!(c, Ok(9));
    }
}

#[test]
fn revision_11_truncated_scripts() {
    let mut bytes = revision11_file(5, false);
    // cut the file inside the script types
    let meta_len = u32::from_be_bytes([bytes[0], bytes[1], bytes[2], bytes[3]]) as usize;
    bytes.truncate(20 + meta_len - 60);
    assert_eq!(SerializedFile::read(bytes, 0, None).err(), Some(ReadError::UnexpectedEof));
}
