use io_unity::error::ReadError;
use io_unity::serialized_file::{BuildTarget, SerializedFile, SerializedFileFormatVersion};
use io_unity::type_tree::attr::AttrValue;
use io_unity::type_tree::convert::{CastError, F32Bits, QuatBits, TryCastFrom, Vec2Bits, Vec3Bits};
use io_unity::type_tree::display::{DisplayLine, DisplayValue};
use io_unity::type_tree::type_tree_json::{Class, InfoJson, InfoJsonStore, Node};
use io_unity::until::Endian;

fn push_i32(out: &mut Vec<u8>, v: i32) {
    out.extend_from_slice(&v.to_le_bytes());
}

fn push_str(out: &mut Vec<u8>, s: &str) {
    out.extend_from_slice(s.as_bytes());
    out.push(0);
}

#[allow(clippy::too_many_arguments)]
fn push_node(out: &mut Vec<u8>, ty: &str, name: &str, size: i32, index: i32, meta: i32, children: i32) {
    push_str(out, ty);
    push_str(out, name);
    push_i32(out, size);
    push_i32(out, index);
    push_i32(out, 0); // type flags
    push_i32(out, 1); // version
    push_i32(out, meta);
    push_i32(out, children);
}

/// A revision 3 node record: no index and no meta flag.
fn push_short_node(out: &mut Vec<u8>, ty: &str, name: &str, size: i32, children: i32) {
    push_str(out, ty);
    push_str(out, name);
    push_i32(out, size);
    push_i32(out, 0); // type flags
    push_i32(out, 1); // version
    push_i32(out, children);
}

/// A little-endian file of revision `revision` (5 or 6) with one type (class 1:
/// `m_A: int`, `m_B: float`, `m_C: UInt8` aligned) and one object of it, path id 42.
fn sample_file(revision: u32) -> Vec<u8> {
    sample_file_with(revision, 1, false)
}

/// The same file with its one type tree given for class `type_class`, and with a
/// second object of path id 42 and class 7 listed after the first when `twice`.
fn sample_file_with(revision: u32, type_class: i32, twice: bool) -> Vec<u8> {
    let mut meta = Vec::new();
    meta.push(0u8); // little endian
    meta.extend_from_slice(&1u32.to_le_bytes()); // one type
    push_i32(&mut meta, type_class); // class id
    if revision == 3 {
        push_short_node(&mut meta, "Sample", "Base", 12, 3);
        push_short_node(&mut meta, "int", "m_A", 4, 0);
        push_short_node(&mut meta, "float", "m_B", 4, 0);
        push_short_node(&mut meta, "UInt8", "m_C", 1, 0);
    } else {
        push_node(&mut meta, "Sample", "Base", 12, 0, 0, 3);
        push_node(&mut meta, "int", "m_A", 4, 1, 0, 0);
        push_node(&mut meta, "float", "m_B", 4, 2, 0, 0);
        push_node(&mut meta, "UInt8", "m_C", 1, 3, 0x4000, 0);
    }
    push_i32(&mut meta, if twice { 2 } else { 1 }); // objects
    for class in if twice { vec![1u16, 7] } else { vec![1u16] } {
        push_i32(&mut meta, 42); // path id
        meta.extend_from_slice(&0u32.to_le_bytes()); // byte start
        meta.extend_from_slice(&12u32.to_le_bytes()); // byte size
        push_i32(&mut meta, 1); // type id
        meta.extend_from_slice(&class.to_le_bytes()); // class id
        meta.extend_from_slice(&0u16.to_le_bytes()); // destroyed
    }
    push_i32(&mut meta, 1); // one external
    if revision == 6 {
        push_str(&mut meta, "");
    }
    if revision >= 5 {
        meta.extend_from_slice(&[7u8; 16]);
        push_i32(&mut meta, 3);
    }
    push_str(&mut meta, "library/extra");
    if revision == 6 {
        push_str(&mut meta, "");
    }
    let header_len = 16usize;
    let mut data_offset = header_len + meta.len();
    while data_offset % 16 != 0 {
        data_offset += 1;
    }
    let file_size = data_offset + 12;
    let mut out = Vec::new();
    out.extend_from_slice(&((file_size - header_len) as u32).to_be_bytes()); // metadata size
    out.extend_from_slice(&(file_size as u32).to_be_bytes());
    out.extend_from_slice(&revision.to_be_bytes());
    out.extend_from_slice(&(data_offset as u32).to_be_bytes());
    out.extend_from_slice(&meta);
    out.resize(data_offset, 0);
    push_i32(&mut out, -5);
    out.extend_from_slice(&1.5f32.to_bits().to_le_bytes());
    out.extend_from_slice(&[9, 0, 0, 0]);
    out
}

#[test]
fn revision_6_file_reads_objects_and_fields() {
    let file = SerializedFile::read(sample_file(6), 3, None).unwrap();
    assert_eq!(file.get_serialized_file_version(), SerializedFileFormatVersion::Unknown_6);
    assert_eq!(file.get_endianess(), Endian::Little);
    assert_eq!(file.get_serialized_file_id(), 3);
    assert_eq!(file.get_target_platform(), BuildTarget::UnknownPlatform);
    assert!(file.get_enable_type_tree());
    assert_eq!(file.get_object_map().len(), 1);
    let obj = file.get_object_map().get(&42).unwrap();
    assert_eq!(obj.byte_size, 12);
    assert_eq!(obj.class, 1);
    let externals = file.get_externals();
    assert_eq!(externals.len(), 1);
    assert_eq!(externals[0].path, "library/extra");
    assert_eq!(externals[0].file_type, 3);
    assert_eq!(externals[0].guid, vec![7u8; 16]);

    assert!(file.get_tt_object_by_path_id(5).unwrap().is_none());
    let object = file.get_tt_object_by_path_id(42).unwrap().unwrap();
    assert_eq!(object.get_class_id(), 1);
    assert_eq!(object.get_serialized_file_id(), 3);
    assert_eq!(object.get_data_buff().len(), 12);
    let a: Result<i32, CastError> = <i32 as TryCastFrom<_, _>>::try_cast_from(&object, "Base/m_A");
    assert_eq!(a, Ok(-5));
    let a64: Result<i64, CastError> = <i64 as TryCastFrom<_, _>>::try_cast_from(&object, "Base/m_A");
    assert_eq!(a64, Ok(-5));
    let b: Result<F32Bits, CastError> = <F32Bits as TryCastFrom<_, _>>::try_cast_from(&object, "Base/m_B");
    assert_eq!(f32::from_bits(b.unwrap().0), 1.5);
    let c: Result<u8, CastError> = <u8 as TryCastFrom<_, _>>::try_cast_from(&object, "Base/m_C");
    assert_eq!(c, Ok(9));
    let wrong: Result<u8, CastError> = <u8 as TryCastFrom<_, _>>::try_cast_from(&object, "Base/m_A");
    assert_eq!(wrong, Err(CastError::TypeNotMatch));
    let missing: Result<i32, CastError> = <i32 as TryCastFrom<_, _>>::try_cast_from(&object, "Base/m_Z");
    assert_eq!(missing, Err(CastError::CannotGetField));
    assert_eq!(object.try_as_slice("Base/m_A").unwrap(), &(-5i32).to_le_bytes()[..]);
    let (field, _) = object.get_field_by_path("Base/m_A").unwrap();
    let args = object.get_field_cast_args();
    assert_eq!(field.try_read_to(object.get_data_buff(), 0, &args), Ok((-5, 4)));
    assert_eq!(field.try_read_to(object.get_data_buff(), 10, &args), Err(CastError::ReadFailed));
    let (float_field, _) = object.get_field_by_path("Base/m_B").unwrap();
    assert_eq!(float_field.try_read_to(object.get_data_buff(), 0, &args), Err(CastError::TypeNotMatch));
}

#[test]
fn revision_6_object_attributes() {
    let file = SerializedFile::read(sample_file(6), 0, None).unwrap();
    let object = file.get_tt_object_by_path_id(42).unwrap().unwrap().into_ref();
    assert_eq!(object.get_name(), Some("Base".to_string()));
    assert_eq!(object.get_type(), Some("Sample".to_string()));
    assert!(matches!(object.get_attr("m_A"), Ok(AttrValue::I32(-5))));
    match object.get_attr("m_B") {
        Ok(AttrValue::F32(b)) => assert_eq!(f32::from_bits(b.0), 1.5),
        other => panic!("unexpected {:?}", other),
    }
    assert!(matches!(object.get_attr("m_C"), Ok(AttrValue::U8(9))));
    assert!(matches!(object.get_attr("m_Z"), Err(CastError::CannotGetField)));
}

#[test]
fn revision_6_display_lines() {
    let file = SerializedFile::read(sample_file(6), 0, None).unwrap();
    let object = file.get_tt_object_by_path_id(42).unwrap().unwrap();
    let lines = object.display_tree();
    assert_eq!(lines.len(), 5);
    assert!(matches!(lines[0], DisplayLine::ClassId(1)));
    match &lines[1] {
        DisplayLine::Field { path, type_string, byte_size, value } => {
            assert_eq!(path, "/Base");
            assert_eq!(type_string, "Sample");
            assert_eq!(*byte_size, 12);
            assert_eq!(*value, DisplayValue::Missing);
        }
        other => panic!("unexpected {:?}", other),
    }
    match &lines[2] {
        DisplayLine::Field { path, value, .. } => {
            assert_eq!(path, "/Base/m_A");
            assert_eq!(*value, DisplayValue::Signed(-5));
        }
        other => panic!("unexpected {:?}", other),
    }
    match &lines[3] {
        DisplayLine::Field { path, value, .. } => {
            assert_eq!(path, "/Base/m_B");
            assert_eq!(*value, DisplayValue::Float(F32Bits(1.5f32.to_bits())));
        }
        other => panic!("unexpected {:?}", other),
    }
    match &lines[4] {
        DisplayLine::Field { path, value, .. } => {
            assert_eq!(path, "/Base/m_C");
            assert_eq!(*value, DisplayValue::Unsigned(9));
        }
        other => panic!("unexpected {:?}", other),
    }
}

#[test]
fn revision_5_file_has_plain_references() {
    let file = SerializedFile::read(sample_file(5), 1, Some("dir".to_string())).unwrap();
    assert_eq!(file.get_serialized_file_version(), SerializedFileFormatVersion::Unknown_5);
    let externals = file.get_externals();
    assert_eq!(externals.len(), 1);
    assert_eq!(externals[0].temp_empty, "");
    assert_eq!(externals[0].path, "library/extra");
    let object = file.get_tt_object_by_path_id(42).unwrap().unwrap();
    let a: Result<i32, CastError> = <i32 as TryCastFrom<_, _>>::try_cast_from(&object, "Base/m_A");
    assert_eq!(a, Ok(-5));
    assert_eq!(file.resource_search_path, Some("dir".to_string()));
}

#[test]
fn refused_files() {
    assert_eq!(SerializedFile::read(vec![0; 8], 0, None).err(), Some(ReadError::UnexpectedEof));
    // revision 0 is not a format version
    let mut bad = sample_file(6);
    bad[8..12].copy_from_slice(&0u32.to_be_bytes());
    assert_eq!(SerializedFile::read(bad, 0, None).err(), Some(ReadError::InvalidValue));
    // revision 7 is a version this library does not read
    let mut bad = sample_file(6);
    bad[8..12].copy_from_slice(&7u32.to_be_bytes());
    assert_eq!(SerializedFile::read(bad, 0, None).err(), Some(ReadError::UnsupportedVersion));
    // byte order marker other than 0 or 1
    let mut bad = sample_file(6);
    bad[16] = 5;
    assert_eq!(SerializedFile::read(bad, 0, None).err(), Some(ReadError::InvalidValue));
    // metadata larger than the file
    let mut bad = sample_file(6);
    bad[0..4].copy_from_slice(&u32::MAX.to_be_bytes());
    assert_eq!(SerializedFile::read(bad, 0, None).err(), Some(ReadError::InvalidValue));
    // cut short in the middle of the metadata
    let short = sample_file(6)[..40].to_vec();
    assert_eq!(SerializedFile::read(short, 0, None).err(), Some(ReadError::UnexpectedEof));
}

#[test]
fn format_version_and_target_numbers_round_trip() {
    for n in 0u32..40 {
        if let Some(v) = SerializedFileFormatVersion::from_u32(n) {
            assert_eq!(v.to_u32(), n);
        }
    }
    assert_eq!(SerializedFileFormatVersion::from_u32(6), Some(SerializedFileFormatVersion::Unknown_6));
    assert_eq!(SerializedFileFormatVersion::from_u32(0), None);
    for n in -3i32..50 {
        if let Some(t) = BuildTarget::from_i32(n) {
            assert_eq!(t.to_i32(), n);
        }
    }
    assert_eq!(BuildTarget::from_i32(9999), Some(BuildTarget::UnknownPlatform));
    assert_eq!(BuildTarget::UnknownPlatform.to_i32(), 9999);
}

/// A revision 6 file whose one object (path id 7) is `m_V: Vector3f` and `m_Q:
/// Quaternionf` followed by `m_P: Vector2f` that lacks its `y` member.
fn vector_file() -> Vec<u8> {
    let mut meta = Vec::new();
    meta.push(0u8);
    meta.extend_from_slice(&1u32.to_le_bytes());
    push_i32(&mut meta, 4);
    push_node(&mut meta, "Transform", "Base", 32, 0, 0, 3);
    push_node(&mut meta, "Vector3f", "m_V", 12, 1, 0, 3);
    push_node(&mut meta, "float", "x", 4, 2, 0, 0);
    push_node(&mut meta, "float", "y", 4, 3, 0, 0);
    push_node(&mut meta, "float", "z", 4, 4, 0, 0);
    push_node(&mut meta, "Quaternionf", "m_Q", 16, 5, 0, 4);
    push_node(&mut meta, "float", "x", 4, 6, 0, 0);
    push_node(&mut meta, "float", "y", 4, 7, 0, 0);
    push_node(&mut meta, "float", "z", 4, 8, 0, 0);
    push_node(&mut meta, "float", "w", 4, 9, 0, 0);
    push_node(&mut meta, "Vector2f", "m_P", 4, 10, 0, 1);
    push_node(&mut meta, "float", "x", 4, 11, 0, 0);
    push_i32(&mut meta, 1);
    push_i32(&mut meta, 7);
    meta.extend_from_slice(&0u32.to_le_bytes());
    meta.extend_from_slice(&32u32.to_le_bytes());
    push_i32(&mut meta, 4);
    meta.extend_from_slice(&4u16.to_le_bytes());
    meta.extend_from_slice(&0u16.to_le_bytes());
    push_i32(&mut meta, 0);
    push_str(&mut meta, "");
    let mut data_offset = 16 + meta.len();
    while data_offset % 16 != 0 {
        data_offset += 1;
    }
    let file_size = data_offset + 32;
    let mut out = Vec::new();
    out.extend_from_slice(&((file_size - 16) as u32).to_be_bytes());
    out.extend_from_slice(&(file_size as u32).to_be_bytes());
    out.extend_from_slice(&6u32.to_be_bytes());
    out.extend_from_slice(&(data_offset as u32).to_be_bytes());
    out.extend_from_slice(&meta);
    out.resize(data_offset, 0);
    for v in [1.0f32, 2.0, 3.0, 0.0, 0.0, 0.0, 1.0, 5.0] {
        out.extend_from_slice(&v.to_bits().to_le_bytes());
    }
    out
}

#[test]
fn vectors_and_rotations_read_by_member() {
    let file = SerializedFile::read(vector_file(), 0, None).unwrap();
    let object = file.get_tt_object_by_path_id(7).unwrap().unwrap();
    let v: Result<Vec3Bits, CastError> = <Vec3Bits as TryCastFrom<_, _>>::try_cast_from(&object, "Base/m_V");
    let v = v.unwrap();
    assert_eq!([f32::from_bits(v.x), f32::from_bits(v.y), f32::from_bits(v.z)], [1.0, 2.0, 3.0]);
    let q: Result<QuatBits, CastError> = <QuatBits as TryCastFrom<_, _>>::try_cast_from(&object, "Base/m_Q");
    assert_eq!(f32::from_bits(q.unwrap().w), 1.0);
    // a two-member read of a three-member vector takes x and y
    let v2: Result<Vec2Bits, CastError> = <Vec2Bits as TryCastFrom<_, _>>::try_cast_from(&object, "Base/m_V");
    assert_eq!(f32::from_bits(v2.unwrap().y), 2.0);
    // a missing member
    let p: Result<Vec2Bits, CastError> = <Vec2Bits as TryCastFrom<_, _>>::try_cast_from(&object, "Base/m_P");
    assert_eq!(p, Err(CastError::CannotGetField));
    // not a structure
    let x: Result<Vec2Bits, CastError> = <Vec2Bits as TryCastFrom<_, _>>::try_cast_from(&object, "Base/m_V/x");
    assert_eq!(x, Err(CastError::TypeNotMatch));
    // a four-member read of a three-member vector
    let q3: Result<QuatBits, CastError> = <QuatBits as TryCastFrom<_, _>>::try_cast_from(&object, "Base/m_V");
    assert_eq!(q3, Err(CastError::CannotGetField));
}

fn dump_node(type_string: &str, name: &str, level: u8, size: i32, index: i32, meta: i32, subs: Vec<Node>) -> Node {
    Node {
        type_string: type_string.to_string(),
        name: name.to_string(),
        level,
        byte_size: size,
        index,
        version: 1,
        type_flags: 0,
        meta_flag: meta,
        sub_nodes: subs,
    }
}

#[test]
fn objects_without_own_type_tree_use_the_dump() {
    // the file's only type tree is for class 2, but its object is of class 1
    let file = SerializedFile::read(sample_file_with(6, 2, false), 0, None).unwrap();
    let obj = *file.get_object_map().get(&42).unwrap();
    let mut store = InfoJsonStore::new();
    assert_eq!(file.get_type_tree_object_with_dumps(&obj, &store).err(), Some(ReadError::NotFound));
    assert_eq!(file.get_tt_object_by_path_id(42).err(), Some(ReadError::NotFound));
    let root = dump_node(
        "Sample",
        "Base",
        0,
        12,
        0,
        0,
        vec![
            dump_node("int", "m_A", 1, 4, 1, 0, vec![]),
            dump_node("float", "m_B", 1, 4, 2, 0, vec![]),
            dump_node("UInt8", "m_C", 1, 1, 3, 0x4000, vec![]),
        ],
    );
    let class = Class {
        name: "Sample".to_string(),
        full_name: "Sample".to_string(),
        type_id: 1,
        base: String::new(),
        derived: Vec::new(),
        descendant_count: 0,
        size: 0,
        type_index: 0,
        is_abstract: false,
        is_sealed: false,
        is_editor_only: false,
        is_stripped: false,
        release_root_node: Some(root),
        editor_root_node: None,
    };
    // revision 6 files carry no Unity version, so the dump is kept under ""
    store.add_info_json(String::new(), InfoJson { version: String::new(), strings: Vec::new(), classes: vec![class] });
    let object = file.get_type_tree_object_with_dumps(&obj, &store).unwrap();
    assert_eq!(object.get_class_id(), 1);
    let a: Result<i32, CastError> = <i32 as TryCastFrom<_, _>>::try_cast_from(&object, "Base/m_A");
    assert_eq!(a, Ok(-5));
}

#[test]
fn revisions_1_and_3_read_path_only_references() {
    let file = SerializedFile::read(sample_file(1), 0, None).unwrap();
    assert_eq!(file.get_serialized_file_version(), SerializedFileFormatVersion::Unsupported);
    let externals = file.get_externals();
    assert_eq!(externals[0].path, "library/extra");
    assert_eq!(externals[0].guid, vec![0u8; 16]);
    assert_eq!(externals[0].file_type, 0);
    let object = file.get_tt_object_by_path_id(42).unwrap().unwrap();
    let c: Result<u8, CastError> = <u8 as TryCastFrom<_, _>>::try_cast_from(&object, "Base/m_C");
    assert_eq!(c, Ok(9));
    assert_eq!(object.external_data, None);

    let file = SerializedFile::read(sample_file(3), 0, None).unwrap();
    assert_eq!(file.get_serialized_file_version(), SerializedFileFormatVersion::Unknown_3);
    let args = file.get_type_object_args_by_type_id(1).unwrap();
    assert!(args.get_type_fields().iter().all(|n| n.index == 0 && n.meta_flag == 0));
    let object = file.get_tt_object_by_path_id(42).unwrap().unwrap();
    let a: Result<i32, CastError> = <i32 as TryCastFrom<_, _>>::try_cast_from(&object, "Base/m_A");
    assert_eq!(a, Ok(-5));
    // without the align flag the fields cover nine of the object's twelve bytes
    assert_eq!(object.external_data, Some(vec![0, 0, 0]));
}

#[test]
fn later_object_with_the_same_path_id_wins() {
    let file = SerializedFile::read(sample_file_with(6, 1, true), 0, None).unwrap();
    assert_eq!(file.get_objects_metadata().len(), 2);
    assert_eq!(file.get_object_map().len(), 1);
    assert_eq!(file.get_object_map().get(&42).unwrap().class, 7);
}
