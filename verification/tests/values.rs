use io_unity::classes::{rgba_image_len, BcFormat, MonoScript, ObjectPointer, TextureDecoder, TextureFormat};
use io_unity::binary::{read_i32, read_null_string, read_u16, read_u32, read_u64};
use io_unity::error::ReadError;
use io_unity::text::{decimal_string, parse_i32, parse_u32, split_path};
use io_unity::until::binary_records::{AlignedString, PackedIntVector, PackedQuatVector, U8Bool};
use io_unity::until::{Endian, UnityVersion};

#[test]
fn unity_version_from_str_final_build() {
    let v = UnityVersion::from_str("2019.4.0f1").unwrap();
    assert_eq!(v.get_version(), &vec![2019, 4, 0, 1]);
    assert_eq!(v.get_build_type(), &Some("f".to_string()));
    assert!(!v.is_alpha());
    assert!(!v.is_patch());
}

#[test]
fn unity_version_from_str_alpha_and_patch() {
    let a = UnityVersion::from_str("2021.1.0a3").unwrap();
    assert!(a.is_alpha());
    assert!(!a.is_patch());
    let p = UnityVersion::from_str("5.6.7p2").unwrap();
    assert!(p.is_patch());
    assert_eq!(p.get_version(), &vec![5, 6, 7, 2]);
}

#[test]
fn unity_version_without_build_letter() {
    let v = UnityVersion::from_str("3.4.0").unwrap();
    assert_eq!(v.get_version(), &vec![3, 4, 0]);
    assert_eq!(v.get_build_type(), &None);
}

#[test]
fn unity_version_refuses_empty_piece() {
    assert!(UnityVersion::from_str("").is_none());
    assert!(UnityVersion::from_str("2019..4").is_none());
    // a trailing build letter leaves an empty last piece
    assert!(UnityVersion::from_str("2019.4.0f").is_none());
}

#[test]
fn unity_version_ordering_and_new() {
    let a = UnityVersion::new(vec![2019, 4, 0, 1], Some("f".to_string()));
    let b = UnityVersion::from_str("2019.4.0f1").unwrap();
    assert_eq!(a, b);
    let c = UnityVersion::new(vec![2020, 1], None);
    assert!(a < c);
}

#[test]
fn parse_numbers() {
    assert_eq!(parse_i32(&"123".to_string()), Some(123));
    assert_eq!(parse_i32(&"-45".to_string()), Some(-45));
    assert_eq!(parse_i32(&"2147483647".to_string()), Some(i32::MAX));
    assert_eq!(parse_i32(&"2147483648".to_string()), None);
    assert_eq!(parse_i32(&"-2147483648".to_string()), Some(i32::MIN));
    assert_eq!(parse_i32(&"".to_string()), None);
    assert_eq!(parse_i32(&"1a".to_string()), None);
    assert_eq!(parse_u32(&"4294967295".to_string()), Some(u32::MAX));
    assert_eq!(parse_u32(&"4294967296".to_string()), None);
    assert_eq!(parse_u32(&"+7".to_string()), Some(7));
    assert_eq!(parse_u32(&"-7".to_string()), None);
}

#[test]
fn decimal_string_round_trips() {
    assert_eq!(decimal_string(0), "0");
    assert_eq!(decimal_string(7), "7");
    assert_eq!(decimal_string(1234567890), "1234567890");
    assert_eq!(decimal_string(u32::MAX), u32::MAX.to_string());
    for n in [0u32, 9, 10, 99, 100, 65535, 4000000000] {
        assert_eq!(parse_u32(&decimal_string(n)), Some(n));
    }
}

#[test]
fn split_path_components() {
    assert_eq!(split_path("Base/m_Name"), vec!["Base".to_string(), "m_Name".to_string()]);
    assert_eq!(split_path("a"), vec!["a".to_string()]);
    assert_eq!(split_path("/a//b/"), vec!["a".to_string(), "b".to_string()]);
    assert!(split_path("").is_empty());
    assert_eq!(split_path("données/été/日本"), vec!["données".to_string(), "été".to_string(), "日本".to_string()]);
}

#[test]
fn integer_reads_in_both_byte_orders() {
    let buf = [0x01u8, 0x02, 0x03, 0x04, 0x05, 0x06, 0x07, 0x08];
    assert_eq!(read_u16(&buf, 0, true), Some(0x0102));
    assert_eq!(read_u16(&buf, 0, false), Some(0x0201));
    assert_eq!(read_u32(&buf, 4, true), Some(0x05060708));
    assert_eq!(read_u32(&buf, 5, true), None);
    assert_eq!(read_u64(&buf, 0, false), Some(0x0807060504030201));
    assert_eq!(read_i32(&[0xff, 0xff, 0xff, 0xfe], 0, true), Some(-2));
}

#[test]
fn null_terminated_strings() {
    let buf = b"abc\0de";
    assert_eq!(read_null_string(buf, 0), Some((b"abc".to_vec(), 4)));
    assert_eq!(read_null_string(buf, 4), None);
}

#[test]
fn u8_bool_reads_nonzero_as_true() {
    let (b, p) = U8Bool::read(&[0, 2], 1).unwrap();
    assert!(b.get());
    assert_eq!(p, 2);
    let (b, _) = U8Bool::read(&[0, 2], 0).unwrap();
    assert!(!b.get());
    assert_eq!(U8Bool::read(&[0, 2], 2).err(), Some(ReadError::UnexpectedEof));
}

#[test]
fn aligned_string_pads_to_four() {
    // length 5 ("hello"), three bytes of padding, then the next value
    let mut buf = vec![5u8, 0, 0, 0];
    buf.extend_from_slice(b"hello");
    buf.extend_from_slice(&[0, 0, 0]);
    buf.extend_from_slice(&[9, 9, 9, 9]);
    let (s, p) = AlignedString::read(&buf, 0, false).unwrap();
    assert_eq!(s.string_length, 5);
    assert_eq!(s.to_string(), "hello");
    assert_eq!(p, 12);
    // a negative length is refused
    assert_eq!(
        AlignedString::read(&[0xff, 0xff, 0xff, 0xff], 0, false).err(),
        Some(ReadError::InvalidValue)
    );
    // too short
    assert_eq!(AlignedString::read(&[5, 0, 0, 0, b'h'], 0, false).err(), Some(ReadError::UnexpectedEof));
}

#[test]
fn packed_vectors() {
    // items 3, two bytes of data, padding to 12, bit size 4, padding to 16
    let buf = [3u8, 0, 0, 0, 2, 0, 0, 0, 0xab, 0xcd, 0, 0, 4, 0, 0, 0];
    let (v, p) = PackedIntVector::read(&buf, 0, false).unwrap();
    assert_eq!(v.num_items, 3);
    assert_eq!(v.num_data, 2);
    assert_eq!(v.data, vec![0xab, 0xcd]);
    assert_eq!(v.bit_size, 4);
    assert_eq!(p, 16);
    let (q, p) = PackedQuatVector::read(&buf, 0, false).unwrap();
    assert_eq!(q.num_items, 3);
    assert_eq!(q.data, vec![0xab, 0xcd]);
    assert_eq!(p, 12);
}

#[test]
fn endian_flag() {
    assert!(Endian::Big.is_big());
    assert!(!Endian::Little.is_big());
}

#[test]
fn texture_decoders_by_format() {
    let f = |n: u32| TextureFormat::from_u32(n).unwrap().decoder();
    assert_eq!(f(10), TextureDecoder::Bc(BcFormat::Bc1));
    assert_eq!(f(12), TextureDecoder::Bc(BcFormat::Bc3));
    assert_eq!(f(27), TextureDecoder::Bc(BcFormat::Bc5));
    assert_eq!(f(25), TextureDecoder::Undecodable);
    assert_eq!(f(48), TextureDecoder::Astc(4));
    assert_eq!(f(59), TextureDecoder::Astc(12));
    assert_eq!(f(71), TextureDecoder::Astc(12));
    assert_eq!(f(4), TextureDecoder::NoImage);
    assert!(TextureFormat::from_u32(0).is_none());
    for n in 0u32..100 {
        if let Some(t) = TextureFormat::from_u32(n) {
            assert_eq!(t.to_u32(), n);
        }
    }
}

#[test]
fn rgba_lengths() {
    assert_eq!(rgba_image_len(4, 4), Some(64));
    assert_eq!(rgba_image_len(0, 100), Some(0));
    assert_eq!(rgba_image_len(u64::MAX, 2), None);
    assert_eq!(rgba_image_len(1 << 62, 1), None);
}

#[test]
fn object_pointer_and_script_reads() {
    let mut buf = Vec::new();
    buf.extend_from_slice(&1i32.to_le_bytes());
    buf.extend_from_slice(&(-3i32).to_le_bytes());
    let (p, next) = ObjectPointer::read(&buf, 0, false).unwrap();
    assert_eq!(p.get_file_id(), 1);
    assert_eq!(p.get_path_id(), -3);
    assert_eq!(next, 8);
    assert!(ObjectPointer::read(&buf, 1, false).is_err());

    let mut s = Vec::new();
    let aligned = |out: &mut Vec<u8>, text: &str| {
        out.extend_from_slice(&(text.len() as i32).to_le_bytes());
        out.extend_from_slice(text.as_bytes());
        while out.len() % 4 != 0 {
            out.push(0);
        }
    };
    aligned(&mut s, "Player");
    s.extend_from_slice(&7i32.to_le_bytes());
    s.extend_from_slice(&[0xaa; 16]);
    aligned(&mut s, "PlayerController");
    aligned(&mut s, "Game");
    aligned(&mut s, "Assembly-CSharp.dll");
    let (m, end) = MonoScript::read(&s, 0, false).unwrap();
    assert_eq!(m.name.to_string(), "Player");
    assert_eq!(m.execution_order, 7);
    assert_eq!(m.properties_hash, vec![0xaa; 16]);
    assert_eq!(m.class_name.to_string(), "PlayerController");
    assert_eq!(m.namespace.to_string(), "Game");
    assert_eq!(m.assembly_name.to_string(), "Assembly-CSharp.dll");
    assert_eq!(end, s.len());
}
