//! Serialized files of format revision 11: the metadata block follows the header,
//! type trees are nested node records, and objects name a script type.
use vstd::prelude::*;

use super::version6::{read_types, spec_types};
use super::{
    read_count, read_endian, read_externals, read_string, spec_build_target, spec_common_header, spec_count,
    spec_externals, spec_list, spec_read_endian, spec_string, BuildTarget, Object, ReferenceLayout,
    SerializedContent, SerializedContentView, SerializedFileCommonHeader,
};
use crate::binary::{
    fits, has_bytes, opt_i32, opt_u32, read_i32, read_i64, read_u16, read_u32, signed32, signed64,
    spec_u16_at, spec_u32_at, spec_u64_at,
};
use crate::error::ReadError;
use crate::until::Endian;

verus! {

/// An object record: path id (64 bits wide when `big_ids`, else 32), start, size,
/// type id, class id and script type index.
pub open spec fn spec_object(buf: Seq<u8>, pos: int, big: bool, big_ids: bool) -> Result<(Object, int), ReadError> {
    let w = if big_ids {
        8int
    } else {
        4int
    };
    if !fits(buf, pos, w + 16) {
        Err(ReadError::UnexpectedEof)
    } else {
        Ok(
            (
                Object {
                    path_id: if big_ids {
                        signed64(spec_u64_at(buf, pos, big))
                    } else {
                        signed32(spec_u32_at(buf, pos, big)) as i64
                    },
                    byte_start: spec_u32_at(buf, pos + w, big) as u64,
                    byte_size: spec_u32_at(buf, pos + w + 4, big),
                    class: spec_u16_at(buf, pos + w + 12, big) as i32,
                    type_id: signed32(spec_u32_at(buf, pos + w + 8, big)) as usize,
                },
                pos + w + 16,
            ),
        )
    }
}

fn read_object(buf: &[u8], pos: usize, big: bool, big_ids: bool) -> (r: Result<(Object, usize), ReadError>)
    ensures
        match spec_object(buf@, pos as int, big, big_ids) {
            Ok((v, p)) => r matches Ok((x, q)) && x == v && q == p,
            Err(e) => r matches Err(f) && f == e,
        },
{
    let w: usize = if big_ids {
        8
    } else {
        4
    };
    if !has_bytes(buf.len(), pos, w + 16) {
        return Err(ReadError::UnexpectedEof);
    }
    let path_id: i64 = if big_ids {
        match read_i64(buf, pos, big) {
            Some(v) => v,
            None => return Err(ReadError::UnexpectedEof),
        }
    } else {
        match read_i32(buf, pos, big) {
            Some(v) => v as i64,
            None => return Err(ReadError::UnexpectedEof),
        }
    };
    let byte_start = match read_u32(buf, pos + w, big) {
        Some(v) => v,
        None => return Err(ReadError::UnexpectedEof),
    };
    let byte_size = match read_u32(buf, pos + w + 4, big) {
        Some(v) => v,
        None => return Err(ReadError::UnexpectedEof),
    };
    let type_id = match read_i32(buf, pos + w + 8, big) {
        Some(v) => v,
        None => return Err(ReadError::UnexpectedEof),
    };
    let class_id = match read_u16(buf, pos + w + 12, big) {
        Some(v) => v,
        None => return Err(ReadError::UnexpectedEof),
    };
    Ok(
        (
            Object {
                path_id,
                byte_start: byte_start as u64,
                byte_size,
                class: class_id as i32,
                type_id: type_id as usize,
            },
            pos + w + 16,
        ),
    )
}

pub open spec fn spec_objects(buf: Seq<u8>, pos: int, n: int, big: bool, big_ids: bool) -> Result<
    (Seq<Object>, int),
    ReadError,
> {
    spec_list(pos, n, |p: int| spec_object(buf, p, big, big_ids), seq![])
}

fn read_objects(buf: &[u8], pos: usize, n: u32, big: bool, big_ids: bool) -> (r: Result<
    (Vec<Object>, usize),
    ReadError,
>)
    ensures
        match spec_objects(buf@, pos as int, n as int, big, big_ids) {
            Ok((v, p)) => r matches Ok((x, q)) && x@ == v && q == p,
            Err(e) => r matches Err(f) && f == e,
        },
{
    let ghost item = |p: int| spec_object(buf@, p, big, big_ids);
    let mut out: Vec<Object> = Vec::new();
    let mut p = pos;
    let mut i: u32 = 0;
    while i < n
        invariant
            i <= n,
            item == (|p: int| spec_object(buf@, p, big, big_ids)),
            spec_objects(buf@, pos as int, n as int, big, big_ids) == spec_list(p as int, n - i, item, out@),
        decreases n - i,
    {
        let (o, q) = match read_object(buf, p, big, big_ids) {
            Ok(x) => x,
            Err(e) => return Err(e),
        };
        out.push(o);
        p = q;
        i = i + 1;
    }
    Ok((out, p))
}

/// The script types: `n` records of a file index and an identifier, 32 bits each.
pub open spec fn spec_scripts_end(buf: Seq<u8>, pos: int, n: int) -> Result<int, ReadError> {
    if !fits(buf, pos, n * 8) {
        Err(ReadError::UnexpectedEof)
    } else {
        Ok(pos + n * 8)
    }
}

/// A revision 11 file: the common header, the byte order, three reserved bytes, the
/// unity version, the target platform, the types (class id and nested node records),
/// whether path ids are 64 bits wide, the objects, the script types, the references
/// to other files and a user string.
pub open spec fn spec_content(buf: Seq<u8>) -> Result<SerializedContentView, ReadError> {
    match spec_common_header(buf) {
        Err(e) => Err(e),
        Ok(h) => match spec_read_endian(buf, 16) {
            Err(e) => Err(e),
            Ok(endianess) => if !fits(buf, 17, 3) {
                Err(ReadError::UnexpectedEof)
            } else {
                let big = endianess == Endian::Big;
                match spec_string(buf, 20) {
                    Err(e) => Err(e),
                    Ok((unity_version, p0)) => match opt_i32(buf, p0, big) {
                        None => Err(ReadError::UnexpectedEof),
                        Some(platform) => match spec_build_target(platform) {
                            None => Err(ReadError::InvalidValue),
                            Some(target_platform) => match opt_u32(buf, p0 + 4, big) {
                                None => Err(ReadError::UnexpectedEof),
                                Some(type_count) => match spec_types(buf, p0 + 8, type_count as int, big, true) {
                                    Err(e) => Err(e),
                                    Ok((types, p1)) => match opt_i32(buf, p1, big) {
                                        None => Err(ReadError::UnexpectedEof),
                                        Some(big_id_enabled) => match spec_count(buf, p1 + 4, big) {
                                            Err(e) => Err(e),
                                            Ok(object_count) => match spec_objects(
                                                buf,
                                                p1 + 8,
                                                object_count,
                                                big,
                                                big_id_enabled != 0,
                                            ) {
                                                Err(e) => Err(e),
                                                Ok((objects, p2)) => match spec_count(buf, p2, big) {
                                                    Err(e) => Err(e),
                                                    Ok(script_count) => match spec_scripts_end(buf, p2 + 4, script_count) {
                                                        Err(e) => Err(e),
                                                        Ok(p3) => match spec_count(buf, p3, big) {
                                                            Err(e) => Err(e),
                                                            Ok(externals_count) => match spec_externals(
                                                                buf,
                                                                p3 + 4,
                                                                externals_count,
                                                                big,
                                                                ReferenceLayout::Tagged,
                                                            ) {
                                                                Err(e) => Err(e),
                                                                Ok((externals, p4)) => match spec_string(buf, p4) {
                                                                    Err(e) => Err(e),
                                                                    Ok(_) => Ok(
                                                                        SerializedContentView {
                                                                            header: h,
                                                                            data_offset: h.data_offset as u64,
                                                                            endianess,
                                                                            unity_version,
                                                                            target_platform,
                                                                            enable_type_tree: true,
                                                                            types,
                                                                            objects,
                                                                            externals,
                                                                        },
                                                                    ),
                                                                },
                                                            },
                                                        },
                                                    },
                                                },
                                            },
                                        },
                                    },
                                },
                            },
                        },
                    },
                }
            },
        },
    }
}

pub fn read_content(buf: &[u8]) -> (r: Result<SerializedContent, ReadError>)
    ensures
        match spec_content(buf@) {
            Ok(v) => r matches Ok(c) && c@ == v,
            Err(e) => r matches Err(f) && f == e,
        },
{
    let len = buf.len();
    let h = SerializedFileCommonHeader::read(buf)?;
    let endianess = read_endian(buf, 16)?;
    if !has_bytes(len, 17, 3) {
        return Err(ReadError::UnexpectedEof);
    }
    let big = endianess.is_big();
    let (unity_version, p0) = read_string(buf, 20)?;
    let platform = match read_i32(buf, p0, big) {
        Some(v) => v,
        None => return Err(ReadError::UnexpectedEof),
    };
    let target_platform = match BuildTarget::from_i32(platform) {
        Some(t) => t,
        None => return Err(ReadError::InvalidValue),
    };
    let type_count = match read_u32(buf, p0 + 4, big) {
        Some(v) => v,
        None => return Err(ReadError::UnexpectedEof),
    };
    let (types, p1) = read_types(buf, p0 + 8, type_count, big, true)?;
    let big_id_enabled = match read_i32(buf, p1, big) {
        Some(v) => v,
        None => return Err(ReadError::UnexpectedEof),
    };
    let object_count = read_count(buf, p1 + 4, big)?;
    let (objects, p2) = read_objects(buf, p1 + 8, object_count, big, big_id_enabled != 0)?;
    let script_count = read_count(buf, p2, big)?;
    let rest = len - (p2 + 4);
    if script_count as u64 * 8 > rest as u64 {
        return Err(ReadError::UnexpectedEof);
    }
    let p3 = p2 + 4 + script_count as usize * 8;
    let externals_count = read_count(buf, p3, big)?;
    let (externals, p4) = read_externals(buf, p3 + 4, externals_count, big, ReferenceLayout::Tagged)?;
    let _user_information = read_string(buf, p4)?;
    Ok(
        SerializedContent {
            header: h,
            data_offset: h.data_offset as u64,
            endianess,
            unity_version,
            target_platform,
            enable_type_tree: true,
            types,
            objects,
            externals,
        },
    )
}

} // verus!
