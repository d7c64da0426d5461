//! Serialized files of format revision 22: a fixed header with 64-bit offsets, then
//! the metadata, whose type trees are node records naming their strings by offset.
use vstd::prelude::*;

use super::{
    common_string, read_count, read_endian, read_externals, read_string, spec_common_header,
    spec_common_string, spec_count, spec_externals, spec_list, spec_read_endian, spec_string,
    spec_build_target, types_view, BuildTarget, Object, SerializedContent, SerializedContentView,
    ReferenceLayout, SerializedFileCommonHeader, SerializedType, SerializedTypeView, TypeTreeData,
    TypeTreeDataView,
};
use crate::binary::{
    align_up, align_up_exec, copy_range, fits, has_bytes, opt_i32, opt_u32,
    opt_u8, read_i32, read_i64, read_null_string, read_u16, read_u32, read_u64, read_u8,
    spec_null_string, spec_u16_at, spec_u32_at, spec_u64_at, signed32, signed64,
};
use crate::error::ReadError;
use crate::text::{string_from_utf8_lossy, utf8_lossy};
use crate::type_tree::{nodes_view, TypeTreeNode, TypeTreeNodeView};
use crate::until::Endian;

verus! {

/// A type tree node record that names its strings by offset.
#[derive(Debug, Clone, Copy, PartialEq, Eq, Structural)]
pub struct TypeTreeNodeBlob {
    pub version: u16,
    pub level: u8,
    pub type_flags: u8,
    pub type_str_offset: u32,
    pub name_str_offset: u32,
    pub byte_size: i32,
    pub index: i32,
    pub meta_flag: i32,
    pub ref_type_hash: u64,
}

/// The string a node names by `value`: with the top bit clear, the NUL-terminated
/// string at that offset of the tree's string buffer; with it set, the common string
/// at the remaining offset.
pub open spec fn spec_tree_string(value: u32, strings: Seq<u8>) -> Option<Seq<char>> {
    if value & 0x8000_0000u32 == 0 {
        match spec_null_string(strings, value as int) {
            Some((b, _)) => Some(utf8_lossy(b)),
            None => None,
        }
    } else {
        spec_common_string(value & 0x7fff_ffffu32)
    }
}

pub fn read_type_tree_string(value: u32, strings: &[u8]) -> (r: Option<String>)
    ensures
        match spec_tree_string(value, strings@) {
            Some(s) => r matches Some(t) && t@ == s,
            None => r is None,
        },
{
    if value & 0x8000_0000u32 == 0 {
        if value as u64 > strings.len() as u64 {
            proof {
                crate::binary::lemma_nul_index_bounds(strings@, value as int);
            }
            return None;
        }
        match read_null_string(strings, value as usize) {
            Some((b, _)) => Some(string_from_utf8_lossy(b.as_slice())),
            None => None,
        }
    } else {
        match common_string(value & 0x7fff_ffffu32) {
            Some(s) => Some(s.to_owned()),
            None => None,
        }
    }
}

impl TypeTreeNodeBlob {
    /// The node's type name, looked up in the tree's string buffer.
    pub fn get_type_str(&self, strings: &[u8]) -> (r: Option<String>)
        ensures
            match spec_tree_string(self.type_str_offset, strings@) {
                Some(s) => r matches Some(t) && t@ == s,
                None => r is None,
            },
    {
        read_type_tree_string(self.type_str_offset, strings)
    }

    /// The node's field name, looked up in the tree's string buffer.
    pub fn get_name_str(&self, strings: &[u8]) -> (r: Option<String>)
        ensures
            match spec_tree_string(self.name_str_offset, strings@) {
                Some(s) => r matches Some(t) && t@ == s,
                None => r is None,
            },
    {
        read_type_tree_string(self.name_str_offset, strings)
    }
}

/// The node a record stands for, when both its strings can be found.
pub open spec fn spec_blob_node(b: TypeTreeNodeBlob, strings: Seq<u8>) -> Option<TypeTreeNodeView> {
    match (spec_tree_string(b.type_str_offset, strings), spec_tree_string(b.name_str_offset, strings)) {
        (Some(t), Some(n)) => Some(
            TypeTreeNodeView {
                version: b.version,
                level: b.level,
                type_flags: b.type_flags as i32,
                type_string: t,
                name: n,
                byte_size: b.byte_size,
                index: b.index,
                meta_flag: b.meta_flag,
                ref_type_hash: Some(b.ref_type_hash),
            },
        ),
        _ => None,
    }
}

/// The nodes that records stand for, when every record's strings can be found.
pub open spec fn spec_blob_nodes(blobs: Seq<TypeTreeNodeBlob>, strings: Seq<u8>) -> Option<
    Seq<TypeTreeNodeView>,
>
    decreases blobs.len(),
{
    if blobs.len() == 0 {
        Some(seq![])
    } else {
        match (spec_blob_nodes(blobs.drop_last(), strings), spec_blob_node(blobs.last(), strings)) {
            (Some(ns), Some(n)) => Some(ns.push(n)),
            _ => None,
        }
    }
}

/// Converts node records into nodes.
pub fn blob_nodes(blobs: &[TypeTreeNodeBlob], strings: &[u8]) -> (r: Option<Vec<TypeTreeNode>>)
    ensures
        match spec_blob_nodes(blobs@, strings@) {
            Some(ns) => r matches Some(v) && nodes_view(v@) == ns,
            None => r is None,
        },
{
    let mut out: Vec<TypeTreeNode> = Vec::new();
    let mut i: usize = 0;
    while i < blobs.len()
        invariant
            i <= blobs@.len(),
            spec_blob_nodes(blobs@.take(i as int), strings@) == Some(nodes_view(out@)),
        decreases blobs.len() - i,
    {
        let b = blobs[i];
        let ghost prev = nodes_view(out@);
        proof {
            assert(blobs@.take(i + 1).drop_last() =~= blobs@.take(i as int));
            assert(blobs@.take(i + 1).last() == b);
        }
        let type_string = match b.get_type_str(strings) {
            Some(s) => s,
            None => {
                proof {
                    lemma_blob_nodes_none(blobs@, strings@, i as int + 1);
                }
                return None;
            },
        };
        let name = match b.get_name_str(strings) {
            Some(s) => s,
            None => {
                proof {
                    lemma_blob_nodes_none(blobs@, strings@, i as int + 1);
                }
                return None;
            },
        };
        out.push(
            TypeTreeNode {
                version: b.version,
                level: b.level,
                type_flags: b.type_flags as i32,
                type_string,
                name,
                byte_size: b.byte_size,
                index: b.index,
                meta_flag: b.meta_flag,
                ref_type_hash: Some(b.ref_type_hash),
            },
        );
        proof {
            assert(nodes_view(out@) =~= prev.push(nodes_view(out@).last()));
        }
        i = i + 1;
    }
    assert(blobs@.take(blobs@.len() as int) =~= blobs@);
    Some(out)
}

/// When some prefix of the records fails, the whole list fails.
proof fn lemma_blob_nodes_none(blobs: Seq<TypeTreeNodeBlob>, strings: Seq<u8>, k: int)
    requires
        0 <= k <= blobs.len(),
        spec_blob_nodes(blobs.take(k), strings) is None,
    ensures
        spec_blob_nodes(blobs, strings) is None,
    decreases blobs.len() - k,
{
    if k < blobs.len() {
        assert(blobs.take(k + 1).drop_last() =~= blobs.take(k));
        lemma_blob_nodes_none(blobs, strings, k + 1);
    } else {
        assert(blobs.take(k) =~= blobs);
    }
}


// ---------------------------------------------------------------------------
// Reading the metadata
/// A node record: version, level, flags, the two string offsets, byte size, index,
/// meta flag and reference type hash, 32 bytes.
pub open spec fn spec_blob(buf: Seq<u8>, pos: int, big: bool) -> Result<(TypeTreeNodeBlob, int), ReadError> {
    if !fits(buf, pos, 32) {
        Err(ReadError::UnexpectedEof)
    } else {
        Ok(
            (
                TypeTreeNodeBlob {
                    version: spec_u16_at(buf, pos, big),
                    level: buf[pos + 2],
                    type_flags: buf[pos + 3],
                    type_str_offset: spec_u32_at(buf, pos + 4, big),
                    name_str_offset: spec_u32_at(buf, pos + 8, big),
                    byte_size: signed32(spec_u32_at(buf, pos + 12, big)),
                    index: signed32(spec_u32_at(buf, pos + 16, big)),
                    meta_flag: signed32(spec_u32_at(buf, pos + 20, big)),
                    ref_type_hash: spec_u64_at(buf, pos + 24, big),
                },
                pos + 32,
            ),
        )
    }
}

fn read_blob(buf: &[u8], pos: usize, big: bool) -> (r: Result<(TypeTreeNodeBlob, usize), ReadError>)
    ensures
        match spec_blob(buf@, pos as int, big) {
            Ok((v, p)) => r matches Ok((x, q)) && x == v && q == p,
            Err(e) => r matches Err(f) && f == e,
        },
{
    if !has_bytes(buf.len(), pos, 32) {
        return Err(ReadError::UnexpectedEof);
    }
    let version = match read_u16(buf, pos, big) {
        Some(v) => v,
        None => return Err(ReadError::UnexpectedEof),
    };
    let type_str_offset = match read_u32(buf, pos + 4, big) {
        Some(v) => v,
        None => return Err(ReadError::UnexpectedEof),
    };
    let name_str_offset = match read_u32(buf, pos + 8, big) {
        Some(v) => v,
        None => return Err(ReadError::UnexpectedEof),
    };
    let byte_size = match read_i32(buf, pos + 12, big) {
        Some(v) => v,
        None => return Err(ReadError::UnexpectedEof),
    };
    let index = match read_i32(buf, pos + 16, big) {
        Some(v) => v,
        None => return Err(ReadError::UnexpectedEof),
    };
    let meta_flag = match read_i32(buf, pos + 20, big) {
        Some(v) => v,
        None => return Err(ReadError::UnexpectedEof),
    };
    let ref_type_hash = match read_u64(buf, pos + 24, big) {
        Some(v) => v,
        None => return Err(ReadError::UnexpectedEof),
    };
    Ok(
        (
            TypeTreeNodeBlob {
                version,
                level: buf[pos + 2],
                type_flags: buf[pos + 3],
                type_str_offset,
                name_str_offset,
                byte_size,
                index,
                meta_flag,
                ref_type_hash,
            },
            pos + 32,
        ),
    )
}

pub open spec fn spec_blobs(buf: Seq<u8>, pos: int, n: int, big: bool) -> Result<
    (Seq<TypeTreeNodeBlob>, int),
    ReadError,
> {
    spec_list(pos, n, |p: int| spec_blob(buf, p, big), seq![])
}

fn read_blobs(buf: &[u8], pos: usize, n: u32, big: bool) -> (r: Result<
    (Vec<TypeTreeNodeBlob>, usize),
    ReadError,
>)
    ensures
        match spec_blobs(buf@, pos as int, n as int, big) {
            Ok((v, p)) => r matches Ok((x, q)) && x@ == v && q == p,
            Err(e) => r matches Err(f) && f == e,
        },
{
    let ghost item = |p: int| spec_blob(buf@, p, big);
    let mut out: Vec<TypeTreeNodeBlob> = Vec::new();
    let mut p = pos;
    let mut i: u32 = 0;
    while i < n
        invariant
            i <= n,
            item == (|p: int| spec_blob(buf@, p, big)),
            spec_blobs(buf@, pos as int, n as int, big) == spec_list(p as int, n - i, item, out@),
        decreases n - i,
    {
        let (b, q) = match read_blob(buf, p, big) {
            Ok(x) => x,
            Err(e) => return Err(e),
        };
        out.push(b);
        p = q;
        i = i + 1;
    }
    Ok((out, p))
}

/// A type tree: the number of nodes, the size of the string buffer, the node
/// records and the string buffer.
pub open spec fn spec_type_tree(buf: Seq<u8>, pos: int, big: bool) -> Result<
    ((Seq<TypeTreeNodeBlob>, Seq<u8>), int),
    ReadError,
> {
    match spec_count(buf, pos, big) {
        Err(e) => Err(e),
        Ok(nodes) => match spec_count(buf, pos + 4, big) {
            Err(e) => Err(e),
            Ok(size) => match spec_blobs(buf, pos + 8, nodes, big) {
                Err(e) => Err(e),
                Ok((blobs, p)) => if !fits(buf, p, size) {
                    Err(ReadError::UnexpectedEof)
                } else {
                    Ok(((blobs, buf.subrange(p, p + size)), p + size))
                },
            },
        },
    }
}

fn read_type_tree(buf: &[u8], pos: usize, big: bool) -> (r: Result<
    ((Vec<TypeTreeNodeBlob>, Vec<u8>), usize),
    ReadError,
>)
    ensures
        match spec_type_tree(buf@, pos as int, big) {
            Ok(((b, s), p)) => r matches Ok(((x, y), q)) && x@ == b && y@ == s && q == p,
            Err(e) => r matches Err(f) && f == e,
        },
{
    let len = buf.len();
    let nodes = read_count(buf, pos, big)?;
    let size = read_count(buf, pos + 4, big)?;
    let (blobs, p) = read_blobs(buf, pos + 8, nodes, big)?;
    if !has_bytes(len, p, size as usize) {
        return Err(ReadError::UnexpectedEof);
    }
    let strings = copy_range(buf, p, p + size as usize);
    Ok(((blobs, strings), p + size as usize))
}

/// One type: class id, stripped flag, script type index, a script id for class 114,
/// the old type hash, the type tree when the file stores type trees, and, in a
/// revision 22 file (`large`), the type's dependencies.
pub open spec fn spec_serialized_type(buf: Seq<u8>, pos: int, big: bool, enable_type_tree: bool, large: bool) -> Result<
    (SerializedTypeView, int),
    ReadError,
> {
    match opt_i32(buf, pos, big) {
        None => Err(ReadError::UnexpectedEof),
        Some(class_id) => if !fits(buf, pos + 4, 3) {
            Err(ReadError::UnexpectedEof)
        } else {
            let p1 = if class_id == 114 {
                pos + 23
            } else {
                pos + 7
            };
            if !fits(buf, p1, 16) {
                Err(ReadError::UnexpectedEof)
            } else {
                let tree = if enable_type_tree {
                    match spec_type_tree(buf, p1 + 16, big) {
                        Err(e) => Err(e),
                        Ok(((b, s), p)) => Ok((TypeTreeDataView::Blob(b, s), p)),
                    }
                } else {
                    Ok((TypeTreeDataView::Absent, p1 + 16))
                };
                match tree {
                    Err(e) => Err(e),
                    Ok((t, p2)) => if !large {
                        Ok((SerializedTypeView { class_id, type_tree: t }, p2))
                    } else {
                        match spec_count(buf, p2, big) {
                        Err(e) => Err(e),
                        Ok(deps) => if !fits(buf, p2 + 4, deps * 4) {
                            Err(ReadError::UnexpectedEof)
                        } else {
                            Ok((SerializedTypeView { class_id, type_tree: t }, p2 + 4 + deps * 4))
                        },
                        }
                    },
                }
            }
        },
    }
}

#[verifier::rlimit(40)]
fn read_serialized_type(buf: &[u8], pos: usize, big: bool, enable_type_tree: bool, large: bool) -> (r: Result<
    (SerializedType, usize),
    ReadError,
>)
    ensures
        match spec_serialized_type(buf@, pos as int, big, enable_type_tree, large) {
            Ok((v, p)) => r matches Ok((x, q)) && x@ == v && q == p,
            Err(e) => r matches Err(f) && f == e,
        },
{
    let len = buf.len();
    let class_id = match read_i32(buf, pos, big) {
        Some(v) => v,
        None => return Err(ReadError::UnexpectedEof),
    };
    if !has_bytes(len, pos + 4, 3) {
        return Err(ReadError::UnexpectedEof);
    }
    let p1 = if class_id == 114 {
        if !has_bytes(len, pos + 7, 16) {
            return Err(ReadError::UnexpectedEof);
        }
        pos + 23
    } else {
        pos + 7
    };
    if !has_bytes(len, p1, 16) {
        return Err(ReadError::UnexpectedEof);
    }
    let (type_tree, p2) = if enable_type_tree {
        let ((blobs, strings), p) = read_type_tree(buf, p1 + 16, big)?;
        (TypeTreeData::Blob(blobs, strings), p)
    } else {
        (TypeTreeData::Absent, p1 + 16)
    };
    if !large {
        return Ok((SerializedType { class_id, type_tree }, p2));
    }
    let deps = read_count(buf, p2, big)?;
    let rest = len - (p2 + 4);
    if deps as u64 * 4 > rest as u64 {
        return Err(ReadError::UnexpectedEof);
    }
    let size = deps as usize * 4;
    Ok((SerializedType { class_id, type_tree }, p2 + 4 + size))
}

pub open spec fn spec_types(buf: Seq<u8>, pos: int, n: int, big: bool, enable_type_tree: bool, large: bool) -> Result<
    (Seq<SerializedTypeView>, int),
    ReadError,
> {
    spec_list(pos, n, |p: int| spec_serialized_type(buf, p, big, enable_type_tree, large), seq![])
}

fn read_types(buf: &[u8], pos: usize, n: u32, big: bool, enable_type_tree: bool, large: bool) -> (r: Result<
    (Vec<SerializedType>, usize),
    ReadError,
>)
    ensures
        match spec_types(buf@, pos as int, n as int, big, enable_type_tree, large) {
            Ok((v, p)) => r matches Ok((x, q)) && types_view(x@) == v && q == p,
            Err(e) => r matches Err(f) && f == e,
        },
{
    let ghost item = |p: int| spec_serialized_type(buf@, p, big, enable_type_tree, large);
    let mut out: Vec<SerializedType> = Vec::new();
    assert(types_view(out@) =~= seq![]);
    let mut p = pos;
    let mut i: u32 = 0;
    while i < n
        invariant
            i <= n,
            item == (|p: int| spec_serialized_type(buf@, p, big, enable_type_tree, large)),
            spec_types(buf@, pos as int, n as int, big, enable_type_tree, large) == spec_list(
                p as int,
                n - i,
                item,
                types_view(out@),
            ),
        decreases n - i,
    {
        let (t, q) = match read_serialized_type(buf, p, big, enable_type_tree, large) {
            Ok(x) => x,
            Err(e) => return Err(e),
        };
        let ghost old_out = out@;
        let ghost tv = t@;
        out.push(t);
        proof {
            assert(types_view(out@) =~= types_view(old_out).push(tv));
        }
        p = q;
        i = i + 1;
    }
    Ok((out, p))
}

/// An object record, aligned to 4 bytes from the start of the file: path id, start,
/// size and type index; the start is 64 bits wide in a revision 22 file (`large`),
/// else 32. Its class is filled in from the types later.
pub open spec fn spec_object(buf: Seq<u8>, pos: int, big: bool, large: bool) -> Result<(Object, int), ReadError> {
    let p = align_up(pos, 4);
    let w = if large {
        8int
    } else {
        4int
    };
    if !fits(buf, p, 16 + w) {
        Err(ReadError::UnexpectedEof)
    } else {
        Ok(
            (
                Object {
                    path_id: signed64(spec_u64_at(buf, p, big)),
                    byte_start: if large {
                        spec_u64_at(buf, p + 8, big)
                    } else {
                        spec_u32_at(buf, p + 8, big) as u64
                    },
                    byte_size: spec_u32_at(buf, p + 8 + w, big),
                    class: 0,
                    type_id: signed32(spec_u32_at(buf, p + 12 + w, big)) as usize,
                },
                p + 16 + w,
            ),
        )
    }
}

fn read_object(buf: &[u8], pos: usize, big: bool, large: bool) -> (r: Result<(Object, usize), ReadError>)
    ensures
        match spec_object(buf@, pos as int, big, large) {
            Ok((v, p)) => r matches Ok((x, q)) && x == v && q == p,
            Err(e) => r matches Err(f) && f == e,
        },
{
    let len = buf.len();
    let p = match align_up_exec(pos, 4) {
        Some(p) => p,
        None => return Err(ReadError::UnexpectedEof),
    };
    let w: usize = if large {
        8
    } else {
        4
    };
    if !has_bytes(buf.len(), p, 16 + w) {
        return Err(ReadError::UnexpectedEof);
    }
    let path_id = match read_i64(buf, p, big) {
        Some(v) => v,
        None => return Err(ReadError::UnexpectedEof),
    };
    let byte_start = if large {
        match read_u64(buf, p + 8, big) {
            Some(v) => v,
            None => return Err(ReadError::UnexpectedEof),
        }
    } else {
        match read_u32(buf, p + 8, big) {
            Some(v) => v as u64,
            None => return Err(ReadError::UnexpectedEof),
        }
    };
    let byte_size = match read_u32(buf, p + 8 + w, big) {
        Some(v) => v,
        None => return Err(ReadError::UnexpectedEof),
    };
    let type_id = match read_i32(buf, p + 12 + w, big) {
        Some(v) => v,
        None => return Err(ReadError::UnexpectedEof),
    };
    Ok((Object { path_id, byte_start, byte_size, class: 0, type_id: type_id as usize }, p + 16 + w))
}

pub open spec fn spec_objects(buf: Seq<u8>, pos: int, n: int, big: bool, large: bool) -> Result<
    (Seq<Object>, int),
    ReadError,
> {
    spec_list(pos, n, |p: int| spec_object(buf, p, big, large), seq![])
}

fn read_objects(buf: &[u8], pos: usize, n: u32, big: bool, large: bool) -> (r: Result<
    (Vec<Object>, usize),
    ReadError,
>)
    ensures
        match spec_objects(buf@, pos as int, n as int, big, large) {
            Ok((v, p)) => r matches Ok((x, q)) && x@ == v && q == p,
            Err(e) => r matches Err(f) && f == e,
        },
{
    let ghost item = |p: int| spec_object(buf@, p, big, large);
    let mut out: Vec<Object> = Vec::new();
    let mut p = pos;
    let mut i: u32 = 0;
    while i < n
        invariant
            i <= n,
            item == (|p: int| spec_object(buf@, p, big, large)),
            spec_objects(buf@, pos as int, n as int, big, large) == spec_list(p as int, n - i, item, out@),
        decreases n - i,
    {
        let (o, q) = match read_object(buf, p, big, large) {
            Ok(x) => x,
            Err(e) => return Err(e),
        };
        out.push(o);
        p = q;
        i = i + 1;
    }
    Ok((out, p))
}

/// Whether every object's type index names a type.
pub open spec fn types_known(objects: Seq<Object>, types: Seq<SerializedTypeView>) -> bool {
    forall|i: int| 0 <= i < objects.len() ==> (#[trigger] objects[i]).type_id < types.len()
}

/// The objects with the class of their type filled in.
pub open spec fn with_classes(objects: Seq<Object>, types: Seq<SerializedTypeView>) -> Seq<Object> {
    objects.map_values(|o: Object| Object { class: types[o.type_id as int].class_id, ..o })
}

fn fill_classes(objects: &mut Vec<Object>, types: &Vec<SerializedType>) -> (r: bool)
    ensures
        r == types_known(old(objects)@, types_view(types@)),
        r ==> final(objects)@ == with_classes(old(objects)@, types_view(types@)),
{
    let ghost orig = objects@;
    let mut i: usize = 0;
    while i < objects.len()
        invariant
            orig == old(objects)@,
            i <= objects@.len() == orig.len(),
            forall|j: int| 0 <= j < i ==> (#[trigger] orig[j]).type_id < types@.len(),
            forall|j: int| 0 <= j < i ==> #[trigger] objects@[j] == (Object {
                class: types@[orig[j].type_id as int].class_id,
                ..orig[j]
            }),
            forall|j: int| i <= j < objects@.len() ==> #[trigger] objects@[j] == orig[j],
        decreases objects.len() - i,
    {
        let o = objects[i];
        if o.type_id >= types.len() {
            assert(orig[i as int].type_id >= types_view(types@).len());
            assert(!types_known(orig, types_view(types@)));
            return false;
        }
        let c = types[o.type_id].class_id;
        objects.set(i, Object { class: c, ..o });
        i = i + 1;
    }
    assert(objects@ =~= with_classes(orig, types_view(types@)));
    true
}

/// A script type record: a file index, then (aligned to 4 bytes) an identifier.
pub open spec fn spec_script(buf: Seq<u8>, pos: int, big: bool) -> Result<((), int), ReadError> {
    if !fits(buf, pos, 4) {
        Err(ReadError::UnexpectedEof)
    } else {
        let p = align_up(pos + 4, 4);
        if !fits(buf, p, 8) {
            Err(ReadError::UnexpectedEof)
        } else {
            Ok(((), p + 8))
        }
    }
}

pub open spec fn spec_scripts(buf: Seq<u8>, pos: int, n: int, big: bool) -> Result<
    (Seq<()>, int),
    ReadError,
> {
    spec_list(pos, n, |p: int| spec_script(buf, p, big), seq![])
}

fn skip_scripts(buf: &[u8], pos: usize, n: u32, big: bool) -> (r: Result<usize, ReadError>)
    ensures
        match spec_scripts(buf@, pos as int, n as int, big) {
            Ok((_, p)) => r matches Ok(q) && q == p,
            Err(e) => r matches Err(f) && f == e,
        },
{
    let ghost item = |p: int| spec_script(buf@, p, big);
    let ghost mut acc: Seq<()> = seq![];
    let len = buf.len();
    let mut p = pos;
    let mut i: u32 = 0;
    while i < n
        invariant
            i <= n,
            len == buf@.len(),
            item == (|p: int| spec_script(buf@, p, big)),
            spec_scripts(buf@, pos as int, n as int, big) == spec_list(p as int, n - i, item, acc),
        decreases n - i,
    {
        if !has_bytes(len, p, 4) {
            return Err(ReadError::UnexpectedEof);
        }
        let a = match align_up_exec(p + 4, 4) {
            Some(a) => a,
            None => return Err(ReadError::UnexpectedEof),
        };
        if !has_bytes(len, a, 8) {
            return Err(ReadError::UnexpectedEof);
        }
        proof {
            acc = acc.push(());
        }
        p = a + 8;
        i = i + 1;
    }
    Ok(p)
}

/// A revision 20 or (`large`) 22 file: the common header, the byte order, three
/// reserved bytes, in a revision 22 file a second header with 64-bit sizes and the
/// data offset, then the unity version, the target platform, whether type trees are
/// stored, the types, the objects, the script types, the references to other files,
/// the reference types and a user string. Every object's type index must name a type.
pub open spec fn spec_content(buf: Seq<u8>, large: bool) -> Result<SerializedContentView, ReadError> {
    match spec_common_header(buf) {
        Err(e) => Err(e),
        Ok(h) => match spec_read_endian(buf, 16) {
            Err(e) => Err(e),
            Ok(endianess) => if !fits(
                buf,
                17,
                if large {
                    31
                } else {
                    3
                },
            ) {
                Err(ReadError::UnexpectedEof)
            } else {
                let data_offset = if large {
                    spec_u64_at(buf, 32, true)
                } else {
                    h.data_offset as u64
                };
                let start = if large {
                    48int
                } else {
                    20int
                };
                let big = endianess == Endian::Big;
                match spec_string(buf, start) {
                    Err(e) => Err(e),
                    Ok((unity_version, p0)) => match opt_i32(buf, p0, big) {
                        None => Err(ReadError::UnexpectedEof),
                        Some(platform) => match spec_build_target(platform) {
                            None => Err(ReadError::InvalidValue),
                            Some(target_platform) => match opt_u8(buf, p0 + 4) {
                                None => Err(ReadError::UnexpectedEof),
                                Some(flag) => {
                                    let enable_type_tree = flag != 0;
                                    match opt_u32(buf, p0 + 5, big) {
                                        None => Err(ReadError::UnexpectedEof),
                                        Some(type_count) => match spec_types(
                                            buf,
                                            p0 + 9,
                                            type_count as int,
                                            big,
                                            enable_type_tree,
                                            large,
                                        ) {
                                            Err(e) => Err(e),
                                            Ok((types, p1)) => spec_content_rest(
                                                buf,
                                                h,
                                                data_offset,
                                                endianess,
                                                unity_version,
                                                target_platform,
                                                enable_type_tree,
                                                types,
                                                p1,
                                                large,
                                            ),
                                        },
                                    }
                                },
                            },
                        },
                    },
                }
            },
        },
    }
}

/// The part of a revision 22 file after its types.
pub open spec fn spec_content_rest(
    buf: Seq<u8>,
    h: SerializedFileCommonHeader,
    data_offset: u64,
    endianess: Endian,
    unity_version: Seq<char>,
    target_platform: BuildTarget,
    enable_type_tree: bool,
    types: Seq<SerializedTypeView>,
    p1: int,
    large: bool,
) -> Result<SerializedContentView, ReadError> {
    let big = endianess == Endian::Big;
    match spec_count(buf, p1, big) {
        Err(e) => Err(e),
        Ok(object_count) => match spec_objects(buf, p1 + 4, object_count, big, large) {
            Err(e) => Err(e),
            Ok((objects, p2)) => match spec_count(buf, p2, big) {
                Err(e) => Err(e),
                Ok(script_count) => match spec_scripts(buf, p2 + 4, script_count, big) {
                    Err(e) => Err(e),
                    Ok((_, p3)) => match spec_count(buf, p3, big) {
                        Err(e) => Err(e),
                        Ok(externals_count) => match spec_externals(buf, p3 + 4, externals_count, big, ReferenceLayout::Tagged) {
                            Err(e) => Err(e),
                            Ok((externals, p4)) => match spec_count(buf, p4, big) {
                                Err(e) => Err(e),
                                Ok(ref_count) => match spec_types(
                                    buf,
                                    p4 + 4,
                                    ref_count,
                                    big,
                                    enable_type_tree,
                                    large,
                                ) {
                                    Err(e) => Err(e),
                                    Ok((_, p5)) => match spec_string(buf, p5) {
                                        Err(e) => Err(e),
                                        Ok(_) => if !types_known(objects, types) {
                                            Err(ReadError::InvalidValue)
                                        } else {
                                            Ok(
                                                SerializedContentView {
                                                    header: h,
                                                    data_offset,
                                                    endianess,
                                                    unity_version,
                                                    target_platform,
                                                    enable_type_tree,
                                                    types,
                                                    objects: with_classes(objects, types),
                                                    externals,
                                                },
                                            )
                                        },
                                    },
                                },
                            },
                        },
                    },
                },
            },
        },
    }
}

pub fn read_content(buf: &[u8], large: bool) -> (r: Result<SerializedContent, ReadError>)
    ensures
        match spec_content(buf@, large) {
            Ok(v) => r matches Ok(c) && c@ == v,
            Err(e) => r matches Err(f) && f == e,
        },
{
    let len = buf.len();
    let h = SerializedFileCommonHeader::read(buf)?;
    let endianess = read_endian(buf, 16)?;
    if !has_bytes(len, 17, if large { 31 } else { 3 }) {
        return Err(ReadError::UnexpectedEof);
    }
    let data_offset = if large {
        match read_u64(buf, 32, true) {
            Some(v) => v,
            None => return Err(ReadError::UnexpectedEof),
        }
    } else {
        h.data_offset as u64
    };
    let start: usize = if large {
        48
    } else {
        20
    };
    let big = endianess.is_big();
    let (unity_version, p0) = read_string(buf, start)?;
    let platform = match read_i32(buf, p0, big) {
        Some(v) => v,
        None => return Err(ReadError::UnexpectedEof),
    };
    let target_platform = match BuildTarget::from_i32(platform) {
        Some(t) => t,
        None => return Err(ReadError::InvalidValue),
    };
    let flag = match read_u8(buf, p0 + 4) {
        Some(v) => v,
        None => return Err(ReadError::UnexpectedEof),
    };
    let enable_type_tree = flag != 0;
    let type_count = match read_u32(buf, p0 + 5, big) {
        Some(v) => v,
        None => return Err(ReadError::UnexpectedEof),
    };
    let (types, p1) = read_types(buf, p0 + 9, type_count, big, enable_type_tree, large)?;
    read_content_rest(
        buf,
        h,
        data_offset,
        endianess,
        unity_version,
        target_platform,
        enable_type_tree,
        types,
        p1,
        large,
    )
}

fn read_content_rest(
    buf: &[u8],
    h: SerializedFileCommonHeader,
    data_offset: u64,
    endianess: Endian,
    unity_version: String,
    target_platform: BuildTarget,
    enable_type_tree: bool,
    types: Vec<SerializedType>,
    p1: usize,
    large: bool,
) -> (r: Result<SerializedContent, ReadError>)
    ensures
        match spec_content_rest(
            buf@,
            h,
            data_offset,
            endianess,
            unity_version@,
            target_platform,
            enable_type_tree,
            types_view(types@),
            p1 as int,
            large,
        ) {
            Ok(v) => r matches Ok(c) && c@ == v,
            Err(e) => r matches Err(f) && f == e,
        },
{
    let len = buf.len();
    let big = endianess.is_big();
    let object_count = read_count(buf, p1, big)?;
    let (mut objects, p2) = read_objects(buf, p1 + 4, object_count, big, large)?;
    let script_count = read_count(buf, p2, big)?;
    let p3 = skip_scripts(buf, p2 + 4, script_count, big)?;
    let externals_count = read_count(buf, p3, big)?;
    let (externals, p4) = read_externals(buf, p3 + 4, externals_count, big, ReferenceLayout::Tagged)?;
    let ref_count = read_count(buf, p4, big)?;
    let (_ref_types, p5) = read_types(buf, p4 + 4, ref_count, big, enable_type_tree, large)?;
    let _user_information = read_string(buf, p5)?;
    if !fill_classes(&mut objects, &types) {
        return Err(ReadError::InvalidValue);
    }
    Ok(
        SerializedContent {
            header: h,
            data_offset,
            endianess,
            unity_version,
            target_platform,
            enable_type_tree,
            types,
            objects,
            externals,
        },
    )
}

} // verus!
