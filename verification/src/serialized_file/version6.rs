//! Serialized files of format revisions 1, 3, 5 and 6: the metadata block sits at
//! the end of the file, its type trees stored as nested node records.
use vstd::prelude::*;

use super::{
    read_count, read_endian, read_externals, read_string, spec_common_header, spec_count,
    spec_externals, spec_list, spec_read_endian, spec_string, types_view, BuildTarget, Object,
    ReferenceLayout, SerializedContent, SerializedContentView, SerializedFileCommonHeader,
    SerializedFileFormatVersion,
    SerializedType,
    SerializedTypeView, TypeTreeData, TypeTreeDataView,
};
use crate::binary::{fits, opt_u32, read_i32, read_u16, read_u32, signed32, spec_u16_at, spec_u32_at};
use crate::error::ReadError;
use crate::type_tree::{nodes_view, TypeTreeNode, TypeTreeNodeView};
use crate::until::Endian;

verus! {

pub open spec fn i32_at(buf: Seq<u8>, pos: int, big: bool) -> i32 {
    signed32(spec_u32_at(buf, pos, big))
}

/// One node record at `pos`, at depth `level`: type name, name, byte size, index,
/// flags, version, meta flag and number of children; a short record (revision 3)
/// has no index and no meta flag, both then 0. Gives the node, the number of
/// children and the position after the record.
pub open spec fn spec_tree_node(buf: Seq<u8>, pos: int, level: int, big: bool, full: bool) -> Result<
    (TypeTreeNodeView, int, int),
    ReadError,
> {
    let width: int = if full {
        24
    } else {
        16
    };
    match spec_string(buf, pos) {
        Err(e) => Err(e),
        Ok((t, p1)) => match spec_string(buf, p1) {
            Err(e) => Err(e),
            Ok((n, p2)) => if !fits(buf, p2, width) {
                Err(ReadError::UnexpectedEof)
            } else {
                let flags_at = if full {
                    p2 + 8
                } else {
                    p2 + 4
                };
                Ok(
                    (
                        TypeTreeNodeView {
                            version: i32_at(buf, flags_at + 4, big) as u16,
                            level: level as u8,
                            type_flags: i32_at(buf, flags_at, big),
                            type_string: t,
                            name: n,
                            byte_size: i32_at(buf, p2, big),
                            index: if full {
                                i32_at(buf, p2 + 4, big)
                            } else {
                                0
                            },
                            meta_flag: if full {
                                i32_at(buf, p2 + 16, big)
                            } else {
                                0
                            },
                            ref_type_hash: None,
                        },
                        i32_at(buf, p2 + width - 4, big) as int,
                        p2 + width,
                    ),
                )
            },
        },
    }
}

/// A node with its subtree, flattened in pre-order, and the position after it.
pub open spec fn spec_tree(buf: Seq<u8>, pos: int, level: int, big: bool, full: bool) -> Result<
    (Seq<TypeTreeNodeView>, int),
    ReadError,
>
    decreases buf.len() - pos, 1int, 0int,
{
    if pos < 0 || pos > buf.len() {
        Err(ReadError::UnexpectedEof)
    } else {
        match spec_tree_node(buf, pos, level, big, full) {
            Err(e) => Err(e),
            Ok((node, count, p)) => if count < 0 {
                Err(ReadError::InvalidValue)
            } else if p <= pos || p > buf.len() {
                Err(ReadError::UnexpectedEof)
            } else {
                match spec_children(buf, p, level + 1, big, full, count) {
                    Err(e) => Err(e),
                    Ok((ns, q)) => Ok((seq![node] + ns, q)),
                }
            },
        }
    }
}

/// `count` subtrees one after the other.
pub open spec fn spec_children(buf: Seq<u8>, pos: int, level: int, big: bool, full: bool, count: int) -> Result<
    (Seq<TypeTreeNodeView>, int),
    ReadError,
>
    decreases buf.len() - pos, 2int, count,
{
    if count <= 0 {
        Ok((seq![], pos))
    } else if pos < 0 || pos > buf.len() {
        Err(ReadError::UnexpectedEof)
    } else {
        match spec_tree(buf, pos, level, big, full) {
            Err(e) => Err(e),
            Ok((ns, p)) => if p <= pos || p > buf.len() {
                Err(ReadError::UnexpectedEof)
            } else {
                match spec_children(buf, p, level, big, full, count - 1) {
                    Err(e) => Err(e),
                    Ok((ms, q)) => Ok((ns + ms, q)),
                }
            },
        }
    }
}

fn read_tree_node(buf: &[u8], pos: usize, level: usize, big: bool, full: bool) -> (r: Result<
    (TypeTreeNode, i32, usize),
    ReadError,
>)
    ensures
        match spec_tree_node(buf@, pos as int, level as int, big, full) {
            Ok((v, c, p)) => r matches Ok((x, d, q)) && x@ == v && d == c && q == p,
            Err(e) => r matches Err(f) && f == e,
        },
{
    let (type_string, p1) = read_string(buf, pos)?;
    let (name, p2) = read_string(buf, p1)?;
    let width: usize = if full {
        24
    } else {
        16
    };
    if p2 > buf.len() || buf.len() - p2 < width {
        return Err(ReadError::UnexpectedEof);
    }
    let flags_at = if full {
        p2 + 8
    } else {
        p2 + 4
    };
    let byte_size = match read_i32(buf, p2, big) {
        Some(v) => v,
        None => return Err(ReadError::UnexpectedEof),
    };
    let index = if full {
        match read_i32(buf, p2 + 4, big) {
            Some(v) => v,
            None => return Err(ReadError::UnexpectedEof),
        }
    } else {
        0
    };
    let type_flags = match read_i32(buf, flags_at, big) {
        Some(v) => v,
        None => return Err(ReadError::UnexpectedEof),
    };
    let version = match read_i32(buf, flags_at + 4, big) {
        Some(v) => v,
        None => return Err(ReadError::UnexpectedEof),
    };
    let meta_flag = if full {
        match read_i32(buf, p2 + 16, big) {
            Some(v) => v,
            None => return Err(ReadError::UnexpectedEof),
        }
    } else {
        0
    };
    let count = match read_i32(buf, p2 + width - 4, big) {
        Some(v) => v,
        None => return Err(ReadError::UnexpectedEof),
    };
    let node = TypeTreeNode {
        version: version as u16,
        level: level as u8,
        type_flags,
        type_string,
        name,
        byte_size,
        index,
        meta_flag,
        ref_type_hash: None,
    };
    Ok((node, count, p2 + width))
}

/// Appends a node and its subtree to `out`; returns the position after them.
fn read_tree(buf: &[u8], pos: usize, level: usize, big: bool, full: bool, out: &mut Vec<TypeTreeNode>) -> (r:
    Result<usize, ReadError>)
    requires
        level <= pos,
    ensures
        match spec_tree(buf@, pos as int, level as int, big, full) {
            Ok((ns, p)) => r matches Ok(q) && q == p && nodes_view(final(out)@) == nodes_view(
                old(out)@,
            ) + ns,
            Err(e) => r == Err::<usize, ReadError>(e),
        },
    decreases buf@.len() - pos, 1int, 0int,
{
    if pos > buf.len() {
        return Err(ReadError::UnexpectedEof);
    }
    let (node, count, p) = match read_tree_node(buf, pos, level, big, full) {
        Ok(x) => x,
        Err(e) => return Err(e),
    };
    if count < 0 {
        return Err(ReadError::InvalidValue);
    }
    if p <= pos || p > buf.len() {
        return Err(ReadError::UnexpectedEof);
    }
    let ghost before = nodes_view(out@);
    let ghost nv = node@;
    out.push(node);
    proof {
        assert(nodes_view(out@) =~= before + seq![nv]);
    }
    let q = read_children(buf, p, level + 1, big, full, count as u32, out);
    proof {
        assert(before + seq![nv] + (match spec_children(buf@, p as int, level + 1, big, full, count as int) {
            Ok((ns, _)) => ns,
            Err(_) => seq![],
        }) =~= before + (seq![nv] + (match spec_children(buf@, p as int, level + 1, big, full, count as int) {
            Ok((ns, _)) => ns,
            Err(_) => seq![],
        })));
    }
    q
}

/// Appends `count` subtrees to `out`; returns the position after them.
fn read_children(
    buf: &[u8],
    pos: usize,
    level: usize,
    big: bool,
    full: bool,
    count: u32,
    out: &mut Vec<TypeTreeNode>,
) -> (r: Result<usize, ReadError>)
    requires
        level <= pos,
    ensures
        match spec_children(buf@, pos as int, level as int, big, full, count as int) {
            Ok((ns, p)) => r matches Ok(q) && q == p && nodes_view(final(out)@) == nodes_view(
                old(out)@,
            ) + ns,
            Err(e) => r == Err::<usize, ReadError>(e),
        },
    decreases buf@.len() - pos, 2int, count,
{
    if count == 0 {
        assert(nodes_view(out@) =~= nodes_view(out@) + seq![]);
        return Ok(pos);
    }
    if pos > buf.len() {
        return Err(ReadError::UnexpectedEof);
    }
    let ghost before = nodes_view(out@);
    let p = match read_tree(buf, pos, level, big, full, out) {
        Ok(p) => p,
        Err(e) => return Err(e),
    };
    if p <= pos || p > buf.len() {
        return Err(ReadError::UnexpectedEof);
    }
    let ghost mid = nodes_view(out@);
    let ghost ns = spec_tree(buf@, pos as int, level as int, big, full)->Ok_0.0;
    assert(spec_tree(buf@, pos as int, level as int, big, full) == Ok::<(Seq<TypeTreeNodeView>, int), ReadError>((ns, p as int)));
    let q = read_children(buf, p, level, big, full, count - 1, out);
    proof {
        match spec_children(buf@, p as int, level as int, big, full, count - 1) {
            Ok((ms, _)) => {
                assert(nodes_view(out@) =~= before + (ns + ms));
            },
            Err(_) => {},
        }
    }
    q
}

/// One type: a class id and its type tree.
pub open spec fn spec_serialized_type(buf: Seq<u8>, pos: int, big: bool, full: bool) -> Result<
    (SerializedTypeView, int),
    ReadError,
> {
    if !fits(buf, pos, 4) {
        Err(ReadError::UnexpectedEof)
    } else {
        match spec_tree(buf, pos + 4, 0, big, full) {
            Err(e) => Err(e),
            Ok((ns, p)) => Ok(
                (
                    SerializedTypeView {
                        class_id: i32_at(buf, pos, big),
                        type_tree: TypeTreeDataView::Nodes(ns),
                    },
                    p,
                ),
            ),
        }
    }
}

fn read_serialized_type(buf: &[u8], pos: usize, big: bool, full: bool) -> (r: Result<
    (SerializedType, usize),
    ReadError,
>)
    ensures
        match spec_serialized_type(buf@, pos as int, big, full) {
            Ok((v, p)) => r matches Ok((x, q)) && x@ == v && q == p,
            Err(e) => r matches Err(f) && f == e,
        },
{
    let len = buf.len();
    let class_id = match read_i32(buf, pos, big) {
        Some(v) => v,
        None => return Err(ReadError::UnexpectedEof),
    };
    let mut nodes: Vec<TypeTreeNode> = Vec::new();
    let p = read_tree(buf, pos + 4, 0, big, full, &mut nodes)?;
    proof {
        assert(nodes_view(nodes@) =~= nodes_view(Seq::<TypeTreeNode>::empty()) + spec_tree(
            buf@,
            pos + 4,
            0,
            big,
            full,
        )->Ok_0.0);
    }
    Ok((SerializedType { class_id, type_tree: TypeTreeData::Nodes(nodes) }, p))
}

pub open spec fn spec_types(buf: Seq<u8>, pos: int, n: int, big: bool, full: bool) -> Result<
    (Seq<SerializedTypeView>, int),
    ReadError,
> {
    spec_list(pos, n, |p: int| spec_serialized_type(buf, p, big, full), seq![])
}

pub(crate) fn read_types(buf: &[u8], pos: usize, n: u32, big: bool, full: bool) -> (r: Result<
    (Vec<SerializedType>, usize),
    ReadError,
>)
    ensures
        match spec_types(buf@, pos as int, n as int, big, full) {
            Ok((v, p)) => r matches Ok((x, q)) && types_view(x@) == v && q == p,
            Err(e) => r matches Err(f) && f == e,
        },
{
    let ghost item = |p: int| spec_serialized_type(buf@, p, big, full);
    let mut out: Vec<SerializedType> = Vec::new();
    assert(types_view(out@) =~= seq![]);
    let mut p = pos;
    let mut i: u32 = 0;
    while i < n
        invariant
            i <= n,
            item == (|p: int| spec_serialized_type(buf@, p, big, full)),
            spec_types(buf@, pos as int, n as int, big, full) == spec_list(
                p as int,
                n - i,
                item,
                types_view(out@),
            ),
        decreases n - i,
    {
        let (t, q) = match read_serialized_type(buf, p, big, full) {
            Ok(x) => x,
            Err(e) => return Err(e),
        };
        let ghost old_out = out@;
        let ghost tv = t@;
        out.push(t);
        proof {
            assert(types_view(out@) =~= types_view(old_out).push(tv));
        }
        p = q;
        i = i + 1;
    }
    Ok((out, p))
}

/// An object record: path id, start, size, type id, class id and a destroyed flag,
/// the ids and sizes 32 bits wide.
pub open spec fn spec_object(buf: Seq<u8>, pos: int, big: bool) -> Result<(Object, int), ReadError> {
    if !fits(buf, pos, 20) {
        Err(ReadError::UnexpectedEof)
    } else {
        Ok(
            (
                Object {
                    path_id: i32_at(buf, pos, big) as i64,
                    byte_start: spec_u32_at(buf, pos + 4, big) as u64,
                    byte_size: spec_u32_at(buf, pos + 8, big),
                    class: spec_u16_at(buf, pos + 16, big) as i32,
                    type_id: i32_at(buf, pos + 12, big) as usize,
                },
                pos + 20,
            ),
        )
    }
}

fn read_object(buf: &[u8], pos: usize, big: bool) -> (r: Result<(Object, usize), ReadError>)
    ensures
        match spec_object(buf@, pos as int, big) {
            Ok((v, p)) => r matches Ok((x, q)) && x == v && q == p,
            Err(e) => r matches Err(f) && f == e,
        },
{
    if pos > buf.len() || buf.len() - pos < 20 {
        return Err(ReadError::UnexpectedEof);
    }
    let path_id = match read_i32(buf, pos, big) {
        Some(v) => v,
        None => return Err(ReadError::UnexpectedEof),
    };
    let byte_start = match read_u32(buf, pos + 4, big) {
        Some(v) => v,
        None => return Err(ReadError::UnexpectedEof),
    };
    let byte_size = match read_u32(buf, pos + 8, big) {
        Some(v) => v,
        None => return Err(ReadError::UnexpectedEof),
    };
    let type_id = match read_i32(buf, pos + 12, big) {
        Some(v) => v,
        None => return Err(ReadError::UnexpectedEof),
    };
    let class_id = match read_u16(buf, pos + 16, big) {
        Some(v) => v,
        None => return Err(ReadError::UnexpectedEof),
    };
    Ok(
        (
            Object {
                path_id: path_id as i64,
                byte_start: byte_start as u64,
                byte_size,
                class: class_id as i32,
                type_id: type_id as usize,
            },
            pos + 20,
        ),
    )
}

pub open spec fn spec_objects(buf: Seq<u8>, pos: int, n: int, big: bool) -> Result<
    (Seq<Object>, int),
    ReadError,
> {
    spec_list(pos, n, |p: int| spec_object(buf, p, big), seq![])
}

fn read_objects(buf: &[u8], pos: usize, n: u32, big: bool) -> (r: Result<
    (Vec<Object>, usize),
    ReadError,
>)
    ensures
        match spec_objects(buf@, pos as int, n as int, big) {
            Ok((v, p)) => r matches Ok((x, q)) && x@ == v && q == p,
            Err(e) => r matches Err(f) && f == e,
        },
{
    let ghost item = |p: int| spec_object(buf@, p, big);
    let mut out: Vec<Object> = Vec::new();
    let mut p = pos;
    let mut i: u32 = 0;
    while i < n
        invariant
            i <= n,
            item == (|p: int| spec_object(buf@, p, big)),
            spec_objects(buf@, pos as int, n as int, big) == spec_list(p as int, n - i, item, out@),
        decreases n - i,
    {
        let (o, q) = match read_object(buf, p, big) {
            Ok(x) => x,
            Err(e) => return Err(e),
        };
        out.push(o);
        p = q;
        i = i + 1;
    }
    Ok((out, p))
}

/// The layout of references to other files in a file of revision `v`.
pub open spec fn reference_layout(v: SerializedFileFormatVersion) -> ReferenceLayout {
    if v == SerializedFileFormatVersion::Unknown_6 {
        ReferenceLayout::Tagged
    } else if v == SerializedFileFormatVersion::Unknown_5 {
        ReferenceLayout::Identified
    } else {
        ReferenceLayout::PathOnly
    }
}

fn layout_of(v: SerializedFileFormatVersion) -> (r: ReferenceLayout)
    ensures
        r == reference_layout(v),
{
    if v == SerializedFileFormatVersion::Unknown_6 {
        ReferenceLayout::Tagged
    } else if v == SerializedFileFormatVersion::Unknown_5 {
        ReferenceLayout::Identified
    } else {
        ReferenceLayout::PathOnly
    }
}

/// A file of revision 1, 3, 5 or 6: the common header; at `file_size -
/// metadata_size` the byte order; then the types, objects and references to other
/// files. Revision 3 stores short node records; revision 6 ends with a user string.
pub open spec fn spec_content(buf: Seq<u8>) -> Result<SerializedContentView, ReadError> {
    match spec_common_header(buf) {
        Err(e) => Err(e),
        Ok(h) => if h.metadata_size > h.file_size {
            Err(ReadError::InvalidValue)
        } else {
            let pos = h.file_size - h.metadata_size;
            let rev6 = h.version == SerializedFileFormatVersion::Unknown_6;
            let full = h.version != SerializedFileFormatVersion::Unknown_3;
            match spec_read_endian(buf, pos) {
                Err(e) => Err(e),
                Ok(endianess) => {
                    let big = endianess == Endian::Big;
                    match opt_u32(buf, pos + 1, big) {
                        None => Err(ReadError::UnexpectedEof),
                        Some(type_count) => match spec_types(buf, pos + 5, type_count as int, big, full) {
                            Err(e) => Err(e),
                            Ok((types, p1)) => match spec_count(buf, p1, big) {
                                Err(e) => Err(e),
                                Ok(object_count) => match spec_objects(buf, p1 + 4, object_count, big) {
                                    Err(e) => Err(e),
                                    Ok((objects, p2)) => match spec_count(buf, p2, big) {
                                        Err(e) => Err(e),
                                        Ok(externals_count) => match spec_externals(
                                            buf,
                                            p2 + 4,
                                            externals_count,
                                            big,
                                            reference_layout(h.version),
                                        ) {
                                            Err(e) => Err(e),
                                            Ok((externals, p3)) => {
                                                let tail = if rev6 {
                                                    match spec_string(buf, p3) {
                                                        Err(e) => Err(e),
                                                        Ok(_) => Ok(()),
                                                    }
                                                } else {
                                                    Ok(())
                                                };
                                                match tail {
                                                    Err(e) => Err(e),
                                                    Ok(_) => Ok(
                                                        SerializedContentView {
                                                            header: h,
                                                            data_offset: h.data_offset as u64,
                                                            endianess,
                                                            unity_version: seq![],
                                                            target_platform: BuildTarget::UnknownPlatform,
                                                            enable_type_tree: true,
                                                            types,
                                                            objects,
                                                            externals,
                                                        },
                                                    ),
                                                }
                                            },
                                        },
                                    },
                                },
                            },
                        },
                    }
                },
            }
        },
    }
}

pub fn read_content(buf: &[u8]) -> (r: Result<SerializedContent, ReadError>)
    ensures
        match spec_content(buf@) {
            Ok(v) => r matches Ok(c) && c@ == v,
            Err(e) => r matches Err(f) && f == e,
        },
{
    let h = SerializedFileCommonHeader::read(buf)?;
    if h.metadata_size > h.file_size {
        return Err(ReadError::InvalidValue);
    }
    let rev6 = h.version == SerializedFileFormatVersion::Unknown_6;
    let full = h.version != SerializedFileFormatVersion::Unknown_3;
    let len = buf.len();
    let pos = (h.file_size - h.metadata_size) as usize;
    let endianess = read_endian(buf, pos)?;
    let big = endianess.is_big();
    let type_count = match read_u32(buf, pos + 1, big) {
        Some(v) => v,
        None => return Err(ReadError::UnexpectedEof),
    };
    let (types, p1) = read_types(buf, pos + 5, type_count, big, full)?;
    let object_count = read_count(buf, p1, big)?;
    let (objects, p2) = read_objects(buf, p1 + 4, object_count, big)?;
    let externals_count = read_count(buf, p2, big)?;
    let (externals, p3) = read_externals(buf, p2 + 4, externals_count, big, layout_of(h.version))?;
    if rev6 {
        let _user_information = read_string(buf, p3)?;
    }
    Ok(
        SerializedContent {
            header: h,
            data_offset: h.data_offset as u64,
            endianess,
            unity_version: String::new(),
            target_platform: BuildTarget::UnknownPlatform,
            enable_type_tree: true,
            types,
            objects,
            externals,
        },
    )
}

} // verus!
