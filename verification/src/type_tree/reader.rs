//! Reading an object's field layout from its bytes, driven by a flattened type tree.
//!
//! Reading walks the node list in pre-order. A node whose next node is one level
//! deeper is a structure; an array node is followed by its size node and the nodes of
//! one item; any other node is a leaf of `byte_size` bytes. Fields with the align flag
//! are followed by padding to a multiple of four. Arrays of fixed-size items are not
//! read item by item: their bytes are recorded as one run.
use vstd::prelude::*;

use super::{
    copy_nodes, fields_model, nodes_view, ArrayDataModel, ArrayField, ArrayFieldValue, DataOffset,
    Field, FieldModel, FieldValue, TypeField, TypeTreeNode, TypeTreeNodeView, ValueModel,
};
use crate::binary::{align_up, align_up_exec, has_bytes, opt_u32, read_u32};
use crate::error::ReadError;

verus! {

/// The node list and class id used to read objects of one class.
#[derive(Debug)]
pub struct TypeTreeObjectBinReadClassArgs {
    pub(crate) class_id: i32,
    pub(crate) type_fields: Vec<TypeTreeNode>,
}

impl TypeTreeObjectBinReadClassArgs {
    pub fn new(class_id: i32, type_fields: Vec<TypeTreeNode>) -> (r: Self)
        ensures
            r.class_id() == class_id,
            r.type_fields() == nodes_view(type_fields@),
    {
        Self { class_id, type_fields }
    }

    pub closed spec fn class_id(&self) -> i32 {
        self.class_id
    }

    pub closed spec fn type_fields(&self) -> Seq<TypeTreeNodeView> {
        nodes_view(self.type_fields@)
    }

    /// The class id.
    pub fn get_class_id(&self) -> (r: i32)
        ensures
            r == self.class_id(),
    {
        self.class_id
    }

    /// The node list.
    pub fn get_type_fields(&self) -> (r: &Vec<TypeTreeNode>)
        ensures
            nodes_view(r@) == self.type_fields(),
    {
        &self.type_fields
    }

    /// A copy of these arguments.
    pub fn copy(&self) -> (r: Self)
        ensures
            r.class_id() == self.class_id(),
            r.type_fields() == self.type_fields(),
    {
        Self { class_id: self.class_id, type_fields: copy_nodes(&self.type_fields) }
    }
}

/// Everything needed to read one object.
#[derive(Debug)]
pub struct TypeTreeObjectBinReadArgs {
    pub(crate) serialized_file_id: i64,
    pub(crate) class_args: TypeTreeObjectBinReadClassArgs,
}

impl TypeTreeObjectBinReadArgs {
    pub fn new(serialized_file_id: i64, class_args: TypeTreeObjectBinReadClassArgs) -> (r: Self)
        ensures
            r.serialized_file_id() == serialized_file_id,
            r.class_id() == class_args.class_id(),
            r.type_fields() == class_args.type_fields(),
    {
        Self { serialized_file_id, class_args }
    }

    pub closed spec fn serialized_file_id(&self) -> i64 {
        self.serialized_file_id
    }

    pub closed spec fn class_id(&self) -> i32 {
        self.class_args.class_id()
    }

    pub closed spec fn type_fields(&self) -> Seq<TypeTreeNodeView> {
        self.class_args.type_fields()
    }

    /// What the accessors above stand for, for the rest of the crate.
    pub(crate) proof fn lemma_fields(&self)
        ensures
            self.serialized_file_id() == self.serialized_file_id,
            self.class_id() == self.class_args.class_id,
            self.type_fields() == nodes_view(self.class_args.type_fields@),
    {
    }
}

// ---------------------------------------------------------------------------
// Sizes and layouts of fixed-size items
/// Walks the item node list `ts` from node `idx`, adding the sizes of its leaves to
/// `rs` (with alignment padding); `None` when it meets an array, a malformed level
/// sequence, or a size beyond the machine's integers. Returns the last node visited
/// and the new size.
pub open spec fn spec_calc(ts: Seq<TypeTreeNodeView>, idx: int, rs: int) -> Option<(int, int)>
    decreases ts.len() - idx, 1int,
{
    if idx < 0 || idx >= ts.len() {
        None
    } else {
        let f = ts[idx];
        if f.is_array() {
            None
        } else {
            let r = if idx + 1 < ts.len() && ts[idx + 1].level == f.level + 1 {
                spec_calc_children(ts, f.level, idx, rs)
            } else {
                let nrs = rs + ((f.byte_size as usize) as int);
                if nrs > usize::MAX {
                    None
                } else {
                    Some((idx, nrs))
                }
            };
            match r {
                None => None,
                Some((last, r2)) => if f.is_align() && r2 % 4 != 0 {
                    let a = r2 + 4 - r2 % 4;
                    if a > usize::MAX {
                        None
                    } else {
                        Some((last, a))
                    }
                } else {
                    Some((last, r2))
                },
            }
        }
    }
}

pub open spec fn spec_calc_children(ts: Seq<TypeTreeNodeView>, level: u8, j: int, rs: int) -> Option<
    (int, int),
>
    decreases ts.len() - j, 0int,
{
    if j < 0 || j + 1 >= ts.len() {
        Some((j, rs))
    } else if ts[j + 1].level == level + 1 {
        match spec_calc(ts, j + 1, rs) {
            None => None,
            Some((last, r2)) => if last <= j || last >= ts.len() {
                None
            } else {
                spec_calc_children(ts, level, last, r2)
            },
        }
    } else if ts[j + 1].level <= level {
        Some((j, rs))
    } else {
        None
    }
}

/// The byte size of one item described by `ts`, when it has no arrays.
pub open spec fn spec_item_size(ts: Seq<TypeTreeNodeView>) -> Option<int> {
    match spec_calc(ts, 0, 0) {
        Some((_, s)) => Some(s),
        None => None,
    }
}

/// The layout of one fixed-size item, with offsets from the item's start.
pub open spec fn spec_item_layout(ts: Seq<TypeTreeNodeView>, idx: int, rel: int) -> Option<
    (FieldModel, int, int),
>
    decreases ts.len() - idx, 1int,
{
    if idx < 0 || idx >= ts.len() {
        None
    } else {
        let f = ts[idx];
        if f.is_array() {
            None
        } else {
            let r = if idx + 1 < ts.len() && ts[idx + 1].level == f.level + 1 {
                match spec_item_layout_children(ts, f.level, idx, rel, seq![]) {
                    None => None,
                    Some((fs, last, r2)) => Some(
                        (FieldModel { node: f, data: ValueModel::Fields(fs) }, last, r2),
                    ),
                }
            } else {
                let nrel = rel + ((f.byte_size as usize) as int);
                if nrel > usize::MAX {
                    None
                } else {
                    Some(
                        (
                            FieldModel {
                                node: f,
                                data: ValueModel::Offset(DataOffset::ArrayItemOffset(rel as u64)),
                            },
                            idx,
                            nrel,
                        ),
                    )
                }
            };
            match r {
                None => None,
                Some((m, last, r2)) => if f.is_align() && r2 % 4 != 0 {
                    let a = r2 + 4 - r2 % 4;
                    if a > usize::MAX {
                        None
                    } else {
                        Some((m, last, a))
                    }
                } else {
                    Some((m, last, r2))
                },
            }
        }
    }
}

pub open spec fn spec_item_layout_children(
    ts: Seq<TypeTreeNodeView>,
    level: u8,
    j: int,
    rel: int,
    acc: Seq<FieldModel>,
) -> Option<(Seq<FieldModel>, int, int)>
    decreases ts.len() - j, 0int,
{
    if j < 0 || j + 1 >= ts.len() {
        Some((acc, j, rel))
    } else if ts[j + 1].level == level + 1 {
        match spec_item_layout(ts, j + 1, rel) {
            None => None,
            Some((m, last, r2)) => if last <= j || last >= ts.len() {
                None
            } else {
                spec_item_layout_children(ts, level, last, r2, acc.push(m))
            },
        }
    } else if ts[j + 1].level <= level {
        Some((acc, j, rel))
    } else {
        None
    }
}

pub proof fn lemma_fields_model_push(v: Seq<Field>, f: Field)
    ensures
        fields_model(v.push(f)) == fields_model(v).push(f.model()),
{
    assert(v.push(f).drop_last() =~= v);
}

/// Computes the byte size of the fixed-size item described by `type_fields`, starting
/// at node `*field_index` and adding to `*read_size`; on success the index is left on
/// the last node visited.
#[verifier::loop_isolation(false)]
pub fn calc_no_array_field_size(
    type_fields: &Vec<TypeTreeNode>,
    field_index: &mut usize,
    read_size: &mut usize,
) -> (r: Option<usize>)
    ensures
        match spec_calc(nodes_view(type_fields@), *old(field_index) as int, *old(read_size) as int) {
            Some((last, s)) => r == Some(s as usize) && *final(field_index) == last
                && *final(read_size) == s,
            None => r is None,
        },
        r is Some ==> *old(field_index) <= *final(field_index) < type_fields@.len(),
    decreases type_fields@.len() - *old(field_index),
{
    let ghost ts = nodes_view(type_fields@);
    let n = type_fields.len();
    if *field_index >= n {
        return None;
    }
    let idx0 = *field_index;
    let rs0 = *read_size;
    let field = &type_fields[idx0];
    let level = field.get_level();
    if field.is_array() {
        return None;
    }
    if idx0 + 1 < n && type_fields[idx0 + 1].level as u16 == level as u16 + 1 {
        loop
            invariant
                n == type_fields@.len(),
                ts == nodes_view(type_fields@),
                idx0 < n,
                level == ts[idx0 as int].level,
                idx0 <= *field_index < n,
                idx0 == *old(field_index),
                spec_calc_children(ts, level, idx0 as int, rs0 as int) == spec_calc_children(
                    ts,
                    level,
                    *field_index as int,
                    *read_size as int,
                ),
            decreases n - *field_index,
        {
            if *field_index + 1 >= n {
                break ;
            }
            let nl = type_fields[*field_index + 1].level;
            if nl as u16 == level as u16 + 1 {
                let ghost j = *field_index;
                let ghost rsb = *read_size;
                *field_index = *field_index + 1;
                let sub = calc_no_array_field_size(type_fields, field_index, read_size);
                if sub.is_none() {
                    proof {
                        assert(spec_calc(ts, j + 1, rsb as int) is None);
                        assert(spec_calc_children(ts, level, j as int, rsb as int) is None);
                    }
                    return None;
                }
                proof {
                    assert(*field_index > j);
                }
            } else if nl <= level {
                break ;
            } else {
                return None;
            }
        }
        if *field_index + 1 < n && type_fields[*field_index + 1].level as u16 > level as u16 + 1 {
            return None;
        }
    } else {
        match read_size.checked_add(field.get_byte_size() as usize) {
            Some(v) => {
                *read_size = v;
            },
            None => return None,
        }
    }
    if field.is_align() && *read_size % 4 != 0 {
        match read_size.checked_add(4 - *read_size % 4) {
            Some(v) => {
                *read_size = v;
            },
            None => return None,
        }
    }
    Some(*read_size)
}

/// Builds the layout of one fixed-size item (offsets from the item's start).
#[verifier::loop_isolation(false)]
fn item_layout(ts: &Vec<TypeTreeNode>, idx: usize, rel: usize) -> (r: Option<(Field, usize, usize)>)
    ensures
        match spec_item_layout(nodes_view(ts@), idx as int, rel as int) {
            Some((m, last, r2)) => r matches Some((f, l, q)) && f.model() == m && l == last && q
                == r2,
            None => r is None,
        },
        r matches Some((_, l, _)) ==> idx <= l < ts@.len(),
    decreases ts@.len() - idx,
{
    let ghost tv = nodes_view(ts@);
    let n = ts.len();
    if idx >= n {
        return None;
    }
    let field = &ts[idx];
    let level = field.get_level();
    if field.is_array() {
        return None;
    }
    let (f, last, r2) = if idx + 1 < n && ts[idx + 1].level as u16 == level as u16 + 1 {
        let mut fields: Vec<Field> = Vec::new();
        let mut j = idx;
        let mut r = rel;
        loop
            invariant
                n == ts@.len(),
                tv == nodes_view(ts@),
                idx < n,
                level == tv[idx as int].level,
                idx <= j < n,
                spec_item_layout_children(tv, level, idx as int, rel as int, seq![])
                    == spec_item_layout_children(tv, level, j as int, r as int, fields_model(fields@)),
            decreases n - j,
        {
            if j + 1 >= n {
                break ;
            }
            let nl = ts[j + 1].level;
            if nl as u16 == level as u16 + 1 {
                let (m, l, q) = match item_layout(ts, j + 1, r) {
                    Some(x) => x,
                    None => return None,
                };
                proof {
                    lemma_fields_model_push(fields@, m);
                }
                fields.push(m);
                j = l;
                r = q;
            } else if nl <= level {
                break ;
            } else {
                return None;
            }
        }
        if j + 1 < n && ts[j + 1].level as u16 > level as u16 + 1 {
            return None;
        }
        (Field { field_type: field.copy(), data: FieldValue::Fields(fields) }, j, r)
    } else {
        let nrel = match rel.checked_add(field.get_byte_size() as usize) {
            Some(v) => v,
            None => return None,
        };
        (
            Field {
                field_type: field.copy(),
                data: FieldValue::DataOffset(DataOffset::ArrayItemOffset(rel as u64)),
            },
            idx,
            nrel,
        )
    };
    if field.is_align() && r2 % 4 != 0 {
        match r2.checked_add(4 - r2 % 4) {
            Some(a) => Some((f, last, a)),
            None => None,
        }
    } else {
        Some((f, last, r2))
    }
}

// ---------------------------------------------------------------------------
// Reading an object
/// The last node of an array's item: the item node and every following node at
/// least as deep.
pub open spec fn item_types_end(nodes: Seq<TypeTreeNodeView>, k: int, level: u8) -> int
    decreases nodes.len() - k,
{
    if 0 <= k && k + 1 < nodes.len() && nodes[k + 1].level >= level {
        item_types_end(nodes, k + 1, level)
    } else {
        k
    }
}

/// The element count stored in an array's size field.
pub open spec fn spec_array_size(size_field: FieldModel, buf: Seq<u8>, start: int, big: bool) -> Result<
    u32,
    ReadError,
> {
    match size_field.data {
        ValueModel::Offset(DataOffset::AbsDataOffset(o)) => if size_field.node.byte_size < 4 {
            Err(ReadError::UnexpectedEof)
        } else {
            match opt_u32(buf, start + o, big) {
                Some(v) => Ok(v),
                None => Err(ReadError::UnexpectedEof),
            }
        },
        _ => Err(ReadError::InvalidValue),
    }
}

/// Reads the field described by node `i` from absolute position `pos` of `buf`, for an
/// object starting at `start`. Returns the field, the last node consumed and the
/// position after the field.
pub open spec fn spec_read_field(
    nodes: Seq<TypeTreeNodeView>,
    i: int,
    buf: Seq<u8>,
    start: int,
    pos: int,
    big: bool,
) -> Result<(FieldModel, int, int), ReadError>
    decreases nodes.len() - i, 3int, 0int,
{
    if i < 0 || i >= nodes.len() {
        Err(ReadError::NotFound)
    } else {
        let node = nodes[i];
        let body = if node.is_array() {
            spec_read_array(nodes, i, buf, start, pos, big)
        } else if i + 1 < nodes.len() && nodes[i + 1].level == node.level + 1 {
            match spec_read_children(nodes, node.level, i, buf, start, pos, big, seq![]) {
                Err(e) => Err(e),
                Ok((fs, last, p)) => Ok(
                    (FieldModel { node, data: ValueModel::Fields(fs) }, last, p),
                ),
            }
        } else {
            let n = (node.byte_size as usize) as int;
            if pos + n > buf.len() {
                Err(ReadError::UnexpectedEof)
            } else {
                Ok(
                    (
                        FieldModel {
                            node,
                            data: ValueModel::Offset(DataOffset::AbsDataOffset((pos - start) as u64)),
                        },
                        i,
                        pos + n,
                    ),
                )
            }
        };
        match body {
            Err(e) => Err(e),
            Ok((f, last, p)) => if node.is_align() {
                let q = align_up(p, 4);
                if q > usize::MAX {
                    Err(ReadError::Overflow)
                } else {
                    Ok((f, last, q))
                }
            } else {
                Ok((f, last, p))
            },
        }
    }
}

/// Reads the children of a structure at `level`, after node `j`.
pub open spec fn spec_read_children(
    nodes: Seq<TypeTreeNodeView>,
    level: u8,
    j: int,
    buf: Seq<u8>,
    start: int,
    pos: int,
    big: bool,
    acc: Seq<FieldModel>,
) -> Result<(Seq<FieldModel>, int, int), ReadError>
    decreases nodes.len() - j, 1int, 0int,
{
    if j < 0 || j + 1 >= nodes.len() {
        Ok((acc, j, pos))
    } else if nodes[j + 1].level == level + 1 {
        match spec_read_field(nodes, j + 1, buf, start, pos, big) {
            Err(e) => Err(e),
            Ok((f, last, p)) => if last <= j || last >= nodes.len() {
                Err(ReadError::InvalidValue)
            } else {
                spec_read_children(nodes, level, last, buf, start, p, big, acc.push(f))
            },
        }
    } else if nodes[j + 1].level <= level {
        Ok((acc, j, pos))
    } else {
        Err(ReadError::InvalidValue)
    }
}

/// Reads `k` more items of an array one by one.
pub open spec fn spec_read_items(
    nodes: Seq<TypeTreeNodeView>,
    item_idx: int,
    k: nat,
    buf: Seq<u8>,
    start: int,
    pos: int,
    big: bool,
    acc: Seq<FieldModel>,
    last: int,
) -> Result<(Seq<FieldModel>, int, int), ReadError>
    decreases nodes.len() - item_idx + 1, 0int, k,
{
    if k == 0 {
        Ok((acc, last, pos))
    } else if item_idx < 0 || item_idx >= nodes.len() {
        Err(ReadError::NotFound)
    } else {
        match spec_read_field(nodes, item_idx, buf, start, pos, big) {
            Err(e) => Err(e),
            Ok((f, l, p)) => spec_read_items(
                nodes,
                item_idx,
                (k - 1) as nat,
                buf,
                start,
                p,
                big,
                acc.push(f),
                l,
            ),
        }
    }
}

/// The bytes of a run of fixed-size items are read in one piece when the item
/// size is a multiple of four and the run starts aligned, or when the item is a
/// single unaligned leaf.
pub open spec fn fast_array(item_types: Seq<TypeTreeNodeView>, pos: int) -> bool {
    match spec_item_size(item_types) {
        Some(bs) => (pos % 4 == 0 && bs % 4 == 0) || (item_types.len() == 1
            && !item_types[0].is_align()),
        None => false,
    }
}

/// Reads the array described by node `i`.
pub open spec fn spec_read_array(
    nodes: Seq<TypeTreeNodeView>,
    i: int,
    buf: Seq<u8>,
    start: int,
    pos: int,
    big: bool,
) -> Result<(FieldModel, int, int), ReadError>
    decreases nodes.len() - i, 2int, 0int,
{
    if i < 0 || i + 1 >= nodes.len() {
        Err(ReadError::NotFound)
    } else {
        match spec_read_field(nodes, i + 1, buf, start, pos, big) {
            Err(e) => Err(e),
            Ok((size_field, j, p1)) => match spec_array_size(size_field, buf, start, big) {
                Err(e) => Err(e),
                Ok(size) => {
                    let item_idx = j + 1;
                    if item_idx <= i + 1 || item_idx >= nodes.len() {
                        Err(ReadError::NotFound)
                    } else {
                        let item_end = item_types_end(nodes, item_idx, nodes[item_idx].level);
                        let item_types = nodes.subrange(item_idx, item_end + 1);
                        if fast_array(item_types, p1) {
                            let bs = spec_item_size(item_types)->0;
                            let total = bs * size;
                            if p1 + total > buf.len() {
                                Err(ReadError::UnexpectedEof)
                            } else {
                                match spec_item_layout(item_types, 0, 0) {
                                    None => Err(ReadError::InvalidValue),
                                    Some((item, _, _)) => Ok(
                                        (
                                            FieldModel {
                                                node: nodes[i],
                                                data: ValueModel::Array {
                                                    size: Box::new(size_field),
                                                    item_types,
                                                    item: Some(Box::new(item)),
                                                    item_size: Some(bs as u64),
                                                    data: ArrayDataModel::Offset(
                                                        DataOffset::AbsDataOffset((p1 - start) as u64),
                                                    ),
                                                },
                                            },
                                            item_end,
                                            p1 + total,
                                        ),
                                    ),
                                }
                            }
                        } else {
                            match spec_read_items(
                                nodes,
                                item_idx,
                                size as nat,
                                buf,
                                start,
                                p1,
                                big,
                                seq![],
                                item_end,
                            ) {
                                Err(e) => Err(e),
                                Ok((items, l, p)) => Ok(
                                    (
                                        FieldModel {
                                            node: nodes[i],
                                            data: ValueModel::Array {
                                                size: Box::new(size_field),
                                                item_types,
                                                item: None,
                                                item_size: None,
                                                data: ArrayDataModel::Items(items),
                                            },
                                        },
                                        l,
                                        p,
                                    ),
                                ),
                            }
                        }
                    }
                },
            },
        }
    }
}

fn array_size_of(size_field: &Field, buf: &[u8], start: usize, big: bool) -> (r: Result<
    u32,
    ReadError,
>)
    ensures
        match spec_array_size(size_field.model(), buf@, start as int, big) {
            Ok(v) => r == Ok::<u32, ReadError>(v),
            Err(e) => r matches Err(f) && f == e,
        },
{
    match &size_field.data {
        FieldValue::DataOffset(DataOffset::AbsDataOffset(o)) => {
            let bsz = size_field.field_type.get_byte_size();
            assert(bsz == size_field.model().node.byte_size);
            if bsz < 4 {
                return Err(ReadError::UnexpectedEof);
            }
            let blen = buf.len();
            if *o > usize::MAX as u64 || (*o as usize) > blen || start > blen - (*o as usize) {
                return Err(ReadError::UnexpectedEof);
            }
            match read_u32(buf, start + *o as usize, big) {
                Some(v) => Ok(v),
                None => Err(ReadError::UnexpectedEof),
            }
        },
        _ => Err(ReadError::InvalidValue),
    }
}

/// The last node of an array item, exec version of `item_types_end`.
fn find_item_types_end(nodes: &Vec<TypeTreeNode>, item_idx: usize, level: u8) -> (r: usize)
    requires
        item_idx < nodes@.len(),
    ensures
        r == item_types_end(nodes_view(nodes@), item_idx as int, level),
        item_idx <= r < nodes@.len(),
{
    let ghost nv = nodes_view(nodes@);
    let n = nodes.len();
    let mut k = item_idx;
    while k < n - 1 && nodes[k + 1].level >= level
        invariant
            nv == nodes_view(nodes@),
            n == nodes@.len(),
            item_idx <= k < nodes@.len(),
            item_types_end(nv, item_idx as int, level) == item_types_end(nv, k as int, level),
        decreases nodes@.len() - k,
    {
        k = k + 1;
    }
    k
}

/// Copies `nodes[from..=to]`.
fn copy_node_range(nodes: &Vec<TypeTreeNode>, from: usize, to: usize) -> (r: Vec<TypeTreeNode>)
    requires
        from <= to < nodes@.len(),
    ensures
        nodes_view(r@) == nodes_view(nodes@).subrange(from as int, to + 1),
{
    let mut out: Vec<TypeTreeNode> = Vec::new();
    let n = nodes.len();
    let mut k = from;
    while k <= to
        invariant
            from <= k <= to + 1,
            to < nodes@.len(),
            n == nodes@.len(),
            nodes_view(out@) == nodes_view(nodes@).subrange(from as int, k as int),
        decreases to + 1 - k,
    {
        let ghost old_out = out@;
        out.push(nodes[k].copy());
        proof {
            assert(nodes_view(out@) =~= nodes_view(old_out).push(nodes@[k as int]@));
            assert(nodes_view(nodes@).subrange(from as int, k + 1) =~= nodes_view(nodes@).subrange(
                from as int,
                k as int,
            ).push(nodes@[k as int]@));
        }
        k = k + 1;
    }
    out
}

/// Exec version of `spec_read_field`.
#[verifier::loop_isolation(false)]
pub fn read_field(
    nodes: &Vec<TypeTreeNode>,
    i: usize,
    buf: &[u8],
    start: usize,
    pos: usize,
    big: bool,
) -> (r: Result<(Field, usize, usize), ReadError>)
    requires
        start <= pos,
    ensures
        match spec_read_field(nodes_view(nodes@), i as int, buf@, start as int, pos as int, big) {
            Ok((m, last, p)) => r matches Ok((f, l, q)) && f.model() == m && l == last && q == p,
            Err(e) => r matches Err(f) && f == e,
        },
        r matches Ok((_, l, q)) ==> i <= l < nodes@.len() && pos <= q,
    decreases nodes@.len() - i, 3int, 0int,
{
    let ghost nv = nodes_view(nodes@);
    let n = nodes.len();
    if i >= n {
        return Err(ReadError::NotFound);
    }
    let node = &nodes[i];
    let level = node.get_level();
    let (f, last, p) = if node.is_array() {
        read_array(nodes, i, buf, start, pos, big)?
    } else if i + 1 < n && nodes[i + 1].level as u16 == level as u16 + 1 {
        let mut fields: Vec<Field> = Vec::new();
        let mut j = i;
        let mut p = pos;
        loop
            invariant
                n == nodes@.len(),
                nv == nodes_view(nodes@),
                i < n,
                level == nv[i as int].level,
                i <= j < n,
                start <= pos <= p,
                spec_read_children(nv, level, i as int, buf@, start as int, pos as int, big, seq![])
                    == spec_read_children(
                    nv,
                    level,
                    j as int,
                    buf@,
                    start as int,
                    p as int,
                    big,
                    fields_model(fields@),
                ),
            decreases n - j,
        {
            if j + 1 >= n {
                break ;
            }
            let nl = nodes[j + 1].level;
            if nl as u16 == level as u16 + 1 {
                let (m, l, q) = match read_field(nodes, j + 1, buf, start, p, big) {
                    Ok(x) => x,
                    Err(e) => {
                        proof {
                            assert(spec_read_children(nv, level, j as int, buf@, start as int, p as int, big, fields_model(fields@)) == Err::<(Seq<FieldModel>, int, int), ReadError>(e));
                        }
                        return Err(e);
                    },
                };
                proof {
                    lemma_fields_model_push(fields@, m);
                }
                fields.push(m);
                j = l;
                p = q;
            } else if nl <= level {
                break ;
            } else {
                return Err(ReadError::InvalidValue);
            }
        }
        if j + 1 < n && nodes[j + 1].level as u16 > level as u16 + 1 {
            return Err(ReadError::InvalidValue);
        }
        (Field { field_type: node.copy(), data: FieldValue::Fields(fields) }, j, p)
    } else {
        let len = node.get_byte_size() as usize;
        if !has_bytes(buf.len(), pos, len) {
            return Err(ReadError::UnexpectedEof);
        }
        (
            Field {
                field_type: node.copy(),
                data: FieldValue::DataOffset(DataOffset::AbsDataOffset((pos - start) as u64)),
            },
            i,
            pos + len,
        )
    };
    if node.is_align() {
        match align_up_exec(p, 4) {
            Some(q) => Ok((f, last, q)),
            None => Err(ReadError::Overflow),
        }
    } else {
        Ok((f, last, p))
    }
}

/// Exec version of `spec_read_array`.
#[verifier::loop_isolation(false)]
fn read_array(nodes: &Vec<TypeTreeNode>, i: usize, buf: &[u8], start: usize, pos: usize, big: bool) -> (r:
    Result<(Field, usize, usize), ReadError>)
    requires
        start <= pos,
    ensures
        match spec_read_array(nodes_view(nodes@), i as int, buf@, start as int, pos as int, big) {
            Ok((m, last, p)) => r matches Ok((f, l, q)) && f.model() == m && l == last && q == p,
            Err(e) => r matches Err(f) && f == e,
        },
        r matches Ok((_, l, q)) ==> i <= l < nodes@.len() && pos <= q,
    decreases nodes@.len() - i, 2int, 0int,
{
    let ghost nv = nodes_view(nodes@);
    let n = nodes.len();
    if i >= n || i + 1 >= n {
        return Err(ReadError::NotFound);
    }
    let (size_field, j, p1) = read_field(nodes, i + 1, buf, start, pos, big)?;
    let size = array_size_of(&size_field, buf, start, big)?;
    let item_idx = j + 1;
    if item_idx >= n {
        return Err(ReadError::NotFound);
    }
    let item_level = nodes[item_idx].level;
    let item_end = find_item_types_end(nodes, item_idx, item_level);
    let item_types = copy_node_range(nodes, item_idx, item_end);
    let ghost it = nodes_view(item_types@);
    let mut fi: usize = 0;
    let mut rs: usize = 0;
    let fix = calc_no_array_field_size(&item_types, &mut fi, &mut rs);
    let fast = match fix {
        Some(bs) => (p1 % 4 == 0 && bs % 4 == 0) || (item_types.len() == 1
            && !item_types[0].is_align()),
        None => false,
    };
    assert(fast == fast_array(it, p1 as int));
    if fast {
        let bs = fix.unwrap();
        let total = match bs.checked_mul(size as usize) {
            Some(t) => t,
            None => {
                let blen = buf.len();
                proof {
                    assert(buf@.len() <= usize::MAX);
                    assert(bs * size > usize::MAX);
                    assert(bs * size >= 0) by (nonlinear_arith)
                        requires
                            bs >= 0,
                            size >= 0,
                    ;
                }
                return Err(ReadError::UnexpectedEof);
            },
        };
        if !has_bytes(buf.len(), p1, total) {
            return Err(ReadError::UnexpectedEof);
        }
        let (item, _l, _q) = match item_layout(&item_types, 0, 0) {
            Some(x) => x,
            None => return Err(ReadError::InvalidValue),
        };
        let af = ArrayField {
            array_size: size_field,
            item_type_fields: item_types,
            item_field: Some(item),
            item_field_size: Some(bs as u64),
            data: ArrayFieldValue::DataOffset(DataOffset::AbsDataOffset((p1 - start) as u64)),
        };
        let f = Field { field_type: nodes[i].copy(), data: FieldValue::Array(Box::new(af)) };
        Ok((f, item_end, p1 + total))
    } else {
        let mut items: Vec<Field> = Vec::new();
        let mut k: u32 = 0;
        let mut last = item_end;
        let mut p = p1;
        while k < size
            invariant
                n == nodes@.len(),
                nv == nodes_view(nodes@),
                i + 1 < item_idx < n,
                item_idx <= item_end < n,
                i <= last < n,
                start <= pos <= p1 <= p,
                k <= size,
                spec_read_items(
                    nv,
                    item_idx as int,
                    size as nat,
                    buf@,
                    start as int,
                    p1 as int,
                    big,
                    seq![],
                    item_end as int,
                ) == spec_read_items(
                    nv,
                    item_idx as int,
                    (size - k) as nat,
                    buf@,
                    start as int,
                    p as int,
                    big,
                    fields_model(items@),
                    last as int,
                ),
            decreases size - k,
        {
            let (m, l, q) = match read_field(nodes, item_idx, buf, start, p, big) {
                Ok(x) => x,
                Err(e) => {
                    proof {
                        assert(spec_read_items(nv, item_idx as int, (size - k) as nat, buf@, start as int, p as int, big, fields_model(items@), last as int) == Err::<(Seq<FieldModel>, int, int), ReadError>(e));
                    }
                    return Err(e);
                },
            };
            proof {
                lemma_fields_model_push(items@, m);
            }
            items.push(m);
            last = l;
            p = q;
            k = k + 1;
        }
        let af = ArrayField {
            array_size: size_field,
            item_type_fields: item_types,
            item_field: None,
            item_field_size: None,
            data: ArrayFieldValue::ArrayItems(items),
        };
        let f = Field { field_type: nodes[i].copy(), data: FieldValue::Array(Box::new(af)) };
        Ok((f, last, p))
    }
}

} // verus!
