//! Type trees: the flattened descriptions of an object's fields, and the field
//! layout of one object read through such a description.
use std::sync::Arc;
use vstd::prelude::*;
use vstd::utf8::encode_utf8;

use self::convert::{spec_cast_i32, spec_data_pos, CastError, FieldCastArgs, TryCast};
use self::reader::{read_field, spec_read_field, TypeTreeObjectBinReadArgs};
use crate::binary::copy_range;
use crate::error::ReadError;
use crate::text::{parse_i32, spec_parse_i32, split_path, path_components, strings_view};
use crate::until::Endian;

pub mod attr;
pub mod convert;
pub mod display;
pub mod layout_laws;
pub mod reader;
pub mod type_tree_json;

verus! {

/// One node of a type tree. A tree is stored flattened in pre-order; a node's
/// depth is its `level`.
#[derive(Debug, Clone, PartialEq, Eq)]
pub struct TypeTreeNode {
    pub version: u16,
    pub level: u8,
    pub type_flags: i32,
    pub type_string: String,
    pub name: String,
    pub byte_size: i32,
    pub index: i32,
    pub meta_flag: i32,
    pub ref_type_hash: Option<u64>,
}

pub struct TypeTreeNodeView {
    pub version: u16,
    pub level: u8,
    pub type_flags: i32,
    pub type_string: Seq<char>,
    pub name: Seq<char>,
    pub byte_size: i32,
    pub index: i32,
    pub meta_flag: i32,
    pub ref_type_hash: Option<u64>,
}

impl TypeTreeNodeView {
    /// Flag bit 0 marks an array node.
    pub open spec fn is_array(self) -> bool {
        self.type_flags & 1 > 0
    }

    /// Meta flag 0x4000 asks for 4-byte alignment after the field.
    pub open spec fn is_align(self) -> bool {
        self.meta_flag & 0x4000 > 0
    }
}

impl View for TypeTreeNode {
    type V = TypeTreeNodeView;

    open spec fn view(&self) -> TypeTreeNodeView {
        TypeTreeNodeView {
            version: self.version,
            level: self.level,
            type_flags: self.type_flags,
            type_string: self.type_string@,
            name: self.name@,
            byte_size: self.byte_size,
            index: self.index,
            meta_flag: self.meta_flag,
            ref_type_hash: self.ref_type_hash,
        }
    }
}

pub open spec fn nodes_view(v: Seq<TypeTreeNode>) -> Seq<TypeTreeNodeView> {
    v.map_values(|n: TypeTreeNode| n@)
}

/// The accessors every type tree node offers.
pub trait TypeField {
    fn get_version(&self) -> u16;

    fn get_level(&self) -> u8;

    fn is_array(&self) -> bool;

    fn get_byte_size(&self) -> i32;

    fn get_index(&self) -> i32;

    fn get_meta_flag(&self) -> i32;

    fn is_align(&self) -> bool;

    fn get_ref_type_hash(&self) -> Option<u64>;

    fn get_type(&self) -> &String;

    fn get_name(&self) -> &String;
}

impl TypeField for TypeTreeNode {
    fn get_version(&self) -> (r: u16)
        ensures
            r == self.version,
    {
        self.version
    }

    fn get_level(&self) -> (r: u8)
        ensures
            r == self.level,
    {
        self.level
    }

    fn is_array(&self) -> (r: bool)
        ensures
            r == self@.is_array(),
    {
        self.type_flags & 1 > 0
    }

    fn get_byte_size(&self) -> (r: i32)
        ensures
            r == self.byte_size,
    {
        self.byte_size
    }

    fn get_index(&self) -> (r: i32)
        ensures
            r == self.index,
    {
        self.index
    }

    fn get_meta_flag(&self) -> (r: i32)
        ensures
            r == self.meta_flag,
    {
        self.meta_flag
    }

    fn is_align(&self) -> (r: bool)
        ensures
            r == self@.is_align(),
    {
        self.meta_flag & 0x4000 > 0
    }

    fn get_ref_type_hash(&self) -> (r: Option<u64>)
        ensures
            r == self.ref_type_hash,
    {
        self.ref_type_hash
    }

    fn get_type(&self) -> (r: &String)
        ensures
            r@ == self.type_string@,
    {
        &self.type_string
    }

    fn get_name(&self) -> (r: &String)
        ensures
            r@ == self.name@,
    {
        &self.name
    }
}

impl TypeTreeNode {
    /// A field-by-field copy.
    pub fn copy(&self) -> (r: TypeTreeNode)
        ensures
            r@ == self@,
    {
        TypeTreeNode {
            version: self.version,
            level: self.level,
            type_flags: self.type_flags,
            type_string: self.type_string.clone(),
            name: self.name.clone(),
            byte_size: self.byte_size,
            index: self.index,
            meta_flag: self.meta_flag,
            ref_type_hash: self.ref_type_hash,
        }
    }
}

/// Copies a list of nodes.
pub fn copy_nodes(v: &Vec<TypeTreeNode>) -> (r: Vec<TypeTreeNode>)
    ensures
        nodes_view(r@) == nodes_view(v@),
{
    let mut out: Vec<TypeTreeNode> = Vec::new();
    let mut i: usize = 0;
    while i < v.len()
        invariant
            i <= v@.len(),
            nodes_view(out@) == nodes_view(v@).take(i as int),
        decreases v.len() - i,
    {
        let ghost old_out = out@;
        out.push(v[i].copy());
        proof {
            assert(nodes_view(out@) =~= nodes_view(old_out).push(v@[i as int]@));
            assert(nodes_view(v@).take(i + 1) =~= nodes_view(v@).take(i as int).push(v@[i as int]@));
        }
        i = i + 1;
    }
    assert(nodes_view(v@).take(v@.len() as int) =~= nodes_view(v@));
    out
}

/// Where a field's bytes lie: from the start of the object, or (inside an array
/// item) from the start of the item.
#[derive(Debug, Clone, Copy, PartialEq, Eq, Structural)]
pub enum DataOffset {
    AbsDataOffset(u64),
    ArrayItemOffset(u64),
}

/// The contents of a field: bytes of its own, named sub-fields, or an array.
#[derive(Debug)]
pub enum FieldValue {
    DataOffset(DataOffset),
    /// The sub-fields in the order they were read; a later sub-field with the
    /// same name shadows an earlier one.
    Fields(Vec<Field>),
    Array(Box<ArrayField>),
}

/// An array field: its size field, the node list of one item, and either the
/// offset of a run of fixed-size items or the items read one by one.
#[derive(Debug)]
pub struct ArrayField {
    pub array_size: Field,
    pub item_type_fields: Vec<TypeTreeNode>,
    pub item_field: Option<Field>,
    pub item_field_size: Option<u64>,
    pub data: ArrayFieldValue,
}

#[derive(Debug)]
pub enum ArrayFieldValue {
    DataOffset(DataOffset),
    ArrayItems(Vec<Field>),
}

/// One field of an object's layout.
#[derive(Debug)]
pub struct Field {
    pub field_type: TypeTreeNode,
    pub data: FieldValue,
}

// ---------------------------------------------------------------------------
// Mathematical model of a layout
pub enum ValueModel {
    Offset(DataOffset),
    Fields(Seq<FieldModel>),
    Array {
        size: Box<FieldModel>,
        item_types: Seq<TypeTreeNodeView>,
        item: Option<Box<FieldModel>>,
        item_size: Option<u64>,
        data: ArrayDataModel,
    },
}

pub enum ArrayDataModel {
    Offset(DataOffset),
    Items(Seq<FieldModel>),
}

pub struct FieldModel {
    pub node: TypeTreeNodeView,
    pub data: ValueModel,
}

impl Field {
    pub open spec fn model(&self) -> FieldModel
        decreases self,
    {
        FieldModel {
            node: self.field_type@,
            data: match &self.data {
                FieldValue::DataOffset(o) => ValueModel::Offset(*o),
                FieldValue::Fields(v) => ValueModel::Fields(fields_model(v@)),
                FieldValue::Array(a) => ValueModel::Array {
                    size: Box::new(a.array_size.model()),
                    item_types: nodes_view(a.item_type_fields@),
                    item: match &a.item_field {
                        Some(f) => Some(Box::new(f.model())),
                        None => None,
                    },
                    item_size: a.item_field_size,
                    data: match &a.data {
                        ArrayFieldValue::DataOffset(o) => ArrayDataModel::Offset(*o),
                        ArrayFieldValue::ArrayItems(v) => ArrayDataModel::Items(fields_model(v@)),
                    },
                },
            },
        }
    }
}

pub open spec fn fields_model(v: Seq<Field>) -> Seq<FieldModel>
    decreases v,
{
    if v.len() == 0 {
        seq![]
    } else {
        fields_model(v.drop_last()).push(v.last().model())
    }
}


pub proof fn lemma_fields_model_index(v: Seq<Field>, k: int)
    requires
        0 <= k < v.len(),
    ensures
        fields_model(v).len() == v.len(),
        fields_model(v)[k] == v[k].model(),
    decreases v.len(),
{
    if k < v.len() - 1 {
        lemma_fields_model_index(v.drop_last(), k);
    } else {
        lemma_fields_model_len(v.drop_last());
    }
}

pub proof fn lemma_fields_model_len(v: Seq<Field>)
    ensures
        fields_model(v).len() == v.len(),
    decreases v.len(),
{
    if v.len() > 0 {
        lemma_fields_model_len(v.drop_last());
    }
}

// ---------------------------------------------------------------------------
// Looking fields up
/// Index of the last field named `name` (a later field shadows an earlier one).
pub open spec fn last_named(v: Seq<Field>, name: Seq<char>) -> Option<int>
    decreases v.len(),
{
    if v.len() == 0 {
        None
    } else if v.last().field_type.name@ == name {
        Some(v.len() - 1)
    } else {
        last_named(v.drop_last(), name)
    }
}

pub proof fn lemma_last_named_bounds(v: Seq<Field>, name: Seq<char>)
    ensures
        last_named(v, name) matches Some(k) ==> 0 <= k < v.len(),
    decreases v.len(),
{
    if v.len() > 0 {
        lemma_last_named_bounds(v.drop_last(), name);
    }
}

/// Exec version of `last_named`.
pub fn find_last_named(v: &Vec<Field>, name: &String) -> (r: Option<usize>)
    ensures
        match last_named(v@, name@) {
            Some(k) => r == Some(k as usize),
            None => r is None,
        },
{
    let mut i = v.len();
    assert(v@.take(i as int) =~= v@);
    while i > 0
        invariant
            i <= v@.len(),
            last_named(v@, name@) == last_named(v@.take(i as int), name@),
        decreases i,
    {
        proof {
            assert(v@.take(i as int).drop_last() =~= v@.take(i - 1));
        }
        if v[i - 1].field_type.name == *name {
            return Some(i - 1);
        }
        i = i - 1;
    }
    None
}

/// The bytes of a field: where they start and end in the object's bytes.
pub open spec fn spec_slice_range(m: FieldModel, buff: Seq<u8>, args: FieldCastArgs) -> Option<
    (int, int),
> {
    let r: Option<(int, int)> = match m.data {
        ValueModel::Offset(d) => match spec_data_pos(d, args) {
            Ok(p) => Some((p, (m.node.byte_size as u64) as int)),
            Err(_) => None,
        },
        ValueModel::Array { size, item_size, data, .. } => match data {
            ArrayDataModel::Offset(DataOffset::AbsDataOffset(x)) => match spec_cast_i32(
                *size,
                buff,
                args,
            ) {
                Err(_) => None,
                Ok(n) => if n < 0 {
                    None
                } else {
                    match item_size {
                        None => None,
                        Some(isz) => if isz * n > u64::MAX {
                            None
                        } else {
                            Some((x as int, isz * n))
                        },
                    }
                },
            },
            _ => None,
        },
        _ => None,
    };
    match r {
        None => None,
        Some((p, len)) => if p + len > u64::MAX || p + len > buff.len() {
            None
        } else {
            Some((p, p + len))
        },
    }
}

/// The field reached from `f` along `path`, and the item offset in force there.
/// Structure members are named; array items are numbered.
pub open spec fn spec_field_at(
    f: Field,
    path: Seq<Seq<char>>,
    off: Option<i64>,
    buff: Seq<u8>,
    endian: Endian,
) -> Option<(Field, Option<i64>)>
    decreases path.len(),
{
    if path.len() == 0 {
        Some((f, off))
    } else {
        match f.data {
            FieldValue::Fields(v) => match last_named(v@, path[0]) {
                Some(k) => spec_field_at(v@[k], path.drop_first(), off, buff, endian),
                None => None,
            },
            FieldValue::Array(a) => match spec_parse_i32(encode_utf8(path[0])) {
                None => None,
                Some(index) => match a.data {
                    ArrayFieldValue::DataOffset(d) => if off is Some {
                        None
                    } else {
                        match (a.item_field_size, a.item_field) {
                            (Some(isz), Some(item)) => match d {
                                DataOffset::AbsDataOffset(o) => match spec_cast_i32(
                                    a.array_size.model(),
                                    buff,
                                    FieldCastArgs { endian, field_offset: None },
                                ) {
                                    Ok(size) => if size <= index {
                                        None
                                    } else {
                                        let v = o + isz * ((index as u64) as int);
                                        if v > u64::MAX {
                                            None
                                        } else {
                                            spec_field_at(
                                                item,
                                                path.drop_first(),
                                                Some((v as u64) as i64),
                                                buff,
                                                endian,
                                            )
                                        }
                                    },
                                    Err(_) => None,
                                },
                                _ => None,
                            },
                            _ => None,
                        }
                    },
                    ArrayFieldValue::ArrayItems(items) => {
                        let k = (index as usize) as int;
                        if k < items@.len() {
                            spec_field_at(items@[k], path.drop_first(), off, buff, endian)
                        } else {
                            None
                        }
                    },
                },
            },
            _ => None,
        }
    }
}

/// What `try_get_buff_type_and_type_size` reports: the item type name and size of an
/// array stored as one run of single-value items.
pub open spec fn spec_buff_type_and_size(f: Field) -> Option<(Seq<char>, i32)> {
    match f.data {
        FieldValue::Array(a) => match a.data {
            ArrayFieldValue::DataOffset(_) => match a.item_field {
                Some(item) => match item.data {
                    FieldValue::DataOffset(_) => Some(
                        (item.field_type.type_string@, item.field_type.byte_size),
                    ),
                    _ => None,
                },
                None => None,
            },
            _ => None,
        },
        _ => None,
    }
}

impl Field {
    /// The field's name.
    pub fn get_name(&self) -> (r: &String)
        ensures
            r@ == self.field_type.name@,
    {
        self.field_type.get_name()
    }

    /// The field's type name.
    pub fn get_type(&self) -> (r: &String)
        ensures
            r@ == self.field_type.type_string@,
    {
        self.field_type.get_type()
    }

    /// The bytes of this field, or of this array's run of items.
    pub fn try_as_slice<'a>(&self, object_data_buff: &'a [u8], field_cast_args: &FieldCastArgs) -> (r:
        Result<&'a [u8], ()>)
        ensures
            match spec_slice_range(self.model(), object_data_buff@, *field_cast_args) {
                Some((a, b)) => r matches Ok(s) && s@ == object_data_buff@.subrange(a, b),
                None => r is Err,
            },
    {
        let (pos, size): (u64, u64) = match &self.data {
            FieldValue::DataOffset(d) => {
                let pos = match convert::data_pos(d, field_cast_args) {
                    Ok(p) => p,
                    Err(_) => return Err(()),
                };
                (pos, self.field_type.get_byte_size() as u64)
            },
            FieldValue::Array(array) => match &array.data {
                ArrayFieldValue::DataOffset(data_offset) => {
                    let pos = match data_offset {
                        DataOffset::AbsDataOffset(x) => *x,
                        DataOffset::ArrayItemOffset(_) => return Err(()),
                    };
                    let array_size: i32 = match array.array_size.try_cast_to(
                        object_data_buff,
                        field_cast_args,
                    ) {
                        Ok(v) => v,
                        Err(_) => return Err(()),
                    };
                    if array_size < 0 {
                        return Err(());
                    }
                    let isz = match array.item_field_size {
                        Some(v) => v,
                        None => return Err(()),
                    };
                    let size = match isz.checked_mul(array_size as u64) {
                        Some(v) => v,
                        None => return Err(()),
                    };
                    (pos, size)
                },
                ArrayFieldValue::ArrayItems(_) => return Err(()),
            },
            FieldValue::Fields(_) => return Err(()),
        };
        let end = match pos.checked_add(size) {
            Some(e) => e,
            None => return Err(()),
        };
        let len = object_data_buff.len();
        if end > len as u64 {
            return Err(());
        }
        Ok(vstd::slice::slice_subrange(object_data_buff, pos as usize, end as usize))
    }

    /// For an array stored as one run of single-value items: the item type name and size.
    pub fn try_get_buff_type_and_type_size(&self) -> (r: Option<(&String, i32)>)
        ensures
            match spec_buff_type_and_size(*self) {
                Some((t, n)) => r matches Some((s, m)) && s@ == t && m == n,
                None => r is None,
            },
    {
        if let FieldValue::Array(ar) = &self.data {
            if let ArrayFieldValue::DataOffset(_) = &ar.data {
                if let Some(item_field) = &ar.item_field {
                    if let FieldValue::DataOffset(_) = &item_field.data {
                        let item_type = &item_field.field_type;
                        return Some((item_type.get_type(), item_type.get_byte_size()));
                    }
                }
            }
        }
        None
    }

    /// The field reached along `path` (member names and item numbers), with the item
    /// offset in force there.
    pub fn get_field<'a>(
        &'a self,
        path: &[String],
        field_offset: Option<i64>,
        type_tree_object: &TypeTreeObject,
    ) -> (r: Option<(&'a Field, Option<i64>)>)
        ensures
            match spec_field_at(
                *self,
                strings_view(path@),
                field_offset,
                type_tree_object.data(),
                type_tree_object.endian(),
            ) {
                Some((g, o)) => r matches Some((h, p)) && *h == g && p == o,
                None => r is None,
            },
        decreases path@.len(),
    {
        if path.len() == 0 {
            return Some((self, field_offset));
        }
        let ghost pv = strings_view(path@);
        let rest = vstd::slice::slice_subrange(path, 1, path.len());
        assert(strings_view(rest@) =~= pv.drop_first());
        assert(pv[0] == path@[0]@);
        match &self.data {
            FieldValue::Fields(fields) => {
                proof {
                    lemma_last_named_bounds(fields@, pv[0]);
                }
                match find_last_named(fields, &path[0]) {
                    Some(k) => {
                        let ghost kk = last_named(fields@, pv[0])->0;
                        assert(k == kk as usize && 0 <= kk < fields.len());
                        fields[k].get_field(rest, field_offset, type_tree_object)
                    },
                    None => None,
                }
            },
            FieldValue::Array(arr) => {
                let index = match parse_i32(&path[0]) {
                    Some(i) => i,
                    None => return None,
                };
                match &arr.data {
                    ArrayFieldValue::DataOffset(offset) => {
                        if field_offset.is_some() {
                            return None;
                        }
                        let item_size = match arr.item_field_size {
                            Some(v) => v,
                            None => return None,
                        };
                        let field = match &arr.item_field {
                            Some(f) => f,
                            None => return None,
                        };
                        let o = match offset {
                            DataOffset::AbsDataOffset(o) => *o,
                            _ => return None,
                        };
                        let size: i32 = match arr.array_size.try_cast_to(
                            type_tree_object.data_buff.as_slice(),
                            &type_tree_object.get_field_cast_args(),
                        ) {
                            Ok(v) => v,
                            Err(_) => return None,
                        };
                        if size <= index {
                            return None;
                        }
                        let step = match item_size.checked_mul(index as u64) {
                            Some(v) => v,
                            None => return None,
                        };
                        let v = match o.checked_add(step) {
                            Some(v) => v,
                            None => return None,
                        };
                        field.get_field(rest, Some(v as i64), type_tree_object)
                    },
                    ArrayFieldValue::ArrayItems(items) => {
                        let k = index as usize;
                        if k < items.len() {
                            items[k].get_field(rest, field_offset, type_tree_object)
                        } else {
                            None
                        }
                    },
                }
            },
            _ => None,
        }
    }
}

// ---------------------------------------------------------------------------
// Objects
/// One object read through its type tree: the layout of its fields and its bytes.
#[derive(Debug)]
pub struct TypeTreeObject {
    endian: Endian,
    pub class_id: i32,
    pub serialized_file_id: i64,
    data_layout: Field,
    data_buff: Vec<u8>,
    pub external_data: Option<Vec<u8>>,
}

/// Reading an object from absolute position `start` of `buf`: the layout of the
/// root field and the position after the object.
pub open spec fn spec_read_object(
    nodes: Seq<TypeTreeNodeView>,
    buf: Seq<u8>,
    start: int,
    big: bool,
) -> Result<(FieldModel, int), ReadError> {
    if start > buf.len() {
        Err(ReadError::UnexpectedEof)
    } else {
        match spec_read_field(nodes, 0, buf, start, start, big) {
            Err(e) => Err(e),
            Ok((m, _, end)) => Ok((m, end)),
        }
    }
}

/// The bytes of an object read from `start` to `end`, as far as the buffer goes.
pub open spec fn object_bytes(buf: Seq<u8>, start: int, end: int) -> Seq<u8> {
    buf.subrange(
        start,
        if end <= buf.len() {
            end
        } else {
            buf.len() as int
        },
    )
}

impl TypeTreeObject {
    pub closed spec fn endian(&self) -> Endian {
        self.endian
    }

    /// The object's bytes; field offsets count from their start.
    pub closed spec fn data(&self) -> Seq<u8> {
        self.data_buff@
    }

    pub closed spec fn layout(&self) -> Field {
        self.data_layout
    }

    pub closed spec fn spec_class_id(&self) -> i32 {
        self.class_id
    }

    pub closed spec fn spec_serialized_file_id(&self) -> i64 {
        self.serialized_file_id
    }

    pub closed spec fn spec_external_data(&self) -> Option<Seq<u8>> {
        match self.external_data {
            Some(v) => Some(v@),
            None => None,
        }
    }

    /// Reads an object that starts at absolute position `start` of `buf`. Returns it
    /// with the position after it; its bytes are those from `start` to there (as far as
    /// the buffer goes).
    pub fn read_options(
        buf: &[u8],
        start: usize,
        endian: Endian,
        args: &TypeTreeObjectBinReadArgs,
    ) -> (r: Result<(TypeTreeObject, usize), ReadError>)
        ensures
            match spec_read_object(args.type_fields(), buf@, start as int, endian.spec_is_big()) {
                Ok((m, end)) => r matches Ok((o, e)) && e == end && start <= end && o.layout().model()
                    == m && o.data() == object_bytes(buf@, start as int, end) && o.endian() == endian && o.spec_class_id() == args.class_id()
                    && o.spec_serialized_file_id() == args.serialized_file_id()
                    && o.spec_external_data() is None,
                Err(e) => r matches Err(f) && f == e,
            },
    {
        proof {
            args.lemma_fields();
        }
        if start > buf.len() {
            return Err(ReadError::UnexpectedEof);
        }
        let (data, _last, end) = match read_field(
            &args.class_args.type_fields,
            0,
            buf,
            start,
            start,
            endian.is_big(),
        ) {
            Ok(t) => t,
            Err(e) => return Err(e),
        };
        let stop = if end <= buf.len() {
            end
        } else {
            buf.len()
        };
        let data_buff = copy_range(buf, start, stop);
        Ok(
            (
                TypeTreeObject {
                    endian,
                    class_id: args.class_args.class_id,
                    serialized_file_id: args.serialized_file_id,
                    data_layout: data,
                    data_buff,
                    external_data: None,
                },
                end,
            ),
        )
    }

    /// Records the bytes of the object that its type tree does not cover.
    pub fn set_external_data(&mut self, data: Vec<u8>)
        ensures
            final(self).spec_external_data() == Some(data@),
            final(self).data() == old(self).data(),
            final(self).layout() == old(self).layout(),
            final(self).endian() == old(self).endian(),
            final(self).spec_class_id() == old(self).spec_class_id(),
            final(self).spec_serialized_file_id() == old(self).spec_serialized_file_id(),
    {
        self.external_data = Some(data);
    }

    pub fn get_endian(&self) -> (r: Endian)
        ensures
            r == self.endian(),
    {
        self.endian
    }

    /// The id of the serialized file the object was read from.
    pub fn get_serialized_file_id(&self) -> (r: i64)
        ensures
            r == self.spec_serialized_file_id(),
    {
        self.serialized_file_id
    }

    pub fn get_class_id(&self) -> (r: i32)
        ensures
            r == self.spec_class_id(),
    {
        self.class_id
    }

    /// The object's bytes.
    pub fn get_data_buff(&self) -> (r: &Vec<u8>)
        ensures
            r@ == self.data(),
    {
        &self.data_buff
    }

    /// The root field of the object's layout.
    pub fn get_data_layout(&self) -> (r: &Field)
        ensures
            *r == self.layout(),
    {
        &self.data_layout
    }

    /// Cast arguments for fields outside array items.
    pub fn get_field_cast_args(&self) -> (r: FieldCastArgs)
        ensures
            r == (FieldCastArgs { endian: self.endian(), field_offset: None }),
    {
        FieldCastArgs { endian: self.endian, field_offset: None }
    }

    /// The field named by a `/`-separated path whose first component names the root.
    pub fn get_field_by_path(&self, path: &str) -> (r: Option<(&Field, Option<i64>)>)
        ensures
            ({
                let comps = path_components(path@);
                if comps.len() < 1 {
                    r is None
                } else {
                    match spec_field_at(self.layout(), comps.drop_first(), None, self.data(), self.endian()) {
                        Some((g, o)) => r matches Some((h, p)) && *h == g && p == o,
                        None => r is None,
                    }
                }
            }),
    {
        let comps = split_path(path);
        if comps.len() < 1 {
            return None;
        }
        let rest = vstd::slice::slice_subrange(comps.as_slice(), 1, comps.len());
        assert(strings_view(rest@) =~= strings_view(comps@).drop_first());
        self.data_layout.get_field(rest, None, self)
    }

    /// The field at a path of components below the root (the root for an empty path).
    pub fn get_field_by_path_list(&self, path: &[String]) -> (r: Option<(&Field, Option<i64>)>)
        ensures
            match spec_field_at(self.layout(), strings_view(path@), None, self.data(), self.endian()) {
                Some((g, o)) => r matches Some((h, p)) && *h == g && p == o,
                None => r is None,
            },
    {
        if path.len() == 0 {
            return Some((&self.data_layout, None));
        }
        self.data_layout.get_field(path, None, self)
    }

    /// The bytes of the field named by a `/`-separated path.
    pub fn try_as_slice(&self, path: &str) -> (r: Result<&[u8], ()>)
        ensures
            ({
                let comps = path_components(path@);
                let found = if comps.len() < 1 {
                    None
                } else {
                    spec_field_at(self.layout(), comps.drop_first(), None, self.data(), self.endian())
                };
                match found {
                    None => r is Err,
                    Some((g, o)) => match spec_slice_range(
                        g.model(),
                        self.data(),
                        FieldCastArgs { endian: self.endian(), field_offset: o },
                    ) {
                        Some((a, b)) => r matches Ok(s) && s@ == self.data().subrange(a, b),
                        None => r is Err,
                    },
                }
            }),
    {
        match self.get_field_by_path(path) {
            Some((field, offset)) => {
                let mut args = self.get_field_cast_args();
                args.field_offset = offset;
                field.try_as_slice(self.data_buff.as_slice(), &args)
            },
            None => Err(()),
        }
    }

    /// Shares this object behind a reference-counted handle, pointing at the root.
    pub fn into_ref(self) -> (r: TypeTreeObjectRef)
        ensures
            r.object() == self,
            r.target_path() == Seq::<String>::empty(),
    {
        TypeTreeObjectRef { inner: Arc::new(self), path: Vec::new() }
    }
}

/// A shared object and a path into it.
#[derive(Debug)]
pub struct TypeTreeObjectRef {
    inner: Arc<TypeTreeObject>,
    pub path: Vec<String>,
}

/// Calls `Arc::clone`: another handle to the same object.
#[verifier::external_body]
fn share_object(a: &Arc<TypeTreeObject>) -> (r: Arc<TypeTreeObject>)
    ensures
        *r == **a,
{
    Arc::clone(a)
}

/// Copies a list of strings.
pub fn copy_strings(v: &[String]) -> (r: Vec<String>)
    ensures
        r@ == v@,
{
    let mut out: Vec<String> = Vec::new();
    let mut i: usize = 0;
    while i < v.len()
        invariant
            i <= v@.len(),
            out@ == v@.take(i as int),
        decreases v.len() - i,
    {
        out.push(v[i].clone());
        proof {
            assert(out@ =~= v@.take(i + 1));
        }
        i = i + 1;
    }
    assert(v@.take(v@.len() as int) =~= v@);
    out
}

impl TypeTreeObjectRef {
    pub closed spec fn object(&self) -> TypeTreeObject {
        *self.inner
    }

    /// The path, from the root, of the field this reference points at.
    pub closed spec fn target_path(&self) -> Seq<String> {
        self.path@
    }

    /// The field this reference points at.
    pub open spec fn spec_target(&self) -> Option<(Field, Option<i64>)> {
        spec_field_at(
            self.object().layout(),
            strings_view(self.target_path()),
            None,
            self.object().data(),
            self.object().endian(),
        )
    }

    /// A reference to another path of the same object.
    pub fn with_path(&self, path: Vec<String>) -> (r: TypeTreeObjectRef)
        ensures
            r.object() == self.object(),
            r.target_path() == path@,
    {
        TypeTreeObjectRef { inner: share_object(&self.inner), path }
    }

    /// This reference's path followed by `path`.
    pub fn joined_path(&self, path: &[String]) -> (r: Vec<String>)
        ensures
            r@ == self.target_path() + path@,
    {
        let mut out = copy_strings(self.path.as_slice());
        let mut i: usize = 0;
        while i < path.len()
            invariant
                i <= path@.len(),
                out@ == self.path@ + path@.take(i as int),
            decreases path.len() - i,
        {
            out.push(path[i].clone());
            proof {
                assert(path@.take(i + 1) =~= path@.take(i as int).push(path@[i as int]));
                assert(out@ =~= self.path@ + path@.take(i + 1));
            }
            i = i + 1;
        }
        assert(path@.take(path@.len() as int) =~= path@);
        out
    }

    /// The object behind this reference.
    pub fn object_ref(&self) -> (r: &TypeTreeObject)
        ensures
            *r == self.object(),
    {
        &*self.inner
    }

    pub fn inner(&self) -> (r: &Arc<TypeTreeObject>)
        ensures
            **r == self.object(),
    {
        &self.inner
    }

    /// The name of the field pointed at.
    pub fn get_name(&self) -> (r: Option<String>)
        ensures
            match self.spec_target() {
                Some((g, _)) => r matches Some(s) && s@ == g.field_type.name@,
                None => r is None,
            },
    {
        match self.inner.get_field_by_path_list(self.path.as_slice()) {
            Some((f, _)) => Some(f.get_name().clone()),
            None => None,
        }
    }

    /// The type name of the field pointed at.
    pub fn get_type(&self) -> (r: Option<String>)
        ensures
            match self.spec_target() {
                Some((g, _)) => r matches Some(s) && s@ == g.field_type.type_string@,
                None => r is None,
            },
    {
        match self.inner.get_field_by_path_list(self.path.as_slice()) {
            Some((f, _)) => Some(f.get_type().clone()),
            None => None,
        }
    }

    pub fn try_get_buff_type_and_type_size(&self) -> (r: Option<(String, i32)>)
        ensures
            match self.spec_target() {
                Some((g, _)) => match spec_buff_type_and_size(g) {
                    Some((t, n)) => r matches Some((s, m)) && s@ == t && m == n,
                    None => r is None,
                },
                None => r is None,
            },
    {
        match self.inner.get_field_by_path_list(self.path.as_slice()) {
            Some((f, _)) => match f.try_get_buff_type_and_type_size() {
                Some((n, s)) => Some((n.clone(), s)),
                None => None,
            },
            None => None,
        }
    }

    pub fn get_endian(&self) -> (r: Endian)
        ensures
            r == self.object().endian(),
    {
        self.inner.get_endian()
    }

    pub fn get_serialized_file_id(&self) -> (r: i64)
        ensures
            r == self.object().spec_serialized_file_id(),
    {
        self.inner.serialized_file_id
    }

    pub fn get_class_id(&self) -> (r: i32)
        ensures
            r == self.object().spec_class_id(),
    {
        self.inner.class_id
    }
}


/// Looking a field up along a path in two steps, first `a` and then `b` from the field
/// found, gives what one lookup along `a` followed by `b` gives.
pub proof fn lemma_field_at_append(
    f: Field,
    a: Seq<Seq<char>>,
    b: Seq<Seq<char>>,
    off: Option<i64>,
    buff: Seq<u8>,
    endian: Endian,
)
    ensures
        spec_field_at(f, a + b, off, buff, endian) == match spec_field_at(f, a, off, buff, endian) {
            Some((g, o)) => spec_field_at(g, b, o, buff, endian),
            None => None,
        },
    decreases a.len(),
{
    if a.len() == 0 {
        assert(a + b =~= b);
    } else {
        assert((a + b)[0] == a[0]);
        assert((a + b).drop_first() =~= a.drop_first() + b);
        assert((a + b).len() > 0);
        match f.data {
            FieldValue::Fields(v) => {
                match last_named(v@, a[0]) {
                    Some(k) => lemma_field_at_append(v@[k], a.drop_first(), b, off, buff, endian),
                    None => {},
                }
            },
            FieldValue::Array(arr) => {
                match spec_parse_i32(encode_utf8(a[0])) {
                    None => {},
                    Some(index) => match arr.data {
                        ArrayFieldValue::DataOffset(d) => {
                            if off is None {
                                match (arr.item_field_size, arr.item_field) {
                                    (Some(isz), Some(item)) => match d {
                                        DataOffset::AbsDataOffset(o) => match spec_cast_i32(
                                            arr.array_size.model(),
                                            buff,
                                            FieldCastArgs { endian, field_offset: None },
                                        ) {
                                            Ok(size) => if size > index {
                                                let v = o + isz * ((index as u64) as int);
                                                if v <= u64::MAX {
                                                    lemma_field_at_append(
                                                        item,
                                                        a.drop_first(),
                                                        b,
                                                        Some((v as u64) as i64),
                                                        buff,
                                                        endian,
                                                    );
                                                }
                                            },
                                            Err(_) => {},
                                        },
                                        _ => {},
                                    },
                                    _ => {},
                                }
                            }
                        },
                        ArrayFieldValue::ArrayItems(items) => {
                            let k = (index as usize) as int;
                            if k < items@.len() {
                                lemma_field_at_append(items@[k], a.drop_first(), b, off, buff, endian);
                            }
                        },
                    },
                }
            },
            _ => {},
        }
    }
}


/// The field of a lookup that found one.
pub open spec fn found_field(r: Option<(Field, Option<i64>)>) -> Field {
    r.unwrap().0
}

/// A field found along a non-empty path lies strictly inside the field the path
/// starts from.
pub proof fn lemma_field_at_inside(
    f: Field,
    path: Seq<Seq<char>>,
    off: Option<i64>,
    buff: Seq<u8>,
    endian: Endian,
)
    requires
        path.len() > 0,
        spec_field_at(f, path, off, buff, endian) is Some,
    ensures
        decreases_to!(f => found_field(spec_field_at(f, path, off, buff, endian))),
    decreases path.len(),
{
    match f.data {
        FieldValue::Fields(v) => {
            let k = last_named(v@, path[0])->0;
            lemma_last_named_bounds(v@, path[0]);
            let c = v@[k];
            assert(decreases_to!(f => f.data));
            assert(decreases_to!(f.data => v));
            assert(decreases_to!(v => v@));
            assert(decreases_to!(v@ => c));
            if path.len() > 1 {
                lemma_field_at_inside(c, path.drop_first(), off, buff, endian);
            }
        },
        FieldValue::Array(arr) => {
            let index = spec_parse_i32(encode_utf8(path[0]))->0;
            assert(decreases_to!(f => f.data));
            assert(decreases_to!(f.data => arr));
            match arr.data {
                ArrayFieldValue::DataOffset(d) => {
                    let item = arr.item_field->0;
                    assert(decreases_to!(arr => arr.item_field));
                    assert(decreases_to!(arr.item_field => item));
                    let isz = arr.item_field_size->0;
                    let o = match d {
                        DataOffset::AbsDataOffset(o) => o,
                        DataOffset::ArrayItemOffset(o) => o,
                    };
                    let v = o + isz * ((index as u64) as int);
                    if path.len() > 1 {
                        lemma_field_at_inside(item, path.drop_first(), Some((v as u64) as i64), buff, endian);
                    }
                },
                ArrayFieldValue::ArrayItems(items) => {
                    let k = (index as usize) as int;
                    assert(decreases_to!(arr => arr.data));
                    assert(decreases_to!(arr.data => items));
                    assert(decreases_to!(items => items@));
                    assert(decreases_to!(items@ => items@[k]));
                    if path.len() > 1 {
                        lemma_field_at_inside(items@[k], path.drop_first(), off, buff, endian);
                    }
                },
            }
        },
        _ => {},
    }
}

/// A found field by its model, and the item offset in force there.
pub open spec fn found_model(r: Option<(Field, Option<i64>)>) -> Option<(FieldModel, Option<i64>)> {
    match r {
        None => None,
        Some((g, o)) => Some((g.model(), o)),
    }
}

/// Fields with the same models have their last field of each name at the same place.
pub proof fn lemma_last_named_model(v1: Seq<Field>, v2: Seq<Field>, name: Seq<char>)
    requires
        fields_model(v1) == fields_model(v2),
    ensures
        last_named(v1, name) == last_named(v2, name),
    decreases v1.len(),
{
    lemma_fields_model_len(v1);
    lemma_fields_model_len(v2);
    if v1.len() > 0 {
        assert(fields_model(v1.drop_last()) =~= fields_model(v1).drop_last());
        assert(fields_model(v2.drop_last()) =~= fields_model(v2).drop_last());
        assert(v1.last().model() == fields_model(v1).last());
        assert(v2.last().model() == fields_model(v2).last());
        lemma_last_named_model(v1.drop_last(), v2.drop_last(), name);
    }
}

/// What a path reaches depends on the field's model alone.
pub proof fn lemma_field_at_model(
    f1: Field,
    f2: Field,
    path: Seq<Seq<char>>,
    off: Option<i64>,
    buff: Seq<u8>,
    endian: Endian,
)
    requires
        f1.model() == f2.model(),
    ensures
        found_model(spec_field_at(f1, path, off, buff, endian)) == found_model(
            spec_field_at(f2, path, off, buff, endian),
        ),
    decreases path.len(),
{
    if path.len() > 0 {
        match (f1.data, f2.data) {
            (FieldValue::Fields(v1), FieldValue::Fields(v2)) => {
                lemma_last_named_model(v1@, v2@, path[0]);
                lemma_last_named_bounds(v1@, path[0]);
                lemma_fields_model_len(v1@);
                lemma_fields_model_len(v2@);
                match last_named(v1@, path[0]) {
                    Some(k) => {
                        lemma_fields_model_index(v1@, k);
                        lemma_fields_model_index(v2@, k);
                        lemma_field_at_model(v1@[k], v2@[k], path.drop_first(), off, buff, endian);
                    },
                    None => {},
                }
            },
            (FieldValue::Array(a1), FieldValue::Array(a2)) => {
                assert(a1.array_size.model() == a2.array_size.model());
                assert(a1.item_field_size == a2.item_field_size);
                match (a1.item_field, a2.item_field) {
                    (Some(i1), Some(i2)) => {
                        assert(i1.model() == i2.model());
                        lemma_field_at_model(i1, i2, path.drop_first(), off, buff, endian);
                        let index = spec_parse_i32(encode_utf8(path[0]))->0;
                        let o = match a1.data {
                            ArrayFieldValue::DataOffset(DataOffset::AbsDataOffset(o)) => o,
                            _ => 0,
                        };
                        let v = o + a1.item_field_size->0 * ((index as u64) as int);
                        lemma_field_at_model(i1, i2, path.drop_first(), Some((v as u64) as i64), buff, endian);
                    },
                    _ => {},
                }
                match (a1.data, a2.data) {
                    (ArrayFieldValue::ArrayItems(v1), ArrayFieldValue::ArrayItems(v2)) => {
                        let index = spec_parse_i32(encode_utf8(path[0]))->0;
                        let k = (index as usize) as int;
                        lemma_fields_model_len(v1@);
                        lemma_fields_model_len(v2@);
                        if 0 <= k < v1@.len() {
                            lemma_fields_model_index(v1@, k);
                            lemma_fields_model_index(v2@, k);
                            lemma_field_at_model(v1@[k], v2@[k], path.drop_first(), off, buff, endian);
                        }
                    },
                    _ => {},
                }
            },
            _ => {},
        }
    }
}

/// The field `last_named` picks bears the name asked for.
pub proof fn lemma_last_named_name(v: Seq<Field>, name: Seq<char>)
    ensures
        last_named(v, name) matches Some(k) ==> 0 <= k < v.len() && v[k].field_type.name@ == name,
    decreases v.len(),
{
    if v.len() > 0 {
        lemma_last_named_name(v.drop_last(), name);
    }
}

/// A member reached by name bears that name: when the path's last step is taken
/// inside a structure, the field found is named by that step.
pub proof fn lemma_member_bears_name(
    f: Field,
    path: Seq<Seq<char>>,
    off: Option<i64>,
    buff: Seq<u8>,
    endian: Endian,
)
    requires
        path.len() > 0,
        spec_field_at(f, path.drop_last(), off, buff, endian) matches Some((p, _)) && p.data is Fields,
        spec_field_at(f, path, off, buff, endian) is Some,
    ensures
        found_field(spec_field_at(f, path, off, buff, endian)).field_type.name@ == path.last(),
{
    let rest = seq![path.last()];
    assert(path =~= path.drop_last() + rest);
    lemma_field_at_append(f, path.drop_last(), rest, off, buff, endian);
    let (p, o) = spec_field_at(f, path.drop_last(), off, buff, endian)->0;
    if let FieldValue::Fields(v) = p.data {
        lemma_last_named_name(v@, path.last());
        assert(rest.drop_first() =~= Seq::<Seq<char>>::empty());
        assert(rest[0] == path.last());
        let k = last_named(v@, path.last())->0;
        assert(spec_field_at(v@[k], rest.drop_first(), o, buff, endian) == Some((v@[k], o)));
        assert(spec_field_at(p, rest, o, buff, endian) == Some((v@[k], o)));
    }
}

} // verus!
