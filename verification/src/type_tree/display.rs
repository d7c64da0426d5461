//! The lines that show an object's layout: one per field, with the value of each
//! scalar field that reads as an integer or a 32-bit float.
use vstd::prelude::*;

use super::convert::{
    spec_cast_f32_bits, spec_cast_i64, spec_cast_u64, CastError, F32Bits, FieldCastArgs, TryCast,
};
use super::{
    find_last_named, last_named, lemma_last_named_bounds, ArrayFieldValue, Field, FieldValue, TypeTreeNode, TypeTreeObject, TypeTreeObjectRef,
};

verus! {

/// The value shown beside a scalar field.
#[derive(Debug, Clone, Copy, PartialEq, Eq, Structural)]
pub enum DisplayValue {
    Signed(i64),
    Unsigned(u64),
    Float(F32Bits),
    Missing,
}

/// One line of an object's layout.
#[derive(Debug)]
pub enum DisplayLine {
    /// The object's class.
    ClassId(i32),
    /// A field: its path (the parent's path, `/`, its name), type name, byte size and value.
    Field { path: String, type_string: String, byte_size: i32, value: DisplayValue },
    /// A node of the item type of an empty array: its path (the array's path, `/?/`,
    /// its name), type name, byte size and level.
    ItemType { path: String, type_string: String, byte_size: i32, level: u8 },
}

pub enum DisplayLineView {
    ClassId(i32),
    Field { path: Seq<char>, type_string: Seq<char>, byte_size: i32, value: DisplayValue },
    ItemType { path: Seq<char>, type_string: Seq<char>, byte_size: i32, level: u8 },
}

impl View for DisplayLine {
    type V = DisplayLineView;

    open spec fn view(&self) -> DisplayLineView {
        match self {
            DisplayLine::ClassId(c) => DisplayLineView::ClassId(*c),
            DisplayLine::Field { path, type_string, byte_size, value } => DisplayLineView::Field {
                path: path@,
                type_string: type_string@,
                byte_size: *byte_size,
                value: *value,
            },
            DisplayLine::ItemType { path, type_string, byte_size, level } => DisplayLineView::ItemType {
                path: path@,
                type_string: type_string@,
                byte_size: *byte_size,
                level: *level,
            },
        }
    }
}

pub open spec fn lines_view(v: Seq<DisplayLine>) -> Seq<DisplayLineView> {
    v.map_values(|l: DisplayLine| l@)
}

/// The value shown for a scalar field: the first of a signed, an unsigned and a
/// 32-bit float reading that succeeds.
pub open spec fn spec_display_value(f: Field, buff: Seq<u8>, args: FieldCastArgs) -> DisplayValue {
    match spec_cast_i64(f.model(), buff, args) {
        Ok(v) => DisplayValue::Signed(v),
        Err(_) => match spec_cast_u64(f.model(), buff, args) {
            Ok(v) => DisplayValue::Unsigned(v),
            Err(_) => match spec_cast_f32_bits(f.model(), buff, args) {
                Ok(b) => DisplayValue::Float(F32Bits(b)),
                Err(_) => DisplayValue::Missing,
            },
        },
    }
}

/// `parent`, `/` and `name`.
pub open spec fn child_path(parent: Seq<char>, name: Seq<char>) -> Seq<char> {
    parent + seq!['/'] + name
}

/// The lines of the item type of an empty array whose path is `path`.
pub open spec fn spec_item_type_lines(nodes: Seq<TypeTreeNode>, path: Seq<char>) -> Seq<DisplayLineView> {
    Seq::new(
        nodes.len(),
        |i: int|
            DisplayLineView::ItemType {
                path: child_path(path + seq!['/', '?'], nodes[i].name@),
                type_string: nodes[i].type_string@,
                byte_size: nodes[i].byte_size,
                level: nodes[i].level,
            },
    )
}

/// The lines of field `f` under the path `parent`: its own line, then those of its
/// sub-fields, or of an array's size field and first item (for an empty array read
/// item by item, the nodes of its item type).
pub open spec fn spec_display(f: Field, parent: Seq<char>, buff: Seq<u8>, args: FieldCastArgs) -> Seq<
    DisplayLineView,
>
    decreases f,
{
    let path = child_path(parent, f.field_type.name@);
    let value = match f.data {
        FieldValue::DataOffset(_) => spec_display_value(f, buff, args),
        _ => DisplayValue::Missing,
    };
    let head = seq![
        DisplayLineView::Field {
            path,
            type_string: f.field_type.type_string@,
            byte_size: f.field_type.byte_size,
            value,
        },
    ];
    match f.data {
        FieldValue::DataOffset(_) => head,
        FieldValue::Fields(v) => head + spec_display_fields(v@, v@.len(), path, buff, args),
        FieldValue::Array(a) => head + spec_display(a.array_size, path, buff, args) + match a.data {
            ArrayFieldValue::ArrayItems(items) => if items@.len() > 0 {
                spec_display(items@[0], path, buff, args)
            } else {
                spec_item_type_lines(a.item_type_fields@, path)
            },
            ArrayFieldValue::DataOffset(_) => match a.item_field {
                Some(item) => spec_display(item, path, buff, args),
                None => seq![],
            },
        },
    }
}

/// The lines of the first `n` fields of `v`, one field after the other, leaving out
/// a field that a later field of `v` with the same name replaces.
pub open spec fn spec_display_fields(v: Seq<Field>, n: nat, parent: Seq<char>, buff: Seq<u8>, args: FieldCastArgs) -> Seq<
    DisplayLineView,
>
    decreases v, n,
{
    if n == 0 || n > v.len() {
        seq![]
    } else {
        let prev = spec_display_fields(v, (n - 1) as nat, parent, buff, args);
        if last_named(v, v[n - 1].field_type.name@) == Some((n - 1) as int) {
            prev + spec_display(v[n - 1], parent, buff, args)
        } else {
            prev
        }
    }
}

fn join_path(parent: &String, sep: &str, name: &String) -> (r: String)
    ensures
        r@ == parent@ + sep@ + name@,
{
    let mut s = parent.clone();
    s.append(sep);
    s.append(name.as_str());
    s
}

fn display_value(f: &Field, buff: &[u8], args: &FieldCastArgs) -> (r: DisplayValue)
    ensures
        r == spec_display_value(*f, buff@, *args),
{
    let a: Result<i64, CastError> = f.try_cast_to(buff, args);
    assert(<Field as TryCast<i64>>::spec_cast(f, buff@, *args) == spec_cast_i64(f.model(), buff@, *args));
    if let Ok(v) = a {
        return DisplayValue::Signed(v);
    }
    let b: Result<u64, CastError> = f.try_cast_to(buff, args);
    assert(<Field as TryCast<u64>>::spec_cast(f, buff@, *args) == spec_cast_u64(f.model(), buff@, *args));
    if let Ok(v) = b {
        return DisplayValue::Unsigned(v);
    }
    let c: Result<F32Bits, CastError> = f.try_cast_to(buff, args);
    assert(<Field as TryCast<F32Bits>>::spec_cast(f, buff@, *args) == spec_cast_f32_bits(
        f.model(),
        buff@,
        *args,
    ));
    match c {
        Ok(b) => DisplayValue::Float(b),
        Err(_) => DisplayValue::Missing,
    }
}

fn item_type_lines(nodes: &Vec<TypeTreeNode>, path: &String, out: &mut Vec<DisplayLine>)
    ensures
        lines_view(final(out)@) == lines_view(old(out)@) + spec_item_type_lines(nodes@, path@),
{
    let ghost start = lines_view(out@);
    let mut i: usize = 0;
    while i < nodes.len()
        invariant
            i <= nodes@.len(),
            start == lines_view(old(out)@),
            lines_view(out@) == start + spec_item_type_lines(nodes@, path@).take(i as int),
        decreases nodes.len() - i,
    {
        let mut p = path.clone();
        p.append("/?/");
        p.append(nodes[i].name.as_str());
        proof {
            reveal_strlit("/?/");
            assert(p@ =~= child_path(path@ + seq!['/', '?'], nodes@[i as int].name@));
        }
        let ghost prev = out@;
        out.push(
            DisplayLine::ItemType {
                path: p,
                type_string: nodes[i].type_string.clone(),
                byte_size: nodes[i].byte_size,
                level: nodes[i].level,
            },
        );
        proof {
            assert(out@ =~= prev.push(out@[prev.len() as int]));
            assert(lines_view(out@) =~= lines_view(prev).push(out@[prev.len() as int]@));
            assert(spec_item_type_lines(nodes@, path@).take(i + 1) =~= spec_item_type_lines(
                nodes@,
                path@,
            ).take(i as int).push(spec_item_type_lines(nodes@, path@)[i as int]));
            assert(lines_view(out@) =~= start + spec_item_type_lines(nodes@, path@).take(i + 1));
        }
        i = i + 1;
    }
    assert(spec_item_type_lines(nodes@, path@).take(nodes@.len() as int) =~= spec_item_type_lines(
        nodes@,
        path@,
    ));
}

impl Field {
    /// Appends to `out` the lines of this field under the path `parent`.
    #[verifier::loop_isolation(false)]
    pub fn display_field(&self, parent: &String, buff: &[u8], args: &FieldCastArgs, out: &mut Vec<DisplayLine>)
        ensures
            lines_view(final(out)@) == lines_view(old(out)@) + spec_display(*self, parent@, buff@, *args),
        decreases self,
    {
        proof {
            reveal_strlit("/");
        }
        let path = join_path(parent, "/", &self.field_type.name);
        let value = match &self.data {
            FieldValue::DataOffset(_) => display_value(self, buff, args),
            _ => DisplayValue::Missing,
        };
        let ghost before = lines_view(out@);
        out.push(
            DisplayLine::Field {
                path: path.clone(),
                type_string: self.field_type.type_string.clone(),
                byte_size: self.field_type.byte_size,
                value,
            },
        );
        let ghost head = lines_view(out@);
        assert(path@ == child_path(parent@, self.field_type.name@));
        assert(head =~= before + seq![
            DisplayLineView::Field {
                path: path@,
                type_string: self.field_type.type_string@,
                byte_size: self.field_type.byte_size,
                value,
            },
        ]);
        match &self.data {
            FieldValue::DataOffset(_) => {},
            FieldValue::Fields(fields) => {
                let mut i: usize = 0;
                while i < fields.len()
                    invariant
                        i <= fields@.len(),
                        lines_view(out@) == head + spec_display_fields(fields@, i as nat, path@, buff@, *args),
                    decreases fields.len() - i,
                {
                    proof {
                        lemma_last_named_bounds(fields@, fields@[i as int].field_type.name@);
                    }
                    let shown = match find_last_named(fields, &fields[i].field_type.name) {
                        Some(k) => k == i,
                        None => false,
                    };
                    let ghost prev = spec_display_fields(fields@, i as nat, path@, buff@, *args);
                    assert(shown == (last_named(fields@, fields@[i as int].field_type.name@) == Some(i as int)));
                    if shown {
                        fields[i].display_field(&path, buff, args, out);
                        assert(spec_display_fields(fields@, (i + 1) as nat, path@, buff@, *args) == prev + spec_display(
                            fields@[i as int],
                            path@,
                            buff@,
                            *args,
                        ));
                        assert(lines_view(out@) =~= head + spec_display_fields(fields@, (i + 1) as nat, path@, buff@, *args));
                    } else {
                        assert(spec_display_fields(fields@, (i + 1) as nat, path@, buff@, *args) == prev);
                    }
                    i = i + 1;
                }
            },
            FieldValue::Array(arr) => {
                arr.array_size.display_field(&path, buff, args, out);
                match &arr.data {
                    ArrayFieldValue::ArrayItems(items) => {
                        if items.len() > 0 {
                            items[0].display_field(&path, buff, args, out);
                        } else {
                            item_type_lines(&arr.item_type_fields, &path, out);
                        }
                    },
                    ArrayFieldValue::DataOffset(_) => {
                        if let Some(item) = &arr.item_field {
                            item.display_field(&path, buff, args, out);
                        }
                    },
                }
            },
        }
    }
}

impl TypeTreeObject {
    /// The lines that show this object: its class, then its layout from the root.
    pub fn display_tree(&self) -> (r: Vec<DisplayLine>)
        ensures
            lines_view(r@) == seq![DisplayLineView::ClassId(self.spec_class_id())] + spec_display(
                self.layout(),
                seq![],
                self.data(),
                FieldCastArgs { endian: self.endian(), field_offset: None },
            ),
    {
        let mut out: Vec<DisplayLine> = Vec::new();
        out.push(DisplayLine::ClassId(self.class_id));
        let root = String::new();
        let args = self.get_field_cast_args();
        self.get_data_layout().display_field(&root, self.get_data_buff().as_slice(), &args, &mut out);
        out
    }
}

impl TypeTreeObjectRef {
    /// The lines that show the object this reference points into.
    pub fn display_tree(&self) -> (r: Vec<DisplayLine>)
        ensures
            lines_view(r@) == seq![DisplayLineView::ClassId(self.object().spec_class_id())] + spec_display(
                self.object().layout(),
                seq![],
                self.object().data(),
                FieldCastArgs { endian: self.object().endian(), field_offset: None },
            ),
    {
        self.object_ref().display_tree()
    }
}

} // verus!
