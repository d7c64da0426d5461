//! A field as a plain value: what the field at a path of an object holds, chosen by
//! its type name, with lists and maps of further values.
use vstd::prelude::*;

use super::convert::{
    spec_cast_bool, spec_cast_f32_bits, spec_cast_f64_bits, spec_cast_i16, spec_cast_i32, spec_cast_i64,
    spec_cast_i8, spec_cast_u16, spec_cast_u32, spec_cast_u64, spec_cast_u8, spec_scalar_pos, FieldCastArgs, TryCast,
    array_len_at, entries_of, entries_view, entry_key_path, entry_value_path, insert_entry,
    lemma_insert_entry_members, spec_cast_at, string_is, CastError, F32Bits, F32BitsList, F64Bits,
    F64BitsList, TryCastFrom,
};
use super::{
    found_field, lemma_field_at_append, lemma_field_at_inside, spec_buff_type_and_size, spec_field_at,
    Field, TypeTreeObject, TypeTreeObjectRef,
};
use crate::binary::{opt_i16, opt_i32, opt_i64, opt_u16, opt_u32, opt_u64};
use crate::text::{decimal, strings_view};

verus! {

/// What a field holds, as a plain value.
#[derive(Debug)]
pub enum AttrValue {
    Str(String),
    Bool(bool),
    I8(i8),
    I16(i16),
    I32(i32),
    I64(i64),
    U8(u8),
    U16(u16),
    U32(u32),
    U64(u64),
    F32(F32Bits),
    F64(F64Bits),
    F32List(F32BitsList),
    F64List(F64BitsList),
    Bytes(Vec<u8>),
    U16List(Vec<u16>),
    U32List(Vec<u32>),
    U64List(Vec<u64>),
    /// The items of a vector of structures.
    List(Vec<AttrValue>),
    /// The entries of a map, keys in the order the map stores them.
    Entries(Vec<(String, AttrValue)>),
    /// A structure, left as a reference to it.
    Object(TypeTreeObjectRef),
}

/// The kinds of single values a type name selects.
#[derive(Debug, Clone, Copy, PartialEq, Eq, Structural)]
pub enum ScalarKind {
    Str,
    Bool,
    I8,
    I16,
    I32,
    I64,
    U8,
    U16,
    U32,
    U64,
    F32,
    F64,
}

/// The single-value kind a type name selects, if any; `FileSize` reads as `UInt64`.
pub open spec fn scalar_kind(t: Seq<char>) -> Option<ScalarKind> {
    if t == "string"@ {
        Some(ScalarKind::Str)
    } else if t == "bool"@ {
        Some(ScalarKind::Bool)
    } else if t == "SInt8"@ {
        Some(ScalarKind::I8)
    } else if t == "SInt16"@ || t == "short"@ {
        Some(ScalarKind::I16)
    } else if t == "SInt32"@ || t == "int"@ {
        Some(ScalarKind::I32)
    } else if t == "SInt64"@ || t == "long long"@ {
        Some(ScalarKind::I64)
    } else if t == "UInt8"@ || t == "char"@ {
        Some(ScalarKind::U8)
    } else if t == "UInt16"@ || t == "unsigned short"@ {
        Some(ScalarKind::U16)
    } else if t == "UInt32"@ || t == "unsigned int"@ {
        Some(ScalarKind::U32)
    } else if t == "UInt64"@ || t == "unsigned long long"@ || t == "FileSize"@ {
        Some(ScalarKind::U64)
    } else if t == "float"@ {
        Some(ScalarKind::F32)
    } else if t == "double"@ {
        Some(ScalarKind::F64)
    } else {
        None
    }
}

pub fn scalar_kind_of(t: &String) -> (r: Option<ScalarKind>)
    ensures
        r == scalar_kind(t@),
{
    if string_is(t, "string") {
        Some(ScalarKind::Str)
    } else if string_is(t, "bool") {
        Some(ScalarKind::Bool)
    } else if string_is(t, "SInt8") {
        Some(ScalarKind::I8)
    } else if string_is(t, "SInt16") || string_is(t, "short") {
        Some(ScalarKind::I16)
    } else if string_is(t, "SInt32") || string_is(t, "int") {
        Some(ScalarKind::I32)
    } else if string_is(t, "SInt64") || string_is(t, "long long") {
        Some(ScalarKind::I64)
    } else if string_is(t, "UInt8") || string_is(t, "char") {
        Some(ScalarKind::U8)
    } else if string_is(t, "UInt16") || string_is(t, "unsigned short") {
        Some(ScalarKind::U16)
    } else if string_is(t, "UInt32") || string_is(t, "unsigned int") {
        Some(ScalarKind::U32)
    } else if string_is(t, "UInt64") || string_is(t, "unsigned long long") || string_is(t, "FileSize") {
        Some(ScalarKind::U64)
    } else if string_is(t, "float") {
        Some(ScalarKind::F32)
    } else if string_is(t, "double") {
        Some(ScalarKind::F64)
    } else {
        None
    }
}

/// `v` is the single value of kind `k` cast from the field at `path`.
pub open spec fn scalar_matches(obj: TypeTreeObject, path: Seq<Seq<char>>, k: ScalarKind, v: AttrValue) -> bool {
    match k {
        ScalarKind::Str => v matches AttrValue::Str(x) && spec_cast_at::<String>(obj, path) == Ok::<Seq<char>, CastError>(x@),
        ScalarKind::Bool => v matches AttrValue::Bool(x) && spec_cast_at::<bool>(obj, path) == Ok::<bool, CastError>(x),
        ScalarKind::I8 => v matches AttrValue::I8(x) && spec_cast_at::<i8>(obj, path) == Ok::<i8, CastError>(x),
        ScalarKind::I16 => v matches AttrValue::I16(x) && spec_cast_at::<i16>(obj, path) == Ok::<i16, CastError>(x),
        ScalarKind::I32 => v matches AttrValue::I32(x) && spec_cast_at::<i32>(obj, path) == Ok::<i32, CastError>(x),
        ScalarKind::I64 => v matches AttrValue::I64(x) && spec_cast_at::<i64>(obj, path) == Ok::<i64, CastError>(x),
        ScalarKind::U8 => v matches AttrValue::U8(x) && spec_cast_at::<u8>(obj, path) == Ok::<u8, CastError>(x),
        ScalarKind::U16 => v matches AttrValue::U16(x) && spec_cast_at::<u16>(obj, path) == Ok::<u16, CastError>(x),
        ScalarKind::U32 => v matches AttrValue::U32(x) && spec_cast_at::<u32>(obj, path) == Ok::<u32, CastError>(x),
        ScalarKind::U64 => v matches AttrValue::U64(x) && spec_cast_at::<u64>(obj, path) == Ok::<u64, CastError>(x),
        ScalarKind::F32 => v matches AttrValue::F32(x) && spec_cast_at::<F32Bits>(obj, path) == Ok::<u32, CastError>(x.0),
        ScalarKind::F64 => v matches AttrValue::F64(x) && spec_cast_at::<F64Bits>(obj, path) == Ok::<u64, CastError>(x.0),
    }
}

/// The single value of kind `k` can be cast from the field at `path`.
pub open spec fn scalar_ok(obj: TypeTreeObject, path: Seq<Seq<char>>, k: ScalarKind) -> bool {
    match k {
        ScalarKind::Str => spec_cast_at::<String>(obj, path) is Ok,
        ScalarKind::Bool => spec_cast_at::<bool>(obj, path) is Ok,
        ScalarKind::I8 => spec_cast_at::<i8>(obj, path) is Ok,
        ScalarKind::I16 => spec_cast_at::<i16>(obj, path) is Ok,
        ScalarKind::I32 => spec_cast_at::<i32>(obj, path) is Ok,
        ScalarKind::I64 => spec_cast_at::<i64>(obj, path) is Ok,
        ScalarKind::U8 => spec_cast_at::<u8>(obj, path) is Ok,
        ScalarKind::U16 => spec_cast_at::<u16>(obj, path) is Ok,
        ScalarKind::U32 => spec_cast_at::<u32>(obj, path) is Ok,
        ScalarKind::U64 => spec_cast_at::<u64>(obj, path) is Ok,
        ScalarKind::F32 => spec_cast_at::<F32Bits>(obj, path) is Ok,
        ScalarKind::F64 => spec_cast_at::<F64Bits>(obj, path) is Ok,
    }
}

fn scalar_attr(field: &TypeTreeObjectRef, k: ScalarKind) -> (r: Result<AttrValue, CastError>)
    ensures
        r matches Ok(v) ==> scalar_matches(field.object(), strings_view(field.target_path()), k, v),
        r is Ok <==> scalar_ok(field.object(), strings_view(field.target_path()), k),
{
    let here: Vec<String> = Vec::new();
    proof {
        assert(field.target_path() + here@ =~= field.target_path());
    }
    match k {
        ScalarKind::Str => match <String as TryCastFrom<&TypeTreeObjectRef, &[String]>>::try_cast_from(
            field,
            here.as_slice(),
        ) {
            Ok(x) => Ok(AttrValue::Str(x)),
            Err(e) => Err(e),
        },
        ScalarKind::Bool => match <bool as TryCastFrom<&TypeTreeObjectRef, &[String]>>::try_cast_from(
            field,
            here.as_slice(),
        ) {
            Ok(x) => Ok(AttrValue::Bool(x)),
            Err(e) => Err(e),
        },
        ScalarKind::I8 => match <i8 as TryCastFrom<&TypeTreeObjectRef, &[String]>>::try_cast_from(
            field,
            here.as_slice(),
        ) {
            Ok(x) => Ok(AttrValue::I8(x)),
            Err(e) => Err(e),
        },
        ScalarKind::I16 => match <i16 as TryCastFrom<&TypeTreeObjectRef, &[String]>>::try_cast_from(
            field,
            here.as_slice(),
        ) {
            Ok(x) => Ok(AttrValue::I16(x)),
            Err(e) => Err(e),
        },
        ScalarKind::I32 => match <i32 as TryCastFrom<&TypeTreeObjectRef, &[String]>>::try_cast_from(
            field,
            here.as_slice(),
        ) {
            Ok(x) => Ok(AttrValue::I32(x)),
            Err(e) => Err(e),
        },
        ScalarKind::I64 => match <i64 as TryCastFrom<&TypeTreeObjectRef, &[String]>>::try_cast_from(
            field,
            here.as_slice(),
        ) {
            Ok(x) => Ok(AttrValue::I64(x)),
            Err(e) => Err(e),
        },
        ScalarKind::U8 => match <u8 as TryCastFrom<&TypeTreeObjectRef, &[String]>>::try_cast_from(
            field,
            here.as_slice(),
        ) {
            Ok(x) => Ok(AttrValue::U8(x)),
            Err(e) => Err(e),
        },
        ScalarKind::U16 => match <u16 as TryCastFrom<&TypeTreeObjectRef, &[String]>>::try_cast_from(
            field,
            here.as_slice(),
        ) {
            Ok(x) => Ok(AttrValue::U16(x)),
            Err(e) => Err(e),
        },
        ScalarKind::U32 => match <u32 as TryCastFrom<&TypeTreeObjectRef, &[String]>>::try_cast_from(
            field,
            here.as_slice(),
        ) {
            Ok(x) => Ok(AttrValue::U32(x)),
            Err(e) => Err(e),
        },
        ScalarKind::U64 => match <u64 as TryCastFrom<&TypeTreeObjectRef, &[String]>>::try_cast_from(
            field,
            here.as_slice(),
        ) {
            Ok(x) => Ok(AttrValue::U64(x)),
            Err(e) => Err(e),
        },
        ScalarKind::F32 => match <F32Bits as TryCastFrom<&TypeTreeObjectRef, &[String]>>::try_cast_from(
            field,
            here.as_slice(),
        ) {
            Ok(x) => Ok(AttrValue::F32(x)),
            Err(e) => Err(e),
        },
        ScalarKind::F64 => match <F64Bits as TryCastFrom<&TypeTreeObjectRef, &[String]>>::try_cast_from(
            field,
            here.as_slice(),
        ) {
            Ok(x) => Ok(AttrValue::F64(x)),
            Err(e) => Err(e),
        },
    }
}

/// The field found at `path` of `obj`.
pub open spec fn field_at(obj: TypeTreeObject, path: Seq<Seq<char>>) -> Option<(Field, Option<i64>)> {
    spec_field_at(obj.layout(), path, None, obj.data(), obj.endian())
}

/// `v` is what the field at `path` of `obj` holds, by its type name: single values
/// and strings are cast; a `vector` or `staticvector` and a `map` are read through
/// their `Array` member; any other structure stays a reference.
pub open spec fn attr_matches(obj: TypeTreeObject, path: Seq<Seq<char>>, v: AttrValue) -> bool
    decreases v, 1int,
{
    match field_at(obj, path) {
        None => false,
        Some((g, _)) => {
            let t = g.field_type.type_string@;
            match scalar_kind(t) {
                Some(k) => scalar_matches(obj, path, k, v),
                None => if t == "vector"@ || t == "staticvector"@ {
                    vector_matches(obj, path, v)
                } else if t == "map"@ {
                    map_matches(obj, path, v)
                } else {
                    v matches AttrValue::Object(r) && r.object() == obj && strings_view(r.target_path())
                        == path
                },
            }
        },
    }
}

/// A vector: a run of floats, doubles or 1, 2, 4 or 8-byte numbers when its items
/// are single values, else the list of the items' values.
pub open spec fn vector_matches(obj: TypeTreeObject, path: Seq<Seq<char>>, v: AttrValue) -> bool
    decreases v, 0int,
{
    let ap = path.push("Array"@);
    match field_at(obj, ap) {
        None => false,
        Some((a, _)) => match spec_buff_type_and_size(a) {
            Some((bt, size)) => if bt == "float"@ {
                v matches AttrValue::F32List(l) && spec_cast_at::<F32BitsList>(obj, ap) == Ok::<
                    Seq<u32>,
                    CastError,
                >(l.0@)
            } else if bt == "double"@ {
                v matches AttrValue::F64List(l) && spec_cast_at::<F64BitsList>(obj, ap) == Ok::<
                    Seq<u64>,
                    CastError,
                >(l.0@)
            } else if size == 1 {
                v matches AttrValue::Bytes(l) && spec_cast_at::<Vec<u8>>(obj, ap) == Ok::<Seq<u8>, CastError>(l@)
            } else if size == 2 {
                v matches AttrValue::U16List(l) && spec_cast_at::<Vec<u16>>(obj, ap) == Ok::<
                    Seq<u16>,
                    CastError,
                >(l@)
            } else if size == 4 {
                v matches AttrValue::U32List(l) && spec_cast_at::<Vec<u32>>(obj, ap) == Ok::<
                    Seq<u32>,
                    CastError,
                >(l@)
            } else if size == 8 {
                v matches AttrValue::U64List(l) && spec_cast_at::<Vec<u64>>(obj, ap) == Ok::<
                    Seq<u64>,
                    CastError,
                >(l@)
            } else {
                false
            },
            None => v matches AttrValue::List(items) && array_len_at(obj, ap) == Ok::<int, CastError>(
                items@.len() as int,
            ) && forall|i: int|
                0 <= i < items@.len() ==> attr_matches(obj, ap.push(decimal(i as nat)), #[trigger] items@[i]),
        },
    }
}

/// A map: its key/value entries, each value read as a plain value.
pub open spec fn map_matches(obj: TypeTreeObject, path: Seq<Seq<char>>, v: AttrValue) -> bool
    decreases v, 0int,
{
    let ap = path.push("Array"@);
    &&& field_at(obj, ap) is Some
    &&& v matches AttrValue::Entries(es) && match array_len_at(obj, ap) {
        Err(_) => false,
        Ok(n) => {
            let ents = entries_of(obj, ap, n as nat);
            &&& es@.len() == ents.len()
            &&& forall|i: int|
                0 <= i < es@.len() ==> (#[trigger] es@[i]).0@ == ents[i].0 && attr_matches(
                    obj,
                    ents[i].1,
                    es@[i].1,
                )
        },
    }
}

/// The run of single values in the `Array` member at `ap`, of item type `bt` and
/// item size `size`, can be read.
pub open spec fn run_ok(obj: TypeTreeObject, ap: Seq<Seq<char>>, bt: Seq<char>, size: i32) -> bool {
    if bt == "float"@ {
        spec_cast_at::<F32BitsList>(obj, ap) is Ok
    } else if bt == "double"@ {
        spec_cast_at::<F64BitsList>(obj, ap) is Ok
    } else if size == 1 {
        spec_cast_at::<Vec<u8>>(obj, ap) is Ok
    } else if size == 2 {
        spec_cast_at::<Vec<u16>>(obj, ap) is Ok
    } else if size == 4 {
        spec_cast_at::<Vec<u32>>(obj, ap) is Ok
    } else if size == 8 {
        spec_cast_at::<Vec<u64>>(obj, ap) is Ok
    } else {
        false
    }
}

/// Whether the field at `path` of `obj` can be read as a plain value: it exists; a
/// single value or string must cast; a vector or map needs its `Array` member, whose
/// run of single values must cast, or whose items (for a map, the values of its
/// entries) must each be readable in turn; any other structure is read as a reference.
pub open spec fn attr_ok(obj: TypeTreeObject, path: Seq<Seq<char>>) -> bool
    decreases found_field(field_at(obj, path)),
    via attr_ok_decreases
{
    match field_at(obj, path) {
        None => false,
        Some((g, _)) => {
            let t = g.field_type.type_string@;
            let ap = path.push("Array"@);
            match scalar_kind(t) {
                Some(k) => scalar_ok(obj, path, k),
                None => if t == "vector"@ || t == "staticvector"@ {
                    match field_at(obj, ap) {
                        None => false,
                        Some((a, _)) => match spec_buff_type_and_size(a) {
                            Some((bt, size)) => run_ok(obj, ap, bt, size),
                            None => match array_len_at(obj, ap) {
                                Err(_) => false,
                                Ok(n) => forall|i: int|
                                    0 <= i < n ==> field_at(obj, #[trigger] ap.push(decimal(i as nat))) is Some
                                        && attr_ok(obj, ap.push(decimal(i as nat))),
                            },
                        },
                    }
                } else if t == "map"@ {
                    match array_len_at(obj, ap) {
                        Err(_) => false,
                        Ok(n) => {
                            let ents = entries_of(obj, ap, n as nat);
                            forall|i: int|
                                0 <= i < ents.len() ==> field_at(obj, #[trigger] ents[i].1) is Some && attr_ok(
                                    obj,
                                    ents[i].1,
                                )
                        },
                    }
                } else {
                    true
                },
            }
        },
    }
}

#[via_fn]
proof fn attr_ok_decreases(obj: TypeTreeObject, path: Seq<Seq<char>>) {
    match field_at(obj, path) {
        None => {},
        Some((g, o)) => {
            let ap = path.push("Array"@);
            assert forall|i: int| field_at(obj, #[trigger] ap.push(decimal(i as nat))) is Some implies decreases_to!(
                found_field(field_at(obj, path)) => found_field(field_at(obj, ap.push(decimal(i as nat))))
            ) by {
                let rest = seq!["Array"@, decimal(i as nat)];
                assert(ap.push(decimal(i as nat)) =~= path + rest);
                lemma_field_at_append(obj.layout(), path, rest, None, obj.data(), obj.endian());
                lemma_field_at_inside(g, rest, o, obj.data(), obj.endian());
            }
            match array_len_at(obj, ap) {
                Err(_) => {},
                Ok(n) => {
                    let ents = entries_of(obj, ap, n as nat);
                    lemma_entry_paths(obj, ap, n as nat);
                    assert forall|i: int| 0 <= i < ents.len() && field_at(obj, #[trigger] ents[i].1) is Some implies decreases_to!(
                        found_field(field_at(obj, path)) => found_field(field_at(obj, ents[i].1))
                    ) by {
                        let j = choose|j: nat| #[trigger] ents[i].1 == entry_value_path(ap, j);
                        let rest = seq!["Array"@, decimal(j), "second"@];
                        assert(ents[i].1 =~= path + rest);
                        lemma_field_at_append(obj.layout(), path, rest, None, obj.data(), obj.endian());
                        lemma_field_at_inside(g, rest, o, obj.data(), obj.endian());
                    }
                },
            }
        },
    }
}

/// Each entry of a key/value list names the `second` member of one item.
proof fn lemma_entry_paths(obj: TypeTreeObject, ap: Seq<Seq<char>>, n: nat)
    ensures
        forall|i: int|
            0 <= i < entries_of(obj, ap, n).len() ==> exists|j: nat| #[trigger]
                entries_of(obj, ap, n)[i].1 == entry_value_path(ap, j),
    decreases n,
{
    if n > 0 {
        lemma_entry_paths(obj, ap, (n - 1) as nat);
        let prev = entries_of(obj, ap, (n - 1) as nat);
        let e = entries_of(obj, ap, n);
        let vp = entry_value_path(ap, (n - 1) as nat);
        match spec_cast_at::<String>(obj, entry_key_path(ap, (n - 1) as nat)) {
            Ok(k) => if spec_field_at(obj.layout(), vp, None, obj.data(), obj.endian()) is Some {
                assert(e == insert_entry(prev, k, vp));
                lemma_insert_entry_members(prev, k, vp);
                assert forall|i: int| 0 <= i < e.len() implies exists|j: nat| #[trigger]
                    e[i].1 == entry_value_path(ap, j) by {
                    if e[i].1 == vp {
                        assert(e[i].1 == entry_value_path(ap, (n - 1) as nat));
                    } else {
                        let k2 = choose|k2: int| 0 <= k2 < prev.len() && e[i] == prev[k2];
                        assert(prev[k2].1 == e[i].1);
                    }
                }
            } else {
                assert(e == prev);
            },
            Err(_) => {
                assert(e == prev);
            },
        }
    }
}

/// Reads the field a reference points at as a plain value.
fn attr_of(field: &TypeTreeObjectRef) -> (r: Result<AttrValue, CastError>)
    ensures
        r matches Ok(v) ==> attr_matches(field.object(), strings_view(field.target_path()), v),
        field_at(field.object(), strings_view(field.target_path())) is None ==> (r matches Err(e)
            && e == CastError::CannotGetField),
        r is Ok <==> attr_ok(field.object(), strings_view(field.target_path())),
    decreases found_field(field.spec_target()), 1int,
{
    let t = match field.get_type() {
        Some(t) => t,
        None => return Err(CastError::CannotGetField),
    };
    match scalar_kind_of(&t) {
        Some(k) => scalar_attr(field, k),
        None => if string_is(&t, "vector") || string_is(&t, "staticvector") {
            vector_attr(field)
        } else if string_is(&t, "map") {
            map_attr(field)
        } else {
            let here: Vec<String> = Vec::new();
            proof {
                assert(field.target_path() + here@ =~= field.target_path());
            }
            Ok(AttrValue::Object(field.with_path(field.joined_path(here.as_slice()))))
        },
    }
}

/// The `Array` member of the field a reference points at.
fn array_member(field: &TypeTreeObjectRef) -> (r: Result<TypeTreeObjectRef, CastError>)
    ensures
        ({
            let ap = strings_view(field.target_path()).push("Array"@);
            match field_at(field.object(), ap) {
                Some(_) => r matches Ok(a) && a.object() == field.object() && strings_view(a.target_path()) == ap,
                None => r matches Err(e) && e == CastError::CannotGetField,
            }
        }),
{
    let array_path = vec!["Array".to_owned()];
    proof {
        assert(strings_view(field.target_path() + array_path@) =~= strings_view(field.target_path()).push(
            "Array"@,
        ));
    }
    <TypeTreeObjectRef as TryCastFrom<&TypeTreeObjectRef, &[String]>>::try_cast_from(field, array_path.as_slice())
}

#[verifier::loop_isolation(false)]
#[verifier::rlimit(40)]
fn vector_attr(field: &TypeTreeObjectRef) -> (r: Result<AttrValue, CastError>)
    requires
        field.spec_target() is Some,
        ({
            let t = field.spec_target().unwrap().0.field_type.type_string@;
            scalar_kind(t) is None && (t == "vector"@ || t == "staticvector"@)
        }),
    ensures
        r matches Ok(v) ==> vector_matches(field.object(), strings_view(field.target_path()), v),
        r is Ok <==> attr_ok(field.object(), strings_view(field.target_path())),
    decreases found_field(field.spec_target()), 0int,
{
    let ghost obj = field.object();
    let ghost fp = strings_view(field.target_path());
    let ghost g = field.spec_target().unwrap().0;
    let ghost o = field.spec_target().unwrap().1;
    let ghost ap = fp.push("Array"@);
    let arr = array_member(field)?;
    let here: Vec<String> = Vec::new();
    proof {
        assert(arr.target_path() + here@ =~= arr.target_path());
    }
    match arr.try_get_buff_type_and_type_size() {
        Some((bt, size)) => {
            if string_is(&bt, "float") {
                match <F32BitsList as TryCastFrom<&TypeTreeObjectRef, &[String]>>::try_cast_from(&arr, here.as_slice()) {
                    Ok(x) => Ok(AttrValue::F32List(x)),
                    Err(e) => Err(e),
                }
            } else if string_is(&bt, "double") {
                match <F64BitsList as TryCastFrom<&TypeTreeObjectRef, &[String]>>::try_cast_from(&arr, here.as_slice()) {
                    Ok(x) => Ok(AttrValue::F64List(x)),
                    Err(e) => Err(e),
                }
            } else if size == 1 {
                match <Vec<u8> as TryCastFrom<&TypeTreeObjectRef, &[String]>>::try_cast_from(&arr, here.as_slice()) {
                    Ok(x) => Ok(AttrValue::Bytes(x)),
                    Err(e) => Err(e),
                }
            } else if size == 2 {
                match <Vec<u16> as TryCastFrom<&TypeTreeObjectRef, &[String]>>::try_cast_from(&arr, here.as_slice()) {
                    Ok(x) => Ok(AttrValue::U16List(x)),
                    Err(e) => Err(e),
                }
            } else if size == 4 {
                match <Vec<u32> as TryCastFrom<&TypeTreeObjectRef, &[String]>>::try_cast_from(&arr, here.as_slice()) {
                    Ok(x) => Ok(AttrValue::U32List(x)),
                    Err(e) => Err(e),
                }
            } else if size == 8 {
                match <Vec<u64> as TryCastFrom<&TypeTreeObjectRef, &[String]>>::try_cast_from(&arr, here.as_slice()) {
                    Ok(x) => Ok(AttrValue::U64List(x)),
                    Err(e) => Err(e),
                }
            } else {
                Err(CastError::TypeNotMatch)
            }
        },
        None => {
            let items = <Vec<TypeTreeObjectRef> as TryCastFrom<&TypeTreeObjectRef, &[String]>>::try_cast_from(
                &arr,
                here.as_slice(),
            )?;
            let mut out: Vec<AttrValue> = Vec::new();
            let mut i: usize = 0;
            while i < items.len()
                invariant
                    i <= items@.len(),
                    out@.len() == i,
                    forall|j: int|
                        0 <= j < i ==> attr_matches(obj, ap.push(decimal(j as nat)), #[trigger] out@[j]),
                    forall|j: int|
                        0 <= j < i ==> field_at(obj, #[trigger] ap.push(decimal(j as nat))) is Some && attr_ok(
                            obj,
                            ap.push(decimal(j as nat)),
                        ),
                decreases items.len() - i,
            {
                let item = &items[i];
                assert(strings_view(item.target_path()) == ap.push(decimal(i as nat)));
                if item.get_type().is_none() {
                    return Err(CastError::CannotGetField);
                }
                proof {
                    let rest = seq!["Array"@, decimal(i as nat)];
                    assert(strings_view(item.target_path()) =~= fp + rest);
                    lemma_field_at_append(obj.layout(), fp, rest, None, obj.data(), obj.endian());
                    lemma_field_at_inside(g, rest, o, obj.data(), obj.endian());
                }
                let v = match attr_of(item) {
                    Ok(v) => v,
                    Err(e) => return Err(e),
                };
                out.push(v);
                i = i + 1;
            }
            Ok(AttrValue::List(out))
        },
    }
}

#[verifier::loop_isolation(false)]
fn map_attr(field: &TypeTreeObjectRef) -> (r: Result<AttrValue, CastError>)
    requires
        field.spec_target() is Some,
        ({
            let t = field.spec_target().unwrap().0.field_type.type_string@;
            scalar_kind(t) is None && !(t == "vector"@ || t == "staticvector"@) && t == "map"@
        }),
    ensures
        r matches Ok(v) ==> map_matches(field.object(), strings_view(field.target_path()), v),
        r is Ok <==> attr_ok(field.object(), strings_view(field.target_path())),
    decreases found_field(field.spec_target()), 0int,
{
    let ghost obj = field.object();
    let ghost fp = strings_view(field.target_path());
    let ghost g = field.spec_target().unwrap().0;
    let ghost o = field.spec_target().unwrap().1;
    let ghost ap = fp.push("Array"@);
    let arr = array_member(field)?;
    let here: Vec<String> = Vec::new();
    proof {
        assert(arr.target_path() + here@ =~= arr.target_path());
    }
    let pairs = match <Vec<(String, TypeTreeObjectRef)> as TryCastFrom<&TypeTreeObjectRef, &[String]>>::try_cast_from(
        &arr,
        here.as_slice(),
    ) {
        Ok(p) => p,
        Err(e) => {
            return Err(e);
        },
    };
    let ghost n = array_len_at(obj, ap)->Ok_0;
    let ghost ents = entries_of(obj, ap, n as nat);
    proof {
        lemma_entry_paths(obj, ap, n as nat);
    }
    let mut out: Vec<(String, AttrValue)> = Vec::new();
    let mut i: usize = 0;
    while i < pairs.len()
        invariant
            i <= pairs@.len(),
            out@.len() == i,
            forall|j: int|
                0 <= j < i ==> (#[trigger] out@[j]).0@ == ents[j].0 && attr_matches(obj, ents[j].1, out@[j].1),
            forall|j: int| 0 <= j < i ==> field_at(obj, #[trigger] ents[j].1) is Some && attr_ok(obj, ents[j].1),
        decreases pairs.len() - i,
    {
        let value = &pairs[i].1;
        assert(entries_view(pairs@)[i as int] == ents[i as int]);
        assert(strings_view(value.target_path()) == ents[i as int].1);
        if value.get_type().is_none() {
            return Err(CastError::CannotGetField);
        }
        proof {
            assert(entries_view(pairs@)[i as int] == ents[i as int]);
            let j = choose|j: nat| #[trigger] ents[i as int].1 == entry_value_path(ap, j);
            let rest = seq!["Array"@, decimal(j), "second"@];
            assert(strings_view(value.target_path()) =~= fp + rest);
            lemma_field_at_append(obj.layout(), fp, rest, None, obj.data(), obj.endian());
            lemma_field_at_inside(g, rest, o, obj.data(), obj.endian());
        }
        let v = match attr_of(value) {
            Ok(v) => v,
            Err(e) => return Err(e),
        };
        out.push((pairs[i].0.clone(), v));
        i = i + 1;
    }
    Ok(AttrValue::Entries(out))
}

impl TypeTreeObjectRef {
    /// The member `attr` of the field this reference points at, as a plain value.
    pub fn get_attr(&self, attr: &str) -> (r: Result<AttrValue, CastError>)
        ensures
            ({
                let p = strings_view(self.target_path()).push(attr@);
                &&& r matches Ok(v) ==> attr_matches(self.object(), p, v)
                &&& field_at(self.object(), p) is None ==> (r matches Err(e) && e == CastError::CannotGetField)
                &&& r is Ok <==> attr_ok(self.object(), p)
            }),
    {
        let path = vec![attr.to_owned()];
        proof {
            assert(strings_view(self.target_path() + path@) =~= strings_view(self.target_path()).push(attr@));
        }
        let field = <TypeTreeObjectRef as TryCastFrom<&TypeTreeObjectRef, &[String]>>::try_cast_from(
            self,
            path.as_slice(),
        )?;
        attr_of(&field)
    }
}

proof fn lemma_attr_i8(obj: TypeTreeObject, path: Seq<Seq<char>>, v: AttrValue)
    requires
        field_at(obj, path) is Some,
        ({
            let (g, o) = field_at(obj, path).unwrap();
            g.data is DataOffset && match spec_scalar_pos(g.model(), FieldCastArgs { endian: obj.endian(), field_offset: o }) {
                Ok(p) => 0 <= p && p + 8 <= obj.data().len(),
                Err(_) => false,
            }
        }),
        ({
            let t = field_at(obj, path).unwrap().0.field_type.type_string@;
            t == "SInt8"@
        }),
    ensures
        ({
    let (g, o) = field_at(obj, path)->0;
            let t = g.field_type.type_string@;
            let p = spec_scalar_pos(g.model(), FieldCastArgs { endian: obj.endian(), field_offset: o })->Ok_0;
            let d = obj.data();
            let big = obj.endian().spec_is_big();
            &&& attr_ok(obj, path)
            &&& attr_matches(obj, path, v) ==> v == AttrValue::I8(d[p] as i8)
        }),
{
    reveal_strlit("string");
    reveal_strlit("bool");
    reveal_strlit("SInt8");
    reveal_strlit("SInt16");
    reveal_strlit("short");
    reveal_strlit("SInt32");
    reveal_strlit("int");
    reveal_strlit("SInt64");
    reveal_strlit("long long");
    reveal_strlit("UInt8");
    reveal_strlit("char");
    reveal_strlit("UInt16");
    reveal_strlit("unsigned short");
    reveal_strlit("UInt32");
    reveal_strlit("unsigned int");
    reveal_strlit("UInt64");
    reveal_strlit("unsigned long long");
    reveal_strlit("FileSize");
    reveal_strlit("float");
    reveal_strlit("double");
    reveal_strlit("vector");
    reveal_strlit("staticvector");
    reveal_strlit("map");
    assert("string"@.len() == 6);
    assert("bool"@.len() == 4);
    assert("SInt8"@.len() == 5);
    assert("SInt16"@.len() == 6);
    assert("short"@.len() == 5);
    assert("SInt32"@.len() == 6);
    assert("int"@.len() == 3);
    assert("SInt64"@.len() == 6);
    assert("long long"@.len() == 9);
    assert("UInt8"@.len() == 5);
    assert("char"@.len() == 4);
    assert("UInt16"@.len() == 6);
    assert("unsigned short"@.len() == 14);
    assert("UInt32"@.len() == 6);
    assert("unsigned int"@.len() == 12);
    assert("UInt64"@.len() == 6);
    assert("unsigned long long"@.len() == 18);
    assert("FileSize"@.len() == 8);
    assert("float"@.len() == 5);
    assert("double"@.len() == 6);
    assert("vector"@.len() == 6);
    assert("staticvector"@.len() == 12);
    assert("map"@.len() == 3);
    assert("string"@[0] != "SInt16"@[0]);
    assert("string"@[0] != "SInt32"@[0]);
    assert("string"@[0] != "SInt64"@[0]);
    assert("string"@[0] != "UInt16"@[0]);
    assert("string"@[0] != "UInt32"@[0]);
    assert("string"@[0] != "UInt64"@[0]);
    assert("string"@[0] != "double"@[0]);
    assert("short"@[0] != "SInt8"@[0]);
    assert("short"@[0] != "UInt8"@[0]);
    assert("short"@[0] != "float"@[0]);
    assert("SInt32"@[4] != "SInt16"@[4]);
    assert("SInt64"@[4] != "SInt16"@[4]);
    assert("SInt64"@[4] != "SInt32"@[4]);
    assert("UInt8"@[0] != "SInt8"@[0]);
    assert("char"@[0] != "bool"@[0]);
    assert("UInt16"@[0] != "SInt16"@[0]);
    assert("UInt16"@[0] != "SInt32"@[0]);
    assert("UInt16"@[0] != "SInt64"@[0]);
    assert("UInt32"@[0] != "SInt16"@[0]);
    assert("UInt32"@[0] != "SInt32"@[0]);
    assert("UInt32"@[0] != "SInt64"@[0]);
    assert("UInt32"@[4] != "UInt16"@[4]);
    assert("unsigned int"@[0] != "staticvector"@[0]);
    assert("UInt64"@[0] != "SInt16"@[0]);
    assert("UInt64"@[0] != "SInt32"@[0]);
    assert("UInt64"@[0] != "SInt64"@[0]);
    assert("UInt64"@[4] != "UInt16"@[4]);
    assert("UInt64"@[4] != "UInt32"@[4]);
    assert("float"@[0] != "SInt8"@[0]);
    assert("float"@[0] != "UInt8"@[0]);
    assert("double"@[0] != "SInt16"@[0]);
    assert("double"@[0] != "SInt32"@[0]);
    assert("double"@[0] != "SInt64"@[0]);
    assert("double"@[0] != "UInt16"@[0]);
    assert("double"@[0] != "UInt32"@[0]);
    assert("double"@[0] != "UInt64"@[0]);
    assert("vector"@[0] != "string"@[0]);
    assert("vector"@[0] != "SInt16"@[0]);
    assert("vector"@[0] != "SInt32"@[0]);
    assert("vector"@[0] != "SInt64"@[0]);
    assert("vector"@[0] != "UInt16"@[0]);
    assert("vector"@[0] != "UInt32"@[0]);
    assert("vector"@[0] != "UInt64"@[0]);
    assert("vector"@[0] != "double"@[0]);
    assert("map"@[0] != "int"@[0]);
    let (g, o) = field_at(obj, path)->0;
    let args = FieldCastArgs { endian: obj.endian(), field_offset: o };
    assert(spec_field_at(obj.layout(), path, None, obj.data(), obj.endian()) == Some((g, o)));
    assert(<Field as TryCast<i8>>::spec_cast(&g, obj.data(), args) == spec_cast_i8(g.model(), obj.data(), args));
}

proof fn lemma_attr_i16(obj: TypeTreeObject, path: Seq<Seq<char>>, v: AttrValue)
    requires
        field_at(obj, path) is Some,
        ({
            let (g, o) = field_at(obj, path).unwrap();
            g.data is DataOffset && match spec_scalar_pos(g.model(), FieldCastArgs { endian: obj.endian(), field_offset: o }) {
                Ok(p) => 0 <= p && p + 8 <= obj.data().len(),
                Err(_) => false,
            }
        }),
        ({
            let t = field_at(obj, path).unwrap().0.field_type.type_string@;
            t == "SInt16"@ || t == "short"@
        }),
    ensures
        ({
    let (g, o) = field_at(obj, path)->0;
            let t = g.field_type.type_string@;
            let p = spec_scalar_pos(g.model(), FieldCastArgs { endian: obj.endian(), field_offset: o })->Ok_0;
            let d = obj.data();
            let big = obj.endian().spec_is_big();
            &&& attr_ok(obj, path)
            &&& attr_matches(obj, path, v) ==> (v matches AttrValue::I16(x) && opt_i16(d, p, big) == Some(x))
        }),
{
    reveal_strlit("string");
    reveal_strlit("bool");
    reveal_strlit("SInt8");
    reveal_strlit("SInt16");
    reveal_strlit("short");
    reveal_strlit("SInt32");
    reveal_strlit("int");
    reveal_strlit("SInt64");
    reveal_strlit("long long");
    reveal_strlit("UInt8");
    reveal_strlit("char");
    reveal_strlit("UInt16");
    reveal_strlit("unsigned short");
    reveal_strlit("UInt32");
    reveal_strlit("unsigned int");
    reveal_strlit("UInt64");
    reveal_strlit("unsigned long long");
    reveal_strlit("FileSize");
    reveal_strlit("float");
    reveal_strlit("double");
    reveal_strlit("vector");
    reveal_strlit("staticvector");
    reveal_strlit("map");
    assert("string"@.len() == 6);
    assert("bool"@.len() == 4);
    assert("SInt8"@.len() == 5);
    assert("SInt16"@.len() == 6);
    assert("short"@.len() == 5);
    assert("SInt32"@.len() == 6);
    assert("int"@.len() == 3);
    assert("SInt64"@.len() == 6);
    assert("long long"@.len() == 9);
    assert("UInt8"@.len() == 5);
    assert("char"@.len() == 4);
    assert("UInt16"@.len() == 6);
    assert("unsigned short"@.len() == 14);
    assert("UInt32"@.len() == 6);
    assert("unsigned int"@.len() == 12);
    assert("UInt64"@.len() == 6);
    assert("unsigned long long"@.len() == 18);
    assert("FileSize"@.len() == 8);
    assert("float"@.len() == 5);
    assert("double"@.len() == 6);
    assert("vector"@.len() == 6);
    assert("staticvector"@.len() == 12);
    assert("map"@.len() == 3);
    assert("string"@[0] != "SInt16"@[0]);
    assert("string"@[0] != "SInt32"@[0]);
    assert("string"@[0] != "SInt64"@[0]);
    assert("string"@[0] != "UInt16"@[0]);
    assert("string"@[0] != "UInt32"@[0]);
    assert("string"@[0] != "UInt64"@[0]);
    assert("string"@[0] != "double"@[0]);
    assert("short"@[0] != "SInt8"@[0]);
    assert("short"@[0] != "UInt8"@[0]);
    assert("short"@[0] != "float"@[0]);
    assert("SInt32"@[4] != "SInt16"@[4]);
    assert("SInt64"@[4] != "SInt16"@[4]);
    assert("SInt64"@[4] != "SInt32"@[4]);
    assert("UInt8"@[0] != "SInt8"@[0]);
    assert("char"@[0] != "bool"@[0]);
    assert("UInt16"@[0] != "SInt16"@[0]);
    assert("UInt16"@[0] != "SInt32"@[0]);
    assert("UInt16"@[0] != "SInt64"@[0]);
    assert("UInt32"@[0] != "SInt16"@[0]);
    assert("UInt32"@[0] != "SInt32"@[0]);
    assert("UInt32"@[0] != "SInt64"@[0]);
    assert("UInt32"@[4] != "UInt16"@[4]);
    assert("unsigned int"@[0] != "staticvector"@[0]);
    assert("UInt64"@[0] != "SInt16"@[0]);
    assert("UInt64"@[0] != "SInt32"@[0]);
    assert("UInt64"@[0] != "SInt64"@[0]);
    assert("UInt64"@[4] != "UInt16"@[4]);
    assert("UInt64"@[4] != "UInt32"@[4]);
    assert("float"@[0] != "SInt8"@[0]);
    assert("float"@[0] != "UInt8"@[0]);
    assert("double"@[0] != "SInt16"@[0]);
    assert("double"@[0] != "SInt32"@[0]);
    assert("double"@[0] != "SInt64"@[0]);
    assert("double"@[0] != "UInt16"@[0]);
    assert("double"@[0] != "UInt32"@[0]);
    assert("double"@[0] != "UInt64"@[0]);
    assert("vector"@[0] != "string"@[0]);
    assert("vector"@[0] != "SInt16"@[0]);
    assert("vector"@[0] != "SInt32"@[0]);
    assert("vector"@[0] != "SInt64"@[0]);
    assert("vector"@[0] != "UInt16"@[0]);
    assert("vector"@[0] != "UInt32"@[0]);
    assert("vector"@[0] != "UInt64"@[0]);
    assert("vector"@[0] != "double"@[0]);
    assert("map"@[0] != "int"@[0]);
    let (g, o) = field_at(obj, path)->0;
    let args = FieldCastArgs { endian: obj.endian(), field_offset: o };
    assert(spec_field_at(obj.layout(), path, None, obj.data(), obj.endian()) == Some((g, o)));
    assert(<Field as TryCast<i16>>::spec_cast(&g, obj.data(), args) == spec_cast_i16(g.model(), obj.data(), args));
}

proof fn lemma_attr_i32(obj: TypeTreeObject, path: Seq<Seq<char>>, v: AttrValue)
    requires
        field_at(obj, path) is Some,
        ({
            let (g, o) = field_at(obj, path).unwrap();
            g.data is DataOffset && match spec_scalar_pos(g.model(), FieldCastArgs { endian: obj.endian(), field_offset: o }) {
                Ok(p) => 0 <= p && p + 8 <= obj.data().len(),
                Err(_) => false,
            }
        }),
        ({
            let t = field_at(obj, path).unwrap().0.field_type.type_string@;
            t == "SInt32"@ || t == "int"@
        }),
    ensures
        ({
    let (g, o) = field_at(obj, path)->0;
            let t = g.field_type.type_string@;
            let p = spec_scalar_pos(g.model(), FieldCastArgs { endian: obj.endian(), field_offset: o })->Ok_0;
            let d = obj.data();
            let big = obj.endian().spec_is_big();
            &&& attr_ok(obj, path)
            &&& attr_matches(obj, path, v) ==> (v matches AttrValue::I32(x) && opt_i32(d, p, big) == Some(x))
        }),
{
    reveal_strlit("string");
    reveal_strlit("bool");
    reveal_strlit("SInt8");
    reveal_strlit("SInt16");
    reveal_strlit("short");
    reveal_strlit("SInt32");
    reveal_strlit("int");
    reveal_strlit("SInt64");
    reveal_strlit("long long");
    reveal_strlit("UInt8");
    reveal_strlit("char");
    reveal_strlit("UInt16");
    reveal_strlit("unsigned short");
    reveal_strlit("UInt32");
    reveal_strlit("unsigned int");
    reveal_strlit("UInt64");
    reveal_strlit("unsigned long long");
    reveal_strlit("FileSize");
    reveal_strlit("float");
    reveal_strlit("double");
    reveal_strlit("vector");
    reveal_strlit("staticvector");
    reveal_strlit("map");
    assert("string"@.len() == 6);
    assert("bool"@.len() == 4);
    assert("SInt8"@.len() == 5);
    assert("SInt16"@.len() == 6);
    assert("short"@.len() == 5);
    assert("SInt32"@.len() == 6);
    assert("int"@.len() == 3);
    assert("SInt64"@.len() == 6);
    assert("long long"@.len() == 9);
    assert("UInt8"@.len() == 5);
    assert("char"@.len() == 4);
    assert("UInt16"@.len() == 6);
    assert("unsigned short"@.len() == 14);
    assert("UInt32"@.len() == 6);
    assert("unsigned int"@.len() == 12);
    assert("UInt64"@.len() == 6);
    assert("unsigned long long"@.len() == 18);
    assert("FileSize"@.len() == 8);
    assert("float"@.len() == 5);
    assert("double"@.len() == 6);
    assert("vector"@.len() == 6);
    assert("staticvector"@.len() == 12);
    assert("map"@.len() == 3);
    assert("string"@[0] != "SInt16"@[0]);
    assert("string"@[0] != "SInt32"@[0]);
    assert("string"@[0] != "SInt64"@[0]);
    assert("string"@[0] != "UInt16"@[0]);
    assert("string"@[0] != "UInt32"@[0]);
    assert("string"@[0] != "UInt64"@[0]);
    assert("string"@[0] != "double"@[0]);
    assert("short"@[0] != "SInt8"@[0]);
    assert("short"@[0] != "UInt8"@[0]);
    assert("short"@[0] != "float"@[0]);
    assert("SInt32"@[4] != "SInt16"@[4]);
    assert("SInt64"@[4] != "SInt16"@[4]);
    assert("SInt64"@[4] != "SInt32"@[4]);
    assert("UInt8"@[0] != "SInt8"@[0]);
    assert("char"@[0] != "bool"@[0]);
    assert("UInt16"@[0] != "SInt16"@[0]);
    assert("UInt16"@[0] != "SInt32"@[0]);
    assert("UInt16"@[0] != "SInt64"@[0]);
    assert("UInt32"@[0] != "SInt16"@[0]);
    assert("UInt32"@[0] != "SInt32"@[0]);
    assert("UInt32"@[0] != "SInt64"@[0]);
    assert("UInt32"@[4] != "UInt16"@[4]);
    assert("unsigned int"@[0] != "staticvector"@[0]);
    assert("UInt64"@[0] != "SInt16"@[0]);
    assert("UInt64"@[0] != "SInt32"@[0]);
    assert("UInt64"@[0] != "SInt64"@[0]);
    assert("UInt64"@[4] != "UInt16"@[4]);
    assert("UInt64"@[4] != "UInt32"@[4]);
    assert("float"@[0] != "SInt8"@[0]);
    assert("float"@[0] != "UInt8"@[0]);
    assert("double"@[0] != "SInt16"@[0]);
    assert("double"@[0] != "SInt32"@[0]);
    assert("double"@[0] != "SInt64"@[0]);
    assert("double"@[0] != "UInt16"@[0]);
    assert("double"@[0] != "UInt32"@[0]);
    assert("double"@[0] != "UInt64"@[0]);
    assert("vector"@[0] != "string"@[0]);
    assert("vector"@[0] != "SInt16"@[0]);
    assert("vector"@[0] != "SInt32"@[0]);
    assert("vector"@[0] != "SInt64"@[0]);
    assert("vector"@[0] != "UInt16"@[0]);
    assert("vector"@[0] != "UInt32"@[0]);
    assert("vector"@[0] != "UInt64"@[0]);
    assert("vector"@[0] != "double"@[0]);
    assert("map"@[0] != "int"@[0]);
    let (g, o) = field_at(obj, path)->0;
    let args = FieldCastArgs { endian: obj.endian(), field_offset: o };
    assert(spec_field_at(obj.layout(), path, None, obj.data(), obj.endian()) == Some((g, o)));
    assert(<Field as TryCast<i32>>::spec_cast(&g, obj.data(), args) == spec_cast_i32(g.model(), obj.data(), args));
}

proof fn lemma_attr_i64(obj: TypeTreeObject, path: Seq<Seq<char>>, v: AttrValue)
    requires
        field_at(obj, path) is Some,
        ({
            let (g, o) = field_at(obj, path).unwrap();
            g.data is DataOffset && match spec_scalar_pos(g.model(), FieldCastArgs { endian: obj.endian(), field_offset: o }) {
                Ok(p) => 0 <= p && p + 8 <= obj.data().len(),
                Err(_) => false,
            }
        }),
        ({
            let t = field_at(obj, path).unwrap().0.field_type.type_string@;
            t == "SInt64"@ || t == "long long"@
        }),
    ensures
        ({
    let (g, o) = field_at(obj, path)->0;
            let t = g.field_type.type_string@;
            let p = spec_scalar_pos(g.model(), FieldCastArgs { endian: obj.endian(), field_offset: o })->Ok_0;
            let d = obj.data();
            let big = obj.endian().spec_is_big();
            &&& attr_ok(obj, path)
            &&& attr_matches(obj, path, v) ==> (v matches AttrValue::I64(x) && opt_i64(d, p, big) == Some(x))
        }),
{
    reveal_strlit("string");
    reveal_strlit("bool");
    reveal_strlit("SInt8");
    reveal_strlit("SInt16");
    reveal_strlit("short");
    reveal_strlit("SInt32");
    reveal_strlit("int");
    reveal_strlit("SInt64");
    reveal_strlit("long long");
    reveal_strlit("UInt8");
    reveal_strlit("char");
    reveal_strlit("UInt16");
    reveal_strlit("unsigned short");
    reveal_strlit("UInt32");
    reveal_strlit("unsigned int");
    reveal_strlit("UInt64");
    reveal_strlit("unsigned long long");
    reveal_strlit("FileSize");
    reveal_strlit("float");
    reveal_strlit("double");
    reveal_strlit("vector");
    reveal_strlit("staticvector");
    reveal_strlit("map");
    assert("string"@.len() == 6);
    assert("bool"@.len() == 4);
    assert("SInt8"@.len() == 5);
    assert("SInt16"@.len() == 6);
    assert("short"@.len() == 5);
    assert("SInt32"@.len() == 6);
    assert("int"@.len() == 3);
    assert("SInt64"@.len() == 6);
    assert("long long"@.len() == 9);
    assert("UInt8"@.len() == 5);
    assert("char"@.len() == 4);
    assert("UInt16"@.len() == 6);
    assert("unsigned short"@.len() == 14);
    assert("UInt32"@.len() == 6);
    assert("unsigned int"@.len() == 12);
    assert("UInt64"@.len() == 6);
    assert("unsigned long long"@.len() == 18);
    assert("FileSize"@.len() == 8);
    assert("float"@.len() == 5);
    assert("double"@.len() == 6);
    assert("vector"@.len() == 6);
    assert("staticvector"@.len() == 12);
    assert("map"@.len() == 3);
    assert("string"@[0] != "SInt16"@[0]);
    assert("string"@[0] != "SInt32"@[0]);
    assert("string"@[0] != "SInt64"@[0]);
    assert("string"@[0] != "UInt16"@[0]);
    assert("string"@[0] != "UInt32"@[0]);
    assert("string"@[0] != "UInt64"@[0]);
    assert("string"@[0] != "double"@[0]);
    assert("short"@[0] != "SInt8"@[0]);
    assert("short"@[0] != "UInt8"@[0]);
    assert("short"@[0] != "float"@[0]);
    assert("SInt32"@[4] != "SInt16"@[4]);
    assert("SInt64"@[4] != "SInt16"@[4]);
    assert("SInt64"@[4] != "SInt32"@[4]);
    assert("UInt8"@[0] != "SInt8"@[0]);
    assert("char"@[0] != "bool"@[0]);
    assert("UInt16"@[0] != "SInt16"@[0]);
    assert("UInt16"@[0] != "SInt32"@[0]);
    assert("UInt16"@[0] != "SInt64"@[0]);
    assert("UInt32"@[0] != "SInt16"@[0]);
    assert("UInt32"@[0] != "SInt32"@[0]);
    assert("UInt32"@[0] != "SInt64"@[0]);
    assert("UInt32"@[4] != "UInt16"@[4]);
    assert("unsigned int"@[0] != "staticvector"@[0]);
    assert("UInt64"@[0] != "SInt16"@[0]);
    assert("UInt64"@[0] != "SInt32"@[0]);
    assert("UInt64"@[0] != "SInt64"@[0]);
    assert("UInt64"@[4] != "UInt16"@[4]);
    assert("UInt64"@[4] != "UInt32"@[4]);
    assert("float"@[0] != "SInt8"@[0]);
    assert("float"@[0] != "UInt8"@[0]);
    assert("double"@[0] != "SInt16"@[0]);
    assert("double"@[0] != "SInt32"@[0]);
    assert("double"@[0] != "SInt64"@[0]);
    assert("double"@[0] != "UInt16"@[0]);
    assert("double"@[0] != "UInt32"@[0]);
    assert("double"@[0] != "UInt64"@[0]);
    assert("vector"@[0] != "string"@[0]);
    assert("vector"@[0] != "SInt16"@[0]);
    assert("vector"@[0] != "SInt32"@[0]);
    assert("vector"@[0] != "SInt64"@[0]);
    assert("vector"@[0] != "UInt16"@[0]);
    assert("vector"@[0] != "UInt32"@[0]);
    assert("vector"@[0] != "UInt64"@[0]);
    assert("vector"@[0] != "double"@[0]);
    assert("map"@[0] != "int"@[0]);
    let (g, o) = field_at(obj, path)->0;
    let args = FieldCastArgs { endian: obj.endian(), field_offset: o };
    assert(spec_field_at(obj.layout(), path, None, obj.data(), obj.endian()) == Some((g, o)));
    assert(<Field as TryCast<i64>>::spec_cast(&g, obj.data(), args) == spec_cast_i64(g.model(), obj.data(), args));
}

proof fn lemma_attr_u8(obj: TypeTreeObject, path: Seq<Seq<char>>, v: AttrValue)
    requires
        field_at(obj, path) is Some,
        ({
            let (g, o) = field_at(obj, path).unwrap();
            g.data is DataOffset && match spec_scalar_pos(g.model(), FieldCastArgs { endian: obj.endian(), field_offset: o }) {
                Ok(p) => 0 <= p && p + 8 <= obj.data().len(),
                Err(_) => false,
            }
        }),
        ({
            let t = field_at(obj, path).unwrap().0.field_type.type_string@;
            t == "UInt8"@ || t == "char"@
        }),
    ensures
        ({
    let (g, o) = field_at(obj, path)->0;
            let t = g.field_type.type_string@;
            let p = spec_scalar_pos(g.model(), FieldCastArgs { endian: obj.endian(), field_offset: o })->Ok_0;
            let d = obj.data();
            let big = obj.endian().spec_is_big();
            &&& attr_ok(obj, path)
            &&& attr_matches(obj, path, v) ==> v == AttrValue::U8(d[p])
        }),
{
    reveal_strlit("string");
    reveal_strlit("bool");
    reveal_strlit("SInt8");
    reveal_strlit("SInt16");
    reveal_strlit("short");
    reveal_strlit("SInt32");
    reveal_strlit("int");
    reveal_strlit("SInt64");
    reveal_strlit("long long");
    reveal_strlit("UInt8");
    reveal_strlit("char");
    reveal_strlit("UInt16");
    reveal_strlit("unsigned short");
    reveal_strlit("UInt32");
    reveal_strlit("unsigned int");
    reveal_strlit("UInt64");
    reveal_strlit("unsigned long long");
    reveal_strlit("FileSize");
    reveal_strlit("float");
    reveal_strlit("double");
    reveal_strlit("vector");
    reveal_strlit("staticvector");
    reveal_strlit("map");
    assert("string"@.len() == 6);
    assert("bool"@.len() == 4);
    assert("SInt8"@.len() == 5);
    assert("SInt16"@.len() == 6);
    assert("short"@.len() == 5);
    assert("SInt32"@.len() == 6);
    assert("int"@.len() == 3);
    assert("SInt64"@.len() == 6);
    assert("long long"@.len() == 9);
    assert("UInt8"@.len() == 5);
    assert("char"@.len() == 4);
    assert("UInt16"@.len() == 6);
    assert("unsigned short"@.len() == 14);
    assert("UInt32"@.len() == 6);
    assert("unsigned int"@.len() == 12);
    assert("UInt64"@.len() == 6);
    assert("unsigned long long"@.len() == 18);
    assert("FileSize"@.len() == 8);
    assert("float"@.len() == 5);
    assert("double"@.len() == 6);
    assert("vector"@.len() == 6);
    assert("staticvector"@.len() == 12);
    assert("map"@.len() == 3);
    assert("string"@[0] != "SInt16"@[0]);
    assert("string"@[0] != "SInt32"@[0]);
    assert("string"@[0] != "SInt64"@[0]);
    assert("string"@[0] != "UInt16"@[0]);
    assert("string"@[0] != "UInt32"@[0]);
    assert("string"@[0] != "UInt64"@[0]);
    assert("string"@[0] != "double"@[0]);
    assert("short"@[0] != "SInt8"@[0]);
    assert("short"@[0] != "UInt8"@[0]);
    assert("short"@[0] != "float"@[0]);
    assert("SInt32"@[4] != "SInt16"@[4]);
    assert("SInt64"@[4] != "SInt16"@[4]);
    assert("SInt64"@[4] != "SInt32"@[4]);
    assert("UInt8"@[0] != "SInt8"@[0]);
    assert("char"@[0] != "bool"@[0]);
    assert("UInt16"@[0] != "SInt16"@[0]);
    assert("UInt16"@[0] != "SInt32"@[0]);
    assert("UInt16"@[0] != "SInt64"@[0]);
    assert("UInt32"@[0] != "SInt16"@[0]);
    assert("UInt32"@[0] != "SInt32"@[0]);
    assert("UInt32"@[0] != "SInt64"@[0]);
    assert("UInt32"@[4] != "UInt16"@[4]);
    assert("unsigned int"@[0] != "staticvector"@[0]);
    assert("UInt64"@[0] != "SInt16"@[0]);
    assert("UInt64"@[0] != "SInt32"@[0]);
    assert("UInt64"@[0] != "SInt64"@[0]);
    assert("UInt64"@[4] != "UInt16"@[4]);
    assert("UInt64"@[4] != "UInt32"@[4]);
    assert("float"@[0] != "SInt8"@[0]);
    assert("float"@[0] != "UInt8"@[0]);
    assert("double"@[0] != "SInt16"@[0]);
    assert("double"@[0] != "SInt32"@[0]);
    assert("double"@[0] != "SInt64"@[0]);
    assert("double"@[0] != "UInt16"@[0]);
    assert("double"@[0] != "UInt32"@[0]);
    assert("double"@[0] != "UInt64"@[0]);
    assert("vector"@[0] != "string"@[0]);
    assert("vector"@[0] != "SInt16"@[0]);
    assert("vector"@[0] != "SInt32"@[0]);
    assert("vector"@[0] != "SInt64"@[0]);
    assert("vector"@[0] != "UInt16"@[0]);
    assert("vector"@[0] != "UInt32"@[0]);
    assert("vector"@[0] != "UInt64"@[0]);
    assert("vector"@[0] != "double"@[0]);
    assert("map"@[0] != "int"@[0]);
    let (g, o) = field_at(obj, path)->0;
    let args = FieldCastArgs { endian: obj.endian(), field_offset: o };
    assert(spec_field_at(obj.layout(), path, None, obj.data(), obj.endian()) == Some((g, o)));
    assert(<Field as TryCast<u8>>::spec_cast(&g, obj.data(), args) == spec_cast_u8(g.model(), obj.data(), args));
}

proof fn lemma_attr_u16(obj: TypeTreeObject, path: Seq<Seq<char>>, v: AttrValue)
    requires
        field_at(obj, path) is Some,
        ({
            let (g, o) = field_at(obj, path).unwrap();
            g.data is DataOffset && match spec_scalar_pos(g.model(), FieldCastArgs { endian: obj.endian(), field_offset: o }) {
                Ok(p) => 0 <= p && p + 8 <= obj.data().len(),
                Err(_) => false,
            }
        }),
        ({
            let t = field_at(obj, path).unwrap().0.field_type.type_string@;
            t == "UInt16"@ || t == "unsigned short"@
        }),
    ensures
        ({
    let (g, o) = field_at(obj, path)->0;
            let t = g.field_type.type_string@;
            let p = spec_scalar_pos(g.model(), FieldCastArgs { endian: obj.endian(), field_offset: o })->Ok_0;
            let d = obj.data();
            let big = obj.endian().spec_is_big();
            &&& attr_ok(obj, path)
            &&& attr_matches(obj, path, v) ==> (v matches AttrValue::U16(x) && opt_u16(d, p, big) == Some(x))
        }),
{
    reveal_strlit("string");
    reveal_strlit("bool");
    reveal_strlit("SInt8");
    reveal_strlit("SInt16");
    reveal_strlit("short");
    reveal_strlit("SInt32");
    reveal_strlit("int");
    reveal_strlit("SInt64");
    reveal_strlit("long long");
    reveal_strlit("UInt8");
    reveal_strlit("char");
    reveal_strlit("UInt16");
    reveal_strlit("unsigned short");
    reveal_strlit("UInt32");
    reveal_strlit("unsigned int");
    reveal_strlit("UInt64");
    reveal_strlit("unsigned long long");
    reveal_strlit("FileSize");
    reveal_strlit("float");
    reveal_strlit("double");
    reveal_strlit("vector");
    reveal_strlit("staticvector");
    reveal_strlit("map");
    assert("string"@.len() == 6);
    assert("bool"@.len() == 4);
    assert("SInt8"@.len() == 5);
    assert("SInt16"@.len() == 6);
    assert("short"@.len() == 5);
    assert("SInt32"@.len() == 6);
    assert("int"@.len() == 3);
    assert("SInt64"@.len() == 6);
    assert("long long"@.len() == 9);
    assert("UInt8"@.len() == 5);
    assert("char"@.len() == 4);
    assert("UInt16"@.len() == 6);
    assert("unsigned short"@.len() == 14);
    assert("UInt32"@.len() == 6);
    assert("unsigned int"@.len() == 12);
    assert("UInt64"@.len() == 6);
    assert("unsigned long long"@.len() == 18);
    assert("FileSize"@.len() == 8);
    assert("float"@.len() == 5);
    assert("double"@.len() == 6);
    assert("vector"@.len() == 6);
    assert("staticvector"@.len() == 12);
    assert("map"@.len() == 3);
    assert("string"@[0] != "SInt16"@[0]);
    assert("string"@[0] != "SInt32"@[0]);
    assert("string"@[0] != "SInt64"@[0]);
    assert("string"@[0] != "UInt16"@[0]);
    assert("string"@[0] != "UInt32"@[0]);
    assert("string"@[0] != "UInt64"@[0]);
    assert("string"@[0] != "double"@[0]);
    assert("short"@[0] != "SInt8"@[0]);
    assert("short"@[0] != "UInt8"@[0]);
    assert("short"@[0] != "float"@[0]);
    assert("SInt32"@[4] != "SInt16"@[4]);
    assert("SInt64"@[4] != "SInt16"@[4]);
    assert("SInt64"@[4] != "SInt32"@[4]);
    assert("UInt8"@[0] != "SInt8"@[0]);
    assert("char"@[0] != "bool"@[0]);
    assert("UInt16"@[0] != "SInt16"@[0]);
    assert("UInt16"@[0] != "SInt32"@[0]);
    assert("UInt16"@[0] != "SInt64"@[0]);
    assert("UInt32"@[0] != "SInt16"@[0]);
    assert("UInt32"@[0] != "SInt32"@[0]);
    assert("UInt32"@[0] != "SInt64"@[0]);
    assert("UInt32"@[4] != "UInt16"@[4]);
    assert("unsigned int"@[0] != "staticvector"@[0]);
    assert("UInt64"@[0] != "SInt16"@[0]);
    assert("UInt64"@[0] != "SInt32"@[0]);
    assert("UInt64"@[0] != "SInt64"@[0]);
    assert("UInt64"@[4] != "UInt16"@[4]);
    assert("UInt64"@[4] != "UInt32"@[4]);
    assert("float"@[0] != "SInt8"@[0]);
    assert("float"@[0] != "UInt8"@[0]);
    assert("double"@[0] != "SInt16"@[0]);
    assert("double"@[0] != "SInt32"@[0]);
    assert("double"@[0] != "SInt64"@[0]);
    assert("double"@[0] != "UInt16"@[0]);
    assert("double"@[0] != "UInt32"@[0]);
    assert("double"@[0] != "UInt64"@[0]);
    assert("vector"@[0] != "string"@[0]);
    assert("vector"@[0] != "SInt16"@[0]);
    assert("vector"@[0] != "SInt32"@[0]);
    assert("vector"@[0] != "SInt64"@[0]);
    assert("vector"@[0] != "UInt16"@[0]);
    assert("vector"@[0] != "UInt32"@[0]);
    assert("vector"@[0] != "UInt64"@[0]);
    assert("vector"@[0] != "double"@[0]);
    assert("map"@[0] != "int"@[0]);
    let (g, o) = field_at(obj, path)->0;
    let args = FieldCastArgs { endian: obj.endian(), field_offset: o };
    assert(spec_field_at(obj.layout(), path, None, obj.data(), obj.endian()) == Some((g, o)));
    assert(<Field as TryCast<u16>>::spec_cast(&g, obj.data(), args) == spec_cast_u16(g.model(), obj.data(), args));
}

proof fn lemma_attr_u32(obj: TypeTreeObject, path: Seq<Seq<char>>, v: AttrValue)
    requires
        field_at(obj, path) is Some,
        ({
            let (g, o) = field_at(obj, path).unwrap();
            g.data is DataOffset && match spec_scalar_pos(g.model(), FieldCastArgs { endian: obj.endian(), field_offset: o }) {
                Ok(p) => 0 <= p && p + 8 <= obj.data().len(),
                Err(_) => false,
            }
        }),
        ({
            let t = field_at(obj, path).unwrap().0.field_type.type_string@;
            t == "UInt32"@ || t == "unsigned int"@
        }),
    ensures
        ({
    let (g, o) = field_at(obj, path)->0;
            let t = g.field_type.type_string@;
            let p = spec_scalar_pos(g.model(), FieldCastArgs { endian: obj.endian(), field_offset: o })->Ok_0;
            let d = obj.data();
            let big = obj.endian().spec_is_big();
            &&& attr_ok(obj, path)
            &&& attr_matches(obj, path, v) ==> (v matches AttrValue::U32(x) && opt_u32(d, p, big) == Some(x))
        }),
{
    reveal_strlit("string");
    reveal_strlit("bool");
    reveal_strlit("SInt8");
    reveal_strlit("SInt16");
    reveal_strlit("short");
    reveal_strlit("SInt32");
    reveal_strlit("int");
    reveal_strlit("SInt64");
    reveal_strlit("long long");
    reveal_strlit("UInt8");
    reveal_strlit("char");
    reveal_strlit("UInt16");
    reveal_strlit("unsigned short");
    reveal_strlit("UInt32");
    reveal_strlit("unsigned int");
    reveal_strlit("UInt64");
    reveal_strlit("unsigned long long");
    reveal_strlit("FileSize");
    reveal_strlit("float");
    reveal_strlit("double");
    reveal_strlit("vector");
    reveal_strlit("staticvector");
    reveal_strlit("map");
    assert("string"@.len() == 6);
    assert("bool"@.len() == 4);
    assert("SInt8"@.len() == 5);
    assert("SInt16"@.len() == 6);
    assert("short"@.len() == 5);
    assert("SInt32"@.len() == 6);
    assert("int"@.len() == 3);
    assert("SInt64"@.len() == 6);
    assert("long long"@.len() == 9);
    assert("UInt8"@.len() == 5);
    assert("char"@.len() == 4);
    assert("UInt16"@.len() == 6);
    assert("unsigned short"@.len() == 14);
    assert("UInt32"@.len() == 6);
    assert("unsigned int"@.len() == 12);
    assert("UInt64"@.len() == 6);
    assert("unsigned long long"@.len() == 18);
    assert("FileSize"@.len() == 8);
    assert("float"@.len() == 5);
    assert("double"@.len() == 6);
    assert("vector"@.len() == 6);
    assert("staticvector"@.len() == 12);
    assert("map"@.len() == 3);
    assert("string"@[0] != "SInt16"@[0]);
    assert("string"@[0] != "SInt32"@[0]);
    assert("string"@[0] != "SInt64"@[0]);
    assert("string"@[0] != "UInt16"@[0]);
    assert("string"@[0] != "UInt32"@[0]);
    assert("string"@[0] != "UInt64"@[0]);
    assert("string"@[0] != "double"@[0]);
    assert("short"@[0] != "SInt8"@[0]);
    assert("short"@[0] != "UInt8"@[0]);
    assert("short"@[0] != "float"@[0]);
    assert("SInt32"@[4] != "SInt16"@[4]);
    assert("SInt64"@[4] != "SInt16"@[4]);
    assert("SInt64"@[4] != "SInt32"@[4]);
    assert("UInt8"@[0] != "SInt8"@[0]);
    assert("char"@[0] != "bool"@[0]);
    assert("UInt16"@[0] != "SInt16"@[0]);
    assert("UInt16"@[0] != "SInt32"@[0]);
    assert("UInt16"@[0] != "SInt64"@[0]);
    assert("UInt32"@[0] != "SInt16"@[0]);
    assert("UInt32"@[0] != "SInt32"@[0]);
    assert("UInt32"@[0] != "SInt64"@[0]);
    assert("UInt32"@[4] != "UInt16"@[4]);
    assert("unsigned int"@[0] != "staticvector"@[0]);
    assert("UInt64"@[0] != "SInt16"@[0]);
    assert("UInt64"@[0] != "SInt32"@[0]);
    assert("UInt64"@[0] != "SInt64"@[0]);
    assert("UInt64"@[4] != "UInt16"@[4]);
    assert("UInt64"@[4] != "UInt32"@[4]);
    assert("float"@[0] != "SInt8"@[0]);
    assert("float"@[0] != "UInt8"@[0]);
    assert("double"@[0] != "SInt16"@[0]);
    assert("double"@[0] != "SInt32"@[0]);
    assert("double"@[0] != "SInt64"@[0]);
    assert("double"@[0] != "UInt16"@[0]);
    assert("double"@[0] != "UInt32"@[0]);
    assert("double"@[0] != "UInt64"@[0]);
    assert("vector"@[0] != "string"@[0]);
    assert("vector"@[0] != "SInt16"@[0]);
    assert("vector"@[0] != "SInt32"@[0]);
    assert("vector"@[0] != "SInt64"@[0]);
    assert("vector"@[0] != "UInt16"@[0]);
    assert("vector"@[0] != "UInt32"@[0]);
    assert("vector"@[0] != "UInt64"@[0]);
    assert("vector"@[0] != "double"@[0]);
    assert("map"@[0] != "int"@[0]);
    let (g, o) = field_at(obj, path)->0;
    let args = FieldCastArgs { endian: obj.endian(), field_offset: o };
    assert(spec_field_at(obj.layout(), path, None, obj.data(), obj.endian()) == Some((g, o)));
    assert(<Field as TryCast<u32>>::spec_cast(&g, obj.data(), args) == spec_cast_u32(g.model(), obj.data(), args));
}

proof fn lemma_attr_u64(obj: TypeTreeObject, path: Seq<Seq<char>>, v: AttrValue)
    requires
        field_at(obj, path) is Some,
        ({
            let (g, o) = field_at(obj, path).unwrap();
            g.data is DataOffset && match spec_scalar_pos(g.model(), FieldCastArgs { endian: obj.endian(), field_offset: o }) {
                Ok(p) => 0 <= p && p + 8 <= obj.data().len(),
                Err(_) => false,
            }
        }),
        ({
            let t = field_at(obj, path).unwrap().0.field_type.type_string@;
            t == "UInt64"@ || t == "unsigned long long"@
        }),
    ensures
        ({
    let (g, o) = field_at(obj, path)->0;
            let t = g.field_type.type_string@;
            let p = spec_scalar_pos(g.model(), FieldCastArgs { endian: obj.endian(), field_offset: o })->Ok_0;
            let d = obj.data();
            let big = obj.endian().spec_is_big();
            &&& attr_ok(obj, path)
            &&& attr_matches(obj, path, v) ==> (v matches AttrValue::U64(x) && opt_u64(d, p, big) == Some(x))
        }),
{
    reveal_strlit("string");
    reveal_strlit("bool");
    reveal_strlit("SInt8");
    reveal_strlit("SInt16");
    reveal_strlit("short");
    reveal_strlit("SInt32");
    reveal_strlit("int");
    reveal_strlit("SInt64");
    reveal_strlit("long long");
    reveal_strlit("UInt8");
    reveal_strlit("char");
    reveal_strlit("UInt16");
    reveal_strlit("unsigned short");
    reveal_strlit("UInt32");
    reveal_strlit("unsigned int");
    reveal_strlit("UInt64");
    reveal_strlit("unsigned long long");
    reveal_strlit("FileSize");
    reveal_strlit("float");
    reveal_strlit("double");
    reveal_strlit("vector");
    reveal_strlit("staticvector");
    reveal_strlit("map");
    assert("string"@.len() == 6);
    assert("bool"@.len() == 4);
    assert("SInt8"@.len() == 5);
    assert("SInt16"@.len() == 6);
    assert("short"@.len() == 5);
    assert("SInt32"@.len() == 6);
    assert("int"@.len() == 3);
    assert("SInt64"@.len() == 6);
    assert("long long"@.len() == 9);
    assert("UInt8"@.len() == 5);
    assert("char"@.len() == 4);
    assert("UInt16"@.len() == 6);
    assert("unsigned short"@.len() == 14);
    assert("UInt32"@.len() == 6);
    assert("unsigned int"@.len() == 12);
    assert("UInt64"@.len() == 6);
    assert("unsigned long long"@.len() == 18);
    assert("FileSize"@.len() == 8);
    assert("float"@.len() == 5);
    assert("double"@.len() == 6);
    assert("vector"@.len() == 6);
    assert("staticvector"@.len() == 12);
    assert("map"@.len() == 3);
    assert("string"@[0] != "SInt16"@[0]);
    assert("string"@[0] != "SInt32"@[0]);
    assert("string"@[0] != "SInt64"@[0]);
    assert("string"@[0] != "UInt16"@[0]);
    assert("string"@[0] != "UInt32"@[0]);
    assert("string"@[0] != "UInt64"@[0]);
    assert("string"@[0] != "double"@[0]);
    assert("short"@[0] != "SInt8"@[0]);
    assert("short"@[0] != "UInt8"@[0]);
    assert("short"@[0] != "float"@[0]);
    assert("SInt32"@[4] != "SInt16"@[4]);
    assert("SInt64"@[4] != "SInt16"@[4]);
    assert("SInt64"@[4] != "SInt32"@[4]);
    assert("UInt8"@[0] != "SInt8"@[0]);
    assert("char"@[0] != "bool"@[0]);
    assert("UInt16"@[0] != "SInt16"@[0]);
    assert("UInt16"@[0] != "SInt32"@[0]);
    assert("UInt16"@[0] != "SInt64"@[0]);
    assert("UInt32"@[0] != "SInt16"@[0]);
    assert("UInt32"@[0] != "SInt32"@[0]);
    assert("UInt32"@[0] != "SInt64"@[0]);
    assert("UInt32"@[4] != "UInt16"@[4]);
    assert("unsigned int"@[0] != "staticvector"@[0]);
    assert("UInt64"@[0] != "SInt16"@[0]);
    assert("UInt64"@[0] != "SInt32"@[0]);
    assert("UInt64"@[0] != "SInt64"@[0]);
    assert("UInt64"@[4] != "UInt16"@[4]);
    assert("UInt64"@[4] != "UInt32"@[4]);
    assert("float"@[0] != "SInt8"@[0]);
    assert("float"@[0] != "UInt8"@[0]);
    assert("double"@[0] != "SInt16"@[0]);
    assert("double"@[0] != "SInt32"@[0]);
    assert("double"@[0] != "SInt64"@[0]);
    assert("double"@[0] != "UInt16"@[0]);
    assert("double"@[0] != "UInt32"@[0]);
    assert("double"@[0] != "UInt64"@[0]);
    assert("vector"@[0] != "string"@[0]);
    assert("vector"@[0] != "SInt16"@[0]);
    assert("vector"@[0] != "SInt32"@[0]);
    assert("vector"@[0] != "SInt64"@[0]);
    assert("vector"@[0] != "UInt16"@[0]);
    assert("vector"@[0] != "UInt32"@[0]);
    assert("vector"@[0] != "UInt64"@[0]);
    assert("vector"@[0] != "double"@[0]);
    assert("map"@[0] != "int"@[0]);
    let (g, o) = field_at(obj, path)->0;
    let args = FieldCastArgs { endian: obj.endian(), field_offset: o };
    assert(spec_field_at(obj.layout(), path, None, obj.data(), obj.endian()) == Some((g, o)));
    assert(<Field as TryCast<u64>>::spec_cast(&g, obj.data(), args) == spec_cast_u64(g.model(), obj.data(), args));
}

proof fn lemma_attr_bool(obj: TypeTreeObject, path: Seq<Seq<char>>, v: AttrValue)
    requires
        field_at(obj, path) is Some,
        ({
            let (g, o) = field_at(obj, path).unwrap();
            g.data is DataOffset && match spec_scalar_pos(g.model(), FieldCastArgs { endian: obj.endian(), field_offset: o }) {
                Ok(p) => 0 <= p && p + 8 <= obj.data().len(),
                Err(_) => false,
            }
        }),
        ({
            let t = field_at(obj, path).unwrap().0.field_type.type_string@;
            t == "bool"@
        }),
    ensures
        ({
    let (g, o) = field_at(obj, path)->0;
            let t = g.field_type.type_string@;
            let p = spec_scalar_pos(g.model(), FieldCastArgs { endian: obj.endian(), field_offset: o })->Ok_0;
            let d = obj.data();
            let big = obj.endian().spec_is_big();
            &&& attr_ok(obj, path)
            &&& attr_matches(obj, path, v) ==> v == AttrValue::Bool(d[p] != 0)
        }),
{
    reveal_strlit("string");
    reveal_strlit("bool");
    reveal_strlit("SInt8");
    reveal_strlit("SInt16");
    reveal_strlit("short");
    reveal_strlit("SInt32");
    reveal_strlit("int");
    reveal_strlit("SInt64");
    reveal_strlit("long long");
    reveal_strlit("UInt8");
    reveal_strlit("char");
    reveal_strlit("UInt16");
    reveal_strlit("unsigned short");
    reveal_strlit("UInt32");
    reveal_strlit("unsigned int");
    reveal_strlit("UInt64");
    reveal_strlit("unsigned long long");
    reveal_strlit("FileSize");
    reveal_strlit("float");
    reveal_strlit("double");
    reveal_strlit("vector");
    reveal_strlit("staticvector");
    reveal_strlit("map");
    assert("string"@.len() == 6);
    assert("bool"@.len() == 4);
    assert("SInt8"@.len() == 5);
    assert("SInt16"@.len() == 6);
    assert("short"@.len() == 5);
    assert("SInt32"@.len() == 6);
    assert("int"@.len() == 3);
    assert("SInt64"@.len() == 6);
    assert("long long"@.len() == 9);
    assert("UInt8"@.len() == 5);
    assert("char"@.len() == 4);
    assert("UInt16"@.len() == 6);
    assert("unsigned short"@.len() == 14);
    assert("UInt32"@.len() == 6);
    assert("unsigned int"@.len() == 12);
    assert("UInt64"@.len() == 6);
    assert("unsigned long long"@.len() == 18);
    assert("FileSize"@.len() == 8);
    assert("float"@.len() == 5);
    assert("double"@.len() == 6);
    assert("vector"@.len() == 6);
    assert("staticvector"@.len() == 12);
    assert("map"@.len() == 3);
    assert("string"@[0] != "SInt16"@[0]);
    assert("string"@[0] != "SInt32"@[0]);
    assert("string"@[0] != "SInt64"@[0]);
    assert("string"@[0] != "UInt16"@[0]);
    assert("string"@[0] != "UInt32"@[0]);
    assert("string"@[0] != "UInt64"@[0]);
    assert("string"@[0] != "double"@[0]);
    assert("short"@[0] != "SInt8"@[0]);
    assert("short"@[0] != "UInt8"@[0]);
    assert("short"@[0] != "float"@[0]);
    assert("SInt32"@[4] != "SInt16"@[4]);
    assert("SInt64"@[4] != "SInt16"@[4]);
    assert("SInt64"@[4] != "SInt32"@[4]);
    assert("UInt8"@[0] != "SInt8"@[0]);
    assert("char"@[0] != "bool"@[0]);
    assert("UInt16"@[0] != "SInt16"@[0]);
    assert("UInt16"@[0] != "SInt32"@[0]);
    assert("UInt16"@[0] != "SInt64"@[0]);
    assert("UInt32"@[0] != "SInt16"@[0]);
    assert("UInt32"@[0] != "SInt32"@[0]);
    assert("UInt32"@[0] != "SInt64"@[0]);
    assert("UInt32"@[4] != "UInt16"@[4]);
    assert("unsigned int"@[0] != "staticvector"@[0]);
    assert("UInt64"@[0] != "SInt16"@[0]);
    assert("UInt64"@[0] != "SInt32"@[0]);
    assert("UInt64"@[0] != "SInt64"@[0]);
    assert("UInt64"@[4] != "UInt16"@[4]);
    assert("UInt64"@[4] != "UInt32"@[4]);
    assert("float"@[0] != "SInt8"@[0]);
    assert("float"@[0] != "UInt8"@[0]);
    assert("double"@[0] != "SInt16"@[0]);
    assert("double"@[0] != "SInt32"@[0]);
    assert("double"@[0] != "SInt64"@[0]);
    assert("double"@[0] != "UInt16"@[0]);
    assert("double"@[0] != "UInt32"@[0]);
    assert("double"@[0] != "UInt64"@[0]);
    assert("vector"@[0] != "string"@[0]);
    assert("vector"@[0] != "SInt16"@[0]);
    assert("vector"@[0] != "SInt32"@[0]);
    assert("vector"@[0] != "SInt64"@[0]);
    assert("vector"@[0] != "UInt16"@[0]);
    assert("vector"@[0] != "UInt32"@[0]);
    assert("vector"@[0] != "UInt64"@[0]);
    assert("vector"@[0] != "double"@[0]);
    assert("map"@[0] != "int"@[0]);
    let (g, o) = field_at(obj, path)->0;
    let args = FieldCastArgs { endian: obj.endian(), field_offset: o };
    assert(spec_field_at(obj.layout(), path, None, obj.data(), obj.endian()) == Some((g, o)));
    assert(<Field as TryCast<bool>>::spec_cast(&g, obj.data(), args) == spec_cast_bool(g.model(), obj.data(), args));
}

proof fn lemma_attr_f32(obj: TypeTreeObject, path: Seq<Seq<char>>, v: AttrValue)
    requires
        field_at(obj, path) is Some,
        ({
            let (g, o) = field_at(obj, path).unwrap();
            g.data is DataOffset && match spec_scalar_pos(g.model(), FieldCastArgs { endian: obj.endian(), field_offset: o }) {
                Ok(p) => 0 <= p && p + 8 <= obj.data().len(),
                Err(_) => false,
            }
        }),
        ({
            let t = field_at(obj, path).unwrap().0.field_type.type_string@;
            t == "float"@
        }),
    ensures
        ({
    let (g, o) = field_at(obj, path)->0;
            let t = g.field_type.type_string@;
            let p = spec_scalar_pos(g.model(), FieldCastArgs { endian: obj.endian(), field_offset: o })->Ok_0;
            let d = obj.data();
            let big = obj.endian().spec_is_big();
            &&& attr_ok(obj, path)
            &&& attr_matches(obj, path, v) ==> (v matches AttrValue::F32(x) && opt_u32(d, p, big) == Some(x.0))
        }),
{
    reveal_strlit("string");
    reveal_strlit("bool");
    reveal_strlit("SInt8");
    reveal_strlit("SInt16");
    reveal_strlit("short");
    reveal_strlit("SInt32");
    reveal_strlit("int");
    reveal_strlit("SInt64");
    reveal_strlit("long long");
    reveal_strlit("UInt8");
    reveal_strlit("char");
    reveal_strlit("UInt16");
    reveal_strlit("unsigned short");
    reveal_strlit("UInt32");
    reveal_strlit("unsigned int");
    reveal_strlit("UInt64");
    reveal_strlit("unsigned long long");
    reveal_strlit("FileSize");
    reveal_strlit("float");
    reveal_strlit("double");
    reveal_strlit("vector");
    reveal_strlit("staticvector");
    reveal_strlit("map");
    assert("string"@.len() == 6);
    assert("bool"@.len() == 4);
    assert("SInt8"@.len() == 5);
    assert("SInt16"@.len() == 6);
    assert("short"@.len() == 5);
    assert("SInt32"@.len() == 6);
    assert("int"@.len() == 3);
    assert("SInt64"@.len() == 6);
    assert("long long"@.len() == 9);
    assert("UInt8"@.len() == 5);
    assert("char"@.len() == 4);
    assert("UInt16"@.len() == 6);
    assert("unsigned short"@.len() == 14);
    assert("UInt32"@.len() == 6);
    assert("unsigned int"@.len() == 12);
    assert("UInt64"@.len() == 6);
    assert("unsigned long long"@.len() == 18);
    assert("FileSize"@.len() == 8);
    assert("float"@.len() == 5);
    assert("double"@.len() == 6);
    assert("vector"@.len() == 6);
    assert("staticvector"@.len() == 12);
    assert("map"@.len() == 3);
    assert("string"@[0] != "SInt16"@[0]);
    assert("string"@[0] != "SInt32"@[0]);
    assert("string"@[0] != "SInt64"@[0]);
    assert("string"@[0] != "UInt16"@[0]);
    assert("string"@[0] != "UInt32"@[0]);
    assert("string"@[0] != "UInt64"@[0]);
    assert("string"@[0] != "double"@[0]);
    assert("short"@[0] != "SInt8"@[0]);
    assert("short"@[0] != "UInt8"@[0]);
    assert("short"@[0] != "float"@[0]);
    assert("SInt32"@[4] != "SInt16"@[4]);
    assert("SInt64"@[4] != "SInt16"@[4]);
    assert("SInt64"@[4] != "SInt32"@[4]);
    assert("UInt8"@[0] != "SInt8"@[0]);
    assert("char"@[0] != "bool"@[0]);
    assert("UInt16"@[0] != "SInt16"@[0]);
    assert("UInt16"@[0] != "SInt32"@[0]);
    assert("UInt16"@[0] != "SInt64"@[0]);
    assert("UInt32"@[0] != "SInt16"@[0]);
    assert("UInt32"@[0] != "SInt32"@[0]);
    assert("UInt32"@[0] != "SInt64"@[0]);
    assert("UInt32"@[4] != "UInt16"@[4]);
    assert("unsigned int"@[0] != "staticvector"@[0]);
    assert("UInt64"@[0] != "SInt16"@[0]);
    assert("UInt64"@[0] != "SInt32"@[0]);
    assert("UInt64"@[0] != "SInt64"@[0]);
    assert("UInt64"@[4] != "UInt16"@[4]);
    assert("UInt64"@[4] != "UInt32"@[4]);
    assert("float"@[0] != "SInt8"@[0]);
    assert("float"@[0] != "UInt8"@[0]);
    assert("double"@[0] != "SInt16"@[0]);
    assert("double"@[0] != "SInt32"@[0]);
    assert("double"@[0] != "SInt64"@[0]);
    assert("double"@[0] != "UInt16"@[0]);
    assert("double"@[0] != "UInt32"@[0]);
    assert("double"@[0] != "UInt64"@[0]);
    assert("vector"@[0] != "string"@[0]);
    assert("vector"@[0] != "SInt16"@[0]);
    assert("vector"@[0] != "SInt32"@[0]);
    assert("vector"@[0] != "SInt64"@[0]);
    assert("vector"@[0] != "UInt16"@[0]);
    assert("vector"@[0] != "UInt32"@[0]);
    assert("vector"@[0] != "UInt64"@[0]);
    assert("vector"@[0] != "double"@[0]);
    assert("map"@[0] != "int"@[0]);
    let (g, o) = field_at(obj, path)->0;
    let args = FieldCastArgs { endian: obj.endian(), field_offset: o };
    assert(spec_field_at(obj.layout(), path, None, obj.data(), obj.endian()) == Some((g, o)));
    assert(<Field as TryCast<F32Bits>>::spec_cast(&g, obj.data(), args) == spec_cast_f32_bits(g.model(), obj.data(), args));
}

proof fn lemma_attr_f64(obj: TypeTreeObject, path: Seq<Seq<char>>, v: AttrValue)
    requires
        field_at(obj, path) is Some,
        ({
            let (g, o) = field_at(obj, path).unwrap();
            g.data is DataOffset && match spec_scalar_pos(g.model(), FieldCastArgs { endian: obj.endian(), field_offset: o }) {
                Ok(p) => 0 <= p && p + 8 <= obj.data().len(),
                Err(_) => false,
            }
        }),
        ({
            let t = field_at(obj, path).unwrap().0.field_type.type_string@;
            t == "double"@
        }),
    ensures
        ({
    let (g, o) = field_at(obj, path)->0;
            let t = g.field_type.type_string@;
            let p = spec_scalar_pos(g.model(), FieldCastArgs { endian: obj.endian(), field_offset: o })->Ok_0;
            let d = obj.data();
            let big = obj.endian().spec_is_big();
            &&& attr_ok(obj, path)
            &&& attr_matches(obj, path, v) ==> (v matches AttrValue::F64(x) && opt_u64(d, p, big) == Some(x.0))
        }),
{
    reveal_strlit("string");
    reveal_strlit("bool");
    reveal_strlit("SInt8");
    reveal_strlit("SInt16");
    reveal_strlit("short");
    reveal_strlit("SInt32");
    reveal_strlit("int");
    reveal_strlit("SInt64");
    reveal_strlit("long long");
    reveal_strlit("UInt8");
    reveal_strlit("char");
    reveal_strlit("UInt16");
    reveal_strlit("unsigned short");
    reveal_strlit("UInt32");
    reveal_strlit("unsigned int");
    reveal_strlit("UInt64");
    reveal_strlit("unsigned long long");
    reveal_strlit("FileSize");
    reveal_strlit("float");
    reveal_strlit("double");
    reveal_strlit("vector");
    reveal_strlit("staticvector");
    reveal_strlit("map");
    assert("string"@.len() == 6);
    assert("bool"@.len() == 4);
    assert("SInt8"@.len() == 5);
    assert("SInt16"@.len() == 6);
    assert("short"@.len() == 5);
    assert("SInt32"@.len() == 6);
    assert("int"@.len() == 3);
    assert("SInt64"@.len() == 6);
    assert("long long"@.len() == 9);
    assert("UInt8"@.len() == 5);
    assert("char"@.len() == 4);
    assert("UInt16"@.len() == 6);
    assert("unsigned short"@.len() == 14);
    assert("UInt32"@.len() == 6);
    assert("unsigned int"@.len() == 12);
    assert("UInt64"@.len() == 6);
    assert("unsigned long long"@.len() == 18);
    assert("FileSize"@.len() == 8);
    assert("float"@.len() == 5);
    assert("double"@.len() == 6);
    assert("vector"@.len() == 6);
    assert("staticvector"@.len() == 12);
    assert("map"@.len() == 3);
    assert("string"@[0] != "SInt16"@[0]);
    assert("string"@[0] != "SInt32"@[0]);
    assert("string"@[0] != "SInt64"@[0]);
    assert("string"@[0] != "UInt16"@[0]);
    assert("string"@[0] != "UInt32"@[0]);
    assert("string"@[0] != "UInt64"@[0]);
    assert("string"@[0] != "double"@[0]);
    assert("short"@[0] != "SInt8"@[0]);
    assert("short"@[0] != "UInt8"@[0]);
    assert("short"@[0] != "float"@[0]);
    assert("SInt32"@[4] != "SInt16"@[4]);
    assert("SInt64"@[4] != "SInt16"@[4]);
    assert("SInt64"@[4] != "SInt32"@[4]);
    assert("UInt8"@[0] != "SInt8"@[0]);
    assert("char"@[0] != "bool"@[0]);
    assert("UInt16"@[0] != "SInt16"@[0]);
    assert("UInt16"@[0] != "SInt32"@[0]);
    assert("UInt16"@[0] != "SInt64"@[0]);
    assert("UInt32"@[0] != "SInt16"@[0]);
    assert("UInt32"@[0] != "SInt32"@[0]);
    assert("UInt32"@[0] != "SInt64"@[0]);
    assert("UInt32"@[4] != "UInt16"@[4]);
    assert("unsigned int"@[0] != "staticvector"@[0]);
    assert("UInt64"@[0] != "SInt16"@[0]);
    assert("UInt64"@[0] != "SInt32"@[0]);
    assert("UInt64"@[0] != "SInt64"@[0]);
    assert("UInt64"@[4] != "UInt16"@[4]);
    assert("UInt64"@[4] != "UInt32"@[4]);
    assert("float"@[0] != "SInt8"@[0]);
    assert("float"@[0] != "UInt8"@[0]);
    assert("double"@[0] != "SInt16"@[0]);
    assert("double"@[0] != "SInt32"@[0]);
    assert("double"@[0] != "SInt64"@[0]);
    assert("double"@[0] != "UInt16"@[0]);
    assert("double"@[0] != "UInt32"@[0]);
    assert("double"@[0] != "UInt64"@[0]);
    assert("vector"@[0] != "string"@[0]);
    assert("vector"@[0] != "SInt16"@[0]);
    assert("vector"@[0] != "SInt32"@[0]);
    assert("vector"@[0] != "SInt64"@[0]);
    assert("vector"@[0] != "UInt16"@[0]);
    assert("vector"@[0] != "UInt32"@[0]);
    assert("vector"@[0] != "UInt64"@[0]);
    assert("vector"@[0] != "double"@[0]);
    assert("map"@[0] != "int"@[0]);
    let (g, o) = field_at(obj, path)->0;
    let args = FieldCastArgs { endian: obj.endian(), field_offset: o };
    assert(spec_field_at(obj.layout(), path, None, obj.data(), obj.endian()) == Some((g, o)));
    assert(<Field as TryCast<F64Bits>>::spec_cast(&g, obj.data(), args) == spec_cast_f64_bits(g.model(), obj.data(), args));
}

proof fn lemma_attr_file_size(obj: TypeTreeObject, path: Seq<Seq<char>>, v: AttrValue)
    requires
        field_at(obj, path) is Some,
        ({
            let (g, o) = field_at(obj, path).unwrap();
            g.data is DataOffset && match spec_scalar_pos(g.model(), FieldCastArgs { endian: obj.endian(), field_offset: o }) {
                Ok(p) => 0 <= p && p + 8 <= obj.data().len(),
                Err(_) => false,
            }
        }),
        field_at(obj, path).unwrap().0.field_type.type_string@ == "FileSize"@,
    ensures
        !attr_ok(obj, path),
        !attr_matches(obj, path, v),
{
    reveal_strlit("string");
    reveal_strlit("bool");
    reveal_strlit("SInt8");
    reveal_strlit("SInt16");
    reveal_strlit("short");
    reveal_strlit("SInt32");
    reveal_strlit("int");
    reveal_strlit("SInt64");
    reveal_strlit("long long");
    reveal_strlit("UInt8");
    reveal_strlit("char");
    reveal_strlit("UInt16");
    reveal_strlit("unsigned short");
    reveal_strlit("UInt32");
    reveal_strlit("unsigned int");
    reveal_strlit("UInt64");
    reveal_strlit("unsigned long long");
    reveal_strlit("FileSize");
    reveal_strlit("float");
    reveal_strlit("double");
    reveal_strlit("vector");
    reveal_strlit("staticvector");
    reveal_strlit("map");
    assert("string"@.len() == 6);
    assert("bool"@.len() == 4);
    assert("SInt8"@.len() == 5);
    assert("SInt16"@.len() == 6);
    assert("short"@.len() == 5);
    assert("SInt32"@.len() == 6);
    assert("int"@.len() == 3);
    assert("SInt64"@.len() == 6);
    assert("long long"@.len() == 9);
    assert("UInt8"@.len() == 5);
    assert("char"@.len() == 4);
    assert("UInt16"@.len() == 6);
    assert("unsigned short"@.len() == 14);
    assert("UInt32"@.len() == 6);
    assert("unsigned int"@.len() == 12);
    assert("UInt64"@.len() == 6);
    assert("unsigned long long"@.len() == 18);
    assert("FileSize"@.len() == 8);
    assert("float"@.len() == 5);
    assert("double"@.len() == 6);
    assert("vector"@.len() == 6);
    assert("staticvector"@.len() == 12);
    assert("map"@.len() == 3);

    assert("string"@[0] != "SInt16"@[0]);
    assert("string"@[0] != "SInt32"@[0]);
    assert("string"@[0] != "SInt64"@[0]);
    assert("string"@[0] != "UInt16"@[0]);
    assert("string"@[0] != "UInt32"@[0]);
    assert("string"@[0] != "UInt64"@[0]);
    assert("string"@[0] != "double"@[0]);
    assert("short"@[0] != "SInt8"@[0]);
    assert("short"@[0] != "UInt8"@[0]);
    assert("short"@[0] != "float"@[0]);
    assert("SInt32"@[4] != "SInt16"@[4]);
    assert("SInt64"@[4] != "SInt16"@[4]);
    assert("SInt64"@[4] != "SInt32"@[4]);
    assert("UInt8"@[0] != "SInt8"@[0]);
    assert("char"@[0] != "bool"@[0]);
    assert("UInt16"@[0] != "SInt16"@[0]);
    assert("UInt16"@[0] != "SInt32"@[0]);
    assert("UInt16"@[0] != "SInt64"@[0]);
    assert("UInt32"@[0] != "SInt16"@[0]);
    assert("UInt32"@[0] != "SInt32"@[0]);
    assert("UInt32"@[0] != "SInt64"@[0]);
    assert("UInt32"@[4] != "UInt16"@[4]);
    assert("unsigned int"@[0] != "staticvector"@[0]);
    assert("UInt64"@[0] != "SInt16"@[0]);
    assert("UInt64"@[0] != "SInt32"@[0]);
    assert("UInt64"@[0] != "SInt64"@[0]);
    assert("UInt64"@[4] != "UInt16"@[4]);
    assert("UInt64"@[4] != "UInt32"@[4]);
    assert("float"@[0] != "SInt8"@[0]);
    assert("float"@[0] != "UInt8"@[0]);
    assert("double"@[0] != "SInt16"@[0]);
    assert("double"@[0] != "SInt32"@[0]);
    assert("double"@[0] != "SInt64"@[0]);
    assert("double"@[0] != "UInt16"@[0]);
    assert("double"@[0] != "UInt32"@[0]);
    assert("double"@[0] != "UInt64"@[0]);
    assert("vector"@[0] != "string"@[0]);
    assert("vector"@[0] != "SInt16"@[0]);
    assert("vector"@[0] != "SInt32"@[0]);
    assert("vector"@[0] != "SInt64"@[0]);
    assert("vector"@[0] != "UInt16"@[0]);
    assert("vector"@[0] != "UInt32"@[0]);
    assert("vector"@[0] != "UInt64"@[0]);
    assert("vector"@[0] != "double"@[0]);
    assert("map"@[0] != "int"@[0]);
    let (g, o) = field_at(obj, path)->0;
    let args = FieldCastArgs { endian: obj.endian(), field_offset: o };
    assert(spec_field_at(obj.layout(), path, None, obj.data(), obj.endian()) == Some((g, o)));
    assert(<Field as TryCast<u64>>::spec_cast(&g, obj.data(), args) == spec_cast_u64(g.model(), obj.data(), args));
}

/// A field holding one value reads, through `get_attr`, as the value its type name
/// calls for, taken from the field's bytes in the object's byte order: `SInt8`, `SInt16`
/// or `short`, `SInt32` or `int`, `SInt64` or `long long` as signed numbers of 1, 2, 4
/// and 8 bytes; `UInt8` or `char`, `UInt16` or `unsigned short`, `UInt32` or
/// `unsigned int`, `UInt64` or `unsigned long long` as unsigned ones; `bool` as a byte
/// that is not zero; `float` and `double` as 4- and 8-byte bit patterns. When its bytes
/// are there such a field is always read; a `FileSize` field never is.
pub proof fn lemma_single_value_attr(obj: TypeTreeObject, path: Seq<Seq<char>>, v: AttrValue)
    requires
        field_at(obj, path) is Some,
        ({
            let (g, o) = field_at(obj, path).unwrap();
            g.data is DataOffset && match spec_scalar_pos(g.model(), FieldCastArgs { endian: obj.endian(), field_offset: o }) {
                Ok(p) => 0 <= p && p + 8 <= obj.data().len(),
                Err(_) => false,
            }
        }),
    ensures
        ({
            let (g, o) = field_at(obj, path)->0;
            let t = g.field_type.type_string@;
            let p = spec_scalar_pos(g.model(), FieldCastArgs { endian: obj.endian(), field_offset: o })->Ok_0;
            let d = obj.data();
            let big = obj.endian().spec_is_big();
            &&& (t == "SInt8"@ || t == "SInt16"@ || t == "short"@ || t == "SInt32"@ || t == "int"@ || t == "SInt64"@
                || t == "long long"@ || t == "UInt8"@ || t == "char"@ || t == "UInt16"@ || t == "unsigned short"@
                || t == "UInt32"@ || t == "unsigned int"@ || t == "UInt64"@ || t == "unsigned long long"@ || t
                == "bool"@ || t == "float"@ || t == "double"@) ==> attr_ok(obj, path)
            &&& t == "FileSize"@ ==> !attr_ok(obj, path) && !attr_matches(obj, path, v)
            &&& attr_matches(obj, path, v) ==> {
                &&& t == "SInt8"@ ==> v == AttrValue::I8(d[p] as i8)
                &&& (t == "SInt16"@ || t == "short"@) ==> (v matches AttrValue::I16(x) && opt_i16(d, p, big) == Some(x))
                &&& (t == "SInt32"@ || t == "int"@) ==> (v matches AttrValue::I32(x) && opt_i32(d, p, big) == Some(x))
                &&& (t == "SInt64"@ || t == "long long"@) ==> (v matches AttrValue::I64(x) && opt_i64(d, p, big) == Some(
                    x,
                ))
                &&& (t == "UInt8"@ || t == "char"@) ==> v == AttrValue::U8(d[p])
                &&& (t == "UInt16"@ || t == "unsigned short"@) ==> (v matches AttrValue::U16(x) && opt_u16(d, p, big)
                    == Some(x))
                &&& (t == "UInt32"@ || t == "unsigned int"@) ==> (v matches AttrValue::U32(x) && opt_u32(d, p, big)
                    == Some(x))
                &&& (t == "UInt64"@ || t == "unsigned long long"@) ==> (v matches AttrValue::U64(x) && opt_u64(
                    d,
                    p,
                    big,
                ) == Some(x))
                &&& t == "bool"@ ==> v == AttrValue::Bool(d[p] != 0)
                &&& t == "float"@ ==> (v matches AttrValue::F32(x) && opt_u32(d, p, big) == Some(x.0))
                &&& t == "double"@ ==> (v matches AttrValue::F64(x) && opt_u64(d, p, big) == Some(x.0))
            }
        }),
{
    let (g, o) = field_at(obj, path)->0;
    let t = g.field_type.type_string@;
    if t == "SInt8"@ {
        lemma_attr_i8(obj, path, v);
    }
    if t == "SInt16"@ || t == "short"@ {
        lemma_attr_i16(obj, path, v);
    }
    if t == "SInt32"@ || t == "int"@ {
        lemma_attr_i32(obj, path, v);
    }
    if t == "SInt64"@ || t == "long long"@ {
        lemma_attr_i64(obj, path, v);
    }
    if t == "UInt8"@ || t == "char"@ {
        lemma_attr_u8(obj, path, v);
    }
    if t == "UInt16"@ || t == "unsigned short"@ {
        lemma_attr_u16(obj, path, v);
    }
    if t == "UInt32"@ || t == "unsigned int"@ {
        lemma_attr_u32(obj, path, v);
    }
    if t == "UInt64"@ || t == "unsigned long long"@ {
        lemma_attr_u64(obj, path, v);
    }
    if t == "bool"@ {
        lemma_attr_bool(obj, path, v);
    }
    if t == "float"@ {
        lemma_attr_f32(obj, path, v);
    }
    if t == "double"@ {
        lemma_attr_f64(obj, path, v);
    }
    if t == "FileSize"@ {
        lemma_attr_file_size(obj, path, v);
    }
}

/// A vector whose items are single values stored as one run reads, through
/// `get_attr`, as a list whose kind the items call for: `float` items as 32-bit and
/// `double` items as 64-bit bit patterns; other items by their width, 1-byte items as
/// bytes and 2-, 4- and 8-byte items as 16-, 32- and 64-bit numbers; items of another
/// width are refused.
pub proof fn lemma_vector_run_attr(obj: TypeTreeObject, path: Seq<Seq<char>>, v: AttrValue)
    requires
        field_at(obj, path) is Some,
        ({
            let t = field_at(obj, path).unwrap().0.field_type.type_string@;
            t == "vector"@ || t == "staticvector"@
        }),
        field_at(obj, path.push("Array"@)) is Some,
        spec_buff_type_and_size(field_at(obj, path.push("Array"@)).unwrap().0) is Some,
    ensures
        ({
            let ap = path.push("Array"@);
            let (bt, w) = spec_buff_type_and_size(field_at(obj, ap).unwrap().0)->0;
            attr_matches(obj, path, v) ==> {
                &&& bt == "float"@ ==> (v matches AttrValue::F32List(l) && spec_cast_at::<F32BitsList>(obj, ap) == Ok::<
                    Seq<u32>,
                    CastError,
                >(l.0@))
                &&& bt == "double"@ ==> (v matches AttrValue::F64List(l) && spec_cast_at::<F64BitsList>(obj, ap) == Ok::<
                    Seq<u64>,
                    CastError,
                >(l.0@))
                &&& (bt != "float"@ && bt != "double"@) ==> {
                    &&& w == 1 ==> (v matches AttrValue::Bytes(l) && spec_cast_at::<Vec<u8>>(obj, ap) == Ok::<
                        Seq<u8>,
                        CastError,
                    >(l@))
                    &&& w == 2 ==> (v matches AttrValue::U16List(l) && spec_cast_at::<Vec<u16>>(obj, ap) == Ok::<
                        Seq<u16>,
                        CastError,
                    >(l@))
                    &&& w == 4 ==> (v matches AttrValue::U32List(l) && spec_cast_at::<Vec<u32>>(obj, ap) == Ok::<
                        Seq<u32>,
                        CastError,
                    >(l@))
                    &&& w == 8 ==> (v matches AttrValue::U64List(l) && spec_cast_at::<Vec<u64>>(obj, ap) == Ok::<
                        Seq<u64>,
                        CastError,
                    >(l@))
                    &&& !(w == 1 || w == 2 || w == 4 || w == 8) ==> false
                }
            }
        }),
{
    reveal_strlit("string");
    reveal_strlit("bool");
    reveal_strlit("SInt8");
    reveal_strlit("SInt16");
    reveal_strlit("short");
    reveal_strlit("SInt32");
    reveal_strlit("int");
    reveal_strlit("SInt64");
    reveal_strlit("long long");
    reveal_strlit("UInt8");
    reveal_strlit("char");
    reveal_strlit("UInt16");
    reveal_strlit("unsigned short");
    reveal_strlit("UInt32");
    reveal_strlit("unsigned int");
    reveal_strlit("UInt64");
    reveal_strlit("unsigned long long");
    reveal_strlit("FileSize");
    reveal_strlit("float");
    reveal_strlit("double");
    reveal_strlit("vector");
    reveal_strlit("staticvector");
    reveal_strlit("map");
    assert("string"@.len() == 6);
    assert("bool"@.len() == 4);
    assert("SInt8"@.len() == 5);
    assert("SInt16"@.len() == 6);
    assert("short"@.len() == 5);
    assert("SInt32"@.len() == 6);
    assert("int"@.len() == 3);
    assert("SInt64"@.len() == 6);
    assert("long long"@.len() == 9);
    assert("UInt8"@.len() == 5);
    assert("char"@.len() == 4);
    assert("UInt16"@.len() == 6);
    assert("unsigned short"@.len() == 14);
    assert("UInt32"@.len() == 6);
    assert("unsigned int"@.len() == 12);
    assert("UInt64"@.len() == 6);
    assert("unsigned long long"@.len() == 18);
    assert("FileSize"@.len() == 8);
    assert("float"@.len() == 5);
    assert("double"@.len() == 6);
    assert("vector"@.len() == 6);
    assert("staticvector"@.len() == 12);
    assert("map"@.len() == 3);
    assert("vector"@[0] != "string"@[0]);
    assert("vector"@[0] != "SInt16"@[0]);
    assert("vector"@[0] != "SInt32"@[0]);
    assert("vector"@[0] != "SInt64"@[0]);
    assert("vector"@[0] != "UInt16"@[0]);
    assert("vector"@[0] != "UInt32"@[0]);
    assert("vector"@[0] != "UInt64"@[0]);
    assert("vector"@[0] != "double"@[0]);
    assert("staticvector"@[0] != "unsigned int"@[0]);
}

} // verus!
