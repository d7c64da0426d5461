//! Reading typed values out of an object's bytes through its field layout.
use vstd::prelude::*;

use super::{
    copy_strings, find_last_named, last_named, lemma_last_named_bounds, spec_field_at, spec_slice_range,
    ArrayDataModel, ArrayFieldValue, DataOffset, Field, FieldModel, FieldValue, TypeTreeObject,
    TypeTreeObjectRef, ValueModel,
};
use crate::binary::{
    opt_i16, opt_i32, opt_i64, opt_u16, opt_u32, opt_u64, opt_u8, read_i16, read_i32, read_i64,
    read_u16, read_u32, read_u64, read_u8, signed16, signed32, signed64, spec_u16_at, spec_u32_at,
    spec_u64_at, to_signed16, to_signed32, to_signed64,
};
use crate::text::{
    decimal, decimal_string, path_components, split_path, string_from_utf8_lossy, strings_view,
    utf8_lossy,
};
use crate::until::Endian;

verus! {

/// What a cast needs besides the bytes: the byte order, and for a field inside an
/// array item, the offset of that item.
#[derive(Debug, Clone, Copy, PartialEq, Eq, Structural)]
pub struct FieldCastArgs {
    pub endian: Endian,
    pub field_offset: Option<i64>,
}

/// Why a cast failed.
#[derive(Debug, Clone, Copy, PartialEq, Eq, Structural)]
pub enum CastError {
    /// The field's type is not one the target type is read from.
    TypeNotMatch,
    /// A field inside an array item was read without the item's offset.
    NoFieldOffset,
    /// The bytes end before the value.
    ReadFailed,
    /// The path names no field.
    CannotGetField,
}

/// Whether the string `s` is the literal `lit`.
pub fn string_is(s: &String, lit: &str) -> (r: bool)
    ensures
        r == (s@ == lit@),
{
    let l: String = lit.to_owned();
    *s == l
}

/// The absolute position in the object's bytes of a field's data.
pub open spec fn spec_data_pos(d: DataOffset, args: FieldCastArgs) -> Result<int, CastError> {
    match d {
        DataOffset::AbsDataOffset(x) => Ok(x as int),
        DataOffset::ArrayItemOffset(x) => match args.field_offset {
            None => Err(CastError::NoFieldOffset),
            Some(o) => {
                let v = x + ((o as u64) as int);
                if v > u64::MAX {
                    Err(CastError::ReadFailed)
                } else {
                    Ok(v)
                }
            },
        },
    }
}

pub fn data_pos(d: &DataOffset, args: &FieldCastArgs) -> (r: Result<u64, CastError>)
    ensures
        match spec_data_pos(*d, *args) {
            Ok(v) => r == Ok::<u64, CastError>(v as u64),
            Err(e) => r == Err::<u64, CastError>(e),
        },
{
    match d {
        DataOffset::AbsDataOffset(x) => Ok(*x),
        DataOffset::ArrayItemOffset(x) => match args.field_offset {
            None => Err(CastError::NoFieldOffset),
            Some(o) => match x.checked_add(o as u64) {
                Some(v) => Ok(v),
                None => Err(CastError::ReadFailed),
            },
        },
    }
}

/// A position as a buffer index, when it is one.
fn pos_index(p: u64, len: usize) -> (r: Option<usize>)
    ensures
        r matches Some(i) ==> i == p,
        r is None ==> p > len,
{
    if p > len as u64 {
        None
    } else {
        Some(p as usize)
    }
}

/// How a type tree node's type name selects a scalar reading.
pub open spec fn type_in(t: Seq<char>, a: &str, b: &str) -> bool {
    t == a@ || t == b@
}

/// Reads a scalar of the field as `n` bytes: the position, or why it fails.
pub open spec fn spec_scalar_pos(m: FieldModel, args: FieldCastArgs) -> Result<int, CastError> {
    match m.data {
        ValueModel::Offset(d) => spec_data_pos(d, args),
        _ => Err(CastError::TypeNotMatch),
    }
}

/// Turns an optional read into a cast result.
pub open spec fn read_or_fail<T>(v: Option<T>) -> Result<T, CastError> {
    match v {
        Some(x) => Ok(x),
        None => Err(CastError::ReadFailed),
    }
}

pub open spec fn spec_cast_bool(m: FieldModel, buff: Seq<u8>, args: FieldCastArgs) -> Result<
    bool,
    CastError,
> {
    if m.data is Offset && m.node.type_string == "bool"@ {
        match spec_scalar_pos(m, args) {
            Err(e) => Err(e),
            Ok(p) => match opt_u8(buff, p) {
                Some(v) => Ok(v != 0),
                None => Err(CastError::ReadFailed),
            },
        }
    } else {
        Err(CastError::TypeNotMatch)
    }
}

pub open spec fn spec_cast_i8(m: FieldModel, buff: Seq<u8>, args: FieldCastArgs) -> Result<
    i8,
    CastError,
> {
    if m.data is Offset && m.node.type_string == "SInt8"@ {
        match spec_scalar_pos(m, args) {
            Err(e) => Err(e),
            Ok(p) => match opt_u8(buff, p) {
                Some(v) => Ok(v as i8),
                None => Err(CastError::ReadFailed),
            },
        }
    } else {
        Err(CastError::TypeNotMatch)
    }
}

pub open spec fn spec_cast_i16(m: FieldModel, buff: Seq<u8>, args: FieldCastArgs) -> Result<
    i16,
    CastError,
> {
    if m.data is Offset && type_in(m.node.type_string, "SInt16", "short") {
        match spec_scalar_pos(m, args) {
            Err(e) => Err(e),
            Ok(p) => read_or_fail(opt_i16(buff, p, args.endian.spec_is_big())),
        }
    } else {
        Err(CastError::TypeNotMatch)
    }
}

pub open spec fn spec_cast_i32(m: FieldModel, buff: Seq<u8>, args: FieldCastArgs) -> Result<
    i32,
    CastError,
> {
    if m.data is Offset && type_in(m.node.type_string, "SInt32", "int") {
        match spec_scalar_pos(m, args) {
            Err(e) => Err(e),
            Ok(p) => read_or_fail(opt_i32(buff, p, args.endian.spec_is_big())),
        }
    } else {
        Err(CastError::TypeNotMatch)
    }
}

/// 64-bit types are read directly; otherwise a 32-, 16- or 8-bit reading is widened.
pub open spec fn spec_cast_i64(m: FieldModel, buff: Seq<u8>, args: FieldCastArgs) -> Result<
    i64,
    CastError,
> {
    if type_in(m.node.type_string, "SInt64", "long long") {
        if m.data is Offset {
            match spec_scalar_pos(m, args) {
                Err(e) => Err(e),
                Ok(p) => read_or_fail(opt_i64(buff, p, args.endian.spec_is_big())),
            }
        } else {
            Err(CastError::TypeNotMatch)
        }
    } else if spec_cast_i32(m, buff, args) is Ok {
        Ok(spec_cast_i32(m, buff, args)->Ok_0 as i64)
    } else if spec_cast_i16(m, buff, args) is Ok {
        Ok(spec_cast_i16(m, buff, args)->Ok_0 as i64)
    } else if spec_cast_i8(m, buff, args) is Ok {
        Ok(spec_cast_i8(m, buff, args)->Ok_0 as i64)
    } else {
        Err(CastError::TypeNotMatch)
    }
}

pub open spec fn spec_cast_u8(m: FieldModel, buff: Seq<u8>, args: FieldCastArgs) -> Result<
    u8,
    CastError,
> {
    if m.data is Offset && type_in(m.node.type_string, "UInt8", "char") {
        match spec_scalar_pos(m, args) {
            Err(e) => Err(e),
            Ok(p) => read_or_fail(opt_u8(buff, p)),
        }
    } else {
        Err(CastError::TypeNotMatch)
    }
}

pub open spec fn spec_cast_u16(m: FieldModel, buff: Seq<u8>, args: FieldCastArgs) -> Result<
    u16,
    CastError,
> {
    if m.data is Offset && type_in(m.node.type_string, "UInt16", "unsigned short") {
        match spec_scalar_pos(m, args) {
            Err(e) => Err(e),
            Ok(p) => read_or_fail(opt_u16(buff, p, args.endian.spec_is_big())),
        }
    } else {
        Err(CastError::TypeNotMatch)
    }
}

pub open spec fn spec_cast_u32(m: FieldModel, buff: Seq<u8>, args: FieldCastArgs) -> Result<
    u32,
    CastError,
> {
    if m.data is Offset && type_in(m.node.type_string, "UInt32", "unsigned int") {
        match spec_scalar_pos(m, args) {
            Err(e) => Err(e),
            Ok(p) => read_or_fail(opt_u32(buff, p, args.endian.spec_is_big())),
        }
    } else {
        Err(CastError::TypeNotMatch)
    }
}

pub open spec fn spec_cast_u64(m: FieldModel, buff: Seq<u8>, args: FieldCastArgs) -> Result<
    u64,
    CastError,
> {
    if type_in(m.node.type_string, "UInt64", "unsigned long long") {
        if m.data is Offset {
            match spec_scalar_pos(m, args) {
                Err(e) => Err(e),
                Ok(p) => read_or_fail(opt_u64(buff, p, args.endian.spec_is_big())),
            }
        } else {
            Err(CastError::TypeNotMatch)
        }
    } else if spec_cast_u32(m, buff, args) is Ok {
        Ok(spec_cast_u32(m, buff, args)->Ok_0 as u64)
    } else if spec_cast_u16(m, buff, args) is Ok {
        Ok(spec_cast_u16(m, buff, args)->Ok_0 as u64)
    } else if spec_cast_u8(m, buff, args) is Ok {
        Ok(spec_cast_u8(m, buff, args)->Ok_0 as u64)
    } else {
        Err(CastError::TypeNotMatch)
    }
}

pub open spec fn spec_cast_usize(m: FieldModel, buff: Seq<u8>, args: FieldCastArgs) -> Result<
    usize,
    CastError,
> {
    if m.data is Offset && m.node.type_string == "FileSize"@ {
        match spec_scalar_pos(m, args) {
            Err(e) => Err(e),
            Ok(p) => match opt_u64(buff, p, args.endian.spec_is_big()) {
                Some(v) => Ok(v as usize),
                None => Err(CastError::ReadFailed),
            },
        }
    } else {
        Err(CastError::TypeNotMatch)
    }
}

/// `count` consecutive 16-bit values at `pos`.
pub open spec fn spec_run_u16(buff: Seq<u8>, pos: int, count: int, big: bool) -> Result<Seq<u16>, CastError> {
    if pos + count * 2 > buff.len() {
        Err(CastError::ReadFailed)
    } else {
        Ok(Seq::new(count as nat, |k: int| spec_u16_at(buff, pos + k * 2, big)))
    }
}

/// `count` consecutive 32-bit values at `pos`.
pub open spec fn spec_run_u32(buff: Seq<u8>, pos: int, count: int, big: bool) -> Result<Seq<u32>, CastError> {
    if pos + count * 4 > buff.len() {
        Err(CastError::ReadFailed)
    } else {
        Ok(Seq::new(count as nat, |k: int| spec_u32_at(buff, pos + k * 4, big)))
    }
}

/// `count` consecutive 64-bit values at `pos`.
pub open spec fn spec_run_u64(buff: Seq<u8>, pos: int, count: int, big: bool) -> Result<Seq<u64>, CastError> {
    if pos + count * 8 > buff.len() {
        Err(CastError::ReadFailed)
    } else {
        Ok(Seq::new(count as nat, |k: int| spec_u64_at(buff, pos + k * 8, big)))
    }
}

/// The run of fixed-size items of an array field whose item is a single value of
/// `width` bytes: the position of the run and the item count.
pub open spec fn spec_array_run(
    m: FieldModel,
    buff: Seq<u8>,
    args: FieldCastArgs,
    width: int,
) -> Result<(int, int), CastError> {
    match m.data {
        ValueModel::Array { size, item, data, .. } => match data {
            ArrayDataModel::Offset(d) => match spec_cast_i32(*size, buff, args) {
                Err(e) => Err(e),
                Ok(count) => match item {
                    Some(it) => if it.data is Offset && it.node.byte_size == width {
                        match spec_data_pos(d, args) {
                            Err(e) => Err(e),
                            Ok(p) => Ok((p, (count as usize) as int)),
                        }
                    } else {
                        Err(CastError::TypeNotMatch)
                    },
                    None => Err(CastError::TypeNotMatch),
                },
            },
            _ => Err(CastError::TypeNotMatch),
        },
        _ => Err(CastError::TypeNotMatch),
    }
}

pub open spec fn spec_cast_bytes(m: FieldModel, buff: Seq<u8>, args: FieldCastArgs) -> Result<
    Seq<u8>,
    CastError,
> {
    match spec_array_run(m, buff, args, 1) {
        Err(e) => Err(e),
        Ok((p, n)) => if p + n > buff.len() {
            Err(CastError::ReadFailed)
        } else {
            Ok(buff.subrange(p, p + n))
        },
    }
}

pub open spec fn spec_cast_u16s(m: FieldModel, buff: Seq<u8>, args: FieldCastArgs) -> Result<
    Seq<u16>,
    CastError,
> {
    match spec_array_run(m, buff, args, 2) {
        Err(e) => Err(e),
        Ok((p, n)) => spec_run_u16(buff, p, n, args.endian.spec_is_big()),
    }
}

pub open spec fn spec_cast_u32s(m: FieldModel, buff: Seq<u8>, args: FieldCastArgs) -> Result<
    Seq<u32>,
    CastError,
> {
    match spec_array_run(m, buff, args, 4) {
        Err(e) => Err(e),
        Ok((p, n)) => spec_run_u32(buff, p, n, args.endian.spec_is_big()),
    }
}

pub open spec fn spec_cast_u64s(m: FieldModel, buff: Seq<u8>, args: FieldCastArgs) -> Result<
    Seq<u64>,
    CastError,
> {
    match spec_array_run(m, buff, args, 8) {
        Err(e) => Err(e),
        Ok((p, n)) => spec_run_u64(buff, p, n, args.endian.spec_is_big()),
    }
}

/// Casting a field's value out of an object's bytes.
pub trait TryCast<T: View>: Sized {
    /// What casting this field gives.
    spec fn spec_cast(&self, buff: Seq<u8>, args: FieldCastArgs) -> Result<T::V, CastError>;

    fn try_cast_to(&self, object_data_buff: &[u8], field_cast_args: &FieldCastArgs) -> (r: Result<
        T,
        CastError,
    >)
        ensures
            cast_matches(r, self.spec_cast(object_data_buff@, *field_cast_args)),
    ;
}

/// `r` is the exec form of the spec result `s`.
pub open spec fn cast_matches<T: View>(r: Result<T, CastError>, s: Result<T::V, CastError>) -> bool {
    match s {
        Ok(v) => r matches Ok(w) && w@ == v,
        Err(e) => r matches Err(f) && f == e,
    }
}

/// The position of a scalar field's data, checked against the buffer for `n` bytes.
fn scalar_pos(f: &Field, buff: &[u8], args: &FieldCastArgs) -> (r: Result<u64, CastError>)
    ensures
        match spec_scalar_pos(f.model(), *args) {
            Ok(p) => r == Ok::<u64, CastError>(p as u64),
            Err(e) => r == Err::<u64, CastError>(e),
        },
{
    match &f.data {
        FieldValue::DataOffset(d) => data_pos(d, args),
        _ => Err(CastError::TypeNotMatch),
    }
}

impl TryCast<bool> for Field {
    open spec fn spec_cast(&self, buff: Seq<u8>, args: FieldCastArgs) -> Result<bool, CastError> {
        spec_cast_bool(self.model(), buff, args)
    }

    fn try_cast_to(&self, object_data_buff: &[u8], field_cast_args: &FieldCastArgs) -> Result<bool, CastError>
    {
        if matches!(self.data, FieldValue::DataOffset(_)) && string_is(&self.field_type.type_string, "bool") {
            let p = scalar_pos(self, object_data_buff, field_cast_args)?;
            match pos_index(p, object_data_buff.len()) {
                Some(i) => match read_u8(object_data_buff, i) {
                    Some(v) => Ok(v != 0),
                    None => Err(CastError::ReadFailed),
                },
                None => Err(CastError::ReadFailed),
            }
        } else {
            Err(CastError::TypeNotMatch)
        }
    }
}

impl TryCast<i8> for Field {
    open spec fn spec_cast(&self, buff: Seq<u8>, args: FieldCastArgs) -> Result<i8, CastError> {
        spec_cast_i8(self.model(), buff, args)
    }

    fn try_cast_to(&self, object_data_buff: &[u8], field_cast_args: &FieldCastArgs) -> Result<i8, CastError>
    {
        if matches!(self.data, FieldValue::DataOffset(_)) && string_is(&self.field_type.type_string, "SInt8") {
            let p = scalar_pos(self, object_data_buff, field_cast_args)?;
            match pos_index(p, object_data_buff.len()) {
                Some(i) => match read_u8(object_data_buff, i) {
                    Some(v) => Ok(v as i8),
                    None => Err(CastError::ReadFailed),
                },
                None => Err(CastError::ReadFailed),
            }
        } else {
            Err(CastError::TypeNotMatch)
        }
    }
}

impl TryCast<i16> for Field {
    open spec fn spec_cast(&self, buff: Seq<u8>, args: FieldCastArgs) -> Result<i16, CastError> {
        spec_cast_i16(self.model(), buff, args)
    }

    fn try_cast_to(&self, object_data_buff: &[u8], field_cast_args: &FieldCastArgs) -> Result<i16, CastError>
    {
        if matches!(self.data, FieldValue::DataOffset(_)) && (string_is(&self.field_type.type_string, "SInt16")
            || string_is(&self.field_type.type_string, "short")) {
            let p = scalar_pos(self, object_data_buff, field_cast_args)?;
            match pos_index(p, object_data_buff.len()) {
                Some(i) => match read_i16(object_data_buff, i, field_cast_args.endian.is_big()) {
                    Some(v) => Ok(v),
                    None => Err(CastError::ReadFailed),
                },
                None => Err(CastError::ReadFailed),
            }
        } else {
            Err(CastError::TypeNotMatch)
        }
    }
}

impl TryCast<i32> for Field {
    open spec fn spec_cast(&self, buff: Seq<u8>, args: FieldCastArgs) -> Result<i32, CastError> {
        spec_cast_i32(self.model(), buff, args)
    }

    fn try_cast_to(&self, object_data_buff: &[u8], field_cast_args: &FieldCastArgs) -> Result<i32, CastError>
    {
        let named = string_is(&self.field_type.type_string, "SInt32") || string_is(
            &self.field_type.type_string,
            "int",
        );
        assert(<Field as TryCast<i32>>::spec_cast(self, object_data_buff@, *field_cast_args) == spec_cast_i32(
            self.model(),
            object_data_buff@,
            *field_cast_args,
        ));
        if matches!(self.data, FieldValue::DataOffset(_)) && named {
            let p = scalar_pos(self, object_data_buff, field_cast_args)?;
            match pos_index(p, object_data_buff.len()) {
                Some(i) => match read_i32(object_data_buff, i, field_cast_args.endian.is_big()) {
                    Some(v) => Ok(v),
                    None => Err(CastError::ReadFailed),
                },
                None => Err(CastError::ReadFailed),
            }
        } else {
            Err(CastError::TypeNotMatch)
        }
    }
}

impl TryCast<i64> for Field {
    open spec fn spec_cast(&self, buff: Seq<u8>, args: FieldCastArgs) -> Result<i64, CastError> {
        spec_cast_i64(self.model(), buff, args)
    }

    fn try_cast_to(&self, object_data_buff: &[u8], field_cast_args: &FieldCastArgs) -> Result<i64, CastError>
    {
        if string_is(&self.field_type.type_string, "SInt64") || string_is(
            &self.field_type.type_string,
            "long long",
        ) {
            if matches!(self.data, FieldValue::DataOffset(_)) {
                let p = scalar_pos(self, object_data_buff, field_cast_args)?;
                return match pos_index(p, object_data_buff.len()) {
                    Some(i) => match read_i64(object_data_buff, i, field_cast_args.endian.is_big()) {
                        Some(v) => Ok(v),
                        None => Err(CastError::ReadFailed),
                    },
                    None => Err(CastError::ReadFailed),
                };
            }
        } else {
            let a: Result<i32, CastError> = self.try_cast_to(object_data_buff, field_cast_args);
            if let Ok(v) = a {
                return Ok(v as i64);
            }
            let b: Result<i16, CastError> = self.try_cast_to(object_data_buff, field_cast_args);
            if let Ok(v) = b {
                return Ok(v as i64);
            }
            let c: Result<i8, CastError> = self.try_cast_to(object_data_buff, field_cast_args);
            if let Ok(v) = c {
                return Ok(v as i64);
            }
        }
        Err(CastError::TypeNotMatch)
    }
}

impl TryCast<u8> for Field {
    open spec fn spec_cast(&self, buff: Seq<u8>, args: FieldCastArgs) -> Result<u8, CastError> {
        spec_cast_u8(self.model(), buff, args)
    }

    fn try_cast_to(&self, object_data_buff: &[u8], field_cast_args: &FieldCastArgs) -> Result<u8, CastError>
    {
        if matches!(self.data, FieldValue::DataOffset(_)) && (string_is(&self.field_type.type_string, "UInt8")
            || string_is(&self.field_type.type_string, "char")) {
            let p = scalar_pos(self, object_data_buff, field_cast_args)?;
            match pos_index(p, object_data_buff.len()) {
                Some(i) => match read_u8(object_data_buff, i) {
                    Some(v) => Ok(v),
                    None => Err(CastError::ReadFailed),
                },
                None => Err(CastError::ReadFailed),
            }
        } else {
            Err(CastError::TypeNotMatch)
        }
    }
}

impl TryCast<u16> for Field {
    open spec fn spec_cast(&self, buff: Seq<u8>, args: FieldCastArgs) -> Result<u16, CastError> {
        spec_cast_u16(self.model(), buff, args)
    }

    fn try_cast_to(&self, object_data_buff: &[u8], field_cast_args: &FieldCastArgs) -> Result<u16, CastError>
    {
        if matches!(self.data, FieldValue::DataOffset(_)) && (string_is(&self.field_type.type_string, "UInt16")
            || string_is(&self.field_type.type_string, "unsigned short")) {
            let p = scalar_pos(self, object_data_buff, field_cast_args)?;
            match pos_index(p, object_data_buff.len()) {
                Some(i) => match read_u16(object_data_buff, i, field_cast_args.endian.is_big()) {
                    Some(v) => Ok(v),
                    None => Err(CastError::ReadFailed),
                },
                None => Err(CastError::ReadFailed),
            }
        } else {
            Err(CastError::TypeNotMatch)
        }
    }
}

impl TryCast<u32> for Field {
    open spec fn spec_cast(&self, buff: Seq<u8>, args: FieldCastArgs) -> Result<u32, CastError> {
        spec_cast_u32(self.model(), buff, args)
    }

    fn try_cast_to(&self, object_data_buff: &[u8], field_cast_args: &FieldCastArgs) -> Result<u32, CastError>
    {
        if matches!(self.data, FieldValue::DataOffset(_)) && (string_is(&self.field_type.type_string, "UInt32")
            || string_is(&self.field_type.type_string, "unsigned int")) {
            let p = scalar_pos(self, object_data_buff, field_cast_args)?;
            match pos_index(p, object_data_buff.len()) {
                Some(i) => match read_u32(object_data_buff, i, field_cast_args.endian.is_big()) {
                    Some(v) => Ok(v),
                    None => Err(CastError::ReadFailed),
                },
                None => Err(CastError::ReadFailed),
            }
        } else {
            Err(CastError::TypeNotMatch)
        }
    }
}

impl TryCast<u64> for Field {
    open spec fn spec_cast(&self, buff: Seq<u8>, args: FieldCastArgs) -> Result<u64, CastError> {
        spec_cast_u64(self.model(), buff, args)
    }

    fn try_cast_to(&self, object_data_buff: &[u8], field_cast_args: &FieldCastArgs) -> Result<u64, CastError>
    {
        if string_is(&self.field_type.type_string, "UInt64") || string_is(
            &self.field_type.type_string,
            "unsigned long long",
        ) {
            if matches!(self.data, FieldValue::DataOffset(_)) {
                let p = scalar_pos(self, object_data_buff, field_cast_args)?;
                return match pos_index(p, object_data_buff.len()) {
                    Some(i) => match read_u64(object_data_buff, i, field_cast_args.endian.is_big()) {
                        Some(v) => Ok(v),
                        None => Err(CastError::ReadFailed),
                    },
                    None => Err(CastError::ReadFailed),
                };
            }
        } else {
            let a: Result<u32, CastError> = self.try_cast_to(object_data_buff, field_cast_args);
            if let Ok(v) = a {
                return Ok(v as u64);
            }
            let b: Result<u16, CastError> = self.try_cast_to(object_data_buff, field_cast_args);
            if let Ok(v) = b {
                return Ok(v as u64);
            }
            let c: Result<u8, CastError> = self.try_cast_to(object_data_buff, field_cast_args);
            if let Ok(v) = c {
                return Ok(v as u64);
            }
        }
        Err(CastError::TypeNotMatch)
    }
}

impl TryCast<usize> for Field {
    open spec fn spec_cast(&self, buff: Seq<u8>, args: FieldCastArgs) -> Result<usize, CastError> {
        spec_cast_usize(self.model(), buff, args)
    }

    fn try_cast_to(&self, object_data_buff: &[u8], field_cast_args: &FieldCastArgs) -> Result<usize, CastError>
    {
        if matches!(self.data, FieldValue::DataOffset(_)) && string_is(&self.field_type.type_string, "FileSize") {
            let p = scalar_pos(self, object_data_buff, field_cast_args)?;
            match pos_index(p, object_data_buff.len()) {
                Some(i) => match read_u64(object_data_buff, i, field_cast_args.endian.is_big()) {
                    Some(v) => Ok(v as usize),
                    None => Err(CastError::ReadFailed),
                },
                None => Err(CastError::ReadFailed),
            }
        } else {
            Err(CastError::TypeNotMatch)
        }
    }
}

/// The run position and item count of an array of single `width`-byte values.
fn array_run(f: &Field, buff: &[u8], args: &FieldCastArgs, width: i32) -> (r: Result<
    (u64, usize),
    CastError,
>)
    ensures
        match spec_array_run(f.model(), buff@, *args, width as int) {
            Ok((p, n)) => r == Ok::<(u64, usize), CastError>((p as u64, n as usize)),
            Err(e) => r == Err::<(u64, usize), CastError>(e),
        },
{
    match &f.data {
        FieldValue::Array(a) => match &a.data {
            ArrayFieldValue::DataOffset(d) => {
                let count: i32 = a.array_size.try_cast_to(buff, args)?;
                assert(spec_cast_i32(a.array_size.model(), buff@, *args) == Ok::<i32, CastError>(count));
                match &a.item_field {
                    Some(it) => {
                        proof {
                            assert(it.model().node == it.field_type@);
                        }
                        if matches!(it.data, FieldValue::DataOffset(_)) && it.field_type.byte_size == width {
                            let p = data_pos(d, args)?;
                            Ok((p, count as usize))
                        } else {
                            Err(CastError::TypeNotMatch)
                        }
                    },
                    None => Err(CastError::TypeNotMatch),
                }
            },
            _ => Err(CastError::TypeNotMatch),
        },
        _ => Err(CastError::TypeNotMatch),
    }
}

impl TryCast<Vec<u8>> for Field {
    open spec fn spec_cast(&self, buff: Seq<u8>, args: FieldCastArgs) -> Result<Seq<u8>, CastError> {
        spec_cast_bytes(self.model(), buff, args)
    }

    fn try_cast_to(&self, object_data_buff: &[u8], field_cast_args: &FieldCastArgs) -> Result<Vec<u8>, CastError>
    {
        let (p, n) = array_run(self, object_data_buff, field_cast_args, 1)?;
        let len = object_data_buff.len();
        if p > len as u64 || n > len - (p as usize) {
            return Err(CastError::ReadFailed);
        }
        let p = p as usize;
        Ok(crate::binary::copy_range(object_data_buff, p, p + n))
    }
}

/// Reads `n` values of `width` bytes from position `p`.
fn read_run_u16(buff: &[u8], p: u64, n: usize, big: bool) -> (r: Result<Vec<u16>, CastError>)
    ensures
        cast_matches(
            r,
            spec_run_u16(buff@, p as int, n as int, big),
        ),
{
    let len = buff.len();
    if p > len as u64 || n > (len - p as usize) / 2 {
        proof {
            if p <= len {
                assert(n * 2 > len - p) by (nonlinear_arith)
                    requires
                        n > (len - p) / 2,
                ;
            }
            assert(n * 2 >= 0) by (nonlinear_arith)
                requires
                    n >= 0,
            ;
        }
        return Err(CastError::ReadFailed);
    }
    let p = p as usize;
    proof {
        assert(n * 2 <= len - p) by (nonlinear_arith)
            requires
                n <= (len - p) / 2,
                len >= p,
        ;
    }
    let mut out: Vec<u16> = Vec::new();
    let mut k: usize = 0;
    while k < n
        invariant
            k <= n,
            p + n * 2 <= len,
            len == buff@.len(),
            out@ == Seq::new(k as nat, |j: int| spec_u16_at(buff@, p + j * 2, big)),
        decreases n - k,
    {
        proof {
            assert(p + k * 2 + 2 <= p + n * 2) by (nonlinear_arith)
                requires
                    k < n,
            ;
        }
        let v = read_u16(buff, p + k * 2, big).unwrap();
        out.push(v);
        k = k + 1;
        proof {
            assert(out@ =~= Seq::new(k as nat, |j: int| spec_u16_at(buff@, p + j * 2, big)));
        }
    }
    Ok(out)
}

fn read_run_u32(buff: &[u8], p: u64, n: usize, big: bool) -> (r: Result<Vec<u32>, CastError>)
    ensures
        cast_matches(
            r,
            spec_run_u32(buff@, p as int, n as int, big),
        ),
{
    let len = buff.len();
    if p > len as u64 || n > (len - p as usize) / 4 {
        proof {
            if p <= len {
                assert(n * 4 > len - p) by (nonlinear_arith)
                    requires
                        n > (len - p) / 4,
                ;
            }
            assert(n * 4 >= 0) by (nonlinear_arith)
                requires
                    n >= 0,
            ;
        }
        return Err(CastError::ReadFailed);
    }
    let p = p as usize;
    proof {
        assert(n * 4 <= len - p) by (nonlinear_arith)
            requires
                n <= (len - p) / 4,
                len >= p,
        ;
    }
    let mut out: Vec<u32> = Vec::new();
    let mut k: usize = 0;
    while k < n
        invariant
            k <= n,
            p + n * 4 <= len,
            len == buff@.len(),
            out@ == Seq::new(k as nat, |j: int| spec_u32_at(buff@, p + j * 4, big)),
        decreases n - k,
    {
        proof {
            assert(p + k * 4 + 4 <= p + n * 4) by (nonlinear_arith)
                requires
                    k < n,
            ;
        }
        let v = read_u32(buff, p + k * 4, big).unwrap();
        out.push(v);
        k = k + 1;
        proof {
            assert(out@ =~= Seq::new(k as nat, |j: int| spec_u32_at(buff@, p + j * 4, big)));
        }
    }
    Ok(out)
}

fn read_run_u64(buff: &[u8], p: u64, n: usize, big: bool) -> (r: Result<Vec<u64>, CastError>)
    ensures
        cast_matches(
            r,
            spec_run_u64(buff@, p as int, n as int, big),
        ),
{
    let len = buff.len();
    if p > len as u64 || n > (len - p as usize) / 8 {
        proof {
            if p <= len {
                assert(n * 8 > len - p) by (nonlinear_arith)
                    requires
                        n > (len - p) / 8,
                ;
            }
            assert(n * 8 >= 0) by (nonlinear_arith)
                requires
                    n >= 0,
            ;
        }
        return Err(CastError::ReadFailed);
    }
    let p = p as usize;
    proof {
        assert(n * 8 <= len - p) by (nonlinear_arith)
            requires
                n <= (len - p) / 8,
                len >= p,
        ;
    }
    let mut out: Vec<u64> = Vec::new();
    let mut k: usize = 0;
    while k < n
        invariant
            k <= n,
            p + n * 8 <= len,
            len == buff@.len(),
            out@ == Seq::new(k as nat, |j: int| spec_u64_at(buff@, p + j * 8, big)),
        decreases n - k,
    {
        proof {
            assert(p + k * 8 + 8 <= p + n * 8) by (nonlinear_arith)
                requires
                    k < n,
            ;
        }
        let v = read_u64(buff, p + k * 8, big).unwrap();
        out.push(v);
        k = k + 1;
        proof {
            assert(out@ =~= Seq::new(k as nat, |j: int| spec_u64_at(buff@, p + j * 8, big)));
        }
    }
    Ok(out)
}

impl TryCast<Vec<u16>> for Field {
    open spec fn spec_cast(&self, buff: Seq<u8>, args: FieldCastArgs) -> Result<Seq<u16>, CastError> {
        spec_cast_u16s(self.model(), buff, args)
    }

    fn try_cast_to(&self, object_data_buff: &[u8], field_cast_args: &FieldCastArgs) -> Result<Vec<u16>, CastError>
    {
        let (p, n) = array_run(self, object_data_buff, field_cast_args, 2)?;
        read_run_u16(object_data_buff, p, n, field_cast_args.endian.is_big())
    }
}

impl TryCast<Vec<u32>> for Field {
    open spec fn spec_cast(&self, buff: Seq<u8>, args: FieldCastArgs) -> Result<Seq<u32>, CastError> {
        spec_cast_u32s(self.model(), buff, args)
    }

    fn try_cast_to(&self, object_data_buff: &[u8], field_cast_args: &FieldCastArgs) -> Result<Vec<u32>, CastError>
    {
        let (p, n) = array_run(self, object_data_buff, field_cast_args, 4)?;
        read_run_u32(object_data_buff, p, n, field_cast_args.endian.is_big())
    }
}

impl TryCast<Vec<u64>> for Field {
    open spec fn spec_cast(&self, buff: Seq<u8>, args: FieldCastArgs) -> Result<Seq<u64>, CastError> {
        spec_cast_u64s(self.model(), buff, args)
    }

    fn try_cast_to(&self, object_data_buff: &[u8], field_cast_args: &FieldCastArgs) -> Result<Vec<u64>, CastError>
    {
        let (p, n) = array_run(self, object_data_buff, field_cast_args, 8)?;
        read_run_u64(object_data_buff, p, n, field_cast_args.endian.is_big())
    }
}


/// A `string` field is a structure whose `Array` member holds the UTF-8 bytes;
/// they are decoded lossily.
pub open spec fn spec_cast_string(f: Field, buff: Seq<u8>, args: FieldCastArgs) -> Result<
    Seq<char>,
    CastError,
> {
    match f.data {
        FieldValue::Fields(v) => if f.field_type.type_string@ == "string"@ {
            match last_named(v@, "Array"@) {
                Some(k) => match spec_slice_range(v@[k].model(), buff, args) {
                    Some((a, b)) => Ok(utf8_lossy(buff.subrange(a, b))),
                    None => Err(CastError::ReadFailed),
                },
                None => Err(CastError::TypeNotMatch),
            }
        } else {
            Err(CastError::TypeNotMatch)
        },
        _ => Err(CastError::TypeNotMatch),
    }
}

impl TryCast<String> for Field {
    open spec fn spec_cast(&self, buff: Seq<u8>, args: FieldCastArgs) -> Result<Seq<char>, CastError> {
        spec_cast_string(*self, buff, args)
    }

    fn try_cast_to(&self, object_data_buff: &[u8], field_cast_args: &FieldCastArgs) -> Result<String, CastError>
    {
        if let FieldValue::Fields(fields) = &self.data {
            if string_is(&self.field_type.type_string, "string") {
                let name = "Array".to_owned();
                proof {
                    lemma_last_named_bounds(fields@, name@);
                }
                if let Some(k) = find_last_named(fields, &name) {
                    let ghost kk = last_named(fields@, name@)->0;
                    assert(k == kk as usize && 0 <= kk < fields.len());
                    return match fields[k].try_as_slice(object_data_buff, field_cast_args) {
                        Ok(data) => Ok(string_from_utf8_lossy(data)),
                        Err(_) => Err(CastError::ReadFailed),
                    };
                }
            }
        }
        Err(CastError::TypeNotMatch)
    }
}

// ---------------------------------------------------------------------------
// Casting the field at a path
/// Casting the field that `path` reaches from the root of `obj`.
pub open spec fn spec_cast_at<T: View>(obj: TypeTreeObject, path: Seq<Seq<char>>) -> Result<
    T::V,
    CastError,
> where Field: TryCast<T> {
    match spec_field_at(obj.layout(), path, None, obj.data(), obj.endian()) {
        None => Err(CastError::CannotGetField),
        Some((g, o)) => <Field as TryCast<T>>::spec_cast(
            &g,
            obj.data(),
            FieldCastArgs { endian: obj.endian(), field_offset: o },
        ),
    }
}

/// The components of a `/`-separated path below the root component.
pub open spec fn below_root(path: Seq<char>) -> Seq<Seq<char>> {
    let comps = path_components(path);
    if comps.len() < 1 {
        comps
    } else {
        comps.drop_first()
    }
}

/// Building a value out of the field found along a path in `value`.
pub trait TryCastFrom<V, P>: Sized {
    /// Whether `r` is what casting the field at `path` in `value` gives.
    spec fn cast_from_result(value: V, path: P, r: Result<Self, CastError>) -> bool;

    fn try_cast_from(value: V, path: P) -> (r: Result<Self, CastError>)
        ensures
            Self::cast_from_result(value, path, r),
    ;
}

fn cast_field_of<T: View>(obj: &TypeTreeObject, path: &[String]) -> (r: Result<T, CastError>) where
    Field: TryCast<T>,

    ensures
        cast_matches(r, spec_cast_at::<T>(*obj, strings_view(path@))),
{
    match obj.get_field_by_path_list(path) {
        Some((field, offset)) => {
            let args = FieldCastArgs { endian: obj.get_endian(), field_offset: offset };
            <Field as TryCast<T>>::try_cast_to(field, obj.get_data_buff().as_slice(), &args)
        },
        None => Err(CastError::CannotGetField),
    }
}

impl<'a, 'b, T: View> TryCastFrom<&'a TypeTreeObject, &'b [String]> for T where Field: TryCast<T> {
    open spec fn cast_from_result(
        value: &'a TypeTreeObject,
        path: &'b [String],
        r: Result<Self, CastError>,
    ) -> bool {
        cast_matches(r, spec_cast_at::<T>(*value, strings_view(path@)))
    }

    fn try_cast_from(value: &'a TypeTreeObject, path: &'b [String]) -> Result<Self, CastError> {
        cast_field_of(value, path)
    }
}

/// The components below the root that a `/`-separated path names; `None` when it
/// has no component at all.
fn below_root_strings(path: &str) -> (r: Option<Vec<String>>)
    ensures
        path_components(path@).len() < 1 ==> r is None,
        path_components(path@).len() >= 1 ==> (r matches Some(v) && strings_view(v@) == below_root(
            path@,
        )),
{
    let comps = split_path(path);
    if comps.len() < 1 {
        return None;
    }
    let rest = vstd::slice::slice_subrange(comps.as_slice(), 1, comps.len());
    assert(strings_view(rest@) =~= strings_view(comps@).drop_first());
    Some(copy_strings(rest))
}

pub proof fn lemma_strings_view_add(a: Seq<String>, b: Seq<String>)
    ensures
        strings_view(a + b) == strings_view(a) + strings_view(b),
{
    assert(strings_view(a + b) =~= strings_view(a) + strings_view(b));
}

impl<'a, 'b, T: View> TryCastFrom<&'a TypeTreeObject, &'b str> for T where Field: TryCast<T> {
    /// The first component of a `/`-separated path names the root; a path with no
    /// component at all names no field.
    open spec fn cast_from_result(value: &'a TypeTreeObject, path: &'b str, r: Result<Self, CastError>) -> bool {
        if path_components(path@).len() < 1 {
            r == Err::<T, CastError>(CastError::CannotGetField)
        } else {
            cast_matches(r, spec_cast_at::<T>(*value, below_root(path@)))
        }
    }

    fn try_cast_from(value: &'a TypeTreeObject, path: &'b str) -> Result<Self, CastError> {
        match below_root_strings(path) {
            Some(rest) => cast_field_of(value, rest.as_slice()),
            None => Err(CastError::CannotGetField),
        }
    }
}

impl<'a, 'b, T: View> TryCastFrom<&'a TypeTreeObjectRef, &'b [String]> for T where
    Field: TryCast<T>,
 {
    /// `path` continues the reference's own path.
    open spec fn cast_from_result(
        value: &'a TypeTreeObjectRef,
        path: &'b [String],
        r: Result<Self, CastError>,
    ) -> bool {
        cast_matches(r, spec_cast_at::<T>(value.object(), strings_view(value.target_path() + path@)))
    }

    fn try_cast_from(value: &'a TypeTreeObjectRef, path: &'b [String]) -> Result<Self, CastError> {
        let full = value.joined_path(path);
        cast_field_of(value.object_ref(), full.as_slice())
    }
}

impl<'a, 'b, T: View> TryCastFrom<&'a TypeTreeObjectRef, &'b str> for T where Field: TryCast<T> {
    open spec fn cast_from_result(value: &'a TypeTreeObjectRef, path: &'b str, r: Result<Self, CastError>) -> bool {
        if path_components(path@).len() < 1 {
            r == Err::<T, CastError>(CastError::CannotGetField)
        } else {
            cast_matches(
                r,
                spec_cast_at::<T>(
                    value.object(),
                    strings_view(value.target_path()) + below_root(path@),
                ),
            )
        }
    }

    fn try_cast_from(value: &'a TypeTreeObjectRef, path: &'b str) -> Result<Self, CastError> {
        match below_root_strings(path) {
            Some(rest) => {
                let full = value.joined_path(rest.as_slice());
                proof {
                    lemma_strings_view_add(value.target_path(), rest@);
                }
                cast_field_of(value.object_ref(), full.as_slice())
            },
            None => Err(CastError::CannotGetField),
        }
    }
}

// ---------------------------------------------------------------------------
// References, lists of references and key/value lists
/// A reference to the field at `full`, when the object has one there.
pub open spec fn ref_at_result(
    value: TypeTreeObjectRef,
    full: Seq<Seq<char>>,
    r: Result<TypeTreeObjectRef, CastError>,
) -> bool {
    let obj = value.object();
    if spec_field_at(obj.layout(), full, None, obj.data(), obj.endian()) is Some {
        r matches Ok(x) && x.object() == obj && strings_view(x.target_path()) == full
    } else {
        r matches Err(e) && e == CastError::CannotGetField
    }
}

fn ref_at(value: &TypeTreeObjectRef, full: Vec<String>) -> (r: Result<TypeTreeObjectRef, CastError>)
    ensures
        ref_at_result(*value, strings_view(full@), r),
{
    if value.object_ref().get_field_by_path_list(full.as_slice()).is_some() {
        Ok(value.with_path(full))
    } else {
        Err(CastError::CannotGetField)
    }
}

impl<'a, 'b> TryCastFrom<&'a TypeTreeObjectRef, &'b [String]> for TypeTreeObjectRef {
    open spec fn cast_from_result(
        value: &'a TypeTreeObjectRef,
        path: &'b [String],
        r: Result<Self, CastError>,
    ) -> bool {
        ref_at_result(*value, strings_view(value.target_path() + path@), r)
    }

    fn try_cast_from(value: &'a TypeTreeObjectRef, path: &'b [String]) -> Result<Self, CastError> {
        ref_at(value, value.joined_path(path))
    }
}

impl<'a, 'b> TryCastFrom<&'a TypeTreeObjectRef, &'b str> for TypeTreeObjectRef {
    open spec fn cast_from_result(value: &'a TypeTreeObjectRef, path: &'b str, r: Result<Self, CastError>) -> bool {
        if path_components(path@).len() < 1 {
            r matches Err(e) && e == CastError::CannotGetField
        } else {
            ref_at_result(*value, strings_view(value.target_path()) + below_root(path@), r)
        }
    }

    fn try_cast_from(value: &'a TypeTreeObjectRef, path: &'b str) -> Result<Self, CastError> {
        match below_root_strings(path) {
            Some(rest) => {
                proof {
                    lemma_strings_view_add(value.target_path(), rest@);
                }
                ref_at(value, value.joined_path(rest.as_slice()))
            },
            None => Err(CastError::CannotGetField),
        }
    }
}

/// The number of items of the array at `full`: the value of its size field, as
/// zero when negative.
pub open spec fn array_len_at(obj: TypeTreeObject, full: Seq<Seq<char>>) -> Result<int, CastError> {
    match spec_field_at(obj.layout(), full, None, obj.data(), obj.endian()) {
        Some((g, _)) => match g.data {
            FieldValue::Array(a) => match spec_cast_i32(
                a.array_size.model(),
                obj.data(),
                FieldCastArgs { endian: obj.endian(), field_offset: None },
            ) {
                Err(e) => Err(e),
                Ok(n) => Ok(
                    if n < 0 {
                        0
                    } else {
                        n as int
                    },
                ),
            },
            _ => Err(CastError::CannotGetField),
        },
        None => Err(CastError::CannotGetField),
    }
}

/// One reference per item of the array at `full`, item `i` at path `full` then `i`.
pub open spec fn items_result(
    value: TypeTreeObjectRef,
    full: Seq<Seq<char>>,
    r: Result<Vec<TypeTreeObjectRef>, CastError>,
) -> bool {
    match array_len_at(value.object(), full) {
        Err(e) => r matches Err(f) && f == e,
        Ok(n) => r matches Ok(v) && v@.len() == n && forall|i: int|
            0 <= i < v@.len() ==> #[trigger] v@[i].object() == value.object() && strings_view(
                v@[i].target_path(),
            ) == full.push(decimal(i as nat)),
    }
}

fn items_at(value: &TypeTreeObjectRef, full: Vec<String>) -> (r: Result<
    Vec<TypeTreeObjectRef>,
    CastError,
>)
    ensures
        items_result(*value, strings_view(full@), r),
{
    let obj = value.object_ref();
    let f = match obj.get_field_by_path_list(full.as_slice()) {
        Some((f, _)) => f,
        None => return Err(CastError::CannotGetField),
    };
    let a = match &f.data {
        FieldValue::Array(a) => a,
        _ => return Err(CastError::CannotGetField),
    };
    let size: i32 = match a.array_size.try_cast_to(
        obj.get_data_buff().as_slice(),
        &obj.get_field_cast_args(),
    ) {
        Ok(v) => v,
        Err(e) => return Err(e),
    };
    let ghost fv = strings_view(full@);
    let mut out: Vec<TypeTreeObjectRef> = Vec::new();
    let mut i: i32 = 0;
    while i < size
        invariant
            0 <= i,
            size >= 0 ==> i <= size,
            size < 0 ==> i == 0,
            out@.len() == i,
            fv == strings_view(full@),
            forall|j: int|
                0 <= j < out@.len() ==> #[trigger] out@[j].object() == value.object()
                    && strings_view(out@[j].target_path()) == fv.push(decimal(j as nat)),
        decreases size - i,
    {
        let mut p = copy_strings(full.as_slice());
        let name = decimal_string(i as u32);
        p.push(name);
        proof {
            assert(strings_view(p@) =~= fv.push(decimal(i as nat)));
        }
        out.push(value.with_path(p));
        i = i + 1;
    }
    assert(out@.len() == if size < 0 {
        0
    } else {
        size as int
    });
    Ok(out)
}

impl<'a, 'b> TryCastFrom<&'a TypeTreeObjectRef, &'b [String]> for Vec<TypeTreeObjectRef> {
    open spec fn cast_from_result(
        value: &'a TypeTreeObjectRef,
        path: &'b [String],
        r: Result<Self, CastError>,
    ) -> bool {
        items_result(*value, strings_view(value.target_path() + path@), r)
    }

    fn try_cast_from(value: &'a TypeTreeObjectRef, path: &'b [String]) -> Result<Self, CastError> {
        items_at(value, value.joined_path(path))
    }
}

impl<'a, 'b> TryCastFrom<&'a TypeTreeObjectRef, &'b str> for Vec<TypeTreeObjectRef> {
    open spec fn cast_from_result(value: &'a TypeTreeObjectRef, path: &'b str, r: Result<Self, CastError>) -> bool {
        if path_components(path@).len() < 1 {
            r matches Err(e) && e == CastError::CannotGetField
        } else {
            items_result(*value, strings_view(value.target_path()) + below_root(path@), r)
        }
    }

    fn try_cast_from(value: &'a TypeTreeObjectRef, path: &'b str) -> Result<Self, CastError> {
        match below_root_strings(path) {
            Some(rest) => {
                proof {
                    lemma_strings_view_add(value.target_path(), rest@);
                }
                items_at(value, value.joined_path(rest.as_slice()))
            },
            None => Err(CastError::CannotGetField),
        }
    }
}


/// A key and the path of its value.
pub type EntryView = (Seq<char>, Seq<Seq<char>>);

/// Where key `k` stands in `m`.
pub open spec fn key_index(m: Seq<EntryView>, k: Seq<char>) -> Option<int>
    decreases m.len(),
{
    if m.len() == 0 {
        None
    } else if m.last().0 == k {
        Some(m.len() - 1)
    } else {
        key_index(m.drop_last(), k)
    }
}

/// Adds a key to a list of distinct keys: a key already present gets the new value
/// in its place, as a map insertion does.
pub open spec fn insert_entry(m: Seq<EntryView>, k: Seq<char>, p: Seq<Seq<char>>) -> Seq<EntryView> {
    match key_index(m, k) {
        Some(i) => m.update(i, (k, p)),
        None => m.push((k, p)),
    }
}

/// The key and value paths of item `i` of the array at `full`: its `first` and
/// `second` members.
pub open spec fn entry_key_path(full: Seq<Seq<char>>, i: nat) -> Seq<Seq<char>> {
    full.push(decimal(i)) + seq!["first"@]
}

pub open spec fn entry_value_path(full: Seq<Seq<char>>, i: nat) -> Seq<Seq<char>> {
    full.push(decimal(i)) + seq!["second"@]
}

/// The entries of the first `n` items of the array at `full`: each item whose
/// `first` is a string and which has a `second` adds that key with the path of that
/// value.
pub open spec fn entries_of(obj: TypeTreeObject, full: Seq<Seq<char>>, n: nat) -> Seq<EntryView>
    decreases n,
{
    if n == 0 {
        seq![]
    } else {
        let prev = entries_of(obj, full, (n - 1) as nat);
        let vp = entry_value_path(full, (n - 1) as nat);
        match spec_cast_at::<String>(obj, entry_key_path(full, (n - 1) as nat)) {
            Ok(k) => if spec_field_at(obj.layout(), vp, None, obj.data(), obj.endian()) is Some {
                insert_entry(prev, k, vp)
            } else {
                prev
            },
            Err(_) => prev,
        }
    }
}

pub open spec fn entries_view(v: Seq<(String, TypeTreeObjectRef)>) -> Seq<EntryView> {
    v.map_values(|e: (String, TypeTreeObjectRef)| (e.0@, strings_view(e.1.target_path())))
}

/// The key/value list of the array of pairs at `full`, a key occurring once.
pub open spec fn entries_result(
    value: TypeTreeObjectRef,
    full: Seq<Seq<char>>,
    r: Result<Vec<(String, TypeTreeObjectRef)>, CastError>,
) -> bool {
    match array_len_at(value.object(), full) {
        Err(e) => r matches Err(f) && f == e,
        Ok(n) => r matches Ok(v) && entries_view(v@) == entries_of(value.object(), full, n as nat)
            && forall|i: int| 0 <= i < v@.len() ==> #[trigger] v@[i].1.object() == value.object(),
    }
}

fn find_key(m: &Vec<(String, TypeTreeObjectRef)>, k: &String) -> (r: Option<usize>)
    ensures
        match key_index(entries_view(m@), k@) {
            Some(i) => r == Some(i as usize) && 0 <= i < m@.len(),
            None => r is None,
        },
{
    let ghost mv = entries_view(m@);
    let mut i = m.len();
    assert(mv.take(i as int) =~= mv);
    while i > 0
        invariant
            i <= m@.len(),
            mv == entries_view(m@),
            key_index(mv, k@) == key_index(mv.take(i as int), k@),
        decreases i,
    {
        proof {
            assert(mv.take(i as int).drop_last() =~= mv.take(i - 1));
        }
        if m[i - 1].0 == *k {
            return Some(i - 1);
        }
        i = i - 1;
    }
    None
}

proof fn lemma_key_index_bounds(m: Seq<EntryView>, k: Seq<char>)
    ensures
        key_index(m, k) matches Some(x) ==> 0 <= x < m.len(),
    decreases m.len(),
{
    if m.len() > 0 {
        lemma_key_index_bounds(m.drop_last(), k);
    }
}

fn entries_at(value: &TypeTreeObjectRef, full: Vec<String>) -> (r: Result<
    Vec<(String, TypeTreeObjectRef)>,
    CastError,
>)
    ensures
        entries_result(*value, strings_view(full@), r),
{
    let ghost fv = strings_view(full@);
    let items = match items_at(value, copy_strings(full.as_slice())) {
        Ok(v) => v,
        Err(e) => return Err(e),
    };
    let key_path = vec!["first".to_owned()];
    let value_path = vec!["second".to_owned()];
    let mut out: Vec<(String, TypeTreeObjectRef)> = Vec::new();
    let mut i: usize = 0;
    while i < items.len()
        invariant
            i <= items@.len(),
            fv == strings_view(full@),
            strings_view(key_path@) == seq!["first"@],
            strings_view(value_path@) == seq!["second"@],
            forall|j: int|
                0 <= j < items@.len() ==> #[trigger] items@[j].object() == value.object()
                    && strings_view(items@[j].target_path()) == fv.push(decimal(j as nat)),
            entries_view(out@) == entries_of(value.object(), fv, i as nat),
            forall|j: int| 0 <= j < out@.len() ==> #[trigger] out@[j].1.object() == value.object(),
        decreases items.len() - i,
    {
        let item = &items[i];
        let ghost ip = strings_view(item.target_path());
        proof {
            lemma_strings_view_add(item.target_path(), key_path@);
            lemma_strings_view_add(item.target_path(), value_path@);
        }
        let key: Result<String, CastError> = <String as TryCastFrom<
            &TypeTreeObjectRef,
            &[String],
        >>::try_cast_from(item, key_path.as_slice());
        let val: Result<TypeTreeObjectRef, CastError> = <TypeTreeObjectRef as TryCastFrom<
            &TypeTreeObjectRef,
            &[String],
        >>::try_cast_from(item, value_path.as_slice());
        proof {
            assert(ip + seq!["first"@] == entry_key_path(fv, i as nat));
            assert(ip + seq!["second"@] == entry_value_path(fv, i as nat));
        }
        let ghost obj = value.object();
        let ghost prev = entries_of(obj, fv, i as nat);
        let ghost vp = entry_value_path(fv, i as nat);
        assert(item.object() == obj);
        assert(entries_of(obj, fv, (i + 1) as nat) == match spec_cast_at::<String>(obj, entry_key_path(fv, i as nat)) {
            Ok(k) => if spec_field_at(obj.layout(), vp, None, obj.data(), obj.endian()) is Some {
                insert_entry(prev, k, vp)
            } else {
                prev
            },
            Err(_) => prev,
        });
        if let Ok(k) = key {
            assert(spec_cast_at::<String>(obj, entry_key_path(fv, i as nat)) == Ok::<Seq<char>, CastError>(k@));
            if let Ok(v) = val {
                assert(strings_view(v.target_path()) == vp);
                assert(spec_field_at(obj.layout(), vp, None, obj.data(), obj.endian()) is Some);
                let ghost before = entries_view(out@);
                let ghost kv = k@;
                let ghost vv = strings_view(v.target_path());
                proof {
                    lemma_key_index_bounds(before, kv);
                }
                let out_len = out.len();
                match find_key(&out, &k) {
                    Some(idx) => {
                        let ghost ki = key_index(before, kv)->0;
                        assert(idx == ki as usize && 0 <= ki < before.len());
                        out.set(idx, (k, v));
                        assert(entries_view(out@) =~= before.update(ki, (kv, vv)));
                    },
                    None => {
                        out.push((k, v));
                        assert(entries_view(out@) =~= before.push((kv, vv)));
                    },
                }
            }
        }
        i = i + 1;
    }
    Ok(out)
}

impl<'a, 'b> TryCastFrom<&'a TypeTreeObjectRef, &'b [String]> for Vec<(String, TypeTreeObjectRef)> {
    open spec fn cast_from_result(
        value: &'a TypeTreeObjectRef,
        path: &'b [String],
        r: Result<Self, CastError>,
    ) -> bool {
        entries_result(*value, strings_view(value.target_path() + path@), r)
    }

    fn try_cast_from(value: &'a TypeTreeObjectRef, path: &'b [String]) -> Result<Self, CastError> {
        entries_at(value, value.joined_path(path))
    }
}

impl<'a, 'b> TryCastFrom<&'a TypeTreeObjectRef, &'b str> for Vec<(String, TypeTreeObjectRef)> {
    open spec fn cast_from_result(value: &'a TypeTreeObjectRef, path: &'b str, r: Result<Self, CastError>) -> bool {
        if path_components(path@).len() < 1 {
            r matches Err(e) && e == CastError::CannotGetField
        } else {
            entries_result(*value, strings_view(value.target_path()) + below_root(path@), r)
        }
    }

    fn try_cast_from(value: &'a TypeTreeObjectRef, path: &'b str) -> Result<Self, CastError> {
        match below_root_strings(path) {
            Some(rest) => {
                proof {
                    lemma_strings_view_add(value.target_path(), rest@);
                }
                entries_at(value, value.joined_path(rest.as_slice()))
            },
            None => Err(CastError::CannotGetField),
        }
    }
}


// ---------------------------------------------------------------------------
// Floating-point fields, kept as their bit patterns
/// A 32-bit float field's value as its bit pattern.
#[derive(Debug, Clone, Copy, PartialEq, Eq, Structural)]
pub struct F32Bits(pub u32);

/// A 64-bit float field's value as its bit pattern.
#[derive(Debug, Clone, Copy, PartialEq, Eq, Structural)]
pub struct F64Bits(pub u64);

/// The bit patterns of an array of 32-bit floats.
#[derive(Debug, Clone, PartialEq, Eq)]
pub struct F32BitsList(pub Vec<u32>);

/// The bit patterns of an array of 64-bit floats.
#[derive(Debug, Clone, PartialEq, Eq)]
pub struct F64BitsList(pub Vec<u64>);

impl View for F32Bits {
    type V = u32;

    open spec fn view(&self) -> u32 {
        self.0
    }
}

impl View for F64Bits {
    type V = u64;

    open spec fn view(&self) -> u64 {
        self.0
    }
}

impl View for F32BitsList {
    type V = Seq<u32>;

    open spec fn view(&self) -> Seq<u32> {
        self.0@
    }
}

impl View for F64BitsList {
    type V = Seq<u64>;

    open spec fn view(&self) -> Seq<u64> {
        self.0@
    }
}

/// A `float` field: four bytes.
pub open spec fn spec_cast_f32_bits(m: FieldModel, buff: Seq<u8>, args: FieldCastArgs) -> Result<
    u32,
    CastError,
> {
    if m.data is Offset && m.node.type_string == "float"@ {
        match spec_scalar_pos(m, args) {
            Err(e) => Err(e),
            Ok(p) => read_or_fail(opt_u32(buff, p, args.endian.spec_is_big())),
        }
    } else {
        Err(CastError::TypeNotMatch)
    }
}

/// A `double` field: eight bytes.
pub open spec fn spec_cast_f64_bits(m: FieldModel, buff: Seq<u8>, args: FieldCastArgs) -> Result<
    u64,
    CastError,
> {
    if m.data is Offset && m.node.type_string == "double"@ {
        match spec_scalar_pos(m, args) {
            Err(e) => Err(e),
            Ok(p) => read_or_fail(opt_u64(buff, p, args.endian.spec_is_big())),
        }
    } else {
        Err(CastError::TypeNotMatch)
    }
}

impl TryCast<F32Bits> for Field {
    open spec fn spec_cast(&self, buff: Seq<u8>, args: FieldCastArgs) -> Result<u32, CastError> {
        spec_cast_f32_bits(self.model(), buff, args)
    }

    fn try_cast_to(&self, object_data_buff: &[u8], field_cast_args: &FieldCastArgs) -> Result<F32Bits, CastError>
    {
        if matches!(self.data, FieldValue::DataOffset(_)) && string_is(&self.field_type.type_string, "float") {
            let p = scalar_pos(self, object_data_buff, field_cast_args)?;
            match pos_index(p, object_data_buff.len()) {
                Some(i) => match read_u32(object_data_buff, i, field_cast_args.endian.is_big()) {
                    Some(v) => Ok(F32Bits(v)),
                    None => Err(CastError::ReadFailed),
                },
                None => Err(CastError::ReadFailed),
            }
        } else {
            Err(CastError::TypeNotMatch)
        }
    }
}

impl TryCast<F64Bits> for Field {
    open spec fn spec_cast(&self, buff: Seq<u8>, args: FieldCastArgs) -> Result<u64, CastError> {
        spec_cast_f64_bits(self.model(), buff, args)
    }

    fn try_cast_to(&self, object_data_buff: &[u8], field_cast_args: &FieldCastArgs) -> Result<F64Bits, CastError>
    {
        if matches!(self.data, FieldValue::DataOffset(_)) && string_is(&self.field_type.type_string, "double") {
            let p = scalar_pos(self, object_data_buff, field_cast_args)?;
            match pos_index(p, object_data_buff.len()) {
                Some(i) => match read_u64(object_data_buff, i, field_cast_args.endian.is_big()) {
                    Some(v) => Ok(F64Bits(v)),
                    None => Err(CastError::ReadFailed),
                },
                None => Err(CastError::ReadFailed),
            }
        } else {
            Err(CastError::TypeNotMatch)
        }
    }
}

/// The run of items of an array whose item type is named `t`: its position and
/// item count.
pub open spec fn spec_typed_run(m: FieldModel, buff: Seq<u8>, args: FieldCastArgs, t: Seq<char>) -> Result<
    (int, int),
    CastError,
> {
    match m.data {
        ValueModel::Array { size, item, data, .. } => match data {
            ArrayDataModel::Offset(d) => match spec_cast_i32(*size, buff, args) {
                Err(e) => Err(e),
                Ok(count) => match item {
                    Some(it) => if it.node.type_string == t {
                        match spec_data_pos(d, args) {
                            Err(e) => Err(e),
                            Ok(p) => Ok((p, (count as usize) as int)),
                        }
                    } else {
                        Err(CastError::TypeNotMatch)
                    },
                    None => Err(CastError::TypeNotMatch),
                },
            },
            _ => Err(CastError::TypeNotMatch),
        },
        _ => Err(CastError::TypeNotMatch),
    }
}

fn typed_run(f: &Field, buff: &[u8], args: &FieldCastArgs, t: &str) -> (r: Result<
    (u64, usize),
    CastError,
>)
    ensures
        match spec_typed_run(f.model(), buff@, *args, t@) {
            Ok((p, n)) => r == Ok::<(u64, usize), CastError>((p as u64, n as usize)),
            Err(e) => r == Err::<(u64, usize), CastError>(e),
        },
{
    match &f.data {
        FieldValue::Array(a) => match &a.data {
            ArrayFieldValue::DataOffset(d) => {
                let count: i32 = a.array_size.try_cast_to(buff, args)?;
                assert(spec_cast_i32(a.array_size.model(), buff@, *args) == Ok::<i32, CastError>(count));
                match &a.item_field {
                    Some(it) => {
                        proof {
                            assert(it.model().node == it.field_type@);
                        }
                        if string_is(&it.field_type.type_string, t) {
                            let p = data_pos(d, args)?;
                            Ok((p, count as usize))
                        } else {
                            Err(CastError::TypeNotMatch)
                        }
                    },
                    None => Err(CastError::TypeNotMatch),
                }
            },
            _ => Err(CastError::TypeNotMatch),
        },
        _ => Err(CastError::TypeNotMatch),
    }
}

pub open spec fn spec_cast_f32_run(m: FieldModel, buff: Seq<u8>, args: FieldCastArgs) -> Result<
    Seq<u32>,
    CastError,
> {
    match spec_typed_run(m, buff, args, "float"@) {
        Err(e) => Err(e),
        Ok((p, n)) => spec_run_u32(buff, p, n, args.endian.spec_is_big()),
    }
}

pub open spec fn spec_cast_f64_run(m: FieldModel, buff: Seq<u8>, args: FieldCastArgs) -> Result<
    Seq<u64>,
    CastError,
> {
    match spec_typed_run(m, buff, args, "double"@) {
        Err(e) => Err(e),
        Ok((p, n)) => spec_run_u64(buff, p, n, args.endian.spec_is_big()),
    }
}

impl TryCast<F32BitsList> for Field {
    open spec fn spec_cast(&self, buff: Seq<u8>, args: FieldCastArgs) -> Result<Seq<u32>, CastError> {
        spec_cast_f32_run(self.model(), buff, args)
    }

    fn try_cast_to(&self, object_data_buff: &[u8], field_cast_args: &FieldCastArgs) -> Result<F32BitsList, CastError>
    {
        let (p, n) = typed_run(self, object_data_buff, field_cast_args, "float")?;
        match read_run_u32(object_data_buff, p, n, field_cast_args.endian.is_big()) {
            Ok(v) => Ok(F32BitsList(v)),
            Err(e) => Err(e),
        }
    }
}

impl TryCast<F64BitsList> for Field {
    open spec fn spec_cast(&self, buff: Seq<u8>, args: FieldCastArgs) -> Result<Seq<u64>, CastError> {
        spec_cast_f64_run(self.model(), buff, args)
    }

    fn try_cast_to(&self, object_data_buff: &[u8], field_cast_args: &FieldCastArgs) -> Result<F64BitsList, CastError>
    {
        let (p, n) = typed_run(self, object_data_buff, field_cast_args, "double")?;
        match read_run_u64(object_data_buff, p, n, field_cast_args.endian.is_big()) {
            Ok(v) => Ok(F64BitsList(v)),
            Err(e) => Err(e),
        }
    }
}


/// Every pair after `insert_entry` is the new one or one that was there.
pub proof fn lemma_insert_entry_members(m: Seq<EntryView>, k: Seq<char>, p: Seq<Seq<char>>)
    ensures
        forall|i: int|
            0 <= i < insert_entry(m, k, p).len() ==> (#[trigger] insert_entry(m, k, p)[i]).1 == p
                || exists|j: int| 0 <= j < m.len() && insert_entry(m, k, p)[i] == m[j],
{
    lemma_key_index_bounds(m, k);
    let e = insert_entry(m, k, p);
    assert forall|i: int| 0 <= i < e.len() implies (#[trigger] e[i]).1 == p || exists|j: int|
        0 <= j < m.len() && e[i] == m[j] by {
        match key_index(m, k) {
            Some(x) => {
                if i != x {
                    assert(e[i] == m[i]);
                }
            },
            None => {
                if i < m.len() {
                    assert(e[i] == m[i]);
                }
            },
        }
    }
}


// Vectors and rotations of 32-bit floats, by their named members
/// The name of the `i`-th member of a vector or rotation: `x`, `y`, `z`, `w`.
pub open spec fn member_name(i: int) -> Seq<char> {
    if i == 0 {
        "x"@
    } else if i == 1 {
        "y"@
    } else if i == 2 {
        "z"@
    } else {
        "w"@
    }
}

/// The bit patterns of the first `n` members of a structure, each the last sub-field
/// of its name, read as a 32-bit float; the first member that is missing or does not
/// read stops it.
pub open spec fn spec_members(v: Seq<Field>, n: nat, buff: Seq<u8>, args: FieldCastArgs) -> Result<
    Seq<u32>,
    CastError,
>
    decreases n,
{
    if n == 0 {
        Ok(seq![])
    } else {
        match spec_members(v, (n - 1) as nat, buff, args) {
            Err(e) => Err(e),
            Ok(prev) => match last_named(v, member_name(n - 1)) {
                None => Err(CastError::CannotGetField),
                Some(k) => match spec_cast_f32_bits(v[k].model(), buff, args) {
                    Err(e) => Err(e),
                    Ok(b) => Ok(prev.push(b)),
                },
            },
        }
    }
}

/// A structure field read as `n` float members; any other field does not match.
pub open spec fn spec_float_members(f: Field, n: nat, buff: Seq<u8>, args: FieldCastArgs) -> Result<
    Seq<u32>,
    CastError,
> {
    match f.data {
        FieldValue::Fields(v) => spec_members(v@, n, buff, args),
        _ => Err(CastError::TypeNotMatch),
    }
}

proof fn lemma_members_len(v: Seq<Field>, n: nat, buff: Seq<u8>, args: FieldCastArgs)
    ensures
        spec_members(v, n, buff, args) matches Ok(s) ==> s.len() == n,
    decreases n,
{
    if n > 0 {
        lemma_members_len(v, (n - 1) as nat, buff, args);
    }
}

proof fn lemma_members_err(v: Seq<Field>, m: nat, n: nat, buff: Seq<u8>, args: FieldCastArgs)
    requires
        m <= n,
        spec_members(v, m, buff, args) is Err,
    ensures
        spec_members(v, n, buff, args) == spec_members(v, m, buff, args),
    decreases n - m,
{
    if m < n {
        lemma_members_err(v, m, (n - 1) as nat, buff, args);
    }
}

fn member_name_string(i: usize) -> (r: String)
    requires
        i < 4,
    ensures
        r@ == member_name(i as int),
{
    proof {
        reveal_strlit("x");
        reveal_strlit("y");
        reveal_strlit("z");
        reveal_strlit("w");
    }
    if i == 0 {
        "x".to_owned()
    } else if i == 1 {
        "y".to_owned()
    } else if i == 2 {
        "z".to_owned()
    } else {
        "w".to_owned()
    }
}

fn float_members(f: &Field, n: usize, buff: &[u8], args: &FieldCastArgs) -> (r: Result<Vec<u32>, CastError>)
    requires
        n <= 4,
    ensures
        match spec_float_members(*f, n as nat, buff@, *args) {
            Ok(v) => r matches Ok(w) && w@ == v,
            Err(e) => r matches Err(g) && g == e,
        },
{
    let fields = match &f.data {
        FieldValue::Fields(v) => v,
        _ => return Err(CastError::TypeNotMatch),
    };
    let mut out: Vec<u32> = Vec::new();
    let mut i: usize = 0;
    while i < n
        invariant
            i <= n,
            n <= 4,
            f.data == FieldValue::Fields(*fields),
            spec_members(fields@, i as nat, buff@, *args) == Ok::<Seq<u32>, CastError>(out@),
        decreases n - i,
    {
        let name = member_name_string(i);
        let flen = fields.len();
        let ghost next = (i + 1) as nat;
        proof {
            lemma_last_named_bounds(fields@, name@);
            assert(next - 1 == i);
        }
        let k = match find_last_named(fields, &name) {
            Some(k) => k,
            None => {
                proof {
                    lemma_members_err(fields@, next, n as nat, buff@, *args);
                }
                return Err(CastError::CannotGetField);
            },
        };
        let b: Result<F32Bits, CastError> = fields[k].try_cast_to(buff, args);
        assert(<Field as TryCast<F32Bits>>::spec_cast(&fields[k as int], buff@, *args) == spec_cast_f32_bits(
            fields@[k as int].model(),
            buff@,
            *args,
        ));
        match b {
            Ok(x) => out.push(x.0),
            Err(e) => {
                proof {
                    assert(last_named(fields@, member_name(next - 1)) == Some(k as int));
                    assert(spec_cast_f32_bits(fields@[k as int].model(), buff@, *args) == Err::<u32, CastError>(e));
                    assert(spec_members(fields@, next, buff@, *args) == Err::<Seq<u32>, CastError>(e));
                    lemma_members_err(fields@, next, n as nat, buff@, *args);
                }
                return Err(e);
            },
        }
        i = i + 1;
    }
    Ok(out)
}

/// A two-member float vector (`x`, `y`) as bit patterns.
#[derive(Debug, Clone, Copy, PartialEq, Eq)]
pub struct Vec2Bits {
    pub x: u32,
    pub y: u32,
}

/// A three-member float vector (`x`, `y`, `z`) as bit patterns.
#[derive(Debug, Clone, Copy, PartialEq, Eq)]
pub struct Vec3Bits {
    pub x: u32,
    pub y: u32,
    pub z: u32,
}

/// A rotation (`x`, `y`, `z`, `w`) as bit patterns.
#[derive(Debug, Clone, Copy, PartialEq, Eq)]
pub struct QuatBits {
    pub x: u32,
    pub y: u32,
    pub z: u32,
    pub w: u32,
}

impl View for Vec2Bits {
    type V = Seq<u32>;

    open spec fn view(&self) -> Seq<u32> {
        seq![self.x, self.y]
    }
}

impl View for Vec3Bits {
    type V = Seq<u32>;

    open spec fn view(&self) -> Seq<u32> {
        seq![self.x, self.y, self.z]
    }
}

impl View for QuatBits {
    type V = Seq<u32>;

    open spec fn view(&self) -> Seq<u32> {
        seq![self.x, self.y, self.z, self.w]
    }
}

impl TryCast<Vec2Bits> for Field {
    open spec fn spec_cast(&self, buff: Seq<u8>, args: FieldCastArgs) -> Result<Seq<u32>, CastError> {
        spec_float_members(*self, 2, buff, args)
    }

    fn try_cast_to(&self, object_data_buff: &[u8], field_cast_args: &FieldCastArgs) -> Result<Vec2Bits, CastError>
    {
        let v = float_members(self, 2, object_data_buff, field_cast_args)?;
        proof {
            lemma_members_len(
                match &self.data {
                    FieldValue::Fields(fs) => fs@,
                    _ => Seq::<Field>::empty(),
                },
                2,
                object_data_buff@,
                *field_cast_args,
            );
        }
        let r = Vec2Bits { x: v[0], y: v[1] };
        assert(r@ =~= v@);
        Ok(r)
    }
}

impl TryCast<Vec3Bits> for Field {
    open spec fn spec_cast(&self, buff: Seq<u8>, args: FieldCastArgs) -> Result<Seq<u32>, CastError> {
        spec_float_members(*self, 3, buff, args)
    }

    fn try_cast_to(&self, object_data_buff: &[u8], field_cast_args: &FieldCastArgs) -> Result<Vec3Bits, CastError>
    {
        let v = float_members(self, 3, object_data_buff, field_cast_args)?;
        proof {
            lemma_members_len(
                match &self.data {
                    FieldValue::Fields(fs) => fs@,
                    _ => Seq::<Field>::empty(),
                },
                3,
                object_data_buff@,
                *field_cast_args,
            );
        }
        let r = Vec3Bits { x: v[0], y: v[1], z: v[2] };
        assert(r@ =~= v@);
        Ok(r)
    }
}

impl TryCast<QuatBits> for Field {
    open spec fn spec_cast(&self, buff: Seq<u8>, args: FieldCastArgs) -> Result<Seq<u32>, CastError> {
        spec_float_members(*self, 4, buff, args)
    }

    fn try_cast_to(&self, object_data_buff: &[u8], field_cast_args: &FieldCastArgs) -> Result<QuatBits, CastError>
    {
        let v = float_members(self, 4, object_data_buff, field_cast_args)?;
        proof {
            lemma_members_len(
                match &self.data {
                    FieldValue::Fields(fs) => fs@,
                    _ => Seq::<Field>::empty(),
                },
                4,
                object_data_buff@,
                *field_cast_args,
            );
        }
        let r = QuatBits { x: v[0], y: v[1], z: v[2], w: v[3] };
        assert(r@ =~= v@);
        Ok(r)
    }
}


impl Field {
    /// Reads a 32-bit signed field's value at `pos` of `buf` (the next value of a
    /// stream of the object's bytes): the value and the position after it.
    pub fn try_read_to(&self, buf: &[u8], pos: usize, field_cast_args: &FieldCastArgs) -> (r: Result<
        (i32, usize),
        CastError,
    >)
        ensures
            !type_in(self.field_type.type_string@, "SInt32", "int") ==> r == Err::<(i32, usize), CastError>(
                CastError::TypeNotMatch,
            ),
            type_in(self.field_type.type_string@, "SInt32", "int") ==> match opt_i32(
                buf@,
                pos as int,
                field_cast_args.endian.spec_is_big(),
            ) {
                Some(v) => r == Ok::<(i32, usize), CastError>((v, (pos + 4) as usize)) && pos + 4 <= buf@.len(),
                None => r == Err::<(i32, usize), CastError>(CastError::ReadFailed),
            },
    {
        if !(string_is(&self.field_type.type_string, "SInt32") || string_is(&self.field_type.type_string, "int")) {
            return Err(CastError::TypeNotMatch);
        }
        let len = buf.len();
        match read_i32(buf, pos, field_cast_args.endian.is_big()) {
            Some(v) => Ok((v, pos + 4)),
            None => Err(CastError::ReadFailed),
        }
    }
}

} // verus!
