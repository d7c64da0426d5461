//! Object classes read straight from an object's bytes.
use vstd::prelude::*;

use crate::binary::{fits, has_bytes, copy_range, opt_i32, read_i32, read_u32, signed32, spec_u32_at};
use crate::error::ReadError;
use crate::until::binary_records::AlignedString;

verus! {

/// A reference to an object: the file it lives in (0 for the same file, else an
/// index into the file's external references plus one) and its path id.
#[derive(Debug, Clone, Copy, PartialEq, Eq, Structural)]
pub struct ObjectPointer {
    pub file_id: i32,
    pub path_id: i32,
}

impl ObjectPointer {
    /// Two 32-bit numbers: the file id and the path id.
    pub open spec fn spec_read(buf: Seq<u8>, pos: int, big: bool) -> Result<(ObjectPointer, int), ReadError> {
        if !fits(buf, pos, 8) {
            Err(ReadError::UnexpectedEof)
        } else {
            Ok(
                (
                    ObjectPointer {
                        file_id: signed32(spec_u32_at(buf, pos, big)),
                        path_id: signed32(spec_u32_at(buf, pos + 4, big)),
                    },
                    pos + 8,
                ),
            )
        }
    }

    pub fn read(buf: &[u8], pos: usize, big: bool) -> (r: Result<(ObjectPointer, usize), ReadError>)
        ensures
            match Self::spec_read(buf@, pos as int, big) {
                Ok((v, p)) => r matches Ok((w, q)) && w == v && q == p,
                Err(e) => r matches Err(f) && f == e,
            },
    {
        if !has_bytes(buf.len(), pos, 8) {
            return Err(ReadError::UnexpectedEof);
        }
        let file_id = match read_i32(buf, pos, big) {
            Some(v) => v,
            None => return Err(ReadError::UnexpectedEof),
        };
        let path_id = match read_i32(buf, pos + 4, big) {
            Some(v) => v,
            None => return Err(ReadError::UnexpectedEof),
        };
        Ok((ObjectPointer { file_id, path_id }, pos + 8))
    }

    /// The path id, widened.
    pub fn get_path_id(&self) -> (r: i64)
        ensures
            r == self.path_id,
    {
        self.path_id as i64
    }

    pub fn get_file_id(&self) -> (r: i32)
        ensures
            r == self.file_id,
    {
        self.file_id
    }
}

/// A script asset: its name, execution order, properties hash, class name, namespace
/// and assembly name.
#[derive(Debug, Clone, PartialEq, Eq)]
pub struct MonoScript {
    pub name: AlignedString,
    pub execution_order: i32,
    pub properties_hash: Vec<u8>,
    pub class_name: AlignedString,
    pub namespace: AlignedString,
    pub assembly_name: AlignedString,
}

pub struct MonoScriptView {
    pub name: Seq<u8>,
    pub execution_order: i32,
    pub properties_hash: Seq<u8>,
    pub class_name: Seq<u8>,
    pub namespace: Seq<u8>,
    pub assembly_name: Seq<u8>,
}

impl MonoScript {
    pub open spec fn view_of(&self) -> MonoScriptView {
        MonoScriptView {
            name: self.name.string@,
            execution_order: self.execution_order,
            properties_hash: self.properties_hash@,
            class_name: self.class_name.string@,
            namespace: self.namespace.string@,
            assembly_name: self.assembly_name.string@,
        }
    }

    pub open spec fn spec_read(buf: Seq<u8>, pos: int, big: bool) -> Result<(MonoScriptView, int), ReadError> {
        match AlignedString::spec_read(buf, pos, big) {
            Err(e) => Err(e),
            Ok(((_, name), p1)) => match opt_i32(buf, p1, big) {
                None => Err(ReadError::UnexpectedEof),
                Some(order) => if !fits(buf, p1 + 4, 16) {
                    Err(ReadError::UnexpectedEof)
                } else {
                    match AlignedString::spec_read(buf, p1 + 20, big) {
                        Err(e) => Err(e),
                        Ok(((_, class_name), p2)) => match AlignedString::spec_read(buf, p2, big) {
                            Err(e) => Err(e),
                            Ok(((_, namespace), p3)) => match AlignedString::spec_read(buf, p3, big) {
                                Err(e) => Err(e),
                                Ok(((_, assembly_name), p4)) => Ok(
                                    (
                                        MonoScriptView {
                                            name,
                                            execution_order: order,
                                            properties_hash: buf.subrange(p1 + 4, p1 + 20),
                                            class_name,
                                            namespace,
                                            assembly_name,
                                        },
                                        p4,
                                    ),
                                ),
                            },
                        },
                    }
                },
            },
        }
    }

    pub fn read(buf: &[u8], pos: usize, big: bool) -> (r: Result<(MonoScript, usize), ReadError>)
        ensures
            match Self::spec_read(buf@, pos as int, big) {
                Ok((v, p)) => r matches Ok((m, q)) && m.view_of() == v && q == p,
                Err(e) => r matches Err(f) && f == e,
            },
    {
        let len = buf.len();
        let (name, p1) = AlignedString::read(buf, pos, big)?;
        let execution_order = match read_i32(buf, p1, big) {
            Some(v) => v,
            None => return Err(ReadError::UnexpectedEof),
        };
        if !has_bytes(len, p1 + 4, 16) {
            return Err(ReadError::UnexpectedEof);
        }
        let properties_hash = copy_range(buf, p1 + 4, p1 + 20);
        let (class_name, p2) = AlignedString::read(buf, p1 + 20, big)?;
        let (namespace, p3) = AlignedString::read(buf, p2, big)?;
        let (assembly_name, p4) = AlignedString::read(buf, p3, big)?;
        Ok(
            (
                MonoScript {
                    name,
                    execution_order,
                    properties_hash,
                    class_name,
                    namespace,
                    assembly_name,
                },
                p4,
            ),
        )
    }
}

/// A texture slot of a material: the texture, and its scale and offset as the bit
/// patterns of two 32-bit floats each.
#[derive(Debug, Clone, Copy, PartialEq, Eq, Structural)]
pub struct UnityTexEnv {
    pub texture: ObjectPointer,
    pub scale_x: u32,
    pub scale_y: u32,
    pub offset_x: u32,
    pub offset_y: u32,
}

impl UnityTexEnv {
    pub open spec fn spec_read(buf: Seq<u8>, pos: int, big: bool) -> Result<(UnityTexEnv, int), ReadError> {
        match ObjectPointer::spec_read(buf, pos, big) {
            Err(e) => Err(e),
            Ok((texture, p)) => if !fits(buf, p, 16) {
                Err(ReadError::UnexpectedEof)
            } else {
                Ok(
                    (
                        UnityTexEnv {
                            texture,
                            scale_x: spec_u32_at(buf, p, big),
                            scale_y: spec_u32_at(buf, p + 4, big),
                            offset_x: spec_u32_at(buf, p + 8, big),
                            offset_y: spec_u32_at(buf, p + 12, big),
                        },
                        p + 16,
                    ),
                )
            },
        }
    }

    pub fn read(buf: &[u8], pos: usize, big: bool) -> (r: Result<(UnityTexEnv, usize), ReadError>)
        ensures
            match Self::spec_read(buf@, pos as int, big) {
                Ok((v, p)) => r matches Ok((w, q)) && w == v && q == p,
                Err(e) => r matches Err(f) && f == e,
            },
    {
        let len = buf.len();
        let (texture, p) = ObjectPointer::read(buf, pos, big)?;
        if !has_bytes(len, p, 16) {
            return Err(ReadError::UnexpectedEof);
        }
        let sx = match read_u32(buf, p, big) {
            Some(v) => v,
            None => return Err(ReadError::UnexpectedEof),
        };
        let sy = match read_u32(buf, p + 4, big) {
            Some(v) => v,
            None => return Err(ReadError::UnexpectedEof),
        };
        let ox = match read_u32(buf, p + 8, big) {
            Some(v) => v,
            None => return Err(ReadError::UnexpectedEof),
        };
        let oy = match read_u32(buf, p + 12, big) {
            Some(v) => v,
            None => return Err(ReadError::UnexpectedEof),
        };
        Ok((UnityTexEnv { texture, scale_x: sx, scale_y: sy, offset_x: ox, offset_y: oy }, p + 16))
    }
}

/// A named texture slot.
#[derive(Debug, Clone, PartialEq, Eq)]
pub struct StringMapUnityTexEnv {
    pub first: AlignedString,
    pub second: UnityTexEnv,
}

impl StringMapUnityTexEnv {
    pub open spec fn spec_read(buf: Seq<u8>, pos: int, big: bool) -> Result<
        ((Seq<u8>, UnityTexEnv), int),
        ReadError,
    > {
        match AlignedString::spec_read(buf, pos, big) {
            Err(e) => Err(e),
            Ok(((_, name), p)) => match UnityTexEnv::spec_read(buf, p, big) {
                Err(e) => Err(e),
                Ok((t, q)) => Ok(((name, t), q)),
            },
        }
    }

    pub fn read(buf: &[u8], pos: usize, big: bool) -> (r: Result<(StringMapUnityTexEnv, usize), ReadError>)
        ensures
            match Self::spec_read(buf@, pos as int, big) {
                Ok(((n, t), p)) => r matches Ok((m, q)) && m.first.string@ == n && m.second == t
                    && q == p,
                Err(e) => r matches Err(f) && f == e,
            },
    {
        let (first, p) = AlignedString::read(buf, pos, big)?;
        let (second, q) = UnityTexEnv::read(buf, p, big)?;
        Ok((StringMapUnityTexEnv { first, second }, q))
    }
}

/// The pixel format of a texture.
#[derive(Debug, Clone, Copy, PartialEq, Eq, Structural)]
#[allow(non_camel_case_types)]
pub enum TextureFormat {
    Alpha8,
    ARGB4444,
    RGB24,
    RGBA32,
    ARGB32,
    ARGBFloat,
    RGB565,
    BGR24,
    R16,
    DXT1,
    DXT3,
    DXT5,
    RGBA4444,
    BGRA32,
    RHalf,
    RGHalf,
    RGBAHalf,
    RFloat,
    RGFloat,
    RGBAFloat,
    YUY2,
    RGB9e5Float,
    RGBFloat,
    BC6H,
    BC7,
    BC4,
    BC5,
    DXT1Crunched,
    DXT5Crunched,
    PVRTC_RGB2,
    PVRTC_RGBA2,
    PVRTC_RGB4,
    PVRTC_RGBA4,
    ETC_RGB4,
    ATC_RGB4,
    ATC_RGBA8,
    EAC_R,
    EAC_R_SIGNED,
    EAC_RG,
    EAC_RG_SIGNED,
    ETC2_RGB,
    ETC2_RGBA1,
    ETC2_RGBA8,
    ASTC_RGB_4x4,
    ASTC_RGB_5x5,
    ASTC_RGB_6x6,
    ASTC_RGB_8x8,
    ASTC_RGB_10x10,
    ASTC_RGB_12x12,
    ASTC_RGBA_4x4,
    ASTC_RGBA_5x5,
    ASTC_RGBA_6x6,
    ASTC_RGBA_8x8,
    ASTC_RGBA_10x10,
    ASTC_RGBA_12x12,
    ETC_RGB4_3DS,
    ETC_RGBA8_3DS,
    RG16,
    R8,
    ETC_RGB4Crunched,
    ETC2_RGBA8Crunched,
    ASTC_HDR_4x4,
    ASTC_HDR_5x5,
    ASTC_HDR_6x6,
    ASTC_HDR_8x8,
    ASTC_HDR_10x10,
    ASTC_HDR_12x12,
    RG32,
    RGB48,
    RGBA64,
}

/// The format stored as `v`, when it is a known one.
pub open spec fn spec_texture_format(v: u32) -> Option<TextureFormat> {
    match v {
        1 => Some(TextureFormat::Alpha8),
        2 => Some(TextureFormat::ARGB4444),
        3 => Some(TextureFormat::RGB24),
        4 => Some(TextureFormat::RGBA32),
        5 => Some(TextureFormat::ARGB32),
        6 => Some(TextureFormat::ARGBFloat),
        7 => Some(TextureFormat::RGB565),
        8 => Some(TextureFormat::BGR24),
        9 => Some(TextureFormat::R16),
        10 => Some(TextureFormat::DXT1),
        11 => Some(TextureFormat::DXT3),
        12 => Some(TextureFormat::DXT5),
        13 => Some(TextureFormat::RGBA4444),
        14 => Some(TextureFormat::BGRA32),
        15 => Some(TextureFormat::RHalf),
        16 => Some(TextureFormat::RGHalf),
        17 => Some(TextureFormat::RGBAHalf),
        18 => Some(TextureFormat::RFloat),
        19 => Some(TextureFormat::RGFloat),
        20 => Some(TextureFormat::RGBAFloat),
        21 => Some(TextureFormat::YUY2),
        22 => Some(TextureFormat::RGB9e5Float),
        23 => Some(TextureFormat::RGBFloat),
        24 => Some(TextureFormat::BC6H),
        25 => Some(TextureFormat::BC7),
        26 => Some(TextureFormat::BC4),
        27 => Some(TextureFormat::BC5),
        28 => Some(TextureFormat::DXT1Crunched),
        29 => Some(TextureFormat::DXT5Crunched),
        30 => Some(TextureFormat::PVRTC_RGB2),
        31 => Some(TextureFormat::PVRTC_RGBA2),
        32 => Some(TextureFormat::PVRTC_RGB4),
        33 => Some(TextureFormat::PVRTC_RGBA4),
        34 => Some(TextureFormat::ETC_RGB4),
        35 => Some(TextureFormat::ATC_RGB4),
        36 => Some(TextureFormat::ATC_RGBA8),
        41 => Some(TextureFormat::EAC_R),
        42 => Some(TextureFormat::EAC_R_SIGNED),
        43 => Some(TextureFormat::EAC_RG),
        44 => Some(TextureFormat::EAC_RG_SIGNED),
        45 => Some(TextureFormat::ETC2_RGB),
        46 => Some(TextureFormat::ETC2_RGBA1),
        47 => Some(TextureFormat::ETC2_RGBA8),
        48 => Some(TextureFormat::ASTC_RGB_4x4),
        49 => Some(TextureFormat::ASTC_RGB_5x5),
        50 => Some(TextureFormat::ASTC_RGB_6x6),
        51 => Some(TextureFormat::ASTC_RGB_8x8),
        52 => Some(TextureFormat::ASTC_RGB_10x10),
        53 => Some(TextureFormat::ASTC_RGB_12x12),
        54 => Some(TextureFormat::ASTC_RGBA_4x4),
        55 => Some(TextureFormat::ASTC_RGBA_5x5),
        56 => Some(TextureFormat::ASTC_RGBA_6x6),
        57 => Some(TextureFormat::ASTC_RGBA_8x8),
        58 => Some(TextureFormat::ASTC_RGBA_10x10),
        59 => Some(TextureFormat::ASTC_RGBA_12x12),
        60 => Some(TextureFormat::ETC_RGB4_3DS),
        61 => Some(TextureFormat::ETC_RGBA8_3DS),
        62 => Some(TextureFormat::RG16),
        63 => Some(TextureFormat::R8),
        64 => Some(TextureFormat::ETC_RGB4Crunched),
        65 => Some(TextureFormat::ETC2_RGBA8Crunched),
        66 => Some(TextureFormat::ASTC_HDR_4x4),
        67 => Some(TextureFormat::ASTC_HDR_5x5),
        68 => Some(TextureFormat::ASTC_HDR_6x6),
        69 => Some(TextureFormat::ASTC_HDR_8x8),
        70 => Some(TextureFormat::ASTC_HDR_10x10),
        71 => Some(TextureFormat::ASTC_HDR_12x12),
        72 => Some(TextureFormat::RG32),
        73 => Some(TextureFormat::RGB48),
        74 => Some(TextureFormat::RGBA64),
        _ => None,
    }
}

impl TextureFormat {
    /// The number stored for this format.
    pub open spec fn spec_value(self) -> u32 {
        match self {
            TextureFormat::Alpha8 => 1,
            TextureFormat::ARGB4444 => 2,
            TextureFormat::RGB24 => 3,
            TextureFormat::RGBA32 => 4,
            TextureFormat::ARGB32 => 5,
            TextureFormat::ARGBFloat => 6,
            TextureFormat::RGB565 => 7,
            TextureFormat::BGR24 => 8,
            TextureFormat::R16 => 9,
            TextureFormat::DXT1 => 10,
            TextureFormat::DXT3 => 11,
            TextureFormat::DXT5 => 12,
            TextureFormat::RGBA4444 => 13,
            TextureFormat::BGRA32 => 14,
            TextureFormat::RHalf => 15,
            TextureFormat::RGHalf => 16,
            TextureFormat::RGBAHalf => 17,
            TextureFormat::RFloat => 18,
            TextureFormat::RGFloat => 19,
            TextureFormat::RGBAFloat => 20,
            TextureFormat::YUY2 => 21,
            TextureFormat::RGB9e5Float => 22,
            TextureFormat::RGBFloat => 23,
            TextureFormat::BC6H => 24,
            TextureFormat::BC7 => 25,
            TextureFormat::BC4 => 26,
            TextureFormat::BC5 => 27,
            TextureFormat::DXT1Crunched => 28,
            TextureFormat::DXT5Crunched => 29,
            TextureFormat::PVRTC_RGB2 => 30,
            TextureFormat::PVRTC_RGBA2 => 31,
            TextureFormat::PVRTC_RGB4 => 32,
            TextureFormat::PVRTC_RGBA4 => 33,
            TextureFormat::ETC_RGB4 => 34,
            TextureFormat::ATC_RGB4 => 35,
            TextureFormat::ATC_RGBA8 => 36,
            TextureFormat::EAC_R => 41,
            TextureFormat::EAC_R_SIGNED => 42,
            TextureFormat::EAC_RG => 43,
            TextureFormat::EAC_RG_SIGNED => 44,
            TextureFormat::ETC2_RGB => 45,
            TextureFormat::ETC2_RGBA1 => 46,
            TextureFormat::ETC2_RGBA8 => 47,
            TextureFormat::ASTC_RGB_4x4 => 48,
            TextureFormat::ASTC_RGB_5x5 => 49,
            TextureFormat::ASTC_RGB_6x6 => 50,
            TextureFormat::ASTC_RGB_8x8 => 51,
            TextureFormat::ASTC_RGB_10x10 => 52,
            TextureFormat::ASTC_RGB_12x12 => 53,
            TextureFormat::ASTC_RGBA_4x4 => 54,
            TextureFormat::ASTC_RGBA_5x5 => 55,
            TextureFormat::ASTC_RGBA_6x6 => 56,
            TextureFormat::ASTC_RGBA_8x8 => 57,
            TextureFormat::ASTC_RGBA_10x10 => 58,
            TextureFormat::ASTC_RGBA_12x12 => 59,
            TextureFormat::ETC_RGB4_3DS => 60,
            TextureFormat::ETC_RGBA8_3DS => 61,
            TextureFormat::RG16 => 62,
            TextureFormat::R8 => 63,
            TextureFormat::ETC_RGB4Crunched => 64,
            TextureFormat::ETC2_RGBA8Crunched => 65,
            TextureFormat::ASTC_HDR_4x4 => 66,
            TextureFormat::ASTC_HDR_5x5 => 67,
            TextureFormat::ASTC_HDR_6x6 => 68,
            TextureFormat::ASTC_HDR_8x8 => 69,
            TextureFormat::ASTC_HDR_10x10 => 70,
            TextureFormat::ASTC_HDR_12x12 => 71,
            TextureFormat::RG32 => 72,
            TextureFormat::RGB48 => 73,
            TextureFormat::RGBA64 => 74,
        }
    }

    pub fn from_u32(v: u32) -> (r: Option<TextureFormat>)
        ensures
            r == spec_texture_format(v),
    {
        match v {
            1 => Some(TextureFormat::Alpha8),
            2 => Some(TextureFormat::ARGB4444),
            3 => Some(TextureFormat::RGB24),
            4 => Some(TextureFormat::RGBA32),
            5 => Some(TextureFormat::ARGB32),
            6 => Some(TextureFormat::ARGBFloat),
            7 => Some(TextureFormat::RGB565),
            8 => Some(TextureFormat::BGR24),
            9 => Some(TextureFormat::R16),
            10 => Some(TextureFormat::DXT1),
            11 => Some(TextureFormat::DXT3),
            12 => Some(TextureFormat::DXT5),
            13 => Some(TextureFormat::RGBA4444),
            14 => Some(TextureFormat::BGRA32),
            15 => Some(TextureFormat::RHalf),
            16 => Some(TextureFormat::RGHalf),
            17 => Some(TextureFormat::RGBAHalf),
            18 => Some(TextureFormat::RFloat),
            19 => Some(TextureFormat::RGFloat),
            20 => Some(TextureFormat::RGBAFloat),
            21 => Some(TextureFormat::YUY2),
            22 => Some(TextureFormat::RGB9e5Float),
            23 => Some(TextureFormat::RGBFloat),
            24 => Some(TextureFormat::BC6H),
            25 => Some(TextureFormat::BC7),
            26 => Some(TextureFormat::BC4),
            27 => Some(TextureFormat::BC5),
            28 => Some(TextureFormat::DXT1Crunched),
            29 => Some(TextureFormat::DXT5Crunched),
            30 => Some(TextureFormat::PVRTC_RGB2),
            31 => Some(TextureFormat::PVRTC_RGBA2),
            32 => Some(TextureFormat::PVRTC_RGB4),
            33 => Some(TextureFormat::PVRTC_RGBA4),
            34 => Some(TextureFormat::ETC_RGB4),
            35 => Some(TextureFormat::ATC_RGB4),
            36 => Some(TextureFormat::ATC_RGBA8),
            41 => Some(TextureFormat::EAC_R),
            42 => Some(TextureFormat::EAC_R_SIGNED),
            43 => Some(TextureFormat::EAC_RG),
            44 => Some(TextureFormat::EAC_RG_SIGNED),
            45 => Some(TextureFormat::ETC2_RGB),
            46 => Some(TextureFormat::ETC2_RGBA1),
            47 => Some(TextureFormat::ETC2_RGBA8),
            48 => Some(TextureFormat::ASTC_RGB_4x4),
            49 => Some(TextureFormat::ASTC_RGB_5x5),
            50 => Some(TextureFormat::ASTC_RGB_6x6),
            51 => Some(TextureFormat::ASTC_RGB_8x8),
            52 => Some(TextureFormat::ASTC_RGB_10x10),
            53 => Some(TextureFormat::ASTC_RGB_12x12),
            54 => Some(TextureFormat::ASTC_RGBA_4x4),
            55 => Some(TextureFormat::ASTC_RGBA_5x5),
            56 => Some(TextureFormat::ASTC_RGBA_6x6),
            57 => Some(TextureFormat::ASTC_RGBA_8x8),
            58 => Some(TextureFormat::ASTC_RGBA_10x10),
            59 => Some(TextureFormat::ASTC_RGBA_12x12),
            60 => Some(TextureFormat::ETC_RGB4_3DS),
            61 => Some(TextureFormat::ETC_RGBA8_3DS),
            62 => Some(TextureFormat::RG16),
            63 => Some(TextureFormat::R8),
            64 => Some(TextureFormat::ETC_RGB4Crunched),
            65 => Some(TextureFormat::ETC2_RGBA8Crunched),
            66 => Some(TextureFormat::ASTC_HDR_4x4),
            67 => Some(TextureFormat::ASTC_HDR_5x5),
            68 => Some(TextureFormat::ASTC_HDR_6x6),
            69 => Some(TextureFormat::ASTC_HDR_8x8),
            70 => Some(TextureFormat::ASTC_HDR_10x10),
            71 => Some(TextureFormat::ASTC_HDR_12x12),
            72 => Some(TextureFormat::RG32),
            73 => Some(TextureFormat::RGB48),
            74 => Some(TextureFormat::RGBA64),
            _ => None,
        }
    }

    pub fn to_u32(&self) -> (r: u32)
        ensures
            r == self.spec_value(),
    {
        match self {
            TextureFormat::Alpha8 => 1,
            TextureFormat::ARGB4444 => 2,
            TextureFormat::RGB24 => 3,
            TextureFormat::RGBA32 => 4,
            TextureFormat::ARGB32 => 5,
            TextureFormat::ARGBFloat => 6,
            TextureFormat::RGB565 => 7,
            TextureFormat::BGR24 => 8,
            TextureFormat::R16 => 9,
            TextureFormat::DXT1 => 10,
            TextureFormat::DXT3 => 11,
            TextureFormat::DXT5 => 12,
            TextureFormat::RGBA4444 => 13,
            TextureFormat::BGRA32 => 14,
            TextureFormat::RHalf => 15,
            TextureFormat::RGHalf => 16,
            TextureFormat::RGBAHalf => 17,
            TextureFormat::RFloat => 18,
            TextureFormat::RGFloat => 19,
            TextureFormat::RGBAFloat => 20,
            TextureFormat::YUY2 => 21,
            TextureFormat::RGB9e5Float => 22,
            TextureFormat::RGBFloat => 23,
            TextureFormat::BC6H => 24,
            TextureFormat::BC7 => 25,
            TextureFormat::BC4 => 26,
            TextureFormat::BC5 => 27,
            TextureFormat::DXT1Crunched => 28,
            TextureFormat::DXT5Crunched => 29,
            TextureFormat::PVRTC_RGB2 => 30,
            TextureFormat::PVRTC_RGBA2 => 31,
            TextureFormat::PVRTC_RGB4 => 32,
            TextureFormat::PVRTC_RGBA4 => 33,
            TextureFormat::ETC_RGB4 => 34,
            TextureFormat::ATC_RGB4 => 35,
            TextureFormat::ATC_RGBA8 => 36,
            TextureFormat::EAC_R => 41,
            TextureFormat::EAC_R_SIGNED => 42,
            TextureFormat::EAC_RG => 43,
            TextureFormat::EAC_RG_SIGNED => 44,
            TextureFormat::ETC2_RGB => 45,
            TextureFormat::ETC2_RGBA1 => 46,
            TextureFormat::ETC2_RGBA8 => 47,
            TextureFormat::ASTC_RGB_4x4 => 48,
            TextureFormat::ASTC_RGB_5x5 => 49,
            TextureFormat::ASTC_RGB_6x6 => 50,
            TextureFormat::ASTC_RGB_8x8 => 51,
            TextureFormat::ASTC_RGB_10x10 => 52,
            TextureFormat::ASTC_RGB_12x12 => 53,
            TextureFormat::ASTC_RGBA_4x4 => 54,
            TextureFormat::ASTC_RGBA_5x5 => 55,
            TextureFormat::ASTC_RGBA_6x6 => 56,
            TextureFormat::ASTC_RGBA_8x8 => 57,
            TextureFormat::ASTC_RGBA_10x10 => 58,
            TextureFormat::ASTC_RGBA_12x12 => 59,
            TextureFormat::ETC_RGB4_3DS => 60,
            TextureFormat::ETC_RGBA8_3DS => 61,
            TextureFormat::RG16 => 62,
            TextureFormat::R8 => 63,
            TextureFormat::ETC_RGB4Crunched => 64,
            TextureFormat::ETC2_RGBA8Crunched => 65,
            TextureFormat::ASTC_HDR_4x4 => 66,
            TextureFormat::ASTC_HDR_5x5 => 67,
            TextureFormat::ASTC_HDR_6x6 => 68,
            TextureFormat::ASTC_HDR_8x8 => 69,
            TextureFormat::ASTC_HDR_10x10 => 70,
            TextureFormat::ASTC_HDR_12x12 => 71,
            TextureFormat::RG32 => 72,
            TextureFormat::RGB48 => 73,
            TextureFormat::RGBA64 => 74,
        }
    }
}

/// Each format is read back from the number stored for it, and a number read as a
/// format is the one stored for it.
pub proof fn lemma_texture_format_round_trip(f: TextureFormat, v: u32)
    ensures
        spec_texture_format(f.spec_value()) == Some(f),
        spec_texture_format(v) matches Some(g) ==> g.spec_value() == v,
{
}


/// The block-compressed formats decoded four pixels by four.
#[derive(Debug, Clone, Copy, PartialEq, Eq, Structural)]
pub enum BcFormat {
    Bc1,
    Bc2,
    Bc3,
    Bc4,
    Bc5,
}

/// How the pixels of a texture are turned into RGBA bytes.
#[derive(Debug, Clone, Copy, PartialEq, Eq, Structural)]
pub enum TextureDecoder {
    /// A block-compressed format of the BC family.
    Bc(BcFormat),
    /// An ASTC format with square blocks of this many pixels a side.
    Astc(u8),
    /// A block-compressed format that no decoder here handles (BC6H, BC7, crunched).
    Undecodable,
    /// Any other format: no image is made.
    NoImage,
}

/// The decoder for a texture format.
pub open spec fn spec_texture_decoder(f: TextureFormat) -> TextureDecoder {
    match f {
        TextureFormat::DXT1 => TextureDecoder::Bc(BcFormat::Bc1),
        TextureFormat::DXT3 => TextureDecoder::Bc(BcFormat::Bc2),
        TextureFormat::DXT5 => TextureDecoder::Bc(BcFormat::Bc3),
        TextureFormat::BC4 => TextureDecoder::Bc(BcFormat::Bc4),
        TextureFormat::BC5 => TextureDecoder::Bc(BcFormat::Bc5),
        TextureFormat::BC6H | TextureFormat::BC7 | TextureFormat::DXT1Crunched
        | TextureFormat::DXT5Crunched => TextureDecoder::Undecodable,
        TextureFormat::ASTC_RGB_4x4 | TextureFormat::ASTC_RGBA_4x4 | TextureFormat::ASTC_HDR_4x4 => TextureDecoder::Astc(4),
        TextureFormat::ASTC_RGB_5x5 | TextureFormat::ASTC_RGBA_5x5 | TextureFormat::ASTC_HDR_5x5 => TextureDecoder::Astc(5),
        TextureFormat::ASTC_RGB_6x6 | TextureFormat::ASTC_RGBA_6x6 | TextureFormat::ASTC_HDR_6x6 => TextureDecoder::Astc(6),
        TextureFormat::ASTC_RGB_8x8 | TextureFormat::ASTC_RGBA_8x8 | TextureFormat::ASTC_HDR_8x8 => TextureDecoder::Astc(8),
        TextureFormat::ASTC_RGB_10x10 | TextureFormat::ASTC_RGBA_10x10
        | TextureFormat::ASTC_HDR_10x10 => TextureDecoder::Astc(10),
        TextureFormat::ASTC_RGB_12x12 | TextureFormat::ASTC_RGBA_12x12
        | TextureFormat::ASTC_HDR_12x12 => TextureDecoder::Astc(12),
        _ => TextureDecoder::NoImage,
    }
}

impl TextureFormat {
    /// The decoder for this format.
    pub fn decoder(&self) -> (r: TextureDecoder)
        ensures
            r == spec_texture_decoder(*self),
    {
        match self {
            TextureFormat::DXT1 => TextureDecoder::Bc(BcFormat::Bc1),
            TextureFormat::DXT3 => TextureDecoder::Bc(BcFormat::Bc2),
            TextureFormat::DXT5 => TextureDecoder::Bc(BcFormat::Bc3),
            TextureFormat::BC4 => TextureDecoder::Bc(BcFormat::Bc4),
            TextureFormat::BC5 => TextureDecoder::Bc(BcFormat::Bc5),
            TextureFormat::BC6H | TextureFormat::BC7 | TextureFormat::DXT1Crunched
            | TextureFormat::DXT5Crunched => TextureDecoder::Undecodable,
            TextureFormat::ASTC_RGB_4x4 | TextureFormat::ASTC_RGBA_4x4 | TextureFormat::ASTC_HDR_4x4 => TextureDecoder::Astc(4),
            TextureFormat::ASTC_RGB_5x5 | TextureFormat::ASTC_RGBA_5x5 | TextureFormat::ASTC_HDR_5x5 => TextureDecoder::Astc(5),
            TextureFormat::ASTC_RGB_6x6 | TextureFormat::ASTC_RGBA_6x6 | TextureFormat::ASTC_HDR_6x6 => TextureDecoder::Astc(6),
            TextureFormat::ASTC_RGB_8x8 | TextureFormat::ASTC_RGBA_8x8 | TextureFormat::ASTC_HDR_8x8 => TextureDecoder::Astc(8),
            TextureFormat::ASTC_RGB_10x10 | TextureFormat::ASTC_RGBA_10x10
            | TextureFormat::ASTC_HDR_10x10 => TextureDecoder::Astc(10),
            TextureFormat::ASTC_RGB_12x12 | TextureFormat::ASTC_RGBA_12x12
            | TextureFormat::ASTC_HDR_12x12 => TextureDecoder::Astc(12),
            _ => TextureDecoder::NoImage,
        }
    }
}

/// The number of bytes of the RGBA image of a `width` by `height` texture; `None`
/// when it does not fit in the machine's integers.
pub fn rgba_image_len(width: u64, height: u64) -> (r: Option<usize>)
    ensures
        match r {
            Some(n) => n == width * height * 4,
            None => width * height * 4 > usize::MAX,
        },
{
    let pixels = match width.checked_mul(height) {
        Some(p) => p,
        None => {
            assert(width * height * 4 > usize::MAX) by (nonlinear_arith)
                requires
                    width * height > u64::MAX,
                    usize::MAX <= u64::MAX,
            ;
            return None;
        },
    };
    let bytes = match pixels.checked_mul(4) {
        Some(b) => b,
        None => return None,
    };
    if bytes > usize::MAX as u64 {
        return None;
    }
    Some(bytes as usize)
}

/// The block side of an ASTC format by Unity's number for it: numbers 48 to 53 (RGB),
/// 54 to 59 (RGBA) and 66 to 71 (HDR) each run through the sides 4, 5, 6, 8, 10 and 12.
pub open spec fn astc_side_by_number(v: u32) -> Option<u8> {
    let k: int = if 48 <= v <= 59 {
        (v - 48) % 6
    } else if 66 <= v <= 71 {
        v - 66
    } else {
        -1
    };
    if k == 0 {
        Some(4u8)
    } else if k == 1 {
        Some(5u8)
    } else if k == 2 {
        Some(6u8)
    } else if k == 3 {
        Some(8u8)
    } else if k == 4 {
        Some(10u8)
    } else if k == 5 {
        Some(12u8)
    } else {
        None
    }
}

/// The ASTC decoder's square block has the side that the format's name gives
/// (`ASTC_*_NxN`), for every ASTC format; and no other format goes to the ASTC decoder.
pub proof fn lemma_astc_block_sides(v: u32, f: TextureFormat)
    ensures
        astc_side_by_number(v) matches Some(n) ==> spec_texture_format(v) matches Some(g)
            && spec_texture_decoder(g) == TextureDecoder::Astc(n),
        spec_texture_decoder(f) matches TextureDecoder::Astc(n) ==> astc_side_by_number(f.spec_value())
            == Some(n),
{
}

/// The decoder by Unity's number for a texture format: DXT1, DXT3 and DXT5 (10, 11,
/// 12) and BC4, BC5 (26, 27) are the BC formats 1 to 5; BC6H, BC7 and the crunched
/// DXT formats (24, 25, 28, 29) have no decoder here; the ASTC formats go by their
/// block side; every other format makes no image.
pub open spec fn decoder_by_number(v: u32) -> TextureDecoder {
    if v == 10 {
        TextureDecoder::Bc(BcFormat::Bc1)
    } else if v == 11 {
        TextureDecoder::Bc(BcFormat::Bc2)
    } else if v == 12 {
        TextureDecoder::Bc(BcFormat::Bc3)
    } else if v == 26 {
        TextureDecoder::Bc(BcFormat::Bc4)
    } else if v == 27 {
        TextureDecoder::Bc(BcFormat::Bc5)
    } else if v == 24 || v == 25 || v == 28 || v == 29 {
        TextureDecoder::Undecodable
    } else {
        match astc_side_by_number(v) {
            Some(n) => TextureDecoder::Astc(n),
            None => TextureDecoder::NoImage,
        }
    }
}

/// Every texture format is decoded as its number calls for.
pub proof fn lemma_decoder_by_number(f: TextureFormat)
    ensures
        spec_texture_decoder(f) == decoder_by_number(f.spec_value()),
{
}

} // verus!
