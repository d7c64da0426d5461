//! Serialized files: the container of a Unity asset's objects, with the type trees
//! that describe them.
use vstd::prelude::*;

use crate::binary::{
    fits, opt_i32, opt_u8, read_i32, read_null_string, read_u32, read_u8, spec_null_string,
    spec_u32_at,
};
use crate::error::ReadError;
use crate::text::{string_from_utf8_lossy, utf8_lossy};
use crate::type_tree::reader::{TypeTreeObjectBinReadArgs, TypeTreeObjectBinReadClassArgs};
use crate::type_tree::type_tree_json::{
    get_type_object_args_by_version_class_id, loaded_json, spec_class_nodes, InfoJsonStore,
};
use crate::type_tree::{
    copy_nodes, nodes_view, object_bytes, spec_read_object, FieldModel, TypeTreeNode, TypeTreeNodeView,
    TypeTreeObject,
};
use std::collections::BTreeMap;
use crate::until::{build_type_match, non_digit_split, parse_pieces, Endian, UnityVersion};

pub mod version11;
pub mod version22;
pub mod version6;

verus! {

/// The format revision of a serialized file, as stored in its header.
#[derive(Debug, Clone, Copy, PartialEq, Eq, Structural)]
#[allow(non_camel_case_types)]
pub enum SerializedFileFormatVersion {
    Unsupported,
    Unknown_2,
    Unknown_3,
    /// 1.2.0 to 2.0.0
    Unknown_5,
    /// 2.1.0 to 2.6.1
    Unknown_6,
    /// 3.0.0b
    Unknown_7,
    /// 3.0.0 to 3.4.2
    Unknown_8,
    /// 3.5.0 to 4.7.2
    Unknown_9,
    /// 5.0.0aunk1
    Unknown_10,
    /// 5.0.0aunk2
    HasScriptTypeIndex,
    /// 5.0.0aunk3
    Unknown_12,
    /// 5.0.0aunk4
    HasTypeTreeHashes,
    /// 5.0.0unk
    Unknown_14,
    /// 5.0.1 to 5.4.0
    SupportsStrippedObject,
    /// 5.5.0a
    RefactoredClassId,
    /// 5.5.0unk to 2018.4
    RefactorTypeData,
    /// 2019.1a
    RefactorShareableTypeTreeData,
    /// 2019.1unk
    TypeTreeNodeWithTypeFlags,
    /// 2019.2
    SupportsRefObject,
    /// 2019.3 to 2019.4
    StoresTypeDependencies,
    /// 2020.1 to x
    LargeFilesSupport,
}

/// The revision stored as `v`, when it is a known one.
pub open spec fn spec_format_version(v: u32) -> Option<SerializedFileFormatVersion> {
    match v {
        1 => Some(SerializedFileFormatVersion::Unsupported),
        2 => Some(SerializedFileFormatVersion::Unknown_2),
        3 => Some(SerializedFileFormatVersion::Unknown_3),
        5 => Some(SerializedFileFormatVersion::Unknown_5),
        6 => Some(SerializedFileFormatVersion::Unknown_6),
        7 => Some(SerializedFileFormatVersion::Unknown_7),
        8 => Some(SerializedFileFormatVersion::Unknown_8),
        9 => Some(SerializedFileFormatVersion::Unknown_9),
        10 => Some(SerializedFileFormatVersion::Unknown_10),
        11 => Some(SerializedFileFormatVersion::HasScriptTypeIndex),
        12 => Some(SerializedFileFormatVersion::Unknown_12),
        13 => Some(SerializedFileFormatVersion::HasTypeTreeHashes),
        14 => Some(SerializedFileFormatVersion::Unknown_14),
        15 => Some(SerializedFileFormatVersion::SupportsStrippedObject),
        16 => Some(SerializedFileFormatVersion::RefactoredClassId),
        17 => Some(SerializedFileFormatVersion::RefactorTypeData),
        18 => Some(SerializedFileFormatVersion::RefactorShareableTypeTreeData),
        19 => Some(SerializedFileFormatVersion::TypeTreeNodeWithTypeFlags),
        20 => Some(SerializedFileFormatVersion::SupportsRefObject),
        21 => Some(SerializedFileFormatVersion::StoresTypeDependencies),
        22 => Some(SerializedFileFormatVersion::LargeFilesSupport),
        _ => None,
    }
}

impl SerializedFileFormatVersion {
    /// The number stored for this revision.
    pub open spec fn spec_value(self) -> u32 {
        match self {
            SerializedFileFormatVersion::Unsupported => 1,
            SerializedFileFormatVersion::Unknown_2 => 2,
            SerializedFileFormatVersion::Unknown_3 => 3,
            SerializedFileFormatVersion::Unknown_5 => 5,
            SerializedFileFormatVersion::Unknown_6 => 6,
            SerializedFileFormatVersion::Unknown_7 => 7,
            SerializedFileFormatVersion::Unknown_8 => 8,
            SerializedFileFormatVersion::Unknown_9 => 9,
            SerializedFileFormatVersion::Unknown_10 => 10,
            SerializedFileFormatVersion::HasScriptTypeIndex => 11,
            SerializedFileFormatVersion::Unknown_12 => 12,
            SerializedFileFormatVersion::HasTypeTreeHashes => 13,
            SerializedFileFormatVersion::Unknown_14 => 14,
            SerializedFileFormatVersion::SupportsStrippedObject => 15,
            SerializedFileFormatVersion::RefactoredClassId => 16,
            SerializedFileFormatVersion::RefactorTypeData => 17,
            SerializedFileFormatVersion::RefactorShareableTypeTreeData => 18,
            SerializedFileFormatVersion::TypeTreeNodeWithTypeFlags => 19,
            SerializedFileFormatVersion::SupportsRefObject => 20,
            SerializedFileFormatVersion::StoresTypeDependencies => 21,
            SerializedFileFormatVersion::LargeFilesSupport => 22,
        }
    }

    pub fn from_u32(v: u32) -> (r: Option<SerializedFileFormatVersion>)
        ensures
            r == spec_format_version(v),
    {
        match v {
            1 => Some(SerializedFileFormatVersion::Unsupported),
            2 => Some(SerializedFileFormatVersion::Unknown_2),
            3 => Some(SerializedFileFormatVersion::Unknown_3),
            5 => Some(SerializedFileFormatVersion::Unknown_5),
            6 => Some(SerializedFileFormatVersion::Unknown_6),
            7 => Some(SerializedFileFormatVersion::Unknown_7),
            8 => Some(SerializedFileFormatVersion::Unknown_8),
            9 => Some(SerializedFileFormatVersion::Unknown_9),
            10 => Some(SerializedFileFormatVersion::Unknown_10),
            11 => Some(SerializedFileFormatVersion::HasScriptTypeIndex),
            12 => Some(SerializedFileFormatVersion::Unknown_12),
            13 => Some(SerializedFileFormatVersion::HasTypeTreeHashes),
            14 => Some(SerializedFileFormatVersion::Unknown_14),
            15 => Some(SerializedFileFormatVersion::SupportsStrippedObject),
            16 => Some(SerializedFileFormatVersion::RefactoredClassId),
            17 => Some(SerializedFileFormatVersion::RefactorTypeData),
            18 => Some(SerializedFileFormatVersion::RefactorShareableTypeTreeData),
            19 => Some(SerializedFileFormatVersion::TypeTreeNodeWithTypeFlags),
            20 => Some(SerializedFileFormatVersion::SupportsRefObject),
            21 => Some(SerializedFileFormatVersion::StoresTypeDependencies),
            22 => Some(SerializedFileFormatVersion::LargeFilesSupport),
            _ => None,
        }
    }

    pub fn to_u32(&self) -> (r: u32)
        ensures
            r == self.spec_value(),
    {
        match self {
            SerializedFileFormatVersion::Unsupported => 1,
            SerializedFileFormatVersion::Unknown_2 => 2,
            SerializedFileFormatVersion::Unknown_3 => 3,
            SerializedFileFormatVersion::Unknown_5 => 5,
            SerializedFileFormatVersion::Unknown_6 => 6,
            SerializedFileFormatVersion::Unknown_7 => 7,
            SerializedFileFormatVersion::Unknown_8 => 8,
            SerializedFileFormatVersion::Unknown_9 => 9,
            SerializedFileFormatVersion::Unknown_10 => 10,
            SerializedFileFormatVersion::HasScriptTypeIndex => 11,
            SerializedFileFormatVersion::Unknown_12 => 12,
            SerializedFileFormatVersion::HasTypeTreeHashes => 13,
            SerializedFileFormatVersion::Unknown_14 => 14,
            SerializedFileFormatVersion::SupportsStrippedObject => 15,
            SerializedFileFormatVersion::RefactoredClassId => 16,
            SerializedFileFormatVersion::RefactorTypeData => 17,
            SerializedFileFormatVersion::RefactorShareableTypeTreeData => 18,
            SerializedFileFormatVersion::TypeTreeNodeWithTypeFlags => 19,
            SerializedFileFormatVersion::SupportsRefObject => 20,
            SerializedFileFormatVersion::StoresTypeDependencies => 21,
            SerializedFileFormatVersion::LargeFilesSupport => 22,
        }
    }
}

/// Each revision is read back from the number stored for it, and a number read as a
/// revision is the one stored for it.
pub proof fn lemma_format_version_round_trip(f: SerializedFileFormatVersion, v: u32)
    ensures
        spec_format_version(f.spec_value()) == Some(f),
        spec_format_version(v) matches Some(g) ==> g.spec_value() == v,
{
}

/// The platform a serialized file was built for.
#[derive(Debug, Clone, Copy, PartialEq, Eq, Structural)]
#[allow(non_camel_case_types)]
pub enum BuildTarget {
    NoTarget,
    AnyPlayer,
    ValidPlayer,
    StandaloneOSX,
    StandaloneOSXPPC,
    StandaloneOSXIntel,
    StandaloneWindows,
    WebPlayer,
    WebPlayerStreamed,
    Wii,
    iOS,
    PS3,
    XBOX360,
    Broadcom,
    Android,
    StandaloneGLESEmu,
    StandaloneGLES20Emu,
    NaCl,
    StandaloneLinux,
    FlashPlayer,
    StandaloneWindows64,
    WebGL,
    WSAPlayer,
    StandaloneLinux64,
    StandaloneLinuxUniversal,
    WP8Player,
    StandaloneOSXIntel64,
    BlackBerry,
    Tizen,
    PSP2,
    PS4,
    PSM,
    XboxOne,
    SamsungTV,
    N3DS,
    WiiU,
    tvOS,
    Switch,
    Lumin,
    Stadia,
    CloudRendering,
    GameCoreXboxSeries,
    GameCoreXboxOne,
    PS5,
    EmbeddedLinux,
    QNX,
    UnknownPlatform,
}

/// The platform stored as `v`, when it is a known one.
pub open spec fn spec_build_target(v: i32) -> Option<BuildTarget> {
    match v {
        -2 => Some(BuildTarget::NoTarget),
        -1 => Some(BuildTarget::AnyPlayer),
        1 => Some(BuildTarget::ValidPlayer),
        2 => Some(BuildTarget::StandaloneOSX),
        3 => Some(BuildTarget::StandaloneOSXPPC),
        4 => Some(BuildTarget::StandaloneOSXIntel),
        5 => Some(BuildTarget::StandaloneWindows),
        6 => Some(BuildTarget::WebPlayer),
        7 => Some(BuildTarget::WebPlayerStreamed),
        8 => Some(BuildTarget::Wii),
        9 => Some(BuildTarget::iOS),
        10 => Some(BuildTarget::PS3),
        11 => Some(BuildTarget::XBOX360),
        12 => Some(BuildTarget::Broadcom),
        13 => Some(BuildTarget::Android),
        14 => Some(BuildTarget::StandaloneGLESEmu),
        15 => Some(BuildTarget::StandaloneGLES20Emu),
        16 => Some(BuildTarget::NaCl),
        17 => Some(BuildTarget::StandaloneLinux),
        18 => Some(BuildTarget::FlashPlayer),
        19 => Some(BuildTarget::StandaloneWindows64),
        20 => Some(BuildTarget::WebGL),
        21 => Some(BuildTarget::WSAPlayer),
        24 => Some(BuildTarget::StandaloneLinux64),
        25 => Some(BuildTarget::StandaloneLinuxUniversal),
        26 => Some(BuildTarget::WP8Player),
        27 => Some(BuildTarget::StandaloneOSXIntel64),
        28 => Some(BuildTarget::BlackBerry),
        29 => Some(BuildTarget::Tizen),
        30 => Some(BuildTarget::PSP2),
        31 => Some(BuildTarget::PS4),
        32 => Some(BuildTarget::PSM),
        33 => Some(BuildTarget::XboxOne),
        34 => Some(BuildTarget::SamsungTV),
        35 => Some(BuildTarget::N3DS),
        36 => Some(BuildTarget::WiiU),
        37 => Some(BuildTarget::tvOS),
        38 => Some(BuildTarget::Switch),
        39 => Some(BuildTarget::Lumin),
        40 => Some(BuildTarget::Stadia),
        41 => Some(BuildTarget::CloudRendering),
        42 => Some(BuildTarget::GameCoreXboxSeries),
        43 => Some(BuildTarget::GameCoreXboxOne),
        44 => Some(BuildTarget::PS5),
        45 => Some(BuildTarget::EmbeddedLinux),
        46 => Some(BuildTarget::QNX),
        9999 => Some(BuildTarget::UnknownPlatform),
        _ => None,
    }
}

impl BuildTarget {
    /// The number stored for this platform.
    pub open spec fn spec_value(self) -> i32 {
        match self {
            BuildTarget::NoTarget => -2i32,
            BuildTarget::AnyPlayer => -1i32,
            BuildTarget::ValidPlayer => 1,
            BuildTarget::StandaloneOSX => 2,
            BuildTarget::StandaloneOSXPPC => 3,
            BuildTarget::StandaloneOSXIntel => 4,
            BuildTarget::StandaloneWindows => 5,
            BuildTarget::WebPlayer => 6,
            BuildTarget::WebPlayerStreamed => 7,
            BuildTarget::Wii => 8,
            BuildTarget::iOS => 9,
            BuildTarget::PS3 => 10,
            BuildTarget::XBOX360 => 11,
            BuildTarget::Broadcom => 12,
            BuildTarget::Android => 13,
            BuildTarget::StandaloneGLESEmu => 14,
            BuildTarget::StandaloneGLES20Emu => 15,
            BuildTarget::NaCl => 16,
            BuildTarget::StandaloneLinux => 17,
            BuildTarget::FlashPlayer => 18,
            BuildTarget::StandaloneWindows64 => 19,
            BuildTarget::WebGL => 20,
            BuildTarget::WSAPlayer => 21,
            BuildTarget::StandaloneLinux64 => 24,
            BuildTarget::StandaloneLinuxUniversal => 25,
            BuildTarget::WP8Player => 26,
            BuildTarget::StandaloneOSXIntel64 => 27,
            BuildTarget::BlackBerry => 28,
            BuildTarget::Tizen => 29,
            BuildTarget::PSP2 => 30,
            BuildTarget::PS4 => 31,
            BuildTarget::PSM => 32,
            BuildTarget::XboxOne => 33,
            BuildTarget::SamsungTV => 34,
            BuildTarget::N3DS => 35,
            BuildTarget::WiiU => 36,
            BuildTarget::tvOS => 37,
            BuildTarget::Switch => 38,
            BuildTarget::Lumin => 39,
            BuildTarget::Stadia => 40,
            BuildTarget::CloudRendering => 41,
            BuildTarget::GameCoreXboxSeries => 42,
            BuildTarget::GameCoreXboxOne => 43,
            BuildTarget::PS5 => 44,
            BuildTarget::EmbeddedLinux => 45,
            BuildTarget::QNX => 46,
            BuildTarget::UnknownPlatform => 9999,
        }
    }

    pub fn from_i32(v: i32) -> (r: Option<BuildTarget>)
        ensures
            r == spec_build_target(v),
    {
        match v {
            -2 => Some(BuildTarget::NoTarget),
            -1 => Some(BuildTarget::AnyPlayer),
            1 => Some(BuildTarget::ValidPlayer),
            2 => Some(BuildTarget::StandaloneOSX),
            3 => Some(BuildTarget::StandaloneOSXPPC),
            4 => Some(BuildTarget::StandaloneOSXIntel),
            5 => Some(BuildTarget::StandaloneWindows),
            6 => Some(BuildTarget::WebPlayer),
            7 => Some(BuildTarget::WebPlayerStreamed),
            8 => Some(BuildTarget::Wii),
            9 => Some(BuildTarget::iOS),
            10 => Some(BuildTarget::PS3),
            11 => Some(BuildTarget::XBOX360),
            12 => Some(BuildTarget::Broadcom),
            13 => Some(BuildTarget::Android),
            14 => Some(BuildTarget::StandaloneGLESEmu),
            15 => Some(BuildTarget::StandaloneGLES20Emu),
            16 => Some(BuildTarget::NaCl),
            17 => Some(BuildTarget::StandaloneLinux),
            18 => Some(BuildTarget::FlashPlayer),
            19 => Some(BuildTarget::StandaloneWindows64),
            20 => Some(BuildTarget::WebGL),
            21 => Some(BuildTarget::WSAPlayer),
            24 => Some(BuildTarget::StandaloneLinux64),
            25 => Some(BuildTarget::StandaloneLinuxUniversal),
            26 => Some(BuildTarget::WP8Player),
            27 => Some(BuildTarget::StandaloneOSXIntel64),
            28 => Some(BuildTarget::BlackBerry),
            29 => Some(BuildTarget::Tizen),
            30 => Some(BuildTarget::PSP2),
            31 => Some(BuildTarget::PS4),
            32 => Some(BuildTarget::PSM),
            33 => Some(BuildTarget::XboxOne),
            34 => Some(BuildTarget::SamsungTV),
            35 => Some(BuildTarget::N3DS),
            36 => Some(BuildTarget::WiiU),
            37 => Some(BuildTarget::tvOS),
            38 => Some(BuildTarget::Switch),
            39 => Some(BuildTarget::Lumin),
            40 => Some(BuildTarget::Stadia),
            41 => Some(BuildTarget::CloudRendering),
            42 => Some(BuildTarget::GameCoreXboxSeries),
            43 => Some(BuildTarget::GameCoreXboxOne),
            44 => Some(BuildTarget::PS5),
            45 => Some(BuildTarget::EmbeddedLinux),
            46 => Some(BuildTarget::QNX),
            9999 => Some(BuildTarget::UnknownPlatform),
            _ => None,
        }
    }

    pub fn to_i32(&self) -> (r: i32)
        ensures
            r == self.spec_value(),
    {
        match self {
            BuildTarget::NoTarget => -2i32,
            BuildTarget::AnyPlayer => -1i32,
            BuildTarget::ValidPlayer => 1,
            BuildTarget::StandaloneOSX => 2,
            BuildTarget::StandaloneOSXPPC => 3,
            BuildTarget::StandaloneOSXIntel => 4,
            BuildTarget::StandaloneWindows => 5,
            BuildTarget::WebPlayer => 6,
            BuildTarget::WebPlayerStreamed => 7,
            BuildTarget::Wii => 8,
            BuildTarget::iOS => 9,
            BuildTarget::PS3 => 10,
            BuildTarget::XBOX360 => 11,
            BuildTarget::Broadcom => 12,
            BuildTarget::Android => 13,
            BuildTarget::StandaloneGLESEmu => 14,
            BuildTarget::StandaloneGLES20Emu => 15,
            BuildTarget::NaCl => 16,
            BuildTarget::StandaloneLinux => 17,
            BuildTarget::FlashPlayer => 18,
            BuildTarget::StandaloneWindows64 => 19,
            BuildTarget::WebGL => 20,
            BuildTarget::WSAPlayer => 21,
            BuildTarget::StandaloneLinux64 => 24,
            BuildTarget::StandaloneLinuxUniversal => 25,
            BuildTarget::WP8Player => 26,
            BuildTarget::StandaloneOSXIntel64 => 27,
            BuildTarget::BlackBerry => 28,
            BuildTarget::Tizen => 29,
            BuildTarget::PSP2 => 30,
            BuildTarget::PS4 => 31,
            BuildTarget::PSM => 32,
            BuildTarget::XboxOne => 33,
            BuildTarget::SamsungTV => 34,
            BuildTarget::N3DS => 35,
            BuildTarget::WiiU => 36,
            BuildTarget::tvOS => 37,
            BuildTarget::Switch => 38,
            BuildTarget::Lumin => 39,
            BuildTarget::Stadia => 40,
            BuildTarget::CloudRendering => 41,
            BuildTarget::GameCoreXboxSeries => 42,
            BuildTarget::GameCoreXboxOne => 43,
            BuildTarget::PS5 => 44,
            BuildTarget::EmbeddedLinux => 45,
            BuildTarget::QNX => 46,
            BuildTarget::UnknownPlatform => 9999,
        }
    }
}

/// Each platform is read back from the number stored for it, and a number read as a
/// platform is the one stored for it.
pub proof fn lemma_build_target_round_trip(t: BuildTarget, v: i32)
    ensures
        spec_build_target(t.spec_value()) == Some(t),
        spec_build_target(v) matches Some(g) ==> g.spec_value() == v,
{
}

/// The strings that type tree nodes name by an offset with the top bit set.
pub open spec fn spec_common_string(offset: u32) -> Option<Seq<char>> {
    match offset {
        0 => Some("AABB"@),
        5 => Some("AnimationClip"@),
        19 => Some("AnimationCurve"@),
        34 => Some("AnimationState"@),
        49 => Some("Array"@),
        55 => Some("Base"@),
        60 => Some("BitField"@),
        69 => Some("bitset"@),
        76 => Some("bool"@),
        81 => Some("char"@),
        86 => Some("ColorRGBA"@),
        96 => Some("Component"@),
        106 => Some("data"@),
        111 => Some("deque"@),
        117 => Some("double"@),
        124 => Some("dynamic_array"@),
        138 => Some("FastPropertyName"@),
        155 => Some("first"@),
        161 => Some("float"@),
        167 => Some("Font"@),
        172 => Some("GameObject"@),
        183 => Some("Generic Mono"@),
        196 => Some("GradientNEW"@),
        208 => Some("GUID"@),
        213 => Some("GUIStyle"@),
        222 => Some("int"@),
        226 => Some("list"@),
        231 => Some("long long"@),
        241 => Some("map"@),
        245 => Some("Matrix4x4f"@),
        256 => Some("MdFour"@),
        263 => Some("MonoBehaviour"@),
        277 => Some("MonoScript"@),
        288 => Some("m_ByteSize"@),
        299 => Some("m_Curve"@),
        307 => Some("m_EditorClassIdentifier"@),
        331 => Some("m_EditorHideFlags"@),
        349 => Some("m_Enabled"@),
        359 => Some("m_ExtensionPtr"@),
        374 => Some("m_GameObject"@),
        387 => Some("m_Index"@),
        395 => Some("m_IsArray"@),
        405 => Some("m_IsStatic"@),
        416 => Some("m_MetaFlag"@),
        427 => Some("m_Name"@),
        434 => Some("m_ObjectHideFlags"@),
        452 => Some("m_PrefabInternal"@),
        469 => Some("m_PrefabParentObject"@),
        490 => Some("m_Script"@),
        499 => Some("m_StaticEditorFlags"@),
        519 => Some("m_Type"@),
        526 => Some("m_Version"@),
        536 => Some("Object"@),
        543 => Some("pair"@),
        548 => Some("PPtr<Component>"@),
        564 => Some("PPtr<GameObject>"@),
        581 => Some("PPtr<Material>"@),
        596 => Some("PPtr<MonoBehaviour>"@),
        616 => Some("PPtr<MonoScript>"@),
        633 => Some("PPtr<Object>"@),
        646 => Some("PPtr<Prefab>"@),
        659 => Some("PPtr<Sprite>"@),
        672 => Some("PPtr<TextAsset>"@),
        688 => Some("PPtr<Texture>"@),
        702 => Some("PPtr<Texture2D>"@),
        718 => Some("PPtr<Transform>"@),
        734 => Some("Prefab"@),
        741 => Some("Quaternionf"@),
        753 => Some("Rectf"@),
        759 => Some("RectInt"@),
        767 => Some("RectOffset"@),
        778 => Some("second"@),
        785 => Some("set"@),
        789 => Some("short"@),
        795 => Some("size"@),
        800 => Some("SInt16"@),
        807 => Some("SInt32"@),
        814 => Some("SInt64"@),
        821 => Some("SInt8"@),
        827 => Some("staticvector"@),
        840 => Some("string"@),
        847 => Some("TextAsset"@),
        857 => Some("TextMesh"@),
        866 => Some("Texture"@),
        874 => Some("Texture2D"@),
        884 => Some("Transform"@),
        894 => Some("TypelessData"@),
        907 => Some("UInt16"@),
        914 => Some("UInt32"@),
        921 => Some("UInt64"@),
        928 => Some("UInt8"@),
        934 => Some("unsigned int"@),
        947 => Some("unsigned long long"@),
        966 => Some("unsigned short"@),
        981 => Some("vector"@),
        988 => Some("Vector2f"@),
        997 => Some("Vector3f"@),
        1006 => Some("Vector4f"@),
        1015 => Some("m_ScriptingClassIdentifier"@),
        1042 => Some("Gradient"@),
        1051 => Some("Type*"@),
        1057 => Some("int2_storage"@),
        1070 => Some("int3_storage"@),
        1083 => Some("BoundsInt"@),
        1093 => Some("m_CorrespondingSourceObject"@),
        1121 => Some("m_PrefabInstance"@),
        1138 => Some("m_PrefabAsset"@),
        1152 => Some("FileSize"@),
        1161 => Some("Hash128"@),
        _ => None,
    }
}

/// Unity's built-in string buffer: the names that type trees of revision 20 and later
/// refer to by offset, each ended by a NUL, one after the other.
pub open spec fn unity_string_buffer() -> Seq<char> {
    "AABB\0AnimationClip\0AnimationCurve\0AnimationState\0Array\0Base\0BitField\0bitset\0bool\0char\0ColorRGBA\0Component\0data\0deque\0double\0dynamic_array\0FastPropertyName\0first\0float\0Font\0GameObject\0Generic Mono\0GradientNEW\0GUID\0GUIStyle\0int\0list\0long long\0map\0Matrix4x4f\0MdFour\0MonoBehaviour\0MonoScript\0m_ByteSize\0m_Curve\0m_EditorClassIdentifier\0m_EditorHideFlags\0m_Enabled\0m_ExtensionPtr\0m_GameObject\0m_Index\0m_IsArray\0m_IsStatic\0m_MetaFlag\0m_Name\0m_ObjectHideFlags\0m_PrefabInternal\0m_PrefabParentObject\0m_Script\0m_StaticEditorFlags\0m_Type\0m_Version\0Object\0pair\0PPtr<Component>\0PPtr<GameObject>\0PPtr<Material>\0PPtr<MonoBehaviour>\0PPtr<MonoScript>\0PPtr<Object>\0PPtr<Prefab>\0PPtr<Sprite>\0PPtr<TextAsset>\0PPtr<Texture>\0PPtr<Texture2D>\0PPtr<Transform>\0Prefab\0Quaternionf\0Rectf\0RectInt\0RectOffset\0second\0set\0short\0size\0SInt16\0SInt32\0SInt64\0SInt8\0staticvector\0string\0TextAsset\0TextMesh\0Texture\0Texture2D\0Transform\0TypelessData\0UInt16\0UInt32\0UInt64\0UInt8\0unsigned int\0unsigned long long\0unsigned short\0vector\0Vector2f\0Vector3f\0Vector4f\0m_ScriptingClassIdentifier\0Gradient\0Type*\0int2_storage\0int3_storage\0BoundsInt\0m_CorrespondingSourceObject\0m_PrefabInstance\0m_PrefabAsset\0FileSize\0Hash128\0"@
}

/// The common string at each offset is the NUL-terminated string that starts at that
/// offset of Unity's built-in string buffer.
pub proof fn lemma_common_strings_in_buffer(offset: u32)
    ensures
        spec_common_string(offset) matches Some(s) ==> ({
            let b = unity_string_buffer();
            &&& offset + s.len() < b.len()
            &&& b.subrange(offset as int, offset + s.len()) == s
            &&& b[offset + s.len()] == '\0'
        }),
{
    let b = unity_string_buffer();
    reveal_strlit("AABB\0AnimationClip\0AnimationCurve\0AnimationState\0Array\0Base\0BitField\0bitset\0bool\0char\0ColorRGBA\0Component\0data\0deque\0double\0dynamic_array\0FastPropertyName\0first\0float\0Font\0GameObject\0Generic Mono\0GradientNEW\0GUID\0GUIStyle\0int\0list\0long long\0map\0Matrix4x4f\0MdFour\0MonoBehaviour\0MonoScript\0m_ByteSize\0m_Curve\0m_EditorClassIdentifier\0m_EditorHideFlags\0m_Enabled\0m_ExtensionPtr\0m_GameObject\0m_Index\0m_IsArray\0m_IsStatic\0m_MetaFlag\0m_Name\0m_ObjectHideFlags\0m_PrefabInternal\0m_PrefabParentObject\0m_Script\0m_StaticEditorFlags\0m_Type\0m_Version\0Object\0pair\0PPtr<Component>\0PPtr<GameObject>\0PPtr<Material>\0PPtr<MonoBehaviour>\0PPtr<MonoScript>\0PPtr<Object>\0PPtr<Prefab>\0PPtr<Sprite>\0PPtr<TextAsset>\0PPtr<Texture>\0PPtr<Texture2D>\0PPtr<Transform>\0Prefab\0Quaternionf\0Rectf\0RectInt\0RectOffset\0second\0set\0short\0size\0SInt16\0SInt32\0SInt64\0SInt8\0staticvector\0string\0TextAsset\0TextMesh\0Texture\0Texture2D\0Transform\0TypelessData\0UInt16\0UInt32\0UInt64\0UInt8\0unsigned int\0unsigned long long\0unsigned short\0vector\0Vector2f\0Vector3f\0Vector4f\0m_ScriptingClassIdentifier\0Gradient\0Type*\0int2_storage\0int3_storage\0BoundsInt\0m_CorrespondingSourceObject\0m_PrefabInstance\0m_PrefabAsset\0FileSize\0Hash128\0");
    reveal_strlit("AABB");
    reveal_strlit("AnimationClip");
    reveal_strlit("AnimationCurve");
    reveal_strlit("AnimationState");
    reveal_strlit("Array");
    reveal_strlit("Base");
    reveal_strlit("BitField");
    reveal_strlit("bitset");
    reveal_strlit("bool");
    reveal_strlit("char");
    reveal_strlit("ColorRGBA");
    reveal_strlit("Component");
    reveal_strlit("data");
    reveal_strlit("deque");
    reveal_strlit("double");
    reveal_strlit("dynamic_array");
    reveal_strlit("FastPropertyName");
    reveal_strlit("first");
    reveal_strlit("float");
    reveal_strlit("Font");
    reveal_strlit("GameObject");
    reveal_strlit("Generic Mono");
    reveal_strlit("GradientNEW");
    reveal_strlit("GUID");
    reveal_strlit("GUIStyle");
    reveal_strlit("int");
    reveal_strlit("list");
    reveal_strlit("long long");
    reveal_strlit("map");
    reveal_strlit("Matrix4x4f");
    reveal_strlit("MdFour");
    reveal_strlit("MonoBehaviour");
    reveal_strlit("MonoScript");
    reveal_strlit("m_ByteSize");
    reveal_strlit("m_Curve");
    reveal_strlit("m_EditorClassIdentifier");
    reveal_strlit("m_EditorHideFlags");
    reveal_strlit("m_Enabled");
    reveal_strlit("m_ExtensionPtr");
    reveal_strlit("m_GameObject");
    reveal_strlit("m_Index");
    reveal_strlit("m_IsArray");
    reveal_strlit("m_IsStatic");
    reveal_strlit("m_MetaFlag");
    reveal_strlit("m_Name");
    reveal_strlit("m_ObjectHideFlags");
    reveal_strlit("m_PrefabInternal");
    reveal_strlit("m_PrefabParentObject");
    reveal_strlit("m_Script");
    reveal_strlit("m_StaticEditorFlags");
    reveal_strlit("m_Type");
    reveal_strlit("m_Version");
    reveal_strlit("Object");
    reveal_strlit("pair");
    reveal_strlit("PPtr<Component>");
    reveal_strlit("PPtr<GameObject>");
    reveal_strlit("PPtr<Material>");
    reveal_strlit("PPtr<MonoBehaviour>");
    reveal_strlit("PPtr<MonoScript>");
    reveal_strlit("PPtr<Object>");
    reveal_strlit("PPtr<Prefab>");
    reveal_strlit("PPtr<Sprite>");
    reveal_strlit("PPtr<TextAsset>");
    reveal_strlit("PPtr<Texture>");
    reveal_strlit("PPtr<Texture2D>");
    reveal_strlit("PPtr<Transform>");
    reveal_strlit("Prefab");
    reveal_strlit("Quaternionf");
    reveal_strlit("Rectf");
    reveal_strlit("RectInt");
    reveal_strlit("RectOffset");
    reveal_strlit("second");
    reveal_strlit("set");
    reveal_strlit("short");
    reveal_strlit("size");
    reveal_strlit("SInt16");
    reveal_strlit("SInt32");
    reveal_strlit("SInt64");
    reveal_strlit("SInt8");
    reveal_strlit("staticvector");
    reveal_strlit("string");
    reveal_strlit("TextAsset");
    reveal_strlit("TextMesh");
    reveal_strlit("Texture");
    reveal_strlit("Texture2D");
    reveal_strlit("Transform");
    reveal_strlit("TypelessData");
    reveal_strlit("UInt16");
    reveal_strlit("UInt32");
    reveal_strlit("UInt64");
    reveal_strlit("UInt8");
    reveal_strlit("unsigned int");
    reveal_strlit("unsigned long long");
    reveal_strlit("unsigned short");
    reveal_strlit("vector");
    reveal_strlit("Vector2f");
    reveal_strlit("Vector3f");
    reveal_strlit("Vector4f");
    reveal_strlit("m_ScriptingClassIdentifier");
    reveal_strlit("Gradient");
    reveal_strlit("Type*");
    reveal_strlit("int2_storage");
    reveal_strlit("int3_storage");
    reveal_strlit("BoundsInt");
    reveal_strlit("m_CorrespondingSourceObject");
    reveal_strlit("m_PrefabInstance");
    reveal_strlit("m_PrefabAsset");
    reveal_strlit("FileSize");
    reveal_strlit("Hash128");
        if offset == 0 {
            assert(b.subrange(0, 4) =~= "AABB"@);
        }
        if offset == 5 {
            assert(b.subrange(5, 18) =~= "AnimationClip"@);
        }
        if offset == 19 {
            assert(b.subrange(19, 33) =~= "AnimationCurve"@);
        }
        if offset == 34 {
            assert(b.subrange(34, 48) =~= "AnimationState"@);
        }
        if offset == 49 {
            assert(b.subrange(49, 54) =~= "Array"@);
        }
        if offset == 55 {
            assert(b.subrange(55, 59) =~= "Base"@);
        }
        if offset == 60 {
            assert(b.subrange(60, 68) =~= "BitField"@);
        }
        if offset == 69 {
            assert(b.subrange(69, 75) =~= "bitset"@);
        }
        if offset == 76 {
            assert(b.subrange(76, 80) =~= "bool"@);
        }
        if offset == 81 {
            assert(b.subrange(81, 85) =~= "char"@);
        }
        if offset == 86 {
            assert(b.subrange(86, 95) =~= "ColorRGBA"@);
        }
        if offset == 96 {
            assert(b.subrange(96, 105) =~= "Component"@);
        }
        if offset == 106 {
            assert(b.subrange(106, 110) =~= "data"@);
        }
        if offset == 111 {
            assert(b.subrange(111, 116) =~= "deque"@);
        }
        if offset == 117 {
            assert(b.subrange(117, 123) =~= "double"@);
        }
        if offset == 124 {
            assert(b.subrange(124, 137) =~= "dynamic_array"@);
        }
        if offset == 138 {
            assert(b.subrange(138, 154) =~= "FastPropertyName"@);
        }
        if offset == 155 {
            assert(b.subrange(155, 160) =~= "first"@);
        }
        if offset == 161 {
            assert(b.subrange(161, 166) =~= "float"@);
        }
        if offset == 167 {
            assert(b.subrange(167, 171) =~= "Font"@);
        }
        if offset == 172 {
            assert(b.subrange(172, 182) =~= "GameObject"@);
        }
        if offset == 183 {
            assert(b.subrange(183, 195) =~= "Generic Mono"@);
        }
        if offset == 196 {
            assert(b.subrange(196, 207) =~= "GradientNEW"@);
        }
        if offset == 208 {
            assert(b.subrange(208, 212) =~= "GUID"@);
        }
        if offset == 213 {
            assert(b.subrange(213, 221) =~= "GUIStyle"@);
        }
        if offset == 222 {
            assert(b.subrange(222, 225) =~= "int"@);
        }
        if offset == 226 {
            assert(b.subrange(226, 230) =~= "list"@);
        }
        if offset == 231 {
            assert(b.subrange(231, 240) =~= "long long"@);
        }
        if offset == 241 {
            assert(b.subrange(241, 244) =~= "map"@);
        }
        if offset == 245 {
            assert(b.subrange(245, 255) =~= "Matrix4x4f"@);
        }
        if offset == 256 {
            assert(b.subrange(256, 262) =~= "MdFour"@);
        }
        if offset == 263 {
            assert(b.subrange(263, 276) =~= "MonoBehaviour"@);
        }
        if offset == 277 {
            assert(b.subrange(277, 287) =~= "MonoScript"@);
        }
        if offset == 288 {
            assert(b.subrange(288, 298) =~= "m_ByteSize"@);
        }
        if offset == 299 {
            assert(b.subrange(299, 306) =~= "m_Curve"@);
        }
        if offset == 307 {
            assert(b.subrange(307, 330) =~= "m_EditorClassIdentifier"@);
        }
        if offset == 331 {
            assert(b.subrange(331, 348) =~= "m_EditorHideFlags"@);
        }
        if offset == 349 {
            assert(b.subrange(349, 358) =~= "m_Enabled"@);
        }
        if offset == 359 {
            assert(b.subrange(359, 373) =~= "m_ExtensionPtr"@);
        }
        if offset == 374 {
            assert(b.subrange(374, 386) =~= "m_GameObject"@);
        }
        if offset == 387 {
            assert(b.subrange(387, 394) =~= "m_Index"@);
        }
        if offset == 395 {
            assert(b.subrange(395, 404) =~= "m_IsArray"@);
        }
        if offset == 405 {
            assert(b.subrange(405, 415) =~= "m_IsStatic"@);
        }
        if offset == 416 {
            assert(b.subrange(416, 426) =~= "m_MetaFlag"@);
        }
        if offset == 427 {
            assert(b.subrange(427, 433) =~= "m_Name"@);
        }
        if offset == 434 {
            assert(b.subrange(434, 451) =~= "m_ObjectHideFlags"@);
        }
        if offset == 452 {
            assert(b.subrange(452, 468) =~= "m_PrefabInternal"@);
        }
        if offset == 469 {
            assert(b.subrange(469, 489) =~= "m_PrefabParentObject"@);
        }
        if offset == 490 {
            assert(b.subrange(490, 498) =~= "m_Script"@);
        }
        if offset == 499 {
            assert(b.subrange(499, 518) =~= "m_StaticEditorFlags"@);
        }
        if offset == 519 {
            assert(b.subrange(519, 525) =~= "m_Type"@);
        }
        if offset == 526 {
            assert(b.subrange(526, 535) =~= "m_Version"@);
        }
        if offset == 536 {
            assert(b.subrange(536, 542) =~= "Object"@);
        }
        if offset == 543 {
            assert(b.subrange(543, 547) =~= "pair"@);
        }
        if offset == 548 {
            assert(b.subrange(548, 563) =~= "PPtr<Component>"@);
        }
        if offset == 564 {
            assert(b.subrange(564, 580) =~= "PPtr<GameObject>"@);
        }
        if offset == 581 {
            assert(b.subrange(581, 595) =~= "PPtr<Material>"@);
        }
        if offset == 596 {
            assert(b.subrange(596, 615) =~= "PPtr<MonoBehaviour>"@);
        }
        if offset == 616 {
            assert(b.subrange(616, 632) =~= "PPtr<MonoScript>"@);
        }
        if offset == 633 {
            assert(b.subrange(633, 645) =~= "PPtr<Object>"@);
        }
        if offset == 646 {
            assert(b.subrange(646, 658) =~= "PPtr<Prefab>"@);
        }
        if offset == 659 {
            assert(b.subrange(659, 671) =~= "PPtr<Sprite>"@);
        }
        if offset == 672 {
            assert(b.subrange(672, 687) =~= "PPtr<TextAsset>"@);
        }
        if offset == 688 {
            assert(b.subrange(688, 701) =~= "PPtr<Texture>"@);
        }
        if offset == 702 {
            assert(b.subrange(702, 717) =~= "PPtr<Texture2D>"@);
        }
        if offset == 718 {
            assert(b.subrange(718, 733) =~= "PPtr<Transform>"@);
        }
        if offset == 734 {
            assert(b.subrange(734, 740) =~= "Prefab"@);
        }
        if offset == 741 {
            assert(b.subrange(741, 752) =~= "Quaternionf"@);
        }
        if offset == 753 {
            assert(b.subrange(753, 758) =~= "Rectf"@);
        }
        if offset == 759 {
            assert(b.subrange(759, 766) =~= "RectInt"@);
        }
        if offset == 767 {
            assert(b.subrange(767, 777) =~= "RectOffset"@);
        }
        if offset == 778 {
            assert(b.subrange(778, 784) =~= "second"@);
        }
        if offset == 785 {
            assert(b.subrange(785, 788) =~= "set"@);
        }
        if offset == 789 {
            assert(b.subrange(789, 794) =~= "short"@);
        }
        if offset == 795 {
            assert(b.subrange(795, 799) =~= "size"@);
        }
        if offset == 800 {
            assert(b.subrange(800, 806) =~= "SInt16"@);
        }
        if offset == 807 {
            assert(b.subrange(807, 813) =~= "SInt32"@);
        }
        if offset == 814 {
            assert(b.subrange(814, 820) =~= "SInt64"@);
        }
        if offset == 821 {
            assert(b.subrange(821, 826) =~= "SInt8"@);
        }
        if offset == 827 {
            assert(b.subrange(827, 839) =~= "staticvector"@);
        }
        if offset == 840 {
            assert(b.subrange(840, 846) =~= "string"@);
        }
        if offset == 847 {
            assert(b.subrange(847, 856) =~= "TextAsset"@);
        }
        if offset == 857 {
            assert(b.subrange(857, 865) =~= "TextMesh"@);
        }
        if offset == 866 {
            assert(b.subrange(866, 873) =~= "Texture"@);
        }
        if offset == 874 {
            assert(b.subrange(874, 883) =~= "Texture2D"@);
        }
        if offset == 884 {
            assert(b.subrange(884, 893) =~= "Transform"@);
        }
        if offset == 894 {
            assert(b.subrange(894, 906) =~= "TypelessData"@);
        }
        if offset == 907 {
            assert(b.subrange(907, 913) =~= "UInt16"@);
        }
        if offset == 914 {
            assert(b.subrange(914, 920) =~= "UInt32"@);
        }
        if offset == 921 {
            assert(b.subrange(921, 927) =~= "UInt64"@);
        }
        if offset == 928 {
            assert(b.subrange(928, 933) =~= "UInt8"@);
        }
        if offset == 934 {
            assert(b.subrange(934, 946) =~= "unsigned int"@);
        }
        if offset == 947 {
            assert(b.subrange(947, 965) =~= "unsigned long long"@);
        }
        if offset == 966 {
            assert(b.subrange(966, 980) =~= "unsigned short"@);
        }
        if offset == 981 {
            assert(b.subrange(981, 987) =~= "vector"@);
        }
        if offset == 988 {
            assert(b.subrange(988, 996) =~= "Vector2f"@);
        }
        if offset == 997 {
            assert(b.subrange(997, 1005) =~= "Vector3f"@);
        }
        if offset == 1006 {
            assert(b.subrange(1006, 1014) =~= "Vector4f"@);
        }
        if offset == 1015 {
            assert(b.subrange(1015, 1041) =~= "m_ScriptingClassIdentifier"@);
        }
        if offset == 1042 {
            assert(b.subrange(1042, 1050) =~= "Gradient"@);
        }
        if offset == 1051 {
            assert(b.subrange(1051, 1056) =~= "Type*"@);
        }
        if offset == 1057 {
            assert(b.subrange(1057, 1069) =~= "int2_storage"@);
        }
        if offset == 1070 {
            assert(b.subrange(1070, 1082) =~= "int3_storage"@);
        }
        if offset == 1083 {
            assert(b.subrange(1083, 1092) =~= "BoundsInt"@);
        }
        if offset == 1093 {
            assert(b.subrange(1093, 1120) =~= "m_CorrespondingSourceObject"@);
        }
        if offset == 1121 {
            assert(b.subrange(1121, 1137) =~= "m_PrefabInstance"@);
        }
        if offset == 1138 {
            assert(b.subrange(1138, 1151) =~= "m_PrefabAsset"@);
        }
        if offset == 1152 {
            assert(b.subrange(1152, 1160) =~= "FileSize"@);
        }
        if offset == 1161 {
            assert(b.subrange(1161, 1168) =~= "Hash128"@);
        }
}

/// The common string at `offset`, if there is one.
pub fn common_string(offset: u32) -> (r: Option<&'static str>)
    ensures
        match spec_common_string(offset) {
            Some(s) => r matches Some(t) && t@ == s,
            None => r is None,
        },
{
    match offset {
        0 => Some("AABB"),
        5 => Some("AnimationClip"),
        19 => Some("AnimationCurve"),
        34 => Some("AnimationState"),
        49 => Some("Array"),
        55 => Some("Base"),
        60 => Some("BitField"),
        69 => Some("bitset"),
        76 => Some("bool"),
        81 => Some("char"),
        86 => Some("ColorRGBA"),
        96 => Some("Component"),
        106 => Some("data"),
        111 => Some("deque"),
        117 => Some("double"),
        124 => Some("dynamic_array"),
        138 => Some("FastPropertyName"),
        155 => Some("first"),
        161 => Some("float"),
        167 => Some("Font"),
        172 => Some("GameObject"),
        183 => Some("Generic Mono"),
        196 => Some("GradientNEW"),
        208 => Some("GUID"),
        213 => Some("GUIStyle"),
        222 => Some("int"),
        226 => Some("list"),
        231 => Some("long long"),
        241 => Some("map"),
        245 => Some("Matrix4x4f"),
        256 => Some("MdFour"),
        263 => Some("MonoBehaviour"),
        277 => Some("MonoScript"),
        288 => Some("m_ByteSize"),
        299 => Some("m_Curve"),
        307 => Some("m_EditorClassIdentifier"),
        331 => Some("m_EditorHideFlags"),
        349 => Some("m_Enabled"),
        359 => Some("m_ExtensionPtr"),
        374 => Some("m_GameObject"),
        387 => Some("m_Index"),
        395 => Some("m_IsArray"),
        405 => Some("m_IsStatic"),
        416 => Some("m_MetaFlag"),
        427 => Some("m_Name"),
        434 => Some("m_ObjectHideFlags"),
        452 => Some("m_PrefabInternal"),
        469 => Some("m_PrefabParentObject"),
        490 => Some("m_Script"),
        499 => Some("m_StaticEditorFlags"),
        519 => Some("m_Type"),
        526 => Some("m_Version"),
        536 => Some("Object"),
        543 => Some("pair"),
        548 => Some("PPtr<Component>"),
        564 => Some("PPtr<GameObject>"),
        581 => Some("PPtr<Material>"),
        596 => Some("PPtr<MonoBehaviour>"),
        616 => Some("PPtr<MonoScript>"),
        633 => Some("PPtr<Object>"),
        646 => Some("PPtr<Prefab>"),
        659 => Some("PPtr<Sprite>"),
        672 => Some("PPtr<TextAsset>"),
        688 => Some("PPtr<Texture>"),
        702 => Some("PPtr<Texture2D>"),
        718 => Some("PPtr<Transform>"),
        734 => Some("Prefab"),
        741 => Some("Quaternionf"),
        753 => Some("Rectf"),
        759 => Some("RectInt"),
        767 => Some("RectOffset"),
        778 => Some("second"),
        785 => Some("set"),
        789 => Some("short"),
        795 => Some("size"),
        800 => Some("SInt16"),
        807 => Some("SInt32"),
        814 => Some("SInt64"),
        821 => Some("SInt8"),
        827 => Some("staticvector"),
        840 => Some("string"),
        847 => Some("TextAsset"),
        857 => Some("TextMesh"),
        866 => Some("Texture"),
        874 => Some("Texture2D"),
        884 => Some("Transform"),
        894 => Some("TypelessData"),
        907 => Some("UInt16"),
        914 => Some("UInt32"),
        921 => Some("UInt64"),
        928 => Some("UInt8"),
        934 => Some("unsigned int"),
        947 => Some("unsigned long long"),
        966 => Some("unsigned short"),
        981 => Some("vector"),
        988 => Some("Vector2f"),
        997 => Some("Vector3f"),
        1006 => Some("Vector4f"),
        1015 => Some("m_ScriptingClassIdentifier"),
        1042 => Some("Gradient"),
        1051 => Some("Type*"),
        1057 => Some("int2_storage"),
        1070 => Some("int3_storage"),
        1083 => Some("BoundsInt"),
        1093 => Some("m_CorrespondingSourceObject"),
        1121 => Some("m_PrefabInstance"),
        1138 => Some("m_PrefabAsset"),
        1152 => Some("FileSize"),
        1161 => Some("Hash128"),
        _ => None,
    }
}


// ---------------------------------------------------------------------------
// The common header
/// The header every serialized file starts with, stored big-endian.
#[derive(Debug, Clone, Copy, PartialEq, Eq, Structural)]
pub struct SerializedFileCommonHeader {
    pub metadata_size: u32,
    pub file_size: u32,
    pub version: SerializedFileFormatVersion,
    pub data_offset: u32,
}

/// The common header at the start of `buf`.
pub open spec fn spec_common_header(buf: Seq<u8>) -> Result<SerializedFileCommonHeader, ReadError> {
    if !fits(buf, 0, 16) {
        Err(ReadError::UnexpectedEof)
    } else {
        match spec_format_version(spec_u32_at(buf, 8, true)) {
            None => Err(ReadError::InvalidValue),
            Some(v) => Ok(
                SerializedFileCommonHeader {
                    metadata_size: spec_u32_at(buf, 0, true),
                    file_size: spec_u32_at(buf, 4, true),
                    version: v,
                    data_offset: spec_u32_at(buf, 12, true),
                },
            ),
        }
    }
}

impl SerializedFileCommonHeader {
    pub fn read(buf: &[u8]) -> (r: Result<SerializedFileCommonHeader, ReadError>)
        ensures
            r == spec_common_header(buf@),
    {
        let metadata_size = match read_u32(buf, 0, true) {
            Some(v) => v,
            None => return Err(ReadError::UnexpectedEof),
        };
        let file_size = match read_u32(buf, 4, true) {
            Some(v) => v,
            None => return Err(ReadError::UnexpectedEof),
        };
        let version = match read_u32(buf, 8, true) {
            Some(v) => v,
            None => return Err(ReadError::UnexpectedEof),
        };
        let data_offset = match read_u32(buf, 12, true) {
            Some(v) => v,
            None => return Err(ReadError::UnexpectedEof),
        };
        match SerializedFileFormatVersion::from_u32(version) {
            Some(v) => Ok(SerializedFileCommonHeader { metadata_size, file_size, version: v, data_offset }),
            None => Err(ReadError::InvalidValue),
        }
    }
}

/// The byte order stored as `b`.
pub open spec fn spec_endian(b: u8) -> Option<Endian> {
    if b == 0 {
        Some(Endian::Little)
    } else if b == 1 {
        Some(Endian::Big)
    } else {
        None
    }
}

/// The byte order byte at `pos`.
pub open spec fn spec_read_endian(buf: Seq<u8>, pos: int) -> Result<Endian, ReadError> {
    match opt_u8(buf, pos) {
        None => Err(ReadError::UnexpectedEof),
        Some(b) => match spec_endian(b) {
            None => Err(ReadError::InvalidValue),
            Some(e) => Ok(e),
        },
    }
}

pub fn read_endian(buf: &[u8], pos: usize) -> (r: Result<Endian, ReadError>)
    ensures
        r == spec_read_endian(buf@, pos as int),
{
    match read_u8(buf, pos) {
        None => Err(ReadError::UnexpectedEof),
        Some(0) => Ok(Endian::Little),
        Some(1) => Ok(Endian::Big),
        Some(_) => Err(ReadError::InvalidValue),
    }
}

// ---------------------------------------------------------------------------
// Lists of records
/// Reads `n` records one after the other from `pos`, each with `item`, after those
/// already in `acc`; the list and the position after it.
pub open spec fn spec_list<T>(
    pos: int,
    n: int,
    item: spec_fn(int) -> Result<(T, int), ReadError>,
    acc: Seq<T>,
) -> Result<(Seq<T>, int), ReadError>
    decreases n,
{
    if n <= 0 {
        Ok((acc, pos))
    } else {
        match item(pos) {
            Err(e) => Err(e),
            Ok((x, p)) => spec_list(p, n - 1, item, acc.push(x)),
        }
    }
}

/// A count stored as a signed number: a negative one is refused.
pub open spec fn spec_count(buf: Seq<u8>, pos: int, big: bool) -> Result<int, ReadError> {
    match opt_i32(buf, pos, big) {
        None => Err(ReadError::UnexpectedEof),
        Some(c) => if c < 0 {
            Err(ReadError::InvalidValue)
        } else {
            Ok(c as int)
        },
    }
}

pub fn read_count(buf: &[u8], pos: usize, big: bool) -> (r: Result<u32, ReadError>)
    ensures
        match spec_count(buf@, pos as int, big) {
            Ok(c) => r == Ok::<u32, ReadError>(c as u32),
            Err(e) => r == Err::<u32, ReadError>(e),
        },
{
    match read_i32(buf, pos, big) {
        None => Err(ReadError::UnexpectedEof),
        Some(c) => if c < 0 {
            Err(ReadError::InvalidValue)
        } else {
            Ok(c as u32)
        },
    }
}

/// A NUL-terminated string, decoded lossily, and the position after it.
pub open spec fn spec_string(buf: Seq<u8>, pos: int) -> Result<(Seq<char>, int), ReadError> {
    match spec_null_string(buf, pos) {
        None => Err(ReadError::UnexpectedEof),
        Some((b, p)) => Ok((utf8_lossy(b), p)),
    }
}

pub fn read_string(buf: &[u8], pos: usize) -> (r: Result<(String, usize), ReadError>)
    ensures
        match spec_string(buf@, pos as int) {
            Ok((s, p)) => r matches Ok((t, q)) && t@ == s && q == p,
            Err(e) => r matches Err(f) && f == e,
        },
{
    match read_null_string(buf, pos) {
        None => Err(ReadError::UnexpectedEof),
        Some((b, p)) => Ok((string_from_utf8_lossy(b.as_slice()), p)),
    }
}

// ---------------------------------------------------------------------------
// Objects, external references and types
/// Where an object's bytes lie and what it is.
#[derive(Debug, Clone, Copy, PartialEq, Eq, Structural)]
pub struct Object {
    pub path_id: i64,
    pub byte_start: u64,
    pub byte_size: u32,
    pub class: i32,
    pub type_id: usize,
}

/// A reference to another serialized file.
#[derive(Debug, Clone, PartialEq, Eq)]
pub struct FileIdentifier {
    pub temp_empty: String,
    pub guid: Vec<u8>,
    pub file_type: i32,
    pub path: String,
}

pub struct FileIdentifierView {
    pub temp_empty: Seq<char>,
    pub guid: Seq<u8>,
    pub file_type: i32,
    pub path: Seq<char>,
}

impl View for FileIdentifier {
    type V = FileIdentifierView;

    open spec fn view(&self) -> FileIdentifierView {
        FileIdentifierView {
            temp_empty: self.temp_empty@,
            guid: self.guid@,
            file_type: self.file_type,
            path: self.path@,
        }
    }
}

pub open spec fn externals_view(v: Seq<FileIdentifier>) -> Seq<FileIdentifierView> {
    v.map_values(|f: FileIdentifier| f@)
}

impl FileIdentifier {
    /// A copy of this reference.
    pub fn copy(&self) -> (r: FileIdentifier)
        ensures
            r@ == self@,
    {
        FileIdentifier {
            temp_empty: self.temp_empty.clone(),
            guid: crate::binary::copy_vec(&self.guid),
            file_type: self.file_type,
            path: self.path.clone(),
        }
    }
}

/// How a file lays out its references to other files.
#[derive(Debug, Clone, Copy, PartialEq, Eq, Structural)]
pub enum ReferenceLayout {
    /// The path alone (revisions before 5).
    PathOnly,
    /// A 16-byte GUID, a type and the path (revision 5).
    Identified,
    /// An empty string, then as `Identified` (revision 6 on).
    Tagged,
}

/// A reference to another file laid out as `layout` gives it; a reference stored as
/// its path alone has an all-zero GUID and type 0.
pub open spec fn spec_file_identifier(buf: Seq<u8>, pos: int, big: bool, layout: ReferenceLayout) -> Result<
    (FileIdentifierView, int),
    ReadError,
> {
    let lead = if layout == ReferenceLayout::Tagged {
        spec_string(buf, pos)
    } else {
        Ok::<(Seq<char>, int), ReadError>((seq![], pos))
    };
    match lead {
        Err(e) => Err(e),
        Ok((t, p1)) => if layout == ReferenceLayout::PathOnly {
            match spec_string(buf, p1) {
                Err(e) => Err(e),
                Ok((path, p2)) => Ok(
                    (
                        FileIdentifierView {
                            temp_empty: t,
                            guid: Seq::new(16, |i: int| 0u8),
                            file_type: 0,
                            path,
                        },
                        p2,
                    ),
                ),
            }
        } else if !fits(buf, p1, 16) {
            Err(ReadError::UnexpectedEof)
        } else {
            match opt_i32(buf, p1 + 16, big) {
                None => Err(ReadError::UnexpectedEof),
                Some(ty) => match spec_string(buf, p1 + 20) {
                    Err(e) => Err(e),
                    Ok((path, p2)) => Ok(
                        (
                            FileIdentifierView {
                                temp_empty: t,
                                guid: buf.subrange(p1, p1 + 16),
                                file_type: ty,
                                path,
                            },
                            p2,
                        ),
                    ),
                },
            }
        },
    }
}

fn zero_guid() -> (r: Vec<u8>)
    ensures
        r@ == Seq::new(16, |i: int| 0u8),
{
    let mut v: Vec<u8> = Vec::new();
    let mut i: usize = 0;
    while i < 16
        invariant
            i <= 16,
            v@ == Seq::new(i as nat, |k: int| 0u8),
        decreases 16 - i,
    {
        v.push(0u8);
        i = i + 1;
        assert(v@ =~= Seq::new(i as nat, |k: int| 0u8));
    }
    v
}

pub fn read_file_identifier(buf: &[u8], pos: usize, big: bool, layout: ReferenceLayout) -> (r: Result<
    (FileIdentifier, usize),
    ReadError,
>)
    ensures
        match spec_file_identifier(buf@, pos as int, big, layout) {
            Ok((v, p)) => r matches Ok((f, q)) && f@ == v && q == p,
            Err(e) => r matches Err(f) && f == e,
        },
{
    let (temp_empty, p1) = if layout == ReferenceLayout::Tagged {
        read_string(buf, pos)?
    } else {
        (String::new(), pos)
    };
    if layout == ReferenceLayout::PathOnly {
        let (path, p2) = read_string(buf, p1)?;
        return Ok((FileIdentifier { temp_empty, guid: zero_guid(), file_type: 0, path }, p2));
    }
    if p1 > buf.len() || buf.len() - p1 < 16 {
        return Err(ReadError::UnexpectedEof);
    }
    let guid = crate::binary::copy_range(buf, p1, p1 + 16);
    let file_type = match read_i32(buf, p1 + 16, big) {
        Some(v) => v,
        None => return Err(ReadError::UnexpectedEof),
    };
    let (path, p2) = read_string(buf, p1 + 20)?;
    Ok((FileIdentifier { temp_empty, guid, file_type, path }, p2))
}

/// `n` references to other files from `pos`.
pub open spec fn spec_externals(buf: Seq<u8>, pos: int, n: int, big: bool, layout: ReferenceLayout) -> Result<
    (Seq<FileIdentifierView>, int),
    ReadError,
> {
    spec_list(pos, n, |p: int| spec_file_identifier(buf, p, big, layout), seq![])
}

pub fn read_externals(buf: &[u8], pos: usize, n: u32, big: bool, layout: ReferenceLayout) -> (r: Result<
    (Vec<FileIdentifier>, usize),
    ReadError,
>)
    ensures
        match spec_externals(buf@, pos as int, n as int, big, layout) {
            Ok((v, p)) => r matches Ok((f, q)) && externals_view(f@) == v && q == p,
            Err(e) => r matches Err(f) && f == e,
        },
{
    let ghost item = |p: int| spec_file_identifier(buf@, p, big, layout);
    let mut out: Vec<FileIdentifier> = Vec::new();
    assert(externals_view(out@) =~= seq![]);
    let mut p = pos;
    let mut i: u32 = 0;
    while i < n
        invariant
            i <= n,
            item == (|p: int| spec_file_identifier(buf@, p, big, layout)),
            spec_externals(buf@, pos as int, n as int, big, layout) == spec_list(
                p as int,
                n - i,
                item,
                externals_view(out@),
            ),
        decreases n - i,
    {
        let (f, q) = match read_file_identifier(buf, p, big, layout) {
            Ok(x) => x,
            Err(e) => return Err(e),
        };
        let ghost old_out = out@;
        out.push(f);
        proof {
            assert(externals_view(out@) =~= externals_view(old_out).push(f@));
        }
        p = q;
        i = i + 1;
    }
    Ok((out, p))
}

/// A type tree as a serialized file stores it.
#[derive(Debug)]
pub enum TypeTreeData {
    /// Stored without a type tree.
    Absent,
    /// Nodes already flattened in pre-order.
    Nodes(Vec<TypeTreeNode>),
    /// Fixed-size node records naming their strings by offset, and the string buffer.
    Blob(Vec<version22::TypeTreeNodeBlob>, Vec<u8>),
}

pub enum TypeTreeDataView {
    Absent,
    Nodes(Seq<TypeTreeNodeView>),
    Blob(Seq<version22::TypeTreeNodeBlob>, Seq<u8>),
}

impl View for TypeTreeData {
    type V = TypeTreeDataView;

    open spec fn view(&self) -> TypeTreeDataView {
        match self {
            TypeTreeData::Absent => TypeTreeDataView::Absent,
            TypeTreeData::Nodes(v) => TypeTreeDataView::Nodes(nodes_view(v@)),
            TypeTreeData::Blob(b, s) => TypeTreeDataView::Blob(b@, s@),
        }
    }
}

/// One type of the objects in a file: its class and its type tree.
#[derive(Debug)]
pub struct SerializedType {
    pub class_id: i32,
    pub type_tree: TypeTreeData,
}

pub struct SerializedTypeView {
    pub class_id: i32,
    pub type_tree: TypeTreeDataView,
}

impl View for SerializedType {
    type V = SerializedTypeView;

    open spec fn view(&self) -> SerializedTypeView {
        SerializedTypeView { class_id: self.class_id, type_tree: self.type_tree@ }
    }
}

pub open spec fn types_view(v: Seq<SerializedType>) -> Seq<SerializedTypeView> {
    v.map_values(|t: SerializedType| t@)
}


/// The metadata of a serialized file, whatever its format revision.
#[derive(Debug)]
pub struct SerializedContent {
    pub header: SerializedFileCommonHeader,
    pub data_offset: u64,
    pub endianess: Endian,
    pub unity_version: String,
    pub target_platform: BuildTarget,
    pub enable_type_tree: bool,
    pub types: Vec<SerializedType>,
    pub objects: Vec<Object>,
    pub externals: Vec<FileIdentifier>,
}

pub struct SerializedContentView {
    pub header: SerializedFileCommonHeader,
    pub data_offset: u64,
    pub endianess: Endian,
    pub unity_version: Seq<char>,
    pub target_platform: BuildTarget,
    pub enable_type_tree: bool,
    pub types: Seq<SerializedTypeView>,
    pub objects: Seq<Object>,
    pub externals: Seq<FileIdentifierView>,
}

impl View for SerializedContent {
    type V = SerializedContentView;

    open spec fn view(&self) -> SerializedContentView {
        SerializedContentView {
            header: self.header,
            data_offset: self.data_offset,
            endianess: self.endianess,
            unity_version: self.unity_version@,
            target_platform: self.target_platform,
            enable_type_tree: self.enable_type_tree,
            types: types_view(self.types@),
            objects: self.objects@,
            externals: externals_view(self.externals@),
        }
    }
}


// ---------------------------------------------------------------------------
// Serialized files
/// The metadata of a file, read according to the format revision in its header.
/// Revisions 1, 3, 5, 6, 11, 20 and 22 are read; the others are refused.
#[verifier::opaque]
pub open spec fn spec_read_content(buf: Seq<u8>) -> Result<SerializedContentView, ReadError> {
    match spec_common_header(buf) {
        Err(e) => Err(e),
        Ok(h) => match h.version {
            SerializedFileFormatVersion::Unsupported => version6::spec_content(buf),
            SerializedFileFormatVersion::Unknown_3 => version6::spec_content(buf),
            SerializedFileFormatVersion::Unknown_5 => version6::spec_content(buf),
            SerializedFileFormatVersion::Unknown_6 => version6::spec_content(buf),
            SerializedFileFormatVersion::HasScriptTypeIndex => version11::spec_content(buf),
            SerializedFileFormatVersion::SupportsRefObject => version22::spec_content(buf, false),
            SerializedFileFormatVersion::LargeFilesSupport => version22::spec_content(buf, true),
            _ => Err(ReadError::UnsupportedVersion),
        },
    }
}

pub fn read_content(buf: &[u8]) -> (r: Result<SerializedContent, ReadError>)
    ensures
        match spec_read_content(buf@) {
            Ok(v) => r matches Ok(c) && c@ == v,
            Err(e) => r matches Err(f) && f == e,
        },
{
    reveal(spec_read_content);
    let h = SerializedFileCommonHeader::read(buf)?;
    match h.version {
        SerializedFileFormatVersion::Unsupported => version6::read_content(buf),
        SerializedFileFormatVersion::Unknown_3 => version6::read_content(buf),
        SerializedFileFormatVersion::Unknown_5 => version6::read_content(buf),
        SerializedFileFormatVersion::Unknown_6 => version6::read_content(buf),
        SerializedFileFormatVersion::HasScriptTypeIndex => version11::read_content(buf),
        SerializedFileFormatVersion::SupportsRefObject => version22::read_content(buf, false),
        SerializedFileFormatVersion::LargeFilesSupport => version22::read_content(buf, true),
        _ => Err(ReadError::UnsupportedVersion),
    }
}

/// The objects keyed by path id; of two objects with one path id, the later one.
pub open spec fn objects_map(objs: Seq<Object>) -> Map<i64, Object>
    decreases objs.len(),
{
    if objs.len() == 0 {
        Map::empty()
    } else {
        objects_map(objs.drop_last()).insert(objs.last().path_id, objs.last())
    }
}

/// Index of the first type of class `class_id`.
pub open spec fn first_of_class(types: Seq<SerializedTypeView>, class_id: i32) -> Option<int>
    decreases types.len(),
{
    if types.len() == 0 {
        None
    } else if types[0].class_id == class_id {
        Some(0)
    } else {
        match first_of_class(types.drop_first(), class_id) {
            Some(i) => Some(i + 1),
            None => None,
        }
    }
}

/// The nodes of a type tree, when it is stored and its strings can be found.
pub open spec fn tree_nodes(t: TypeTreeDataView) -> Option<Seq<TypeTreeNodeView>> {
    match t {
        TypeTreeDataView::Absent => None,
        TypeTreeDataView::Nodes(ns) => Some(ns),
        TypeTreeDataView::Blob(b, s) => version22::spec_blob_nodes(b, s),
    }
}

/// Revisions 1, 3, 5 and 6 name an object's type by its class id; later ones by
/// the type's index.
pub open spec fn reads_types_by_class(v: SerializedFileFormatVersion) -> bool {
    v == SerializedFileFormatVersion::Unsupported || v == SerializedFileFormatVersion::Unknown_3
        || v == SerializedFileFormatVersion::Unknown_5 || v == SerializedFileFormatVersion::Unknown_6
        || v == SerializedFileFormatVersion::HasScriptTypeIndex
}

/// The type an object's `type_id` names: in revisions up to 6 the first type of
/// that class, in later revisions the type at that index.
pub open spec fn type_of(c: SerializedContentView, type_id: usize) -> Option<SerializedTypeView> {
    if reads_types_by_class(c.header.version) {
        match first_of_class(c.types, type_id as i32) {
            Some(i) => Some(c.types[i]),
            None => None,
        }
    } else if type_id < c.types.len() {
        Some(c.types[type_id as int])
    } else {
        None
    }
}

/// The class and node list for reading objects of `type_id` from the file's own
/// type trees.
pub open spec fn spec_type_args(c: SerializedContentView, type_id: usize) -> Option<
    (i32, Seq<TypeTreeNodeView>),
> {
    match type_of(c, type_id) {
        None => None,
        Some(t) => match tree_nodes(t.type_tree) {
            Some(ns) => Some((t.class_id, ns)),
            None => None,
        },
    }
}

fn find_class(types: &Vec<SerializedType>, class_id: i32) -> (r: Option<usize>)
    ensures
        match first_of_class(types_view(types@), class_id) {
            Some(i) => r == Some(i as usize) && 0 <= i < types@.len(),
            None => r is None,
        },
{
    let ghost tv = types_view(types@);
    let mut i: usize = 0;
    assert(tv.skip(0) =~= tv);
    while i < types.len()
        invariant
            i <= types@.len(),
            tv == types_view(types@),
            first_of_class(tv, class_id) == match first_of_class(tv.skip(i as int), class_id) {
                Some(k) => Some(k + i),
                None => None,
            },
        decreases types.len() - i,
    {
        assert(tv.skip(i as int).drop_first() =~= tv.skip(i + 1));
        if types[i].class_id == class_id {
            return Some(i);
        }
        i = i + 1;
    }
    assert(tv.skip(i as int).len() == 0);
    None
}

/// The object at `obj` as its type tree reads it: the class, where it starts, its
/// layout and where its fields end.
pub open spec fn spec_object_layout(
    c: SerializedContentView,
    buf: Seq<u8>,
    obj: Object,
) -> Result<(i32, int, FieldModel, int), ReadError> {
    let args = if c.enable_type_tree {
        spec_type_args(c, obj.type_id)
    } else {
        None
    };
    match args {
        None => Err(ReadError::NotFound),
        Some((class_id, nodes)) => {
            let start = c.data_offset + obj.byte_start;
            if start > u64::MAX {
                Err(ReadError::Overflow)
            } else {
                match spec_read_object(nodes, buf, start, c.endianess == Endian::Big) {
                    Err(e) => Err(e),
                    Ok((m, end)) => Ok((class_id, start, m, end)),
                }
            }
        },
    }
}

/// `r` is what reading the object with path id `path_id` of file `f` gives: `None`
/// when there is no such object, else the object as its type tree reads it.
pub open spec fn tt_object_matches(f: SerializedFile, path_id: i64, r: Result<Option<TypeTreeObject>, ReadError>) -> bool {
    &&& (!f.object_map_view().contains_key(path_id) ==> r matches Ok(None))
    &&& f.object_map_view().contains_key(path_id) ==> match spec_object_layout(
        f.content(),
        f.file_bytes(),
        f.object_map_view()[path_id],
    ) {
        Err(e) => r matches Err(g) && g == e,
        Ok((class_id, start, m, end)) => match spec_external_data(
            f.file_bytes(),
            start,
            end,
            f.object_map_view()[path_id].byte_size,
        ) {
            Err(e) => r matches Err(g) && g == e,
            Ok(ext) => r matches Ok(Some(o)) && o.layout().model() == m && o.data() == object_bytes(
                f.file_bytes(),
                start,
                end,
            ) && o.endian() == f.content().endianess && o.spec_class_id() == class_id
                && o.spec_serialized_file_id() == f.spec_serialized_file_id() && o.spec_external_data() == ext,
        },
    }
}

/// The class and node list the file's own type trees give objects of `type_id`.
pub open spec fn own_type_args(c: SerializedContentView, type_id: usize) -> Option<(i32, Seq<TypeTreeNodeView>)> {
    if c.enable_type_tree {
        spec_type_args(c, type_id)
    } else {
        None
    }
}

/// `r` is what reading `obj` of file `f` with class `class_id` and node list `nodes`
/// gives: the object's layout, bytes, class, file id and any bytes past its fields.
pub open spec fn read_with_matches(
    f: SerializedFile,
    obj: Object,
    class_id: i32,
    nodes: Seq<TypeTreeNodeView>,
    r: Result<TypeTreeObject, ReadError>,
) -> bool {
    let start = f.content().data_offset + obj.byte_start;
    if start > u64::MAX {
        r matches Err(e) && e == ReadError::Overflow
    } else {
        match spec_read_object(nodes, f.file_bytes(), start, f.content().endianess == Endian::Big) {
            Err(e) => r matches Err(g) && g == e,
            Ok((m, end)) => match spec_external_data(f.file_bytes(), start, end, obj.byte_size) {
                Err(e) => r matches Err(g) && g == e,
                Ok(ext) => r matches Ok(o) && o.layout().model() == m && o.data() == object_bytes(
                    f.file_bytes(),
                    start,
                    end,
                ) && o.endian() == f.content().endianess && o.spec_class_id() == class_id
                    && o.spec_serialized_file_id() == f.spec_serialized_file_id()
                    && o.spec_external_data() == ext,
            },
        }
    }
}

/// The bytes of the object past those its fields cover, if any: `None` when the
/// fields cover exactly `byte_size` bytes.
pub open spec fn spec_external_data(buf: Seq<u8>, start: int, end: int, byte_size: u32) -> Result<
    Option<Seq<u8>>,
    ReadError,
> {
    let used = end - start;
    if used == byte_size {
        Ok(None)
    } else if used > byte_size {
        Err(ReadError::InvalidValue)
    } else if start + byte_size > buf.len() {
        Err(ReadError::UnexpectedEof)
    } else {
        Ok(Some(buf.subrange(end, start + byte_size)))
    }
}

/// A serialized file: its metadata, its bytes and its objects by path id.
#[derive(Debug)]
pub struct SerializedFile {
    content: SerializedContent,
    file: Vec<u8>,
    object_map: BTreeMap<i64, Object>,
    serialized_file_id: i64,
    pub resource_search_path: Option<String>,
}

impl SerializedFile {
    pub closed spec fn content(&self) -> SerializedContentView {
        self.content@
    }

    pub closed spec fn file_bytes(&self) -> Seq<u8> {
        self.file@
    }

    pub closed spec fn object_map_view(&self) -> Map<i64, Object> {
        self.object_map@
    }

    pub closed spec fn spec_serialized_file_id(&self) -> i64 {
        self.serialized_file_id
    }

    /// Where resources this file names are looked for.
    pub closed spec fn search_path(&self) -> Option<String> {
        self.resource_search_path
    }

    /// Where resources this file names are looked for.
    pub fn get_resource_search_path(&self) -> (r: Option<&String>)
        ensures
            match r {
                Some(s) => self.search_path() == Some(*s),
                None => self.search_path() is None,
            },
    {
        self.resource_search_path.as_ref()
    }

    /// Reads a serialized file from its bytes.
    pub fn read(file: Vec<u8>, serialized_file_id: i64, resource_search_path: Option<String>) -> (r:
        Result<SerializedFile, ReadError>)
        ensures
            match spec_read_content(file@) {
                Ok(c) => r matches Ok(f) && f.content() == c && f.file_bytes() == file@
                    && f.spec_serialized_file_id() == serialized_file_id && f.search_path()
                    == resource_search_path && f.object_map_view() == objects_map(c.objects),
                Err(e) => r matches Err(g) && g == e,
            },
    {
        let content = read_content(file.as_slice())?;
        let mut object_map: BTreeMap<i64, Object> = BTreeMap::new();
        let mut i: usize = 0;
        while i < content.objects.len()
            invariant
                i <= content.objects@.len(),
                object_map@ == objects_map(content.objects@.take(i as int)),
            decreases content.objects.len() - i,
        {
            let o = content.objects[i];
            crate::keyed::id_map_insert(&mut object_map, o.path_id, o);
            proof {
                assert(content.objects@.take(i + 1).drop_last() =~= content.objects@.take(i as int));
            }
            i = i + 1;
        }
        assert(content.objects@.take(content.objects@.len() as int) =~= content.objects@);
        Ok(SerializedFile { content, file, object_map, serialized_file_id, resource_search_path })
    }

    /// The objects by path id.
    pub fn get_object_map(&self) -> (r: &BTreeMap<i64, Object>)
        ensures
            r@ == self.object_map_view(),
    {
        &self.object_map
    }

    /// The objects in the order the file lists them.
    pub fn get_objects_metadata(&self) -> (r: &Vec<Object>)
        ensures
            r@ == self.content().objects,
    {
        &self.content.objects
    }

    /// The references to other files, copied.
    pub fn get_externals(&self) -> (r: Vec<FileIdentifier>)
        ensures
            externals_view(r@) == self.content().externals,
    {
        let mut out: Vec<FileIdentifier> = Vec::new();
        let mut i: usize = 0;
        while i < self.content.externals.len()
            invariant
                i <= self.content.externals@.len(),
                externals_view(out@) == externals_view(self.content.externals@).take(i as int),
            decreases self.content.externals.len() - i,
        {
            let ghost prev = out@;
            let x = self.content.externals[i].copy();
            out.push(x);
            proof {
                assert(externals_view(out@) =~= externals_view(prev).push(
                    self.content.externals@[i as int]@,
                ));
                assert(externals_view(self.content.externals@).take(i + 1) =~= externals_view(
                    self.content.externals@,
                ).take(i as int).push(self.content.externals@[i as int]@));
            }
            i = i + 1;
        }
        assert(externals_view(self.content.externals@).take(i as int) =~= externals_view(
            self.content.externals@,
        ));
        out
    }

    pub fn get_serialized_file_id(&self) -> (r: i64)
        ensures
            r == self.spec_serialized_file_id(),
    {
        self.serialized_file_id
    }

    /// The class and node list for objects of `type_id`, from the file's own type trees.
    pub fn get_type_object_args_by_type_id(&self, type_id: usize) -> (r: Option<
        TypeTreeObjectBinReadClassArgs,
    >)
        ensures
            match spec_type_args(self.content(), type_id) {
                Some((c, ns)) => r matches Some(a) && a.class_id() == c && a.type_fields() == ns,
                None => r is None,
            },
    {
        let ghost tv = types_view(self.content.types@);
        let ntypes = self.content.types.len();
        let version = self.content.header.version;
        let index = if version == SerializedFileFormatVersion::Unsupported || version
            == SerializedFileFormatVersion::Unknown_3 || version == SerializedFileFormatVersion::Unknown_5
            || version == SerializedFileFormatVersion::Unknown_6
            || version == SerializedFileFormatVersion::HasScriptTypeIndex {
            match find_class(&self.content.types, type_id as i32) {
                Some(i) => {
                    let ghost k = first_of_class(tv, type_id as i32)->0;
                    assert(i == k as usize && 0 <= k < tv.len());
                    i
                },
                None => return None,
            }
        } else if type_id < self.content.types.len() {
            type_id
        } else {
            return None;
        };
        let t = &self.content.types[index];
        proof {
            assert(type_of(self.content(), type_id) == Some(tv[index as int]));
            assert(tv[index as int] == t@);
        }
        match &t.type_tree {
            TypeTreeData::Absent => None,
            TypeTreeData::Nodes(ns) => Some(TypeTreeObjectBinReadClassArgs::new(t.class_id, copy_nodes(ns))),
            TypeTreeData::Blob(b, s) => match version22::blob_nodes(b.as_slice(), s.as_slice()) {
                Some(ns) => Some(TypeTreeObjectBinReadClassArgs::new(t.class_id, ns)),
                None => None,
            },
        }
    }

    /// Reads the object `obj` through its type tree; bytes of the object that the
    /// type tree does not cover are kept as its external data.
    pub fn get_type_tree_object(&self, obj: &Object) -> (r: Result<TypeTreeObject, ReadError>)
        ensures
            match spec_object_layout(self.content(), self.file_bytes(), *obj) {
                Err(e) => r matches Err(f) && f == e,
                Ok((class_id, start, m, end)) => match spec_external_data(
                    self.file_bytes(),
                    start,
                    end,
                    obj.byte_size,
                ) {
                    Err(e) => r matches Err(f) && f == e,
                    Ok(ext) => r matches Ok(o) && o.layout().model() == m && o.data()
                        == object_bytes(self.file_bytes(), start, end) && o.endian()
                        == self.content().endianess && o.spec_class_id() == class_id
                        && o.spec_serialized_file_id() == self.spec_serialized_file_id()
                        && o.spec_external_data() == ext,
                },
            },
    {
        let class_args = if self.content.enable_type_tree {
            self.get_type_object_args_by_type_id(obj.type_id)
        } else {
            None
        };
        let class_args = match class_args {
            Some(a) => a,
            None => return Err(ReadError::NotFound),
        };
        self.read_object_with(obj, class_args)
    }

    /// Reads the object `obj` with the given class and node list.
    pub fn read_object_with(&self, obj: &Object, class_args: TypeTreeObjectBinReadClassArgs) -> (r: Result<
        TypeTreeObject,
        ReadError,
    >)
        ensures
            ({
                let start = self.content().data_offset + obj.byte_start;
                if start > u64::MAX {
                    r matches Err(f) && f == ReadError::Overflow
                } else {
                    match spec_read_object(
                        class_args.type_fields(),
                        self.file_bytes(),
                        start,
                        self.content().endianess == Endian::Big,
                    ) {
                        Err(e) => r matches Err(f) && f == e,
                        Ok((m, end)) => match spec_external_data(
                            self.file_bytes(),
                            start,
                            end,
                            obj.byte_size,
                        ) {
                            Err(e) => r matches Err(f) && f == e,
                            Ok(ext) => r matches Ok(o) && o.layout().model() == m && o.data()
                                == object_bytes(self.file_bytes(), start, end) && o.endian()
                                == self.content().endianess && o.spec_class_id()
                                == class_args.class_id() && o.spec_serialized_file_id()
                                == self.spec_serialized_file_id() && o.spec_external_data() == ext,
                        },
                    }
                }
            }),
    {
        let start = match self.content.data_offset.checked_add(obj.byte_start) {
            Some(s) => s,
            None => return Err(ReadError::Overflow),
        };
        let len = self.file.len();
        if start > len as u64 {
            return Err(ReadError::UnexpectedEof);
        }
        let start = start as usize;
        let args = TypeTreeObjectBinReadArgs::new(self.serialized_file_id, class_args);
        let (mut object, end) = TypeTreeObject::read_options(
            self.file.as_slice(),
            start,
            self.content.endianess,
            &args,
        )?;
        let used = end - start;
        let byte_size = obj.byte_size as usize;
        if used != byte_size {
            if used > byte_size {
                return Err(ReadError::InvalidValue);
            }
            if byte_size > len - start {
                return Err(ReadError::UnexpectedEof);
            }
            let external = crate::binary::copy_range(self.file.as_slice(), end, start + byte_size);
            object.set_external_data(external);
        }
        Ok(object)
    }

    /// Reads the object `obj` with the node list from the file's own type trees or,
    /// when the file has none for it, from the dump kept in `store` for the file's
    /// Unity version and the object's class.
    pub fn get_type_tree_object_with_dumps(&self, obj: &Object, store: &InfoJsonStore) -> (r: Result<
        TypeTreeObject,
        ReadError,
    >)
        ensures
            match own_type_args(self.content(), obj.type_id) {
                Some((c, ns)) => read_with_matches(*self, *obj, c, ns, r),
                None => match loaded_json(store.loaded(), self.content().unity_version) {
                    Some(info) => match spec_class_nodes(info, obj.class) {
                        Some(ns) => read_with_matches(*self, *obj, obj.class, ns, r),
                        None => r == Err::<TypeTreeObject, ReadError>(ReadError::NotFound),
                    },
                    None => r == Err::<TypeTreeObject, ReadError>(ReadError::NotFound),
                },
            },
    {
        let own = if self.content.enable_type_tree {
            self.get_type_object_args_by_type_id(obj.type_id)
        } else {
            None
        };
        let class_args = match own {
            Some(a) => a,
            None => match get_type_object_args_by_version_class_id(store, &self.content.unity_version, obj.class) {
                Some(a) => a,
                None => return Err(ReadError::NotFound),
            },
        };
        self.read_object_with(obj, class_args)
    }

    /// Reads the object with path id `path_id`; `None` when the file has no such object.
    pub fn get_tt_object_by_path_id(&self, path_id: i64) -> (r: Result<Option<TypeTreeObject>, ReadError>)
        ensures
            tt_object_matches(*self, path_id, r),
    {
        match crate::keyed::id_map_get(&self.object_map, path_id) {
            None => Ok(None),
            Some(obj) => match self.get_type_tree_object(obj) {
                Ok(o) => Ok(Some(o)),
                Err(e) => Err(e),
            },
        }
    }
}


/// What a serialized file says of itself.
#[derive(Debug, Clone, PartialEq)]
pub struct SerializedFileMetadata {
    pub version: SerializedFileFormatVersion,
    pub endianess: Endian,
    pub unity_version: UnityVersion,
    pub target_platform: BuildTarget,
    pub enable_type_tree: bool,
    pub serialized_file_id: i64,
}

impl SerializedFile {
    pub fn get_serialized_file_version(&self) -> (r: SerializedFileFormatVersion)
        ensures
            r == self.content().header.version,
    {
        self.content.header.version
    }

    /// Where the objects' bytes start.
    pub fn get_data_offset(&self) -> (r: u64)
        ensures
            r == self.content().data_offset,
    {
        self.content.data_offset
    }

    pub fn get_endianess(&self) -> (r: Endian)
        ensures
            r == self.content().endianess,
    {
        self.content.endianess
    }

    /// The Unity version the file was written by (empty for revision 6 files).
    pub fn get_unity_version(&self) -> (r: String)
        ensures
            r@ == self.content().unity_version,
    {
        self.content.unity_version.clone()
    }

    pub fn get_target_platform(&self) -> (r: BuildTarget)
        ensures
            r == self.content().target_platform,
    {
        self.content.target_platform
    }

    pub fn get_enable_type_tree(&self) -> (r: bool)
        ensures
            r == self.content().enable_type_tree,
    {
        self.content.enable_type_tree
    }

    /// The file's metadata, its id left 0; `None` when its Unity version string does
    /// not parse as a version.
    pub fn get_metadata(&self) -> (r: Option<SerializedFileMetadata>)
        ensures
            match parse_pieces(non_digit_split(self.content().unity_version)) {
                Some(vs) => r matches Some(m) && m.version == self.content().header.version
                    && m.endianess == self.content().endianess && m.unity_version@.version == vs
                    && m.unity_version@.build_type == build_type_match(self.content().unity_version)
                    && m.target_platform == self.content().target_platform && m.enable_type_tree
                    == self.content().enable_type_tree && m.serialized_file_id == 0,
                None => r is None,
            },
    {
        let unity_version = match UnityVersion::from_str(self.content.unity_version.as_str()) {
            Some(v) => v,
            None => return None,
        };
        Some(
            SerializedFileMetadata {
                version: self.content.header.version,
                endianess: self.content.endianess,
                unity_version,
                target_platform: self.content.target_platform,
                enable_type_tree: self.content.enable_type_tree,
                serialized_file_id: 0,
            },
        )
    }
}


/// The objects of a file keyed by path id: every key is the path id of its object,
/// every object's path id is a key, and a path id names the last object listed with
/// it.
pub proof fn lemma_objects_map(objs: Seq<Object>)
    ensures
        forall|k: i64| #[trigger] objects_map(objs).contains_key(k) ==> objects_map(objs)[k].path_id == k,
        forall|i: int| 0 <= i < objs.len() ==> objects_map(objs).contains_key(#[trigger] objs[i].path_id),
        forall|i: int|
            0 <= i < objs.len() ==> (forall|j: int| i < j < objs.len() ==> objs[j].path_id != objs[i].path_id)
                ==> objects_map(objs)[#[trigger] objs[i].path_id] == objs[i],
    decreases objs.len(),
{
    if objs.len() > 0 {
        let rest = objs.drop_last();
        lemma_objects_map(rest);
        assert forall|k: i64| #[trigger] objects_map(objs).contains_key(k) implies objects_map(objs)[k].path_id == k by {
            if k != objs.last().path_id {
                assert(objects_map(rest).contains_key(k));
            }
        }
        assert forall|i: int| 0 <= i < objs.len() implies objects_map(objs).contains_key(#[trigger] objs[i].path_id) by {
            if i < objs.len() - 1 {
                assert(objs[i] == rest[i]);
            }
        }
        assert forall|i: int|
            0 <= i < objs.len() && (forall|j: int| i < j < objs.len() ==> objs[j].path_id != objs[i].path_id)
            implies objects_map(objs)[#[trigger] objs[i].path_id] == objs[i] by {
            if i < objs.len() - 1 {
                assert(objs[i] == rest[i]);
                assert(objs[objs.len() - 1].path_id != objs[i].path_id);
                assert forall|j: int| i < j < rest.len() implies rest[j].path_id != rest[i].path_id by {
                    assert(rest[j] == objs[j]);
                }
            }
        }
    }
}

} // verus!
