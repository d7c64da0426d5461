//! UnityFS asset bundles: the header, the block and directory tables, and the
//! reconstruction of the files stored in the (compressed) data blocks.
use std::sync::Arc;
use vstd::prelude::*;

use crate::binary::{
    align_up, align_up_exec, copy_range, copy_vec, fits, has_bytes, read_i32, read_i64, read_null_string,
    lemma_nul_index_bounds, read_u16, read_u32, signed32, signed64, spec_null_string, spec_u16_at, spec_u32_at,
    spec_u64_at,
};
use crate::error::ReadError;
use crate::text::{
    bytes_eq, bytes_start_with, seq_starts_with, string_bytes, string_from_utf8_lossy, strings_view,
    utf8_lossy,
};

verus! {

/// How a block of a bundle is compressed.
#[derive(Debug, Clone, Copy, PartialEq, Eq, Structural)]
pub enum CompressionType {
    Uncompressed,
    Lzma,
    Lz4,
    Lz4HC,
    Lzham,
}

/// The compression type coded by the low six bits of a flags word.
pub open spec fn spec_compression_type(code: u32) -> Option<CompressionType> {
    if code == 0 {
        Some(CompressionType::Uncompressed)
    } else if code == 1 {
        Some(CompressionType::Lzma)
    } else if code == 2 {
        Some(CompressionType::Lz4)
    } else if code == 3 {
        Some(CompressionType::Lz4HC)
    } else if code == 4 {
        Some(CompressionType::Lzham)
    } else {
        None
    }
}

pub fn compression_type_from_code(code: u32) -> (r: Option<CompressionType>)
    ensures
        r == spec_compression_type(code),
{
    if code == 0 {
        Some(CompressionType::Uncompressed)
    } else if code == 1 {
        Some(CompressionType::Lzma)
    } else if code == 2 {
        Some(CompressionType::Lz4)
    } else if code == 3 {
        Some(CompressionType::Lz4HC)
    } else if code == 4 {
        Some(CompressionType::Lzham)
    } else {
        None
    }
}

/// The archive flags word of a UnityFS header.
#[derive(Debug, Clone, Copy, PartialEq, Eq, Structural)]
pub struct ArchiveFlags {
    pub bits: u32,
}

impl ArchiveFlags {
    pub open spec fn spec_compression_code(self) -> u32 {
        self.bits & 0x3f
    }

    pub open spec fn spec_blocks_info_at_the_end(self) -> bool {
        self.bits & 0x80 != 0
    }

    pub open spec fn spec_block_info_need_padding_at_start(self) -> bool {
        self.bits & 0x200 != 0
    }

    /// The compression of the block table; `None` when the code is not a known method.
    pub fn compression_type(&self) -> (r: Option<CompressionType>)
        ensures
            r == spec_compression_type(self.spec_compression_code()),
    {
        compression_type_from_code(self.bits & 0x3f)
    }

    pub fn blocks_and_directory_info_combined(&self) -> (r: bool)
        ensures
            r == (self.bits & 0x40 != 0),
    {
        self.bits & 0x40 != 0
    }

    pub fn blocks_info_at_the_end(&self) -> (r: bool)
        ensures
            r == self.spec_blocks_info_at_the_end(),
    {
        self.bits & 0x80 != 0
    }

    pub fn old_web_plugin_compatibility(&self) -> (r: bool)
        ensures
            r == (self.bits & 0x100 != 0),
    {
        self.bits & 0x100 != 0
    }

    pub fn block_info_need_padding_at_start(&self) -> (r: bool)
        ensures
            r == self.spec_block_info_need_padding_at_start(),
    {
        self.bits & 0x200 != 0
    }
}

/// The flags half-word of a storage block.
#[derive(Debug, Clone, Copy, PartialEq, Eq, Structural)]
pub struct StorageBlockFlags {
    pub bits: u16,
}

impl StorageBlockFlags {
    pub open spec fn spec_compression_code(self) -> u32 {
        (self.bits & 0x3f) as u32
    }

    pub fn compression_type(&self) -> (r: Option<CompressionType>)
        ensures
            r == spec_compression_type(self.spec_compression_code()),
    {
        compression_type_from_code((self.bits & 0x3f) as u32)
    }

    pub fn streamed(&self) -> (r: bool)
        ensures
            r == (self.bits & 0x40 != 0),
    {
        self.bits & 0x40 != 0
    }
}

/// One compressed block of the data area.
#[derive(Debug, Clone, Copy, PartialEq, Eq, Structural)]
pub struct StorageBlock {
    pub uncompressed_size: u32,
    pub compressed_size: i32,
    pub flags: StorageBlockFlags,
}

/// One file of the bundle's directory: where it lies in the uncompressed data.
#[derive(Debug, Clone, PartialEq, Eq)]
pub struct Node {
    pub offset: i64,
    pub size: i64,
    pub flags: u32,
    pub path: String,
}

pub struct NodeView {
    pub offset: i64,
    pub size: i64,
    pub flags: u32,
    pub path: Seq<char>,
}

impl View for Node {
    type V = NodeView;

    open spec fn view(&self) -> NodeView {
        NodeView { offset: self.offset, size: self.size, flags: self.flags, path: self.path@ }
    }
}

impl Node {
    /// The file's path inside the bundle.
    pub fn path(&self) -> (r: String)
        ensures
            r@ == self.path@,
    {
        self.path.clone()
    }

    /// A field-by-field copy.
    pub fn copy(&self) -> (r: Node)
        ensures
            r@ == self@,
    {
        Node { offset: self.offset, size: self.size, flags: self.flags, path: self.path.clone() }
    }
}

pub open spec fn nodes_view(v: Seq<Node>) -> Seq<NodeView> {
    v.map_values(|n: Node| n@)
}

/// The block and directory tables of a bundle.
#[derive(Debug, Clone)]
pub struct BlocksInfo {
    pub uncompressed_data_hash: Vec<u8>,
    pub storage_blocks: Vec<StorageBlock>,
    pub directory_info: Vec<Node>,
}

pub struct BlocksInfoView {
    pub uncompressed_data_hash: Seq<u8>,
    pub storage_blocks: Seq<StorageBlock>,
    pub directory_info: Seq<NodeView>,
}

impl View for BlocksInfo {
    type V = BlocksInfoView;

    open spec fn view(&self) -> BlocksInfoView {
        BlocksInfoView {
            uncompressed_data_hash: self.uncompressed_data_hash@,
            storage_blocks: self.storage_blocks@,
            directory_info: nodes_view(self.directory_info@),
        }
    }
}

/// The parsed header of a UnityFS bundle.
#[derive(Debug, Clone)]
pub struct UnityFSFile {
    pub version: u32,
    pub unity_version: String,
    pub unity_revision: String,
    pub size: i64,
    pub compressed_blocks_info_size: u32,
    pub uncompressed_blocks_info_size: u32,
    pub flags: ArchiveFlags,
    pub blocks_info: BlocksInfo,
    /// Where the data blocks start in the bundle.
    pub position: u64,
}

pub struct UnityFSFileView {
    pub version: u32,
    pub unity_version: Seq<char>,
    pub unity_revision: Seq<char>,
    pub size: i64,
    pub compressed_blocks_info_size: u32,
    pub uncompressed_blocks_info_size: u32,
    pub flags: ArchiveFlags,
    pub blocks_info: BlocksInfoView,
    pub position: int,
}

impl View for UnityFSFile {
    type V = UnityFSFileView;

    open spec fn view(&self) -> UnityFSFileView {
        UnityFSFileView {
            version: self.version,
            unity_version: self.unity_version@,
            unity_revision: self.unity_revision@,
            size: self.size,
            compressed_blocks_info_size: self.compressed_blocks_info_size,
            uncompressed_blocks_info_size: self.uncompressed_blocks_info_size,
            flags: self.flags,
            blocks_info: self.blocks_info@,
            position: self.position as int,
        }
    }
}

// ---------------------------------------------------------------------------
// Decompression
/// What `lz4::block::decompress` gives for a compressed block and a declared size.
pub uninterp spec fn lz4_block_decompress(src: Seq<u8>, size: i32) -> Option<Seq<u8>>;

/// Calls `lz4::block::decompress(src, Some(size))`. Claimed: the outcome is a function
/// of the input bytes and the declared size (named `lz4_block_decompress`), a negative
/// size is refused, and the output is never longer than the declared size (the crate
/// truncates its `size`-byte buffer to the number of bytes the decoder wrote).
#[verifier::external_body]
fn lz4_decompress(src: &[u8], size: i32) -> (r: Option<Vec<u8>>)
    ensures
        match r {
            Some(v) => lz4_block_decompress(src@, size) == Some(v@),
            None => lz4_block_decompress(src@, size) is None,
        },
        size < 0 ==> r is None,
        r matches Some(v) ==> v@.len() <= size,
{
    lz4::block::decompress(src, Some(size)).ok()
}

/// The bytes of a block after undoing its compression.
pub open spec fn spec_block_uncompressed(
    uncompressed_size: u64,
    flag: CompressionType,
    data: Seq<u8>,
) -> Result<Seq<u8>, ReadError> {
    match flag {
        CompressionType::Uncompressed => Ok(data),
        CompressionType::Lz4 | CompressionType::Lz4HC => match lz4_block_decompress(
            data,
            uncompressed_size as i32,
        ) {
            Some(v) => Ok(v),
            None => Err(ReadError::Decompress),
        },
        _ => Err(ReadError::UnsupportedCompression),
    }
}

pub fn block_uncompressed(uncompressed_size: u64, flag: CompressionType, data: Vec<u8>) -> (r:
    Result<Vec<u8>, ReadError>)
    ensures
        match spec_block_uncompressed(uncompressed_size, flag, data@) {
            Ok(v) => r matches Ok(w) && w@ == v,
            Err(e) => r == Err::<Vec<u8>, ReadError>(e),
        },
{
    match flag {
        CompressionType::Uncompressed => Ok(data),
        CompressionType::Lz4 | CompressionType::Lz4HC => {
            match lz4_decompress(data.as_slice(), uncompressed_size as i32) {
                Some(v) => Ok(v),
                None => Err(ReadError::Decompress),
            }
        },
        _ => Err(ReadError::UnsupportedCompression),
    }
}

// ---------------------------------------------------------------------------
// Table parsing (all big-endian)
pub open spec fn spec_storage_block(buf: Seq<u8>, pos: int) -> Result<(StorageBlock, int), ReadError> {
    if fits(buf, pos, 10) {
        Ok(
            (
                StorageBlock {
                    uncompressed_size: spec_u32_at(buf, pos, true),
                    compressed_size: signed32(spec_u32_at(buf, pos + 4, true)),
                    flags: StorageBlockFlags { bits: spec_u16_at(buf, pos + 8, true) },
                },
                pos + 10,
            ),
        )
    } else {
        Err(ReadError::UnexpectedEof)
    }
}

pub open spec fn spec_storage_blocks(buf: Seq<u8>, pos: int, n: nat) -> Result<
    (Seq<StorageBlock>, int),
    ReadError,
>
    decreases n,
{
    if n == 0 {
        Ok((seq![], pos))
    } else {
        match spec_storage_block(buf, pos) {
            Err(e) => Err(e),
            Ok((b, p)) => match spec_storage_blocks(buf, p, (n - 1) as nat) {
                Err(e) => Err(e),
                Ok((rest, q)) => Ok((seq![b] + rest, q)),
            },
        }
    }
}

pub open spec fn spec_node(buf: Seq<u8>, pos: int) -> Result<(NodeView, int), ReadError> {
    if fits(buf, pos, 20) {
        match spec_null_string(buf, pos + 20) {
            Some((s, next)) => Ok(
                (
                    NodeView {
                        offset: signed64(spec_u64_at(buf, pos, true)),
                        size: signed64(spec_u64_at(buf, pos + 8, true)),
                        flags: spec_u32_at(buf, pos + 16, true),
                        path: utf8_lossy(s),
                    },
                    next,
                ),
            ),
            None => Err(ReadError::UnexpectedEof),
        }
    } else {
        Err(ReadError::UnexpectedEof)
    }
}

pub open spec fn spec_nodes(buf: Seq<u8>, pos: int, n: nat) -> Result<(Seq<NodeView>, int), ReadError>
    decreases n,
{
    if n == 0 {
        Ok((seq![], pos))
    } else {
        match spec_node(buf, pos) {
            Err(e) => Err(e),
            Ok((b, p)) => match spec_nodes(buf, p, (n - 1) as nat) {
                Err(e) => Err(e),
                Ok((rest, q)) => Ok((seq![b] + rest, q)),
            },
        }
    }
}

/// The block table, read from the start of its (uncompressed) bytes.
pub open spec fn spec_blocks_info(buf: Seq<u8>) -> Result<BlocksInfoView, ReadError> {
    if !fits(buf, 0, 20) {
        Err(ReadError::UnexpectedEof)
    } else {
        match spec_storage_blocks(buf, 20, spec_u32_at(buf, 16, true) as nat) {
            Err(e) => Err(e),
            Ok((blocks, p)) => if !fits(buf, p, 4) {
                Err(ReadError::UnexpectedEof)
            } else {
                match spec_nodes(buf, p + 4, spec_u32_at(buf, p, true) as nat) {
                    Err(e) => Err(e),
                    Ok((nodes, _q)) => Ok(
                        BlocksInfoView {
                            uncompressed_data_hash: buf.subrange(0, 16),
                            storage_blocks: blocks,
                            directory_info: nodes,
                        },
                    ),
                }
            },
        }
    }
}

fn parse_storage_blocks(buf: &[u8], pos: usize, n: u32) -> (r: Result<
    (Vec<StorageBlock>, usize),
    ReadError,
>)
    ensures
        match spec_storage_blocks(buf@, pos as int, n as nat) {
            Ok((v, p)) => r matches Ok((w, q)) && w@ == v && q == p,
            Err(e) => r == Err::<(Vec<StorageBlock>, usize), ReadError>(e),
        },
{
    let mut out: Vec<StorageBlock> = Vec::new();
    let mut p = pos;
    let mut i: u32 = 0;
    while i < n
        invariant
            i <= n,
            p <= buf@.len() || i == 0,
            spec_storage_blocks(buf@, pos as int, n as nat) == (match spec_storage_blocks(
                buf@,
                p as int,
                (n - i) as nat,
            ) {
                Ok((rest, q)) => Ok((out@ + rest, q)),
                Err(e) => Err(e),
            }),
        decreases n - i,
    {
        if !has_bytes(buf.len(), p, 10) {
            return Err(ReadError::UnexpectedEof);
        }
        let u = read_u32(buf, p, true).unwrap();
        let c = read_i32(buf, p + 4, true).unwrap();
        let f = read_u16(buf, p + 8, true).unwrap();
        let b = StorageBlock {
            uncompressed_size: u,
            compressed_size: c,
            flags: StorageBlockFlags { bits: f },
        };
        let ghost old_out = out@;
        let ghost old_p = p as int;
        out.push(b);
        p = p + 10;
        i = i + 1;
        proof {
            match spec_storage_blocks(buf@, p as int, (n - i) as nat) {
                Ok((rest, q)) => {
                    assert(old_out + (seq![b] + rest) =~= out@ + rest);
                },
                Err(e) => {},
            }
        }
    }
    assert(out@ + seq![] =~= out@);
    Ok((out, p))
}

fn parse_node(buf: &[u8], pos: usize) -> (r: Result<(Node, usize), ReadError>)
    ensures
        match spec_node(buf@, pos as int) {
            Ok((v, p)) => r matches Ok((w, q)) && w@ == v && q == p,
            Err(e) => r == Err::<(Node, usize), ReadError>(e),
        },
{
    if !has_bytes(buf.len(), pos, 20) {
        return Err(ReadError::UnexpectedEof);
    }
    let offset = read_i64(buf, pos, true).unwrap();
    let size = read_i64(buf, pos + 8, true).unwrap();
    let flags = read_u32(buf, pos + 16, true).unwrap();
    match read_null_string(buf, pos + 20) {
        Some((bytes, next)) => {
            let path = string_from_utf8_lossy(bytes.as_slice());
            Ok((Node { offset, size, flags, path }, next))
        },
        None => Err(ReadError::UnexpectedEof),
    }
}

fn parse_nodes(buf: &[u8], pos: usize, n: u32) -> (r: Result<(Vec<Node>, usize), ReadError>)
    ensures
        match spec_nodes(buf@, pos as int, n as nat) {
            Ok((v, p)) => r matches Ok((w, q)) && nodes_view(w@) == v && q == p,
            Err(e) => r == Err::<(Vec<Node>, usize), ReadError>(e),
        },
{
    let mut out: Vec<Node> = Vec::new();
    let mut p = pos;
    let mut i: u32 = 0;
    while i < n
        invariant
            i <= n,
            spec_nodes(buf@, pos as int, n as nat) == (match spec_nodes(
                buf@,
                p as int,
                (n - i) as nat,
            ) {
                Ok((rest, q)) => Ok((nodes_view(out@) + rest, q)),
                Err(e) => Err(e),
            }),
        decreases n - i,
    {
        let (node, next) = parse_node(buf, p)?;
        let ghost old_out = out@;
        out.push(node);
        p = next;
        i = i + 1;
        proof {
            assert(nodes_view(out@) =~= nodes_view(old_out).push(node@));
            match spec_nodes(buf@, p as int, (n - i) as nat) {
                Ok((rest, q)) => {
                    assert(nodes_view(old_out) + (seq![node@] + rest) =~= nodes_view(out@) + rest);
                },
                Err(e) => {},
            }
        }
    }
    assert(nodes_view(out@) + seq![] =~= nodes_view(out@));
    Ok((out, p))
}

pub fn parse_blocks_info(buf: &[u8]) -> (r: Result<BlocksInfo, ReadError>)
    ensures
        match spec_blocks_info(buf@) {
            Ok(v) => r matches Ok(w) && w@ == v,
            Err(e) => r matches Err(f) && f == e,
        },
{
    if !has_bytes(buf.len(), 0, 20) {
        return Err(ReadError::UnexpectedEof);
    }
    let hash = copy_range(buf, 0, 16);
    let count = read_u32(buf, 16, true).unwrap();
    let (storage_blocks, p) = parse_storage_blocks(buf, 20, count)?;
    proof {
        lemma_storage_blocks_end(buf@, 20, count as nat);
    }
    if !has_bytes(buf.len(), p, 4) {
        return Err(ReadError::UnexpectedEof);
    }
    let ncount = read_u32(buf, p, true).unwrap();
    let (directory_info, _q) = parse_nodes(buf, p + 4, ncount)?;
    Ok(BlocksInfo { uncompressed_data_hash: hash, storage_blocks, directory_info })
}

pub proof fn lemma_storage_blocks_end(buf: Seq<u8>, pos: int, n: nat)
    requires
        0 <= pos,
    ensures
        spec_storage_blocks(buf, pos, n) matches Ok((_, q)) ==> pos <= q && (n > 0 ==> q
            <= buf.len()),
    decreases n,
{
    if n > 0 {
        if let Ok((b, p)) = spec_storage_block(buf, pos) {
            lemma_storage_blocks_end(buf, p, (n - 1) as nat);
        }
    }
}

// ---------------------------------------------------------------------------
// The header
/// The eight signature bytes `UnityFS\0`.
pub open spec fn unityfs_magic() -> Seq<u8> {
    seq![85u8, 110u8, 105u8, 116u8, 121u8, 70u8, 83u8, 0u8]
}

/// Header fields up to and including the flags word, and the position after them.
pub struct HeaderFieldsView {
    pub version: u32,
    pub unity_version: Seq<char>,
    pub unity_revision: Seq<char>,
    pub size: i64,
    pub compressed_blocks_info_size: u32,
    pub uncompressed_blocks_info_size: u32,
    pub flags: ArchiveFlags,
    pub end: int,
}

pub open spec fn spec_header_fields(buf: Seq<u8>) -> Result<HeaderFieldsView, ReadError> {
    if !fits(buf, 0, 12) {
        Err(ReadError::UnexpectedEof)
    } else if buf.subrange(0, 8) != unityfs_magic() {
        Err(ReadError::BadMagic)
    } else {
        match spec_null_string(buf, 12) {
            None => Err(ReadError::UnexpectedEof),
            Some((v, p1)) => match spec_null_string(buf, p1) {
                None => Err(ReadError::UnexpectedEof),
                Some((r, p2)) => if !fits(buf, p2, 20) {
                    Err(ReadError::UnexpectedEof)
                } else {
                    Ok(
                        HeaderFieldsView {
                            version: spec_u32_at(buf, 8, true),
                            unity_version: utf8_lossy(v),
                            unity_revision: utf8_lossy(r),
                            size: signed64(spec_u64_at(buf, p2, true)),
                            compressed_blocks_info_size: spec_u32_at(buf, p2 + 8, true),
                            uncompressed_blocks_info_size: spec_u32_at(buf, p2 + 12, true),
                            flags: ArchiveFlags { bits: spec_u32_at(buf, p2 + 16, true) },
                            end: p2 + 20,
                        },
                    )
                },
            },
        }
    }
}

/// Where the compressed block table lies, and where reading goes on after it.
/// From version 7 on the table starts on a 16-byte boundary; it may be stored at
/// the very end of the file; and it may be followed by padding to 16 bytes.
pub open spec fn spec_blocks_info_region(buf: Seq<u8>, h: HeaderFieldsView) -> Result<
    (Seq<u8>, int),
    ReadError,
> {
    let csize = h.compressed_blocks_info_size as int;
    let p1 = if h.version >= 7 {
        align_up(h.end, 16)
    } else {
        h.end
    };
    let region: Result<(Seq<u8>, int), ReadError> = if h.flags.spec_blocks_info_at_the_end() {
        if csize > buf.len() {
            Err(ReadError::UnexpectedEof)
        } else {
            Ok((buf.subrange(buf.len() - csize, buf.len() as int), p1))
        }
    } else if p1 + csize > buf.len() {
        Err(ReadError::UnexpectedEof)
    } else {
        Ok((buf.subrange(p1, p1 + csize), p1 + csize))
    };
    if p1 > usize::MAX {
        Err(ReadError::Overflow)
    } else {
        match region {
            Err(e) => Err(e),
            Ok((bytes, next)) => {
                let position = if h.flags.spec_block_info_need_padding_at_start() {
                    align_up(next, 16)
                } else {
                    next
                };
                if position > usize::MAX {
                    Err(ReadError::Overflow)
                } else {
                    Ok((bytes, position))
                }
            },
        }
    }
}

/// The whole header of a bundle, block and directory tables included.
pub open spec fn spec_unityfs_file(buf: Seq<u8>) -> Result<UnityFSFileView, ReadError> {
    match spec_header_fields(buf) {
        Err(e) => Err(e),
        Ok(h) => match spec_blocks_info_region(buf, h) {
            Err(e) => Err(e),
            Ok((compressed, position)) => match spec_compression_type(
                h.flags.spec_compression_code(),
            ) {
                None => Err(ReadError::InvalidValue),
                Some(ct) => match spec_block_uncompressed(
                    h.uncompressed_blocks_info_size as u64,
                    ct,
                    compressed,
                ) {
                    Err(e) => Err(e),
                    Ok(table) => match spec_blocks_info(table) {
                        Err(e) => Err(e),
                        Ok(info) => Ok(
                            UnityFSFileView {
                                version: h.version,
                                unity_version: h.unity_version,
                                unity_revision: h.unity_revision,
                                size: h.size,
                                compressed_blocks_info_size: h.compressed_blocks_info_size,
                                uncompressed_blocks_info_size: h.uncompressed_blocks_info_size,
                                flags: h.flags,
                                blocks_info: info,
                                position,
                            },
                        ),
                    },
                },
            },
        },
    }
}

fn magic_bytes() -> (r: Vec<u8>)
    ensures
        r@ == unityfs_magic(),
{
    let v: Vec<u8> = vec![85u8, 110u8, 105u8, 116u8, 121u8, 70u8, 83u8, 0u8];
    assert(v@ =~= unityfs_magic());
    v
}

fn parse_header_fields(buf: &[u8]) -> (r: Result<
    (u32, String, String, i64, u32, u32, ArchiveFlags, usize),
    ReadError,
>)
    ensures
        match spec_header_fields(buf@) {
            Ok(h) => r matches Ok((v, uv, ur, s, c, u, f, e)) && v == h.version && uv@
                == h.unity_version && ur@ == h.unity_revision && s == h.size && c
                == h.compressed_blocks_info_size && u == h.uncompressed_blocks_info_size && f
                == h.flags && e == h.end,
            Err(e) => r matches Err(f) && f == e,
        },
{
    if !has_bytes(buf.len(), 0, 12) {
        return Err(ReadError::UnexpectedEof);
    }
    let head = copy_range(buf, 0, 8);
    let magic = magic_bytes();
    if !bytes_eq(head.as_slice(), magic.as_slice()) {
        return Err(ReadError::BadMagic);
    }
    let version = read_u32(buf, 8, true).unwrap();
    let (v, p1) = match read_null_string(buf, 12) {
        Some(x) => x,
        None => return Err(ReadError::UnexpectedEof),
    };
    let (r, p2) = match read_null_string(buf, p1) {
        Some(x) => x,
        None => return Err(ReadError::UnexpectedEof),
    };
    if !has_bytes(buf.len(), p2, 20) {
        return Err(ReadError::UnexpectedEof);
    }
    let size = read_i64(buf, p2, true).unwrap();
    let c = read_u32(buf, p2 + 8, true).unwrap();
    let u = read_u32(buf, p2 + 12, true).unwrap();
    let f = read_u32(buf, p2 + 16, true).unwrap();
    let unity_version = string_from_utf8_lossy(v.as_slice());
    let unity_revision = string_from_utf8_lossy(r.as_slice());
    Ok((version, unity_version, unity_revision, size, c, u, ArchiveFlags { bits: f }, p2 + 20))
}

/// Parses the header of a bundle from the bundle's bytes.
pub fn parse_unityfs_file(buf: &[u8]) -> (r: Result<UnityFSFile, ReadError>)
    ensures
        match spec_unityfs_file(buf@) {
            Ok(v) => r matches Ok(w) && w@ == v,
            Err(e) => r matches Err(f) && f == e,
        },
{
    let (version, unity_version, unity_revision, size, csize, usize_, flags, end) =
        parse_header_fields(buf)?;
    let ghost h = spec_header_fields(buf@)->Ok_0;
    // the compressed block table
    let p1 = if version >= 7 {
        match align_up_exec(end, 16) {
            Some(p) => p,
            None => return Err(ReadError::Overflow),
        }
    } else {
        end
    };
    let (compressed, next) = if flags.blocks_info_at_the_end() {
        if csize as usize > buf.len() {
            return Err(ReadError::UnexpectedEof);
        }
        (copy_range(buf, buf.len() - csize as usize, buf.len()), p1)
    } else {
        if !has_bytes(buf.len(), p1, csize as usize) {
            return Err(ReadError::UnexpectedEof);
        }
        (copy_range(buf, p1, p1 + csize as usize), p1 + csize as usize)
    };
    let position = if flags.block_info_need_padding_at_start() {
        match align_up_exec(next, 16) {
            Some(p) => p,
            None => return Err(ReadError::Overflow),
        }
    } else {
        next
    };
    let ct = match flags.compression_type() {
        Some(ct) => ct,
        None => return Err(ReadError::InvalidValue),
    };
    let table = block_uncompressed(usize_ as u64, ct, compressed)?;
    let blocks_info = parse_blocks_info(table.as_slice())?;
    Ok(
        UnityFSFile {
            version,
            unity_version,
            unity_revision,
            size,
            compressed_blocks_info_size: csize,
            uncompressed_blocks_info_size: usize_,
            flags,
            blocks_info,
            position: position as u64,
        },
    )
}


// ---------------------------------------------------------------------------
// The bundle and its files
/// Calls `Arc::clone`: another handle to the same bytes.
#[verifier::external_body]
fn share_bytes(a: &Arc<Vec<u8>>) -> (r: Arc<Vec<u8>>)
    ensures
        r@ == a@,
{
    Arc::clone(a)
}

/// The compressed size of a block as the unsigned offset it adds (a negative size wraps).
pub open spec fn csize64(b: StorageBlock) -> int {
    (b.compressed_size as u64) as int
}

/// Where block `i` starts: in the compressed data area and in the uncompressed stream.
pub open spec fn block_start(blocks: Seq<StorageBlock>, i: nat) -> (int, int)
    decreases i,
{
    if i == 0 {
        (0, 0)
    } else {
        let prev = block_start(blocks, (i - 1) as nat);
        (prev.0 + csize64(blocks[i - 1]), prev.1 + blocks[i - 1].uncompressed_size)
    }
}

/// All block start offsets, including the end of the last block, fit in 64 bits.
pub open spec fn block_starts_fit(blocks: Seq<StorageBlock>) -> bool {
    forall|i: nat|
        #![trigger block_start(blocks, i)]
        i <= blocks.len() ==> block_start(blocks, i).0 <= u64::MAX && block_start(blocks, i).1
            <= u64::MAX
}

/// `positions` lists the start of every block.
pub open spec fn positions_match(positions: Seq<(u64, u64)>, blocks: Seq<StorageBlock>) -> bool {
    &&& positions.len() == blocks.len()
    &&& block_starts_fit(blocks)
    &&& forall|i: int|
        0 <= i < blocks.len() ==> (#[trigger] positions[i]).0 == block_start(blocks, i as nat).0
            && positions[i].1 == block_start(blocks, i as nat).1
}

pub proof fn lemma_block_start_mono(blocks: Seq<StorageBlock>, i: nat, j: nat)
    requires
        i <= j,
    ensures
        block_start(blocks, i).0 <= block_start(blocks, j).0,
        block_start(blocks, i).1 <= block_start(blocks, j).1,
    decreases j,
{
    if i < j {
        lemma_block_start_mono(blocks, i, (j - 1) as nat);
        assert((blocks[j - 1].compressed_size as u64) >= 0);
    }
}

/// The uncompressed contents of block `i`.
pub open spec fn spec_load_block(
    blocks: Seq<StorageBlock>,
    file: Seq<u8>,
    position: int,
    i: nat,
) -> Result<Seq<u8>, ReadError> {
    let sb = blocks[i as int];
    let from = block_start(blocks, i).0 + position;
    let len = ((sb.compressed_size as u64) as usize) as int;
    if from + len > file.len() {
        Err(ReadError::UnexpectedEof)
    } else {
        match spec_compression_type(sb.flags.spec_compression_code()) {
            None => Err(ReadError::InvalidValue),
            Some(ct) => spec_block_uncompressed(
                sb.uncompressed_size as u64,
                ct,
                file.subrange(from, from + len),
            ),
        }
    }
}

/// Walks the blocks from block `i` on, collecting the uncompressed bytes from offset
/// `start` of the stream until at least `want` bytes are gathered. Returns the bytes
/// and whether `want` was reached before the blocks ran out.
pub open spec fn spec_collect(
    blocks: Seq<StorageBlock>,
    file: Seq<u8>,
    position: int,
    start: int,
    want: int,
    i: nat,
    acc: Seq<u8>,
) -> Result<(Seq<u8>, bool), ReadError>
    decreases blocks.len() - i,
{
    if i >= blocks.len() {
        Ok((acc, false))
    } else {
        let u_off = block_start(blocks, i).1;
        if u_off + blocks[i as int].uncompressed_size >= start {
            match spec_load_block(blocks, file, position, i) {
                Err(e) => Err(e),
                Ok(data) => if u_off < start && start - u_off > data.len() {
                    Err(ReadError::InvalidValue)
                } else {
                    let part = if u_off < start {
                        data.subrange(start - u_off, data.len() as int)
                    } else {
                        data
                    };
                    let acc2 = acc + part;
                    if acc2.len() >= want {
                        Ok((acc2, true))
                    } else {
                        spec_collect(blocks, file, position, start, want, i + 1, acc2)
                    }
                },
            }
        } else {
            spec_collect(blocks, file, position, start, want, i + 1, acc)
        }
    }
}

pub proof fn lemma_collect_reached(
    blocks: Seq<StorageBlock>,
    file: Seq<u8>,
    position: int,
    start: int,
    want: int,
    i: nat,
    acc: Seq<u8>,
)
    ensures
        spec_collect(blocks, file, position, start, want, i, acc) matches Ok((v, true)) ==> v.len()
            >= want,
    decreases blocks.len() - i,
{
    if i < blocks.len() {
        if let Ok(data) = spec_load_block(blocks, file, position, i) {
            let u_off = block_start(blocks, i).1;
            let part = if u_off < start && start - u_off <= data.len() {
                data.subrange(start - u_off, data.len() as int)
            } else {
                data
            };
            lemma_collect_reached(blocks, file, position, start, want, i + 1, acc + part);
        }
        lemma_collect_reached(blocks, file, position, start, want, i + 1, acc);
    }
}

pub proof fn lemma_find_node_bounds(nodes: Seq<NodeView>, path: Seq<char>, from: int)
    ensures
        find_node(nodes, path, from) matches Some(j) ==> 0 <= from <= j < nodes.len(),
    decreases nodes.len() - from,
{
    if 0 <= from < nodes.len() && nodes[from].path != path {
        lemma_find_node_bounds(nodes, path, from + 1);
    }
}

/// Index of the first node whose path is `path`.
pub open spec fn find_node(nodes: Seq<NodeView>, path: Seq<char>, from: int) -> Option<int>
    decreases nodes.len() - from,
{
    if from < 0 || from >= nodes.len() {
        None
    } else if nodes[from].path == path {
        Some(from)
    } else {
        find_node(nodes, path, from + 1)
    }
}

/// The contents of the file described by `node`.
pub open spec fn spec_file_by_node(
    blocks: Seq<StorageBlock>,
    file: Seq<u8>,
    position: int,
    node: NodeView,
) -> Result<Seq<u8>, ReadError> {
    let size = (node.size as usize) as int;
    match spec_collect(blocks, file, position, (node.offset as u64) as int, size, 0, seq![]) {
        Err(e) => Err(e),
        Ok((bytes, true)) => Ok(bytes.subrange(0, size)),
        Ok((_, false)) => Err(ReadError::NotFound),
    }
}

/// A path names a serialized file of the bundle when it is `CAB-` followed by a
/// 32-character name, 36 bytes in all.
pub open spec fn is_cab_path(path: Seq<char>) -> bool {
    let b = vstd::utf8::encode_utf8(path);
    b.len() == 36 && seq_starts_with(b, seq![67u8, 65u8, 66u8, 45u8])
}

/// The paths of the directory that satisfy `is_cab_path`, in directory order.
pub open spec fn cab_paths(nodes: Seq<NodeView>) -> Seq<Seq<char>>
    decreases nodes.len(),
{
    if nodes.len() == 0 {
        seq![]
    } else {
        let rest = cab_paths(nodes.drop_last());
        if is_cab_path(nodes.last().path) {
            rest.push(nodes.last().path)
        } else {
            rest
        }
    }
}


/// An opened bundle: its parsed header and the bundle's bytes.
#[derive(Debug, Clone)]
pub struct UnityFS {
    content: UnityFSFile,
    file: Arc<Vec<u8>>,
    pub resource_search_path: Option<String>,
    storage_blocks_start_positions: Vec<(u64, u64)>,
}

impl UnityFS {
    /// The parsed header.
    pub closed spec fn header(&self) -> UnityFSFileView {
        self.content@
    }

    /// The bytes of the bundle.
    pub closed spec fn file_bytes(&self) -> Seq<u8> {
        self.file@
    }

    pub closed spec fn search_path(&self) -> Option<String> {
        self.resource_search_path
    }

    pub closed spec fn wf(&self) -> bool {
        &&& positions_match(self.storage_blocks_start_positions@, self.content.blocks_info.storage_blocks@)
        &&& self.content.position <= u64::MAX
    }

    pub open spec fn blocks(&self) -> Seq<StorageBlock> {
        self.header().blocks_info.storage_blocks
    }

    pub open spec fn nodes(&self) -> Seq<NodeView> {
        self.header().blocks_info.directory_info
    }

    /// Where resources this file names are looked for.
    pub fn get_resource_search_path(&self) -> (r: Option<&String>)
        ensures
            match r {
                Some(s) => self.search_path() == Some(*s),
                None => self.search_path() is None,
            },
    {
        self.resource_search_path.as_ref()
    }

    /// Opens a bundle from its bytes.
    pub fn read(file: Vec<u8>, resource_search_path: Option<String>) -> (r: Result<UnityFS, ReadError>)
        ensures
            match spec_unityfs_file(file@) {
                Ok(v) => if block_starts_fit(v.blocks_info.storage_blocks) {
                    r matches Ok(fs) && fs.header() == v && fs.file_bytes() == file@ && fs.wf()
                        && fs.search_path() == resource_search_path
                } else {
                    r == Err::<UnityFS, ReadError>(ReadError::Overflow)
                },
                Err(e) => r matches Err(f) && f == e,
            },
    {
        let content = parse_unityfs_file(file.as_slice())?;
        let n = content.blocks_info.storage_blocks.len();
        let mut positions: Vec<(u64, u64)> = Vec::new();
        let mut c: u64 = 0;
        let mut u: u64 = 0;
        let mut i: usize = 0;
        let ghost blocks = content.blocks_info.storage_blocks@;
        while i < n
            invariant
                n == blocks.len(),
                blocks == content.blocks_info.storage_blocks@,
                spec_unityfs_file(file@) matches Ok(v) && v == content@,
                i <= n,
                positions@.len() == i,
                c == block_start(blocks, i as nat).0,
                u == block_start(blocks, i as nat).1,
                forall|k: nat|
                    #![trigger block_start(blocks, k)]
                    k <= i ==> block_start(blocks, k).0 <= u64::MAX && block_start(blocks, k).1
                        <= u64::MAX,
                forall|k: int|
                    0 <= k < i ==> (#[trigger] positions@[k]).0 == block_start(blocks, k as nat).0
                        && positions@[k].1 == block_start(blocks, k as nat).1,
            decreases n - i,
        {
            positions.push((c, u));
            let sb = content.blocks_info.storage_blocks[i];
            let c2 = c.checked_add(sb.compressed_size as u64);
            let u2 = u.checked_add(sb.uncompressed_size as u64);
            proof {
                assert(block_start(blocks, (i + 1) as nat).0 == c + csize64(sb));
                assert(block_start(blocks, (i + 1) as nat).1 == u + sb.uncompressed_size);
            }
            if c2.is_none() || u2.is_none() {
                proof {
                    assert(!(block_start(blocks, (i + 1) as nat).0 <= u64::MAX && block_start(
                        blocks,
                        (i + 1) as nat,
                    ).1 <= u64::MAX));
                    assert(!block_starts_fit(blocks));

                }
                return Err(ReadError::Overflow);
            }
            c = c2.unwrap();
            u = u2.unwrap();
            i = i + 1;
        }
        Ok(
            UnityFS {
                content,
                file: Arc::new(file),
                resource_search_path,
                storage_blocks_start_positions: positions,
            },
        )
    }

    fn get_file_by_node(&self, node: &Node) -> (r: Result<Vec<u8>, ReadError>)
        requires
            self.wf(),
        ensures
            match spec_file_by_node(self.blocks(), self.file_bytes(), self.header().position, node@) {
                Ok(v) => r matches Ok(w) && w@ == v,
                Err(e) => r matches Err(f) && f == e,
            },
    {
        let size = node.size as usize;
        let start = node.offset as u64;
        let (bytes, reached) = collect_blocks(
            &self.file,
            &self.content.blocks_info.storage_blocks,
            &self.storage_blocks_start_positions,
            self.content.position,
            start,
            size,
            0,
        )?;
        proof {
            lemma_collect_reached(self.blocks(), self.file_bytes(), self.header().position, start as int, size as int, 0, seq![]);
        }
        if reached {
            Ok(copy_range(bytes.as_slice(), 0, size))
        } else {
            Err(ReadError::NotFound)
        }
    }

    /// Index of the first directory entry with this path.
    fn find_node_index(&self, path: &String) -> (r: Option<usize>)
        ensures
            r matches Some(i) ==> find_node(self.nodes(), path@, 0) == Some(i as int),
            r is None ==> find_node(self.nodes(), path@, 0) is None,
    {
        let nodes = &self.content.blocks_info.directory_info;
        let mut i: usize = 0;
        while i < nodes.len()
            invariant
                i <= nodes@.len(),
                nodes_view(nodes@) == self.nodes(),
                find_node(self.nodes(), path@, 0) == find_node(self.nodes(), path@, i as int),
            decreases nodes.len() - i,
        {
            if *path == nodes[i].path {
                return Some(i);
            }
            i = i + 1;
        }
        None
    }

    /// The contents of the bundle file with this path.
    pub fn get_file_data_by_path(&self, path: &String) -> (r: Result<Vec<u8>, ReadError>)
        requires
            self.wf(),
        ensures
            match find_node(self.nodes(), path@, 0) {
                None => r == Err::<Vec<u8>, ReadError>(ReadError::NotFound),
                Some(i) => match spec_file_by_node(
                    self.blocks(),
                    self.file_bytes(),
                    self.header().position,
                    self.nodes()[i],
                ) {
                    Ok(v) => r matches Ok(w) && w@ == v,
                    Err(e) => r matches Err(f) && f == e,
                },
            },
            ({
                let st = bundle_stream(self.blocks(), self.file_bytes(), self.header().position);
                match find_node(self.nodes(), path@, 0) {
                    Some(i) => {
                        let o = (self.nodes()[i].offset as u64) as int;
                        let n = (self.nodes()[i].size as usize) as int;
                        blocks_sound(self.blocks(), self.file_bytes(), self.header().position) && n > 0 ==> if o
                            + n <= st.len() {
                            r matches Ok(w) && w@ == st.subrange(o, o + n)
                        } else {
                            r == Err::<Vec<u8>, ReadError>(ReadError::NotFound)
                        }
                    },
                    None => true,
                }
            }),
    {
        proof {
            lemma_find_node_bounds(self.nodes(), path@, 0);
            if let Some(i) = find_node(self.nodes(), path@, 0) {
                if blocks_sound(self.blocks(), self.file_bytes(), self.header().position)
                    && (self.nodes()[i].size as usize) > 0 {
                    lemma_file_is_stream_slice(self.blocks(), self.file_bytes(), self.header().position, self.nodes()[i]);
                }
            }
        }
        match self.find_node_index(path) {
            Some(i) => self.get_file_by_node(&self.content.blocks_info.directory_info[i]),
            None => Err(ReadError::NotFound),
        }
    }

    /// Same as `get_file_data_by_path`, taking the path by value.
    pub fn get_file_by_path(&self, path: String) -> (r: Result<Vec<u8>, ReadError>)
        requires
            self.wf(),
        ensures
            match find_node(self.nodes(), path@, 0) {
                None => r == Err::<Vec<u8>, ReadError>(ReadError::NotFound),
                Some(i) => match spec_file_by_node(
                    self.blocks(),
                    self.file_bytes(),
                    self.header().position,
                    self.nodes()[i],
                ) {
                    Ok(v) => r matches Ok(w) && w@ == v,
                    Err(e) => r matches Err(f) && f == e,
                },
            },
    {
        self.get_file_data_by_path(&path)
    }

    /// The directory of the bundle.
    pub fn get_files(&self) -> (r: &Vec<Node>)
        ensures
            nodes_view(r@) == self.nodes(),
    {
        &self.content.blocks_info.directory_info
    }

    /// The paths of the serialized files (`CAB-...`) stored in the bundle.
    pub fn get_cab_path(&self) -> (r: Vec<String>)
        ensures
            strings_view(r@) == cab_paths(self.nodes()),
    {
        let nodes = &self.content.blocks_info.directory_info;
        let mut paths: Vec<String> = Vec::new();
        let mut i: usize = 0;
        while i < nodes.len()
            invariant
                i <= nodes@.len(),
                nodes_view(nodes@) == self.nodes(),
                strings_view(paths@) == cab_paths(self.nodes().take(i as int)),
            decreases nodes.len() - i,
        {
            let path = nodes[i].path();
            let bytes = string_bytes(&path);
            let prefix: [u8; 4] = [67u8, 65u8, 66u8, 45u8];
            let ghost old_paths = paths@;
            proof {
                assert(self.nodes().take(i + 1).drop_last() =~= self.nodes().take(i as int));
                assert(prefix@ =~= seq![67u8, 65u8, 66u8, 45u8]);
            }
            if bytes.len() == 36 && bytes_start_with(bytes, &prefix) {
                paths.push(path);
                proof {
                    assert(strings_view(paths@) =~= strings_view(old_paths).push(path@));
                }
            }
            i = i + 1;
        }
        assert(self.nodes().take(nodes@.len() as int) =~= self.nodes());
        paths
    }

    /// The first serialized file of the bundle.
    pub fn get_cab(&self) -> (r: Result<Vec<u8>, ReadError>)
        requires
            self.wf(),
        ensures
            cab_paths(self.nodes()).len() == 0 ==> r == Err::<Vec<u8>, ReadError>(ReadError::NotFound),
            cab_paths(self.nodes()).len() > 0 ==> match find_node(self.nodes(), cab_paths(self.nodes())[0], 0) {
                None => r == Err::<Vec<u8>, ReadError>(ReadError::NotFound),
                Some(i) => match spec_file_by_node(
                    self.blocks(),
                    self.file_bytes(),
                    self.header().position,
                    self.nodes()[i],
                ) {
                    Ok(v) => r matches Ok(w) && w@ == v,
                    Err(e) => r matches Err(f) && f == e,
                },
            },
    {
        let paths = self.get_cab_path();
        if paths.len() == 0 {
            return Err(ReadError::NotFound);
        }
        proof {
            assert(strings_view(paths@)[0] == paths@[0]@);
        }
        self.get_file_data_by_path(&paths[0])
    }

    /// The paths of all files in the bundle, in directory order.
    pub fn get_file_paths(&self) -> (r: Vec<String>)
        ensures
            strings_view(r@) == self.nodes().map_values(|n: NodeView| n.path),
    {
        let nodes = &self.content.blocks_info.directory_info;
        let mut paths: Vec<String> = Vec::new();
        let mut i: usize = 0;
        while i < nodes.len()
            invariant
                i <= nodes@.len(),
                nodes_view(nodes@) == self.nodes(),
                strings_view(paths@) == self.nodes().take(i as int).map_values(|n: NodeView| n.path),
            decreases nodes.len() - i,
        {
            let ghost old_paths = paths@;
            paths.push(nodes[i].path());
            proof {
                assert(strings_view(paths@) =~= strings_view(old_paths).push(nodes@[i as int].path@));
                assert(self.nodes().take(i + 1).map_values(|n: NodeView| n.path) =~= self.nodes().take(
                    i as int,
                ).map_values(|n: NodeView| n.path).push(self.nodes()[i as int].path));
            }
            i = i + 1;
        }
        assert(self.nodes().take(nodes@.len() as int) =~= self.nodes());
        paths
    }

    /// A seekable reader over the bundle file with this path.
    pub fn get_file_reader_by_path(&self, path: &String) -> (r: Option<UnityFSNode>)
        requires
            self.wf(),
        ensures
            match find_node(self.nodes(), path@, 0) {
                None => r is None,
                Some(i) => r matches Some(n) && n.wf() && n.node() == self.nodes()[i]
                    && n.current_position() == 0 && n.blocks() == self.blocks()
                    && n.file_bytes() == self.file_bytes() && n.data_position()
                    == self.header().position,
            },
    {
        proof {
            lemma_find_node_bounds(self.nodes(), path@, 0);
        }
        match self.find_node_index(path) {
            Some(i) => Some(
                UnityFSNode {
                    file: share_bytes(&self.file),
                    storage_blocks: copy_vec(&self.content.blocks_info.storage_blocks),
                    storage_blocks_start_positions: copy_vec(&self.storage_blocks_start_positions),
                    storage_block_position: self.content.position,
                    node_info: self.content.blocks_info.directory_info[i].copy(),
                    current_position: 0,
                },
            ),
            None => None,
        }
    }
}

fn load_block_of(
    file: &Arc<Vec<u8>>,
    blocks: &Vec<StorageBlock>,
    positions: &Vec<(u64, u64)>,
    position: u64,
    i: usize,
) -> (r: Result<Vec<u8>, ReadError>)
    requires
        positions_match(positions@, blocks@),
        i < blocks@.len(),
    ensures
        match spec_load_block(blocks@, file@, position as int, i as nat) {
            Ok(v) => r matches Ok(w) && w@ == v,
            Err(e) => r matches Err(f) && f == e,
        },
{
    let sb = blocks[i];
    let (c_off, _u_off) = positions[i];
    let len = (sb.compressed_size as u64) as usize;
    let flen = file.len();
    proof {
        assert(file@.len() <= usize::MAX);
        assert(positions@[i as int].0 == block_start(blocks@, i as nat).0);
    }
    let from = match c_off.checked_add(position) {
        Some(f) => f,
        None => return Err(ReadError::UnexpectedEof),
    };
    if from > file.len() as u64 || !has_bytes(file.len(), from as usize, len) {
        return Err(ReadError::UnexpectedEof);
    }
    let from = from as usize;
    let ct = match sb.flags.compression_type() {
        Some(ct) => ct,
        None => return Err(ReadError::InvalidValue),
    };
    let raw = copy_range(file.as_slice(), from, from + len);
    block_uncompressed(sb.uncompressed_size as u64, ct, raw)
}

/// Exec version of `spec_collect` from block `i` with nothing gathered yet.
fn collect_blocks(
    file: &Arc<Vec<u8>>,
    blocks: &Vec<StorageBlock>,
    positions: &Vec<(u64, u64)>,
    position: u64,
    start: u64,
    want: usize,
    i0: usize,
) -> (r: Result<(Vec<u8>, bool), ReadError>)
    requires
        positions_match(positions@, blocks@),
    ensures
        match spec_collect(blocks@, file@, position as int, start as int, want as int, i0 as nat, seq![]) {
            Ok((v, b)) => r matches Ok((w, c)) && w@ == v && c == b,
            Err(e) => r matches Err(f) && f == e,
        },
{
    let mut acc: Vec<u8> = Vec::new();
    let mut i = i0;
    let n = blocks.len();
    if i >= n {
        return Ok((acc, false));
    }
    while i < n
        invariant
            n == blocks@.len(),
            positions_match(positions@, blocks@),
            i0 <= i <= n,
            spec_collect(blocks@, file@, position as int, start as int, want as int, i0 as nat, seq![])
                == spec_collect(blocks@, file@, position as int, start as int, want as int, i as nat, acc@),
        decreases n - i,
    {
        let (_c_off, u_off) = positions[i];
        let sb = blocks[i];
        proof {
            assert(block_start(blocks@, (i + 1) as nat).1 <= u64::MAX);
        }
        if u_off + sb.uncompressed_size as u64 >= start {
            let data = load_block_of(file, blocks, positions, position, i)?;
            if u_off < start && (start - u_off) as usize > data.len() {
                return Err(ReadError::InvalidValue);
            }
            let ghost old_acc = acc@;
            if u_off < start {
                let mut k = (start - u_off) as usize;
                while k < data.len()
                    invariant
                        u_off < start,
                        (start - u_off) <= k <= data@.len(),
                        acc@ == old_acc + data@.subrange((start - u_off) as int, k as int),
                    decreases data.len() - k,
                {
                    proof {
                        assert(data@.subrange((start - u_off) as int, k + 1) =~= data@.subrange(
                            (start - u_off) as int,
                            k as int,
                        ).push(data@[k as int]));
                    }
                    acc.push(data[k]);
                    k = k + 1;
                }
            } else {
                let mut k: usize = 0;
                while k < data.len()
                    invariant
                        k <= data@.len(),
                        acc@ == old_acc + data@.subrange(0, k as int),
                    decreases data.len() - k,
                {
                    proof {
                        assert(data@.subrange(0, k + 1) =~= data@.subrange(0, k as int).push(
                            data@[k as int],
                        ));
                    }
                    acc.push(data[k]);
                    k = k + 1;
                }
                assert(data@.subrange(0, data@.len() as int) =~= data@);
            }
            if acc.len() >= want {
                return Ok((acc, true));
            }
        }
        i = i + 1;
    }
    Ok((acc, false))
}

/// Seek targets for `UnityFSNode::seek`.
#[derive(Debug, Clone, Copy, PartialEq, Eq, Structural)]
pub enum SeekFrom {
    Start(u64),
    End(i64),
    Current(i64),
}

/// A reader over one file of a bundle, decompressing blocks as it reads.
#[derive(Debug, Clone)]
pub struct UnityFSNode {
    file: Arc<Vec<u8>>,
    storage_blocks: Vec<StorageBlock>,
    storage_blocks_start_positions: Vec<(u64, u64)>,
    storage_block_position: u64,
    node_info: Node,
    current_position: u64,
}

/// The block from which a read at uncompressed offset `start` begins: the last block,
/// scanning from `k`, whose start is not after `start`.
pub open spec fn block_index(blocks: Seq<StorageBlock>, start: int, k: int) -> int
    decreases blocks.len() - k,
{
    if 0 <= k && k + 1 < blocks.len() && block_start(blocks, (k + 1) as nat).1 <= start {
        block_index(blocks, start, k + 1)
    } else {
        k
    }
}

/// The bytes one `read` of at most `want` bytes returns, starting at uncompressed offset `start`.
pub open spec fn spec_node_read(
    blocks: Seq<StorageBlock>,
    file: Seq<u8>,
    position: int,
    start: int,
    want: int,
) -> Result<Seq<u8>, ReadError> {
    if blocks.len() == 0 {
        Err(ReadError::NotFound)
    } else {
        let k = block_index(blocks, start, 0);
        match spec_collect(blocks, file, position, start, want, k as nat, seq![]) {
            Err(e) => Err(e),
            Ok((bytes, true)) => Ok(bytes.subrange(0, want)),
            Ok((bytes, false)) => if bytes.len() > 0 {
                Ok(bytes)
            } else {
                Err(ReadError::NotFound)
            },
        }
    }
}

impl UnityFSNode {
    pub closed spec fn wf(&self) -> bool {
        positions_match(self.storage_blocks_start_positions@, self.storage_blocks@)
    }

    pub closed spec fn node(&self) -> NodeView {
        self.node_info@
    }

    pub closed spec fn current_position(&self) -> int {
        self.current_position as int
    }

    pub closed spec fn blocks(&self) -> Seq<StorageBlock> {
        self.storage_blocks@
    }

    pub closed spec fn file_bytes(&self) -> Seq<u8> {
        self.file@
    }

    pub closed spec fn data_position(&self) -> int {
        self.storage_block_position as int
    }

    /// The position never goes below the node's start.
    pub proof fn lemma_position_in_range(&self)
        ensures
            0 <= self.current_position() <= u64::MAX,
    {
    }

    /// The size of the file this reader reads.
    pub fn get_size(&self) -> (r: i64)
        ensures
            r == self.node().size,
    {
        self.node_info.size
    }

    /// Reads at most `len` bytes from the current position and advances past them.
    pub fn read(&mut self, len: usize) -> (r: Result<Vec<u8>, ReadError>)
        requires
            old(self).wf(),
        ensures
            final(self).wf(),
            final(self).node() == old(self).node(),
            final(self).blocks() == old(self).blocks(),
            final(self).file_bytes() == old(self).file_bytes(),
            final(self).data_position() == old(self).data_position(),
            ({
                let start = (old(self).node().offset as u64) + old(self).current_position();
                if start > u64::MAX {
                    r == Err::<Vec<u8>, ReadError>(ReadError::Overflow) && final(self).current_position()
                        == old(self).current_position()
                } else {
                    match spec_node_read(
                        old(self).blocks(),
                        old(self).file_bytes(),
                        old(self).data_position(),
                        start,
                        len as int,
                    ) {
                        Ok(v) => if old(self).current_position() + v.len() > u64::MAX {
                            r == Err::<Vec<u8>, ReadError>(ReadError::Overflow)
                                && final(self).current_position() == old(self).current_position()
                        } else {
                            r matches Ok(w) && w@ == v && final(self).current_position()
                                == old(self).current_position() + v.len()
                        },
                        Err(e) => r matches Err(f) && f == e && final(self).current_position()
                            == old(self).current_position(),
                    }
                }
            }),
    {
        let start = match (self.node_info.offset as u64).checked_add(self.current_position) {
            Some(s) => s,
            None => return Err(ReadError::Overflow),
        };
        let n = self.storage_blocks.len();
        if n == 0 {
            return Err(ReadError::NotFound);
        }
        let ghost blocks = self.storage_blocks@;
        let mut k: usize = 0;
        while k + 1 < n && self.storage_blocks_start_positions[k + 1].1 <= start
            invariant
                n == blocks.len(),
                blocks == self.storage_blocks@,
                positions_match(self.storage_blocks_start_positions@, blocks),
                k < n,
                block_index(blocks, start as int, 0) == block_index(blocks, start as int, k as int),
            decreases n - k,
        {
            k = k + 1;
        }
        let (bytes, reached) = collect_blocks(
            &self.file,
            &self.storage_blocks,
            &self.storage_blocks_start_positions,
            self.storage_block_position,
            start,
            len,
            k,
        )?;
        proof {
            lemma_collect_reached(blocks, self.file@, self.storage_block_position as int, start as int, len as int, k as nat, seq![]);
        }
        let out = if reached {
            copy_range(bytes.as_slice(), 0, len)
        } else if bytes.len() > 0 {
            bytes
        } else {
            return Err(ReadError::NotFound);
        };
        if self.current_position.checked_add(out.len() as u64).is_none() {
            return Err(ReadError::Overflow);
        }
        self.current_position = self.current_position + out.len() as u64;
        Ok(out)
    }

    /// Moves the read position; a position before the start of the file becomes 0.
    pub fn seek(&mut self, pos: SeekFrom) -> (r: Result<u64, ReadError>)
        requires
            old(self).wf(),
        ensures
            final(self).wf(),
            final(self).node() == old(self).node(),
            final(self).blocks() == old(self).blocks(),
            final(self).file_bytes() == old(self).file_bytes(),
            final(self).data_position() == old(self).data_position(),
            match pos {
                SeekFrom::Start(p) => r == Ok::<u64, ReadError>(p) && final(self).current_position() == p,
                SeekFrom::End(off) => {
                    let np = old(self).node().size + off;
                    if np < i64::MIN || np > i64::MAX {
                        r == Err::<u64, ReadError>(ReadError::Overflow) && final(self).current_position()
                            == old(self).current_position()
                    } else {
                        let v: int = if np >= 0 {
                            np
                        } else {
                            0
                        };
                        r == Ok::<u64, ReadError>(v as u64) && final(self).current_position() == v
                    }
                },
                SeekFrom::Current(off) => {
                    let np = ((old(self).current_position() as u64) as i64) + off;
                    if np < i64::MIN || np > i64::MAX {
                        r == Err::<u64, ReadError>(ReadError::Overflow) && final(self).current_position()
                            == old(self).current_position()
                    } else {
                        let v: int = if np >= 0 {
                            np
                        } else {
                            0
                        };
                        r == Ok::<u64, ReadError>(v as u64) && final(self).current_position() == v
                    }
                },
            },
    {
        match pos {
            SeekFrom::Start(p) => {
                self.current_position = p;
            },
            SeekFrom::End(offset) => {
                match self.node_info.size.checked_add(offset) {
                    Some(np) => {
                        self.current_position = if np >= 0 {
                            np as u64
                        } else {
                            0
                        };
                    },
                    None => return Err(ReadError::Overflow),
                }
            },
            SeekFrom::Current(offset) => {
                match (self.current_position as i64).checked_add(offset) {
                    Some(np) => {
                        self.current_position = if np >= 0 {
                            np as u64
                        } else {
                            0
                        };
                    },
                    None => return Err(ReadError::Overflow),
                }
            },
        }
        Ok(self.current_position)
    }
}


/// Every block of the bundle loads and decompresses to its declared size.
pub open spec fn blocks_sound(blocks: Seq<StorageBlock>, file: Seq<u8>, position: int) -> bool {
    forall|j: nat|
        j < blocks.len() ==> ((#[trigger] spec_load_block(blocks, file, position, j)) matches Ok(d)
            && d.len() == blocks[j as int].uncompressed_size)
}

proof fn lemma_block_index(blocks: Seq<StorageBlock>, start: int, k: int)
    requires
        0 <= k < blocks.len(),
        k == 0 || block_start(blocks, k as nat).1 <= start,
    ensures
        k <= block_index(blocks, start, k) < blocks.len(),
        block_index(blocks, start, k) == 0 || block_start(blocks, block_index(blocks, start, k) as nat).1
            <= start,
    decreases blocks.len() - k,
{
    if k + 1 < blocks.len() && block_start(blocks, (k + 1) as nat).1 <= start {
        lemma_block_index(blocks, start, k + 1);
    }
}

/// Before the block a read starts in, every block ends at or before the read's start;
/// with blocks of their declared sizes, walking them adds nothing.
proof fn lemma_collect_skip(
    blocks: Seq<StorageBlock>,
    file: Seq<u8>,
    position: int,
    start: int,
    want: int,
    j: nat,
    k: nat,
)
    requires
        blocks_sound(blocks, file, position),
        want > 0,
        j <= k < blocks.len(),
        k == 0 || block_start(blocks, k).1 <= start,
    ensures
        spec_collect(blocks, file, position, start, want, j, seq![]) == spec_collect(
            blocks,
            file,
            position,
            start,
            want,
            k,
            seq![],
        ),
    decreases k - j,
{
    if j < k {
        lemma_block_start_mono(blocks, j + 1, k);
        let u_off = block_start(blocks, j).1;
        assert(block_start(blocks, j + 1).1 == u_off + blocks[j as int].uncompressed_size);
        if u_off + blocks[j as int].uncompressed_size >= start {
            assert(spec_load_block(blocks, file, position, j) matches Ok(d) && d.len()
                == blocks[j as int].uncompressed_size);
            let d = spec_load_block(blocks, file, position, j)->Ok_0;
            if u_off < start {
                assert(d.subrange(start - u_off, d.len() as int) =~= Seq::<u8>::empty());
            } else {
                assert(d.len() == 0);
            }
            assert(seq![] + (if u_off < start {
                d.subrange(start - u_off, d.len() as int)
            } else {
                d
            }) =~= Seq::<u8>::empty());
        }
        lemma_collect_skip(blocks, file, position, start, want, j + 1, k);
    }
}

/// A fresh reader over a file of a bundle whose blocks decompress to their declared
/// sizes, asked for the file's size, returns exactly the file's contents as
/// `get_file_data_by_path` gives them.
pub proof fn lemma_reader_reads_file(blocks: Seq<StorageBlock>, file: Seq<u8>, position: int, node: NodeView)
    requires
        blocks_sound(blocks, file, position),
        (node.size as usize) > 0,
    ensures
        spec_file_by_node(blocks, file, position, node) matches Ok(v) ==> spec_node_read(
            blocks,
            file,
            position,
            (node.offset as u64) as int,
            (node.size as usize) as int,
        ) == Ok::<Seq<u8>, ReadError>(v),
{
    let start = (node.offset as u64) as int;
    let want = (node.size as usize) as int;
    if blocks.len() > 0 {
        lemma_block_index(blocks, start, 0);
        let k = block_index(blocks, start, 0);
        lemma_collect_skip(blocks, file, position, start, want, 0, k as nat);
    }
}
/// The uncompressed bytes of block `j`, or nothing when it does not load.
pub open spec fn block_data(blocks: Seq<StorageBlock>, file: Seq<u8>, position: int, j: nat) -> Seq<u8> {
    match spec_load_block(blocks, file, position, j) {
        Ok(d) => d,
        Err(_) => seq![],
    }
}

/// The uncompressed bytes of the first `n` blocks, one after the other.
pub open spec fn stream_upto(blocks: Seq<StorageBlock>, file: Seq<u8>, position: int, n: nat) -> Seq<u8>
    decreases n,
{
    if n == 0 {
        seq![]
    } else {
        stream_upto(blocks, file, position, (n - 1) as nat) + block_data(blocks, file, position, (n - 1) as nat)
    }
}

/// The whole uncompressed data stream of a bundle: all its blocks, decompressed, one
/// after the other.
pub open spec fn bundle_stream(blocks: Seq<StorageBlock>, file: Seq<u8>, position: int) -> Seq<u8> {
    stream_upto(blocks, file, position, blocks.len())
}

proof fn lemma_stream_len(blocks: Seq<StorageBlock>, file: Seq<u8>, position: int, i: nat)
    requires
        blocks_sound(blocks, file, position),
        i <= blocks.len(),
    ensures
        stream_upto(blocks, file, position, i).len() == block_start(blocks, i).1,
    decreases i,
{
    if i > 0 {
        lemma_stream_len(blocks, file, position, (i - 1) as nat);
        assert(spec_load_block(blocks, file, position, (i - 1) as nat) is Ok);
    }
}

proof fn lemma_stream_prefix(blocks: Seq<StorageBlock>, file: Seq<u8>, position: int, i: nat, j: nat)
    requires
        i <= j,
    ensures
        stream_upto(blocks, file, position, j).subrange(0, stream_upto(blocks, file, position, i).len() as int)
            == stream_upto(blocks, file, position, i),
        stream_upto(blocks, file, position, i).len() <= stream_upto(blocks, file, position, j).len(),
    decreases j - i,
{
    if i < j {
        lemma_stream_prefix(blocks, file, position, i, (j - 1) as nat);
        let a = stream_upto(blocks, file, position, (j - 1) as nat);
        let b = block_data(blocks, file, position, (j - 1) as nat);
        let n = stream_upto(blocks, file, position, i).len() as int;
        assert((a + b).subrange(0, n) =~= a.subrange(0, n));
    } else {
        assert(stream_upto(blocks, file, position, i).subrange(0, stream_upto(blocks, file, position, i).len() as int)
            =~= stream_upto(blocks, file, position, i));
    }
}

/// Block `i` stands in the stream from its uncompressed start to the next block's.
proof fn lemma_stream_block(blocks: Seq<StorageBlock>, file: Seq<u8>, position: int, i: nat)
    requires
        blocks_sound(blocks, file, position),
        i < blocks.len(),
    ensures
        0 <= block_start(blocks, i).1 <= block_start(blocks, i + 1).1 <= bundle_stream(blocks, file, position).len(),
        bundle_stream(blocks, file, position).subrange(block_start(blocks, i).1, block_start(blocks, i + 1).1)
            == block_data(blocks, file, position, i),
        block_data(blocks, file, position, i).len() == blocks[i as int].uncompressed_size,
{
    assert(spec_load_block(blocks, file, position, i) is Ok);
    lemma_stream_len(blocks, file, position, i);
    lemma_stream_len(blocks, file, position, i + 1);
    lemma_stream_len(blocks, file, position, blocks.len());
    lemma_stream_prefix(blocks, file, position, i + 1, blocks.len());
    let s = bundle_stream(blocks, file, position);
    let p = stream_upto(blocks, file, position, i + 1);
    let a = stream_upto(blocks, file, position, i);
    assert(p == a + block_data(blocks, file, position, i));
    assert(s.subrange(block_start(blocks, i).1, block_start(blocks, i + 1).1) =~= p.subrange(
        a.len() as int,
        p.len() as int,
    ));
    assert(p.subrange(a.len() as int, p.len() as int) =~= block_data(blocks, file, position, i));
}

/// Walking the blocks for `want` bytes from `start` gathers the stream from `start`:
/// `want` bytes of it or more when the stream holds them, else all of it from there.
proof fn lemma_collect_stream(
    blocks: Seq<StorageBlock>,
    file: Seq<u8>,
    position: int,
    start: int,
    want: int,
    i: nat,
    acc: Seq<u8>,
)
    requires
        blocks_sound(blocks, file, position),
        0 <= start,
        want > 0,
        i <= blocks.len(),
        acc.len() < want,
        block_start(blocks, i).1 <= start ==> acc.len() == 0,
        block_start(blocks, i).1 >= start ==> acc == bundle_stream(blocks, file, position).subrange(
            start,
            block_start(blocks, i).1,
        ),
        block_start(blocks, i).1 <= bundle_stream(blocks, file, position).len(),
    ensures
        ({
            let st = bundle_stream(blocks, file, position);
            spec_collect(blocks, file, position, start, want, i, acc) matches Ok((v, r)) && r == (start + want
                <= st.len()) && (r ==> v.len() >= want && start + v.len() <= st.len() && v == st.subrange(
                start,
                start + v.len(),
            )) && (!r ==> v == if start <= st.len() {
                st.subrange(start, st.len() as int)
            } else {
                Seq::<u8>::empty()
            })
        }),
    decreases blocks.len() - i,
{
    let st = bundle_stream(blocks, file, position);
    lemma_stream_len(blocks, file, position, blocks.len());
    if i >= blocks.len() {
        if start <= st.len() {
            assert(block_start(blocks, i).1 == st.len());
        }
    } else {
        lemma_stream_block(blocks, file, position, i);
        let u0 = block_start(blocks, i).1;
        let u1 = block_start(blocks, i + 1).1;
        let data = block_data(blocks, file, position, i);
        assert(spec_load_block(blocks, file, position, i) == Ok::<Seq<u8>, ReadError>(data));
        if u1 >= start {
            let part = if u0 < start {
                data.subrange(start - u0, data.len() as int)
            } else {
                data
            };
            let acc2 = acc + part;
            assert(st.subrange(u0, u1) == data);
            if u0 < start {
                assert(acc.len() == 0);
                assert(acc2 =~= part);
                assert(st.subrange(start, u1) =~= st.subrange(u0, u1).subrange(start - u0, u1 - u0));
            } else {
                assert(acc == st.subrange(start, u0));
                assert(st.subrange(start, u1) =~= st.subrange(start, u0) + st.subrange(u0, u1));
            }
            assert(acc2 =~= st.subrange(start, u1));
            if acc2.len() < want {
                lemma_collect_stream(blocks, file, position, start, want, i + 1, acc2);
            }
        } else {
            lemma_collect_stream(blocks, file, position, start, want, i + 1, acc);
        }
    }
}

/// With blocks that decompress to their declared sizes, the contents of a non-empty
/// file of a bundle are the slice of the bundle's data stream at the file's offset and
/// size, or `NotFound` when the stream is too short.
pub proof fn lemma_file_is_stream_slice(blocks: Seq<StorageBlock>, file: Seq<u8>, position: int, node: NodeView)
    requires
        blocks_sound(blocks, file, position),
        (node.size as usize) > 0,
    ensures
        ({
            let o = (node.offset as u64) as int;
            let n = (node.size as usize) as int;
            let st = bundle_stream(blocks, file, position);
            spec_file_by_node(blocks, file, position, node) == if o + n <= st.len() {
                Ok::<Seq<u8>, ReadError>(st.subrange(o, o + n))
            } else {
                Err(ReadError::NotFound)
            }
        }),
{
    let o = (node.offset as u64) as int;
    let n = (node.size as usize) as int;
    let st = bundle_stream(blocks, file, position);
    lemma_stream_len(blocks, file, position, blocks.len());
    if o == 0 {
        assert(st.subrange(0, 0) =~= Seq::<u8>::empty());
    }
    lemma_collect_stream(blocks, file, position, o, n, 0, seq![]);
    if let Ok((v, true)) = spec_collect(blocks, file, position, o, n, 0, seq![]) {
        assert(v.subrange(0, n) =~= st.subrange(o, o + n));
    }
}

/// With blocks that decompress to their declared sizes, one read of at most `want`
/// bytes (more than none) from uncompressed offset `start` gives the slice of the
/// bundle's data stream from there: `want` bytes, or the rest of the stream when it is
/// shorter, or `NotFound` when nothing is left.
pub proof fn lemma_node_read_is_stream_slice(
    blocks: Seq<StorageBlock>,
    file: Seq<u8>,
    position: int,
    start: int,
    want: int,
)
    requires
        blocks_sound(blocks, file, position),
        0 <= start,
        want > 0,
    ensures
        ({
            let st = bundle_stream(blocks, file, position);
            spec_node_read(blocks, file, position, start, want) == if start + want <= st.len() {
                Ok::<Seq<u8>, ReadError>(st.subrange(start, start + want))
            } else if start < st.len() {
                Ok::<Seq<u8>, ReadError>(st.subrange(start, st.len() as int))
            } else {
                Err(ReadError::NotFound)
            }
        }),
{
    let st = bundle_stream(blocks, file, position);
    lemma_stream_len(blocks, file, position, blocks.len());
    if blocks.len() > 0 {
        lemma_block_index(blocks, start, 0);
        let k = block_index(blocks, start, 0);
        lemma_collect_skip(blocks, file, position, start, want, 0, k as nat);
        if start == 0 {
            assert(st.subrange(0, 0) =~= Seq::<u8>::empty());
        }
        lemma_collect_stream(blocks, file, position, start, want, 0, seq![]);
        match spec_collect(blocks, file, position, start, want, 0, seq![]) {
            Ok((v, true)) => {
                assert(v.subrange(0, want) =~= st.subrange(start, start + want));
            },
            _ => {},
        }
    } else {
        assert(st.len() == 0);
    }
}

/// Where a bundle's stored block table begins: from version 7 on, at the end of the
/// header rounded up to a multiple of 16; before that, right at the end of the header.
/// When the table is not kept at the end of the file and the bundle opens, its block
/// and directory tables are what the table's bytes at that place decompress to; and
/// when those bytes are there and decompress to valid tables, the bundle's header
/// fields read, the bundle opens.
pub proof fn lemma_block_table_place(buf: Seq<u8>)
    requires
        spec_header_fields(buf) matches Ok(h) && !h.flags.spec_blocks_info_at_the_end(),
    ensures
        ({
            let h = spec_header_fields(buf)->Ok_0;
            let start = if h.version >= 7 {
                h.end + (16 - h.end % 16) % 16
            } else {
                h.end
            };
            let c = h.compressed_blocks_info_size as int;
            let decoded = match spec_compression_type(h.flags.spec_compression_code()) {
                None => Err(ReadError::InvalidValue),
                Some(ct) => spec_block_uncompressed(
                    h.uncompressed_blocks_info_size as u64,
                    ct,
                    buf.subrange(start, start + c),
                ),
            };
            &&& match spec_unityfs_file(buf) {
                Ok(v) => start + c <= buf.len() && (decoded matches Ok(t) && spec_blocks_info(t) == Ok::<
                    BlocksInfoView,
                    ReadError,
                >(v.blocks_info)),
                Err(_) => true,
            }
            &&& match decoded {
                Ok(t) => start + c <= buf.len() && start + c + 16 <= usize::MAX && spec_blocks_info(t) is Ok
                    ==> spec_unityfs_file(buf) is Ok,
                Err(_) => true,
            }
        }),
{
    let h = spec_header_fields(buf)->Ok_0;
    let c = h.compressed_blocks_info_size as int;
    assert(h.end >= 0);
    assert(align_up(h.end, 16) == if h.end % 16 == 0 {
        h.end
    } else {
        h.end + (16 - h.end % 16)
    });
    if h.end % 16 == 0 {
        assert((16 - h.end % 16) % 16 == 0);
    } else {
        assert((16 - h.end % 16) % 16 == 16 - h.end % 16);
    }
}

/// Where a bundle's data blocks begin, and where its block table comes from when it is
/// kept at the end of the file. The table's place after the header is its start (the
/// header's end, rounded up to 16 from version 7 on); the data follows the table there,
/// or begins at that place when the table is at the end of the file; with the padding
/// flag the data starts on the next multiple of 16. A table kept at the end is the
/// file's last bytes.
pub proof fn lemma_data_position(buf: Seq<u8>)
    ensures
        match (spec_header_fields(buf), spec_unityfs_file(buf)) {
            (Ok(h), Ok(v)) => {
                let start = if h.version >= 7 {
                    h.end + (16 - h.end % 16) % 16
                } else {
                    h.end
                };
                let c = h.compressed_blocks_info_size as int;
                let at_end = h.flags.spec_blocks_info_at_the_end();
                let next = if at_end {
                    start
                } else {
                    start + c
                };
                &&& v.position == if h.flags.spec_block_info_need_padding_at_start() {
                    next + (16 - next % 16) % 16
                } else {
                    next
                }
                &&& at_end ==> c <= buf.len() && match spec_compression_type(h.flags.spec_compression_code()) {
                    Some(ct) => spec_block_uncompressed(
                        h.uncompressed_blocks_info_size as u64,
                        ct,
                        buf.subrange(buf.len() - c, buf.len() as int),
                    ) matches Ok(t) && spec_blocks_info(t) == Ok::<BlocksInfoView, ReadError>(v.blocks_info),
                    None => false,
                }
            },
            _ => true,
        },
{
    if let Ok(h) = spec_header_fields(buf) {
        if let Ok(v) = spec_unityfs_file(buf) {
            let (bytes, position) = spec_blocks_info_region(buf, h)->Ok_0;
            assert(position == v.position);
            lemma_region_place(buf, h);
        }
    }
}

/// The block table region's bytes and the position after it, by the header alone.
proof fn lemma_region_place(buf: Seq<u8>, h: HeaderFieldsView)
    requires
        h.end >= 0,
        spec_blocks_info_region(buf, h) is Ok,
    ensures
        ({
            let start = if h.version >= 7 {
                h.end + (16 - h.end % 16) % 16
            } else {
                h.end
            };
            let c = h.compressed_blocks_info_size as int;
            let at_end = h.flags.spec_blocks_info_at_the_end();
            let next = if at_end {
                start
            } else {
                start + c
            };
            let (bytes, position) = spec_blocks_info_region(buf, h)->Ok_0;
            &&& position == if h.flags.spec_block_info_need_padding_at_start() {
                next + (16 - next % 16) % 16
            } else {
                next
            }
            &&& at_end ==> c <= buf.len() && bytes == buf.subrange(buf.len() - c, buf.len() as int)
            &&& !at_end ==> start + c <= buf.len() && bytes == buf.subrange(start, start + c)
        }),
{
    if h.end % 16 == 0 {
        assert((16 - h.end % 16) % 16 == 0);
    } else {
        assert((16 - h.end % 16) % 16 == 16 - h.end % 16);
    }
    let start = align_up(h.end, 16);
    let c = h.compressed_blocks_info_size as int;
    let p1 = if h.version >= 7 { start } else { h.end };
    let next = if h.flags.spec_blocks_info_at_the_end() { p1 } else { p1 + c };
    assert(next >= 0);
    if next % 16 == 0 {
        assert((16 - next % 16) % 16 == 0);
    } else {
        assert((16 - next % 16) % 16 == 16 - next % 16);
    }
}

/// A bundle's flags word: its low six bits give the compression of the block table,
/// bit 7 says the table is kept at the end of the file, and bit 9 that the data starts
/// on a multiple of 16.
pub proof fn lemma_archive_flag_bits(f: ArchiveFlags)
    ensures
        f.spec_compression_code() == f.bits % 64,
        f.spec_blocks_info_at_the_end() == ((f.bits / 128) % 2 == 1),
        f.spec_block_info_need_padding_at_start() == ((f.bits / 512) % 2 == 1),
{
    let b = f.bits;
    assert(b & 0x3f == b % 64) by (bit_vector);
    assert((b & 0x80 != 0) == ((b / 128) % 2 == 1)) by (bit_vector);
    assert((b & 0x200 != 0) == ((b / 512) % 2 == 1)) by (bit_vector);
}

/// Four bytes read most significant first.
pub open spec fn be32_at(buf: Seq<u8>, pos: int) -> int {
    buf[pos] * 0x100_0000 + buf[pos + 1] * 0x1_0000 + buf[pos + 2] * 0x100 + buf[pos + 3]
}

/// A bundle header starts with `UnityFS` and a NUL, then its format version as four
/// bytes most significant first; it ends with the two block table sizes and the flags,
/// each four bytes most significant first.
pub proof fn lemma_header_layout(buf: Seq<u8>)
    ensures
        spec_header_fields(buf) matches Ok(h) ==> {
            &&& buf.len() >= h.end >= 32
            &&& buf.subrange(0, 8) == seq![85u8, 110u8, 105u8, 116u8, 121u8, 70u8, 83u8, 0u8]
            &&& h.version as int == be32_at(buf, 8)
            &&& h.compressed_blocks_info_size as int == be32_at(buf, h.end - 12)
            &&& h.uncompressed_blocks_info_size as int == be32_at(buf, h.end - 8)
            &&& h.flags.bits as int == be32_at(buf, h.end - 4)
        },
{
    if let Ok(h) = spec_header_fields(buf) {
        lemma_nul_index_bounds(buf, 12);
        let (v, p1) = spec_null_string(buf, 12)->0;
        lemma_nul_index_bounds(buf, p1);
        assert(buf.subrange(0, 8) == unityfs_magic());
        assert(unityfs_magic() =~= seq![85u8, 110u8, 105u8, 116u8, 121u8, 70u8, 83u8, 0u8]);
    }
}

} // verus!
