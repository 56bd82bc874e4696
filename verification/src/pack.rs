//! Packing: content hashes, the plan by which an asset is cut and stored, and its recipe.
use assetpack_core::{FileHint, Hash32, Pipeline, PipelineConfig};
use vstd::prelude::*;

use crate::text::{decimal, lower};

verus! {

/// A failure of the vault.
#[derive(Clone, Debug, PartialEq, Eq)]
pub enum VaultError {
    /// A refusal of the packer, with its message.
    Pack(String),
}

impl VaultError {
    /// The message that a failure carries.
    pub open spec fn text(&self) -> Seq<char> {
        match *self {
            VaultError::Pack(message) => message@,
        }
    }

    /// The message of this failure.
    pub fn message(&self) -> (r: String)
        ensures
            r@ == self.text(),
    {
        match self {
            VaultError::Pack(message) => message.clone(),
        }
    }
}

/// How the bytes of an object are stored.
#[derive(Clone, Copy, Debug, PartialEq, Eq)]
pub enum Codec {
    Raw,
    Zstd,
    Brotli,
}

/// One piece of an asset.
#[derive(Clone, Debug, PartialEq, Eq)]
pub struct Chunk {
    /// The content hash of the piece.
    pub hash: [u8; 32],
    /// The length of the piece.
    pub raw_len: u32,
    /// How it is stored.
    pub codec: Codec,
    /// The bytes that are stored.
    pub payload: Option<Vec<u8>>,
}

/// How an asset is cut and stored.
#[derive(Clone, Debug, PartialEq, Eq)]
pub struct Plan {
    pub transform_id: u16,
    pub transform_version: u16,
    pub original_size: u64,
    pub chunks: Vec<Chunk>,
}

/// The error type of the packer.
#[verifier::external_type_specification]
#[verifier::external_body]
pub struct ExPackError(assetpack_core::Error);

/// The message of an error of the packer.
pub uninterp spec fn pack_message(error: assetpack_core::Error) -> Seq<char>;

/// The `Display` of `assetpack_core::Error` writes its message.
#[verifier::external_body]
pub(crate) fn write_pack_error(error: &assetpack_core::Error) -> (r: String)
    ensures
        r@ == pack_message(*error),
{
    error.to_string()
}

/// The SHA3-256 digest of bytes.
pub uninterp spec fn sha3_256(data: Seq<u8>) -> Seq<u8>;

/// `assetpack_core::Hash32::sha3_256` gives the SHA3-256 digest of bytes, 32 bytes long.
#[verifier::external_body]
pub(crate) fn content_hash(data: &Vec<u8>) -> (r: [u8; 32])
    ensures
        r@ == sha3_256(data@),
{
    Hash32::sha3_256(data).0
}

/// The digit of a number below sixteen.
pub open spec fn hex_digit(n: int) -> char {
    if n < 10 {
        ('0' as u32 + n) as char
    } else {
        ('a' as u32 + (n - 10)) as char
    }
}

/// The two digits of a byte.
pub open spec fn hex_byte(b: u8) -> Seq<char> {
    seq![hex_digit(b as int / 16), hex_digit(b as int % 16)]
}

/// Bytes in lower case hexadecimal notation.
pub open spec fn hex_text(bytes: Seq<u8>) -> Seq<char>
    decreases bytes.len(),
{
    if bytes.len() == 0 {
        Seq::empty()
    } else {
        hex_text(bytes.drop_last()) + hex_byte(bytes.last())
    }
}

/// The number that a hexadecimal digit of either case stands for.
pub open spec fn digit_value(c: char) -> Option<int> {
    if '0' <= c <= '9' {
        Some(c as int - '0' as int)
    } else if 'a' <= c <= 'f' {
        Some(c as int - 'a' as int + 10)
    } else if 'A' <= c <= 'F' {
        Some(c as int - 'A' as int + 10)
    } else {
        None
    }
}

/// The bytes that a hexadecimal notation stands for.
pub open spec fn hex_bytes(s: Seq<char>) -> Option<Seq<u8>>
    decreases s.len(),
{
    if s.len() == 0 {
        Some(Seq::empty())
    } else if s.len() == 1 {
        None
    } else {
        match (
            hex_bytes(s.take(s.len() - 2)),
            digit_value(s[s.len() - 2]),
            digit_value(s[s.len() - 1]),
        ) {
            (Some(front), Some(high), Some(low)) => Some(front.push((16 * high + low) as u8)),
            _ => None,
        }
    }
}

/// `assetpack_core::Hash32::to_hex` writes a hash in lower case hexadecimal notation.
#[verifier::external_body]
pub(crate) fn hash_hex(hash: &[u8; 32]) -> (r: String)
    ensures
        r@ == hex_text(hash@),
{
    Hash32(*hash).to_hex()
}

/// The hash that a hexadecimal notation stands for, or why it stands for none.
pub open spec fn parsed_hash(s: Seq<char>) -> Result<Seq<u8>, Seq<char>> {
    match hex_bytes(s) {
        None => Err("invalid hex encoding: "@ + s),
        Some(bytes) => if bytes.len() == 32 {
            Ok(bytes)
        } else {
            Err("invalid hash length: "@ + decimal(bytes.len() as int) + ", expected 32 bytes"@)
        },
    }
}

/// `assetpack_core::Hash32::from_hex` reads a hash in hexadecimal notation of either case.
#[verifier::external_body]
pub(crate) fn parse_hash(s: &str) -> (r: Result<[u8; 32], assetpack_core::Error>)
    ensures
        match r {
            Ok(hash) => parsed_hash(s@) == Ok::<_, Seq<char>>(hash@),
            Err(e) => parsed_hash(s@) == Err::<Seq<u8>, _>(pack_message(e)),
        },
{
    Ok(Hash32::from_hex(s)?.0)
}

/// The bytes that `assetpack_core::decompress` makes of stored bytes.
pub uninterp spec fn unpacked(codec: Codec, stored: Seq<u8>) -> Seq<u8>;

/// A name extension of files that are compressed already.
pub open spec fn compressed_extension(extension: Seq<char>) -> bool {
    let e = lower(extension);
    ||| e == "jpg"@
    ||| e == "jpeg"@
    ||| e == "png"@
    ||| e == "webp"@
    ||| e == "zip"@
    ||| e == "epub"@
    ||| e == "gz"@
    ||| e == "tgz"@
    ||| e == "bz2"@
    ||| e == "xz"@
    ||| e == "br"@
    ||| e == "zst"@
    ||| e == "mp4"@
    ||| e == "mov"@
}

/// A chunk describes a piece of data: by its hash and its length, and it carries its bytes.
pub open spec fn describes(chunk: Chunk, piece: Seq<u8>) -> bool {
    &&& chunk.payload is Some
    &&& chunk.hash@ == sha3_256(piece)
    &&& chunk.raw_len == piece.len()
    &&& chunk.codec is Raw ==> chunk.payload->Some_0@ == piece
}

/// The piece of data that a chunk carries.
pub open spec fn piece(chunk: Chunk) -> Seq<u8> {
    unpacked(chunk.codec, chunk.payload->Some_0@)
}

/// The pieces of data that chunks carry.
pub open spec fn pieces(chunks: Seq<Chunk>) -> Seq<Seq<u8>> {
    chunks.map_values(|chunk: Chunk| piece(chunk))
}

/// Every chunk describes the piece that it carries.
pub open spec fn all_described(chunks: Seq<Chunk>) -> bool {
    forall|i: int|
        0 <= i < chunks.len() ==> describes(#[trigger] chunks[i], piece(chunks[i]))
}

/// The data is compressed already, as its extension tells.
pub open spec fn known_compressed(extension: Option<Seq<char>>) -> bool {
    match extension {
        Some(e) => compressed_extension(e),
        None => false,
    }
}

/// What an extension that may be missing stands for.
pub open spec fn extension_text(extension: Option<String>) -> Option<Seq<char>> {
    match extension {
        Some(e) => Some(e@),
        None => None,
    }
}

/// The pieces that `assetpack_core::FastCdcSplitter::split_bytes` cuts data into, with its default
/// sizes.
pub uninterp spec fn cut_pieces(data: Seq<u8>) -> Seq<Seq<u8>>;

/// Whether `assetpack_core::Pipeline::run` can fail on data with a message. It is no function of
/// the data: the codec is chosen by logarithms, which no two machines need to round alike.
pub uninterp spec fn can_fail(
    data: Seq<u8>,
    extension: Option<Seq<char>>,
    message: Seq<char>,
) -> bool;

/// What holds of every plan for data: it goes without a transformation, its chunks carry the
/// pieces that the data is cut into, and they carry them as they are where the data is compressed
/// already.
pub open spec fn plan_for(plan: Plan, data: Seq<u8>, extension: Option<Seq<char>>) -> bool {
    &&& plan.transform_id == 0
    &&& plan.transform_version == 0
    &&& plan.original_size == data.len()
    &&& pieces(plan.chunks@) == cut_pieces(data)
    &&& cut_pieces(data).flatten() == data
    &&& known_compressed(extension) ==> forall|i: int|
        0 <= i < plan.chunks@.len() ==> (#[trigger] plan.chunks@[i]).codec is Raw
}

/// `assetpack_core::Pipeline::run`, with the default configuration and without a choice of
/// transformations, cuts data into pieces and packs each. Empty data and data that is compressed
/// already do not fail. Left unsaid are the choice of a codec and whether a compressor fails.
#[verifier::external_body]
pub(crate) fn plan_asset(data: Vec<u8>, extension: Option<String>, size: u64, hash: [u8; 32]) -> (r:
    Result<Plan, assetpack_core::Error>)
    ensures
        match r {
            Ok(plan) => {
                &&& plan_for(plan, data@, extension_text(extension))
                &&& pieces(plan.chunks@) == cut_pieces(data@)
            },
            Err(e) => {
                &&& data@.len() > 0 && !known_compressed(extension_text(extension))
                &&& can_fail(data@, extension_text(extension), pack_message(e))
            },
        },
        match r {
            Ok(plan) => forall|i: int|
                0 <= i < plan.chunks@.len() ==> describes(
                    #[trigger] plan.chunks@[i],
                    unpacked(plan.chunks@[i].codec, plan.chunks@[i].payload->Some_0@),
                ),
            Err(_) => true,
        },
{
    let hint = FileHint { size, extension, head: None };
    let plan = Pipeline::new(PipelineConfig::default()).run(data, &hint, Hash32(hash), None)?;
    let open = |chunk: assetpack_core::ChunkPlan| Chunk {
        hash: chunk.hash.0,
        raw_len: chunk.raw_len,
        codec: match chunk.codec {
            assetpack_core::Codec::Raw => Codec::Raw,
            assetpack_core::Codec::Zstd => Codec::Zstd,
            assetpack_core::Codec::Brotli => Codec::Brotli,
        },
        payload: chunk.payload,
    };
    let (transform_id, transform_version) = (plan.transform_id, plan.transform_version);
    let chunks = plan.chunks.into_iter().map(open).collect();
    Ok(Plan { transform_id, transform_version, original_size: plan.original_size, chunks })
}

/// The lowest `width` bytes of a number, the lowest first.
pub open spec fn le_bytes(n: nat, width: nat) -> Seq<u8>
    decreases width,
{
    if width == 0 {
        Seq::empty()
    } else {
        seq![(n % 256) as u8] + le_bytes(n / 256, (width - 1) as nat)
    }
}

/// The line of a recipe for one chunk: its hash and its length.
pub open spec fn recipe_line(chunk: (Seq<u8>, u32)) -> Seq<u8> {
    chunk.0 + le_bytes(chunk.1 as nat, 4)
}

/// The lines of a recipe.
pub open spec fn recipe_lines(chunks: Seq<(Seq<u8>, u32)>) -> Seq<u8>
    decreases chunks.len(),
{
    if chunks.len() == 0 {
        Seq::empty()
    } else {
        recipe_lines(chunks.drop_last()) + recipe_line(chunks.last())
    }
}

/// A recipe: the version of its format, the size and the hash of the asset, the transformation
/// that it went through, and its chunks.
pub open spec fn recipe_bytes(
    original_size: u64,
    chunks: Seq<(Seq<u8>, u32)>,
    file_hash: Seq<u8>,
    transform_id: u16,
    transform_version: u16,
) -> Seq<u8> {
    seq![3u8] + le_bytes(original_size as nat, 8) + file_hash + le_bytes(transform_id as nat, 2)
        + le_bytes(transform_version as nat, 2) + le_bytes(chunks.len(), 4) + recipe_lines(chunks)
}

/// The hashes and lengths that a list of chunks stands for.
pub open spec fn hash_lines(chunks: Seq<([u8; 32], u32)>) -> Seq<(Seq<u8>, u32)> {
    chunks.map_values(|c: ([u8; 32], u32)| (c.0@, c.1))
}

/// `assetpack_core::build_recipe` writes a recipe in the third version of its format.
#[verifier::external_body]
pub(crate) fn write_recipe(
    original_size: u64,
    chunks: Vec<([u8; 32], u32)>,
    file_hash: [u8; 32],
    transform_id: u16,
    transform_version: u16,
) -> (r: Vec<u8>)
    ensures
        r@ == recipe_bytes(
            original_size,
            hash_lines(chunks@),
            file_hash@,
            transform_id,
            transform_version,
        ),
{
    let list: Vec<(Hash32, u32)> = chunks.into_iter().map(|(h, n)| (Hash32(h), n)).collect();
    let hash = Hash32(file_hash);
    assetpack_core::build_recipe(original_size, &list, hash, transform_id, transform_version)
}

} // verus!
