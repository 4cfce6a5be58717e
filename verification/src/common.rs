//! Shared enumerations used across the file format.
use vstd::prelude::*;

verus! {

/// The format version a file was written with.
#[derive(Clone, Copy, Debug, PartialEq, Eq, Structural)]
pub struct FileVersion {
    pub major_version: u32,
    pub minor_version: u32,
}

/// Which implementation wrote the file.
#[derive(Clone, Copy, Debug, PartialEq, Eq, Structural)]
pub enum WriterId {
    OrcJavaWriter,
    OrcCppWriter,
    PrestoWriter,
    OrcRustWriter,
    UnknownWriter,
}

/// The block compression applied to the file's sections.
#[derive(Clone, Copy, Debug, PartialEq, Eq, Structural)]
pub enum CompressionKind {
    NoCompression,
    Zlib,
    Snappy,
    Lz0,
    Lz4,
    Zstd,
}

/// The writer fixes and capabilities a file depends on.
#[derive(Clone, Copy, Debug, PartialEq, Eq, Structural)]
pub enum WriterVersion {
    Original,
    Hive8732,
    Hive4243,
    Hive12055,
    Hive13083,
    Orc101,
    Orc135,
}

/// The role of one data stream within a stripe.
#[derive(Clone, Copy, Debug, PartialEq, Eq, Structural)]
pub enum StreamKind {
    Present,
    Data,
    Length,
    DictionaryData,
    DictionaryCount,
    Secondary,
    RowIndex,
    BloomFilter,
    BloomFilterUtf8,
}

/// How a column's values are encoded within its streams.
#[derive(Clone, Copy, Debug, PartialEq, Eq, Structural)]
pub enum ColumnEncodingKind {
    Direct,
    Dictionary,
    DirectV2,
    DictionaryV2,
}

/// Whether a file header begins with the magic bytes `O`, `R`, `C` that
/// identify the format. The caller supplies the bytes it read.
pub fn has_orc_magic(header: &Vec<u8>) -> (r: bool)
    ensures
        r == (header@.len() >= 3 && header@[0] == 79 && header@[1] == 82 && header@[2] == 67),
{
    header.len() >= 3 && header[0] == 79 && header[1] == 82 && header[2] == 67
}

/// Which bloom-filter streams a writer emits.
#[derive(Clone, Copy, Debug, PartialEq, Eq, Structural)]
pub enum BloomFilterVersion {
    /// Both the original and the UTF-8 streams, for old and new readers.
    Original,
    /// Only the streams that consistently use UTF-8.
    Utf8,
}

} // verus!
