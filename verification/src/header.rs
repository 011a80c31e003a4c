//! The 100-byte database file header and the per-page B-tree headers.

use vstd::prelude::*;
use crate::util::{read_be16, read_be32, spec_be16, spec_be32};

verus! {

/// Journal mode recorded in the file header.
#[derive(PartialEq, Eq, Structural, Debug, Clone, Copy)]
pub enum RWMode {
    Journal,
    WAL,
    NoMode,
}

/// The schema format number, constrained to 1 through 4.
#[derive(PartialEq, Eq, Structural, Debug, Clone, Copy)]
pub enum SchemaFormat {
    Format1,
    Format2,
    Format3,
    Format4,
}

/// The database text encoding, constrained to the three defined values.
#[derive(PartialEq, Eq, Structural, Debug, Clone, Copy)]
pub enum TextEncoding {
    UTF8,
    UTF16le,
    UTF16be,
}

/// What header or page-header parsing can report.
#[derive(PartialEq, Eq, Structural, Debug, Clone, Copy)]
pub enum HeaderError {
    /// The buffer ended before the field being read.
    ShortRead,
    /// The magic string or a constrained field does not match the format.
    InvalidFile,
    /// The three embedded-payload fractions differ from 64, 32, 32.
    InvalidFractionError,
    /// A nonzero incremental-vacuum flag with no largest root B-tree page.
    VacuumModeError,
    /// An undefined B-tree page type byte.
    BTreePageTypeError(u8),
}

/// The decoded database file header.
#[derive(PartialEq, Eq, Structural, Debug, Clone, Copy)]
pub struct Header {
    pub page_size: u32,
    pub write_version: RWMode,
    pub read_version: RWMode,
    pub reserved_size: RWMode,
    pub max_embedded_fraction: u8,
    pub min_embedded_fraction: u8,
    pub leaf_fraction: u8,
    pub file_change_counter: u32,
    pub size_in_pages: u32,
    pub first_freelist_page: u32,
    pub total_freelist: u32,
    pub schema_cookie: u32,
    pub schema_format_number: SchemaFormat,
    pub cache_size: u32,
    pub largest_root_btree_page: u32,
    pub text_encoding: TextEncoding,
    pub user_version: u32,
    pub incremental_vacuum: u32,
    pub version_valid_for: u32,
    pub sqlite_version: u32,
    pub application_id: u32,
}

/// The sixteen magic bytes "SQLite format 3" followed by a NUL.
pub open spec fn spec_magic() -> Seq<u8> {
    seq![
        0x53u8, 0x51, 0x4c, 0x69, 0x74, 0x65, 0x20, 0x66, 0x6f, 0x72, 0x6d, 0x61, 0x74, 0x20,
        0x33, 0x00,
    ]
}

/// The journal mode a version byte selects.
pub open spec fn spec_rw_mode(b: u8) -> RWMode {
    if b == 1 {
        RWMode::Journal
    } else if b == 2 {
        RWMode::WAL
    } else {
        RWMode::NoMode
    }
}

/// The schema format a field value selects, when defined.
pub open spec fn spec_schema_format(v: nat) -> Option<SchemaFormat> {
    if v == 1 {
        Some(SchemaFormat::Format1)
    } else if v == 2 {
        Some(SchemaFormat::Format2)
    } else if v == 3 {
        Some(SchemaFormat::Format3)
    } else if v == 4 {
        Some(SchemaFormat::Format4)
    } else {
        None
    }
}

/// The text encoding a field value selects, when defined.
pub open spec fn spec_text_encoding(v: nat) -> Option<TextEncoding> {
    if v == 1 {
        Some(TextEncoding::UTF8)
    } else if v == 2 {
        Some(TextEncoding::UTF16le)
    } else if v == 3 {
        Some(TextEncoding::UTF16be)
    } else {
        None
    }
}

/// What decoding the file header from `data` yields: the checks run in
/// the order the fields appear, and every field comes from its fixed
/// big-endian slot.
pub open spec fn spec_header(data: Seq<u8>) -> Result<Header, HeaderError> {
    if data.len() < 16 {
        Err(HeaderError::ShortRead)
    } else if data.subrange(0, 16) != spec_magic() {
        Err(HeaderError::InvalidFile)
    } else if data.len() < 24 {
        Err(HeaderError::ShortRead)
    } else if !(data[21] == 64 && data[22] == 32 && data[23] == 32) {
        Err(HeaderError::InvalidFractionError)
    } else if data.len() < 100 {
        Err(HeaderError::ShortRead)
    } else if spec_schema_format(spec_be32(data, 44)) is None {
        Err(HeaderError::InvalidFile)
    } else if spec_text_encoding(spec_be32(data, 56)) is None {
        Err(HeaderError::InvalidFile)
    } else if spec_be32(data, 52) == 0 && spec_be32(data, 64) != 0 {
        Err(HeaderError::VacuumModeError)
    } else {
        Ok(
            Header {
                page_size: if spec_be32(data, 96) >= 3007001 && spec_be16(data, 16) == 1 {
                    65536
                } else {
                    spec_be16(data, 16) as u32
                },
                write_version: spec_rw_mode(data[18]),
                read_version: spec_rw_mode(data[19]),
                reserved_size: RWMode::NoMode,
                max_embedded_fraction: 64,
                min_embedded_fraction: 32,
                leaf_fraction: 32,
                file_change_counter: spec_be32(data, 24) as u32,
                size_in_pages: if spec_be32(data, 92) == spec_be32(data, 24) {
                    spec_be32(data, 28) as u32
                } else {
                    0
                },
                first_freelist_page: spec_be32(data, 32) as u32,
                total_freelist: spec_be32(data, 36) as u32,
                schema_cookie: spec_be32(data, 40) as u32,
                schema_format_number: spec_schema_format(spec_be32(data, 44)).unwrap(),
                cache_size: spec_be32(data, 48) as u32,
                largest_root_btree_page: spec_be32(data, 52) as u32,
                text_encoding: spec_text_encoding(spec_be32(data, 56)).unwrap(),
                user_version: spec_be32(data, 60) as u32,
                incremental_vacuum: spec_be32(data, 64) as u32,
                version_valid_for: spec_be32(data, 92) as u32,
                sqlite_version: spec_be32(data, 96) as u32,
                application_id: spec_be32(data, 68) as u32,
            },
        )
    }
}

/// A buffer whose first sixteen bytes differ from the magic string is
/// rejected as an invalid file.
pub proof fn lemma_header_rejects_bad_magic(data: Seq<u8>)
    requires
        data.len() >= 16,
        data.subrange(0, 16) != spec_magic(),
    ensures
        spec_header(data) == Err::<Header, HeaderError>(HeaderError::InvalidFile),
{
}

/// A buffer with the right magic whose embedded-payload fractions differ
/// from 64, 32, 32 is rejected for its fractions.
pub proof fn lemma_header_rejects_bad_fractions(data: Seq<u8>)
    requires
        data.len() >= 24,
        data.subrange(0, 16) == spec_magic(),
        !(data[21] == 64 && data[22] == 32 && data[23] == 32),
    ensures
        spec_header(data) == Err::<Header, HeaderError>(HeaderError::InvalidFractionError),
{
}

impl Header {
    /// Decodes the file header from the first 100 bytes of `data`.
    pub fn new(data: &[u8]) -> (r: Result<Header, HeaderError>)
        ensures
            r == spec_header(data@),
    {
        if data.len() < 16 {
            return Err(HeaderError::ShortRead);
        }
        let magic: [u8; 16] = [
            0x53, 0x51, 0x4c, 0x69, 0x74, 0x65, 0x20, 0x66, 0x6f, 0x72, 0x6d, 0x61, 0x74, 0x20,
            0x33, 0x00,
        ];
        let mut i: usize = 0;
        while i < 16
            invariant
                i <= 16,
                data@.len() >= 16,
                magic@ == spec_magic(),
                forall|j: int| 0 <= j < i ==> data@[j] == spec_magic()[j],
            decreases 16 - i,
        {
            if data[i] != magic[i] {
                proof {
                    assert(data@.subrange(0, 16)[i as int] != spec_magic()[i as int]);
                }
                return Err(HeaderError::InvalidFile);
            }
            i += 1;
        }
        proof {
            assert(data@.subrange(0, 16) =~= spec_magic());
        }
        if data.len() < 24 {
            return Err(HeaderError::ShortRead);
        }
        if !(data[21] == 64 && data[22] == 32 && data[23] == 32) {
            return Err(HeaderError::InvalidFractionError);
        }
        if data.len() < 100 {
            return Err(HeaderError::ShortRead);
        }
        let schema_format = match read_be32(data, 44) {
            1 => SchemaFormat::Format1,
            2 => SchemaFormat::Format2,
            3 => SchemaFormat::Format3,
            4 => SchemaFormat::Format4,
            _ => {
                return Err(HeaderError::InvalidFile);
            },
        };
        let text_encoding = match read_be32(data, 56) {
            1 => TextEncoding::UTF8,
            2 => TextEncoding::UTF16le,
            3 => TextEncoding::UTF16be,
            _ => {
                return Err(HeaderError::InvalidFile);
            },
        };
        let largest_root_btree = read_be32(data, 52);
        let vacuum_mode = read_be32(data, 64);
        if largest_root_btree == 0 && vacuum_mode != 0 {
            return Err(HeaderError::VacuumModeError);
        }
        let page_size_raw = read_be16(data, 16);
        let sqlite_version = read_be32(data, 96);
        let change_counter = read_be32(data, 24);
        let version_valid_for = read_be32(data, 92);
        Ok(
            Header {
                page_size: if sqlite_version >= 3007001 && page_size_raw == 1 {
                    65536
                } else {
                    page_size_raw as u32
                },
                write_version: rw_mode_of(data[18]),
                read_version: rw_mode_of(data[19]),
                reserved_size: RWMode::NoMode,
                max_embedded_fraction: 64,
                min_embedded_fraction: 32,
                leaf_fraction: 32,
                file_change_counter: change_counter,
                size_in_pages: if version_valid_for == change_counter {
                    read_be32(data, 28)
                } else {
                    0
                },
                first_freelist_page: read_be32(data, 32),
                total_freelist: read_be32(data, 36),
                schema_cookie: read_be32(data, 40),
                schema_format_number: schema_format,
                cache_size: read_be32(data, 48),
                largest_root_btree_page: largest_root_btree,
                text_encoding,
                user_version: read_be32(data, 60),
                incremental_vacuum: vacuum_mode,
                version_valid_for,
                sqlite_version,
                application_id: read_be32(data, 68),
            },
        )
    }
}

/// The journal mode a version byte selects.
fn rw_mode_of(b: u8) -> (r: RWMode)
    ensures
        r == spec_rw_mode(b),
{
    match b {
        1 => RWMode::Journal,
        2 => RWMode::WAL,
        _ => RWMode::NoMode,
    }
}

/// The four B-tree page kinds the format defines.
#[derive(PartialEq, Eq, Structural, Debug, Clone, Copy)]
pub enum BTreePageType {
    InteriorIndex,
    InteriorTable,
    LeafIndex,
    LeafTable,
}

/// The page type a type byte selects, when defined.
pub open spec fn spec_page_type(b: u8) -> Option<BTreePageType> {
    if b == 2 {
        Some(BTreePageType::InteriorIndex)
    } else if b == 5 {
        Some(BTreePageType::InteriorTable)
    } else if b == 10 {
        Some(BTreePageType::LeafIndex)
    } else if b == 13 {
        Some(BTreePageType::LeafTable)
    } else {
        None
    }
}

impl BTreePageType {
    /// Maps a page type byte to its page kind, rejecting undefined bytes.
    pub fn try_from_byte(value: u8) -> (r: Result<BTreePageType, HeaderError>)
        ensures
            match r {
                Ok(t) => spec_page_type(value) == Some(t),
                Err(e) => spec_page_type(value) is None && e
                    == HeaderError::BTreePageTypeError(value),
            },
    {
        match value {
            2 => Ok(BTreePageType::InteriorIndex),
            5 => Ok(BTreePageType::InteriorTable),
            10 => Ok(BTreePageType::LeafIndex),
            13 => Ok(BTreePageType::LeafTable),
            _ => Err(HeaderError::BTreePageTypeError(value)),
        }
    }

    /// Whether this is one of the two interior page kinds.
    pub open spec fn spec_is_interior(self) -> bool {
        self == BTreePageType::InteriorIndex || self == BTreePageType::InteriorTable
    }
}

/// The decoded header of one B-tree page.
#[derive(PartialEq, Eq, Structural, Debug, Clone, Copy)]
pub struct BTreeHeader {
    pub page_type: BTreePageType,
    /// Zero when the page has no freeblocks.
    pub freeblock_start: u16,
    pub cell_count: u16,
    /// Held as 32 bits because a stored zero means 65536.
    pub cell_start: u32,
    /// Fragmented free bytes within the cell content area.
    pub fragments: u8,
    /// The right-most child pointer, present only on interior pages.
    pub right_ptr: Option<u32>,
}

/// What decoding a B-tree page header from the start of `data` yields:
/// eight bytes for a leaf page, twelve for an interior page.
pub open spec fn spec_btree_header(data: Seq<u8>) -> Result<BTreeHeader, HeaderError> {
    if data.len() < 1 {
        Err(HeaderError::ShortRead)
    } else if spec_page_type(data[0]) is None {
        Err(HeaderError::BTreePageTypeError(data[0]))
    } else {
        let t = spec_page_type(data[0]).unwrap();
        if data.len() < 8 {
            Err(HeaderError::ShortRead)
        } else if t.spec_is_interior() && data.len() < 12 {
            Err(HeaderError::ShortRead)
        } else {
            Ok(
                BTreeHeader {
                    page_type: t,
                    freeblock_start: spec_be16(data, 1) as u16,
                    cell_count: spec_be16(data, 3) as u16,
                    cell_start: if spec_be16(data, 5) == 0 {
                        0x10000
                    } else {
                        spec_be16(data, 5) as u32
                    },
                    fragments: data[7],
                    right_ptr: if t.spec_is_interior() {
                        Some(spec_be32(data, 8) as u32)
                    } else {
                        None
                    },
                },
            )
        }
    }
}

impl BTreeHeader {
    /// Decodes the B-tree page header found at the start of `data`.
    pub fn new(data: &[u8]) -> (r: Result<BTreeHeader, HeaderError>)
        ensures
            r == spec_btree_header(data@),
    {
        if data.len() < 1 {
            return Err(HeaderError::ShortRead);
        }
        let page_type = BTreePageType::try_from_byte(data[0])?;
        let interior = matches!(page_type, BTreePageType::InteriorIndex
            | BTreePageType::InteriorTable);
        if data.len() < 8 {
            return Err(HeaderError::ShortRead);
        }
        if interior && data.len() < 12 {
            return Err(HeaderError::ShortRead);
        }
        let cell_start_raw = read_be16(data, 5);
        Ok(
            BTreeHeader {
                page_type,
                freeblock_start: read_be16(data, 1),
                cell_count: read_be16(data, 3),
                cell_start: if cell_start_raw == 0 {
                    0x10000
                } else {
                    cell_start_raw as u32
                },
                fragments: data[7],
                right_ptr: if interior {
                    Some(read_be32(data, 8))
                } else {
                    None
                },
            },
        )
    }
}

} // verus!
