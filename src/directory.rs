//! A sub-font's offset subtable and table directory.
use vstd::prelude::*;
use crate::bytes::{be_u16_at, be_u32_at, read_u16_be, read_u32_be};
use crate::error::SplitError;

verus! {

/// The fixed fields at the start of an sfnt font.  The three search hints
/// are carried through as they are, since the table count never changes.
#[derive(Debug, Clone, Copy, PartialEq, Eq, Structural)]
pub struct OffsetSubtable {
    pub sfnt_version: u32,
    pub num_tables: u16,
    pub search_range: u16,
    pub entry_selector: u16,
    pub range_shift: u16,
}

/// One entry of a table directory.  `offset` is where the table's bytes start
/// in the buffer the directory belongs to; `length` excludes any padding.
#[derive(Debug, Clone, Copy, PartialEq, Eq, Structural)]
pub struct TableRecord {
    pub tag: u32,
    pub checksum: u32,
    pub offset: u32,
    pub length: u32,
}

/// A sub-font's subtable with its table records, in the order they are stored.
#[derive(Debug)]
pub struct SubFontDirectory {
    pub header: OffsetSubtable,
    pub tables: Vec<TableRecord>,
}

impl SubFontDirectory {
    /// The record list is as long as the subtable's table count says.
    pub open spec fn wf(&self) -> bool {
        self.tables@.len() == self.header.num_tables as int
    }
}

/// Size of the offset subtable in bytes.
pub open spec fn subtable_size() -> int {
    12
}

/// Size of one table record in bytes.
pub open spec fn record_size() -> int {
    16
}

/// The offset subtable stored at `p`.
pub open spec fn subtable_at(d: Seq<u8>, p: int) -> OffsetSubtable {
    OffsetSubtable {
        sfnt_version: be_u32_at(d, p) as u32,
        num_tables: be_u16_at(d, p + 4) as u16,
        search_range: be_u16_at(d, p + 6) as u16,
        entry_selector: be_u16_at(d, p + 8) as u16,
        range_shift: be_u16_at(d, p + 10) as u16,
    }
}

/// The table record stored at `p`.
pub open spec fn record_at(d: Seq<u8>, p: int) -> TableRecord {
    TableRecord {
        tag: be_u32_at(d, p) as u32,
        checksum: be_u32_at(d, p + 4) as u32,
        offset: be_u32_at(d, p + 8) as u32,
        length: be_u32_at(d, p + 12) as u32,
    }
}

/// The subtable at `p` and all the records it announces lie within `d`.
pub open spec fn directory_fits(d: Seq<u8>, p: int) -> bool {
    &&& p + 12 <= d.len()
    &&& p + 12 + 16 * be_u16_at(d, p + 4) <= d.len()
}

/// The table records that the subtable at `p` announces, in stored order.
pub open spec fn directory_tables(d: Seq<u8>, p: int) -> Seq<TableRecord> {
    Seq::new(be_u16_at(d, p + 4) as nat, |i: int| record_at(d, p + 12 + 16 * i))
}

/// `dir` holds exactly the subtable and records stored at `p`, in order.
pub open spec fn directory_matches(dir: SubFontDirectory, d: Seq<u8>, p: int) -> bool {
    &&& dir.header == subtable_at(d, p)
    &&& dir.tables@.len() == dir.header.num_tables as int
    &&& forall|i: int|
        0 <= i < dir.tables@.len() ==> #[trigger] dir.tables@[i] == record_at(d, p + 12 + 16 * i)
}

/// Parses the offset subtable at `offset` and the table records after it.
pub fn read_directory(data: &[u8], offset: u32) -> (r: Result<SubFontDirectory, SplitError>)
    ensures
        r is Ok <==> directory_fits(data@, offset as int),
        r matches Err(e) ==> e == SplitError::TruncatedInput,
        r matches Ok(dir) ==> directory_matches(dir, data@, offset as int) && dir.wf()
            && dir.tables@ == directory_tables(data@, offset as int),
{
    let len = data.len() as u64;
    if offset as u64 + 12 > len {
        return Err(SplitError::TruncatedInput);
    }
    let p = offset as usize;
    let sfnt_version = match read_u32_be(data, p) {
        Some(v) => v,
        None => return Err(SplitError::TruncatedInput),
    };
    let num_tables = match read_u16_be(data, p + 4) {
        Some(v) => v,
        None => return Err(SplitError::TruncatedInput),
    };
    let search_range = match read_u16_be(data, p + 6) {
        Some(v) => v,
        None => return Err(SplitError::TruncatedInput),
    };
    let entry_selector = match read_u16_be(data, p + 8) {
        Some(v) => v,
        None => return Err(SplitError::TruncatedInput),
    };
    let range_shift = match read_u16_be(data, p + 10) {
        Some(v) => v,
        None => return Err(SplitError::TruncatedInput),
    };
    if offset as u64 + 12 + 16 * (num_tables as u64) > len {
        return Err(SplitError::TruncatedInput);
    }
    let header = OffsetSubtable { sfnt_version, num_tables, search_range, entry_selector, range_shift };
    let mut tables: Vec<TableRecord> = Vec::new();
    let total: usize = data.len();
    let mut i: u16 = 0;
    while i < num_tables
        invariant
            total == data@.len(),
            0 <= i <= num_tables,
            p == offset,
            num_tables as int == be_u16_at(data@, p + 4),
            p + 12 + 16 * num_tables <= data@.len(),
            tables@.len() == i,
            forall|j: int|
                0 <= j < i ==> #[trigger] tables@[j] == record_at(data@, p + 12 + 16 * j),
        decreases num_tables - i,
    {
        let at: usize = p + 12 + 16 * (i as usize);
        let tag = match read_u32_be(data, at) {
            Some(v) => v,
            None => return Err(SplitError::TruncatedInput),
        };
        let checksum = match read_u32_be(data, at + 4) {
            Some(v) => v,
            None => return Err(SplitError::TruncatedInput),
        };
        let table_offset = match read_u32_be(data, at + 8) {
            Some(v) => v,
            None => return Err(SplitError::TruncatedInput),
        };
        let length = match read_u32_be(data, at + 12) {
            Some(v) => v,
            None => return Err(SplitError::TruncatedInput),
        };
        tables.push(TableRecord { tag, checksum, offset: table_offset, length });
        i = i + 1;
    }
    assert(tables@ =~= directory_tables(data@, offset as int));
    Ok(SubFontDirectory { header, tables })
}

} // verus!
