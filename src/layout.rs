//! Where each table goes in a rebuilt single font, and which bytes make it up.
use vstd::prelude::*;
use crate::bytes::{u16_bytes, u32_bytes};
use crate::directory::{OffsetSubtable, TableRecord};

verus! {

/// Zero bytes appended after a table of `length` bytes so the next one starts
/// on a four-byte boundary.
pub open spec fn padding_of(length: u32) -> int {
    (4 - length as int % 4) % 4
}

/// A table's length with its padding.
pub open spec fn padded_len(length: u32) -> int {
    length as int + padding_of(length)
}

/// Where the `i`-th table starts in the rebuilt font: after the subtable, the
/// directory and the padded tables before it.
pub open spec fn table_start(tables: Seq<TableRecord>, i: int) -> int
    decreases i,
{
    if i <= 0 {
        12 + 16 * tables.len() as int
    } else {
        table_start(tables, i - 1) + padded_len(tables[i - 1].length)
    }
}

/// Size of the rebuilt font in bytes.
pub open spec fn font_size(tables: Seq<TableRecord>) -> int {
    table_start(tables, tables.len() as int)
}

/// The table's bytes lie within the source.
pub open spec fn table_in_source(d: Seq<u8>, t: TableRecord) -> bool {
    t.offset as int + t.length as int <= d.len()
}

/// Every table's bytes lie within the source.
pub open spec fn tables_in_source(d: Seq<u8>, tables: Seq<TableRecord>) -> bool {
    forall|i: int| 0 <= i < tables.len() ==> #[trigger] table_in_source(d, tables[i])
}

/// The rebuilt font is small enough for every position in it to be a 32-bit offset.
pub open spec fn fits_in_u32_offsets(tables: Seq<TableRecord>) -> bool {
    font_size(tables) <= u32::MAX as int
}

/// The `i`-th record as it stands in the rebuilt font: only the offset changes.
pub open spec fn relocated(tables: Seq<TableRecord>, i: int) -> TableRecord {
    TableRecord { offset: table_start(tables, i) as u32, ..tables[i] }
}

/// `n` zero bytes.
pub open spec fn zeros(n: int) -> Seq<u8> {
    Seq::new(n as nat, |k: int| 0u8)
}

/// The stored form of an offset subtable.
pub open spec fn subtable_bytes(h: OffsetSubtable) -> Seq<u8> {
    u32_bytes(h.sfnt_version) + u16_bytes(h.num_tables) + u16_bytes(h.search_range) + u16_bytes(
        h.entry_selector,
    ) + u16_bytes(h.range_shift)
}

/// The stored form of a table record.
pub open spec fn record_bytes(r: TableRecord) -> Seq<u8> {
    u32_bytes(r.tag) + u32_bytes(r.checksum) + u32_bytes(r.offset) + u32_bytes(r.length)
}

/// The rebuilt directory's first `k` records.
pub open spec fn directory_bytes(tables: Seq<TableRecord>, k: int) -> Seq<u8>
    decreases k,
{
    if k <= 0 {
        Seq::empty()
    } else {
        directory_bytes(tables, k - 1) + record_bytes(relocated(tables, k - 1))
    }
}

/// One table's bytes taken from the source, followed by its padding.
pub open spec fn table_bytes(d: Seq<u8>, t: TableRecord) -> Seq<u8> {
    d.subrange(t.offset as int, t.offset as int + t.length as int) + zeros(padding_of(t.length))
}

/// The first `k` tables' padded bytes, one after another.
pub open spec fn tables_bytes(d: Seq<u8>, tables: Seq<TableRecord>, k: int) -> Seq<u8>
    decreases k,
{
    if k <= 0 {
        Seq::empty()
    } else {
        tables_bytes(d, tables, k - 1) + table_bytes(d, tables[k - 1])
    }
}

/// The whole rebuilt font: subtable, directory, then the padded tables.
pub open spec fn font_bytes(d: Seq<u8>, h: OffsetSubtable, tables: Seq<TableRecord>) -> Seq<u8> {
    subtable_bytes(h) + directory_bytes(tables, tables.len() as int) + tables_bytes(
        d,
        tables,
        tables.len() as int,
    )
}

/// Table starts never decrease.
pub proof fn lemma_table_start_monotone(tables: Seq<TableRecord>, i: int, j: int)
    requires
        0 <= i <= j <= tables.len(),
    ensures
        table_start(tables, i) <= table_start(tables, j),
    decreases j - i,
{
    if i < j {
        lemma_table_start_monotone(tables, i, j - 1);
    }
}

} // verus!
