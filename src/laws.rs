//! What holds of every rebuilt font: its directory reads back as the source's
//! with new offsets, each table's bytes are the source's, and tables are aligned.
use vstd::prelude::*;
use crate::bytes::{be_u16_at, lemma_u16_bytes_read, lemma_u32_bytes_read, u16_bytes, u32_bytes};
use crate::directory::{OffsetSubtable, TableRecord, record_at, subtable_at};
use crate::layout::{
    directory_bytes, fits_in_u32_offsets, font_bytes, font_size, lemma_table_start_monotone,
    padded_len, record_bytes, relocated, subtable_bytes, table_bytes, table_start,
    tables_bytes, tables_in_source, table_in_source,
};

verus! {

proof fn lemma_part(s: Seq<u8>, p: int, whole: Seq<u8>, lo: int, hi: int)
    requires
        0 <= p,
        p + whole.len() <= s.len(),
        s.subrange(p, p + whole.len()) == whole,
        0 <= lo <= hi <= whole.len(),
    ensures
        s.subrange(p + lo, p + hi) == whole.subrange(lo, hi),
{
    assert forall|j: int| 0 <= j < hi - lo implies s.subrange(p + lo, p + hi)[j] == whole.subrange(
        lo,
        hi,
    )[j] by {
        assert(s.subrange(p, p + whole.len())[lo + j] == whole[lo + j]);
    }
    assert(s.subrange(p + lo, p + hi) =~= whole.subrange(lo, hi));
}

proof fn lemma_record_read(s: Seq<u8>, p: int, r: TableRecord)
    requires
        0 <= p,
        p + 16 <= s.len(),
        s.subrange(p, p + 16) == record_bytes(r),
    ensures
        record_at(s, p) == r,
{
    let b = record_bytes(r);
    assert(b.subrange(0, 4) =~= u32_bytes(r.tag));
    assert(b.subrange(4, 8) =~= u32_bytes(r.checksum));
    assert(b.subrange(8, 12) =~= u32_bytes(r.offset));
    assert(b.subrange(12, 16) =~= u32_bytes(r.length));
    lemma_part(s, p, b, 0, 4);
    lemma_part(s, p, b, 4, 8);
    lemma_part(s, p, b, 8, 12);
    lemma_part(s, p, b, 12, 16);
    lemma_u32_bytes_read(s, p, r.tag);
    lemma_u32_bytes_read(s, p + 4, r.checksum);
    lemma_u32_bytes_read(s, p + 8, r.offset);
    lemma_u32_bytes_read(s, p + 12, r.length);
}

proof fn lemma_subtable_read(s: Seq<u8>, h: OffsetSubtable)
    requires
        12 <= s.len(),
        s.subrange(0, 12) == subtable_bytes(h),
    ensures
        subtable_at(s, 0) == h,
{
    let b = subtable_bytes(h);
    assert(b.subrange(0, 4) =~= u32_bytes(h.sfnt_version));
    assert(b.subrange(4, 6) =~= u16_bytes(h.num_tables));
    assert(b.subrange(6, 8) =~= u16_bytes(h.search_range));
    assert(b.subrange(8, 10) =~= u16_bytes(h.entry_selector));
    assert(b.subrange(10, 12) =~= u16_bytes(h.range_shift));
    lemma_part(s, 0, b, 0, 4);
    lemma_part(s, 0, b, 4, 6);
    lemma_part(s, 0, b, 6, 8);
    lemma_part(s, 0, b, 8, 10);
    lemma_part(s, 0, b, 10, 12);
    lemma_u32_bytes_read(s, 0, h.sfnt_version);
    lemma_u16_bytes_read(s, 4, h.num_tables);
    lemma_u16_bytes_read(s, 6, h.search_range);
    lemma_u16_bytes_read(s, 8, h.entry_selector);
    lemma_u16_bytes_read(s, 10, h.range_shift);
}

proof fn lemma_directory_bytes(tables: Seq<TableRecord>, k: int, i: int)
    requires
        0 <= i < k,
    ensures
        directory_bytes(tables, k).len() == 16 * k,
        directory_bytes(tables, k).subrange(16 * i, 16 * i + 16) == record_bytes(relocated(tables, i)),
    decreases k,
{
    lemma_directory_len(tables, k - 1);
    if i < k - 1 {
        lemma_directory_bytes(tables, k - 1, i);
        assert(directory_bytes(tables, k).subrange(16 * i, 16 * i + 16) =~= directory_bytes(
            tables,
            k - 1,
        ).subrange(16 * i, 16 * i + 16));
    } else {
        assert(directory_bytes(tables, k).subrange(16 * i, 16 * i + 16) =~= record_bytes(
            relocated(tables, i),
        ));
    }
}

proof fn lemma_directory_len(tables: Seq<TableRecord>, k: int)
    requires
        0 <= k,
    ensures
        directory_bytes(tables, k).len() == 16 * k,
    decreases k,
{
    if k > 0 {
        lemma_directory_len(tables, k - 1);
    }
}

proof fn lemma_tables_len(d: Seq<u8>, tables: Seq<TableRecord>, k: int)
    requires
        0 <= k <= tables.len(),
        tables_in_source(d, tables),
    ensures
        tables_bytes(d, tables, k).len() == table_start(tables, k) - table_start(tables, 0),
    decreases k,
{
    if k > 0 {
        lemma_tables_len(d, tables, k - 1);
        assert(table_in_source(d, tables[k - 1]));
    }
}

proof fn lemma_tables_bytes(d: Seq<u8>, tables: Seq<TableRecord>, k: int, i: int)
    requires
        0 <= i < k <= tables.len(),
        tables_in_source(d, tables),
    ensures
        ({
            let base = table_start(tables, 0);
            let t = tables[i];
            tables_bytes(d, tables, k).subrange(
                table_start(tables, i) - base,
                table_start(tables, i) - base + t.length,
            ) == d.subrange(t.offset as int, t.offset + t.length)
        }),
    decreases k,
{
    let base = table_start(tables, 0);
    let t = tables[i];
    let lo = table_start(tables, i) - base;
    lemma_tables_len(d, tables, k - 1);
    lemma_table_start_monotone(tables, 0, i);
    assert(table_in_source(d, t));
    if i < k - 1 {
        lemma_table_start_monotone(tables, i + 1, k - 1);
        lemma_tables_bytes(d, tables, k - 1, i);
        assert(tables_bytes(d, tables, k).subrange(lo, lo + t.length) =~= tables_bytes(
            d,
            tables,
            k - 1,
        ).subrange(lo, lo + t.length));
    } else {
        assert(tables_bytes(d, tables, k).subrange(lo, lo + t.length) =~= table_bytes(d, t).subrange(
            0,
            t.length as int,
        ));
    }
}

/// Every table start in the rebuilt font is a multiple of four.
pub proof fn lemma_table_start_aligned(tables: Seq<TableRecord>, i: int)
    requires
        0 <= i <= tables.len(),
    ensures
        table_start(tables, i) % 4 == 0,
    decreases i,
{
    if i > 0 {
        lemma_table_start_aligned(tables, i - 1);
        assert(padded_len(tables[i - 1].length) % 4 == 0);
    }
}

/// The rebuilt font begins with the source's subtable, so it announces as
/// many tables as the source sub-font did, and its size is the subtable, the
/// directory and every table padded to a multiple of four.
pub proof fn lemma_table_count_kept(d: Seq<u8>, h: OffsetSubtable, tables: Seq<TableRecord>)
    requires
        tables.len() == h.num_tables as int,
        tables_in_source(d, tables),
    ensures
        subtable_at(font_bytes(d, h, tables), 0) == h,
        be_u16_at(font_bytes(d, h, tables), 4) == h.num_tables as int,
        font_bytes(d, h, tables).len() == font_size(tables),
{
    let out = font_bytes(d, h, tables);
    let n = tables.len() as int;
    lemma_directory_len(tables, n);
    lemma_tables_len(d, tables, n);
    assert(out.subrange(0, 12) =~= subtable_bytes(h));
    lemma_subtable_read(out, h);
}

/// Reading the `i`-th record of the rebuilt font's directory gives the
/// source record's tag, checksum and length, and an offset at which the
/// rebuilt font holds exactly the bytes that the source held at the old one.
pub proof fn lemma_table_round_trip(
    d: Seq<u8>,
    h: OffsetSubtable,
    tables: Seq<TableRecord>,
    i: int,
)
    requires
        tables.len() == h.num_tables as int,
        tables_in_source(d, tables),
        fits_in_u32_offsets(tables),
        0 <= i < tables.len(),
    ensures
        ({
            let out = font_bytes(d, h, tables);
            let r = record_at(out, 12 + 16 * i);
            &&& r.tag == tables[i].tag
            &&& r.checksum == tables[i].checksum
            &&& r.length == tables[i].length
            &&& r.offset as int == table_start(tables, i)
            &&& out.subrange(r.offset as int, r.offset + r.length) == d.subrange(
                tables[i].offset as int,
                tables[i].offset + tables[i].length,
            )
        }),
{
    let out = font_bytes(d, h, tables);
    let n = tables.len() as int;
    let t = tables[i];
    lemma_directory_bytes(tables, n, i);
    lemma_tables_len(d, tables, n);
    lemma_table_start_monotone(tables, 0, i);
    lemma_table_start_monotone(tables, i + 1, n);
    assert(table_in_source(d, t));
    let dir = directory_bytes(tables, n);
    assert(out.subrange(12 + 16 * i, 12 + 16 * i + 16) =~= dir.subrange(16 * i, 16 * i + 16));
    lemma_record_read(out, 12 + 16 * i, relocated(tables, i));
    let base = table_start(tables, 0);
    let lo = table_start(tables, i);
    lemma_tables_bytes(d, tables, n, i);
    assert(out.subrange(lo, lo + t.length) =~= tables_bytes(d, tables, n).subrange(
        lo - base,
        lo - base + t.length,
    ));
}

/// Every offset written into the rebuilt font's directory is a multiple of four.
pub proof fn lemma_offsets_aligned(d: Seq<u8>, h: OffsetSubtable, tables: Seq<TableRecord>, i: int)
    requires
        tables.len() == h.num_tables as int,
        tables_in_source(d, tables),
        fits_in_u32_offsets(tables),
        0 <= i < tables.len(),
    ensures
        record_at(font_bytes(d, h, tables), 12 + 16 * i).offset % 4 == 0,
{
    lemma_table_round_trip(d, h, tables, i);
    lemma_table_start_aligned(tables, i);
}

} // verus!
