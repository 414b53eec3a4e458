//! Builds a standalone font from one sub-font's directory and the source bytes.
use vstd::prelude::*;
use crate::bytes::{push_u16_be, push_u32_be};
use crate::directory::{SubFontDirectory, TableRecord};
use crate::error::SplitError;
use crate::layout::{
    font_size, fits_in_u32_offsets, font_bytes, directory_bytes, lemma_table_start_monotone, record_bytes,
    relocated, subtable_bytes, table_in_source, table_start, tables_bytes, tables_in_source, zeros,
};

verus! {

/// Appends one record as it is stored.
fn push_record(out: &mut Vec<u8>, r: TableRecord)
    ensures
        final(out)@ == old(out)@ + record_bytes(r),
{
    push_u32_be(out, r.tag);
    push_u32_be(out, r.checksum);
    push_u32_be(out, r.offset);
    push_u32_be(out, r.length);
    assert(out@ =~= old(out)@ + record_bytes(r));
}

/// Checks that every table lies within the source.
fn all_tables_in_source(data: &[u8], tables: &Vec<TableRecord>) -> (ok: bool)
    ensures
        ok == tables_in_source(data@, tables@),
{
    let len = data.len() as u64;
    let mut i: usize = 0;
    while i < tables.len()
        invariant
            len == data@.len(),
            0 <= i <= tables@.len(),
            forall|j: int| 0 <= j < i ==> #[trigger] table_in_source(data@, tables@[j]),
        decreases tables@.len() - i,
    {
        let t = tables[i];
        if t.offset as u64 + t.length as u64 > len {
            assert(!table_in_source(data@, tables@[i as int]));
            return false;
        }
        i = i + 1;
    }
    true
}

/// The size of the rebuilt font, computed without overflow.
fn rebuilt_size(tables: &Vec<TableRecord>) -> (size: u64)
    requires
        tables@.len() <= 65535,
    ensures
        size as int == font_size(tables@),
{
    let mut size: u64 = 12 + 16 * (tables.len() as u64);
    let mut i: usize = 0;
    while i < tables.len()
        invariant
            tables@.len() <= 65535,
            0 <= i <= tables@.len(),
            size as int == table_start(tables@, i as int),
            size <= 12 + 16 * 65535 + i * 4294967299,
        decreases tables@.len() - i,
    {
        let length = tables[i].length;
        size = size + length as u64 + ((4 - length % 4) % 4) as u64;
        i = i + 1;
    }
    size
}

/// Lays the sub-font's tables out again in a fresh buffer: the subtable as it
/// was, a directory whose records differ from the source's only in their
/// offsets, then each table's bytes copied from the source and padded with
/// zeros to a multiple of four, in the source's order.
pub fn build_font(data: &[u8], dir: &SubFontDirectory) -> (r: Result<Vec<u8>, SplitError>)
    requires
        dir.wf(),
    ensures
        r is Ok <==> tables_in_source(data@, dir.tables@) && fits_in_u32_offsets(dir.tables@),
        r matches Err(e) ==> (if !tables_in_source(data@, dir.tables@) {
            e == SplitError::OutOfBounds
        } else {
            e == SplitError::OutputTooLarge
        }),
        r matches Ok(out) ==> out@ == font_bytes(data@, dir.header, dir.tables@),
{
    let tables = &dir.tables;
    let h = dir.header;
    if !all_tables_in_source(data, tables) {
        return Err(SplitError::OutOfBounds);
    }
    let size = rebuilt_size(tables);
    if size > u32::MAX as u64 {
        return Err(SplitError::OutputTooLarge);
    }
    let ghost ts = tables@;
    let n = tables.len();
    let mut out: Vec<u8> = Vec::new();
    push_u32_be(&mut out, h.sfnt_version);
    push_u16_be(&mut out, h.num_tables);
    push_u16_be(&mut out, h.search_range);
    push_u16_be(&mut out, h.entry_selector);
    push_u16_be(&mut out, h.range_shift);
    assert(out@ =~= subtable_bytes(h));

    let mut start: u32 = (12 + 16 * n) as u32;
    let mut i: usize = 0;
    while i < n
        invariant
            ts == tables@,
            n == ts.len(),
            h == dir.header,
            font_size(ts) <= u32::MAX,
            0 <= i <= n,
            start as int == table_start(ts, i as int),
            out@ == subtable_bytes(h) + directory_bytes(ts, i as int),
        decreases n - i,
    {
        proof {
            lemma_table_start_monotone(ts, i as int + 1, n as int);
        }
        let t = tables[i];
        let moved = TableRecord { tag: t.tag, checksum: t.checksum, offset: start, length: t.length };
        assert(moved == relocated(ts, i as int));
        push_record(&mut out, moved);
        start = start + t.length + (4 - t.length % 4) % 4;
        assert(out@ =~= subtable_bytes(h) + directory_bytes(ts, i as int + 1));
        i = i + 1;
    }
    let ghost head = out@;

    let mut i: usize = 0;
    while i < n
        invariant
            ts == tables@,
            n == ts.len(),
            data@.len() == data.len(),
            tables_in_source(data@, ts),
            0 <= i <= n,
            head == subtable_bytes(h) + directory_bytes(ts, n as int),
            out@ == head + tables_bytes(data@, ts, i as int),
        decreases n - i,
    {
        let t = tables[i];
        assert(table_in_source(data@, ts[i as int]));
        let ghost before = out@;
        let first = t.offset as usize;
        let end = t.offset as usize + t.length as usize;
        let mut k: usize = first;
        while k < end
            invariant
                first <= k <= end,
                end <= data@.len(),
                first == t.offset,
                end == t.offset + t.length,
                out@ == before + data@.subrange(first as int, k as int),
            decreases end - k,
        {
            out.push(data[k]);
            assert(data@.subrange(first as int, k + 1) =~= data@.subrange(first as int, k as int).push(data@[k as int]));
            k = k + 1;
        }
        let pad = (4 - t.length % 4) % 4;
        let ghost copied = out@;
        let mut z: u32 = 0;
        while z < pad
            invariant
                z <= pad,
                out@ == copied + zeros(z as int),
            decreases pad - z,
        {
            out.push(0u8);
            assert(zeros(z + 1) =~= zeros(z as int).push(0u8));
            z = z + 1;
        }
        assert(out@ =~= head + tables_bytes(data@, ts, i as int + 1));
        i = i + 1;
    }
    assert(out@ =~= font_bytes(data@, h, ts));
    Ok(out)
}

} // verus!
