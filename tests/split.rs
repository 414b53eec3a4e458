use fonttool::{
    build_font, choose_name, extract_subfont, fallback_name_of, output_file_name, push_u16_be,
    push_u32_be, read_collection_header, read_directory, read_u16_be, read_u32_be, resolve_name,
    sanitize_file_name, OffsetSubtable, SplitError, SubFontDirectory, TableRecord, FULL_NAME_ID,
};

const TAG_HEAD: u32 = 0x6865_6164;
const TAG_HHEA: u32 = 0x6868_6561;
const TAG_MAXP: u32 = 0x6D61_7870;
const TAG_NAME: u32 = 0x6E61_6D65;

fn be32(out: &mut Vec<u8>, x: u32) {
    out.extend_from_slice(&x.to_be_bytes());
}

fn be16(out: &mut Vec<u8>, x: u16) {
    out.extend_from_slice(&x.to_be_bytes());
}

/// A collection whose sub-fonts' tables are stored back to back, unpadded,
/// after each sub-font's directory.  Table checksums are `0xC0DE0000 + k`.
fn collection(fonts: &[Vec<(u32, Vec<u8>)>]) -> Vec<u8> {
    let mut out = Vec::new();
    out.extend_from_slice(b"ttcf");
    be32(&mut out, 0x0001_0000);
    be32(&mut out, fonts.len() as u32);
    let mut pos = 12 + 4 * fonts.len();
    let mut offsets = Vec::new();
    for f in fonts {
        offsets.push(pos as u32);
        pos += 12 + 16 * f.len() + f.iter().map(|t| t.1.len()).sum::<usize>();
    }
    for o in &offsets {
        be32(&mut out, *o);
    }
    for (fi, f) in fonts.iter().enumerate() {
        let start = offsets[fi] as usize;
        assert_eq!(out.len(), start);
        be32(&mut out, 0x0001_0000);
        be16(&mut out, f.len() as u16);
        be16(&mut out, 0x0040);
        be16(&mut out, 0x0002);
        be16(&mut out, 0x0000);
        let mut data_pos = start + 12 + 16 * f.len();
        for (k, (tag, bytes)) in f.iter().enumerate() {
            be32(&mut out, *tag);
            be32(&mut out, 0xC0DE_0000 + k as u32);
            be32(&mut out, data_pos as u32);
            be32(&mut out, bytes.len() as u32);
            data_pos += bytes.len();
        }
        for (_, bytes) in f {
            out.extend_from_slice(bytes);
        }
    }
    out
}

fn head_table() -> Vec<u8> {
    let mut t = vec![0u8; 54];
    t[0..4].copy_from_slice(&0x0001_0000u32.to_be_bytes());
    t[12..16].copy_from_slice(&0x5F0F_3CF5u32.to_be_bytes());
    t[18..20].copy_from_slice(&1000u16.to_be_bytes());
    t
}

fn hhea_table() -> Vec<u8> {
    let mut t = vec![0u8; 36];
    t[0..4].copy_from_slice(&0x0001_0000u32.to_be_bytes());
    t[34..36].copy_from_slice(&1u16.to_be_bytes());
    t
}

fn maxp_table() -> Vec<u8> {
    let mut t = Vec::new();
    be32(&mut t, 0x0000_5000);
    be16(&mut t, 1);
    t
}

/// A name table with one Windows Unicode record per `(name_id, text)`.
fn name_table(names: &[(u16, &str)]) -> Vec<u8> {
    let mut storage = Vec::new();
    let mut t = Vec::new();
    be16(&mut t, 0);
    be16(&mut t, names.len() as u16);
    be16(&mut t, (6 + 12 * names.len()) as u16);
    for (id, text) in names {
        let utf16: Vec<u16> = text.encode_utf16().collect();
        be16(&mut t, 3);
        be16(&mut t, 1);
        be16(&mut t, 0x0409);
        be16(&mut t, *id);
        be16(&mut t, (2 * utf16.len()) as u16);
        be16(&mut t, storage.len() as u16);
        for u in utf16 {
            be16(&mut storage, u);
        }
    }
    t.extend_from_slice(&storage);
    t
}

fn named_font(full_name: &str) -> Vec<(u32, Vec<u8>)> {
    vec![
        (TAG_HEAD, head_table()),
        (TAG_HHEA, hhea_table()),
        (TAG_MAXP, maxp_table()),
        (TAG_NAME, name_table(&[(1, "Family"), (FULL_NAME_ID, full_name)])),
    ]
}

fn get32(b: &[u8], p: usize) -> u32 {
    u32::from_be_bytes([b[p], b[p + 1], b[p + 2], b[p + 3]])
}

fn get16(b: &[u8], p: usize) -> u16 {
    u16::from_be_bytes([b[p], b[p + 1]])
}

#[test]
fn big_endian_reads() {
    let d = [0x12u8, 0x34, 0x56, 0x78, 0x9A];
    assert_eq!(read_u32_be(&d, 0), Some(0x1234_5678));
    assert_eq!(read_u32_be(&d, 1), Some(0x3456_789A));
    assert_eq!(read_u32_be(&d, 2), None);
    assert_eq!(read_u16_be(&d, 3), Some(0x789A));
    assert_eq!(read_u16_be(&d, 4), None);
    assert_eq!(read_u16_be(&d, 9), None);
}

#[test]
fn big_endian_writes() {
    let mut out = vec![7u8];
    push_u32_be(&mut out, 0xDEAD_BEEF);
    push_u16_be(&mut out, 0x0102);
    assert_eq!(out, vec![7, 0xDE, 0xAD, 0xBE, 0xEF, 0x01, 0x02]);
}

#[test]
fn collection_header_is_read() {
    let data = collection(&[vec![(TAG_HEAD, vec![1, 2, 3])], vec![(TAG_HEAD, vec![4])]]);
    let h = read_collection_header(&data).unwrap();
    assert_eq!(h.signature, 0x7474_6366);
    assert_eq!(h.version, 0x0001_0000);
    assert_eq!(h.num_fonts, 2);
    assert_eq!(h.offsets, vec![20, 20 + 12 + 16 + 3]);
}

#[test]
fn collection_signature_is_not_checked() {
    let mut data = collection(&[vec![(TAG_HEAD, vec![1])]]);
    data[0..4].copy_from_slice(b"XXXX");
    let h = read_collection_header(&data).unwrap();
    assert_eq!(h.signature, 0x5858_5858);
    assert_eq!(h.num_fonts, 1);
}

#[test]
fn collection_header_truncated() {
    let data = collection(&[vec![(TAG_HEAD, vec![1])]]);
    assert_eq!(read_collection_header(&data[..11]).unwrap_err(), SplitError::TruncatedInput);
    let mut short = Vec::new();
    short.extend_from_slice(b"ttcf");
    be32(&mut short, 0x0001_0000);
    be32(&mut short, 3);
    be32(&mut short, 100);
    be32(&mut short, 200);
    assert_eq!(read_collection_header(&short).unwrap_err(), SplitError::TruncatedInput);
    be32(&mut short, 300);
    assert_eq!(read_collection_header(&short).unwrap().offsets, vec![100, 200, 300]);
}

#[test]
fn empty_collection() {
    let data = collection(&[]);
    let h = read_collection_header(&data).unwrap();
    assert_eq!(h.num_fonts, 0);
    assert!(h.offsets.is_empty());
}

#[test]
fn directory_is_read_in_stored_order() {
    let data = collection(&[vec![(TAG_NAME, vec![9; 5]), (TAG_HEAD, vec![8; 2])]]);
    let dir = read_directory(&data, 16).unwrap();
    assert_eq!(
        dir.header,
        OffsetSubtable {
            sfnt_version: 0x0001_0000,
            num_tables: 2,
            search_range: 0x40,
            entry_selector: 2,
            range_shift: 0,
        }
    );
    assert_eq!(
        dir.tables,
        vec![
            TableRecord { tag: TAG_NAME, checksum: 0xC0DE_0000, offset: 16 + 44, length: 5 },
            TableRecord { tag: TAG_HEAD, checksum: 0xC0DE_0001, offset: 16 + 44 + 5, length: 2 },
        ]
    );
}

#[test]
fn directory_truncated() {
    let data = collection(&[vec![(TAG_NAME, vec![9; 5]), (TAG_HEAD, vec![8; 2])]]);
    assert_eq!(read_directory(&data, 1000).unwrap_err(), SplitError::TruncatedInput);
    assert_eq!(read_directory(&data, u32::MAX).unwrap_err(), SplitError::TruncatedInput);
    assert_eq!(read_directory(&data[..16 + 12 + 16 + 15], 16).unwrap_err(), SplitError::TruncatedInput);
    assert!(read_directory(&data[..16 + 12 + 32], 16).is_ok());
}

fn two_table_source() -> (Vec<u8>, SubFontDirectory) {
    let data: Vec<u8> = (0u8..40).collect();
    let dir = SubFontDirectory {
        header: OffsetSubtable {
            sfnt_version: 0x0001_0000,
            num_tables: 2,
            search_range: 32,
            entry_selector: 1,
            range_shift: 0,
        },
        tables: vec![
            TableRecord { tag: 0x4141_4141, checksum: 11, offset: 30, length: 3 },
            TableRecord { tag: 0x4242_4242, checksum: 22, offset: 5, length: 5 },
        ],
    };
    (data, dir)
}

#[test]
fn build_font_layout() {
    let (data, dir) = two_table_source();
    let out = build_font(&data, &dir).unwrap();
    // 12 + 2 * 16 = 44; 3 bytes padded to 4; 5 bytes padded to 8.
    assert_eq!(out.len(), 44 + 4 + 8);
    assert_eq!(get32(&out, 0), 0x0001_0000);
    assert_eq!(get16(&out, 4), 2);
    assert_eq!(get16(&out, 6), 32);
    assert_eq!(get16(&out, 8), 1);
    assert_eq!(get16(&out, 10), 0);
    assert_eq!(
        [get32(&out, 12), get32(&out, 16), get32(&out, 20), get32(&out, 24)],
        [0x4141_4141, 11, 44, 3]
    );
    assert_eq!(
        [get32(&out, 28), get32(&out, 32), get32(&out, 36), get32(&out, 40)],
        [0x4242_4242, 22, 48, 5]
    );
    assert_eq!(&out[44..48], &[30, 31, 32, 0]);
    assert_eq!(&out[48..56], &[5, 6, 7, 8, 9, 0, 0, 0]);
}

#[test]
fn table_round_trip() {
    let (data, dir) = two_table_source();
    let out = build_font(&data, &dir).unwrap();
    let back = read_directory(&out, 0).unwrap();
    assert_eq!(back.header, dir.header);
    assert_eq!(back.tables.len(), dir.tables.len());
    for (new, old) in back.tables.iter().zip(dir.tables.iter()) {
        assert_eq!(new.tag, old.tag);
        assert_eq!(new.checksum, old.checksum);
        assert_eq!(new.length, old.length);
        let (n, o, l) = (new.offset as usize, old.offset as usize, old.length as usize);
        assert_eq!(&out[n..n + l], &data[o..o + l]);
        assert_eq!(new.offset % 4, 0);
    }
}

#[test]
fn aligned_tables_need_no_padding() {
    let data: Vec<u8> = (0u8..16).collect();
    let dir = SubFontDirectory {
        header: OffsetSubtable { sfnt_version: 1, num_tables: 1, search_range: 0, entry_selector: 0, range_shift: 0 },
        tables: vec![TableRecord { tag: 1, checksum: 2, offset: 8, length: 8 }],
    };
    let out = build_font(&data, &dir).unwrap();
    assert_eq!(out.len(), 12 + 16 + 8);
    assert_eq!(&out[28..36], &data[8..16]);
}

#[test]
fn empty_tables_and_directory() {
    let data = vec![1u8, 2, 3];
    let dir = SubFontDirectory {
        header: OffsetSubtable { sfnt_version: 7, num_tables: 0, search_range: 0, entry_selector: 0, range_shift: 0 },
        tables: vec![],
    };
    assert_eq!(build_font(&data, &dir).unwrap(), vec![0, 0, 0, 7, 0, 0, 0, 0, 0, 0, 0, 0]);
    let dir = SubFontDirectory {
        header: OffsetSubtable { sfnt_version: 7, num_tables: 1, search_range: 0, entry_selector: 0, range_shift: 0 },
        tables: vec![TableRecord { tag: 9, checksum: 9, offset: 3, length: 0 }],
    };
    let out = build_font(&data, &dir).unwrap();
    assert_eq!(out.len(), 28);
    assert_eq!(get32(&out, 20), 28);
}

#[test]
fn table_outside_source_fails() {
    let (data, mut dir) = two_table_source();
    dir.tables[1].offset = 36;
    assert_eq!(build_font(&data, &dir).unwrap_err(), SplitError::OutOfBounds);
    dir.tables[1].offset = 35;
    assert!(build_font(&data, &dir).is_ok());
    dir.tables[0].offset = u32::MAX;
    assert_eq!(build_font(&data, &dir).unwrap_err(), SplitError::OutOfBounds);
}

#[test]
fn output_too_large_fails() {
    let data = vec![0u8; 70_000];
    let n: u16 = 65_535;
    let dir = SubFontDirectory {
        header: OffsetSubtable { sfnt_version: 1, num_tables: n, search_range: 0, entry_selector: 0, range_shift: 0 },
        tables: vec![TableRecord { tag: 1, checksum: 0, offset: 0, length: 70_000 }; n as usize],
    };
    assert_eq!(build_font(&data, &dir).unwrap_err(), SplitError::OutputTooLarge);
    let mut bad = dir;
    bad.tables[n as usize - 1].length = 70_001;
    assert_eq!(build_font(&data, &bad).unwrap_err(), SplitError::OutOfBounds);
}

#[test]
fn sanitize_replaces_each_reserved_character() {
    assert_eq!(sanitize_file_name("a/b:c"), "a_b_c");
    assert_eq!(sanitize_file_name("\\/:*?\"<>|"), "_________");
    assert_eq!(sanitize_file_name("a//b"), "a__b");
    assert_eq!(sanitize_file_name("思源 黑体-Bold.x"), "思源 黑体-Bold.x");
    assert_eq!(sanitize_file_name(""), "");
}

#[test]
fn output_file_name_appends_extension() {
    assert_eq!(output_file_name("My Font: Bold"), "My Font_ Bold.ttf");
    assert_eq!(output_file_name(""), ".ttf");
}

#[test]
fn fallback_names() {
    assert_eq!(fallback_name_of(0), "subfont_0");
    assert_eq!(fallback_name_of(7), "subfont_7");
    assert_eq!(fallback_name_of(10), "subfont_10");
    assert_eq!(fallback_name_of(1203), "subfont_1203");
}

#[test]
fn choose_name_picks_first_full_name() {
    let recs = Some(vec![
        (1u16, Some("Family".to_string())),
        (FULL_NAME_ID, Some("Family Bold".to_string())),
        (FULL_NAME_ID, Some("Other".to_string())),
    ]);
    assert_eq!(choose_name(&recs, 3), "Family Bold");
}

#[test]
fn choose_name_falls_back() {
    assert_eq!(choose_name(&None, 2), "subfont_2");
    assert_eq!(choose_name(&Some(vec![]), 4), "subfont_4");
    let no_full = Some(vec![(1u16, Some("Family".to_string())), (16u16, Some("Typo".to_string()))]);
    assert_eq!(choose_name(&no_full, 5), "subfont_5");
    let undecodable = Some(vec![(FULL_NAME_ID, None), (FULL_NAME_ID, Some("Later".to_string()))]);
    assert_eq!(choose_name(&undecodable, 6), "subfont_6");
}

#[test]
fn resolve_name_reads_name_table() {
    let data = collection(&[named_font("Test Sans Bold")]);
    let dir = read_directory(&data, 16).unwrap();
    let font = build_font(&data, &dir).unwrap();
    assert_eq!(resolve_name(&font, 0), "Test Sans Bold");
}

#[test]
fn resolve_name_falls_back_on_unparsable_font() {
    assert_eq!(resolve_name(&[0u8; 8], 9), "subfont_9");
    assert_eq!(resolve_name(&[], 0), "subfont_0");
}

#[test]
fn extract_named_subfonts() {
    let data = collection(&[named_font("Alpha Regular"), named_font("Beta/Italic")]);
    let h = read_collection_header(&data).unwrap();
    let a = extract_subfont(&data, h.offsets[0], 0).unwrap();
    let b = extract_subfont(&data, h.offsets[1], 1).unwrap();
    assert_eq!(a.file_name, "Alpha Regular.ttf");
    assert_eq!(b.file_name, "Beta_Italic.ttf");
    assert_eq!(get16(&a.bytes, 4), 4);
    assert_eq!(a.bytes.len() % 4, 0);
}

#[test]
fn fallback_file_name_without_name_table() {
    let data = collection(&[
        vec![(TAG_HEAD, vec![1, 2, 3])],
        vec![(TAG_HEAD, head_table()), (TAG_HHEA, hhea_table()), (TAG_MAXP, maxp_table())],
    ]);
    let h = read_collection_header(&data).unwrap();
    assert_eq!(extract_subfont(&data, h.offsets[0], 0).unwrap().file_name, "subfont_0.ttf");
    assert_eq!(extract_subfont(&data, h.offsets[1], 1).unwrap().file_name, "subfont_1.ttf");
}

#[test]
fn fallback_file_name_with_corrupt_name_table() {
    let mut fonts = named_font("Never Seen");
    fonts[3].1 = vec![0, 9, 0, 1];
    let data = collection(&[fonts]);
    let f = extract_subfont(&data, 16, 3).unwrap();
    assert_eq!(f.file_name, "subfont_3.ttf");
}

#[test]
fn extraction_is_repeatable() {
    let data = collection(&[named_font("Gamma"), vec![(TAG_HEAD, vec![5; 7])]]);
    let h = read_collection_header(&data).unwrap();
    for (i, off) in h.offsets.iter().enumerate() {
        let first = extract_subfont(&data, *off, i).unwrap();
        let second = extract_subfont(&data, *off, i).unwrap();
        assert_eq!(first.file_name, second.file_name);
        assert_eq!(first.bytes, second.bytes);
    }
}

#[test]
fn extraction_fails_on_table_beyond_source() {
    let mut data = collection(&[vec![(TAG_HEAD, vec![1, 2, 3, 4])]]);
    // The one record's length field sits at 16 + 12 + 12.
    let len_at = 16 + 12 + 12;
    data[len_at..len_at + 4].copy_from_slice(&5u32.to_be_bytes());
    assert_eq!(extract_subfont(&data, 16, 0).unwrap_err(), SplitError::OutOfBounds);
    data[len_at..len_at + 4].copy_from_slice(&4u32.to_be_bytes());
    assert!(extract_subfont(&data, 16, 0).is_ok());
}

#[test]
fn extraction_fails_on_truncated_directory() {
    let data = collection(&[vec![(TAG_HEAD, vec![1, 2, 3, 4])]]);
    assert_eq!(extract_subfont(&data, 40, 0).unwrap_err(), SplitError::TruncatedInput);
}
