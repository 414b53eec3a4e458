//! One sub-font from directory to named standalone font.
use vstd::prelude::*;
use crate::directory::{directory_fits, directory_tables, read_directory, subtable_at};
use crate::builder::build_font;
use crate::error::SplitError;
use crate::layout::{fits_in_u32_offsets, font_bytes, tables_in_source};
use crate::naming::{
    chosen_name, decimal, digit_char, fallback_name, file_name_for, is_reserved, name_records_of,
    output_file_name, resolve_name, safe_char, sanitized,
};

verus! {

/// A standalone font cut out of a collection, with the file name it goes under.
#[derive(Debug)]
pub struct ExtractedFont {
    pub file_name: String,
    pub bytes: Vec<u8>,
}

/// What extracting the sub-font whose subtable starts at `p` yields: the
/// rebuilt font and its file name, or the first thing that stops it.
pub open spec fn extraction(d: Seq<u8>, p: int, index: nat) -> Result<(Seq<char>, Seq<u8>), SplitError> {
    if !directory_fits(d, p) {
        Err(SplitError::TruncatedInput)
    } else {
        let tables = directory_tables(d, p);
        if !tables_in_source(d, tables) {
            Err(SplitError::OutOfBounds)
        } else if !fits_in_u32_offsets(tables) {
            Err(SplitError::OutputTooLarge)
        } else {
            let font = font_bytes(d, subtable_at(d, p), tables);
            Ok((file_name_for(chosen_name(name_records_of(font), index)), font))
        }
    }
}

/// An extraction result viewed as a file name and bytes.
pub open spec fn extracted_view(r: Result<ExtractedFont, SplitError>) -> Result<
    (Seq<char>, Seq<u8>),
    SplitError,
> {
    match r {
        Ok(f) => Ok((f.file_name@, f.bytes@)),
        Err(e) => Err(e),
    }
}

/// Extracts the sub-font whose offset subtable starts at `offset`, the
/// `index`-th of its collection: reads its directory, rebuilds it as a
/// standalone font and names it.  Nothing is produced for a sub-font that
/// fails.
pub fn extract_subfont(data: &[u8], offset: u32, index: usize) -> (r: Result<ExtractedFont, SplitError>)
    ensures
        extracted_view(r) == extraction(data@, offset as int, index as nat),
{
    let dir = match read_directory(data, offset) {
        Ok(dir) => dir,
        Err(e) => return Err(e),
    };
    let bytes = match build_font(data, &dir) {
        Ok(bytes) => bytes,
        Err(e) => return Err(e),
    };
    let name = resolve_name(bytes.as_slice(), index);
    let file_name = output_file_name(name.as_str());
    Ok(ExtractedFont { file_name, bytes })
}

/// Extraction depends on its inputs alone: two runs on the same bytes give
/// the same file names and byte-identical fonts, or the same error.
pub proof fn lemma_extraction_repeatable(
    data: Seq<u8>,
    offset: int,
    index: nat,
    first: Result<ExtractedFont, SplitError>,
    second: Result<ExtractedFont, SplitError>,
)
    requires
        extracted_view(first) == extraction(data, offset, index),
        extracted_view(second) == extraction(data, offset, index),
    ensures
        extracted_view(first) == extracted_view(second),
{
}

proof fn lemma_decimal_digits(n: nat)
    ensures
        forall|k: int| 0 <= k < decimal(n).len() ==> !is_reserved(#[trigger] decimal(n)[k]),
    decreases n,
{
    reveal_strlit("0123456789");
    if n >= 10 {
        lemma_decimal_digits(n / 10);
        assert(!is_reserved(digit_char((n % 10) as int)));
        let prev = decimal(n / 10);
        assert forall|k: int| 0 <= k < decimal(n).len() implies !is_reserved(
            #[trigger] decimal(n)[k],
        ) by {
            if k < prev.len() {
                assert(decimal(n)[k] == prev[k]);
            }
        }
    } else {
        assert(!is_reserved(digit_char(n as int)));
    }
}

/// A sub-font whose rebuilt form the name-table decoder cannot parse is
/// written as `subfont_<index>.ttf`: the placeholder holds no reserved
/// character, so sanitizing leaves it as it is.
pub proof fn lemma_fallback_file_name(font: Seq<u8>, index: nat)
    requires
        name_records_of(font) is None,
    ensures
        file_name_for(chosen_name(name_records_of(font), index)) == "subfont_"@ + decimal(index)
            + ".ttf"@,
{
    reveal_strlit("subfont_");
    lemma_decimal_digits(index);
    let f = fallback_name(index);
    assert forall|k: int| 0 <= k < f.len() implies safe_char(f[k]) == f[k] by {
        if k >= 8 {
            assert(f[k] == decimal(index)[k - 8]);
        }
    }
    assert(sanitized(f) =~= f);
}

} // verus!
