//! The collection container's header: signature, version and sub-font offsets.
use vstd::prelude::*;
use crate::bytes::{be_u32_at, read_u32_be};
use crate::error::SplitError;

verus! {

/// The header of a font collection.  The signature is read but not checked.
#[derive(Debug)]
pub struct CollectionHeader {
    pub signature: u32,
    pub version: u32,
    pub num_fonts: u32,
    /// Where each sub-font's offset subtable starts, one per sub-font.
    pub offsets: Vec<u32>,
}

/// The font count field of a collection.
pub open spec fn font_count_of(d: Seq<u8>) -> int {
    be_u32_at(d, 8)
}

/// The input holds the fixed header fields and the whole offset list.
pub open spec fn collection_header_fits(d: Seq<u8>) -> bool {
    &&& 12 <= d.len()
    &&& 12 + 4 * font_count_of(d) <= d.len()
}

/// `h` holds exactly what the header at the start of `d` says.
pub open spec fn collection_header_matches(h: CollectionHeader, d: Seq<u8>) -> bool {
    &&& h.signature as int == be_u32_at(d, 0)
    &&& h.version as int == be_u32_at(d, 4)
    &&& h.num_fonts as int == font_count_of(d)
    &&& h.offsets@.len() == h.num_fonts
    &&& forall|i: int|
        0 <= i < h.offsets@.len() ==> #[trigger] h.offsets@[i] as int == be_u32_at(d, 12 + 4 * i)
}

/// Parses the collection header at the start of `data`.
pub fn read_collection_header(data: &[u8]) -> (r: Result<CollectionHeader, SplitError>)
    ensures
        r is Ok <==> collection_header_fits(data@),
        r matches Err(e) ==> e == SplitError::TruncatedInput,
        r matches Ok(h) ==> collection_header_matches(h, data@),
{
    let signature = match read_u32_be(data, 0) {
        Some(v) => v,
        None => return Err(SplitError::TruncatedInput),
    };
    let version = match read_u32_be(data, 4) {
        Some(v) => v,
        None => return Err(SplitError::TruncatedInput),
    };
    let num_fonts = match read_u32_be(data, 8) {
        Some(v) => v,
        None => return Err(SplitError::TruncatedInput),
    };
    let needed: u64 = 12 + 4 * (num_fonts as u64);
    if needed > data.len() as u64 {
        return Err(SplitError::TruncatedInput);
    }
    let mut offsets: Vec<u32> = Vec::new();
    let total: usize = data.len();
    let mut i: u32 = 0;
    while i < num_fonts
        invariant
            total == data@.len(),
            0 <= i <= num_fonts,
            num_fonts as int == font_count_of(data@),
            12 + 4 * num_fonts <= data@.len(),
            offsets@.len() == i,
            forall|j: int|
                0 <= j < i ==> #[trigger] offsets@[j] as int == be_u32_at(data@, 12 + 4 * j),
        decreases num_fonts - i,
    {
        let pos: usize = 12 + 4 * (i as usize);
        let v = match read_u32_be(data, pos) {
            Some(v) => v,
            None => return Err(SplitError::TruncatedInput),
        };
        offsets.push(v);
        i = i + 1;
    }
    Ok(CollectionHeader { signature, version, num_fonts, offsets })
}

} // verus!
