//! Choosing a sub-font's file name: its full name from the name table, or a
//! numbered placeholder, with the characters that file systems reserve replaced.
use vstd::prelude::*;

verus! {

/// The name id under which a font stores its full name.
pub const FULL_NAME_ID: u16 = 4;

/// What the name-table decoder makes of a font: its name records in stored
/// order, each as its name id and its text where the encoding is one it
/// decodes; `None` where the font does not parse as face 0.
pub uninterp spec fn name_records_of(font: Seq<u8>) -> Option<Seq<(u16, Option<Seq<char>>)>>;

/// The text of an optional string.
pub open spec fn opt_text(o: Option<String>) -> Option<Seq<char>> {
    match o {
        Some(s) => Some(s@),
        None => None,
    }
}

/// Name records with their texts viewed as character sequences.
pub open spec fn records_view(v: Seq<(u16, Option<String>)>) -> Seq<(u16, Option<Seq<char>>)> {
    Seq::new(v.len(), |i: int| (v[i].0, opt_text(v[i].1)))
}

/// An optional record list viewed as character sequences.
pub open spec fn opt_records_view(o: Option<Vec<(u16, Option<String>)>>) -> Option<
    Seq<(u16, Option<Seq<char>>)>,
> {
    match o {
        Some(v) => Some(records_view(v@)),
        None => None,
    }
}

/// Relies on `ttf_parser::Face::parse` with face index 0, `Face::names` and
/// `Name::to_string`: the font's name records, in the order the decoder walks
/// them, each with its id and its text where it decodes.  What comes back
/// depends on the bytes alone.
#[verifier::external_body]
fn decode_name_records(font: &[u8]) -> (r: Option<Vec<(u16, Option<String>)>>)
    ensures
        opt_records_view(r) == name_records_of(font@),
{
    match ttf_parser::Face::parse(font, 0) {
        Ok(face) => Some(face.names().into_iter().map(|n| (n.name_id, n.to_string())).collect()),
        Err(_) => None,
    }
}

/// Relies on `String::push`: appends one character.
#[verifier::external_body]
fn push_char(s: &mut String, c: char)
    ensures
        final(s)@ == old(s)@.push(c),
{
    s.push(c);
}

/// The text of the first full-name record at or after `i`; `None` where
/// there is none, or where that first record's text did not decode.
pub open spec fn full_name_from(recs: Seq<(u16, Option<Seq<char>>)>, i: int) -> Option<Seq<char>>
    decreases recs.len() - i,
{
    if 0 <= i < recs.len() {
        if recs[i].0 == FULL_NAME_ID {
            recs[i].1
        } else {
            full_name_from(recs, i + 1)
        }
    } else {
        None
    }
}

/// The decimal digit `d` as a character.
pub open spec fn digit_char(d: int) -> char {
    "0123456789"@[d]
}

/// The decimal form of `n`, without leading zeros.
pub open spec fn decimal(n: nat) -> Seq<char>
    decreases n,
{
    if n < 10 {
        seq![digit_char(n as int)]
    } else {
        decimal(n / 10).push(digit_char((n % 10) as int))
    }
}

/// The placeholder name of the sub-font at position `index`.
pub open spec fn fallback_name(index: nat) -> Seq<char> {
    "subfont_"@ + decimal(index)
}

/// The name a sub-font gets from what the decoder returned: its full name,
/// else the placeholder.
pub open spec fn chosen_name(recs: Option<Seq<(u16, Option<Seq<char>>)>>, index: nat) -> Seq<char> {
    match recs {
        Some(v) => match full_name_from(v, 0) {
            Some(n) => n,
            None => fallback_name(index),
        },
        None => fallback_name(index),
    }
}

/// The characters that a file name cannot hold on common file systems.
pub open spec fn is_reserved(c: char) -> bool {
    c == '\\' || c == '/' || c == ':' || c == '*' || c == '?' || c == '"' || c == '<' || c == '>'
        || c == '|'
}

/// `_` in place of a reserved character; any other character as it is.
pub open spec fn safe_char(c: char) -> char {
    if is_reserved(c) {
        '_'
    } else {
        c
    }
}

/// `s` with each reserved character replaced by `_`, one for one.
pub open spec fn sanitized(s: Seq<char>) -> Seq<char> {
    Seq::new(s.len(), |i: int| safe_char(s[i]))
}

/// The file name for a sub-font called `name`.
pub open spec fn file_name_for(name: Seq<char>) -> Seq<char> {
    sanitized(name) + ".ttf"@
}

/// Appends the decimal form of `n`.
fn push_decimal(out: &mut String, n: usize)
    ensures
        final(out)@ == old(out)@ + decimal(n as nat),
    decreases n,
{
    let digits = "0123456789";
    proof {
        reveal_strlit("0123456789");
    }
    if n >= 10 {
        push_decimal(out, n / 10);
    }
    let c = digits.get_char(n % 10);
    push_char(out, c);
    assert(out@ =~= old(out)@ + decimal(n as nat));
}

/// The placeholder name `subfont_<index>`.
pub fn fallback_name_of(index: usize) -> (r: String)
    ensures
        r@ == fallback_name(index as nat),
{
    let mut s = String::from_str("subfont_");
    push_decimal(&mut s, index);
    s
}

/// Picks the sub-font's name from what the name-table decoder returned:
/// the first full-name record's text, or `subfont_<index>` where the font did
/// not parse, has no full-name record, or that record's text did not decode.
pub fn choose_name(records: &Option<Vec<(u16, Option<String>)>>, index: usize) -> (r: String)
    ensures
        r@ == chosen_name(opt_records_view(*records), index as nat),
{
    match records {
        None => fallback_name_of(index),
        Some(v) => {
            let ghost recs = records_view(v@);
            let mut i: usize = 0;
            while i < v.len()
                invariant
                    recs == records_view(v@),
                    opt_records_view(*records) == Some(recs),
                    0 <= i <= v@.len(),
                    full_name_from(recs, 0) == full_name_from(recs, i as int),
                decreases v@.len() - i,
            {
                if v[i].0 == FULL_NAME_ID {
                    assert(recs[i as int] == (v@[i as int].0, opt_text(v@[i as int].1)));
                    return match &v[i].1 {
                        Some(s) => {
                            s.clone()
                        },
                        None => fallback_name_of(index),
                    };
                }
                assert(recs[i as int].0 == v@[i as int].0);
                i = i + 1;
            }
            fallback_name_of(index)
        },
    }
}

/// The sub-font's name, read from the rebuilt font's name table with the
/// placeholder as fallback.  A font whose name table is missing or broken
/// still gets a name.
pub fn resolve_name(font: &[u8], index: usize) -> (r: String)
    ensures
        r@ == chosen_name(name_records_of(font@), index as nat),
{
    let records = decode_name_records(font);
    choose_name(&records, index)
}

/// `name` with each of `\ / : * ? " < > |` replaced by `_`; every other
/// character, non-ASCII ones too, is kept.
pub fn sanitize_file_name(name: &str) -> (r: String)
    ensures
        r@ == sanitized(name@),
{
    let n = name.unicode_len();
    let mut out = String::new();
    let mut i: usize = 0;
    while i < n
        invariant
            n == name@.len(),
            0 <= i <= n,
            out@ == sanitized(name@.subrange(0, i as int)),
        decreases n - i,
    {
        let c = name.get_char(i);
        let safe = if c == '\\' || c == '/' || c == ':' || c == '*' || c == '?' || c == '"' || c
            == '<' || c == '>' || c == '|' {
            '_'
        } else {
            c
        };
        push_char(&mut out, safe);
        assert(sanitized(name@.subrange(0, i + 1)) =~= sanitized(name@.subrange(0, i as int)).push(
            safe,
        ));
        i = i + 1;
    }
    assert(name@.subrange(0, n as int) =~= name@);
    out
}

/// The output file name for a sub-font called `name`: the sanitized name
/// followed by `.ttf`.
pub fn output_file_name(name: &str) -> (r: String)
    ensures
        r@ == file_name_for(name@),
{
    let mut s = sanitize_file_name(name);
    s.append(".ttf");
    s
}

} // verus!
