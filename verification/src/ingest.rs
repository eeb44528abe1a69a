//! Ingestion of a polled page: Shift_JIS decoding and per-row record
//! extraction, behind trusted wrappers over encoding_rs and select.

use vstd::prelude::*;

verus! {

/// The largest page accepted for ingestion, in bytes (1 MiB). The bound
/// serves two limits of the extraction stack below.
///
/// First, the parser's string buffers cap lengths at 32 bits; decoding
/// yields at most one char per input byte and a char serializes to at most
/// four UTF-8 bytes, so an accepted page's decoded text stays far under
/// that cap.
///
/// Second, the extraction recurses once per element-nesting level (tree
/// conversion, text gathering and serialization each keep one small frame
/// — a handful of words, conservatively 512 bytes — per level; the parsed
/// tree's teardown is iterative and adds none). The shortest nesting open
/// tag is three characters, so a page within this bound nests below
/// 350,000 levels and the recursion needs at most about 180 MiB of stack
/// in the worst case. Callers must therefore run ingestion on a thread
/// whose stack holds that — `INGEST_STACK_BYTES` is the size to give it.
pub const MAX_INGEST_BYTES: usize = 0x10_0000;

/// The stack size, in bytes (256 MiB), that a thread running `ingest` must
/// be given: the worst-case extraction recursion for a page within
/// `MAX_INGEST_BYTES` (about 180 MiB, per the bound's doc comment) plus
/// headroom. The pages are almost entirely untouched virtual memory.
pub const INGEST_STACK_BYTES: usize = 0x1000_0000;

/// The text that decoding a page's bytes yields: Shift_JIS with lossy
/// replacement, unless the bytes open with a UTF-8 or UTF-16 byte-order
/// mark, which switches the decode to that encoding (as the poller always
/// did); a pure function of the bytes.
pub uninterp spec fn sjis_decode_of(bytes: Seq<u8>) -> Seq<char>;

/// The (key, content) records that HTML table-row extraction yields for a
/// given document text: one record per parsed `tr` element that has a `td`
/// cell, its first cell's trimmed text as key and the row's serialized HTML
/// as content; a pure function of the text.
pub uninterp spec fn rows_of(text: Seq<char>) -> Seq<(Seq<char>, Seq<char>)>;

/// Relies on encoding_rs::SHIFT_JIS.decode: the decoded text (BOM-sniffed,
/// with U+FFFD replacement for malformed input) depends on the input bytes
/// alone, and every decoded char consumes at least one input byte.
#[verifier::external_body]
fn decode_shift_jis(bytes: &Vec<u8>) -> (r: String)
    ensures
        r@ == sjis_decode_of(bytes@),
        r@.len() <= bytes@.len(),
{
    let (text, _, _) = encoding_rs::SHIFT_JIS.decode(bytes);
    text.into_owned()
}

/// Relies on select::document::Document (an html5ever parse of the text)
/// and its Find iterator: the rows found under the name `tr`, each row's
/// first `td` text and serialized HTML, depend on the text alone. The
/// length bound keeps the text under the parser's 32-bit buffer cap and
/// keeps the worst-case nesting recursion within `INGEST_STACK_BYTES` of
/// stack, which the calling thread must provide (see `MAX_INGEST_BYTES`).
#[verifier::external_body]
fn extract_rows(text: &str) -> (r: Vec<(String, String)>)
    requires
        text@.len() < MAX_INGEST_BYTES,
    ensures
        r.deep_view() == rows_of(text@),
{
    let document = select::document::Document::from(text);
    document
        .find(select::predicate::Name("tr"))
        .filter_map(|row| {
            let cell = row.find(select::predicate::Name("td")).next()?;
            Some((cell.text().trim().to_string(), row.html()))
        })
        .collect()
}

/// Decodes a polled page's bytes (Shift_JIS unless a byte-order mark says
/// otherwise) and extracts its records: one (key, content) pair per table
/// row of the decoded document. Run it on a thread with
/// `INGEST_STACK_BYTES` of stack: the extraction recursion's worst case
/// within the accepted page size needs it (see `MAX_INGEST_BYTES`).
pub fn ingest(bytes: &Vec<u8>) -> (r: Vec<(String, String)>)
    requires
        bytes@.len() < MAX_INGEST_BYTES,
    ensures
        r.deep_view() == rows_of(sjis_decode_of(bytes@)),
{
    let text = decode_shift_jis(bytes);
    extract_rows(text.as_str())
}

} // verus!
