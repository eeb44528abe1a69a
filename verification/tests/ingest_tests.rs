use site_registry::ingest::ingest;

fn page(body: &str) -> Vec<u8> {
    body.as_bytes().to_vec()
}

#[test]
fn ingest_extracts_one_record_per_row() {
    let bytes = page("<table><tr><td>A1</td><td>x</td></tr><tr><td>B2</td></tr></table>");
    let rows = ingest(&bytes);
    assert_eq!(rows.len(), 2);
    assert_eq!(rows[0].0, "A1");
    assert_eq!(rows[0].1, "<tr><td>A1</td><td>x</td></tr>");
    assert_eq!(rows[1].0, "B2");
    assert_eq!(rows[1].1, "<tr><td>B2</td></tr>");
}

#[test]
fn ingest_trims_the_key_cell() {
    let bytes = page("<table><tr><td>  A1  </td></tr></table>");
    let rows = ingest(&bytes);
    assert_eq!(rows.len(), 1);
    assert_eq!(rows[0].0, "A1");
}

#[test]
fn ingest_accepts_uppercase_tags() {
    // The HTML parser normalizes element names to lower case, so rows
    // written as <TR>/<TD> are extracted all the same.
    let bytes = page("<TABLE><TR><TD>B</TD></TR></TABLE>");
    let rows = ingest(&bytes);
    assert_eq!(rows.len(), 1);
    assert_eq!(rows[0].0, "B");
}

#[test]
fn ingest_skips_rows_without_a_cell() {
    let bytes = page("<table><tr><th>heading</th></tr><tr><td>A1</td></tr></table>");
    let rows = ingest(&bytes);
    assert_eq!(rows.len(), 1);
    assert_eq!(rows[0].0, "A1");
}

#[test]
fn ingest_empty_input_yields_no_rows() {
    let rows = ingest(&Vec::new());
    assert_eq!(rows.len(), 0);
}

#[test]
fn ingest_decodes_shift_jis() {
    // 0xB1 is the Shift_JIS single-byte encoding of the half-width
    // katakana U+FF71; a decoder that passed bytes through unchanged
    // would not produce it.
    let mut bytes = page("<table><tr><td>");
    bytes.push(0xB1);
    bytes.extend_from_slice("</td></tr></table>".as_bytes());
    let rows = ingest(&bytes);
    assert_eq!(rows.len(), 1);
    assert_eq!(rows[0].0, "\u{FF71}");
}
