use vstd::prelude::*;

use crate::text::ends_with_char;

verus! {

/// The header line of a file block.
pub open spec fn header_line(path: Seq<char>) -> Seq<char> {
    "========== FILE: "@ + path + " ==========\n"@
}

/// The closing of a file block: an explicit end line and a blank line, or a
/// blank line alone.
pub open spec fn block_end(path: Seq<char>, end_marker: bool) -> Seq<char> {
    if end_marker {
        "========== END FILE: "@ + path + " ==========\n\n"@
    } else {
        "\n"@
    }
}

/// The content, with a line feed added where it does not end in one.
pub open spec fn with_final_newline(text: Seq<char>) -> Seq<char> {
    if text.len() > 0 && text.last() == '\n' {
        text
    } else {
        text + "\n"@
    }
}

/// One file in text mode: header, content ending in a line feed, closing.
pub open spec fn text_block(path: Seq<char>, text: Seq<char>, end_marker: bool) -> Seq<char> {
    header_line(path) + with_final_newline(text) + block_end(path, end_marker)
}

/// Renders one file block of the text encoding.
pub fn render_text_block(display_path: &str, text: &str, end_marker: bool) -> (r: String)
    ensures
        r@ == text_block(display_path@, text@, end_marker),
{
    let mut out = String::from_str("========== FILE: ");
    out.append(display_path);
    out.append(" ==========\n");
    out.append(text);
    if !ends_with_char(text, '\n') {
        out.append("\n");
    }
    if end_marker {
        out.append("========== END FILE: ");
        out.append(display_path);
        out.append(" ==========\n\n");
    } else {
        out.append("\n");
    }
    assert(out@ =~= text_block(display_path@, text@, end_marker));
    out
}

/// A lowercase hexadecimal digit.
pub open spec fn hex_digit(d: nat) -> char {
    if d < 10 {
        digit_char(d)
    } else if d == 10 { 'a' } else if d == 11 { 'b' } else if d == 12 { 'c' } else if d == 13 {
        'd'
    } else if d == 14 { 'e' } else { 'f' }
}

/// How one character stands inside a JSON string: quote and backslash
/// escaped, the five named control characters by their letter, any other
/// control character below U+0020 as `\u00XX`, every other character as it is.
pub open spec fn escape_char(c: char) -> Seq<char> {
    if c == '"' {
        seq!['\\', '"']
    } else if c == '\\' {
        seq!['\\', '\\']
    } else if c == '\u{8}' {
        seq!['\\', 'b']
    } else if c == '\t' {
        seq!['\\', 't']
    } else if c == '\n' {
        seq!['\\', 'n']
    } else if c == '\u{c}' {
        seq!['\\', 'f']
    } else if c == '\r' {
        seq!['\\', 'r']
    } else if (c as u32) < 0x20 {
        seq!['\\', 'u', '0', '0', hex_digit((c as u32) as nat / 16), hex_digit((c as u32) as nat % 16)]
    } else {
        seq![c]
    }
}

/// The characters of a text, each escaped.
pub open spec fn escaped(s: Seq<char>) -> Seq<char>
    decreases s.len(),
{
    if s.len() == 0 {
        Seq::empty()
    } else {
        escaped(s.drop_last()) + escape_char(s.last())
    }
}

/// The JSON string literal of a text: its escaped characters between quotes.
pub open spec fn json_string_of(s: Seq<char>) -> Seq<char> {
    seq!['"'] + escaped(s) + seq!['"']
}

/// Relies on `serde_json::to_string` on a `str`, which writes the quoted
/// string, escaped by its table of escapes, into a `Vec` and does not fail.
#[verifier::external_body]
fn json_string(s: &str) -> (r: Result<String, String>)
    ensures
        r is Ok,
        r matches Ok(j) ==> j@ == json_string_of(s@),
{
    serde_json::to_string(s).map_err(|e| e.to_string())
}

/// A JSON object with the keys `path`, `file_name` and `content` in that
/// order, each value given as its JSON string literal.
pub open spec fn object_text(path: Seq<char>, name: Seq<char>, content: Seq<char>) -> Seq<char> {
    "{\"path\":"@ + path + ",\"file_name\":"@ + name + ",\"content\":"@ + content + "}"@
}

/// The JSON record of one file.
pub open spec fn json_record_of(path: Seq<char>, name: Seq<char>, content: Seq<char>) -> Seq<char> {
    object_text(json_string_of(path), json_string_of(name), json_string_of(content))
}

/// Builds the object text from the three values already encoded as JSON
/// string literals.
pub fn object_from_literals(path: &str, name: &str, content: &str) -> (r: String)
    ensures
        r@ == object_text(path@, name@, content@),
{
    let mut out = String::from_str("{\"path\":");
    out.append(path);
    out.append(",\"file_name\":");
    out.append(name);
    out.append(",\"content\":");
    out.append(content);
    out.append("}");
    out
}

/// The JSON record of one file: an object with `path`, `file_name` and
/// `content`, in that order.
pub fn json_record(path: &str, file_name: &str, content: &str) -> (r: String)
    ensures
        r@ == json_record_of(path@, file_name@, content@),
{
    let p = json_string(path);
    let n = json_string(file_name);
    let c = json_string(content);
    match (p, n, c) {
        (Ok(p), Ok(n), Ok(c)) => object_from_literals(p.as_str(), n.as_str(), c.as_str()),
        _ => {
            proof {
                assert(false);
            }
            String::new()
        },
    }
}

/// The records joined with `,` and a line feed between each two.
pub open spec fn joined(items: Seq<Seq<char>>) -> Seq<char>
    decreases items.len(),
{
    if items.len() == 0 {
        Seq::empty()
    } else if items.len() == 1 {
        items[0]
    } else {
        joined(items.drop_last()) + ",\n"@ + items.last()
    }
}

/// The whole JSON document for the records, in order.
pub open spec fn json_document(items: Seq<Seq<char>>) -> Seq<char> {
    "[\n"@ + joined(items) + "\n]\n"@
}

/// Streams a JSON array: the opening bracket, each record with the separator
/// it needs, and the closing bracket.
pub struct JsonArrayWriter {
    first: bool,
    items: Ghost<Seq<Seq<char>>>,
}

impl JsonArrayWriter {
    /// The records written so far.
    pub closed spec fn written(&self) -> Seq<Seq<char>> {
        self.items@
    }

    /// The writer's flag agrees with the records written.
    pub closed spec fn wf(&self) -> bool {
        self.first == (self.items@.len() == 0)
    }

    /// A writer with no record yet, and the text that opens the array.
    pub fn begin() -> (r: (JsonArrayWriter, String))
        ensures
            r.0.wf(),
            r.0.written() == Seq::<Seq<char>>::empty(),
            r.1@ == "[\n"@,
    {
        (JsonArrayWriter { first: true, items: Ghost(Seq::empty()) }, String::from_str("[\n"))
    }

    /// The text to write for the next record.
    pub fn item(&mut self, record: &str) -> (r: String)
        requires
            old(self).wf(),
        ensures
            final(self).wf(),
            final(self).written() == old(self).written().push(record@),
            "[\n"@ + joined(old(self).written()) + r@ == "[\n"@ + joined(final(self).written()),
    {
        let ghost prev = self.items@;
        let ghost now = prev.push(record@);
        assert(now.drop_last() =~= prev);
        let out = if self.first {
            String::from_str(record)
        } else {
            let mut s = String::from_str(",\n");
            s.append(record);
            s
        };
        self.first = false;
        self.items = Ghost(now);
        proof {
            if prev.len() == 0 {
                assert(joined(now) == record@);
                assert(joined(prev) =~= Seq::<char>::empty());
            }
        }
        assert("[\n"@ + joined(prev) + out@ =~= "[\n"@ + joined(now));
        out
    }

    /// The text that closes the array.
    pub fn finish(&self) -> (r: String)
        ensures
            r@ == "\n]\n"@,
    {
        String::from_str("\n]\n")
    }
}

/// The document opens with `[`, closes with `]` and a line feed, and holds
/// the records between them; with no record it is `[`, two line feeds and `]`.
pub proof fn json_document_shape(items: Seq<Seq<char>>)
    ensures
        json_document(items) == "[\n"@ + joined(items) + "\n]\n"@,
        json_document(items)[0] == '[',
        json_document(items)[json_document(items).len() - 2] == ']',
        items.len() == 0 ==> json_document(items) == "[\n\n]\n"@,
{
    reveal_strlit("[\n");
    reveal_strlit("\n]\n");
    reveal_strlit("[\n\n]\n");
    let d = json_document(items);
    assert(d[0] == '[');
    assert(d[d.len() - 2] == "\n]\n"@[1]);
    if items.len() == 0 {
        assert(d =~= "[\n\n]\n"@);
    }
}

/// Decimal digits of a number, most significant first.
pub open spec fn decimal(n: nat) -> Seq<char>
    decreases n,
{
    if n < 10 {
        seq![digit_char(n)]
    } else {
        decimal(n / 10) + seq![digit_char(n % 10)]
    }
}

/// The character of one decimal digit.
pub open spec fn digit_char(d: nat) -> char {
    if d == 0 { '0' } else if d == 1 { '1' } else if d == 2 { '2' } else if d == 3 { '3' }
    else if d == 4 { '4' } else if d == 5 { '5' } else if d == 6 { '6' } else if d == 7 { '7' }
    else if d == 8 { '8' } else { '9' }
}

fn digit_str(d: u64) -> (r: &'static str)
    requires
        d < 10,
    ensures
        r@ == seq![digit_char(d as nat)],
{
    proof {
        reveal_strlit("0"); reveal_strlit("1"); reveal_strlit("2"); reveal_strlit("3");
        reveal_strlit("4"); reveal_strlit("5"); reveal_strlit("6"); reveal_strlit("7");
        reveal_strlit("8"); reveal_strlit("9");
    }
    let r = if d == 0 { "0" } else if d == 1 { "1" } else if d == 2 { "2" } else if d == 3 { "3" }
    else if d == 4 { "4" } else if d == 5 { "5" } else if d == 6 { "6" } else if d == 7 { "7" }
    else if d == 8 { "8" } else { "9" };
    assert(r@ =~= seq![digit_char(d as nat)]);
    r
}

/// The decimal form of a number.
pub fn decimal_string(n: u64) -> (r: String)
    ensures
        r@ == decimal(n as nat),
    decreases n,
{
    if n < 10 {
        String::from_str(digit_str(n))
    } else {
        let mut s = decimal_string(n / 10);
        s.append(digit_str(n % 10));
        s
    }
}

/// The informational line for a file skipped for its size.
pub open spec fn size_skip_text(path: Seq<char>, size: nat, limit: nat) -> Seq<char> {
    "Skipping "@ + path + " (size "@ + decimal(size) + " bytes > max "@ + decimal(limit)
        + " bytes)"@
}

/// The informational line for a file of `size` bytes skipped under the
/// threshold `limit`.
pub fn size_skip_message(display_path: &str, size: u64, limit: u64) -> (r: String)
    ensures
        r@ == size_skip_text(display_path@, size as nat, limit as nat),
{
    let mut out = String::from_str("Skipping ");
    out.append(display_path);
    out.append(" (size ");
    let s = decimal_string(size);
    out.append(s.as_str());
    out.append(" bytes > max ");
    let l = decimal_string(limit);
    out.append(l.as_str());
    out.append(" bytes)");
    out
}

} // verus!
