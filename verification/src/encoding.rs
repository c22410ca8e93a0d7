//! Turning the bytes of a fetched document into text: under a declared
//! encoding where there is one, else under the one that the document itself
//! announces, and under a single-byte Western encoding where it announces
//! none. Decoding never fails.

use std::io::Read;
use vstd::prelude::*;
use vstd::utf8::{decode_utf8, encode_utf8, valid_utf8};

verus! {

/// What `encoding_rs_io`'s decoder for the encoding that
/// `encoding_rs::Encoding::for_label` finds for the label makes of a
/// document: its text, with the replacement character in place of each
/// malformed sequence; `None` where the label names no encoding.
pub uninterp spec fn transcoded(body: Seq<u8>, label: Seq<u8>) -> Option<Seq<char>>;

/// Looks the label up with `encoding_rs::Encoding::for_label` and reads the
/// whole document through `encoding_rs_io`'s `DecodeReaderBytes` built for
/// that encoding. Trusted: the outcome is the one named by [`transcoded`].
#[verifier::external_body]
fn transcode(body: &Vec<u8>, label: &Vec<u8>) -> (text: Option<String>)
    ensures
        match text {
            Some(text) => transcoded(body@, label@) == Some(text@),
            None => transcoded(body@, label@) is None,
        },
{
    let encoding = encoding_rs::Encoding::for_label(label.as_slice())?;
    let mut reader = encoding_rs_io::DecodeReaderBytesBuilder::new()
        .encoding(Some(encoding))
        .build(std::io::Cursor::new(body.as_slice()));
    let mut text = String::new();
    reader.read_to_string(&mut text).ok()?;
    Some(text)
}

/// Reads bytes as UTF-8 with `std::str::from_utf8`. Trusted: well-formed
/// UTF-8 gives the text it encodes, anything else gives `None`.
#[verifier::external_body]
fn utf8_text(bytes: &Vec<u8>) -> (text: Option<String>)
    ensures
        match text {
            Some(text) => valid_utf8(bytes@) && text@ == decode_utf8(bytes@),
            None => !valid_utf8(bytes@),
        },
{
    std::str::from_utf8(bytes.as_slice()).ok().map(str::to_owned)
}

/// Appends one character with `String::push`.
#[verifier::external_body]
fn push_char(text: &mut String, c: char)
    ensures
        final(text)@ == old(text)@.push(c),
{
    text.push(c)
}

/// Whether `pattern` stands in `text` at `at`.
pub open spec fn stands_at(text: Seq<u8>, pattern: Seq<u8>, at: int) -> bool {
    0 <= at && at + pattern.len() <= text.len() && text.subrange(at, at + pattern.len())
        == pattern
}

/// The first place at or after `from` where `pattern` stands in `text`, or
/// the length of `text` where it stands nowhere.
pub open spec fn first_place(text: Seq<u8>, pattern: Seq<u8>, from: int) -> int
    decreases text.len() - from,
{
    if from < 0 || from >= text.len() || from + pattern.len() > text.len() {
        text.len() as int
    } else if stands_at(text, pattern, from) {
        from
    } else {
        first_place(text, pattern, from + 1)
    }
}

/// Space, tab, line feed or carriage return.
pub open spec fn is_blank(byte: u8) -> bool {
    byte == 0x20 || byte == 0x09 || byte == 0x0A || byte == 0x0D
}

/// The first place at or after `from` that holds no blank.
pub open spec fn after_blanks(text: Seq<u8>, from: int) -> int
    decreases text.len() - from,
{
    if 0 <= from < text.len() && is_blank(text[from]) {
        after_blanks(text, from + 1)
    } else {
        from
    }
}

/// `<?xml`, with which an XML declaration opens.
pub open spec fn declaration_opening() -> Seq<u8> {
    seq![0x3Cu8, 0x3Fu8, 0x78u8, 0x6Du8, 0x6Cu8]
}

/// `?>`, with which it closes.
pub open spec fn declaration_closing() -> Seq<u8> {
    seq![0x3Fu8, 0x3Eu8]
}

/// The word `encoding`.
pub open spec fn encoding_word() -> Seq<u8> {
    seq![0x65u8, 0x6Eu8, 0x63u8, 0x6Fu8, 0x64u8, 0x69u8, 0x6Eu8, 0x67u8]
}

/// Where the XML declaration of a document ends: just behind the first `?>`
/// of a document that opens with `<?xml`, and `0` where there is no
/// declaration.
pub open spec fn declaration_end(text: Seq<u8>) -> int {
    if stands_at(text, declaration_opening(), 0) && first_place(text, declaration_closing(), 5)
        < text.len() {
        first_place(text, declaration_closing(), 5) + 2
    } else {
        0
    }
}

/// The encoding that a declaration names: what stands between the quotes
/// behind the first `encoding` and its `=`. Blanks may stand on either side
/// of the `=`.
pub open spec fn named_in(declaration: Seq<u8>) -> Option<Seq<u8>> {
    let word = first_place(declaration, encoding_word(), 5);
    let equals = after_blanks(declaration, word + 8);
    let quote = after_blanks(declaration, equals + 1);
    if word >= declaration.len() {
        None
    } else if equals >= declaration.len() || declaration[equals] != 0x3D {
        None
    } else if quote >= declaration.len() || !(declaration[quote] == 0x22 || declaration[quote]
        == 0x27) {
        None
    } else {
        let close = first_place(declaration, seq![declaration[quote]], quote + 1);
        if close >= declaration.len() {
            None
        } else {
            Some(declaration.subrange(quote + 1, close))
        }
    }
}

/// The encoding that a document names in its own XML declaration, if it has
/// one that names any.
pub open spec fn document_label(body: Seq<u8>) -> Option<Seq<u8>> {
    if declaration_end(body) == 0 {
        None
    } else {
        named_in(body.take(declaration_end(body)))
    }
}

/// `utf-8`.
pub open spec fn utf8_label() -> Seq<u8> {
    seq![0x75u8, 0x74u8, 0x66u8, 0x2Du8, 0x38u8]
}

/// `utf-16le`.
pub open spec fn utf16le_label() -> Seq<u8> {
    seq![0x75u8, 0x74u8, 0x66u8, 0x2Du8, 0x31u8, 0x36u8, 0x6Cu8, 0x65u8]
}

/// `utf-16be`.
pub open spec fn utf16be_label() -> Seq<u8> {
    seq![0x75u8, 0x74u8, 0x66u8, 0x2Du8, 0x31u8, 0x36u8, 0x62u8, 0x65u8]
}

/// The encoding that a byte-order mark at the head of a document announces.
pub open spec fn mark_label(body: Seq<u8>) -> Option<Seq<u8>> {
    if body.len() >= 3 && body[0] == 0xEF && body[1] == 0xBB && body[2] == 0xBF {
        Some(utf8_label())
    } else if body.len() >= 2 && body[0] == 0xFF && body[1] == 0xFE {
        Some(utf16le_label())
    } else if body.len() >= 2 && body[0] == 0xFE && body[1] == 0xFF {
        Some(utf16be_label())
    } else {
        None
    }
}

/// A document read under ISO 8859-1, the single-byte Western encoding:
/// every byte is the character of the same number.
pub open spec fn western(body: Seq<u8>) -> Seq<char> {
    body.map_values(|byte: u8| byte as char)
}

/// The text under a label, where there is a label and it names an encoding.
pub open spec fn under(body: Seq<u8>, label: Option<Seq<u8>>) -> Option<Seq<char>> {
    match label {
        Some(label) => transcoded(body, label),
        None => None,
    }
}

/// The bytes of a declared label.
pub open spec fn label_bytes(declared: Option<&str>) -> Option<Seq<u8>> {
    match declared {
        Some(label) => Some(encode_utf8(label@)),
        None => None,
    }
}

/// The text of a document. A declared encoding decides; without one, or
/// with one that is not known, a byte-order mark does; then the encoding
/// that the document names in its XML declaration; then UTF-8, where the
/// bytes are well-formed UTF-8. Where all of this is inconclusive the
/// document is read under the single-byte Western encoding.
pub open spec fn decoded(body: Seq<u8>, declared: Option<Seq<u8>>) -> Seq<char> {
    if under(body, declared) is Some {
        under(body, declared)->0
    } else if under(body, mark_label(body)) is Some {
        under(body, mark_label(body))->0
    } else if under(body, document_label(body)) is Some {
        under(body, document_label(body))->0
    } else if valid_utf8(body) {
        decode_utf8(body)
    } else {
        western(body)
    }
}

/// What is handed to the parser: the text in UTF-8, without its XML
/// declaration, which names an encoding that no longer holds.
pub open spec fn parser_text(text: Seq<char>) -> Seq<u8> {
    encode_utf8(text).skip(declaration_end(encode_utf8(text)))
}

/// Whether `pattern` stands in `text` at `at`.
fn stands(text: &Vec<u8>, pattern: &Vec<u8>, at: usize) -> (found: bool)
    ensures
        found == stands_at(text@, pattern@, at as int),
{
    if pattern.len() > text.len() || at > text.len() - pattern.len() {
        return false;
    }
    let mut k: usize = 0;
    while k < pattern.len()
        invariant
            k <= pattern.len(),
            at + pattern.len() <= text.len(),
            forall|j: int| 0 <= j < k ==> text[at + j] == pattern[j],
        decreases pattern.len() - k,
    {
        if text[at + k] != pattern[k] {
            assert(text@.subrange(at as int, at + pattern.len())[k as int] != pattern@[k as int]);
            return false;
        }
        k += 1;
    }
    assert(text@.subrange(at as int, at + pattern.len()) =~= pattern@);
    true
}

/// The first place at or after `from` where `pattern` stands in `text`.
fn find(text: &Vec<u8>, pattern: &Vec<u8>, from: usize) -> (at: usize)
    ensures
        at == first_place(text@, pattern@, from as int),
        from <= at || at == text.len(),
        at <= text.len(),
{
    let mut i: usize = from;
    while i < text.len() && pattern.len() <= text.len() - i
        invariant
            from <= i,
            first_place(text@, pattern@, from as int) == first_place(text@, pattern@, i as int),
        decreases text.len() - i,
    {
        if stands(text, pattern, i) {
            return i;
        }
        i += 1;
    }
    text.len()
}

/// The first place at or after `from` that holds no blank.
fn skip_blanks(text: &Vec<u8>, from: usize) -> (at: usize)
    ensures
        at == after_blanks(text@, from as int),
        from <= at,
        at <= text.len() || at == from,
{
    let mut i: usize = from;
    while i < text.len() && (text[i] == 0x20 || text[i] == 0x09 || text[i] == 0x0A || text[i]
        == 0x0D)
        invariant
            from <= i,
            i <= text.len() || i == from,
            after_blanks(text@, from as int) == after_blanks(text@, i as int),
        decreases text.len() - i,
    {
        i += 1;
    }
    i
}

/// Where the XML declaration of a document ends, `0` where it has none.
fn find_declaration_end(text: &Vec<u8>) -> (end: usize)
    ensures
        end == declaration_end(text@),
        end <= text.len(),
{
    let opening: Vec<u8> = vec![0x3Cu8, 0x3Fu8, 0x78u8, 0x6Du8, 0x6Cu8];
    let closing: Vec<u8> = vec![0x3Fu8, 0x3Eu8];
    assert(opening@ =~= declaration_opening());
    assert(closing@ =~= declaration_closing());
    if !stands(text, &opening, 0) {
        return 0;
    }
    let close = find(text, &closing, 5);
    if close < text.len() {
        proof {
            lemma_first_place(text@, closing@, 5);
        }
        close + 2
    } else {
        0
    }
}

/// A place that [`first_place`] finds inside the text holds the pattern.
pub proof fn lemma_first_place(text: Seq<u8>, pattern: Seq<u8>, from: int)
    ensures
        first_place(text, pattern, from) < text.len() ==> stands_at(
            text,
            pattern,
            first_place(text, pattern, from),
        ) && from <= first_place(text, pattern, from),
    decreases text.len() - from,
{
    if !(from < 0 || from >= text.len() || from + pattern.len() > text.len()) && !stands_at(
        text,
        pattern,
        from,
    ) {
        lemma_first_place(text, pattern, from + 1);
    }
}

/// A copy of the bytes from `from` up to `to`.
fn copy_range(text: &Vec<u8>, from: usize, to: usize) -> (part: Vec<u8>)
    requires
        from <= to <= text.len(),
    ensures
        part@ == text@.subrange(from as int, to as int),
{
    let mut part: Vec<u8> = Vec::new();
    let mut i: usize = from;
    while i < to
        invariant
            from <= i <= to,
            to <= text.len(),
            part@ == text@.subrange(from as int, i as int),
        decreases to - i,
    {
        part.push(text[i]);
        assert(part@ =~= text@.subrange(from as int, i + 1));
        i += 1;
    }
    part
}

/// The encoding that a declaration names, if it names one.
fn find_named(declaration: &Vec<u8>) -> (label: Option<Vec<u8>>)
    ensures
        match label {
            Some(label) => named_in(declaration@) == Some(label@),
            None => named_in(declaration@) is None,
        },
{
    let word_bytes: Vec<u8> = vec![0x65u8, 0x6Eu8, 0x63u8, 0x6Fu8, 0x64u8, 0x69u8, 0x6Eu8, 0x67u8];
    assert(word_bytes@ =~= encoding_word());
    let word = find(declaration, &word_bytes, 5);
    if word >= declaration.len() {
        return None;
    }
    proof {
        lemma_first_place(declaration@, word_bytes@, 5);
    }
    let equals = skip_blanks(declaration, word + 8);
    if equals >= declaration.len() || declaration[equals] != 0x3D {
        return None;
    }
    let quote = skip_blanks(declaration, equals + 1);
    if quote >= declaration.len() || !(declaration[quote] == 0x22 || declaration[quote] == 0x27) {
        return None;
    }
    let mark: Vec<u8> = vec![declaration[quote]];
    assert(mark@ =~= seq![declaration@[quote as int]]);
    let close = find(declaration, &mark, quote + 1);
    if close >= declaration.len() {
        return None;
    }
    Some(copy_range(declaration, quote + 1, close))
}

/// The encoding that a document names in its own XML declaration.
fn find_document_label(body: &Vec<u8>) -> (label: Option<Vec<u8>>)
    ensures
        match label {
            Some(label) => document_label(body@) == Some(label@),
            None => document_label(body@) is None,
        },
{
    let end = find_declaration_end(body);
    if end == 0 {
        return None;
    }
    let declaration = copy_range(body, 0, end);
    assert(declaration@ =~= body@.take(end as int));
    find_named(&declaration)
}

/// The encoding that a byte-order mark announces.
fn find_mark_label(body: &Vec<u8>) -> (label: Option<Vec<u8>>)
    ensures
        match label {
            Some(label) => mark_label(body@) == Some(label@),
            None => mark_label(body@) is None,
        },
{
    if body.len() >= 3 && body[0] == 0xEF && body[1] == 0xBB && body[2] == 0xBF {
        let label: Vec<u8> = vec![0x75u8, 0x74u8, 0x66u8, 0x2Du8, 0x38u8];
        assert(label@ =~= utf8_label());
        Some(label)
    } else if body.len() >= 2 && body[0] == 0xFF && body[1] == 0xFE {
        let label: Vec<u8> = vec![0x75u8, 0x74u8, 0x66u8, 0x2Du8, 0x31u8, 0x36u8, 0x6Cu8, 0x65u8];
        assert(label@ =~= utf16le_label());
        Some(label)
    } else if body.len() >= 2 && body[0] == 0xFE && body[1] == 0xFF {
        let label: Vec<u8> = vec![0x75u8, 0x74u8, 0x66u8, 0x2Du8, 0x31u8, 0x36u8, 0x62u8, 0x65u8];
        assert(label@ =~= utf16be_label());
        Some(label)
    } else {
        None
    }
}

/// Reads a document under the single-byte Western encoding. Every byte
/// sequence has a text under it.
pub fn western_text(body: &Vec<u8>) -> (text: String)
    ensures
        text@ == western(body@),
{
    let mut text = String::new();
    let mut i: usize = 0;
    while i < body.len()
        invariant
            i <= body.len(),
            text@ == western(body@.take(i as int)),
        decreases body.len() - i,
    {
        push_char(&mut text, body[i] as char);
        assert(western(body@.take(i + 1)) =~= western(body@.take(i as int)).push(
            body[i as int] as char,
        ));
        i += 1;
    }
    assert(body@.take(i as int) =~= body@);
    text
}

/// The value of an optional label.
pub open spec fn label_view(label: Option<Vec<u8>>) -> Option<Seq<u8>> {
    match label {
        Some(label) => Some(label@),
        None => None,
    }
}

/// Reads a document under a label, where there is one and it names an
/// encoding.
fn decode_under(body: &Vec<u8>, label: Option<Vec<u8>>) -> (text: Option<String>)
    ensures
        match text {
            Some(text) => under(body@, label_view(label)) == Some(text@),
            None => under(body@, label_view(label)) is None,
        },
{
    match label {
        Some(label) => transcode(body, &label),
        None => None,
    }
}

/// Decodes a fetched document into text. It never fails: malformed
/// sequences become the replacement character, and a document that
/// announces no encoding and is no UTF-8 is read under the single-byte
/// Western encoding, under which every byte is a character.
pub fn decode_body(body: &Vec<u8>, declared: Option<&str>) -> (text: String)
    ensures
        text@ == decoded(body@, label_bytes(declared)),
{
    let declared_label = match declared {
        Some(label) => Some(label.as_bytes_vec()),
        None => None,
    };
    if let Some(text) = decode_under(body, declared_label) {
        return text;
    }
    if let Some(text) = decode_under(body, find_mark_label(body)) {
        return text;
    }
    if let Some(text) = decode_under(body, find_document_label(body)) {
        return text;
    }
    if let Some(text) = utf8_text(body) {
        return text;
    }
    western_text(body)
}

/// The bytes to hand to the parser for a decoded text: the text in UTF-8
/// from behind its XML declaration on. The declaration goes because the
/// encoding it names was dealt with in decoding.
pub fn parser_input(text: &str) -> (input: Vec<u8>)
    ensures
        input@ == parser_text(text@),
{
    let bytes = text.as_bytes_vec();
    let end = find_declaration_end(&bytes);
    let input = copy_range(&bytes, end, bytes.len());
    assert(input@ =~= bytes@.skip(end as int));
    input
}

} // verus!
