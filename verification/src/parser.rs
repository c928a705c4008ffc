//! Conservative, filename-independent inspection of extracted Tiger
//! definitions: the signature is decided from the content, header candidates
//! are recorded but never trusted as a schema, and printable strings, tag
//! identifiers and references are collected.
use vstd::prelude::*;
use vstd::string::*;
use crate::text::{
    ascii_space, byte_to_char, bytes_chars, decimal, graphic, hex_digit_char, hex_encode,
    hex_lower, is_ascii_space, is_graphic, is_hex_digit_char, is_printable, lit, prefixed_hex,
    printable, push_char, u64_decimal,
};
use crate::digest::{sha256, sha256_digest};

verus! {

/// The kind of content detected in a file.
#[derive(Debug, Clone, Copy, PartialEq, Eq, Structural)]
pub enum Signature {
    Seg,
    Definition8080,
    Text,
    Unknown,
}

/// One recorded field candidate.
#[derive(Debug, Clone)]
pub struct Field {
    pub kind: String,
    pub offset: u64,
    pub size: u64,
    pub value: Option<String>,
}

/// Everything recorded about one file.
#[derive(Debug, Clone)]
pub struct ParsedFile {
    pub signature: Signature,
    pub confidence: u8,
    pub hash: String,
    pub size: u64,
    pub fields: Vec<Field>,
    pub strings: Vec<(u64, String)>,
    pub references: Vec<(u64, String)>,
    pub tag_identifiers: Vec<(u64, String)>,
    pub type_information: Option<String>,
    pub warnings: Vec<String>,
}

impl Field {
    /// A field equal to this one.
    pub fn copy(&self) -> (r: Field)
        ensures
            r == *self,
    {
        let value = match &self.value {
            Some(v) => Some(v.clone()),
            None => None,
        };
        Field { kind: self.kind.clone(), offset: self.offset, size: self.size, value }
    }
}

pub struct FieldView {
    pub kind: Seq<char>,
    pub offset: u64,
    pub size: u64,
    pub value: Option<Seq<char>>,
}

pub open spec fn opt_view(o: Option<String>) -> Option<Seq<char>> {
    match o {
        Some(s) => Some(s@),
        None => None,
    }
}

impl View for Field {
    type V = FieldView;

    open spec fn view(&self) -> FieldView {
        FieldView { kind: self.kind@, offset: self.offset, size: self.size, value: opt_view(self.value) }
    }
}

/// The abstract content of a list of offset/text entries.
pub open spec fn entries_view(v: Seq<(u64, String)>) -> Seq<(u64, Seq<char>)> {
    v.map_values(|p: (u64, String)| (p.0, p.1@))
}

pub open spec fn fields_view(v: Seq<Field>) -> Seq<FieldView> {
    v.map_values(|f: Field| f@)
}

pub open spec fn strings_view(v: Seq<String>) -> Seq<Seq<char>> {
    v.map_values(|s: String| s@)
}

pub struct ParsedView {
    pub signature: Signature,
    pub confidence: u8,
    pub hash: Seq<char>,
    pub size: u64,
    pub fields: Seq<FieldView>,
    pub strings: Seq<(u64, Seq<char>)>,
    pub references: Seq<(u64, Seq<char>)>,
    pub tag_identifiers: Seq<(u64, Seq<char>)>,
    pub type_information: Option<Seq<char>>,
    pub warnings: Seq<Seq<char>>,
}

impl View for ParsedFile {
    type V = ParsedView;

    open spec fn view(&self) -> ParsedView {
        ParsedView {
            signature: self.signature,
            confidence: self.confidence,
            hash: self.hash@,
            size: self.size,
            fields: fields_view(self.fields@),
            strings: entries_view(self.strings@),
            references: entries_view(self.references@),
            tag_identifiers: entries_view(self.tag_identifiers@),
            type_information: opt_view(self.type_information),
            warnings: strings_view(self.warnings@),
        }
    }
}

// ---------------------------------------------------------------------------
// Words and tags
// ---------------------------------------------------------------------------

/// The big-endian value of the `k`-th four-byte word.
pub open spec fn be_word(b: Seq<u8>, k: int) -> int {
    b[4 * k] * 16777216 + b[4 * k + 1] * 65536 + b[4 * k + 2] * 256 + b[4 * k + 3]
}

/// The little-endian value of the `k`-th four-byte word.
pub open spec fn le_word(b: Seq<u8>, k: int) -> int {
    b[4 * k + 3] * 16777216 + b[4 * k + 2] * 65536 + b[4 * k + 1] * 256 + b[4 * k]
}

/// Tag hashes lie in `0x80800001..=0x81ffffff`.
pub open spec fn spec_is_tag_hash(v: int) -> bool {
    0x80800001 <= v <= 0x81ffffff
}

/// Whether a word is a tag hash.
pub fn is_tag_hash(value: u32) -> (r: bool)
    ensures
        r == spec_is_tag_hash(value as int),
{
    0x80800001 <= value && value <= 0x81ffffff
}

fn be_word_at(b: &[u8], k: usize) -> (r: u32)
    requires
        4 * k + 4 <= b@.len(),
    ensures
        r as int == be_word(b@, k as int),
{
    let _n = b.len();
    let i = 4 * k;
    (b[i] as u32) * 16777216 + (b[i + 1] as u32) * 65536 + (b[i + 2] as u32) * 256 + (b[i + 3] as u32)
}

fn le_word_at(b: &[u8], k: usize) -> (r: u32)
    requires
        4 * k + 4 <= b@.len(),
    ensures
        r as int == le_word(b@, k as int),
{
    let _n = b.len();
    let i = 4 * k;
    (b[i + 3] as u32) * 16777216 + (b[i + 2] as u32) * 65536 + (b[i + 1] as u32) * 256 + (b[i] as u32)
}

/// The number of four-byte words the header scan looks at.
pub open spec fn header_words(b: Seq<u8>) -> int {
    if b.len() / 4 < 16 {
        (b.len() / 4) as int
    } else {
        16
    }
}

// ---------------------------------------------------------------------------
// Signature detection
// ---------------------------------------------------------------------------

/// Some word among the header words, other than the second, is a tag hash.
pub open spec fn header_has_tag(b: Seq<u8>) -> bool {
    exists|k: int| 0 <= k < header_words(b) && k != 1 && spec_is_tag_hash(#[trigger] be_word(b, k))
}

pub open spec fn starts_with_seg(b: Seq<u8>) -> bool {
    &&& b.len() >= 4
    &&& b[0] == 0x53 && b[1] == 0x45 && b[2] == 0x47
    &&& (b[3] == 0x46 || b[3] == 0)
}

/// Every byte is graphic ASCII or ASCII whitespace.
pub open spec fn all_text(b: Seq<u8>) -> bool {
    forall|i: int| 0 <= i < b.len() ==> #[trigger] is_graphic(b[i]) || is_ascii_space(b[i])
}

/// The detected signature and the confidence in it.
pub open spec fn spec_detect_signature(b: Seq<u8>) -> (Signature, u8) {
    if starts_with_seg(b) {
        (Signature::Seg, 100)
    } else if b.len() >= 16 && be_word(b, 0) == b.len() && header_has_tag(b) {
        (Signature::Definition8080, 100)
    } else if b.len() > 0 && all_text(b) {
        (Signature::Text, 70)
    } else {
        (Signature::Unknown, 0)
    }
}

/// Decides the signature from the content alone: a `SEGF`/`SEG\0` magic;
/// an extracted 8080 payload, recognised only when its big-endian length
/// word equals the file length and a tag hash appears in a header word other
/// than the second; text made only of graphic ASCII and whitespace; or
/// unknown.
pub fn detect_signature(b: &[u8]) -> (r: (Signature, u8))
    ensures
        r == spec_detect_signature(b@),
{
    let n = b.len();
    if n >= 4 && b[0] == 0x53 && b[1] == 0x45 && b[2] == 0x47 && (b[3] == 0x46 || b[3] == 0) {
        return (Signature::Seg, 100);
    }
    if n >= 16 {
        let declared = be_word_at(b, 0);
        let words = if n / 4 < 16 { n / 4 } else { 16 };
        let mut has_tag = false;
        for k in 0..words
            invariant
                n == b@.len(),
                words == header_words(b@),
                has_tag <==> exists|j: int| 0 <= j < k && j != 1 && spec_is_tag_hash(#[trigger] be_word(b@, j)),
        {
            if k != 1 && is_tag_hash(be_word_at(b, k)) {
                has_tag = true;
            }
        }
        if declared as usize == n && has_tag {
            return (Signature::Definition8080, 100);
        }
    }
    if n > 0 {
        let mut text = true;
        let mut i: usize = 0;
        while i < n
            invariant
                n == b@.len(),
                i <= n,
                text <==> forall|j: int| 0 <= j < i ==> #[trigger] is_graphic(b@[j]) || is_ascii_space(b@[j]),
            decreases n - i,
        {
            if !(graphic(b[i]) || ascii_space(b[i])) {
                text = false;
            }
            i = i + 1;
        }
        if text {
            return (Signature::Text, 70);
        }
    }
    (Signature::Unknown, 0)
}

// ---------------------------------------------------------------------------
// Printable strings
// ---------------------------------------------------------------------------

/// One step of the string scan at position `i`: a printable byte opens a
/// run when none is open; any other byte closes the open run, which is kept
/// when it is at least four bytes long.
pub open spec fn scan_step(runs: Seq<(int, int)>, start: Option<int>, i: int, printable: bool) -> (
    Seq<(int, int)>,
    Option<int>,
) {
    if printable {
        (runs, if start is None { Some(i) } else { start })
    } else {
        match start {
            Some(s) => (if i - s >= 4 { runs.push((s, i)) } else { runs }, None),
            None => (runs, None),
        }
    }
}

/// The runs found and the run left open after scanning the first `i` bytes.
pub open spec fn scan(b: Seq<u8>, i: int) -> (Seq<(int, int)>, Option<int>)
    decreases i,
{
    if i <= 0 {
        (seq![], None)
    } else {
        let prev = scan(b, i - 1);
        scan_step(prev.0, prev.1, i - 1, is_printable(b[i - 1]))
    }
}

/// The maximal runs of printable bytes that are at least four bytes long,
/// as start and end offsets; the end of the input closes the last run.
pub open spec fn string_runs(b: Seq<u8>) -> Seq<(int, int)> {
    let st = scan(b, b.len() as int);
    scan_step(st.0, st.1, b.len() as int, false).0
}

pub open spec fn run_entry(b: Seq<u8>, r: (int, int)) -> (u64, Seq<char>) {
    (r.0 as u64, bytes_chars(b.subrange(r.0, r.1)))
}

/// The extracted strings with their offsets.
pub open spec fn spec_extract_strings(b: Seq<u8>) -> Seq<(u64, Seq<char>)> {
    string_runs(b).map_values(|r: (int, int)| run_entry(b, r))
}

proof fn lemma_scan_bounds(b: Seq<u8>, i: int)
    requires
        0 <= i <= b.len(),
    ensures
        scan(b, i).1 matches Some(s) ==> 0 <= s < i,
        forall|j: int| 0 <= j < scan(b, i).0.len() ==> {
            let r = #[trigger] scan(b, i).0[j];
            0 <= r.0 < r.1 <= i
        },
    decreases i,
{
    if i > 0 {
        lemma_scan_bounds(b, i - 1);
    }
}

/// The characters of `b[s..e]`.
fn chars_between(b: &[u8], s: usize, e: usize) -> (res: String)
    requires
        s <= e <= b@.len(),
    ensures
        res@ == bytes_chars(b@.subrange(s as int, e as int)),
{
    let mut out = String::new();
    let mut j = s;
    while j < e
        invariant
            s <= j <= e <= b@.len(),
            out@ == bytes_chars(b@.subrange(s as int, j as int)),
        decreases e - j,
    {
        push_char(&mut out, byte_to_char(b[j]));
        assert(b@.subrange(s as int, j + 1) == b@.subrange(s as int, j as int).push(b@[j as int]));
        j = j + 1;
    }
    out
}

/// Collects every maximal run of printable bytes (graphic, space or tab)
/// that is at least four bytes long, with its offset, in order.
pub fn extract_strings(b: &[u8]) -> (out: Vec<(u64, String)>)
    ensures
        entries_view(out@) == spec_extract_strings(b@),
{
    let n = b.len();
    let mut out: Vec<(u64, String)> = Vec::new();
    let mut start: Option<usize> = None;
    for i in 0..n
        invariant
            n == b@.len(),
            entries_view(out@) == scan(b@, i as int).0.map_values(|r: (int, int)| run_entry(b@, r)),
            start is None <==> scan(b@, i as int).1 is None,
            start matches Some(s) ==> scan(b@, i as int).1 == Some(s as int) && s < i,
    {
        proof {
            lemma_scan_bounds(b@, i as int);
        }
        let ghost prev = scan(b@, i as int);
        let p = printable(b[i]);
        if p {
            if start.is_none() {
                start = Some(i);
            }
        } else {
            if let Some(s) = start {
                if i - s >= 4 {
                    let text = chars_between(b, s, i);
                    let ghost old_out = out@;
                    out.push((s as u64, text));
                    assert(entries_view(out@) == entries_view(old_out).push(run_entry(b@, (s as int, i as int))));
                }
                start = None;
            }
        }
        assert(entries_view(out@) == scan(b@, i + 1).0.map_values(|r: (int, int)| run_entry(b@, r)));
    }
    proof {
        lemma_scan_bounds(b@, n as int);
    }
    if let Some(s) = start {
        if n - s >= 4 {
            let text = chars_between(b, s, n);
            let ghost old_out = out@;
            out.push((s as u64, text));
            assert(entries_view(out@) == entries_view(old_out).push(run_entry(b@, (s as int, n as int))));
        }
    }
    out
}


// ---------------------------------------------------------------------------
// Header candidates, tag identifiers and references
// ---------------------------------------------------------------------------

/// A header word read as a little-endian length candidate.
pub open spec fn header_field(b: Seq<u8>, k: int) -> FieldView {
    FieldView {
        kind: "header_candidate"@,
        offset: (4 * k) as u64,
        size: 4,
        value: Some(decimal(le_word(b, k) as nat)),
    }
}

/// Header candidates among the first `n` words: each word whose
/// little-endian value is smaller than the file length.
pub open spec fn header_candidates(b: Seq<u8>, n: int) -> Seq<FieldView>
    decreases n,
{
    if n <= 0 {
        seq![]
    } else {
        let prev = header_candidates(b, n - 1);
        if le_word(b, n - 1) < b.len() {
            prev.push(header_field(b, n - 1))
        } else {
            prev
        }
    }
}

/// A word holding a tag hash, rendered as `0x` and eight hexadecimal digits.
pub open spec fn tag_entry(b: Seq<u8>, k: int) -> (u64, Seq<char>) {
    ((4 * k) as u64, "0x"@ + hex_lower(b.subrange(4 * k, 4 * k + 4)))
}

/// Tag identifiers among the first `n` words: every big-endian word other
/// than the second that is a tag hash.
pub open spec fn tag_identifiers(b: Seq<u8>, n: int) -> Seq<(u64, Seq<char>)>
    decreases n,
{
    if n <= 0 {
        seq![]
    } else {
        let prev = tag_identifiers(b, n - 1);
        if n - 1 != 1 && spec_is_tag_hash(be_word(b, n - 1)) {
            prev.push(tag_entry(b, n - 1))
        } else {
            prev
        }
    }
}

/// A string that reads as a 64-digit hexadecimal hash.
pub open spec fn is_hex_reference(s: Seq<char>) -> bool {
    s.len() == 64 && forall|i: int| 0 <= i < s.len() ==> #[trigger] is_hex_digit_char(s[i])
}

/// The entries whose text is a 64-digit hexadecimal hash, in order.
pub open spec fn hex_references(s: Seq<(u64, Seq<char>)>) -> Seq<(u64, Seq<char>)>
    decreases s.len(),
{
    if s.len() == 0 {
        seq![]
    } else {
        let prev = hex_references(s.drop_last());
        if is_hex_reference(s.last().1) {
            prev.push(s.last())
        } else {
            prev
        }
    }
}

/// The tag identifiers past the first eight bytes, in order.
pub open spec fn late_tags(t: Seq<(u64, Seq<char>)>) -> Seq<(u64, Seq<char>)>
    decreases t.len(),
{
    if t.len() == 0 {
        seq![]
    } else {
        let prev = late_tags(t.drop_last());
        if t.last().0 > 8 {
            prev.push(t.last())
        } else {
            prev
        }
    }
}

pub open spec fn unknown_warning() -> Seq<char> {
    "No known signature; retained hash, bounded header candidates, and strings"@
}

pub open spec fn no_strings_warning() -> Seq<char> {
    "No printable string table found"@
}

/// The warnings: one when no signature is known, one when a non-empty
/// file has no printable string.
pub open spec fn spec_warnings(b: Seq<u8>, sig: Signature, strings: Seq<(u64, Seq<char>)>) -> Seq<Seq<char>> {
    let w: Seq<Seq<char>> = if sig == Signature::Unknown { seq![unknown_warning()] } else { seq![] };
    if strings.len() == 0 && b.len() > 0 {
        w.push(no_strings_warning())
    } else {
        w
    }
}

/// The type word of an 8080 payload: its second big-endian word.
pub open spec fn spec_type_information(b: Seq<u8>, sig: Signature) -> Option<Seq<char>> {
    if sig == Signature::Definition8080 && b.len() >= 8 {
        Some("0x"@ + hex_lower(b.subrange(4, 8)))
    } else {
        None
    }
}

/// What is recorded of a file with content `b`.
pub open spec fn spec_parse_bytes(b: Seq<u8>) -> ParsedView {
    let sig = spec_detect_signature(b);
    let strings = spec_extract_strings(b);
    let tags = tag_identifiers(b, (b.len() / 4) as int);
    ParsedView {
        signature: sig.0,
        confidence: sig.1,
        hash: hex_lower(sha256(b)),
        size: b.len() as u64,
        fields: header_candidates(b, header_words(b)),
        strings: strings,
        references: hex_references(strings) + late_tags(tags),
        tag_identifiers: tags,
        type_information: spec_type_information(b, sig.0),
        warnings: spec_warnings(b, sig.0, strings),
    }
}

fn collect_header_candidates(b: &[u8]) -> (out: Vec<Field>)
    ensures
        fields_view(out@) == header_candidates(b@, header_words(b@)),
{
    let n = b.len();
    let words = if n / 4 < 16 { n / 4 } else { 16 };
    let mut out: Vec<Field> = Vec::new();
    for k in 0..words
        invariant
            n == b@.len(),
            words == header_words(b@),
            fields_view(out@) == header_candidates(b@, k as int),
    {
        let value = le_word_at(b, k);
        if (value as u64) < (n as u64) {
            let f = Field {
                kind: lit("header_candidate"),
                offset: (k * 4) as u64,
                size: 4,
                value: Some(u64_decimal(value as u64)),
            };
            let ghost old_out = out@;
            out.push(f);
            assert(fields_view(out@) == fields_view(old_out).push(f@));
        }
    }
    out
}

fn collect_tag_identifiers(b: &[u8]) -> (out: Vec<(u64, String)>)
    ensures
        entries_view(out@) == tag_identifiers(b@, (b@.len() / 4) as int),
{
    let n = b.len();
    let words = n / 4;
    let mut out: Vec<(u64, String)> = Vec::new();
    for k in 0..words
        invariant
            n == b@.len(),
            words == n / 4,
            entries_view(out@) == tag_identifiers(b@, k as int),
    {
        let value = be_word_at(b, k);
        if k != 1 && is_tag_hash(value) {
            let text = prefixed_hex(&b[4 * k..4 * k + 4]);
            let ghost old_out = out@;
            out.push(((k * 4) as u64, text));
            assert(entries_view(out@) == entries_view(old_out).push(tag_entry(b@, k as int)));
        }
    }
    out
}

fn hex_reference(s: &String) -> (r: bool)
    ensures
        r == is_hex_reference(s@),
{
    let t = s.as_str();
    let len = t.unicode_len();
    if len != 64 {
        return false;
    }
    for i in 0..len
        invariant
            len == t@.len(),
            t@ == s@,
            forall|j: int| 0 <= j < i ==> #[trigger] is_hex_digit_char(t@[j]),
    {
        if !hex_digit_char(t.get_char(i)) {
            return false;
        }
    }
    true
}

fn collect_references(strings: &Vec<(u64, String)>, tags: &Vec<(u64, String)>) -> (out: Vec<(u64, String)>)
    ensures
        entries_view(out@) == hex_references(entries_view(strings@)) + late_tags(entries_view(tags@)),
{
    let mut out: Vec<(u64, String)> = Vec::new();
    let ns = strings.len();
    for i in 0..ns
        invariant
            ns == strings@.len(),
            entries_view(out@) == hex_references(entries_view(strings@.subrange(0, i as int))),
    {
        let ghost pre = strings@.subrange(0, i as int);
        let ghost cur = strings@.subrange(0, i + 1);
        assert(entries_view(cur).drop_last() == entries_view(pre));
        assert(entries_view(cur).last() == (strings@[i as int].0, strings@[i as int].1@));
        if hex_reference(&strings[i].1) {
            let ghost old_out = out@;
            out.push((strings[i].0, strings[i].1.clone()));
            assert(entries_view(out@) == entries_view(old_out).push(entries_view(cur).last()));
        }
    }
    assert(strings@.subrange(0, ns as int) == strings@);
    let ghost head = entries_view(out@);
    let nt = tags.len();
    for i in 0..nt
        invariant
            nt == tags@.len(),
            head == hex_references(entries_view(strings@)),
            out@.len() >= head.len(),
            entries_view(out@) == head + late_tags(entries_view(tags@.subrange(0, i as int))),
    {
        let ghost pre = tags@.subrange(0, i as int);
        let ghost cur = tags@.subrange(0, i + 1);
        assert(entries_view(cur).drop_last() == entries_view(pre));
        assert(entries_view(cur).last() == (tags@[i as int].0, tags@[i as int].1@));
        if tags[i].0 > 8 {
            let ghost old_out = out@;
            out.push((tags[i].0, tags[i].1.clone()));
            assert(entries_view(out@) == entries_view(old_out).push(entries_view(cur).last()));
            assert(entries_view(out@) == head + late_tags(entries_view(cur)));
        }
    }
    assert(tags@.subrange(0, nt as int) == tags@);
    out
}

/// Records what can be said of a file's content without trusting any schema:
/// its SHA-256 in lower-case hexadecimal, the detected signature, the first
/// sixteen little-endian words that could be lengths within the file, the
/// printable strings, every big-endian word (but the second) that is a tag
/// hash, the type word of an 8080 payload, the references (64-digit
/// hexadecimal strings, then tag identifiers past offset 8) and warnings.
pub fn parse_bytes(bytes: &[u8]) -> (p: ParsedFile)
    ensures
        p@ == spec_parse_bytes(bytes@),
        p.hash@.len() == 64,
{
    let digest = sha256_digest(bytes);
    let hash = hex_encode(digest.as_slice());
    let (signature, confidence) = detect_signature(bytes);
    let fields = collect_header_candidates(bytes);
    let strings = extract_strings(bytes);
    let tag_identifiers = collect_tag_identifiers(bytes);
    let type_information = if signature == Signature::Definition8080 && bytes.len() >= 8 {
        Some(prefixed_hex(&bytes[4..8]))
    } else {
        None
    };
    let mut warnings: Vec<String> = Vec::new();
    if signature == Signature::Unknown {
        warnings.push(lit("No known signature; retained hash, bounded header candidates, and strings"));
    }
    if strings.len() == 0 && bytes.len() > 0 {
        warnings.push(lit("No printable string table found"));
    }
    let references = collect_references(&strings, &tag_identifiers);
    let p = ParsedFile {
        signature,
        confidence,
        hash,
        size: bytes.len() as u64,
        fields,
        strings,
        references,
        tag_identifiers,
        type_information,
        warnings,
    };
    assert(p@.warnings == spec_warnings(bytes@, signature, entries_view(p.strings@)));
    p
}

} // verus!
