//! Character-level helpers shared by the parsers, the packet tools and the
//! definition lookups: byte classes, decimal and hexadecimal rendering.
use vstd::prelude::*;
use vstd::string::*;

verus! {

/// Appends one character to a string.
///
/// Trusted: `String::push`, documented to append the given char to the end
/// of the string and to change nothing else.
#[verifier::external_body]
pub(crate) fn push_char(s: &mut String, c: char)
    ensures
        final(s)@ == old(s)@.push(c),
{
    s.push(c);
}

/// Lower-case hexadecimal encoding of bytes.
///
/// Trusted: `hex::encode`, which maps each byte to two characters of
/// `0123456789abcdef`, high nibble first (its `BytesToHexChars` iterator).
#[verifier::external_body]
pub(crate) fn hex_encode(data: &[u8]) -> (res: String)
    ensures
        res@ == hex_lower(data@),
{
    hex::encode(data)
}

/// The character a byte stands for when it is read as Latin-1 / ASCII.
pub open spec fn byte_char(b: u8) -> char {
    b as char
}

pub fn byte_to_char(b: u8) -> (c: char)
    ensures
        c == byte_char(b),
{
    b as char
}

/// The characters of a byte string read as ASCII.
pub open spec fn bytes_chars(b: Seq<u8>) -> Seq<char> {
    b.map_values(|x: u8| byte_char(x))
}

/// `0x21..=0x7e`, as `u8::is_ascii_graphic`.
pub open spec fn is_graphic(c: u8) -> bool {
    0x21 <= c <= 0x7e
}

/// Space, tab, line feed, form feed, carriage return, as `u8::is_ascii_whitespace`.
pub open spec fn is_ascii_space(c: u8) -> bool {
    c == 0x20 || c == 0x09 || c == 0x0a || c == 0x0c || c == 0x0d
}

/// A byte that belongs in an extracted string: graphic, space or tab.
pub open spec fn is_printable(c: u8) -> bool {
    is_graphic(c) || c == 0x20 || c == 0x09
}

/// Graphic or space: shown as itself in an ASCII dump.
pub open spec fn is_dump_visible(c: u8) -> bool {
    is_graphic(c) || c == 0x20
}

pub fn graphic(c: u8) -> (r: bool)
    ensures
        r == is_graphic(c),
{
    0x21 <= c && c <= 0x7e
}

pub fn ascii_space(c: u8) -> (r: bool)
    ensures
        r == is_ascii_space(c),
{
    c == 0x20 || c == 0x09 || c == 0x0a || c == 0x0c || c == 0x0d
}

pub fn printable(c: u8) -> (r: bool)
    ensures
        r == is_printable(c),
{
    graphic(c) || c == 0x20 || c == 0x09
}

/// The hexadecimal digit of a nibble, lower case.
pub open spec fn nibble_char(n: int) -> char {
    if n < 10 {
        (48 + n) as char
    } else {
        (87 + n) as char
    }
}

/// Two lower-case hexadecimal digits per byte, high nibble first.
pub open spec fn hex_lower(data: Seq<u8>) -> Seq<char> {
    Seq::new(
        2 * data.len(),
        |i: int|
            if i % 2 == 0 {
                nibble_char(data[i / 2] as int / 16)
            } else {
                nibble_char(data[i / 2] as int % 16)
            },
    )
}

/// `char::is_ascii_hexdigit`.
pub open spec fn is_hex_digit_char(c: char) -> bool {
    ('0' <= c && c <= '9') || ('a' <= c && c <= 'f') || ('A' <= c && c <= 'F')
}

pub fn hex_digit_char(c: char) -> (r: bool)
    ensures
        r == is_hex_digit_char(c),
{
    ('0' <= c && c <= '9') || ('a' <= c && c <= 'f') || ('A' <= c && c <= 'F')
}

/// Decimal digit character.
pub open spec fn digit_char(d: int) -> char {
    (48 + d) as char
}

/// Decimal rendering of a natural number without leading zeros, as `to_string`.
pub open spec fn decimal(n: nat) -> Seq<char>
    decreases n,
{
    if n < 10 {
        seq![digit_char(n as int)]
    } else {
        decimal(n / 10).push(digit_char((n % 10) as int))
    }
}

/// Renders `v` in decimal.
pub fn u64_decimal(v: u64) -> (res: String)
    ensures
        res@ == decimal(v as nat),
    decreases v,
{
    if v < 10 {
        let mut s = String::new();
        push_char(&mut s, ((v as u8) + 48) as char);
        s
    } else {
        let mut s = u64_decimal(v / 10);
        push_char(&mut s, (((v % 10) as u8) + 48) as char);
        s
    }
}

/// Renders `v` in decimal.
pub fn u128_decimal(v: u128) -> (res: String)
    ensures
        res@ == decimal(v as nat),
    decreases v,
{
    if v < 10 {
        let mut s = String::new();
        push_char(&mut s, ((v as u8) + 48) as char);
        s
    } else {
        let mut s = u128_decimal(v / 10);
        push_char(&mut s, (((v % 10) as u8) + 48) as char);
        s
    }
}

/// A string made of the given literal.
pub fn lit(s: &str) -> (res: String)
    ensures
        res@ == s@,
{
    String::from_str(s)
}

/// Appends `other` to `s`.
pub fn append_str(s: &mut String, other: &str)
    ensures
        final(s)@ == old(s)@ + other@,
{
    s.append(other);
}

/// Lower-case hexadecimal of `data` behind `0x`.
pub fn prefixed_hex(data: &[u8]) -> (res: String)
    ensures
        res@ == "0x"@ + hex_lower(data@),
{
    let mut s = lit("0x");
    let h = hex_encode(data);
    s.append(h.as_str());
    s
}

/// The ASCII view of bytes: graphic bytes and spaces as themselves, anything
/// else as `.`.
pub open spec fn ascii_dump_chars(b: Seq<u8>) -> Seq<char> {
    b.map_values(|x: u8| if is_dump_visible(x) { byte_char(x) } else { '.' })
}

/// Renders the bytes as ASCII, with `.` for every byte that is neither
/// graphic nor a space.
pub fn ascii_dump(payload: &[u8]) -> (res: String)
    ensures
        res@ == ascii_dump_chars(payload@),
{
    let mut s = String::new();
    let n = payload.len();
    for i in 0..n
        invariant
            n == payload@.len(),
            s@ == ascii_dump_chars(payload@.subrange(0, i as int)),
    {
        let b = payload[i];
        let c = if graphic(b) || b == 0x20 {
            byte_to_char(b)
        } else {
            '.'
        };
        push_char(&mut s, c);
        assert(payload@.subrange(0, i + 1) == payload@.subrange(0, i as int).push(b));
    }
    assert(payload@.subrange(0, n as int) == payload@);
    s
}


/// The characters of a string, one per element.
pub fn chars_of(s: &str) -> (v: Vec<char>)
    ensures
        v@ == s@,
{
    let mut v: Vec<char> = Vec::new();
    for c in it: s.chars()
        invariant
            v@ == it.seq().take(it.index() as int),
            it.seq() == s@,
    {
        v.push(c);
    }
    v
}


/// Unicode `White_Space`, the whitespace that `str::trim` removes.
pub open spec fn is_white_space(c: char) -> bool {
    ('\u{9}' <= c && c <= '\u{d}') || c == ' ' || c == '\u{85}' || c == '\u{a0}' || c == '\u{1680}'
        || ('\u{2000}' <= c && c <= '\u{200a}') || c == '\u{2028}' || c == '\u{2029}' || c == '\u{202f}'
        || c == '\u{205f}' || c == '\u{3000}'
}

pub fn white_space(c: char) -> (r: bool)
    ensures
        r == is_white_space(c),
{
    ('\u{9}' <= c && c <= '\u{d}') || c == ' ' || c == '\u{85}' || c == '\u{a0}' || c == '\u{1680}'
        || ('\u{2000}' <= c && c <= '\u{200a}') || c == '\u{2028}' || c == '\u{2029}' || c == '\u{202f}'
        || c == '\u{205f}' || c == '\u{3000}'
}

/// `s` without its leading whitespace.
pub open spec fn trim_start(s: Seq<char>) -> Seq<char>
    decreases s.len(),
{
    if s.len() > 0 && is_white_space(s[0]) {
        trim_start(s.drop_first())
    } else {
        s
    }
}

/// `s` without its trailing whitespace.
pub open spec fn trim_end(s: Seq<char>) -> Seq<char>
    decreases s.len(),
{
    if s.len() > 0 && is_white_space(s.last()) {
        trim_end(s.drop_last())
    } else {
        s
    }
}

/// `s` without leading and trailing whitespace, as `str::trim`.
pub open spec fn trimmed(s: Seq<char>) -> Seq<char> {
    trim_end(trim_start(s))
}

/// Trimming the start drops a prefix of whitespace and leaves nothing, or
/// text that starts with a character other than whitespace.
pub proof fn lemma_trim_start(s: Seq<char>)
    ensures
        exists|a: int| 0 <= a <= s.len() && trim_start(s) == #[trigger] s.subrange(a, s.len() as int),
        trim_start(s).len() > 0 ==> !is_white_space(trim_start(s)[0]),
    decreases s.len(),
{
    if s.len() > 0 && is_white_space(s[0]) {
        lemma_trim_start(s.drop_first());
        let a = choose|a: int| 0 <= a <= s.drop_first().len()
            && trim_start(s.drop_first()) == #[trigger] s.drop_first().subrange(a, s.drop_first().len() as int);
        assert(s.drop_first().subrange(a, s.drop_first().len() as int) == s.subrange(a + 1, s.len() as int));
    } else {
        assert(s == s.subrange(0, s.len() as int));
    }
}

/// Trimming the end drops a suffix of whitespace and leaves nothing, or
/// text that ends with a character other than whitespace.
pub proof fn lemma_trim_end(s: Seq<char>)
    ensures
        exists|b: int| 0 <= b <= s.len() && trim_end(s) == #[trigger] s.subrange(0, b),
        trim_end(s).len() > 0 ==> !is_white_space(trim_end(s).last()),
    decreases s.len(),
{
    if s.len() > 0 && is_white_space(s.last()) {
        lemma_trim_end(s.drop_last());
        let b = choose|b: int| 0 <= b <= s.drop_last().len() && trim_end(s.drop_last()) == #[trigger] s.drop_last().subrange(0, b);
        assert(s.drop_last().subrange(0, b) == s.subrange(0, b));
    } else {
        assert(s == s.subrange(0, s.len() as int));
    }
}

/// Trimmed text is a piece of the text that is empty or starts and ends
/// with characters other than whitespace; such text is its own trim.
pub proof fn lemma_trimmed(s: Seq<char>)
    ensures
        exists|a: int, b: int| 0 <= a <= b <= s.len() && trimmed(s) == #[trigger] s.subrange(a, b),
        trimmed(s).len() > 0 ==> !is_white_space(trimmed(s)[0]) && !is_white_space(trimmed(s).last()),
        (s.len() == 0 || (!is_white_space(s[0]) && !is_white_space(s.last()))) ==> trimmed(s) == s,
{
    lemma_trim_start(s);
    let t = trim_start(s);
    let a = choose|a: int| 0 <= a <= s.len() && trim_start(s) == #[trigger] s.subrange(a, s.len() as int);
    lemma_trim_end(t);
    let b = choose|b: int| 0 <= b <= t.len() && trim_end(t) == #[trigger] t.subrange(0, b);
    assert(trimmed(s) == s.subrange(a, a + b));
    if trimmed(s).len() > 0 {
        assert(trimmed(s)[0] == t[0]);
    }
    if s.len() == 0 || (!is_white_space(s[0]) && !is_white_space(s.last())) {
        assert(trim_start(s) == s);
    }
}

/// A string holding `v[a..b]`.
pub fn string_from_chars(v: &Vec<char>, a: usize, b: usize) -> (s: String)
    requires
        a <= b <= v@.len(),
    ensures
        s@ == v@.subrange(a as int, b as int),
{
    let mut s = String::new();
    let mut i = a;
    while i < b
        invariant
            a <= i <= b <= v@.len(),
            s@ == v@.subrange(a as int, i as int),
        decreases b - i,
    {
        push_char(&mut s, v[i]);
        assert(v@.subrange(a as int, i + 1) == v@.subrange(a as int, i as int).push(v@[i as int]));
        i = i + 1;
    }
    s
}

/// `s` without leading and trailing Unicode whitespace.
pub fn trim(s: &str) -> (r: String)
    ensures
        r@ == trimmed(s@),
{
    let v = chars_of(s);
    let n = v.len();
    let mut a: usize = 0;
    assert(v@.subrange(0, n as int) == v@);
    while a < n && white_space(v[a])
        invariant
            n == v@.len(),
            a <= n,
            trim_start(v@) == trim_start(v@.subrange(a as int, n as int)),
        decreases n - a,
    {
        assert(v@.subrange(a as int, n as int).drop_first() == v@.subrange(a + 1, n as int));
        a = a + 1;
    }
    assert(trim_start(v@) == v@.subrange(a as int, n as int));
    let mut b: usize = n;
    while b > a && white_space(v[b - 1])
        invariant
            n == v@.len(),
            a <= b <= n,
            trimmed(v@) == trim_end(v@.subrange(a as int, b as int)),
        decreases b,
    {
        assert(v@.subrange(a as int, b as int).drop_last() == v@.subrange(a as int, b - 1));
        b = b - 1;
    }
    string_from_chars(&v, a, b)
}

/// The lower-case form of a string, as `str::to_lowercase` computes it
/// (full Unicode case mapping).
pub uninterp spec fn lowercase(s: Seq<char>) -> Seq<char>;

/// Every character is ASCII.
pub open spec fn is_ascii_text(s: Seq<char>) -> bool {
    forall|i: int| 0 <= i < s.len() ==> (#[trigger] s[i] as u32) < 128
}

/// `A`-`Z` lowered to `a`-`z`; any other character as it is.
pub open spec fn ascii_lower_char(c: char) -> char {
    if 'A' <= c && c <= 'Z' {
        ((c as u32) + 32) as char
    } else {
        c
    }
}

/// The text with every ASCII capital lowered.
pub open spec fn ascii_lower(s: Seq<char>) -> Seq<char> {
    s.map_values(|c: char| ascii_lower_char(c))
}

/// Lower-cases a string.
///
/// Trusted: `str::to_lowercase`; its result is named `lowercase` of the
/// input's characters. Beyond the name only its effect on ASCII text is
/// stated, where the Unicode lower-case mapping it follows lowers `A`-`Z`
/// to `a`-`z` and keeps every other character (as `to_ascii_lowercase`
/// does); the mapping of other characters is not stated.
#[verifier::external_body]
pub(crate) fn to_lowercase(s: &str) -> (r: String)
    ensures
        r@ == lowercase(s@),
        is_ascii_text(s@) ==> r@ == ascii_lower(s@),
{
    s.to_lowercase()
}

/// `s` begins with `0x`.
pub open spec fn has_hex_prefix(s: Seq<char>) -> bool {
    s.len() >= 2 && s[0] == '0' && s[1] == 'x'
}

pub fn hex_prefixed(s: &str) -> (r: bool)
    ensures
        r == has_hex_prefix(s@),
{
    let n = s.unicode_len();
    n >= 2 && s.get_char(0) == '0' && s.get_char(1) == 'x'
}

} // verus!
