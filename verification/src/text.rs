//! Character-level helpers: decimal and hexadecimal rendering, Unicode
//! white-space trimming, ASCII case folding and UTF-16 encoding.
use vstd::prelude::*;

verus! {

/// The ASCII digit for `d` (`d < 10`).
pub open spec fn digit_char(d: nat) -> char {
    if d == 0 { '0' }
    else if d == 1 { '1' }
    else if d == 2 { '2' }
    else if d == 3 { '3' }
    else if d == 4 { '4' }
    else if d == 5 { '5' }
    else if d == 6 { '6' }
    else if d == 7 { '7' }
    else if d == 8 { '8' }
    else { '9' }
}

/// `line` occurs in `text`.
pub open spec fn has_line(text: Seq<char>, line: Seq<char>) -> bool {
    exists|i: int| 0 <= i && i + line.len() <= text.len() && #[trigger] text.subrange(i, i + line.len()) == line
}

/// Decimal rendering of `n`, without sign or leading zeros.
pub open spec fn decimal(n: nat) -> Seq<char>
    decreases n,
{
    if n < 10 {
        seq![digit_char(n)]
    } else {
        decimal(n / 10).push(digit_char(n % 10))
    }
}

/// Appends `c` to `s` (`String::push`).
#[verifier::external_body]
pub fn string_push(s: &mut String, c: char)
    ensures
        final(s)@ == old(s)@.push(c),
{
    s.push(c)
}

fn digit(d: u64) -> (c: char)
    requires
        d < 10,
    ensures
        c == digit_char(d as nat),
{
    if d == 0 { '0' }
    else if d == 1 { '1' }
    else if d == 2 { '2' }
    else if d == 3 { '3' }
    else if d == 4 { '4' }
    else if d == 5 { '5' }
    else if d == 6 { '6' }
    else if d == 7 { '7' }
    else if d == 8 { '8' }
    else { '9' }
}

/// Appends the decimal rendering of `n` to `out`.
pub fn push_decimal(out: &mut String, n: u64)
    ensures
        final(out)@ == old(out)@ + decimal(n as nat),
    decreases n,
{
    if n >= 10 {
        push_decimal(out, n / 10);
    }
    string_push(out, digit(n % 10));
    assert(old(out)@ + decimal(n as nat) == (old(out)@ + (if n >= 10 { decimal((n / 10) as nat) } else { Seq::empty() })).push(digit_char((n % 10) as nat)));
}


/// Upper-case hexadecimal digit for `d` (`d < 16`).
pub open spec fn hex_digit_char(d: nat) -> char {
    if d < 10 { digit_char(d) }
    else if d == 10 { 'A' }
    else if d == 11 { 'B' }
    else if d == 12 { 'C' }
    else if d == 13 { 'D' }
    else if d == 14 { 'E' }
    else { 'F' }
}

/// Upper-case hexadecimal rendering of a byte string, two digits per byte,
/// high nibble first.
pub open spec fn hex_upper(bytes: Seq<u8>) -> Seq<char>
    decreases bytes.len(),
{
    if bytes.len() == 0 {
        Seq::empty()
    } else {
        let b = bytes.last();
        hex_upper(bytes.drop_last()).push(hex_digit_char((b / 16) as nat)).push(
            hex_digit_char((b % 16) as nat),
        )
    }
}

/// The value of a hexadecimal digit (either case), if `c` is one.
pub open spec fn hex_value(c: char) -> Option<nat> {
    if '0' <= c <= '9' {
        Some((c as u32 - '0' as u32) as nat)
    } else if 'A' <= c <= 'F' {
        Some((c as u32 - 'A' as u32 + 10) as nat)
    } else if 'a' <= c <= 'f' {
        Some((c as u32 - 'a' as u32 + 10) as nat)
    } else {
        None
    }
}

/// Decoding of a hexadecimal text, two digits per byte; `None` when the
/// length is odd or a character is no hexadecimal digit.
pub open spec fn hex_decode(text: Seq<char>) -> Option<Seq<u8>>
    decreases text.len(),
{
    if text.len() == 0 {
        Some(Seq::empty())
    } else if text.len() == 1 {
        None
    } else {
        match (hex_decode(text.subrange(0, text.len() - 2)), hex_value(text[text.len() - 2]), hex_value(text[text.len() - 1])) {
            (Some(prefix), Some(hi), Some(lo)) => Some(prefix.push((hi * 16 + lo) as u8)),
            _ => None,
        }
    }
}

fn hex_digit(d: u8) -> (c: char)
    requires
        d < 16,
    ensures
        c == hex_digit_char(d as nat),
{
    if d < 10 {
        digit(d as u64)
    } else if d == 10 { 'A' }
    else if d == 11 { 'B' }
    else if d == 12 { 'C' }
    else if d == 13 { 'D' }
    else if d == 14 { 'E' }
    else { 'F' }
}

/// Appends the upper-case hexadecimal rendering of `bytes` to `out`.
pub fn push_hex_upper(out: &mut String, bytes: &[u8])
    ensures
        final(out)@ == old(out)@ + hex_upper(bytes@),
{
    let n = bytes.len();
    for i in 0..n
        invariant
            n == bytes@.len(),
            out@ == old(out)@ + hex_upper(bytes@.take(i as int)),
    {
        let b = bytes[i];
        string_push(out, hex_digit(b / 16));
        string_push(out, hex_digit(b % 16));
        assert(bytes@.take(i + 1).drop_last() == bytes@.take(i as int));
    }
    assert(bytes@.take(n as int) == bytes@);
}

/// Upper-case hexadecimal rendering of `bytes`.
pub fn to_hex_upper(bytes: &[u8]) -> (r: String)
    ensures
        r@ == hex_upper(bytes@),
{
    let mut out = String::new();
    push_hex_upper(&mut out, bytes);
    out
}

/// Every upper-case hexadecimal rendering decodes to the bytes it renders.
pub proof fn law_hex_roundtrip(bytes: Seq<u8>)
    ensures
        hex_decode(hex_upper(bytes)) == Some(bytes),
        hex_upper(bytes).len() == 2 * bytes.len(),
    decreases bytes.len(),
{
    if bytes.len() > 0 {
        let t = hex_upper(bytes);
        law_hex_roundtrip(bytes.drop_last());
        let b = bytes.last();
        assert(t.subrange(0, t.len() - 2) == hex_upper(bytes.drop_last()));
        assert(hex_value(hex_digit_char((b / 16) as nat)) == Some((b / 16) as nat));
        assert(hex_value(hex_digit_char((b % 16) as nat)) == Some((b % 16) as nat));
        assert(bytes.drop_last().push(b) == bytes);
    }
}


/// Unicode `White_Space`, as `char::is_whitespace` and `str::trim` use it.
pub open spec fn is_white_space(c: char) -> bool {
    let v = c as u32;
    ||| 0x09 <= v <= 0x0d
    ||| v == 0x20
    ||| v == 0x85
    ||| v == 0xa0
    ||| v == 0x1680
    ||| 0x2000 <= v <= 0x200a
    ||| v == 0x2028
    ||| v == 0x2029
    ||| v == 0x202f
    ||| v == 0x205f
    ||| v == 0x3000
}

/// `s` without its leading white space.
pub open spec fn trim_start(s: Seq<char>) -> Seq<char>
    decreases s.len(),
{
    if s.len() > 0 && is_white_space(s[0]) {
        trim_start(s.drop_first())
    } else {
        s
    }
}

/// `s` without its trailing white space.
pub open spec fn trim_end(s: Seq<char>) -> Seq<char>
    decreases s.len(),
{
    if s.len() > 0 && is_white_space(s.last()) {
        trim_end(s.drop_last())
    } else {
        s
    }
}

/// `s` without leading and trailing white space (`str::trim`).
pub open spec fn trim(s: Seq<char>) -> Seq<char> {
    trim_end(trim_start(s))
}

/// `true` when `s` holds nothing but white space.
pub open spec fn is_blank(s: Seq<char>) -> bool {
    trim(s).len() == 0
}

fn white_space(c: char) -> (r: bool)
    ensures
        r == is_white_space(c),
{
    let v = c as u32;
    (0x09 <= v && v <= 0x0d) || v == 0x20 || v == 0x85 || v == 0xa0 || v == 0x1680 || (0x2000
        <= v && v <= 0x200a) || v == 0x2028 || v == 0x2029 || v == 0x202f || v == 0x205f || v
        == 0x3000
}

proof fn lemma_trim_start_skip(s: Seq<char>, i: int)
    requires
        0 <= i <= s.len(),
        forall|j: int| 0 <= j < i ==> is_white_space(#[trigger] s[j]),
    ensures
        trim_start(s) == trim_start(s.skip(i)),
    decreases i,
{
    if i > 0 {
        assert(s.drop_first().skip(i - 1) == s.skip(i));
        lemma_trim_start_skip(s.drop_first(), i - 1);
    } else {
        assert(s.skip(0) == s);
    }
}

proof fn lemma_trim_end_take(s: Seq<char>, i: int)
    requires
        0 <= i <= s.len(),
        forall|j: int| i <= j < s.len() ==> is_white_space(#[trigger] s[j]),
    ensures
        trim_end(s) == trim_end(s.take(i)),
    decreases s.len() - i,
{
    if i < s.len() {
        assert(s.drop_last().take(i) == s.take(i));
        lemma_trim_end_take(s.drop_last(), i);
    } else {
        assert(s.take(i) == s);
    }
}

proof fn lemma_trim_start_front(s: Seq<char>)
    ensures
        trim_start(s).len() > 0 ==> !is_white_space(trim_start(s)[0]),
    decreases s.len(),
{
    if s.len() > 0 && is_white_space(s[0]) {
        lemma_trim_start_front(s.drop_first());
    }
}

proof fn lemma_trim_end_prefix(s: Seq<char>)
    ensures
        trim_end(s).len() <= s.len(),
        forall|i: int| 0 <= i < trim_end(s).len() ==> #[trigger] trim_end(s)[i] == s[i],
        trim_end(s).len() > 0 ==> !is_white_space(trim_end(s).last()),
    decreases s.len(),
{
    if s.len() > 0 && is_white_space(s.last()) {
        lemma_trim_end_prefix(s.drop_last());
    }
}

/// Trimming a trimmed text changes nothing.
pub proof fn lemma_trim_idempotent(s: Seq<char>)
    ensures
        trim(trim(s)) == trim(s),
{
    let t = trim_start(s);
    let u = trim_end(t);
    lemma_trim_start_front(s);
    lemma_trim_end_prefix(t);
    if u.len() > 0 {
        assert(u[0] == t[0]);
        assert(trim_start(u) == u);
        assert(trim_end(u) == u);
    } else {
        assert(trim_start(u) == u);
        assert(trim_end(u) == u);
    }
}

/// Character positions `(start, end)` such that `s[start..end]` is `trim(s)`.
pub fn trim_bounds(s: &str) -> (r: (usize, usize))
    ensures
        r.0 <= r.1 <= s@.len(),
        s@.subrange(r.0 as int, r.1 as int) == trim(s@),
{
    let n = s.unicode_len();
    let mut start: usize = 0;
    while start < n && white_space(s.get_char(start))
        invariant
            n == s@.len(),
            start <= n,
            forall|j: int| 0 <= j < start ==> is_white_space(#[trigger] s@[j]),
        decreases n - start,
    {
        start = start + 1;
    }
    let mut end: usize = n;
    while end > start && white_space(s.get_char(end - 1))
        invariant
            n == s@.len(),
            start <= end <= n,
            forall|j: int| end <= j < n ==> is_white_space(#[trigger] s@[j]),
        decreases end - start,
    {
        end = end - 1;
    }
    proof {
        lemma_trim_start_skip(s@, start as int);
        let t = s@.skip(start as int);
        assert(trim_start(t) == t);
        assert forall|j: int| end - start <= j < t.len() implies is_white_space(#[trigger] t[j]) by {
            assert(t[j] == s@[j + start]);
        }
        lemma_trim_end_take(t, end - start);
        let u = t.take(end - start);
        assert(u == s@.subrange(start as int, end as int));
        if u.len() > 0 {
            assert(u.last() == s@[end - 1]);
        }
        assert(trim_end(u) == u);
    }
    (start, end)
}

/// `s` without leading and trailing white space (`str::trim`).
pub fn trim_str(s: &str) -> (r: &str)
    ensures
        r@ == trim(s@),
{
    let (a, b) = trim_bounds(s);
    s.substring_char(a, b)
}

/// ASCII lower-case code of `c`: `A`..`Z` map to `a`..`z`, everything else
/// keeps its code (`char::to_ascii_lowercase`).
pub open spec fn ascii_lower(c: char) -> u32 {
    let v = c as u32;
    if 65 <= v <= 90 { (v + 32) as u32 } else { v }
}

/// `s` folded to ASCII lower case, as character codes.
pub open spec fn ascii_lower_seq(s: Seq<char>) -> Seq<u32> {
    Seq::new(s.len(), |i: int| ascii_lower(s[i]))
}

/// `a` equals `b` when ASCII letters are compared without regard to case
/// (`str::eq_ignore_ascii_case`).
pub open spec fn eq_ignore_ascii_case(a: Seq<char>, b: Seq<char>) -> bool {
    ascii_lower_seq(a) == ascii_lower_seq(b)
}

/// `s`, folded to ASCII lower case, starts with `prefix` folded likewise.
pub open spec fn starts_with_ignore_ascii_case(s: Seq<char>, prefix: Seq<char>) -> bool {
    prefix.len() <= s.len() && eq_ignore_ascii_case(s.take(prefix.len() as int), prefix)
}

fn lower(c: char) -> (r: u32)
    ensures
        r == ascii_lower(c),
{
    let v = c as u32;
    if 65 <= v && v <= 90 { v + 32 } else { v }
}

/// `a` and `b` agree on their first `len` characters up to ASCII case.
fn agree_ignore_ascii_case(a: &str, b: &str, len: usize) -> (r: bool)
    requires
        len <= a@.len(),
        len <= b@.len(),
    ensures
        r == (ascii_lower_seq(a@.take(len as int)) == ascii_lower_seq(b@.take(len as int))),
{
    let mut i: usize = 0;
    while i < len
        invariant
            len <= a@.len(),
            len <= b@.len(),
            i <= len,
            forall|j: int| 0 <= j < i ==> ascii_lower(#[trigger] a@[j]) == ascii_lower(b@[j]),
        decreases len - i,
    {
        if lower(a.get_char(i)) != lower(b.get_char(i)) {
            assert(ascii_lower_seq(a@.take(len as int))[i as int] != ascii_lower_seq(b@.take(len as int))[i as int]);
            return false;
        }
        i = i + 1;
    }
    assert(ascii_lower_seq(a@.take(len as int)) =~= ascii_lower_seq(b@.take(len as int)));
    true
}

/// `str::eq_ignore_ascii_case`.
pub fn str_eq_ignore_ascii_case(a: &str, b: &str) -> (r: bool)
    ensures
        r == eq_ignore_ascii_case(a@, b@),
{
    let n = a.unicode_len();
    let m = b.unicode_len();
    if n != m {
        assert(ascii_lower_seq(a@).len() != ascii_lower_seq(b@).len());
        return false;
    }
    let r = agree_ignore_ascii_case(a, b, n);
    assert(a@.take(n as int) == a@);
    assert(b@.take(n as int) == b@);
    r
}

/// `s.to_ascii_lowercase().starts_with(prefix)`, for a lower-case `prefix`.
pub fn starts_with_ascii_case_insensitive(s: &str, prefix: &str) -> (r: bool)
    ensures
        r == starts_with_ignore_ascii_case(s@, prefix@),
{
    let n = s.unicode_len();
    let m = prefix.unicode_len();
    if m > n {
        return false;
    }
    let r = agree_ignore_ascii_case(s, prefix, m);
    assert(prefix@.take(m as int) == prefix@);
    r
}


/// UTF-16 code units of one character: the code point itself below U+10000,
/// otherwise a high and a low surrogate (`char::encode_utf16`).
pub open spec fn utf16_of_char(c: char) -> Seq<u16> {
    let v = c as u32;
    if v < 0x10000 {
        seq![v as u16]
    } else {
        let w = (v - 0x10000) as int;
        seq![(0xD800 + w / 1024) as u16, (0xDC00 + w % 1024) as u16]
    }
}

/// UTF-16 code units of a text (`str::encode_utf16`).
pub open spec fn utf16(s: Seq<char>) -> Seq<u16>
    decreases s.len(),
{
    if s.len() == 0 {
        Seq::empty()
    } else {
        utf16(s.drop_last()) + utf16_of_char(s.last())
    }
}

/// Little-endian bytes of a sequence of 16-bit units, low byte first.
pub open spec fn le_bytes(units: Seq<u16>) -> Seq<u8>
    decreases units.len(),
{
    if units.len() == 0 {
        Seq::empty()
    } else {
        let u = units.last();
        le_bytes(units.drop_last()).push((u % 256) as u8).push((u / 256) as u8)
    }
}

/// UTF-16LE bytes of a text.
pub open spec fn utf16le(s: Seq<char>) -> Seq<u8> {
    le_bytes(utf16(s))
}

/// A text as NUL-terminated UTF-16, the form Win32 `W` functions take.
pub open spec fn wide_null_units(s: Seq<char>) -> Seq<u16> {
    utf16(s).push(0u16)
}

/// Appends the UTF-16 code units of `c` to `out`.
pub fn push_utf16_char(out: &mut Vec<u16>, c: char)
    ensures
        final(out)@ == old(out)@ + utf16_of_char(c),
{
    let v = c as u32;
    if v < 0x10000 {
        out.push(v as u16);
    } else {
        let w = v - 0x10000;
        assert(w < 0x100000);
        out.push((0xD800 + w / 1024) as u16);
        out.push((0xDC00 + w % 1024) as u16);
    }
}

/// UTF-16 code units of `s`.
pub fn utf16_units(s: &str) -> (r: Vec<u16>)
    ensures
        r@ == utf16(s@),
{
    let n = s.unicode_len();
    let mut out: Vec<u16> = Vec::new();
    for i in 0..n
        invariant
            n == s@.len(),
            out@ == utf16(s@.take(i as int)),
    {
        push_utf16_char(&mut out, s.get_char(i));
        assert(s@.take(i + 1).drop_last() == s@.take(i as int));
    }
    assert(s@.take(n as int) == s@);
    out
}

/// `s` as NUL-terminated UTF-16 (`wide_null`).
pub fn wide_null(s: &str) -> (r: Vec<u16>)
    ensures
        r@ == wide_null_units(s@),
{
    let mut out = utf16_units(s);
    out.push(0);
    out
}

/// Appends the little-endian bytes of `units` to `out`.
pub fn push_le_bytes(out: &mut Vec<u8>, units: &[u16])
    ensures
        final(out)@ == old(out)@ + le_bytes(units@),
{
    let n = units.len();
    for i in 0..n
        invariant
            n == units@.len(),
            out@ == old(out)@ + le_bytes(units@.take(i as int)),
    {
        let u = units[i];
        out.push((u % 256) as u8);
        out.push((u / 256) as u8);
        assert(units@.take(i + 1).drop_last() == units@.take(i as int));
    }
    assert(units@.take(n as int) == units@);
}

/// UTF-16LE bytes of `s`.
pub fn utf16le_bytes(s: &str) -> (r: Vec<u8>)
    ensures
        r@ == utf16le(s@),
{
    let units = utf16_units(s);
    let mut out: Vec<u8> = Vec::new();
    push_le_bytes(&mut out, units.as_slice());
    out
}

/// Two bytes per unit.
pub proof fn lemma_le_bytes_len(units: Seq<u16>)
    ensures
        le_bytes(units).len() == 2 * units.len(),
    decreases units.len(),
{
    if units.len() > 0 {
        lemma_le_bytes_len(units.drop_last());
    }
}


/// A non-empty text has non-empty UTF-16LE bytes.
pub proof fn lemma_utf16le_nonempty(s: Seq<char>)
    requires
        s.len() > 0,
    ensures
        utf16le(s).len() > 0,
{
    lemma_le_bytes_len(utf16(s));
    assert(utf16(s).len() >= utf16_of_char(s.last()).len());
}


/// `c` is an ASCII decimal digit.
pub open spec fn is_ascii_digit(c: char) -> bool {
    '0' <= c <= '9'
}

/// The value of a string of ASCII decimal digits.
pub open spec fn digits_value(s: Seq<char>) -> nat
    decreases s.len(),
{
    if s.len() == 0 {
        0
    } else {
        digits_value(s.drop_last()) * 10 + (s.last() as u32 - '0' as u32) as nat
    }
}

/// `s` holds nothing but ASCII decimal digits.
pub open spec fn all_digits(s: Seq<char>) -> bool {
    forall|i: int| 0 <= i < s.len() ==> is_ascii_digit(#[trigger] s[i])
}

/// `s` without one leading `+`, if it has one.
pub open spec fn strip_plus(s: Seq<char>) -> Seq<char> {
    if s.len() > 0 && s[0] == '+' { s.drop_first() } else { s }
}

/// One or more ASCII digits whose value fits a `u16`.
pub open spec fn parse_digits_u16(d: Seq<char>) -> Option<u16> {
    if d.len() > 0 && all_digits(d) && digits_value(d) <= u16::MAX {
        Some(digits_value(d) as u16)
    } else {
        None
    }
}

/// `str::parse::<u16>`: an optional `+`, then one or more ASCII digits whose
/// value is at most 65535.
pub open spec fn parse_u16(s: Seq<char>) -> Option<u16> {
    parse_digits_u16(strip_plus(s))
}

proof fn lemma_digit_char_value(d: nat)
    requires
        d < 10,
    ensures
        is_ascii_digit(digit_char(d)),
        (digit_char(d) as u32 - '0' as u32) as nat == d,
{
    assert('0' as u32 == 48);
    if d == 0 { assert('0' as u32 == 48); }
    else if d == 1 { assert('1' as u32 == 49); }
    else if d == 2 { assert('2' as u32 == 50); }
    else if d == 3 { assert('3' as u32 == 51); }
    else if d == 4 { assert('4' as u32 == 52); }
    else if d == 5 { assert('5' as u32 == 53); }
    else if d == 6 { assert('6' as u32 == 54); }
    else if d == 7 { assert('7' as u32 == 55); }
    else if d == 8 { assert('8' as u32 == 56); }
    else { assert('9' as u32 == 57); }
}

/// The decimal rendering of `n` is a non-empty run of ASCII digits worth `n`.
pub proof fn lemma_decimal_digits(n: nat)
    ensures
        decimal(n).len() > 0,
        all_digits(decimal(n)),
        digits_value(decimal(n)) == n,
    decreases n,
{
    lemma_digit_char_value(n % 10);
    assert(decimal(n).last() == digit_char(n % 10));
    if n < 10 {
        assert(n % 10 == n);
        assert(decimal(n).drop_last() =~= Seq::<char>::empty());
        assert(digits_value(decimal(n).drop_last()) == 0);
        assert(digits_value(decimal(n)) == digits_value(decimal(n).drop_last()) * 10 + (decimal(n).last() as u32 - '0' as u32) as nat);
    } else {
        lemma_decimal_digits(n / 10);
        assert(decimal(n).drop_last() =~= decimal(n / 10));
        assert forall|i: int| 0 <= i < decimal(n).len() implies is_ascii_digit(#[trigger] decimal(n)[i]) by {
            if i < decimal(n / 10).len() {
                assert(decimal(n)[i] == decimal(n / 10)[i]);
            }
        }
        assert((n / 10) * 10 + n % 10 == n) by (nonlinear_arith);
        assert(digits_value(decimal(n)) == digits_value(decimal(n).drop_last()) * 10 + (decimal(n).last() as u32 - '0' as u32) as nat);
    }
}

/// A text that starts and ends with a character other than white space is its
/// own trim.
pub proof fn lemma_trim_of_unpadded(s: Seq<char>)
    requires
        s.len() > 0,
        !is_white_space(s[0]),
        !is_white_space(s.last()),
    ensures
        trim(s) == s,
{
}

proof fn lemma_digits_value_monotone(d: Seq<char>, i: int, j: int)
    requires
        0 <= i <= j <= d.len(),
        forall|k: int| 0 <= k < d.len() ==> is_ascii_digit(#[trigger] d[k]),
    ensures
        digits_value(d.take(i)) <= digits_value(d.take(j)),
    decreases j - i,
{
    if i < j {
        lemma_digits_value_monotone(d, i, j - 1);
        assert(d.take(j).drop_last() == d.take(j - 1));
        assert(is_ascii_digit(d[j - 1]));
    }
}

/// `str::parse::<u16>` (decimal, optional `+`).
pub fn parse_u16_str(s: &str) -> (r: Option<u16>)
    ensures
        r == parse_u16(s@),
{
    let n = s.unicode_len();
    let mut start: usize = 0;
    if n > 0 && s.get_char(0) == '+' {
        start = 1;
    }
    let ghost d = strip_plus(s@);
    assert(d == s@.skip(start as int));
    if start == n {
        return None;
    }
    let mut value: u32 = 0;
    let mut i: usize = start;
    while i < n
        invariant
            n == s@.len(),
            start < n,
            start <= i <= n,
            d == s@.skip(start as int),
            d == strip_plus(s@),
            value == digits_value(d.take(i - start)),
            value <= u16::MAX,
            forall|k: int| 0 <= k < i - start ==> is_ascii_digit(#[trigger] d[k]),
        decreases n - i,
    {
        let c = s.get_char(i);
        assert(c == d[i - start]);
        if !('0' <= c && c <= '9') {
            assert(!is_ascii_digit(d[i - start]));
            return None;
        }
        assert(d.take(i - start + 1).drop_last() == d.take(i - start));
        let next = value * 10 + (c as u32 - '0' as u32);
        if next > 0xffff {
            proof {
                if all_digits(d) {
                    lemma_digits_value_monotone(d, i - start + 1, d.len() as int);
                    assert(d.take(d.len() as int) == d);
                }
            }
            return None;
        }
        value = next;
        i = i + 1;
    }
    assert(d.take(d.len() as int) == d);
    Some(value as u16)
}

} // verus!
