use vstd::prelude::*;

verus! {

/// Appends one character to a string; calls `String::push`.
/// Claims that the string gains exactly that character at its end.
#[verifier::external_body]
pub(crate) fn push_char(s: &mut String, c: char)
    ensures
        final(s)@ == old(s)@.push(c),
{
    s.push(c);
}

/// What `String::from_utf8_lossy` makes of a byte sequence.
pub uninterp spec fn utf8_lossy_decoding(bytes: Seq<u8>) -> Seq<char>;

/// Decodes bytes as UTF-8, replacing invalid sequences; calls `String::from_utf8_lossy`.
/// Claims that the result is a function of the bytes alone, and that valid UTF-8 is decoded
/// as it stands (as std documents); what replaces invalid sequences is left to the name.
#[verifier::external_body]
pub(crate) fn utf8_lossy(bytes: &[u8]) -> (out: String)
    ensures
        out@ == utf8_lossy_decoding(bytes@),
        vstd::utf8::valid_utf8(bytes@) ==> out@ == vstd::utf8::decode_utf8(bytes@),
{
    String::from_utf8_lossy(bytes).into_owned()
}

/// The characters of `s`, in order.
pub fn chars_of(s: &str) -> (out: Vec<char>)
    ensures
        out@ == s@,
{
    broadcast use vstd::string::group_string_axioms;

    let mut out: Vec<char> = Vec::new();
    for c in it: s.chars()
        invariant
            out@ == it.seq().take(it.index() as int),
            it.seq() == s@,
    {
        out.push(c);
    }
    out
}

/// The string made of the characters of `cs`.
pub fn string_of(cs: &[char]) -> (out: String)
    ensures
        out@ == cs@,
{
    let mut out = String::new();
    let mut i: usize = 0;
    while i < cs.len()
        invariant
            i <= cs.len(),
            out@ == cs@.take(i as int),
        decreases cs.len() - i,
    {
        push_char(&mut out, cs[i]);
        i = i + 1;
        assert(out@ == cs@.take(i as int));
    }
    assert(cs@.take(cs@.len() as int) =~= cs@);
    out
}

/// The string holding the characters of `s`.
pub fn text(s: &str) -> (out: String)
    ensures
        out@ == s@,
{
    let cs = chars_of(s);
    string_of(cs.as_slice())
}

/// `a` followed by `b`, as a new string.
pub fn joined(a: &str, b: &str) -> (out: String)
    ensures
        out@ == a@ + b@,
{
    let mut cs = chars_of(a);
    let mut bs = chars_of(b);
    cs.append(&mut bs);
    string_of(cs.as_slice())
}

/// Appends the characters of `tail` to `s`.
pub fn append_text(s: &mut String, tail: &str)
    ensures
        final(s)@ == old(s)@ + tail@,
{
    let cs = chars_of(tail);
    let mut i: usize = 0;
    while i < cs.len()
        invariant
            i <= cs.len(),
            cs@ == tail@,
            s@ == old(s)@ + cs@.take(i as int),
        decreases cs.len() - i,
    {
        push_char(s, cs[i]);
        i = i + 1;
        assert(s@ =~= old(s)@ + cs@.take(i as int));
    }
    assert(cs@.take(cs@.len() as int) =~= cs@);
}

/// Whether two texts hold the same characters.
pub fn same_text(a: &str, b: &str) -> (r: bool)
    ensures
        r == (a@ == b@),
{
    let x = chars_of(a);
    let y = chars_of(b);
    if x.len() != y.len() {
        return false;
    }
    let mut i: usize = 0;
    while i < x.len()
        invariant
            x@ == a@,
            y@ == b@,
            x.len() == y.len(),
            i <= x.len(),
            forall|j: int| 0 <= j < i ==> x@[j] == y@[j],
        decreases x.len() - i,
    {
        if x[i] != y[i] {
            return false;
        }
        i = i + 1;
    }
    assert(x@ =~= y@);
    true
}

/// Unicode's `White_Space` property, as `char::is_whitespace` decides it.
pub open spec fn is_whitespace_spec(c: char) -> bool {
    ||| c == '\t' || c == '\n' || c == '\u{0B}' || c == '\u{0C}' || c == '\r' || c == ' '
    ||| c == '\u{85}' || c == '\u{A0}' || c == '\u{1680}'
    ||| ('\u{2000}' <= c && c <= '\u{200A}')
    ||| c == '\u{2028}' || c == '\u{2029}' || c == '\u{202F}' || c == '\u{205F}' || c == '\u{3000}'
}

/// Whether `c` is white space in the sense of `char::is_whitespace`.
pub fn is_whitespace(c: char) -> (r: bool)
    ensures
        r == is_whitespace_spec(c),
{
    c == '\t' || c == '\n' || c == '\u{0B}' || c == '\u{0C}' || c == '\r' || c == ' '
        || c == '\u{85}' || c == '\u{A0}' || c == '\u{1680}'
        || ('\u{2000}' <= c && c <= '\u{200A}')
        || c == '\u{2028}' || c == '\u{2029}' || c == '\u{202F}' || c == '\u{205F}' || c == '\u{3000}'
}

/// A text is blank when it holds nothing but white space (so trimming leaves it empty).
pub open spec fn is_blank(s: Seq<char>) -> bool {
    forall|i: int| 0 <= i < s.len() ==> is_whitespace_spec(#[trigger] s[i])
}

/// Whether `s` is blank.
pub fn blank(s: &str) -> (r: bool)
    ensures
        r == is_blank(s@),
{
    let cs = chars_of(s);
    let mut i: usize = 0;
    while i < cs.len()
        invariant
            cs@ == s@,
            i <= cs.len(),
            forall|j: int| 0 <= j < i ==> is_whitespace_spec(#[trigger] cs@[j]),
        decreases cs.len() - i,
    {
        if !is_whitespace(cs[i]) {
            return false;
        }
        i = i + 1;
    }
    true
}

/// The index of the first character of `s` that is not white space (`s.len()` when there is none).
pub open spec fn first_non_blank(s: Seq<char>) -> int
    decreases s.len(),
{
    if s.len() == 0 {
        0
    } else if !is_whitespace_spec(s[0]) {
        0
    } else {
        1 + first_non_blank(s.drop_first())
    }
}

/// One past the index of the last character of `s` that is not white space (0 when there is none).
pub open spec fn last_non_blank_end(s: Seq<char>) -> int
    decreases s.len(),
{
    if s.len() == 0 {
        0
    } else if !is_whitespace_spec(s.last()) {
        s.len() as int
    } else {
        last_non_blank_end(s.drop_last())
    }
}

/// `s` without leading and trailing white space, as `str::trim` gives it.
pub open spec fn trim_spec(s: Seq<char>) -> Seq<char> {
    if last_non_blank_end(s) <= first_non_blank(s) {
        Seq::empty()
    } else {
        s.subrange(first_non_blank(s), last_non_blank_end(s))
    }
}

proof fn lemma_first_non_blank(s: Seq<char>)
    ensures
        0 <= first_non_blank(s) <= s.len(),
        forall|j: int| 0 <= j < first_non_blank(s) ==> is_whitespace_spec(#[trigger] s[j]),
        first_non_blank(s) < s.len() ==> !is_whitespace_spec(s[first_non_blank(s)]),
    decreases s.len(),
{
    if s.len() > 0 && is_whitespace_spec(s[0]) {
        lemma_first_non_blank(s.drop_first());
        assert forall|j: int| 0 <= j < first_non_blank(s) implies is_whitespace_spec(#[trigger] s[j]) by {
            if j > 0 {
                assert(s[j] == s.drop_first()[j - 1]);
            }
        }
    }
}

proof fn lemma_last_non_blank_end(s: Seq<char>)
    ensures
        0 <= last_non_blank_end(s) <= s.len(),
        forall|j: int| last_non_blank_end(s) <= j < s.len() ==> is_whitespace_spec(#[trigger] s[j]),
        last_non_blank_end(s) > 0 ==> !is_whitespace_spec(s[last_non_blank_end(s) - 1]),
    decreases s.len(),
{
    if s.len() > 0 && is_whitespace_spec(s.last()) {
        lemma_last_non_blank_end(s.drop_last());
        assert forall|j: int| last_non_blank_end(s) <= j < s.len() implies is_whitespace_spec(#[trigger] s[j]) by {
            if j < s.len() - 1 {
                assert(s[j] == s.drop_last()[j]);
            }
        }
    }
}

/// `s` without leading and trailing white space; the verified counterpart of `str::trim`.
pub fn trim(s: &str) -> (out: String)
    ensures
        out@ == trim_spec(s@),
{
    let cs = chars_of(s);
    proof {
        lemma_first_non_blank(s@);
        lemma_last_non_blank_end(s@);
    }
    let mut start: usize = 0;
    while start < cs.len() && is_whitespace(cs[start])
        invariant
            cs@ == s@,
            start <= cs.len(),
            start <= first_non_blank(s@),
            0 <= first_non_blank(s@) <= s@.len(),
            forall|j: int| 0 <= j < first_non_blank(s@) ==> is_whitespace_spec(#[trigger] s@[j]),
            first_non_blank(s@) < s@.len() ==> !is_whitespace_spec(s@[first_non_blank(s@)]),
        decreases cs.len() - start,
    {
        start = start + 1;
    }
    let mut end: usize = cs.len();
    while end > start && is_whitespace(cs[end - 1])
        invariant
            cs@ == s@,
            start <= end <= cs.len(),
            end >= last_non_blank_end(s@),
            0 <= last_non_blank_end(s@) <= s@.len(),
            forall|j: int| last_non_blank_end(s@) <= j < s@.len() ==> is_whitespace_spec(#[trigger] s@[j]),
            last_non_blank_end(s@) > 0 ==> !is_whitespace_spec(s@[last_non_blank_end(s@) - 1]),
        decreases end,
    {
        end = end - 1;
    }
    let piece = &cs.as_slice()[start..end];
    string_of(piece)
}


/// Whether `s` begins with `prefix`.
pub open spec fn starts_with_spec(s: Seq<char>, prefix: Seq<char>) -> bool {
    prefix.len() <= s.len() && s.take(prefix.len() as int) == prefix
}

/// Whether `s` begins with `prefix`.
pub fn starts_with(s: &[char], prefix: &[char]) -> (r: bool)
    ensures
        r == starts_with_spec(s@, prefix@),
{
    if prefix.len() > s.len() {
        return false;
    }
    let mut i: usize = 0;
    while i < prefix.len()
        invariant
            prefix.len() <= s.len(),
            i <= prefix.len(),
            forall|j: int| 0 <= j < i ==> s@[j] == prefix@[j],
        decreases prefix.len() - i,
    {
        if s[i] != prefix[i] {
            assert(s@.take(prefix.len() as int)[i as int] != prefix@[i as int]);
            return false;
        }
        i = i + 1;
    }
    assert(s@.take(prefix.len() as int) =~= prefix@);
    true
}

/// Whether `needle` occurs in `hay` starting at index `i`.
pub open spec fn occurs_at(hay: Seq<char>, needle: Seq<char>, i: int) -> bool {
    0 <= i && i + needle.len() <= hay.len() && hay.subrange(i, i + needle.len()) == needle
}

/// The first index at or after `from` where `needle` occurs in `hay`, as `str::find` reports it
/// (counted in characters).
pub open spec fn find_from(hay: Seq<char>, needle: Seq<char>, from: int) -> Option<int>
    decreases hay.len() + 1 - from,
{
    if from < 0 || from > hay.len() || from + needle.len() > hay.len() {
        None
    } else if occurs_at(hay, needle, from) {
        Some(from)
    } else {
        find_from(hay, needle, from + 1)
    }
}

/// The first index where `needle` occurs in `hay`.
pub open spec fn find_spec(hay: Seq<char>, needle: Seq<char>) -> Option<int> {
    find_from(hay, needle, 0)
}

proof fn lemma_find_from_bounds(hay: Seq<char>, needle: Seq<char>, from: int)
    ensures
        find_from(hay, needle, from) matches Some(i) ==> from <= i && occurs_at(hay, needle, i),
    decreases hay.len() + 1 - from,
{
    if !(from < 0 || from > hay.len() || from + needle.len() > hay.len()) && !occurs_at(hay, needle, from) {
        lemma_find_from_bounds(hay, needle, from + 1);
    }
}

/// A position `find_spec` reports is an occurrence.
pub proof fn lemma_find_spec_occurs(hay: Seq<char>, needle: Seq<char>)
    ensures
        find_spec(hay, needle) matches Some(i) ==> occurs_at(hay, needle, i),
{
    lemma_find_from_bounds(hay, needle, 0);
}

fn occurs_at_exec(hay: &[char], needle: &[char], i: usize) -> (r: bool)
    requires
        i + needle.len() <= hay.len(),
    ensures
        r == occurs_at(hay@, needle@, i as int),
{
    let mut k: usize = 0;
    while k < needle.len()
        invariant
            i + needle.len() <= hay.len(),
            k <= needle.len(),
            forall|j: int| 0 <= j < k ==> hay@[i + j] == needle@[j],
        decreases needle.len() - k,
    {
        if hay[i + k] != needle[k] {
            assert(hay@.subrange(i as int, i + needle.len())[k as int] != needle@[k as int]);
            return false;
        }
        k = k + 1;
    }
    assert(hay@.subrange(i as int, i + needle.len()) =~= needle@);
    true
}

/// The first index where `needle` occurs in `hay`, if any.
pub fn find(hay: &[char], needle: &[char]) -> (r: Option<usize>)
    ensures
        match r {
            Some(i) => find_spec(hay@, needle@) == Some(i as int),
            None => find_spec(hay@, needle@) is None,
        },
{
    if needle.len() > hay.len() {
        return None;
    }
    let last: usize = hay.len() - needle.len();
    let mut i: usize = 0;
    while i <= last
        invariant
            needle.len() <= hay.len(),
            last == hay.len() - needle.len(),
            i <= last + 1,
            find_spec(hay@, needle@) == find_from(hay@, needle@, i as int),
        decreases last + 1 - i,
    {
        if occurs_at_exec(hay, needle, i) {
            return Some(i);
        }
        if i == last {
            return None;
        }
        i = i + 1;
    }
    None
}

/// The character of a decimal digit.
pub open spec fn digit_char(d: nat) -> char {
    if d == 0 { '0' } else if d == 1 { '1' } else if d == 2 { '2' } else if d == 3 { '3' }
    else if d == 4 { '4' } else if d == 5 { '5' } else if d == 6 { '6' } else if d == 7 { '7' }
    else if d == 8 { '8' } else { '9' }
}

/// The decimal digits of `n`, most significant first, without leading zeros.
pub open spec fn nat_text(n: nat) -> Seq<char>
    decreases n,
{
    if n < 10 {
        seq![digit_char(n)]
    } else {
        nat_text(n / 10).push(digit_char(n % 10))
    }
}

/// The decimal form of `n`, as `Display` writes an integer.
pub open spec fn int_text(n: int) -> Seq<char> {
    if n < 0 {
        seq!['-'] + nat_text((-n) as nat)
    } else {
        nat_text(n as nat)
    }
}

fn digit(d: u64) -> (c: char)
    requires
        d < 10,
    ensures
        c == digit_char(d as nat),
{
    if d == 0 { '0' } else if d == 1 { '1' } else if d == 2 { '2' } else if d == 3 { '3' }
    else if d == 4 { '4' } else if d == 5 { '5' } else if d == 6 { '6' } else if d == 7 { '7' }
    else if d == 8 { '8' } else { '9' }
}

fn push_digits(n: u64, out: &mut Vec<char>)
    ensures
        final(out)@ == old(out)@ + nat_text(n as nat),
    decreases n,
{
    if n >= 10 {
        push_digits(n / 10, out);
    }
    out.push(digit(n % 10));
    proof {
        if n >= 10 {
            assert(final(out)@ =~= old(out)@ + nat_text(n as nat));
        } else {
            assert(final(out)@ =~= old(out)@ + nat_text(n as nat));
        }
    }
}

/// The decimal form of `n`.
pub fn decimal_text(n: i64) -> (out: String)
    ensures
        out@ == int_text(n as int),
{
    let mut cs: Vec<char> = Vec::new();
    if n < 0 {
        cs.push('-');
        let magnitude: u64 = (-(n as i128)) as u64;
        push_digits(magnitude, &mut cs);
    } else {
        push_digits(n as u64, &mut cs);
    }
    assert(cs@ =~= int_text(n as int));
    string_of(cs.as_slice())
}

/// The character of a hexadecimal digit, lower case.
pub open spec fn hex_digit_char(d: nat) -> char {
    if d < 10 { digit_char(d) } else if d == 10 { 'a' } else if d == 11 { 'b' } else if d == 12 { 'c' }
    else if d == 13 { 'd' } else if d == 14 { 'e' } else { 'f' }
}

/// Each byte as two lower-case hexadecimal digits, as `{:x}` writes a digest.
pub open spec fn hex_text(bytes: Seq<u8>) -> Seq<char>
    decreases bytes.len(),
{
    if bytes.len() == 0 {
        Seq::empty()
    } else {
        hex_text(bytes.drop_last()) + seq![
            hex_digit_char((bytes.last() / 16) as nat),
            hex_digit_char((bytes.last() % 16) as nat),
        ]
    }
}

pub(crate) fn hex_digit(d: u8) -> (c: char)
    requires
        d < 16,
    ensures
        c == hex_digit_char(d as nat),
{
    if d < 10 { digit(d as u64) } else if d == 10 { 'a' } else if d == 11 { 'b' } else if d == 12 { 'c' }
    else if d == 13 { 'd' } else if d == 14 { 'e' } else { 'f' }
}

/// The lower-case hexadecimal form of `bytes`.
pub fn hex_lower(bytes: &[u8]) -> (out: String)
    ensures
        out@ == hex_text(bytes@),
{
    let mut cs: Vec<char> = Vec::new();
    let mut i: usize = 0;
    while i < bytes.len()
        invariant
            i <= bytes.len(),
            cs@ == hex_text(bytes@.take(i as int)),
        decreases bytes.len() - i,
    {
        let b = bytes[i];
        cs.push(hex_digit(b / 16));
        cs.push(hex_digit(b % 16));
        proof {
            assert(bytes@.take(i + 1).drop_last() =~= bytes@.take(i as int));
            assert(cs@ =~= hex_text(bytes@.take(i + 1)));
        }
        i = i + 1;
    }
    assert(bytes@.take(bytes@.len() as int) =~= bytes@);
    string_of(cs.as_slice())
}


/// Bytes in the UTF-8 encoding of `s`.
pub open spec fn utf8_size(s: Seq<char>) -> nat {
    vstd::utf8::encode_utf8(s).len()
}

proof fn lemma_utf8_size_skip_monotone(s: Seq<char>, i: int, j: int)
    requires
        0 <= i <= j <= s.len(),
    ensures
        utf8_size(s.skip(i)) >= utf8_size(s.skip(j)),
    decreases j - i,
{
    if i < j {
        assert(s.skip(i).drop_first() =~= s.skip(i + 1));
        lemma_utf8_size_skip_monotone(s, i + 1, j);
    }
}

/// Whether the UTF-8 encoding of `s` is longer than `limit` bytes.
pub fn utf8_size_exceeds(s: &str, limit: usize) -> (r: bool)
    ensures
        r == (utf8_size(s@) > limit),
{
    let cs = chars_of(s);
    let mut i: usize = cs.len();
    let mut total: usize = 0;
    assert(cs@.skip(cs@.len() as int) =~= Seq::<char>::empty());
    while i > 0
        invariant
            cs@ == s@,
            i <= cs@.len(),
            total == utf8_size(cs@.skip(i as int)),
            total <= limit,
        decreases i,
    {
        let c = cs[i - 1];
        let v = c as u32;
        let width: usize = if v <= 0x7F { 1 } else if v <= 0x7FF { 2 } else if v <= 0xFFFF { 3 } else { 4 };
        proof {
            assert(cs@.skip(i - 1).drop_first() =~= cs@.skip(i as int));
            assert(cs@.skip(i - 1)[0] == c);
            vstd::utf8::char_is_scalar(c);
            assert(vstd::utf8::encode_scalar(v).len() == width);
        }
        if width > limit - total {
            proof {
                lemma_utf8_size_skip_monotone(cs@, 0, i - 1);
                assert(cs@.skip(0) =~= cs@);
            }
            return true;
        }
        total = total + width;
        i = i - 1;
    }
    assert(cs@.skip(0) =~= cs@);
    false
}


/// Whether a code point has Unicode's `White_Space` property, by the property's table:
/// U+0009 to U+000D, U+0020, U+0085, U+00A0, U+1680, U+2000 to U+200A, U+2028, U+2029,
/// U+202F, U+205F and U+3000.
pub open spec fn white_space_code_point(n: u32) -> bool {
    ||| 0x09 <= n && n <= 0x0D
    ||| n == 0x20 || n == 0x85 || n == 0xA0 || n == 0x1680
    ||| 0x2000 <= n && n <= 0x200A
    ||| n == 0x2028 || n == 0x2029 || n == 0x202F || n == 0x205F || n == 0x3000
}

/// A character is white space for this library exactly when its code point has Unicode's
/// `White_Space` property: tab, line feed, vertical tab, form feed and carriage return among
/// them.
pub proof fn law_white_space_is_unicode_white_space(c: char)
    ensures
        is_whitespace_spec(c) <==> white_space_code_point(c as u32),
{
}

proof fn lemma_blank_has_no_end(w: Seq<char>)
    requires
        is_blank(w),
    ensures
        last_non_blank_end(w) == 0,
        first_non_blank(w) == w.len(),
{
    lemma_last_non_blank_end(w);
    lemma_first_non_blank(w);
    if last_non_blank_end(w) > 0 {
        assert(is_whitespace_spec(w[last_non_blank_end(w) - 1]));
    }
    if first_non_blank(w) < w.len() {
        assert(is_whitespace_spec(w[first_non_blank(w)]));
    }
}

proof fn lemma_blank_drop_last(w: Seq<char>)
    requires
        is_blank(w),
        w.len() > 0,
    ensures
        is_blank(w.drop_last()),
        is_whitespace_spec(w.last()),
{
    assert forall|i: int| 0 <= i < w.drop_last().len() implies is_whitespace_spec(#[trigger] w.drop_last()[i]) by {
        assert(w.drop_last()[i] == w[i]);
    }
}

proof fn lemma_blank_drop_first(w: Seq<char>)
    requires
        is_blank(w),
        w.len() > 0,
    ensures
        is_blank(w.drop_first()),
        is_whitespace_spec(w[0]),
{
    assert forall|i: int| 0 <= i < w.drop_first().len() implies is_whitespace_spec(#[trigger] w.drop_first()[i]) by {
        assert(w.drop_first()[i] == w[i + 1]);
    }
}

/// White space after a text does not move the end of its last non-blank character.
proof fn lemma_end_after_blank(s: Seq<char>, w: Seq<char>)
    requires
        is_blank(w),
    ensures
        last_non_blank_end(s + w) == last_non_blank_end(s),
    decreases w.len(),
{
    if w.len() == 0 {
        assert(s + w =~= s);
    } else {
        lemma_blank_drop_last(w);
        lemma_end_after_blank(s, w.drop_last());
        assert((s + w).drop_last() =~= s + w.drop_last());
        assert((s + w).last() == w.last());
    }
}

/// White space after a text does not move its first non-blank character, if it has one.
proof fn lemma_start_before_blank(s: Seq<char>, w: Seq<char>)
    ensures
        first_non_blank(s) < s.len() ==> first_non_blank(s + w) == first_non_blank(s),
        first_non_blank(s) >= s.len() ==> first_non_blank(s + w) >= s.len(),
    decreases s.len(),
{
    lemma_first_non_blank(s + w);
    if s.len() > 0 {
        assert((s + w)[0] == s[0]);
        if is_whitespace_spec(s[0]) {
            lemma_start_before_blank(s.drop_first(), w);
            assert((s + w).drop_first() =~= s.drop_first() + w);
        }
    }
}

/// White space before a text shifts its first non-blank character by the white space's length.
proof fn lemma_start_after_blank(w: Seq<char>, s: Seq<char>)
    requires
        is_blank(w),
    ensures
        first_non_blank(w + s) == w.len() + first_non_blank(s),
    decreases w.len(),
{
    if w.len() == 0 {
        assert(w + s =~= s);
    } else {
        lemma_blank_drop_first(w);
        lemma_start_after_blank(w.drop_first(), s);
        assert((w + s).drop_first() =~= w.drop_first() + s);
        assert((w + s)[0] == w[0]);
    }
}

/// White space before a text shifts the end of its last non-blank character by the white
/// space's length, if it has one.
proof fn lemma_end_before_text(w: Seq<char>, s: Seq<char>)
    requires
        is_blank(w),
    ensures
        last_non_blank_end(s) > 0 ==> last_non_blank_end(w + s) == w.len() + last_non_blank_end(s),
        last_non_blank_end(s) == 0 ==> last_non_blank_end(w + s) == 0,
    decreases s.len(),
{
    if s.len() == 0 {
        assert(w + s =~= w);
        lemma_blank_has_no_end(w);
    } else {
        assert((w + s).last() == s.last());
        if is_whitespace_spec(s.last()) {
            lemma_end_before_text(w, s.drop_last());
            assert((w + s).drop_last() =~= w + s.drop_last());
        }
    }
}

/// Trimming leaves nothing of a blank text, and something of every other text.
pub proof fn law_trim_empty_iff_blank(s: Seq<char>)
    ensures
        is_blank(s) <==> trim_spec(s).len() == 0,
{
    lemma_first_non_blank(s);
    lemma_last_non_blank_end(s);
    if is_blank(s) {
        lemma_blank_has_no_end(s);
    } else {
        let k = choose|k: int| 0 <= k < s.len() && !is_whitespace_spec(#[trigger] s[k]);
        assert(first_non_blank(s) <= k);
        assert(last_non_blank_end(s) > k);
    }
}

/// White space after or before a text does not change what trimming leaves of it.
pub proof fn law_trim_ignores_blank_edges(s: Seq<char>, w: Seq<char>)
    requires
        is_blank(w),
    ensures
        trim_spec(s + w) == trim_spec(s),
        trim_spec(w + s) == trim_spec(s),
{
    lemma_first_non_blank(s);
    lemma_last_non_blank_end(s);
    lemma_end_after_blank(s, w);
    lemma_start_before_blank(s, w);
    lemma_start_after_blank(w, s);
    lemma_end_before_text(w, s);
    let f = first_non_blank(s);
    let e = last_non_blank_end(s);
    if f >= s.len() && e > 0 {
        assert(is_whitespace_spec(s[e - 1]));
    }
    if f < e {
        assert((s + w).subrange(f, e) =~= s.subrange(f, e));
        assert((w + s).subrange(w.len() + f, w.len() + e) =~= s.subrange(f, e));
    }
}

/// Trimming drops a line ending, `"\n"` or `"\r\n"`, after a text, and one before it: a value
/// read from a file saved with either ending trims to the same text as without it.
pub proof fn law_trim_drops_line_ending(s: Seq<char>)
    ensures
        trim_spec(s + "\r\n"@) == trim_spec(s),
        trim_spec(s + "\n"@) == trim_spec(s),
        trim_spec("\r\n"@ + s) == trim_spec(s),
{
    reveal_strlit("\r\n");
    reveal_strlit("\n");
    assert(is_whitespace_spec("\r\n"@[0]));
    assert(is_whitespace_spec("\r\n"@[1]));
    assert(is_blank("\r\n"@));
    assert(is_whitespace_spec("\n"@[0]));
    assert(is_blank("\n"@));
    law_trim_ignores_blank_edges(s, "\r\n"@);
    law_trim_ignores_blank_edges(s, "\n"@);
}

/// What trimming leaves is the part of `s` between a blank head and a blank tail, and it neither
/// begins nor ends with white space.
pub proof fn law_trim_shape(s: Seq<char>)
    ensures
        exists|i: int, j: int|
            0 <= i <= j <= s.len() && trim_spec(s) == s.subrange(i, j) && is_blank(#[trigger] s.take(i))
                && is_blank(#[trigger] s.skip(j)),
        trim_spec(s).len() > 0 ==> !is_whitespace_spec(trim_spec(s)[0]) && !is_whitespace_spec(trim_spec(s).last()),
{
    lemma_first_non_blank(s);
    lemma_last_non_blank_end(s);
    let f = first_non_blank(s);
    let e = last_non_blank_end(s);
    assert forall|k: int| 0 <= k < s.take(f).len() implies is_whitespace_spec(#[trigger] s.take(f)[k]) by {
        assert(s.take(f)[k] == s[k]);
    }
    if f < e {
        assert forall|k: int| 0 <= k < s.skip(e).len() implies is_whitespace_spec(#[trigger] s.skip(e)[k]) by {
            assert(s.skip(e)[k] == s[e + k]);
        }
        assert(trim_spec(s) == s.subrange(f, e));
        assert(0 <= f <= e <= s.len() && trim_spec(s) == s.subrange(f, e) && is_blank(s.take(f))
            && is_blank(s.skip(e)));
    } else {
        if e > 0 && f >= s.len() {
            assert(is_whitespace_spec(s[e - 1]));
        }
        assert(is_blank(s.take(f)));
        assert forall|k: int| 0 <= k < s.skip(f).len() implies is_whitespace_spec(#[trigger] s.skip(f)[k]) by {
            assert(s.skip(f)[k] == s[f + k]);
        }
        assert(s.subrange(f, f) =~= trim_spec(s));
        assert(0 <= f <= f <= s.len() && trim_spec(s) == s.subrange(f, f) && is_blank(s.take(f))
            && is_blank(s.skip(f)));
    }
}

} // verus!
