//! Character-sequence helpers shared by the parsers and formatters.
//!
//! Text is handled as sequences of Unicode scalar values (`Seq<char>`); the
//! order used for sorting compares code points, which agrees with the byte
//! order of the UTF-8 encodings that `str`'s `Ord` compares.

use vstd::prelude::*;
use vstd::std_specs::iter::IteratorSpec;

verus! {

// ---------------------------------------------------------------------------
// ASCII character classes (the definitions of `char::is_ascii_*`).
// ---------------------------------------------------------------------------

pub open spec fn is_digit(c: char) -> bool {
    '0' <= c && c <= '9'
}

pub open spec fn is_lower(c: char) -> bool {
    'a' <= c && c <= 'z'
}

pub open spec fn is_upper(c: char) -> bool {
    'A' <= c && c <= 'Z'
}

pub open spec fn is_alnum(c: char) -> bool {
    is_digit(c) || is_lower(c) || is_upper(c)
}

/// `char::is_ascii_hexdigit`.
pub open spec fn is_hex_digit(c: char) -> bool {
    is_digit(c) || ('a' <= c && c <= 'f') || ('A' <= c && c <= 'F')
}

/// `char::is_ascii_whitespace`: space, tab, line feed, form feed, carriage return.
pub open spec fn is_ascii_whitespace(c: char) -> bool {
    c == ' ' || c == '\t' || c == '\n' || c == '\x0C' || c == '\r'
}

/// `char::is_ascii_control`.
pub open spec fn is_ascii_control(c: char) -> bool {
    (c as u32) <= 0x1f || (c as u32) == 0x7f
}

/// `char::is_whitespace`: the Unicode `White_Space` property.
pub open spec fn is_unicode_whitespace(c: char) -> bool {
    let u = c as u32;
    (0x09 <= u && u <= 0x0d) || u == 0x20 || u == 0x85 || u == 0xa0 || u == 0x1680 || (0x2000
        <= u && u <= 0x200a) || u == 0x2028 || u == 0x2029 || u == 0x202f || u == 0x205f || u
        == 0x3000
}

/// `char::to_ascii_lowercase`.
pub open spec fn ascii_lower(c: char) -> char {
    if is_upper(c) {
        ((c as u32) + 32) as char
    } else {
        c
    }
}

/// `str::to_ascii_lowercase` on a character sequence.
pub open spec fn lower_seq(s: Seq<char>) -> Seq<char> {
    Seq::new(s.len(), |i: int| ascii_lower(s[i]))
}

pub fn digit(c: char) -> (b: bool)
    ensures
        b == is_digit(c),
{
    '0' <= c && c <= '9'
}

pub fn alnum(c: char) -> (b: bool)
    ensures
        b == is_alnum(c),
{
    ('0' <= c && c <= '9') || ('a' <= c && c <= 'z') || ('A' <= c && c <= 'Z')
}

pub fn hex_digit_char(c: char) -> (b: bool)
    ensures
        b == is_hex_digit(c),
{
    ('0' <= c && c <= '9') || ('a' <= c && c <= 'f') || ('A' <= c && c <= 'F')
}

pub fn lower_char(c: char) -> (r: char)
    ensures
        r == ascii_lower(c),
{
    if 'A' <= c && c <= 'Z' {
        let b = c as u8;
        (b + 32) as char
    } else {
        c
    }
}

pub fn unicode_whitespace(c: char) -> (b: bool)
    ensures
        b == is_unicode_whitespace(c),
{
    let u = c as u32;
    (0x09 <= u && u <= 0x0d) || u == 0x20 || u == 0x85 || u == 0xa0 || u == 0x1680 || (0x2000
        <= u && u <= 0x200a) || u == 0x2028 || u == 0x2029 || u == 0x202f || u == 0x205f || u
        == 0x3000
}

/// The ASCII lowercase copy of a character sequence.
pub fn lower_vec(s: &Vec<char>) -> (r: Vec<char>)
    ensures
        r@ == lower_seq(s@),
{
    let mut r: Vec<char> = Vec::new();
    let mut i: usize = 0;
    while i < s.len()
        invariant
            i <= s.len(),
            r@ == lower_seq(s@.take(i as int)),
        decreases s.len() - i,
    {
        let c = lower_char(s[i]);
        r.push(c);
        i += 1;
        assert(r@ =~= lower_seq(s@.take(i as int)));
    }
    assert(s@.take(s.len() as int) =~= s@);
    r
}

// ---------------------------------------------------------------------------
// Searching.
// ---------------------------------------------------------------------------

/// The first position at or after `lo` holding `c`.
pub open spec fn find_char_from(s: Seq<char>, c: char, lo: int) -> Option<int>
    decreases s.len() - lo,
{
    if lo < 0 || lo >= s.len() {
        None
    } else if s[lo] == c {
        Some(lo)
    } else {
        find_char_from(s, c, lo + 1)
    }
}

/// The first position of `c` in `s` (`str::find` with a `char`).
pub open spec fn find_char(s: Seq<char>, c: char) -> Option<int> {
    find_char_from(s, c, 0)
}

/// The last position before `hi` holding `c`.
pub open spec fn rfind_char_upto(s: Seq<char>, c: char, hi: int) -> Option<int>
    decreases hi,
{
    if hi <= 0 || hi > s.len() {
        None
    } else if s[hi - 1] == c {
        Some(hi - 1)
    } else {
        rfind_char_upto(s, c, hi - 1)
    }
}

/// The last position of `c` in `s` (`str::rfind` with a `char`).
pub open spec fn rfind_char(s: Seq<char>, c: char) -> Option<int> {
    rfind_char_upto(s, c, s.len() as int)
}

/// The search from `lo` finds the first `c` at or after `lo`, or there is none.
pub proof fn lemma_find_char_from(s: Seq<char>, c: char, lo: int)
    requires
        0 <= lo <= s.len(),
    ensures
        match find_char_from(s, c, lo) {
            Some(i) => lo <= i < s.len() && s[i] == c && forall|j: int| lo <= j < i ==> s[j] != c,
            None => forall|j: int| lo <= j < s.len() ==> s[j] != c,
        },
    decreases s.len() - lo,
{
    if lo < s.len() && s[lo] != c {
        lemma_find_char_from(s, c, lo + 1);
    }
}

/// `find_char` gives the first occurrence, or there is none.
pub proof fn lemma_find_char(s: Seq<char>, c: char)
    ensures
        match find_char(s, c) {
            Some(i) => 0 <= i < s.len() && s[i] == c && forall|j: int| 0 <= j < i ==> s[j] != c,
            None => forall|j: int| 0 <= j < s.len() ==> s[j] != c,
        },
{
    lemma_find_char_from(s, c, 0);
}

/// The search below `hi` finds the last `c` before `hi`, or there is none.
pub proof fn lemma_rfind_char_upto(s: Seq<char>, c: char, hi: int)
    requires
        0 <= hi <= s.len(),
    ensures
        match rfind_char_upto(s, c, hi) {
            Some(i) => 0 <= i < hi && s[i] == c && forall|j: int| i < j < hi ==> s[j] != c,
            None => forall|j: int| 0 <= j < hi ==> s[j] != c,
        },
    decreases hi,
{
    if hi > 0 && s[hi - 1] != c {
        lemma_rfind_char_upto(s, c, hi - 1);
    }
}

/// `rfind_char` gives the last occurrence, or there is none.
pub proof fn lemma_rfind_char(s: Seq<char>, c: char)
    ensures
        match rfind_char(s, c) {
            Some(i) => 0 <= i < s.len() && s[i] == c && forall|j: int| i < j < s.len() ==> s[j]
                != c,
            None => forall|j: int| 0 <= j < s.len() ==> s[j] != c,
        },
{
    lemma_rfind_char_upto(s, c, s.len() as int);
}

pub fn find_char_exec(s: &Vec<char>, c: char) -> (r: Option<usize>)
    ensures
        r matches Some(i) ==> Some(i as int) == find_char(s@, c),
        r is None ==> find_char(s@, c) is None,
        r matches Some(i) ==> i < s.len(),
{
    proof {
        lemma_find_char(s@, c);
    }
    let mut i: usize = 0;
    while i < s.len()
        invariant
            i <= s.len(),
            forall|j: int| 0 <= j < i ==> s@[j] != c,
            match find_char(s@, c) {
                Some(k) => 0 <= k < s.len() && s@[k] == c && forall|j: int| 0 <= j < k ==> s@[j]
                    != c,
                None => forall|j: int| 0 <= j < s.len() ==> s@[j] != c,
            },
        decreases s.len() - i,
    {
        if s[i] == c {
            return Some(i);
        }
        i += 1;
    }
    None
}

pub fn rfind_char_exec(s: &Vec<char>, c: char) -> (r: Option<usize>)
    ensures
        r matches Some(i) ==> Some(i as int) == rfind_char(s@, c),
        r is None ==> rfind_char(s@, c) is None,
        r matches Some(i) ==> i < s.len(),
{
    proof {
        lemma_rfind_char(s@, c);
    }
    let mut i: usize = s.len();
    while i > 0
        invariant
            i <= s.len(),
            forall|j: int| i <= j < s.len() ==> s@[j] != c,
            match rfind_char(s@, c) {
                Some(k) => 0 <= k < s.len() && s@[k] == c && forall|j: int| k < j < s.len()
                    ==> s@[j] != c,
                None => forall|j: int| 0 <= j < s.len() ==> s@[j] != c,
            },
        decreases i,
    {
        if s[i - 1] == c {
            return Some(i - 1);
        }
        i -= 1;
    }
    None
}

/// A copy of `s[start..end]`.
pub fn slice_chars(s: &Vec<char>, start: usize, end: usize) -> (r: Vec<char>)
    requires
        start <= end <= s.len(),
    ensures
        r@ == s@.subrange(start as int, end as int),
{
    let mut r: Vec<char> = Vec::new();
    let mut i: usize = start;
    while i < end
        invariant
            start <= i <= end <= s.len(),
            r@ == s@.subrange(start as int, i as int),
        decreases end - i,
    {
        r.push(s[i]);
        i += 1;
        assert(r@ =~= s@.subrange(start as int, i as int));
    }
    r
}

/// Appends a copy of `t` to `r`.
pub fn extend_chars(r: &mut Vec<char>, t: &Vec<char>)
    ensures
        final(r)@ == old(r)@ + t@,
{
    let mut i: usize = 0;
    while i < t.len()
        invariant
            i <= t.len(),
            r@ == old(r)@ + t@.take(i as int),
        decreases t.len() - i,
    {
        r.push(t[i]);
        i += 1;
        assert(r@ =~= old(r)@ + t@.take(i as int));
    }
    assert(t@.take(t.len() as int) =~= t@);
}

/// Element-wise equality of two character sequences.
pub fn chars_eq(a: &Vec<char>, b: &Vec<char>) -> (r: bool)
    ensures
        r == (a@ == b@),
{
    if a.len() != b.len() {
        return false;
    }
    let mut i: usize = 0;
    while i < a.len()
        invariant
            i <= a.len() == b.len(),
            forall|j: int| 0 <= j < i ==> a@[j] == b@[j],
        decreases a.len() - i,
    {
        if a[i] != b[i] {
            return false;
        }
        i += 1;
    }
    assert(a@ =~= b@);
    true
}

/// Equality of a character sequence with a string literal's characters.
pub fn chars_eq_str(a: &Vec<char>, b: &str) -> (r: bool)
    ensures
        r == (a@ == b@),
{
    let bv = chars_of(b);
    chars_eq(a, &bv)
}

/// The character view of an optional character vector.
pub open spec fn opt_view(o: Option<Vec<char>>) -> Option<Seq<char>> {
    match o {
        Some(v) => Some(v@),
        None => None,
    }
}

// ---------------------------------------------------------------------------
// Conversions between `String`/`&str` and character vectors.
// ---------------------------------------------------------------------------

/// Appends one character to an owned string (`String::push`).
#[verifier::external_body]
pub(crate) fn push_char(s: &mut String, c: char)
    ensures
        final(s)@ == old(s)@.push(c),
{
    s.push(c);
}

/// The characters of a string slice, in order.
pub fn chars_of(s: &str) -> (v: Vec<char>)
    ensures
        v@ == s@,
{
    let mut v: Vec<char> = Vec::new();
    for c in it: s.chars()
        invariant
            v@ == it.seq().take(it.index() as int),
    {
        v.push(c);
    }
    v
}

/// An owned string holding exactly the given characters.
pub fn string_of(chars: &Vec<char>) -> (s: String)
    ensures
        s@ == chars@,
{
    let mut s = String::new();
    let mut i: usize = 0;
    while i < chars.len()
        invariant
            i <= chars.len(),
            s@ == chars@.take(i as int),
        decreases chars.len() - i,
    {
        push_char(&mut s, chars[i]);
        assert(chars@.take(i + 1) == chars@.take(i as int).push(chars@[i as int]));
        i += 1;
    }
    assert(chars@.take(chars.len() as int) == chars@);
    s
}


// ---------------------------------------------------------------------------
// Splitting and joining.
// ---------------------------------------------------------------------------

/// The pieces of `s` between occurrences of `sep` (`str::split` with a `char`),
/// as the finished pieces and the piece still being read.
pub open spec fn split_state(s: Seq<char>, sep: char) -> (Seq<Seq<char>>, Seq<char>)
    decreases s.len(),
{
    if s.len() == 0 {
        (Seq::empty(), Seq::empty())
    } else {
        let (done, cur) = split_state(s.drop_last(), sep);
        if s.last() == sep {
            (done.push(cur), Seq::empty())
        } else {
            (done, cur.push(s.last()))
        }
    }
}

/// `str::split(sep)`: always at least one piece.
pub open spec fn split_on(s: Seq<char>, sep: char) -> Seq<Seq<char>> {
    split_state(s, sep).0.push(split_state(s, sep).1)
}

pub fn split_on_exec(s: &Vec<char>, sep: char) -> (r: Vec<Vec<char>>)
    ensures
        crate::order::views(r@) == split_on(s@, sep),
{
    let mut done: Vec<Vec<char>> = Vec::new();
    let mut cur: Vec<char> = Vec::new();
    let mut i: usize = 0;
    while i < s.len()
        invariant
            i <= s.len(),
            crate::order::views(done@) == split_state(s@.take(i as int), sep).0,
            cur@ == split_state(s@.take(i as int), sep).1,
        decreases s.len() - i,
    {
        assert(s@.take(i + 1).drop_last() =~= s@.take(i as int));
        let ghost before = crate::order::views(done@);
        if s[i] == sep {
            let piece = cur;
            done.push(piece);
            cur = Vec::new();
            assert(crate::order::views(done@) =~= before.push(piece@));
        } else {
            cur.push(s[i]);
        }
        i += 1;
    }
    assert(s@.take(s.len() as int) =~= s@);
    let ghost before = crate::order::views(done@);
    let last = cur;
    done.push(last);
    assert(crate::order::views(done@) =~= before.push(last@));
    done
}

/// `[T]::join(sep)` over character sequences.
pub open spec fn join(parts: Seq<Seq<char>>, sep: Seq<char>) -> Seq<char>
    decreases parts.len(),
{
    if parts.len() == 0 {
        Seq::empty()
    } else if parts.len() == 1 {
        parts[0]
    } else {
        join(parts.drop_last(), sep) + sep + parts.last()
    }
}

pub fn join_exec(parts: &Vec<Vec<char>>, sep: &Vec<char>) -> (r: Vec<char>)
    ensures
        r@ == join(crate::order::views(parts@), sep@),
{
    let ghost v = crate::order::views(parts@);
    let mut r: Vec<char> = Vec::new();
    let mut i: usize = 0;
    while i < parts.len()
        invariant
            i <= parts.len(),
            v == crate::order::views(parts@),
            r@ == join(v.take(i as int), sep@),
        decreases parts.len() - i,
    {
        assert(v.take(i + 1).drop_last() =~= v.take(i as int));
        if i > 0 {
            extend_chars(&mut r, sep);
        }
        extend_chars(&mut r, &parts[i]);
        proof {
            if i == 0 {
                assert(r@ =~= v.take(1)[0]);
            } else {
                assert(r@ =~= join(v.take(i as int), sep@) + sep@ + v.take(i + 1).last());
            }
        }
        i += 1;
    }
    assert(v.take(parts.len() as int) =~= v);
    r
}

// ---------------------------------------------------------------------------
// Prefixes and suffixes.
// ---------------------------------------------------------------------------

pub open spec fn starts_with(s: Seq<char>, prefix: Seq<char>) -> bool {
    prefix.len() <= s.len() && s.take(prefix.len() as int) == prefix
}

pub open spec fn ends_with(s: Seq<char>, suffix: Seq<char>) -> bool {
    suffix.len() <= s.len() && s.skip(s.len() - suffix.len()) == suffix
}

/// `s` holds `needle` as a contiguous part.
pub open spec fn contains_seq(s: Seq<char>, needle: Seq<char>) -> bool {
    exists|i: int| 0 <= i <= s.len() - needle.len() && #[trigger] s.subrange(i, i + needle.len())
        == needle
}

pub fn starts_with_exec(s: &Vec<char>, prefix: &Vec<char>) -> (r: bool)
    ensures
        r == starts_with(s@, prefix@),
{
    if prefix.len() > s.len() {
        return false;
    }
    let head = slice_chars(s, 0, prefix.len());
    assert(head@ =~= s@.take(prefix@.len() as int));
    chars_eq(&head, prefix)
}

pub fn ends_with_exec(s: &Vec<char>, suffix: &Vec<char>) -> (r: bool)
    ensures
        r == ends_with(s@, suffix@),
{
    if suffix.len() > s.len() {
        return false;
    }
    let tail = slice_chars(s, s.len() - suffix.len(), s.len());
    assert(tail@ =~= s@.skip(s@.len() - suffix@.len()));
    chars_eq(&tail, suffix)
}

pub fn contains_seq_exec(s: &Vec<char>, needle: &Vec<char>) -> (r: bool)
    ensures
        r == contains_seq(s@, needle@),
{
    if needle.len() > s.len() {
        return false;
    }
    if needle.len() == 0 {
        assert(s@.subrange(0int, 0int + needle@.len()) =~= needle@);
        return true;
    }
    let mut i: usize = 0;
    while i <= s.len() - needle.len()
        invariant
            0 < needle.len() <= s.len(),
            i <= s.len() - needle.len() + 1,
            forall|j: int| 0 <= j < i ==> #[trigger] s@.subrange(j, j + needle@.len()) != needle@,
        decreases s.len() - needle.len() + 1 - i,
    {
        let part = slice_chars(s, i, i + needle.len());
        if chars_eq(&part, needle) {
            return true;
        }
        i += 1;
    }
    false
}

// ---------------------------------------------------------------------------
// Decimal and hexadecimal rendering.
// ---------------------------------------------------------------------------

pub open spec fn digit_char(d: nat) -> char
    recommends
        d < 10,
{
    ((d + 48) as u32) as char
}

/// The decimal digits of `n` without leading zeros (`Display` for unsigned integers).
pub open spec fn decimal(n: nat) -> Seq<char>
    decreases n,
{
    if n < 10 {
        seq![digit_char(n)]
    } else {
        decimal(n / 10).push(digit_char(n % 10))
    }
}

/// `Display` for signed integers.
pub open spec fn signed_decimal(n: int) -> Seq<char> {
    if n < 0 {
        seq!['-'] + decimal((-n) as nat)
    } else {
        decimal(n as nat)
    }
}

pub fn decimal_exec(n: u64) -> (r: Vec<char>)
    ensures
        r@ == decimal(n as nat),
    decreases n,
{
    if n < 10 {
        let c = ((n as u8) + 48) as char;
        let mut r = Vec::new();
        r.push(c);
        assert(r@ =~= seq![digit_char(n as nat)]);
        r
    } else {
        let mut r = decimal_exec(n / 10);
        let d = (n % 10) as u8;
        r.push((d + 48) as char);
        r
    }
}

pub fn signed_decimal_exec(n: i64) -> (r: Vec<char>)
    ensures
        r@ == signed_decimal(n as int),
{
    if n < 0 {
        let magnitude: u64 = if n == i64::MIN {
            9223372036854775808u64
        } else {
            (-n) as u64
        };
        let digits = decimal_exec(magnitude);
        let mut r = Vec::new();
        r.push('-');
        extend_chars(&mut r, &digits);
        assert(r@ =~= seq!['-'] + decimal((-(n as int)) as nat));
        r
    } else {
        decimal_exec(n as u64)
    }
}

/// A lowercase hexadecimal digit.
pub open spec fn hex_char(d: nat) -> char
    recommends
        d < 16,
{
    if d < 10 {
        digit_char(d)
    } else {
        ((d + 87) as u32) as char
    }
}

/// Lowercase hexadecimal rendering, two digits per byte.
pub open spec fn hex_lower(bytes: Seq<u8>) -> Seq<char>
    decreases bytes.len(),
{
    if bytes.len() == 0 {
        Seq::empty()
    } else {
        hex_lower(bytes.drop_last()).push(hex_char((bytes.last() / 16) as nat)).push(
            hex_char((bytes.last() % 16) as nat),
        )
    }
}

pub fn hex_char_exec(d: u8) -> (c: char)
    requires
        d < 16,
    ensures
        c == hex_char(d as nat),
{
    if d < 10 {
        (d + 48) as char
    } else {
        (d + 87) as char
    }
}

pub fn hex_lower_exec(bytes: &Vec<u8>) -> (r: Vec<char>)
    ensures
        r@ == hex_lower(bytes@),
        r@.len() == 2 * bytes@.len(),
{
    let mut r: Vec<char> = Vec::new();
    let mut i: usize = 0;
    while i < bytes.len()
        invariant
            i <= bytes.len(),
            r@ == hex_lower(bytes@.take(i as int)),
            r@.len() == 2 * i,
        decreases bytes.len() - i,
    {
        assert(bytes@.take(i + 1).drop_last() =~= bytes@.take(i as int));
        let b = bytes[i];
        r.push(hex_char_exec(b / 16));
        r.push(hex_char_exec(b % 16));
        i += 1;
    }
    assert(bytes@.take(bytes.len() as int) =~= bytes@);
    r
}


/// The first position at or after `lo` holding any character of `set`.
pub open spec fn find_any_from(s: Seq<char>, set: Seq<char>, lo: int) -> Option<int>
    decreases s.len() - lo,
{
    if lo < 0 || lo >= s.len() {
        None
    } else if set.contains(s[lo]) {
        Some(lo)
    } else {
        find_any_from(s, set, lo + 1)
    }
}

/// The search from `lo` finds the first member of `set` at or after `lo`, or there is none.
pub proof fn lemma_find_any_from(s: Seq<char>, set: Seq<char>, lo: int)
    requires
        0 <= lo <= s.len(),
    ensures
        match find_any_from(s, set, lo) {
            Some(i) => lo <= i < s.len() && set.contains(s[i]) && forall|j: int|
                lo <= j < i ==> !set.contains(#[trigger] s[j]),
            None => forall|j: int| lo <= j < s.len() ==> !set.contains(#[trigger] s[j]),
        },
    decreases s.len() - lo,
{
    if lo < s.len() && !set.contains(s[lo]) {
        lemma_find_any_from(s, set, lo + 1);
    }
}

pub fn find_any_exec(s: &Vec<char>, set: &Vec<char>) -> (r: Option<usize>)
    ensures
        r matches Some(i) ==> i < s.len() && Some(i as int) == find_any_from(s@, set@, 0),
        r is None ==> find_any_from(s@, set@, 0) is None,
{
    proof {
        lemma_find_any_from(s@, set@, 0);
    }
    let mut i: usize = 0;
    while i < s.len()
        invariant
            i <= s.len(),
            forall|j: int| 0 <= j < i ==> !set@.contains(#[trigger] s@[j]),
            match find_any_from(s@, set@, 0) {
                Some(k) => 0 <= k < s.len() && set@.contains(s@[k]) && forall|j: int|
                    0 <= j < k ==> !set@.contains(#[trigger] s@[j]),
                None => forall|j: int| 0 <= j < s.len() ==> !set@.contains(#[trigger] s@[j]),
            },
        decreases s.len() - i,
    {
        let c = s[i];
        let mut k: usize = 0;
        let mut hit = false;
        while k < set.len()
            invariant
                k <= set.len(),
                hit == exists|m: int| 0 <= m < k && set@[m] == c,
            decreases set.len() - k,
        {
            if set[k] == c {
                hit = true;
            }
            k += 1;
        }
        if hit {
            return Some(i);
        }
        i += 1;
    }
    None
}

/// The first position at or after `lo` where `needle` occurs.
pub open spec fn find_seq_from(s: Seq<char>, needle: Seq<char>, lo: int) -> Option<int>
    decreases s.len() + 1 - lo,
{
    if lo < 0 || lo + needle.len() > s.len() {
        None
    } else if s.subrange(lo, lo + needle.len()) == needle {
        Some(lo)
    } else {
        find_seq_from(s, needle, lo + 1)
    }
}

/// The search from `lo` finds the first occurrence of `needle` at or after `lo`, or there is none.
pub proof fn lemma_find_seq_from(s: Seq<char>, needle: Seq<char>, lo: int)
    requires
        0 <= lo,
    ensures
        match find_seq_from(s, needle, lo) {
            Some(i) => lo <= i && i + needle.len() <= s.len() && s.subrange(i, i + needle.len())
                == needle && forall|j: int|
                lo <= j < i ==> #[trigger] s.subrange(j, j + needle.len()) != needle,
            None => forall|j: int|
                lo <= j && j + needle.len() <= s.len() ==> #[trigger] s.subrange(
                    j,
                    j + needle.len(),
                ) != needle,
        },
    decreases s.len() + 1 - lo,
{
    if lo + needle.len() <= s.len() && s.subrange(lo, lo + needle.len()) != needle {
        lemma_find_seq_from(s, needle, lo + 1);
    }
}

pub fn find_seq_exec(s: &Vec<char>, needle: &Vec<char>) -> (r: Option<usize>)
    ensures
        r matches Some(i) ==> i + needle.len() <= s.len() && Some(i as int) == find_seq_from(
            s@,
            needle@,
            0,
        ),
        r is None ==> find_seq_from(s@, needle@, 0) is None,
{
    proof {
        lemma_find_seq_from(s@, needle@, 0);
    }
    if needle.len() > s.len() {
        return None;
    }
    let mut i: usize = 0;
    while i <= s.len() - needle.len()
        invariant
            needle.len() <= s.len(),
            i <= s.len() - needle.len() + 1,
            forall|j: int| 0 <= j < i ==> #[trigger] s@.subrange(j, j + needle@.len()) != needle@,
            match find_seq_from(s@, needle@, 0) {
                Some(k) => 0 <= k && k + needle.len() <= s.len() && s@.subrange(
                    k,
                    k + needle@.len(),
                ) == needle@ && forall|j: int|
                    0 <= j < k ==> #[trigger] s@.subrange(j, j + needle@.len()) != needle@,
                None => forall|j: int|
                    0 <= j && j + needle.len() <= s.len() ==> #[trigger] s@.subrange(
                        j,
                        j + needle@.len(),
                    ) != needle@,
            },
        decreases s.len() - needle.len() + 1 - i,
    {
        let part = slice_chars(s, i, i + needle.len());
        if chars_eq(&part, needle) {
            return Some(i);
        }
        if i == s.len() - needle.len() {
            return None;
        }
        i += 1;
    }
    None
}

} // verus!
