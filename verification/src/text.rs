//! Text as a sequence of characters, and the string operations the rest of the
//! crate is stated in.
//!
//! Every executable function here works on characters, never on bytes, so none
//! of them can cut through a code point.

use vstd::prelude::*;

verus! {

/// `String::push`: the character given is appended, and nothing else changes.
pub assume_specification[ String::push ](s: &mut String, c: char)
    ensures
        final(s)@ == old(s)@.push(c),
;

/// What the `Debug` of a string writes: the text in double quotes, escaped.
pub uninterp spec fn debug_text(s: Seq<char>) -> Seq<char>;

/// `Debug` of `str`, through `format!`. Which characters are escaped, and how, is
/// left to it; the same text comes out the same.
#[verifier::external_body]
pub(crate) fn debug(s: &str) -> (r: String)
    ensures
        r@ == debug_text(s@),
{
    format!("{:?}", s)
}

// ── Sequences of texts ───────────────────────────────────────────────────────

/// The texts of a sequence of strings.
pub open spec fn views(v: Seq<String>) -> Seq<Seq<char>> {
    v.map_values(|s: String| s@)
}

/// The texts of a sequence of string slices.
pub open spec fn str_views(v: Seq<&str>) -> Seq<Seq<char>> {
    v.map_values(|s: &str| s@)
}

/// The text of a string slice, where there is one.
pub open spec fn opt(s: Option<&str>) -> Option<Seq<char>> {
    match s {
        Some(t) => Some(t@),
        None => None,
    }
}

/// The text of a string, where there is one.
pub open spec fn opt_string(s: Option<String>) -> Option<Seq<char>> {
    match s {
        Some(t) => Some(t@),
        None => None,
    }
}

/// `parts` one after the other, with `sep` between each two of them.
pub open spec fn joined(parts: Seq<Seq<char>>, sep: Seq<char>) -> Seq<char>
    decreases parts.len(),
{
    if parts.len() == 0 {
        Seq::empty()
    } else if parts.len() == 1 {
        parts[0]
    } else {
        joined(parts.drop_last(), sep) + sep + parts.last()
    }
}

// ── Characters ───────────────────────────────────────────────────────────────

/// The characters with the Unicode `White_Space` property.
pub open spec fn is_space(c: char) -> bool {
    ||| 0x09 <= c as u32 <= 0x0d
    ||| c as u32 == 0x20
    ||| c as u32 == 0x85
    ||| c as u32 == 0xa0
    ||| c as u32 == 0x1680
    ||| 0x2000 <= c as u32 <= 0x200a
    ||| c as u32 == 0x2028
    ||| c as u32 == 0x2029
    ||| c as u32 == 0x202f
    ||| c as u32 == 0x205f
    ||| c as u32 == 0x3000
}

/// Whether `c` is white space.
pub fn space(c: char) -> (r: bool)
    ensures
        r == is_space(c),
{
    let u: u32 = c as u32;
    (0x09 <= u && u <= 0x0d) || u == 0x20 || u == 0x85 || u == 0xa0 || u == 0x1680 || (0x2000 <= u
        && u <= 0x200a) || u == 0x2028 || u == 0x2029 || u == 0x202f || u == 0x205f || u == 0x3000
}

/// A decimal digit.
pub open spec fn is_digit(c: char) -> bool {
    '0' as u32 <= c as u32 <= '9' as u32
}

/// `c` with an ASCII capital made small, and every other character as it is.
pub open spec fn ascii_lower(c: char) -> char {
    if 'A' as u32 <= c as u32 <= 'Z' as u32 {
        (c as u32 + 32) as char
    } else {
        c
    }
}

fn lower(c: char) -> (r: char)
    ensures
        r == ascii_lower(c),
{
    let u: u32 = c as u32;
    if 65 <= u && u <= 90 {
        let b: u8 = u as u8;
        (b + 32) as char
    } else {
        c
    }
}

// ── Cutting text up ──────────────────────────────────────────────────────────

/// Where `c` first stands in `s`, or the length of `s` where it does not.
pub open spec fn first_index(s: Seq<char>, c: char) -> int
    decreases s.len(),
{
    if s.len() == 0 || s[0] == c {
        0
    } else {
        1 + first_index(s.skip(1), c)
    }
}

/// The pieces of `s` between the occurrences of `c`: one more than there are
/// occurrences, empty ones included.
pub open spec fn split(s: Seq<char>, c: char) -> Seq<Seq<char>>
    decreases s.len(),
{
    let i = first_index(s, c);
    if 0 <= i < s.len() {
        seq![s.take(i)] + split(s.skip(i + 1), c)
    } else {
        seq![s]
    }
}

/// The longest prefix of `s` that holds no white space.
pub open spec fn leading_word(s: Seq<char>) -> Seq<char>
    decreases s.len(),
{
    if s.len() == 0 || is_space(s[0]) {
        Seq::empty()
    } else {
        seq![s[0]] + leading_word(s.skip(1))
    }
}

/// `s` without the white space it begins with.
pub open spec fn trim_start(s: Seq<char>) -> Seq<char>
    decreases s.len(),
{
    if s.len() > 0 && is_space(s[0]) {
        trim_start(s.skip(1))
    } else {
        s
    }
}

/// `s` without the white space it ends with.
pub open spec fn trim_end(s: Seq<char>) -> Seq<char>
    decreases s.len(),
{
    if s.len() > 0 && is_space(s.last()) {
        trim_end(s.drop_last())
    } else {
        s
    }
}

/// `s` without the white space at either end.
pub open spec fn trim(s: Seq<char>) -> Seq<char> {
    trim_start(trim_end(s))
}

/// The words of `s`: what stands between stretches of white space, never empty.
pub open spec fn words(s: Seq<char>) -> Seq<Seq<char>>
    decreases s.len(),
{
    let t = trim_start(s);
    let w = leading_word(t);
    if t.len() == 0 || w.len() == 0 || t.len() > s.len() || w.len() > t.len() {
        Seq::empty()
    } else {
        seq![w] + words(t.skip(w.len() as int))
    }
}

/// A line without the carriage return it may end with.
pub open spec fn without_cr(line: Seq<char>) -> Seq<char> {
    if line.len() > 0 && line.last() == '\r' {
        line.drop_last()
    } else {
        line
    }
}

/// The lines of `s`: each ends at a newline, or at a carriage return and a
/// newline, and what follows the last newline is a line where it is not empty.
pub open spec fn lines(s: Seq<char>) -> Seq<Seq<char>> {
    let pieces = split(s, '\n');
    let terminated = pieces.drop_last().map_values(|p: Seq<char>| without_cr(p));
    if pieces.last().len() == 0 {
        terminated
    } else {
        terminated.push(pieces.last())
    }
}

/// `s` with every `from` replaced by `to`.
pub open spec fn replaced(s: Seq<char>, from: char, to: char) -> Seq<char> {
    s.map_values(|c: char| if c == from { to } else { c })
}

/// Whether `needle` stands in `hay` at `i`.
pub open spec fn occurs_at(hay: Seq<char>, needle: Seq<char>, i: int) -> bool {
    0 <= i && i + needle.len() <= hay.len() && hay.subrange(i, i + needle.len()) == needle
}

/// Whether `needle` stands anywhere in `hay`.
pub open spec fn contains(hay: Seq<char>, needle: Seq<char>) -> bool {
    exists|i: int| occurs_at(hay, needle, i)
}

/// Whether `s` begins with `p`.
pub open spec fn starts_with(s: Seq<char>, p: Seq<char>) -> bool {
    p.len() <= s.len() && s.take(p.len() as int) == p
}

// ── Numbers as text ──────────────────────────────────────────────────────────

/// The digit that stands for `d`.
pub open spec fn digit(d: nat) -> char {
    (48 + d) as char
}

/// `n` in decimal, without leading zeros.
pub open spec fn decimal(n: nat) -> Seq<char>
    decreases n,
{
    if n < 10 {
        seq![digit(n)]
    } else {
        decimal(n / 10).push(digit(n % 10))
    }
}

/// A number in decimal is made of digits.
pub proof fn decimal_is_digits(n: nat)
    ensures
        all_digits(decimal(n)),
    decreases n,
{
    if n >= 10 {
        decimal_is_digits(n / 10);
    }
}

/// `n` in decimal, with a minus sign where it is negative.
pub open spec fn signed_decimal(n: int) -> Seq<char> {
    if n < 0 {
        seq!['-'] + decimal((-n) as nat)
    } else {
        decimal(n as nat)
    }
}

/// The number that a run of decimal digits spells.
pub open spec fn digits_value(s: Seq<char>) -> nat
    decreases s.len(),
{
    if s.len() == 0 {
        0
    } else {
        digits_value(s.drop_last()) * 10 + (s.last() as u32 - '0' as u32) as nat
    }
}

/// Whether `s` is a run of one or more decimal digits.
pub open spec fn all_digits(s: Seq<char>) -> bool {
    s.len() > 0 && forall|i: int| 0 <= i < s.len() ==> is_digit(#[trigger] s[i])
}

/// `s` without the plus sign it may begin with.
pub open spec fn without_plus(s: Seq<char>) -> Seq<char> {
    if s.len() > 0 && s[0] == '+' {
        s.skip(1)
    } else {
        s
    }
}

/// The number below `limit` that `s` spells: decimal digits, with a plus sign
/// in front of them allowed and nothing else.
pub open spec fn parsed(s: Seq<char>, limit: nat) -> Option<nat> {
    let d = without_plus(s);
    if all_digits(d) && digits_value(d) < limit {
        Some(digits_value(d))
    } else {
        None
    }
}

/// The number between `-limit` and `limit - 1` that `s` spells: decimal digits,
/// with one sign in front of them allowed and nothing else.
pub open spec fn parsed_signed(s: Seq<char>, limit: nat) -> Option<int> {
    if s.len() > 0 && s[0] == '-' {
        let d = s.skip(1);
        if all_digits(d) && digits_value(d) <= limit {
            Some(-(digits_value(d) as int))
        } else {
            None
        }
    } else {
        match parsed(s, limit) {
            Some(n) => Some(n as int),
            None => None,
        }
    }
}

// ── Order ────────────────────────────────────────────────────────────────────

/// Lexicographic order by code point, which is also the order of the UTF-8
/// encodings.
pub open spec fn less(a: Seq<char>, b: Seq<char>) -> bool
    decreases a.len(),
{
    b.len() > 0 && (a.len() == 0 || (a[0] as u32) < (b[0] as u32) || (a[0] == b[0] && less(
        a.skip(1),
        b.skip(1),
    )))
}

/// Two texts are the same, or one of them is the lesser.
pub proof fn less_is_total(a: Seq<char>, b: Seq<char>)
    ensures
        a == b || less(a, b) || less(b, a),
    decreases a.len(),
{
    if a.len() > 0 && b.len() > 0 {
        less_is_total(a.skip(1), b.skip(1));
        vstd::utf8::char_u32_cast(a[0], a[0] as u32);
        vstd::utf8::char_u32_cast(b[0], b[0] as u32);
        if a[0] == b[0] && a.skip(1) == b.skip(1) {
            assert(a =~= seq![a[0]] + a.skip(1));
            assert(b =~= seq![b[0]] + b.skip(1));
        }
    } else {
        assert(a.len() == 0 && b.len() == 0 ==> a =~= b);
    }
}

/// No text is less than itself.
pub proof fn less_is_irreflexive(a: Seq<char>)
    ensures
        !less(a, a),
    decreases a.len(),
{
    if a.len() > 0 {
        less_is_irreflexive(a.skip(1));
    }
}

/// The order is transitive.
pub proof fn less_is_transitive(a: Seq<char>, b: Seq<char>, c: Seq<char>)
    requires
        less(a, b),
        less(b, c),
    ensures
        less(a, c),
    decreases a.len(),
{
    if a.len() > 0 && a[0] == b[0] && b[0] == c[0] {
        less_is_transitive(a.skip(1), b.skip(1), c.skip(1));
    }
}

/// Of two texts of one length, what follows does not change which is the lesser.
pub proof fn less_extends(a: Seq<char>, b: Seq<char>, s: Seq<char>, t: Seq<char>)
    requires
        less(a, b),
        a.len() == b.len(),
    ensures
        less(a + s, b + t),
    decreases a.len(),
{
    if !((a[0] as u32) < (b[0] as u32)) {
        less_extends(a.skip(1), b.skip(1), s, t);
    }
    assert((a + s).skip(1) =~= a.skip(1) + s);
    assert((b + t).skip(1) =~= b.skip(1) + t);
}

/// Two texts with one beginning compare as what follows it.
pub proof fn less_behind_prefix(p: Seq<char>, s: Seq<char>, t: Seq<char>)
    requires
        less(s, t),
    ensures
        less(p + s, p + t),
    decreases p.len(),
{
    if p.len() == 0 {
        assert(p + s =~= s);
        assert(p + t =~= t);
    } else {
        less_behind_prefix(p.skip(1), s, t);
        assert((p + s).skip(1) =~= p.skip(1) + s);
        assert((p + t).skip(1) =~= p.skip(1) + t);
    }
}

/// How many bytes the UTF-8 encoding of `s` has.
pub open spec fn utf8_len(s: Seq<char>) -> nat {
    vstd::utf8::encode_utf8(s).len()
}

// ── Executable counterparts ──────────────────────────────────────────────────

/// The characters of a string.
pub fn chars_of(s: &str) -> (v: Vec<char>)
    ensures
        v@ == s@,
{
    let mut it = s.chars();
    let mut v: Vec<char> = Vec::new();
    assert(s@.skip(0) =~= s@);
    loop
        invariant
            v@.len() <= s@.len(),
            v@ == s@.take(v@.len() as int),
            vstd::std_specs::iter::IteratorSpec::remaining(&it) == s@.skip(v@.len() as int),
        decreases s@.len() - v@.len(),
    {
        let ghost k = v@.len() as int;
        match it.next() {
            Some(c) => {
                v.push(c);
                assert(s@.skip(k).drop_first() =~= s@.skip(k + 1));
                assert(s@.take(k + 1) =~= s@.take(k).push(c));
            },
            None => {
                assert(s@.take(k) =~= s@);
                return v;
            },
        }
    }
}

/// How many bytes the UTF-8 encoding of `s` has.
pub fn byte_len(s: &str) -> (n: usize)
    ensures
        n == utf8_len(s@),
{
    s.as_bytes().len()
}

/// The string with the characters from `from` up to `to`.
pub fn slice(v: &[char], from: usize, to: usize) -> (s: String)
    requires
        from <= to <= v@.len(),
    ensures
        s@ == v@.subrange(from as int, to as int),
{
    let mut s = String::new();
    let mut i: usize = from;
    assert(v@.subrange(from as int, from as int) =~= Seq::<char>::empty());
    while i < to
        invariant
            from <= i <= to <= v@.len(),
            s@ == v@.subrange(from as int, i as int),
        decreases to - i,
    {
        s.push(v[i]);
        assert(v@.subrange(from as int, i + 1) =~= v@.subrange(from as int, i as int).push(
            v@[i as int],
        ));
        i = i + 1;
    }
    s
}

/// The string with these characters.
pub fn from_chars(v: &[char]) -> (s: String)
    ensures
        s@ == v@,
{
    let s = slice(v, 0, v.len());
    assert(v@.subrange(0, v@.len() as int) =~= v@);
    s
}

fn same_chars(a: &[char], b: &[char]) -> (r: bool)
    ensures
        r == (a@ == b@),
{
    if a.len() != b.len() {
        return false;
    }
    let mut i: usize = 0;
    while i < a.len()
        invariant
            i <= a@.len(),
            a@.len() == b@.len(),
            forall|j: int| 0 <= j < i ==> a@[j] == b@[j],
        decreases a@.len() - i,
    {
        if a[i] != b[i] {
            return false;
        }
        i = i + 1;
    }
    assert(a@ =~= b@);
    true
}

/// Whether two strings hold the same characters.
pub fn same(a: &str, b: &str) -> (r: bool)
    ensures
        r == (a@ == b@),
{
    same_chars(&chars_of(a), &chars_of(b))
}

/// Whether two strings are the same but for the case of ASCII letters.
pub fn same_ignoring_ascii_case(a: &str, b: &str) -> (r: bool)
    ensures
        r == (a@.map_values(|c: char| ascii_lower(c)) == b@.map_values(|c: char| ascii_lower(c))),
{
    let x: Vec<char> = chars_of(a);
    let y: Vec<char> = chars_of(b);
    let ghost f = |c: char| ascii_lower(c);
    if x.len() != y.len() {
        assert(a@.map_values(f).len() != b@.map_values(f).len());
        return false;
    }
    let mut i: usize = 0;
    while i < x.len()
        invariant
            i <= x@.len(),
            x@.len() == y@.len(),
            x@ == a@,
            y@ == b@,
            f == (|c: char| ascii_lower(c)),
            forall|j: int| 0 <= j < i ==> ascii_lower(x@[j]) == ascii_lower(y@[j]),
        decreases x@.len() - i,
    {
        if lower(x[i]) != lower(y[i]) {
            assert(a@.map_values(f)[i as int] != b@.map_values(f)[i as int]);
            return false;
        }
        i = i + 1;
    }
    assert(a@.map_values(f) =~= b@.map_values(f));
    true
}

/// Whether `s` begins with `p`.
pub fn has_prefix(s: &str, p: &str) -> (r: bool)
    ensures
        r == starts_with(s@, p@),
{
    let x: Vec<char> = chars_of(s);
    let y: Vec<char> = chars_of(p);
    if y.len() > x.len() {
        return false;
    }
    let mut i: usize = 0;
    while i < y.len()
        invariant
            i <= y@.len() <= x@.len(),
            x@ == s@,
            y@ == p@,
            forall|j: int| 0 <= j < i ==> x@[j] == y@[j],
        decreases y@.len() - i,
    {
        if x[i] != y[i] {
            assert(s@.take(p@.len() as int)[i as int] != p@[i as int]);
            return false;
        }
        i = i + 1;
    }
    assert(s@.take(p@.len() as int) =~= p@);
    true
}

/// What follows the prefix `p` of `s`, where `s` begins with it.
pub fn strip_prefix(s: &str, p: &str) -> (r: Option<String>)
    ensures
        r is Some == starts_with(s@, p@),
        r matches Some(rest) ==> rest@ == s@.skip(p@.len() as int),
{
    if has_prefix(s, p) {
        let x: Vec<char> = chars_of(s);
        let k: usize = chars_of(p).len();
        let rest = slice(&x, k, x.len());
        assert(s@.subrange(k as int, s@.len() as int) =~= s@.skip(k as int));
        Some(rest)
    } else {
        None
    }
}

fn occurs_here(hay: &[char], needle: &[char], at: usize) -> (r: bool)
    requires
        at + needle@.len() <= hay@.len(),
    ensures
        r == occurs_at(hay@, needle@, at as int),
{
    let size: usize = hay.len();
    let mut i: usize = 0;
    while i < needle.len()
        invariant
            i <= needle@.len(),
            at + needle@.len() <= hay@.len(),
            size == hay@.len(),
            forall|j: int| 0 <= j < i ==> hay@[at + j] == needle@[j],
        decreases needle@.len() - i,
    {
        if hay[at + i] != needle[i] {
            assert(hay@.subrange(at as int, at + needle@.len())[i as int] != needle@[i as int]);
            return false;
        }
        i = i + 1;
    }
    assert(hay@.subrange(at as int, at + needle@.len()) =~= needle@);
    true
}

/// Whether `needle` stands anywhere in `hay`.
pub fn has(hay: &str, needle: &str) -> (r: bool)
    ensures
        r == contains(hay@, needle@),
{
    let x: Vec<char> = chars_of(hay);
    let y: Vec<char> = chars_of(needle);
    if y.len() > x.len() {
        return false;
    }
    let last: usize = x.len() - y.len();
    let mut i: usize = 0;
    loop
        invariant
            i <= last,
            last == x@.len() - y@.len(),
            x@ == hay@,
            y@ == needle@,
            forall|j: int| 0 <= j < i ==> !occurs_at(hay@, needle@, j),
        decreases last - i,
    {
        if occurs_here(&x, &y, i) {
            assert(occurs_at(hay@, needle@, i as int));
            return true;
        }
        if i == last {
            assert forall|j: int| !occurs_at(hay@, needle@, j) by {
                if 0 <= j && j + needle@.len() <= hay@.len() {
                    assert(j <= i);
                }
            }
            return false;
        }
        i = i + 1;
    }
}

proof fn first_index_skips(s: Seq<char>, c: char, i: int)
    requires
        0 <= i <= s.len(),
        forall|j: int| 0 <= j < i ==> s[j] != c,
    ensures
        first_index(s, c) == i + first_index(s.skip(i), c),
    decreases i,
{
    if i == 0 {
        assert(s.skip(0) =~= s);
    } else {
        first_index_skips(s.skip(1), c, i - 1);
        assert(s.skip(1).skip(i - 1) =~= s.skip(i));
    }
}

/// What `first_index` finds: the character stands there, and nowhere before.
pub proof fn first_index_is_first(s: Seq<char>, c: char)
    ensures
        0 <= first_index(s, c) <= s.len(),
        first_index(s, c) < s.len() ==> s[first_index(s, c)] == c,
        forall|j: int| 0 <= j < first_index(s, c) ==> s[j] != c,
    decreases s.len(),
{
    if s.len() > 0 && s[0] != c {
        first_index_is_first(s.skip(1), c);
        assert forall|j: int| 0 <= j < first_index(s, c) implies s[j] != c by {
            if j > 0 {
                assert(s[j] == s.skip(1)[j - 1]);
            }
        }
    }
}

/// What stands before the first separator is the first piece; the rest is split by
/// itself.
pub proof fn split_at_first(a: Seq<char>, c: char, b: Seq<char>)
    requires
        !a.contains(c),
    ensures
        split(a + seq![c] + b, c) == seq![a] + split(b, c),
{
    let s = a + seq![c] + b;
    assert forall|j: int| 0 <= j < a.len() implies s[j] != c by {
        assert(s[j] == a[j]);
        assert(a.contains(a[j]));
    }
    first_index_skips(s, c, a.len() as int);
    assert(s.skip(a.len() as int)[0] == c);
    assert(first_index(s, c) == a.len());
    assert(s.take(a.len() as int) =~= a);
    assert(s.skip(a.len() as int + 1) =~= b);
}

/// Where `c` first stands in `v` at or after `from`, or the length of `v`.
pub fn index_from(v: &[char], from: usize, c: char) -> (i: usize)
    requires
        from <= v@.len(),
    ensures
        from <= i <= v@.len(),
        i == from + first_index(v@.skip(from as int), c),
        i < v@.len() ==> v@[i as int] == c,
        forall|j: int| from <= j < i ==> v@[j] != c,
{
    let mut i: usize = from;
    while i < v.len() && v[i] != c
        invariant
            from <= i <= v@.len(),
            forall|j: int| from <= j < i ==> v@[j] != c,
        decreases v@.len() - i,
    {
        i = i + 1;
    }
    proof {
        let s = v@.skip(from as int);
        first_index_skips(s, c, i - from);
        assert(s.skip(i - from) =~= v@.skip(i as int));
    }
    i
}

/// The pieces of `s` between the occurrences of `c`.
pub fn split_on(s: &str, c: char) -> (r: Vec<String>)
    ensures
        views(r@) == split(s@, c),
{
    let v: Vec<char> = chars_of(s);
    let mut parts: Vec<String> = Vec::new();
    let mut start: usize = 0;
    assert(s@.skip(0) =~= s@);
    assert(views(parts@) + split(s@, c) =~= split(s@, c));
    loop
        invariant
            start <= v@.len(),
            v@ == s@,
            split(s@, c) == views(parts@) + split(s@.skip(start as int), c),
        decreases v@.len() - start,
    {
        let end: usize = index_from(&v, start, c);
        let piece = slice(&v, start, end);
        let ghost tail = s@.skip(start as int);
        let ghost before = parts@;
        proof {
            first_index_is_first(tail, c);
            assert(tail.take(end - start) =~= piece@);
        }
        parts.push(piece);
        assert(views(parts@) =~= views(before).push(piece@));
        if end == v.len() {
            assert(tail =~= piece@);
            assert(views(before) + seq![tail] =~= views(parts@));
            return parts;
        }
        assert(tail.skip(end - start + 1) =~= s@.skip(end + 1));
        assert(views(before) + (seq![piece@] + split(s@.skip(end + 1), c)) =~= views(parts@)
            + split(s@.skip(end + 1), c));
        start = end + 1;
    }
}

proof fn trim_start_shortens(s: Seq<char>)
    ensures
        trim_start(s).len() <= s.len(),
        trim_start(s) == s.skip(s.len() - trim_start(s).len()),
        trim_start(s).len() > 0 ==> !is_space(trim_start(s)[0]),
    decreases s.len(),
{
    if s.len() > 0 && is_space(s[0]) {
        trim_start_shortens(s.skip(1));
        let t = trim_start(s);
        assert(s.skip(1).skip(s.skip(1).len() - t.len()) =~= s.skip(s.len() - t.len()));
    } else {
        assert(s.skip(0) =~= s);
    }
}

proof fn leading_word_shortens(s: Seq<char>)
    ensures
        leading_word(s).len() <= s.len(),
        leading_word(s) == s.take(leading_word(s).len() as int),
        s.len() > 0 && !is_space(s[0]) ==> leading_word(s).len() > 0,
        forall|j: int|
            0 <= j < leading_word(s).len() ==> !is_space(#[trigger] leading_word(s)[j]),
    decreases s.len(),
{
    if s.len() > 0 && !is_space(s[0]) {
        leading_word_shortens(s.skip(1));
        let w = leading_word(s.skip(1));
        assert(leading_word(s) =~= s.take(1 + w.len() as int));
    } else {
        assert(s.take(0) =~= Seq::<char>::empty());
    }
}

proof fn trim_start_steps(s: Seq<char>, i: int)
    requires
        0 <= i <= s.len(),
        forall|j: int| 0 <= j < i ==> is_space(#[trigger] s[j]),
    ensures
        trim_start(s) == trim_start(s.skip(i)),
    decreases i,
{
    if i == 0 {
        assert(s.skip(0) =~= s);
    } else {
        assert(is_space(s[0]));
        trim_start_steps(s.skip(1), i - 1);
        assert(s.skip(1).skip(i - 1) =~= s.skip(i));
    }
}

proof fn leading_word_steps(s: Seq<char>, i: int)
    requires
        0 <= i <= s.len(),
        forall|j: int| 0 <= j < i ==> !is_space(#[trigger] s[j]),
        i == s.len() || is_space(s[i]),
    ensures
        leading_word(s) == s.take(i),
    decreases i,
{
    if i == 0 {
        assert(s.take(0) =~= Seq::<char>::empty());
    } else {
        leading_word_steps(s.skip(1), i - 1);
        assert(s.take(i) =~= seq![s[0]] + s.skip(1).take(i - 1));
    }
}

/// The words of `s`.
pub fn words_of(s: &str) -> (r: Vec<String>)
    ensures
        views(r@) == words(s@),
{
    let v: Vec<char> = chars_of(s);
    let mut found: Vec<String> = Vec::new();
    let mut start: usize = 0;
    assert(s@.skip(0) =~= s@);
    assert(views(found@) + words(s@) =~= words(s@));
    loop
        invariant
            start <= v@.len(),
            v@ == s@,
            words(s@) == views(found@) + words(s@.skip(start as int)),
        decreases v@.len() - start,
    {
        let ghost rest = s@.skip(start as int);
        let mut from: usize = start;
        while from < v.len() && space(v[from])
            invariant
                start <= from <= v@.len(),
                forall|j: int| start <= j < from ==> is_space(#[trigger] v@[j]),
            decreases v@.len() - from,
        {
            from = from + 1;
        }
        let mut to: usize = from;
        while to < v.len() && !space(v[to])
            invariant
                from <= to <= v@.len(),
                forall|j: int| from <= j < to ==> !is_space(#[trigger] v@[j]),
            decreases v@.len() - to,
        {
            to = to + 1;
        }
        let ghost t = s@.skip(from as int);
        proof {
            trim_start_steps(rest, from - start);
            assert(rest.skip(from - start) =~= t);
            leading_word_steps(t, to - from);
            assert(trim_start(t) == t);
            assert(trim_start(rest) == t);
        }
        if from == v.len() {
            assert(words(rest) =~= Seq::<Seq<char>>::empty());
            assert(views(found@) + words(rest) =~= views(found@));
            return found;
        }
        let ghost before = found@;
        let word = slice(&v, from, to);
        assert(word@ =~= t.take(to - from));
        found.push(word);
        assert(views(found@) =~= views(before).push(word@));
        assert(t.skip(to - from) =~= s@.skip(to as int));
        assert(words(rest) == seq![word@] + words(s@.skip(to as int)));
        assert(views(before) + (seq![word@] + words(s@.skip(to as int))) =~= views(found@)
            + words(s@.skip(to as int)));
        start = to;
    }
}

/// `s` without the white space it ends with.
pub fn trimmed_end(s: &str) -> (r: String)
    ensures
        r@ == trim_end(s@),
{
    let v: Vec<char> = chars_of(s);
    let mut end: usize = v.len();
    assert(s@.take(s@.len() as int) =~= s@);
    while end > 0 && space(v[end - 1])
        invariant
            end <= v@.len(),
            v@ == s@,
            trim_end(s@) == trim_end(s@.take(end as int)),
        decreases end,
    {
        assert(s@.take(end as int).drop_last() =~= s@.take(end - 1));
        end = end - 1;
    }
    let r = slice(&v, 0, end);
    assert(r@ =~= s@.take(end as int));
    r
}

/// `s` without the white space at either end.
pub fn trimmed(s: &str) -> (r: String)
    ensures
        r@ == trim(s@),
{
    let t = trimmed_end(s);
    let v: Vec<char> = chars_of(t.as_str());
    let mut from: usize = 0;
    while from < v.len() && space(v[from])
        invariant
            from <= v@.len(),
            forall|j: int| 0 <= j < from ==> is_space(#[trigger] v@[j]),
        decreases v@.len() - from,
    {
        from = from + 1;
    }
    let r = slice(&v, from, v.len());
    proof {
        trim_start_steps(t@, from as int);
        assert(t@.skip(from as int) =~= r@);
    }
    r
}

fn lines_step(piece: &str) -> (r: String)
    ensures
        r@ == without_cr(piece@),
{
    let v: Vec<char> = chars_of(piece);
    if v.len() > 0 && v[v.len() - 1] == '\r' {
        let r = slice(&v, 0, v.len() - 1);
        assert(r@ =~= piece@.drop_last());
        r
    } else {
        from_chars(&v)
    }
}

proof fn split_is_nonempty(s: Seq<char>, c: char)
    ensures
        split(s, c).len() > 0,
{
}

/// The lines of `s`.
pub fn lines_of(s: &str) -> (r: Vec<String>)
    ensures
        views(r@) == lines(s@),
{
    let pieces: Vec<String> = split_on(s, '\n');
    proof {
        split_is_nonempty(s@, '\n');
        assert(views(pieces@).len() == pieces@.len());
    }
    let last: usize = pieces.len() - 1;
    let mut out: Vec<String> = Vec::new();
    let mut i: usize = 0;
    let ghost f = |p: Seq<char>| without_cr(p);
    assert(views(out@) =~= split(s@, '\n').take(0).map_values(f));
    while i < last
        invariant
            i <= last,
            last + 1 == pieces@.len(),
            views(pieces@) == split(s@, '\n'),
            f == (|p: Seq<char>| without_cr(p)),
            views(out@) == split(s@, '\n').take(i as int).map_values(f),
        decreases last - i,
    {
        let line = lines_step(pieces[i].as_str());
        let ghost before = out@;
        out.push(line);
        assert(views(out@) =~= views(before).push(line@));
        assert(split(s@, '\n')[i as int] == pieces@[i as int]@);
        assert(split(s@, '\n').take(i + 1).map_values(f) =~= split(s@, '\n').take(
            i as int,
        ).map_values(f).push(without_cr(split(s@, '\n')[i as int])));
        i = i + 1;
    }
    assert(split(s@, '\n').take(last as int) =~= split(s@, '\n').drop_last());
    assert(split(s@, '\n').last() == pieces@[last as int]@);
    if !pieces[last].as_str().is_empty() {
        let tail = pieces[last].as_str().to_owned();
        let ghost before = out@;
        out.push(tail);
        assert(views(out@) =~= views(before).push(tail@));
    }
    out
}

/// `s` with every `from` replaced by `to`.
pub fn replace_char(s: &str, from: char, to: char) -> (r: String)
    ensures
        r@ == replaced(s@, from, to),
{
    let v: Vec<char> = chars_of(s);
    let mut out = String::new();
    let mut i: usize = 0;
    assert(replaced(s@.take(0), from, to) =~= Seq::<char>::empty());
    while i < v.len()
        invariant
            i <= v@.len(),
            v@ == s@,
            out@ == replaced(s@.take(i as int), from, to),
        decreases v@.len() - i,
    {
        let c: char = v[i];
        out.push(if c == from { to } else { c });
        assert(replaced(s@.take(i + 1), from, to) =~= replaced(s@.take(i as int), from, to).push(
            if c == from { to } else { c },
        ));
        i = i + 1;
    }
    assert(s@.take(i as int) =~= s@);
    out
}

/// `parts` one after the other, with `sep` between each two of them.
pub fn join(parts: &[String], sep: &str) -> (r: String)
    ensures
        r@ == joined(views(parts@), sep@),
{
    let mut out = String::new();
    let mut i: usize = 0;
    let ghost all = views(parts@);
    while i < parts.len()
        invariant
            i <= parts@.len(),
            all == views(parts@),
            out@ == joined(all.take(i as int), sep@),
        decreases parts@.len() - i,
    {
        if i > 0 {
            out.append(sep);
        }
        out.append(parts[i].as_str());
        assert(all.take(i + 1).drop_last() =~= all.take(i as int));
        assert(all.take(i + 1).last() == parts@[i as int]@);
        assert(joined(all.take(i + 1), sep@) =~= out@);
        i = i + 1;
    }
    assert(all.take(i as int) =~= all);
    out
}

fn digit_char(d: u8) -> (c: char)
    requires
        d < 10,
    ensures
        c == digit(d as nat),
{
    (48 + d) as char
}

/// `n` in decimal.
pub fn to_decimal(n: u128) -> (r: String)
    ensures
        r@ == decimal(n as nat),
    decreases n,
{
    let d: u8 = (n % 10) as u8;
    if n < 10 {
        let mut s = String::new();
        s.push(digit_char(d));
        assert(s@ =~= decimal(n as nat));
        s
    } else {
        let mut s = to_decimal(n / 10);
        s.push(digit_char(d));
        s
    }
}

/// `n` in decimal, with a minus sign where it is negative.
pub fn to_signed_decimal(n: i128) -> (r: String)
    requires
        n > i128::MIN,
    ensures
        r@ == signed_decimal(n as int),
{
    if n < 0 {
        let mut s = String::new();
        s.push('-');
        s.append(to_decimal((-n) as u128).as_str());
        assert(s@ =~= signed_decimal(n as int));
        s
    } else {
        to_decimal(n as u128)
    }
}

proof fn digits_value_grows(s: Seq<char>, i: int)
    requires
        0 <= i <= s.len(),
    ensures
        digits_value(s.take(i)) <= digits_value(s),
    decreases s.len() - i,
{
    if i < s.len() {
        digits_value_grows(s, i + 1);
        assert(s.take(i + 1).drop_last() =~= s.take(i));
    } else {
        assert(s.take(i) =~= s);
    }
}

/// The number below two to the sixty-fourth that `s` spells, where it spells
/// one.
pub fn parse_u64(s: &str) -> (r: Option<u64>)
    ensures
        match r {
            Some(n) => parsed(s@, 0x1_0000_0000_0000_0000) == Some(n as nat),
            None => parsed(s@, 0x1_0000_0000_0000_0000) is None,
        },
{
    let v: Vec<char> = chars_of(s);
    let start: usize = if v.len() > 0 && v[0] == '+' { 1 } else { 0 };
    let ghost d = without_plus(s@);
    assert(d =~= s@.skip(start as int));
    if start == v.len() {
        return None;
    }
    let mut n: u64 = 0;
    let mut i: usize = start;
    assert(d.take(0) =~= Seq::<char>::empty());
    while i < v.len()
        invariant
            start <= i <= v@.len(),
            start <= 1,
            v@ == s@,
            d == without_plus(s@),
            d == s@.skip(start as int),
            n == digits_value(d.take(i - start)),
            forall|j: int| 0 <= j < i - start ==> is_digit(#[trigger] d[j]),
        decreases v@.len() - i,
    {
        let u: u32 = v[i] as u32;
        assert(d[i - start] == v@[i as int]);
        if u < 48 || u > 57 {
            assert(!is_digit(d[i - start]));
            return None;
        }
        let k: u64 = (u - 48) as u64;
        proof {
            assert(d.take(i - start + 1).drop_last() =~= d.take(i - start));
            assert(digits_value(d.take(i - start + 1)) == n * 10 + k);
            digits_value_grows(d, i - start + 1);
        }
        if n > 1844674407370955161 || (n == 1844674407370955161 && k > 5) {
            return None;
        }
        n = n * 10 + k;
        i = i + 1;
    }
    assert(d.take(i - start) =~= d);
    Some(n)
}

/// The number of thirty-two bits, sign included, that `s` spells, where it spells
/// one.
pub fn parse_i32(s: &str) -> (r: Option<i32>)
    ensures
        match r {
            Some(n) => parsed_signed(s@, 0x8000_0000) == Some(n as int),
            None => parsed_signed(s@, 0x8000_0000) is None,
        },
{
    let v: Vec<char> = chars_of(s);
    if v.len() > 0 && v[0] == '-' {
        let rest: String = slice(&v, 1, v.len());
        assert(rest@ =~= s@.skip(1));
        if v.len() > 1 && v[1] == '+' {
            assert(!is_digit(rest@[0]));
            return None;
        }
        assert(without_plus(rest@) == rest@);
        match parse_u64(rest.as_str()) {
            Some(n) => if n <= 0x8000_0000 {
                Some((0 - n as i64) as i32)
            } else {
                None
            },
            None => None,
        }
    } else {
        match parse_u64(s) {
            Some(n) => if n < 0x8000_0000 {
                Some(n as i32)
            } else {
                None
            },
            None => None,
        }
    }
}

/// What the error of `str::parse::<u64>` says of a text that is no such number.
pub uninterp spec fn number_complaint(s: Seq<char>) -> Seq<char>;

/// `str::parse::<u64>`: the number that decimal digits spell, with a plus sign
/// in front of them allowed, where it fits; else an error, whose wording is left
/// to that function and is the same for the same text.
#[verifier::external_body]
pub(crate) fn number(s: &str) -> (r: Result<u64, String>)
    ensures
        match r {
            Ok(n) => parsed(s@, 0x1_0000_0000_0000_0000) == Some(n as nat),
            Err(e) => parsed(s@, 0x1_0000_0000_0000_0000) is None && e@ == number_complaint(s@),
        },
{
    s.parse::<u64>().map_err(|e| e.to_string())
}

/// Whether `a` comes before `b`.
pub fn precedes(a: &str, b: &str) -> (r: bool)
    ensures
        r == less(a@, b@),
{
    let x: Vec<char> = chars_of(a);
    let y: Vec<char> = chars_of(b);
    let mut i: usize = 0;
    assert(a@.skip(0) =~= a@);
    assert(b@.skip(0) =~= b@);
    loop
        invariant
            i <= x@.len(),
            i <= y@.len(),
            x@ == a@,
            y@ == b@,
            less(a@, b@) == less(a@.skip(i as int), b@.skip(i as int)),
        decreases x@.len() - i,
    {
        if i == y.len() {
            return false;
        }
        if i == x.len() {
            return true;
        }
        let p: u32 = x[i] as u32;
        let q: u32 = y[i] as u32;
        if p < q {
            return true;
        }
        if p > q {
            return false;
        }
        proof {
            vstd::utf8::char_u32_cast(x@[i as int], p);
            vstd::utf8::char_u32_cast(y@[i as int], q);
            assert(a@.skip(i as int).skip(1) =~= a@.skip(i + 1));
            assert(b@.skip(i as int).skip(1) =~= b@.skip(i + 1));
        }
        i = i + 1;
    }
}

// ── What the operations above come to ────────────────────────────────────────

/// A number is read back from its decimal digits, which begin with no zero unless
/// they are one digit.
pub proof fn digits_are_read_back(n: nat)
    ensures
        digits_value(decimal(n)) == n,
        decimal(n).len() > 0,
        decimal(n).len() > 1 ==> decimal(n)[0] != '0',
    decreases n,
{
    reveal_with_fuel(digits_value, 2);
    if n >= 10 {
        digits_are_read_back(n / 10);
        let front = decimal(n / 10);
        assert(decimal(n).drop_last() =~= front);
        assert(decimal(n).last() as u32 == 48 + n % 10);
        assert(decimal(n)[0] == front[0]);
        if front.len() == 1 {
            assert(front[0] as u32 == 48 + digits_value(front)) by {
                assert(front.drop_last() =~= Seq::<char>::empty());
                decimal_is_digits(n / 10);
            }
        }
    } else {
        let s = decimal(n);
        assert(s.drop_last() =~= Seq::<char>::empty());
        assert(s.last() as u32 == 48 + n);
    }
}

/// A number that is written down reads as itself below the limit and as nothing
/// from there on, with a plus sign in front of it or without.
pub proof fn a_number_reads_back(n: nat, limit: nat)
    ensures
        parsed(decimal(n), limit) == (if n < limit {
            Some(n)
        } else {
            None
        }),
        parsed(seq!['+'] + decimal(n), limit) == parsed(decimal(n), limit),
        parsed_signed(decimal(n), limit) == (if n < limit {
            Some(n as int)
        } else {
            None
        }),
        parsed_signed(seq!['-'] + decimal(n), limit) == (if n <= limit {
            Some(-(n as int))
        } else {
            None
        }),
{
    digits_are_read_back(n);
    decimal_is_digits(n);
    assert(is_digit(decimal(n)[0]));
    assert((seq!['+'] + decimal(n)).skip(1) =~= decimal(n));
    assert((seq!['-'] + decimal(n)).skip(1) =~= decimal(n));
}

/// Digits that begin with no zero are the decimal digits of the number they spell.
pub proof fn digits_spell_one_number(s: Seq<char>)
    requires
        all_digits(s),
        s.len() == 1 || s[0] != '0',
    ensures
        decimal(digits_value(s)) == s,
        s.len() > 1 ==> digits_value(s) >= 10,
        s[0] != '0' ==> digits_value(s) > 0,
    decreases s.len(),
{
    reveal_with_fuel(digits_value, 2);
    let front = s.drop_last();
    let d = (s.last() as u32 - '0' as u32) as nat;
    assert(is_digit(s[s.len() - 1]));
    assert(d < 10);
    assert(digit(d) == s.last()) by {
        vstd::utf8::char_u32_cast(s.last(), s.last() as u32);
    }
    if s.len() == 1 {
        assert(front =~= Seq::<char>::empty());
        assert(digits_value(s) == d);
        assert(s =~= seq![digit(d)]);
    } else {
        assert(front[0] == s[0]);
        assert forall|i: int| 0 <= i < front.len() implies is_digit(#[trigger] front[i]) by {
            assert(front[i] == s[i]);
        }
        digits_spell_one_number(front);
        assert(digits_value(s) == digits_value(front) * 10 + d);
        assert(s =~= front.push(s.last()));
    }
}

/// A text that is no run of digits is no number, but for one sign in front of it.
pub proof fn only_digits_are_a_number(s: Seq<char>, i: int, limit: nat)
    requires
        0 <= i < s.len(),
        !(s[i] as u32 >= 48 && s[i] as u32 <= 57),
    ensures
        i > 0 || s[i] != '+' ==> parsed(s, limit) is None,
        i > 0 || (s[i] != '+' && s[i] != '-') ==> parsed_signed(s, limit) is None,
{
    if i > 0 {
        assert(s.skip(1)[i - 1] == s[i]);
    }
}

proof fn first_index_of_none(s: Seq<char>, c: char)
    requires
        !s.contains(c),
    ensures
        first_index(s, c) == s.len(),
{
    first_index_is_first(s, c);
    if first_index(s, c) < s.len() {
        assert(s.contains(s[first_index(s, c)]));
    }
}

/// A text without the separator is one piece.
pub proof fn split_of_one_piece(s: Seq<char>, c: char)
    requires
        !s.contains(c),
    ensures
        split(s, c) == seq![s],
{
    first_index_of_none(s, c);
}

/// A separator parts the pieces before it from those behind it.
pub proof fn split_parts(s: Seq<char>, c: char, t: Seq<char>)
    ensures
        split(s + seq![c] + t, c) == split(s, c) + split(t, c),
    decreases s.len(),
{
    let i = first_index(s, c);
    first_index_is_first(s, c);
    if i < s.len() {
        let a = s.take(i);
        let b = s.skip(i + 1);
        assert(s =~= a + seq![c] + b);
        assert(s + seq![c] + t =~= a + seq![c] + (b + seq![c] + t));
        assert(!a.contains(c)) by {
            if a.contains(c) {
                let j = choose|j: int| 0 <= j < a.len() && a[j] == c;
                assert(s[j] == c);
            }
        }
        split_at_first(a, c, b + seq![c] + t);
        split_parts(b, c, t);
        assert(seq![a] + (split(b, c) + split(t, c)) =~= (seq![a] + split(b, c)) + split(t, c));
    } else {
        assert(!s.contains(c));
        split_of_one_piece(s, c);
        split_at_first(s, c, t);
    }
}

/// Pieces without the separator are found again between separators.
pub proof fn pieces_split_back(parts: Seq<Seq<char>>, c: char)
    requires
        parts.len() > 0,
        forall|i: int| 0 <= i < parts.len() ==> !(#[trigger] parts[i]).contains(c),
    ensures
        split(joined(parts, seq![c]), c) == parts,
    decreases parts.len(),
{
    if parts.len() == 1 {
        split_of_one_piece(parts[0], c);
        assert(parts =~= seq![parts[0]]);
    } else {
        let front = parts.drop_last();
        assert forall|i: int| 0 <= i < front.len() implies !(#[trigger] front[i]).contains(c) by {
            assert(front[i] == parts[i]);
        }
        pieces_split_back(front, c);
        split_parts(joined(front, seq![c]), c, parts.last());
        assert(parts.last() == parts[parts.len() - 1]);
        split_of_one_piece(parts.last(), c);
        assert(parts =~= front + seq![parts.last()]);
    }
}

/// The pieces of a text hold no separator, and with one between each two of them
/// they are the text.
pub proof fn a_split_is_lossless(s: Seq<char>, c: char)
    ensures
        joined(split(s, c), seq![c]) == s,
        split(s, c).len() > 0,
        forall|i: int| 0 <= i < split(s, c).len() ==> !(#[trigger] split(s, c)[i]).contains(c),
    decreases s.len(),
{
    let i = first_index(s, c);
    first_index_is_first(s, c);
    if i < s.len() {
        let a = s.take(i);
        let b = s.skip(i + 1);
        a_split_is_lossless(b, c);
        join_parts(seq![a], split(b, c), seq![c]);
        assert(s =~= a + seq![c] + b);
        assert(!a.contains(c)) by {
            if a.contains(c) {
                let j = choose|j: int| 0 <= j < a.len() && a[j] == c;
                assert(s[j] == c);
            }
        }
    } else {
        assert(!s.contains(c));
    }
}

/// Two lists that are joined are joined one behind the other, and a list of one
/// text is joined to that text.
pub proof fn join_parts(a: Seq<Seq<char>>, b: Seq<Seq<char>>, sep: Seq<char>)
    ensures
        a.len() > 0 && b.len() > 0 ==> joined(a + b, sep) == joined(a, sep) + sep + joined(b, sep),
        a.len() == 0 ==> joined(a + b, sep) == joined(b, sep),
        b.len() == 0 ==> joined(a + b, sep) == joined(a, sep),
        a.len() == 1 ==> joined(a, sep) == a[0],
        a.len() == 0 ==> joined(a, sep).len() == 0,
    decreases b.len(),
{
    if a.len() == 0 {
        assert(a + b =~= b);
    } else if b.len() == 0 {
        assert(a + b =~= a);
    } else {
        let front = b.drop_last();
        assert((a + b).drop_last() =~= a + front);
        assert((a + b).last() == b.last());
        join_parts(a, front, sep);
        if b.len() > 1 {
            assert(joined(a, sep) + sep + joined(front, sep) + sep + b.last() =~= joined(a, sep)
                + sep + (joined(front, sep) + sep + b.last()));
        }
    }
}

/// An upper-case letter of ASCII becomes the lower-case one, and any other character stays.
pub proof fn lower_case_is_next_to_upper(c: char)
    ensures
        65 <= c as u32 <= 90 ==> ascii_lower(c) as u32 == c as u32 + 32,
        !(65 <= c as u32 <= 90) ==> ascii_lower(c) == c,
{
}

/// What white space is: the blank, the tab and the ends of lines are, and what is
/// printed in ASCII is not.
pub proof fn blanks_and_line_ends_are_space(c: char)
    ensures
        c == ' ' || c == '\t' || c == '\n' || c == '\r' ==> is_space(c),
        33 <= c as u32 <= 126 ==> !is_space(c),
{
}

/// Whether a text is white space throughout.
pub open spec fn all_space(s: Seq<char>) -> bool {
    forall|i: int| 0 <= i < s.len() ==> is_space(#[trigger] s[i])
}

/// Whether a text neither begins nor ends with white space.
pub open spec fn is_trimmed(s: Seq<char>) -> bool {
    s.len() > 0 ==> !is_space(s[0]) && !is_space(s.last())
}

/// White space around a text is trimmed off, and nothing else.
pub proof fn trimming_takes_only_space(before: Seq<char>, s: Seq<char>, after: Seq<char>)
    requires
        all_space(before),
        is_trimmed(s),
        all_space(after),
    ensures
        trim(before + s + after) == s,
        trim_end(before + s + after) == (if s.len() > 0 {
            before + s
        } else {
            Seq::empty()
        }),
{
    trim_end_steps(before + s, after);
    if s.len() > 0 {
        assert((before + s).last() == s.last());
        assert forall|j: int| 0 <= j < before.len() implies is_space(#[trigger] (before + s)[j]) by {
            assert((before + s)[j] == before[j]);
        }
        trim_start_steps(before + s, before.len() as int);
        assert((before + s).skip(before.len() as int) =~= s);
    } else {
        assert(before + s =~= before);
        assert(Seq::<char>::empty() + before =~= before);
        trim_end_steps(Seq::empty(), before);
    }
}

proof fn trim_end_steps(s: Seq<char>, after: Seq<char>)
    requires
        all_space(after),
    ensures
        trim_end(s + after) == trim_end(s),
    decreases after.len(),
{
    if after.len() == 0 {
        assert(s + after =~= s);
    } else {
        assert((s + after).last() == after[after.len() - 1]);
        assert((s + after).drop_last() =~= s + after.drop_last());
        assert forall|i: int| 0 <= i < after.drop_last().len() implies is_space(
            #[trigger] after.drop_last()[i],
        ) by {
            assert(after.drop_last()[i] == after[i]);
        }
        trim_end_steps(s, after.drop_last());
    }
}

/// Whether a text is one word: not empty, and without white space.
pub open spec fn is_word(s: Seq<char>) -> bool {
    s.len() > 0 && forall|i: int| 0 <= i < s.len() ==> !is_space(#[trigger] s[i])
}

/// A word in front of white space, or alone, is the first word of a text, and the
/// others are those of what follows. White space in front of a text is no part of
/// any word.
pub proof fn a_word_stands_alone(before: Seq<char>, w: Seq<char>, rest: Seq<char>)
    requires
        all_space(before),
        is_word(w),
        rest.len() > 0 ==> is_space(rest[0]),
    ensures
        words(before + w + rest) == seq![w] + words(rest),
        words(before) == Seq::<Seq<char>>::empty(),
{
    let s = before + w + rest;
    let t = w + rest;
    assert forall|j: int| 0 <= j < before.len() implies is_space(#[trigger] s[j]) by {
        assert(s[j] == before[j]);
    }
    trim_start_steps(s, before.len() as int);
    assert(s.skip(before.len() as int) =~= t);
    assert(t[0] == w[0]);
    assert(trim_start(t) == t);
    assert forall|j: int| 0 <= j < w.len() implies !is_space(#[trigger] t[j]) by {
        assert(t[j] == w[j]);
    }
    leading_word_steps(t, w.len() as int);
    assert(t.take(w.len() as int) =~= w);
    assert(t.skip(w.len() as int) =~= rest);
    trim_start_steps(before, before.len() as int);
    assert(before.skip(before.len() as int) =~= Seq::<char>::empty());
}

/// Words with a blank between each two of them are found again.
pub proof fn words_are_found_again(ws: Seq<Seq<char>>)
    requires
        forall|i: int| 0 <= i < ws.len() ==> is_word(#[trigger] ws[i]),
    ensures
        words(joined(ws, seq![' '])) == ws,
    decreases ws.len(),
{
    let none = Seq::<char>::empty();
    if ws.len() == 0 {
        assert(words(none) =~= Seq::<Seq<char>>::empty());
        assert(joined(ws, seq![' ']) =~= none);
        assert(ws =~= Seq::<Seq<char>>::empty());
    } else {
        let w = ws[0];
        let tail = ws.skip(1);
        assert forall|i: int| 0 <= i < tail.len() implies is_word(#[trigger] tail[i]) by {
            assert(tail[i] == ws[i + 1]);
        }
        words_are_found_again(tail);
        assert(ws =~= seq![w] + tail);
        join_parts(seq![w], tail, seq![' ']);
        let rest = if tail.len() == 0 {
            none
        } else {
            seq![' '] + joined(tail, seq![' '])
        };
        a_word_stands_alone(none, w, rest);
        assert(none + w + rest =~= joined(ws, seq![' ']));
        if tail.len() > 0 {
            assert(words(rest) == words(joined(tail, seq![' ']))) by {
                assert(rest.skip(1) =~= joined(tail, seq![' ']));
                trim_start_steps(rest, 1);
                a_gap_is_no_word(rest);
            }
        } else {
            assert(words(none) =~= Seq::<Seq<char>>::empty());
        }
    }
}

/// White space in front of a text changes none of its words.
pub proof fn a_gap_is_no_word(s: Seq<char>)
    requires
        s.len() > 0,
        is_space(s[0]),
    ensures
        words(s) == words(s.skip(1)),
{
    trim_start_shortens(s);
    trim_start_shortens(s.skip(1));
    leading_word_shortens(trim_start(s));
}

/// A newline ends a line, with a carriage return in front of it or without; the
/// other lines are those of what follows.
pub proof fn a_newline_ends_a_line(a: Seq<char>, rest: Seq<char>)
    requires
        !a.contains('\n'),
        a.len() > 0 ==> a.last() != '\r',
    ensures
        lines(a + seq!['\n'] + rest) == seq![a] + lines(rest),
        lines(a + seq!['\r', '\n'] + rest) == seq![a] + lines(rest),
        lines(a) == (if a.len() == 0 {
            Seq::empty()
        } else {
            seq![a]
        }),
{
    let f = |p: Seq<char>| without_cr(p);
    let tail = split(rest, '\n');
    split_at_first(a, '\n', rest);
    let with_cr = a.push('\r');
    assert(!with_cr.contains('\n')) by {
        if with_cr.contains('\n') {
            let j = choose|j: int| 0 <= j < with_cr.len() && with_cr[j] == '\n';
            assert(a[j] == '\n');
        }
    }
    split_at_first(with_cr, '\n', rest);
    assert(a + seq!['\r', '\n'] + rest =~= with_cr + seq!['\n'] + rest);
    assert(with_cr.drop_last() =~= a);
    split_is_nonempty(rest, '\n');
    assert((seq![a] + tail).drop_last() =~= seq![a] + tail.drop_last());
    assert((seq![with_cr] + tail).drop_last() =~= seq![with_cr] + tail.drop_last());
    assert((seq![a] + tail.drop_last()).map_values(f) =~= seq![a] + tail.drop_last().map_values(f));
    assert((seq![with_cr] + tail.drop_last()).map_values(f) =~= seq![a] + tail.drop_last().map_values(
        f,
    ));
    assert(lines(a + seq!['\n'] + rest) =~= seq![a] + lines(rest));
    assert(lines(a + seq!['\r', '\n'] + rest) =~= seq![a] + lines(rest));
    split_of_one_piece(a, '\n');
    assert(seq![a].drop_last() =~= Seq::<Seq<char>>::empty());
    assert(lines(a) =~= (if a.len() == 0 {
        Seq::empty()
    } else {
        seq![a]
    }));
}

/// A text stands in another exactly where that one is something, the text, and
/// something; and the other begins with it where there is nothing in front.
pub proof fn what_is_contained_is_there(a: Seq<char>, needle: Seq<char>, b: Seq<char>)
    ensures
        contains(a + needle + b, needle),
        starts_with(needle + b, needle),
{
    assert((a + needle + b).subrange(a.len() as int, (a.len() + needle.len()) as int) =~= needle);
    assert(occurs_at(a + needle + b, needle, a.len() as int));
    assert((needle + b).take(needle.len() as int) =~= needle);
}

/// Where a text is said to contain or to begin with another, it does.
pub proof fn what_is_there_is_contained(s: Seq<char>, needle: Seq<char>)
    ensures
        contains(s, needle) ==> exists|a: Seq<char>, b: Seq<char>| s == #[trigger] (a + needle + b),
        starts_with(s, needle) ==> exists|b: Seq<char>| s == #[trigger] (needle + b),
{
    if contains(s, needle) {
        let i = choose|i: int| occurs_at(s, needle, i);
        let (a, b) = (s.take(i), s.skip(i + needle.len()));
        assert(s =~= a + needle + b);
    }
    if starts_with(s, needle) {
        assert(s =~= needle + s.skip(needle.len() as int));
    }
}

/// Replacing a character changes every one of it and no other.
pub proof fn replacing_touches_one_character(s: Seq<char>, from: char, to: char, i: int)
    requires
        0 <= i < s.len(),
    ensures
        replaced(s, from, to).len() == s.len(),
        s[i] == from ==> replaced(s, from, to)[i] == to,
        s[i] != from ==> replaced(s, from, to)[i] == s[i],
{
}

/// Texts are ordered by the first character in which they differ, and a text comes
/// before the longer ones that begin with it.
pub proof fn the_first_difference_decides(
    p: Seq<char>,
    x: char,
    y: char,
    s: Seq<char>,
    t: Seq<char>,
)
    requires
        (x as u32) < (y as u32),
    ensures
        less(p + (seq![x] + s), p + (seq![y] + t)),
        !less(p + (seq![y] + t), p + (seq![x] + s)),
        less(p, p + (seq![x] + s)),
{
    less_behind_prefix(p, seq![x] + s, seq![y] + t);
    if less(p + (seq![y] + t), p + (seq![x] + s)) {
        less_is_transitive(p + (seq![x] + s), p + (seq![y] + t), p + (seq![x] + s));
        less_is_irreflexive(p + (seq![x] + s));
    }
    less_behind_prefix(p, Seq::empty(), seq![x] + s);
    assert(p + Seq::<char>::empty() =~= p);
}

/// What some strings hold is each of them in its place, and what may be a string is what it
/// holds.
pub proof fn strings_hold_their_texts(v: Seq<String>, w: Seq<&str>, i: int, s: String, t: &str)
    ensures
        views(v).len() == v.len(),
        0 <= i < v.len() ==> views(v)[i] == v[i]@,
        str_views(w).len() == w.len(),
        0 <= i < w.len() ==> str_views(w)[i] == w[i]@,
        opt_string(Some(s)) == Some(s@),
        opt_string(None) is None,
        opt(Some(t)) == Some(t@),
        opt(None) is None,
{
}

} // verus!
