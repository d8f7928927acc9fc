//! Character-level text primitives shared by every parser in the crate.
//!
//! Text is modelled as `Seq<char>`; executable code works on `Vec<char>`
//! copies of the input and builds `String`s back character by character.

use vstd::prelude::*;

verus! {

/// Unicode `White_Space` (what `char::is_whitespace` and `str::trim` use).
pub open spec fn is_ws(c: char) -> bool {
    let u = c as u32;
    ||| u == 0x09 || u == 0x0A || u == 0x0B || u == 0x0C || u == 0x0D || u == 0x20
    ||| u == 0x85 || u == 0xA0 || u == 0x1680
    ||| 0x2000 <= u && u <= 0x200A
    ||| u == 0x2028 || u == 0x2029 || u == 0x202F || u == 0x205F || u == 0x3000
}

/// The character classes that the parsers split or trim on.
#[derive(Clone, Copy, Debug, PartialEq, Eq)]
pub enum CharClass {
    /// Unicode white space.
    Space,
    /// The line feed `'\n'`.
    Newline,
    /// Tag separators: `','`, `' '` and `'\t'`.
    TagSep,
    /// Directive separators in ssh_config: `' '`, `'\t'` and `'='`.
    KeySep,
    /// The `'@'` between user and host.
    At,
    /// The `':'` before a port.
    Colon,
}

pub open spec fn in_class(cls: CharClass, c: char) -> bool {
    match cls {
        CharClass::Space => is_ws(c),
        CharClass::Newline => c == '\n',
        CharClass::TagSep => c == ',' || c == ' ' || c == '\t',
        CharClass::KeySep => c == ' ' || c == '\t' || c == '=',
        CharClass::At => c == '@',
        CharClass::Colon => c == ':',
    }
}

/// Whether `c` belongs to `cls`.
pub fn class_has(cls: CharClass, c: char) -> (b: bool)
    ensures
        b == in_class(cls, c),
{
    match cls {
        CharClass::Space => {
            let u = c as u32;
            u == 0x09 || u == 0x0A || u == 0x0B || u == 0x0C || u == 0x0D || u == 0x20 || u
                == 0x85 || u == 0xA0 || u == 0x1680 || (0x2000 <= u && u <= 0x200A) || u == 0x2028
                || u == 0x2029 || u == 0x202F || u == 0x205F || u == 0x3000
        },
        CharClass::Newline => c == '\n',
        CharClass::TagSep => c == ',' || c == ' ' || c == '\t',
        CharClass::KeySep => c == ' ' || c == '\t' || c == '=',
        CharClass::At => c == '@',
        CharClass::Colon => c == ':',
    }
}

/// Index of the first character of `s` whose membership in `cls` is `want`,
/// or `s.len()` when there is none.
pub open spec fn first_index(s: Seq<char>, cls: CharClass, want: bool) -> int
    decreases s.len(),
{
    if s.len() == 0 {
        0
    } else if in_class(cls, s[0]) == want {
        0
    } else {
        1 + first_index(s.drop_first(), cls, want)
    }
}

pub proof fn lemma_first_index_bounds(s: Seq<char>, cls: CharClass, want: bool)
    ensures
        0 <= first_index(s, cls, want) <= s.len(),
        forall|j: int| 0 <= j < first_index(s, cls, want) ==> in_class(cls, #[trigger] s[j]) != want,
        first_index(s, cls, want) < s.len() ==> in_class(cls, s[first_index(s, cls, want)]) == want,
    decreases s.len(),
{
    if s.len() > 0 && in_class(cls, s[0]) != want {
        lemma_first_index_bounds(s.drop_first(), cls, want);
        assert forall|j: int| 0 <= j < first_index(s, cls, want) implies in_class(
            cls,
            #[trigger] s[j],
        ) != want by {
            if j > 0 {
                assert(s[j] == s.drop_first()[j - 1]);
            }
        }
    }
}

/// A position that passes over only non-matching characters and stops at a
/// matching one (or the end) is the first index.
pub proof fn lemma_first_index_at(s: Seq<char>, cls: CharClass, want: bool, i: int)
    requires
        0 <= i <= s.len(),
        forall|j: int| 0 <= j < i ==> in_class(cls, #[trigger] s[j]) != want,
        i < s.len() ==> in_class(cls, s[i]) == want,
    ensures
        first_index(s, cls, want) == i,
    decreases i,
{
    if i > 0 {
        assert(in_class(cls, s[0]) != want);
        assert forall|j: int| 0 <= j < i - 1 implies in_class(cls, #[trigger] s.drop_first()[j])
            != want by {
            assert(s.drop_first()[j] == s[j + 1]);
        }
        lemma_first_index_at(s.drop_first(), cls, want, i - 1);
    }
}

/// Length of `s` once trailing characters of class `cls` are removed.
pub open spec fn trim_end_len(s: Seq<char>, cls: CharClass) -> int
    decreases s.len(),
{
    if s.len() > 0 && in_class(cls, s.last()) {
        trim_end_len(s.drop_last(), cls)
    } else {
        s.len() as int
    }
}

pub proof fn lemma_trim_end_len_bounds(s: Seq<char>, cls: CharClass)
    ensures
        0 <= trim_end_len(s, cls) <= s.len(),
    decreases s.len(),
{
    if s.len() > 0 && in_class(cls, s.last()) {
        lemma_trim_end_len_bounds(s.drop_last(), cls);
    }
}

/// `s` without its leading characters of class `cls` (`trim_start_matches`).
pub open spec fn trim_start_by(s: Seq<char>, cls: CharClass) -> Seq<char> {
    s.subrange(first_index(s, cls, false), s.len() as int)
}

/// `s` without its trailing characters of class `cls` (`trim_end_matches`).
pub open spec fn trim_end_by(s: Seq<char>, cls: CharClass) -> Seq<char> {
    s.subrange(0, trim_end_len(s, cls))
}

/// `str::trim`: white space removed from both ends.
pub open spec fn trimmed(s: Seq<char>) -> Seq<char> {
    trim_end_by(trim_start_by(s, CharClass::Space), CharClass::Space)
}

/// The pieces of `s` between characters of class `cls` (`str::split`), empty
/// pieces included; an input without separators is one piece.
pub open spec fn split_by(s: Seq<char>, cls: CharClass) -> Seq<Seq<char>>
    decreases s.len(),
{
    let k = first_index(s, cls, true);
    if k >= s.len() {
        seq![s]
    } else {
        proof {
            lemma_first_index_bounds(s, cls, true);
        }
        seq![s.subrange(0, k)] + split_by(s.subrange(k + 1, s.len() as int), cls)
    }
}

/// The number of bytes `s` takes in UTF-8 (what `str::len` returns).
pub open spec fn byte_len(s: Seq<char>) -> nat {
    vstd::utf8::encode_utf8(s).len()
}

/// `s` padded with spaces on the right to `w` characters (`{:<w}`); longer
/// text is left as it is.
pub open spec fn pad_spec(s: Seq<char>, w: nat) -> Seq<char> {
    if s.len() >= w {
        s
    } else {
        s + Seq::new((w - s.len()) as nat, |i: int| ' ')
    }
}

/// `s` padded to `w` characters.
pub fn pad_right(s: &str, w: usize) -> (r: String)
    ensures
        r@ == pad_spec(s@, w as nat),
{
    let v = chars_of(s);
    let mut out = string_of(&v);
    let mut n: usize = v.len();
    while n < w
        invariant
            v@ == s@,
            v@.len() <= n <= w || (n == v@.len() && n >= w),
            out@ == s@ + Seq::new((n - v@.len()) as nat, |i: int| ' '),
        decreases w - n,
    {
        push_char(&mut out, ' ');
        assert(out@ =~= s@ + Seq::new((n + 1 - v@.len()) as nat, |i: int| ' '));
        n += 1;
    }
    assert(out@ =~= pad_spec(s@, w as nat));
    out
}

/// The UTF-8 length of a concatenation is the sum of the lengths.
pub proof fn lemma_byte_len_concat(a: Seq<char>, b: Seq<char>)
    ensures
        byte_len(a + b) == byte_len(a) + byte_len(b),
    decreases a.len(),
{
    if a.len() == 0 {
        assert(a + b =~= b);
    } else {
        assert((a + b).drop_first() =~= a.drop_first() + b);
        assert((a + b)[0] == a[0]);
        lemma_byte_len_concat(a.drop_first(), b);
    }
}

/// An ASCII character takes one byte.
pub proof fn lemma_byte_len_ascii(c: char)
    requires
        (c as u32) < 0x80,
    ensures
        byte_len(seq![c]) == 1,
{
    let s = seq![c];
    assert(s.drop_first() =~= Seq::<char>::empty());
    assert(s[0] == c);
    assert(vstd::utf8::encode_utf8(s.drop_first()).len() == 0);
    assert(vstd::utf8::has_width_1_encoding(c as u32));
    assert(vstd::utf8::encode_scalar(c as u32).len() == 1);
}

/// Every character of `s`, in order.
pub fn chars_of(s: &str) -> (r: Vec<char>)
    ensures
        r@ == s@,
{
    let mut out: Vec<char> = Vec::new();
    for c in it: s.chars()
        invariant
            out@ == it.seq().take(it.index() as int),
            it.seq() == s@,
    {
        out.push(c);
    }
    out
}

/// `String::push`: appends one character.
#[verifier::external_body]
pub(crate) fn push_char(s: &mut String, c: char)
    ensures
        final(s)@ == old(s)@.push(c),
{
    s.push(c);
}

/// The string made of `v[lo..hi]`.
pub fn string_of_range(v: &Vec<char>, lo: usize, hi: usize) -> (r: String)
    requires
        lo <= hi <= v.len(),
    ensures
        r@ == v@.subrange(lo as int, hi as int),
{
    let mut out = String::new();
    let mut i: usize = lo;
    while i < hi
        invariant
            lo <= i <= hi <= v.len(),
            out@ == v@.subrange(lo as int, i as int),
        decreases hi - i,
    {
        push_char(&mut out, v[i]);
        assert(v@.subrange(lo as int, i + 1) =~= v@.subrange(lo as int, i as int).push(v@[i as int]));
        i += 1;
    }
    out
}

/// The string made of every character of `v`.
pub fn string_of(v: &Vec<char>) -> (r: String)
    ensures
        r@ == v@,
{
    let r = string_of_range(v, 0, v.len());
    assert(v@.subrange(0, v@.len() as int) =~= v@);
    r
}

/// `v[lo..hi]` as a vector.
pub fn slice_chars(v: &Vec<char>, lo: usize, hi: usize) -> (r: Vec<char>)
    requires
        lo <= hi <= v.len(),
    ensures
        r@ == v@.subrange(lo as int, hi as int),
{
    let mut out: Vec<char> = Vec::new();
    let mut i: usize = lo;
    while i < hi
        invariant
            lo <= i <= hi <= v.len(),
            out@ == v@.subrange(lo as int, i as int),
        decreases hi - i,
    {
        out.push(v[i]);
        assert(v@.subrange(lo as int, i + 1) =~= v@.subrange(lo as int, i as int).push(v@[i as int]));
        i += 1;
    }
    out
}

/// Index of the first character at or after `lo` whose membership in `cls`
/// is `want`, or `v.len()`.
pub fn find_from(v: &Vec<char>, lo: usize, cls: CharClass, want: bool) -> (k: usize)
    requires
        lo <= v.len(),
    ensures
        lo <= k <= v.len(),
        k - lo == first_index(v@.subrange(lo as int, v@.len() as int), cls, want),
{
    let mut i: usize = lo;
    while i < v.len() && class_has(cls, v[i]) != want
        invariant
            lo <= i <= v.len(),
            forall|j: int| lo <= j < i ==> in_class(cls, #[trigger] v@[j]) != want,
        decreases v.len() - i,
    {
        i += 1;
    }
    proof {
        let s = v@.subrange(lo as int, v@.len() as int);
        assert forall|j: int| 0 <= j < i - lo implies in_class(cls, #[trigger] s[j]) != want by {
            assert(s[j] == v@[lo + j]);
        }
        lemma_first_index_at(s, cls, want, i - lo);
    }
    i
}

/// Length of `v[..hi]` once trailing characters of class `cls` are dropped.
pub fn trim_end_from(v: &Vec<char>, lo: usize, hi: usize, cls: CharClass) -> (k: usize)
    requires
        lo <= hi <= v.len(),
    ensures
        lo <= k <= hi,
        k - lo == trim_end_len(v@.subrange(lo as int, hi as int), cls),
{
    let mut j: usize = hi;
    while j > lo && class_has(cls, v[j - 1])
        invariant
            lo <= j <= hi <= v.len(),
            trim_end_len(v@.subrange(lo as int, hi as int), cls) == trim_end_len(
                v@.subrange(lo as int, j as int),
                cls,
            ),
        decreases j,
    {
        assert(v@.subrange(lo as int, j as int).drop_last() =~= v@.subrange(lo as int, j - 1));
        j -= 1;
    }
    j
}

/// `str::trim` on a character vector.
pub fn trim_chars(v: &Vec<char>) -> (r: Vec<char>)
    ensures
        r@ == trimmed(v@),
{
    let lo = find_from(v, 0, CharClass::Space, false);
    assert(v@.subrange(0, v@.len() as int) =~= v@);
    let hi = trim_end_from(v, lo, v.len(), CharClass::Space);
    let r = slice_chars(v, lo, hi);
    proof {
        let t = trim_start_by(v@, CharClass::Space);
        assert(t =~= v@.subrange(lo as int, v@.len() as int));
        assert(trimmed(v@) =~= v@.subrange(lo as int, hi as int));
    }
    r
}

/// Whether `a` and `b` hold the same characters.
pub fn chars_eq(a: &Vec<char>, b: &Vec<char>) -> (r: bool)
    ensures
        r == (a@ == b@),
{
    if a.len() != b.len() {
        return false;
    }
    let mut i: usize = 0;
    while i < a.len()
        invariant
            a.len() == b.len(),
            0 <= i <= a.len(),
            forall|j: int| 0 <= j < i ==> a@[j] == b@[j],
        decreases a.len() - i,
    {
        if a[i] != b[i] {
            return false;
        }
        i += 1;
    }
    assert(a@ =~= b@);
    true
}

/// The character sequences held by a vector of character vectors.
pub open spec fn views(v: Seq<Vec<char>>) -> Seq<Seq<char>> {
    v.map_values(|p: Vec<char>| p@)
}

/// The pieces of `v` between characters of class `cls` (`str::split`).
pub fn split_chars(v: &Vec<char>, cls: CharClass) -> (r: Vec<Vec<char>>)
    ensures
        views(r@) == split_by(v@, cls),
{
    let mut out: Vec<Vec<char>> = Vec::new();
    let mut start: usize = 0;
    assert(v@.subrange(0, v@.len() as int) =~= v@);
    loop
        invariant
            start <= v.len(),
            views(out@) + split_by(v@.subrange(start as int, v@.len() as int), cls) == split_by(
                v@,
                cls,
            ),
        decreases v.len() - start,
    {
        let k = find_from(v, start, cls, true);
        let ghost rest = v@.subrange(start as int, v@.len() as int);
        if k >= v.len() {
            let piece = slice_chars(v, start, v.len());
            let ghost before = views(out@);
            out.push(piece);
            assert(views(out@) =~= before.push(rest));
            assert(split_by(rest, cls) == seq![rest]);
            assert(before + seq![rest] =~= before.push(rest));
            return out;
        }
        let piece = slice_chars(v, start, k);
        let ghost before = views(out@);
        out.push(piece);
        proof {
            let kk = (k - start) as int;
            assert(rest.subrange(0, kk) =~= v@.subrange(start as int, k as int));
            assert(rest.subrange(kk + 1, rest.len() as int) =~= v@.subrange(k + 1, v@.len() as int));
            assert(split_by(rest, cls) == seq![rest.subrange(0, kk)] + split_by(
                rest.subrange(kk + 1, rest.len() as int),
                cls,
            ));
            assert(views(out@) =~= before.push(v@.subrange(start as int, k as int)));
            assert(before + (seq![v@.subrange(start as int, k as int)] + split_by(
                v@.subrange(k + 1, v@.len() as int),
                cls,
            )) =~= before.push(v@.subrange(start as int, k as int)) + split_by(
                v@.subrange(k + 1, v@.len() as int),
                cls,
            ));
        }
        start = k + 1;
    }
}

/// What `str::to_lowercase` returns for `s` (Unicode lowercase mapping).
pub uninterp spec fn lowercase(s: Seq<char>) -> Seq<char>;

/// `str::to_lowercase`. The contract claims only that the result is a
/// function of the input characters, named `lowercase`; the Unicode case
/// tables themselves are not restated here.
#[verifier::external_body]
pub(crate) fn to_lowercase(s: &str) -> (r: String)
    ensures
        r@ == lowercase(s@),
{
    s.to_lowercase()
}

/// The lowercase form of a character vector, as a vector.
pub fn lowercase_chars(v: &Vec<char>) -> (r: Vec<char>)
    ensures
        r@ == lowercase(v@),
{
    let s = string_of(v);
    let l = to_lowercase(s.as_str());
    chars_of(l.as_str())
}

/// `hay` holds `needle` as a contiguous run (`str::contains`).
pub open spec fn contains(hay: Seq<char>, needle: Seq<char>) -> bool {
    exists|i: int|
        0 <= i <= hay.len() - needle.len() && #[trigger] hay.subrange(i, i + needle.len()) == needle
}

/// Whether `hay[at..]` starts with `needle`.
fn matches_at(hay: &Vec<char>, at: usize, needle: &Vec<char>) -> (r: bool)
    requires
        at + needle.len() <= hay.len(),
    ensures
        r == (hay@.subrange(at as int, at + needle.len()) == needle@),
{
    let mut j: usize = 0;
    while j < needle.len()
        invariant
            at + needle.len() <= hay.len(),
            0 <= j <= needle.len(),
            forall|k: int| 0 <= k < j ==> hay@[at + k] == needle@[k],
        decreases needle.len() - j,
    {
        if hay[at + j] != needle[j] {
            assert(hay@.subrange(at as int, at + needle.len())[j as int] != needle@[j as int]);
            return false;
        }
        j += 1;
    }
    assert(hay@.subrange(at as int, at + needle.len()) =~= needle@);
    true
}

/// `str::contains` on character vectors.
pub fn chars_contain(hay: &Vec<char>, needle: &Vec<char>) -> (r: bool)
    ensures
        r == contains(hay@, needle@),
{
    if needle.len() == 0 {
        assert(hay@.subrange(0int, 0int + needle@.len()) =~= needle@);
        return true;
    }
    if needle.len() > hay.len() {
        return false;
    }
    let last = hay.len() - needle.len();
    let mut i: usize = 0;
    while i <= last
        invariant
            last + needle.len() == hay.len(),
            needle.len() >= 1,
            0 <= i <= last + 1,
            forall|k: int| 0 <= k < i ==> #[trigger] hay@.subrange(k, k + needle.len()) != needle@,
        decreases last + 1 - i,
    {
        if matches_at(hay, i, needle) {
            return true;
        }
        i += 1;
    }
    false
}

/// The ASCII case fold used by `eq_ignore_ascii_case`.
pub open spec fn ascii_fold(c: char) -> u32 {
    let u = c as u32;
    if 65 <= u && u <= 90 {
        (u + 32) as u32
    } else {
        u
    }
}

/// `str::eq_ignore_ascii_case`.
pub open spec fn eq_ignore_ascii_case(a: Seq<char>, b: Seq<char>) -> bool {
    a.len() == b.len() && forall|i: int| 0 <= i < a.len() ==> ascii_fold(#[trigger] a[i]) == ascii_fold(b[i])
}

fn fold_char(c: char) -> (r: u32)
    ensures
        r == ascii_fold(c),
{
    let u = c as u32;
    if 65 <= u && u <= 90 {
        u + 32
    } else {
        u
    }
}

/// `str::eq_ignore_ascii_case` on character vectors.
pub fn chars_eq_ignore_ascii_case(a: &Vec<char>, b: &Vec<char>) -> (r: bool)
    ensures
        r == eq_ignore_ascii_case(a@, b@),
{
    if a.len() != b.len() {
        return false;
    }
    let mut i: usize = 0;
    while i < a.len()
        invariant
            a.len() == b.len(),
            0 <= i <= a.len(),
            forall|j: int| 0 <= j < i ==> ascii_fold(#[trigger] a@[j]) == ascii_fold(b@[j]),
        decreases a.len() - i,
    {
        if fold_char(a[i]) != fold_char(b[i]) {
            return false;
        }
        i += 1;
    }
    true
}

pub open spec fn is_digit(c: char) -> bool {
    '0' <= c && c <= '9'
}

pub open spec fn digit_value(c: char) -> nat {
    (c as u32 - '0' as u32) as nat
}

pub open spec fn digit_char(d: nat) -> char {
    if d == 0 { '0' } else if d == 1 { '1' } else if d == 2 { '2' } else if d == 3 { '3' }
    else if d == 4 { '4' } else if d == 5 { '5' } else if d == 6 { '6' } else if d == 7 { '7' }
    else if d == 8 { '8' } else { '9' }
}

fn digit_char_exec(d: u16) -> (c: char)
    requires
        d < 10,
    ensures
        c == digit_char(d as nat),
{
    if d == 0 { '0' } else if d == 1 { '1' } else if d == 2 { '2' } else if d == 3 { '3' }
    else if d == 4 { '4' } else if d == 5 { '5' } else if d == 6 { '6' } else if d == 7 { '7' }
    else if d == 8 { '8' } else { '9' }
}

/// The number written by the decimal digits `s`.
pub open spec fn digits_value(s: Seq<char>) -> nat
    decreases s.len(),
{
    if s.len() == 0 {
        0
    } else {
        digits_value(s.drop_last()) * 10 + digit_value(s.last())
    }
}

pub open spec fn all_digits(s: Seq<char>) -> bool {
    forall|i: int| 0 <= i < s.len() ==> is_digit(#[trigger] s[i])
}

/// What `str::parse::<u16>` accepts: an optional `+`, then one or more ASCII
/// digits whose value fits in 16 bits.
pub open spec fn parse_u16_spec(s: Seq<char>) -> Option<u16> {
    let d = if s.len() > 0 && s[0] == '+' {
        s.drop_first()
    } else {
        s
    };
    if d.len() > 0 && all_digits(d) && digits_value(d) <= 65535 {
        Some(digits_value(d) as u16)
    } else {
        None
    }
}

/// `str::parse::<u16>` on a character vector.
pub fn parse_u16(v: &Vec<char>) -> (r: Option<u16>)
    ensures
        r == parse_u16_spec(v@),
{
    let start: usize = if v.len() > 0 && v[0] == '+' {
        1
    } else {
        0
    };
    let ghost d = v@.subrange(start as int, v@.len() as int);
    assert(d =~= (if v@.len() > 0 && v@[0] == '+' {
        v@.drop_first()
    } else {
        v@
    }));
    if start >= v.len() {
        return None;
    }
    let mut value: u32 = 0;
    let mut i: usize = start;
    while i < v.len()
        invariant
            start <= i <= v.len(),
            start < v.len(),
            d == v@.subrange(start as int, v@.len() as int),
            d == (if v@.len() > 0 && v@[0] == '+' {
                v@.drop_first()
            } else {
                v@
            }),
            value <= 65535,
            value == digits_value(v@.subrange(start as int, i as int)),
            all_digits(v@.subrange(start as int, i as int)),
        decreases v.len() - i,
    {
        let c = v[i];
        if !('0' <= c && c <= '9') {
            assert(d[i - start] == c);
            assert(!is_digit(d[i - start]));
            return None;
        }
        let ghost pre = v@.subrange(start as int, i as int);
        let ghost next = v@.subrange(start as int, i + 1);
        assert(next.drop_last() =~= pre);
        assert(next.last() == c);
        let nv = value * 10 + (c as u32 - '0' as u32);
        if nv > 65535 {
            proof {
                assert(all_digits(next));
                assert(d.subrange(0, (i - start + 1) as int) =~= next);
                if all_digits(d) {
                    lemma_digits_value_grows(d, (i - start + 1) as int);
                }
            }
            return None;
        }
        value = nv;
        i += 1;
    }
    assert(v@.subrange(start as int, i as int) =~= d);
    Some(value as u16)
}

/// Extending an all-digit prefix never lowers its value.
pub proof fn lemma_digits_value_grows(d: Seq<char>, n: int)
    requires
        0 <= n <= d.len(),
        all_digits(d),
    ensures
        digits_value(d) >= digits_value(d.subrange(0, n)),
    decreases d.len() - n,
{
    if n < d.len() {
        lemma_digits_value_grows(d, n + 1);
        let p = d.subrange(0, n + 1);
        assert(p.drop_last() =~= d.subrange(0, n));
        assert(is_digit(d[n]));
    } else {
        assert(d.subrange(0, n) =~= d);
    }
}

/// The decimal digits of `n`, without leading zeros (`u16::to_string`).
pub open spec fn decimal(n: nat) -> Seq<char>
    decreases n,
{
    if n < 10 {
        seq![digit_char(n)]
    } else {
        decimal(n / 10).push(digit_char(n % 10))
    }
}

/// Appends the decimal digits of `n` to `out`.
pub fn push_decimal(out: &mut String, n: u16)
    ensures
        final(out)@ == old(out)@ + decimal(n as nat),
    decreases n,
{
    if n >= 10 {
        push_decimal(out, n / 10);
    }
    let c = digit_char_exec(n % 10);
    let ghost before = out@;
    push_char(out, c);
    proof {
        if n >= 10 {
            assert(before + seq![c] =~= old(out)@ + decimal(n as nat));
        } else {
            assert(before =~= old(out)@);
            assert(before.push(c) =~= old(out)@ + decimal(n as nat));
        }
    }
}

/// `u16::to_string`.
pub fn u16_to_string(n: u16) -> (r: String)
    ensures
        r@ == decimal(n as nat),
{
    let mut s = String::new();
    push_decimal(&mut s, n);
    assert(Seq::<char>::empty() + decimal(n as nat) =~= decimal(n as nat));
    s
}

/// Reading back the decimal form of a 16-bit number gives the number.
pub proof fn lemma_decimal_parses(n: u16)
    ensures
        parse_u16_spec(decimal(n as nat)) == Some(n),
{
    lemma_decimal_digits(n as nat);
}

pub proof fn lemma_decimal_digits(n: nat)
    ensures
        decimal(n).len() > 0,
        all_digits(decimal(n)),
        digits_value(decimal(n)) == n,
        decimal(n)[0] != '+',
    decreases n,
{
    if n < 10 {
        let s = seq![digit_char(n)];
        assert(decimal(n) == s);
        assert(digit_value(digit_char(n)) == n);
        assert(s.drop_last() =~= Seq::<char>::empty());
        assert(s.last() == digit_char(n));
        assert(digits_value(s) == digits_value(s.drop_last()) * 10 + digit_value(s.last()));
        assert(digits_value(Seq::<char>::empty()) == 0);
    } else {
        lemma_decimal_digits(n / 10);
        let s = decimal(n);
        assert(s.drop_last() =~= decimal(n / 10));
        assert(s.last() == digit_char(n % 10));
        assert(digit_value(digit_char(n % 10)) == n % 10);
        assert(digits_value(s) == digits_value(s.drop_last()) * 10 + digit_value(s.last()));
        assert((n / 10) * 10 + n % 10 == n);
        assert forall|i: int| 0 <= i < s.len() implies is_digit(#[trigger] s[i]) by {
            if i < s.len() - 1 {
                assert(s[i] == decimal(n / 10)[i]);
            }
        }
        assert(s[0] == decimal(n / 10)[0]);
    }
}

/// Appends every character of `v` to `out`.
pub fn push_chars(out: &mut String, v: &Vec<char>)
    ensures
        final(out)@ == old(out)@ + v@,
{
    let mut i: usize = 0;
    while i < v.len()
        invariant
            0 <= i <= v.len(),
            out@ == old(out)@ + v@.subrange(0, i as int),
        decreases v.len() - i,
    {
        push_char(out, v[i]);
        assert(old(out)@ + v@.subrange(0, i + 1) =~= (old(out)@ + v@.subrange(0, i as int)).push(
            v@[i as int],
        ));
        i += 1;
    }
    assert(v@.subrange(0, v@.len() as int) =~= v@);
}

/// Appends `s` to `out` (`String::push_str`).
pub fn push_str(out: &mut String, s: &str)
    ensures
        final(out)@ == old(out)@ + s@,
{
    let v = chars_of(s);
    push_chars(out, &v);
}

/// A fresh copy of `s` (`str::to_string`).
pub fn to_owned_string(s: &str) -> (r: String)
    ensures
        r@ == s@,
{
    let mut out = String::new();
    push_str(&mut out, s);
    assert(Seq::<char>::empty() + s@ =~= s@);
    out
}

/// Index of the last character of `s` in class `cls`, or `-1` (`str::rfind`).
pub open spec fn last_index(s: Seq<char>, cls: CharClass) -> int
    decreases s.len(),
{
    if s.len() == 0 {
        -1
    } else if in_class(cls, s.last()) {
        s.len() - 1
    } else {
        last_index(s.drop_last(), cls)
    }
}

pub proof fn lemma_last_index_bounds(s: Seq<char>, cls: CharClass)
    ensures
        -1 <= last_index(s, cls) < s.len(),
        last_index(s, cls) >= 0 ==> in_class(cls, s[last_index(s, cls)]),
        forall|j: int| last_index(s, cls) < j < s.len() ==> !in_class(cls, #[trigger] s[j]),
    decreases s.len(),
{
    if s.len() > 0 && !in_class(cls, s.last()) {
        lemma_last_index_bounds(s.drop_last(), cls);
        assert forall|j: int| last_index(s, cls) < j < s.len() implies !in_class(
            cls,
            #[trigger] s[j],
        ) by {
            if j < s.len() - 1 {
                assert(s[j] == s.drop_last()[j]);
            }
        }
        assert(last_index(s, cls) >= 0 ==> s[last_index(s, cls)] == s.drop_last()[last_index(
            s,
            cls,
        )]);
    }
}

/// Position of the last character of `v[lo..hi]` in class `cls`, or `None`.
pub fn rfind_in(v: &Vec<char>, lo: usize, hi: usize, cls: CharClass) -> (r: Option<usize>)
    requires
        lo <= hi <= v.len(),
    ensures
        match r {
            Some(k) => lo <= k < hi && k - lo == last_index(v@.subrange(lo as int, hi as int), cls),
            None => last_index(v@.subrange(lo as int, hi as int), cls) == -1,
        },
{
    let mut j: usize = hi;
    while j > lo
        invariant
            lo <= j <= hi <= v.len(),
            last_index(v@.subrange(lo as int, hi as int), cls) == last_index(
                v@.subrange(lo as int, j as int),
                cls,
            ),
        decreases j,
    {
        let ghost sub = v@.subrange(lo as int, j as int);
        assert(sub.last() == v@[j - 1]);
        if class_has(cls, v[j - 1]) {
            return Some(j - 1);
        }
        assert(sub.drop_last() =~= v@.subrange(lo as int, j - 1));
        j -= 1;
    }
    None
}

/// Text that neither starts nor ends with white space is its own trim.
pub proof fn lemma_trimmed_id(s: Seq<char>)
    requires
        s.len() > 0,
        !is_ws(s[0]),
        !is_ws(s.last()),
    ensures
        trimmed(s) == s,
{
    lemma_first_index_at(s, CharClass::Space, false, 0);
    assert(trim_start_by(s, CharClass::Space) =~= s);
    assert(trim_end_len(s, CharClass::Space) == s.len());
    assert(s.subrange(0, s.len() as int) =~= s);
}

/// Text without characters of class `cls` is a single piece.
pub proof fn lemma_split_none(s: Seq<char>, cls: CharClass)
    requires
        forall|i: int| 0 <= i < s.len() ==> !in_class(cls, #[trigger] s[i]),
    ensures
        split_by(s, cls) == seq![s],
{
    lemma_first_index_at(s, cls, true, s.len() as int);
}

/// Splitting `a`, a separator `c`, then `rest`, where `a` holds no separator.
pub proof fn lemma_split_cons(a: Seq<char>, c: char, rest: Seq<char>, cls: CharClass)
    requires
        forall|i: int| 0 <= i < a.len() ==> !in_class(cls, #[trigger] a[i]),
        in_class(cls, c),
    ensures
        split_by(a + seq![c] + rest, cls) == seq![a] + split_by(rest, cls),
{
    let s = a + seq![c] + rest;
    assert forall|i: int| 0 <= i < a.len() implies !in_class(cls, #[trigger] s[i]) by {
        assert(s[i] == a[i]);
    }
    lemma_first_index_at(s, cls, true, a.len() as int);
    assert(s.subrange(0, a.len() as int) =~= a);
    assert(s.subrange(a.len() as int + 1, s.len() as int) =~= rest);
}

/// Decimal digits hold no white space at either end.
pub proof fn lemma_decimal_trimmed(n: nat)
    ensures
        trimmed(decimal(n)) == decimal(n),
{
    lemma_decimal_digits(n);
    let d = decimal(n);
    assert(is_digit(d[0]));
    assert(is_digit(d[d.len() - 1]));
    lemma_trimmed_id(d);
}

/// Removes and returns the last character, if any (`String::pop`).
pub fn pop_char(s: &mut String) -> (r: Option<char>)
    ensures
        match r {
            Some(c) => old(s)@.len() > 0 && final(s)@ == old(s)@.drop_last() && c == old(s)@.last(),
            None => old(s)@.len() == 0 && final(s)@ == old(s)@,
        },
{
    let v = chars_of(s.as_str());
    if v.len() == 0 {
        return None;
    }
    let c = v[v.len() - 1];
    *s = string_of_range(&v, 0, v.len() - 1);
    assert(v@.subrange(0, v@.len() - 1) =~= v@.drop_last());
    Some(c)
}

/// What `str::parse::<usize>` accepts: an optional `+`, then one or more
/// ASCII digits whose value fits in a `usize`.
pub open spec fn parse_usize_spec(s: Seq<char>) -> Option<usize> {
    let d = if s.len() > 0 && s[0] == '+' {
        s.drop_first()
    } else {
        s
    };
    if d.len() > 0 && all_digits(d) && digits_value(d) <= usize::MAX {
        Some(digits_value(d) as usize)
    } else {
        None
    }
}

/// `str::parse::<usize>` on a character vector.
pub fn parse_usize(v: &Vec<char>) -> (r: Option<usize>)
    ensures
        r == parse_usize_spec(v@),
{
    let start: usize = if v.len() > 0 && v[0] == '+' {
        1
    } else {
        0
    };
    let ghost d = v@.subrange(start as int, v@.len() as int);
    assert(d =~= (if v@.len() > 0 && v@[0] == '+' {
        v@.drop_first()
    } else {
        v@
    }));
    if start >= v.len() {
        return None;
    }
    let mut value: usize = 0;
    let mut i: usize = start;
    while i < v.len()
        invariant
            start <= i <= v.len(),
            start < v.len(),
            d == v@.subrange(start as int, v@.len() as int),
            d == (if v@.len() > 0 && v@[0] == '+' {
                v@.drop_first()
            } else {
                v@
            }),
            value == digits_value(v@.subrange(start as int, i as int)),
            all_digits(v@.subrange(start as int, i as int)),
        decreases v.len() - i,
    {
        let c = v[i];
        if !('0' <= c && c <= '9') {
            assert(d[i - start] == c);
            assert(!is_digit(d[i - start]));
            return None;
        }
        let ghost pre = v@.subrange(start as int, i as int);
        let ghost next = v@.subrange(start as int, i + 1);
        assert(next.drop_last() =~= pre);
        assert(next.last() == c);
        let dv = (c as u32 - '0' as u32) as usize;
        let step = match value.checked_mul(10) {
            Some(m) => m.checked_add(dv),
            None => None,
        };
        match step {
            Some(nv) => {
                value = nv;
            },
            None => {
                proof {
                    assert(all_digits(next));
                    assert(d.subrange(0, (i - start + 1) as int) =~= next);
                    if all_digits(d) {
                        lemma_digits_value_grows(d, (i - start + 1) as int);
                    }
                }
                return None;
            },
        }
        i += 1;
    }
    assert(v@.subrange(start as int, i as int) =~= d);
    Some(value)
}

/// Appends the decimal digits of `n` to `out`.
pub fn push_decimal_usize(out: &mut String, n: usize)
    ensures
        final(out)@ == old(out)@ + decimal(n as nat),
    decreases n,
{
    if n >= 10 {
        push_decimal_usize(out, n / 10);
    }
    let c = digit_char_exec((n % 10) as u16);
    let ghost before = out@;
    push_char(out, c);
    proof {
        if n >= 10 {
            assert(before + seq![c] =~= old(out)@ + decimal(n as nat));
        } else {
            assert(before =~= old(out)@);
            assert(before.push(c) =~= old(out)@ + decimal(n as nat));
        }
    }
}

/// `s` comes strictly before `t` in the order of `str`'s `<`: character by
/// character, a proper prefix first.
pub open spec fn lex_lt(s: Seq<char>, t: Seq<char>) -> bool
    decreases s.len(),
{
    if s.len() == 0 {
        t.len() > 0
    } else if t.len() == 0 {
        false
    } else if s[0] < t[0] {
        true
    } else if s[0] == t[0] {
        lex_lt(s.drop_first(), t.drop_first())
    } else {
        false
    }
}

pub proof fn lemma_lex_irreflexive(s: Seq<char>)
    ensures
        !lex_lt(s, s),
    decreases s.len(),
{
    if s.len() > 0 {
        lemma_lex_irreflexive(s.drop_first());
    }
}

pub proof fn lemma_lex_transitive(a: Seq<char>, b: Seq<char>, c: Seq<char>)
    requires
        lex_lt(a, b),
        lex_lt(b, c),
    ensures
        lex_lt(a, c),
    decreases a.len(),
{
    if a.len() > 0 && b.len() > 0 && c.len() > 0 && a[0] == b[0] && b[0] == c[0] {
        lemma_lex_transitive(a.drop_first(), b.drop_first(), c.drop_first());
    }
}

pub proof fn lemma_lex_total(a: Seq<char>, b: Seq<char>)
    ensures
        a == b || lex_lt(a, b) || lex_lt(b, a),
    decreases a.len(),
{
    if a.len() > 0 && b.len() > 0 && a[0] == b[0] {
        lemma_lex_total(a.drop_first(), b.drop_first());
        if a.drop_first() == b.drop_first() {
            assert(a =~= seq![a[0]] + a.drop_first());
            assert(b =~= seq![b[0]] + b.drop_first());
        }
    } else if a.len() == 0 && b.len() == 0 {
        assert(a =~= b);
    }
}

/// `a < b` for strings.
pub fn chars_lt(a: &Vec<char>, b: &Vec<char>) -> (r: bool)
    ensures
        r == lex_lt(a@, b@),
{
    let mut i: usize = 0;
    assert(a@.subrange(0, a@.len() as int) =~= a@);
    assert(b@.subrange(0, b@.len() as int) =~= b@);
    while i < a.len() && i < b.len() && a[i] == b[i]
        invariant
            0 <= i <= a.len(),
            i <= b.len(),
            lex_lt(a@, b@) == lex_lt(a@.subrange(i as int, a@.len() as int), b@.subrange(i as int, b@.len() as int)),
        decreases a.len() - i,
    {
        let ghost sa = a@.subrange(i as int, a@.len() as int);
        let ghost sb = b@.subrange(i as int, b@.len() as int);
        assert(sa.drop_first() =~= a@.subrange(i + 1, a@.len() as int));
        assert(sb.drop_first() =~= b@.subrange(i + 1, b@.len() as int));
        i += 1;
    }
    let ghost sa = a@.subrange(i as int, a@.len() as int);
    let ghost sb = b@.subrange(i as int, b@.len() as int);
    if i == a.len() {
        i < b.len()
    } else if i == b.len() {
        false
    } else {
        assert(sa[0] == a@[i as int] && sb[0] == b@[i as int]);
        a[i] < b[i]
    }
}

} // verus!
