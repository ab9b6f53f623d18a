//! Character-level helpers shared by the rest of the library: trimming,
//! splitting, replacing, ASCII case, decimal and hexadecimal digits.
//!
//! Strings are modelled by their sequence of characters (`s@`). The functions
//! here work on slices of characters, so that each position is one character
//! whatever its length in UTF-8.
use vstd::prelude::*;

verus! {

/// `String::push` appends one character to the end of the string.
pub assume_specification[ String::push ](s: &mut String, c: char)
    ensures
        final(s)@ == old(s)@.push(c),
;

// ---------------------------------------------------------------------------
// Characters
// ---------------------------------------------------------------------------

pub open spec fn is_ascii_upper(c: char) -> bool {
    'A' <= c && c <= 'Z'
}

pub open spec fn is_ascii_lower(c: char) -> bool {
    'a' <= c && c <= 'z'
}

pub open spec fn is_ascii_digit(c: char) -> bool {
    '0' <= c && c <= '9'
}

pub open spec fn is_ascii_alnum(c: char) -> bool {
    is_ascii_upper(c) || is_ascii_lower(c) || is_ascii_digit(c)
}

/// ASCII lower case; every other character is unchanged.
pub open spec fn lower_char(c: char) -> char {
    if is_ascii_upper(c) {
        (c as u8 + 32) as char
    } else {
        c
    }
}

/// ASCII upper case; every other character is unchanged.
pub open spec fn upper_char(c: char) -> char {
    if is_ascii_lower(c) {
        (c as u8 - 32) as char
    } else {
        c
    }
}

/// ASCII lower case of a whole text.
pub open spec fn lower(s: Seq<char>) -> Seq<char> {
    s.map_values(|c: char| lower_char(c))
}

/// The Unicode property `White_Space`.
pub open spec fn is_white(c: char) -> bool {
    let n = c as int;
    ||| 0x09 <= n <= 0x0d
    ||| n == 0x20
    ||| n == 0x85
    ||| n == 0xa0
    ||| n == 0x1680
    ||| 0x2000 <= n <= 0x200a
    ||| n == 0x2028
    ||| n == 0x2029
    ||| n == 0x202f
    ||| n == 0x205f
    ||| n == 0x3000
}

/// The Unicode general category `Cc` (control codes).
pub open spec fn is_control(c: char) -> bool {
    let n = c as int;
    n <= 0x1f || 0x7f <= n <= 0x9f
}

pub fn to_lower_char(c: char) -> (r: char)
    ensures
        r == lower_char(c),
{
    if 'A' <= c && c <= 'Z' {
        (c as u8 + 32) as char
    } else {
        c
    }
}

pub fn to_upper_char(c: char) -> (r: char)
    ensures
        r == upper_char(c),
{
    if 'a' <= c && c <= 'z' {
        (c as u8 - 32) as char
    } else {
        c
    }
}

pub fn char_is_white(c: char) -> (r: bool)
    ensures
        r == is_white(c),
{
    let n: u32 = c as u32;
    (0x09 <= n && n <= 0x0d) || n == 0x20 || n == 0x85 || n == 0xa0 || n == 0x1680 || (0x2000 <= n
        && n <= 0x200a) || n == 0x2028 || n == 0x2029 || n == 0x202f || n == 0x205f || n == 0x3000
}

pub fn char_is_control(c: char) -> (r: bool)
    ensures
        r == is_control(c),
{
    let n: u32 = c as u32;
    n <= 0x1f || (0x7f <= n && n <= 0x9f)
}

pub fn char_is_alnum(c: char) -> (r: bool)
    ensures
        r == is_ascii_alnum(c),
{
    ('A' <= c && c <= 'Z') || ('a' <= c && c <= 'z') || ('0' <= c && c <= '9')
}

// ---------------------------------------------------------------------------
// Strings and slices of characters
// ---------------------------------------------------------------------------

/// The characters of a string, in order.
pub fn to_chars(s: &str) -> (r: Vec<char>)
    ensures
        r@ == s@,
{
    let mut out: Vec<char> = Vec::new();
    for c in it: s.chars()
        invariant
            out@ == it.seq().take(it.index() as int),
            it.seq() == s@,
    {
        out.push(c);
    }
    out
}

/// The string made of the given characters.
pub fn from_chars(v: &[char]) -> (r: String)
    ensures
        r@ == v@,
{
    let mut out = String::new();
    let mut i: usize = 0;
    while i < v.len()
        invariant
            i <= v@.len(),
            out@ == v@.take(i as int),
        decreases v@.len() - i,
    {
        out.push(v[i]);
        i += 1;
        assert(v@.take(i as int) =~= v@.take(i - 1).push(v@[i - 1]));
    }
    assert(v@.take(i as int) =~= v@);
    out
}

/// The characters of `v` between two positions.
pub fn slice_chars(v: &[char], from: usize, to: usize) -> (r: Vec<char>)
    requires
        from <= to <= v@.len(),
    ensures
        r@ == v@.subrange(from as int, to as int),
{
    let mut out: Vec<char> = Vec::new();
    let mut i: usize = from;
    while i < to
        invariant
            from <= i <= to <= v@.len(),
            out@ == v@.subrange(from as int, i as int),
        decreases to - i,
    {
        out.push(v[i]);
        i += 1;
        assert(v@.subrange(from as int, i as int) =~= v@.subrange(from as int, i - 1).push(
            v@[i - 1],
        ));
    }
    out
}

/// Whether two texts hold the same characters.
pub fn same_chars(a: &[char], b: &[char]) -> (r: bool)
    ensures
        r == (a@ == b@),
{
    if a.len() != b.len() {
        return false;
    }
    let mut i: usize = 0;
    while i < a.len()
        invariant
            i <= a@.len(),
            a@.len() == b@.len(),
            a@.take(i as int) == b@.take(i as int),
        decreases a@.len() - i,
    {
        if a[i] != b[i] {
            return false;
        }
        i += 1;
        assert(a@.take(i as int) =~= a@.take(i - 1).push(a@[i - 1]));
        assert(b@.take(i as int) =~= b@.take(i - 1).push(b@[i - 1]));
    }
    assert(a@.take(i as int) =~= a@);
    assert(b@.take(i as int) =~= b@);
    true
}

/// Whether a text equals a string.
pub fn is_text(a: &[char], b: &str) -> (r: bool)
    ensures
        r == (a@ == b@),
{
    let bc = to_chars(b);
    same_chars(a, bc.as_slice())
}

/// Whether two strings hold the same characters.
pub fn same_str(a: &str, b: &str) -> (r: bool)
    ensures
        r == (a@ == b@),
{
    let ac = to_chars(a);
    let bc = to_chars(b);
    same_chars(ac.as_slice(), bc.as_slice())
}

/// ASCII lower case of a whole text.
pub fn to_lower(v: &[char]) -> (r: Vec<char>)
    ensures
        r@ == lower(v@),
{
    let mut out: Vec<char> = Vec::new();
    let mut i: usize = 0;
    while i < v.len()
        invariant
            i <= v@.len(),
            out@ == lower(v@.take(i as int)),
        decreases v@.len() - i,
    {
        out.push(to_lower_char(v[i]));
        i += 1;
        assert(lower(v@.take(i as int)) =~= lower(v@.take(i - 1)).push(lower_char(v@[i - 1])));
    }
    assert(v@.take(i as int) =~= v@);
    out
}

/// Appends every character of `v` to `out`.
pub fn push_chars(out: &mut Vec<char>, v: &[char])
    ensures
        final(out)@ == old(out)@ + v@,
{
    let mut i: usize = 0;
    while i < v.len()
        invariant
            i <= v@.len(),
            out@ == old(out)@ + v@.take(i as int),
        decreases v@.len() - i,
    {
        out.push(v[i]);
        i += 1;
        assert(old(out)@ + v@.take(i as int) =~= (old(out)@ + v@.take(i - 1)).push(v@[i - 1]));
    }
    assert(v@.take(i as int) =~= v@);
}

/// Appends every character of a string to `out`.
pub fn push_text(out: &mut Vec<char>, s: &str)
    ensures
        final(out)@ == old(out)@ + s@,
{
    let v = to_chars(s);
    push_chars(out, v.as_slice());
}

// ---------------------------------------------------------------------------
// Classes of characters, trimming and splitting
// ---------------------------------------------------------------------------

/// The sets of characters at which the library trims or splits.
#[derive(Clone, Copy, PartialEq, Eq, Structural)]
pub enum CharClass {
    Whitespace,
    DotOrWhitespace,
    Dash,
    Plus,
    Slash,
    Newline,
}

impl CharClass {
    pub open spec fn has(self, c: char) -> bool {
        match self {
            CharClass::Whitespace => is_white(c),
            CharClass::DotOrWhitespace => c == '.' || is_white(c),
            CharClass::Dash => c == '-',
            CharClass::Plus => c == '+',
            CharClass::Slash => c == '/' || c == '\\',
            CharClass::Newline => c == '\n',
        }
    }

    pub fn contains(self, c: char) -> (r: bool)
        ensures
            r == self.has(c),
    {
        match self {
            CharClass::Whitespace => char_is_white(c),
            CharClass::DotOrWhitespace => c == '.' || char_is_white(c),
            CharClass::Dash => c == '-',
            CharClass::Plus => c == '+',
            CharClass::Slash => c == '/' || c == '\\',
            CharClass::Newline => c == '\n',
        }
    }
}

/// `s` without its leading characters of the class.
pub open spec fn trim_start(s: Seq<char>, class: CharClass) -> Seq<char>
    decreases s.len(),
{
    if s.len() > 0 && class.has(s[0]) {
        trim_start(s.subrange(1, s.len() as int), class)
    } else {
        s
    }
}

/// `s` without its trailing characters of the class.
pub open spec fn trim_end(s: Seq<char>, class: CharClass) -> Seq<char>
    decreases s.len(),
{
    if s.len() > 0 && class.has(s.last()) {
        trim_end(s.drop_last(), class)
    } else {
        s
    }
}

/// `s` without its leading and trailing characters of the class.
pub open spec fn trim(s: Seq<char>, class: CharClass) -> Seq<char> {
    trim_end(trim_start(s, class), class)
}

/// Trims a text at both ends.
pub fn trim_chars(v: &[char], class: CharClass) -> (r: Vec<char>)
    ensures
        r@ == trim(v@, class),
{
    let mut from: usize = 0;
    assert(v@.subrange(0, v@.len() as int) =~= v@);
    while from < v.len() && class.contains(v[from])
        invariant
            from <= v@.len(),
            trim_start(v@, class) == trim_start(v@.subrange(from as int, v@.len() as int), class),
        decreases v@.len() - from,
    {
        assert(v@.subrange(from as int, v@.len() as int).subrange(1, v@.len() - from)
            =~= v@.subrange(from + 1, v@.len() as int));
        from += 1;
    }
    let mut to: usize = v.len();
    while to > from && class.contains(v[to - 1])
        invariant
            from <= to <= v@.len(),
            trim(v@, class) == trim_end(v@.subrange(from as int, to as int), class),
        decreases to,
    {
        assert(v@.subrange(from as int, to as int).drop_last() =~= v@.subrange(
            from as int,
            to - 1,
        ));
        to -= 1;
    }
    slice_chars(v, from, to)
}

/// The pieces of `s` between the characters of the class, empty ones included.
/// There is always at least one piece.
pub open spec fn split(s: Seq<char>, class: CharClass) -> Seq<Seq<char>>
    decreases s.len(),
{
    if s.len() == 0 {
        seq![Seq::<char>::empty()]
    } else {
        let head = split(s.drop_last(), class);
        if class.has(s.last()) {
            head.push(Seq::empty())
        } else {
            head.drop_last().push(head.last().push(s.last()))
        }
    }
}

/// The text of an optional string.
pub open spec fn optional_text(s: Option<String>) -> Option<Seq<char>> {
    match s {
        Some(t) => Some(t@),
        None => None,
    }
}

/// The text of an optional string slice.
pub open spec fn optional_str(s: Option<&str>) -> Option<Seq<char>> {
    match s {
        Some(t) => Some(t@),
        None => None,
    }
}

/// Copies an optional string.
pub fn copy_optional(s: &Option<String>) -> (r: Option<String>)
    ensures
        optional_text(r) == optional_text(*s),
{
    match s {
        Some(t) => Some(t.clone()),
        None => None,
    }
}

/// The views of a list of texts.
pub open spec fn texts(v: Seq<Vec<char>>) -> Seq<Seq<char>> {
    v.map_values(|t: Vec<char>| t@)
}

/// The views of a list of strings.
pub open spec fn strings(v: Seq<String>) -> Seq<Seq<char>> {
    v.map_values(|t: String| t@)
}

/// Splits a text at every character of the class.
pub fn split_chars(v: &[char], class: CharClass) -> (r: Vec<Vec<char>>)
    ensures
        texts(r@) == split(v@, class),
{
    let mut done: Vec<Vec<char>> = Vec::new();
    let mut cur: Vec<char> = Vec::new();
    let mut i: usize = 0;
    assert(texts(done@).push(cur@) =~= seq![Seq::<char>::empty()]);
    while i < v.len()
        invariant
            i <= v@.len(),
            texts(done@).push(cur@) == split(v@.take(i as int), class),
        decreases v@.len() - i,
    {
        let c = v[i];
        let ghost before = texts(done@).push(cur@);
        assert(v@.take(i + 1).drop_last() =~= v@.take(i as int));
        assert(v@.take(i + 1).last() == c);
        assert(before.drop_last() =~= texts(done@));
        assert(before.last() == cur@);
        if class.contains(c) {
            let ghost prev = done@;
            let ghost piece = cur;
            done.push(cur);
            cur = Vec::new();
            assert(texts(done@) =~= texts(prev).push(piece@));
            assert(cur@ =~= Seq::empty());
        } else {
            cur.push(c);
        }
        i += 1;
    }
    assert(v@.take(i as int) =~= v@);
    let ghost prev = done@;
    let ghost piece = cur;
    done.push(cur);
    assert(texts(done@) =~= texts(prev).push(piece@));
    done
}

// ---------------------------------------------------------------------------
// Replacing
// ---------------------------------------------------------------------------

/// Whether `pat` stands in `s` at position `at`.
pub open spec fn occurs_at(s: Seq<char>, pat: Seq<char>, at: int) -> bool {
    &&& 0 <= at
    &&& at + pat.len() <= s.len()
    &&& s.subrange(at, at + pat.len()) == pat
}

/// `s` from position `at` on, with every occurrence of `pat` replaced, taken
/// from left to right without overlap.
pub open spec fn replaced_from(s: Seq<char>, pat: Seq<char>, with: Seq<char>, at: int) -> Seq<char>
    decreases s.len() - at,
{
    if at >= s.len() || pat.len() == 0 {
        Seq::empty()
    } else if occurs_at(s, pat, at) {
        with + replaced_from(s, pat, with, at + pat.len())
    } else {
        seq![s[at]] + replaced_from(s, pat, with, at + 1)
    }
}

/// `s` with every occurrence of the non-empty `pat` replaced by `with`.
pub open spec fn replaced(s: Seq<char>, pat: Seq<char>, with: Seq<char>) -> Seq<char> {
    replaced_from(s, pat, with, 0)
}

fn occurs(s: &[char], pat: &[char], at: usize) -> (r: bool)
    requires
        at <= s@.len(),
    ensures
        r == occurs_at(s@, pat@, at as int),
{
    let n: usize = s.len();
    if pat.len() > n - at {
        return false;
    }
    let mut i: usize = 0;
    while i < pat.len()
        invariant
            i <= pat@.len(),
            n == s@.len(),
            at + pat@.len() <= n,
            s@.subrange(at as int, at + i) == pat@.take(i as int),
        decreases pat@.len() - i,
    {
        if s[at + i] != pat[i] {
            assert(s@.subrange(at as int, at + pat@.len())[i as int] == s@[at + i]);
            return false;
        }
        i += 1;
        assert(s@.subrange(at as int, at + i) =~= s@.subrange(at as int, at + i - 1).push(
            s@[at + i - 1],
        ));
        assert(pat@.take(i as int) =~= pat@.take(i - 1).push(pat@[i - 1]));
    }
    assert(pat@.take(i as int) =~= pat@);
    true
}

/// Replaces every occurrence of `pat`.
pub fn replace_chars(s: &[char], pat: &[char], with: &[char]) -> (r: Vec<char>)
    requires
        pat@.len() > 0,
    ensures
        r@ == replaced(s@, pat@, with@),
{
    let mut out: Vec<char> = Vec::new();
    let mut at: usize = 0;
    while at < s.len()
        invariant
            at <= s@.len(),
            pat@.len() > 0,
            replaced(s@, pat@, with@) == out@ + replaced_from(s@, pat@, with@, at as int),
        decreases s@.len() - at,
    {
        let ghost before = out@;
        let ghost rest = replaced_from(s@, pat@, with@, at as int);
        if occurs(s, pat, at) {
            push_chars(&mut out, with);
            at += pat.len();
            assert(before + rest =~= out@ + replaced_from(s@, pat@, with@, at as int));
        } else {
            out.push(s[at]);
            at += 1;
            assert(before + rest =~= out@ + replaced_from(s@, pat@, with@, at as int));
        }
    }
    assert(out@ + Seq::<char>::empty() =~= out@);
    out
}

// ---------------------------------------------------------------------------
// Digits
// ---------------------------------------------------------------------------

/// The character of a digit below ten.
pub open spec fn digit(n: nat) -> char {
    (('0' as nat) + n) as char
}

/// The decimal digits of a number, without leading zeros.
pub open spec fn decimal(n: nat) -> Seq<char>
    decreases n,
{
    if n < 10 {
        seq![digit(n)]
    } else {
        decimal(n / 10).push(digit(n % 10))
    }
}

/// `s` with zeros in front until it has at least `width` characters.
pub open spec fn zero_padded(s: Seq<char>, width: nat) -> Seq<char>
    decreases width - s.len(),
{
    if s.len() >= width {
        s
    } else {
        zero_padded(seq!['0'] + s, width)
    }
}

pub fn digit_char(n: u64) -> (r: char)
    requires
        n < 10,
    ensures
        r == digit(n as nat),
{
    (48u8 + n as u8) as char
}

/// The decimal digits of a number.
pub fn decimal_chars(n: u64) -> (r: Vec<char>)
    ensures
        r@ == decimal(n as nat),
    decreases n,
{
    if n < 10 {
        let mut out: Vec<char> = Vec::new();
        out.push(digit_char(n));
        assert(out@ =~= seq![digit(n as nat)]);
        out
    } else {
        let mut out = decimal_chars(n / 10);
        out.push(digit_char(n % 10));
        out
    }
}

/// The value of a hexadecimal digit, for either case.
pub open spec fn hex_value(c: char) -> Option<nat> {
    if is_ascii_digit(c) {
        Some((c as nat - '0' as nat) as nat)
    } else if 'a' <= c && c <= 'f' {
        Some((c as nat - 'a' as nat + 10) as nat)
    } else if 'A' <= c && c <= 'F' {
        Some((c as nat - 'A' as nat + 10) as nat)
    } else {
        None
    }
}

/// The lower-case hexadecimal digit of a number below sixteen.
pub open spec fn hex_digit(n: nat) -> char {
    if n < 10 {
        digit(n)
    } else {
        (('a' as nat) + n - 10) as char
    }
}

pub fn hex_value_of(c: char) -> (r: Option<u8>)
    ensures
        match r {
            Some(n) => hex_value(c) == Some(n as nat) && n < 16,
            None => hex_value(c) is None,
        },
{
    if '0' <= c && c <= '9' {
        Some(c as u8 - 48)
    } else if 'a' <= c && c <= 'f' {
        Some(c as u8 - 87)
    } else if 'A' <= c && c <= 'F' {
        Some(c as u8 - 55)
    } else {
        None
    }
}

pub fn hex_digit_char(n: u8) -> (r: char)
    requires
        n < 16,
    ensures
        r == hex_digit(n as nat),
{
    if n < 10 {
        (48u8 + n) as char
    } else {
        (87u8 + n) as char
    }
}

// ---------------------------------------------------------------------------
// Order
// ---------------------------------------------------------------------------

/// Lexicographic order of texts by code point.
pub open spec fn lex_le(a: Seq<char>, b: Seq<char>) -> bool
    decreases a.len(),
{
    if a.len() == 0 {
        true
    } else if b.len() == 0 {
        false
    } else if a[0] != b[0] {
        a[0] < b[0]
    } else {
        lex_le(a.subrange(1, a.len() as int), b.subrange(1, b.len() as int))
    }
}

/// Whether `a` comes before `b` or equals it.
pub fn text_le(a: &[char], b: &[char]) -> (r: bool)
    ensures
        r == lex_le(a@, b@),
{
    let mut i: usize = 0;
    assert(a@.subrange(0, a@.len() as int) =~= a@);
    assert(b@.subrange(0, b@.len() as int) =~= b@);
    while i < a.len() && i < b.len()
        invariant
            i <= a@.len(),
            i <= b@.len(),
            lex_le(a@, b@) == lex_le(
                a@.subrange(i as int, a@.len() as int),
                b@.subrange(i as int, b@.len() as int),
            ),
        decreases a@.len() - i,
    {
        let x: char = a[i];
        let y: char = b[i];
        if x != y {
            return x < y;
        }
        assert(a@.subrange(i as int, a@.len() as int).subrange(1, a@.len() - i) =~= a@.subrange(
            i + 1,
            a@.len() as int,
        ));
        assert(b@.subrange(i as int, b@.len() as int).subrange(1, b@.len() - i) =~= b@.subrange(
            i + 1,
            b@.len() as int,
        ));
        i += 1;
    }
    i == a.len()
}

/// The order of texts is total.
pub proof fn lemma_lex_total(a: Seq<char>, b: Seq<char>)
    ensures
        lex_le(a, b) || lex_le(b, a),
    decreases a.len(),
{
    if a.len() == 0 {
        assert(lex_le(a, b));
    } else if b.len() == 0 {
        assert(lex_le(b, a));
    } else if a[0] == b[0] {
        lemma_lex_total(a.subrange(1, a.len() as int), b.subrange(1, b.len() as int));
        assert(lex_le(b, a) == lex_le(
            b.subrange(1, b.len() as int),
            a.subrange(1, a.len() as int),
        ));
    } else {
        assert(lex_le(b, a) == (b[0] < a[0]));
    }
}

/// The order of texts is transitive.
pub proof fn lemma_lex_trans(a: Seq<char>, b: Seq<char>, c: Seq<char>)
    requires
        lex_le(a, b),
        lex_le(b, c),
    ensures
        lex_le(a, c),
    decreases a.len(),
{
    if a.len() > 0 && b.len() > 0 && c.len() > 0 && a[0] == b[0] && b[0] == c[0] {
        lemma_lex_trans(
            a.subrange(1, a.len() as int),
            b.subrange(1, b.len() as int),
            c.subrange(1, c.len() as int),
        );
    }
}

// ---------------------------------------------------------------------------
// Facts about trimming and splitting
// ---------------------------------------------------------------------------

proof fn lemma_trim_start(s: Seq<char>, class: CharClass) -> (from: int)
    ensures
        0 <= from <= s.len(),
        trim_start(s, class) == s.subrange(from, s.len() as int),
        from < s.len() ==> !class.has(s[from]),
        forall|k: int| 0 <= k < from ==> class.has(s[k]),
    decreases s.len(),
{
    if s.len() > 0 && class.has(s[0]) {
        let tail = s.subrange(1, s.len() as int);
        let n = lemma_trim_start(tail, class);
        assert(tail.subrange(n, tail.len() as int) =~= s.subrange(n + 1, s.len() as int));
        assert forall|k: int| 0 <= k < n + 1 implies class.has(s[k]) by {
            if k > 0 {
                assert(s[k] == tail[k - 1]);
            }
        }
        n + 1
    } else {
        assert(s.subrange(0, s.len() as int) =~= s);
        0
    }
}

proof fn lemma_trim_end(s: Seq<char>, class: CharClass) -> (to: int)
    ensures
        0 <= to <= s.len(),
        trim_end(s, class) == s.subrange(0, to),
        to > 0 ==> !class.has(s[to - 1]),
        forall|k: int| to <= k < s.len() ==> class.has(s[k]),
    decreases s.len(),
{
    if s.len() > 0 && class.has(s.last()) {
        let front = s.drop_last();
        let n = lemma_trim_end(front, class);
        assert(front.subrange(0, n) =~= s.subrange(0, n));
        assert forall|k: int| n <= k < s.len() implies class.has(s[k]) by {
            if k < s.len() - 1 {
                assert(s[k] == front[k]);
            }
        }
        n
    } else {
        assert(s.subrange(0, s.len() as int) =~= s);
        s.len() as int
    }
}

/// What trimming leaves: a stretch of the text that neither starts nor ends
/// with a character of the class, with only such characters around it.
pub proof fn lemma_trim(s: Seq<char>, class: CharClass) -> (range: (int, int))
    ensures
        0 <= range.0 <= range.1 <= s.len(),
        trim(s, class) == s.subrange(range.0, range.1),
        range.0 < range.1 ==> !class.has(s[range.0]) && !class.has(s[range.1 - 1]),
        forall|k: int| 0 <= k < range.0 ==> class.has(s[k]),
        range.0 < range.1 ==> (forall|k: int| range.1 <= k < s.len() ==> class.has(s[k])),
        range.0 == range.1 ==> (forall|k: int| 0 <= k < s.len() ==> class.has(s[k])),
{
    let from = lemma_trim_start(s, class);
    let mid = trim_start(s, class);
    let n = lemma_trim_end(mid, class);
    assert(mid.subrange(0, n) =~= s.subrange(from, from + n));
    if n > 0 {
        assert(mid[n - 1] == s[from + n - 1]);
    }
    assert forall|k: int| from + n <= k < s.len() implies class.has(s[k]) by {
        assert(mid[k - from] == s[k]);
    }
    (from, from + n)
}

/// A text whose ends are not of the class is not changed by trimming.
pub proof fn lemma_trim_unchanged(s: Seq<char>, class: CharClass)
    requires
        s.len() > 0 ==> !class.has(s[0]) && !class.has(s.last()),
    ensures
        trim(s, class) == s,
{
    let r = lemma_trim(s, class);
    if s.len() > 0 {
        assert(r.0 == 0);
        assert(r.1 == s.len());
    }
    assert(s.subrange(r.0, r.1) =~= s);
}

/// The pieces of a split hold no separator.
pub proof fn lemma_split_pieces(s: Seq<char>, class: CharClass)
    ensures
        split(s, class).len() >= 1,
        forall|i: int, k: int|
            #![trigger split(s, class)[i][k]]
            0 <= i < split(s, class).len() && 0 <= k < split(s, class)[i].len() ==> !class.has(
                split(s, class)[i][k],
            ),
    decreases s.len(),
{
    if s.len() > 0 {
        lemma_split_pieces(s.drop_last(), class);
    }
}

/// The lower and the upper case of a letter are each other's, the letters keep
/// their order, and other characters have no case.
pub proof fn law_letters_have_two_cases(c: char)
    ensures
        !is_ascii_upper(lower_char(c)),
        !is_ascii_lower(upper_char(c)),
        is_ascii_upper(c) ==> is_ascii_lower(lower_char(c)) && upper_char(lower_char(c)) == c,
        is_ascii_lower(c) ==> is_ascii_upper(upper_char(c)) && lower_char(upper_char(c)) == c,
        is_ascii_upper(c) ==> lower_char(c) as int - 'a' as int == c as int - 'A' as int,
        !is_ascii_upper(c) ==> lower_char(c) == c,
        !is_ascii_lower(c) ==> upper_char(c) == c,
        lower_char(lower_char(c)) == lower_char(c),
{
}

/// No character is of two of these: an upper-case letter, a lower-case one, a
/// digit, white space. There are 26 letters of either case and ten digits.
pub proof fn law_character_classes_are_apart(c: char)
    ensures
        is_ascii_upper(c) ==> !is_ascii_lower(c) && !is_ascii_digit(c),
        is_ascii_lower(c) ==> !is_ascii_digit(c),
        is_ascii_alnum(c) ==> !is_white(c) && !is_control(c),
        is_ascii_upper(c) <==> 0 <= c as int - 65 < 26,
        is_ascii_lower(c) <==> 0 <= c as int - 97 < 26,
        is_ascii_digit(c) <==> 0 <= c as int - 48 < 10,
        is_control(c) && c as int > 0x20 ==> 0x7f <= c as int <= 0x9f,
        c as int <= 0x1f ==> is_control(c),
        is_white(c) && (c as int) < 0x80 ==> c == ' ' || is_control(c),
        CharClass::Newline.has(c) ==> CharClass::Whitespace.has(c),
        CharClass::Whitespace.has(c) ==> CharClass::DotOrWhitespace.has(c),
        CharClass::DotOrWhitespace.has(c) && !CharClass::Whitespace.has(c) ==> c == '.',
        CharClass::Dash.has(c) || CharClass::Plus.has(c) || CharClass::Slash.has(c)
            ==> !is_ascii_alnum(c) && !is_white(c),
        CharClass::Slash.has('/') && CharClass::Slash.has('\\') && CharClass::Dash.has('-')
            && CharClass::Plus.has('+') && CharClass::Newline.has('\n'),
{
}

proof fn lemma_trim_start_ends(s: Seq<char>, class: CharClass)
    ensures
        trim_start(s, class).len() > 0 ==> !class.has(trim_start(s, class)[0]),
        trim_start(s, class).len() <= s.len(),
        trim_start(s, class) == s.skip(s.len() - trim_start(s, class).len()),
    decreases s.len(),
{
    if s.len() > 0 && class.has(s[0]) {
        let t = s.subrange(1, s.len() as int);
        lemma_trim_start_ends(t, class);
        assert(t.skip(t.len() - trim_start(t, class).len()) =~= s.skip(
            s.len() - trim_start(t, class).len(),
        ));
    } else {
        assert(s.skip(0) =~= s);
    }
}

proof fn lemma_trim_end_ends(s: Seq<char>, class: CharClass)
    ensures
        trim_end(s, class).len() > 0 ==> !class.has(trim_end(s, class).last()),
        trim_end(s, class).len() <= s.len(),
        trim_end(s, class) == s.take(trim_end(s, class).len() as int),
    decreases s.len(),
{
    if s.len() > 0 && class.has(s.last()) {
        lemma_trim_end_ends(s.drop_last(), class);
        let n = trim_end(s, class).len() as int;
        assert(s.drop_last().take(n) =~= s.take(n));
    } else {
        assert(s.take(s.len() as int) =~= s);
    }
}

proof fn lemma_trim_start_push(s: Seq<char>, c: char, class: CharClass)
    requires
        class.has(c),
    ensures
        trim_start(s.push(c), class) == trim_start(s, class).push(c) || (trim_start(
            s.push(c),
            class,
        ).len() == 0 && trim_start(s, class).len() == 0),
    decreases s.len(),
{
    let u = s.push(c);
    if s.len() == 0 {
        assert(u.subrange(1, 1) =~= Seq::<char>::empty());
        assert(u[0] == c && class.has(u[0]));
        assert(trim_start(u.subrange(1, 1), class).len() == 0);
        assert(trim_start(u, class) == trim_start(u.subrange(1, 1), class));
    } else if class.has(s[0]) {
        let t = s.subrange(1, s.len() as int);
        lemma_trim_start_push(t, c, class);
        assert(u.subrange(1, s.len() as int + 1) =~= t.push(c));
        assert(u[0] == s[0]);
        assert(trim_start(u, class) == trim_start(t.push(c), class));
        assert(trim_start(s, class) == trim_start(t, class));
    } else {
        assert(u[0] == s[0]);
    }
}

proof fn lemma_trim_front(s: Seq<char>, c: char, class: CharClass)
    requires
        class.has(c),
    ensures
        trim(seq![c] + s, class) == trim(s, class),
{
    let u = seq![c] + s;
    assert(u[0] == c);
    assert(u.subrange(1, u.len() as int) =~= s);
}

proof fn lemma_trim_back(s: Seq<char>, c: char, class: CharClass)
    requires
        class.has(c),
    ensures
        trim(s.push(c), class) == trim(s, class),
{
    lemma_trim_start_push(s, c, class);
    let t = trim_start(s, class);
    if trim_start(s.push(c), class) == t.push(c) {
        assert(t.push(c).last() == c);
        assert(t.push(c).drop_last() =~= t);
    } else {
        assert(trim_start(s.push(c), class) =~= t);
    }
}

proof fn lemma_trim_clean_ends(s: Seq<char>, class: CharClass)
    ensures
        trim(s, class).len() > 0 ==> !class.has(trim(s, class)[0]) && !class.has(
            trim(s, class).last(),
        ),
{
    let t = trim_start(s, class);
    lemma_trim_start_ends(s, class);
    lemma_trim_end_ends(t, class);
    let r = trim_end(t, class);
    if r.len() > 0 {
        assert(r[0] == t.take(r.len() as int)[0]);
    }
}

/// Trimming takes away every character of the class at both ends and nothing
/// else: one more of them at either end makes no difference, and a text that
/// has none there stays as it is.
pub proof fn law_trimming_takes_both_ends(s: Seq<char>, c: char, class: CharClass)
    ensures
        class.has(c) ==> trim(seq![c] + s, class) == trim(s, class),
        class.has(c) ==> trim(s.push(c), class) == trim(s, class),
        s.len() > 0 && !class.has(s[0]) && !class.has(s.last()) ==> trim(s, class) == s,
        trim(s, class).len() > 0 ==> !class.has(trim(s, class)[0]) && !class.has(
            trim(s, class).last(),
        ),
        trim(Seq::empty(), class).len() == 0,
{
    if class.has(c) {
        lemma_trim_front(s, c, class);
        lemma_trim_back(s, c, class);
    }
    lemma_trim_clean_ends(s, class);
}

proof fn lemma_split_parts(s: Seq<char>, class: CharClass)
    ensures
        split(s, class).len() > 0,
    decreases s.len(),
{
    if s.len() > 0 {
        lemma_split_parts(s.drop_last(), class);
    }
}

proof fn lemma_split_at(a: Seq<char>, c: char, b: Seq<char>, class: CharClass)
    requires
        class.has(c),
    ensures
        split(a + seq![c] + b, class) == split(a, class) + split(b, class),
    decreases b.len(),
{
    let s = a + seq![c] + b;
    lemma_split_parts(b, class);
    if b.len() == 0 {
        assert(s.drop_last() =~= a);
        assert(s.last() == c);
        assert(split(s, class) =~= split(a, class) + split(b, class));
    } else {
        assert(s.drop_last() =~= a + seq![c] + b.drop_last());
        assert(s.last() == b.last());
        lemma_split_at(a, c, b.drop_last(), class);
        lemma_split_parts(b.drop_last(), class);
        assert(split(s, class) =~= split(a, class) + split(b, class));
    }
}

proof fn lemma_split_one(s: Seq<char>, class: CharClass)
    requires
        forall|i: int| 0 <= i < s.len() ==> !class.has(#[trigger] s[i]),
    ensures
        split(s, class) == seq![s],
    decreases s.len(),
{
    if s.len() > 0 {
        assert(!class.has(s[s.len() - 1]));
        assert forall|i: int| 0 <= i < s.drop_last().len() implies !class.has(
            #[trigger] s.drop_last()[i],
        ) by {
            assert(s.drop_last()[i] == s[i]);
        }
        lemma_split_one(s.drop_last(), class);
        let head = split(s.drop_last(), class);
        assert(head.last().push(s.last()) =~= s);
        assert(split(s, class) =~= seq![s]);
    } else {
        assert(s =~= Seq::<char>::empty());
    }
}

/// A text is split at every character of the class: the parts before and after
/// one are split on their own, and a text without any is one part.
pub proof fn law_texts_are_split_at_each(a: Seq<char>, c: char, b: Seq<char>, class: CharClass)
    ensures
        class.has(c) ==> split(a + seq![c] + b, class) == split(a, class) + split(b, class),
        (forall|i: int| 0 <= i < a.len() ==> !class.has(#[trigger] a[i])) ==> split(a, class)
            == seq![a],
{
    if class.has(c) {
        lemma_split_at(a, c, b, class);
    }
    if forall|i: int| 0 <= i < a.len() ==> !class.has(#[trigger] a[i]) {
        lemma_split_one(a, class);
    }
}

proof fn lemma_replaced_from(s: Seq<char>, pat: Seq<char>, with: Seq<char>, at: int)
    requires
        0 <= at <= s.len(),
        pat.len() > 0,
    ensures
        replaced_from(s, pat, with, at) == replaced(s.skip(at), pat, with),
    decreases s.len() - at,
{
    let t = s.skip(at);
    if at < s.len() {
        assert(occurs_at(s, pat, at) == occurs_at(t, pat, 0)) by {
            if at + pat.len() <= s.len() {
                assert(s.subrange(at, at + pat.len()) =~= t.subrange(0, pat.len() as int));
            }
        }
        if occurs_at(s, pat, at) {
            lemma_replaced_from(s, pat, with, at + pat.len());
            lemma_replaced_from(t, pat, with, pat.len() as int);
            assert(t.skip(pat.len() as int) =~= s.skip(at + pat.len()));
        } else {
            lemma_replaced_from(s, pat, with, at + 1);
            lemma_replaced_from(t, pat, with, 1);
            assert(t.skip(1) =~= s.skip(at + 1));
            assert(t[0] == s[at]);
        }
    }
}

/// Replacing goes from the left: where the text begins with the pattern, that
/// becomes the other text; else its first character stays; and then the rest is
/// treated alike.
pub proof fn law_replacing_goes_from_the_left(
    rest: Seq<char>,
    c: char,
    pat: Seq<char>,
    with: Seq<char>,
)
    requires
        pat.len() > 0,
    ensures
        replaced(pat + rest, pat, with) == with + replaced(rest, pat, with),
        !pat.is_prefix_of(seq![c] + rest) ==> replaced(seq![c] + rest, pat, with) == seq![c]
            + replaced(rest, pat, with),
        replaced(Seq::empty(), pat, with).len() == 0,
        replaced(pat, pat, with) == with,
{
    let s = pat + rest;
    assert(s.subrange(0, pat.len() as int) =~= pat);
    assert(occurs_at(s, pat, 0));
    lemma_replaced_from(s, pat, with, pat.len() as int);
    assert(s.skip(pat.len() as int) =~= rest);
    let u = seq![c] + rest;
    if !pat.is_prefix_of(u) {
        if occurs_at(u, pat, 0) {
            assert(u.subrange(0, pat.len() as int) =~= u.take(pat.len() as int));
        }
        lemma_replaced_from(u, pat, with, 1);
        assert(u.skip(1) =~= rest);
    }
    assert(pat.subrange(0, pat.len() as int) =~= pat);
    assert(with + replaced_from(pat, pat, with, pat.len() as int) =~= with);
}

/// The number that a row of decimal digits stands for.
pub open spec fn number_of(s: Seq<char>) -> int
    decreases s.len(),
{
    if s.len() == 0 {
        0
    } else {
        10 * number_of(s.drop_last()) + (s.last() as int - '0' as int)
    }
}

/// A number is written in decimal digits that stand for it, without a zero in
/// front.
pub proof fn law_decimals_read_back(n: nat)
    ensures
        number_of(decimal(n)) == n,
        decimal(n).len() > 0,
        n > 0 ==> decimal(n)[0] != '0',
        forall|i: int| 0 <= i < decimal(n).len() ==> is_ascii_digit(#[trigger] decimal(n)[i]),
    decreases n,
{
    if n < 10 {
        reveal_with_fuel(number_of, 2);
        assert(decimal(n).drop_last() =~= Seq::<char>::empty());
    } else {
        law_decimals_read_back(n / 10);
        assert(decimal(n).drop_last() =~= decimal(n / 10));
    }
}

/// Padding puts zeros in front until the width is reached; a text that is long
/// enough stays as it is.
pub proof fn law_padding_adds_zeros(s: Seq<char>, width: nat)
    ensures
        s.len() >= width ==> zero_padded(s, width) == s,
        s.len() < width ==> zero_padded(s, width).len() == width,
        zero_padded(s, width).skip(zero_padded(s, width).len() - s.len()) == s,
        forall|i: int|
            0 <= i < zero_padded(s, width).len() - s.len() ==> #[trigger] zero_padded(s, width)[i]
                == '0',
    decreases width - s.len(),
{
    if s.len() < width {
        let t = seq!['0'] + s;
        law_padding_adds_zeros(t, width);
        let p = zero_padded(s, width);
        assert(p.skip(p.len() - t.len()) == t);
        assert(p.skip(p.len() - s.len()) =~= t.skip(1));
        assert(t.skip(1) =~= s);
        assert forall|i: int| 0 <= i < p.len() - s.len() implies #[trigger] p[i] == '0' by {
            if i == p.len() - t.len() {
                assert(p[i] == p.skip(p.len() - t.len())[0]);
            }
        }
    } else {
        assert(s.skip(0) =~= s);
    }
}

/// The sixteen hexadecimal digits stand for their numbers, in either case; no
/// other character is one.
pub proof fn law_hex_digits_read_back(n: nat, c: char)
    ensures
        n < 16 ==> hex_value(hex_digit(n)) == Some(n),
        n < 16 ==> !is_ascii_upper(hex_digit(n)),
        hex_value(c) matches Some(v) ==> v < 16 && (hex_digit(v) == c || hex_digit(v) == lower_char(
            c,
        )),
        hex_value(lower_char(c)) == hex_value(c),
        hex_value(upper_char(c)) == hex_value(c),
{
}

proof fn lemma_lex_prefix(p: Seq<char>, x: Seq<char>, y: Seq<char>)
    ensures
        lex_le(p + x, p + y) == lex_le(x, y),
    decreases p.len(),
{
    if p.len() == 0 {
        assert(p + x =~= x);
        assert(p + y =~= y);
    } else {
        let q = p.subrange(1, p.len() as int);
        lemma_lex_prefix(q, x, y);
        assert((p + x).subrange(1, (p + x).len() as int) =~= q + x);
        assert((p + y).subrange(1, (p + y).len() as int) =~= q + y);
        assert((p + x)[0] == p[0] && (p + y)[0] == p[0]);
    }
}

/// Texts are ordered as in a dictionary: the first character in which they
/// differ decides, and a text comes before those that begin with it.
pub proof fn law_texts_are_ordered(
    p: Seq<char>,
    a: char,
    x: Seq<char>,
    b: char,
    y: Seq<char>,
)
    ensures
        a != b ==> (lex_le(p + (seq![a] + x), p + (seq![b] + y)) <==> (a as int) < (b as int)),
        lex_le(p, p + x),
        x.len() > 0 ==> !lex_le(p + x, p),
        lex_le(p, p),
{
    lemma_lex_prefix(p, seq![a] + x, seq![b] + y);
    lemma_lex_prefix(p, Seq::empty(), x);
    lemma_lex_prefix(p, x, Seq::empty());
    lemma_lex_prefix(p, Seq::empty(), Seq::empty());
    assert(p + Seq::<char>::empty() =~= p);
    assert((seq![a] + x)[0] == a && (seq![b] + y)[0] == b);
}

/// A text occurs where it was put, at the very end too, and nowhere that it does
/// not fit.
pub proof fn law_texts_occur_where_they_were_put(a: Seq<char>, pat: Seq<char>, b: Seq<char>, at: int)
    ensures
        occurs_at(a + pat + b, pat, a.len() as int),
        at < 0 || at + pat.len() > a.len() ==> !occurs_at(a, pat, at),
        occurs_at(a, pat, at) ==> a == a.take(at) + pat + a.skip(at + pat.len()),
{
    let s = a + pat + b;
    assert(s.subrange(a.len() as int, a.len() as int + pat.len()) =~= pat);
    if occurs_at(a, pat, at) {
        assert forall|i: int| 0 <= i < pat.len() implies a[at + i] == #[trigger] pat[i] by {
            assert(a.subrange(at, at + pat.len())[i] == a[at + i]);
        }
        assert(a =~= a.take(at) + pat + a.skip(at + pat.len()));
    }
}

} // verus!
