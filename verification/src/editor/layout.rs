//! Line breaking of text boxes.
//!
//! Widths depend on the font, so they are asked for: `fits` answers whether a
//! word still fits behind the current line, `prefix` how many characters of an
//! over-long word fit on a line of their own. Both are told the marker of the
//! paragraph, whose width is reserved in front of every line.
use vstd::prelude::*;
use vstd::slice::slice_subrange;
use crate::editor::document::TextListStyle;
use crate::text::{
    char_is_white, decimal_chars, push_chars, push_text, slice_chars, split_chars, to_chars,
    CharClass,
};

verus! {

// ---------------------------------------------------------------------------
// Words
// ---------------------------------------------------------------------------

/// The first position from `i` on that does not hold white space.
pub open spec fn after_white(s: Seq<char>, i: int) -> int
    decreases s.len() - i,
{
    if 0 <= i < s.len() && crate::text::is_white(s[i]) {
        after_white(s, i + 1)
    } else {
        i
    }
}

/// The first position from `i` on that holds white space, or the end.
pub open spec fn after_word(s: Seq<char>, i: int) -> int
    decreases s.len() - i,
{
    if 0 <= i < s.len() && !crate::text::is_white(s[i]) {
        after_word(s, i + 1)
    } else {
        i
    }
}

/// What the two scans find.
pub proof fn lemma_after(s: Seq<char>, i: int)
    requires
        0 <= i <= s.len(),
    ensures
        i <= after_white(s, i) <= s.len(),
        i <= after_word(s, i) <= s.len(),
        after_white(s, i) < s.len() ==> !crate::text::is_white(s[after_white(s, i)]),
        after_word(s, i) < s.len() ==> crate::text::is_white(s[after_word(s, i)]),
        forall|k: int| i <= k < after_white(s, i) ==> crate::text::is_white(s[k]),
        forall|k: int| i <= k < after_word(s, i) ==> !crate::text::is_white(s[k]),
    decreases s.len() - i,
{
    if i < s.len() {
        lemma_after(s, i + 1);
    }
}

fn skip_white(s: &[char], i: usize) -> (r: usize)
    requires
        i <= s@.len(),
    ensures
        r == after_white(s@, i as int),
        i <= r <= s@.len(),
{
    let mut k: usize = i;
    while k < s.len() && char_is_white(s[k])
        invariant
            i <= k <= s@.len(),
            after_white(s@, i as int) == after_white(s@, k as int),
        decreases s@.len() - k,
    {
        k += 1;
    }
    k
}

fn skip_word(s: &[char], i: usize) -> (r: usize)
    requires
        i <= s@.len(),
    ensures
        r == after_word(s@, i as int),
        i <= r <= s@.len(),
{
    let mut k: usize = i;
    while k < s.len() && !char_is_white(s[k])
        invariant
            i <= k <= s@.len(),
            after_word(s@, i as int) == after_word(s@, k as int),
        decreases s@.len() - k,
    {
        k += 1;
    }
    k
}

// ---------------------------------------------------------------------------
// Wrapping
// ---------------------------------------------------------------------------

/// Whether `fits` may give this answer about a word behind the current line.
pub open spec fn may_fit<F: Fn(&[char], &[char], &[char]) -> bool>(
    fits: F,
    marker: Seq<char>,
    current: Seq<char>,
    word: Seq<char>,
    answer: bool,
) -> bool {
    exists|m: &[char], c: &[char], w: &[char]|
        m@ == marker && c@ == current && w@ == word && #[trigger] call_ensures(
            fits,
            (m, c, w),
            answer,
        )
}

/// Whether `prefix` may give this answer about an over-long word.
pub open spec fn may_break<P: Fn(&[char], &[char]) -> usize>(
    prefix: P,
    marker: Seq<char>,
    word: Seq<char>,
    answer: usize,
) -> bool {
    exists|m: &[char], w: &[char]|
        m@ == marker && w@ == word && #[trigger] call_ensures(prefix, (m, w), answer)
}

/// How many characters of a word are broken off: at least one, at most all.
pub open spec fn broken_off(answer: usize, len: nat) -> int {
    if answer < 1 {
        1
    } else if answer > len {
        len as int
    } else {
        answer as int
    }
}

/// Whether `lines` is the greedy wrapping of the paragraph `s` from a state in
/// which `s[line..pos]` is the current line and `s[pos..]` is still to come.
/// A word that fits goes on the current line with the white space behind it; a
/// word that does not fit starts a new line; a word that does not fit on an
/// empty line is broken. Lines lose the white space at their end, and white
/// space before the first word of a line is dropped.
pub open spec fn is_wrapping<
    F: Fn(&[char], &[char], &[char]) -> bool,
    P: Fn(&[char], &[char]) -> usize,
>(
    s: Seq<char>,
    marker: Seq<char>,
    fits: F,
    prefix: P,
    line: int,
    pos: int,
    lines: Seq<Seq<char>>,
) -> bool
    decreases s.len() - pos, pos - line, 1nat,
    when 0 <= line <= pos <= s.len()
{
    proof {
        lemma_after(s, pos);
    }
    let start = if line == pos {
        after_white(s, pos)
    } else {
        pos
    };
    if start < s.len() {
        is_wrapping_at_word(s, marker, fits, prefix, line, pos, start, lines)
    } else if line == pos {
        lines.len() == 0
    } else {
        lines == seq![crate::text::trim_end(s.subrange(line, pos), CharClass::Whitespace)]
    }
}

/// The wrapping from a state in which the next word begins at `start`.
pub open spec fn is_wrapping_at_word<
    F: Fn(&[char], &[char], &[char]) -> bool,
    P: Fn(&[char], &[char]) -> usize,
>(
    s: Seq<char>,
    marker: Seq<char>,
    fits: F,
    prefix: P,
    line: int,
    pos: int,
    start: int,
    lines: Seq<Seq<char>>,
) -> bool
    decreases s.len() - pos, pos - line, 0nat,
    when 0 <= line <= pos <= start < s.len()
{
    proof {
        lemma_after(s, start);
        lemma_after(s, after_word(s, start));
    }
    let end = after_word(s, start);
    let word = s.subrange(start, end);
    let current = s.subrange(line, pos);
    ||| {
        &&& may_fit(fits, marker, current, word, true)
        &&& line == pos
        &&& is_wrapping(s, marker, fits, prefix, start, after_white(s, end), lines)
    }
    ||| {
        &&& may_fit(fits, marker, current, word, true)
        &&& line < pos
        &&& is_wrapping(s, marker, fits, prefix, line, after_white(s, end), lines)
    }
    ||| {
        &&& may_fit(fits, marker, current, word, false)
        &&& line < pos
        &&& lines.len() > 0
        &&& lines[0] == crate::text::trim_end(current, CharClass::Whitespace)
        &&& is_wrapping(s, marker, fits, prefix, pos, pos, lines.skip(1))
    }
    ||| {
        &&& may_fit(fits, marker, current, word, false)
        &&& line == pos
        &&& word.len() > 0
        &&& lines.len() > 0
        &&& exists|n: usize| #[trigger]
            may_break(prefix, marker, word, n) && lines[0] == s.subrange(
                start,
                start + broken_off(n, word.len()),
            ) && is_wrapping(
                s,
                marker,
                fits,
                prefix,
                start + broken_off(n, word.len()),
                start + broken_off(n, word.len()),
                lines.skip(1),
            )
    }
}

/// Wraps one paragraph.
pub fn wrap_paragraph<
    F: Fn(&[char], &[char], &[char]) -> bool,
    P: Fn(&[char], &[char]) -> usize,
>(s: &[char], marker: &[char], fits: &F, prefix: &P) -> (r: Vec<Vec<char>>)
    requires
        forall|m: &[char], c: &[char], w: &[char]| call_requires(*fits, (m, c, w)),
        forall|m: &[char], w: &[char]| call_requires(*prefix, (m, w)),
    ensures
        is_wrapping(s@, marker@, *fits, *prefix, 0, 0, crate::text::texts(r@)),
{
    let mut out: Vec<Vec<char>> = Vec::new();
    let mut line: usize = 0;
    let mut pos: usize = 0;
    let n: usize = s.len();
    proof {
        assert forall|rest: Seq<Seq<char>>|
            is_wrapping(s@, marker@, *fits, *prefix, 0, 0, rest) implies is_wrapping(
            s@,
            marker@,
            *fits,
            *prefix,
            0,
            0,
            crate::text::texts(out@) + rest,
        ) by {
            assert(crate::text::texts(out@) + rest =~= rest);
        }
    }
    loop
        invariant_except_break
            forall|rest: Seq<Seq<char>>| #[trigger]
                is_wrapping(s@, marker@, *fits, *prefix, line as int, pos as int, rest)
                    ==> is_wrapping(
                    s@,
                    marker@,
                    *fits,
                    *prefix,
                    0,
                    0,
                    crate::text::texts(out@) + rest,
                ),
        invariant
            n == s@.len(),
            line <= pos <= n,
            forall|m: &[char], c: &[char], w: &[char]| call_requires(*fits, (m, c, w)),
            forall|m: &[char], w: &[char]| call_requires(*prefix, (m, w)),
        ensures
            is_wrapping(s@, marker@, *fits, *prefix, 0, 0, crate::text::texts(out@)),
        decreases n - pos, pos - line,
    {
        let ghost done = crate::text::texts(out@);
        let ghost line0 = line as int;
        let ghost pos0 = pos as int;
        let start: usize = if line == pos {
            skip_white(s, pos)
        } else {
            pos
        };
        proof {
            lemma_after(s@, pos0);
            lemma_after(s@, start as int);
        }
        if start >= n {
            if line < pos {
                let last = trim_line(s, line, pos);
                let ghost text = last@;
                out.push(last);
                proof {
                    let rest = seq![text];
                    assert(is_wrapping(s@, marker@, *fits, *prefix, line0, pos0, rest));
                    assert(crate::text::texts(out@) =~= done + rest);
                }
            } else {
                proof {
                    let rest = Seq::<Seq<char>>::empty();
                    assert(is_wrapping(s@, marker@, *fits, *prefix, line0, pos0, rest));
                    assert(crate::text::texts(out@) =~= done + rest);
                }
            }
            break;
        }
        let end: usize = skip_word(s, start);
        let word = slice_subrange(s, start, end);
        let current = slice_subrange(s, line, pos);
        proof {
            lemma_after(s@, end as int);
        }
        let ok: bool = fits(marker, current, word);
        assert(may_fit(*fits, marker@, current@, word@, ok));
        if ok {
            if line == pos {
                line = start;
            }
            pos = skip_white(s, end);
            proof {
                assert forall|rest: Seq<Seq<char>>| #[trigger]
                    is_wrapping(
                        s@,
                        marker@,
                        *fits,
                        *prefix,
                        line as int,
                        pos as int,
                        rest,
                    ) implies is_wrapping(s@, marker@, *fits, *prefix, 0, 0, done + rest) by {
                    assert(is_wrapping(s@, marker@, *fits, *prefix, line0, pos0, rest));
                }
            }
        } else if line < pos {
            let full = trim_line(s, line, pos);
            let ghost text = full@;
            out.push(full);
            line = pos;
            proof {
                assert(crate::text::texts(out@) =~= done.push(text));
                assert forall|rest: Seq<Seq<char>>| #[trigger]
                    is_wrapping(
                        s@,
                        marker@,
                        *fits,
                        *prefix,
                        line as int,
                        pos as int,
                        rest,
                    ) implies is_wrapping(
                    s@,
                    marker@,
                    *fits,
                    *prefix,
                    0,
                    0,
                    crate::text::texts(out@) + rest,
                ) by {
                    let more = seq![text] + rest;
                    assert(more.skip(1) =~= rest);
                    assert(is_wrapping(s@, marker@, *fits, *prefix, line0, pos0, more));
                    assert(done + more =~= crate::text::texts(out@) + rest);
                }
            }
        } else {
            let answer: usize = prefix(marker, word);
            assert(may_break(*prefix, marker@, word@, answer));
            let len: usize = end - start;
            let used: usize = if answer < 1 {
                1
            } else if answer > len {
                len
            } else {
                answer
            };
            let piece = slice_chars(s, start, start + used);
            let ghost text = piece@;
            out.push(piece);
            line = start + used;
            pos = start + used;
            proof {
                assert(used == broken_off(answer, word@.len()));
                assert(crate::text::texts(out@) =~= done.push(text));
                assert forall|rest: Seq<Seq<char>>| #[trigger]
                    is_wrapping(
                        s@,
                        marker@,
                        *fits,
                        *prefix,
                        line as int,
                        pos as int,
                        rest,
                    ) implies is_wrapping(
                    s@,
                    marker@,
                    *fits,
                    *prefix,
                    0,
                    0,
                    crate::text::texts(out@) + rest,
                ) by {
                    let more = seq![text] + rest;
                    assert(more.skip(1) =~= rest);
                    assert(more[0] == text);
                    assert(text == s@.subrange(
                        start as int,
                        start + broken_off(answer, word@.len()),
                    ));
                    let w = s@.subrange(start as int, end as int);
                    assert(word@ == w && line0 == pos0);
                    assert(start == after_white(s@, pos0) && end == after_word(
                        s@,
                        start as int,
                    ));
                    assert(may_break(*prefix, marker@, w, answer));
                    assert(is_wrapping(
                        s@,
                        marker@,
                        *fits,
                        *prefix,
                        start + broken_off(answer, w.len()),
                        start + broken_off(answer, w.len()),
                        more.skip(1),
                    ));
                    assert(is_wrapping(s@, marker@, *fits, *prefix, line0, pos0, more));
                    assert(done + more =~= crate::text::texts(out@) + rest);
                }
            }
        }
    }
    out
}

/// A stretch of the text without the white space at its end.
fn trim_line(s: &[char], from: usize, to: usize) -> (r: Vec<char>)
    requires
        from <= to <= s@.len(),
    ensures
        r@ == crate::text::trim_end(
            s@.subrange(from as int, to as int),
            CharClass::Whitespace,
        ),
{
    let mut end: usize = to;
    while end > from && char_is_white(s[end - 1])
        invariant
            from <= end <= to <= s@.len(),
            crate::text::trim_end(s@.subrange(from as int, to as int), CharClass::Whitespace)
                == crate::text::trim_end(
                s@.subrange(from as int, end as int),
                CharClass::Whitespace,
            ),
        decreases end,
    {
        assert(s@.subrange(from as int, end as int).drop_last() =~= s@.subrange(
            from as int,
            end - 1,
        ));
        end -= 1;
    }
    slice_chars(s, from, end)
}

// ---------------------------------------------------------------------------
// Paragraphs and markers
// ---------------------------------------------------------------------------

/// The marker in front of the `number`th non-empty paragraph.
pub open spec fn marker_of(list: TextListStyle, number: nat) -> Seq<char> {
    match list {
        TextListStyle::Plain => Seq::empty(),
        TextListStyle::Bullet => "\u{2022} "@,
        TextListStyle::Numbered => crate::text::decimal(number) + ". "@,
    }
}

/// How many of the paragraphs are not empty.
pub open spec fn non_empty(paragraphs: Seq<Seq<char>>) -> nat
    decreases paragraphs.len(),
{
    if paragraphs.len() == 0 {
        0
    } else {
        non_empty(paragraphs.drop_last()) + if paragraphs.last().len() > 0 {
            1nat
        } else {
            0nat
        }
    }
}

proof fn lemma_non_empty_bound(paragraphs: Seq<Seq<char>>)
    ensures
        non_empty(paragraphs) <= paragraphs.len(),
    decreases paragraphs.len(),
{
    if paragraphs.len() > 0 {
        lemma_non_empty_bound(paragraphs.drop_last());
    }
}

fn marker_chars(list: TextListStyle, number: u64) -> (r: Vec<char>)
    ensures
        r@ == marker_of(list, number as nat),
{
    match list {
        TextListStyle::Plain => Vec::new(),
        TextListStyle::Bullet => to_chars("\u{2022} "),
        TextListStyle::Numbered => {
            let mut out = decimal_chars(number);
            push_text(&mut out, ". ");
            out
        },
    }
}

/// The lines of one paragraph. An empty paragraph is `blank`: it takes up one
/// line and has no marker. A paragraph of white space only has no lines.
#[derive(Debug)]
pub struct ParagraphLayout {
    pub blank: bool,
    /// Drawn in front of the first line; its width is reserved on every line.
    pub marker: Vec<char>,
    pub lines: Vec<Vec<char>>,
}

/// Whether `p` is the layout of the paragraph at position `i`.
pub open spec fn is_paragraph_layout<
    F: Fn(&[char], &[char], &[char]) -> bool,
    P: Fn(&[char], &[char]) -> usize,
>(
    paragraphs: Seq<Seq<char>>,
    i: int,
    list: TextListStyle,
    fits: F,
    prefix: P,
    p: ParagraphLayout,
) -> bool {
    if paragraphs[i].len() == 0 {
        p.blank && p.marker@.len() == 0 && p.lines@.len() == 0
    } else {
        &&& !p.blank
        &&& p.marker@ == marker_of(list, non_empty(paragraphs.take(i + 1)))
        &&& is_wrapping(
            paragraphs[i],
            p.marker@,
            fits,
            prefix,
            0,
            0,
            crate::text::texts(p.lines@),
        )
    }
}

/// Lays out a text box: paragraphs end at line feeds, each non-empty one gets
/// its list marker, and each is wrapped on its own.
pub fn layout_text<
    F: Fn(&[char], &[char], &[char]) -> bool,
    P: Fn(&[char], &[char]) -> usize,
>(text: &str, list: TextListStyle, fits: &F, prefix: &P) -> (r: Vec<ParagraphLayout>)
    requires
        forall|m: &[char], c: &[char], w: &[char]| call_requires(*fits, (m, c, w)),
        forall|m: &[char], w: &[char]| call_requires(*prefix, (m, w)),
    ensures
        r@.len() == crate::text::split(text@, CharClass::Newline).len(),
        forall|i: int|
            0 <= i < r@.len() ==> is_paragraph_layout(
                crate::text::split(text@, CharClass::Newline),
                i,
                list,
                *fits,
                *prefix,
                #[trigger] r@[i],
            ),
{
    let chars = to_chars(text);
    let paragraphs = split_chars(chars.as_slice(), CharClass::Newline);
    let ghost all = crate::text::texts(paragraphs@);
    let mut out: Vec<ParagraphLayout> = Vec::new();
    let mut number: u64 = 0;
    let mut i: usize = 0;
    assert(all.take(0) =~= Seq::empty());
    while i < paragraphs.len()
        invariant
            i <= paragraphs@.len(),
            all == crate::text::texts(paragraphs@),
            out@.len() == i,
            number == non_empty(all.take(i as int)),
            forall|m: &[char], c: &[char], w: &[char]| call_requires(*fits, (m, c, w)),
            forall|m: &[char], w: &[char]| call_requires(*prefix, (m, w)),
            forall|k: int|
                0 <= k < out@.len() ==> is_paragraph_layout(
                    all,
                    k,
                    list,
                    *fits,
                    *prefix,
                    #[trigger] out@[k],
                ),
        decreases paragraphs@.len() - i,
    {
        let p = paragraphs[i].as_slice();
        proof {
            assert(all.take(i + 1).drop_last() =~= all.take(i as int));
            assert(all[i as int] == p@);
            lemma_non_empty_bound(all.take(i as int));
        }
        if p.len() == 0 {
            out.push(
                ParagraphLayout { blank: true, marker: Vec::new(), lines: Vec::new() },
            );
        } else {
            number += 1;
            let marker = marker_chars(list, number);
            let lines = wrap_paragraph(p, marker.as_slice(), fits, prefix);
            out.push(ParagraphLayout { blank: false, marker, lines });
        }
        i += 1;
    }
    out
}

/// The text of one line of a plain rendering: the paragraph behind its marker.
pub open spec fn composed(paragraphs: Seq<Seq<char>>, i: int, list: TextListStyle) -> Seq<char> {
    if paragraphs[i].len() == 0 {
        Seq::empty()
    } else {
        marker_of(list, non_empty(paragraphs.take(i + 1))) + paragraphs[i]
    }
}

/// The lines of a text with list markers and without wrapping.
pub fn compose_text_lines(text: &str, list: TextListStyle) -> (r: Vec<String>)
    ensures
        r@.len() == crate::text::split(text@, CharClass::Newline).len(),
        forall|i: int|
            0 <= i < r@.len() ==> (#[trigger] r@[i])@ == composed(
                crate::text::split(text@, CharClass::Newline),
                i,
                list,
            ),
{
    let chars = to_chars(text);
    let paragraphs = split_chars(chars.as_slice(), CharClass::Newline);
    let ghost all = crate::text::texts(paragraphs@);
    let mut out: Vec<String> = Vec::new();
    let mut number: u64 = 0;
    let mut i: usize = 0;
    assert(all.take(0) =~= Seq::empty());
    while i < paragraphs.len()
        invariant
            i <= paragraphs@.len(),
            all == crate::text::texts(paragraphs@),
            out@.len() == i,
            number == non_empty(all.take(i as int)),
            forall|k: int|
                0 <= k < out@.len() ==> (#[trigger] out@[k])@ == composed(all, k, list),
        decreases paragraphs@.len() - i,
    {
        let p = paragraphs[i].as_slice();
        proof {
            assert(all.take(i + 1).drop_last() =~= all.take(i as int));
            assert(all[i as int] == p@);
            lemma_non_empty_bound(all.take(i as int));
        }
        if p.len() == 0 {
            out.push(String::new());
        } else {
            number += 1;
            let mut line = marker_chars(list, number);
            push_chars(&mut line, p);
            out.push(crate::text::from_chars(line.as_slice()));
        }
        i += 1;
    }
    out
}

// ---------------------------------------------------------------------------
// Drawing order
// ---------------------------------------------------------------------------

/// One step of drawing a text box from its top down.
#[derive(Debug)]
pub enum TextStep {
    /// An empty line.
    Blank,
    /// A line, behind the width of `marker`.
    Line { marker: Vec<char>, text: Vec<char> },
    /// A marker at the left edge, beside the line that many lines back.
    Marker { text: Vec<char>, lines_back: usize },
}

/// A step as plain values.
#[verifier::ext_equal]
pub enum StepView {
    Blank,
    Line { marker: Seq<char>, text: Seq<char> },
    Marker { text: Seq<char>, lines_back: nat },
}

impl View for TextStep {
    type V = StepView;

    open spec fn view(&self) -> StepView {
        match *self {
            TextStep::Blank => StepView::Blank,
            TextStep::Line { marker, text } => StepView::Line { marker: marker@, text: text@ },
            TextStep::Marker { text, lines_back } => StepView::Marker {
                text: text@,
                lines_back: lines_back as nat,
            },
        }
    }
}

/// Several steps as plain values.
pub open spec fn step_views(s: Seq<TextStep>) -> Seq<StepView> {
    s.map_values(|t: TextStep| t@)
}

/// The lines of a paragraph, each behind its marker.
pub open spec fn line_steps(marker: Seq<char>, lines: Seq<Seq<char>>) -> Seq<StepView> {
    lines.map_values(|l: Seq<char>| StepView::Line { marker, text: l })
}

/// How a paragraph is drawn: its lines, and then its marker beside the first of them. A
/// paragraph that shows no line has no marker either.
pub open spec fn steps_of(p: ParagraphLayout) -> Seq<StepView> {
    let lines = crate::text::texts(p.lines@);
    if p.blank {
        seq![StepView::Blank]
    } else if p.marker@.len() > 0 && lines.len() > 0 {
        line_steps(p.marker@, lines).push(
            StepView::Marker { text: p.marker@, lines_back: lines.len() },
        )
    } else {
        line_steps(p.marker@, lines)
    }
}

/// How paragraphs are drawn, one below the other.
pub open spec fn all_steps(s: Seq<ParagraphLayout>) -> Seq<StepView>
    decreases s.len(),
{
    if s.len() == 0 {
        Seq::empty()
    } else {
        all_steps(s.drop_last()) + steps_of(s.last())
    }
}

/// Whether `s` is the layout of a text.
pub open spec fn is_layout<
    F: Fn(&[char], &[char], &[char]) -> bool,
    P: Fn(&[char], &[char]) -> usize,
>(text: Seq<char>, list: TextListStyle, fits: F, prefix: P, s: Seq<ParagraphLayout>) -> bool {
    &&& s.len() == crate::text::split(text, CharClass::Newline).len()
    &&& forall|i: int|
        0 <= i < s.len() ==> is_paragraph_layout(
            crate::text::split(text, CharClass::Newline),
            i,
            list,
            fits,
            prefix,
            #[trigger] s[i],
        )
}

fn push_steps(out: &mut Vec<TextStep>, p: &ParagraphLayout)
    ensures
        step_views(final(out)@) == step_views(old(out)@) + steps_of(*p),
{
    if p.blank {
        out.push(TextStep::Blank);
        assert(step_views(out@) =~= step_views(old(out)@) + steps_of(*p));
        return;
    }
    let ghost lines = crate::text::texts(p.lines@);
    let mut i: usize = 0;
    assert(step_views(out@) =~= step_views(old(out)@) + line_steps(p.marker@, lines.take(0)));
    while i < p.lines.len()
        invariant
            i <= p.lines@.len(),
            lines == crate::text::texts(p.lines@),
            step_views(out@) == step_views(old(out)@) + line_steps(
                p.marker@,
                lines.take(i as int),
            ),
        decreases p.lines@.len() - i,
    {
        let ghost before = out@;
        let marker = slice_chars(p.marker.as_slice(), 0, p.marker.len());
        let text = slice_chars(p.lines[i].as_slice(), 0, p.lines[i].len());
        proof {
            assert(marker@ =~= p.marker@);
            assert(text@ =~= lines[i as int]);
        }
        out.push(TextStep::Line { marker, text });
        proof {
            assert(step_views(out@) =~= step_views(before).push(out@.last()@));
            assert(line_steps(p.marker@, lines.take(i + 1)) =~= line_steps(
                p.marker@,
                lines.take(i as int),
            ).push(out@.last()@));
            assert(step_views(out@) =~= step_views(old(out)@) + line_steps(
                p.marker@,
                lines.take(i + 1),
            ));
        }
        i += 1;
    }
    assert(lines.take(i as int) =~= lines);
    if p.marker.len() > 0 && p.lines.len() > 0 {
        let ghost before = out@;
        let text = slice_chars(p.marker.as_slice(), 0, p.marker.len());
        assert(text@ =~= p.marker@);
        out.push(TextStep::Marker { text, lines_back: p.lines.len() });
        assert(step_views(out@) =~= step_views(before).push(out@.last()@));
    }
    assert(step_views(out@) =~= step_views(old(out)@) + steps_of(*p));
}

/// How a text box is drawn: its paragraphs from the top down, each broken to the width
/// that is left beside its marker.
pub fn draw_text_box<
    F: Fn(&[char], &[char], &[char]) -> bool,
    P: Fn(&[char], &[char]) -> usize,
>(text: &str, list: TextListStyle, fits: &F, prefix: &P) -> (r: Vec<TextStep>)
    requires
        forall|m: &[char], c: &[char], w: &[char]| call_requires(*fits, (m, c, w)),
        forall|m: &[char], w: &[char]| call_requires(*prefix, (m, w)),
    ensures
        exists|s: Seq<ParagraphLayout>| #[trigger]
            is_layout(text@, list, *fits, *prefix, s) && step_views(r@) == all_steps(s),
{
    let paragraphs = layout_text(text, list, fits, prefix);
    let mut out: Vec<TextStep> = Vec::new();
    let mut i: usize = 0;
    assert(step_views(out@) =~= Seq::empty());
    while i < paragraphs.len()
        invariant
            i <= paragraphs@.len(),
            step_views(out@) == all_steps(paragraphs@.take(i as int)),
        decreases paragraphs@.len() - i,
    {
        push_steps(&mut out, &paragraphs[i]);
        proof {
            assert(paragraphs@.take(i + 1).drop_last() =~= paragraphs@.take(i as int));
            assert(paragraphs@.take(i + 1).last() == paragraphs@[i as int]);
        }
        i += 1;
    }
    assert(paragraphs@.take(i as int) =~= paragraphs@);
    assert(is_layout(text@, list, *fits, *prefix, paragraphs@));
    out
}

// ---------------------------------------------------------------------------
// Laws
// ---------------------------------------------------------------------------

/// The characters of a text that are not white space.
pub open spec fn ink(s: Seq<char>) -> Seq<char> {
    s.filter(|c: char| !crate::text::is_white(c))
}

/// The characters of all lines that are not white space.
pub open spec fn ink_of_lines(lines: Seq<Seq<char>>) -> Seq<char>
    decreases lines.len(),
{
    if lines.len() == 0 {
        Seq::empty()
    } else {
        ink(lines[0]) + ink_of_lines(lines.skip(1))
    }
}

proof fn lemma_ink_split(s: Seq<char>, a: int, b: int, c: int)
    requires
        0 <= a <= b <= c <= s.len(),
    ensures
        ink(s.subrange(a, c)) == ink(s.subrange(a, b)) + ink(s.subrange(b, c)),
{
    Seq::filter_distributes_over_add(
        s.subrange(a, b),
        s.subrange(b, c),
        |ch: char| !crate::text::is_white(ch),
    );
    assert(s.subrange(a, b) + s.subrange(b, c) =~= s.subrange(a, c));
}

proof fn lemma_ink_white(s: Seq<char>, a: int, b: int)
    requires
        0 <= a <= b <= s.len(),
        forall|k: int| a <= k < b ==> crate::text::is_white(s[k]),
    ensures
        ink(s.subrange(a, b)) == Seq::<char>::empty(),
{
    let t = s.subrange(a, b);
    assert forall|k: int| 0 <= k < t.len() implies crate::text::is_white(#[trigger] t[k]) by {
        assert(t[k] == s[a + k]);
    }
    t.lemma_all_neg_filter_empty(|ch: char| !crate::text::is_white(ch));
}

proof fn lemma_ink_trim_end(s: Seq<char>)
    ensures
        ink(crate::text::trim_end(s, CharClass::Whitespace)) == ink(s),
    decreases s.len(),
{
    if s.len() > 0 && crate::text::is_white(s.last()) {
        lemma_ink_trim_end(s.drop_last());
        lemma_ink_split(s, 0, s.len() - 1, s.len() as int);
        lemma_ink_white(s, s.len() - 1, s.len() as int);
        assert(s.subrange(0, s.len() as int) =~= s);
        assert(s.subrange(0, s.len() - 1) =~= s.drop_last());
        assert(ink(s.drop_last()) + Seq::<char>::empty() =~= ink(s.drop_last()));
    }
}

/// Wrapping loses, adds and reorders nothing but white space: the other
/// characters of the lines, read in order, are those of the paragraph.
pub proof fn law_wrapping_keeps_text<
    F: Fn(&[char], &[char], &[char]) -> bool,
    P: Fn(&[char], &[char]) -> usize,
>(
    s: Seq<char>,
    marker: Seq<char>,
    fits: F,
    prefix: P,
    line: int,
    pos: int,
    lines: Seq<Seq<char>>,
)
    requires
        0 <= line <= pos <= s.len(),
        is_wrapping(s, marker, fits, prefix, line, pos, lines),
    ensures
        ink_of_lines(lines) == ink(s.subrange(line, s.len() as int)),
    decreases s.len() - pos, pos - line,
{
    let len = s.len() as int;
    lemma_after(s, pos);
    let start = if line == pos {
        after_white(s, pos)
    } else {
        pos
    };
    lemma_after(s, start);
    let end = after_word(s, start);
    lemma_after(s, end);
    let word = s.subrange(start, end);
    let current = s.subrange(line, pos);
    if start >= s.len() {
        lemma_ink_split(s, line, pos, len);
        lemma_ink_white(s, pos, len);
        if line == pos {
            assert(s.subrange(line, pos) =~= Seq::empty());
            lemma_ink_white(s, line, pos);
            assert(ink_of_lines(lines) =~= ink(s.subrange(line, len)));
        } else {
            lemma_ink_trim_end(current);
            assert(lines.skip(1) =~= Seq::empty());
            assert(ink_of_lines(lines.skip(1)) =~= Seq::empty());
            assert(ink_of_lines(lines) =~= ink(s.subrange(line, len)));
        }
    } else if line == pos && is_wrapping(
        s,
        marker,
        fits,
        prefix,
        start,
        after_white(s, end),
        lines,
    ) {
        law_wrapping_keeps_text(s, marker, fits, prefix, start, after_white(s, end), lines);
        lemma_ink_split(s, line, start, len);
        lemma_ink_white(s, line, start);
        assert(ink(s.subrange(line, len)) =~= ink(s.subrange(start, len)));
    } else if line < pos && is_wrapping(
        s,
        marker,
        fits,
        prefix,
        line,
        after_white(s, end),
        lines,
    ) {
        law_wrapping_keeps_text(s, marker, fits, prefix, line, after_white(s, end), lines);
    } else if line < pos {
        law_wrapping_keeps_text(s, marker, fits, prefix, pos, pos, lines.skip(1));
        lemma_ink_trim_end(current);
        lemma_ink_split(s, line, pos, len);
    } else {
        let n = choose|n: usize| #[trigger]
            may_break(prefix, marker, word, n) && lines[0] == s.subrange(
                start,
                start + broken_off(n, word.len()),
            ) && is_wrapping(
                s,
                marker,
                fits,
                prefix,
                start + broken_off(n, word.len()),
                start + broken_off(n, word.len()),
                lines.skip(1),
            );
        let cut = start + broken_off(n, word.len());
        law_wrapping_keeps_text(s, marker, fits, prefix, cut, cut, lines.skip(1));
        lemma_ink_split(s, line, start, len);
        lemma_ink_white(s, line, start);
        lemma_ink_split(s, start, cut, len);
        assert(ink(s.subrange(line, len)) =~= ink(s.subrange(start, len)));
    }
}

/// A line that shows something and has no white space at its ends.
pub open spec fn is_trimmed_line(t: Seq<char>) -> bool {
    t.len() > 0 && !crate::text::is_white(t[0]) && !crate::text::is_white(t.last())
}

proof fn lemma_trim_end_line(t: Seq<char>)
    requires
        t.len() > 0,
        !crate::text::is_white(t[0]),
    ensures
        is_trimmed_line(crate::text::trim_end(t, CharClass::Whitespace)),
        crate::text::trim_end(t, CharClass::Whitespace)[0] == t[0],
    decreases t.len(),
{
    if crate::text::is_white(t.last()) {
        assert(t.drop_last()[0] == t[0]);
        lemma_trim_end_line(t.drop_last());
    }
}

/// Every line of a wrapping holds at least one character and neither starts
/// nor ends with white space.
pub proof fn law_wrapped_lines_are_trimmed<
    F: Fn(&[char], &[char], &[char]) -> bool,
    P: Fn(&[char], &[char]) -> usize,
>(
    s: Seq<char>,
    marker: Seq<char>,
    fits: F,
    prefix: P,
    line: int,
    pos: int,
    lines: Seq<Seq<char>>,
)
    requires
        0 <= line <= pos <= s.len(),
        line < pos ==> !crate::text::is_white(s[line]),
        is_wrapping(s, marker, fits, prefix, line, pos, lines),
    ensures
        forall|i: int| 0 <= i < lines.len() ==> is_trimmed_line(#[trigger] lines[i]),
    decreases s.len() - pos, pos - line,
{
    lemma_after(s, pos);
    let start = if line == pos {
        after_white(s, pos)
    } else {
        pos
    };
    lemma_after(s, start);
    let end = after_word(s, start);
    lemma_after(s, end);
    let word = s.subrange(start, end);
    let current = s.subrange(line, pos);
    let next = after_white(s, end);
    if start >= s.len() {
        if line < pos {
            assert(current[0] == s[line]);
            lemma_trim_end_line(current);
        }
    } else if line == pos && is_wrapping(s, marker, fits, prefix, start, next, lines) {
        law_wrapped_lines_are_trimmed(s, marker, fits, prefix, start, next, lines);
    } else if line < pos && is_wrapping(s, marker, fits, prefix, line, next, lines) {
        law_wrapped_lines_are_trimmed(s, marker, fits, prefix, line, next, lines);
    } else {
        let rest = lines.skip(1);
        if line < pos {
            assert(current[0] == s[line]);
            lemma_trim_end_line(current);
            law_wrapped_lines_are_trimmed(s, marker, fits, prefix, pos, pos, rest);
        } else {
            let n = choose|n: usize| #[trigger]
                may_break(prefix, marker, word, n) && lines[0] == s.subrange(
                    start,
                    start + broken_off(n, word.len()),
                ) && is_wrapping(
                    s,
                    marker,
                    fits,
                    prefix,
                    start + broken_off(n, word.len()),
                    start + broken_off(n, word.len()),
                    rest,
                );
            let cut = start + broken_off(n, word.len());
            law_wrapped_lines_are_trimmed(s, marker, fits, prefix, cut, cut, rest);
            assert(lines[0][0] == s[start]);
            assert(lines[0].last() == s[cut - 1]);
        }
        assert forall|i: int| 0 <= i < lines.len() implies is_trimmed_line(#[trigger] lines[i]) by {
            if i > 0 {
                assert(rest[i - 1] == lines[i]);
            }
        }
    }
}

/// A paragraph that shows a line has exactly one marker, if its list has markers, and
/// one that shows none has no marker.
pub proof fn law_one_marker_for_each_paragraph(p: ParagraphLayout)
    requires
        !p.blank,
    ensures
        steps_of(p).filter(|t: StepView| t is Marker) == (if p.marker@.len() > 0 && p.lines@.len()
            > 0 {
            seq![StepView::Marker { text: p.marker@, lines_back: p.lines@.len() }]
        } else {
            Seq::empty()
        }),
{
    let is_marker = |t: StepView| t is Marker;
    let lines = line_steps(p.marker@, crate::text::texts(p.lines@));
    lines.lemma_all_neg_filter_empty(is_marker);
    if p.marker@.len() > 0 && p.lines@.len() > 0 {
        let last = seq![StepView::Marker { text: p.marker@, lines_back: p.lines@.len() }];
        assert(steps_of(p) =~= lines + last);
        Seq::filter_distributes_over_add(lines, last, is_marker);
        reveal(Seq::filter);
        assert(last.drop_last() =~= Seq::empty());
        assert(last.filter(is_marker) =~= last);
        assert(lines.filter(is_marker) + last.filter(is_marker) =~= last);
    } else {
        assert(steps_of(p) =~= lines);
    }
}

/// A piece that is broken off a word has at least one character and at most the
/// word's; between these it is as long as was asked for.
pub proof fn law_broken_pieces_are_not_empty(answer: usize, len: nat)
    requires
        len > 0,
    ensures
        1 <= broken_off(answer, len) <= len,
        1 <= answer <= len ==> broken_off(answer, len) == answer,
        answer == 0 ==> broken_off(answer, len) == 1,
        answer >= len ==> broken_off(answer, len) == len,
{
}

/// Where every word fits, a paragraph is one line, or none if it is blank.
pub proof fn law_fitting_text_stays_on_one_line<
    F: Fn(&[char], &[char], &[char]) -> bool,
    P: Fn(&[char], &[char]) -> usize,
>(
    s: Seq<char>,
    marker: Seq<char>,
    fits: F,
    prefix: P,
    line: int,
    pos: int,
    lines: Seq<Seq<char>>,
)
    requires
        0 <= line <= pos <= s.len(),
        forall|current: Seq<char>, word: Seq<char>| #[trigger]
            may_fit(fits, marker, current, word, false) ==> false,
        is_wrapping(s, marker, fits, prefix, line, pos, lines),
    ensures
        lines.len() <= 1,
        line < pos ==> lines.len() == 1,
    decreases s.len() - pos, pos - line,
{
    lemma_after(s, pos);
    let start = if line == pos {
        after_white(s, pos)
    } else {
        pos
    };
    if start < s.len() {
        lemma_after(s, start);
        let end = after_word(s, start);
        lemma_after(s, end);
        let next = after_white(s, end);
        assert(is_wrapping_at_word(s, marker, fits, prefix, line, pos, start, lines));
        if line == pos {
            assert(is_wrapping(s, marker, fits, prefix, start, next, lines));
            if next > pos {
                law_fitting_text_stays_on_one_line(s, marker, fits, prefix, start, next, lines);
            }
        } else {
            assert(is_wrapping(s, marker, fits, prefix, line, next, lines));
            if next > pos {
                law_fitting_text_stays_on_one_line(s, marker, fits, prefix, line, next, lines);
            }
        }
    }
}

/// A plain list has no markers, a bullet one the same for all, a numbered one
/// the number, a full stop and a space.
pub proof fn law_markers_show_the_list(list: TextListStyle, n: nat, m: nat)
    ensures
        list is Plain ==> marker_of(list, n).len() == 0,
        list is Bullet ==> marker_of(list, n) == marker_of(list, m) && marker_of(list, n).len() == 2
            && marker_of(list, n)[0] == '\u{2022}' && marker_of(list, n)[1] == ' ',
        list is Numbered ==> {
            let t = marker_of(list, n);
            &&& t.len() > 2
            &&& crate::text::number_of(t.take(t.len() - 2)) == n
            &&& t[t.len() - 2] == '.' && t.last() == ' '
        },
{
    reveal_strlit("\u{2022} ");
    reveal_strlit(". ");
    if list is Numbered {
        let t = marker_of(list, n);
        let d = crate::text::decimal(n);
        crate::text::law_decimals_read_back(n);
        assert(t.take(t.len() - 2) =~= d);
    }
}

proof fn lemma_non_empty_adds(a: Seq<Seq<char>>, b: Seq<Seq<char>>)
    ensures
        non_empty(a + b) == non_empty(a) + non_empty(b),
    decreases b.len(),
{
    if b.len() == 0 {
        assert(a + b =~= a);
    } else {
        assert((a + b).drop_last() =~= a + b.drop_last());
        lemma_non_empty_adds(a, b.drop_last());
    }
}

/// The paragraphs with text are numbered from one without a gap; a blank one
/// takes no number and stays blank.
pub proof fn law_paragraphs_are_numbered(
    a: Seq<Seq<char>>,
    p: Seq<char>,
    b: Seq<Seq<char>>,
    list: TextListStyle,
)
    ensures
        ({
            let all = a + seq![p] + b;
            let i = a.len() as int;
            &&& p.len() == 0 ==> composed(all, i, list).len() == 0
            &&& p.len() > 0 ==> composed(all, i, list) == marker_of(list, non_empty(a) + 1) + p
        }),
        non_empty(a + b) == non_empty(a) + non_empty(b),
        non_empty(seq![p]) == (if p.len() > 0 {
            1int
        } else {
            0
        }),
{
    lemma_non_empty_adds(a, b);
    lemma_non_empty_adds(a, seq![p]);
    let all = a + seq![p] + b;
    assert(all.take(a.len() as int + 1) =~= a + seq![p]);
    assert(all[a.len() as int] == p);
    assert(seq![p].drop_last() =~= Seq::<Seq<char>>::empty());
    assert(non_empty(seq![p].drop_last()) == 0);
}

proof fn lemma_all_steps_add(a: Seq<ParagraphLayout>, b: Seq<ParagraphLayout>)
    ensures
        all_steps(a + b) == all_steps(a) + all_steps(b),
    decreases b.len(),
{
    if b.len() == 0 {
        assert(a + b =~= a);
        assert(all_steps(a) + all_steps(b) =~= all_steps(a));
    } else {
        assert((a + b).drop_last() =~= a + b.drop_last());
        lemma_all_steps_add(a, b.drop_last());
        assert(all_steps(a + b) =~= all_steps(a) + all_steps(b));
    }
}

/// Paragraphs are drawn one after another: a blank one as an empty line, any
/// other as its lines in order, each behind the width of its marker.
pub proof fn law_paragraphs_are_drawn_in_order(
    a: Seq<ParagraphLayout>,
    p: ParagraphLayout,
    b: Seq<ParagraphLayout>,
    k: int,
)
    ensures
        all_steps(a + b) == all_steps(a) + all_steps(b),
        all_steps(seq![p]) == steps_of(p),
        p.blank ==> steps_of(p).len() == 1 && steps_of(p)[0] is Blank,
        !p.blank && 0 <= k < p.lines@.len() ==> k < steps_of(p).len() && (
        steps_of(p)[k] matches StepView::Line { marker, text } && marker == p.marker@ && text
            == p.lines@[k]@),
        !p.blank ==> steps_of(p).len() == p.lines@.len() + (if p.marker@.len() > 0 && p.lines@.len()
            > 0 {
            1int
        } else {
            0
        }),
{
    lemma_all_steps_add(a, b);
    assert(seq![p].drop_last() =~= Seq::<ParagraphLayout>::empty());
    assert(all_steps(seq![p].drop_last()) =~= Seq::<StepView>::empty());
    assert(all_steps(seq![p]) =~= steps_of(p));
}

/// A paragraph without text is laid out as blank, with no marker and no lines;
/// any other has its own marker and shows all of its text.
pub proof fn law_paragraphs_are_laid_out<
    F: Fn(&[char], &[char], &[char]) -> bool,
    P: Fn(&[char], &[char]) -> usize,
>(
    paragraphs: Seq<Seq<char>>,
    i: int,
    list: TextListStyle,
    fits: F,
    prefix: P,
    p: ParagraphLayout,
)
    requires
        0 <= i < paragraphs.len(),
        is_paragraph_layout(paragraphs, i, list, fits, prefix, p),
    ensures
        p.blank <==> paragraphs[i].len() == 0,
        p.blank ==> p.marker@.len() == 0 && p.lines@.len() == 0,
        !p.blank ==> p.marker@ == marker_of(list, non_empty(paragraphs.take(i)) + 1),
        !p.blank ==> ink_of_lines(crate::text::texts(p.lines@)) == ink(paragraphs[i]),
{
    if !p.blank {
        let before = paragraphs.take(i);
        assert(paragraphs.take(i + 1).drop_last() =~= before);
        let s = paragraphs[i];
        law_wrapping_keeps_text(s, p.marker@, fits, prefix, 0, 0, crate::text::texts(p.lines@));
        assert(s.subrange(0, s.len() as int) =~= s);
    }
}

} // verus!
