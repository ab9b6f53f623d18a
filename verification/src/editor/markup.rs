//! What the canvas shows, as far as it does not depend on lengths: colours as
//! text, the parts of an arrow, and where a balloon's tail is attached.
use vstd::prelude::*;
use crate::editor::document::{ArrowHeadStyle, ArrowLineStyle, Edge, TextAlign};
use crate::px::{Point, Px, Rgba};
use crate::text::{decimal_chars, digit_char, from_chars, push_chars, push_text};

verus! {

/// An alpha in thousandths, rounded to the nearest.
pub open spec fn alpha_thousandths(a: u8) -> int {
    (a * 2000 + 255) / 510
}

/// A number of thousandths as a decimal fraction with three places.
pub open spec fn thousandths_text(n: int) -> Seq<char> {
    crate::text::decimal((n / 1000) as nat) + "."@ + seq![
        crate::text::digit(((n / 100) % 10) as nat),
        crate::text::digit(((n / 10) % 10) as nat),
        crate::text::digit((n % 10) as nat),
    ]
}

/// A colour for the style sheet, with its alpha as a fraction of one.
pub open spec fn css_of(c: Rgba) -> Seq<char> {
    "rgba("@ + crate::text::decimal(c.r as nat) + ", "@ + crate::text::decimal(c.g as nat) + ", "@
        + crate::text::decimal(c.b as nat) + ", "@ + thousandths_text(alpha_thousandths(c.a))
        + ")"@
}

/// A colour for the style sheet.
pub fn rgba_to_css(c: Rgba) -> (r: String)
    ensures
        r@ == css_of(c),
{
    let n: u64 = (c.a as u64 * 2000 + 255) / 510;
    let mut out = crate::text::to_chars("rgba(");
    let red = decimal_chars(c.r as u64);
    push_chars(&mut out, red.as_slice());
    push_text(&mut out, ", ");
    let green = decimal_chars(c.g as u64);
    push_chars(&mut out, green.as_slice());
    push_text(&mut out, ", ");
    let blue = decimal_chars(c.b as u64);
    push_chars(&mut out, blue.as_slice());
    push_text(&mut out, ", ");
    let mut alpha = decimal_chars(n / 1000);
    push_text(&mut alpha, ".");
    let mut places: Vec<char> = Vec::new();
    places.push(digit_char((n / 100) % 10));
    places.push(digit_char((n / 10) % 10));
    places.push(digit_char(n % 10));
    assert(places@ =~= seq![
        crate::text::digit(((n / 100) % 10) as nat),
        crate::text::digit(((n / 10) % 10) as nat),
        crate::text::digit((n % 10) as nat),
    ]);
    push_chars(&mut alpha, places.as_slice());
    push_chars(&mut out, alpha.as_slice());
    push_text(&mut out, ")");
    from_chars(out.as_slice())
}

/// The fill of a shape for the style sheet: none where it is switched off.
pub fn fill_to_css(c: Rgba) -> (r: String)
    ensures
        r@ == (if c.a == 0 {
            "none"@
        } else {
            css_of(c)
        }),
{
    if c.a == 0 {
        "none".to_owned()
    } else {
        rgba_to_css(c)
    }
}

/// The alpha of a colour that is fully opaque or fully transparent is 1 or 0, and
/// no other alpha exceeds 1.
pub proof fn law_alpha_thousandths(a: u8)
    ensures
        0 <= alpha_thousandths(a) <= 1000,
        alpha_thousandths(0) == 0,
        alpha_thousandths(255) == 1000,
{
}

/// Where the text of a line is anchored.
pub fn text_anchor(align: TextAlign) -> (r: &'static str)
    ensures
        r@ == match align {
            TextAlign::Left => "start"@,
            TextAlign::Center => "middle"@,
            TextAlign::Right => "end"@,
        },
{
    match align {
        TextAlign::Left => "start",
        TextAlign::Center => "middle",
        TextAlign::Right => "end",
    }
}

// ---------------------------------------------------------------------------
// Arrows
// ---------------------------------------------------------------------------

/// How far the shaft stops short of an end of the arrow.
#[derive(Debug, Clone, Copy, PartialEq, Eq, Structural)]
pub enum Setback {
    /// The shaft goes to the end.
    Nothing,
    /// It ends inside a solid head, which covers its cap.
    InsideHead,
    /// It ends behind an open head, through which it would be seen.
    BehindHead,
}

/// How a head is painted.
#[derive(Debug, Clone, Copy, PartialEq, Eq, Structural)]
pub enum HeadPaint {
    Nothing,
    Filled,
    Outlined,
    /// An open line through three points.
    Chevron,
}

/// A head of an arrow: it points from `from` to `tip`.
#[derive(Debug, Clone, Copy, PartialEq, Eq, Structural)]
pub struct HeadMark {
    pub tip: Point,
    pub from: Point,
}

/// The parts of an arrow.
#[derive(Debug)]
pub struct ArrowPlan {
    pub start_setback: Setback,
    pub end_setback: Setback,
    pub paint: HeadPaint,
    pub heads: Vec<HeadMark>,
}

/// How far the shaft of a straight arrow stops short of its end.
pub open spec fn end_setback_of(h: ArrowHeadStyle) -> Setback {
    match h {
        ArrowHeadStyle::FilledTriangle | ArrowHeadStyle::DoubleEnded => Setback::InsideHead,
        ArrowHeadStyle::OutlineTriangle | ArrowHeadStyle::LineOnly => Setback::BehindHead,
        ArrowHeadStyle::NoHead => Setback::Nothing,
    }
}

/// How the heads of an arrow are painted.
pub open spec fn paint_of(h: ArrowHeadStyle) -> HeadPaint {
    match h {
        ArrowHeadStyle::FilledTriangle | ArrowHeadStyle::DoubleEnded => HeadPaint::Filled,
        ArrowHeadStyle::OutlineTriangle => HeadPaint::Outlined,
        ArrowHeadStyle::LineOnly => HeadPaint::Chevron,
        ArrowHeadStyle::NoHead => HeadPaint::Nothing,
    }
}

/// The heads of an arrow: at its end along the curve, and for a double-ended one
/// at its start too.
pub open spec fn heads_of(
    start: Point,
    end: Point,
    control: Option<Point>,
    h: ArrowHeadStyle,
) -> Seq<HeadMark> {
    let from = match control {
        Some(c) => c,
        None => start,
    };
    match h {
        ArrowHeadStyle::NoHead => Seq::empty(),
        ArrowHeadStyle::DoubleEnded => seq![
            HeadMark { tip: end, from },
            HeadMark { tip: start, from: end },
        ],
        _ => seq![HeadMark { tip: end, from }],
    }
}

impl ArrowPlan {
    /// These are the parts of this arrow. The shaft of a curved arrow goes to both
    /// ends.
    pub open spec fn is_plan(
        &self,
        start: Point,
        end: Point,
        control: Option<Point>,
        h: ArrowHeadStyle,
    ) -> bool {
        &&& self.paint == paint_of(h)
        &&& self.heads@ == heads_of(start, end, control, h)
        &&& self.end_setback == if control is Some {
            Setback::Nothing
        } else {
            end_setback_of(h)
        }
        &&& self.start_setback == if control is None && h == ArrowHeadStyle::DoubleEnded {
            Setback::InsideHead
        } else {
            Setback::Nothing
        }
    }
}

/// The heads of an arrow.
pub fn compute_arrow_heads(
    start: Point,
    end: Point,
    control: Option<Point>,
    h: ArrowHeadStyle,
) -> (r: Vec<HeadMark>)
    ensures
        r@ == heads_of(start, end, control, h),
{
    let from = match control {
        Some(c) => c,
        None => start,
    };
    let mut out: Vec<HeadMark> = Vec::new();
    match h {
        ArrowHeadStyle::NoHead => {},
        ArrowHeadStyle::DoubleEnded => {
            out.push(HeadMark { tip: end, from });
            out.push(HeadMark { tip: start, from: end });
        },
        _ => {
            out.push(HeadMark { tip: end, from });
        },
    }
    assert(out@ =~= heads_of(start, end, control, h));
    out
}

/// The parts of an arrow.
pub fn arrow_plan(start: Point, end: Point, control: Option<Point>, h: ArrowHeadStyle) -> (r:
    ArrowPlan)
    ensures
        r.is_plan(start, end, control, h),
{
    let end_setback = match control {
        Some(_) => Setback::Nothing,
        None => match h {
            ArrowHeadStyle::FilledTriangle | ArrowHeadStyle::DoubleEnded => Setback::InsideHead,
            ArrowHeadStyle::OutlineTriangle | ArrowHeadStyle::LineOnly => Setback::BehindHead,
            ArrowHeadStyle::NoHead => Setback::Nothing,
        },
    };
    let start_setback = match control {
        Some(_) => Setback::Nothing,
        None => if h == ArrowHeadStyle::DoubleEnded {
            Setback::InsideHead
        } else {
            Setback::Nothing
        },
    };
    let paint = match h {
        ArrowHeadStyle::FilledTriangle | ArrowHeadStyle::DoubleEnded => HeadPaint::Filled,
        ArrowHeadStyle::OutlineTriangle => HeadPaint::Outlined,
        ArrowHeadStyle::LineOnly => HeadPaint::Chevron,
        ArrowHeadStyle::NoHead => HeadPaint::Nothing,
    };
    let heads = compute_arrow_heads(start, end, control, h);
    ArrowPlan { start_setback, end_setback, paint, heads }
}

/// A shaft stops short of an end only where a head stands there.
pub proof fn law_setback_needs_a_head(
    plan: ArrowPlan,
    start: Point,
    end: Point,
    control: Option<Point>,
    h: ArrowHeadStyle,
)
    requires
        plan.is_plan(start, end, control, h),
    ensures
        plan.end_setback != Setback::Nothing ==> plan.heads@.len() >= 1 && plan.heads@[0].tip
            == end,
        plan.start_setback != Setback::Nothing ==> plan.heads@.len() == 2 && plan.heads@[1].tip
            == start,
        plan.paint == HeadPaint::Nothing <==> plan.heads@.len() == 0,
{
}

/// The dash pattern of a shaft, in quarters of its thickness: how long a dash is
/// and how long a gap; nothing for a solid line. A dash of no length is a dot.
pub fn dash_quarters(s: ArrowLineStyle) -> (r: Option<(u32, u32)>)
    ensures
        r == match s {
            ArrowLineStyle::Solid => None,
            ArrowLineStyle::Dashed => Some((10u32, 6u32)),
            ArrowLineStyle::Dotted => Some((0u32, 6u32)),
        },
{
    match s {
        ArrowLineStyle::Solid => None,
        ArrowLineStyle::Dashed => Some((10, 6)),
        ArrowLineStyle::Dotted => Some((0, 6)),
    }
}

// ---------------------------------------------------------------------------
// Balloons
// ---------------------------------------------------------------------------

/// The edge of a balloon to which its tail is attached, given how far the tip lies
/// from the centre: sideways if that is the longer way.
pub open spec fn tail_edge_of(dx: Px, dy: Px) -> Edge {
    let zero = Px { bits: 0 };
    if !dx.is_nan() && !dy.is_nan() && dx.magnitude() > dy.magnitude() {
        if zero.at_most(dx) && dx.rank() != 0 {
            Edge::Right
        } else {
            Edge::Left
        }
    } else if zero.at_most(dy) && dy.rank() != 0 {
        Edge::Bottom
    } else {
        Edge::Top
    }
}

/// The number without its sign.
fn absolute(v: Px) -> (r: Px)
    ensures
        r.bits == v.magnitude(),
        r.is_nan() == v.is_nan(),
        r.rank() == v.magnitude(),
{
    if v.bits >= 0x8000_0000 {
        Px { bits: v.bits - 0x8000_0000 }
    } else {
        v
    }
}

/// The edge of a balloon to which its tail is attached.
pub fn tail_edge(dx: Px, dy: Px) -> (r: Edge)
    ensures
        r == tail_edge_of(dx, dy),
{
    let zero = Px { bits: 0 };
    let ax = absolute(dx);
    let ay = absolute(dy);
    if ay.le(ax) && !ax.le(ay) {
        if zero.le(dx) && !dx.le(zero) {
            Edge::Right
        } else {
            Edge::Left
        }
    } else if zero.le(dy) && !dy.le(zero) {
        Edge::Bottom
    } else {
        Edge::Top
    }
}

/// The alpha is given in thousandths of full strength, to the nearest one.
pub proof fn law_alpha_is_rounded(a: u8, b: u8)
    ensures
        2 * (255 * alpha_thousandths(a) - 1000 * a) <= 255,
        2 * (1000 * a - 255 * alpha_thousandths(a)) <= 255,
        a < b ==> alpha_thousandths(a) < alpha_thousandths(b),
{
}

proof fn lemma_three_digits(a: nat, b: nat, c: nat)
    requires
        a < 10,
        b < 10,
        c < 10,
    ensures
        crate::text::number_of(
            seq![crate::text::digit(a), crate::text::digit(b), crate::text::digit(c)],
        ) == 100 * a + 10 * b + c,
{
    let d = seq![crate::text::digit(a), crate::text::digit(b), crate::text::digit(c)];
    let two = d.drop_last();
    let one = two.drop_last();
    let none = one.drop_last();
    assert(none.len() == 0);
    assert(crate::text::number_of(none) == 0);
    assert(one.last() == crate::text::digit(a));
    assert(crate::text::number_of(one) == a);
    assert(two.last() == crate::text::digit(b));
    assert(crate::text::number_of(two) == 10 * a + b);
    assert(d.last() == crate::text::digit(c));
}

proof fn lemma_digits_add_up(n: int)
    requires
        0 <= n,
    ensures
        n == 1000 * (n / 1000) + 100 * ((n / 100) % 10) + 10 * ((n / 10) % 10) + n % 10,
{
    vstd::arithmetic::div_mod::lemma_div_denominator(n, 10, 10);
    vstd::arithmetic::div_mod::lemma_div_denominator(n, 100, 10);
    let tens = n / 10;
    let hundreds = tens / 10;
    assert(n / 100 == hundreds);
    assert(n / 1000 == hundreds / 10);
    assert(n == 10 * tens + n % 10);
    assert(tens == 10 * hundreds + tens % 10);
    assert(hundreds == 10 * (hundreds / 10) + hundreds % 10);
}

proof fn lemma_thousandths_parts(n: int)
    requires
        0 <= n,
    ensures
        ({
            let t = thousandths_text(n);
            let whole = crate::text::decimal((n / 1000) as nat);
            &&& t.len() == whole.len() + 4
            &&& t.take(whole.len() as int) == whole
            &&& t[whole.len() as int] == '.'
            &&& t.skip(whole.len() as int + 1) == seq![
                crate::text::digit(((n / 100) % 10) as nat),
                crate::text::digit(((n / 10) % 10) as nat),
                crate::text::digit((n % 10) as nat),
            ]
        }),
{
    reveal_strlit(".");
    let t = thousandths_text(n);
    let whole = crate::text::decimal((n / 1000) as nat);
    assert(t.take(whole.len() as int) =~= whole);
    assert(t.skip(whole.len() as int + 1) =~= seq![
        crate::text::digit(((n / 100) % 10) as nat),
        crate::text::digit(((n / 10) % 10) as nat),
        crate::text::digit((n % 10) as nat),
    ]);
}

/// Thousandths are written as a number with three digits behind the point, and
/// the digits give it back.
pub proof fn law_thousandths_read_back(n: int)
    requires
        0 <= n,
    ensures
        ({
            let t = thousandths_text(n);
            let whole = crate::text::decimal((n / 1000) as nat);
            &&& t.len() == whole.len() + 4
            &&& t.take(whole.len() as int) == whole
            &&& t[whole.len() as int] == '.'
            &&& 1000 * crate::text::number_of(whole) + crate::text::number_of(
                t.skip(whole.len() as int + 1),
            ) == n
        }),
{
    lemma_digits_add_up(n);
    lemma_thousandths_parts(n);
    crate::text::law_decimals_read_back((n / 1000) as nat);
    lemma_three_digits(((n / 100) % 10) as nat, ((n / 10) % 10) as nat, (n % 10) as nat);
}

/// The heads of an arrow point at its ends: one at the end, coming from the bend
/// or else the start, and with two heads another at the start. A filled head
/// covers the end of the shaft, an open one stops it, and a bent shaft is not
/// shortened.
pub proof fn law_heads_point_at_the_ends(
    plan: ArrowPlan,
    start: Point,
    end: Point,
    control: Option<Point>,
    h: ArrowHeadStyle,
)
    requires
        plan.is_plan(start, end, control, h),
    ensures
        plan.heads@.len() == (if h is NoHead {
            0int
        } else if h is DoubleEnded {
            2
        } else {
            1
        }),
        !(h is NoHead) ==> plan.heads@[0].tip == end,
        !(h is NoHead) && control is None ==> plan.heads@[0].from == start,
        !(h is NoHead) ==> (control matches Some(c) ==> plan.heads@[0].from == c),
        h is DoubleEnded ==> plan.heads@[1].tip == start && plan.heads@[1].from == end,
        plan.paint is Filled <==> h is FilledTriangle || h is DoubleEnded,
        plan.paint is Outlined <==> h is OutlineTriangle,
        plan.paint is Chevron <==> h is LineOnly,
        plan.end_setback is InsideHead <==> control is None && plan.paint is Filled,
        plan.end_setback is BehindHead <==> control is None && (plan.paint is Outlined
            || plan.paint is Chevron),
        plan.start_setback is InsideHead <==> control is None && h is DoubleEnded,
        !(plan.start_setback is BehindHead),
{
}

/// A tail leaves a balloon on the side that its tip lies beyond most: sideways
/// only where it is farther off across than up or down.
pub proof fn law_tail_leaves_towards_its_tip(dx: Px, dy: Px)
    requires
        !dx.is_nan(),
        !dy.is_nan(),
    ensures
        tail_edge_of(dx, dy) == Edge::Right <==> dx.rank() > dy.rank() && dx.rank() > -dy.rank(),
        tail_edge_of(dx, dy) == Edge::Left <==> dx.rank() < dy.rank() && dx.rank() < -dy.rank(),
        tail_edge_of(dx, dy) == Edge::Bottom ==> dy.rank() > 0,
        tail_edge_of(dx, dy) == Edge::Top ==> dy.rank() <= 0,
{
}

} // verus!
