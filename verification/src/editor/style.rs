//! The style that each tool gives to what it draws: the defaults, the limits of
//! the style fields, and colours and styles as text.
use vstd::prelude::*;
use crate::editor::document::{
    copy_fields, ArrowHeadStyle, ArrowLineStyle, CaptureInfoPosition, FieldKind, TextAlign,
    TextListStyle,
};
use crate::px::{
    Px, Rgba, BITS_0, BITS_1, BITS_10, BITS_12, BITS_18, BITS_1_5, BITS_20, BITS_200, BITS_22,
    BITS_3, BITS_32, BITS_4, BITS_6, BITS_60, BITS_8, BITS_HALF,
};
use crate::settings::Settings;
use crate::text::{from_chars, hex_digit_char, hex_value_of, same_str, to_chars};

verus! {

/// Style of new arrows.
#[derive(Debug, Clone, Copy, PartialEq, Eq, Structural)]
pub struct ArrowStyle {
    pub color: Rgba,
    pub thickness: Px,
    pub shadow: bool,
    pub line_style: ArrowLineStyle,
    pub head_style: ArrowHeadStyle,
}

/// Style of new text boxes.
#[derive(Debug, Clone, Copy, PartialEq, Eq, Structural)]
pub struct TextStyle {
    pub color: Rgba,
    pub size: Px,
    pub align: TextAlign,
    pub list: TextListStyle,
    pub frosted: bool,
    pub shadow: bool,
}

/// Style of new rectangles and ellipses.
#[derive(Debug, Clone, Copy, PartialEq, Eq, Structural)]
pub struct ShapeStyle {
    pub stroke: Rgba,
    pub stroke_width: Px,
    pub fill: Rgba,
}

/// Style of new step markers.
#[derive(Debug, Clone, Copy, PartialEq, Eq, Structural)]
pub struct StepStyle {
    pub fill: Rgba,
    pub text_color: Rgba,
    pub radius: Px,
    pub next_number: u32,
}

/// Style of new loupes.
#[derive(Debug, Clone, Copy, PartialEq, Eq, Structural)]
pub struct MagnifyStyle {
    pub circular: bool,
    pub border: Rgba,
    pub border_width: Px,
    pub zoom: Px,
}

/// Style of new balloons.
#[derive(Debug, Clone, Copy, PartialEq, Eq, Structural)]
pub struct CalloutStyle {
    pub fill: Rgba,
    pub stroke: Rgba,
    pub text_color: Rgba,
}

/// The styles of all tools.
#[derive(Debug)]
pub struct ToolStyle {
    pub arrow: ArrowStyle,
    pub text: TextStyle,
    pub shape: ShapeStyle,
    pub step: StepStyle,
    pub blur_radius: Px,
    pub magnify: MagnifyStyle,
    pub callout: CalloutStyle,
    pub info_position: CaptureInfoPosition,
    pub info_fields: Vec<FieldKind>,
}

/// The styles of all tools as plain values.
#[verifier::ext_equal]
pub struct ToolStyleView {
    pub arrow: ArrowStyle,
    pub text: TextStyle,
    pub shape: ShapeStyle,
    pub step: StepStyle,
    pub blur_radius: Px,
    pub magnify: MagnifyStyle,
    pub callout: CalloutStyle,
    pub info_position: CaptureInfoPosition,
    pub info_fields: Seq<FieldKind>,
}

impl View for ToolStyle {
    type V = ToolStyleView;

    open spec fn view(&self) -> ToolStyleView {
        ToolStyleView {
            arrow: self.arrow,
            text: self.text,
            shape: self.shape,
            step: self.step,
            blur_radius: self.blur_radius,
            magnify: self.magnify,
            callout: self.callout,
            info_position: self.info_position,
            info_fields: self.info_fields@,
        }
    }
}

impl Clone for ToolStyle {
    fn clone(&self) -> (r: ToolStyle)
        ensures
            r@ == self@,
    {
        ToolStyle {
            arrow: self.arrow,
            text: self.text,
            shape: self.shape,
            step: self.step,
            blur_radius: self.blur_radius,
            magnify: self.magnify,
            callout: self.callout,
            info_position: self.info_position,
            info_fields: copy_fields(&self.info_fields),
        }
    }
}

/// The styles that the editor starts with.
pub open spec fn initial_style(arrow_shadow: bool) -> ToolStyleView {
    ToolStyleView {
        arrow: ArrowStyle {
            color: Rgba { r: 220, g: 38, b: 38, a: 255 },
            thickness: Px { bits: BITS_4 },
            shadow: arrow_shadow,
            line_style: ArrowLineStyle::Solid,
            head_style: ArrowHeadStyle::FilledTriangle,
        },
        text: TextStyle {
            color: Rgba { r: 10, g: 10, b: 10, a: 255 },
            size: Px { bits: BITS_22 },
            align: TextAlign::Left,
            list: TextListStyle::Plain,
            frosted: false,
            shadow: false,
        },
        shape: ShapeStyle {
            stroke: Rgba { r: 37, g: 99, b: 235, a: 255 },
            stroke_width: Px { bits: BITS_3 },
            fill: Rgba { r: 0, g: 0, b: 0, a: 0 },
        },
        step: StepStyle {
            fill: Rgba { r: 220, g: 38, b: 38, a: 255 },
            text_color: Rgba { r: 255, g: 255, b: 255, a: 255 },
            radius: Px { bits: BITS_18 },
            next_number: 1,
        },
        blur_radius: Px { bits: BITS_12 },
        magnify: MagnifyStyle {
            circular: true,
            border: Rgba { r: 10, g: 10, b: 10, a: 255 },
            border_width: Px { bits: BITS_3 },
            zoom: Px { bits: BITS_3 },
        },
        callout: CalloutStyle {
            fill: Rgba { r: 255, g: 255, b: 240, a: 240 },
            stroke: Rgba { r: 10, g: 10, b: 10, a: 255 },
            text_color: Rgba { r: 10, g: 10, b: 10, a: 255 },
        },
        info_position: CaptureInfoPosition::BottomLeft,
        info_fields: seq![FieldKind::Timestamp, FieldKind::WindowTitle, FieldKind::OsVersion],
    }
}

impl ToolStyle {
    /// The styles that the editor starts with.
    pub fn from_settings(s: &Settings) -> (r: ToolStyle)
        ensures
            r@ == initial_style(s.arrow_shadow),
    {
        let mut info_fields: Vec<FieldKind> = Vec::new();
        info_fields.push(FieldKind::Timestamp);
        info_fields.push(FieldKind::WindowTitle);
        info_fields.push(FieldKind::OsVersion);
        assert(info_fields@ =~= seq![
            FieldKind::Timestamp,
            FieldKind::WindowTitle,
            FieldKind::OsVersion,
        ]);
        ToolStyle {
            arrow: ArrowStyle {
                color: Rgba { r: 220, g: 38, b: 38, a: 255 },
                thickness: Px { bits: BITS_4 },
                shadow: s.arrow_shadow,
                line_style: ArrowLineStyle::Solid,
                head_style: ArrowHeadStyle::FilledTriangle,
            },
            text: TextStyle {
                color: Rgba { r: 10, g: 10, b: 10, a: 255 },
                size: Px { bits: BITS_22 },
                align: TextAlign::Left,
                list: TextListStyle::Plain,
                frosted: false,
                shadow: false,
            },
            shape: ShapeStyle {
                stroke: Rgba { r: 37, g: 99, b: 235, a: 255 },
                stroke_width: Px { bits: BITS_3 },
                fill: Rgba { r: 0, g: 0, b: 0, a: 0 },
            },
            step: StepStyle {
                fill: Rgba { r: 220, g: 38, b: 38, a: 255 },
                text_color: Rgba { r: 255, g: 255, b: 255, a: 255 },
                radius: Px { bits: BITS_18 },
                next_number: 1,
            },
            blur_radius: Px { bits: BITS_12 },
            magnify: MagnifyStyle {
                circular: true,
                border: Rgba { r: 10, g: 10, b: 10, a: 255 },
                border_width: Px { bits: BITS_3 },
                zoom: Px { bits: BITS_3 },
            },
            callout: CalloutStyle {
                fill: Rgba { r: 255, g: 255, b: 240, a: 240 },
                stroke: Rgba { r: 10, g: 10, b: 10, a: 255 },
                text_color: Rgba { r: 10, g: 10, b: 10, a: 255 },
            },
            info_position: CaptureInfoPosition::BottomLeft,
            info_fields,
        }
    }

    /// The blur field: between 1 and 60.
    pub fn set_blur_radius(&mut self, v: Px)
        ensures
            final(self)@ == (ToolStyleView {
                blur_radius: v.within(Px { bits: BITS_1 }, Px { bits: BITS_60 }),
                ..old(self)@
            }),
    {
        self.blur_radius = v.clamp(Px { bits: BITS_1 }, Px { bits: BITS_60 });
    }

    /// The position list; a text that is no position changes nothing.
    pub fn choose_info_position(&mut self, label: &str)
        ensures
            final(self)@ == match position_named(label@) {
                Some(p) => ToolStyleView { info_position: p, ..old(self)@ },
                None => old(self)@,
            },
    {
        match position_from_label(label) {
            Some(p) => {
                self.info_position = p;
            },
            None => {},
        }
    }

    /// A field's check box: checked, the field is appended unless it is there;
    /// unchecked, it is taken out.
    pub fn toggle_info_field(&mut self, f: FieldKind, on: bool)
        ensures
            final(self)@ == (ToolStyleView {
                info_fields: toggled(old(self)@.info_fields, f, on),
                ..old(self)@
            }),
    {
        let next = toggle_field(&self.info_fields, f, on);
        self.info_fields = next;
    }
}

// ---------------------------------------------------------------------------
// Limits
// ---------------------------------------------------------------------------

impl ArrowStyle {
    /// The thickness field: between 1 and 32.
    pub fn set_thickness(&mut self, v: Px)
        ensures
            *final(self) == (ArrowStyle {
                thickness: v.within(Px { bits: BITS_1 }, Px { bits: BITS_32 }),
                ..*old(self)
            }),
    {
        self.thickness = v.clamp(Px { bits: BITS_1 }, Px { bits: BITS_32 });
    }

    /// The head list; a text that is no head gives a filled triangle.
    pub fn choose_head(&mut self, label: &str)
        ensures
            *final(self) == (ArrowStyle { head_style: head_or_filled(label@), ..*old(self) }),
    {
        self.head_style = match head_from_label(label) {
            Some(h) => h,
            None => ArrowHeadStyle::FilledTriangle,
        };
    }
}

impl TextStyle {
    /// The size field: between 8 and 200.
    pub fn set_size(&mut self, v: Px)
        ensures
            *final(self) == (TextStyle {
                size: v.within(Px { bits: BITS_8 }, Px { bits: BITS_200 }),
                ..*old(self)
            }),
    {
        self.size = v.clamp(Px { bits: BITS_8 }, Px { bits: BITS_200 });
    }
}

/// The alpha of a shape's fill that is switched on.
pub const FILLED_ALPHA: u8 = 220;

impl ShapeStyle {
    /// The stroke width field: between one half and 32.
    pub fn set_stroke_width(&mut self, v: Px)
        ensures
            *final(self) == (ShapeStyle {
                stroke_width: v.within(Px { bits: BITS_HALF }, Px { bits: BITS_32 }),
                ..*old(self)
            }),
    {
        self.stroke_width = v.clamp(Px { bits: BITS_HALF }, Px { bits: BITS_32 });
    }

    /// Whether shapes are filled.
    pub fn is_filled(&self) -> (r: bool)
        ensures
            r == (self.fill.a != 0),
    {
        self.fill.a != 0
    }

    /// The check box: it drives the alpha only, so that the colour survives.
    pub fn set_filled(&mut self, on: bool)
        ensures
            *final(self) == (ShapeStyle { fill: filled(old(self).fill, on), ..*old(self) }),
    {
        self.fill = fill_switched(self.fill, on);
    }

    /// The fill colour; the alpha stays as it is.
    pub fn set_fill(&mut self, c: Rgba)
        ensures
            *final(self) == (ShapeStyle {
                fill: Rgba { a: old(self).fill.a, ..c },
                ..*old(self)
            }),
    {
        self.fill = Rgba { r: c.r, g: c.g, b: c.b, a: self.fill.a };
    }
}

/// A fill switched on or off.
pub open spec fn filled(c: Rgba, on: bool) -> Rgba {
    Rgba {
        a: if on {
            FILLED_ALPHA
        } else {
            0
        },
        ..c
    }
}

/// Switches a fill on or off.
pub fn fill_switched(c: Rgba, on: bool) -> (r: Rgba)
    ensures
        r == filled(c, on),
{
    Rgba {
        r: c.r,
        g: c.g,
        b: c.b,
        a: if on {
            FILLED_ALPHA
        } else {
            0
        },
    }
}

impl StepStyle {
    /// The radius field: between 6 and 60.
    pub fn set_radius(&mut self, v: Px)
        ensures
            *final(self) == (StepStyle {
                radius: v.within(Px { bits: BITS_6 }, Px { bits: BITS_60 }),
                ..*old(self)
            }),
    {
        self.radius = v.clamp(Px { bits: BITS_6 }, Px { bits: BITS_60 });
    }

    /// The number field; a text that is no number changes nothing.
    pub fn type_next_number(&mut self, typed: &str)
        ensures
            *final(self) == (StepStyle {
                next_number: match crate::settings::ui::typed_number(typed@) {
                    Some(n) => if n <= u32::MAX {
                        n as u32
                    } else {
                        old(self).next_number
                    },
                    None => old(self).next_number,
                },
                ..*old(self)
            }),
    {
        match crate::settings::ui::parse_number(typed, u32::MAX) {
            Some(n) => {
                self.next_number = n;
            },
            None => {},
        }
    }
}

impl MagnifyStyle {
    /// The border width field: between 0 and 20.
    pub fn set_border_width(&mut self, v: Px)
        ensures
            *final(self) == (MagnifyStyle {
                border_width: v.within(Px { bits: BITS_0 }, Px { bits: BITS_20 }),
                ..*old(self)
            }),
    {
        self.border_width = v.clamp(Px { bits: BITS_0 }, Px { bits: BITS_20 });
    }

    /// The zoom field: between 1.5 and 10.
    pub fn set_zoom(&mut self, v: Px)
        ensures
            *final(self) == (MagnifyStyle {
                zoom: v.within(Px { bits: BITS_1_5 }, Px { bits: BITS_10 }),
                ..*old(self)
            }),
    {
        self.zoom = v.clamp(Px { bits: BITS_1_5 }, Px { bits: BITS_10 });
    }
}

// ---------------------------------------------------------------------------
// The banner's fields
// ---------------------------------------------------------------------------

/// The fields without `f`.
pub open spec fn without(s: Seq<FieldKind>, f: FieldKind) -> Seq<FieldKind>
    decreases s.len(),
{
    if s.len() == 0 {
        Seq::empty()
    } else if s.last() == f {
        without(s.drop_last(), f)
    } else {
        without(s.drop_last(), f).push(s.last())
    }
}

/// The fields after a check box was switched.
pub open spec fn toggled(s: Seq<FieldKind>, f: FieldKind, on: bool) -> Seq<FieldKind> {
    if on {
        if s.contains(f) {
            s
        } else {
            s.push(f)
        }
    } else {
        without(s, f)
    }
}

/// Whether a field is in the list.
pub fn has_field(s: &Vec<FieldKind>, f: FieldKind) -> (r: bool)
    ensures
        r == s@.contains(f),
{
    let mut i: usize = 0;
    while i < s.len()
        invariant
            i <= s@.len(),
            forall|k: int| 0 <= k < i ==> s@[k] != f,
        decreases s@.len() - i,
    {
        if s[i] == f {
            return true;
        }
        i += 1;
    }
    false
}

/// Switches a field on or off.
pub fn toggle_field(s: &Vec<FieldKind>, f: FieldKind, on: bool) -> (r: Vec<FieldKind>)
    ensures
        r@ == toggled(s@, f, on),
{
    if on {
        let mut out = copy_fields(s);
        if !has_field(s, f) {
            out.push(f);
        }
        return out;
    }
    let mut out: Vec<FieldKind> = Vec::new();
    let mut i: usize = 0;
    assert(s@.take(0) =~= Seq::empty());
    while i < s.len()
        invariant
            i <= s@.len(),
            out@ == without(s@.take(i as int), f),
        decreases s@.len() - i,
    {
        assert(s@.take(i + 1).drop_last() =~= s@.take(i as int));
        if s[i] != f {
            out.push(s[i]);
        }
        i += 1;
    }
    assert(s@.take(i as int) =~= s@);
    out
}

/// A field that is switched on is in the list, and one that is switched off is
/// not; the others stay.
pub proof fn law_toggle_field(s: Seq<FieldKind>, f: FieldKind, on: bool, g: FieldKind)
    ensures
        toggled(s, f, on).contains(f) == on,
        g != f ==> toggled(s, f, on).contains(g) == s.contains(g),
{
    if on {
        if !s.contains(f) {
            assert(s.push(f)[s.len() as int] == f);
            if s.contains(g) {
                let i = choose|i: int| 0 <= i < s.len() && s[i] == g;
                assert(s.push(f)[i] == g);
            }
        }
    } else {
        lemma_without(s, f, g);
    }
}

proof fn lemma_without(s: Seq<FieldKind>, f: FieldKind, g: FieldKind)
    ensures
        !without(s, f).contains(f),
        g != f ==> without(s, f).contains(g) == s.contains(g),
    decreases s.len(),
{
    if s.len() > 0 {
        let most = s.drop_last();
        lemma_without(most, f, g);
        assert(most.push(s.last()) =~= s);
        if g != f {
            if s.last() == g {
                assert(s[s.len() - 1] == g);
                assert(without(s, f)[without(most, f).len() as int] == g);
            }
            if most.contains(g) {
                let i = choose|i: int| 0 <= i < most.len() && most[i] == g;
                assert(s[i] == g);
                let w = without(most, f);
                let j = choose|j: int| 0 <= j < w.len() && w[j] == g;
                assert(without(s, f)[j] == g);
            }
            if s.contains(g) && !most.contains(g) {
                let i = choose|i: int| 0 <= i < s.len() && s[i] == g;
                if i < most.len() {
                    assert(most[i] == g);
                }
            }
        }
    }
}

// ---------------------------------------------------------------------------
// Colours as text
// ---------------------------------------------------------------------------

/// The two hexadecimal digits of a byte.
pub open spec fn hex_pair(b: u8) -> Seq<char> {
    seq![crate::text::hex_digit((b / 16) as nat), crate::text::hex_digit((b % 16) as nat)]
}

/// A colour as `#rrggbb`; its alpha is left out.
pub open spec fn hex_of(c: Rgba) -> Seq<char> {
    seq!['#'] + hex_pair(c.r) + hex_pair(c.g) + hex_pair(c.b)
}

/// A colour as `#rrggbb`.
pub fn color_to_hex(c: Rgba) -> (r: String)
    ensures
        r@ == hex_of(c),
{
    let mut out: Vec<char> = Vec::new();
    out.push('#');
    out.push(hex_digit_char(c.r / 16));
    out.push(hex_digit_char(c.r % 16));
    out.push(hex_digit_char(c.g / 16));
    out.push(hex_digit_char(c.g % 16));
    out.push(hex_digit_char(c.b / 16));
    out.push(hex_digit_char(c.b % 16));
    assert(out@ =~= hex_of(c));
    from_chars(out.as_slice())
}

/// The text without a leading `#`.
pub open spec fn hex_body(s: Seq<char>) -> Seq<char> {
    if s.len() > 0 && s[0] == '#' {
        s.subrange(1, s.len() as int)
    } else {
        s
    }
}

/// The byte of two hexadecimal digits.
pub open spec fn byte_of(hi: char, lo: char) -> u8 {
    (crate::text::hex_value(hi)->Some_0 * 16 + crate::text::hex_value(lo)->Some_0) as u8
}

/// The colour of a `#rrggbb` text, with this alpha; the `#` may be missing.
pub open spec fn color_of(s: Seq<char>, alpha: u8) -> Option<Rgba> {
    let d = hex_body(s);
    if d.len() == 6 && (forall|i: int|
        0 <= i < 6 ==> crate::text::hex_value(#[trigger] d[i]) is Some) {
        Some(
            Rgba {
                r: byte_of(d[0], d[1]),
                g: byte_of(d[2], d[3]),
                b: byte_of(d[4], d[5]),
                a: alpha,
            },
        )
    } else {
        None
    }
}

/// Reads a `#rrggbb` colour.
pub fn hex_to_color(hex: &str, alpha: u8) -> (r: Option<Rgba>)
    ensures
        r == color_of(hex@, alpha),
{
    let chars = to_chars(hex);
    let from: usize = if chars.len() > 0 && chars[0] == '#' {
        1
    } else {
        0
    };
    if chars.len() - from != 6 {
        assert(hex_body(hex@).len() != 6);
        return None;
    }
    let ghost d = hex_body(hex@);
    let mut digits: Vec<u8> = Vec::new();
    let mut i: usize = 0;
    while i < 6
        invariant
            i <= 6,
            from <= 1,
            chars@ == hex@,
            chars@.len() == from + 6,
            d == hex_body(hex@),
            d.len() == 6,
            forall|k: int| 0 <= k < 6 ==> #[trigger] d[k] == chars@[from + k],
            digits@.len() == i,
            forall|k: int|
                0 <= k < i ==> crate::text::hex_value(#[trigger] d[k]) == Some(
                    digits@[k] as nat,
                ) && digits@[k] < 16,
        decreases 6 - i,
    {
        match hex_value_of(chars[from + i]) {
            Some(n) => {
                assert(d[i as int] == chars@[from + i]);
                digits.push(n);
            },
            None => {
                assert(crate::text::hex_value(d[i as int]) is None);
                return None;
            },
        }
        i += 1;
    }
    proof {
        assert(crate::text::hex_value(d[0]) == Some(digits@[0] as nat));
        assert(crate::text::hex_value(d[1]) == Some(digits@[1] as nat));
        assert(crate::text::hex_value(d[2]) == Some(digits@[2] as nat));
        assert(crate::text::hex_value(d[3]) == Some(digits@[3] as nat));
        assert(crate::text::hex_value(d[4]) == Some(digits@[4] as nat));
        assert(crate::text::hex_value(d[5]) == Some(digits@[5] as nat));
    }
    Some(
        Rgba {
            r: digits[0] * 16 + digits[1],
            g: digits[2] * 16 + digits[3],
            b: digits[4] * 16 + digits[5],
            a: alpha,
        },
    )
}

/// A colour survives being written as text and read back with its alpha.
pub proof fn law_hex_round_trip(c: Rgba)
    ensures
        color_of(hex_of(c), c.a) == Some(c),
{
    let s = hex_of(c);
    let d = hex_body(s);
    assert(d =~= hex_pair(c.r) + hex_pair(c.g) + hex_pair(c.b));
    lemma_hex_byte(c.r);
    lemma_hex_byte(c.g);
    lemma_hex_byte(c.b);
    assert(d[0] == hex_pair(c.r)[0] && d[1] == hex_pair(c.r)[1]);
    assert(d[2] == hex_pair(c.g)[0] && d[3] == hex_pair(c.g)[1]);
    assert(d[4] == hex_pair(c.b)[0] && d[5] == hex_pair(c.b)[1]);
}

proof fn lemma_hex_byte(b: u8)
    ensures
        crate::text::hex_value(hex_pair(b)[0]) == Some((b / 16) as nat),
        crate::text::hex_value(hex_pair(b)[1]) == Some((b % 16) as nat),
        byte_of(hex_pair(b)[0], hex_pair(b)[1]) == b,
{
}

/// The colours of the simple picker, in order.
pub open spec fn swatches() -> Seq<Rgba> {
    seq![
        Rgba { r: 220, g: 38, b: 38, a: 255 },
        Rgba { r: 234, g: 88, b: 12, a: 255 },
        Rgba { r: 234, g: 179, b: 8, a: 255 },
        Rgba { r: 22, g: 163, b: 74, a: 255 },
        Rgba { r: 37, g: 99, b: 235, a: 255 },
        Rgba { r: 147, g: 51, b: 234, a: 255 },
        Rgba { r: 10, g: 10, b: 10, a: 255 },
        Rgba { r: 240, g: 240, b: 240, a: 255 },
    ]
}

/// The colours of the simple picker: red, orange, yellow, green, blue, purple,
/// black and white.
pub fn palette() -> (r: Vec<Rgba>)
    ensures
        r@ == swatches(),
{
    let mut out: Vec<Rgba> = Vec::new();
    out.push(Rgba { r: 220, g: 38, b: 38, a: 255 });
    out.push(Rgba { r: 234, g: 88, b: 12, a: 255 });
    out.push(Rgba { r: 234, g: 179, b: 8, a: 255 });
    out.push(Rgba { r: 22, g: 163, b: 74, a: 255 });
    out.push(Rgba { r: 37, g: 99, b: 235, a: 255 });
    out.push(Rgba { r: 147, g: 51, b: 234, a: 255 });
    out.push(Rgba { r: 10, g: 10, b: 10, a: 255 });
    out.push(Rgba { r: 240, g: 240, b: 240, a: 255 });
    assert(out@ =~= swatches());
    out
}

// ---------------------------------------------------------------------------
// Styles as text
// ---------------------------------------------------------------------------

/// The text of an arrow head in the lists.
pub open spec fn head_text(h: ArrowHeadStyle) -> Seq<char> {
    match h {
        ArrowHeadStyle::FilledTriangle => "Filled"@,
        ArrowHeadStyle::OutlineTriangle => "Outline"@,
        ArrowHeadStyle::LineOnly => "Line"@,
        ArrowHeadStyle::NoHead => "None"@,
        ArrowHeadStyle::DoubleEnded => "Double"@,
    }
}

pub fn head_label(h: ArrowHeadStyle) -> (r: &'static str)
    ensures
        r@ == head_text(h),
{
    match h {
        ArrowHeadStyle::FilledTriangle => "Filled",
        ArrowHeadStyle::OutlineTriangle => "Outline",
        ArrowHeadStyle::LineOnly => "Line",
        ArrowHeadStyle::NoHead => "None",
        ArrowHeadStyle::DoubleEnded => "Double",
    }
}

/// The arrow head of a text.
pub open spec fn head_named(s: Seq<char>) -> Option<ArrowHeadStyle> {
    if s == "Filled"@ {
        Some(ArrowHeadStyle::FilledTriangle)
    } else if s == "Outline"@ {
        Some(ArrowHeadStyle::OutlineTriangle)
    } else if s == "Line"@ {
        Some(ArrowHeadStyle::LineOnly)
    } else if s == "None"@ {
        Some(ArrowHeadStyle::NoHead)
    } else if s == "Double"@ {
        Some(ArrowHeadStyle::DoubleEnded)
    } else {
        None
    }
}

pub fn head_from_label(s: &str) -> (r: Option<ArrowHeadStyle>)
    ensures
        r == head_named(s@),
{
    if same_str(s, "Filled") {
        Some(ArrowHeadStyle::FilledTriangle)
    } else if same_str(s, "Outline") {
        Some(ArrowHeadStyle::OutlineTriangle)
    } else if same_str(s, "Line") {
        Some(ArrowHeadStyle::LineOnly)
    } else if same_str(s, "None") {
        Some(ArrowHeadStyle::NoHead)
    } else if same_str(s, "Double") {
        Some(ArrowHeadStyle::DoubleEnded)
    } else {
        None
    }
}

/// The arrow head of a text, or a filled triangle.
pub open spec fn head_or_filled(s: Seq<char>) -> ArrowHeadStyle {
    match head_named(s) {
        Some(h) => h,
        None => ArrowHeadStyle::FilledTriangle,
    }
}

/// The text of a banner position in the list.
pub open spec fn position_text(p: CaptureInfoPosition) -> Seq<char> {
    match p {
        CaptureInfoPosition::TopLeft => "TopLeft"@,
        CaptureInfoPosition::TopRight => "TopRight"@,
        CaptureInfoPosition::BottomLeft => "BottomLeft"@,
        CaptureInfoPosition::BottomRight => "BottomRight"@,
    }
}

pub fn position_label(p: CaptureInfoPosition) -> (r: &'static str)
    ensures
        r@ == position_text(p),
{
    match p {
        CaptureInfoPosition::TopLeft => "TopLeft",
        CaptureInfoPosition::TopRight => "TopRight",
        CaptureInfoPosition::BottomLeft => "BottomLeft",
        CaptureInfoPosition::BottomRight => "BottomRight",
    }
}

/// The banner position of a text.
pub open spec fn position_named(s: Seq<char>) -> Option<CaptureInfoPosition> {
    if s == "TopLeft"@ {
        Some(CaptureInfoPosition::TopLeft)
    } else if s == "TopRight"@ {
        Some(CaptureInfoPosition::TopRight)
    } else if s == "BottomLeft"@ {
        Some(CaptureInfoPosition::BottomLeft)
    } else if s == "BottomRight"@ {
        Some(CaptureInfoPosition::BottomRight)
    } else {
        None
    }
}

pub fn position_from_label(s: &str) -> (r: Option<CaptureInfoPosition>)
    ensures
        r == position_named(s@),
{
    if same_str(s, "TopLeft") {
        Some(CaptureInfoPosition::TopLeft)
    } else if same_str(s, "TopRight") {
        Some(CaptureInfoPosition::TopRight)
    } else if same_str(s, "BottomLeft") {
        Some(CaptureInfoPosition::BottomLeft)
    } else if same_str(s, "BottomRight") {
        Some(CaptureInfoPosition::BottomRight)
    } else {
        None
    }
}

/// The text of a line style in the list.
pub open spec fn line_text(s: ArrowLineStyle) -> Seq<char> {
    match s {
        ArrowLineStyle::Solid => "Solid"@,
        ArrowLineStyle::Dashed => "Dashed"@,
        ArrowLineStyle::Dotted => "Dotted"@,
    }
}

pub fn arrow_line_label(s: ArrowLineStyle) -> (r: &'static str)
    ensures
        r@ == line_text(s),
{
    match s {
        ArrowLineStyle::Solid => "Solid",
        ArrowLineStyle::Dashed => "Dashed",
        ArrowLineStyle::Dotted => "Dotted",
    }
}

/// The line style of a text; solid for anything else.
pub open spec fn line_named(s: Seq<char>) -> ArrowLineStyle {
    if s == "Dashed"@ {
        ArrowLineStyle::Dashed
    } else if s == "Dotted"@ {
        ArrowLineStyle::Dotted
    } else {
        ArrowLineStyle::Solid
    }
}

pub fn line_from_label(s: &str) -> (r: ArrowLineStyle)
    ensures
        r == line_named(s@),
{
    if same_str(s, "Dashed") {
        ArrowLineStyle::Dashed
    } else if same_str(s, "Dotted") {
        ArrowLineStyle::Dotted
    } else {
        ArrowLineStyle::Solid
    }
}

/// The text of an alignment in the list.
pub open spec fn align_text(a: TextAlign) -> Seq<char> {
    match a {
        TextAlign::Left => "Left"@,
        TextAlign::Center => "Center"@,
        TextAlign::Right => "Right"@,
    }
}

pub fn text_align_label(a: TextAlign) -> (r: &'static str)
    ensures
        r@ == align_text(a),
{
    match a {
        TextAlign::Left => "Left",
        TextAlign::Center => "Center",
        TextAlign::Right => "Right",
    }
}

/// The alignment of a text; left for anything else.
pub open spec fn align_named(s: Seq<char>) -> TextAlign {
    if s == "Center"@ {
        TextAlign::Center
    } else if s == "Right"@ {
        TextAlign::Right
    } else {
        TextAlign::Left
    }
}

pub fn align_from_label(s: &str) -> (r: TextAlign)
    ensures
        r == align_named(s@),
{
    if same_str(s, "Center") {
        TextAlign::Center
    } else if same_str(s, "Right") {
        TextAlign::Right
    } else {
        TextAlign::Left
    }
}

/// The text of a list style in the list.
pub open spec fn list_text(l: TextListStyle) -> Seq<char> {
    match l {
        TextListStyle::Plain => "None"@,
        TextListStyle::Bullet => "Bullet"@,
        TextListStyle::Numbered => "Numbered"@,
    }
}

pub fn list_label(l: TextListStyle) -> (r: &'static str)
    ensures
        r@ == list_text(l),
{
    match l {
        TextListStyle::Plain => "None",
        TextListStyle::Bullet => "Bullet",
        TextListStyle::Numbered => "Numbered",
    }
}

/// The list style of a text; none for anything else.
pub open spec fn list_named(s: Seq<char>) -> TextListStyle {
    if s == "Bullet"@ {
        TextListStyle::Bullet
    } else if s == "Numbered"@ {
        TextListStyle::Numbered
    } else {
        TextListStyle::Plain
    }
}

pub fn list_from_label(s: &str) -> (r: TextListStyle)
    ensures
        r == list_named(s@),
{
    if same_str(s, "Bullet") {
        TextListStyle::Bullet
    } else if same_str(s, "Numbered") {
        TextListStyle::Numbered
    } else {
        TextListStyle::Plain
    }
}

/// Every style is read back from its own text.
pub proof fn law_labels_round_trip(
    h: ArrowHeadStyle,
    p: CaptureInfoPosition,
    l: ArrowLineStyle,
    a: TextAlign,
    t: TextListStyle,
)
    ensures
        head_named(head_text(h)) == Some(h),
        position_named(position_text(p)) == Some(p),
        line_named(line_text(l)) == l,
        align_named(align_text(a)) == a,
        list_named(list_text(t)) == t,
{
    reveal_strlit("Filled");
    reveal_strlit("Outline");
    reveal_strlit("Line");
    reveal_strlit("None");
    reveal_strlit("Double");
    reveal_strlit("TopLeft");
    reveal_strlit("TopRight");
    reveal_strlit("BottomLeft");
    reveal_strlit("BottomRight");
    reveal_strlit("Solid");
    reveal_strlit("Dashed");
    reveal_strlit("Dotted");
    reveal_strlit("Left");
    reveal_strlit("Center");
    reveal_strlit("Right");
    reveal_strlit("Bullet");
    reveal_strlit("Numbered");
    assert("Filled"@.len() != "Outline"@.len());
    assert("Filled"@.len() != "Line"@.len());
    assert("Filled"@.len() != "None"@.len());
    assert("Filled"@[0] != "Double"@[0]);
    assert("Outline"@.len() != "Line"@.len());
    assert("Outline"@.len() != "None"@.len());
    assert("Outline"@.len() != "Double"@.len());
    assert("Line"@[0] != "None"@[0]);
    assert("Line"@.len() != "Double"@.len());
    assert("None"@.len() != "Double"@.len());
    assert("TopLeft"@.len() != "TopRight"@.len());
    assert("TopLeft"@.len() != "BottomLeft"@.len());
    assert("TopLeft"@.len() != "BottomRight"@.len());
    assert("TopRight"@.len() != "BottomLeft"@.len());
    assert("TopRight"@.len() != "BottomRight"@.len());
    assert("BottomLeft"@.len() != "BottomRight"@.len());
    assert("Solid"@.len() != "Dashed"@.len());
    assert("Solid"@.len() != "Dotted"@.len());
    assert("Dashed"@[1] != "Dotted"@[1]);
    assert("Left"@.len() != "Center"@.len());
    assert("Left"@.len() != "Right"@.len());
    assert("Center"@.len() != "Right"@.len());
    assert("None"@.len() != "Bullet"@.len());
    assert("None"@.len() != "Numbered"@.len());
    assert("Bullet"@.len() != "Numbered"@.len());
}

/// Switching the fill on or off keeps its colour; on it can be seen through,
/// off it cannot be seen.
pub proof fn law_fill_keeps_its_colour(c: Rgba, on: bool)
    ensures
        filled(c, on).r == c.r && filled(c, on).g == c.g && filled(c, on).b == c.b,
        filled(c, true).a == 220,
        filled(c, false).a == 0,
        filled(filled(c, on), !on) == filled(c, !on),
{
}

proof fn lemma_without_adds(a: Seq<FieldKind>, b: Seq<FieldKind>, f: FieldKind)
    ensures
        without(a + b, f) == without(a, f) + without(b, f),
    decreases b.len(),
{
    if b.len() == 0 {
        assert(a + b =~= a);
        assert(without(a, f) + without(b, f) =~= without(a, f));
    } else {
        assert((a + b).drop_last() =~= a + b.drop_last());
        lemma_without_adds(a, b.drop_last(), f);
        assert(without(a + b, f) =~= without(a, f) + without(b, f));
    }
}

/// A field switched on comes last, unless it was on; one switched off leaves
/// the others in their order.
pub proof fn law_fields_keep_their_order(
    a: Seq<FieldKind>,
    f: FieldKind,
    g: FieldKind,
    b: Seq<FieldKind>,
)
    ensures
        toggled(a + b, f, false) == toggled(a, f, false) + toggled(b, f, false),
        g != f ==> toggled(seq![g], f, false) == seq![g],
        toggled(seq![f], f, false).len() == 0,
        a.contains(f) ==> toggled(a, f, true) == a,
        !a.contains(f) ==> toggled(a, f, true) == a + seq![f],
        !a.contains(f) ==> toggled(toggled(a, f, true), f, false) == toggled(a, f, false),
{
    lemma_without_adds(a, b, f);
    lemma_without_adds(a, seq![f], f);
    assert(seq![g].drop_last() =~= Seq::<FieldKind>::empty());
    assert(seq![f].drop_last() =~= Seq::<FieldKind>::empty());
    assert(without(seq![g].drop_last(), f) =~= Seq::<FieldKind>::empty());
    assert(without(seq![f].drop_last(), f) =~= Seq::<FieldKind>::empty());
    if g != f {
        assert(without(seq![g], f) =~= seq![g]);
    }
    assert(a.push(f) =~= a + seq![f]);
    assert(without(a, f) + without(seq![f], f) =~= without(a, f));
}

/// A colour is written as a number sign and two digits each for red, green and
/// blue; the digits, high before low, give the channel back.
pub proof fn law_hex_digits_give_the_channels(c: Rgba)
    ensures
        ({
            let s = hex_of(c);
            let v = |i: int| crate::text::hex_value(s[i])->Some_0;
            &&& s.len() == 7
            &&& s[0] == '#'
            &&& forall|i: int| 1 <= i < 7 ==> crate::text::hex_value(#[trigger] s[i]) is Some
            &&& 16 * v(1) + v(2) == c.r
            &&& 16 * v(3) + v(4) == c.g
            &&& 16 * v(5) + v(6) == c.b
        }),
{
    let s = hex_of(c);
    assert(s[1] == crate::text::hex_digit((c.r / 16) as nat));
    assert(s[2] == crate::text::hex_digit((c.r % 16) as nat));
    assert(s[3] == crate::text::hex_digit((c.g / 16) as nat));
    assert(s[4] == crate::text::hex_digit((c.g % 16) as nat));
    assert(s[5] == crate::text::hex_digit((c.b / 16) as nat));
    assert(s[6] == crate::text::hex_digit((c.b % 16) as nat));
}

/// A colour is read from six hexadecimal digits, with or without a number sign
/// before them, red first; anything else is refused. The alpha is the one that
/// was given.
pub proof fn law_colours_are_read_from_six_digits(s: Seq<char>, alpha: u8)
    requires
        s.len() == 0 || s[0] != '#',
    ensures
        color_of(seq!['#'] + s, alpha) == color_of(s, alpha),
        color_of(s, alpha) is Some <==> s.len() == 6 && (forall|i: int|
            0 <= i < s.len() ==> crate::text::hex_value(#[trigger] s[i]) is Some),
        color_of(s, alpha) matches Some(c) ==> {
            let v = |i: int| crate::text::hex_value(s[i])->Some_0;
            &&& c.a == alpha
            &&& (v(0) < 16 && v(1) < 16 ==> c.r == 16 * v(0) + v(1))
            &&& (v(2) < 16 && v(3) < 16 ==> c.g == 16 * v(2) + v(3))
            &&& (v(4) < 16 && v(5) < 16 ==> c.b == 16 * v(4) + v(5))
        },
{
    assert((seq!['#'] + s).subrange(1, s.len() as int + 1) =~= s);
}

/// The palette offers eight different opaque colours.
pub proof fn law_palette_differs(i: int, j: int)
    requires
        0 <= i < swatches().len(),
        0 <= j < swatches().len(),
    ensures
        swatches().len() == 8,
        swatches()[i].a == 255,
        swatches()[i] == swatches()[j] ==> i == j,
{
}

/// The editor begins with colours of its palette: red arrows and markers, blue
/// shapes, near-black texts and lines. Shapes are not filled, markers begin at
/// one, and only the arrows' shadow is a matter of the settings.
pub proof fn law_first_style(shadow: bool)
    ensures
        ({
            let s = initial_style(shadow);
            let colours = swatches();
            &&& s.arrow.shadow == shadow
            &&& s == (ToolStyleView {
                arrow: ArrowStyle { shadow, ..initial_style(!shadow).arrow },
                ..initial_style(!shadow)
            })
            &&& s.arrow.color == colours[0] && s.step.fill == colours[0]
            &&& s.shape.stroke == colours[4]
            &&& s.text.color == colours[6] && s.magnify.border == colours[6]
            &&& s.callout.stroke == colours[6] && s.callout.text_color == colours[6]
            &&& s.shape.fill.a == 0 && s.step.next_number == 1
            &&& s.step.text_color == (Rgba { r: 255, g: 255, b: 255, a: 255 })
            &&& s.magnify.circular && !s.text.frosted && !s.text.shadow
            &&& crate::px::is_pattern_of(s.arrow.thickness.bits, 8, 2, 8)
            &&& crate::px::is_pattern_of(s.text.size.bits, 44, 4, 32)
            &&& crate::px::is_pattern_of(s.shape.stroke_width.bits, 6, 1, 4)
            &&& crate::px::is_pattern_of(s.step.radius.bits, 36, 4, 32)
            &&& crate::px::is_pattern_of(s.blur_radius.bits, 24, 3, 16)
            &&& crate::px::is_pattern_of(s.magnify.border_width.bits, 6, 1, 4)
            &&& crate::px::is_pattern_of(s.magnify.zoom.bits, 6, 1, 4)
            &&& s.arrow.line_style is Solid && s.arrow.head_style is FilledTriangle
            &&& s.text.align is Left && s.text.list is Plain
            &&& s.info_position is BottomLeft
            &&& s.info_fields.len() == 3 && s.info_fields[0] is Timestamp
                && s.info_fields[1] is WindowTitle && s.info_fields[2] is OsVersion
        }),
{
}

/// Each choice is labelled with its own word; what is not the label of a choice
/// counts as the plainest one, and is no head and no corner.
pub proof fn law_labels_name_their_choices(
    s: Seq<char>,
    p: CaptureInfoPosition,
    h: ArrowHeadStyle,
)
    ensures
        position_text(p) == (if p is TopLeft || p is TopRight {
            "Top"@
        } else {
            "Bottom"@
        }) + (if p is TopLeft || p is BottomLeft {
            "Left"@
        } else {
            "Right"@
        }),
        head_text(h)[0] == (match h {
            ArrowHeadStyle::FilledTriangle => 'F',
            ArrowHeadStyle::OutlineTriangle => 'O',
            ArrowHeadStyle::LineOnly => 'L',
            ArrowHeadStyle::NoHead => 'N',
            ArrowHeadStyle::DoubleEnded => 'D',
        }),
        head_named(s) matches Some(k) ==> head_text(k) == s,
        position_named(s) matches Some(k) ==> position_text(k) == s,
        line_named(s) == ArrowLineStyle::Solid || line_text(line_named(s)) == s,
        align_named(s) == TextAlign::Left || align_text(align_named(s)) == s,
        list_named(s) == TextListStyle::Plain || list_text(list_named(s)) == s,
        line_text(ArrowLineStyle::Solid)[0] == 'S',
        line_text(ArrowLineStyle::Dashed)[1] == 'a',
        line_text(ArrowLineStyle::Dotted)[1] == 'o',
        align_text(TextAlign::Left)[0] == 'L',
        align_text(TextAlign::Center)[0] == 'C',
        align_text(TextAlign::Right)[0] == 'R',
        list_text(TextListStyle::Plain)[1] == 'o',
        list_text(TextListStyle::Bullet)[0] == 'B',
        list_text(TextListStyle::Numbered)[1] == 'u',
        head_or_filled(s) == ArrowHeadStyle::FilledTriangle || head_text(head_or_filled(s)) == s,
{
    reveal_strlit("Top");
    reveal_strlit("Bottom");
    reveal_strlit("Left");
    reveal_strlit("Right");
    reveal_strlit("TopLeft");
    reveal_strlit("TopRight");
    reveal_strlit("BottomLeft");
    reveal_strlit("BottomRight");
    reveal_strlit("Filled");
    reveal_strlit("Outline");
    reveal_strlit("Line");
    reveal_strlit("None");
    reveal_strlit("Double");
    reveal_strlit("Solid");
    reveal_strlit("Dashed");
    reveal_strlit("Dotted");
    reveal_strlit("Center");
    reveal_strlit("Bullet");
    reveal_strlit("Numbered");
    assert(position_text(p) =~= (if p is TopLeft || p is TopRight {
        "Top"@
    } else {
        "Bottom"@
    }) + (if p is TopLeft || p is BottomLeft {
        "Left"@
    } else {
        "Right"@
    }));
}

/// A colour as one number: red, green and blue, eight bits each.
pub open spec fn packed(c: Rgba) -> int {
    65536 * c.r + 256 * c.g + c.b
}

/// The palette goes from red over orange, yellow, green, blue and violet to near
/// black and near white.
pub proof fn law_palette_colours()
    ensures
        packed(swatches()[0]) == 0xdc_2626,
        packed(swatches()[1]) == 0xea_580c,
        packed(swatches()[2]) == 0xea_b308,
        packed(swatches()[3]) == 0x16_a34a,
        packed(swatches()[4]) == 0x25_63eb,
        packed(swatches()[5]) == 0x93_33ea,
        packed(swatches()[6]) == 0x0a_0a0a,
        packed(swatches()[7]) == 0xf0_f0f0,
{
}

} // verus!
