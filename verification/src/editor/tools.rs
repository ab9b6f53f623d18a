//! Annotation tools: what each one puts into the document, and the selection
//! and transform rules that they share.
pub mod arrow;
pub mod blur;
pub mod callout;
pub mod capture_info;
pub mod cursor_edit;
pub mod magnify;
pub mod selection;
pub mod shape;
pub mod stamp;
pub mod step;
pub mod text;

use vstd::prelude::*;

verus! {

/// The tools of the editor.
#[derive(Debug, Clone, Copy, PartialEq, Eq, Structural)]
pub enum Tool {
    Select,
    Arrow,
    Text,
    Callout,
    Rect,
    Ellipse,
    Step,
    Magnify,
    /// A region that is blurred when the picture is exported.
    Blur,
    /// A banner with the circumstances of the capture, placed by a click.
    CaptureInfo,
}

impl Tool {
    pub open spec fn text(self) -> Seq<char> {
        match self {
            Tool::Select => "Select"@,
            Tool::Arrow => "Arrow"@,
            Tool::Text => "Text"@,
            Tool::Callout => "Callout"@,
            Tool::Rect => "Rect"@,
            Tool::Ellipse => "Ellipse"@,
            Tool::Step => "Step"@,
            Tool::Magnify => "Magnify"@,
            Tool::Blur => "Blur"@,
            Tool::CaptureInfo => "Info"@,
        }
    }

    /// The name shown in the tool bar.
    pub fn label(self) -> (r: &'static str)
        ensures
            r@ == self.text(),
    {
        match self {
            Tool::Select => "Select",
            Tool::Arrow => "Arrow",
            Tool::Text => "Text",
            Tool::Callout => "Callout",
            Tool::Rect => "Rect",
            Tool::Ellipse => "Ellipse",
            Tool::Step => "Step",
            Tool::Magnify => "Magnify",
            Tool::Blur => "Blur",
            Tool::CaptureInfo => "Info",
        }
    }
}

/// Every tool has a label of its own, which begins as its name does.
pub proof fn law_tools_have_labels(a: Tool, b: Tool)
    ensures
        a.text() == b.text() ==> a == b,
        a.text()[0] == (match a {
            Tool::Select | Tool::Step => 'S',
            Tool::Arrow => 'A',
            Tool::Text => 'T',
            Tool::Callout => 'C',
            Tool::Rect => 'R',
            Tool::Ellipse => 'E',
            Tool::Magnify => 'M',
            Tool::Blur => 'B',
            Tool::CaptureInfo => 'I',
        }),
        a == Tool::Step ==> a.text()[1] == 't',
        a == Tool::Select ==> a.text()[1] == 'e',
{
    reveal_strlit("Select");
    reveal_strlit("Arrow");
    reveal_strlit("Text");
    reveal_strlit("Callout");
    reveal_strlit("Rect");
    reveal_strlit("Ellipse");
    reveal_strlit("Step");
    reveal_strlit("Magnify");
    reveal_strlit("Blur");
    reveal_strlit("Info");
    assert(a.text()[0] != b.text()[0] || a.text()[1] != b.text()[1] || a == b);
}

} // verus!
