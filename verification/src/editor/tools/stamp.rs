//! Stamps: pictures shipped with the program, or supplied by the user.
use vstd::prelude::*;
use crate::codec::decode_image;
use crate::editor::document::{AnnotationNode, NodeId, NodeView, StampSource, StampView};
use crate::image::RgbaImage;
use crate::px::Bounds;
use crate::text::same_str;

verus! {

/// How many stamps are shipped.
pub const BUILTIN_COUNT: usize = 4;

/// The names of the stamps that are shipped, in order.
pub open spec fn names() -> Seq<Seq<char>> {
    seq!["arrow"@, "check"@, "x"@, "star"@]
}

/// The names of the stamps that are shipped.
pub fn builtin_names() -> (r: Vec<&'static str>)
    ensures
        r@.len() == names().len(),
        forall|i: int| 0 <= i < r@.len() ==> (#[trigger] r@[i])@ == names()[i],
{
    let mut out: Vec<&'static str> = Vec::new();
    out.push("arrow");
    out.push("check");
    out.push("x");
    out.push("star");
    out
}

/// The first place of a name in the list.
pub open spec fn index_of(list: Seq<Seq<char>>, name: Seq<char>) -> Option<int>
    decreases list.len(),
{
    if list.len() == 0 {
        None
    } else {
        match index_of(list.drop_last(), name) {
            Some(i) => Some(i),
            None => if list.last() == name {
                Some(list.len() - 1)
            } else {
                None
            },
        }
    }
}

/// The file of a shipped stamp, out of the list of files in the order of the
/// names.
pub open spec fn bytes_of(name: Seq<char>, assets: Seq<Vec<u8>>) -> Option<Seq<u8>> {
    match index_of(names(), name) {
        Some(i) => Some(assets[i]@),
        None => None,
    }
}

/// The file of a shipped stamp.
pub fn builtin_bytes<'a>(name: &str, assets: &'a [Vec<u8>]) -> (r: Option<&'a Vec<u8>>)
    requires
        assets@.len() == BUILTIN_COUNT,
    ensures
        match r {
            Some(b) => bytes_of(name@, assets@) == Some(b@),
            None => bytes_of(name@, assets@) is None,
        },
{
    proof {
        reveal_with_fuel(index_of, 5);
        let n = names();
        assert(n.drop_last().drop_last().drop_last().drop_last() =~= Seq::empty());
        assert(n.drop_last().drop_last().drop_last() =~= seq!["arrow"@]);
        assert(n.drop_last().drop_last() =~= seq!["arrow"@, "check"@]);
        assert(n.drop_last() =~= seq!["arrow"@, "check"@, "x"@]);
    }
    if same_str(name, "arrow") {
        Some(&assets[0])
    } else if same_str(name, "check") {
        Some(&assets[1])
    } else if same_str(name, "x") {
        Some(&assets[2])
    } else if same_str(name, "star") {
        Some(&assets[3])
    } else {
        None
    }
}

/// Why a stamp has no picture.
#[derive(Debug)]
pub enum StampFault {
    /// No stamp of this name is shipped, or its file cannot be read.
    Unknown(String),
    /// The user's picture cannot be read.
    Unreadable,
}

/// The picture of a stamp: its size and its RGBA bytes.
pub open spec fn picture_of(source: StampView, assets: Seq<Vec<u8>>) -> Option<
    (u32, u32, Seq<u8>),
> {
    match source {
        StampView::Builtin { name } => match bytes_of(name, assets) {
            Some(b) => crate::codec::decoded_image(b),
            None => None,
        },
        StampView::Inline { png } => crate::codec::decoded_image(png),
    }
}

/// The picture of a stamp.
pub fn resolve(source: &StampSource, assets: &[Vec<u8>]) -> (r: Result<RgbaImage, StampFault>)
    requires
        assets@.len() == BUILTIN_COUNT,
    ensures
        match r {
            Ok(img) => img.wf() && picture_of(source@, assets@) == Some(
                (img.width, img.height, img.raw@),
            ),
            Err(f) => picture_of(source@, assets@) is None && match source@ {
                StampView::Builtin { name } => f matches StampFault::Unknown(n) && n@ == name,
                StampView::Inline { .. } => f is Unreadable,
            },
        },
{
    match source {
        StampSource::Builtin { name } => match builtin_bytes(name.as_str(), assets) {
            Some(bytes) => match decode_image(bytes) {
                Some(img) => Ok(img),
                None => Err(StampFault::Unknown(name.clone())),
            },
            None => Err(StampFault::Unknown(name.clone())),
        },
        StampSource::Inline { png } => match decode_image(png) {
            Some(img) => Ok(img),
            None => Err(StampFault::Unreadable),
        },
    }
}

/// A new stamp.
pub fn make(source: StampSource, rect: Bounds) -> (r: AnnotationNode)
    ensures
        crate::editor::document::is_random_uuid(r@.id().value),
        r@ == (NodeView::Stamp { id: r@.id(), source: source@, rect }),
{
    AnnotationNode::Stamp { id: NodeId::random(), source, rect }
}

/// Exactly the four names have files, whatever the files are; and where each file can be
/// read as a picture with pixels, each of the names has such a picture.
pub proof fn law_builtins_decode(name: Seq<char>, assets: Seq<Vec<u8>>)
    ensures
        bytes_of(name, assets) is Some <==> names().contains(name),
        assets.len() == BUILTIN_COUNT && (forall|i: int|
            0 <= i < assets.len() ==> (crate::codec::decoded_image(
                (#[trigger] assets[i])@,
            ) matches Some((w, h, _)) && w > 0 && h > 0)) && names().contains(name) ==> (picture_of(
            StampView::Builtin { name },
            assets,
        ) matches Some((w, h, _)) && w > 0 && h > 0),
{
    reveal_with_fuel(index_of, 5);
    let n = names();
    assert(n.drop_last().drop_last().drop_last().drop_last() =~= Seq::empty());
    assert(n.drop_last().drop_last().drop_last() =~= seq!["arrow"@]);
    assert(n.drop_last().drop_last() =~= seq!["arrow"@, "check"@]);
    assert(n.drop_last() =~= seq!["arrow"@, "check"@, "x"@]);
    assert(n[0] == "arrow"@ && n[1] == "check"@ && n[2] == "x"@ && n[3] == "star"@);
    if n.contains(name) {
        assert(name == n[0] || name == n[1] || name == n[2] || name == n[3]);
        let i = index_of(n, name)->Some_0;
        assert(0 <= i < 4);
        if assets.len() == BUILTIN_COUNT {
            assert(bytes_of(name, assets) == Some(assets[i]@));
        }
    }
}

/// The names of the shipped stamps differ, and each stands for the file at its
/// own place.
pub proof fn law_names_stand_for_their_files(i: int, j: int, assets: Seq<Vec<u8>>)
    requires
        0 <= i < names().len(),
        0 <= j < names().len(),
    ensures
        names()[i] == names()[j] ==> i == j,
        bytes_of(names()[i], assets) == Some(assets[i]@),
        picture_of(StampView::Inline { png: assets[i]@ }, assets) == picture_of(
            StampView::Builtin { name: names()[i] },
            assets,
        ),
{
    reveal_strlit("arrow");
    reveal_strlit("check");
    reveal_strlit("x");
    reveal_strlit("star");
    assert("arrow"@[0] == 'a' && "check"@[0] == 'c' && "x"@[0] == 'x' && "star"@[0] == 's');
    reveal_with_fuel(index_of, 5);
    let n = names();
    assert(n.drop_last() =~= seq!["arrow"@, "check"@, "x"@]);
    assert(n.drop_last().drop_last() =~= seq!["arrow"@, "check"@]);
    assert(n.drop_last().drop_last().drop_last() =~= seq!["arrow"@]);
    assert(n.drop_last().drop_last().drop_last().drop_last() =~= Seq::<Seq<char>>::empty());
}

} // verus!
