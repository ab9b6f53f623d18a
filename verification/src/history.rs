//! The window of recent captures: which files it lists, in which order, and what
//! each card says.
use vstd::prelude::*;
use crate::export::clipboard::strip_verbatim;
use crate::text::{
    decimal_chars, digit_char, from_chars, is_text, optional_text, push_chars, push_text, to_chars,
    to_lower,
};

verus! {

/// The most files that the window lists.
pub const MAX_ENTRIES: usize = 60;

/// The box that thumbnails are scaled into.
pub const THUMB_W: u32 = 320;

pub const THUMB_H: u32 = 180;

// ---------------------------------------------------------------------------
// Files
// ---------------------------------------------------------------------------

/// The kinds of files that are listed.
#[derive(Debug, Clone, Copy, PartialEq, Eq, Structural)]
pub enum Kind {
    Png,
    Gif,
}

impl Kind {
    /// The text on the badge.
    pub fn label(self) -> (r: &'static str)
        ensures
            r@ == match self {
                Kind::Png => "PNG"@,
                Kind::Gif => "GIF"@,
            },
    {
        match self {
            Kind::Png => "PNG",
            Kind::Gif => "GIF",
        }
    }

    /// The style class of the badge.
    pub fn class(self) -> (r: &'static str)
        ensures
            r@ == match self {
                Kind::Png => "png"@,
                Kind::Gif => "gif"@,
            },
    {
        match self {
            Kind::Png => "png",
            Kind::Gif => "gif",
        }
    }
}

/// The kind that a file extension stands for, in whatever case it is written.
pub open spec fn kind_of(extension: Option<Seq<char>>) -> Option<Kind> {
    match extension {
        Some(e) => if crate::text::lower(e) == "png"@ {
            Some(Kind::Png)
        } else if crate::text::lower(e) == "gif"@ {
            Some(Kind::Gif)
        } else {
            None
        },
        None => None,
    }
}

/// The kind that a file extension stands for.
pub fn file_kind(extension: &Option<String>) -> (r: Option<Kind>)
    ensures
        r == kind_of(optional_text(*extension)),
{
    match extension {
        Some(e) => {
            let chars = to_chars(e.as_str());
            let low = to_lower(chars.as_slice());
            if is_text(low.as_slice(), "png") {
                Some(Kind::Png)
            } else if is_text(low.as_slice(), "gif") {
                Some(Kind::Gif)
            } else {
                None
            }
        },
        None => None,
    }
}

/// What the directory says about a file. Times are nanoseconds since 1970.
#[derive(Debug)]
pub struct Found {
    pub path: String,
    pub extension: Option<String>,
    pub is_file: bool,
    /// The size and the time of the last change, if they could be read; the time may
    /// be missing by itself.
    pub meta: Option<(u64, Option<i128>)>,
}

/// What the directory says, as plain values.
#[verifier::ext_equal]
pub struct FoundView {
    pub path: Seq<char>,
    pub extension: Option<Seq<char>>,
    pub is_file: bool,
    pub meta: Option<(u64, Option<i128>)>,
}

impl View for Found {
    type V = FoundView;

    open spec fn view(&self) -> FoundView {
        FoundView {
            path: self.path@,
            extension: optional_text(self.extension),
            is_file: self.is_file,
            meta: self.meta,
        }
    }
}

/// A file that is listed.
#[derive(Debug)]
pub struct Shot {
    pub path: String,
    pub kind: Kind,
    pub size_bytes: u64,
    pub modified: Option<i128>,
}

/// A listed file as plain values.
#[verifier::ext_equal]
pub struct ShotView {
    pub path: Seq<char>,
    pub kind: Kind,
    pub size_bytes: u64,
    pub modified: Option<i128>,
}

impl View for Shot {
    type V = ShotView;

    open spec fn view(&self) -> ShotView {
        ShotView {
            path: self.path@,
            kind: self.kind,
            size_bytes: self.size_bytes,
            modified: self.modified,
        }
    }
}

/// The views of what the directory says.
pub open spec fn found_views(v: Seq<Found>) -> Seq<FoundView> {
    v.map_values(|f: Found| f@)
}

/// The views of listed files.
pub open spec fn shot_views(v: Seq<Shot>) -> Seq<ShotView> {
    v.map_values(|s: Shot| s@)
}

/// The file as it is listed; none if it is no file, no picture, or cannot be read.
pub open spec fn shot_of(f: FoundView) -> Option<ShotView> {
    match (kind_of(f.extension), f.meta) {
        (Some(kind), Some((size_bytes, modified))) => if f.is_file {
            Some(ShotView { path: f.path, kind, size_bytes, modified })
        } else {
            None
        },
        _ => None,
    }
}

// ---------------------------------------------------------------------------
// Order
// ---------------------------------------------------------------------------

/// Whether `a` was changed before `b`; a file without a time counts as the oldest.
pub open spec fn older(a: Option<i128>, b: Option<i128>) -> bool {
    match (a, b) {
        (None, Some(_)) => true,
        (Some(x), Some(y)) => x < y,
        _ => false,
    }
}

/// The list with a file put behind all that are not older.
pub open spec fn inserted(s: Seq<ShotView>, p: ShotView) -> Seq<ShotView>
    decreases s.len(),
{
    if s.len() == 0 {
        seq![p]
    } else if older(s.last().modified, p.modified) {
        inserted(s.drop_last(), p).push(s.last())
    } else {
        s.push(p)
    }
}

/// The files that are listed, the newest first; files of one time stay in the order
/// in which they were found.
pub open spec fn newest_first(s: Seq<FoundView>) -> Seq<ShotView>
    decreases s.len(),
{
    if s.len() == 0 {
        Seq::empty()
    } else {
        match shot_of(s.last()) {
            Some(p) => inserted(newest_first(s.drop_last()), p),
            None => newest_first(s.drop_last()),
        }
    }
}

/// The first of a list, at most so many.
pub open spec fn first<T>(s: Seq<T>, most: nat) -> Seq<T> {
    if s.len() <= most {
        s
    } else {
        s.take(most as int)
    }
}

proof fn lemma_inserted_at(s: Seq<ShotView>, p: ShotView, pos: int)
    requires
        0 <= pos <= s.len(),
        pos > 0 ==> !older(s[pos - 1].modified, p.modified),
        forall|k: int| pos <= k < s.len() ==> older(#[trigger] s[k].modified, p.modified),
    ensures
        inserted(s, p) == s.insert(pos, p),
    decreases s.len(),
{
    if pos == s.len() {
        assert(s.insert(pos, p) =~= s.push(p));
    } else {
        let front = s.drop_last();
        assert(older(s[s.len() - 1].modified, p.modified));
        assert forall|k: int| pos <= k < front.len() implies older(
            #[trigger] front[k].modified,
            p.modified,
        ) by {
            assert(front[k] == s[k]);
        }
        lemma_inserted_at(front, p, pos);
        assert(front.insert(pos, p).push(s.last()) =~= s.insert(pos, p));
    }
}

fn is_older(a: Option<i128>, b: Option<i128>) -> (r: bool)
    ensures
        r == older(a, b),
{
    match (a, b) {
        (None, Some(_)) => true,
        (Some(x), Some(y)) => x < y,
        _ => false,
    }
}

/// Lists what a directory holds: the pictures, the newest first, and at most
/// `MAX_ENTRIES` of them.
pub fn scan(found: Vec<Found>) -> (r: Vec<Shot>)
    ensures
        shot_views(r@) == first(newest_first(found_views(found@)), MAX_ENTRIES as nat),
{
    let ghost all = found_views(found@);
    let mut out: Vec<Shot> = Vec::new();
    let mut i: usize = 0;
    while i < found.len()
        invariant
            i <= found@.len(),
            all == found_views(found@),
            shot_views(out@) == newest_first(all.take(i as int)),
        decreases found@.len() - i,
    {
        assert(all.take(i + 1).drop_last() =~= all.take(i as int));
        assert(all.take(i + 1).last() == found@[i as int]@);
        let f = &found[i];
        if f.is_file {
            if let Some(kind) = file_kind(&f.extension) {
                if let Some((size_bytes, modified)) = f.meta {
                    let shot = Shot { path: f.path.clone(), kind, size_bytes, modified };
                    let ghost before = shot_views(out@);
                    assert(shot_of(f@) == Some(shot@));
                    let mut pos: usize = out.len();
                    while pos > 0 && is_older(out[pos - 1].modified, modified)
                        invariant
                            pos <= out@.len(),
                            forall|k: int|
                                pos <= k < out@.len() ==> older(
                                    #[trigger] out@[k].modified,
                                    modified,
                                ),
                        decreases pos,
                    {
                        pos -= 1;
                    }
                    proof {
                        assert forall|k: int| pos <= k < before.len() implies older(
                            #[trigger] before[k].modified,
                            modified,
                        ) by {
                            assert(before[k] == out@[k]@);
                        }
                        if pos > 0 {
                            assert(before[pos - 1] == out@[pos - 1]@);
                        }
                        lemma_inserted_at(before, shot@, pos as int);
                    }
                    let ghost view = shot@;
                    out.insert(pos, shot);
                    assert(shot_views(out@) =~= before.insert(pos as int, view));
                }
            }
        }
        i += 1;
    }
    assert(all.take(i as int) =~= all);
    let ghost full = out@;
    if out.len() > MAX_ENTRIES {
        out.truncate(MAX_ENTRIES);
        assert(shot_views(out@) =~= shot_views(full).take(MAX_ENTRIES as int));
    }
    out
}

// ---------------------------------------------------------------------------
// Entries
// ---------------------------------------------------------------------------

/// A card of the window.
#[derive(Debug)]
pub struct Entry {
    pub shot: Shot,
    pub thumb_data_uri: String,
}

/// The views of cards: the file and its thumbnail.
pub open spec fn entry_views(v: Seq<Entry>) -> Seq<(ShotView, Seq<char>)> {
    v.map_values(|e: Entry| (e.shot@, e.thumb_data_uri@))
}

/// The cards of the files that have a thumbnail.
pub open spec fn carded(shots: Seq<ShotView>, thumbs: Seq<Option<Seq<char>>>) -> Seq<
    (ShotView, Seq<char>),
>
    decreases shots.len(),
{
    if shots.len() == 0 || thumbs.len() != shots.len() {
        Seq::empty()
    } else {
        let head = carded(shots.drop_last(), thumbs.drop_last());
        match thumbs.last() {
            Some(uri) => head.push((shots.last(), uri)),
            None => head,
        }
    }
}

/// The views of thumbnails.
pub open spec fn thumb_views(v: Seq<Option<String>>) -> Seq<Option<Seq<char>>> {
    v.map_values(|t: Option<String>| optional_text(t))
}

/// The thumbnail of a listed file, from the bytes of the file. A file whose bytes
/// cannot be read as a picture has none.
pub fn build_thumb(kind: Kind, bytes: &Vec<u8>) -> (r: Option<String>)
    ensures
        optional_text(r) == crate::codec::file_thumb(bytes@, kind == Kind::Gif, THUMB_W, THUMB_H),
{
    crate::codec::thumb_of_file(bytes, kind, THUMB_W, THUMB_H)
}

/// Puts files and thumbnails together; a file without a thumbnail is dropped.
pub fn cards(shots: Vec<Shot>, thumbs: Vec<Option<String>>) -> (r: Vec<Entry>)
    requires
        shots@.len() == thumbs@.len(),
    ensures
        entry_views(r@) == carded(shot_views(shots@), thumb_views(thumbs@)),
{
    let ghost all = shot_views(shots@);
    let ghost uris = thumb_views(thumbs@);
    let mut out: Vec<Entry> = Vec::new();
    let mut i: usize = 0;
    while i < shots.len()
        invariant
            i <= shots@.len(),
            shots@.len() == thumbs@.len(),
            all == shot_views(shots@),
            uris == thumb_views(thumbs@),
            entry_views(out@) == carded(all.take(i as int), uris.take(i as int)),
        decreases shots@.len() - i,
    {
        assert(all.take(i + 1).drop_last() =~= all.take(i as int));
        assert(uris.take(i + 1).drop_last() =~= uris.take(i as int));
        if let Some(uri) = &thumbs[i] {
            let shot = Shot {
                path: shots[i].path.clone(),
                kind: shots[i].kind,
                size_bytes: shots[i].size_bytes,
                modified: shots[i].modified,
            };
            assert(shot@ =~= all[i as int]);
            let ghost before = entry_views(out@);
            out.push(Entry { shot, thumb_data_uri: uri.clone() });
            assert(entry_views(out@) =~= before.push((all[i as int], uri@)));
        }
        i += 1;
    }
    assert(all.take(i as int) =~= all);
    assert(uris.take(i as int) =~= uris);
    out
}

// ---------------------------------------------------------------------------
// Texts
// ---------------------------------------------------------------------------

/// A whole number rounded to 53 binary digits, to the even one of two neighbours that
/// are equally near. Smaller numbers stay as they are.
pub open spec fn rounded_53(n: int, unit: int) -> int {
    let rest = n % unit;
    let down = n - rest;
    if 2 * rest > unit || (2 * rest == unit && (down / unit) % 2 == 1) {
        down + unit
    } else {
        down
    }
}

/// What one binary digit at the end of a 53-digit number is worth.
pub open spec fn unit_of(n: int) -> int {
    if n < 0x20_0000_0000_0000 {
        1
    } else if n < 0x40_0000_0000_0000 {
        2
    } else if n < 0x80_0000_0000_0000 {
        4
    } else if n < 0x100_0000_0000_0000 {
        8
    } else if n < 0x200_0000_0000_0000 {
        16
    } else if n < 0x400_0000_0000_0000 {
        32
    } else if n < 0x800_0000_0000_0000 {
        64
    } else if n < 0x1000_0000_0000_0000 {
        128
    } else if n < 0x2000_0000_0000_0000 {
        256
    } else if n < 0x4000_0000_0000_0000 {
        512
    } else if n < 0x8000_0000_0000_0000 {
        1024
    } else {
        2048
    }
}

/// `n / d` in tenths, to the even one of two tenths that are equally near.
pub open spec fn tenths(n: int, d: int) -> int {
    let q = 10 * n / d;
    let rest = 10 * n % d;
    if 2 * rest > d || (2 * rest == d && q % 2 == 1) {
        q + 1
    } else {
        q
    }
}

/// A number of tenths with one digit behind the point.
pub open spec fn tenths_text(t: int) -> Seq<char> {
    crate::text::decimal((t / 10) as nat) + seq!['.', crate::text::digit((t % 10) as nat)]
}

/// A size in the largest unit that it reaches.
pub open spec fn size_text(bytes: u64) -> Seq<char> {
    let n = rounded_53(bytes as int, unit_of(bytes as int));
    if n < 1024 {
        crate::text::decimal(bytes as nat) + " B"@
    } else if n < 0x10_0000 {
        tenths_text(tenths(n, 1024)) + " KB"@
    } else if n < 0x4000_0000 {
        tenths_text(tenths(n, 0x10_0000)) + " MB"@
    } else {
        tenths_text(tenths(n, 0x4000_0000)) + " GB"@
    }
}

fn last_unit(n: u64) -> (r: u128)
    ensures
        r == unit_of(n as int),
        1 <= r <= 2048,
{
    if n < 0x20_0000_0000_0000 {
        1
    } else if n < 0x40_0000_0000_0000 {
        2
    } else if n < 0x80_0000_0000_0000 {
        4
    } else if n < 0x100_0000_0000_0000 {
        8
    } else if n < 0x200_0000_0000_0000 {
        16
    } else if n < 0x400_0000_0000_0000 {
        32
    } else if n < 0x800_0000_0000_0000 {
        64
    } else if n < 0x1000_0000_0000_0000 {
        128
    } else if n < 0x2000_0000_0000_0000 {
        256
    } else if n < 0x4000_0000_0000_0000 {
        512
    } else if n < 0x8000_0000_0000_0000 {
        1024
    } else {
        2048
    }
}

fn in_tenths(n: u128, d: u128) -> (r: u128)
    requires
        n <= 0x1_0000_0000_0000_0800,
        1024 <= d <= 0x4000_0000,
    ensures
        r == tenths(n as int, d as int),
        r <= 0x1_0000_0000_0000_0000,
{
    let q: u128 = 10 * n / d;
    let rest: u128 = 10 * n % d;
    assert(q <= 10 * n / 1024) by (nonlinear_arith)
        requires
            q == 10 * n / d as int,
            1024 <= d,
            0 <= n,
    ;
    if 2 * rest > d || (2 * rest == d && q % 2 == 1) {
        q + 1
    } else {
        q
    }
}

fn push_tenths(out: &mut Vec<char>, t: u128)
    requires
        t <= 0x1_0000_0000_0000_0000,
    ensures
        final(out)@ == old(out)@ + tenths_text(t as int),
{
    let whole = decimal_chars((t / 10) as u64);
    push_chars(out, whole.as_slice());
    out.push('.');
    out.push(digit_char((t % 10) as u64));
    assert(out@ =~= old(out)@ + tenths_text(t as int));
}

/// A size in the largest unit that it reaches.
pub fn human_size(bytes: u64) -> (r: String)
    ensures
        r@ == size_text(bytes),
{
    let unit = last_unit(bytes);
    let n = bytes as u128;
    let rest: u128 = n % unit;
    let down: u128 = n - rest;
    let rounded: u128 = if 2 * rest > unit || (2 * rest == unit && (down / unit) % 2 == 1) {
        down + unit
    } else {
        down
    };
    assert(rounded == rounded_53(bytes as int, unit_of(bytes as int)));
    let mut out: Vec<char> = Vec::new();
    if rounded < 1024 {
        let whole = decimal_chars(bytes);
        push_chars(&mut out, whole.as_slice());
        push_text(&mut out, " B");
    } else if rounded < 0x10_0000 {
        push_tenths(&mut out, in_tenths(rounded, 1024));
        push_text(&mut out, " KB");
    } else if rounded < 0x4000_0000 {
        push_tenths(&mut out, in_tenths(rounded, 0x10_0000));
        push_text(&mut out, " MB");
    } else {
        push_tenths(&mut out, in_tenths(rounded, 0x4000_0000));
        push_text(&mut out, " GB");
    }
    assert(out@ =~= size_text(bytes));
    from_chars(out.as_slice())
}

/// How long ago something was, from the whole seconds that have passed; none if it
/// lies in the future.
pub open spec fn ago_text(elapsed: Option<u64>) -> Seq<char> {
    match elapsed {
        Some(secs) => if secs < 60 {
            "just now"@
        } else if secs < 3600 {
            crate::text::decimal((secs / 60) as nat) + "m ago"@
        } else if secs < 86_400 {
            crate::text::decimal((secs / 3600) as nat) + "h ago"@
        } else {
            crate::text::decimal((secs / 86_400) as nat) + "d ago"@
        },
        None => "recently"@,
    }
}

/// How long ago something was.
pub fn relative_time(elapsed: Option<u64>) -> (r: String)
    ensures
        r@ == ago_text(elapsed),
{
    match elapsed {
        Some(secs) => {
            if secs < 60 {
                return "just now".to_owned();
            }
            let mut out: Vec<char>;
            if secs < 3600 {
                out = decimal_chars(secs / 60);
                push_text(&mut out, "m ago");
            } else if secs < 86_400 {
                out = decimal_chars(secs / 3600);
                push_text(&mut out, "h ago");
            } else {
                out = decimal_chars(secs / 86_400);
                push_text(&mut out, "d ago");
            }
            from_chars(out.as_slice())
        },
        None => "recently".to_owned(),
    }
}

/// When a file was changed.
#[derive(Debug, Clone, Copy, PartialEq, Eq, Structural)]
pub enum Age {
    /// Not known.
    Unknown,
    /// So many whole seconds ago.
    Seconds(u64),
    /// Later than now.
    Ahead,
}

/// The age at the end of a card's second line.
pub open spec fn age_text(a: Age) -> Seq<char> {
    match a {
        Age::Unknown => "\u{2014}"@,
        Age::Seconds(n) => ago_text(Some(n)),
        Age::Ahead => ago_text(None),
    }
}

/// The age of a file: `now` and the time of the change in nanoseconds.
pub open spec fn age_of(now: i128, modified: Option<i128>) -> Age {
    match modified {
        None => Age::Unknown,
        Some(t) => if t > now {
            Age::Ahead
        } else if (now - t) / 1_000_000_000 <= u64::MAX {
            Age::Seconds(((now - t) / 1_000_000_000) as u64)
        } else {
            Age::Seconds(u64::MAX)
        },
    }
}

/// The age of a file.
pub fn age(now: i128, modified: Option<i128>) -> (r: Age)
    requires
        modified matches Some(t) ==> now - t <= i128::MAX,
    ensures
        r == age_of(now, modified),
{
    match modified {
        None => Age::Unknown,
        Some(t) => {
            if t > now {
                Age::Ahead
            } else {
                let secs: i128 = (now - t) / 1_000_000_000;
                if secs <= u64::MAX as i128 {
                    Age::Seconds(secs as u64)
                } else {
                    Age::Seconds(u64::MAX)
                }
            }
        },
    }
}

/// The second line of a card: its size and its age.
pub fn card_line(size_bytes: u64, age: Age) -> (r: String)
    ensures
        r@ == size_text(size_bytes) + " \u{2022} "@ + age_text(age),
{
    let size = human_size(size_bytes);
    let mut out = to_chars(size.as_str());
    push_text(&mut out, " \u{2022} ");
    let when = match age {
        Age::Unknown => "\u{2014}".to_owned(),
        Age::Seconds(n) => relative_time(Some(n)),
        Age::Ahead => relative_time(None),
    };
    push_text(&mut out, when.as_str());
    from_chars(out.as_slice())
}

/// The message after the picture of a card was copied: `failure` says why that
/// failed.
pub fn copied_message(kind: Kind, failure: Option<String>) -> (r: String)
    ensures
        r@ == match optional_text(failure) {
            Some(e) => "Copy failed: "@ + e,
            None => match kind {
                Kind::Png => "Copied image to clipboard"@,
                Kind::Gif => "Copied GIF (file drop) to clipboard"@,
            },
        },
{
    match failure {
        Some(e) => {
            let mut out = to_chars("Copy failed: ");
            push_text(&mut out, e.as_str());
            from_chars(out.as_slice())
        },
        None => match kind {
            Kind::Png => "Copied image to clipboard".to_owned(),
            Kind::Gif => "Copied GIF (file drop) to clipboard".to_owned(),
        },
    }
}

/// The message after the path of a card was copied.
pub fn path_copied_message(failure: Option<String>) -> (r: String)
    ensures
        r@ == match optional_text(failure) {
            Some(e) => "Copy failed: "@ + e,
            None => "Copied path to clipboard"@,
        },
{
    match failure {
        Some(e) => {
            let mut out = to_chars("Copy failed: ");
            push_text(&mut out, e.as_str());
            from_chars(out.as_slice())
        },
        None => "Copied path to clipboard".to_owned(),
    }
}

/// The text that goes to the clipboard for a path.
pub fn clean_path(path: &str) -> (r: String)
    ensures
        r@ == crate::export::clipboard::friendly_path(path@),
{
    let chars = to_chars(path);
    let clean = strip_verbatim(chars.as_slice());
    from_chars(clean.as_slice())
}

// ---------------------------------------------------------------------------
// Laws
// ---------------------------------------------------------------------------

/// No file stands before a newer one.
pub open spec fn is_sorted(s: Seq<ShotView>) -> bool {
    forall|i: int, j: int|
        0 <= i < j < s.len() ==> !older(#[trigger] s[i].modified, #[trigger] s[j].modified)
}

/// The files of a directory that are pictures, in the order in which they were found.
pub open spec fn pictures(s: Seq<FoundView>) -> Seq<ShotView>
    decreases s.len(),
{
    if s.len() == 0 {
        Seq::empty()
    } else {
        match shot_of(s.last()) {
            Some(p) => pictures(s.drop_last()).push(p),
            None => pictures(s.drop_last()),
        }
    }
}

proof fn lemma_inserted(s: Seq<ShotView>, p: ShotView)
    requires
        is_sorted(s),
    ensures
        is_sorted(inserted(s, p)),
        inserted(s, p).to_multiset() == s.to_multiset().insert(p),
        inserted(s, p).len() == s.len() + 1,
        forall|i: int|
            0 <= i < inserted(s, p).len() ==> (#[trigger] inserted(s, p)[i] == p || s.contains(
                inserted(s, p)[i],
            )),
    decreases s.len(),
{
    broadcast use vstd::seq_lib::group_to_multiset_ensures;

    if s.len() == 0 {
        assert(seq![p] =~= s.push(p));
    } else if older(s.last().modified, p.modified) {
        let front = s.drop_last();
        assert(s =~= front.push(s.last()));
        assert(is_sorted(front)) by {
            assert forall|i: int, j: int| 0 <= i < j < front.len() implies !older(
                #[trigger] front[i].modified,
                #[trigger] front[j].modified,
            ) by {
                assert(front[i] == s[i] && front[j] == s[j]);
            }
        }
        lemma_inserted(front, p);
        let t = inserted(front, p);
        assert forall|i: int| 0 <= i < t.len() implies !older(
            #[trigger] t[i].modified,
            s.last().modified,
        ) by {
            if t[i] != p {
                assert(front.contains(t[i]));
                let k = choose|k: int| 0 <= k < front.len() && front[k] == t[i];
                assert(s[k] == t[i]);
                assert(!older(s[k].modified, s[s.len() - 1].modified));
            }
        }
        assert(inserted(s, p) =~= t.push(s.last()));
        assert forall|i: int| 0 <= i < inserted(s, p).len() implies (#[trigger] inserted(s, p)[i]
            == p || s.contains(inserted(s, p)[i])) by {
            if i < t.len() {
                assert(inserted(s, p)[i] == t[i]);
                if t[i] != p {
                    let k = choose|k: int| 0 <= k < front.len() && front[k] == t[i];
                    assert(s[k] == t[i]);
                }
            } else {
                assert(s[s.len() - 1] == s.last());
            }
        }
        assert(inserted(s, p).to_multiset() =~= s.to_multiset().insert(p));
    } else {
        let t = s.push(p);
        assert forall|i: int, j: int| 0 <= i < j < t.len() implies !older(
            #[trigger] t[i].modified,
            #[trigger] t[j].modified,
        ) by {
            if j == s.len() {
                assert(t[i] == s[i]);
                assert(i == s.len() - 1 || !older(s[i].modified, s[s.len() - 1].modified));
            }
        }
        assert forall|i: int| 0 <= i < t.len() implies (#[trigger] t[i] == p || s.contains(
            t[i],
        )) by {
            if i < s.len() {
                assert(s[i] == t[i]);
            }
        }
    }
}

/// The list holds each picture of the directory once and nothing else, and no file
/// stands before a newer one.
pub proof fn law_newest_first(s: Seq<FoundView>)
    ensures
        is_sorted(newest_first(s)),
        newest_first(s).to_multiset() == pictures(s).to_multiset(),
        newest_first(s).len() == pictures(s).len(),
    decreases s.len(),
{
    broadcast use vstd::seq_lib::group_to_multiset_ensures;

    if s.len() > 0 {
        law_newest_first(s.drop_last());
        match shot_of(s.last()) {
            Some(p) => {
                lemma_inserted(newest_first(s.drop_last()), p);
            },
            None => {},
        }
    }
}

/// What the window leaves out for want of room is not newer than anything it shows.
pub proof fn law_only_old_files_are_cut(s: Seq<FoundView>, shown: int, cut: int)
    requires
        0 <= shown < first(newest_first(s), MAX_ENTRIES as nat).len(),
        first(newest_first(s), MAX_ENTRIES as nat).len() <= cut < newest_first(s).len(),
    ensures
        !older(
            first(newest_first(s), MAX_ENTRIES as nat)[shown].modified,
            newest_first(s)[cut].modified,
        ),
        first(newest_first(s), MAX_ENTRIES as nat).len() == MAX_ENTRIES,
{
    law_newest_first(s);
}

/// A file is a picture by its ending alone, in any case: `png` or `gif`.
pub proof fn law_kinds_by_ending(e: Option<Seq<char>>)
    ensures
        kind_of(e) == Some(Kind::Png) <==> e is Some && crate::text::lower(e->Some_0) == "png"@,
        kind_of(e) == Some(Kind::Gif) <==> e is Some && crate::text::lower(e->Some_0) == "gif"@,
{
    reveal_strlit("png");
    reveal_strlit("gif");
    assert("png"@[0] == 'p' && "gif"@[0] == 'g');
}

/// A file is listed if it is a picture whose size could be read, with its path,
/// size and time as they were found.
pub proof fn law_pictures_are_listed(f: FoundView)
    ensures
        shot_of(f) is Some <==> f.is_file && kind_of(f.extension) is Some && f.meta is Some,
        shot_of(f) matches Some(p) ==> p.path == f.path && Some(p.kind) == kind_of(f.extension)
            && f.meta == Some((p.size_bytes, p.modified)),
{
}

/// A time that is not known counts as older than any that is, and of two known
/// ones the smaller is the older; nothing is older than itself.
pub proof fn law_older_is_an_order(a: Option<i128>, b: Option<i128>, c: Option<i128>)
    ensures
        !older(a, a),
        older(a, b) ==> !older(b, a),
        older(a, b) && older(b, c) ==> older(a, c),
        a is None && b is Some ==> older(a, b),
        a is Some && b is Some ==> (older(a, b) <==> b->Some_0 - a->Some_0 > 0),
        a is None && b is None ==> !older(a, b),
{
}

/// A list that is too long loses what is behind its limit and nothing else.
pub proof fn law_lists_are_cut_behind(s: Seq<ShotView>, most: nat, i: int)
    ensures
        first(s, most).len() <= most,
        s.len() <= most ==> first(s, most) == s,
        s.len() > most ==> first(s, most).len() == most,
        0 <= i < first(s, most).len() ==> first(s, most)[i] == s[i],
{
}

/// Every picture with a thumbnail has a card with it, in the order of the list;
/// one without has none.
pub proof fn law_cards_follow_the_list(
    shots: Seq<ShotView>,
    thumbs: Seq<Option<Seq<char>>>,
    s: ShotView,
    t: Option<Seq<char>>,
)
    requires
        shots.len() == thumbs.len(),
    ensures
        carded(shots.push(s), thumbs.push(t)) == (match t {
            Some(uri) => carded(shots, thumbs).push((s, uri)),
            None => carded(shots, thumbs),
        }),
        carded(Seq::empty(), Seq::empty()).len() == 0,
{
    assert(shots.push(s).drop_last() =~= shots);
    assert(thumbs.push(t).drop_last() =~= thumbs);
}

/// A number is rounded to the nearest multiple of its unit, to the even one of
/// two that are as near.
pub proof fn law_rounded_to_the_nearest(n: int, unit: int)
    requires
        n >= 0,
        unit > 0,
    ensures
        rounded_53(n, unit) % unit == 0,
        2 * (rounded_53(n, unit) - n) <= unit,
        2 * (n - rounded_53(n, unit)) <= unit,
        2 * (rounded_53(n, unit) - n) == unit || 2 * (n - rounded_53(n, unit)) == unit
            ==> rounded_53(n, unit) / unit % 2 == 0,
        unit == 1 ==> rounded_53(n, unit) == n,
{
    let rest = n % unit;
    let down = n - rest;
    let q = n / unit;
    vstd::arithmetic::div_mod::lemma_fundamental_div_mod(n, unit);
    assert(down == unit * q);
    assert(0 <= rest < unit) by {
        vstd::arithmetic::div_mod::lemma_mod_bound(n, unit);
    }
    vstd::arithmetic::div_mod::lemma_div_multiples_vanish(q, unit);
    vstd::arithmetic::div_mod::lemma_div_multiples_vanish(q + 1, unit);
    vstd::arithmetic::div_mod::lemma_mod_multiples_basic(q, unit);
    vstd::arithmetic::div_mod::lemma_mod_multiples_basic(q + 1, unit);
    assert(unit * (q + 1) == unit * q + unit) by (nonlinear_arith);
    assert(q * unit == unit * q) by (nonlinear_arith);
    assert((q + 1) * unit == unit * (q + 1)) by (nonlinear_arith);
    assert(down / unit == q);
    assert((down + unit) / unit == q + 1);
    if unit == 1 {
        assert(rest == 0);
    }
}

/// The unit of a number is the least one that leaves it 53 digits in base two.
pub proof fn law_units_leave_53_digits(n: u64)
    ensures
        n <= 0x20_0000_0000_0000 * unit_of(n as int),
        unit_of(n as int) == 1 || n >= 0x10_0000_0000_0000 * unit_of(n as int),
        1 <= unit_of(n as int) <= 2048,
{
}

/// Tenths are rounded to the nearest one, to the even one of two that are as
/// near.
pub proof fn law_tenths_are_nearest(n: int, d: int)
    requires
        n >= 0,
        d > 0,
    ensures
        2 * (d * tenths(n, d) - 10 * n) <= d,
        2 * (10 * n - d * tenths(n, d)) <= d,
        2 * (d * tenths(n, d) - 10 * n) == d || 2 * (10 * n - d * tenths(n, d)) == d ==> tenths(n, d)
            % 2 == 0,
        tenths(n, d) >= 0,
{
    let q = 10 * n / d;
    let rest = 10 * n % d;
    vstd::arithmetic::div_mod::lemma_fundamental_div_mod(10 * n, d);
    vstd::arithmetic::div_mod::lemma_mod_bound(10 * n, d);
    vstd::arithmetic::div_mod::lemma_div_pos_is_pos(10 * n, d);
    assert(d * (q + 1) == d * q + d) by (nonlinear_arith);
}

/// Tenths are written with one digit behind the point, and the digits give them
/// back.
pub proof fn law_tenths_read_back(t: int)
    requires
        t >= 0,
    ensures
        ({
            let s = tenths_text(t);
            let whole = s.take(s.len() - 2);
            &&& s.len() >= 3
            &&& s[s.len() - 2] == '.'
            &&& 10 * crate::text::number_of(whole) + (s.last() as int - '0' as int) == t
        }),
{
    let s = tenths_text(t);
    let d = crate::text::decimal((t / 10) as nat);
    crate::text::law_decimals_read_back((t / 10) as nat);
    assert(s.take(s.len() - 2) =~= d);
}

/// Sizes below 1024 are given in bytes, larger ones in the largest of three
/// units that they reach, each 1024 of the one before, to a tenth.
pub proof fn law_sizes_have_units(bytes: u64)
    requires
        bytes < 0x20_0000_0000_0000,
    ensures
        ({
            let t = size_text(bytes);
            let b = bytes as int;
            let k = 1024int;
            &&& b < k ==> t == crate::text::decimal(bytes as nat) + seq![' ', 'B']
            &&& k <= b < k * k ==> t == tenths_text(tenths(b, k)) + seq![' ', 'K', 'B']
            &&& k * k <= b < k * k * k ==> t == tenths_text(tenths(b, k * k)) + seq![' ', 'M', 'B']
            &&& k * k * k <= b ==> t == tenths_text(tenths(b, k * k * k)) + seq![' ', 'G', 'B']
        }),
{
    reveal_strlit(" B");
    reveal_strlit(" KB");
    reveal_strlit(" MB");
    reveal_strlit(" GB");
    assert(" B"@ =~= seq![' ', 'B']);
    assert(" KB"@ =~= seq![' ', 'K', 'B']);
    assert(" MB"@ =~= seq![' ', 'M', 'B']);
    assert(" GB"@ =~= seq![' ', 'G', 'B']);
    law_rounded_to_the_nearest(bytes as int, 1);
    assert(1024int * 1024 == 0x10_0000);
    assert(1024int * 1024 * 1024 == 0x4000_0000);
}

/// An age is given in the largest whole unit: days, hours, minutes; under a
/// minute it is just now.
pub proof fn law_ages_have_units(secs: u64)
    ensures
        ({
            let t = ago_text(Some(secs));
            let n = crate::text::number_of(t.take(t.len() - 5));
            &&& secs >= 60 ==> t.len() > 5 && t[t.len() - 4] == ' ' && t.last() == 'o'
            &&& secs < 60 ==> t == "just now"@
            &&& 60 <= secs < 3600 ==> t[t.len() - 5] == 'm' && 60 * n <= secs < 60 * n + 60
            &&& 3600 <= secs < 86400 ==> t[t.len() - 5] == 'h' && 3600 * n <= secs < 3600 * n + 3600
            &&& 86400 <= secs ==> t[t.len() - 5] == 'd' && 86400 * n <= secs < 86400 * n + 86400
        }),
        ago_text(None) == "recently"@,
{
    reveal_strlit("m ago");
    reveal_strlit("h ago");
    reveal_strlit("d ago");
    let t = ago_text(Some(secs));
    if secs >= 60 {
        let n = if secs < 3600 {
            secs / 60
        } else if secs < 86400 {
            secs / 3600
        } else {
            secs / 86400
        };
        crate::text::law_decimals_read_back(n as nat);
        assert(t.take(t.len() - 5) =~= crate::text::decimal(n as nat));
    }
}

/// An age is the whole seconds since the time, unless that is not known or still
/// ahead.
pub proof fn law_age_is_counted_in_seconds(now: i128, modified: Option<i128>)
    ensures
        age_of(now, modified) is Unknown <==> modified is None,
        age_of(now, modified) is Ahead <==> modified is Some && modified->Some_0 > now,
        age_of(now, modified) matches Age::Seconds(n) ==> {
            let passed = now - modified->Some_0;
            &&& passed >= 0
            &&& 1_000_000_000 * n <= passed
            &&& n < u64::MAX ==> passed < 1_000_000_000 * (n + 1)
        },
{
}

} // verus!
