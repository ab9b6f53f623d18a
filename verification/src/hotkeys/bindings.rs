//! Hotkey chords: accelerator strings such as `Ctrl+Shift+X` or `PrintScreen`,
//! and the keys they stand for.
use vstd::prelude::*;
use crate::text::{
    decimal_chars, from_chars, is_text, push_chars, push_text, split_chars, to_chars, to_lower,
    to_upper_char, trim_chars, CharClass,
};

verus! {

// ---------------------------------------------------------------------------
// Keys
// ---------------------------------------------------------------------------

/// A key that a chord can end in.
#[derive(Debug, Clone, Copy, PartialEq, Eq, Structural)]
pub enum KeyCode {
    PrintScreen,
    Escape,
    Space,
    Tab,
    Enter,
    Backspace,
    Delete,
    Insert,
    Home,
    End,
    PageUp,
    PageDown,
    ArrowUp,
    ArrowDown,
    ArrowLeft,
    ArrowRight,
    /// Function key 1 to 12.
    F(u8),
    /// Letter key, by its upper-case letter.
    Letter(char),
    /// Digit key of the main block.
    Digit(char),
}

impl KeyCode {
    pub open spec fn wf(self) -> bool {
        match self {
            KeyCode::F(n) => 1 <= n <= 12,
            KeyCode::Letter(c) => crate::text::is_ascii_upper(c),
            KeyCode::Digit(c) => crate::text::is_ascii_digit(c),
            _ => true,
        }
    }

    /// The name of the key in a canonical chord.
    pub open spec fn name(self) -> Seq<char> {
        match self {
            KeyCode::PrintScreen => "PrintScreen"@,
            KeyCode::Escape => "Escape"@,
            KeyCode::Space => "Space"@,
            KeyCode::Tab => "Tab"@,
            KeyCode::Enter => "Enter"@,
            KeyCode::Backspace => "Backspace"@,
            KeyCode::Delete => "Delete"@,
            KeyCode::Insert => "Insert"@,
            KeyCode::Home => "Home"@,
            KeyCode::End => "End"@,
            KeyCode::PageUp => "PageUp"@,
            KeyCode::PageDown => "PageDown"@,
            KeyCode::ArrowUp => "Up"@,
            KeyCode::ArrowDown => "Down"@,
            KeyCode::ArrowLeft => "Left"@,
            KeyCode::ArrowRight => "Right"@,
            KeyCode::F(n) => seq!['F'] + crate::text::decimal(n as nat),
            KeyCode::Letter(c) => seq![c],
            KeyCode::Digit(c) => seq![c],
        }
    }

    /// The name of the key as a W3C `KeyboardEvent.code`.
    pub open spec fn code(self) -> Seq<char> {
        match self {
            KeyCode::ArrowUp => "ArrowUp"@,
            KeyCode::ArrowDown => "ArrowDown"@,
            KeyCode::ArrowLeft => "ArrowLeft"@,
            KeyCode::ArrowRight => "ArrowRight"@,
            KeyCode::Letter(c) => "Key"@ + seq![c],
            KeyCode::Digit(c) => "Digit"@ + seq![c],
            _ => self.name(),
        }
    }

    fn name_chars(self) -> (r: Vec<char>)
        ensures
            r@ == self.name(),
    {
        match self {
            KeyCode::PrintScreen => to_chars("PrintScreen"),
            KeyCode::Escape => to_chars("Escape"),
            KeyCode::Space => to_chars("Space"),
            KeyCode::Tab => to_chars("Tab"),
            KeyCode::Enter => to_chars("Enter"),
            KeyCode::Backspace => to_chars("Backspace"),
            KeyCode::Delete => to_chars("Delete"),
            KeyCode::Insert => to_chars("Insert"),
            KeyCode::Home => to_chars("Home"),
            KeyCode::End => to_chars("End"),
            KeyCode::PageUp => to_chars("PageUp"),
            KeyCode::PageDown => to_chars("PageDown"),
            KeyCode::ArrowUp => to_chars("Up"),
            KeyCode::ArrowDown => to_chars("Down"),
            KeyCode::ArrowLeft => to_chars("Left"),
            KeyCode::ArrowRight => to_chars("Right"),
            KeyCode::F(n) => {
                let mut out: Vec<char> = Vec::new();
                out.push('F');
                let d = decimal_chars(n as u64);
                push_chars(&mut out, d.as_slice());
                assert(out@ =~= seq!['F'] + crate::text::decimal(n as nat));
                out
            },
            KeyCode::Letter(c) | KeyCode::Digit(c) => {
                let mut out: Vec<char> = Vec::new();
                out.push(c);
                assert(out@ =~= seq![c]);
                out
            },
        }
    }

    /// The W3C code of the key.
    pub fn code_name(self) -> (r: String)
        ensures
            r@ == self.code(),
    {
        match self {
            KeyCode::ArrowUp => "ArrowUp".to_owned(),
            KeyCode::ArrowDown => "ArrowDown".to_owned(),
            KeyCode::ArrowLeft => "ArrowLeft".to_owned(),
            KeyCode::ArrowRight => "ArrowRight".to_owned(),
            KeyCode::Letter(c) => {
                let mut out = to_chars("Key");
                out.push(c);
                assert(out@ =~= "Key"@ + seq![c]);
                from_chars(out.as_slice())
            },
            KeyCode::Digit(c) => {
                let mut out = to_chars("Digit");
                out.push(c);
                assert(out@ =~= "Digit"@ + seq![c]);
                from_chars(out.as_slice())
            },
            _ => {
                let out = self.name_chars();
                from_chars(out.as_slice())
            },
        }
    }
}

/// The key with this lower-case name or alias, other than function keys and
/// single characters.
pub open spec fn named_key(l: Seq<char>) -> Option<KeyCode> {
    if l == "printscreen"@ || l == "prtsc"@ || l == "prtscn"@ || l == "prntscrn"@ {
        Some(KeyCode::PrintScreen)
    } else if l == "escape"@ || l == "esc"@ {
        Some(KeyCode::Escape)
    } else if l == "space"@ {
        Some(KeyCode::Space)
    } else if l == "tab"@ {
        Some(KeyCode::Tab)
    } else if l == "enter"@ || l == "return"@ {
        Some(KeyCode::Enter)
    } else if l == "backspace"@ {
        Some(KeyCode::Backspace)
    } else if l == "delete"@ || l == "del"@ {
        Some(KeyCode::Delete)
    } else if l == "insert"@ || l == "ins"@ {
        Some(KeyCode::Insert)
    } else if l == "home"@ {
        Some(KeyCode::Home)
    } else if l == "end"@ {
        Some(KeyCode::End)
    } else if l == "pageup"@ || l == "pgup"@ {
        Some(KeyCode::PageUp)
    } else if l == "pagedown"@ || l == "pgdn"@ {
        Some(KeyCode::PageDown)
    } else if l == "up"@ {
        Some(KeyCode::ArrowUp)
    } else if l == "down"@ {
        Some(KeyCode::ArrowDown)
    } else if l == "left"@ {
        Some(KeyCode::ArrowLeft)
    } else if l == "right"@ {
        Some(KeyCode::ArrowRight)
    } else {
        None
    }
}

/// The function key with this lower-case name.
pub open spec fn function_key(l: Seq<char>) -> Option<KeyCode> {
    if l.len() == 2 && l[0] == 'f' && '1' <= l[1] && l[1] <= '9' {
        Some(KeyCode::F((l[1] as u8 - '0' as u8) as u8))
    } else if l.len() == 3 && l[0] == 'f' && l[1] == '1' && '0' <= l[2] && l[2] <= '2' {
        Some(KeyCode::F((10 + (l[2] as u8 - '0' as u8)) as u8))
    } else {
        None
    }
}

/// The key of a single character.
pub open spec fn character_key(c: char) -> Option<KeyCode> {
    if crate::text::is_ascii_upper(crate::text::upper_char(c)) {
        Some(KeyCode::Letter(crate::text::upper_char(c)))
    } else if crate::text::is_ascii_digit(c) {
        Some(KeyCode::Digit(c))
    } else {
        None
    }
}

/// The key that a part of a chord names, whatever its case.
pub open spec fn key_of(part: Seq<char>) -> Option<KeyCode> {
    let l = crate::text::lower(part);
    if named_key(l) is Some {
        named_key(l)
    } else if function_key(l) is Some {
        function_key(l)
    } else if l.len() == 1 {
        character_key(l[0])
    } else {
        None
    }
}

/// The key of a single letter or digit.
pub fn letter_or_digit(ch: char) -> (r: Option<KeyCode>)
    ensures
        r == character_key(ch),
{
    let up = to_upper_char(ch);
    if 'A' <= up && up <= 'Z' {
        Some(KeyCode::Letter(up))
    } else if '0' <= ch && ch <= '9' {
        Some(KeyCode::Digit(ch))
    } else {
        None
    }
}

fn named_key_of(l: &[char]) -> (r: Option<KeyCode>)
    ensures
        r == named_key(l@),
{
    if is_text(l, "printscreen") || is_text(l, "prtsc") || is_text(l, "prtscn") || is_text(
        l,
        "prntscrn",
    ) {
        Some(KeyCode::PrintScreen)
    } else if is_text(l, "escape") || is_text(l, "esc") {
        Some(KeyCode::Escape)
    } else if is_text(l, "space") {
        Some(KeyCode::Space)
    } else if is_text(l, "tab") {
        Some(KeyCode::Tab)
    } else if is_text(l, "enter") || is_text(l, "return") {
        Some(KeyCode::Enter)
    } else if is_text(l, "backspace") {
        Some(KeyCode::Backspace)
    } else if is_text(l, "delete") || is_text(l, "del") {
        Some(KeyCode::Delete)
    } else if is_text(l, "insert") || is_text(l, "ins") {
        Some(KeyCode::Insert)
    } else if is_text(l, "home") {
        Some(KeyCode::Home)
    } else if is_text(l, "end") {
        Some(KeyCode::End)
    } else if is_text(l, "pageup") || is_text(l, "pgup") {
        Some(KeyCode::PageUp)
    } else if is_text(l, "pagedown") || is_text(l, "pgdn") {
        Some(KeyCode::PageDown)
    } else if is_text(l, "up") {
        Some(KeyCode::ArrowUp)
    } else if is_text(l, "down") {
        Some(KeyCode::ArrowDown)
    } else if is_text(l, "left") {
        Some(KeyCode::ArrowLeft)
    } else if is_text(l, "right") {
        Some(KeyCode::ArrowRight)
    } else {
        None
    }
}

/// The key that a part of a chord names.
pub fn parse_code(part: &[char]) -> (r: Option<KeyCode>)
    ensures
        r == key_of(part@),
        r matches Some(k) ==> k.wf(),
{
    let l = to_lower(part);
    match named_key_of(l.as_slice()) {
        Some(k) => {
            return Some(k);
        },
        None => {},
    }
    if l.len() == 2 && l[0] == 'f' && '1' <= l[1] && l[1] <= '9' {
        return Some(KeyCode::F(l[1] as u8 - '0' as u8));
    }
    if l.len() == 3 && l[0] == 'f' && l[1] == '1' && '0' <= l[2] && l[2] <= '2' {
        return Some(KeyCode::F(10 + (l[2] as u8 - '0' as u8)));
    }
    if l.len() == 1 {
        letter_or_digit(l[0])
    } else {
        None
    }
}

// ---------------------------------------------------------------------------
// Chords
// ---------------------------------------------------------------------------

/// A parsed chord.
#[derive(Debug, Clone, Copy, PartialEq, Eq, Structural)]
pub struct Chord {
    pub ctrl: bool,
    pub shift: bool,
    pub alt: bool,
    pub meta: bool,
    pub key: KeyCode,
}

/// A modifier that a part of a chord names.
#[derive(Debug, Clone, Copy, PartialEq, Eq, Structural)]
pub enum Modifier {
    Ctrl,
    Shift,
    Alt,
    Meta,
}

/// The modifier that a part of a chord names, whatever its case.
pub open spec fn modifier_of(part: Seq<char>) -> Option<Modifier> {
    let l = crate::text::lower(part);
    if l == "ctrl"@ || l == "control"@ {
        Some(Modifier::Ctrl)
    } else if l == "shift"@ {
        Some(Modifier::Shift)
    } else if l == "alt"@ || l == "menu"@ {
        Some(Modifier::Alt)
    } else if l == "super"@ || l == "win"@ || l == "meta"@ {
        Some(Modifier::Meta)
    } else {
        None
    }
}

/// The non-blank parts of a chord between the plus signs, trimmed.
pub open spec fn chord_parts(pieces: Seq<Seq<char>>) -> Seq<Seq<char>>
    decreases pieces.len(),
{
    if pieces.len() == 0 {
        Seq::empty()
    } else {
        let head = chord_parts(pieces.drop_last());
        let p = crate::text::trim(pieces.last(), CharClass::Whitespace);
        if p.len() == 0 {
            head
        } else {
            head.push(p)
        }
    }
}

/// The parts of a chord string.
pub open spec fn parts_of(s: Seq<char>) -> Seq<Seq<char>> {
    chord_parts(crate::text::split(s, CharClass::Plus))
}

/// What has been read of a chord: the modifiers and the last key, if any.
pub struct Scan {
    pub ctrl: bool,
    pub shift: bool,
    pub alt: bool,
    pub meta: bool,
    pub key: Option<KeyCode>,
}

/// Reads the parts in order; the first part that is neither a modifier nor a
/// key is an error. A later key replaces an earlier one.
pub open spec fn scanned(parts: Seq<Seq<char>>) -> Result<Scan, Seq<char>>
    decreases parts.len(),
{
    if parts.len() == 0 {
        Ok(Scan { ctrl: false, shift: false, alt: false, meta: false, key: None })
    } else {
        match scanned(parts.drop_last()) {
            Err(e) => Err(e),
            Ok(st) => match modifier_of(parts.last()) {
                Some(Modifier::Ctrl) => Ok(Scan { ctrl: true, ..st }),
                Some(Modifier::Shift) => Ok(Scan { shift: true, ..st }),
                Some(Modifier::Alt) => Ok(Scan { alt: true, ..st }),
                Some(Modifier::Meta) => Ok(Scan { meta: true, ..st }),
                None => match key_of(parts.last()) {
                    Some(k) => Ok(Scan { key: Some(k), ..st }),
                    None => Err(crate::text::lower(parts.last())),
                },
            },
        }
    }
}

/// Why a chord string is refused.
#[derive(Debug)]
pub enum ChordError {
    /// A part names no modifier and no supported key; holds it in lower case.
    UnsupportedKey(String),
    /// There are only modifiers; holds the whole string.
    NoKey(String),
}

/// A chord error as plain values.
pub enum ChordErrorView {
    UnsupportedKey(Seq<char>),
    NoKey(Seq<char>),
}

impl View for ChordError {
    type V = ChordErrorView;

    open spec fn view(&self) -> ChordErrorView {
        match self {
            ChordError::UnsupportedKey(t) => ChordErrorView::UnsupportedKey(t@),
            ChordError::NoKey(t) => ChordErrorView::NoKey(t@),
        }
    }
}

impl ChordErrorView {
    pub open spec fn message(self) -> Seq<char> {
        match self {
            ChordErrorView::UnsupportedKey(t) => "unsupported key '"@ + t + "'"@,
            ChordErrorView::NoKey(t) => "hotkey '"@ + t + "' has no key component"@,
        }
    }
}

impl ChordError {
    /// The message shown to the user.
    pub fn message(&self) -> (r: String)
        ensures
            r@ == self@.message(),
    {
        match self {
            ChordError::UnsupportedKey(t) => {
                let mut out = to_chars("unsupported key '");
                push_text(&mut out, t.as_str());
                push_text(&mut out, "'");
                from_chars(out.as_slice())
            },
            ChordError::NoKey(t) => {
                let mut out = to_chars("hotkey '");
                push_text(&mut out, t.as_str());
                push_text(&mut out, "' has no key component");
                from_chars(out.as_slice())
            },
        }
    }
}

/// What a chord string stands for.
pub open spec fn parsed(s: Seq<char>) -> Result<Chord, ChordErrorView> {
    match scanned(parts_of(s)) {
        Err(e) => Err(ChordErrorView::UnsupportedKey(e)),
        Ok(st) => match st.key {
            Some(key) => Ok(
                Chord { ctrl: st.ctrl, shift: st.shift, alt: st.alt, meta: st.meta, key },
            ),
            None => Err(ChordErrorView::NoKey(s)),
        },
    }
}

/// The view of a parse result.
pub open spec fn parse_view(r: Result<Chord, ChordError>) -> Result<Chord, ChordErrorView> {
    match r {
        Ok(c) => Ok(c),
        Err(e) => Err(e@),
    }
}

fn modifier(part: &[char]) -> (r: Option<Modifier>)
    ensures
        r == modifier_of(part@),
{
    let l = to_lower(part);
    let l = l.as_slice();
    if is_text(l, "ctrl") || is_text(l, "control") {
        Some(Modifier::Ctrl)
    } else if is_text(l, "shift") {
        Some(Modifier::Shift)
    } else if is_text(l, "alt") || is_text(l, "menu") {
        Some(Modifier::Alt)
    } else if is_text(l, "super") || is_text(l, "win") || is_text(l, "meta") {
        Some(Modifier::Meta)
    } else {
        None
    }
}

fn split_parts(s: &[char]) -> (r: Vec<Vec<char>>)
    ensures
        crate::text::texts(r@) == parts_of(s@),
{
    let pieces = split_chars(s, CharClass::Plus);
    let ghost all = crate::text::texts(pieces@);
    let mut out: Vec<Vec<char>> = Vec::new();
    let mut i: usize = 0;
    assert(crate::text::texts(out@) =~= Seq::empty());
    assert(all.take(0) =~= Seq::empty());
    while i < pieces.len()
        invariant
            i <= pieces@.len(),
            all == crate::text::texts(pieces@),
            crate::text::texts(out@) == chord_parts(all.take(i as int)),
        decreases pieces@.len() - i,
    {
        assert(all.take(i + 1).drop_last() =~= all.take(i as int));
        assert(all.take(i + 1).last() == pieces@[i as int]@);
        let p = trim_chars(pieces[i].as_slice(), CharClass::Whitespace);
        if p.len() > 0 {
            let ghost prev = out@;
            let ghost t = p@;
            out.push(p);
            assert(crate::text::texts(out@) =~= crate::text::texts(prev).push(t));
        }
        i += 1;
    }
    assert(all.take(i as int) =~= all);
    out
}

/// Parses a chord string.
pub fn parse(s: &str) -> (r: Result<Chord, ChordError>)
    ensures
        parse_view(r) == parsed(s@),
        r matches Ok(c) ==> c.key.wf(),
{
    let chars = to_chars(s);
    let parts = split_parts(chars.as_slice());
    let ghost all = crate::text::texts(parts@);
    let mut ctrl = false;
    let mut shift = false;
    let mut alt = false;
    let mut meta = false;
    let mut key: Option<KeyCode> = None;
    let mut i: usize = 0;
    assert(all.take(0) =~= Seq::empty());
    while i < parts.len()
        invariant
            i <= parts@.len(),
            all == crate::text::texts(parts@),
            all == parts_of(s@),
            scanned(all.take(i as int)) == Ok::<Scan, Seq<char>>(
                Scan { ctrl, shift, alt, meta, key },
            ),
            key matches Some(k) ==> k.wf(),
        decreases parts@.len() - i,
    {
        proof {
            assert(all.take(i + 1).drop_last() =~= all.take(i as int));
            assert(all.take(i + 1).last() == parts@[i as int]@);
        }
        let part = parts[i].as_slice();
        match modifier(part) {
            Some(Modifier::Ctrl) => {
                ctrl = true;
            },
            Some(Modifier::Shift) => {
                shift = true;
            },
            Some(Modifier::Alt) => {
                alt = true;
            },
            Some(Modifier::Meta) => {
                meta = true;
            },
            None => match parse_code(part) {
                Some(k) => {
                    key = Some(k);
                },
                None => {
                    let l = to_lower(part);
                    proof {
                        lemma_scan_error(all, i as int);
                    }
                    return Err(ChordError::UnsupportedKey(from_chars(l.as_slice())));
                },
            },
        }
        i += 1;
    }
    assert(all.take(i as int) =~= all);
    match key {
        Some(key) => Ok(Chord { ctrl, shift, alt, meta, key }),
        None => Err(ChordError::NoKey(s.to_owned())),
    }
}

/// The first bad part decides the outcome of the whole scan.
proof fn lemma_scan_error(parts: Seq<Seq<char>>, i: int)
    requires
        0 <= i < parts.len(),
        scanned(parts.take(i)) is Ok,
        modifier_of(parts[i]) is None,
        key_of(parts[i]) is None,
    ensures
        scanned(parts) == Err::<Scan, Seq<char>>(crate::text::lower(parts[i])),
    decreases parts.len() - i,
{
    assert(parts.take(i + 1).drop_last() =~= parts.take(i));
    lemma_scan_error_stays(parts, i + 1);
    assert(parts.take(parts.len() as int) =~= parts);
}

proof fn lemma_scan_error_stays(parts: Seq<Seq<char>>, i: int)
    requires
        0 <= i <= parts.len(),
        scanned(parts.take(i)) is Err,
    ensures
        scanned(parts) == scanned(parts.take(i)),
    decreases parts.len() - i,
{
    if i < parts.len() {
        assert(parts.take(i + 1).drop_last() =~= parts.take(i));
        lemma_scan_error_stays(parts, i + 1);
    } else {
        assert(parts.take(i) =~= parts);
    }
}

/// The canonical form of a chord: the modifiers in a fixed order, then the key.
pub open spec fn canonical(c: Chord) -> Seq<char> {
    let a = if c.ctrl {
        "Ctrl+"@
    } else {
        Seq::empty()
    };
    let b = if c.shift {
        a + "Shift+"@
    } else {
        a
    };
    let d = if c.alt {
        b + "Alt+"@
    } else {
        b
    };
    let e = if c.meta {
        d + "Win+"@
    } else {
        d
    };
    e + c.key.name()
}

/// Writes a chord in its canonical form.
pub fn canonical_text(c: Chord) -> (r: String)
    ensures
        r@ == canonical(c),
{
    let mut out: Vec<char> = Vec::new();
    if c.ctrl {
        push_text(&mut out, "Ctrl+");
    }
    assert(out@ =~= (if c.ctrl {
        "Ctrl+"@
    } else {
        Seq::empty()
    }));
    if c.shift {
        push_text(&mut out, "Shift+");
    }
    if c.alt {
        push_text(&mut out, "Alt+");
    }
    if c.meta {
        push_text(&mut out, "Win+");
    }
    let k = c.key.name_chars();
    push_chars(&mut out, k.as_slice());
    from_chars(out.as_slice())
}

/// Normalises a chord string to `Ctrl+Shift+Alt+Win+Key` order.
pub fn canonicalise(s: &str) -> (r: Result<String, ChordError>)
    ensures
        match r {
            Ok(t) => parsed(s@) is Ok && t@ == canonical(parsed(s@)->Ok_0),
            Err(e) => parsed(s@) == Err::<Chord, ChordErrorView>(e@),
        },
{
    match parse(s) {
        Ok(c) => Ok(canonical_text(c)),
        Err(e) => Err(e),
    }
}

/// The canonical name of a part of a chord, whether or not it is a key.
pub open spec fn canonical_name(part: Seq<char>) -> Seq<char> {
    let l = crate::text::lower(part);
    match named_key(l) {
        Some(k) => k.name(),
        None => if is_function_name(l) {
            l.update(0, 'F')
        } else if l.len() == 1 {
            seq![crate::text::upper_char(l[0])]
        } else {
            l
        },
    }
}

/// An `f` and at most two digits.
pub open spec fn is_function_name(l: Seq<char>) -> bool {
    &&& 1 <= l.len() <= 3
    &&& l[0] == 'f'
    &&& forall|i: int| 1 <= i < l.len() ==> crate::text::is_ascii_digit(#[trigger] l[i])
}

/// The canonical name of a part of a chord.
pub fn canonical_key_name(s: &str) -> (r: String)
    ensures
        r@ == canonical_name(s@),
{
    let chars = to_chars(s);
    let mut l = to_lower(chars.as_slice());
    match named_key_of(l.as_slice()) {
        Some(k) => {
            let n = k.name_chars();
            return from_chars(n.as_slice());
        },
        None => {},
    }
    let mut function = 1 <= l.len() && l.len() <= 3 && l[0] == 'f';
    if function {
        let mut i: usize = 1;
        while i < l.len()
            invariant
                1 <= i <= l@.len(),
                function == forall|k: int|
                    1 <= k < i ==> crate::text::is_ascii_digit(#[trigger] l@[k]),
            decreases l@.len() - i,
        {
            if !('0' <= l[i] && l[i] <= '9') {
                function = false;
            }
            i += 1;
        }
    }
    if function {
        l.set(0, 'F');
        from_chars(l.as_slice())
    } else if l.len() == 1 {
        let mut out: Vec<char> = Vec::new();
        out.push(to_upper_char(l[0]));
        assert(out@ =~= seq![crate::text::upper_char(l@[0])]);
        from_chars(out.as_slice())
    } else {
        from_chars(l.as_slice())
    }
}

// ---------------------------------------------------------------------------
// Compiled hotkeys
// ---------------------------------------------------------------------------

/// Modifier bits of a chord: Alt 1, Control 8, Meta 64, Shift 512.
pub open spec fn modifier_bits(c: Chord) -> u32 {
    ((if c.alt {
        1int
    } else {
        0
    }) + (if c.ctrl {
        8int
    } else {
        0
    }) + (if c.meta {
        64int
    } else {
        0
    }) + (if c.shift {
        512int
    } else {
        0
    })) as u32
}

/// What `HotKey::id` of the crate global-hotkey gives for the hotkey of these
/// modifier bits and the key with this W3C code.
pub uninterp spec fn hotkey_number(mods: u32, code: Seq<char>) -> Option<u32>;

/// `HotKey::new` and `HotKey::id` of the crate global-hotkey, for a key found by
/// `Code::from_str`. The id depends on the modifier bits and the key alone. It is
/// there for every key that `KeyCode` has. It holds the modifier bits in its upper
/// half and the number of the key in its lower half, so that no two of these
/// hotkeys have the same id.
#[verifier::external_body]
fn hotkey_id(mods: u32, code: &str) -> (r: Option<u32>)
    requires
        mods < 1024,
    ensures
        r == hotkey_number(mods, code@),
        forall|k: KeyCode| k.wf() && code@ == #[trigger] k.code() ==> r is Some,
        forall|k: KeyCode, m2: u32, k2: KeyCode|
            #![trigger k.code(), hotkey_number(m2, k2.code())]
            k.wf() && k2.wf() && m2 < 1024 && code@ == k.code() && r is Some && r
                == hotkey_number(m2, k2.code()) ==> m2 == mods && k2 == k,
{
    let key: global_hotkey::hotkey::Code = std::str::FromStr::from_str(code).ok()?;
    let mods = global_hotkey::hotkey::Modifiers::from_bits_truncate(mods);
    Some(global_hotkey::hotkey::HotKey::new(Some(mods), key).id())
}

/// A chord with the number by which its events are told apart.
#[derive(Debug, Clone, Copy, PartialEq, Eq, Structural)]
pub struct HotKey {
    pub chord: Chord,
    pub id: u32,
}

impl HotKey {
    /// The id is the one that belongs to the chord.
    pub open spec fn wf(self) -> bool {
        &&& self.chord.key.wf()
        &&& hotkey_number(modifier_bits(self.chord), self.chord.key.code()) == Some(self.id)
        &&& forall|m2: u32, k2: KeyCode|
            k2.wf() && m2 < 1024 && #[trigger] hotkey_number(m2, k2.code()) == Some(self.id)
                ==> m2 == modifier_bits(self.chord) && k2 == self.chord.key
    }

    /// Compiles a chord.
    pub fn new(chord: Chord) -> (r: HotKey)
        requires
            chord.key.wf(),
        ensures
            r.wf(),
            r.chord == chord,
    {
        let code = chord.key.code_name();
        let bits = modifiers(chord);
        let found = hotkey_id(bits, code.as_str());
        assert(found is Some);
        HotKey { chord, id: found.unwrap() }
    }
}

/// The modifier bits of a chord.
pub fn modifiers(c: Chord) -> (r: u32)
    ensures
        r == modifier_bits(c),
        r < 1024,
        r & 1 != 0 <==> c.alt,
        r & 8 != 0 <==> c.ctrl,
        r & 64 != 0 <==> c.meta,
        r & 512 != 0 <==> c.shift,
        r & !585u32 == 0,
{
    proof {
        law_modifiers_have_their_bits(c);
    }
    let mut bits: u32 = 0;
    if c.alt {
        bits += 1;
    }
    if c.ctrl {
        bits += 8;
    }
    if c.meta {
        bits += 64;
    }
    if c.shift {
        bits += 512;
    }
    bits
}

/// Parses a chord and gives its canonical form beside the compiled hotkey.
pub fn parse_chord(s: &str) -> (r: Result<(String, HotKey), ChordError>)
    ensures
        match r {
            Ok((t, h)) => {
                &&& parsed(s@) == Ok::<Chord, ChordErrorView>(h.chord)
                &&& t@ == canonical(h.chord)
                &&& h.wf()
            },
            Err(e) => parsed(s@) == Err::<Chord, ChordErrorView>(e@),
        },
{
    match parse(s) {
        Ok(c) => Ok((canonical_text(c), HotKey::new(c))),
        Err(e) => Err(e),
    }
}

/// A hotkey as the user wrote it, e.g. `Ctrl+Shift+X` or `PrintScreen`.
#[derive(Debug)]
pub struct HotkeyBinding {
    pub raw: String,
}

impl View for HotkeyBinding {
    type V = Seq<char>;

    open spec fn view(&self) -> Seq<char> {
        self.raw@
    }
}

impl Clone for HotkeyBinding {
    fn clone(&self) -> (r: HotkeyBinding)
        ensures
            r@ == self@,
    {
        HotkeyBinding { raw: self.raw.clone() }
    }
}

impl Default for HotkeyBinding {
    /// The key that screenshots are taken with by convention.
    fn default() -> (r: HotkeyBinding)
        ensures
            r@ == "PrintScreen"@,
    {
        HotkeyBinding { raw: "PrintScreen".to_owned() }
    }
}

impl HotkeyBinding {
    /// Compiles the binding.
    pub fn as_hotkey(&self) -> (r: Result<HotKey, ChordError>)
        ensures
            match r {
                Ok(h) => parsed(self@) == Ok::<Chord, ChordErrorView>(h.chord) && h.wf(),
                Err(e) => parsed(self@) == Err::<Chord, ChordErrorView>(e@),
            },
    {
        match parse(self.raw.as_str()) {
            Ok(c) => Ok(HotKey::new(c)),
            Err(e) => Err(e),
        }
    }
}

// ---------------------------------------------------------------------------
// Laws
// ---------------------------------------------------------------------------

/// Reserved words have at least two characters and none starts with an `f`.
proof fn lemma_reserved(l: Seq<char>)
    ensures
        named_key(l) is Some ==> l.len() >= 2 && l[0] != 'f',
        crate::text::lower(l) == l && modifier_of(l) is Some ==> l.len() >= 2 && l[0] != 'f',
{
    reveal_strlit("printscreen");
    reveal_strlit("escape");
    reveal_strlit("space");
    reveal_strlit("tab");
    reveal_strlit("enter");
    reveal_strlit("backspace");
    reveal_strlit("delete");
    reveal_strlit("insert");
    reveal_strlit("home");
    reveal_strlit("end");
    reveal_strlit("pageup");
    reveal_strlit("pagedown");
    reveal_strlit("up");
    reveal_strlit("down");
    reveal_strlit("left");
    reveal_strlit("right");
    reveal_strlit("prtsc");
    reveal_strlit("prtscn");
    reveal_strlit("prntscrn");
    reveal_strlit("esc");
    reveal_strlit("return");
    reveal_strlit("del");
    reveal_strlit("ins");
    reveal_strlit("pgup");
    reveal_strlit("pgdn");
    reveal_strlit("ctrl");
    reveal_strlit("control");
    reveal_strlit("shift");
    reveal_strlit("alt");
    reveal_strlit("menu");
    reveal_strlit("super");
    reveal_strlit("win");
    reveal_strlit("meta");
}

/// What a canonical chord is put together from: a word without a plus sign that
/// trimming leaves alone.
spec fn is_word(w: Seq<char>) -> bool {
    &&& w.len() > 0
    &&& forall|i: int| 0 <= i < w.len() ==> #[trigger] w[i] != '+' && !crate::text::is_white(w[i])
}

proof fn lemma_split_word(s: Seq<char>, w: Seq<char>)
    requires
        forall|i: int| 0 <= i < w.len() ==> #[trigger] w[i] != '+',
    ensures
        crate::text::split(s + w, CharClass::Plus) == crate::text::split(
            s,
            CharClass::Plus,
        ).drop_last().push(crate::text::split(s, CharClass::Plus).last() + w),
    decreases w.len(),
{
    let base = crate::text::split(s, CharClass::Plus);
    crate::text::lemma_split_pieces(s, CharClass::Plus);
    if w.len() == 0 {
        assert(s + w =~= s);
        assert(base.last() + w =~= base.last());
        assert(base.drop_last().push(base.last()) =~= base);
    } else {
        let v = w.drop_last();
        lemma_split_word(s, v);
        assert((s + w).drop_last() =~= s + v);
        assert((s + w).last() == w[w.len() - 1]);
        let head = crate::text::split(s + v, CharClass::Plus);
        assert(head.drop_last() =~= base.drop_last());
        assert((base.last() + v).push(w.last()) =~= base.last() + w);
    }
}

/// A blank last piece adds no part.
proof fn lemma_blank_piece(pieces: Seq<Seq<char>>)
    ensures
        chord_parts(pieces.push(Seq::empty())) == chord_parts(pieces),
{
    let more = pieces.push(Seq::empty());
    crate::text::lemma_trim_unchanged(Seq::<char>::empty(), CharClass::Whitespace);
    assert(more.drop_last() =~= pieces);
    assert(more.last() == Seq::<char>::empty());
}

/// A text that is empty or ends in a plus sign.
spec fn is_open(s: Seq<char>) -> bool {
    crate::text::split(s, CharClass::Plus).last() == Seq::<char>::empty()
}

proof fn lemma_add_word(s: Seq<char>, w: Seq<char>)
    requires
        is_open(s),
        is_word(w),
    ensures
        parts_of(s + w) == parts_of(s).push(w),
        parts_of((s + w).push('+')) == parts_of(s).push(w),
        is_open((s + w).push('+')),
{
    let base = crate::text::split(s, CharClass::Plus);
    crate::text::lemma_split_pieces(s, CharClass::Plus);
    lemma_split_word(s, w);
    let next = crate::text::split(s + w, CharClass::Plus);
    assert(Seq::<char>::empty() + w =~= w);
    assert(next =~= base.drop_last().push(w));
    lemma_blank_piece(base.drop_last());
    assert(base.drop_last().push(Seq::empty()) =~= base);
    crate::text::lemma_trim_unchanged(w, CharClass::Whitespace);
    assert(next.drop_last() =~= base.drop_last());
    let more = (s + w).push('+');
    assert(more.drop_last() =~= s + w);
    let after = crate::text::split(more, CharClass::Plus);
    assert(after == next.push(Seq::empty()));
    lemma_blank_piece(next);
}

/// The words of the modifiers in a canonical chord.
proof fn lemma_modifier_words()
    ensures
        is_word("Ctrl"@) && modifier_of("Ctrl"@) == Some(Modifier::Ctrl) && "Ctrl+"@ == "Ctrl"@.push('+'),
        is_word("Shift"@) && modifier_of("Shift"@) == Some(Modifier::Shift) && "Shift+"@ == "Shift"@.push('+'),
        is_word("Alt"@) && modifier_of("Alt"@) == Some(Modifier::Alt) && "Alt+"@ == "Alt"@.push('+'),
        is_word("Win"@) && modifier_of("Win"@) == Some(Modifier::Meta) && "Win+"@ == "Win"@.push('+'),
{
    reveal_strlit("Ctrl");
    reveal_strlit("Ctrl+");
    reveal_strlit("ctrl");
    reveal_strlit("control");
    reveal_strlit("Shift");
    reveal_strlit("Shift+");
    reveal_strlit("shift");
    reveal_strlit("Alt");
    reveal_strlit("Alt+");
    reveal_strlit("alt");
    reveal_strlit("menu");
    reveal_strlit("Win");
    reveal_strlit("Win+");
    reveal_strlit("win");
    reveal_strlit("super");
    assert(crate::text::lower("Ctrl"@) =~= "ctrl"@);
    assert(crate::text::lower("Shift"@) =~= "shift"@);
    assert(crate::text::lower("Alt"@) =~= "alt"@);
    assert(crate::text::lower("Win"@) =~= "win"@);
    assert("win"@[0] != "alt"@[0]);
    assert("Ctrl+"@ =~= "Ctrl"@.push('+'));
    assert("Shift+"@ =~= "Shift"@.push('+'));
    assert("Alt+"@ =~= "Alt"@.push('+'));
    assert("Win+"@ =~= "Win"@.push('+'));
}

/// A key's own name stands for that key.
proof fn lemma_key_name(k: KeyCode)
    requires
        k.wf(),
    ensures
        is_word(k.name()),
        modifier_of(k.name()) is None,
        key_of(k.name()) == Some(k),
{
    match k {
        KeyCode::F(n) => {
            let w = k.name();
            lemma_function_digits(n);
            let l = crate::text::lower(w);
            assert(crate::text::lower(l) =~= l);
            lemma_reserved(l);
        },
        KeyCode::Letter(c) => {
            let l = crate::text::lower(k.name());
            assert(crate::text::lower(l) =~= l);
            lemma_reserved(l);
        },
        KeyCode::Digit(c) => {
            let l = crate::text::lower(k.name());
            assert(crate::text::lower(l) =~= l);
            lemma_reserved(l);
        },
        _ => {
            lemma_named_key_name(k);
        },
    }
}

proof fn lemma_function_digits(n: u8)
    requires
        1 <= n <= 12,
    ensures
        n < 10 ==> crate::text::decimal(n as nat) == seq![crate::text::digit(n as nat)],
        n >= 10 ==> crate::text::decimal(n as nat) == seq!['1', crate::text::digit((n - 10) as nat)],
{
    reveal_with_fuel(crate::text::decimal, 2);
    if n >= 10 {
        assert(crate::text::decimal(n as nat) =~= seq!['1', crate::text::digit((n - 10) as nat)]);
    }
}

#[verifier::rlimit(50)]
proof fn lemma_named_key_name(k: KeyCode)
    requires
        !(k is F),
        !(k is Letter),
        !(k is Digit),
    ensures
        is_word(k.name()),
        modifier_of(k.name()) is None,
        key_of(k.name()) == Some(k),
{
    reveal_strlit("printscreen");
    reveal_strlit("escape");
    reveal_strlit("space");
    reveal_strlit("tab");
    reveal_strlit("enter");
    reveal_strlit("backspace");
    reveal_strlit("delete");
    reveal_strlit("insert");
    reveal_strlit("home");
    reveal_strlit("end");
    reveal_strlit("pageup");
    reveal_strlit("pagedown");
    reveal_strlit("up");
    reveal_strlit("down");
    reveal_strlit("left");
    reveal_strlit("right");
    reveal_strlit("prtsc");
    reveal_strlit("prtscn");
    reveal_strlit("prntscrn");
    reveal_strlit("esc");
    reveal_strlit("return");
    reveal_strlit("del");
    reveal_strlit("ins");
    reveal_strlit("pgup");
    reveal_strlit("pgdn");
    reveal_strlit("ctrl");
    reveal_strlit("control");
    reveal_strlit("shift");
    reveal_strlit("alt");
    reveal_strlit("menu");
    reveal_strlit("super");
    reveal_strlit("win");
    reveal_strlit("meta");
    match k {
        KeyCode::PrintScreen => {
            reveal_strlit("PrintScreen");
            assert(crate::text::lower("PrintScreen"@) =~= "printscreen"@);
        },
        KeyCode::Escape => {
            reveal_strlit("Escape");
            assert(crate::text::lower("Escape"@) =~= "escape"@);
            assert("escape"@[0] != "prtscn"@[0]);
        },
        KeyCode::Space => {
            reveal_strlit("Space");
            assert(crate::text::lower("Space"@) =~= "space"@);
            assert("space"@[1] != "shift"@[1]);
            assert("space"@[1] != "super"@[1]);
            assert("space"@[0] != "prtsc"@[0]);
        },
        KeyCode::Tab => {
            reveal_strlit("Tab");
            assert(crate::text::lower("Tab"@) =~= "tab"@);
            assert("tab"@[0] != "alt"@[0]);
            assert("tab"@[0] != "win"@[0]);
            assert("tab"@[0] != "esc"@[0]);
        },
        KeyCode::Enter => {
            reveal_strlit("Enter");
            assert(crate::text::lower("Enter"@) =~= "enter"@);
            assert("enter"@[0] != "shift"@[0]);
            assert("enter"@[0] != "super"@[0]);
            assert("enter"@[0] != "prtsc"@[0]);
            assert("enter"@[0] != "space"@[0]);
        },
        KeyCode::Backspace => {
            reveal_strlit("Backspace");
            assert(crate::text::lower("Backspace"@) =~= "backspace"@);
        },
        KeyCode::Delete => {
            reveal_strlit("Delete");
            assert(crate::text::lower("Delete"@) =~= "delete"@);
            assert("delete"@[0] != "prtscn"@[0]);
            assert("delete"@[0] != "escape"@[0]);
            assert("delete"@[0] != "return"@[0]);
        },
        KeyCode::Insert => {
            reveal_strlit("Insert");
            assert(crate::text::lower("Insert"@) =~= "insert"@);
            assert("insert"@[0] != "prtscn"@[0]);
            assert("insert"@[0] != "escape"@[0]);
            assert("insert"@[0] != "return"@[0]);
            assert("insert"@[0] != "delete"@[0]);
        },
        KeyCode::Home => {
            reveal_strlit("Home");
            assert(crate::text::lower("Home"@) =~= "home"@);
            assert("home"@[0] != "ctrl"@[0]);
            assert("home"@[0] != "menu"@[0]);
            assert("home"@[0] != "meta"@[0]);
        },
        KeyCode::End => {
            reveal_strlit("End");
            assert(crate::text::lower("End"@) =~= "end"@);
            assert("end"@[0] != "alt"@[0]);
            assert("end"@[0] != "win"@[0]);
            assert("end"@[1] != "esc"@[1]);
            assert("end"@[0] != "tab"@[0]);
            assert("end"@[0] != "del"@[0]);
            assert("end"@[0] != "ins"@[0]);
        },
        KeyCode::PageUp => {
            reveal_strlit("PageUp");
            assert(crate::text::lower("PageUp"@) =~= "pageup"@);
            assert("pageup"@[1] != "prtscn"@[1]);
            assert("pageup"@[0] != "escape"@[0]);
            assert("pageup"@[0] != "return"@[0]);
            assert("pageup"@[0] != "delete"@[0]);
            assert("pageup"@[0] != "insert"@[0]);
        },
        KeyCode::PageDown => {
            reveal_strlit("PageDown");
            assert(crate::text::lower("PageDown"@) =~= "pagedown"@);
            assert("pagedown"@[1] != "prntscrn"@[1]);
        },
        KeyCode::ArrowUp => {
            reveal_strlit("Up");
            assert(crate::text::lower("Up"@) =~= "up"@);
        },
        KeyCode::ArrowDown => {
            reveal_strlit("Down");
            assert(crate::text::lower("Down"@) =~= "down"@);
            assert("down"@[0] != "ctrl"@[0]);
            assert("down"@[0] != "menu"@[0]);
            assert("down"@[0] != "meta"@[0]);
            assert("down"@[0] != "home"@[0]);
            assert("down"@[0] != "pgup"@[0]);
            assert("down"@[0] != "pgdn"@[0]);
        },
        KeyCode::ArrowLeft => {
            reveal_strlit("Left");
            assert(crate::text::lower("Left"@) =~= "left"@);
            assert("left"@[0] != "ctrl"@[0]);
            assert("left"@[0] != "menu"@[0]);
            assert("left"@[0] != "meta"@[0]);
            assert("left"@[0] != "home"@[0]);
            assert("left"@[0] != "pgup"@[0]);
            assert("left"@[0] != "pgdn"@[0]);
            assert("left"@[0] != "down"@[0]);
        },
        KeyCode::ArrowRight => {
            reveal_strlit("Right");
            assert(crate::text::lower("Right"@) =~= "right"@);
            assert("right"@[0] != "shift"@[0]);
            assert("right"@[0] != "super"@[0]);
            assert("right"@[0] != "prtsc"@[0]);
            assert("right"@[0] != "space"@[0]);
            assert("right"@[0] != "enter"@[0]);
        },
        _ => {},
    }
}

/// The canonical form of a chord parses to the same chord.
#[verifier::rlimit(60)]
pub proof fn law_canonical_form_reparses(c: Chord)
    requires
        c.key.wf(),
    ensures
        parsed(canonical(c)) == Ok::<Chord, ChordErrorView>(c),
{
    lemma_modifier_words();
    lemma_key_name(c.key);
    let s0 = Seq::<char>::empty();
    assert(is_open(s0));
    lemma_blank_piece(Seq::empty());
    assert(crate::text::split(s0, CharClass::Plus) =~= Seq::<Seq<char>>::empty().push(Seq::empty()));
    assert(parts_of(s0) =~= Seq::empty());
    let s1 = if c.ctrl {
        "Ctrl+"@
    } else {
        s0
    };
    if c.ctrl {
        lemma_add_word(s0, "Ctrl"@);
        assert((s0 + "Ctrl"@).push('+') =~= s1);
        assert(parts_of(s1).drop_last() =~= parts_of(s0));
    }
    let s2 = if c.shift {
        s1 + "Shift+"@
    } else {
        s1
    };
    if c.shift {
        lemma_add_word(s1, "Shift"@);
        assert((s1 + "Shift"@).push('+') =~= s2);
        assert(parts_of(s2).drop_last() =~= parts_of(s1));
    }
    let s3 = if c.alt {
        s2 + "Alt+"@
    } else {
        s2
    };
    if c.alt {
        lemma_add_word(s2, "Alt"@);
        assert((s2 + "Alt"@).push('+') =~= s3);
        assert(parts_of(s3).drop_last() =~= parts_of(s2));
    }
    let s4 = if c.meta {
        s3 + "Win+"@
    } else {
        s3
    };
    if c.meta {
        lemma_add_word(s3, "Win"@);
        assert((s3 + "Win"@).push('+') =~= s4);
        assert(parts_of(s4).drop_last() =~= parts_of(s3));
    }
    lemma_add_word(s4, c.key.name());
    assert(canonical(c) =~= s4 + c.key.name());
    assert(parts_of(canonical(c)).drop_last() =~= parts_of(s4));
    assert(scanned(parts_of(s0)) == Ok::<Scan, Seq<char>>(
        Scan { ctrl: false, shift: false, alt: false, meta: false, key: None },
    ));
    assert(scanned(parts_of(s1)) == Ok::<Scan, Seq<char>>(
        Scan { ctrl: c.ctrl, shift: false, alt: false, meta: false, key: None },
    ));
    assert(scanned(parts_of(s2)) == Ok::<Scan, Seq<char>>(
        Scan { ctrl: c.ctrl, shift: c.shift, alt: false, meta: false, key: None },
    ));
    assert(scanned(parts_of(s3)) == Ok::<Scan, Seq<char>>(
        Scan { ctrl: c.ctrl, shift: c.shift, alt: c.alt, meta: false, key: None },
    ));
    assert(scanned(parts_of(s4)) == Ok::<Scan, Seq<char>>(
        Scan { ctrl: c.ctrl, shift: c.shift, alt: c.alt, meta: c.meta, key: None },
    ));
}

/// A chord that parses names a valid key.
pub proof fn law_parsed_key_is_valid(s: Seq<char>)
    ensures
        parsed(s) matches Ok(c) ==> c.key.wf(),
{
    lemma_scanned_key(parts_of(s));
}

proof fn lemma_scanned_key(parts: Seq<Seq<char>>)
    ensures
        scanned(parts) matches Ok(st) ==> (st.key matches Some(k) ==> k.wf()),
    decreases parts.len(),
{
    if parts.len() > 0 {
        lemma_scanned_key(parts.drop_last());
    }
}

/// Two compiled hotkeys with the same id are the same chord.
pub proof fn law_ids_tell_chords_apart(a: HotKey, b: HotKey)
    requires
        a.wf(),
        b.wf(),
        a.id == b.id,
    ensures
        a == b,
{
}

/// Canonicalising is stable: the canonical form of a chord string is its own
/// canonical form.
pub proof fn law_canonicalise_idempotent(s: Seq<char>)
    requires
        parsed(s) is Ok,
    ensures
        parsed(canonical(parsed(s)->Ok_0)) == parsed(s),
{
    law_parsed_key_is_valid(s);
    law_canonical_form_reparses(parsed(s)->Ok_0);
}

/// The canonical name of a part that names a key is the key's name.
pub proof fn law_canonical_name_of_key(part: Seq<char>)
    ensures
        key_of(part) matches Some(k) ==> canonical_name(part) == k.name(),
{
    let l = crate::text::lower(part);
    if named_key(l) is None && function_key(l) is Some {
        let n = function_key(l)->Some_0->F_0;
        lemma_function_digits(n);
        assert(l.update(0, 'F') =~= seq!['F'] + crate::text::decimal(n as nat));
    } else if named_key(l) is None && l.len() == 1 {
        if l[0] == 'f' {
            assert(l.update(0, 'F') =~= seq!['F']);
        }
    }
}

/// Each modifier is held in a bit of its own, that of the crate global-hotkey: Alt in 1,
/// Control in 8, Meta in 64 and Shift in 512; there are no other bits. So a chord with
/// one modifier has exactly its bit.
pub proof fn law_modifiers_have_their_bits(c: Chord)
    ensures
        modifier_bits(c) & 1 != 0 <==> c.alt,
        modifier_bits(c) & 8 != 0 <==> c.ctrl,
        modifier_bits(c) & 64 != 0 <==> c.meta,
        modifier_bits(c) & 512 != 0 <==> c.shift,
        modifier_bits(c) & !585u32 == 0,
        c.ctrl && !c.alt && !c.meta && !c.shift ==> modifier_bits(c) == 8,
        c.shift && !c.alt && !c.meta && !c.ctrl ==> modifier_bits(c) == 512,
        c.alt && !c.ctrl && !c.meta && !c.shift ==> modifier_bits(c) == 1,
        c.meta && !c.alt && !c.ctrl && !c.shift ==> modifier_bits(c) == 64,
{
    let a: u32 = if c.alt {
        1
    } else {
        0
    };
    let k: u32 = if c.ctrl {
        8
    } else {
        0
    };
    let m: u32 = if c.meta {
        64
    } else {
        0
    };
    let s: u32 = if c.shift {
        512
    } else {
        0
    };
    let r = modifier_bits(c);
    assert(r == a + k + m + s);
    assert((r & 1 != 0 <==> a == 1) && (r & 8 != 0 <==> k == 8) && (r & 64 != 0 <==> m == 64) && (r
        & 512 != 0 <==> s == 512) && r & !585u32 == 0) by (bit_vector)
        requires
            r == a + k + m + s,
            a == 0 || a == 1,
            k == 0 || k == 8,
            m == 0 || m == 64,
            s == 0 || s == 512,
    ;
}

/// The words for modifiers, in any mixture of cases.
pub proof fn law_words_for_modifiers(s: Seq<char>)
    ensures
        ({
            let l = crate::text::lower(s);
            &&& modifier_of(s) == Some(Modifier::Ctrl) <==> l == "ctrl"@ || l == "control"@
            &&& modifier_of(s) == Some(Modifier::Shift) <==> l == "shift"@
            &&& modifier_of(s) == Some(Modifier::Alt) <==> l == "alt"@ || l == "menu"@
            &&& modifier_of(s) == Some(Modifier::Meta) <==> l == "super"@ || l == "win"@ || l
                == "meta"@
        }),
{
    reveal_strlit("ctrl");
    reveal_strlit("control");
    reveal_strlit("shift");
    reveal_strlit("alt");
    reveal_strlit("menu");
    reveal_strlit("super");
    reveal_strlit("win");
    reveal_strlit("meta");
    assert("ctrl"@[0] == 'c' && "control"@[0] == 'c' && "shift"@[1] == 'h' && "super"@[1] == 'u');
    assert("alt"@[0] == 'a' && "menu"@[1] == 'e' && "menu"@[2] == 'n' && "meta"@[2] == 't');
    assert("win"@[0] == 'w');
}

/// The short words for keys stand for the same key as the long ones, in any
/// mixture of cases.
pub proof fn law_short_words_for_keys(s: Seq<char>)
    ensures
        ({
            let l = crate::text::lower(s);
            &&& l == "prtsc"@ || l == "prtscn"@ || l == "prntscrn"@ || l == "printscreen"@
                ==> key_of(s) == Some(KeyCode::PrintScreen)
            &&& l == "esc"@ || l == "escape"@ ==> key_of(s) == Some(KeyCode::Escape)
            &&& l == "return"@ || l == "enter"@ ==> key_of(s) == Some(KeyCode::Enter)
            &&& l == "del"@ || l == "delete"@ ==> key_of(s) == Some(KeyCode::Delete)
            &&& l == "ins"@ || l == "insert"@ ==> key_of(s) == Some(KeyCode::Insert)
            &&& l == "pgup"@ || l == "pageup"@ ==> key_of(s) == Some(KeyCode::PageUp)
            &&& l == "pgdn"@ || l == "pagedown"@ ==> key_of(s) == Some(KeyCode::PageDown)
            &&& l == "up"@ ==> key_of(s) == Some(KeyCode::ArrowUp)
            &&& l == "down"@ ==> key_of(s) == Some(KeyCode::ArrowDown)
            &&& l == "left"@ ==> key_of(s) == Some(KeyCode::ArrowLeft)
            &&& l == "right"@ ==> key_of(s) == Some(KeyCode::ArrowRight)
        }),
{
    reveal_strlit("printscreen");
    reveal_strlit("prtsc");
    reveal_strlit("prtscn");
    reveal_strlit("prntscrn");
    reveal_strlit("escape");
    reveal_strlit("esc");
    reveal_strlit("space");
    reveal_strlit("tab");
    reveal_strlit("enter");
    reveal_strlit("return");
    reveal_strlit("backspace");
    reveal_strlit("delete");
    reveal_strlit("del");
    reveal_strlit("insert");
    reveal_strlit("ins");
    reveal_strlit("home");
    reveal_strlit("end");
    reveal_strlit("pageup");
    reveal_strlit("pgup");
    reveal_strlit("pagedown");
    reveal_strlit("pgdn");
    reveal_strlit("up");
    reveal_strlit("down");
    reveal_strlit("left");
    reveal_strlit("right");
    assert("printscreen"@[2] == 'i' && "prtsc"@[2] == 't' && "prtscn"@[2] == 't'
        && "prntscrn"@[2] == 'n' && "escape"@[1] == 's' && "esc"@[1] == 's');
    assert("space"@[0] == 's' && "tab"@[0] == 't' && "enter"@[2] == 't' && "return"@[1] == 'e'
        && "backspace"@[0] == 'b' && "delete"@[1] == 'e' && "del"@[1] == 'e');
    assert("insert"@[0] == 'i' && "ins"@[0] == 'i' && "home"@[0] == 'h' && "end"@[2] == 'd'
        && "pageup"@[4] == 'u' && "pgup"@[1] == 'g' && "pgup"@[2] == 'u' && "pagedown"@[4] == 'd'
        && "pgdn"@[1] == 'g' && "pgdn"@[2] == 'd');
    assert("up"@[0] == 'u' && "down"@[1] == 'o' && "left"@[0] == 'l' && "right"@[1] == 'i');
    assert("pageup"@[1] == 'a' && "pagedown"@[1] == 'a' && "printscreen"@[1] == 'r'
        && "prtsc"@[1] == 'r' && "prtscn"@[1] == 'r' && "prntscrn"@[1] == 'r');
    assert("enter"@[1] == 'n' && "end"@[1] == 'n' && "delete"@[0] == 'd' && "down"@[0] == 'd');
}

/// One part more in a chord: a modifier is held then, a key is the one that is
/// pressed, whatever came before; anything else makes the chord unreadable, and
/// the first such part stays the reason.
pub proof fn law_one_part_more(parts: Seq<Seq<char>>, part: Seq<char>)
    ensures
        ({
            let before = scanned(parts);
            let after = scanned(parts.push(part));
            let m = modifier_of(part);
            let k = key_of(part);
            &&& before is Err ==> after == before
            &&& before is Ok && m is Some ==> after is Ok && after->Ok_0.key == before->Ok_0.key
            &&& before is Ok && m is Some ==> (after->Ok_0.ctrl <==> before->Ok_0.ctrl || m == Some(
                Modifier::Ctrl,
            )) && (after->Ok_0.shift <==> before->Ok_0.shift || m == Some(Modifier::Shift)) && (
            after->Ok_0.alt <==> before->Ok_0.alt || m == Some(Modifier::Alt)) && (
            after->Ok_0.meta <==> before->Ok_0.meta || m == Some(Modifier::Meta))
            &&& before is Ok && m is None && k is Some ==> after is Ok && after->Ok_0.key == k
                && after->Ok_0.ctrl == before->Ok_0.ctrl && after->Ok_0.shift == before->Ok_0.shift
                && after->Ok_0.alt == before->Ok_0.alt && after->Ok_0.meta == before->Ok_0.meta
            &&& before is Ok && m is None && k is None ==> after == Err::<Scan, Seq<char>>(
                crate::text::lower(part),
            )
        }),
        scanned(Seq::empty()) is Ok && scanned(Seq::empty())->Ok_0.key is None,
{
    assert(parts.push(part).drop_last() =~= parts);
}

proof fn lemma_chord_parts_add(a: Seq<Seq<char>>, b: Seq<Seq<char>>)
    ensures
        chord_parts(a + b) == chord_parts(a) + chord_parts(b),
    decreases b.len(),
{
    if b.len() == 0 {
        assert(a + b =~= a);
        assert(chord_parts(a) + chord_parts(b) =~= chord_parts(a));
    } else {
        assert((a + b).drop_last() =~= a + b.drop_last());
        lemma_chord_parts_add(a, b.drop_last());
        assert(chord_parts(a + b) =~= chord_parts(a) + chord_parts(b));
    }
}

/// The parts of a chord are what stands between its plus signs, in order,
/// without the white space round them; blank ones do not count.
pub proof fn law_parts_stand_between_plus_signs(a: Seq<char>, b: Seq<char>)
    ensures
        parts_of(a + seq!['+'] + b) == parts_of(a) + parts_of(b),
        (forall|i: int| 0 <= i < a.len() ==> #[trigger] a[i] != '+') ==> parts_of(a) == (
        if crate::text::trim(a, CharClass::Whitespace).len() == 0 {
            Seq::empty()
        } else {
            seq![crate::text::trim(a, CharClass::Whitespace)]
        }),
{
    crate::text::law_texts_are_split_at_each(a, '+', b, CharClass::Plus);
    lemma_chord_parts_add(
        crate::text::split(a, CharClass::Plus),
        crate::text::split(b, CharClass::Plus),
    );
    if forall|i: int| 0 <= i < a.len() ==> #[trigger] a[i] != '+' {
        let one = seq![a];
        assert(crate::text::split(a, CharClass::Plus) == one);
        assert(one.drop_last() =~= Seq::<Seq<char>>::empty());
        assert(chord_parts(one.drop_last()) =~= Seq::<Seq<char>>::empty());
        let t = crate::text::trim(a, CharClass::Whitespace);
        if t.len() > 0 {
            assert(chord_parts(one) =~= seq![t]);
        }
    }
}

/// The canonical form names the held modifiers in the order control, shift, alt,
/// windows key, then the key.
pub proof fn law_canonical_order(c: Chord)
    ensures
        c.ctrl ==> canonical(c) == "Ctrl+"@ + canonical(Chord { ctrl: false, ..c }),
        !c.ctrl && c.shift ==> canonical(c) == "Shift+"@ + canonical(Chord { shift: false, ..c }),
        !c.ctrl && !c.shift && c.alt ==> canonical(c) == "Alt+"@ + canonical(
            Chord { alt: false, ..c },
        ),
        !c.ctrl && !c.shift && !c.alt && c.meta ==> canonical(c) == "Win+"@ + canonical(
            Chord { meta: false, ..c },
        ),
        !c.ctrl && !c.shift && !c.alt && !c.meta ==> canonical(c) == c.key.name(),
{
    let none = Seq::<char>::empty();
    assert(none + "Shift+"@ =~= "Shift+"@);
    assert(none + "Alt+"@ =~= "Alt+"@);
    assert(none + "Win+"@ =~= "Win+"@);
    assert(none + c.key.name() =~= c.key.name());
    if c.ctrl {
        assert(canonical(c) =~= "Ctrl+"@ + canonical(Chord { ctrl: false, ..c }));
    } else if c.shift {
        assert(canonical(c) =~= "Shift+"@ + canonical(Chord { shift: false, ..c }));
    } else if c.alt {
        assert(canonical(c) =~= "Alt+"@ + canonical(Chord { alt: false, ..c }));
    } else if c.meta {
        assert(canonical(c) =~= "Win+"@ + canonical(Chord { meta: false, ..c }));
    }
}

/// The code of a key is its name, with a word before it for arrows, letters and
/// digits.
pub proof fn law_codes_follow_names(k: KeyCode)
    ensures
        k is ArrowUp || k is ArrowDown || k is ArrowLeft || k is ArrowRight ==> k.code()
            == "Arrow"@ + k.name(),
        k is Letter ==> k.code() == "Key"@ + k.name(),
        k is Digit ==> k.code() == "Digit"@ + k.name(),
        !(k is ArrowUp) && !(k is ArrowDown) && !(k is ArrowLeft) && !(k is ArrowRight) && !(
        k is Letter) && !(k is Digit) ==> k.code() == k.name(),
        k matches KeyCode::F(n) ==> k.name().len() > 1 && k.name()[0] == 'F'
            && crate::text::number_of(k.name().skip(1)) == n,
        k matches KeyCode::Letter(c) ==> k.name() == seq![c],
        k matches KeyCode::Digit(c) ==> k.name() == seq![c],
{
    reveal_strlit("Arrow");
    reveal_strlit("Up");
    reveal_strlit("Down");
    reveal_strlit("Left");
    reveal_strlit("Right");
    reveal_strlit("ArrowUp");
    reveal_strlit("ArrowDown");
    reveal_strlit("ArrowLeft");
    reveal_strlit("ArrowRight");
    if k is ArrowUp || k is ArrowDown || k is ArrowLeft || k is ArrowRight {
        assert(k.code() =~= "Arrow"@ + k.name());
    }
    if k is F {
        let n = k->F_0;
        crate::text::law_decimals_read_back(n as nat);
        assert(k.name().skip(1) =~= crate::text::decimal(n as nat));
    }
}

/// A chord is read from its parts: the held modifiers are those among them, and
/// without a key it is refused with the whole text.
pub proof fn law_chords_are_read_from_their_parts(s: Seq<char>)
    ensures
        match scanned(parts_of(s)) {
            Err(word) => parsed(s) == Err::<Chord, ChordErrorView>(
                ChordErrorView::UnsupportedKey(word),
            ),
            Ok(st) => {
                &&& st.key is None ==> parsed(s) == Err::<Chord, ChordErrorView>(
                    ChordErrorView::NoKey(s),
                )
                &&& st.key is Some ==> parsed(s) is Ok && Some(parsed(s)->Ok_0.key) == st.key
                    && parsed(s)->Ok_0.ctrl == st.ctrl && parsed(s)->Ok_0.shift == st.shift
                    && parsed(s)->Ok_0.alt == st.alt && parsed(s)->Ok_0.meta == st.meta
            },
        },
{
}

/// A single letter is its key in either case, a digit its own; nothing else of
/// one character is a key.
pub proof fn law_characters_are_keys(c: char)
    ensures
        crate::text::is_ascii_alnum(c) <==> character_key(c) is Some,
        character_key(c) matches Some(KeyCode::Letter(u)) ==> u == crate::text::upper_char(c),
        character_key(c) matches Some(KeyCode::Digit(d)) ==> d == c,
        character_key(c) == character_key(crate::text::lower_char(c)),
        character_key(c) is Some ==> character_key(c)->Some_0 is Letter
            || character_key(c)->Some_0 is Digit,
{
}

} // verus!
