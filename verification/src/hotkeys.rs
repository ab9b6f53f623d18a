//! Global hotkeys: which chords are bound, what a change of the presets
//! registers and unregisters, and which command an event stands for.
pub mod bindings;

use vstd::prelude::*;
use crate::app::{Command, CommandView};
use crate::hotkeys::bindings::{parse, parse_chord, Chord, HotKey, HotkeyBinding};
use crate::text::{from_chars, push_text, same_str, to_chars};

verus! {

/// A preset that asks for a hotkey.
#[derive(Debug)]
pub struct PresetHotkey {
    pub chord: String,
    pub preset_name: String,
}

/// A preset hotkey as plain values.
#[verifier::ext_equal]
pub struct EntryView {
    pub chord: Seq<char>,
    pub name: Seq<char>,
}

impl View for PresetHotkey {
    type V = EntryView;

    open spec fn view(&self) -> EntryView {
        EntryView { chord: self.chord@, name: self.preset_name@ }
    }
}

impl Clone for PresetHotkey {
    fn clone(&self) -> (r: PresetHotkey)
        ensures
            r@ == self@,
    {
        PresetHotkey { chord: self.chord.clone(), preset_name: self.preset_name.clone() }
    }
}

/// The views of a list of preset hotkeys.
pub open spec fn entries(v: Seq<PresetHotkey>) -> Seq<EntryView> {
    v.map_values(|e: PresetHotkey| e@)
}

/// A hotkey that the system has accepted, or is to be asked for.
#[derive(Debug)]
pub struct Registered {
    pub hotkey: HotKey,
    pub command: Command,
    /// The chord in its canonical form.
    pub chord: String,
}

/// A registered hotkey as plain values.
#[verifier::ext_equal]
pub struct RegisteredView {
    pub hotkey: HotKey,
    pub command: CommandView,
    pub chord: Seq<char>,
}

impl RegisteredView {
    pub open spec fn wf(self) -> bool {
        &&& self.hotkey.wf()
        &&& self.chord == crate::hotkeys::bindings::canonical(self.hotkey.chord)
    }
}

impl View for Registered {
    type V = RegisteredView;

    open spec fn view(&self) -> RegisteredView {
        RegisteredView { hotkey: self.hotkey, command: self.command@, chord: self.chord@ }
    }
}

impl Clone for Registered {
    fn clone(&self) -> (r: Registered)
        ensures
            r@ == self@,
    {
        Registered {
            hotkey: self.hotkey,
            command: self.command.clone(),
            chord: self.chord.clone(),
        }
    }
}

/// The views of a list of registered hotkeys.
pub open spec fn registrations(v: Seq<Registered>) -> Seq<RegisteredView> {
    v.map_values(|r: Registered| r@)
}

/// A preset whose chord was not bound: its name, the chord and the reason.
pub struct FailureView {
    pub name: Seq<char>,
    pub chord: Seq<char>,
    pub reason: Seq<char>,
}

/// The views of the failures of a report.
pub open spec fn failures(v: Seq<(String, String, String)>) -> Seq<FailureView> {
    v.map_values(
        |f: (String, String, String)| FailureView { name: f.0@, chord: f.1@, reason: f.2@ },
    )
}

/// The views of the (name, chord) pairs of a report.
pub open spec fn pairs(v: Seq<(String, String)>) -> Seq<EntryView> {
    v.map_values(|p: (String, String)| EntryView { chord: p.1@, name: p.0@ })
}

/// What came of a refresh.
#[derive(Debug)]
pub struct RefreshReport {
    /// Presets that are bound: (preset_name, chord).
    pub registered: Vec<(String, String)>,
    /// Presets that are not: (preset_name, chord, reason).
    pub failed: Vec<(String, String, String)>,
}

/// The installed hotkeys: those of the settings, which a refresh leaves alone,
/// and those of the presets.
#[derive(Debug)]
pub struct Registrar {
    pub global: Vec<Registered>,
    pub presets: Vec<Registered>,
}

/// The installed hotkeys as plain values.
#[verifier::ext_equal]
pub struct RegistrarView {
    pub global: Seq<RegisteredView>,
    pub presets: Seq<RegisteredView>,
}

/// Whether one of the registrations has this chord.
pub open spec fn holds_chord(regs: Seq<RegisteredView>, chord: Seq<char>) -> bool {
    exists|i: int| 0 <= i < regs.len() && (#[trigger] regs[i]).chord == chord
}

/// Whether one of the entries has this chord.
pub open spec fn asks_chord(list: Seq<EntryView>, chord: Seq<char>) -> bool {
    exists|i: int| 0 <= i < list.len() && (#[trigger] list[i]).chord == chord
}

impl RegistrarView {
    /// Every registration is well formed; the presets' chords differ from each
    /// other and from the chords of the settings, and their commands capture
    /// presets.
    pub open spec fn wf(self) -> bool {
        &&& forall|i: int| 0 <= i < self.global.len() ==> (#[trigger] self.global[i]).wf()
        &&& forall|i: int| 0 <= i < self.presets.len() ==> (#[trigger] self.presets[i]).wf()
        &&& forall|i: int|
            0 <= i < self.presets.len() ==> (#[trigger] self.presets[i]).command is CapturePreset
        &&& forall|i: int, j: int|
            0 <= i < j < self.presets.len() ==> (#[trigger] self.presets[i]).chord != (
            #[trigger] self.presets[j]).chord
        &&& forall|i: int|
            0 <= i < self.presets.len() ==> !holds_chord(
                self.global,
                (#[trigger] self.presets[i]).chord,
            )
    }
}

impl View for Registrar {
    type V = RegistrarView;

    open spec fn view(&self) -> RegistrarView {
        RegistrarView {
            global: registrations(self.global@),
            presets: registrations(self.presets@),
        }
    }
}

// ---------------------------------------------------------------------------
// What a refresh is to do
// ---------------------------------------------------------------------------

/// The entries that are to be bound, with canonical chords, and those that
/// cannot be.
#[verifier::ext_equal]
pub struct Sifted {
    pub desired: Seq<EntryView>,
    pub failed: Seq<FailureView>,
}

/// Takes the entries in order. An entry fails if its chord does not parse, or if
/// a hotkey of the settings or an earlier entry has the chord.
pub open spec fn sifted(global: Seq<RegisteredView>, next: Seq<EntryView>) -> Sifted
    decreases next.len(),
{
    if next.len() == 0 {
        Sifted { desired: Seq::empty(), failed: Seq::empty() }
    } else {
        let st = sifted(global, next.drop_last());
        let e = next.last();
        match crate::hotkeys::bindings::parsed(e.chord) {
            Err(x) => Sifted {
                failed: st.failed.push(
                    FailureView {
                        name: e.name,
                        chord: e.chord,
                        reason: "unparseable: "@ + x.message(),
                    },
                ),
                ..st
            },
            Ok(c) => {
                let chord = crate::hotkeys::bindings::canonical(c);
                if holds_chord(global, chord) || asks_chord(st.desired, chord) {
                    Sifted {
                        failed: st.failed.push(
                            FailureView {
                                name: e.name,
                                chord,
                                reason: "duplicate chord in this session"@,
                            },
                        ),
                        ..st
                    }
                } else {
                    Sifted { desired: st.desired.push(EntryView { chord, name: e.name }), ..st }
                }
            },
        }
    }
}

/// Whether an entry asks for exactly this registration.
pub open spec fn wants(list: Seq<EntryView>, r: RegisteredView) -> bool {
    exists|i: int|
        0 <= i < list.len() && (#[trigger] list[i]).chord == r.chord && r.command
            == CommandView::CapturePreset(list[i].name)
}

/// The registrations that stay.
pub open spec fn kept(presets: Seq<RegisteredView>, desired: Seq<EntryView>) -> Seq<RegisteredView>
    decreases presets.len(),
{
    if presets.len() == 0 {
        Seq::empty()
    } else {
        let head = kept(presets.drop_last(), desired);
        if wants(desired, presets.last()) {
            head.push(presets.last())
        } else {
            head
        }
    }
}

/// The registrations that go.
pub open spec fn dropped(presets: Seq<RegisteredView>, desired: Seq<EntryView>) -> Seq<
    RegisteredView,
>
    decreases presets.len(),
{
    if presets.len() == 0 {
        Seq::empty()
    } else {
        let head = dropped(presets.drop_last(), desired);
        if wants(desired, presets.last()) {
            head
        } else {
            head.push(presets.last())
        }
    }
}

/// The registration of an entry whose chord is canonical.
pub open spec fn registration_of(e: EntryView) -> RegisteredView {
    let c = crate::hotkeys::bindings::parsed(e.chord)->Ok_0;
    RegisteredView {
        hotkey: HotKey {
            chord: c,
            id: crate::hotkeys::bindings::hotkey_number(
                crate::hotkeys::bindings::modifier_bits(c),
                c.key.code(),
            )->Some_0,
        },
        command: CommandView::CapturePreset(e.name),
        chord: e.chord,
    }
}

/// The registrations that the system is to be asked for: one for each entry
/// whose chord is not already held.
pub open spec fn fresh(desired: Seq<EntryView>, held: Seq<RegisteredView>) -> Seq<RegisteredView>
    decreases desired.len(),
{
    if desired.len() == 0 {
        Seq::empty()
    } else {
        let head = fresh(desired.drop_last(), held);
        if holds_chord(held, desired.last().chord) {
            head
        } else {
            head.push(registration_of(desired.last()))
        }
    }
}

/// What a refresh is to do.
pub struct RefreshPlan {
    pub desired: Vec<PresetHotkey>,
    pub failed: Vec<(String, String, String)>,
    /// To be unregistered.
    pub dropped: Vec<Registered>,
    /// Left as they are.
    pub kept: Vec<Registered>,
    /// To be registered, in this order.
    pub fresh: Vec<Registered>,
}

impl RefreshPlan {
    /// This is what a refresh of `r` with the entries `next` is to do.
    pub open spec fn is_plan(&self, r: RegistrarView, next: Seq<EntryView>) -> bool {
        let s = sifted(r.global, next);
        &&& entries(self.desired@) == s.desired
        &&& failures(self.failed@) == s.failed
        &&& registrations(self.dropped@) == dropped(r.presets, s.desired)
        &&& registrations(self.kept@) == kept(r.presets, s.desired)
        &&& registrations(self.fresh@) == fresh(s.desired, kept(r.presets, s.desired))
        &&& forall|i: int|
            0 <= i < self.fresh@.len() ==> (#[trigger] registrations(self.fresh@)[i]).wf()
    }
}

/// Whether a registration with this chord is in the list.
fn has_chord(regs: &Vec<Registered>, chord: &str) -> (r: bool)
    ensures
        r == holds_chord(registrations(regs@), chord@),
{
    let mut i: usize = 0;
    while i < regs.len()
        invariant
            i <= regs@.len(),
            forall|k: int| 0 <= k < i ==> (#[trigger] registrations(regs@)[k]).chord != chord@,
        decreases regs@.len() - i,
    {
        if same_str(regs[i].chord.as_str(), chord) {
            assert(registrations(regs@)[i as int].chord == chord@);
            return true;
        }
        i += 1;
    }
    false
}

/// Whether an entry with this chord is in the list.
fn has_entry(list: &Vec<PresetHotkey>, chord: &str) -> (r: bool)
    ensures
        r == asks_chord(entries(list@), chord@),
{
    let mut i: usize = 0;
    while i < list.len()
        invariant
            i <= list@.len(),
            forall|k: int| 0 <= k < i ==> (#[trigger] entries(list@)[k]).chord != chord@,
        decreases list@.len() - i,
    {
        if same_str(list[i].chord.as_str(), chord) {
            assert(entries(list@)[i as int].chord == chord@);
            return true;
        }
        i += 1;
    }
    false
}

/// Whether an entry asks for exactly this registration.
fn is_wanted(list: &Vec<PresetHotkey>, reg: &Registered) -> (r: bool)
    ensures
        r == wants(entries(list@), reg@),
{
    match &reg.command {
        Command::CapturePreset(name) => {
            let mut i: usize = 0;
            while i < list.len()
                invariant
                    i <= list@.len(),
                    reg.command@ == CommandView::CapturePreset(name@),
                    forall|k: int|
                        0 <= k < i ==> !((#[trigger] entries(list@)[k]).chord == reg.chord@
                            && entries(list@)[k].name == name@),
                decreases list@.len() - i,
            {
                if same_str(list[i].chord.as_str(), reg.chord.as_str()) && same_str(
                    list[i].preset_name.as_str(),
                    name.as_str(),
                ) {
                    assert(entries(list@)[i as int].chord == reg.chord@);
                    return true;
                }
                i += 1;
            }
            false
        },
        _ => false,
    }
}

/// The first step: which entries can be bound.
fn sift(global: &Vec<Registered>, next: &[PresetHotkey]) -> (r: (
    Vec<PresetHotkey>,
    Vec<(String, String, String)>,
))
    ensures
        entries(r.0@) == sifted(registrations(global@), entries(next@)).desired,
        failures(r.1@) == sifted(registrations(global@), entries(next@)).failed,
{
    let ghost g = registrations(global@);
    let ghost all = entries(next@);
    let mut desired: Vec<PresetHotkey> = Vec::new();
    let mut failed: Vec<(String, String, String)> = Vec::new();
    let mut i: usize = 0;
    assert(all.take(0) =~= Seq::empty());
    assert(entries(desired@) =~= Seq::empty());
    assert(failures(failed@) =~= Seq::empty());
    while i < next.len()
        invariant
            i <= next@.len(),
            g == registrations(global@),
            all == entries(next@),
            entries(desired@) == sifted(g, all.take(i as int)).desired,
            failures(failed@) == sifted(g, all.take(i as int)).failed,
        decreases next@.len() - i,
    {
        let e = &next[i];
        proof {
            assert(all.take(i + 1).drop_last() =~= all.take(i as int));
            assert(all.take(i + 1).last() == e@);
        }
        let ghost before_d = desired@;
        let ghost before_f = failed@;
        match parse_chord(e.chord.as_str()) {
            Err(x) => {
                let mut reason = to_chars("unparseable: ");
                let text = x.message();
                push_text(&mut reason, text.as_str());
                failed.push(
                    (e.preset_name.clone(), e.chord.clone(), from_chars(reason.as_slice())),
                );
                assert(failures(failed@) =~= failures(before_f).push(
                    FailureView {
                        name: e.preset_name@,
                        chord: e.chord@,
                        reason: "unparseable: "@ + x@.message(),
                    },
                ));
            },
            Ok((canon, _)) => {
                if has_chord(global, canon.as_str()) || has_entry(&desired, canon.as_str()) {
                    let ghost text = canon@;
                    failed.push(
                        (
                            e.preset_name.clone(),
                            canon,
                            "duplicate chord in this session".to_owned(),
                        ),
                    );
                    assert(failures(failed@) =~= failures(before_f).push(
                        FailureView {
                            name: e.preset_name@,
                            chord: text,
                            reason: "duplicate chord in this session"@,
                        },
                    ));
                } else {
                    let ghost text = canon@;
                    desired.push(PresetHotkey { chord: canon, preset_name: e.preset_name.clone() });
                    assert(entries(desired@) =~= entries(before_d).push(
                        EntryView { chord: text, name: e.preset_name@ },
                    ));
                }
            },
        }
        i += 1;
    }
    assert(all.take(i as int) =~= all);
    (desired, failed)
}

/// The second step: which registrations stay and which go.
fn partition(presets: &Vec<Registered>, desired: &Vec<PresetHotkey>) -> (r: (
    Vec<Registered>,
    Vec<Registered>,
))
    ensures
        registrations(r.0@) == kept(registrations(presets@), entries(desired@)),
        registrations(r.1@) == dropped(registrations(presets@), entries(desired@)),
{
    let ghost all = registrations(presets@);
    let ghost d = entries(desired@);
    let mut stay: Vec<Registered> = Vec::new();
    let mut go: Vec<Registered> = Vec::new();
    let mut i: usize = 0;
    assert(all.take(0) =~= Seq::empty());
    assert(registrations(stay@) =~= Seq::empty());
    assert(registrations(go@) =~= Seq::empty());
    while i < presets.len()
        invariant
            i <= presets@.len(),
            all == registrations(presets@),
            d == entries(desired@),
            registrations(stay@) == kept(all.take(i as int), d),
            registrations(go@) == dropped(all.take(i as int), d),
        decreases presets@.len() - i,
    {
        let reg = &presets[i];
        proof {
            assert(all.take(i + 1).drop_last() =~= all.take(i as int));
            assert(all.take(i + 1).last() == reg@);
        }
        let ghost before_s = stay@;
        let ghost before_g = go@;
        let copy = reg.clone();
        if is_wanted(desired, reg) {
            stay.push(copy);
            assert(registrations(stay@) =~= registrations(before_s).push(reg@));
        } else {
            go.push(copy);
            assert(registrations(go@) =~= registrations(before_g).push(reg@));
        }
        i += 1;
    }
    assert(all.take(i as int) =~= all);
    (stay, go)
}

/// The third step: what the system is to be asked for.
fn missing(desired: &Vec<PresetHotkey>, held: &Vec<Registered>) -> (r: Vec<Registered>)
    requires
        forall|i: int|
            0 <= i < desired@.len() ==> is_canonical((#[trigger] entries(desired@)[i]).chord),
    ensures
        registrations(r@) == fresh(entries(desired@), registrations(held@)),
        forall|i: int| 0 <= i < r@.len() ==> (#[trigger] registrations(r@)[i]).wf(),
{
    let ghost all = entries(desired@);
    let ghost h = registrations(held@);
    let mut out: Vec<Registered> = Vec::new();
    let mut i: usize = 0;
    assert(all.take(0) =~= Seq::empty());
    assert(registrations(out@) =~= Seq::empty());
    while i < desired.len()
        invariant
            i <= desired@.len(),
            all == entries(desired@),
            h == registrations(held@),
            forall|k: int|
                0 <= k < desired@.len() ==> is_canonical((#[trigger] entries(desired@)[k]).chord),
            registrations(out@) == fresh(all.take(i as int), h),
            forall|k: int| 0 <= k < out@.len() ==> (#[trigger] registrations(out@)[k]).wf(),
        decreases desired@.len() - i,
    {
        let e = &desired[i];
        proof {
            assert(all.take(i + 1).drop_last() =~= all.take(i as int));
            assert(all.take(i + 1).last() == e@);
            assert(entries(desired@)[i as int] == e@);
        }
        if !has_chord(held, e.chord.as_str()) {
            let ghost before = out@;
            match parse(e.chord.as_str()) {
                Ok(c) => {
                    let reg = Registered {
                        hotkey: HotKey::new(c),
                        command: Command::CapturePreset(e.preset_name.clone()),
                        chord: e.chord.clone(),
                    };
                    assert(reg@ =~= registration_of(e@));
                    assert(reg@.wf());
                    out.push(reg);
                    assert(registrations(out@) =~= registrations(before).push(
                        registration_of(e@),
                    ));
                },
                Err(_) => {},
            }
        }
        i += 1;
    }
    assert(all.take(i as int) =~= all);
    out
}

// ---------------------------------------------------------------------------
// What came of it
// ---------------------------------------------------------------------------

/// What the system answered, in the order in which it was asked: nothing, or why
/// it refused.
pub open spec fn answers(v: Seq<Option<String>>) -> Seq<Option<Seq<char>>> {
    v.map_values(
        |o: Option<String>|
            match o {
                Some(t) => Some(t@),
                None => None::<Seq<char>>,
            },
    )
}

/// The outcome of a refresh.
#[verifier::ext_equal]
pub struct Settled {
    pub registered: Seq<EntryView>,
    pub failed: Seq<FailureView>,
    pub added: Seq<RegisteredView>,
    /// How many answers were used.
    pub used: nat,
}

/// Takes the desired entries in order: one whose chord is held is bound; any
/// other is bound if the system accepted it.
pub open spec fn settled(
    desired: Seq<EntryView>,
    held: Seq<RegisteredView>,
    given: Seq<Option<Seq<char>>>,
) -> Settled
    decreases desired.len(),
{
    if desired.len() == 0 {
        Settled { registered: Seq::empty(), failed: Seq::empty(), added: Seq::empty(), used: 0 }
    } else {
        let st = settled(desired.drop_last(), held, given);
        let e = desired.last();
        if holds_chord(held, e.chord) {
            Settled { registered: st.registered.push(e), ..st }
        } else {
            match given[st.used as int] {
                None => Settled {
                    registered: st.registered.push(e),
                    added: st.added.push(registration_of(e)),
                    used: st.used + 1,
                    ..st
                },
                Some(reason) => Settled {
                    failed: st.failed.push(
                        FailureView {
                            name: e.name,
                            chord: e.chord,
                            reason: "OS rejected (already in use?): "@ + reason,
                        },
                    ),
                    used: st.used + 1,
                    ..st
                },
            }
        }
    }
}

/// The hotkeys after a refresh.
pub open spec fn refreshed(
    r: RegistrarView,
    next: Seq<EntryView>,
    given: Seq<Option<Seq<char>>>,
) -> RegistrarView {
    let desired = sifted(r.global, next).desired;
    let held = kept(r.presets, desired);
    RegistrarView { global: r.global, presets: held + settled(desired, held, given).added }
}

impl RefreshReport {
    /// This is what came of a plan, given what the system answered.
    pub open spec fn is_report(&self, plan: RefreshPlan, given: Seq<Option<Seq<char>>>) -> bool {
        let s = settled(entries(plan.desired@), registrations(plan.kept@), given);
        &&& pairs(self.registered@) == s.registered
        &&& failures(self.failed@) == failures(plan.failed@) + s.failed
    }
}

impl Registrar {
    /// What a refresh with these presets is to do. The dropped registrations are
    /// to be given back to the system, and then the fresh ones asked for.
    pub fn plan_refresh(&self, next: &[PresetHotkey]) -> (r: RefreshPlan)
        ensures
            r.is_plan(self@, entries(next@)),
    {
        let (desired, failed) = sift(&self.global, next);
        let (kept, dropped) = partition(&self.presets, &desired);
        proof {
            lemma_sifted(self@.global, entries(next@));
        }
        let fresh = missing(&desired, &kept);
        RefreshPlan { desired, failed, dropped, kept, fresh }
    }

    /// Replaces the presets' hotkeys as planned, given what the system answered
    /// to each fresh registration. The hotkeys of the settings are left alone.
    pub fn refresh_hotkeys(
        &mut self,
        next: &[PresetHotkey],
        plan: RefreshPlan,
        outcomes: &[Option<String>],
    ) -> (r: RefreshReport)
        requires
            old(self)@.wf(),
            plan.is_plan(old(self)@, entries(next@)),
            outcomes@.len() == plan.fresh@.len(),
        ensures
            final(self)@ == refreshed(old(self)@, entries(next@), answers(outcomes@)),
            final(self)@.wf(),
            r.is_report(plan, answers(outcomes@)),
    {
        let ghost d = entries(plan.desired@);
        let ghost h = registrations(plan.kept@);
        let ghost given = answers(outcomes@);
        let ghost ask = fresh(d, h);
        let ghost already = failures(plan.failed@);
        proof {
            lemma_sifted(self@.global, entries(next@));
            lemma_fresh_len(d, h, given);
            lemma_refreshed_wf(self@, entries(next@), given);
        }
        let mut registered: Vec<(String, String)> = Vec::new();
        let mut failed = plan.failed;
        let mut added: Vec<Registered> = Vec::new();
        let mut used: usize = 0;
        let mut i: usize = 0;
        let desired = plan.desired;
        let held = plan.kept;
        let asked = plan.fresh;
        assert(d.take(0) =~= Seq::empty());
        assert(pairs(registered@) =~= Seq::empty());
        assert(registrations(added@) =~= Seq::empty());
        assert(already + Seq::<FailureView>::empty() =~= already);
        while i < desired.len()
            invariant
                i <= desired@.len(),
                d == entries(desired@),
                h == registrations(held@),
                given == answers(outcomes@),
                registrations(asked@) == ask,
                ask == fresh(d, h),
                outcomes@.len() == asked@.len(),
                pairs(registered@) == settled(d.take(i as int), h, given).registered,
                failures(failed@) == already + settled(d.take(i as int), h, given).failed,
                registrations(added@) == settled(d.take(i as int), h, given).added,
                used == settled(d.take(i as int), h, given).used,
            decreases desired@.len() - i,
        {
            let e = &desired[i];
            proof {
                assert(d.take(i + 1).drop_last() =~= d.take(i as int));
                assert(d.take(i + 1).last() == e@);
                lemma_fresh_prefix(d, h, given, i as int);
                assert(d[i as int] == e@);
            }
            let ghost before_r = registered@;
            let ghost before_f = failed@;
            let ghost before_a = added@;
            if has_chord(&held, e.chord.as_str()) {
                registered.push((e.preset_name.clone(), e.chord.clone()));
                assert(pairs(registered@) =~= pairs(before_r).push(e@));
            } else {
                assert(given[used as int] == answers(outcomes@)[used as int]);
                assert(registrations(asked@)[used as int] == registration_of(e@));
                match &outcomes[used] {
                    None => {
                        registered.push((e.preset_name.clone(), e.chord.clone()));
                        added.push(asked[used].clone());
                        assert(pairs(registered@) =~= pairs(before_r).push(e@));
                        assert(registrations(added@) =~= registrations(before_a).push(
                            registration_of(e@),
                        ));
                    },
                    Some(text) => {
                        let mut reason = to_chars("OS rejected (already in use?): ");
                        push_text(&mut reason, text.as_str());
                        failed.push(
                            (e.preset_name.clone(), e.chord.clone(), from_chars(reason.as_slice())),
                        );
                        let ghost f = FailureView {
                            name: e.preset_name@,
                            chord: e.chord@,
                            reason: "OS rejected (already in use?): "@ + text@,
                        };
                        assert(failures(failed@) =~= failures(before_f).push(f));
                        assert((already + settled(d.take(i as int), h, given).failed).push(f)
                            =~= already + settled(d.take(i as int), h, given).failed.push(f));
                    },
                }
                used += 1;
            }
            i += 1;
        }
        assert(d.take(i as int) =~= d);
        let mut presets = held;
        let ghost before = presets@;
        let mut extra = added;
        presets.append(&mut extra);
        assert(registrations(presets@) =~= h + settled(d, h, given).added);
        self.presets = presets;
        RefreshReport { registered, failed }
    }
}

// ---------------------------------------------------------------------------
// Installing
// ---------------------------------------------------------------------------

/// The views of the settings' bindings: the chord as written and its command.
pub open spec fn wishes(v: Seq<(HotkeyBinding, Command)>) -> Seq<(Seq<char>, CommandView)> {
    v.map_values(|b: (HotkeyBinding, Command)| (b.0@, b.1@))
}

/// The registration of a chord that parses.
pub open spec fn candidate(c: Chord, command: CommandView) -> RegisteredView {
    RegisteredView {
        hotkey: HotKey {
            chord: c,
            id: crate::hotkeys::bindings::hotkey_number(
                crate::hotkeys::bindings::modifier_bits(c),
                c.key.code(),
            )->Some_0,
        },
        command,
        chord: crate::hotkeys::bindings::canonical(c),
    }
}

/// The bindings that the system is to be asked for: those whose chord parses.
pub open spec fn candidates(bindings: Seq<(Seq<char>, CommandView)>) -> Seq<RegisteredView>
    decreases bindings.len(),
{
    if bindings.len() == 0 {
        Seq::empty()
    } else {
        let head = candidates(bindings.drop_last());
        match crate::hotkeys::bindings::parsed(bindings.last().0) {
            Ok(c) => head.push(candidate(c, bindings.last().1)),
            Err(_) => head,
        }
    }
}

/// Those of the registrations that were accepted.
pub open spec fn accepted(list: Seq<RegisteredView>, yes: Seq<bool>) -> Seq<RegisteredView>
    decreases list.len(),
{
    if list.len() == 0 {
        Seq::empty()
    } else {
        let head = accepted(list.drop_last(), yes);
        if yes[list.len() - 1] {
            head.push(list.last())
        } else {
            head
        }
    }
}

impl Registrar {
    /// The settings' bindings that the system is to be asked for, in order. A
    /// binding whose chord does not parse is skipped.
    pub fn plan_install(bindings: &[(HotkeyBinding, Command)]) -> (r: Vec<Registered>)
        ensures
            registrations(r@) == candidates(wishes(bindings@)),
            forall|i: int| 0 <= i < r@.len() ==> (#[trigger] registrations(r@)[i]).wf(),
    {
        let ghost all = wishes(bindings@);
        let mut out: Vec<Registered> = Vec::new();
        let mut i: usize = 0;
        assert(all.take(0) =~= Seq::empty());
        assert(registrations(out@) =~= Seq::empty());
        while i < bindings.len()
            invariant
                i <= bindings@.len(),
                all == wishes(bindings@),
                registrations(out@) == candidates(all.take(i as int)),
                forall|k: int| 0 <= k < out@.len() ==> (#[trigger] registrations(out@)[k]).wf(),
            decreases bindings@.len() - i,
        {
            proof {
                assert(all.take(i + 1).drop_last() =~= all.take(i as int));
                assert(all.take(i + 1).last() == all[i as int]);
            }
            match bindings[i].0.as_hotkey() {
                Ok(hotkey) => {
                    let ghost before = out@;
                    let reg = Registered {
                        hotkey,
                        command: bindings[i].1.clone(),
                        chord: crate::hotkeys::bindings::canonical_text(hotkey.chord),
                    };
                    let ghost v = reg@;
                    assert(v =~= candidate(hotkey.chord, bindings@[i as int].1@));
                    out.push(reg);
                    assert(registrations(out@) =~= registrations(before).push(v));
                },
                Err(_) => {},
            }
            i += 1;
        }
        assert(all.take(i as int) =~= all);
        out
    }

    /// The hotkeys once the system has answered: the accepted ones are the
    /// settings' hotkeys, and no preset has one yet.
    pub fn install(plan: Vec<Registered>, yes: &[bool]) -> (r: Registrar)
        requires
            yes@.len() == plan@.len(),
            forall|i: int| 0 <= i < plan@.len() ==> (#[trigger] registrations(plan@)[i]).wf(),
        ensures
            r@.global == accepted(registrations(plan@), yes@),
            r@.presets == Seq::<RegisteredView>::empty(),
            r@.wf(),
    {
        let ghost all = registrations(plan@);
        let mut global: Vec<Registered> = Vec::new();
        let mut i: usize = 0;
        assert(all.take(0) =~= Seq::empty());
        assert(registrations(global@) =~= Seq::empty());
        while i < plan.len()
            invariant
                i <= plan@.len(),
                yes@.len() == plan@.len(),
                all == registrations(plan@),
                forall|k: int| 0 <= k < plan@.len() ==> (#[trigger] registrations(plan@)[k]).wf(),
                registrations(global@) == accepted(all.take(i as int), yes@),
                forall|k: int|
                    0 <= k < global@.len() ==> (#[trigger] registrations(global@)[k]).wf(),
            decreases plan@.len() - i,
        {
            proof {
                assert(all.take(i + 1).drop_last() =~= all.take(i as int));
                assert(all.take(i + 1).last() == all[i as int]);
                assert(registrations(plan@)[i as int].wf());
            }
            if yes[i] {
                let ghost before = global@;
                global.push(plan[i].clone());
                assert(registrations(global@) =~= registrations(before).push(all[i as int]));
            }
            i += 1;
        }
        assert(all.take(i as int) =~= all);
        let presets: Vec<Registered> = Vec::new();
        assert(registrations(presets@) =~= Seq::empty());
        Registrar { global, presets }
    }
}

// ---------------------------------------------------------------------------
// Events
// ---------------------------------------------------------------------------

/// The ids with their commands, the settings' first.
pub open spec fn dispatch(regs: Seq<RegisteredView>) -> Seq<(u32, CommandView)> {
    regs.map_values(|r: RegisteredView| (r.hotkey.id, r.command))
}

/// The views of a dispatch table.
pub open spec fn table(v: Seq<(u32, Command)>) -> Seq<(u32, CommandView)> {
    v.map_values(|p: (u32, Command)| (p.0, p.1@))
}

/// The command of the first entry with this id.
pub open spec fn first_command(t: Seq<(u32, CommandView)>, id: u32) -> Option<CommandView>
    decreases t.len(),
{
    if t.len() == 0 {
        None
    } else if t[0].0 == id {
        Some(t[0].1)
    } else {
        first_command(t.subrange(1, t.len() as int), id)
    }
}

impl Registrar {
    /// The table by which events are turned into commands.
    pub fn rebuild_dispatch(&self) -> (r: Vec<(u32, Command)>)
        ensures
            table(r@) == dispatch(self@.global + self@.presets),
    {
        let ghost all = self@.global + self@.presets;
        let mut out: Vec<(u32, Command)> = Vec::new();
        let mut i: usize = 0;
        while i < self.global.len()
            invariant
                i <= self.global@.len(),
                all == self@.global + self@.presets,
                out@.len() == i,
                forall|k: int| 0 <= k < i ==> #[trigger] table(out@)[k] == dispatch(all)[k],
            decreases self.global@.len() - i,
        {
            let ghost before = out@;
            out.push((self.global[i].hotkey.id, self.global[i].command.clone()));
            assert forall|k: int| 0 <= k < i + 1 implies #[trigger] table(out@)[k] == dispatch(
                all,
            )[k] by {
                if k < i {
                    assert(table(out@)[k] == table(before)[k]);
                } else {
                    assert(all[k] == self.global@[k]@);
                }
            }
            i += 1;
        }
        let mut j: usize = 0;
        while j < self.presets.len()
            invariant
                j <= self.presets@.len(),
                all == self@.global + self@.presets,
                out@.len() == self.global@.len() + j,
                forall|k: int|
                    0 <= k < out@.len() ==> #[trigger] table(out@)[k] == dispatch(all)[k],
            decreases self.presets@.len() - j,
        {
            let ghost before = out@;
            out.push((self.presets[j].hotkey.id, self.presets[j].command.clone()));
            assert forall|k: int| 0 <= k < out@.len() implies #[trigger] table(out@)[k]
                == dispatch(all)[k] by {
                if k < before.len() {
                    assert(table(out@)[k] == table(before)[k]);
                } else {
                    assert(all[k] == self.presets@[j as int]@);
                }
            }
            j += 1;
        }
        assert(table(out@) =~= dispatch(all));
        out
    }
}

/// The command that an event stands for: nothing for a key release or an id that
/// is not bound.
pub fn command_for_event(t: &[(u32, Command)], id: u32, pressed: bool) -> (r: Option<Command>)
    ensures
        match r {
            Some(c) => pressed && first_command(table(t@), id) == Some(c@),
            None => !pressed || first_command(table(t@), id) is None,
        },
{
    if !pressed {
        return None;
    }
    let ghost all = table(t@);
    let mut i: usize = 0;
    assert(all.subrange(0, all.len() as int) =~= all);
    while i < t.len()
        invariant
            i <= t@.len(),
            pressed,
            all == table(t@),
            first_command(all, id) == first_command(all.subrange(i as int, all.len() as int), id),
        decreases t@.len() - i,
    {
        let ghost rest = all.subrange(i as int, all.len() as int);
        assert(rest[0] == (t@[i as int].0, t@[i as int].1@));
        if t[i].0 == id {
            return Some(t[i].1.clone());
        }
        assert(rest.subrange(1, rest.len() as int) =~= all.subrange(i + 1, all.len() as int));
        i += 1;
    }
    None
}

// ---------------------------------------------------------------------------
// Proofs
// ---------------------------------------------------------------------------

/// A chord in its canonical form.
pub open spec fn is_canonical(chord: Seq<char>) -> bool {
    &&& crate::hotkeys::bindings::parsed(chord) is Ok
    &&& crate::hotkeys::bindings::parsed(chord)->Ok_0.key.wf()
    &&& crate::hotkeys::bindings::canonical(crate::hotkeys::bindings::parsed(chord)->Ok_0)
        == chord
}

/// What sifting leaves: canonical chords of valid keys, all different and none of
/// the settings'.
proof fn lemma_sifted(global: Seq<RegisteredView>, next: Seq<EntryView>)
    ensures
        ({
            let d = sifted(global, next).desired;
            &&& forall|i: int|
                0 <= i < d.len() ==> ({
                    let e = #[trigger] d[i];
                    &&& is_canonical(e.chord)
                    &&& !holds_chord(global, e.chord)
                })
            &&& forall|i: int, j: int|
                0 <= i < j < d.len() ==> (#[trigger] d[i]).chord != (#[trigger] d[j]).chord
        }),
    decreases next.len(),
{
    if next.len() > 0 {
        lemma_sifted(global, next.drop_last());
        let st = sifted(global, next.drop_last());
        let e = next.last();
        if crate::hotkeys::bindings::parsed(e.chord) is Ok {
            let c = crate::hotkeys::bindings::parsed(e.chord)->Ok_0;
            crate::hotkeys::bindings::law_parsed_key_is_valid(e.chord);
            crate::hotkeys::bindings::law_canonical_form_reparses(c);
            let d = sifted(global, next).desired;
            if d.len() > st.desired.len() {
                assert forall|i: int, j: int| 0 <= i < j < d.len() implies (#[trigger] d[i]).chord
                    != (#[trigger] d[j]).chord by {
                    assert(d[i] == st.desired[i]);
                    if j < st.desired.len() {
                        assert(d[j] == st.desired[j]);
                    }
                }
            }
        }
    }
}

/// As many answers are used as registrations were asked for.
proof fn lemma_fresh_len(
    desired: Seq<EntryView>,
    held: Seq<RegisteredView>,
    given: Seq<Option<Seq<char>>>,
)
    ensures
        fresh(desired, held).len() == settled(desired, held, given).used,
    decreases desired.len(),
{
    if desired.len() > 0 {
        lemma_fresh_len(desired.drop_last(), held, given);
    }
}

/// The registration of an entry stands in the list at the place of its answer.
proof fn lemma_fresh_prefix(
    desired: Seq<EntryView>,
    held: Seq<RegisteredView>,
    given: Seq<Option<Seq<char>>>,
    i: int,
)
    requires
        0 <= i < desired.len(),
    ensures
        settled(desired.take(i), held, given).used <= fresh(desired, held).len(),
        !holds_chord(held, desired[i].chord) ==> ({
            let n = settled(desired.take(i), held, given).used;
            &&& n < fresh(desired, held).len()
            &&& fresh(desired, held)[n as int] == registration_of(desired[i])
        }),
    decreases desired.len(),
{
    let most = desired.drop_last();
    if i == desired.len() - 1 {
        assert(desired.take(i) =~= most);
        lemma_fresh_len(most, held, given);
    } else {
        assert(most.take(i) =~= desired.take(i));
        lemma_fresh_prefix(most, held, given, i);
        assert(most[i] == desired[i]);
    }
}

/// A kept registration is one of the present ones, and an entry asks for it.
proof fn lemma_kept(presets: Seq<RegisteredView>, desired: Seq<EntryView>)
    ensures
        forall|i: int|
            0 <= i < kept(presets, desired).len() ==> {
                &&& presets.contains(#[trigger] kept(presets, desired)[i])
                &&& wants(desired, kept(presets, desired)[i])
            },
        (forall|i: int, j: int|
            0 <= i < j < presets.len() ==> (#[trigger] presets[i]).chord != (#[trigger] presets[j]).chord)
            ==> (forall|i: int, j: int|
            0 <= i < j < kept(presets, desired).len() ==> (#[trigger] kept(
                presets,
                desired,
            )[i]).chord != (#[trigger] kept(presets, desired)[j]).chord),
    decreases presets.len(),
{
    if presets.len() > 0 {
        let most = presets.drop_last();
        lemma_kept(most, desired);
        let k = kept(presets, desired);
        let before = kept(most, desired);
        assert forall|i: int| 0 <= i < k.len() implies presets.contains(#[trigger] k[i]) && wants(
            desired,
            k[i],
        ) by {
            if i < before.len() {
                assert(k[i] == before[i]);
                let j = choose|j: int| 0 <= j < most.len() && most[j] == before[i];
                assert(presets[j] == k[i]);
            } else {
                assert(presets[presets.len() - 1] == k[i]);
            }
        }
        if forall|i: int, j: int|
            0 <= i < j < presets.len() ==> (#[trigger] presets[i]).chord != (
            #[trigger] presets[j]).chord {
            assert forall|i: int, j: int| 0 <= i < j < most.len() implies (#[trigger] most[i]).chord
                != (#[trigger] most[j]).chord by {
                assert(most[i] == presets[i] && most[j] == presets[j]);
            }
            assert forall|i: int, j: int| 0 <= i < j < k.len() implies (#[trigger] k[i]).chord != (
            #[trigger] k[j]).chord by {
                assert(k[i] == before[i]);
                if j < before.len() {
                    assert(k[j] == before[j]);
                } else {
                    assert(most.contains(before[i]));
                    let x = choose|x: int| 0 <= x < most.len() && most[x] == before[i];
                    assert(presets[x] == before[i]);
                    assert(presets[presets.len() - 1] == k[j]);
                }
            }
        }
    }
}

/// An added registration belongs to an entry whose chord was not held.
proof fn lemma_added(
    desired: Seq<EntryView>,
    held: Seq<RegisteredView>,
    given: Seq<Option<Seq<char>>>,
)
    ensures
        forall|i: int|
            0 <= i < settled(desired, held, given).added.len() ==> exists|j: int|
                0 <= j < desired.len() && #[trigger] registration_of(desired[j]) == (
                #[trigger] settled(desired, held, given).added[i]) && !holds_chord(
                    held,
                    desired[j].chord,
                ),
        (forall|i: int, j: int|
            0 <= i < j < desired.len() ==> (#[trigger] desired[i]).chord != (#[trigger] desired[j]).chord)
            ==> (forall|i: int, j: int|
            0 <= i < j < settled(desired, held, given).added.len() ==> (#[trigger] settled(
                desired,
                held,
                given,
            ).added[i]).chord != (#[trigger] settled(desired, held, given).added[j]).chord),
    decreases desired.len(),
{
    if desired.len() > 0 {
        let most = desired.drop_last();
        lemma_added(most, held, given);
        let a = settled(desired, held, given).added;
        let before = settled(most, held, given).added;
        assert forall|i: int| 0 <= i < a.len() implies exists|j: int|
            0 <= j < desired.len() && #[trigger] registration_of(desired[j]) == (#[trigger] a[i])
                && !holds_chord(held, desired[j].chord) by {
            if i < before.len() {
                assert(a[i] == before[i]);
                let j = choose|j: int|
                    0 <= j < most.len() && #[trigger] registration_of(most[j]) == before[i]
                        && !holds_chord(held, most[j].chord);
                assert(registration_of(desired[j]) == a[i]);
            } else {
                assert(registration_of(desired[desired.len() - 1]) == a[i]);
            }
        }
        if forall|i: int, j: int|
            0 <= i < j < desired.len() ==> (#[trigger] desired[i]).chord != (
            #[trigger] desired[j]).chord {
            assert forall|i: int, j: int| 0 <= i < j < most.len() implies (#[trigger] most[i]).chord
                != (#[trigger] most[j]).chord by {
                assert(most[i] == desired[i] && most[j] == desired[j]);
            }
            assert forall|i: int, j: int| 0 <= i < j < a.len() implies (#[trigger] a[i]).chord != (
            #[trigger] a[j]).chord by {
                assert(a[i] == before[i]);
                if j < before.len() {
                    assert(a[j] == before[j]);
                } else {
                    let x = choose|x: int|
                        0 <= x < most.len() && #[trigger] registration_of(most[x]) == before[i]
                            && !holds_chord(held, most[x].chord);
                    assert(desired[x].chord == a[i].chord);
                    assert(a[j] == registration_of(desired.last()));
                    assert(desired[desired.len() - 1].chord == a[j].chord);
                }
            }
        }
    }
}

/// A refresh keeps the hotkeys well formed.
proof fn lemma_refreshed_wf(
    r: RegistrarView,
    next: Seq<EntryView>,
    given: Seq<Option<Seq<char>>>,
)
    requires
        r.wf(),
        ({
            let d = sifted(r.global, next).desired;
            let asked = fresh(d, kept(r.presets, d));
            forall|i: int| 0 <= i < asked.len() ==> (#[trigger] asked[i]).wf()
        }),
    ensures
        refreshed(r, next, given).wf(),
{
    let d = sifted(r.global, next).desired;
    let held = kept(r.presets, d);
    let asked = fresh(d, held);
    let added = settled(d, held, given).added;
    let p = refreshed(r, next, given).presets;
    lemma_sifted(r.global, next);
    lemma_kept(r.presets, d);
    lemma_added(d, held, given);
    assert forall|i: int| 0 <= i < held.len() implies {
        &&& (#[trigger] held[i]).wf()
        &&& held[i].command is CapturePreset
        &&& !holds_chord(r.global, held[i].chord)
    } by {
        let j = choose|j: int| 0 <= j < r.presets.len() && r.presets[j] == held[i];
        assert(r.presets[j] == held[i]);
    }
    assert forall|i: int| 0 <= i < added.len() implies {
        &&& (#[trigger] added[i]).wf()
        &&& added[i].command is CapturePreset
        &&& !holds_chord(r.global, added[i].chord)
        &&& !holds_chord(held, added[i].chord)
    } by {
        let j = choose|j: int|
            0 <= j < d.len() && #[trigger] registration_of(d[j]) == added[i] && !holds_chord(
                held,
                d[j].chord,
            );
        lemma_fresh_prefix(d, held, given, j);
        assert(d[j].chord == added[i].chord);
    }
    assert forall|i: int| 0 <= i < p.len() implies {
        &&& (#[trigger] p[i]).wf()
        &&& p[i].command is CapturePreset
        &&& !holds_chord(r.global, p[i].chord)
    } by {
        if i < held.len() {
            assert(p[i] == held[i]);
        } else {
            assert(p[i] == added[i - held.len()]);
        }
    }
    assert forall|i: int, j: int| 0 <= i < j < p.len() implies (#[trigger] p[i]).chord != (
    #[trigger] p[j]).chord by {
        if j < held.len() {
            assert(p[i] == held[i] && p[j] == held[j]);
        } else if i < held.len() {
            assert(p[i] == held[i] && p[j] == added[j - held.len()]);
        } else {
            assert(p[i] == added[i - held.len()] && p[j] == added[j - held.len()]);
        }
    }
}

/// Where every registration is wanted, all of them stay and none goes.
proof fn lemma_all_wanted(presets: Seq<RegisteredView>, desired: Seq<EntryView>)
    requires
        forall|i: int| 0 <= i < presets.len() ==> wants(desired, #[trigger] presets[i]),
    ensures
        kept(presets, desired) == presets,
        dropped(presets, desired) == Seq::<RegisteredView>::empty(),
    decreases presets.len(),
{
    if presets.len() > 0 {
        let most = presets.drop_last();
        assert forall|i: int| 0 <= i < most.len() implies wants(desired, #[trigger] most[i]) by {
            assert(most[i] == presets[i]);
        }
        lemma_all_wanted(most, desired);
        assert(presets[presets.len() - 1] == presets.last());
        assert(most.push(presets.last()) =~= presets);
    }
}

/// Where every chord is held, nothing is asked for.
proof fn lemma_all_held(desired: Seq<EntryView>, held: Seq<RegisteredView>)
    requires
        forall|i: int| 0 <= i < desired.len() ==> holds_chord(held, (#[trigger] desired[i]).chord),
    ensures
        fresh(desired, held) == Seq::<RegisteredView>::empty(),
    decreases desired.len(),
{
    if desired.len() > 0 {
        let most = desired.drop_last();
        assert forall|i: int| 0 <= i < most.len() implies holds_chord(
            held,
            (#[trigger] most[i]).chord,
        ) by {
            assert(most[i] == desired[i]);
        }
        lemma_all_held(most, held);
        assert(desired[desired.len() - 1] == desired.last());
    }
}

/// Where the system accepted everything, every desired entry is held or added.
proof fn lemma_all_added(
    desired: Seq<EntryView>,
    held: Seq<RegisteredView>,
    given: Seq<Option<Seq<char>>>,
)
    requires
        forall|k: int| 0 <= k < settled(desired, held, given).used ==> #[trigger] given[k] is None,
    ensures
        forall|i: int|
            0 <= i < desired.len() ==> holds_chord(
                held + settled(desired, held, given).added,
                (#[trigger] desired[i]).chord,
            ),
    decreases desired.len(),
{
    if desired.len() > 0 {
        let most = desired.drop_last();
        let st = settled(most, held, given);
        lemma_all_added(most, held, given);
        let before = held + st.added;
        let after = held + settled(desired, held, given).added;
        assert forall|i: int| 0 <= i < desired.len() implies holds_chord(
            after,
            (#[trigger] desired[i]).chord,
        ) by {
            if i < most.len() {
                assert(most[i] == desired[i]);
                let k = choose|k: int|
                    0 <= k < before.len() && (#[trigger] before[k]).chord == most[i].chord;
                assert(after[k] == before[k]);
            } else if holds_chord(held, desired[i].chord) {
                let k = choose|k: int|
                    0 <= k < held.len() && (#[trigger] held[k]).chord == desired[i].chord;
                assert(after[k] == held[k]);
            } else {
                assert(given[st.used as int] is None);
                assert(after[after.len() - 1] == registration_of(desired[i]));
            }
        }
    }
}

/// Where the system accepted everything, every desired entry is bound.
proof fn lemma_all_bound(
    desired: Seq<EntryView>,
    held: Seq<RegisteredView>,
    given: Seq<Option<Seq<char>>>,
)
    requires
        forall|k: int| 0 <= k < settled(desired, held, given).used ==> #[trigger] given[k] is None,
    ensures
        settled(desired, held, given).registered == desired,
        settled(desired, held, given).failed == Seq::<FailureView>::empty(),
    decreases desired.len(),
{
    if desired.len() > 0 {
        let most = desired.drop_last();
        let st = settled(most, held, given);
        lemma_all_bound(most, held, given);
        if !holds_chord(held, desired.last().chord) {
            assert(given[st.used as int] is None);
        }
        assert(most.push(desired.last()) =~= desired);
    }
}

/// A registration stays if it was there and is wanted, and goes if it was there and is
/// not.
proof fn lemma_partition(presets: Seq<RegisteredView>, desired: Seq<EntryView>, x: RegisteredView)
    ensures
        kept(presets, desired).contains(x) <==> presets.contains(x) && wants(desired, x),
        dropped(presets, desired).contains(x) <==> presets.contains(x) && !wants(desired, x),
    decreases presets.len(),
{
    if presets.len() > 0 {
        let most = presets.drop_last();
        let last = presets.last();
        lemma_partition(most, desired, x);
        assert(most.push(last) =~= presets);
        lemma_push_contains(most, last, x);
        lemma_push_contains(kept(most, desired), last, x);
        lemma_push_contains(dropped(most, desired), last, x);
    }
}

proof fn lemma_push_contains<A>(s: Seq<A>, a: A, x: A)
    ensures
        s.push(a).contains(x) <==> s.contains(x) || x == a,
{
    if s.contains(x) {
        let i = choose|i: int| 0 <= i < s.len() && s[i] == x;
        assert(s.push(a)[i] == x);
    }
    assert(s.push(a)[s.len() as int] == a);
    if s.push(a).contains(x) && x != a {
        let i = choose|i: int| 0 <= i < s.push(a).len() && s.push(a)[i] == x;
        assert(s[i] == x);
    }
}

/// Different chords stay different among what goes.
proof fn lemma_dropped_differ(presets: Seq<RegisteredView>, desired: Seq<EntryView>)
    requires
        forall|i: int, j: int|
            0 <= i < j < presets.len() ==> (#[trigger] presets[i]).chord != (
            #[trigger] presets[j]).chord,
    ensures
        forall|i: int, j: int|
            0 <= i < j < dropped(presets, desired).len() ==> (#[trigger] dropped(
                presets,
                desired,
            )[i]).chord != (#[trigger] dropped(presets, desired)[j]).chord,
    decreases presets.len(),
{
    if presets.len() > 0 {
        let most = presets.drop_last();
        assert forall|i: int, j: int| 0 <= i < j < most.len() implies (#[trigger] most[i]).chord
            != (#[trigger] most[j]).chord by {
            assert(most[i] == presets[i] && most[j] == presets[j]);
        }
        lemma_dropped_differ(most, desired);
        let before = dropped(most, desired);
        let after = dropped(presets, desired);
        assert forall|i: int, j: int| 0 <= i < j < after.len() implies (#[trigger] after[i]).chord
            != (#[trigger] after[j]).chord by {
            assert(after[i] == before[i]);
            if j < before.len() {
                assert(after[j] == before[j]);
            } else {
                lemma_partition(most, desired, before[i]);
                assert(before.contains(before[i]));
                let x = choose|x: int| 0 <= x < most.len() && most[x] == before[i];
                assert(presets[x] == before[i]);
                assert(presets[presets.len() - 1] == after[j]);
            }
        }
    }
}

/// What is asked for belongs to the desired entries whose chord is not held, and has
/// different chords if they do.
proof fn lemma_fresh_pairs(desired: Seq<EntryView>, held: Seq<RegisteredView>)
    ensures
        forall|e: EntryView|
            has_pair(fresh(desired, held), e) <==> #[trigger] desired.contains(e) && !holds_chord(
                held,
                e.chord,
            ),
        (forall|i: int, j: int|
            0 <= i < j < desired.len() ==> (#[trigger] desired[i]).chord != (#[trigger] desired[j]).chord)
            ==> (forall|i: int, j: int|
            0 <= i < j < fresh(desired, held).len() ==> (#[trigger] fresh(desired, held)[i]).chord
                != (#[trigger] fresh(desired, held)[j]).chord),
    decreases desired.len(),
{
    if desired.len() > 0 {
        let most = desired.drop_last();
        let last = desired.last();
        lemma_fresh_pairs(most, held);
        let before = fresh(most, held);
        let after = fresh(desired, held);
        assert(most.push(last) =~= desired);
        assert forall|e: EntryView|
            has_pair(after, e) <==> #[trigger] desired.contains(e) && !holds_chord(
                held,
                e.chord,
            ) by {
            lemma_push_contains(most, last, e);
            assert(has_pair(before, e) <==> most.contains(e) && !holds_chord(held, e.chord));
            if has_pair(before, e) {
                let i = choose|i: int|
                    0 <= i < before.len() && (#[trigger] before[i]).chord == e.chord
                        && before[i].command == CommandView::CapturePreset(e.name);
                assert(after[i] == before[i]);
            }
            if !holds_chord(held, last.chord) {
                assert(after[before.len() as int] == registration_of(last));
            }
            if has_pair(after, e) && !has_pair(before, e) {
                let i = choose|i: int|
                    0 <= i < after.len() && (#[trigger] after[i]).chord == e.chord
                        && after[i].command == CommandView::CapturePreset(e.name);
                if i < before.len() {
                    assert(before[i] == after[i]);
                }
                assert(e =~= last);
            }
        }
        if forall|i: int, j: int|
            0 <= i < j < desired.len() ==> (#[trigger] desired[i]).chord != (
            #[trigger] desired[j]).chord {
            assert forall|i: int, j: int| 0 <= i < j < most.len() implies (#[trigger] most[i]).chord
                != (#[trigger] most[j]).chord by {
                assert(most[i] == desired[i] && most[j] == desired[j]);
            }
            assert forall|i: int, j: int| 0 <= i < j < after.len() implies (
            #[trigger] after[i]).chord != (#[trigger] after[j]).chord by {
                assert(after[i] == before[i]);
                if j < before.len() {
                    assert(after[j] == before[j]);
                } else {
                    lemma_fresh_source(most, held, i);
                    let x = choose|x: int|
                        0 <= x < most.len() && #[trigger] registration_of(most[x]) == before[i];
                    assert(desired[x] == most[x]);
                    assert(desired[desired.len() - 1].chord == after[j].chord);
                }
            }
        }
    }
}

/// What is asked for is the registration of a desired entry.
proof fn lemma_fresh_source(desired: Seq<EntryView>, held: Seq<RegisteredView>, i: int)
    requires
        0 <= i < fresh(desired, held).len(),
    ensures
        exists|x: int|
            0 <= x < desired.len() && #[trigger] registration_of(desired[x]) == fresh(
                desired,
                held,
            )[i],
    decreases desired.len(),
{
    let most = desired.drop_last();
    let before = fresh(most, held);
    if i < before.len() {
        lemma_fresh_source(most, held, i);
        let x = choose|x: int|
            0 <= x < most.len() && #[trigger] registration_of(most[x]) == before[i];
        assert(registration_of(desired[x]) == fresh(desired, held)[i]);
    } else {
        assert(registration_of(desired[desired.len() - 1]) == fresh(desired, held)[i]);
    }
}

/// The entries that are left by sifting are the wanted ones.
proof fn lemma_wanted(global: Seq<RegisteredView>, next: Seq<EntryView>)
    ensures
        forall|e: EntryView| #[trigger]
            sifted(global, next).desired.contains(e) <==> claims_first(global, next, e),
        forall|chord: Seq<char>| #[trigger]
            asks_chord(sifted(global, next).desired, chord) <==> !holds_chord(global, chord)
                && (exists|i: int| 0 <= i < next.len() && claims(#[trigger] next[i], chord)),
    decreases next.len(),
{
    if next.len() > 0 {
        let less = next.drop_last();
        let last = next.last();
        lemma_wanted(global, less);
        let st = sifted(global, less).desired;
        let d = sifted(global, next).desired;
        assert forall|e: EntryView| #[trigger] d.contains(e) <==> claims_first(global, next, e) by {
            assert(st.contains(e) <==> claims_first(global, less, e));
            assert(asks_chord(st, e.chord) <==> !holds_chord(global, e.chord) && (exists|i: int|
                0 <= i < less.len() && claims(#[trigger] less[i], e.chord)));
            if claims_first(global, less, e) {
                let i = choose|i: int|
                    0 <= i < less.len() && claims(#[trigger] less[i], e.chord) && less[i].name
                        == e.name && (forall|j: int|
                        0 <= j < i ==> !claims(#[trigger] less[j], e.chord));
                assert(next[i] == less[i]);
                assert forall|j: int| 0 <= j < i implies !claims(#[trigger] next[j], e.chord) by {
                    assert(next[j] == less[j]);
                }
                assert(claims_first(global, next, e));
            }
            if claims_first(global, next, e) && !claims_first(global, less, e) {
                let i = choose|i: int|
                    0 <= i < next.len() && claims(#[trigger] next[i], e.chord) && next[i].name
                        == e.name && (forall|j: int|
                        0 <= j < i ==> !claims(#[trigger] next[j], e.chord));
                assert forall|j: int| 0 <= j < i implies !claims(#[trigger] less[j], e.chord) by {
                    assert(next[j] == less[j]);
                }
                if i < less.len() {
                    assert(less[i] == next[i]);
                }
                assert(i == next.len() - 1);
                assert(!asks_chord(st, e.chord));
                assert(d =~= st.push(e));
                assert(d[st.len() as int] == e);
            }
            if d.len() > st.len() {
                let f = d[st.len() as int];
                assert(d =~= st.push(f));
                lemma_push_contains(st, f, e);
                if e == f {
                    let n = next.len() - 1;
                    assert(claims(next[n], f.chord));
                    assert forall|j: int| 0 <= j < n implies !claims(
                        #[trigger] next[j],
                        f.chord,
                    ) by {
                        assert(next[j] == less[j]);
                        assert(!asks_chord(st, f.chord));
                    }
                    assert(claims_first(global, next, e));
                }
            } else {
                assert(d == st);
            }
        }
        assert forall|chord: Seq<char>| #[trigger]
            asks_chord(d, chord) <==> !holds_chord(global, chord) && (exists|i: int|
                0 <= i < next.len() && claims(#[trigger] next[i], chord)) by {
            assert(asks_chord(st, chord) <==> !holds_chord(global, chord) && (exists|i: int|
                0 <= i < less.len() && claims(#[trigger] less[i], chord)));
            if asks_chord(st, chord) {
                let i = choose|i: int| 0 <= i < st.len() && (#[trigger] st[i]).chord == chord;
                assert(d[i] == st[i]);
                let k = choose|k: int| 0 <= k < less.len() && claims(#[trigger] less[k], chord);
                assert(next[k] == less[k]);
            } else {
                if asks_chord(d, chord) {
                    let i = choose|i: int| 0 <= i < d.len() && (#[trigger] d[i]).chord == chord;
                    if i < st.len() {
                        assert(st[i] == d[i]);
                    }
                    assert(claims(next[next.len() - 1], chord));
                }
                if !holds_chord(global, chord) && (exists|i: int|
                    0 <= i < next.len() && claims(#[trigger] next[i], chord)) {
                    let k = choose|k: int| 0 <= k < next.len() && claims(#[trigger] next[k], chord);
                    if k < less.len() {
                        assert(less[k] == next[k]);
                    }
                    assert(d[d.len() - 1].chord == chord);
                }
            }
        }
    }
}

// ---------------------------------------------------------------------------
// Laws
// ---------------------------------------------------------------------------

/// Whether a chord is bound to a preset by one of the registrations.
pub open spec fn has_pair(regs: Seq<RegisteredView>, e: EntryView) -> bool {
    exists|i: int|
        0 <= i < regs.len() && (#[trigger] regs[i]).chord == e.chord && regs[i].command
            == CommandView::CapturePreset(e.name)
}

/// Whether an entry claims a chord: its own chord can be read, and has this form.
pub open spec fn claims(e: EntryView, chord: Seq<char>) -> bool {
    &&& crate::hotkeys::bindings::parsed(e.chord) is Ok
    &&& crate::hotkeys::bindings::canonical(crate::hotkeys::bindings::parsed(e.chord)->Ok_0)
        == chord
}

/// Whether a chord is to be bound to a preset: no hotkey of the settings has it, and
/// the preset is the first to claim it.
pub open spec fn claims_first(
    global: Seq<RegisteredView>,
    next: Seq<EntryView>,
    e: EntryView,
) -> bool {
    &&& !holds_chord(global, e.chord)
    &&& exists|i: int|
        0 <= i < next.len() && claims(#[trigger] next[i], e.chord) && next[i].name == e.name && (
        forall|j: int| 0 <= j < i ==> !claims(#[trigger] next[j], e.chord))
}

/// What a refresh asks of the system. It gives back exactly the pairs of chord and
/// preset that were bound and are not wanted, asks for exactly those that are wanted and
/// were not bound, each once, and leaves alone those that are both. A chord that goes to
/// another preset is given back and asked for. No hotkey of the settings is given back
/// or asked for.
pub proof fn law_refresh_calls(
    r: RegistrarView,
    next: Seq<EntryView>,
    plan: RefreshPlan,
    e: EntryView,
    name: Seq<char>,
)
    requires
        r.wf(),
        plan.is_plan(r, next),
    ensures
        has_pair(registrations(plan.dropped@), e) <==> has_pair(r.presets, e) && !claims_first(
            r.global,
            next,
            e,
        ),
        has_pair(registrations(plan.fresh@), e) <==> claims_first(r.global, next, e) && !has_pair(
            r.presets,
            e,
        ),
        has_pair(registrations(plan.kept@), e) <==> has_pair(r.presets, e) && claims_first(
            r.global,
            next,
            e,
        ),
        ({
            let moved = EntryView { chord: e.chord, name };
            has_pair(r.presets, e) && claims_first(r.global, next, moved) && name != e.name ==> {
                &&& has_pair(registrations(plan.dropped@), e)
                &&& has_pair(registrations(plan.fresh@), moved)
            }
        }),
        forall|i: int, j: int|
            0 <= i < j < plan.dropped@.len() ==> (#[trigger] registrations(plan.dropped@)[i]).chord
                != (#[trigger] registrations(plan.dropped@)[j]).chord,
        forall|i: int, j: int|
            0 <= i < j < plan.fresh@.len() ==> (#[trigger] registrations(plan.fresh@)[i]).chord
                != (#[trigger] registrations(plan.fresh@)[j]).chord,
        forall|i: int, k: int|
            0 <= i < plan.dropped@.len() && 0 <= k < r.global.len() ==> (#[trigger] registrations(
                plan.dropped@,
            )[i]).hotkey.id != (#[trigger] r.global[k]).hotkey.id,
        forall|i: int, k: int|
            0 <= i < plan.fresh@.len() && 0 <= k < r.global.len() ==> (#[trigger] registrations(
                plan.fresh@,
            )[i]).hotkey.id != (#[trigger] r.global[k]).hotkey.id,
{
    let d = sifted(r.global, next).desired;
    let gone = dropped(r.presets, d);
    let held = kept(r.presets, d);
    let asked = fresh(d, held);
    lemma_sifted(r.global, next);
    lemma_wanted(r.global, next);
    lemma_fresh_pairs(d, held);
    lemma_dropped_differ(r.presets, d);
    lemma_pairs_partition(r, d, e);
    let moved = EntryView { chord: e.chord, name };
    lemma_pairs_partition(r, d, moved);
    assert(d.contains(e) <==> claims_first(r.global, next, e));
    assert(d.contains(moved) <==> claims_first(r.global, next, moved));
    assert(has_pair(asked, e) <==> d.contains(e) && !holds_chord(held, e.chord));
    assert(has_pair(asked, moved) <==> d.contains(moved) && !holds_chord(held, moved.chord));
    if has_pair(r.presets, e) && d.contains(moved) && name != e.name {
        let a = choose|i: int|
            0 <= i < r.presets.len() && (#[trigger] r.presets[i]).chord == e.chord
                && r.presets[i].command == CommandView::CapturePreset(e.name);
        if has_pair(r.presets, moved) {
            let b = choose|i: int|
                0 <= i < r.presets.len() && (#[trigger] r.presets[i]).chord == moved.chord
                    && r.presets[i].command == CommandView::CapturePreset(moved.name);
            assert(a == b);
        }
        if d.contains(e) {
            let x = choose|x: int| 0 <= x < d.len() && d[x] == e;
            let y = choose|y: int| 0 <= y < d.len() && d[y] == moved;
            assert(x == y);
        }
    }
    assert forall|i: int, k: int|
        0 <= i < gone.len() && 0 <= k < r.global.len() implies (#[trigger] gone[i]).hotkey.id != (
    #[trigger] r.global[k]).hotkey.id by {
        lemma_partition(r.presets, d, gone[i]);
        assert(gone.contains(gone[i]));
        let x = choose|x: int| 0 <= x < r.presets.len() && r.presets[x] == gone[i];
        assert(!holds_chord(r.global, r.presets[x].chord));
        if gone[i].hotkey.id == r.global[k].hotkey.id {
            crate::hotkeys::bindings::law_ids_tell_chords_apart(
                r.presets[x].hotkey,
                r.global[k].hotkey,
            );
        }
    }
    assert forall|i: int, k: int|
        0 <= i < asked.len() && 0 <= k < r.global.len() implies (#[trigger] asked[i]).hotkey.id != (
    #[trigger] r.global[k]).hotkey.id by {
        lemma_fresh_source(d, held, i);
        let x = choose|x: int| 0 <= x < d.len() && #[trigger] registration_of(d[x]) == asked[i];
        assert(!holds_chord(r.global, d[x].chord));
        assert(registrations(plan.fresh@)[i].wf());
        if asked[i].hotkey.id == r.global[k].hotkey.id {
            crate::hotkeys::bindings::law_ids_tell_chords_apart(
                asked[i].hotkey,
                r.global[k].hotkey,
            );
        }
    }
}

/// How the pairs that were bound are divided, and which chords stay bound.
proof fn lemma_pairs_partition(r: RegistrarView, d: Seq<EntryView>, e: EntryView)
    requires
        r.wf(),
        forall|i: int, j: int|
            0 <= i < j < d.len() ==> (#[trigger] d[i]).chord != (#[trigger] d[j]).chord,
    ensures
        has_pair(dropped(r.presets, d), e) <==> has_pair(r.presets, e) && !d.contains(e),
        has_pair(kept(r.presets, d), e) <==> has_pair(r.presets, e) && d.contains(e),
        d.contains(e) ==> (holds_chord(kept(r.presets, d), e.chord) <==> has_pair(r.presets, e)),
{
    let gone = dropped(r.presets, d);
    let held = kept(r.presets, d);
    if has_pair(gone, e) {
        let i = choose|i: int|
            0 <= i < gone.len() && (#[trigger] gone[i]).chord == e.chord && gone[i].command
                == CommandView::CapturePreset(e.name);
        lemma_partition(r.presets, d, gone[i]);
        assert(gone.contains(gone[i]));
        let x = choose|x: int| 0 <= x < r.presets.len() && r.presets[x] == gone[i];
        assert(r.presets[x].chord == e.chord);
        if d.contains(e) {
            let y = choose|y: int| 0 <= y < d.len() && d[y] == e;
            assert(d[y].chord == gone[i].chord);
        }
    }
    if has_pair(held, e) {
        let i = choose|i: int|
            0 <= i < held.len() && (#[trigger] held[i]).chord == e.chord && held[i].command
                == CommandView::CapturePreset(e.name);
        lemma_partition(r.presets, d, held[i]);
        assert(held.contains(held[i]));
        let x = choose|x: int| 0 <= x < r.presets.len() && r.presets[x] == held[i];
        assert(r.presets[x].chord == e.chord);
        let y = choose|y: int|
            0 <= y < d.len() && (#[trigger] d[y]).chord == held[i].chord && held[i].command
                == CommandView::CapturePreset(d[y].name);
        assert(d[y] =~= e);
    }
    if has_pair(r.presets, e) {
        let x = choose|x: int|
            0 <= x < r.presets.len() && (#[trigger] r.presets[x]).chord == e.chord
                && r.presets[x].command == CommandView::CapturePreset(e.name);
        let p = r.presets[x];
        lemma_partition(r.presets, d, p);
        assert(r.presets.contains(p));
        if d.contains(e) {
            let y = choose|y: int| 0 <= y < d.len() && d[y] == e;
            assert(d[y].chord == p.chord);
            assert(wants(d, p));
            let i = choose|i: int| 0 <= i < held.len() && held[i] == p;
            assert(held[i].chord == e.chord);
        } else {
            if wants(d, p) {
                let y = choose|y: int|
                    0 <= y < d.len() && (#[trigger] d[y]).chord == p.chord && p.command
                        == CommandView::CapturePreset(d[y].name);
                assert(d[y] =~= e);
            }
            let i = choose|i: int| 0 <= i < gone.len() && gone[i] == p;
            assert(gone[i].chord == e.chord);
        }
    }
    if d.contains(e) && holds_chord(held, e.chord) {
        let i = choose|i: int| 0 <= i < held.len() && (#[trigger] held[i]).chord == e.chord;
        lemma_partition(r.presets, d, held[i]);
        assert(held.contains(held[i]));
        let y = choose|y: int|
            0 <= y < d.len() && (#[trigger] d[y]).chord == held[i].chord && held[i].command
                == CommandView::CapturePreset(d[y].name);
        let z = choose|z: int| 0 <= z < d.len() && d[z] == e;
        assert(y == z);
        let x = choose|x: int| 0 <= x < r.presets.len() && r.presets[x] == held[i];
        assert(r.presets[x].chord == e.chord);
    }
}

/// Two refreshes with the same presets, one after the other, of which the system refused
/// nothing the first time: the second gives nothing back and asks for nothing, leaves
/// the hotkeys as they are, and reports the same.
pub proof fn law_refreshing_twice(
    r: RegistrarView,
    next: Seq<EntryView>,
    plan: RefreshPlan,
    given: Seq<Option<Seq<char>>>,
    report: RefreshReport,
    plan2: RefreshPlan,
    given2: Seq<Option<Seq<char>>>,
    report2: RefreshReport,
)
    requires
        plan.is_plan(r, next),
        report.is_report(plan, given),
        forall|k: int| 0 <= k < plan.fresh@.len() ==> #[trigger] given[k] is None,
        plan2.is_plan(refreshed(r, next, given), next),
        report2.is_report(plan2, given2),
    ensures
        plan2.dropped@.len() == 0,
        plan2.fresh@.len() == 0,
        refreshed(refreshed(r, next, given), next, given2) == refreshed(r, next, given),
        pairs(report2.registered@) == pairs(report.registered@),
        failures(report2.failed@) == failures(report.failed@),
{
    let d = sifted(r.global, next).desired;
    let held = kept(r.presets, d);
    let r2 = refreshed(r, next, given);
    assert(registrations(plan.fresh@).len() == plan.fresh@.len());
    law_refresh_idempotent(r, next, given, given2);
    assert(registrations(plan2.dropped@).len() == plan2.dropped@.len());
    assert(registrations(plan2.fresh@).len() == plan2.fresh@.len());
    lemma_fresh_len(d, held, given);
    lemma_all_bound(d, held, given);
    let held2 = kept(r2.presets, d);
    lemma_fresh_len(d, held2, given2);
    lemma_all_bound(d, held2, given2);
}

/// Refreshing again with the same presets gives nothing back to the system, and,
/// if everything was accepted the first time, asks it for nothing and changes
/// nothing.
pub proof fn law_refresh_idempotent(
    r: RegistrarView,
    next: Seq<EntryView>,
    given: Seq<Option<Seq<char>>>,
    again: Seq<Option<Seq<char>>>,
)
    ensures
        ({
            let r2 = refreshed(r, next, given);
            let d = sifted(r2.global, next).desired;
            let asked = fresh(
                sifted(r.global, next).desired,
                kept(r.presets, sifted(r.global, next).desired),
            );
            &&& dropped(r2.presets, d) == Seq::<RegisteredView>::empty()
            &&& kept(r2.presets, d) == r2.presets
            &&& (forall|k: int| 0 <= k < asked.len() ==> #[trigger] given[k] is None) ==> {
                &&& fresh(d, kept(r2.presets, d)) == Seq::<RegisteredView>::empty()
                &&& refreshed(r2, next, again) == r2
            }
        }),
{
    let d = sifted(r.global, next).desired;
    let held = kept(r.presets, d);
    let added = settled(d, held, given).added;
    let r2 = refreshed(r, next, given);
    lemma_kept(r.presets, d);
    lemma_added(d, held, given);
    lemma_fresh_len(d, held, given);
    assert forall|i: int| 0 <= i < r2.presets.len() implies wants(d, #[trigger] r2.presets[i]) by {
        if i < held.len() {
            assert(r2.presets[i] == held[i]);
        } else {
            assert(r2.presets[i] == added[i - held.len()]);
            let j = choose|j: int|
                0 <= j < d.len() && #[trigger] registration_of(d[j]) == added[i - held.len()]
                    && !holds_chord(held, d[j].chord);
            assert(d[j].chord == r2.presets[i].chord);
        }
    }
    lemma_all_wanted(r2.presets, d);
    if forall|k: int| 0 <= k < fresh(d, held).len() ==> #[trigger] given[k] is None {
        lemma_all_added(d, held, given);
        lemma_all_held(d, r2.presets);
        lemma_fresh_len(d, r2.presets, again);
        lemma_added(d, r2.presets, again);
        let more = settled(d, r2.presets, again).added;
        assert(more.len() == 0) by {
            if more.len() > 0 {
                let j = choose|j: int|
                    0 <= j < d.len() && #[trigger] registration_of(d[j]) == more[0]
                        && !holds_chord(r2.presets, d[j].chord);
                assert(holds_chord(r2.presets, d[j].chord));
            }
        }
        assert(r2.presets + more =~= r2.presets);
        assert(refreshed(r2, next, again) =~= r2);
    }
}

/// The first entry with an id is found.
proof fn lemma_first_command(t: Seq<(u32, CommandView)>, id: u32, i: int)
    requires
        0 <= i < t.len(),
        t[i].0 == id,
        forall|k: int| 0 <= k < i ==> (#[trigger] t[k]).0 != id,
    ensures
        first_command(t, id) == Some(t[i].1),
    decreases i,
{
    if i > 0 {
        assert(t[0].0 != id);
        let rest = t.subrange(1, t.len() as int);
        assert forall|k: int| 0 <= k < i - 1 implies (#[trigger] rest[k]).0 != id by {
            assert(rest[k] == t[k + 1]);
        }
        lemma_first_command(rest, id, i - 1);
    }
}

/// The event of a preset's hotkey captures that preset, and the hotkeys of the
/// settings are never shadowed by those of the presets.
pub proof fn law_event_reaches_its_preset(r: RegistrarView, i: int)
    requires
        r.wf(),
        0 <= i < r.presets.len(),
    ensures
        first_command(dispatch(r.global + r.presets), r.presets[i].hotkey.id) == Some(
            r.presets[i].command,
        ),
        !holds_chord(r.global, r.presets[i].chord),
{
    let all = r.global + r.presets;
    let t = dispatch(all);
    let p = r.presets[i];
    let at = r.global.len() + i;
    assert(all[at] == p);
    assert forall|k: int| 0 <= k < at implies (#[trigger] t[k]).0 != p.hotkey.id by {
        if k < r.global.len() {
            assert(all[k] == r.global[k]);
            if all[k].hotkey.id == p.hotkey.id {
                crate::hotkeys::bindings::law_ids_tell_chords_apart(all[k].hotkey, p.hotkey);
                assert(r.global[k].chord == p.chord);
            }
        } else {
            let x = k - r.global.len();
            assert(all[k] == r.presets[x]);
            if all[k].hotkey.id == p.hotkey.id {
                crate::hotkeys::bindings::law_ids_tell_chords_apart(all[k].hotkey, p.hotkey);
                assert(r.presets[x].chord == p.chord);
            }
        }
    }
    lemma_first_command(t, p.hotkey.id, at);
}

/// Every preset that asks for a chord either gets it considered or is reported
/// as failed, once; what is considered and not held is asked of the system.
pub proof fn law_every_wish_is_answered(global: Seq<RegisteredView>, next: Seq<EntryView>)
    ensures
        sifted(global, next).desired.len() + sifted(global, next).failed.len() == next.len(),
    decreases next.len(),
{
    if next.len() > 0 {
        law_every_wish_is_answered(global, next.drop_last());
    }
}

/// Of the chords that are considered each is registered or reported; those that
/// are held already stay without asking, and each of the others uses one answer.
pub proof fn law_every_chord_is_settled(
    desired: Seq<EntryView>,
    held: Seq<RegisteredView>,
    given: Seq<Option<Seq<char>>>,
)
    ensures
        ({
            let s = settled(desired, held, given);
            &&& s.registered.len() + s.failed.len() == desired.len()
            &&& s.added.len() + s.failed.len() == s.used
            &&& s.used == fresh(desired, held).len()
            &&& forall|i: int|
                0 <= i < s.registered.len() ==> desired.contains(#[trigger] s.registered[i])
        }),
    decreases desired.len(),
{
    if desired.len() > 0 {
        law_every_chord_is_settled(desired.drop_last(), held, given);
        let st = settled(desired.drop_last(), held, given);
        let s = settled(desired, held, given);
        assert forall|i: int| 0 <= i < s.registered.len() implies desired.contains(
            #[trigger] s.registered[i],
        ) by {
            if i < st.registered.len() {
                assert(s.registered[i] == st.registered[i]);
                assert(desired.drop_last().contains(st.registered[i]));
                let k = choose|k: int|
                    0 <= k < desired.drop_last().len() && desired.drop_last()[k]
                        == st.registered[i];
                assert(desired[k] == st.registered[i]);
            } else {
                assert(desired[desired.len() - 1] == s.registered[i]);
            }
        }
    }
}

/// One chord more: held, or granted by the system, it is registered last; refused,
/// it is reported last with the system's reason.
pub proof fn law_one_chord_more(
    desired: Seq<EntryView>,
    held: Seq<RegisteredView>,
    given: Seq<Option<Seq<char>>>,
    e: EntryView,
)
    ensures
        ({
            let before = settled(desired, held, given);
            let after = settled(desired.push(e), held, given);
            let answer = given[before.used as int];
            let is_held = exists|i: int| 0 <= i < held.len() && (#[trigger] held[i]).chord == e.chord;
            &&& is_held || answer is None ==> after.registered == before.registered.push(e)
                && after.failed == before.failed
            &&& is_held ==> after.added == before.added && after.used == before.used
            &&& !is_held ==> after.used == before.used + 1
            &&& !is_held && answer is None ==> after.added.len() == before.added.len() + 1
                && after.added.last().command == CommandView::CapturePreset(e.name)
                && after.added.last().chord == e.chord
            &&& !is_held && answer is Some ==> after.registered == before.registered && after.added
                == before.added && after.failed.len() == before.failed.len() + 1
                && after.failed.last().name == e.name && after.failed.last().chord == e.chord
        }),
{
    assert(desired.push(e).drop_last() =~= desired);
    assert(desired.push(e).last() == e);
}

proof fn lemma_candidates_add(
    a: Seq<(Seq<char>, CommandView)>,
    b: Seq<(Seq<char>, CommandView)>,
)
    ensures
        candidates(a + b) == candidates(a) + candidates(b),
    decreases b.len(),
{
    if b.len() == 0 {
        assert(a + b =~= a);
        assert(candidates(a) + candidates(b) =~= candidates(a));
    } else {
        assert((a + b).drop_last() =~= a + b.drop_last());
        lemma_candidates_add(a, b.drop_last());
        assert(candidates(a + b) =~= candidates(a) + candidates(b));
    }
}

/// The bindings are asked for in order; one that cannot be read is left out. A
/// candidate carries its command, and the chord in its canonical form.
pub proof fn law_bindings_are_asked_for_in_order(
    a: Seq<(Seq<char>, CommandView)>,
    b: Seq<(Seq<char>, CommandView)>,
    wish: (Seq<char>, CommandView),
)
    ensures
        candidates(a + b) == candidates(a) + candidates(b),
        crate::hotkeys::bindings::parsed(wish.0) is Err ==> candidates(seq![wish]).len() == 0,
        crate::hotkeys::bindings::parsed(wish.0) matches Ok(c) ==> candidates(seq![wish]).len() == 1
            && candidates(seq![wish])[0].command == wish.1 && candidates(seq![wish])[0].hotkey.chord
            == c && candidates(seq![wish])[0].chord == crate::hotkeys::bindings::canonical(c),
{
    lemma_candidates_add(a, b);
    assert(seq![wish].drop_last() =~= Seq::<(Seq<char>, CommandView)>::empty());
    assert(candidates(seq![wish].drop_last()) =~= Seq::<RegisteredView>::empty());
}

/// What the system accepted stays, in order, and nothing else.
pub proof fn law_accepted_bindings_stay(list: Seq<RegisteredView>, yes: Seq<bool>, r: RegisteredView)
    requires
        yes.len() == list.len() + 1,
    ensures
        accepted(list.push(r), yes) == (if yes.last() {
            accepted(list, yes).push(r)
        } else {
            accepted(list, yes)
        }),
        accepted(Seq::empty(), yes).len() == 0,
{
    assert(list.push(r).drop_last() =~= list);
}

/// An event runs the first command with its number, and none where there is
/// none.
pub proof fn law_first_command_runs(t: Seq<(u32, CommandView)>, id: u32)
    ensures
        match first_command(t, id) {
            Some(c) => exists|i: int|
                #![trigger t[i]]
                0 <= i < t.len() && t[i] == (id, c) && forall|k: int|
                    0 <= k < i ==> (#[trigger] t[k]).0 != id,
            None => forall|k: int| 0 <= k < t.len() ==> (#[trigger] t[k]).0 != id,
        },
    decreases t.len(),
{
    if t.len() > 0 && t[0].0 != id {
        let rest = t.subrange(1, t.len() as int);
        law_first_command_runs(rest, id);
        match first_command(rest, id) {
            Some(c) => {
                let i = choose|i: int|
                    #![trigger rest[i]]
                    0 <= i < rest.len() && rest[i] == (id, c) && forall|k: int|
                        0 <= k < i ==> (#[trigger] rest[k]).0 != id;
                assert(t[i + 1] == rest[i]);
                assert forall|k: int| 0 <= k < i + 1 implies (#[trigger] t[k]).0 != id by {
                    if k > 0 {
                        assert(t[k] == rest[k - 1]);
                    }
                }
            },
            None => {
                assert forall|k: int| 0 <= k < t.len() implies (#[trigger] t[k]).0 != id by {
                    if k > 0 {
                        assert(t[k] == rest[k - 1]);
                    }
                }
            },
        }
    }
}

} // verus!
