//! The application's commands, its command line and the decisions of its event
//! loop.
use vstd::prelude::*;
use crate::capture::{CaptureRequest, CaptureTarget};
use crate::hotkeys::bindings::HotkeyBinding;
use crate::hotkeys::PresetHotkey;
use crate::settings::Settings;
use crate::text::{from_chars, same_str, to_chars, trim_chars, CharClass};

verus! {

/// What the tray, a hotkey or a helper process asks the application to do.
#[derive(Debug)]
pub enum Command {
    CaptureFullscreen,
    CaptureAndAnnotate,
    CaptureGif,
    /// Run the preset with this name.
    CapturePreset(String),
    /// Load the presets again and bind their hotkeys.
    RefreshHotkeys,
    SetLaunchAtStartup(bool),
    Quit,
}

/// A command as plain values.
#[verifier::ext_equal]
pub enum CommandView {
    CaptureFullscreen,
    CaptureAndAnnotate,
    CaptureGif,
    CapturePreset(Seq<char>),
    RefreshHotkeys,
    SetLaunchAtStartup(bool),
    Quit,
}

impl View for Command {
    type V = CommandView;

    open spec fn view(&self) -> CommandView {
        match self {
            Command::CaptureFullscreen => CommandView::CaptureFullscreen,
            Command::CaptureAndAnnotate => CommandView::CaptureAndAnnotate,
            Command::CaptureGif => CommandView::CaptureGif,
            Command::CapturePreset(n) => CommandView::CapturePreset(n@),
            Command::RefreshHotkeys => CommandView::RefreshHotkeys,
            Command::SetLaunchAtStartup(b) => CommandView::SetLaunchAtStartup(*b),
            Command::Quit => CommandView::Quit,
        }
    }
}

impl Clone for Command {
    fn clone(&self) -> (r: Command)
        ensures
            r@ == self@,
    {
        match self {
            Command::CaptureFullscreen => Command::CaptureFullscreen,
            Command::CaptureAndAnnotate => Command::CaptureAndAnnotate,
            Command::CaptureGif => Command::CaptureGif,
            Command::CapturePreset(n) => Command::CapturePreset(n.clone()),
            Command::RefreshHotkeys => Command::RefreshHotkeys,
            Command::SetLaunchAtStartup(b) => Command::SetLaunchAtStartup(*b),
            Command::Quit => Command::Quit,
        }
    }
}

// ---------------------------------------------------------------------------
// The command line
// ---------------------------------------------------------------------------

/// What the process was started for.
#[derive(Debug)]
pub enum Launch {
    /// Print the usage.
    Help,
    /// Edit a captured document.
    Editor { sidecar: String, png_out: Option<String>, clipboard: bool },
    /// Show the settings window.
    Settings,
    /// Edit a recording.
    GifEditor { sidecar: String },
    /// Show the recent captures.
    History,
    /// Capture without a user interface.
    Capture,
    /// Run the tray application.
    Tray,
}

/// The purpose of the process as plain values.
#[verifier::ext_equal]
pub enum LaunchView {
    Help,
    Editor { sidecar: Seq<char>, png_out: Option<Seq<char>>, clipboard: bool },
    Settings,
    GifEditor { sidecar: Seq<char> },
    History,
    Capture,
    Tray,
}

impl View for Launch {
    type V = LaunchView;

    open spec fn view(&self) -> LaunchView {
        match self {
            Launch::Help => LaunchView::Help,
            Launch::Editor { sidecar, png_out, clipboard } => LaunchView::Editor {
                sidecar: sidecar@,
                png_out: crate::text::optional_text(*png_out),
                clipboard: *clipboard,
            },
            Launch::Settings => LaunchView::Settings,
            Launch::GifEditor { sidecar } => LaunchView::GifEditor { sidecar: sidecar@ },
            Launch::History => LaunchView::History,
            Launch::Capture => LaunchView::Capture,
            Launch::Tray => LaunchView::Tray,
        }
    }
}

/// A flag that needs a path stands last.
#[derive(Debug, Clone, Copy, PartialEq, Eq, Structural)]
pub enum LaunchError {
    EditorNeedsPath,
    GifEditorNeedsPath,
}

impl LaunchError {
    /// The message shown to the user.
    pub fn message(self) -> (r: String)
        ensures
            r@ == match self {
                LaunchError::EditorNeedsPath => "--editor requires a path"@,
                LaunchError::GifEditorNeedsPath => "--gif-editor requires a path"@,
            },
    {
        match self {
            LaunchError::EditorNeedsPath => "--editor requires a path".to_owned(),
            LaunchError::GifEditorNeedsPath => "--gif-editor requires a path".to_owned(),
        }
    }
}

/// Whether the flag is among the arguments, from position `from` on.
pub open spec fn has_flag(args: Seq<Seq<char>>, flag: Seq<char>, from: int) -> bool {
    exists|i: int| from <= i < args.len() && #[trigger] args[i] == flag
}

/// The argument behind the first occurrence of the flag.
pub open spec fn value_of(args: Seq<Seq<char>>, flag: Seq<char>) -> Option<Seq<char>>
    decreases args.len(),
{
    if args.len() == 0 {
        None
    } else if args[0] == flag {
        if args.len() > 1 {
            Some(args[1])
        } else {
            None
        }
    } else {
        value_of(args.subrange(1, args.len() as int), flag)
    }
}

/// What a command line asks for. Help is printed wherever it is asked for, except
/// beside `--capture`, which has a help of its own. The first argument is the
/// program's name.
pub open spec fn launch_of(args: Seq<Seq<char>>) -> Result<LaunchView, LaunchError> {
    if !has_flag(args, "--capture"@, 0) && (has_flag(args, "--help"@, 1) || has_flag(
        args,
        "-h"@,
        1,
    ) || has_flag(args, "help"@, 1)) {
        Ok(LaunchView::Help)
    } else if has_flag(args, "--editor"@, 0) {
        match value_of(args, "--editor"@) {
            Some(sidecar) => Ok(
                LaunchView::Editor {
                    sidecar,
                    png_out: value_of(args, "--png-out"@),
                    clipboard: has_flag(args, "--clipboard"@, 0),
                },
            ),
            None => Err(LaunchError::EditorNeedsPath),
        }
    } else if has_flag(args, "--settings"@, 0) {
        Ok(LaunchView::Settings)
    } else if has_flag(args, "--gif-editor"@, 0) {
        match value_of(args, "--gif-editor"@) {
            Some(sidecar) => Ok(LaunchView::GifEditor { sidecar }),
            None => Err(LaunchError::GifEditorNeedsPath),
        }
    } else if has_flag(args, "--history"@, 0) {
        Ok(LaunchView::History)
    } else if has_flag(args, "--capture"@, 0) {
        Ok(LaunchView::Capture)
    } else {
        Ok(LaunchView::Tray)
    }
}

fn find_flag(args: &[String], flag: &str, from: usize) -> (r: bool)
    ensures
        r == has_flag(crate::text::strings(args@), flag@, from as int),
{
    let mut i: usize = from;
    while i < args.len()
        invariant
            from <= i,
            i <= args@.len() || i == from,
            forall|k: int|
                from <= k < i ==> #[trigger] crate::text::strings(args@)[k] != flag@,
        decreases args@.len() - i,
    {
        if same_str(args[i].as_str(), flag) {
            assert(crate::text::strings(args@)[i as int] == flag@);
            return true;
        }
        i += 1;
    }
    false
}

/// The argument behind the first occurrence of a flag.
pub fn arg_value(args: &[String], flag: &str) -> (r: Option<String>)
    ensures
        crate::text::optional_text(r) == value_of(crate::text::strings(args@), flag@),
{
    let ghost all = crate::text::strings(args@);
    let mut i: usize = 0;
    assert(all.subrange(0, all.len() as int) =~= all);
    while i < args.len()
        invariant
            i <= args@.len(),
            all == crate::text::strings(args@),
            value_of(all, flag@) == value_of(all.subrange(i as int, all.len() as int), flag@),
        decreases args@.len() - i,
    {
        let ghost rest = all.subrange(i as int, all.len() as int);
        assert(rest[0] == args@[i as int]@);
        if same_str(args[i].as_str(), flag) {
            return if i + 1 < args.len() {
                assert(rest[1] == args@[i + 1]@);
                Some(args[i + 1].clone())
            } else {
                None
            };
        }
        assert(rest.subrange(1, rest.len() as int) =~= all.subrange(i + 1, all.len() as int));
        i += 1;
    }
    None
}

/// Reads the command line.
pub fn launch_mode(args: &[String]) -> (r: Result<Launch, LaunchError>)
    ensures
        match r {
            Ok(l) => launch_of(crate::text::strings(args@)) == Ok::<LaunchView, LaunchError>(l@),
            Err(e) => launch_of(crate::text::strings(args@)) == Err::<LaunchView, LaunchError>(e),
        },
{
    if !find_flag(args, "--capture", 0) && (find_flag(args, "--help", 1) || find_flag(
        args,
        "-h",
        1,
    ) || find_flag(args, "help", 1)) {
        return Ok(Launch::Help);
    }
    if find_flag(args, "--editor", 0) {
        return match arg_value(args, "--editor") {
            Some(sidecar) => Ok(
                Launch::Editor {
                    sidecar,
                    png_out: arg_value(args, "--png-out"),
                    clipboard: find_flag(args, "--clipboard", 0),
                },
            ),
            None => Err(LaunchError::EditorNeedsPath),
        };
    }
    if find_flag(args, "--settings", 0) {
        return Ok(Launch::Settings);
    }
    if find_flag(args, "--gif-editor", 0) {
        return match arg_value(args, "--gif-editor") {
            Some(sidecar) => Ok(Launch::GifEditor { sidecar }),
            None => Err(LaunchError::GifEditorNeedsPath),
        };
    }
    if find_flag(args, "--history", 0) {
        return Ok(Launch::History);
    }
    if find_flag(args, "--capture", 0) {
        return Ok(Launch::Capture);
    }
    Ok(Launch::Tray)
}

/// The arguments with which the editor of a capture is started.
pub open spec fn editor_line(sidecar: Seq<char>, png: Seq<char>, copy: bool) -> Seq<Seq<char>> {
    let head = seq!["--editor"@, sidecar, "--png-out"@, png];
    if copy {
        head.push("--clipboard"@)
    } else {
        head
    }
}

/// The arguments with which the editor of a capture is started.
pub fn editor_arguments(sidecar: &str, png: &str, copy: bool) -> (r: Vec<String>)
    ensures
        crate::text::strings(r@) == editor_line(sidecar@, png@, copy),
{
    let mut out: Vec<String> = Vec::new();
    out.push("--editor".to_owned());
    out.push(sidecar.to_owned());
    out.push("--png-out".to_owned());
    out.push(png.to_owned());
    if copy {
        out.push("--clipboard".to_owned());
    }
    assert(crate::text::strings(out@) =~= editor_line(sidecar@, png@, copy));
    out
}

/// Whether a text is one of the flags of the command line.
pub open spec fn is_flag(s: Seq<char>) -> bool {
    s == "--capture"@ || s == "--help"@ || s == "-h"@ || s == "help"@ || s == "--editor"@ || s
        == "--png-out"@ || s == "--clipboard"@
}

/// The process that is started for a capture opens the editor on it: on the same
/// files, and with the same wish about the clipboard.
pub proof fn law_editor_is_started_right(
    program: Seq<char>,
    sidecar: Seq<char>,
    png: Seq<char>,
    copy: bool,
)
    requires
        !is_flag(program),
        !is_flag(sidecar),
        !is_flag(png),
    ensures
        launch_of(seq![program] + editor_line(sidecar, png, copy)) == Ok::<LaunchView, LaunchError>(
            LaunchView::Editor { sidecar, png_out: Some(png), clipboard: copy },
        ),
{
    reveal_strlit("--capture");
    reveal_strlit("--help");
    reveal_strlit("-h");
    reveal_strlit("help");
    reveal_strlit("--editor");
    reveal_strlit("--png-out");
    reveal_strlit("--clipboard");
    let args = seq![program] + editor_line(sidecar, png, copy);
    assert("--editor"@.len() == 8 && "--png-out"@.len() == 9 && "--clipboard"@.len() == 11);
    assert("--capture"@.len() == 9 && "--help"@.len() == 6 && "-h"@.len() == 2 && "help"@.len()
        == 4);
    assert("--png-out"@[2] == 'p' && "--capture"@[2] == 'c');
    assert(args[0] == program && args[1] == "--editor"@ && args[2] == sidecar && args[3]
        == "--png-out"@ && args[4] == png);
    assert(copy ==> args[5] == "--clipboard"@ && args.len() == 6);
    assert(!copy ==> args.len() == 5);
    assert(!has_flag(args, "--capture"@, 0));
    assert(!has_flag(args, "--help"@, 1));
    assert(!has_flag(args, "-h"@, 1));
    assert(!has_flag(args, "help"@, 1));
    assert(has_flag(args, "--editor"@, 0));
    let n = args.len() as int;
    let r1 = args.subrange(1, n);
    let r2 = r1.subrange(1, n - 1);
    let r3 = r2.subrange(1, n - 2);
    assert(r1[0] == "--editor"@ && r1[1] == sidecar);
    assert(r2[0] == sidecar);
    assert(r3[0] == "--png-out"@ && r3[1] == png);
    assert(value_of(args, "--editor"@) == value_of(r1, "--editor"@));
    assert(value_of(args, "--png-out"@) == value_of(r1, "--png-out"@));
    assert(value_of(r1, "--png-out"@) == value_of(r2, "--png-out"@));
    assert(value_of(r2, "--png-out"@) == value_of(r3, "--png-out"@));
    if copy {
        assert(has_flag(args, "--clipboard"@, 0));
    } else {
        assert(!has_flag(args, "--clipboard"@, 0));
    }
}

/// A command line with `--capture` in it never prints the general help.
pub proof fn law_capture_keeps_its_help(args: Seq<Seq<char>>)
    requires
        has_flag(args, "--capture"@, 0),
    ensures
        launch_of(args) != Ok::<LaunchView, LaunchError>(LaunchView::Help),
{
}

// ---------------------------------------------------------------------------
// Settings that take effect at start
// ---------------------------------------------------------------------------

/// The output directory that the settings ask for: none if it is unset or blank.
pub open spec fn override_dir(dir: Option<Seq<char>>) -> Option<Seq<char>> {
    match dir {
        Some(d) => crate::settings::ui::asked_dir(d),
        None => None,
    }
}

/// The directory to create and use instead of the default one.
pub fn output_dir_override(settings: &Settings) -> (r: Option<String>)
    ensures
        crate::text::optional_text(r) == override_dir(settings@.output_dir),
{
    match &settings.output_dir {
        Some(d) => crate::settings::ui::read_dir(d.as_str()),
        None => None,
    }
}

/// The output directory after the override was tried: it counts only if it could
/// be created.
pub fn apply_output_dir_override(current: String, wanted: Option<String>, created: bool) -> (r:
    String)
    ensures
        r@ == match wanted {
            Some(d) => if created {
                d@
            } else {
                current@
            },
            None => current@,
        },
{
    match wanted {
        Some(d) => if created {
            d
        } else {
            current
        },
        None => current,
    }
}

/// The hotkeys of the settings with their commands.
pub fn hotkey_bindings(settings: &Settings, gif_hotkey: &str) -> (r: Vec<
    (HotkeyBinding, Command),
>)
    ensures
        crate::hotkeys::wishes(r@) == seq![
            (settings@.hotkey, CommandView::CaptureFullscreen),
            (settings@.annotate_hotkey, CommandView::CaptureAndAnnotate),
            (gif_hotkey@, CommandView::CaptureGif),
        ],
{
    let mut out: Vec<(HotkeyBinding, Command)> = Vec::new();
    out.push((settings.hotkey.clone(), Command::CaptureFullscreen));
    out.push((settings.annotate_hotkey.clone(), Command::CaptureAndAnnotate));
    out.push((HotkeyBinding { raw: gif_hotkey.to_owned() }, Command::CaptureGif));
    assert(crate::hotkeys::wishes(out@) =~= seq![
        (settings@.hotkey, CommandView::CaptureFullscreen),
        (settings@.annotate_hotkey, CommandView::CaptureAndAnnotate),
        (gif_hotkey@, CommandView::CaptureGif),
    ]);
    out
}

/// The presets' (chord, name) pairs as hotkeys to bind.
pub fn preset_hotkeys(bound: &[(String, String)]) -> (r: Vec<PresetHotkey>)
    ensures
        r@.len() == bound@.len(),
        forall|i: int|
            0 <= i < r@.len() ==> (#[trigger] r@[i])@ == (crate::hotkeys::EntryView {
                chord: bound@[i].0@,
                name: bound@[i].1@,
            }),
{
    let mut out: Vec<PresetHotkey> = Vec::new();
    let mut i: usize = 0;
    while i < bound.len()
        invariant
            i <= bound@.len(),
            out@.len() == i,
            forall|k: int|
                0 <= k < i ==> (#[trigger] out@[k])@ == (crate::hotkeys::EntryView {
                    chord: bound@[k].0@,
                    name: bound@[k].1@,
                }),
        decreases bound@.len() - i,
    {
        out.push(PresetHotkey { chord: bound[i].0.clone(), preset_name: bound[i].1.clone() });
        i += 1;
    }
    out
}

// ---------------------------------------------------------------------------
// Hotkey commands
// ---------------------------------------------------------------------------

/// What the hotkey worker does with a command. Captures run at once, so that they
/// fire while the main thread shows a menu; everything else goes to the main
/// thread.
#[derive(Debug)]
pub enum HotkeyAction {
    /// Capture and save; then copy the picture if `copy` is set.
    SaveCapture { request: CaptureRequest, copy: bool },
    /// Capture and open the editor.
    Annotate { request: CaptureRequest, copy: bool },
    /// Start or stop a recording.
    ToggleGif,
    /// Hand the command to the main thread.
    Forward(Command),
}

/// Decides what a hotkey's command does, by the settings of the moment.
pub fn handle_hotkey_command(cmd: Command, settings: &Settings) -> (r: HotkeyAction)
    ensures
        match cmd@ {
            CommandView::CaptureFullscreen => r matches HotkeyAction::SaveCapture {
                request,
                copy,
            } && copy == settings.copy_to_clipboard && request == (CaptureRequest {
                target: CaptureTarget::Fullscreen,
                delay_ms: 0,
                include_cursor: settings.include_cursor,
            }),
            CommandView::CaptureAndAnnotate => r matches HotkeyAction::Annotate {
                request,
                copy,
            } && copy == settings.copy_to_clipboard && request == (CaptureRequest {
                target: CaptureTarget::Interactive { allow_windows: false },
                delay_ms: 0,
                include_cursor: settings.include_cursor,
            }),
            CommandView::CaptureGif => r is ToggleGif,
            _ => r matches HotkeyAction::Forward(c) && c@ == cmd@,
        },
{
    match cmd {
        Command::CaptureFullscreen => HotkeyAction::SaveCapture {
            request: CaptureRequest {
                target: CaptureTarget::Fullscreen,
                delay_ms: 0,
                include_cursor: settings.include_cursor,
            },
            copy: settings.copy_to_clipboard,
        },
        Command::CaptureAndAnnotate => HotkeyAction::Annotate {
            request: CaptureRequest {
                target: CaptureTarget::Interactive { allow_windows: false },
                delay_ms: 0,
                include_cursor: settings.include_cursor,
            },
            copy: settings.copy_to_clipboard,
        },
        Command::CaptureGif => HotkeyAction::ToggleGif,
        other => HotkeyAction::Forward(other),
    }
}

// ---------------------------------------------------------------------------
// The event loop
// ---------------------------------------------------------------------------

/// What the event loop does next.
#[derive(Debug)]
pub enum LoopStep {
    /// Leave the loop.
    Stop,
    /// Run the command; then bind the presets' hotkeys and rebuild their menu if
    /// `rebind` is set.
    Run { command: Command, rebind: bool },
    /// Load the settings, install their hotkeys, bind the presets' and refresh the
    /// menu labels.
    ReloadSettings,
    /// Pass the window message on.
    DispatchMessage,
    /// Wait this many milliseconds.
    Sleep { millis: u64 },
    /// Put the command at the end of the queue.
    Enqueue(Command),
}

/// A step as plain values.
#[verifier::ext_equal]
pub enum StepView {
    Stop,
    Run { command: CommandView, rebind: bool },
    ReloadSettings,
    DispatchMessage,
    Sleep { millis: u64 },
    Enqueue(CommandView),
}

impl View for LoopStep {
    type V = StepView;

    open spec fn view(&self) -> StepView {
        match *self {
            LoopStep::Stop => StepView::Stop,
            LoopStep::Run { command, rebind } => StepView::Run { command: command@, rebind },
            LoopStep::ReloadSettings => StepView::ReloadSettings,
            LoopStep::DispatchMessage => StepView::DispatchMessage,
            LoopStep::Sleep { millis } => StepView::Sleep { millis },
            LoopStep::Enqueue(c) => StepView::Enqueue(c@),
        }
    }
}

/// The views of a list of steps.
pub open spec fn steps(v: Seq<LoopStep>) -> Seq<StepView> {
    v.map_values(|s: LoopStep| s@)
}

/// A command from the queue.
pub fn on_command(cmd: Command) -> (r: LoopStep)
    ensures
        match r {
            LoopStep::Stop => cmd@ is Quit,
            LoopStep::Run { command, rebind } => {
                &&& !(cmd@ is Quit)
                &&& command@ == cmd@
                &&& rebind == (cmd@ is RefreshHotkeys)
            },
            _ => false,
        },
{
    match cmd {
        Command::Quit => LoopStep::Stop,
        Command::RefreshHotkeys => LoopStep::Run { command: Command::RefreshHotkeys, rebind: true },
        other => LoopStep::Run { command: other, rebind: false },
    }
}

/// A window message was looked for.
#[derive(Debug, Clone, Copy, PartialEq, Eq, Structural)]
pub enum WindowMessage {
    Nothing,
    Quit,
    Other,
}

/// After the queues are drained: a settings marker comes first, then one window
/// message; without one the loop waits a little.
pub fn on_idle(settings_marker: bool) -> (r: Option<LoopStep>)
    ensures
        settings_marker ==> r == Some(LoopStep::ReloadSettings),
        !settings_marker ==> r is None,
{
    if settings_marker {
        Some(LoopStep::ReloadSettings)
    } else {
        None
    }
}

/// What a window message asks of the loop.
pub fn on_window_message(msg: WindowMessage) -> (r: LoopStep)
    ensures
        match msg {
            WindowMessage::Quit => r is Stop,
            WindowMessage::Other => r is DispatchMessage,
            WindowMessage::Nothing => r == (LoopStep::Sleep { millis: 16 }),
        },
{
    match msg {
        WindowMessage::Quit => LoopStep::Stop,
        WindowMessage::Other => LoopStep::DispatchMessage,
        WindowMessage::Nothing => LoopStep::Sleep { millis: 16 },
    }
}

/// Where the loop is in its round.
#[derive(Debug, Clone, Copy, PartialEq, Eq, Structural)]
pub enum Phase {
    /// Commands are taken from the queue, one by one.
    Commands,
    /// The events of the tray are turned into commands.
    Menus,
    /// The marker files of the editor are looked for.
    Markers,
    /// The marker file of the settings window is looked for.
    Settings,
    /// One window message is looked for.
    Message,
}

/// What was found.
#[derive(Debug)]
pub enum Found {
    /// The queue is empty.
    NoCommand,
    Command(Command),
    /// The events of the tray are all in the queue.
    MenusForwarded,
    /// The presets changed; the name of a preset to capture, if there was a file.
    Markers { refresh: bool, capture: Option<String> },
    /// Whether the settings were saved.
    Settings(bool),
    Message(WindowMessage),
}

/// What was found, as plain values.
pub enum FoundView {
    NoCommand,
    Command(CommandView),
    MenusForwarded,
    Markers { refresh: bool, capture: Option<Seq<char>> },
    Settings(bool),
    Message(WindowMessage),
}

impl View for Found {
    type V = FoundView;

    open spec fn view(&self) -> FoundView {
        match *self {
            Found::NoCommand => FoundView::NoCommand,
            Found::Command(c) => FoundView::Command(c@),
            Found::MenusForwarded => FoundView::MenusForwarded,
            Found::Markers { refresh, capture } => FoundView::Markers {
                refresh,
                capture: crate::text::optional_text(capture),
            },
            Found::Settings(b) => FoundView::Settings(b),
            Found::Message(m) => FoundView::Message(m),
        }
    }
}

/// Whether this is what the loop looked for.
pub open spec fn answers(phase: Phase, found: FoundView) -> bool {
    match phase {
        Phase::Commands => found is NoCommand || found is Command,
        Phase::Menus => found is MenusForwarded,
        Phase::Markers => found is Markers,
        Phase::Settings => found is Settings,
        Phase::Message => found is Message,
    }
}

/// Where the loop goes next.
pub open spec fn next_phase(found: FoundView) -> Phase {
    match found {
        FoundView::NoCommand => Phase::Menus,
        FoundView::Command(_) => Phase::Commands,
        FoundView::MenusForwarded => Phase::Markers,
        FoundView::Markers { .. } => Phase::Settings,
        FoundView::Settings(_) => Phase::Message,
        FoundView::Message(_) => Phase::Commands,
    }
}

/// What the loop does.
pub open spec fn steps_for(found: FoundView) -> Seq<StepView> {
    match found {
        FoundView::NoCommand | FoundView::MenusForwarded => Seq::empty(),
        FoundView::Command(c) => seq![
            if c is Quit {
                StepView::Stop
            } else {
                StepView::Run { command: c, rebind: c is RefreshHotkeys }
            },
        ],
        FoundView::Markers { refresh, capture } => marker_commands(refresh, capture).map_values(
            |c: CommandView| StepView::Enqueue(c),
        ),
        FoundView::Settings(b) => if b {
            seq![StepView::ReloadSettings]
        } else {
            Seq::empty()
        },
        FoundView::Message(m) => seq![
            match m {
                WindowMessage::Quit => StepView::Stop,
                WindowMessage::Other => StepView::DispatchMessage,
                WindowMessage::Nothing => StepView::Sleep { millis: 16 },
            },
        ],
    }
}

/// One turn of the event loop: what to do about what was found, and what to look for
/// next. The queue is emptied first; then come the tray, the marker files, the
/// settings and one window message.
pub fn run_event_loop(phase: Phase, found: Found) -> (r: (Phase, Vec<LoopStep>))
    requires
        answers(phase, found@),
    ensures
        r.0 == next_phase(found@),
        steps(r.1@) == steps_for(found@),
{
    let ghost view = found@;
    let mut out: Vec<LoopStep> = Vec::new();
    let next = match found {
        Found::NoCommand => Phase::Menus,
        Found::Command(c) => {
            out.push(on_command(c));
            Phase::Commands
        },
        Found::MenusForwarded => Phase::Markers,
        Found::Markers { refresh, capture } => {
            let cmds = check_marker_files(refresh, capture);
            let ghost all = commands(cmds@).map_values(|c: CommandView| StepView::Enqueue(c));
            let mut i: usize = 0;
            while i < cmds.len()
                invariant
                    i <= cmds@.len(),
                    all == commands(cmds@).map_values(|c: CommandView| StepView::Enqueue(c)),
                    steps(out@) == all.take(i as int),
                decreases cmds@.len() - i,
            {
                let ghost before = steps(out@);
                let step = LoopStep::Enqueue(cmds[i].clone());
                out.push(step);
                assert(all[i as int] == step@);
                assert(steps(out@) =~= before.push(step@));
                assert(all.take(i + 1) =~= all.take(i as int).push(all[i as int]));
                i += 1;
            }
            assert(all.take(i as int) =~= all);
            Phase::Settings
        },
        Found::Settings(b) => {
            if let Some(step) = on_idle(b) {
                out.push(step);
            }
            Phase::Message
        },
        Found::Message(m) => {
            out.push(on_window_message(m));
            Phase::Commands
        },
    };
    assert(steps(out@) =~= steps_for(view));
    (next, out)
}

/// The loop ends only for Quit, from its queue or from the system. It waits only when
/// a whole round has found no window message. A round that is not ended comes back to
/// the queue.
pub proof fn law_event_loop(found: FoundView)
    ensures
        steps_for(found).contains(StepView::Stop) <==> (found == FoundView::Command(
            CommandView::Quit,
        ) || found == FoundView::Message(WindowMessage::Quit)),
        (exists|n: u64| steps_for(found).contains(StepView::Sleep { millis: n })) ==> found
            == FoundView::Message(WindowMessage::Nothing),
        next_phase(FoundView::NoCommand) == Phase::Menus,
        next_phase(FoundView::MenusForwarded) == Phase::Markers,
        found is Markers ==> next_phase(found) == Phase::Settings,
        found is Settings ==> next_phase(found) == Phase::Message,
        found is Message || found is Command ==> next_phase(found) == Phase::Commands,
{
    let s = steps_for(found);
    if found == FoundView::Command(CommandView::Quit) || found == FoundView::Message(
        WindowMessage::Quit,
    ) {
        assert(s[0] == StepView::Stop);
    }
}

/// The commands that the helper processes' marker files stand for.
pub open spec fn marker_commands(refresh: bool, capture: Option<Seq<char>>) -> Seq<CommandView> {
    let a = if refresh {
        seq![CommandView::RefreshHotkeys]
    } else {
        Seq::empty()
    };
    match capture {
        Some(name) => {
            let t = crate::text::trim(name, CharClass::Whitespace);
            if t.len() > 0 {
                a.push(CommandView::CapturePreset(t))
            } else {
                a
            }
        },
        None => a,
    }
}

/// The views of a list of commands.
pub open spec fn commands(v: Seq<Command>) -> Seq<CommandView> {
    v.map_values(|c: Command| c@)
}

/// Turns the marker files that were found into commands: the presets changed, and
/// the name of a preset to capture.
pub fn check_marker_files(refresh: bool, capture: Option<String>) -> (r: Vec<Command>)
    ensures
        commands(r@) == marker_commands(refresh, crate::text::optional_text(capture)),
{
    let mut out: Vec<Command> = Vec::new();
    if refresh {
        out.push(Command::RefreshHotkeys);
    }
    assert(commands(out@) =~= (if refresh {
        seq![CommandView::RefreshHotkeys]
    } else {
        Seq::empty()
    }));
    match capture {
        Some(name) => {
            let chars = to_chars(name.as_str());
            let t = trim_chars(chars.as_slice(), CharClass::Whitespace);
            if t.len() > 0 {
                let ghost before = out@;
                out.push(Command::CapturePreset(from_chars(t.as_slice())));
                assert(commands(out@) =~= commands(before).push(CommandView::CapturePreset(t@)));
            }
        },
        None => {},
    }
    out
}

/// The value of a flag is the argument behind its first occurrence, and there is
/// none where the flag is missing or comes last.
pub proof fn law_values_stand_behind_their_flag(
    before: Seq<Seq<char>>,
    flag: Seq<char>,
    after: Seq<Seq<char>>,
)
    requires
        !before.contains(flag),
    ensures
        value_of(before, flag) is None,
        after.len() == 0 ==> value_of(before + seq![flag] + after, flag) is None,
        after.len() > 0 ==> value_of(before + seq![flag] + after, flag) == Some(after[0]),
    decreases before.len(),
{
    let all = before + seq![flag] + after;
    if before.len() == 0 {
        assert(all[0] == flag);
        if after.len() > 0 {
            assert(all[1] == after[0]);
        }
    } else {
        let rest = before.subrange(1, before.len() as int);
        assert(before.contains(before[0]));
        assert(!rest.contains(flag)) by {
            if rest.contains(flag) {
                let i = choose|i: int| 0 <= i < rest.len() && rest[i] == flag;
                assert(before[i + 1] == flag);
            }
        }
        law_values_stand_behind_their_flag(rest, flag, after);
        assert(all[0] == before[0]);
        assert(all.subrange(1, all.len() as int) =~= rest + seq![flag] + after);
    }
}

/// What the program does is decided by the first of these flags that is given:
/// for help, the editor, the settings, the recordings' editor, the history, a
/// capture; without any it runs in the tray. A capture has its own help. The two
/// editors need a file.
pub proof fn law_flags_decide_in_order(args: Seq<Seq<char>>)
    ensures
        ({
            let capture = args.contains("--capture"@);
            let rest = args.skip(1);
            let help = !capture && args.len() > 0 && (rest.contains("--help"@) || rest.contains(
                "-h"@,
            ) || rest.contains("help"@));
            let editor = args.contains("--editor"@);
            let settings = args.contains("--settings"@);
            let gif = args.contains("--gif-editor"@);
            let history = args.contains("--history"@);
            let r = launch_of(args);
            &&& help <==> r == Ok::<LaunchView, LaunchError>(LaunchView::Help)
            &&& !help && editor ==> (r matches Ok(l) ==> l is Editor) && (r matches Err(e) ==> e
                == LaunchError::EditorNeedsPath)
            &&& !help && editor ==> (r is Err <==> value_of(args, "--editor"@) is None)
            &&& r matches Ok(LaunchView::Editor { sidecar, png_out, clipboard }) ==> Some(sidecar)
                == value_of(args, "--editor"@) && png_out == value_of(args, "--png-out"@)
                && clipboard == args.contains("--clipboard"@)
            &&& r == Ok::<LaunchView, LaunchError>(LaunchView::Settings) <==> !help && !editor
                && settings
            &&& !help && !editor && !settings && gif ==> (r matches Ok(l) ==> l
                matches LaunchView::GifEditor { sidecar } && Some(sidecar) == value_of(
                args,
                "--gif-editor"@,
            )) && (r is Err <==> value_of(args, "--gif-editor"@) is None) && (r matches Err(e) ==> e
                == LaunchError::GifEditorNeedsPath)
            &&& r == Ok::<LaunchView, LaunchError>(LaunchView::History) <==> !help && !editor
                && !settings && !gif && history
            &&& r == Ok::<LaunchView, LaunchError>(LaunchView::Capture) <==> !editor && !settings
                && !gif && !history && capture
            &&& r == Ok::<LaunchView, LaunchError>(LaunchView::Tray) <==> !help && !editor
                && !settings && !gif && !history && !capture
        }),
{
    let rest = args.skip(1);
    lemma_flag_contained(args, "--capture"@);
    lemma_flag_contained(args, "--editor"@);
    lemma_flag_contained(args, "--settings"@);
    lemma_flag_contained(args, "--gif-editor"@);
    lemma_flag_contained(args, "--history"@);
    lemma_flag_contained(args, "--clipboard"@);
    lemma_flag_behind(args, "--help"@);
    lemma_flag_behind(args, "-h"@);
    lemma_flag_behind(args, "help"@);
}

proof fn lemma_flag_contained(args: Seq<Seq<char>>, flag: Seq<char>)
    ensures
        has_flag(args, flag, 0) <==> args.contains(flag),
{
    if has_flag(args, flag, 0) {
        let i = choose|i: int| 0 <= i < args.len() && #[trigger] args[i] == flag;
        assert(args[i] == flag);
    }
}

proof fn lemma_flag_behind(args: Seq<Seq<char>>, flag: Seq<char>)
    ensures
        has_flag(args, flag, 1) <==> args.len() > 0 && args.skip(1).contains(flag),
{
    let rest = args.skip(1);
    if has_flag(args, flag, 1) {
        let i = choose|i: int| 1 <= i < args.len() && #[trigger] args[i] == flag;
        assert(rest[i - 1] == flag);
    }
    if args.len() > 0 && rest.contains(flag) {
        let i = choose|i: int| 0 <= i < rest.len() && rest[i] == flag;
        assert(args[i + 1] == flag);
    }
}

/// A folder of the settings is used unless it is blank.
pub proof fn law_blank_override_is_none(dir: Option<Seq<char>>)
    ensures
        override_dir(dir) is Some <==> dir is Some && crate::text::trim(
            dir->Some_0,
            CharClass::Whitespace,
        ).len() > 0,
        override_dir(dir) matches Some(d) ==> d == crate::text::trim(
            dir->Some_0,
            CharClass::Whitespace,
        ),
{
}

/// The marker files ask first for the hotkeys, then for a capture with the
/// preset that is named; a blank name asks for nothing.
pub proof fn law_markers_ask_in_order(refresh: bool, capture: Option<Seq<char>>)
    ensures
        ({
            let c = marker_commands(refresh, capture);
            let name = crate::text::trim(capture->Some_0, CharClass::Whitespace);
            let named = capture is Some && name.len() > 0;
            &&& c.len() == (if refresh {
                1int
            } else {
                0
            }) + (if named {
                1int
            } else {
                0
            })
            &&& refresh ==> c[0] is RefreshHotkeys
            &&& named ==> c.last() == CommandView::CapturePreset(name)
        }),
{
}

/// The steps of the loop: a command is run, and afterwards the hotkeys are bound
/// if it asked for that; saved settings are loaded; markers become commands; and
/// where nothing is left the loop waits for a sixtieth of a second.
pub proof fn law_steps_of_the_loop(found: FoundView)
    ensures
        ({
            let s = steps_for(found);
            &&& found matches FoundView::Command(c) ==> s.len() == 1 && (!(c is Quit) ==> (
            s[0] matches StepView::Run { command, rebind } && command == c && (rebind
                <==> c is RefreshHotkeys)))
            &&& found is NoCommand || found is MenusForwarded ==> s.len() == 0
            &&& found matches FoundView::Settings(b) ==> (b ==> s.len() == 1
                && s[0] is ReloadSettings) && (!b ==> s.len() == 0)
            &&& found matches FoundView::Markers { refresh, capture } ==> s.len()
                == marker_commands(refresh, capture).len() && (forall|i: int|
                0 <= i < s.len() ==> #[trigger] s[i] == StepView::Enqueue(
                    marker_commands(refresh, capture)[i],
                ))
            &&& found == FoundView::Message(WindowMessage::Other) ==> s.len() == 1
                && s[0] is DispatchMessage
            &&& found == FoundView::Message(WindowMessage::Nothing) ==> s.len() == 1 && (
            s[0] matches StepView::Sleep { millis } && 60 * millis <= 1000 && 1000 < 60 * (millis
                + 1))
        }),
{
}

} // verus!
