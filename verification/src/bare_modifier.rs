//! Hotkeys made of two modifier keys held together, such as both Shift keys.

use vstd::prelude::*;
use vstd::string::*;
use vstd::hash_map::StringHashMap;
use crate::hotkey::{key_pair, named_pair, supported_pairs, KeyPair, KeyPairView};
use crate::keymap::{
    find_keysym_code, first_bound, law_first_bound_symbol_counts, read_xmodmap_keycodes,
    reported_codes,
};
use crate::numbers::{
    decimal, is_digit, law_only_numbers_are_read, law_written_number_is_read, lemma_decimal_digits,
    number_text, parse_unsigned, parsed_unsigned, zero_row,
};
use crate::text::{
    chars_of, contains_text, has_prefix, is_white, law_trim_takes_white_space_only, occurs_in,
    same_text, text_of, trim, trimmed, views,
};

verus! {

/// What happened to a key.
#[derive(Clone, Copy, Debug, PartialEq, Eq, Structural)]
pub enum EventKind {
    Press,
    Release,
}

/// When a hotkey takes effect.
#[derive(Clone, Copy, Debug, PartialEq, Eq, Structural)]
pub enum TriggerMode {
    Press,
    Release,
}

/// What is reported of a hotkey.
#[derive(Clone, Copy, Debug, PartialEq, Eq, Structural)]
pub enum Signal {
    Down,
    Up,
}

/// Which of the two keys are down, and whether the hotkey was noticed.
#[derive(Clone, Copy, Debug)]
pub struct MonitorState {
    pub left_down: bool,
    pub right_down: bool,
    pub armed: bool,
    pub trigger_mode: TriggerMode,
}

impl MonitorState {
    /// Whether both keys are down.
    pub open spec fn chord(self) -> bool {
        self.left_down && self.right_down
    }

    /// The hotkey was noticed exactly while both keys are down.
    pub open spec fn wf(self) -> bool {
        self.armed == self.chord()
    }
}

/// A state in which no key is down.
pub open spec fn idle(trigger_mode: TriggerMode) -> MonitorState {
    MonitorState { left_down: false, right_down: false, armed: false, trigger_mode }
}

/// Whether an event concerns one of the two keys.
pub open spec fn concerns(code: u16, left_code: u16, right_code: u16) -> bool {
    code == left_code || code == right_code
}

/// The state after an event.
pub open spec fn next_state(
    state: MonitorState,
    kind: EventKind,
    code: u16,
    left_code: u16,
    right_code: u16,
) -> MonitorState {
    let left_down = if code == left_code { kind == EventKind::Press } else { state.left_down };
    let right_down = if code != left_code && code == right_code {
        kind == EventKind::Press
    } else {
        state.right_down
    };
    let chord = left_down && right_down;
    if !concerns(code, left_code, right_code) {
        state
    } else {
        MonitorState {
            left_down,
            right_down,
            armed: if chord {
                true
            } else if state.chord() {
                false
            } else {
                state.armed
            },
            trigger_mode: state.trigger_mode,
        }
    }
}

/// What is reported on an event.
pub open spec fn event_signals(
    state: MonitorState,
    kind: EventKind,
    code: u16,
    left_code: u16,
    right_code: u16,
) -> Seq<Signal> {
    let next = next_state(state, kind, code, left_code, right_code);
    if !concerns(code, left_code, right_code) {
        Seq::empty()
    } else if next.chord() && !state.armed && state.trigger_mode == TriggerMode::Press {
        seq![Signal::Down]
    } else if state.chord() && !next.chord() && state.armed {
        if state.trigger_mode == TriggerMode::Release {
            seq![Signal::Down, Signal::Up]
        } else {
            seq![Signal::Up]
        }
    } else {
        Seq::empty()
    }
}

/// Takes an event into account and returns what to report.
pub fn handle_event(
    state: &mut MonitorState,
    kind: EventKind,
    code: u16,
    left_code: u16,
    right_code: u16,
) -> (signals: Vec<Signal>)
    ensures
        *final(state) == next_state(*old(state), kind, code, left_code, right_code),
        signals@ == event_signals(*old(state), kind, code, left_code, right_code),
        old(state).wf() ==> final(state).wf(),
{
    let mut signals: Vec<Signal> = Vec::new();
    let was_chord_down = state.left_down && state.right_down;
    if code == left_code {
        state.left_down = kind == EventKind::Press;
    } else if code == right_code {
        state.right_down = kind == EventKind::Press;
    } else {
        return signals;
    }
    let chord_down = state.left_down && state.right_down;
    if chord_down && !state.armed {
        state.armed = true;
        if state.trigger_mode == TriggerMode::Press {
            signals.push(Signal::Down);
        }
    }
    if was_chord_down && !chord_down && state.armed {
        if state.trigger_mode == TriggerMode::Release {
            signals.push(Signal::Down);
        }
        signals.push(Signal::Up);
        state.armed = false;
    }
    assert(signals@ =~= event_signals(*old(state), kind, code, left_code, right_code));
    signals
}

/// Why a hotkey is not watched.
#[derive(Clone, Debug, PartialEq, Eq)]
pub enum HotkeyError<T> {
    /// `--key` is the last argument.
    KeyNeedsValue,
    /// No argument names a hotkey.
    MissingKey,
    /// An argument is not understood.
    UnknownArgument(T),
    /// No hotkey goes by the name.
    UnsupportedHotkey(T),
    /// Both keys of the hotkey have the same code.
    SameKeycode(T),
}

impl HotkeyError<Seq<char>> {
    /// What went wrong, in words.
    pub open spec fn text(self) -> Seq<char> {
        match self {
            HotkeyError::KeyNeedsValue => "--key requires a value"@,
            HotkeyError::MissingKey => "missing --key"@,
            HotkeyError::UnknownArgument(arg) => "unknown bare modifier monitor argument '"@ + arg
                + "'"@,
            HotkeyError::UnsupportedHotkey(key) => "unsupported bare modifier hotkey '"@ + key
                + "'"@,
            HotkeyError::SameKeycode(name) => "left and right "@ + name
                + " keys resolved to the same keycode"@,
        }
    }
}

/// The view of the reason why a hotkey is not watched.
pub open spec fn hotkey_error_view(error: HotkeyError<String>) -> HotkeyError<Seq<char>> {
    match error {
        HotkeyError::KeyNeedsValue => HotkeyError::KeyNeedsValue,
        HotkeyError::MissingKey => HotkeyError::MissingKey,
        HotkeyError::UnknownArgument(arg) => HotkeyError::UnknownArgument(arg@),
        HotkeyError::UnsupportedHotkey(key) => HotkeyError::UnsupportedHotkey(key@),
        HotkeyError::SameKeycode(name) => HotkeyError::SameKeycode(name@),
    }
}

impl HotkeyError<String> {
    /// Puts the error into words.
    pub fn message(&self) -> (message: String)
        ensures
            message@ == hotkey_error_view(*self).text(),
    {
        let mut message = String::new();
        match self {
            HotkeyError::KeyNeedsValue => {
                message.append("--key requires a value");
            },
            HotkeyError::MissingKey => {
                message.append("missing --key");
            },
            HotkeyError::UnknownArgument(arg) => {
                message.append("unknown bare modifier monitor argument '");
                message.append(arg.as_str());
                message.append("'");
            },
            HotkeyError::UnsupportedHotkey(key) => {
                message.append("unsupported bare modifier hotkey '");
                message.append(key.as_str());
                message.append("'");
            },
            HotkeyError::SameKeycode(name) => {
                message.append("left and right ");
                message.append(name.as_str());
                message.append(" keys resolved to the same keycode");
            },
        }
        assert(message@ =~= hotkey_error_view(*self).text());
        message
    }
}

/// What some arguments ask for, after earlier ones named `key` and chose
/// `mode`: a hotkey's name and when it takes effect. The last `--key` counts;
/// an argument that is no option names the hotkey if none did so before.
pub open spec fn requested(
    args: Seq<Seq<char>>,
    key: Option<Seq<char>>,
    mode: TriggerMode,
) -> Result<(Seq<char>, TriggerMode), HotkeyError<Seq<char>>>
    decreases args.len(),
{
    if args.len() == 0 {
        match key {
            Some(key) => Ok((key, mode)),
            None => Err(HotkeyError::MissingKey),
        }
    } else if args[0] == "--key"@ {
        if args.len() == 1 {
            Err(HotkeyError::KeyNeedsValue)
        } else {
            requested(args.skip(2), Some(args[1]), mode)
        }
    } else if args[0] == "--immediate"@ {
        requested(args.skip(1), key, TriggerMode::Press)
    } else if args[0] == "--trigger-on-release"@ {
        requested(args.skip(1), key, TriggerMode::Release)
    } else if key is None && !"-"@.is_prefix_of(args[0]) {
        requested(args.skip(1), Some(args[0]), mode)
    } else {
        Err(HotkeyError::UnknownArgument(args[0]))
    }
}

/// Reads a hotkey's name, and when it takes effect, from command-line
/// arguments.
pub fn parse_args(args: &Vec<String>) -> (request: Result<
    (String, TriggerMode),
    HotkeyError<String>,
>)
    ensures
        match request {
            Ok((key, mode)) => requested(views(args@), None, TriggerMode::Press) == Ok::<
                (Seq<char>, TriggerMode),
                HotkeyError<Seq<char>>,
            >((key@, mode)),
            Err(error) => requested(views(args@), None, TriggerMode::Press) == Err::<
                (Seq<char>, TriggerMode),
                HotkeyError<Seq<char>>,
            >(hotkey_error_view(error)),
        },
{
    let mut key: Option<String> = None;
    let mut mode = TriggerMode::Press;
    let mut i: usize = 0;
    let ghost all = views(args@);
    assert(all.skip(0) == all);
    while i < args.len()
        invariant
            i <= args@.len(),
            all == views(args@),
            requested(all.skip(i as int), crate::text::optional_view(key), mode) == requested(
                all,
                None,
                TriggerMode::Press,
            ),
        decreases args@.len() - i,
    {
        let ghost rest = all.skip(i as int);
        let arg = args[i].as_str();
        assert(rest[0] == arg@);
        assert(rest.skip(1) == all.skip(i + 1));
        if same_text(arg, "--key") {
            i += 1;
            if i == args.len() {
                return Err(HotkeyError::KeyNeedsValue);
            }
            assert(rest[1] == args@[i as int]@);
            assert(rest.skip(2) == all.skip(i + 1));
            key = Some(args[i].clone());
        } else if same_text(arg, "--immediate") {
            mode = TriggerMode::Press;
        } else if same_text(arg, "--trigger-on-release") {
            mode = TriggerMode::Release;
        } else {
            let chars = chars_of(arg);
            if key.is_none() && !has_prefix(&chars, "-") {
                key = Some(args[i].clone());
            } else {
                return Err(HotkeyError::UnknownArgument(args[i].clone()));
            }
        }
        i += 1;
    }
    match key {
        Some(key) => Ok((key, mode)),
        None => Err(HotkeyError::MissingKey),
    }
}

/// A hotkey to watch for.
#[derive(Clone, Copy, Debug)]
pub struct HotkeyPlan {
    pub pair: KeyPair,
    pub trigger_mode: TriggerMode,
}

/// The hotkey that some arguments ask to watch for.
pub open spec fn planned(args: Seq<Seq<char>>) -> Result<
    (KeyPairView, TriggerMode),
    HotkeyError<Seq<char>>,
> {
    match requested(args, None, TriggerMode::Press) {
        Ok((key, mode)) => match named_pair(key) {
            Some(pair) => Ok((pair, mode)),
            None => Err(HotkeyError::UnsupportedHotkey(key)),
        },
        Err(error) => Err(error),
    }
}

/// Finds the hotkey that command-line arguments ask to watch for.
pub fn run(args: Vec<String>) -> (plan: Result<HotkeyPlan, HotkeyError<String>>)
    ensures
        match plan {
            Ok(plan) => planned(views(args@)) == Ok::<
                (KeyPairView, TriggerMode),
                HotkeyError<Seq<char>>,
            >((plan.pair@, plan.trigger_mode)),
            Err(error) => planned(views(args@)) == Err::<
                (KeyPairView, TriggerMode),
                HotkeyError<Seq<char>>,
            >(hotkey_error_view(error)),
        },
{
    match parse_args(&args) {
        Ok((key, trigger_mode)) => match key_pair(key.as_str()) {
            Some(pair) => Ok(HotkeyPlan { pair, trigger_mode }),
            None => Err(HotkeyError::UnsupportedHotkey(key)),
        },
        Err(error) => Err(error),
    }
}

/// The code of the left key: the one that the keyboard map binds, else the
/// usual one.
pub open spec fn left_code(pair: KeyPairView, table: Map<Seq<char>, u16>) -> u16 {
    match first_bound(table, pair.left_symbols) {
        Some(code) => code,
        None => pair.fallback_left,
    }
}

/// The code of the right key: the one that the keyboard map binds, else the
/// usual one.
pub open spec fn right_code(pair: KeyPairView, table: Map<Seq<char>, u16>) -> u16 {
    match first_bound(table, pair.right_symbols) {
        Some(code) => code,
        None => pair.fallback_right,
    }
}

/// Finds the codes of the two keys of a hotkey, which must differ.
pub fn resolve_keycodes(pair: &KeyPair, keycodes: &StringHashMap<u16>) -> (codes: Result<
    (u16, u16),
    HotkeyError<String>,
>)
    ensures
        codes is Ok <==> left_code(pair@, keycodes@) != right_code(pair@, keycodes@),
        codes matches Ok(codes) ==> codes == (
            left_code(pair@, keycodes@),
            right_code(pair@, keycodes@),
        ),
        codes matches Err(error) ==> hotkey_error_view(error) == HotkeyError::SameKeycode(
            pair.canonical@,
        ),
{
    let left: u16 = match find_keysym_code(keycodes, pair.left_symbols) {
        Some(code) => code,
        None => pair.fallback_left,
    };
    let right: u16 = match find_keysym_code(keycodes, pair.right_symbols) {
        Some(code) => code,
        None => pair.fallback_right,
    };
    if left == right {
        return Err(HotkeyError::SameKeycode(pair.canonical.to_owned()));
    }
    Ok((left, right))
}

/// Watches the events that `xinput test-xi2 --root` prints for a hotkey.
#[derive(Clone, Copy, Debug)]
pub struct Monitor {
    pub state: MonitorState,
    pub pending_event: Option<EventKind>,
    pub left_code: u16,
    pub right_code: u16,
}

impl HotkeyPlan {
    /// Starts to watch for the hotkey. `xmodmap` is what a run of
    /// `xmodmap -pke` came to: whether it succeeded, and what it printed.
    pub fn start(&self, xmodmap: Option<(bool, &[u8])>) -> (monitor: Result<
        Monitor,
        HotkeyError<String>,
    >)
        ensures
            ({
                let table = reported_codes(xmodmap);
                let left = left_code(self.pair@, table);
                let right = right_code(self.pair@, table);
                if left == right {
                    monitor matches Err(error) && hotkey_error_view(error)
                        == HotkeyError::SameKeycode(self.pair.canonical@)
                } else {
                    monitor == Ok::<Monitor, HotkeyError<String>>(
                        Monitor {
                            state: idle(self.trigger_mode),
                            pending_event: None,
                            left_code: left,
                            right_code: right,
                        },
                    )
                }
            }),
    {
        let keycodes = read_xmodmap_keycodes(xmodmap);
        match resolve_keycodes(&self.pair, &keycodes) {
            Ok((left_code, right_code)) => Ok(
                Monitor {
                    state: MonitorState {
                        left_down: false,
                        right_down: false,
                        armed: false,
                        trigger_mode: self.trigger_mode,
                    },
                    pending_event: None,
                    left_code,
                    right_code,
                },
            ),
            Err(error) => Err(error),
        }
    }
}

/// The key code that a line of the form `detail: <code>` gives.
pub open spec fn detail_code(line: Seq<char>) -> Option<u16> {
    if "detail:"@.is_prefix_of(line) {
        match parsed_unsigned(trimmed(line.skip("detail:"@.len() as int)), u16::MAX as nat) {
            Some(code) => Some(code as u16),
            None => None,
        }
    } else {
        None
    }
}

/// Reads the key code from a line of the form `detail: <code>`.
pub fn parse_detail(line: &str) -> (code: Option<u16>)
    ensures
        code == detail_code(line@),
{
    let chars = chars_of(line);
    if !has_prefix(&chars, "detail:") {
        return None;
    }
    proof {
        reveal_strlit("detail:");
    }
    let detail = text_of(&chars, 7, chars.len());
    assert(detail@ =~= line@.skip("detail:"@.len() as int));
    let number = chars_of(trim(detail.as_str()));
    match parse_unsigned(&number, 65535) {
        Some(code) => Some(code as u16),
        None => None,
    }
}

/// The kind of event that a line announces.
pub open spec fn announced(line: Seq<char>) -> Option<EventKind> {
    if occurs_in("(RawKeyPress)"@, trimmed(line)) {
        Some(EventKind::Press)
    } else if occurs_in("(RawKeyRelease)"@, trimmed(line)) {
        Some(EventKind::Release)
    } else {
        None
    }
}

/// The event that a line completes, after an earlier one announced its kind.
pub open spec fn completed(pending: Option<EventKind>, line: Seq<char>) -> Option<
    (EventKind, u16),
> {
    match (announced(line), pending, detail_code(trimmed(line))) {
        (None, Some(kind), Some(code)) => Some((kind, code)),
        _ => None,
    }
}

/// A monitor after a line.
pub open spec fn next_monitor(monitor: Monitor, line: Seq<char>) -> Monitor {
    match (announced(line), completed(monitor.pending_event, line)) {
        (Some(kind), _) => Monitor { pending_event: Some(kind), ..monitor },
        (None, Some((kind, code))) => Monitor {
            state: next_state(monitor.state, kind, code, monitor.left_code, monitor.right_code),
            pending_event: None,
            ..monitor
        },
        _ => monitor,
    }
}

/// What a monitor reports on a line.
pub open spec fn line_signals(monitor: Monitor, line: Seq<char>) -> Seq<Signal> {
    match completed(monitor.pending_event, line) {
        Some((kind, code)) => event_signals(
            monitor.state,
            kind,
            code,
            monitor.left_code,
            monitor.right_code,
        ),
        None => Seq::empty(),
    }
}

impl Monitor {
    /// Takes a line into account and returns what to report.
    pub fn observe(&mut self, line: &str) -> (signals: Vec<Signal>)
        ensures
            *final(self) == next_monitor(*old(self), line@),
            signals@ == line_signals(*old(self), line@),
            old(self).state.wf() ==> final(self).state.wf(),
    {
        let trimmed_line = trim(line);
        let chars = chars_of(trimmed_line);
        if contains_text(&chars, "(RawKeyPress)") {
            self.pending_event = Some(EventKind::Press);
            return Vec::new();
        }
        if contains_text(&chars, "(RawKeyRelease)") {
            self.pending_event = Some(EventKind::Release);
            return Vec::new();
        }
        if let Some(kind) = self.pending_event {
            if let Some(code) = parse_detail(trimmed_line) {
                let mut state = self.state;
                let signals = handle_event(&mut state, kind, code, self.left_code, self.right_code);
                self.state = state;
                self.pending_event = None;
                return signals;
            }
        }
        Vec::new()
    }
}

/// In a state that events lead to, the signals mark the moments at which the
/// hotkey begins and ends to be held: when it takes effect on press, `Down`
/// comes at its beginning and `Up` at its end; when it takes effect on
/// release, both come at its end.
pub proof fn law_signals_mark_the_chord(
    state: MonitorState,
    kind: EventKind,
    code: u16,
    left_code: u16,
    right_code: u16,
)
    requires
        state.wf(),
    ensures
        ({
            let next = next_state(state, kind, code, left_code, right_code);
            let signals = event_signals(state, kind, code, left_code, right_code);
            &&& next.wf()
            &&& next.trigger_mode == state.trigger_mode
            &&& signals == if !state.chord() && next.chord() && state.trigger_mode
                == TriggerMode::Press {
                seq![Signal::Down]
            } else if state.chord() && !next.chord() && state.trigger_mode == TriggerMode::Press {
                seq![Signal::Up]
            } else if state.chord() && !next.chord() {
                seq![Signal::Down, Signal::Up]
            } else {
                Seq::empty()
            }
        }),
{
}

/// A monitor after some lines.
pub open spec fn monitor_after(monitor: Monitor, lines: Seq<Seq<char>>) -> Monitor
    decreases lines.len(),
{
    if lines.len() == 0 {
        monitor
    } else {
        next_monitor(monitor_after(monitor, lines.drop_last()), lines.last())
    }
}

/// All that a monitor reports on some lines.
pub open spec fn all_signals(monitor: Monitor, lines: Seq<Seq<char>>) -> Seq<Signal>
    decreases lines.len(),
{
    if lines.len() == 0 {
        Seq::empty()
    } else {
        all_signals(monitor, lines.drop_last()) + line_signals(
            monitor_after(monitor, lines.drop_last()),
            lines.last(),
        )
    }
}

/// Whether `Down` and `Up` take turns, `Down` first.
pub open spec fn take_turns(signals: Seq<Signal>) -> bool {
    forall|i: int|
        0 <= i < signals.len() ==> #[trigger] signals[i] == if i % 2 == 0 {
            Signal::Down
        } else {
            Signal::Up
        }
}

/// Whatever lines a monitor reads, it reports one `Down` and one `Up` for each
/// time that the hotkey is held: they take turns, and none is missing, but
/// for the `Up` of a hotkey that is still held and took effect on press.
pub proof fn law_one_down_and_one_up_per_chord(
    trigger_mode: TriggerMode,
    left_code: u16,
    right_code: u16,
    lines: Seq<Seq<char>>,
)
    ensures
        ({
            let start = Monitor {
                state: idle(trigger_mode),
                pending_event: None,
                left_code,
                right_code,
            };
            let last = monitor_after(start, lines);
            let signals = all_signals(start, lines);
            &&& last.state.wf()
            &&& last.state.trigger_mode == trigger_mode
            &&& last.left_code == left_code && last.right_code == right_code
            &&& take_turns(signals)
            &&& trigger_mode == TriggerMode::Press ==> (signals.len() % 2 == 1
                <==> last.state.chord())
            &&& trigger_mode == TriggerMode::Release ==> signals.len() % 2 == 0
        }),
    decreases lines.len(),
{
    let start = Monitor { state: idle(trigger_mode), pending_event: None, left_code, right_code };
    if lines.len() > 0 {
        let before = lines.drop_last();
        law_one_down_and_one_up_per_chord(trigger_mode, left_code, right_code, before);
        let monitor = monitor_after(start, before);
        let done = all_signals(start, before);
        let more = line_signals(monitor, lines.last());
        if let Some((kind, code)) = completed(monitor.pending_event, lines.last()) {
            law_signals_mark_the_chord(monitor.state, kind, code, left_code, right_code);
        }
        let signals = all_signals(start, lines);
        assert(signals == done + more);
        assert forall|i: int| 0 <= i < signals.len() implies #[trigger] signals[i] == if i % 2 == 0 {
            Signal::Down
        } else {
            Signal::Up
        } by {
            if i < done.len() {
                assert(signals[i] == done[i]);
            } else {
                assert(signals[i] == more[i - done.len()]);
            }
        }
    }
}

/// Where the keyboard map is not known, every supported hotkey can be watched,
/// by the usual codes of its keys.
pub proof fn law_usual_codes_suffice(i: int)
    requires
        0 <= i < supported_pairs().len(),
    ensures
        left_code(supported_pairs()[i], Map::empty()) == supported_pairs()[i].fallback_left,
        right_code(supported_pairs()[i], Map::empty()) == supported_pairs()[i].fallback_right,
        left_code(supported_pairs()[i], Map::empty()) != right_code(
            supported_pairs()[i],
            Map::empty(),
        ),
{
    lemma_nothing_bound(supported_pairs()[i].left_symbols);
    lemma_nothing_bound(supported_pairs()[i].right_symbols);
}

proof fn lemma_nothing_bound(symbols: Seq<Seq<char>>)
    ensures
        first_bound(Map::empty(), symbols) is None,
    decreases symbols.len(),
{
    if symbols.len() > 0 {
        lemma_nothing_bound(symbols.drop_first());
    }
}

/// An event moves its own key and no other: a press puts it down, a release
/// lets it go. Where both keys have the same code, it is the left one's. The
/// hotkey is noticed once both keys are down, and no more once one is let go.
pub proof fn law_an_event_moves_its_own_key(
    state: MonitorState,
    kind: EventKind,
    code: u16,
    left_code: u16,
    right_code: u16,
)
    ensures
        ({
            let next = next_state(state, kind, code, left_code, right_code);
            &&& next.left_down == if code == left_code {
                kind is Press
            } else {
                state.left_down
            }
            &&& next.right_down == if code == right_code && code != left_code {
                kind is Press
            } else {
                state.right_down
            }
            &&& next.trigger_mode == state.trigger_mode
            &&& next.armed == if code != left_code && code != right_code {
                state.armed
            } else if next.left_down && next.right_down {
                true
            } else if state.left_down && state.right_down {
                false
            } else {
                state.armed
            }
        }),
{
}

/// The state after some events, from one in which no key is down.
pub open spec fn state_after(
    trigger_mode: TriggerMode,
    left_code: u16,
    right_code: u16,
    events: Seq<(EventKind, u16)>,
) -> MonitorState
    decreases events.len(),
{
    if events.len() == 0 {
        idle(trigger_mode)
    } else {
        next_state(
            state_after(trigger_mode, left_code, right_code, events.drop_last()),
            events.last().0,
            events.last().1,
            left_code,
            right_code,
        )
    }
}

/// Whether the last event of a key was a press.
pub open spec fn held(events: Seq<(EventKind, u16)>, code: u16) -> bool {
    exists|i: int|
        0 <= i < events.len() && #[trigger] events[i] == (EventKind::Press, code) && forall|j: int|
            i < j < events.len() ==> (#[trigger] events[j]).1 != code
}

proof fn lemma_held(events: Seq<(EventKind, u16)>, code: u16)
    requires
        events.len() > 0,
    ensures
        held(events, code) == if events.last().1 == code {
            events.last().0 == EventKind::Press
        } else {
            held(events.drop_last(), code)
        },
{
    let before = events.drop_last();
    let end = events.len() - 1;
    if events.last().1 == code {
        if events.last().0 == EventKind::Press {
            assert(events[end] == (EventKind::Press, code));
        } else if held(events, code) {
            let i = choose|i: int|
                0 <= i < events.len() && #[trigger] events[i] == (EventKind::Press, code) && forall|
                    j: int,
                |
                    i < j < events.len() ==> (#[trigger] events[j]).1 != code;
            assert(events[end].1 == code);
        }
    } else {
        if held(events, code) {
            let i = choose|i: int|
                0 <= i < events.len() && #[trigger] events[i] == (EventKind::Press, code) && forall|
                    j: int,
                |
                    i < j < events.len() ==> (#[trigger] events[j]).1 != code;
            assert(before[i] == (EventKind::Press, code));
            assert forall|j: int| i < j < before.len() implies (#[trigger] before[j]).1 != code by {
                assert(events[j].1 != code);
            }
        }
        if held(before, code) {
            let i = choose|i: int|
                0 <= i < before.len() && #[trigger] before[i] == (EventKind::Press, code) && forall|
                    j: int,
                |
                    i < j < before.len() ==> (#[trigger] before[j]).1 != code;
            assert(events[i] == (EventKind::Press, code));
            assert forall|j: int| i < j < events.len() implies (#[trigger] events[j]).1 != code by {
                if j < end {
                    assert(before[j].1 != code);
                }
            }
        }
    }
}

/// After any events, a key is down exactly if its last event was a press, and
/// the hotkey is noticed exactly if that holds of both keys.
pub proof fn law_state_follows_the_events(
    trigger_mode: TriggerMode,
    left_code: u16,
    right_code: u16,
    events: Seq<(EventKind, u16)>,
)
    requires
        left_code != right_code,
    ensures
        ({
            let state = state_after(trigger_mode, left_code, right_code, events);
            &&& state.left_down == held(events, left_code)
            &&& state.right_down == held(events, right_code)
            &&& state.armed == (held(events, left_code) && held(events, right_code))
            &&& state.trigger_mode == trigger_mode
        }),
    decreases events.len(),
{
    if events.len() > 0 {
        law_state_follows_the_events(trigger_mode, left_code, right_code, events.drop_last());
        lemma_held(events, left_code);
        lemma_held(events, right_code);
    }
}

/// What is reported on an event depends on whether both keys are held before
/// it and after it: on press, `Down` when that begins and `Up` when it ends;
/// on release, both when it ends; else nothing.
pub proof fn law_signals_follow_the_events(
    trigger_mode: TriggerMode,
    left_code: u16,
    right_code: u16,
    events: Seq<(EventKind, u16)>,
    kind: EventKind,
    code: u16,
)
    requires
        left_code != right_code,
    ensures
        ({
            let after = events.push((kind, code));
            let before_both = held(events, left_code) && held(events, right_code);
            let after_both = held(after, left_code) && held(after, right_code);
            event_signals(
                state_after(trigger_mode, left_code, right_code, events),
                kind,
                code,
                left_code,
                right_code,
            ) == match trigger_mode {
                TriggerMode::Press => if !before_both && after_both {
                    seq![Signal::Down]
                } else if before_both && !after_both {
                    seq![Signal::Up]
                } else {
                    Seq::empty()
                },
                TriggerMode::Release => if before_both && !after_both {
                    seq![Signal::Down, Signal::Up]
                } else {
                    Seq::empty()
                },
            }
        }),
{
    let after = events.push((kind, code));
    assert(after.drop_last() =~= events);
    law_state_follows_the_events(trigger_mode, left_code, right_code, events);
    law_state_follows_the_events(trigger_mode, left_code, right_code, after);
    lemma_held(after, left_code);
    lemma_held(after, right_code);
}

/// A line that announces a press or a release is remembered and reports
/// nothing; the next line with a key code makes the event; every other line
/// changes nothing and reports nothing.
pub proof fn law_how_a_line_is_read(monitor: Monitor, line: Seq<char>)
    ensures
        ({
            let text = trimmed(line);
            let next = next_monitor(monitor, line);
            let signals = line_signals(monitor, line);
            &&& next.left_code == monitor.left_code && next.right_code == monitor.right_code
            &&& if occurs_in("(RawKeyPress)"@, text) {
                &&& next.pending_event == Some(EventKind::Press)
                &&& next.state == monitor.state
                &&& signals.len() == 0
            } else if occurs_in("(RawKeyRelease)"@, text) {
                &&& next.pending_event == Some(EventKind::Release)
                &&& next.state == monitor.state
                &&& signals.len() == 0
            } else if monitor.pending_event is Some && detail_code(text) is Some {
                let kind = monitor.pending_event->0;
                let code = detail_code(text)->0;
                &&& next.pending_event is None
                &&& next.state == next_state(
                    monitor.state,
                    kind,
                    code,
                    monitor.left_code,
                    monitor.right_code,
                )
                &&& signals == event_signals(
                    monitor.state,
                    kind,
                    code,
                    monitor.left_code,
                    monitor.right_code,
                )
            } else {
                &&& next.pending_event == monitor.pending_event
                &&& next.state == monitor.state
                &&& signals.len() == 0
            }
        }),
{
}

/// A line `detail:` and a number gives the number as a key code, if it is one,
/// whatever white space stands around the number; a line that does not begin
/// with `detail:` gives none.
pub proof fn law_detail_gives_the_code(
    before: Seq<char>,
    plus: bool,
    zeros: nat,
    value: nat,
    after: Seq<char>,
    line: Seq<char>,
)
    requires
        forall|i: int| 0 <= i < before.len() ==> is_white(#[trigger] before[i]),
        forall|i: int| 0 <= i < after.len() ==> is_white(#[trigger] after[i]),
    ensures
        detail_code("detail:"@ + before + number_text(plus, zeros, value) + after) == if value
            <= 65535 {
            Some(value as u16)
        } else {
            None
        },
        detail_code(line) matches Some(code) ==> {
            &&& line.len() > 7
            &&& line.take(7) == "detail:"@
            &&& exists|plus: bool, zeros: nat| #[trigger]
                number_text(plus, zeros, code as nat) == trimmed(line.skip(7))
        },
{
    reveal_strlit("detail:");
    let number = number_text(plus, zeros, value);
    lemma_decimal_digits(value);
    assert(number.len() > 0 && !is_white(number[0]) && !is_white(number[number.len() - 1])) by {
        let digits = decimal(value);
        assert(is_digit(digits[digits.len() - 1]));
        assert(number[number.len() - 1] == digits[digits.len() - 1]);
        if !plus {
            assert(zero_row(zeros).len() == zeros);
            if zeros == 0 {
                assert(number[0] == digits[0]);
                assert(is_digit(digits[0]));
            } else {
                assert(number[0] == zero_row(zeros)[0]);
            }
        }
    }
    let whole = "detail:"@ + before + number + after;
    assert(whole.skip(7) =~= before + number + after);
    assert("detail:"@.is_prefix_of(whole));
    law_trim_takes_white_space_only(before, number, after);
    law_written_number_is_read(plus, zeros, value, 65535);
    if let Some(code) = detail_code(line) {
        law_only_numbers_are_read(trimmed(line.skip(7)), 65535);
        assert(line.take(7) =~= "detail:"@);
        if line.len() == 7 {
            assert(line.skip(7) =~= Seq::empty());
            law_trim_takes_white_space_only(Seq::empty(), Seq::empty(), Seq::empty());
            assert(Seq::<char>::empty() + Seq::<char>::empty() + Seq::<char>::empty()
                =~= Seq::empty());
        }
    }
}

/// What the arguments so far came to: the hotkey's name, if one was given, and
/// when it takes effect.
spec fn so_far(args: Seq<Seq<char>>, key: Option<Seq<char>>, mode: TriggerMode) -> Result<
    (Option<Seq<char>>, TriggerMode),
    HotkeyError<Seq<char>>,
>
    decreases args.len(),
{
    if args.len() == 0 {
        Ok((key, mode))
    } else if args[0] == "--key"@ {
        if args.len() == 1 {
            Err(HotkeyError::KeyNeedsValue)
        } else {
            so_far(args.skip(2), Some(args[1]), mode)
        }
    } else if args[0] == "--immediate"@ {
        so_far(args.skip(1), key, TriggerMode::Press)
    } else if args[0] == "--trigger-on-release"@ {
        so_far(args.skip(1), key, TriggerMode::Release)
    } else if key is None && !"-"@.is_prefix_of(args[0]) {
        so_far(args.skip(1), Some(args[0]), mode)
    } else {
        Err(HotkeyError::UnknownArgument(args[0]))
    }
}

proof fn lemma_so_far(
    args: Seq<Seq<char>>,
    more: Seq<Seq<char>>,
    key: Option<Seq<char>>,
    mode: TriggerMode,
)
    ensures
        requested(args, key, mode) == match so_far(args, key, mode) {
            Ok((Some(name), mode)) => Ok((name, mode)),
            Ok((None, mode)) => Err(HotkeyError::MissingKey),
            Err(error) => Err(error),
        },
        match so_far(args, key, mode) {
            Ok((name, last)) => requested(args + more, key, mode) == requested(more, name, last),
            Err(HotkeyError::UnknownArgument(arg)) => requested(args + more, key, mode) == Err::<
                (Seq<char>, TriggerMode),
                HotkeyError<Seq<char>>,
            >(HotkeyError::UnknownArgument(arg)),
            Err(error) => error == HotkeyError::<Seq<char>>::KeyNeedsValue,
        },
        so_far(args, key, mode) matches Ok((name, last)) ==> (name is None ==> last == if args.len()
            == 0 {
            mode
        } else if args.last() == "--trigger-on-release"@ {
            TriggerMode::Release
        } else {
            TriggerMode::Press
        }),
        so_far(args, key, mode) matches Ok((name, last)) ==> (key is Some ==> name is Some),
    decreases args.len(),
{
    lemma_options_differ();
    let whole = args + more;
    if args.len() == 0 {
        assert(whole =~= more);
    } else {
        assert(whole[0] == args[0]);
        assert(whole.skip(1) =~= args.skip(1) + more);
        if args[0] == "--key"@ {
            if args.len() > 1 {
                assert(whole[1] == args[1]);
                assert(whole.skip(2) =~= args.skip(2) + more);
                lemma_so_far(args.skip(2), more, Some(args[1]), mode);
            }
        } else if args[0] == "--immediate"@ {
            lemma_so_far(args.skip(1), more, key, TriggerMode::Press);
        } else if args[0] == "--trigger-on-release"@ {
            lemma_so_far(args.skip(1), more, key, TriggerMode::Release);
        } else if key is None && !"-"@.is_prefix_of(args[0]) {
            lemma_so_far(args.skip(1), more, Some(args[0]), mode);
        }
        if args.len() > 1 {
            assert(args.skip(1).last() == args.last());
        }
    }
}

/// What one more argument, or `--key` with its value, makes of arguments that
/// name a hotkey: the last `--key` counts, the last choice of the moment
/// counts, and every other argument is refused.
pub proof fn law_later_arguments_count(
    args: Seq<Seq<char>>,
    key: Seq<char>,
    mode: TriggerMode,
    more: Seq<char>,
)
    requires
        requested(args, None, TriggerMode::Press) == Ok::<
            (Seq<char>, TriggerMode),
            HotkeyError<Seq<char>>,
        >((key, mode)),
    ensures
        requested(args + seq!["--key"@, more], None, TriggerMode::Press) == Ok::<
            (Seq<char>, TriggerMode),
            HotkeyError<Seq<char>>,
        >((more, mode)),
        requested(args + seq![more], None, TriggerMode::Press) == if more == "--immediate"@ {
            Ok((key, TriggerMode::Press))
        } else if more == "--trigger-on-release"@ {
            Ok((key, TriggerMode::Release))
        } else if more == "--key"@ {
            Err(HotkeyError::KeyNeedsValue)
        } else {
            Err(HotkeyError::UnknownArgument(more))
        },
{
    lemma_so_far(args, seq!["--key"@, more], None, TriggerMode::Press);
    lemma_so_far(args, seq![more], None, TriggerMode::Press);
    lemma_short_requests(more, Some(key), mode);
    lemma_options_differ();
}

/// What one more argument, or `--key` with its value, makes of arguments that
/// name no hotkey yet: an argument that does not begin with a hyphen names it.
pub proof fn law_an_argument_names_the_hotkey(args: Seq<Seq<char>>, more: Seq<char>)
    requires
        requested(args, None, TriggerMode::Press) == Err::<
            (Seq<char>, TriggerMode),
            HotkeyError<Seq<char>>,
        >(HotkeyError::MissingKey),
    ensures
        ({
            let mode = if args.len() > 0 && args[args.len() - 1] == "--trigger-on-release"@ {
                TriggerMode::Release
            } else {
                TriggerMode::Press
            };
            &&& requested(args + seq!["--key"@, more], None, TriggerMode::Press) == Ok::<
                (Seq<char>, TriggerMode),
                HotkeyError<Seq<char>>,
            >((more, mode))
            &&& requested(args + seq![more], None, TriggerMode::Press) == if more == "--immediate"@
                || more == "--trigger-on-release"@ {
                Err(HotkeyError::MissingKey)
            } else if more == "--key"@ {
                Err(HotkeyError::KeyNeedsValue)
            } else if more.len() > 0 && more[0] == '-' {
                Err(HotkeyError::UnknownArgument(more))
            } else {
                Ok((more, mode))
            }
        }),
{
    lemma_so_far(args, seq!["--key"@, more], None, TriggerMode::Press);
    lemma_so_far(args, seq![more], None, TriggerMode::Press);
    let last = so_far(args, None, TriggerMode::Press)->Ok_0.1;
    lemma_short_requests(more, None, last);
    lemma_options_differ();
}

/// No arguments name no hotkey, and after an argument that is refused nothing
/// else counts.
pub proof fn law_a_refused_argument_decides(
    args: Seq<Seq<char>>,
    refused: Seq<char>,
    more: Seq<Seq<char>>,
)
    ensures
        requested(Seq::empty(), None, TriggerMode::Press) == Err::<
            (Seq<char>, TriggerMode),
            HotkeyError<Seq<char>>,
        >(HotkeyError::MissingKey),
        requested(args, None, TriggerMode::Press) == Err::<
            (Seq<char>, TriggerMode),
            HotkeyError<Seq<char>>,
        >(HotkeyError::UnknownArgument(refused)) ==> requested(
            args + more,
            None,
            TriggerMode::Press,
        ) == Err::<(Seq<char>, TriggerMode), HotkeyError<Seq<char>>>(
            HotkeyError::UnknownArgument(refused),
        ),
{
    lemma_so_far(args, more, None, TriggerMode::Press);
}

/// No two options are the same.
proof fn lemma_options_differ()
    ensures
        "--key"@ != "--immediate"@,
        "--key"@ != "--trigger-on-release"@,
        "--immediate"@ != "--trigger-on-release"@,
{
    reveal_strlit("--key");
    reveal_strlit("--immediate");
    reveal_strlit("--trigger-on-release");
    assert("--key"@.len() != "--immediate"@.len());
    assert("--key"@.len() != "--trigger-on-release"@.len());
    assert("--immediate"@.len() != "--trigger-on-release"@.len());
}

proof fn lemma_short_requests(more: Seq<char>, key: Option<Seq<char>>, mode: TriggerMode)
    ensures
        requested(seq!["--key"@, more], key, mode) == Ok::<
            (Seq<char>, TriggerMode),
            HotkeyError<Seq<char>>,
        >((more, mode)),
        requested(seq![more], key, mode) == if more == "--key"@ {
            Err(HotkeyError::KeyNeedsValue)
        } else if more == "--immediate"@ || more == "--trigger-on-release"@ {
            let chosen = if more == "--immediate"@ {
                TriggerMode::Press
            } else {
                TriggerMode::Release
            };
            match key {
                Some(key) => Ok((key, chosen)),
                None => Err(HotkeyError::MissingKey),
            }
        } else if key is None && !(more.len() > 0 && more[0] == '-') {
            Ok((more, mode))
        } else {
            Err(HotkeyError::UnknownArgument(more))
        },
{
    lemma_options_differ();
    reveal_strlit("-");
    assert(seq!["--key"@, more].skip(2) =~= Seq::empty());
    assert(seq![more].skip(1) =~= Seq::empty());
    assert("-"@.is_prefix_of(more) <==> more.len() > 0 && more[0] == '-') by {
        if "-"@.is_prefix_of(more) {
            assert("-"@[0] == more.subrange(0, 1)[0]);
        }
        if more.len() > 0 && more[0] == '-' {
            assert("-"@ =~= more.subrange(0, 1));
        }
    }
    reveal_with_fuel(requested, 3);
}

/// The hotkey to watch is the one that the name in the arguments finds.
pub proof fn law_the_named_hotkey_is_watched(args: Seq<Seq<char>>)
    ensures
        match requested(args, None, TriggerMode::Press) {
            Err(error) => planned(args) == Err::<
                (KeyPairView, TriggerMode),
                HotkeyError<Seq<char>>,
            >(error),
            Ok((name, mode)) => planned(args) == if named_pair(name) is Some {
                Ok((named_pair(name)->0, mode))
            } else {
                Err(HotkeyError::UnsupportedHotkey(name))
            },
        },
{
}

/// The code of each key is that of the first of its symbols that the keyboard
/// map binds, and the usual one if it binds none.
pub proof fn law_the_map_gives_the_codes(pair: KeyPairView, table: Map<Seq<char>, u16>)
    ensures
        (forall|i: int|
            0 <= i < pair.left_symbols.len() ==> !table.contains_key(
                #[trigger] pair.left_symbols[i],
            )) ==> left_code(pair, table) == pair.fallback_left,
        (forall|i: int|
            0 <= i < pair.right_symbols.len() ==> !table.contains_key(
                #[trigger] pair.right_symbols[i],
            )) ==> right_code(pair, table) == pair.fallback_right,
        forall|i: int|
            0 <= i < pair.left_symbols.len() && table.contains_key(#[trigger] pair.left_symbols[i])
                && (forall|j: int|
                0 <= j < i ==> !table.contains_key(#[trigger] pair.left_symbols[j])) ==> left_code(
                pair,
                table,
            ) == table[pair.left_symbols[i]],
        forall|i: int|
            0 <= i < pair.right_symbols.len() && table.contains_key(
                #[trigger] pair.right_symbols[i],
            ) && (forall|j: int|
                0 <= j < i ==> !table.contains_key(#[trigger] pair.right_symbols[j]))
                ==> right_code(pair, table) == table[pair.right_symbols[i]],
{
    law_first_bound_symbol_counts(table, pair.left_symbols);
    law_first_bound_symbol_counts(table, pair.right_symbols);
}

/// What each reason for not watching a hotkey says.
pub proof fn law_what_a_hotkey_error_says(text: Seq<char>, owned: String)
    ensures
        HotkeyError::<Seq<char>>::KeyNeedsValue.text() == "--key requires a value"@,
        HotkeyError::<Seq<char>>::MissingKey.text() == "missing --key"@,
        HotkeyError::UnknownArgument(text).text() == "unknown bare modifier monitor argument '"@
            + text + "'"@,
        HotkeyError::UnsupportedHotkey(text).text() == "unsupported bare modifier hotkey '"@ + text
            + "'"@,
        HotkeyError::SameKeycode(text).text() == "left and right "@ + text
            + " keys resolved to the same keycode"@,
        hotkey_error_view(HotkeyError::KeyNeedsValue) == HotkeyError::<Seq<char>>::KeyNeedsValue,
        hotkey_error_view(HotkeyError::MissingKey) == HotkeyError::<Seq<char>>::MissingKey,
        hotkey_error_view(HotkeyError::UnknownArgument(owned)) == HotkeyError::UnknownArgument(
            owned@,
        ),
        hotkey_error_view(HotkeyError::UnsupportedHotkey(owned)) == HotkeyError::UnsupportedHotkey(
            owned@,
        ),
        hotkey_error_view(HotkeyError::SameKeycode(owned)) == HotkeyError::SameKeycode(owned@),
{
}

} // verus!
