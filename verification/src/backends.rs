//! Which screenshot backend comes next, and what the answers of each mean.

use vstd::prelude::*;
use vstd::string::*;
use vstd::utf8::*;
use crate::codec::lossy_text;
use crate::failure::Failure;
use crate::numbers::{append_decimal, decimal};
use crate::screenshot::{
    calls, removed_by, screenshot_command_candidates, CaptureView, ScreenshotCapture, ScreenshotCleanup,
    ScreenshotCommand,
};
use crate::text::{join, joined, optional_view, same_text, trim, trimmed, views};
use crate::uri::{escaped_path, file_uri_to_path, unescaped};

verus! {

/// Which backend is to take the screenshot, and how the ones before it failed.
#[derive(Clone, Debug, PartialEq, Eq)]
pub enum CaptureState<T> {
    GnomeShell { allow_cli_fallback: bool },
    Portal { allow_cli_fallback: bool, gnome_error: T },
    CommandLine { gnome_error: T, portal_error: T },
}

/// What comes after a backend answered: another backend, or the screenshot, or
/// the reason why there is none.
#[derive(Debug)]
pub enum CaptureStep<C, T> {
    Continue(CaptureState<T>),
    Done(C),
    Failed(T),
}

/// The view of a capture in progress.
pub open spec fn state_view(state: CaptureState<String>) -> CaptureState<Seq<char>> {
    match state {
        CaptureState::GnomeShell { allow_cli_fallback } => CaptureState::GnomeShell {
            allow_cli_fallback,
        },
        CaptureState::Portal { allow_cli_fallback, gnome_error } => CaptureState::Portal {
            allow_cli_fallback,
            gnome_error: gnome_error@,
        },
        CaptureState::CommandLine { gnome_error, portal_error } => CaptureState::CommandLine {
            gnome_error: gnome_error@,
            portal_error: portal_error@,
        },
    }
}

/// The view of what comes after a backend answered.
pub open spec fn step_view(step: CaptureStep<ScreenshotCapture, String>) -> CaptureStep<
    CaptureView,
    Seq<char>,
> {
    match step {
        CaptureStep::Continue(state) => CaptureStep::Continue(state_view(state)),
        CaptureStep::Done(capture) => CaptureStep::Done(capture@),
        CaptureStep::Failed(error) => CaptureStep::Failed(error@),
    }
}

/// The view of what a backend answered.
pub open spec fn answer_view(answer: Result<ScreenshotCapture, String>) -> Result<
    CaptureView,
    Seq<char>,
> {
    match answer {
        Ok(capture) => Ok(capture@),
        Err(error) => Err(error@),
    }
}

/// How two backends failed.
pub open spec fn two_failures(gnome_error: Seq<char>, portal_error: Seq<char>) -> Seq<char> {
    "GNOME Shell screenshot failed: "@ + gnome_error + "; XDG portal screenshot failed: "@
        + portal_error
}

/// What comes after a backend answered: a screenshot ends the capture, an
/// error passes it on to the next backend, if there is one.
pub open spec fn next_step(
    state: CaptureState<Seq<char>>,
    answer: Result<CaptureView, Seq<char>>,
) -> CaptureStep<CaptureView, Seq<char>> {
    match answer {
        Ok(capture) => CaptureStep::Done(capture),
        Err(error) => match state {
            CaptureState::GnomeShell { allow_cli_fallback } => CaptureStep::Continue(
                CaptureState::Portal { allow_cli_fallback, gnome_error: error },
            ),
            CaptureState::Portal { allow_cli_fallback, gnome_error } => if allow_cli_fallback {
                CaptureStep::Continue(
                    CaptureState::CommandLine { gnome_error, portal_error: error },
                )
            } else {
                CaptureStep::Failed(
                    two_failures(gnome_error, error) + "; CLI screenshot fallback disabled"@,
                )
            },
            CaptureState::CommandLine { gnome_error, portal_error } => CaptureStep::Failed(
                two_failures(gnome_error, portal_error) + "; CLI screenshot fallback failed: "@
                    + error,
            ),
        },
    }
}

/// Starts a capture that may fall back to command-line programs.
pub fn capture_screenshot() -> (state: CaptureState<String>)
    ensures
        state == (CaptureState::<String>::GnomeShell { allow_cli_fallback: true }),
{
    CaptureState::GnomeShell { allow_cli_fallback: true }
}

/// Starts a capture that uses no command-line program.
pub fn capture_screenshot_without_cli_fallback() -> (state: CaptureState<String>)
    ensures
        state == (CaptureState::<String>::GnomeShell { allow_cli_fallback: false }),
{
    CaptureState::GnomeShell { allow_cli_fallback: false }
}

/// Puts into words how two backends failed.
fn describe_two_failures(gnome_error: &str, portal_error: &str) -> (text: String)
    ensures
        text@ == two_failures(gnome_error@, portal_error@),
{
    let mut text = String::new();
    text.append("GNOME Shell screenshot failed: ");
    text.append(gnome_error);
    text.append("; XDG portal screenshot failed: ");
    text.append(portal_error);
    assert(text@ =~= two_failures(gnome_error@, portal_error@));
    text
}

/// Decides what comes after a backend answered.
pub fn capture_screenshot_inner(
    state: CaptureState<String>,
    answer: Result<ScreenshotCapture, String>,
) -> (step: CaptureStep<ScreenshotCapture, String>)
    ensures
        step_view(step) == next_step(state_view(state), answer_view(answer)),
{
    match answer {
        Ok(capture) => CaptureStep::Done(capture),
        Err(error) => match state {
            CaptureState::GnomeShell { allow_cli_fallback } => CaptureStep::Continue(
                CaptureState::Portal { allow_cli_fallback, gnome_error: error },
            ),
            CaptureState::Portal { allow_cli_fallback, gnome_error } => if allow_cli_fallback {
                CaptureStep::Continue(
                    CaptureState::CommandLine { gnome_error, portal_error: error },
                )
            } else {
                let mut text = describe_two_failures(gnome_error.as_str(), error.as_str());
                text.append("; CLI screenshot fallback disabled");
                CaptureStep::Failed(text)
            },
            CaptureState::CommandLine { gnome_error, portal_error } => {
                let mut text = describe_two_failures(gnome_error.as_str(), portal_error.as_str());
                text.append("; CLI screenshot fallback failed: ");
                text.append(error.as_str());
                CaptureStep::Failed(text)
            },
        },
    }
}

/// What comes after several backends answered, one after the other.
pub open spec fn steps(
    state: CaptureState<Seq<char>>,
    answers: Seq<Result<CaptureView, Seq<char>>>,
) -> CaptureStep<CaptureView, Seq<char>>
    decreases answers.len(),
{
    if answers.len() == 0 {
        CaptureStep::Continue(state)
    } else {
        match next_step(state, answers[0]) {
            CaptureStep::Continue(next) => steps(next, answers.drop_first()),
            done => done,
        }
    }
}

/// A capture that started without the fallback never asks a command-line
/// program, whatever the backends answer.
pub proof fn law_no_cli_without_fallback(answers: Seq<Result<CaptureView, Seq<char>>>)
    ensures
        !(steps(CaptureState::GnomeShell { allow_cli_fallback: false }, answers) matches
            CaptureStep::Continue(CaptureState::CommandLine { .. })),
{
    reveal_with_fuel(steps, 4);
}

/// A capture ends after at most three answers, two without the fallback, with
/// the screenshot of the first backend that gave one.
pub proof fn law_first_screenshot_counts(
    allow_cli_fallback: bool,
    answers: Seq<Result<CaptureView, Seq<char>>>,
)
    requires
        answers.len() >= if allow_cli_fallback { 3int } else { 2 },
    ensures
        ({
            let end = steps(CaptureState::GnomeShell { allow_cli_fallback }, answers);
            &&& !(end is Continue)
            &&& answers[0] is Ok ==> end == CaptureStep::<CaptureView, Seq<char>>::Done(
                answers[0]->Ok_0,
            )
            &&& answers[0] is Err && answers[1] is Ok ==> end == CaptureStep::<
                CaptureView,
                Seq<char>,
            >::Done(answers[1]->Ok_0)
            &&& answers[0] is Err && answers[1] is Err && allow_cli_fallback && answers[2] is Ok
                ==> end == CaptureStep::<CaptureView, Seq<char>>::Done(answers[2]->Ok_0)
            &&& answers[0] is Err && answers[1] is Err && (!allow_cli_fallback || answers[2] is Err)
                ==> end is Failed
        }),
{
    reveal_with_fuel(steps, 4);
    assert(answers.drop_first()[0] == answers[1]);
    if allow_cli_fallback {
        assert(answers.drop_first().drop_first()[0] == answers[2]);
    }
}

/// A file to read a screenshot from, and what becomes of it.
#[derive(Clone, Debug, PartialEq, Eq)]
pub struct ReadRequest {
    pub path: String,
    pub source: &'static str,
    pub cleanup: ScreenshotCleanup,
}

/// What comes after GNOME Shell answered: a file to read, or, after the
/// requested file was deleted, a failure.
#[derive(Clone, Debug, PartialEq, Eq)]
pub enum GnomeStep {
    Read(ReadRequest),
    GiveUp { delete: String, failure: Failure },
}

/// The file that is deleted in the end, whether or not it made a screenshot.
pub open spec fn removed_file(step: GnomeStep) -> Option<String> {
    match step {
        GnomeStep::Read(request) => removed_by(request.cleanup),
        GnomeStep::GiveUp { delete, failure } => Some(delete),
    }
}

/// Decides what comes after GNOME Shell answered a request to write to
/// `requested`. `reply` is its answer: whether it succeeded and the file that
/// it wrote to, or the description of the error. Whatever it answered, the
/// requested file is deleted in the end, and no other.
pub fn after_gnome_call(requested: String, reply: Result<(bool, String), String>) -> (step:
    GnomeStep)
    ensures
        match reply {
            Ok((true, used)) => step matches GnomeStep::Read(request) && request.path == used
                && request.source@ == "gnome-shell"@ && request.cleanup
                == ScreenshotCleanup::DeletePath(requested),
            Ok((false, _)) => step matches GnomeStep::GiveUp { delete, failure } && delete
                == requested && failure.message@ == "GNOME Shell reported screenshot failure"@
                && failure.cause is None,
            Err(error) => step matches GnomeStep::GiveUp { delete, failure } && delete == requested
                && failure.message@ == "GNOME Shell Screenshot call failed"@ && failure.cause
                == Some(error),
        },
        removed_file(step) == Some(requested),
{
    match reply {
        Ok((success, used)) => if success {
            GnomeStep::Read(
                ReadRequest {
                    path: used,
                    source: "gnome-shell",
                    cleanup: ScreenshotCleanup::DeletePath(requested),
                },
            )
        } else {
            GnomeStep::GiveUp {
                delete: requested,
                failure: Failure {
                    message: "GNOME Shell reported screenshot failure".to_owned(),
                    cause: None,
                },
            }
        },
        Err(error) => GnomeStep::GiveUp {
            delete: requested,
            failure: Failure {
                message: "GNOME Shell Screenshot call failed".to_owned(),
                cause: Some(error),
            },
        },
    }
}

/// How long the portal has to respond, in seconds.
pub const PORTAL_TIMEOUT_SECS: u64 = 20;

/// What came of waiting for the portal's response.
#[derive(Clone, Debug, PartialEq, Eq)]
pub enum PortalEvent {
    /// There are no more messages.
    Ended,
    /// A message could not be received.
    Failed { error: String },
    /// A message came, from the object at `path`.
    Message { path: Option<String> },
}

/// What to do about a message.
#[derive(Clone, Debug, PartialEq, Eq)]
pub enum PortalStep {
    Ignore,
    Decode,
    GiveUp(Failure),
}

/// Whether a message from the object at `path` answers the request at
/// `request_path`.
pub fn portal_response_matches_path(path: Option<&str>, request_path: &str) -> (matches: bool)
    ensures
        matches == (path matches Some(path) && path@ == request_path@),
{
    match path {
        Some(path) => same_text(path, request_path),
        None => false,
    }
}

/// Decides what to do about a message, while waiting for the answer to the
/// request at `request_path`.
pub fn wait_for_portal_response(event: PortalEvent, request_path: &str) -> (step: PortalStep)
    ensures
        match event {
            PortalEvent::Ended => step matches PortalStep::GiveUp(failure) && failure.message@
                == "XDG portal screenshot response stream ended"@ && failure.cause is None,
            PortalEvent::Failed { error } => step matches PortalStep::GiveUp(failure)
                && failure.message@ == "XDG portal screenshot response stream failed"@
                && failure.cause == Some(error),
            PortalEvent::Message { path } => step == if optional_view(path) == Some(
                request_path@,
            ) {
                PortalStep::Decode
            } else {
                PortalStep::Ignore
            },
        },
{
    match event {
        PortalEvent::Ended => PortalStep::GiveUp(
            Failure {
                message: "XDG portal screenshot response stream ended".to_owned(),
                cause: None,
            },
        ),
        PortalEvent::Failed { error } => PortalStep::GiveUp(
            Failure {
                message: "XDG portal screenshot response stream failed".to_owned(),
                cause: Some(error),
            },
        ),
        PortalEvent::Message { path } => {
            let from = match &path {
                Some(path) => Some(path.as_str()),
                None => None,
            };
            if portal_response_matches_path(from, request_path) {
                PortalStep::Decode
            } else {
                PortalStep::Ignore
            }
        },
    }
}

/// What the portal's response holds under `uri`.
#[derive(Clone, Debug, PartialEq, Eq)]
pub enum PortalUri {
    /// Nothing.
    Missing,
    /// A value that could not be copied.
    NotCloned { error: String },
    /// A value that is not a text.
    NotText { error: String },
    /// A text.
    Text(String),
}

/// Decides what the portal's response comes to: a file to read, which is the
/// user's and is kept, or a failure.
pub fn portal_screenshot(response_code: u32, uri: PortalUri) -> (request: Result<
    ReadRequest,
    Failure,
>)
    ensures
        request is Ok <==> response_code == 0 && (uri matches PortalUri::Text(uri)
            && escaped_path(uri@) is Some),
        request matches Ok(request) ==> {
            let rest = escaped_path(uri->Text_0@)->0;
            &&& request.path@ == lossy_text(unescaped(encode_utf8(rest)))
            &&& valid_utf8(unescaped(encode_utf8(rest))) ==> request.path@ == decode_utf8(
                unescaped(encode_utf8(rest)),
            )
            &&& request.source@ == "xdg-desktop-portal"@
            &&& request.cleanup == ScreenshotCleanup::Preserve
            &&& removed_by(request.cleanup) is None
        },
        request matches Err(failure) ==> if response_code != 0 {
            failure.message@
                == "XDG portal screenshot was denied or cancelled with response code "@ + decimal(
                response_code as nat,
            ) && failure.cause is None
        } else {
            match uri {
                PortalUri::Missing => failure.message@
                    == "XDG portal screenshot response did not include a uri"@
                    && failure.cause is None,
                PortalUri::NotCloned { error } => failure.message@
                    == "failed to clone XDG portal screenshot uri"@ && failure.cause == Some(error),
                PortalUri::NotText { error } => failure.message@
                    == "XDG portal screenshot uri was not a string"@ && failure.cause == Some(
                    error,
                ),
                PortalUri::Text(uri) => failure.message@ == "unsupported screenshot uri: "@ + uri@
                    && failure.cause is None,
            }
        },
{
    if response_code != 0 {
        let mut message = String::new();
        message.append("XDG portal screenshot was denied or cancelled with response code ");
        append_decimal(&mut message, response_code as u128);
        assert(message@ =~= "XDG portal screenshot was denied or cancelled with response code "@
            + decimal(response_code as nat));
        return Err(Failure { message, cause: None });
    }
    match uri {
        PortalUri::Missing => Err(
            Failure {
                message: "XDG portal screenshot response did not include a uri".to_owned(),
                cause: None,
            },
        ),
        PortalUri::NotCloned { error } => Err(
            Failure {
                message: "failed to clone XDG portal screenshot uri".to_owned(),
                cause: Some(error),
            },
        ),
        PortalUri::NotText { error } => Err(
            Failure {
                message: "XDG portal screenshot uri was not a string".to_owned(),
                cause: Some(error),
            },
        ),
        PortalUri::Text(uri) => match file_uri_to_path(uri.as_str()) {
            Ok(path) => Ok(
                ReadRequest {
                    path,
                    source: "xdg-desktop-portal",
                    cleanup: ScreenshotCleanup::Preserve,
                },
            ),
            Err(unsupported) => {
                let mut message = String::new();
                message.append("unsupported screenshot uri: ");
                message.append(unsupported.uri.as_str());
                assert(message@ =~= "unsupported screenshot uri: "@ + uri@);
                Err(Failure { message, cause: None })
            },
        },
    }
}

/// How far the command-line programs were tried, and how each failed.
#[derive(Clone, Debug, PartialEq, Eq)]
pub struct CliFallback {
    next: usize,
    attempts: Vec<String>,
}

/// What trying a program came to.
#[derive(Debug)]
pub enum CliOutcome<C, T> {
    /// It is not installed.
    NotFound,
    /// It took a screenshot.
    Captured(C),
    /// It failed; the description says how.
    Failed(T),
}

/// The view of what trying a program came to.
pub open spec fn outcome_view(outcome: CliOutcome<ScreenshotCapture, String>) -> CliOutcome<
    CaptureView,
    Seq<char>,
> {
    match outcome {
        CliOutcome::NotFound => CliOutcome::NotFound,
        CliOutcome::Captured(capture) => CliOutcome::Captured(capture@),
        CliOutcome::Failed(error) => CliOutcome::Failed(error@),
    }
}

/// The programs that are tried, in order.
pub open spec fn programs() -> Seq<Seq<char>> {
    seq!["grim"@, "gnome-screenshot"@, "spectacle"@, "import"@]
}

/// What is noted of a program that took no screenshot.
pub open spec fn attempt_note(
    program: Seq<char>,
    outcome: CliOutcome<CaptureView, Seq<char>>,
) -> Seq<char> {
    match outcome {
        CliOutcome::Failed(error) => program + " failed: "@ + error,
        _ => program + " not found"@,
    }
}

/// How far the programs were tried, and what was noted of each.
pub struct CliView {
    pub next: nat,
    pub attempts: Seq<Seq<char>>,
}

impl View for CliFallback {
    type V = CliView;

    closed spec fn view(&self) -> CliView {
        CliView { next: self.next as nat, attempts: views(self.attempts@) }
    }
}

/// Before any program was tried.
pub open spec fn untried() -> CliView {
    CliView { next: 0, attempts: Seq::empty() }
}

/// After the current program was tried: a screenshot ends the search, else the
/// attempt is noted and the next program is due.
pub open spec fn after_attempt(
    view: CliView,
    outcome: CliOutcome<CaptureView, Seq<char>>,
) -> CliView {
    if outcome is Captured {
        view
    } else {
        CliView {
            next: view.next + 1,
            attempts: view.attempts.push(attempt_note(programs()[view.next as int], outcome)),
        }
    }
}

impl CliFallback {
    /// Before any program was tried.
    pub fn new() -> (fallback: CliFallback)
        ensures
            fallback@ == untried(),
    {
        let fallback = CliFallback { next: 0, attempts: Vec::new() };
        assert(views(fallback.attempts@) =~= Seq::empty());
        fallback
    }

    /// Returns the program to try, if there is one left.
    pub fn current(&self) -> (command: Option<ScreenshotCommand>)
        ensures
            command is Some <==> self@.next < programs().len(),
            command matches Some(command) ==> command.program@ == programs()[self@.next as int],
            self@.next == 0 ==> calls(command->0, "grim"@, "grim"@, Seq::empty()),
            self@.next == 1 ==> calls(
                command->0,
                "gnome-screenshot"@,
                "gnome-screenshot"@,
                seq!["-f"@],
            ),
            self@.next == 2 ==> calls(
                command->0,
                "spectacle"@,
                "spectacle"@,
                seq!["-b"@, "-n"@, "-o"@],
            ),
            self@.next == 3 ==> calls(
                command->0,
                "imagemagick-import"@,
                "import"@,
                seq!["-window"@, "root"@],
            ),
    {
        let candidates = screenshot_command_candidates();
        if self.next < candidates.len() {
            Some(candidates[self.next])
        } else {
            None
        }
    }

    /// Takes into account what trying the current program came to. Returns the
    /// screenshot if it took one.
    pub fn record(&mut self, outcome: CliOutcome<ScreenshotCapture, String>) -> (capture: Option<
        ScreenshotCapture,
    >)
        requires
            old(self)@.next < programs().len(),
        ensures
            final(self)@ == after_attempt(old(self)@, outcome_view(outcome)),
            capture == match outcome {
                CliOutcome::Captured(taken) => Some(taken),
                _ => None,
            },
    {
        let command = self.current();
        let mut note = String::new();
        if let Some(command) = command {
            note.append(command.program);
        }
        match outcome {
            CliOutcome::Captured(capture) => {
                return Some(capture);
            },
            CliOutcome::NotFound => {
                note.append(" not found");
            },
            CliOutcome::Failed(error) => {
                note.append(" failed: ");
                note.append(error.as_str());
            },
        }
        assert(note@ =~= attempt_note(programs()[self.next as int], outcome_view(outcome)));
        self.attempts.push(note);
        assert(views(self.attempts@) =~= views(old(self).attempts@).push(note@));
        self.next += 1;
        None
    }

    /// Puts into words how the programs failed.
    pub fn error(&self) -> (text: String)
        ensures
            text@ == joined(self@.attempts, "; "@),
    {
        join(&self.attempts, "; ")
    }
}

/// After several programs were tried.
pub open spec fn after_attempts(outcomes: Seq<CliOutcome<CaptureView, Seq<char>>>) -> CliView
    decreases outcomes.len(),
{
    if outcomes.len() == 0 {
        untried()
    } else {
        after_attempt(after_attempts(outcomes.drop_last()), outcomes.last())
    }
}

/// As long as no program takes a screenshot, each is tried once, in order, and
/// each attempt is noted under the program's name.
pub proof fn law_every_failed_program_is_noted(outcomes: Seq<CliOutcome<CaptureView, Seq<char>>>)
    requires
        outcomes.len() <= programs().len(),
        forall|i: int| 0 <= i < outcomes.len() ==> !(#[trigger] outcomes[i] is Captured),
    ensures
        after_attempts(outcomes).next == outcomes.len(),
        after_attempts(outcomes).attempts == Seq::new(
            outcomes.len(),
            |i: int| attempt_note(programs()[i], outcomes[i]),
        ),
    decreases outcomes.len(),
{
    let noted = Seq::new(outcomes.len(), |i: int| attempt_note(programs()[i], outcomes[i]));
    if outcomes.len() > 0 {
        let before = outcomes.drop_last();
        assert forall|i: int| 0 <= i < before.len() implies !(#[trigger] before[i] is Captured) by {
            assert(!(outcomes[i] is Captured));
        }
        law_every_failed_program_is_noted(before);
        assert(!(outcomes[outcomes.len() - 1] is Captured));
        assert(after_attempts(outcomes).attempts =~= noted);
    } else {
        assert(after_attempts(outcomes).attempts =~= noted);
    }
}

/// How long a screenshot program may run, in milliseconds.
pub const COMMAND_TIMEOUT_MS: u64 = 10_000;

/// How long to wait before looking at a running program again, in milliseconds.
pub const POLL_INTERVAL_MS: u64 = 50;

/// What a look at a screenshot program found.
#[derive(Clone, Debug, PartialEq, Eq)]
pub enum ChildPoll {
    Running,
    Exited { success: bool, status: String, stderr: String },
}

/// What to do about a screenshot program.
#[derive(Clone, Debug, PartialEq, Eq)]
pub enum WaitStep<T> {
    /// It is done.
    Succeeded,
    /// It failed; the description says how.
    Failed(T),
    /// It has to be killed; the description says why.
    Kill(T),
    /// It has time left; look again after so many milliseconds.
    Sleep(u64),
}

/// The view of what to do about a screenshot program.
pub open spec fn wait_view(step: WaitStep<String>) -> WaitStep<Seq<char>> {
    match step {
        WaitStep::Succeeded => WaitStep::Succeeded,
        WaitStep::Failed(error) => WaitStep::Failed(error@),
        WaitStep::Kill(error) => WaitStep::Kill(error@),
        WaitStep::Sleep(millis) => WaitStep::Sleep(millis),
    }
}

/// How a program that exited failed.
pub open spec fn exit_failure(
    program: Seq<char>,
    status: Seq<char>,
    stderr: Seq<char>,
) -> Seq<char> {
    program + " exited with status "@ + status + if trimmed(stderr).len() == 0 {
        Seq::empty()
    } else {
        ": "@ + trimmed(stderr)
    }
}

/// What to do about a screenshot program that started `elapsed_ms` ago.
pub open spec fn next_wait(program: Seq<char>, poll: ChildPoll, elapsed_ms: u64) -> WaitStep<
    Seq<char>,
> {
    match poll {
        ChildPoll::Exited { success, status, stderr } => if success {
            WaitStep::Succeeded
        } else {
            WaitStep::Failed(exit_failure(program, status@, stderr@))
        },
        ChildPoll::Running => if elapsed_ms >= COMMAND_TIMEOUT_MS {
            WaitStep::Kill(program + " timed out"@)
        } else {
            WaitStep::Sleep(POLL_INTERVAL_MS)
        },
    }
}

/// Decides what to do about a screenshot program that started `elapsed_ms`
/// ago.
pub fn run_screenshot_command(program: &str, poll: ChildPoll, elapsed_ms: u64) -> (step: WaitStep<
    String,
>)
    ensures
        wait_view(step) == next_wait(program@, poll, elapsed_ms),
{
    match poll {
        ChildPoll::Exited { success, status, stderr } => {
            if success {
                return WaitStep::Succeeded;
            }
            let mut error = String::new();
            error.append(program);
            error.append(" exited with status ");
            error.append(status.as_str());
            let said = trim(stderr.as_str());
            if !said.is_empty() {
                error.append(": ");
                error.append(said);
            }
            assert(error@ =~= exit_failure(program@, status@, stderr@));
            WaitStep::Failed(error)
        },
        ChildPoll::Running => if elapsed_ms >= COMMAND_TIMEOUT_MS {
            let mut error = String::new();
            error.append(program);
            error.append(" timed out");
            assert(error@ =~= program@ + " timed out"@);
            WaitStep::Kill(error)
        } else {
            WaitStep::Sleep(POLL_INTERVAL_MS)
        },
    }
}

/// A program is waited for only while it runs and has time left.
pub proof fn law_waiting_ends(program: Seq<char>, poll: ChildPoll, elapsed_ms: u64)
    ensures
        next_wait(program, poll, elapsed_ms) is Sleep ==> poll is Running && elapsed_ms
            < COMMAND_TIMEOUT_MS,
        next_wait(program, poll, elapsed_ms) is Kill ==> poll is Running && elapsed_ms
            >= COMMAND_TIMEOUT_MS,
{
}

/// Decides whether a program is installed. A name of several path components
/// must be a file itself; a bare name must be a file in one of the directories
/// of the search path, of which `path_hits` tells for each whether it is.
pub fn command_exists(component_count: usize, program_is_file: bool, path_hits: &[bool]) -> (exists:
    bool)
    ensures
        exists == if component_count > 1 { program_is_file } else { path_hits@.contains(true) },
{
    if component_count > 1 {
        return program_is_file;
    }
    let mut i: usize = 0;
    while i < path_hits.len()
        invariant
            component_count <= 1,
            i <= path_hits@.len(),
            forall|j: int| 0 <= j < i ==> !(#[trigger] path_hits@[j]),
        decreases path_hits@.len() - i,
    {
        if path_hits[i] {
            assert(path_hits@[i as int]);
            return true;
        }
        i += 1;
    }
    false
}

/// What each answer leads to: a screenshot ends the capture wherever it comes
/// from; after a failure GNOME Shell passes on to the portal and the portal to
/// the command line, if that is allowed, and in the end every failure is told.
pub proof fn law_backends_come_in_turn(
    state: CaptureState<Seq<char>>,
    capture: CaptureView,
    allow_cli_fallback: bool,
    gnome_error: Seq<char>,
    portal_error: Seq<char>,
    cli_error: Seq<char>,
)
    ensures
        next_step(state, Ok(capture)) == CaptureStep::<CaptureView, Seq<char>>::Done(capture),
        next_step(CaptureState::GnomeShell { allow_cli_fallback }, Err(gnome_error))
            == CaptureStep::<CaptureView, Seq<char>>::Continue(
            CaptureState::Portal { allow_cli_fallback, gnome_error },
        ),
        next_step(
            CaptureState::Portal { allow_cli_fallback: true, gnome_error },
            Err(portal_error),
        ) == CaptureStep::<CaptureView, Seq<char>>::Continue(
            CaptureState::CommandLine { gnome_error, portal_error },
        ),
        next_step(
            CaptureState::Portal { allow_cli_fallback: false, gnome_error },
            Err(portal_error),
        ) == CaptureStep::<CaptureView, Seq<char>>::Failed(
            "GNOME Shell screenshot failed: "@ + gnome_error + "; XDG portal screenshot failed: "@
                + portal_error + "; CLI screenshot fallback disabled"@,
        ),
        next_step(CaptureState::CommandLine { gnome_error, portal_error }, Err(cli_error))
            == CaptureStep::<CaptureView, Seq<char>>::Failed(
            "GNOME Shell screenshot failed: "@ + gnome_error + "; XDG portal screenshot failed: "@
                + portal_error + "; CLI screenshot fallback failed: "@ + cli_error,
        ),
{
}

/// What trying a program leads to: a screenshot ends the search; else the next
/// program is due, and what became of this one is noted under its name, after
/// what was noted before.
pub proof fn law_attempts_are_noted_in_order(
    view: CliView,
    capture: CaptureView,
    error: Seq<char>,
)
    requires
        view.next < 4,
    ensures
        ({
            let program = seq!["grim"@, "gnome-screenshot"@, "spectacle"@, "import"@][view.next as int];
            let missing = after_attempt(view, CliOutcome::NotFound);
            let failed = after_attempt(view, CliOutcome::Failed(error));
            &&& after_attempt(view, CliOutcome::Captured(capture)) == view
            &&& missing.next == view.next + 1
            &&& missing.attempts == view.attempts.push(program + " not found"@)
            &&& failed.next == view.next + 1
            &&& failed.attempts == view.attempts.push(program + " failed: "@ + error)
        }),
        programs().len() == 4,
        untried().next == 0,
        untried().attempts.len() == 0,
{
}

/// What a look at a program leads to: one that has exited is done with, well
/// or not; one that runs is killed after ten seconds, and else looked at again
/// after fifty milliseconds. What it wrote to its error stream is told,
/// trimmed, unless it is blank.
pub proof fn law_how_a_program_is_waited_for(
    program: Seq<char>,
    status: String,
    stderr: String,
    elapsed_ms: u64,
)
    ensures
        next_wait(program, ChildPoll::Exited { success: true, status, stderr }, elapsed_ms)
            == WaitStep::<Seq<char>>::Succeeded,
        next_wait(program, ChildPoll::Exited { success: false, status, stderr }, elapsed_ms)
            == WaitStep::Failed(
            if trimmed(stderr@).len() == 0 {
                program + " exited with status "@ + status@
            } else {
                program + " exited with status "@ + status@ + ": "@ + trimmed(stderr@)
            },
        ),
        elapsed_ms < 10_000 ==> next_wait(program, ChildPoll::Running, elapsed_ms) == WaitStep::<
            Seq<char>,
        >::Sleep(50),
        elapsed_ms >= 10_000 ==> next_wait(program, ChildPoll::Running, elapsed_ms)
            == WaitStep::Kill(program + " timed out"@),
{
    let told = program + " exited with status "@ + status@;
    assert(told + Seq::<char>::empty() =~= told);
    assert(told + (": "@ + trimmed(stderr@)) =~= told + ": "@ + trimmed(stderr@));
}

/// What is deleted after GNOME Shell answered, whatever is done about it.
pub proof fn law_requested_file_is_deleted(
    path: String,
    source: &'static str,
    requested: String,
    failure: Failure,
)
    ensures
        removed_file(
            GnomeStep::Read(
                ReadRequest { path, source, cleanup: ScreenshotCleanup::DeletePath(requested) },
            ),
        ) == Some(requested),
        removed_file(GnomeStep::GiveUp { delete: requested, failure }) == Some(requested),
{
}

/// The view of a state, a step, an answer or an outcome is that of what it
/// holds.
pub proof fn law_views_of_steps(
    allow_cli_fallback: bool,
    gnome_error: String,
    portal_error: String,
    state: CaptureState<String>,
    capture: ScreenshotCapture,
    millis: u64,
)
    ensures
        state_view(CaptureState::GnomeShell { allow_cli_fallback }) == (CaptureState::<
            Seq<char>,
        >::GnomeShell { allow_cli_fallback }),
        state_view(CaptureState::Portal { allow_cli_fallback, gnome_error })
            == (CaptureState::Portal { allow_cli_fallback, gnome_error: gnome_error@ }),
        state_view(CaptureState::CommandLine { gnome_error, portal_error })
            == (CaptureState::CommandLine {
            gnome_error: gnome_error@,
            portal_error: portal_error@,
        }),
        step_view(CaptureStep::Continue(state)) == CaptureStep::<CaptureView, Seq<char>>::Continue(
            state_view(state),
        ),
        step_view(CaptureStep::Done(capture)) == CaptureStep::<CaptureView, Seq<char>>::Done(
            capture@,
        ),
        step_view(CaptureStep::Failed(gnome_error)) == CaptureStep::<CaptureView, Seq<char>>::Failed(
            gnome_error@,
        ),
        answer_view(Ok(capture)) == Ok::<CaptureView, Seq<char>>(capture@),
        answer_view(Err(gnome_error)) == Err::<CaptureView, Seq<char>>(gnome_error@),
        outcome_view(CliOutcome::NotFound) == CliOutcome::<CaptureView, Seq<char>>::NotFound,
        outcome_view(CliOutcome::Captured(capture)) == CliOutcome::<
            CaptureView,
            Seq<char>,
        >::Captured(capture@),
        outcome_view(CliOutcome::Failed(gnome_error)) == CliOutcome::<
            CaptureView,
            Seq<char>,
        >::Failed(gnome_error@),
        wait_view(WaitStep::Succeeded) == WaitStep::<Seq<char>>::Succeeded,
        wait_view(WaitStep::Failed(gnome_error)) == WaitStep::Failed(gnome_error@),
        wait_view(WaitStep::Kill(gnome_error)) == WaitStep::Kill(gnome_error@),
        wait_view(WaitStep::Sleep(millis)) == WaitStep::<Seq<char>>::Sleep(millis),
{
}

} // verus!
