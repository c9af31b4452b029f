//! Screenshots as data URLs, the files they come from and the commands that
//! take them.

use vstd::prelude::*;
use vstd::string::*;
use crate::codec::{base64_bytes, base64_encode, base64_text};
use crate::failure::Failure;
use crate::numbers::{append_decimal, decimal, decimal_text, digits_value, is_digit, lemma_decimal_digits};
use crate::png::{has_header, header_dimensions, header_height, header_width, png_dimensions, PngError};
use crate::text::{replace_char, replaced, str_views, views};

verus! {

/// A screenshot, ready to be shown or sent.
#[derive(Clone, Debug)]
pub struct ScreenshotCapture {
    pub mime_type: String,
    pub data_url: String,
    pub source: String,
    pub width: u32,
    pub height: u32,
}

/// What a screenshot says.
pub struct CaptureView {
    pub mime_type: Seq<char>,
    pub data_url: Seq<char>,
    pub source: Seq<char>,
    pub width: u32,
    pub height: u32,
}

impl View for ScreenshotCapture {
    type V = CaptureView;

    open spec fn view(&self) -> CaptureView {
        CaptureView {
            mime_type: self.mime_type@,
            data_url: self.data_url@,
            source: self.source@,
            width: self.width,
            height: self.height,
        }
    }
}

/// The data URL of a PNG file.
pub open spec fn png_url(png: Seq<u8>) -> Seq<char> {
    png_url_of(base64_text(png))
}

/// The data URL of a PNG file that was encoded as base64.
pub open spec fn png_url_of(encoded: Seq<char>) -> Seq<char> {
    "data:image/png;base64,"@ + encoded
}

/// The base64 part of a PNG data URL.
pub open spec fn url_payload(url: Seq<char>) -> Option<Seq<char>> {
    if "data:image/png;base64,"@.is_prefix_of(url) {
        Some(url.skip("data:image/png;base64,"@.len() as int))
    } else {
        None
    }
}

/// Whether the data URL of `capture` holds the PNG file `png`.
pub open spec fn holds_png(capture: CaptureView, png: Seq<u8>) -> bool {
    url_payload(capture.data_url) matches Some(payload) && base64_bytes(payload) matches Ok(
        bytes,
    ) && bytes == png
}

/// Whether the data URL of `capture` holds a PNG file of the size that the
/// capture states.
pub open spec fn states_its_size(capture: CaptureView) -> bool {
    exists|png: Seq<u8>| #[trigger]
        holds_png(capture, png) && header_dimensions(png) == Some((capture.width, capture.height))
}

/// Makes the data URL of a PNG file that was encoded as base64.
pub fn data_url_of(encoded: &str) -> (url: String)
    ensures
        url@ == png_url_of(encoded@),
        url_payload(url@) == Some(encoded@),
{
    let mut url = String::new();
    url.append("data:image/png;base64,");
    url.append(encoded);
    assert(url@ =~= png_url_of(encoded@));
    assert("data:image/png;base64,"@.is_prefix_of(url@));
    assert(url@.skip("data:image/png;base64,"@.len() as int) =~= encoded@);
    url
}

/// Makes the data URL of a PNG file. Decoding its base64 part gives the file
/// back.
pub fn make_png_url(png: &[u8]) -> (url: String)
    ensures
        url@ == png_url(png@),
        url_payload(url@) matches Some(payload) && base64_bytes(payload) matches Ok(bytes)
            && bytes == png@,
{
    let encoded = base64_encode(png);
    data_url_of(encoded.as_str())
}

/// Why a file did not make a screenshot.
#[derive(Clone, Debug, PartialEq, Eq)]
pub enum ScreenshotError {
    /// The file could not be read.
    ReadFailed { path: String, cause: String },
    /// There was nothing in the file.
    EmptyFile { path: String },
    /// What was in the file has no usable PNG header.
    Png(PngError),
}

impl ScreenshotError {
    /// What went wrong, in words.
    pub open spec fn message(self) -> Seq<char> {
        match self {
            ScreenshotError::ReadFailed { path, cause } => "failed to read screenshot file "@
                + path@,
            ScreenshotError::EmptyFile { path } => "screenshot file was empty: "@ + path@,
            ScreenshotError::Png(PngError::NotPng) => "screenshot file was not a valid PNG"@,
            ScreenshotError::Png(PngError::InvalidDimensions { width, height }) =>
                "screenshot PNG had invalid dimensions "@ + decimal(width as nat) + "x"@ + decimal(
                height as nat,
            ),
        }
    }

    /// What was behind it.
    pub open spec fn cause(self) -> Option<Seq<char>> {
        match self {
            ScreenshotError::ReadFailed { path, cause } => Some(cause@),
            _ => None,
        }
    }

    /// Puts the error into words.
    pub fn failure(&self) -> (failure: Failure)
        ensures
            failure.message@ == self.message(),
            crate::text::optional_view(failure.cause) == self.cause(),
    {
        let mut message = String::new();
        let mut reason: Option<String> = None;
        match self {
            ScreenshotError::ReadFailed { path, cause } => {
                message.append("failed to read screenshot file ");
                message.append(path.as_str());
                reason = Some(cause.clone());
            },
            ScreenshotError::EmptyFile { path } => {
                message.append("screenshot file was empty: ");
                message.append(path.as_str());
            },
            ScreenshotError::Png(PngError::NotPng) => {
                message.append("screenshot file was not a valid PNG");
            },
            ScreenshotError::Png(PngError::InvalidDimensions { width, height }) => {
                message.append("screenshot PNG had invalid dimensions ");
                append_decimal(&mut message, *width as u128);
                message.append("x");
                append_decimal(&mut message, *height as u128);
            },
        }
        assert(message@ =~= self.message());
        Failure { message, cause: reason }
    }
}

/// Whether `capture` is what reading the file at `path` for the backend
/// `source` comes to, by what was read: the bytes of the file, or the
/// description of the error.
pub open spec fn reads_as(
    path: Seq<char>,
    contents: Result<Vec<u8>, String>,
    source: Seq<char>,
    capture: Result<ScreenshotCapture, ScreenshotError>,
) -> bool {
    &&& capture is Ok <==> (contents matches Ok(bytes) && header_dimensions(bytes@) is Some)
    &&& capture matches Ok(capture) ==> {
        let bytes = contents->Ok_0@;
        &&& header_dimensions(bytes) == Some((capture.width, capture.height))
        &&& capture@ == (CaptureView {
            mime_type: "image/png"@,
            data_url: png_url(bytes),
            source,
            width: capture.width,
            height: capture.height,
        })
        &&& holds_png(capture@, bytes)
        &&& states_its_size(capture@)
    }
    &&& capture matches Err(error) ==> match contents {
        Err(reason) => error matches ScreenshotError::ReadFailed { path: p, cause } && p@ == path
            && cause@ == reason@,
        Ok(bytes) => if bytes@.len() == 0 {
            error matches ScreenshotError::EmptyFile { path: p } && p@ == path
        } else if !has_header(bytes@) {
            error == ScreenshotError::Png(PngError::NotPng)
        } else {
            error == ScreenshotError::Png(
                PngError::InvalidDimensions {
                    width: header_width(bytes@),
                    height: header_height(bytes@),
                },
            )
        },
    }
}

/// Makes a screenshot of what was read from the file at `path`, or says why
/// there is none. `contents` is what reading the file gave: its bytes, or the
/// description of the error.
pub fn read_png_as_capture_inner(
    path: &str,
    contents: Result<Vec<u8>, String>,
    source: &str,
) -> (capture: Result<ScreenshotCapture, ScreenshotError>)
    ensures
        reads_as(path@, contents, source@, capture),
{
    let bytes = match contents {
        Ok(bytes) => bytes,
        Err(cause) => {
            return Err(ScreenshotError::ReadFailed { path: path.to_owned(), cause });
        },
    };
    if bytes.len() == 0 {
        return Err(ScreenshotError::EmptyFile { path: path.to_owned() });
    }
    let (width, height) = match png_dimensions(&bytes) {
        Ok(size) => size,
        Err(error) => {
            return Err(ScreenshotError::Png(error));
        },
    };
    let capture = ScreenshotCapture {
        mime_type: "image/png".to_owned(),
        data_url: make_png_url(&bytes),
        source: source.to_owned(),
        width,
        height,
    };
    assert(holds_png(capture@, bytes@));
    Ok(capture)
}

/// What becomes of the file that a backend was asked to write to, once the
/// screenshot was read.
#[derive(Clone, Debug, PartialEq, Eq)]
pub enum ScreenshotCleanup {
    DeletePath(String),
    Preserve,
}

/// The file that is deleted after a screenshot was read.
pub open spec fn removed_by(cleanup: ScreenshotCleanup) -> Option<String> {
    match cleanup {
        ScreenshotCleanup::DeletePath(requested) => Some(requested),
        ScreenshotCleanup::Preserve => None,
    }
}

/// Makes a screenshot of what was read from the file at `path`, and returns it
/// with the file to delete. Which file that is does not depend on whether
/// there is a screenshot.
pub fn read_png_as_capture(
    path: &str,
    contents: Result<Vec<u8>, String>,
    source: &str,
    cleanup: ScreenshotCleanup,
) -> (outcome: (Result<ScreenshotCapture, ScreenshotError>, Option<String>))
    ensures
        reads_as(path@, contents, source@, outcome.0),
        outcome.1 == removed_by(cleanup),
{
    let result = read_png_as_capture_inner(path, contents, source);
    let delete = match cleanup {
        ScreenshotCleanup::DeletePath(requested) => Some(requested),
        ScreenshotCleanup::Preserve => None,
    };
    (result, delete)
}

/// How a screenshot command learns where to write.
#[derive(Clone, Copy, Debug)]
pub enum OutputPathArg {
    Append,
    After(&'static str),
}

/// A program that takes screenshots, and how to call it.
#[derive(Clone, Copy, Debug)]
pub struct ScreenshotCommand {
    pub source: &'static str,
    pub program: &'static str,
    pub args: &'static [&'static str],
    pub output_path_arg: OutputPathArg,
}

/// The arguments that make `command` write to `output_path`.
pub open spec fn command_args(command: ScreenshotCommand, output_path: Seq<char>) -> Seq<Seq<char>> {
    str_views(command.args@) + match command.output_path_arg {
        OutputPathArg::Append => seq![output_path],
        OutputPathArg::After(flag) => seq![flag@, output_path],
    }
}

/// Returns the arguments that make `candidate` write to `output_path`.
pub fn screenshot_command_args(candidate: &ScreenshotCommand, output_path: &str) -> (args: Vec<
    String,
>)
    ensures
        views(args@) == command_args(*candidate, output_path@),
{
    let mut args: Vec<String> = Vec::new();
    let mut i: usize = 0;
    while i < candidate.args.len()
        invariant
            i <= candidate.args@.len(),
            views(args@) == str_views(candidate.args@).take(i as int),
        decreases candidate.args@.len() - i,
    {
        let ghost before = args@;
        args.push(candidate.args[i].to_owned());
        assert(views(args@) =~= views(before).push(candidate.args@[i as int]@));
        i += 1;
    }
    let ghost fixed = args@;
    assert(views(fixed) =~= str_views(candidate.args@));
    match candidate.output_path_arg {
        OutputPathArg::Append => {
            args.push(output_path.to_owned());
        },
        OutputPathArg::After(flag) => {
            args.push(flag.to_owned());
            args.push(output_path.to_owned());
        },
    }
    assert(views(args@) =~= command_args(*candidate, output_path@));
    args
}

/// Whether `command` is what is called `source`, runs `program`, and makes it
/// write to any file with the arguments `args`, that file's path, and nothing
/// else.
pub open spec fn calls(
    command: ScreenshotCommand,
    source: Seq<char>,
    program: Seq<char>,
    args: Seq<Seq<char>>,
) -> bool {
    &&& command.source@ == source
    &&& command.program@ == program
    &&& forall|path: Seq<char>| #[trigger] command_args(command, path) == args.push(path)
}

/// Returns the programs that take screenshots, the preferred ones first.
pub fn screenshot_command_candidates() -> (candidates: Vec<ScreenshotCommand>)
    ensures
        candidates@.len() == 4,
        calls(candidates@[0], "grim"@, "grim"@, Seq::empty()),
        calls(candidates@[1], "gnome-screenshot"@, "gnome-screenshot"@, seq!["-f"@]),
        calls(candidates@[2], "spectacle"@, "spectacle"@, seq!["-b"@, "-n"@, "-o"@]),
        calls(candidates@[3], "imagemagick-import"@, "import"@, seq!["-window"@, "root"@]),
{
    let grim = ScreenshotCommand {
        source: "grim",
        program: "grim",
        args: &[],
        output_path_arg: OutputPathArg::Append,
    };
    let gnome_screenshot = ScreenshotCommand {
        source: "gnome-screenshot",
        program: "gnome-screenshot",
        args: &[],
        output_path_arg: OutputPathArg::After("-f"),
    };
    let spectacle = ScreenshotCommand {
        source: "spectacle",
        program: "spectacle",
        args: &["-b", "-n"],
        output_path_arg: OutputPathArg::After("-o"),
    };
    let import = ScreenshotCommand {
        source: "imagemagick-import",
        program: "import",
        args: &["-window", "root"],
        output_path_arg: OutputPathArg::Append,
    };
    proof {
        assert forall|path: Seq<char>| #[trigger] command_args(grim, path) == Seq::<
            Seq<char>,
        >::empty().push(path) by {
            assert(command_args(grim, path) =~= Seq::<Seq<char>>::empty().push(path));
        }
        assert forall|path: Seq<char>| #[trigger] command_args(gnome_screenshot, path) == seq![
            "-f"@,
        ].push(path) by {
            assert(command_args(gnome_screenshot, path) =~= seq!["-f"@].push(path));
        }
        assert forall|path: Seq<char>| #[trigger] command_args(spectacle, path) == seq![
            "-b"@,
            "-n"@,
            "-o"@,
        ].push(path) by {
            assert(command_args(spectacle, path) =~= seq!["-b"@, "-n"@, "-o"@].push(path));
        }
        assert forall|path: Seq<char>| #[trigger] command_args(import, path) == seq![
            "-window"@,
            "root"@,
        ].push(path) by {
            assert(command_args(import, path) =~= seq!["-window"@, "root"@].push(path));
        }
    }
    vec![grim, gnome_screenshot, spectacle, import]
}

/// The file is always the last argument.
pub proof fn law_output_path_comes_last(command: ScreenshotCommand, output_path: Seq<char>)
    ensures
        command_args(command, output_path).len() > 0,
        command_args(command, output_path).last() == output_path,
        str_views(command.args@).is_prefix_of(command_args(command, output_path)),
{
}

/// The nanoseconds since the Unix epoch, zero if the clock stands before it.
pub open spec fn clock(since_epoch: Option<u128>) -> nat {
    match since_epoch {
        Some(nanos) => nanos as nat,
        None => 0,
    }
}

/// A process and a point in time, with `separator` between them.
pub open spec fn stamp(process_id: u32, since_epoch: Option<u128>, separator: char) -> Seq<char> {
    decimal(process_id as nat) + seq![separator] + decimal(clock(since_epoch))
}

/// Names a process and a point in time.
pub fn unique_suffix(process_id: u32, since_epoch: Option<u128>) -> (suffix: String)
    ensures
        suffix@ == stamp(process_id, since_epoch, '-'),
{
    let mut suffix = decimal_text(process_id as u128);
    suffix.push('-');
    append_decimal(&mut suffix, match since_epoch {
        Some(nanos) => nanos,
        None => 0,
    });
    assert(suffix@ =~= stamp(process_id, since_epoch, '-'));
    suffix
}

/// Makes the token of a portal request.
pub fn request_token(process_id: u32, since_epoch: Option<u128>) -> (token: String)
    ensures
        token@ == "codex_"@ + stamp(process_id, since_epoch, '_'),
{
    let suffix = unique_suffix(process_id, since_epoch);
    let mut token = String::new();
    token.append("codex_");
    let safe = replace_char(suffix.as_str(), '-', '_');
    token.append(safe.as_str());
    proof {
        lemma_separator_replaced(process_id, since_epoch);
    }
    assert(token@ =~= "codex_"@ + stamp(process_id, since_epoch, '_'));
    token
}

/// Names the file that a backend is asked to write a screenshot to.
pub fn temp_png_name(source: &str, process_id: u32, since_epoch: Option<u128>) -> (name: String)
    ensures
        name@ == "codex-computer-use-"@ + source@ + "-"@ + stamp(process_id, since_epoch, '-')
            + ".png"@,
{
    let mut name = String::new();
    name.append("codex-computer-use-");
    name.append(source);
    name.append("-");
    name.append(unique_suffix(process_id, since_epoch).as_str());
    name.append(".png");
    assert(name@ =~= "codex-computer-use-"@ + source@ + "-"@ + stamp(process_id, since_epoch, '-')
        + ".png"@);
    name
}

proof fn lemma_separator_replaced(process_id: u32, since_epoch: Option<u128>)
    ensures
        replaced(stamp(process_id, since_epoch, '-'), '-', '_') == stamp(
            process_id,
            since_epoch,
            '_',
        ),
{
    let process = decimal(process_id as nat);
    let time = decimal(clock(since_epoch));
    lemma_decimal_digits(process_id as nat);
    lemma_decimal_digits(clock(since_epoch));
    let before = stamp(process_id, since_epoch, '-');
    let after = stamp(process_id, since_epoch, '_');
    assert forall|i: int| 0 <= i < before.len() implies replaced(before, '-', '_')[i]
        == after[i] by {
        if i < process.len() {
            assert(is_digit(process[i]));
        } else if i > process.len() {
            assert(is_digit(time[i - process.len() - 1]));
        }
    }
    assert(replaced(before, '-', '_') =~= after);
}

/// Whether a portal takes a character in a token.
pub open spec fn portal_safe(ch: char) -> bool {
    'a' <= ch <= 'z' || 'A' <= ch <= 'Z' || '0' <= ch <= '9' || ch == '_'
}

/// A request token holds only letters, digits and underscores.
pub proof fn law_request_token_is_portal_safe(process_id: u32, since_epoch: Option<u128>)
    ensures
        forall|i: int|
            0 <= i < ("codex_"@ + stamp(process_id, since_epoch, '_')).len() ==> portal_safe(
                #[trigger] ("codex_"@ + stamp(process_id, since_epoch, '_'))[i],
            ),
{
    reveal_strlit("codex_");
    lemma_decimal_digits(process_id as nat);
    lemma_decimal_digits(clock(since_epoch));
    let process = decimal(process_id as nat);
    let time = decimal(clock(since_epoch));
    let token = "codex_"@ + stamp(process_id, since_epoch, '_');
    assert forall|i: int| 0 <= i < token.len() implies portal_safe(#[trigger] token[i]) by {
        if 6 <= i < 6 + process.len() {
            assert(is_digit(process[i - 6]));
        } else if i > 6 + process.len() {
            assert(is_digit(time[i - 7 - process.len()]));
        }
    }
}

/// Two suffixes are the same only if they name the same process and the same
/// time, whichever separator they use, as long as it is no digit.
pub proof fn law_suffix_is_unique(
    left: u32,
    left_time: Option<u128>,
    right: u32,
    right_time: Option<u128>,
    separator: char,
)
    requires
        !is_digit(separator),
        stamp(left, left_time, separator) == stamp(right, right_time, separator),
    ensures
        left == right,
        clock(left_time) == clock(right_time),
{
    let a = decimal(left as nat);
    let b = decimal(right as nat);
    let x = decimal(clock(left_time));
    let y = decimal(clock(right_time));
    lemma_decimal_digits(left as nat);
    lemma_decimal_digits(right as nat);
    lemma_decimal_digits(clock(left_time));
    lemma_decimal_digits(clock(right_time));
    let whole = stamp(left, left_time, separator);
    if a.len() < b.len() {
        assert(whole[a.len() as int] == separator);
        assert(is_digit(b[a.len() as int]));
    } else if b.len() < a.len() {
        assert(stamp(right, right_time, separator)[b.len() as int] == separator);
        assert(is_digit(a[b.len() as int]));
    }
    assert(a =~= whole.subrange(0, a.len() as int));
    assert(b =~= stamp(right, right_time, separator).subrange(0, b.len() as int));
    assert(x =~= whole.subrange(a.len() as int + 1, whole.len() as int));
    assert(y =~= stamp(right, right_time, separator).subrange(b.len() as int + 1, whole.len() as int));
    assert(digits_value(a) == left);
}

/// A data URL is the mark of a PNG file and what follows it.
pub proof fn law_data_url_payload(encoded: Seq<char>, url: Seq<char>)
    ensures
        png_url_of(encoded) == "data:image/png;base64,"@ + encoded,
        url_payload("data:image/png;base64,"@ + encoded) == Some(encoded),
        url_payload(url) matches Some(payload) ==> url == "data:image/png;base64,"@ + payload,
        (forall|rest: Seq<char>| url != #[trigger] ("data:image/png;base64,"@ + rest))
            ==> url_payload(url) is None,
{
    let mark = "data:image/png;base64,"@;
    let whole = mark + encoded;
    assert(mark.is_prefix_of(whole));
    assert(whole.skip(mark.len() as int) =~= encoded);
    if let Some(payload) = url_payload(url) {
        assert(url =~= mark + payload);
    }
}

/// A file makes a screenshot exactly if it was read and begins as a PNG file
/// of some size; the screenshot states that size and holds the file. Else the
/// error says whether the file was not read, was empty, was no PNG file or had
/// no size.
pub proof fn law_what_a_file_makes(
    path: Seq<char>,
    bytes: Vec<u8>,
    cause: String,
    source: Seq<char>,
    read: Result<ScreenshotCapture, ScreenshotError>,
    unread: Result<ScreenshotCapture, ScreenshotError>,
)
    requires
        reads_as(path, Ok(bytes), source, read),
        reads_as(path, Err(cause), source, unread),
    ensures
        unread matches Err(ScreenshotError::ReadFailed { path: p, cause: c }) && p@ == path && c@
            == cause@,
        read is Ok <==> header_dimensions(bytes@) is Some,
        read matches Ok(capture) ==> {
            &&& header_dimensions(bytes@) == Some((capture.width, capture.height))
            &&& capture.mime_type@ == "image/png"@
            &&& capture.source@ == source
            &&& capture.data_url@ == "data:image/png;base64,"@ + base64_text(bytes@)
            &&& url_payload(capture.data_url@) matches Some(payload) && base64_bytes(payload) == Ok::<
                Seq<u8>,
                Seq<char>,
            >(bytes@)
        },
        read matches Err(error) ==> {
            &&& !(error is ReadFailed)
            &&& error matches ScreenshotError::EmptyFile { path: p } ==> p@ == path
            &&& error is EmptyFile <==> bytes@.len() == 0
            &&& error == ScreenshotError::Png(PngError::NotPng) <==> bytes@.len() > 0
                && !has_header(bytes@)
            &&& error matches ScreenshotError::Png(PngError::InvalidDimensions { width, height })
                ==> width == header_width(bytes@) && height == header_height(bytes@) && (width == 0
                || height == 0)
        },
{
}

/// Which file is deleted in the end: the one that was asked for, or none.
pub proof fn law_what_is_deleted(requested: String)
    ensures
        removed_by(ScreenshotCleanup::DeletePath(requested)) == Some(requested),
        removed_by(ScreenshotCleanup::Preserve) is None,
{
}

/// The arguments of a command are its own, then its flag for the file if it
/// has one, then the file.
pub proof fn law_arguments_in_order(command: ScreenshotCommand, output_path: Seq<char>)
    ensures
        forall|i: int|
            0 <= i < command.args@.len() ==> #[trigger] command_args(command, output_path)[i]
                == command.args@[i]@,
        command.output_path_arg is Append ==> command_args(command, output_path).len()
            == command.args@.len() + 1,
        command.output_path_arg matches OutputPathArg::After(flag) ==> {
            &&& command_args(command, output_path).len() == command.args@.len() + 2
            &&& command_args(command, output_path)[command.args@.len() as int] == flag@
        },
        command_args(command, output_path).last() == output_path,
{
}

/// A stamp is the process and the time in decimal, with the separator between
/// them; a clock before the epoch counts as zero.
pub proof fn law_stamp(process_id: u32, nanos: u128, separator: char)
    ensures
        stamp(process_id, Some(nanos), separator) == decimal(process_id as nat) + seq![separator]
            + decimal(nanos as nat),
        stamp(process_id, None, separator) == decimal(process_id as nat) + seq![separator]
            + decimal(0),
{
}

/// What is said of a command: its name, its program, and its arguments for
/// every file.
pub proof fn law_how_a_command_is_called(
    command: ScreenshotCommand,
    source: Seq<char>,
    program: Seq<char>,
    args: Seq<Seq<char>>,
    path: Seq<char>,
)
    requires
        calls(command, source, program, args),
    ensures
        command.source@ == source,
        command.program@ == program,
        command_args(command, path) == args.push(path),
{
}

/// A screenshot that states its size holds a PNG file, and the header of the
/// file gives that size.
pub proof fn law_stated_size_is_that_of_the_file(capture: CaptureView)
    requires
        states_its_size(capture),
    ensures
        ({
            let payload = capture.data_url.skip("data:image/png;base64,"@.len() as int);
            &&& capture.data_url == "data:image/png;base64,"@ + payload
            &&& base64_bytes(payload) matches Ok(png) && header_dimensions(png) == Some(
                (capture.width, capture.height),
            )
        }),
{
    let payload = capture.data_url.skip("data:image/png;base64,"@.len() as int);
    assert(capture.data_url =~= "data:image/png;base64,"@ + payload);
}

/// What each error says.
pub proof fn law_what_a_screenshot_error_says(error: ScreenshotError)
    ensures
        match error {
            ScreenshotError::ReadFailed { path, cause } => error.message()
                == "failed to read screenshot file "@ + path@ && error.cause() == Some(cause@),
            ScreenshotError::EmptyFile { path } => error.message() == "screenshot file was empty: "@
                + path@ && error.cause() is None,
            ScreenshotError::Png(PngError::NotPng) => error.message()
                == "screenshot file was not a valid PNG"@ && error.cause() is None,
            ScreenshotError::Png(PngError::InvalidDimensions { width, height }) => error.message()
                == "screenshot PNG had invalid dimensions "@ + decimal(width as nat) + "x"@
                + decimal(height as nat) && error.cause() is None,
        },
{
}

/// The view of a screenshot is that of its fields.
pub proof fn law_view_of_a_screenshot(capture: ScreenshotCapture)
    ensures
        capture@.mime_type == capture.mime_type@,
        capture@.data_url == capture.data_url@,
        capture@.source == capture.source@,
        capture@.width == capture.width,
        capture@.height == capture.height,
{
}

} // verus!
