use appshots::backends::{
    after_gnome_call, capture_screenshot, capture_screenshot_inner,
    capture_screenshot_without_cli_fallback, command_exists, portal_response_matches_path,
    portal_screenshot, run_screenshot_command, wait_for_portal_response, CaptureState,
    CaptureStep, ChildPoll, CliFallback, CliOutcome, GnomeStep, PortalEvent, PortalStep,
    PortalUri, WaitStep,
};
use appshots::failure::Failure;
use appshots::screenshot::{ScreenshotCapture, ScreenshotCleanup};

fn text(value: &str) -> String {
    value.to_string()
}

fn capture(source: &str) -> ScreenshotCapture {
    ScreenshotCapture {
        mime_type: text("image/png"),
        data_url: text(""),
        source: text(source),
        width: 1,
        height: 1,
    }
}

fn failure(message: &str, cause: Option<&str>) -> Failure {
    Failure { message: text(message), cause: cause.map(text) }
}

fn next(state: CaptureState<String>, error: &str) -> CaptureState<String> {
    match capture_screenshot_inner(state, Err(text(error))) {
        CaptureStep::Continue(state) => state,
        other => panic!("{other:?}"),
    }
}

#[test]
fn backends_come_in_turn() {
    let portal = next(capture_screenshot(), "g");
    assert_eq!(
        portal,
        CaptureState::Portal { allow_cli_fallback: true, gnome_error: text("g") }
    );
    let cli = next(portal, "p");
    assert_eq!(
        cli,
        CaptureState::CommandLine { gnome_error: text("g"), portal_error: text("p") }
    );
    match capture_screenshot_inner(cli.clone(), Ok(capture("grim"))) {
        CaptureStep::Done(done) => assert_eq!(done.source, "grim"),
        other => panic!("{other:?}"),
    }
    match capture_screenshot_inner(cli, Err(text("c"))) {
        CaptureStep::Failed(error) => assert_eq!(
            error,
            "GNOME Shell screenshot failed: g; XDG portal screenshot failed: p; \
             CLI screenshot fallback failed: c"
        ),
        other => panic!("{other:?}"),
    }
}

#[test]
fn no_command_line_program_without_fallback() {
    let portal = next(capture_screenshot_without_cli_fallback(), "g");
    match capture_screenshot_inner(portal, Err(text("p"))) {
        CaptureStep::Failed(error) => assert_eq!(
            error,
            "GNOME Shell screenshot failed: g; XDG portal screenshot failed: p; \
             CLI screenshot fallback disabled"
        ),
        other => panic!("{other:?}"),
    }
}

#[test]
fn gnome_requests_are_cleaned_up() {
    match after_gnome_call(text("/tmp/r"), Ok((true, text("/tmp/u")))) {
        GnomeStep::Read(request) => {
            assert_eq!(request.path, "/tmp/u");
            assert_eq!(request.source, "gnome-shell");
            assert_eq!(request.cleanup, ScreenshotCleanup::DeletePath(text("/tmp/r")));
        }
        other => panic!("{other:?}"),
    }
    assert_eq!(
        after_gnome_call(text("/tmp/r"), Ok((false, text("/tmp/u")))),
        GnomeStep::GiveUp {
            delete: text("/tmp/r"),
            failure: failure("GNOME Shell reported screenshot failure", None),
        }
    );
    assert_eq!(
        after_gnome_call(text("/tmp/r"), Err(text("e"))),
        GnomeStep::GiveUp {
            delete: text("/tmp/r"),
            failure: failure("GNOME Shell Screenshot call failed", Some("e")),
        }
    );
}

#[test]
fn portal_messages_are_matched_by_path() {
    assert!(portal_response_matches_path(Some("/a/b"), "/a/b"));
    assert!(!portal_response_matches_path(Some("/a/bc"), "/a/b"));
    assert!(!portal_response_matches_path(None, "/a/b"));
    let from = |path: Option<&str>| PortalEvent::Message { path: path.map(text) };
    assert_eq!(wait_for_portal_response(from(Some("/a")), "/a"), PortalStep::Decode);
    assert_eq!(wait_for_portal_response(from(Some("/b")), "/a"), PortalStep::Ignore);
    assert_eq!(wait_for_portal_response(from(None), "/a"), PortalStep::Ignore);
    assert_eq!(
        wait_for_portal_response(PortalEvent::Ended, "/a"),
        PortalStep::GiveUp(failure("XDG portal screenshot response stream ended", None))
    );
    assert_eq!(
        wait_for_portal_response(PortalEvent::Failed { error: text("e") }, "/a"),
        PortalStep::GiveUp(failure("XDG portal screenshot response stream failed", Some("e")))
    );
}

#[test]
fn portal_responses_name_the_file() {
    let request = portal_screenshot(0, PortalUri::Text(text("file:///tmp/a%20b"))).unwrap();
    assert_eq!(request.path, "/tmp/a b");
    assert_eq!(request.source, "xdg-desktop-portal");
    assert_eq!(request.cleanup, ScreenshotCleanup::Preserve);

    let fails = |code: u32, uri: PortalUri| portal_screenshot(code, uri).unwrap_err().full();
    assert_eq!(
        fails(2, PortalUri::Text(text("file:///tmp/a"))),
        "XDG portal screenshot was denied or cancelled with response code 2"
    );
    assert_eq!(
        fails(0, PortalUri::Missing),
        "XDG portal screenshot response did not include a uri"
    );
    assert_eq!(
        fails(0, PortalUri::NotCloned { error: text("e") }),
        "failed to clone XDG portal screenshot uri: e"
    );
    assert_eq!(
        fails(0, PortalUri::NotText { error: text("e") }),
        "XDG portal screenshot uri was not a string: e"
    );
    assert_eq!(
        fails(0, PortalUri::Text(text("http://x"))),
        "unsupported screenshot uri: http://x"
    );
}

#[test]
fn programs_are_tried_in_turn() {
    let mut fallback = CliFallback::new();
    let mut tried = Vec::new();
    while let Some(command) = fallback.current() {
        tried.push(command.program);
        let outcome = if command.program == "spectacle" {
            CliOutcome::Failed(text("spectacle timed out"))
        } else {
            CliOutcome::NotFound
        };
        assert!(fallback.record(outcome).is_none());
    }
    assert_eq!(tried, vec!["grim", "gnome-screenshot", "spectacle", "import"]);
    assert_eq!(
        fallback.error(),
        "grim not found; gnome-screenshot not found; \
         spectacle failed: spectacle timed out; import not found"
    );
}

#[test]
fn the_first_program_that_works_counts() {
    let mut fallback = CliFallback::new();
    assert!(fallback.record(CliOutcome::NotFound).is_none());
    let taken = fallback.record(CliOutcome::Captured(capture("gnome-screenshot"))).unwrap();
    assert_eq!(taken.source, "gnome-screenshot");
    assert_eq!(fallback.current().unwrap().program, "gnome-screenshot");
}

#[test]
fn programs_are_waited_for() {
    let exited = |success: bool, stderr: &str| ChildPoll::Exited {
        success,
        status: text("exit status: 1"),
        stderr: text(stderr),
    };
    assert_eq!(run_screenshot_command("grim", ChildPoll::Running, 9_999), WaitStep::Sleep(50));
    assert_eq!(
        run_screenshot_command("grim", ChildPoll::Running, 10_000),
        WaitStep::Kill(text("grim timed out"))
    );
    assert_eq!(run_screenshot_command("grim", exited(true, "x"), 20_000), WaitStep::Succeeded);
    assert_eq!(
        run_screenshot_command("grim", exited(false, " \n"), 0),
        WaitStep::Failed(text("grim exited with status exit status: 1"))
    );
    assert_eq!(
        run_screenshot_command("grim", exited(false, " no display\n"), 0),
        WaitStep::Failed(text("grim exited with status exit status: 1: no display"))
    );
}

#[test]
fn programs_are_looked_for() {
    assert!(command_exists(1, false, &[false, true]));
    assert!(!command_exists(1, true, &[false]));
    assert!(!command_exists(0, true, &[]));
    assert!(command_exists(2, true, &[]));
    assert!(!command_exists(2, false, &[true]));
}
