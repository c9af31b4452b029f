use appshots::png::{png_dimensions, PngError};
use appshots::screenshot::{
    read_png_as_capture, read_png_as_capture_inner, request_token, screenshot_command_args,
    screenshot_command_candidates, temp_png_name, unique_suffix, OutputPathArg, ScreenshotCleanup,
    ScreenshotCommand, ScreenshotError,
};
use appshots::uri::{file_uri_to_path, percent_decode};

fn valid_png(width: u32, height: u32) -> Vec<u8> {
    let mut png = Vec::new();
    png.extend_from_slice(b"\x89PNG\r\n\x1a\n");
    png.extend_from_slice(&13_u32.to_be_bytes());
    png.extend_from_slice(b"IHDR");
    png.extend_from_slice(&width.to_be_bytes());
    png.extend_from_slice(&height.to_be_bytes());
    png.extend_from_slice(&[8, 6, 0, 0, 0]);
    png
}

#[test]
fn builds_cli_screenshot_args() {
    let import = ScreenshotCommand {
        source: "imagemagick-import",
        program: "import",
        args: &["-window", "root"],
        output_path_arg: OutputPathArg::Append,
    };
    assert_eq!(
        screenshot_command_args(&import, "/tmp/shot.png"),
        vec!["-window", "root", "/tmp/shot.png"]
    );

    let spectacle = ScreenshotCommand {
        source: "spectacle",
        program: "spectacle",
        args: &["-b", "-n"],
        output_path_arg: OutputPathArg::After("-o"),
    };
    assert_eq!(
        screenshot_command_args(&spectacle, "/tmp/shot.png"),
        vec!["-b", "-n", "-o", "/tmp/shot.png"]
    );
}

#[test]
fn decodes_file_uri_percent_escapes() {
    assert_eq!(
        file_uri_to_path("file:///tmp/Codex%20Screenshot.png").unwrap(),
        "/tmp/Codex Screenshot.png"
    );
}

#[test]
fn request_token_is_portal_safe() {
    let token = request_token(4242, Some(1_700_000_000_123_456_789));
    assert!(token.starts_with("codex_"));
    assert!(token.chars().all(|c| c.is_ascii_alphanumeric() || c == '_'));
}

#[test]
fn reads_png_dimensions_from_ihdr() {
    let png = valid_png(3840, 1080);

    assert_eq!(png_dimensions(&png).unwrap(), (3840, 1080));
}

#[test]
fn candidates_come_in_order() {
    let mut lines = Vec::new();
    for candidate in screenshot_command_candidates() {
        lines.push(format!(
            "{}: {} {}",
            candidate.source,
            candidate.program,
            screenshot_command_args(&candidate, "out").join(" ")
        ));
    }
    assert_eq!(
        lines,
        vec![
            "grim: grim out",
            "gnome-screenshot: gnome-screenshot -f out",
            "spectacle: spectacle -b -n -o out",
            "imagemagick-import: import -window root out",
        ]
    );
}

#[test]
fn names_files_and_requests() {
    assert_eq!(unique_suffix(12, Some(u128::MAX)), format!("12-{}", u128::MAX));
    assert_eq!(unique_suffix(0, None), "0-0");
    assert_eq!(request_token(12, Some(345)), "codex_12_345");
    assert_eq!(temp_png_name("grim", 12, Some(345)), "codex-computer-use-grim-12-345.png");
    assert_ne!(unique_suffix(1, Some(23)), unique_suffix(12, Some(3)));
}

#[test]
fn rejects_what_is_no_png() {
    assert_eq!(png_dimensions(b""), Err(PngError::NotPng));
    assert_eq!(png_dimensions(&valid_png(1, 1)[..23]), Err(PngError::NotPng));
    assert_eq!(png_dimensions(&valid_png(1, 1)[..24]), Ok((1, 1)));
    let mut signature = valid_png(1, 1);
    signature[7] = 0;
    assert_eq!(png_dimensions(&signature), Err(PngError::NotPng));
    let mut chunk = valid_png(1, 1);
    chunk[15] = b'r';
    assert_eq!(png_dimensions(&chunk), Err(PngError::NotPng));
    assert_eq!(
        png_dimensions(&valid_png(0, 5)),
        Err(PngError::InvalidDimensions { width: 0, height: 5 })
    );
    assert_eq!(png_dimensions(&valid_png(u32::MAX, 0x01020304)), Ok((u32::MAX, 0x01020304)));
}

#[test]
fn makes_captures_of_files() {
    let capture = read_png_as_capture_inner("/tmp/x", Ok(valid_png(3, 2)), "grim").unwrap();
    assert_eq!(capture.mime_type, "image/png");
    assert_eq!(capture.source, "grim");
    assert_eq!((capture.width, capture.height), (3, 2));
    assert_eq!(
        capture.data_url,
        "data:image/png;base64,iVBORw0KGgoAAAANSUhEUgAAAAMAAAACCAYAAAA="
    );
}

#[test]
fn says_why_a_file_is_no_capture() {
    let error = read_png_as_capture_inner("/tmp/x", Err("gone".to_string()), "s").unwrap_err();
    assert_eq!(error.failure().message, "failed to read screenshot file /tmp/x");
    assert_eq!(error.failure().full(), "failed to read screenshot file /tmp/x: gone");

    let error = read_png_as_capture_inner("/tmp/x", Ok(vec![]), "s").unwrap_err();
    assert_eq!(error, ScreenshotError::EmptyFile { path: "/tmp/x".to_string() });
    assert_eq!(error.failure().full(), "screenshot file was empty: /tmp/x");

    let error = read_png_as_capture_inner("/tmp/x", Ok(vec![1]), "s").unwrap_err();
    assert_eq!(error.failure().full(), "screenshot file was not a valid PNG");

    let error = read_png_as_capture_inner("/tmp/x", Ok(valid_png(7, 0)), "s").unwrap_err();
    assert_eq!(error.failure().full(), "screenshot PNG had invalid dimensions 7x0");
}

#[test]
fn deletes_only_what_was_requested() {
    let requested = "/tmp/requested".to_string();
    let delete = || ScreenshotCleanup::DeletePath(requested.clone());

    let (capture, deleted) =
        read_png_as_capture("/tmp/returned", Ok(valid_png(1, 1)), "gnome-shell", delete());
    assert_eq!(capture.unwrap().source, "gnome-shell");
    assert_eq!(deleted, Some(requested.clone()));

    let (capture, deleted) = read_png_as_capture(&requested, Ok(vec![]), "gnome-shell", delete());
    let message = capture.unwrap_err().failure().message;
    assert_eq!(message, "screenshot file was empty: /tmp/requested");
    assert_eq!(deleted, Some(requested.clone()));
}

#[test]
fn keeps_what_the_portal_returned() {
    let portal = |contents: Vec<u8>| {
        read_png_as_capture(
            "/home/me/shot.png",
            Ok(contents),
            "xdg-desktop-portal",
            ScreenshotCleanup::Preserve,
        )
    };
    let (capture, deleted) = portal(valid_png(1, 1));
    assert_eq!(capture.unwrap().source, "xdg-desktop-portal");
    assert_eq!(deleted, None);

    let (capture, deleted) = portal(vec![]);
    assert!(capture.unwrap_err().failure().message.contains("screenshot file was empty"));
    assert_eq!(deleted, None);
}

#[test]
fn decodes_escapes() {
    assert_eq!(percent_decode("a%41%7a%2Fb"), "aAz/b");
    assert_eq!(percent_decode("%C3%A9 é"), "é é");
    assert_eq!(percent_decode("100%"), "100%");
    assert_eq!(percent_decode("%4"), "%4");
    assert_eq!(percent_decode("%zz%"), "%zz%");
    assert_eq!(percent_decode("%%41"), "%A");
    assert_eq!(percent_decode("%+5"), "\u{5}");
    assert_eq!(percent_decode("%-5"), "%-5");
    assert_eq!(percent_decode("%ff"), "\u{fffd}");
    assert_eq!(percent_decode("%é0"), "%é0");
    assert_eq!(percent_decode("/tmp/a b+é€😀"), "/tmp/a b+é€😀");
    for byte in 0..=127u8 {
        assert_eq!(percent_decode(&format!("%{byte:02x}")), (byte as char).to_string());
        assert_eq!(percent_decode(&format!("%{byte:02X}")), (byte as char).to_string());
    }
}

#[test]
fn rejects_other_uris() {
    let error = file_uri_to_path("https://x").unwrap_err();
    assert_eq!(error.uri, "https://x");
    assert_eq!(file_uri_to_path("file://").unwrap(), "");
}
