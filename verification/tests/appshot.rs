use appshots::accessibility::{
    appshot_accessibility_text, first_non_empty, node_line, normalize_field, push_capped_line,
    AccessibilityBounds, AccessibilityNode, AccessibilityText, AccessibilityValue,
    MAX_AX_TEXT_CHARS,
};
use appshots::appshot::{
    accessibility_selector, capture_appshot, crop_capture_to_bounds, crop_capture_to_window,
    crop_rect, decode_png_data_url, finish_crop, snapshot_request, truncate_filter, CropError,
    FocusedOutcome,
};
use appshots::codec::CropFailure;
use appshots::png::png_dimensions;
use appshots::screenshot::{make_png_url, ScreenshotCapture};
use appshots::windows::{WindowBounds, WindowInfo};
use std::io::Cursor;

const GNOME_SHELL_INTROSPECT_BACKEND: &str = "gnome-shell-introspect";

fn window() -> WindowInfo {
    WindowInfo {
        window_id: 42,
        title: Some("Codex Desktop".to_string()),
        app_id: Some("codex-desktop".to_string()),
        wm_class: Some("codex-desktop".to_string()),
        pid: Some(1234),
        bounds: Some(WindowBounds {
            x: Some(10),
            y: Some(20),
            width: 800,
            height: 600,
        }),
        workspace: None,
        focused: true,
        hidden: false,
        client_type: Some("wayland".to_string()),
        backend: GNOME_SHELL_INTROSPECT_BACKEND.to_string(),
        terminal: None,
    }
}

fn capture(data_url: &str, width: u32, height: u32) -> ScreenshotCapture {
    ScreenshotCapture {
        mime_type: "image/png".to_string(),
        data_url: data_url.to_string(),
        source: "xdg-desktop-portal".to_string(),
        width,
        height,
    }
}

/// A PNG file in which every pixel tells where it stands.
fn gradient(width: u32, height: u32) -> Vec<u8> {
    let image = image::RgbaImage::from_fn(width, height, |x, y| {
        image::Rgba([x as u8, y as u8, 7, 255])
    });
    let mut bytes = Cursor::new(Vec::new());
    image::DynamicImage::ImageRgba8(image)
        .write_to(&mut bytes, image::ImageFormat::Png)
        .unwrap();
    bytes.into_inner()
}

fn bounds(x: Option<i32>, y: Option<i32>, width: u32, height: u32) -> WindowBounds {
    WindowBounds { x, y, width, height }
}

fn node(depth: u32, role: &str) -> AccessibilityNode {
    AccessibilityNode {
        depth,
        role: role.to_string(),
        name: None,
        description: None,
        text: None,
        value: None,
        bounds: None,
        states: vec![],
    }
}

#[test]
fn accessibility_selector_prefers_explicit_pid() {
    let selector = accessibility_selector(Some("pid:999"), Some(&window()));

    assert_eq!(selector.app_filter, Some("codex-desktop".to_string()));
    assert_eq!(selector.target_pid, Some(999));
}

#[test]
fn accessibility_text_includes_renderer_window_title_hint() {
    let text = appshot_accessibility_text(Some(&window()), &[], None);

    assert!(text.contains("Application: codex-desktop"));
    assert!(text.contains("Window: \"Codex Desktop\", App: codex-desktop"));
    assert!(text.contains("No accessible UI elements were captured."));
}

#[test]
fn crop_rect_clamps_window_bounds_to_screenshot() {
    let rect = crop_rect(
        100,
        80,
        &WindowBounds {
            x: Some(10),
            y: Some(20),
            width: 200,
            height: 200,
        },
    );

    assert_eq!(rect, Some((10, 20, 90, 60)));
    assert_eq!(
        crop_rect(
            100,
            80,
            &WindowBounds {
                x: Some(200),
                y: Some(0),
                width: 10,
                height: 10,
            },
        ),
        None
    );
}

#[test]
fn crop_capture_to_window_requires_bounds() {
    let mut window = window();
    window.bounds = None;
    let capture = ScreenshotCapture {
        mime_type: "image/png".to_string(),
        data_url: "data:image/png;base64,".to_string(),
        source: "xdg-desktop-portal".to_string(),
        width: 100,
        height: 100,
    };

    let error = crop_capture_to_window(capture, &window).unwrap_err();

    assert!(error
        .failure()
        .message
        .contains("focused window bounds unavailable"));
}

#[test]
fn crop_capture_to_window_rejects_non_intersecting_bounds() {
    let mut window = window();
    window.bounds = Some(WindowBounds {
        x: Some(200),
        y: Some(200),
        width: 20,
        height: 20,
    });
    let capture = ScreenshotCapture {
        mime_type: "image/png".to_string(),
        data_url: "data:image/png;base64,".to_string(),
        source: "xdg-desktop-portal".to_string(),
        width: 100,
        height: 100,
    };

    let error = crop_capture_to_window(capture, &window).unwrap_err();

    assert!(error.failure().message.contains("did not intersect screenshot"));
}

#[test]
fn crop_rect_at_the_edges() {
    assert_eq!(crop_rect(100, 80, &bounds(None, None, 30, 40)), Some((0, 0, 30, 40)));
    assert_eq!(crop_rect(100, 80, &bounds(Some(-5), Some(-5), 30, 40)), Some((0, 0, 30, 40)));
    assert_eq!(crop_rect(100, 80, &bounds(Some(99), Some(79), 30, 40)), Some((99, 79, 1, 1)));
    assert_eq!(crop_rect(100, 80, &bounds(Some(100), Some(0), 30, 40)), None);
    assert_eq!(crop_rect(100, 80, &bounds(Some(0), Some(80), 30, 40)), None);
    assert_eq!(crop_rect(100, 80, &bounds(Some(0), Some(0), 0, 40)), None);
    assert_eq!(crop_rect(100, 80, &bounds(Some(0), Some(0), 30, 0)), None);
    assert_eq!(
        crop_rect(u32::MAX, u32::MAX, &bounds(Some(i32::MAX), Some(i32::MIN), u32::MAX, u32::MAX)),
        Some((2147483647, 0, 2147483648, u32::MAX))
    );
}

#[test]
fn a_window_beyond_the_left_or_top_edge_is_not_cropped() {
    assert_eq!(crop_rect(100, 80, &bounds(Some(-50), Some(0), 50, 40)), None);
    assert_eq!(crop_rect(100, 80, &bounds(Some(-50), Some(0), 51, 40)), Some((0, 0, 51, 40)));
    assert_eq!(crop_rect(100, 80, &bounds(Some(0), Some(-50), 30, 20)), None);
}

#[test]
fn crop_cuts_the_window_out() {
    let png = gradient(40, 30);
    let whole = capture(&make_png_url(&png), 40, 30);

    let cropped = crop_capture_to_bounds(&whole, &bounds(Some(5), Some(6), 10, 100)).unwrap();

    assert_eq!(cropped.mime_type, "image/png");
    assert_eq!(cropped.source, "xdg-desktop-portal:window-crop");
    assert_eq!((cropped.width, cropped.height), (10, 24));
    let bytes = decode_png_data_url(&cropped.data_url).unwrap();
    assert_eq!(png_dimensions(&bytes), Ok((10, 24)));
    let image = image::load_from_memory(&bytes).unwrap().to_rgba8();
    assert_eq!(image.get_pixel(0, 0).0, [5, 6, 7, 255]);
    assert_eq!(image.get_pixel(9, 23).0, [14, 29, 7, 255]);
    for (x, y, pixel) in image.enumerate_pixels() {
        assert_eq!(pixel.0, [x as u8 + 5, y as u8 + 6, 7, 255]);
    }
}

#[test]
fn crop_keeps_the_samples_of_every_kind_of_pixel() {
    let screen = image::load_from_memory(&gradient(40, 30)).unwrap();
    let kinds = [
        image::DynamicImage::ImageLuma8(screen.to_luma8()),
        image::DynamicImage::ImageLumaA8(screen.to_luma_alpha8()),
        image::DynamicImage::ImageRgb8(screen.to_rgb8()),
        image::DynamicImage::ImageRgba8(screen.to_rgba8()),
        image::DynamicImage::ImageLuma16(screen.to_luma16()),
        image::DynamicImage::ImageLumaA16(screen.to_luma_alpha16()),
        image::DynamicImage::ImageRgb16(screen.to_rgb16()),
        image::DynamicImage::ImageRgba16(screen.to_rgba16()),
    ];
    for kind in kinds {
        let mut bytes = Cursor::new(Vec::new());
        kind.write_to(&mut bytes, image::ImageFormat::Png).unwrap();
        let whole = capture(&make_png_url(&bytes.into_inner()), 40, 30);

        let cropped = crop_capture_to_bounds(&whole, &bounds(Some(35), Some(3), 10, 4)).unwrap();

        let part = image::load_from_memory(&decode_png_data_url(&cropped.data_url).unwrap()).unwrap();
        assert_eq!(part.color(), kind.color());
        assert_eq!((part.width(), part.height()), (5, 4));
        assert_eq!(part.as_bytes(), kind.crop_imm(35, 3, 5, 4).as_bytes());
        assert_eq!(part.to_rgba16().get_pixel(2, 1), kind.to_rgba16().get_pixel(37, 4));
    }
}

#[test]
fn crop_takes_in_the_window_and_at_times_more() {
    // Columns 0 to 29 show the window; the rectangle keeps the width of the window.
    assert_eq!(crop_rect(100, 80, &bounds(Some(-50), Some(0), 80, 40)), Some((0, 0, 80, 40)));
    // The window goes on up to the far edge: nothing else is shown.
    assert_eq!(crop_rect(100, 80, &bounds(Some(-50), Some(0), 150, 40)), Some((0, 0, 100, 40)));
}

#[test]
fn crop_that_covers_the_screenshot_keeps_it() {
    let whole = capture("not a data URL", 40, 30);
    let kept = crop_capture_to_bounds(&whole, &bounds(Some(0), Some(0), 40, 30)).unwrap();
    assert_eq!(kept.data_url, "not a data URL");
    assert_eq!(kept.source, "xdg-desktop-portal");
}

#[test]
fn crop_reports_what_is_wrong_with_the_screenshot() {
    let part = bounds(Some(1), Some(1), 2, 2);

    let error = crop_capture_to_bounds(&capture("data:image/jpeg;base64,AA==", 9, 9), &part).unwrap_err();
    assert_eq!(error, CropError::NotPngUrl);
    assert_eq!(error.failure().full(), "screenshot data URL was not a PNG data URL");

    let error = crop_capture_to_bounds(&capture("data:image/png;base64,!", 9, 9), &part).unwrap_err();
    assert!(matches!(error, CropError::Base64(_)));
    let failure = error.failure();
    assert_eq!(failure.message, "failed to decode screenshot data URL");
    assert_eq!(failure.full(), format!("{}: {}", failure.message, failure.cause.unwrap()));

    let error = crop_capture_to_bounds(&capture(&make_png_url(b"no image"), 9, 9), &part).unwrap_err();
    assert!(matches!(error, CropError::DecodePng(_)));
    assert_eq!(error.failure().message, "failed to decode screenshot PNG");

    // The capture claims to be larger than its image: nothing is left to encode.
    let error = crop_capture_to_bounds(
        &capture(&make_png_url(&gradient(4, 4)), 9, 9),
        &bounds(Some(6), Some(6), 2, 2),
    )
    .unwrap_err();
    assert!(matches!(error, CropError::EncodePng(_)));
    assert_eq!(error.failure().message, "failed to encode cropped screenshot PNG");
}

#[test]
fn finish_crop_follows_the_result() {
    let whole = capture("", 9, 9);
    let done = finish_crop(&whole, 3, 4, Ok(b"png".to_vec())).unwrap();
    assert_eq!(done.data_url, "data:image/png;base64,cG5n");
    assert_eq!((done.width, done.height), (3, 4));
    assert_eq!(
        finish_crop(&whole, 3, 4, Err(CropFailure::Decode("d".to_string()))).unwrap_err(),
        CropError::DecodePng("d".to_string())
    );
    assert_eq!(
        finish_crop(&whole, 3, 4, Err(CropFailure::Encode("e".to_string()))).unwrap_err(),
        CropError::EncodePng("e".to_string())
    );
}

#[test]
fn data_urls_decode_to_what_they_were_made_of() {
    for bytes in [&b""[..], b"a", b"ab", b"abc", b"\x00\xff\x80"] {
        assert_eq!(decode_png_data_url(&make_png_url(bytes)).unwrap(), bytes);
    }
    assert_eq!(make_png_url(b"hello"), "data:image/png;base64,aGVsbG8=");
}

#[test]
fn selector_takes_named_apps_and_falls_back_to_the_window() {
    let selector = accessibility_selector(Some("  firefox\t"), Some(&window()));
    assert_eq!(selector.app_filter, Some("firefox".to_string()));
    assert_eq!(selector.target_pid, Some(1234));

    let selector = accessibility_selector(Some("window:7"), Some(&window()));
    assert_eq!(selector.app_filter, Some("codex-desktop".to_string()));

    let selector = accessibility_selector(Some("pid:+7"), None);
    assert_eq!(selector.app_filter, None);
    assert_eq!(selector.target_pid, Some(7));

    let selector = accessibility_selector(Some("pid:4294967296"), Some(&window()));
    assert_eq!(selector.target_pid, Some(1234));

    let selector = accessibility_selector(Some("pid: 7"), None);
    assert_eq!(selector.target_pid, None);

    let mut untitled = window();
    untitled.app_id = Some("  ".to_string());
    untitled.wm_class = None;
    untitled.title = Some(" Title ".to_string());
    let selector = accessibility_selector(Some(" "), Some(&untitled));
    assert_eq!(selector.app_filter, Some("Title".to_string()));
}

#[test]
fn snapshot_is_requested_only_where_there_is_something_to_look_at() {
    assert_eq!(snapshot_request(None, None), None);
    assert_eq!(snapshot_request(Some("pid:x"), None), None);
    let request = snapshot_request(None, Some(&window())).unwrap();
    assert_eq!(request.app_filter, Some("codex-desktop".to_string()));
    assert_eq!(request.target_pid, Some(1234));
    assert_eq!((request.node_limit, request.depth_limit), (220, 12));
}

#[test]
fn filters_are_cut() {
    assert_eq!(truncate_filter(&"x".repeat(256)), "x".repeat(256));
    assert_eq!(truncate_filter(&"é".repeat(257)), format!("{}...", "é".repeat(256)));
}

#[test]
fn appshot_of_a_placed_window() {
    let screen = capture(&make_png_url(&gradient(40, 30)), 40, 30);
    let focused = FocusedOutcome::Focused { window: window(), capture: Ok(screen) };

    let appshot = capture_appshot(focused, Some(Ok(vec![node(1, "button")])));

    assert_eq!(appshot.focused_window.unwrap().window_id, 42);
    assert_eq!(appshot.focused_window_error, None);
    let screenshot = appshot.screenshot.unwrap();
    assert_eq!((screenshot.width, screenshot.height), (30, 10));
    assert_eq!(appshot.screenshot_error, None);
    assert_eq!(appshot.accessibility_nodes.len(), 1);
    assert_eq!(appshot.accessibility_error, None);
    assert_eq!(
        appshot.accessibility_text,
        "Linux AppShot accessibility snapshot\n\
         Application: codex-desktop\n\
         Window: \"Codex Desktop\", App: codex-desktop\n\
         Process ID: 1234\n\
         \nElements:\n  - button\n"
    );
}

#[test]
fn appshot_refuses_a_full_screen_screenshot() {
    let appshot = capture_appshot(FocusedOutcome::NoWindow, None);
    assert!(appshot.screenshot.is_none());
    assert_eq!(
        appshot.screenshot_error.as_deref(),
        Some("focused window unavailable; refusing full-screen AppShot screenshot")
    );
    assert_eq!(
        appshot.accessibility_error.as_deref(),
        Some("no focused window or app filter was available for AT-SPI capture")
    );
    assert_eq!(
        appshot.accessibility_text,
        "Linux AppShot accessibility snapshot\n\
         Accessibility error: no focused window or app filter was available for AT-SPI capture\n\
         No accessible UI elements were captured.\n"
    );

    let appshot = capture_appshot(
        FocusedOutcome::Unavailable { error: "no bus".to_string() },
        Some(Err("no tree".to_string())),
    );
    assert_eq!(appshot.focused_window_error.as_deref(), Some("no bus"));
    assert_eq!(
        appshot.screenshot_error.as_deref(),
        Some("focused window unavailable; refusing full-screen AppShot screenshot: no bus")
    );
    assert_eq!(appshot.accessibility_error.as_deref(), Some("no tree"));

    let appshot = capture_appshot(
        FocusedOutcome::Focused { window: window(), capture: Err("no screen".to_string()) },
        None,
    );
    assert_eq!(appshot.screenshot_error.as_deref(), Some("no screen"));

    let mut unplaced = window();
    unplaced.bounds = None;
    let appshot = capture_appshot(
        FocusedOutcome::Focused { window: unplaced, capture: Ok(capture("", 9, 9)) },
        None,
    );
    assert_eq!(
        appshot.screenshot_error.as_deref(),
        Some("focused window bounds unavailable; refusing full-screen AppShot screenshot")
    );

    let appshot = capture_appshot(
        FocusedOutcome::Focused { window: window(), capture: Ok(capture("", 9, 9)) },
        None,
    );
    assert_eq!(
        appshot.screenshot_error.as_deref(),
        Some("focused window bounds did not intersect screenshot; refusing full-screen AppShot screenshot")
    );
}

#[test]
fn node_line_says_all_that_is_known() {
    let mut full = node(20, "entry");
    full.name = Some("a \"b\"\n c".to_string());
    full.description = Some(" d ".to_string());
    full.text = Some(AccessibilityText { content: Some("t".to_string()) });
    full.value = Some(AccessibilityValue { text: Some("v".to_string()) });
    full.bounds = Some(AccessibilityBounds { x: -1, y: i32::MIN, width: 30, height: 0 });
    full.states = vec!["focused".to_string(), "showing".to_string()];
    assert_eq!(
        node_line(&full),
        format!(
            "{}- entry name=\"a 'b' c\" description=\"d\" text=\"t\" value=\"v\" \
             bounds=30x0+-1+-2147483648 states=focused,showing",
            " ".repeat(24)
        )
    );
    assert_eq!(node_line(&node(0, "frame")), "- frame");
    let mut empty = node(1, "label");
    empty.text = Some(AccessibilityText { content: None });
    empty.value = Some(AccessibilityValue { text: None });
    empty.name = Some("".to_string());
    assert_eq!(node_line(&empty), "  - label name=\"\"");
}

#[test]
fn first_non_empty_skips_blanks() {
    assert_eq!(first_non_empty([None, Some(" \n"), Some(" x "), Some("y")]), Some("x"));
    assert_eq!(first_non_empty([None, Some("")]), None);
    assert_eq!(first_non_empty([]), None);
}

#[test]
fn fields_are_normalized() {
    assert_eq!(normalize_field(" a\t\u{2003}b "), "a b");
    assert_eq!(normalize_field(&"x ".repeat(300)), format!("{}...", "x ".repeat(250)));
    assert_eq!(normalize_field(&"x".repeat(500)), "x".repeat(500));
}

#[test]
fn lines_are_capped_by_bytes() {
    let mut output = "x".repeat(MAX_AX_TEXT_CHARS - 10);
    push_capped_line(&mut output, "123456789");
    assert_eq!(output.len(), MAX_AX_TEXT_CHARS);
    assert!(output.ends_with("x123456789\n"));
    push_capped_line(&mut output, "more");
    assert_eq!(output.len(), MAX_AX_TEXT_CHARS);

    let mut output = "x".repeat(MAX_AX_TEXT_CHARS - 10);
    push_capped_line(&mut output, "1234567890");
    assert!(output.ends_with("x123456......\n"));
    assert_eq!(output.len(), MAX_AX_TEXT_CHARS + 3);

    let mut output = "x".repeat(MAX_AX_TEXT_CHARS - 1);
    push_capped_line(&mut output, "1234567890");
    assert!(output.ends_with("x......\n"));
    assert_eq!(output.len(), MAX_AX_TEXT_CHARS + 6);

    let mut output = "x".repeat(MAX_AX_TEXT_CHARS - 10);
    push_capped_line(&mut output, "ééééé");
    assert!(output.ends_with("xééééé...\n"));
}

#[test]
fn long_snapshots_are_cut() {
    let mut wide = node(3, "entry");
    wide.name = Some("n".repeat(600));
    let mut nodes = Vec::new();
    for _ in 0..200 {
        nodes.push(wide.clone());
    }

    let text = appshot_accessibility_text(Some(&window()), &nodes, Some("partial"));

    assert!(text.chars().count() <= MAX_AX_TEXT_CHARS + 10);
    assert!(text.ends_with("...\n...\n"));
    assert!(text.contains("Accessibility error: partial\n\nElements:\n      - entry name=\"nnn"));
}

#[test]
fn blank_titles_and_errors_are_left_out() {
    let mut blank = window();
    blank.app_id = None;
    blank.wm_class = Some("".to_string());
    blank.title = Some("Say \"hi\"".to_string());
    blank.pid = None;
    assert_eq!(
        appshot_accessibility_text(Some(&blank), &[], Some("  ")),
        "Linux AppShot accessibility snapshot\n\
         Window: \"Say 'hi'\", App: Linux app\n\
         No accessible UI elements were captured.\n"
    );
    blank.title = Some(" ".to_string());
    assert_eq!(
        appshot_accessibility_text(Some(&blank), &[], None),
        "Linux AppShot accessibility snapshot\nNo accessible UI elements were captured.\n"
    );
}

#[test]
fn normalizing_twice_does_no_more() {
    for value in ["", " a \n b ", &"x ".repeat(300), &"xy ".repeat(300), &"x".repeat(501)] {
        let once = normalize_field(value);
        assert_eq!(normalize_field(&once), once);
        assert_eq!(once.trim(), once);
        assert!(!once.contains("  "));
    }
}

#[test]
fn an_element_takes_one_line() {
    let mut broken = node(2, "entry");
    broken.name = Some("a\nb".to_string());
    broken.description = Some("\r\n".to_string());
    broken.text = Some(AccessibilityText { content: Some("c\n\nd".to_string()) });
    broken.value = Some(AccessibilityValue { text: Some("\n1".to_string()) });
    broken.states = vec!["focused".to_string()];
    assert_eq!(
        node_line(&broken),
        "    - entry name=\"a b\" description=\"\" text=\"c d\" value=\"1\" states=focused"
    );
}

#[test]
fn elements_stand_in_order_and_extend_the_text() {
    let mut nodes = Vec::new();
    let mut expected = String::from("Linux AppShot accessibility snapshot\n\nElements:\n");
    let mut before = String::new();
    for depth in 0..20u32 {
        nodes.push(node(depth, &format!("role{depth}")));
        expected.push_str(&format!("{}- role{depth}\n", "  ".repeat(depth.min(12) as usize)));
        let text = appshot_accessibility_text(None, &nodes, None);
        assert_eq!(text, expected);
        assert!(text.starts_with(&before));
        before = text;
    }

    let mut wide = node(0, "entry");
    wide.name = Some("é".repeat(500));
    for _ in 0..80 {
        nodes.push(wide.clone());
        let text = appshot_accessibility_text(None, &nodes, None);
        assert!(text.starts_with(&before));
        before = text;
    }
    assert!(before.ends_with("...\n"));
}
