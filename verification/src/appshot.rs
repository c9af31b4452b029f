//! AppShots: the focused window's screenshot and accessibility text.

use vstd::prelude::*;
use vstd::string::*;
use crate::accessibility::{
    appshot_accessibility_text, described_snapshot, filled, first_filled, first_non_empty,
    law_first_filled_value_counts, AccessibilityNode,
};
use crate::codec::{
    base64_bytes, base64_decode, base64_text, clipped, crop_png, cropped_png, cut, decoded_png,
    CropFailure, Raster,
};
use crate::failure::{with_cause, Failure};
use crate::numbers::{
    decimal, lemma_decimal_digits, is_digit, law_decimal_reads_back, parse_unsigned,
    parsed_unsigned,
};
use crate::png::header_dimensions;
use crate::screenshot::{
    holds_png, law_data_url_payload, make_png_url, png_url, states_its_size, url_payload, CaptureView,
    ScreenshotCapture,
};
use crate::text::{
    borrowed, borrowed_view, chars_of, has_prefix, is_white, optional_view, text_of, trim, trimmed,
    trimmed_end, trimmed_start, truncate_chars, truncated,
};
use crate::windows::{window_view, WindowBounds, WindowInfo};

verus! {

/// The longest application filter, in characters.
pub const MAX_APP_FILTER_CHARS: usize = 256;

/// The most elements that an accessibility snapshot takes.
pub const SNAPSHOT_NODE_LIMIT: usize = 220;

/// The deepest elements that an accessibility snapshot takes.
pub const SNAPSHOT_DEPTH_LIMIT: u32 = 12;

/// A coordinate, with the edge of the screen for one that is unknown or lies
/// beyond it.
pub open spec fn on_screen(coordinate: Option<i32>) -> u32 {
    match coordinate {
        Some(coordinate) if coordinate > 0 => coordinate as u32,
        _ => 0,
    }
}

/// Whether a stretch of `size` from `coordinate` on ends before the edge of
/// the screen.
pub open spec fn ends_off_screen(coordinate: Option<i32>, size: u32) -> bool {
    match coordinate {
        Some(coordinate) => coordinate + size <= 0,
        None => size == 0,
    }
}

/// The part of an image that is cut out for a window: its left and top edge,
/// its width and its height. A window that begins left of the image or above it
/// is moved inside and keeps its size, as far as the image has room for it.
pub open spec fn crop_rectangle(
    image_width: u32,
    image_height: u32,
    bounds: WindowBounds,
) -> Option<(u32, u32, u32, u32)> {
    let x = on_screen(bounds.x);
    let y = on_screen(bounds.y);
    if x < image_width && y < image_height && bounds.width > 0 && bounds.height > 0
        && !ends_off_screen(bounds.x, bounds.width) && !ends_off_screen(bounds.y, bounds.height) {
        Some((x, y, clipped(bounds.width, x, image_width), clipped(bounds.height, y, image_height)))
    } else {
        None
    }
}

/// The executable form of [`on_screen`].
fn clamp_coordinate(coordinate: Option<i32>) -> (clamped: u32)
    ensures
        clamped == on_screen(coordinate),
{
    match coordinate {
        Some(coordinate) => if coordinate > 0 {
            coordinate as u32
        } else {
            0
        },
        None => 0,
    }
}

/// The executable form of [`ends_off_screen`].
fn lies_off_screen(coordinate: Option<i32>, size: u32) -> (off: bool)
    ensures
        off == ends_off_screen(coordinate, size),
{
    match coordinate {
        Some(coordinate) => coordinate as i64 + size as i64 <= 0,
        None => size == 0,
    }
}

/// Returns the part of an image that is cut out for a window, or `None` where
/// the window and the image have nothing in common.
pub fn crop_rect(image_width: u32, image_height: u32, bounds: &WindowBounds) -> (rect: Option<
    (u32, u32, u32, u32),
>)
    ensures
        rect == crop_rectangle(image_width, image_height, *bounds),
{
    if lies_off_screen(bounds.x, bounds.width) || lies_off_screen(bounds.y, bounds.height) {
        return None;
    }
    let x: u32 = clamp_coordinate(bounds.x);
    let y: u32 = clamp_coordinate(bounds.y);
    if x >= image_width || y >= image_height {
        return None;
    }
    let right: u32 = image_width - x;
    let below: u32 = image_height - y;
    let width: u32 = if bounds.width <= right { bounds.width } else { right };
    let height: u32 = if bounds.height <= below { bounds.height } else { below };
    if width == 0 || height == 0 {
        return None;
    }
    Some((x, y, width, height))
}

/// What is cut out is not empty, lies inside the image and is no larger than
/// the window.
pub proof fn law_crop_rect_is_inside(image_width: u32, image_height: u32, bounds: WindowBounds)
    ensures
        crop_rectangle(image_width, image_height, bounds) matches Some((x, y, width, height)) ==> {
            &&& 0 < width <= bounds.width && 0 < height <= bounds.height
            &&& x + width <= image_width && y + height <= image_height
        },
{
}

/// Whether a window covers a point of the screen.
pub open spec fn covers(bounds: WindowBounds, px: int, py: int) -> bool {
    let left = match bounds.x {
        Some(x) => x as int,
        None => 0,
    };
    let top = match bounds.y {
        Some(y) => y as int,
        None => 0,
    };
    left <= px < left + bounds.width && top <= py < top + bounds.height
}

/// Something is cut out exactly where the window covers a point of the image.
pub proof fn law_crop_rect_needs_intersection(
    image_width: u32,
    image_height: u32,
    bounds: WindowBounds,
)
    ensures
        crop_rectangle(image_width, image_height, bounds) is Some <==> exists|px: int, py: int|
            0 <= px < image_width && 0 <= py < image_height && #[trigger] covers(bounds, px, py),
{
    if crop_rectangle(image_width, image_height, bounds) is Some {
        assert(covers(bounds, on_screen(bounds.x) as int, on_screen(bounds.y) as int));
    }
}

/// Whether a point of an image lies in a rectangle.
pub open spec fn inside(rect: (u32, u32, u32, u32), px: int, py: int) -> bool {
    rect.0 <= px < rect.0 + rect.2 && rect.1 <= py < rect.1 + rect.3
}

/// Every point of the image that the window covers is cut out.
pub proof fn law_crop_rect_takes_in_the_window(
    image_width: u32,
    image_height: u32,
    bounds: WindowBounds,
    px: int,
    py: int,
)
    requires
        0 <= px < image_width,
        0 <= py < image_height,
        covers(bounds, px, py),
    ensures
        crop_rectangle(image_width, image_height, bounds) matches Some(rect) && inside(rect, px, py),
{
    law_crop_rect_needs_intersection(image_width, image_height, bounds);
}

/// Whether a stretch of `size` from `coordinate` on begins on the screen, or
/// goes on up to the far edge of an image of size `extent`.
pub open spec fn fills_its_room(coordinate: Option<i32>, size: u32, extent: u32) -> bool {
    coordinate matches Some(coordinate) ==> coordinate >= 0 || coordinate + size >= extent
}

/// Nothing but the window is cut out exactly where the window begins inside
/// the image or goes on up to its far edge, in both directions.
pub proof fn law_crop_rect_shows_nothing_else(
    image_width: u32,
    image_height: u32,
    bounds: WindowBounds,
)
    ensures
        crop_rectangle(image_width, image_height, bounds) matches Some(rect) ==> ((forall|
            px: int,
            py: int,
        |
            #[trigger] inside(rect, px, py) ==> covers(bounds, px, py)) <==> fills_its_room(
            bounds.x,
            bounds.width,
            image_width,
        ) && fills_its_room(bounds.y, bounds.height, image_height)),
{
    if let Some(rect) = crop_rectangle(image_width, image_height, bounds) {
        assert(inside(rect, rect.0 + rect.2 - 1, rect.1 + rect.3 - 1));
    }
}

/// Why a screenshot was not cropped to a window.
#[derive(Clone, Debug, PartialEq, Eq)]
pub enum CropError<T> {
    /// It is not known where the window stands.
    BoundsUnavailable,
    /// The window and the screenshot have nothing in common.
    NoIntersection,
    /// The data URL of the screenshot is not one of a PNG file.
    NotPngUrl,
    /// The base64 part of the data URL could not be decoded.
    Base64(T),
    /// The screenshot could not be read as a PNG file.
    DecodePng(T),
    /// What was cut out could not be written as a PNG file.
    EncodePng(T),
}

impl<T> CropError<T> {
    /// What went wrong, in words.
    pub open spec fn message(self) -> Seq<char> {
        match self {
            CropError::BoundsUnavailable =>
                "focused window bounds unavailable; refusing full-screen AppShot screenshot"@,
            CropError::NoIntersection =>
                "focused window bounds did not intersect screenshot; refusing full-screen AppShot screenshot"@,
            CropError::NotPngUrl => "screenshot data URL was not a PNG data URL"@,
            CropError::Base64(_) => "failed to decode screenshot data URL"@,
            CropError::DecodePng(_) => "failed to decode screenshot PNG"@,
            CropError::EncodePng(_) => "failed to encode cropped screenshot PNG"@,
        }
    }

    /// What was behind it.
    pub open spec fn cause(self) -> Option<T> {
        match self {
            CropError::Base64(cause) => Some(cause),
            CropError::DecodePng(cause) => Some(cause),
            CropError::EncodePng(cause) => Some(cause),
            _ => None,
        }
    }
}

/// The view of the reason why a screenshot was not cropped.
pub open spec fn crop_error_view(error: CropError<String>) -> CropError<Seq<char>> {
    match error {
        CropError::BoundsUnavailable => CropError::BoundsUnavailable,
        CropError::NoIntersection => CropError::NoIntersection,
        CropError::NotPngUrl => CropError::NotPngUrl,
        CropError::Base64(cause) => CropError::Base64(cause@),
        CropError::DecodePng(cause) => CropError::DecodePng(cause@),
        CropError::EncodePng(cause) => CropError::EncodePng(cause@),
    }
}

impl CropError<String> {
    /// Puts the error into words.
    pub fn failure(&self) -> (failure: Failure)
        ensures
            failure.message@ == self.message(),
            optional_view(failure.cause) == crop_error_view(*self).cause(),
            failure.full_text() == with_cause(
                crop_error_view(*self).message(),
                crop_error_view(*self).cause(),
            ),
    {
        let message: &str = match self {
            CropError::BoundsUnavailable =>
                "focused window bounds unavailable; refusing full-screen AppShot screenshot",
            CropError::NoIntersection =>
                "focused window bounds did not intersect screenshot; refusing full-screen AppShot screenshot",
            CropError::NotPngUrl => "screenshot data URL was not a PNG data URL",
            CropError::Base64(_) => "failed to decode screenshot data URL",
            CropError::DecodePng(_) => "failed to decode screenshot PNG",
            CropError::EncodePng(_) => "failed to encode cropped screenshot PNG",
        };
        let cause: Option<String> = match self {
            CropError::Base64(cause) => Some(cause.clone()),
            CropError::DecodePng(cause) => Some(cause.clone()),
            CropError::EncodePng(cause) => Some(cause.clone()),
            _ => None,
        };
        Failure { message: message.to_owned(), cause }
    }
}

/// The PNG file that a data URL holds.
pub open spec fn url_png(url: Seq<char>) -> Result<Seq<u8>, CropError<Seq<char>>> {
    match url_payload(url) {
        Some(payload) => match base64_bytes(payload) {
            Ok(png) => Ok(png),
            Err(cause) => Err(CropError::Base64(cause)),
        },
        None => Err(CropError::NotPngUrl),
    }
}

/// Returns the PNG file that a data URL holds.
pub fn decode_png_data_url(data_url: &str) -> (png: Result<Vec<u8>, CropError<String>>)
    ensures
        match png {
            Ok(png) => url_png(data_url@) == Ok::<Seq<u8>, CropError<Seq<char>>>(png@),
            Err(error) => url_png(data_url@) == Err::<Seq<u8>, CropError<Seq<char>>>(
                crop_error_view(error),
            ),
        },
{
    let chars = chars_of(data_url);
    if !has_prefix(&chars, "data:image/png;base64,") {
        return Err(CropError::NotPngUrl);
    }
    proof {
        reveal_strlit("data:image/png;base64,");
    }
    let payload = text_of(&chars, 22, chars.len());
    assert(payload@ =~= data_url@.skip("data:image/png;base64,"@.len() as int));
    match base64_decode(payload.as_str()) {
        Ok(png) => Ok(png),
        Err(cause) => Err(CropError::Base64(cause)),
    }
}

/// The image that a data URL holds.
pub open spec fn url_image(url: Seq<char>) -> Result<Raster, CropError<Seq<char>>> {
    match url_png(url) {
        Ok(png) => match decoded_png(png) {
            Ok(image) => Ok(image),
            Err(cause) => Err(CropError::DecodePng(cause)),
        },
        Err(error) => Err(error),
    }
}

/// The screenshot that a crop of `capture` made.
pub open spec fn cropped_view(
    capture: CaptureView,
    png: Seq<u8>,
    width: u32,
    height: u32,
) -> CaptureView {
    CaptureView {
        mime_type: "image/png"@,
        data_url: png_url(png),
        source: capture.source + ":window-crop"@,
        width,
        height,
    }
}

/// What a crop of `capture` comes to, by what cutting the rectangle out gave.
pub open spec fn crop_outcome(
    capture: CaptureView,
    width: u32,
    height: u32,
    cropped: Result<Seq<u8>, CropFailure<Seq<char>>>,
) -> Result<CaptureView, CropError<Seq<char>>> {
    match cropped {
        Ok(png) => Ok(cropped_view(capture, png, width, height)),
        Err(CropFailure::Decode(cause)) => Err(CropError::DecodePng(cause)),
        Err(CropFailure::Encode(cause)) => Err(CropError::EncodePng(cause)),
    }
}

/// What cropping `capture` to `bounds` comes to.
pub open spec fn cropped_to_bounds(capture: CaptureView, bounds: WindowBounds) -> Result<
    CaptureView,
    CropError<Seq<char>>,
> {
    match crop_rectangle(capture.width, capture.height, bounds) {
        None => Err(CropError::NoIntersection),
        Some((x, y, width, height)) => if x == 0 && y == 0 && width == capture.width && height
            == capture.height {
            Ok(capture)
        } else {
            match url_png(capture.data_url) {
                Err(error) => Err(error),
                Ok(png) => crop_outcome(
                    capture,
                    width,
                    height,
                    cropped_png(png, x, y, width, height),
                ),
            }
        },
    }
}

/// What cropping `capture` to `window` comes to.
pub open spec fn cropped_to_window(capture: CaptureView, window: WindowInfo) -> Result<
    CaptureView,
    CropError<Seq<char>>,
> {
    match window.bounds {
        Some(bounds) => cropped_to_bounds(capture, bounds),
        None => Err(CropError::BoundsUnavailable),
    }
}

/// Whether `result` shows what cropping `capture` to `bounds` ought to show. It
/// is the capture itself where the rectangle takes in all of it. Else the image
/// of `capture` decides: if there is none, the crop fails for the same reason;
/// if the rectangle begins inside the image, the result holds what it cuts
/// out; if it does not, nothing can be written.
pub open spec fn shows_the_crop(
    capture: CaptureView,
    bounds: WindowBounds,
    result: Result<CaptureView, CropError<Seq<char>>>,
) -> bool {
    crop_rectangle(capture.width, capture.height, bounds) matches Some((x, y, width, height)) ==> {
        if x == 0 && y == 0 && width == capture.width && height == capture.height {
            result == Ok::<CaptureView, CropError<Seq<char>>>(capture)
        } else {
            match url_image(capture.data_url) {
                Err(error) => result == Err::<CaptureView, CropError<Seq<char>>>(error),
                Ok(image) => if x < image.width && y < image.height {
                    result matches Ok(shown) && url_image(shown.data_url) == Ok::<
                        Raster,
                        CropError<Seq<char>>,
                    >(cut(image, x, y, width, height))
                } else {
                    result matches Err(CropError::EncodePng(_))
                },
            }
        }
    }
}

/// Where a screenshot states the size of its image, a crop to any window that
/// the image has something in common with works, has the size of the
/// rectangle, and pixel for pixel shows what stands there in the screenshot.
pub proof fn law_crop_shows_the_same_pixels(
    capture: CaptureView,
    bounds: WindowBounds,
    result: Result<CaptureView, CropError<Seq<char>>>,
    image: Raster,
)
    requires
        shows_the_crop(capture, bounds, result),
        url_image(capture.data_url) == Ok::<Raster, CropError<Seq<char>>>(image),
        image.width == capture.width,
        image.height == capture.height,
        crop_rectangle(capture.width, capture.height, bounds) is Some,
    ensures
        result matches Ok(shown) && url_image(shown.data_url) matches Ok(part) && {
            let (x, y, width, height) = crop_rectangle(capture.width, capture.height, bounds)->0;
            &&& part.width == width && part.height == height && part.bits == image.bits
            &&& forall|i: int, j: int|
                0 <= i < width && 0 <= j < height ==> #[trigger] part.pixel(i, j) == image.pixel(
                    x + i,
                    y + j,
                )
        },
{
}

/// The view of what a crop came to.
pub open spec fn crop_result_view(result: Result<ScreenshotCapture, CropError<String>>) -> Result<
    CaptureView,
    CropError<Seq<char>>,
> {
    match result {
        Ok(capture) => Ok(capture@),
        Err(error) => Err(crop_error_view(error)),
    }
}

/// Makes the screenshot that a crop of `capture` comes to. `cropped` is what
/// cutting the rectangle out gave: a PNG file, or the reason why there is none.
pub fn finish_crop(
    capture: &ScreenshotCapture,
    width: u32,
    height: u32,
    cropped: Result<Vec<u8>, CropFailure<String>>,
) -> (result: Result<ScreenshotCapture, CropError<String>>)
    ensures
        crop_result_view(result) == crop_outcome(
            capture@,
            width,
            height,
            crate::codec::crop_view(cropped),
        ),
        result matches Ok(result) ==> holds_png(result@, cropped->Ok_0@),
{
    match cropped {
        Ok(png) => {
            let mut source = capture.source.clone();
            source.append(":window-crop");
            Ok(
                ScreenshotCapture {
                    mime_type: "image/png".to_owned(),
                    data_url: make_png_url(&png),
                    source,
                    width,
                    height,
                },
            )
        },
        Err(CropFailure::Decode(cause)) => Err(CropError::DecodePng(cause)),
        Err(CropFailure::Encode(cause)) => Err(CropError::EncodePng(cause)),
    }
}

/// Crops a screenshot to the part that is cut out for a window. A screenshot
/// that states the size of its PNG file still does so after the crop.
pub fn crop_capture_to_bounds(capture: &ScreenshotCapture, bounds: &WindowBounds) -> (result:
    Result<ScreenshotCapture, CropError<String>>)
    ensures
        crop_result_view(result) == cropped_to_bounds(capture@, *bounds),
        shows_the_crop(capture@, *bounds, crop_result_view(result)),
        states_its_size(capture@) ==> (result matches Ok(cropped) ==> states_its_size(cropped@)),
{
    let (x, y, width, height) = match crop_rect(capture.width, capture.height, bounds) {
        Some(rect) => rect,
        None => {
            return Err(CropError::NoIntersection);
        },
    };
    if x == 0 && y == 0 && width == capture.width && height == capture.height {
        return Ok(
            ScreenshotCapture {
                mime_type: capture.mime_type.clone(),
                data_url: capture.data_url.clone(),
                source: capture.source.clone(),
                width: capture.width,
                height: capture.height,
            },
        );
    }
    let png = match decode_png_data_url(capture.data_url.as_str()) {
        Ok(png) => png,
        Err(error) => {
            return Err(error);
        },
    };
    let cropped = crop_png(&png, x, y, width, height);
    let result = finish_crop(capture, width, height, cropped);
    proof {
        if states_its_size(capture@) && result is Ok {
            let stored = choose|stored: Seq<u8>| #[trigger]
                holds_png(capture@, stored) && header_dimensions(stored) == Some(
                    (capture.width, capture.height),
                );
            assert(stored == png@);
            law_crop_rect_is_inside(capture.width, capture.height, *bounds);
            assert(holds_png(result->Ok_0@, cropped->Ok_0@));
        }
    }
    result
}

/// Crops a screenshot to the part that is cut out for the focused window, and
/// refuses to show all of it where it is not known where the window stands.
pub fn crop_capture_to_window(capture: ScreenshotCapture, focused_window: &WindowInfo) -> (result:
    Result<ScreenshotCapture, CropError<String>>)
    ensures
        crop_result_view(result) == cropped_to_window(capture@, *focused_window),
        focused_window.bounds matches Some(bounds) ==> shows_the_crop(
            capture@,
            bounds,
            crop_result_view(result),
        ),
        states_its_size(capture@) ==> (result matches Ok(cropped) ==> states_its_size(cropped@)),
{
    match &focused_window.bounds {
        Some(bounds) => crop_capture_to_bounds(&capture, bounds),
        None => Err(CropError::BoundsUnavailable),
    }
}

/// Cuts an application filter to [`MAX_APP_FILTER_CHARS`].
pub fn truncate_filter(value: &str) -> (filter: String)
    ensures
        filter@ == truncated(value@, MAX_APP_FILTER_CHARS as nat),
{
    truncate_chars(value, MAX_APP_FILTER_CHARS)
}

/// Which part of the accessibility tree to look at.
#[derive(Clone, Debug, PartialEq, Eq)]
pub struct AccessibilitySelector {
    pub app_filter: Option<String>,
    pub target_pid: Option<u32>,
}

/// The filter that the caller asked for, unless it is blank.
pub open spec fn explicit_filter(app_filter: Option<Seq<char>>) -> Option<Seq<char>> {
    match app_filter {
        Some(value) if trimmed(value).len() > 0 => Some(
            truncated(trimmed(value), MAX_APP_FILTER_CHARS as nat),
        ),
        _ => None,
    }
}

/// The process that a filter of the form `pid:<number>` names.
pub open spec fn filter_pid(filter: Option<Seq<char>>) -> Option<nat> {
    match filter {
        Some(filter) if "pid:"@.is_prefix_of(filter) => parsed_unsigned(
            filter.skip("pid:"@.len() as int),
            u32::MAX as nat,
        ),
        _ => None,
    }
}

/// Whether a filter names an application, not a process or a window.
pub open spec fn names_app(filter: Seq<char>) -> bool {
    !"pid:"@.is_prefix_of(filter) && !"window:"@.is_prefix_of(filter)
}

/// The filter that a window stands for.
pub open spec fn window_filter(window: Option<WindowInfo>) -> Option<Seq<char>> {
    match window {
        Some(window) => match first_filled(
            seq![
                optional_view(window.app_id),
                optional_view(window.wm_class),
                optional_view(window.title),
            ],
        ) {
            Some(name) => Some(truncated(name, MAX_APP_FILTER_CHARS as nat)),
            None => None,
        },
        None => None,
    }
}

/// The application to look at: the one that the caller named, else the one
/// of the focused window.
pub open spec fn selected_app(
    app_filter: Option<Seq<char>>,
    window: Option<WindowInfo>,
) -> Option<Seq<char>> {
    match explicit_filter(app_filter) {
        Some(filter) if names_app(filter) => Some(filter),
        _ => window_filter(window),
    }
}

/// The process to look at: the one that the caller named, else the one of the
/// focused window.
pub open spec fn selected_pid(app_filter: Option<Seq<char>>, window: Option<WindowInfo>) -> Option<
    u32,
> {
    match filter_pid(explicit_filter(app_filter)) {
        Some(pid) => Some(pid as u32),
        None => match window {
            Some(window) => window.pid,
            None => None,
        },
    }
}

/// Chooses which part of the accessibility tree to look at.
pub fn accessibility_selector(
    app_filter: Option<&str>,
    focused_window: Option<&WindowInfo>,
) -> (selector: AccessibilitySelector)
    ensures
        optional_view(selector.app_filter) == selected_app(
            borrowed_view(app_filter),
            window_view(focused_window),
        ),
        selector.target_pid == selected_pid(borrowed_view(app_filter), window_view(focused_window)),
{
    let mut named_app: Option<String> = None;
    let mut named_pid: Option<u32> = None;
    if let Some(value) = app_filter {
        let inner = trim(value);
        if !inner.is_empty() {
            let filter = truncate_filter(inner);
            let chars = chars_of(filter.as_str());
            if has_prefix(&chars, "pid:") {
                proof {
                    reveal_strlit("pid:");
                }
                let number = chars_of(text_of(&chars, 4, chars.len()).as_str());
                assert(number@ =~= filter@.skip("pid:"@.len() as int));
                named_pid = parse_unsigned(&number, u32::MAX);
            } else if !has_prefix(&chars, "window:") {
                named_app = Some(filter);
            }
        }
    }
    if named_app.is_none() {
        if let Some(window) = focused_window {
            let names = [
                borrowed(&window.app_id),
                borrowed(&window.wm_class),
                borrowed(&window.title),
            ];
            assert(names@.map_values(|value: Option<&str>| borrowed_view(value)) =~= seq![
                optional_view(window.app_id),
                optional_view(window.wm_class),
                optional_view(window.title),
            ]);
            if let Some(name) = first_non_empty(names) {
                named_app = Some(truncate_filter(name));
            }
        }
    }
    if named_pid.is_none() {
        if let Some(window) = focused_window {
            named_pid = window.pid;
        }
    }
    AccessibilitySelector { app_filter: named_app, target_pid: named_pid }
}

/// An accessibility snapshot to take.
#[derive(Clone, Debug, PartialEq, Eq)]
pub struct SnapshotRequest {
    pub app_filter: Option<String>,
    pub target_pid: Option<u32>,
    pub node_limit: usize,
    pub depth_limit: u32,
}

/// Returns the accessibility snapshot to take, or `None` where neither an
/// application nor a process to look at is known.
pub fn snapshot_request(app_filter: Option<&str>, focused_window: Option<&WindowInfo>) -> (request:
    Option<SnapshotRequest>)
    ensures
        request is None <==> selected_app(borrowed_view(app_filter), window_view(focused_window)) is None
            && selected_pid(borrowed_view(app_filter), window_view(focused_window)) is None,
        request matches Some(request) ==> {
            &&& optional_view(request.app_filter) == selected_app(
                borrowed_view(app_filter),
                window_view(focused_window),
            )
            &&& request.target_pid == selected_pid(borrowed_view(app_filter), window_view(focused_window))
            &&& request.node_limit == SNAPSHOT_NODE_LIMIT
            &&& request.depth_limit == SNAPSHOT_DEPTH_LIMIT
        },
{
    let selector = accessibility_selector(app_filter, focused_window);
    if selector.app_filter.is_none() && selector.target_pid.is_none() {
        return None;
    }
    Some(
        SnapshotRequest {
            app_filter: selector.app_filter,
            target_pid: selector.target_pid,
            node_limit: SNAPSHOT_NODE_LIMIT,
            depth_limit: SNAPSHOT_DEPTH_LIMIT,
        },
    )
}

/// What looking for the focused window and capturing the screen came to.
#[derive(Debug)]
pub enum FocusedOutcome {
    /// A window has the focus. The screen was captured, or the description of
    /// the error says why not.
    Focused { window: WindowInfo, capture: Result<ScreenshotCapture, String> },
    /// No window has the focus.
    NoWindow,
    /// The focused window could not be found out.
    Unavailable { error: String },
}

/// An AppShot: the focused window, its screenshot and its accessibility text,
/// each with the error that stands in for it where it is missing.
#[derive(Clone, Debug)]
pub struct AppshotCapture {
    pub focused_window: Option<WindowInfo>,
    pub focused_window_error: Option<String>,
    pub screenshot: Option<ScreenshotCapture>,
    pub screenshot_error: Option<String>,
    pub accessibility_nodes: Vec<AccessibilityNode>,
    pub accessibility_error: Option<String>,
    pub accessibility_text: String,
}

/// The focused window, if there is one.
pub open spec fn outcome_window(focused: FocusedOutcome) -> Option<WindowInfo> {
    match focused {
        FocusedOutcome::Focused { window, capture } => Some(window),
        _ => None,
    }
}

/// The screenshot of an AppShot, or the error that stands in for it.
pub open spec fn outcome_screenshot(focused: FocusedOutcome) -> Result<CaptureView, Seq<char>> {
    match focused {
        FocusedOutcome::Focused { window, capture } => match capture {
            Ok(capture) => match cropped_to_window(capture@, window) {
                Ok(cropped) => Ok(cropped),
                Err(error) => Err(with_cause(error.message(), error.cause())),
            },
            Err(error) => Err(error@),
        },
        FocusedOutcome::NoWindow => Err(
            "focused window unavailable; refusing full-screen AppShot screenshot"@,
        ),
        FocusedOutcome::Unavailable { error } => Err(
            with_cause(
                "focused window unavailable; refusing full-screen AppShot screenshot"@,
                Some(error@),
            ),
        ),
    }
}

/// The error that stands in for an accessibility snapshot.
pub open spec fn outcome_snapshot_error(
    snapshot: Option<Result<Vec<AccessibilityNode>, String>>,
) -> Option<Seq<char>> {
    match snapshot {
        Some(Ok(_)) => None,
        Some(Err(error)) => Some(error@),
        None => Some("no focused window or app filter was available for AT-SPI capture"@),
    }
}

/// The elements of an accessibility snapshot, none where it failed.
pub open spec fn outcome_nodes(
    snapshot: Option<Result<Vec<AccessibilityNode>, String>>,
) -> Seq<AccessibilityNode> {
    match snapshot {
        Some(Ok(nodes)) => nodes@,
        _ => Seq::empty(),
    }
}

/// Puts an AppShot together. `snapshot` is what taking the accessibility
/// snapshot came to, `None` where there was nothing to look at. The screenshot
/// shows the pixels that are cut out for the window.
pub fn capture_appshot(
    focused: FocusedOutcome,
    snapshot: Option<Result<Vec<AccessibilityNode>, String>>,
) -> (appshot: AppshotCapture)
    ensures
        appshot.focused_window == outcome_window(focused),
        optional_view(appshot.focused_window_error) == match focused {
            FocusedOutcome::Unavailable { error } => Some(error@),
            _ => None,
        },
        match outcome_screenshot(focused) {
            Ok(expected) => appshot.screenshot matches Some(capture) && capture@ == expected
                && appshot.screenshot_error is None,
            Err(expected) => appshot.screenshot is None && optional_view(appshot.screenshot_error)
                == Some(expected),
        },
        appshot.accessibility_nodes@ == outcome_nodes(snapshot),
        optional_view(appshot.accessibility_error) == outcome_snapshot_error(snapshot),
        appshot.accessibility_text@ == described_snapshot(
            outcome_window(focused),
            outcome_nodes(snapshot),
            outcome_snapshot_error(snapshot),
        ),
        (focused matches FocusedOutcome::Focused { window, capture: Ok(capture) }
            && states_its_size(capture@)) ==> (appshot.screenshot matches Some(shown)
            ==> states_its_size(shown@)),
        focused matches FocusedOutcome::Focused { window, capture: Ok(capture) } ==> (
        window.bounds matches Some(bounds) ==> {
            let crop = cropped_to_bounds(capture@, bounds);
            &&& shows_the_crop(capture@, bounds, crop)
            &&& crop is Ok <==> appshot.screenshot is Some
            &&& crop is Ok <==> appshot.screenshot_error is None
            &&& appshot.screenshot matches Some(shown) ==> shows_the_crop(
                capture@,
                bounds,
                Ok(shown@),
            )
        }),
{
    let mut focused_window: Option<WindowInfo> = None;
    let mut focused_window_error: Option<String> = None;
    let mut screenshot: Option<ScreenshotCapture> = None;
    let mut screenshot_error: Option<String> = None;
    match focused {
        FocusedOutcome::Focused { window, capture } => {
            match capture {
                Ok(capture) => match crop_capture_to_window(capture, &window) {
                    Ok(cropped) => {
                        screenshot = Some(cropped);
                    },
                    Err(error) => {
                        screenshot_error = Some(error.failure().full());
                    },
                },
                Err(error) => {
                    screenshot_error = Some(error);
                },
            }
            focused_window = Some(window);
        },
        FocusedOutcome::NoWindow => {
            screenshot_error = Some(
                "focused window unavailable; refusing full-screen AppShot screenshot".to_owned(),
            );
        },
        FocusedOutcome::Unavailable { error } => {
            let refusal = Failure {
                message:
                    "focused window unavailable; refusing full-screen AppShot screenshot".to_owned(),
                cause: Some(error.clone()),
            };
            screenshot_error = Some(refusal.full());
            focused_window_error = Some(error);
        },
    }
    let mut accessibility_nodes: Vec<AccessibilityNode> = Vec::new();
    let mut accessibility_error: Option<String> = None;
    match snapshot {
        Some(Ok(nodes)) => {
            accessibility_nodes = nodes;
        },
        Some(Err(error)) => {
            accessibility_error = Some(error);
        },
        None => {
            accessibility_error = Some(
                "no focused window or app filter was available for AT-SPI capture".to_owned(),
            );
        },
    }
    let accessibility_text = appshot_accessibility_text(
        focused_window.as_ref(),
        &accessibility_nodes,
        borrowed(&accessibility_error),
    );
    AppshotCapture {
        focused_window,
        focused_window_error,
        screenshot,
        screenshot_error,
        accessibility_nodes,
        accessibility_error,
        accessibility_text,
    }
}

/// An AppShot has a screenshot only where the focused window is known, it is
/// known where it stands, it covers a point of the screen that was captured,
/// and capturing the screen worked.
pub proof fn law_appshot_refuses_what_it_cannot_place(focused: FocusedOutcome)
    ensures
        outcome_screenshot(focused) is Ok ==> {
            &&& focused matches FocusedOutcome::Focused { window, capture: Ok(capture) }
            &&& window.bounds matches Some(bounds)
            &&& exists|px: int, py: int|
                0 <= px < capture.width && 0 <= py < capture.height && #[trigger] covers(
                    bounds,
                    px,
                    py,
                )
        },
{
    if outcome_screenshot(focused) is Ok {
        if let FocusedOutcome::Focused { window, capture: Ok(capture) } = focused {
            law_crop_rect_needs_intersection(capture.width, capture.height, window.bounds->0);
        }
    }
}

/// The screenshot of an AppShot is never larger than the focused window.
pub proof fn law_appshot_is_no_larger_than_the_window(focused: FocusedOutcome)
    ensures
        outcome_screenshot(focused) matches Ok(shown) ==> {
            &&& outcome_window(focused) matches Some(window)
            &&& window.bounds matches Some(bounds)
            &&& shown.width <= bounds.width && shown.height <= bounds.height
        },
{
    if outcome_screenshot(focused) is Ok {
        if let FocusedOutcome::Focused { window, capture: Ok(capture) } = focused {
            law_crop_rect_is_inside(capture.width, capture.height, window.bounds->0);
        }
    }
}

/// A text whose first and last characters are no white space is its own trim.
proof fn lemma_nothing_to_trim(text: Seq<char>)
    requires
        text.len() > 0,
        !is_white(text[0]),
        !is_white(text.last()),
    ensures
        trimmed(text) == text,
{
    assert(trimmed_start(text) == text);
    assert(trimmed_end(text) == text);
}

/// A filter that names a process selects it, whatever window has the focus,
/// and leaves the choice of the application to the window.
pub proof fn law_explicit_pid_wins(pid: u32, window: Option<WindowInfo>)
    ensures
        selected_pid(Some("pid:"@ + decimal(pid as nat)), window) == Some(pid),
        selected_app(Some("pid:"@ + decimal(pid as nat)), window) == window_filter(window),
{
    reveal_strlit("pid:");
    let number = decimal(pid as nat);
    let filter = "pid:"@ + number;
    lemma_decimal_digits(pid as nat);
    assert(is_digit(number.last()));
    lemma_nothing_to_trim(filter);
    assert(number.len() <= 10) by {
        reveal_with_fuel(decimal, 11);
    }
    assert(filter.skip(4) =~= number);
    assert("pid:"@.is_prefix_of(filter));
    law_decimal_reads_back(pid as nat, u32::MAX as nat);
}

/// Where the rectangle that is cut out begins and how large it is: it begins
/// where the window does, or at the edge if that lies beyond it or is not
/// known, and is as large as the window, as far as the image has room.
pub proof fn law_crop_rect_keeps_place_and_size(
    image_width: u32,
    image_height: u32,
    bounds: WindowBounds,
)
    ensures
        crop_rectangle(image_width, image_height, bounds) matches Some((x, y, width, height)) ==> {
            &&& x == if bounds.x is Some && bounds.x->0 > 0 {
                bounds.x->0 as int
            } else {
                0
            }
            &&& y == if bounds.y is Some && bounds.y->0 > 0 {
                bounds.y->0 as int
            } else {
                0
            }
            &&& x < image_width && y < image_height
            &&& width == if bounds.width <= image_width - x {
                bounds.width as int
            } else {
                image_width - x
            }
            &&& height == if bounds.height <= image_height - y {
                bounds.height as int
            } else {
                image_height - y
            }
        },
{
}

/// The AppShot of a focused window that stands at a known place shows what
/// cropping the captured screen to that place gives, and has a screenshot
/// exactly if that works. Where no window has the focus, its place is not
/// known, the screen was not captured or cropping fails, it says why.
pub proof fn law_appshot_shows_the_cropped_screen(
    window: WindowInfo,
    capture: ScreenshotCapture,
    error: String,
)
    ensures
        ({
            let outcome = outcome_screenshot(
                FocusedOutcome::Focused { window, capture: Ok(capture) },
            );
            match window.bounds {
                Some(bounds) => match cropped_to_bounds(capture@, bounds) {
                    Ok(cropped) => outcome == Ok::<CaptureView, Seq<char>>(cropped),
                    Err(reason) => outcome == Err::<CaptureView, Seq<char>>(
                        reason.message() + match reason.cause() {
                            Some(cause) => ": "@ + cause,
                            None => Seq::empty(),
                        },
                    ),
                },
                None => outcome == Err::<CaptureView, Seq<char>>(
                    "focused window bounds unavailable; refusing full-screen AppShot screenshot"@,
                ),
            }
        }),
        outcome_screenshot(FocusedOutcome::Focused { window, capture: Err(error) }) == Err::<
            CaptureView,
            Seq<char>,
        >(error@),
        outcome_screenshot(FocusedOutcome::NoWindow) == Err::<CaptureView, Seq<char>>(
            "focused window unavailable; refusing full-screen AppShot screenshot"@,
        ),
        outcome_screenshot(FocusedOutcome::Unavailable { error }) == Err::<CaptureView, Seq<char>>(
            "focused window unavailable; refusing full-screen AppShot screenshot"@ + ": "@ + error@,
        ),
{
    let outcome = outcome_screenshot(FocusedOutcome::Focused { window, capture: Ok(capture) });
    if let Some(bounds) = window.bounds {
        if let Err(reason) = cropped_to_bounds(capture@, bounds) {
            assert(with_cause(reason.message(), reason.cause()) =~= reason.message()
                + match reason.cause() {
                Some(cause) => ": "@ + cause,
                None => Seq::empty(),
            });
        }
    }
}

/// A window that takes in all of the captured screen is shown: the AppShot has
/// the capture itself, whatever it holds.
pub proof fn law_appshot_shows_a_full_screen_window(
    window: WindowInfo,
    bounds: WindowBounds,
    capture: ScreenshotCapture,
)
    requires
        window.bounds == Some(bounds),
        capture.width > 0,
        capture.height > 0,
        bounds.x is None || bounds.x == Some(0i32),
        bounds.y is None || bounds.y == Some(0i32),
        bounds.width >= capture.width,
        bounds.height >= capture.height,
    ensures
        cropped_to_bounds(capture@, bounds) == Ok::<CaptureView, CropError<Seq<char>>>(capture@),
        outcome_screenshot(FocusedOutcome::Focused { window, capture: Ok(capture) }) == Ok::<
            CaptureView,
            Seq<char>,
        >(capture@),
{
}

/// Where the captured screen holds an image of the size that it states, the
/// AppShot has a screenshot of every window that covers a point of it, and it
/// shows, pixel for pixel, what stands in the captured screen at the place
/// that is cut out for the window.
pub proof fn law_appshot_shows_every_placed_window(
    window: WindowInfo,
    bounds: WindowBounds,
    capture: ScreenshotCapture,
    image: Raster,
    px: int,
    py: int,
)
    requires
        window.bounds == Some(bounds),
        url_image(capture.data_url@) == Ok::<Raster, CropError<Seq<char>>>(image),
        image.width == capture.width,
        image.height == capture.height,
        0 <= px < capture.width,
        0 <= py < capture.height,
        covers(bounds, px, py),
        shows_the_crop(capture@, bounds, cropped_to_bounds(capture@, bounds)),
    ensures
        outcome_screenshot(
            FocusedOutcome::Focused { window, capture: Ok(capture) },
        ) matches Ok(shown) && url_image(shown.data_url) matches Ok(part) && crop_rectangle(
            capture.width,
            capture.height,
            bounds,
        ) matches Some((x, y, width, height)) && {
            &&& x <= px < x + width && y <= py < y + height
            &&& part.width == width && part.height == height
            &&& forall|i: int, j: int|
                0 <= i < width && 0 <= j < height ==> #[trigger] part.pixel(i, j) == image.pixel(
                    x + i,
                    y + j,
                )
        },
{
    law_crop_rect_takes_in_the_window(capture.width, capture.height, bounds, px, py);
    law_crop_shows_the_same_pixels(
        capture@,
        bounds,
        cropped_to_bounds(capture@, bounds),
        image,
    );
}

/// What a crop comes to, case by case: nothing in common, all of the capture, a
/// capture without a PNG file, or what the PNG crop gives, under the source of
/// the capture with a mark.
pub proof fn law_what_a_crop_comes_to(capture: CaptureView, bounds: WindowBounds)
    ensures
        match crop_rectangle(capture.width, capture.height, bounds) {
            None => cropped_to_bounds(capture, bounds) == Err::<CaptureView, CropError<Seq<char>>>(
                CropError::NoIntersection,
            ),
            Some((x, y, width, height)) => if x == 0 && y == 0 && width == capture.width && height
                == capture.height {
                cropped_to_bounds(capture, bounds) == Ok::<CaptureView, CropError<Seq<char>>>(
                    capture,
                )
            } else if url_png(capture.data_url) is Err {
                cropped_to_bounds(capture, bounds) == Err::<CaptureView, CropError<Seq<char>>>(
                    url_png(capture.data_url)->Err_0,
                )
            } else {
                match cropped_png(url_png(capture.data_url)->Ok_0, x, y, width, height) {
                    Ok(png) => {
                        &&& cropped_to_bounds(capture, bounds) matches Ok(shown)
                        &&& shown.mime_type == "image/png"@
                        &&& shown.data_url == "data:image/png;base64,"@ + base64_text(png)
                        &&& shown.source == capture.source + ":window-crop"@
                        &&& shown.width == width && shown.height == height
                    },
                    Err(CropFailure::Decode(cause)) => cropped_to_bounds(capture, bounds) == Err::<
                        CaptureView,
                        CropError<Seq<char>>,
                    >(CropError::DecodePng(cause)),
                    Err(CropFailure::Encode(cause)) => cropped_to_bounds(capture, bounds) == Err::<
                        CaptureView,
                        CropError<Seq<char>>,
                    >(CropError::EncodePng(cause)),
                }
            },
        },
{
}

/// A window that stands nowhere is not cropped to, any other by its bounds.
pub proof fn law_crop_needs_bounds(capture: CaptureView, window: WindowInfo)
    ensures
        cropped_to_window(capture, window) == match window.bounds {
            Some(bounds) => cropped_to_bounds(capture, bounds),
            None => Err(CropError::BoundsUnavailable),
        },
{
}

/// A data URL holds a PNG file only if it begins as one of a PNG file does, and
/// then what its rest decodes to.
pub proof fn law_data_url_holds_its_file(encoded: Seq<char>, url: Seq<char>)
    ensures
        url_png("data:image/png;base64,"@ + encoded) == match base64_bytes(encoded) {
            Ok(png) => Ok(png),
            Err(cause) => Err(CropError::Base64(cause)),
        },
        (forall|rest: Seq<char>| url != #[trigger] ("data:image/png;base64,"@ + rest)) ==> url_png(
            url,
        ) == Err::<Seq<u8>, CropError<Seq<char>>>(CropError::NotPngUrl),
{
    law_data_url_payload(encoded, url);
}

/// The application to look at: the one that the caller names, if what they
/// give is neither blank nor a process or window; else the one of the focused
/// window, by the first of its application id, its class and its title that is
/// not blank. Names are trimmed and cut to 256 characters.
pub proof fn law_which_application(app_filter: Option<Seq<char>>, window: Option<WindowInfo>)
    ensures
        ({
            let given = trimmed(app_filter->0);
            let filter = truncated(given, 256);
            selected_app(app_filter, window) == if app_filter is Some && given.len() > 0
                && !"pid:"@.is_prefix_of(filter) && !"window:"@.is_prefix_of(filter) {
                Some(filter)
            } else if window is None {
                None
            } else if filled(window->0.app_id) {
                Some(truncated(trimmed(window->0.app_id->0@), 256))
            } else if filled(window->0.wm_class) {
                Some(truncated(trimmed(window->0.wm_class->0@), 256))
            } else if filled(window->0.title) {
                Some(truncated(trimmed(window->0.title->0@), 256))
            } else {
                None
            }
        }),
{
    if let Some(window) = window {
        let names = seq![
            optional_view(window.app_id),
            optional_view(window.wm_class),
            optional_view(window.title),
        ];
        law_first_filled_value_counts(names);
        assert(names[0] == optional_view(window.app_id));
        assert(names[1] == optional_view(window.wm_class));
        assert(names[2] == optional_view(window.title));
    }
}

/// The process to look at: the one that the caller names as `pid:<number>`,
/// else the one of the focused window.
pub proof fn law_which_process(app_filter: Option<Seq<char>>, window: Option<WindowInfo>)
    ensures
        ({
            let given = trimmed(app_filter->0);
            let filter = truncated(given, 256);
            let number = parsed_unsigned(filter.skip(4), 4294967295);
            selected_pid(app_filter, window) == if app_filter is Some && given.len() > 0
                && "pid:"@.is_prefix_of(filter) && number is Some {
                Some(number->0 as u32)
            } else if window is Some {
                window->0.pid
            } else {
                None
            }
        }),
{
    reveal_strlit("pid:");
}

/// What an AppShot says of the window and of the accessibility snapshot.
pub proof fn law_what_an_appshot_tells(
    window: WindowInfo,
    capture: Result<ScreenshotCapture, String>,
    error: String,
    nodes: Vec<AccessibilityNode>,
)
    ensures
        outcome_window(FocusedOutcome::Focused { window, capture }) == Some(window),
        outcome_window(FocusedOutcome::NoWindow) is None,
        outcome_window(FocusedOutcome::Unavailable { error }) is None,
        outcome_nodes(Some(Ok(nodes))) == nodes@,
        outcome_nodes(Some(Err(error))).len() == 0,
        outcome_nodes(None).len() == 0,
        outcome_snapshot_error(Some(Ok(nodes))) is None,
        outcome_snapshot_error(Some(Err(error))) == Some(error@),
        outcome_snapshot_error(None) == Some(
            "no focused window or app filter was available for AT-SPI capture"@,
        ),
{
}

/// What a crop shows, whatever size the image has: all of the capture; the
/// error of an image that cannot be read; the pixels of the rectangle, as far
/// as the image reaches; or an error where it does not reach that far.
pub proof fn law_what_a_crop_shows(
    capture: CaptureView,
    bounds: WindowBounds,
    result: Result<CaptureView, CropError<Seq<char>>>,
    image: Raster,
    error: CropError<Seq<char>>,
    x: u32,
    y: u32,
    width: u32,
    height: u32,
)
    requires
        shows_the_crop(capture, bounds, result),
        crop_rectangle(capture.width, capture.height, bounds) == Some((x, y, width, height)),
    ensures
        x == 0 && y == 0 && width == capture.width && height == capture.height ==> result == Ok::<
            CaptureView,
            CropError<Seq<char>>,
        >(capture),
        !(x == 0 && y == 0 && width == capture.width && height == capture.height) ==> {
            &&& url_image(capture.data_url) == Err::<Raster, CropError<Seq<char>>>(error) ==> result
                == Err::<CaptureView, CropError<Seq<char>>>(error)
            &&& url_image(capture.data_url) == Ok::<Raster, CropError<Seq<char>>>(image) && (x
                >= image.width || y >= image.height) ==> result is Err && result->Err_0 is EncodePng
            &&& url_image(capture.data_url) == Ok::<Raster, CropError<Seq<char>>>(image) && x
                < image.width && y < image.height ==> {
                &&& result matches Ok(shown)
                &&& url_image(shown.data_url) matches Ok(part)
                &&& part.width == if width <= image.width - x {
                    width as int
                } else {
                    image.width - x
                }
                &&& part.height == if height <= image.height - y {
                    height as int
                } else {
                    image.height - y
                }
                &&& forall|i: int, j: int|
                    0 <= i < part.width && 0 <= j < part.height ==> #[trigger] part.pixel(i, j)
                        == image.pixel(x + i, y + j)
            }
        },
{
}

/// The image that a data URL holds is what its PNG file decodes to.
pub proof fn law_data_url_holds_its_image(url: Seq<char>)
    ensures
        url_image(url) == if url_png(url) is Err {
            Err(url_png(url)->Err_0)
        } else if decoded_png(url_png(url)->Ok_0) is Err {
            Err(CropError::DecodePng(decoded_png(url_png(url)->Ok_0)->Err_0))
        } else {
            Ok(decoded_png(url_png(url)->Ok_0)->Ok_0)
        },
{
}

/// What each reason for not cropping says.
pub proof fn law_what_a_crop_error_says(cause: Seq<char>, text: String, capture: ScreenshotCapture)
    ensures
        CropError::<Seq<char>>::BoundsUnavailable.message()
            == "focused window bounds unavailable; refusing full-screen AppShot screenshot"@,
        CropError::<Seq<char>>::NoIntersection.message()
            == "focused window bounds did not intersect screenshot; refusing full-screen AppShot screenshot"@,
        CropError::<Seq<char>>::NotPngUrl.message() == "screenshot data URL was not a PNG data URL"@,
        CropError::Base64(cause).message() == "failed to decode screenshot data URL"@,
        CropError::DecodePng(cause).message() == "failed to decode screenshot PNG"@,
        CropError::EncodePng(cause).message() == "failed to encode cropped screenshot PNG"@,
        CropError::<Seq<char>>::BoundsUnavailable.cause() is None,
        CropError::<Seq<char>>::NoIntersection.cause() is None,
        CropError::<Seq<char>>::NotPngUrl.cause() is None,
        CropError::Base64(cause).cause() == Some(cause),
        CropError::DecodePng(cause).cause() == Some(cause),
        CropError::EncodePng(cause).cause() == Some(cause),
        crop_error_view(CropError::BoundsUnavailable) == CropError::<Seq<char>>::BoundsUnavailable,
        crop_error_view(CropError::NoIntersection) == CropError::<Seq<char>>::NoIntersection,
        crop_error_view(CropError::NotPngUrl) == CropError::<Seq<char>>::NotPngUrl,
        crop_error_view(CropError::Base64(text)) == CropError::Base64(text@),
        crop_error_view(CropError::DecodePng(text)) == CropError::DecodePng(text@),
        crop_error_view(CropError::EncodePng(text)) == CropError::EncodePng(text@),
        crop_result_view(Ok(capture)) == Ok::<CaptureView, CropError<Seq<char>>>(capture@),
        crop_result_view(Err(CropError::Base64(text))) == Err::<CaptureView, CropError<Seq<char>>>(
            CropError::Base64(text@),
        ),
{
}

} // verus!
