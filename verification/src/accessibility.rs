//! Accessibility snapshots and the text that describes them.

use vstd::prelude::*;
use vstd::string::*;
use crate::numbers::{
    append_decimal, append_signed, decimal, is_digit, lemma_decimal_digits, signed_decimal,
};
use crate::text::{
    borrowed, borrowed_view, byte_len, collapse_whitespace, collapsed, is_neat, is_white, join,
    joined, law_collapsed_white_space, law_joined_parts, lemma_byte_len_concat,
    lemma_bytes_within_chars, lemma_chars_within_bytes, lemma_concat_without, lemma_joined_without,
    lemma_neat_is_collapsed, optional_view, replace_char, replaced, trim, trimmed, truncate_chars,
    truncated, utf8_len, views, words,
};
use crate::windows::{window_view, WindowInfo};

verus! {

/// The text stops growing once it takes this many bytes.
pub const MAX_AX_TEXT_CHARS: usize = 60_000;

/// The longest field of a line, in characters.
pub const MAX_FIELD_CHARS: usize = 500;

/// The deepest indentation of a line, in levels.
pub const MAX_INDENT_LEVELS: u32 = 12;

/// Where an element stands on the screen.
#[derive(Clone, Copy, Debug, PartialEq, Eq)]
pub struct AccessibilityBounds {
    pub x: i32,
    pub y: i32,
    pub width: i32,
    pub height: i32,
}

/// The text of an element.
#[derive(Clone, Debug)]
pub struct AccessibilityText {
    pub content: Option<String>,
}

/// The value of an element.
#[derive(Clone, Debug)]
pub struct AccessibilityValue {
    pub text: Option<String>,
}

/// One element of an accessibility tree.
#[derive(Clone, Debug)]
pub struct AccessibilityNode {
    pub depth: u32,
    pub role: String,
    pub name: Option<String>,
    pub description: Option<String>,
    pub text: Option<AccessibilityText>,
    pub value: Option<AccessibilityValue>,
    pub bounds: Option<AccessibilityBounds>,
    pub states: Vec<String>,
}

/// A field with its white space collapsed, cut to [`MAX_FIELD_CHARS`].
pub open spec fn normalized_field(value: Seq<char>) -> Seq<char> {
    truncated(collapsed(value), MAX_FIELD_CHARS as nat)
}

/// Collapses the white space of a field and cuts it to [`MAX_FIELD_CHARS`].
pub fn normalize_field(value: &str) -> (field: String)
    ensures
        field@ == normalized_field(value@),
{
    let collapsed_value = collapse_whitespace(value);
    truncate_chars(collapsed_value.as_str(), MAX_FIELD_CHARS)
}

/// A normalized field in which single quotes stand for double quotes, so that
/// it can stand between double quotes.
pub open spec fn quotable_field(value: Seq<char>) -> Seq<char> {
    replaced(normalized_field(value), '"', '\'')
}

/// Normalizes a field and turns its double quotes into single quotes.
fn quotable(value: &str) -> (field: String)
    ensures
        field@ == quotable_field(value@),
{
    let field = normalize_field(value);
    replace_char(field.as_str(), '"', '\'')
}

/// The first of `values` that is not blank, trimmed.
pub open spec fn first_filled(values: Seq<Option<Seq<char>>>) -> Option<Seq<char>>
    decreases values.len(),
{
    if values.len() == 0 {
        None
    } else {
        match values[0] {
            Some(value) if trimmed(value).len() > 0 => Some(trimmed(value)),
            _ => first_filled(values.drop_first()),
        }
    }
}

/// Returns the first of `values` that is not blank, trimmed.
pub fn first_non_empty<const N: usize>(values: [Option<&str>; N]) -> (first: Option<&str>)
    ensures
        borrowed_view(first) == first_filled(
            values@.map_values(|value: Option<&str>| borrowed_view(value)),
        ),
{
    let ghost all = values@.map_values(|value: Option<&str>| borrowed_view(value));
    let mut i: usize = 0;
    assert(all.skip(0) == all);
    while i < N
        invariant
            i <= N,
            all == values@.map_values(|value: Option<&str>| borrowed_view(value)),
            first_filled(all.skip(i as int)) == first_filled(all),
        decreases N - i,
    {
        assert(all.skip(i as int).drop_first() == all.skip(i + 1));
        assert(all.skip(i as int)[0] == borrowed_view(values@[i as int]));
        if let Some(value) = values[i] {
            let inner = trim(value);
            if !inner.is_empty() {
                return Some(inner);
            }
        }
        i += 1;
    }
    None
}

/// The part `label="value"` of a line, if there is a value.
pub open spec fn labelled_part(label: Seq<char>, value: Option<Seq<char>>) -> Seq<Seq<char>> {
    match value {
        Some(value) => seq![label + "=\""@ + quotable_field(value) + "\""@],
        None => Seq::empty(),
    }
}

/// Appends the part `label="value"` to the parts of a line, if there is a value.
fn push_labelled(parts: &mut Vec<String>, label: &str, value: Option<&str>)
    ensures
        views(final(parts)@) == views(old(parts)@) + labelled_part(label@, borrowed_view(value)),
{
    if let Some(value) = value {
        let mut part = String::new();
        part.append(label);
        part.append("=\"");
        part.append(quotable(value).as_str());
        part.append("\"");
        parts.push(part);
    }
    assert(views(parts@) =~= views(old(parts)@) + labelled_part(label@, borrowed_view(value)));
}

/// The text content of an element, if it has any.
pub open spec fn text_content(node: AccessibilityNode) -> Option<Seq<char>> {
    match node.text {
        Some(text) => optional_view(text.content),
        None => None,
    }
}

/// The value of an element as text, if it has any.
pub open spec fn value_text(node: AccessibilityNode) -> Option<Seq<char>> {
    match node.value {
        Some(value) => optional_view(value.text),
        None => None,
    }
}

/// The part that gives the size and position of an element, if they are known.
pub open spec fn bounds_part(bounds: Option<AccessibilityBounds>) -> Seq<Seq<char>> {
    match bounds {
        Some(bounds) => seq![
            "bounds="@ + signed_decimal(bounds.width as int) + "x"@ + signed_decimal(
                bounds.height as int,
            ) + "+"@ + signed_decimal(bounds.x as int) + "+"@ + signed_decimal(bounds.y as int),
        ],
        None => Seq::empty(),
    }
}

/// The part that lists the states of an element, if it has any.
pub open spec fn states_part(states: Seq<String>) -> Seq<Seq<char>> {
    if states.len() == 0 {
        Seq::empty()
    } else {
        seq!["states="@ + joined(views(states), ","@)]
    }
}

/// What is said of an element, part by part.
pub open spec fn node_parts(node: AccessibilityNode) -> Seq<Seq<char>> {
    seq![node.role@] + labelled_part("name"@, optional_view(node.name)) + labelled_part(
        "description"@,
        optional_view(node.description),
    ) + labelled_part("text"@, text_content(node)) + labelled_part("value"@, value_text(node))
        + bounds_part(node.bounds) + states_part(node.states@)
}

/// Two spaces for each level of depth, up to [`MAX_INDENT_LEVELS`].
pub open spec fn indentation(depth: u32) -> Seq<char> {
    Seq::new(
        (2 * if depth < MAX_INDENT_LEVELS { depth } else { MAX_INDENT_LEVELS }) as nat,
        |i: int| ' ',
    )
}

/// The line that describes an element.
pub open spec fn described_node(node: AccessibilityNode) -> Seq<char> {
    indentation(node.depth) + "- "@ + joined(node_parts(node), " "@)
}

/// Describes an element in one line.
pub fn node_line(node: &AccessibilityNode) -> (line: String)
    ensures
        line@ == described_node(*node),
{
    let levels: u32 = if node.depth < MAX_INDENT_LEVELS { node.depth } else { MAX_INDENT_LEVELS };
    let mut line = String::new();
    let mut i: u32 = 0;
    while i < levels
        invariant
            i <= levels <= MAX_INDENT_LEVELS,
            line@ == Seq::new((2 * i) as nat, |j: int| ' '),
        decreases levels - i,
    {
        line.push(' ');
        line.push(' ');
        i += 1;
    }
    line.append("- ");

    let mut parts: Vec<String> = Vec::new();
    parts.push(node.role.clone());
    assert(views(parts@) =~= seq![node.role@]);
    push_labelled(&mut parts, "name", borrowed(&node.name));
    push_labelled(&mut parts, "description", borrowed(&node.description));
    let text = match &node.text {
        Some(text) => borrowed(&text.content),
        None => None,
    };
    push_labelled(&mut parts, "text", text);
    let value = match &node.value {
        Some(value) => borrowed(&value.text),
        None => None,
    };
    push_labelled(&mut parts, "value", value);
    let ghost described = views(parts@);
    if let Some(bounds) = &node.bounds {
        let mut part = String::new();
        part.append("bounds=");
        append_signed(&mut part, bounds.width);
        part.append("x");
        append_signed(&mut part, bounds.height);
        part.append("+");
        append_signed(&mut part, bounds.x);
        part.append("+");
        append_signed(&mut part, bounds.y);
        parts.push(part);
    }
    assert(views(parts@) =~= described + bounds_part(node.bounds));
    let ghost placed = views(parts@);
    if !node.states.is_empty() {
        let mut part = String::new();
        part.append("states=");
        part.append(join(&node.states, ",").as_str());
        parts.push(part);
    }
    assert(views(parts@) =~= placed + states_part(node.states@));
    assert(views(parts@) =~= node_parts(*node));
    line.append(join(&parts, " ").as_str());
    line
}

/// `text` with `line` appended as far as the byte limit lets it grow: nothing
/// once the limit is reached, the whole line where it fits, else its beginning
/// and three dots.
pub open spec fn with_capped_line(text: Seq<char>, line: Seq<char>) -> Seq<char> {
    let limit = MAX_AX_TEXT_CHARS as int;
    if byte_len(text) >= limit {
        text
    } else if byte_len(line) < limit - byte_len(text) {
        text + line + "\n"@
    } else {
        let room = limit - byte_len(text) - 4;
        text + truncated(line, if room < 0 { 0 } else { room as nat }) + "...\n"@
    }
}

/// Appends `line` to `output` as far as the byte limit lets it grow.
pub fn push_capped_line(output: &mut String, line: &str)
    ensures
        final(output)@ == with_capped_line(old(output)@, line@),
{
    let used: usize = utf8_len(output.as_str());
    if used >= MAX_AX_TEXT_CHARS {
        return;
    }
    let remaining: usize = MAX_AX_TEXT_CHARS - used;
    if utf8_len(line) < remaining {
        output.append(line);
        output.append("\n");
        return;
    }
    let slice = truncate_chars(line, if remaining < 4 { 0 } else { remaining - 4 });
    output.append(slice.as_str());
    output.append("...\n");
}

/// `text` with each of `lines` appended under the byte limit.
pub open spec fn with_capped_lines(text: Seq<char>, lines: Seq<Seq<char>>) -> Seq<char>
    decreases lines.len(),
{
    if lines.len() == 0 {
        text
    } else {
        with_capped_line(with_capped_lines(text, lines.drop_last()), lines.last())
    }
}

/// `text` with each of `lines` appended under the byte limit; three dots stand
/// for the lines that come after the limit was reached.
pub open spec fn with_elements(text: Seq<char>, lines: Seq<Seq<char>>) -> Seq<char>
    decreases lines.len(),
{
    if lines.len() == 0 {
        text
    } else if byte_len(text) >= MAX_AX_TEXT_CHARS {
        text + "...\n"@
    } else {
        with_elements(with_capped_line(text, lines[0]), lines.drop_first())
    }
}

/// The name of the application that a window belongs to, if it is known.
pub open spec fn app_name(window: WindowInfo) -> Option<Seq<char>> {
    first_filled(seq![optional_view(window.app_id), optional_view(window.wm_class)])
}

/// The line that names the application.
pub open spec fn app_lines(window: WindowInfo) -> Seq<Seq<char>> {
    match app_name(window) {
        Some(name) => seq!["Application: "@ + normalized_field(name)],
        None => Seq::empty(),
    }
}

/// The line that gives the title of a window, unless it is blank.
pub open spec fn title_lines(window: WindowInfo) -> Seq<Seq<char>> {
    match optional_view(window.title) {
        Some(title) if trimmed(title).len() > 0 => seq![
            "Window: \""@ + quotable_field(title) + "\", App: "@ + match app_name(window) {
                Some(name) => normalized_field(name),
                None => "Linux app"@,
            },
        ],
        _ => Seq::empty(),
    }
}

/// The line that gives the process of a window.
pub open spec fn pid_lines(window: WindowInfo) -> Seq<Seq<char>> {
    match window.pid {
        Some(pid) => seq!["Process ID: "@ + decimal(pid as nat)],
        None => Seq::empty(),
    }
}

/// The lines that describe the focused window.
pub open spec fn window_lines(window: Option<WindowInfo>) -> Seq<Seq<char>> {
    match window {
        Some(window) => app_lines(window) + title_lines(window) + pid_lines(window),
        None => Seq::empty(),
    }
}

/// The line that reports an accessibility error, unless it is blank.
pub open spec fn error_lines(error: Option<Seq<char>>) -> Seq<Seq<char>> {
    match error {
        Some(error) if trimmed(error).len() > 0 => seq![
            "Accessibility error: "@ + normalized_field(error),
        ],
        _ => Seq::empty(),
    }
}

/// The text that describes a snapshot.
pub open spec fn described_snapshot(
    window: Option<WindowInfo>,
    nodes: Seq<AccessibilityNode>,
    error: Option<Seq<char>>,
) -> Seq<char> {
    let head = with_capped_lines(
        "Linux AppShot accessibility snapshot\n"@,
        window_lines(window) + error_lines(error),
    );
    if nodes.len() == 0 {
        with_capped_line(head, "No accessible UI elements were captured."@)
    } else {
        with_elements(
            head + "\nElements:\n"@,
            nodes.map_values(|node: AccessibilityNode| described_node(node)),
        )
    }
}

/// Appending lines one after the other appends them all.
proof fn lemma_one_more_line(text: Seq<char>, lines: Seq<Seq<char>>, line: Seq<char>)
    ensures
        with_capped_lines(text, lines + seq![line]) == with_capped_line(
            with_capped_lines(text, lines),
            line,
        ),
{
    assert((lines + seq![line]).drop_last() =~= lines);
}

/// Describes the focused window and the elements of an accessibility snapshot.
pub fn appshot_accessibility_text(
    focused_window: Option<&WindowInfo>,
    nodes: &[AccessibilityNode],
    accessibility_error: Option<&str>,
) -> (text: String)
    ensures
        text@ == described_snapshot(
            window_view(focused_window),
            nodes@,
            borrowed_view(accessibility_error),
        ),
{
    let ghost start = "Linux AppShot accessibility snapshot\n"@;
    let mut output = String::new();
    output.append("Linux AppShot accessibility snapshot\n");
    assert(output@ =~= start);
    let ghost mut lines: Seq<Seq<char>> = Seq::empty();
    if let Some(window) = focused_window {
        let names = [borrowed(&window.app_id), borrowed(&window.wm_class)];
        let name = first_non_empty(names);
        assert(names@.map_values(|value: Option<&str>| borrowed_view(value)) =~= seq![
            optional_view(window.app_id),
            optional_view(window.wm_class),
        ]);
        if let Some(name) = name {
            let mut line = String::new();
            line.append("Application: ");
            line.append(normalize_field(name).as_str());
            push_capped_line(&mut output, line.as_str());
            proof {
                lemma_one_more_line(start, lines, line@);
                lines = lines + seq![line@];
            }
        }
        assert(lines =~= app_lines(*window));
        if let Some(title) = &window.title {
            if !trim(title.as_str()).is_empty() {
                let mut line = String::new();
                line.append("Window: \"");
                line.append(quotable(title.as_str()).as_str());
                line.append("\", App: ");
                match name {
                    Some(name) => {
                        line.append(normalize_field(name).as_str());
                    },
                    None => {
                        line.append("Linux app");
                    },
                }
                push_capped_line(&mut output, line.as_str());
                proof {
                    lemma_one_more_line(start, lines, line@);
                    lines = lines + seq![line@];
                }
            }
        }
        assert(lines =~= app_lines(*window) + title_lines(*window));
        if let Some(pid) = window.pid {
            let mut line = String::new();
            line.append("Process ID: ");
            append_decimal(&mut line, pid as u128);
            push_capped_line(&mut output, line.as_str());
            proof {
                lemma_one_more_line(start, lines, line@);
                lines = lines + seq![line@];
            }
        }
        assert(lines =~= window_lines(window_view(focused_window)));
    }
    if let Some(error) = accessibility_error {
        if !trim(error).is_empty() {
            let mut line = String::new();
            line.append("Accessibility error: ");
            line.append(normalize_field(error).as_str());
            push_capped_line(&mut output, line.as_str());
            proof {
                lemma_one_more_line(start, lines, line@);
                lines = lines + seq![line@];
            }
        }
    }
    assert(lines =~= window_lines(window_view(focused_window)) + error_lines(
        borrowed_view(accessibility_error),
    ));
    if nodes.len() == 0 {
        push_capped_line(&mut output, "No accessible UI elements were captured.");
        return output;
    }
    output.append("\nElements:\n");
    let ghost described = nodes@.map_values(|node: AccessibilityNode| described_node(node));
    let ghost whole = with_elements(output@, described);
    let mut i: usize = 0;
    assert(described.skip(0) =~= described);
    while i < nodes.len()
        invariant
            i <= nodes@.len(),
            described == nodes@.map_values(|node: AccessibilityNode| described_node(node)),
            with_elements(output@, described.skip(i as int)) == whole,
            whole == described_snapshot(
                window_view(focused_window),
                nodes@,
                borrowed_view(accessibility_error),
            ),
        decreases nodes@.len() - i,
    {
        assert(described.skip(i as int).drop_first() =~= described.skip(i + 1));
        if utf8_len(output.as_str()) >= MAX_AX_TEXT_CHARS {
            output.append("...\n");
            return output;
        }
        push_capped_line(&mut output, node_line(&nodes[i]).as_str());
        i += 1;
    }
    output
}

/// A normalized field has at most [`MAX_FIELD_CHARS`] characters and three
/// dots. It neither starts nor ends with white space, and what white space it
/// holds is single spaces.
pub proof fn law_normalized_field(value: Seq<char>)
    ensures
        normalized_field(value).len() <= MAX_FIELD_CHARS + 3,
        is_neat(normalized_field(value)),
{
    law_collapsed_white_space(value);
    let field = normalized_field(value);
    let whole = collapsed(value);
    assert forall|i: int| 0 <= i < field.len() && is_white(#[trigger] field[i]) implies field[i]
        == ' ' && !is_white(field[i + 1]) by {
        assert(field[i] == whole[i]);
        assert(is_white(whole[i]));
    }
}

/// Normalizing a field twice does no more than doing it once.
pub proof fn law_normalizing_is_idempotent(value: Seq<char>)
    ensures
        normalized_field(normalized_field(value)) == normalized_field(value),
{
    law_normalized_field(value);
    let field = normalized_field(value);
    lemma_neat_is_collapsed(field);
    if collapsed(value).len() > MAX_FIELD_CHARS {
        assert(field.take(MAX_FIELD_CHARS as int) =~= collapsed(value).take(
            MAX_FIELD_CHARS as int,
        ));
    }
}

/// A field that stands between double quotes holds none.
pub proof fn law_quotable_field(value: Seq<char>)
    ensures
        !quotable_field(value).contains('"'),
        quotable_field(value).len() == normalized_field(value).len(),
{
}

/// Appending a line keeps the text before it, and at the limit it changes
/// nothing.
pub proof fn law_capped_line_extends(text: Seq<char>, line: Seq<char>)
    ensures
        text.is_prefix_of(with_capped_line(text, line)),
        byte_len(text) >= MAX_AX_TEXT_CHARS ==> with_capped_line(text, line) == text,
{
}

/// A line that was appended leaves the text at most six characters over the
/// limit.
proof fn lemma_capped_line_len(text: Seq<char>, line: Seq<char>)
    requires
        text.len() <= MAX_AX_TEXT_CHARS + 6,
    ensures
        with_capped_line(text, line).len() <= MAX_AX_TEXT_CHARS + 6,
{
    lemma_chars_within_bytes(text);
    lemma_chars_within_bytes(line);
    reveal_strlit("\n");
    reveal_strlit("...\n");
}

/// The elements leave the text at most ten characters over the limit.
proof fn lemma_elements_len(text: Seq<char>, lines: Seq<Seq<char>>)
    requires
        text.len() <= MAX_AX_TEXT_CHARS + 6,
    ensures
        with_elements(text, lines).len() <= MAX_AX_TEXT_CHARS + 10,
        text.is_prefix_of(with_elements(text, lines)),
    decreases lines.len(),
{
    reveal_strlit("...\n");
    if lines.len() > 0 && byte_len(text) < MAX_AX_TEXT_CHARS {
        lemma_capped_line_len(text, lines[0]);
        law_capped_line_extends(text, lines[0]);
        lemma_elements_len(with_capped_line(text, lines[0]), lines.drop_first());
    }
}

/// `text` and each of `lines`, every line ended by a line feed.
pub open spec fn with_whole_lines(text: Seq<char>, lines: Seq<Seq<char>>) -> Seq<char>
    decreases lines.len(),
{
    if lines.len() == 0 {
        text
    } else {
        with_whole_lines(text, lines.drop_last()) + lines.last() + "\n"@
    }
}

/// Few and short enough lines are appended whole.
proof fn lemma_short_lines(text: Seq<char>, lines: Seq<Seq<char>>)
    requires
        text.len() <= 100,
        lines.len() <= 4,
        forall|i: int| 0 <= i < lines.len() ==> #[trigger] lines[i].len() <= 1100,
    ensures
        with_capped_lines(text, lines) == with_whole_lines(text, lines),
        with_capped_lines(text, lines).len() <= 100 + 1101 * lines.len(),
    decreases lines.len(),
{
    if lines.len() > 0 {
        let before = lines.drop_last();
        lemma_short_lines(text, before);
        let head = with_capped_lines(text, before);
        lemma_bytes_within_chars(head);
        assert(lines[lines.len() - 1].len() <= 1100);
        lemma_bytes_within_chars(lines.last());
        reveal_strlit("\n");
    }
}

/// A process number has at most ten digits.
proof fn lemma_pid_len(pid: u32)
    ensures
        decimal(pid as nat).len() <= 10,
{
    reveal_with_fuel(decimal, 11);
}

/// The description of the window and of an error is never cut.
pub proof fn law_head_is_whole(window: Option<WindowInfo>, error: Option<Seq<char>>)
    ensures
        with_capped_lines(
            "Linux AppShot accessibility snapshot\n"@,
            window_lines(window) + error_lines(error),
        ) == with_whole_lines(
            "Linux AppShot accessibility snapshot\n"@,
            window_lines(window) + error_lines(error),
        ),
        with_capped_lines(
            "Linux AppShot accessibility snapshot\n"@,
            window_lines(window) + error_lines(error),
        ).len() <= 5000,
{
    reveal_strlit("Linux AppShot accessibility snapshot\n");
    reveal_strlit("Application: ");
    reveal_strlit("Window: \"");
    reveal_strlit("\", App: ");
    reveal_strlit("Linux app");
    reveal_strlit("Process ID: ");
    reveal_strlit("Accessibility error: ");
    if let Some(window) = window {
        if let Some(name) = app_name(window) {
            law_normalized_field(name);
        }
        if let Some(title) = optional_view(window.title) {
            law_normalized_field(title);
            law_quotable_field(title);
        }
        if let Some(pid) = window.pid {
            lemma_pid_len(pid);
        }
    }
    if let Some(error) = error {
        law_normalized_field(error);
    }
    lemma_short_lines(
        "Linux AppShot accessibility snapshot\n"@,
        window_lines(window) + error_lines(error),
    );
}

/// Elements only extend the text before them.
proof fn lemma_elements_extend(text: Seq<char>, lines: Seq<Seq<char>>)
    ensures
        text.is_prefix_of(with_elements(text, lines)),
    decreases lines.len(),
{
    if lines.len() > 0 && byte_len(text) < MAX_AX_TEXT_CHARS {
        law_capped_line_extends(text, lines[0]);
        lemma_elements_extend(with_capped_line(text, lines[0]), lines.drop_first());
    }
}

/// More elements only extend what fewer come to.
proof fn lemma_more_elements(text: Seq<char>, lines: Seq<Seq<char>>, more: Seq<Seq<char>>)
    ensures
        with_elements(text, lines).is_prefix_of(with_elements(text, lines + more)),
    decreases lines.len(),
{
    if lines.len() == 0 {
        lemma_elements_extend(text, lines + more);
    } else if byte_len(text) < MAX_AX_TEXT_CHARS {
        assert((lines + more).drop_first() =~= lines.drop_first() + more);
        lemma_more_elements(with_capped_line(text, lines[0]), lines.drop_first(), more);
    }
}

/// Once there is an element, further ones only extend the text.
pub proof fn law_more_elements_extend_the_text(
    window: Option<WindowInfo>,
    nodes: Seq<AccessibilityNode>,
    more: Seq<AccessibilityNode>,
    error: Option<Seq<char>>,
)
    requires
        nodes.len() > 0,
    ensures
        described_snapshot(window, nodes, error).is_prefix_of(
            described_snapshot(window, nodes + more, error),
        ),
{
    let describe = |node: AccessibilityNode| described_node(node);
    let head = with_capped_lines(
        "Linux AppShot accessibility snapshot\n"@,
        window_lines(window) + error_lines(error),
    );
    assert((nodes + more).map_values(describe) =~= nodes.map_values(describe) + more.map_values(
        describe,
    ));
    lemma_more_elements(
        head + "\nElements:\n"@,
        nodes.map_values(describe),
        more.map_values(describe),
    );
}

/// The first of some lines can as well stand before the others.
proof fn lemma_first_whole_line(text: Seq<char>, lines: Seq<Seq<char>>)
    requires
        lines.len() > 0,
    ensures
        with_whole_lines(text, lines) == with_whole_lines(
            text + lines[0] + "\n"@,
            lines.drop_first(),
        ),
    decreases lines.len(),
{
    let before = lines.drop_last();
    if before.len() == 0 {
        assert(with_whole_lines(text, before) == text);
        assert(lines.last() == lines[0]);
    } else {
        lemma_first_whole_line(text, before);
        assert(before[0] == lines[0]);
        assert(lines.drop_first().drop_last() =~= before.drop_first());
        assert(lines.drop_first().last() == lines.last());
    }
}

/// Whole lines take at least the bytes of the text before them.
proof fn lemma_whole_lines_extend(text: Seq<char>, lines: Seq<Seq<char>>)
    ensures
        byte_len(text) <= byte_len(with_whole_lines(text, lines)),
    decreases lines.len(),
{
    if lines.len() > 0 {
        let before = with_whole_lines(text, lines.drop_last());
        lemma_whole_lines_extend(text, lines.drop_last());
        lemma_byte_len_concat(before, lines.last());
        lemma_byte_len_concat(before + lines.last(), "\n"@);
    }
}

/// Elements that fit are appended whole.
proof fn lemma_fitting_elements(text: Seq<char>, lines: Seq<Seq<char>>)
    requires
        byte_len(with_whole_lines(text, lines)) <= MAX_AX_TEXT_CHARS,
    ensures
        with_elements(text, lines) == with_whole_lines(text, lines),
    decreases lines.len(),
{
    if lines.len() > 0 {
        let next = text + lines[0] + "\n"@;
        lemma_first_whole_line(text, lines);
        lemma_whole_lines_extend(next, lines.drop_first());
        lemma_byte_len_concat(text, lines[0]);
        lemma_byte_len_concat(text + lines[0], "\n"@);
        reveal_strlit("\n");
        lemma_chars_within_bytes("\n"@);
        lemma_fitting_elements(next, lines.drop_first());
    }
}

/// The text that describes a snapshot with elements, were there no limit: the
/// window, the error, and each element once and in order, in whole lines.
pub open spec fn whole_snapshot(
    window: Option<WindowInfo>,
    nodes: Seq<AccessibilityNode>,
    error: Option<Seq<char>>,
) -> Seq<char> {
    with_whole_lines(
        with_whole_lines(
            "Linux AppShot accessibility snapshot\n"@,
            window_lines(window) + error_lines(error),
        ) + "\nElements:\n"@,
        nodes.map_values(|node: AccessibilityNode| described_node(node)),
    )
}

/// Where all elements fit, each stands in the text once and in order.
pub proof fn law_fitting_elements_stand_in_order(
    window: Option<WindowInfo>,
    nodes: Seq<AccessibilityNode>,
    error: Option<Seq<char>>,
)
    requires
        nodes.len() > 0,
        byte_len(whole_snapshot(window, nodes, error)) <= MAX_AX_TEXT_CHARS,
    ensures
        described_snapshot(window, nodes, error) == whole_snapshot(window, nodes, error),
{
    law_head_is_whole(window, error);
    lemma_fitting_elements(
        with_whole_lines(
            "Linux AppShot accessibility snapshot\n"@,
            window_lines(window) + error_lines(error),
        ) + "\nElements:\n"@,
        nodes.map_values(|node: AccessibilityNode| described_node(node)),
    );
}

/// The part that gives a field its label holds no line feed.
proof fn lemma_labelled_part_in_line(label: Seq<char>, value: Option<Seq<char>>)
    requires
        !label.contains('\n'),
    ensures
        forall|i: int|
            0 <= i < labelled_part(label, value).len() ==> !(#[trigger] labelled_part(
                label,
                value,
            )[i]).contains('\n'),
{
    if let Some(value) = value {
        let field = quotable_field(value);
        law_normalized_field(value);
        if field.contains('\n') {
            let i = choose|i: int| 0 <= i < field.len() && field[i] == '\n';
            assert(is_white(normalized_field(value)[i]));
        }
        reveal_strlit("=\"");
        reveal_strlit("\"");
        lemma_concat_without(label, "=\""@, '\n');
        lemma_concat_without(label + "=\""@, field, '\n');
        lemma_concat_without(label + "=\""@ + field, "\""@, '\n');
    }
}

/// A number holds no line feed.
proof fn lemma_number_in_line(value: int)
    ensures
        !signed_decimal(value).contains('\n'),
{
    let digits = decimal(if value < 0 { (-value) as nat } else { value as nat });
    lemma_decimal_digits(if value < 0 { (-value) as nat } else { value as nat });
    if digits.contains('\n') {
        let i = choose|i: int| 0 <= i < digits.len() && digits[i] == '\n';
        assert(is_digit(digits[i]));
    }
    if value < 0 {
        lemma_concat_without(seq!['-'], digits, '\n');
    }
}

/// The part that gives the size and position holds no line feed.
proof fn lemma_bounds_part_in_line(bounds: Option<AccessibilityBounds>)
    ensures
        forall|i: int|
            0 <= i < bounds_part(bounds).len() ==> !(#[trigger] bounds_part(bounds)[i]).contains(
                '\n',
            ),
{
    if let Some(bounds) = bounds {
        reveal_strlit("bounds=");
        reveal_strlit("x");
        reveal_strlit("+");
        let width = signed_decimal(bounds.width as int);
        let height = signed_decimal(bounds.height as int);
        let x = signed_decimal(bounds.x as int);
        let y = signed_decimal(bounds.y as int);
        lemma_number_in_line(bounds.width as int);
        lemma_number_in_line(bounds.height as int);
        lemma_number_in_line(bounds.x as int);
        lemma_number_in_line(bounds.y as int);
        lemma_concat_without("bounds="@, width, '\n');
        lemma_concat_without("bounds="@ + width, "x"@, '\n');
        lemma_concat_without("bounds="@ + width + "x"@, height, '\n');
        lemma_concat_without("bounds="@ + width + "x"@ + height, "+"@, '\n');
        lemma_concat_without("bounds="@ + width + "x"@ + height + "+"@, x, '\n');
        lemma_concat_without("bounds="@ + width + "x"@ + height + "+"@ + x, "+"@, '\n');
        lemma_concat_without("bounds="@ + width + "x"@ + height + "+"@ + x + "+"@, y, '\n');
    }
}

/// The description of an element is one line, unless its role or one of its
/// states holds a line feed.
pub proof fn law_an_element_takes_one_line(node: AccessibilityNode)
    requires
        !node.role@.contains('\n'),
        forall|i: int| 0 <= i < node.states@.len() ==> !(#[trigger] node.states@[i])@.contains('\n'),
    ensures
        !described_node(node).contains('\n'),
{
    reveal_strlit("name");
    reveal_strlit("description");
    reveal_strlit("text");
    reveal_strlit("value");
    reveal_strlit("states=");
    reveal_strlit(",");
    reveal_strlit(" ");
    reveal_strlit("- ");
    let name = labelled_part("name"@, optional_view(node.name));
    let description = labelled_part("description"@, optional_view(node.description));
    let text = labelled_part("text"@, text_content(node));
    let value = labelled_part("value"@, value_text(node));
    lemma_labelled_part_in_line("name"@, optional_view(node.name));
    lemma_labelled_part_in_line("description"@, optional_view(node.description));
    lemma_labelled_part_in_line("text"@, text_content(node));
    lemma_labelled_part_in_line("value"@, value_text(node));
    lemma_bounds_part_in_line(node.bounds);
    let states = views(node.states@);
    assert forall|i: int| 0 <= i < states.len() implies !(#[trigger] states[i]).contains('\n') by {
        assert(states[i] == node.states@[i]@);
    }
    lemma_joined_without(states, ","@, '\n');
    lemma_concat_without("states="@, joined(states, ","@), '\n');
    let parts = node_parts(node);
    let named = seq![node.role@] + name;
    let described = named + description;
    let written = described + text;
    let valued = written + value;
    let placed = valued + bounds_part(node.bounds);
    assert(parts == placed + states_part(node.states@));
    assert forall|i: int| 0 <= i < parts.len() implies !(#[trigger] parts[i]).contains('\n') by {
        if i < 1 {
            assert(parts[i] == node.role@);
        } else if i < named.len() {
            assert(parts[i] == name[i - 1]);
        } else if i < described.len() {
            assert(parts[i] == description[i - named.len()]);
        } else if i < written.len() {
            assert(parts[i] == text[i - described.len()]);
        } else if i < valued.len() {
            assert(parts[i] == value[i - written.len()]);
        } else if i < placed.len() {
            assert(parts[i] == bounds_part(node.bounds)[i - valued.len()]);
        } else {
            assert(parts[i] == states_part(node.states@)[i - placed.len()]);
        }
    }
    lemma_joined_without(parts, " "@, '\n');
    lemma_concat_without(indentation(node.depth), "- "@, '\n');
    lemma_concat_without(indentation(node.depth) + "- "@, joined(parts, " "@), '\n');
}

/// The text that describes a snapshot never has more than ten characters over
/// [`MAX_AX_TEXT_CHARS`], whatever the snapshot holds, and starts with the
/// whole description of the window and of the error.
pub proof fn law_snapshot_text_is_bounded(
    window: Option<WindowInfo>,
    nodes: Seq<AccessibilityNode>,
    error: Option<Seq<char>>,
)
    ensures
        described_snapshot(window, nodes, error).len() <= MAX_AX_TEXT_CHARS + 10,
        with_whole_lines(
            "Linux AppShot accessibility snapshot\n"@,
            window_lines(window) + error_lines(error),
        ).is_prefix_of(described_snapshot(window, nodes, error)),
{
    law_head_is_whole(window, error);
    let head = with_capped_lines(
        "Linux AppShot accessibility snapshot\n"@,
        window_lines(window) + error_lines(error),
    );
    if nodes.len() == 0 {
        lemma_capped_line_len(head, "No accessible UI elements were captured."@);
    } else {
        reveal_strlit("\nElements:\n");
        let lines = nodes.map_values(|node: AccessibilityNode| described_node(node));
        lemma_elements_len(head + "\nElements:\n"@, lines);
        assert(head.is_prefix_of(head + "\nElements:\n"@));
    }
}

/// The first value that is not blank counts, trimmed, and there is none exactly
/// if all are blank or missing.
pub proof fn law_first_filled_value_counts(values: Seq<Option<Seq<char>>>)
    ensures
        first_filled(values) is None <==> forall|i: int|
            0 <= i < values.len() ==> (#[trigger] values[i] is None || trimmed(values[i]->0).len()
                == 0),
        forall|i: int|
            0 <= i < values.len() && #[trigger] values[i] is Some && trimmed(values[i]->0).len() > 0
                && (forall|j: int|
                0 <= j < i ==> (#[trigger] values[j] is None || trimmed(values[j]->0).len() == 0))
                ==> first_filled(values) == Some(trimmed(values[i]->0)),
    decreases values.len(),
{
    if values.len() > 0 && (values[0] is None || trimmed(values[0]->0).len() == 0) {
        let rest = values.drop_first();
        law_first_filled_value_counts(rest);
        assert forall|i: int|
            0 <= i < values.len() && #[trigger] values[i] is Some && trimmed(values[i]->0).len() > 0
                && (forall|j: int|
                0 <= j < i ==> (#[trigger] values[j] is None || trimmed(values[j]->0).len()
                    == 0)) implies first_filled(values) == Some(trimmed(values[i]->0)) by {
            assert(rest[i - 1] == values[i]);
            assert forall|j: int| 0 <= j < i - 1 implies (#[trigger] rest[j] is None || trimmed(
                rest[j]->0,
            ).len() == 0) by {
                assert(rest[j] == values[j + 1]);
            }
        }
        if first_filled(rest) is None {
            assert forall|i: int| 0 <= i < values.len() implies (#[trigger] values[i] is None
                || trimmed(values[i]->0).len() == 0) by {
                if i > 0 {
                    assert(rest[i - 1] == values[i]);
                }
            }
        } else {
            let i = choose|i: int|
                0 <= i < rest.len() && !(#[trigger] rest[i] is None || trimmed(rest[i]->0).len()
                    == 0);
            assert(values[i + 1] == rest[i]);
        }
    }
}

/// A normalized field is the words of the value with single spaces between
/// them, whole if it has at most 500 characters, else the first 500 of them
/// and three dots.
pub proof fn law_field_keeps_the_words(value: Seq<char>)
    ensures
        ({
            let whole = joined(words(value), seq![' ']);
            normalized_field(value) == if whole.len() <= 500 {
                whole
            } else {
                whole.take(500) + seq!['.', '.', '.']
            }
        }),
{
}

/// A quotable field is the normalized one, with single quotes for double
/// quotes and no other change.
pub proof fn law_quotable_characters(value: Seq<char>)
    ensures
        quotable_field(value).len() == normalized_field(value).len(),
        forall|i: int|
            0 <= i < normalized_field(value).len() ==> #[trigger] quotable_field(value)[i]
                == if normalized_field(value)[i] == '"' {
                '\''
            } else {
                normalized_field(value)[i]
            },
{
}

/// A line is indented by two spaces a level, up to twelve levels.
pub proof fn law_indentation(depth: u32)
    ensures
        indentation(depth).len() == if depth <= 12 {
            2 * depth
        } else {
            24
        },
        forall|i: int| 0 <= i < indentation(depth).len() ==> #[trigger] indentation(depth)[i] == ' ',
{
}

/// One more part, if there is one, follows after a space.
proof fn lemma_one_more_part(parts: Seq<Seq<char>>, part: Seq<Seq<char>>)
    requires
        parts.len() > 0,
        part.len() <= 1,
    ensures
        joined(parts + part, " "@) == joined(parts, " "@) + if part.len() == 0 {
            Seq::<char>::empty()
        } else {
            " "@ + part[0]
        },
{
    if part.len() == 0 {
        assert(parts + part =~= parts);
        assert(joined(parts, " "@) + Seq::<char>::empty() =~= joined(parts, " "@));
    } else {
        law_joined_parts(parts, part, " "@);
        law_joined_parts(part, part, " "@);
        assert(joined(parts, " "@) + " "@ + part[0] =~= joined(parts, " "@) + (" "@ + part[0]));
    }
}

/// The line of an element gives its role, and then whatever is known of it:
/// each field on its own account, whatever the others are.
pub proof fn law_what_a_line_says(node: AccessibilityNode)
    ensures
        described_node(node) == indentation(node.depth) + "- "@ + (node.role@ + (match node.name {
            Some(name) => " "@ + ("name"@ + "=\""@ + quotable_field(name@) + "\""@),
            None => Seq::empty(),
        }) + (match node.description {
            Some(description) => " "@ + ("description"@ + "=\""@ + quotable_field(description@)
                + "\""@),
            None => Seq::empty(),
        }) + (match node.text {
            Some(AccessibilityText { content: Some(content) }) => " "@ + ("text"@ + "=\""@
                + quotable_field(content@) + "\""@),
            _ => Seq::empty(),
        }) + (match node.value {
            Some(AccessibilityValue { text: Some(text) }) => " "@ + ("value"@ + "=\""@
                + quotable_field(text@) + "\""@),
            _ => Seq::empty(),
        }) + (match node.bounds {
            Some(bounds) => " "@ + ("bounds="@ + signed_decimal(bounds.width as int) + "x"@
                + signed_decimal(bounds.height as int) + "+"@ + signed_decimal(bounds.x as int)
                + "+"@ + signed_decimal(bounds.y as int)),
            None => Seq::empty(),
        }) + (if node.states@.len() > 0 {
            " "@ + ("states="@ + joined(views(node.states@), ","@))
        } else {
            Seq::empty()
        })),
{
    let name = labelled_part("name"@, optional_view(node.name));
    let description = labelled_part("description"@, optional_view(node.description));
    let text = labelled_part("text"@, text_content(node));
    let value = labelled_part("value"@, value_text(node));
    let bounds = bounds_part(node.bounds);
    let states = states_part(node.states@);
    let role = seq![node.role@];
    law_joined_parts(role, role, " "@);
    lemma_one_more_part(role, name);
    lemma_one_more_part(role + name, description);
    lemma_one_more_part(role + name + description, text);
    lemma_one_more_part(role + name + description + text, value);
    lemma_one_more_part(role + name + description + text + value, bounds);
    lemma_one_more_part(role + name + description + text + value + bounds, states);
}

/// Every field that is known is one of the parts of the line.
pub proof fn law_known_fields_are_said(node: AccessibilityNode)
    ensures
        described_node(node) == indentation(node.depth) + "- "@ + joined(node_parts(node), " "@),
        node_parts(node)[0] == node.role@,
        node.name matches Some(name) ==> node_parts(node).contains(
            "name"@ + "=\""@ + quotable_field(name@) + "\""@,
        ),
        node.description matches Some(description) ==> node_parts(node).contains(
            "description"@ + "=\""@ + quotable_field(description@) + "\""@,
        ),
        node.text matches Some(AccessibilityText { content: Some(content) }) ==> node_parts(
            node,
        ).contains("text"@ + "=\""@ + quotable_field(content@) + "\""@),
        node.value matches Some(AccessibilityValue { text: Some(text) }) ==> node_parts(
            node,
        ).contains("value"@ + "=\""@ + quotable_field(text@) + "\""@),
        node.bounds matches Some(bounds) ==> node_parts(node).contains(
            "bounds="@ + signed_decimal(bounds.width as int) + "x"@ + signed_decimal(
                bounds.height as int,
            ) + "+"@ + signed_decimal(bounds.x as int) + "+"@ + signed_decimal(bounds.y as int),
        ),
        node.states@.len() > 0 ==> node_parts(node).contains(
            "states="@ + joined(views(node.states@), ","@),
        ),
{
    let parts = node_parts(node);
    let named = seq![node.role@] + labelled_part("name"@, optional_view(node.name));
    let described = named + labelled_part("description"@, optional_view(node.description));
    let written = described + labelled_part("text"@, text_content(node));
    let valued = written + labelled_part("value"@, value_text(node));
    let placed = valued + bounds_part(node.bounds);
    assert(parts == placed + states_part(node.states@));
    if let Some(name) = node.name {
        assert(parts[1] == "name"@ + "=\""@ + quotable_field(name@) + "\""@);
    }
    if let Some(description) = node.description {
        assert(parts[named.len() as int] == "description"@ + "=\""@ + quotable_field(description@)
            + "\""@);
    }
    if let Some(AccessibilityText { content: Some(content) }) = node.text {
        assert(parts[described.len() as int] == "text"@ + "=\""@ + quotable_field(content@)
            + "\""@);
    }
    if let Some(AccessibilityValue { text: Some(text) }) = node.value {
        assert(parts[written.len() as int] == "value"@ + "=\""@ + quotable_field(text@) + "\""@);
    }
    if node.bounds is Some {
        assert(parts[valued.len() as int] == bounds_part(node.bounds)[0]);
    }
    if node.states@.len() > 0 {
        assert(parts[placed.len() as int] == states_part(node.states@)[0]);
    }
}

/// Whether a text that may be missing is there and not blank.
pub open spec fn filled(value: Option<String>) -> bool {
    value is Some && trimmed(value->0@).len() > 0
}

/// The lines about the focused window: its application, by the first of its
/// application id and its class that is not blank; its title, unless it is
/// blank, with the application again; and its process.
pub proof fn law_what_is_said_of_the_window(window: WindowInfo)
    ensures
        window_lines(None).len() == 0,
        window_lines(Some(window)) == (if filled(window.app_id) {
            seq!["Application: "@ + normalized_field(trimmed(window.app_id->0@))]
        } else if filled(window.wm_class) {
            seq!["Application: "@ + normalized_field(trimmed(window.wm_class->0@))]
        } else {
            Seq::empty()
        }) + (if filled(window.title) {
            seq![
                "Window: \""@ + quotable_field(window.title->0@) + "\", App: "@ + if filled(
                    window.app_id,
                ) {
                    normalized_field(trimmed(window.app_id->0@))
                } else if filled(window.wm_class) {
                    normalized_field(trimmed(window.wm_class->0@))
                } else {
                    "Linux app"@
                },
            ]
        } else {
            Seq::empty()
        }) + (match window.pid {
            Some(pid) => seq!["Process ID: "@ + decimal(pid as nat)],
            None => Seq::empty(),
        }),
{
    lemma_app_name(window);
}

proof fn lemma_app_name(window: WindowInfo)
    ensures
        app_name(window) == if filled(window.app_id) {
            Some(trimmed(window.app_id->0@))
        } else if filled(window.wm_class) {
            Some(trimmed(window.wm_class->0@))
        } else {
            None
        },
{
    let names = seq![optional_view(window.app_id), optional_view(window.wm_class)];
    law_first_filled_value_counts(names);
    assert(names[0] == optional_view(window.app_id));
    assert(names[1] == optional_view(window.wm_class));
}

/// The line about an error, unless it is blank.
pub proof fn law_what_is_said_of_an_error(error: Seq<char>)
    ensures
        error_lines(None).len() == 0,
        error_lines(Some(error)) == if trimmed(error).len() > 0 {
            seq!["Accessibility error: "@ + normalized_field(error)]
        } else {
            Seq::empty()
        },
{
}

/// Appending a line changes nothing once the text takes 60000 bytes. Below
/// that the line is appended whole if it and its line feed fit, else as many
/// of its characters as there are bytes left, less four, with dots.
pub proof fn law_capped_line(text: Seq<char>, line: Seq<char>)
    ensures
        byte_len(text) >= 60000 ==> with_capped_line(text, line) == text,
        byte_len(text) + byte_len(line) + 1 <= 60000 ==> with_capped_line(text, line) == text + line
            + "\n"@,
        byte_len(text) < 60000 && byte_len(text) + byte_len(line) + 1 > 60000 ==> {
            let room = if byte_len(text) + 4 <= 60000 {
                60000 - byte_len(text) - 4
            } else {
                0
            };
            with_capped_line(text, line) == text + (if line.len() <= room {
                line
            } else {
                line.take(room) + seq!['.', '.', '.']
            }) + "...\n"@
        },
{
}

/// Elements are appended one after the other as long as the text takes less
/// than 60000 bytes. If some are left then, one line of dots stands for them.
pub proof fn law_elements_up_to_the_limit(text: Seq<char>, lines: Seq<Seq<char>>)
    ensures
        exists|n: int|
            #![trigger lines.take(n)]
            {
                &&& 0 <= n <= lines.len()
                &&& forall|k: int|
                    0 <= k < n ==> byte_len(with_capped_lines(text, #[trigger] lines.take(k)))
                        < 60000
                &&& n < lines.len() ==> byte_len(with_capped_lines(text, lines.take(n))) >= 60000
                &&& with_elements(text, lines) == with_capped_lines(text, lines.take(n)) + if n
                    < lines.len() {
                    "...\n"@
                } else {
                    Seq::empty()
                }
            },
    decreases lines.len(),
{
    if lines.len() == 0 {
        assert(lines.take(0) =~= lines);
        assert(with_capped_lines(text, lines.take(0)) == text);
        assert(text + Seq::<char>::empty() =~= text);
    } else if byte_len(text) >= MAX_AX_TEXT_CHARS {
        assert(lines.take(0).len() == 0);
        assert(with_capped_lines(text, lines.take(0)) == text);
    } else {
        let next = with_capped_line(text, lines[0]);
        let rest = lines.drop_first();
        law_elements_up_to_the_limit(next, rest);
        let n = choose|n: int|
            #![trigger rest.take(n)]
            {
                &&& 0 <= n <= rest.len()
                &&& forall|k: int|
                    0 <= k < n ==> byte_len(with_capped_lines(next, #[trigger] rest.take(k)))
                        < 60000
                &&& n < rest.len() ==> byte_len(with_capped_lines(next, rest.take(n))) >= 60000
                &&& with_elements(next, rest) == with_capped_lines(next, rest.take(n)) + if n
                    < rest.len() {
                    "...\n"@
                } else {
                    Seq::empty()
                }
            };
        assert forall|k: int| 0 <= k <= rest.len() implies with_capped_lines(
            text,
            #[trigger] lines.take(k + 1),
        ) == with_capped_lines(next, rest.take(k)) by {
            lemma_first_capped_line(text, lines.take(k + 1));
            assert(lines.take(k + 1).drop_first() =~= rest.take(k));
        }
        assert(lines.take(n + 1).len() == n + 1);
        assert forall|k: int| 0 <= k < n + 1 implies byte_len(
            with_capped_lines(text, #[trigger] lines.take(k)),
        ) < 60000 by {
            if k > 0 {
                assert(lines.take((k - 1) + 1) == lines.take(k));
                assert(byte_len(with_capped_lines(next, rest.take(k - 1))) < 60000);
            } else {
                assert(lines.take(0).len() == 0);
                assert(with_capped_lines(text, lines.take(0)) == text);
            }
        }
    }
}

proof fn lemma_first_capped_line(text: Seq<char>, lines: Seq<Seq<char>>)
    requires
        lines.len() > 0,
    ensures
        with_capped_lines(text, lines) == with_capped_lines(
            with_capped_line(text, lines[0]),
            lines.drop_first(),
        ),
    decreases lines.len(),
{
    let before = lines.drop_last();
    if before.len() == 0 {
        assert(with_capped_lines(text, before) == text);
        assert(lines.last() == lines[0]);
    } else {
        lemma_first_capped_line(text, before);
        assert(before[0] == lines[0]);
        assert(lines.drop_first().drop_last() =~= before.drop_first());
        assert(lines.drop_first().last() == lines.last());
    }
}

/// The text begins with what is known of the window and the error, in whole
/// lines. If there are no elements it says so; else they follow under a
/// heading of their own.
pub proof fn law_what_the_text_says(
    window: Option<WindowInfo>,
    nodes: Seq<AccessibilityNode>,
    error: Option<Seq<char>>,
)
    ensures
        ({
            let head = with_whole_lines(
                "Linux AppShot accessibility snapshot\n"@,
                window_lines(window) + error_lines(error),
            );
            &&& nodes.len() == 0 ==> described_snapshot(window, nodes, error) == head
                + "No accessible UI elements were captured."@ + "\n"@
            &&& nodes.len() > 0 ==> described_snapshot(window, nodes, error) == with_elements(
                head + "\nElements:\n"@,
                Seq::new(nodes.len(), |i: int| described_node(nodes[i])),
            )
        }),
{
    law_head_is_whole(window, error);
    let head = with_capped_lines(
        "Linux AppShot accessibility snapshot\n"@,
        window_lines(window) + error_lines(error),
    );
    lemma_bytes_within_chars(head);
    reveal_strlit("No accessible UI elements were captured.");
    lemma_bytes_within_chars("No accessible UI elements were captured."@);
    assert(nodes.map_values(|node: AccessibilityNode| described_node(node)) =~= Seq::new(
        nodes.len(),
        |i: int| described_node(nodes[i]),
    ));
}

/// Whole lines follow one another, each ended by a line feed.
pub proof fn law_whole_lines(text: Seq<char>, lines: Seq<Seq<char>>, line: Seq<char>)
    ensures
        with_whole_lines(text, Seq::empty()) == text,
        with_whole_lines(text, lines.push(line)) == with_whole_lines(text, lines) + line + "\n"@,
        with_capped_lines(text, Seq::empty()) == text,
        with_capped_lines(text, lines.push(line)) == with_capped_line(
            with_capped_lines(text, lines),
            line,
        ),
{
    assert(lines.push(line).drop_last() =~= lines);
}

} // verus!
