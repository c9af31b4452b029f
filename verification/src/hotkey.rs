//! The hotkeys that are made of two modifier keys, and their names.

use vstd::prelude::*;
use vstd::string::*;
use crate::text::{chars_of, same_text, str_views};

verus! {

/// The lower-case form of a character outside ASCII, which may be more than
/// one character.
pub uninterp spec fn lowercase_of(ch: char) -> Seq<char>;

/// The lower-case form of an ASCII character.
pub open spec fn ascii_lowered(ch: char) -> char {
    if 'A' <= ch <= 'Z' {
        (ch as u32 + 32) as char
    } else {
        ch
    }
}

/// The lower-case form of a character.
pub open spec fn lowered(ch: char) -> Seq<char> {
    if ch <= '\u{7f}' {
        seq![ascii_lowered(ch)]
    } else {
        lowercase_of(ch)
    }
}

/// `char::to_lowercase`: the lower-case form of a character depends on the
/// character alone; that of an ASCII letter is the ASCII lower-case letter,
/// and every other ASCII character is its own.
#[verifier::external_body]
fn lowercase(ch: char) -> (chars: Vec<char>)
    ensures
        chars@ == if ch <= '\u{7f}' { seq![ascii_lowered(ch)] } else { lowercase_of(ch) },
{
    ch.to_lowercase().collect()
}

/// Whether a character of a hotkey's name does not count: ASCII white space,
/// hyphens and underscores.
pub open spec fn is_filler(ch: char) -> bool {
    ||| ch == ' '
    ||| ch == '\t'
    ||| ch == '\n'
    ||| ch == '\u{c}'
    ||| ch == '\r'
    ||| ch == '-'
    ||| ch == '_'
}

/// What counts of a hotkey's name: its characters in lower case, without
/// filler.
pub open spec fn normalized(key: Seq<char>) -> Seq<char>
    decreases key.len(),
{
    if key.len() == 0 {
        Seq::empty()
    } else if is_filler(key.last()) {
        normalized(key.drop_last())
    } else {
        normalized(key.drop_last()) + lowered(key.last())
    }
}

/// Returns what counts of a hotkey's name.
pub fn normalize_key(key: &str) -> (text: String)
    ensures
        text@ == normalized(key@),
{
    let chars = chars_of(key);
    let mut text = String::new();
    let mut i: usize = 0;
    while i < chars.len()
        invariant
            i <= chars@.len(),
            text@ == normalized(chars@.take(i as int)),
        decreases chars@.len() - i,
    {
        let ch: char = chars[i];
        assert(chars@.take(i + 1).drop_last() == chars@.take(i as int));
        if !(ch == ' ' || ch == '\t' || ch == '\n' || ch == '\u{c}' || ch == '\r' || ch == '-' || ch
            == '_') {
            let lower = lowercase(ch);
            let ghost before = text@;
            let mut j: usize = 0;
            while j < lower.len()
                invariant
                    j <= lower@.len(),
                    text@ == before + lower@.take(j as int),
                decreases lower@.len() - j,
            {
                text.push(lower[j]);
                assert(lower@.take(j + 1) == lower@.take(j as int).push(lower@[j as int]));
                j += 1;
            }
            assert(lower@.take(j as int) == lower@);
        }
        i += 1;
    }
    assert(chars@.take(i as int) == chars@);
    text
}

/// Two modifier keys that make a hotkey together: the symbols that each may
/// be bound to, and the key codes that each most often has.
#[derive(Clone, Copy, Debug)]
pub struct KeyPair {
    pub canonical: &'static str,
    pub left_symbols: &'static [&'static str],
    pub right_symbols: &'static [&'static str],
    pub fallback_left: u16,
    pub fallback_right: u16,
}

/// What a pair of keys says.
pub struct KeyPairView {
    pub canonical: Seq<char>,
    pub left_symbols: Seq<Seq<char>>,
    pub right_symbols: Seq<Seq<char>>,
    pub fallback_left: u16,
    pub fallback_right: u16,
}

impl View for KeyPair {
    type V = KeyPairView;

    open spec fn view(&self) -> KeyPairView {
        KeyPairView {
            canonical: self.canonical@,
            left_symbols: str_views(self.left_symbols@),
            right_symbols: str_views(self.right_symbols@),
            fallback_left: self.fallback_left,
            fallback_right: self.fallback_right,
        }
    }
}

/// The other names of a hotkey, by its canonical name.
pub open spec fn other_names(canonical: Seq<char>) -> Seq<Seq<char>> {
    if canonical == "DoubleShift"@ {
        seq!["Shift+Shift"@, "LeftShift+RightShift"@]
    } else if canonical == "DoubleAlt"@ {
        seq![
            "Alt+Alt"@,
            "Option+Option"@,
            "DoubleOption"@,
            "LeftAlt+RightAlt"@,
            "LeftOption+RightOption"@,
        ]
    } else if canonical == "DoubleSuper"@ {
        seq![
            "Super+Super"@,
            "Meta+Meta"@,
            "Command+Command"@,
            "DoubleCommand"@,
            "DoubleMeta"@,
            "LeftSuper+RightSuper"@,
            "LeftCommand+RightCommand"@,
            "LeftMeta+RightMeta"@,
        ]
    } else if canonical == "DoubleControl"@ {
        seq![
            "Control+Control"@,
            "Ctrl+Ctrl"@,
            "DoubleCtrl"@,
            "LeftControl+RightControl"@,
            "LeftCtrl+RightCtrl"@,
        ]
    } else {
        Seq::empty()
    }
}

impl KeyPair {
    /// Returns the other names of the hotkey.
    pub fn aliases(&self) -> (aliases: &'static [&'static str])
        ensures
            str_views(aliases@) == other_names(self.canonical@),
    {
        if same_text(self.canonical, "DoubleShift") {
            let aliases: &'static [&'static str] = &["Shift+Shift", "LeftShift+RightShift"];
            assert(str_views(aliases@) =~= other_names(self.canonical@));
            aliases
        } else if same_text(self.canonical, "DoubleAlt") {
            let aliases: &'static [&'static str] = &[
                "Alt+Alt",
                "Option+Option",
                "DoubleOption",
                "LeftAlt+RightAlt",
                "LeftOption+RightOption",
            ];
            assert(str_views(aliases@) =~= other_names(self.canonical@));
            aliases
        } else if same_text(self.canonical, "DoubleSuper") {
            let aliases: &'static [&'static str] = &[
                "Super+Super",
                "Meta+Meta",
                "Command+Command",
                "DoubleCommand",
                "DoubleMeta",
                "LeftSuper+RightSuper",
                "LeftCommand+RightCommand",
                "LeftMeta+RightMeta",
            ];
            assert(str_views(aliases@) =~= other_names(self.canonical@));
            aliases
        } else if same_text(self.canonical, "DoubleControl") {
            let aliases: &'static [&'static str] = &[
                "Control+Control",
                "Ctrl+Ctrl",
                "DoubleCtrl",
                "LeftControl+RightControl",
                "LeftCtrl+RightCtrl",
            ];
            assert(str_views(aliases@) =~= other_names(self.canonical@));
            aliases
        } else {
            let aliases: &'static [&'static str] = &[];
            assert(str_views(aliases@) =~= other_names(self.canonical@));
            aliases
        }
    }
}

/// The hotkeys that are supported.
pub open spec fn supported_pairs() -> Seq<KeyPairView> {
    seq![
        KeyPairView {
            canonical: "DoubleShift"@,
            left_symbols: seq!["Shift_L"@],
            right_symbols: seq!["Shift_R"@],
            fallback_left: 50,
            fallback_right: 62,
        },
        KeyPairView {
            canonical: "DoubleAlt"@,
            left_symbols: seq!["Alt_L"@, "Meta_L"@],
            right_symbols: seq!["Alt_R"@, "ISO_Level3_Shift"@, "Meta_R"@],
            fallback_left: 64,
            fallback_right: 108,
        },
        KeyPairView {
            canonical: "DoubleSuper"@,
            left_symbols: seq!["Super_L"@, "Meta_L"@, "Hyper_L"@],
            right_symbols: seq!["Super_R"@, "Meta_R"@, "Hyper_R"@],
            fallback_left: 133,
            fallback_right: 134,
        },
        KeyPairView {
            canonical: "DoubleControl"@,
            left_symbols: seq!["Control_L"@],
            right_symbols: seq!["Control_R"@],
            fallback_left: 37,
            fallback_right: 105,
        },
    ]
}

/// The views of a list of pairs of keys.
pub open spec fn pair_views(pairs: Seq<KeyPair>) -> Seq<KeyPairView> {
    pairs.map_values(|pair: KeyPair| pair@)
}

/// Returns the hotkeys that are supported.
pub fn key_pairs() -> (pairs: Vec<KeyPair>)
    ensures
        pair_views(pairs@) == supported_pairs(),
{
    let shift = KeyPair {
        canonical: "DoubleShift",
        left_symbols: &["Shift_L"],
        right_symbols: &["Shift_R"],
        fallback_left: 50,
        fallback_right: 62,
    };
    let alt = KeyPair {
        canonical: "DoubleAlt",
        left_symbols: &["Alt_L", "Meta_L"],
        right_symbols: &["Alt_R", "ISO_Level3_Shift", "Meta_R"],
        fallback_left: 64,
        fallback_right: 108,
    };
    let super_key = KeyPair {
        canonical: "DoubleSuper",
        left_symbols: &["Super_L", "Meta_L", "Hyper_L"],
        right_symbols: &["Super_R", "Meta_R", "Hyper_R"],
        fallback_left: 133,
        fallback_right: 134,
    };
    let control = KeyPair {
        canonical: "DoubleControl",
        left_symbols: &["Control_L"],
        right_symbols: &["Control_R"],
        fallback_left: 37,
        fallback_right: 105,
    };
    assert(shift@.left_symbols =~= seq!["Shift_L"@]);
    assert(shift@.right_symbols =~= seq!["Shift_R"@]);
    assert(alt@.left_symbols =~= seq!["Alt_L"@, "Meta_L"@]);
    assert(alt@.right_symbols =~= seq!["Alt_R"@, "ISO_Level3_Shift"@, "Meta_R"@]);
    assert(super_key@.left_symbols =~= seq!["Super_L"@, "Meta_L"@, "Hyper_L"@]);
    assert(super_key@.right_symbols =~= seq!["Super_R"@, "Meta_R"@, "Hyper_R"@]);
    assert(control@.left_symbols =~= seq!["Control_L"@]);
    assert(control@.right_symbols =~= seq!["Control_R"@]);
    let pairs = vec![shift, alt, super_key, control];
    assert(pair_views(pairs@) =~= supported_pairs());
    pairs
}

/// Whether a hotkey goes by a name, of which `key` is what counts.
pub open spec fn goes_by(pair: KeyPairView, key: Seq<char>) -> bool {
    ||| normalized(pair.canonical) == key
    ||| exists|i: int|
        0 <= i < other_names(pair.canonical).len() && normalized(
            #[trigger] other_names(pair.canonical)[i],
        ) == key
}

/// The first of `pairs` that goes by a name.
pub open spec fn first_named(pairs: Seq<KeyPairView>, key: Seq<char>) -> Option<KeyPairView>
    decreases pairs.len(),
{
    if pairs.len() == 0 {
        None
    } else if goes_by(pairs[0], key) {
        Some(pairs[0])
    } else {
        first_named(pairs.drop_first(), key)
    }
}

/// The hotkey that goes by a name.
pub open spec fn named_pair(key: Seq<char>) -> Option<KeyPairView> {
    first_named(supported_pairs(), normalized(key))
}

/// Whether a hotkey goes by a name, of which `key` is what counts.
fn pair_goes_by(pair: &KeyPair, key: &str) -> (found: bool)
    ensures
        found == goes_by(pair@, key@),
{
    let canonical = normalize_key(pair.canonical);
    if same_text(canonical.as_str(), key) {
        return true;
    }
    let aliases = pair.aliases();
    let ghost names = other_names(pair.canonical@);
    assert(str_views(aliases@) == names);
    let mut i: usize = 0;
    while i < aliases.len()
        invariant
            i <= aliases@.len(),
            names == other_names(pair.canonical@),
            str_views(aliases@) == names,
            forall|j: int| 0 <= j < i ==> normalized(#[trigger] names[j]) != key@,
        decreases aliases@.len() - i,
    {
        assert(names[i as int] == aliases@[i as int]@);
        let name = normalize_key(aliases[i]);
        if same_text(name.as_str(), key) {
            return true;
        }
        i += 1;
    }
    false
}

/// Finds the hotkey that goes by a name. Case, white space, hyphens and
/// underscores do not count.
pub fn key_pair(key: &str) -> (pair: Option<KeyPair>)
    ensures
        match pair {
            Some(pair) => named_pair(key@) == Some(pair@),
            None => named_pair(key@) is None,
        },
{
    let name = normalize_key(key);
    let pairs = key_pairs();
    let ghost all = supported_pairs();
    let mut i: usize = 0;
    assert(all.skip(0) == all);
    while i < pairs.len()
        invariant
            i <= pairs@.len(),
            pair_views(pairs@) == all,
            first_named(all.skip(i as int), name@) == first_named(all, name@),
            name@ == normalized(key@),
            all == supported_pairs(),
        decreases pairs@.len() - i,
    {
        assert(all.skip(i as int)[0] == pairs@[i as int]@);
        assert(all.skip(i as int).drop_first() == all.skip(i + 1));
        if pair_goes_by(&pairs[i], name.as_str()) {
            return Some(pairs[i]);
        }
        i += 1;
    }
    None
}

/// What counts of two texts in a row is what counts of each.
pub proof fn lemma_normalized_concat(left: Seq<char>, right: Seq<char>)
    ensures
        normalized(left + right) == normalized(left) + normalized(right),
    decreases right.len(),
{
    if right.len() == 0 {
        assert(left + right == left);
        assert(normalized(left) + normalized(right) == normalized(left));
    } else {
        assert((left + right).drop_last() == left + right.drop_last());
        assert((left + right).last() == right.last());
        lemma_normalized_concat(left, right.drop_last());
        if !is_filler(right.last()) {
            assert(normalized(left) + normalized(right.drop_last()) + lowered(right.last())
                == normalized(left) + (normalized(right.drop_last()) + lowered(right.last())));
        }
    }
}

proof fn lemma_normalized_char(ch: char)
    ensures
        normalized(seq![ch]) == if is_filler(ch) { Seq::empty() } else { lowered(ch) },
{
    assert(seq![ch].drop_last() == Seq::<char>::empty());
    assert(normalized(Seq::<char>::empty()) == Seq::<char>::empty());
    assert(Seq::<char>::empty() + lowered(ch) == lowered(ch));
}

/// White space, hyphens and underscores in a name make no difference.
pub proof fn law_filler_makes_no_difference(left: Seq<char>, ch: char, right: Seq<char>)
    requires
        is_filler(ch),
    ensures
        named_pair(left + seq![ch] + right) == named_pair(left + right),
{
    lemma_normalized_concat(left + seq![ch], right);
    lemma_normalized_concat(left, seq![ch]);
    lemma_normalized_concat(left, right);
    lemma_normalized_char(ch);
    assert(normalized(left) + Seq::<char>::empty() == normalized(left));
}

/// The case of an ASCII letter in a name makes no difference.
pub proof fn law_case_makes_no_difference(left: Seq<char>, ch: char, right: Seq<char>)
    requires
        ch <= '\u{7f}',
    ensures
        named_pair(left + seq![ch] + right) == named_pair(
            left + seq![ascii_lowered(ch)] + right,
        ),
{
    let lower = ascii_lowered(ch);
    lemma_normalized_concat(left + seq![ch], right);
    lemma_normalized_concat(left, seq![ch]);
    lemma_normalized_concat(left + seq![lower], right);
    lemma_normalized_concat(left, seq![lower]);
    lemma_normalized_char(ch);
    lemma_normalized_char(lower);
    assert(ascii_lowered(lower) == lower);
}

/// Whether a name is made of ASCII characters that all count.
pub open spec fn is_plain(name: Seq<char>) -> bool {
    forall|i: int| 0 <= i < name.len() ==> #[trigger] name[i] <= '\u{7f}' && !is_filler(name[i])
}

/// What counts of a plain name is each of its characters in lower case.
proof fn lemma_normalized_plain(name: Seq<char>)
    requires
        is_plain(name),
    ensures
        normalized(name).len() == name.len(),
        forall|i: int|
            0 <= i < name.len() ==> #[trigger] normalized(name)[i] == ascii_lowered(name[i]),
    decreases name.len(),
{
    if name.len() > 0 {
        let before = name.drop_last();
        assert forall|i: int| 0 <= i < before.len() implies #[trigger] before[i] <= '\u{7f}'
            && !is_filler(before[i]) by {
            assert(before[i] == name[i]);
        }
        lemma_normalized_plain(before);
        assert(name[name.len() - 1] <= '\u{7f}');
        assert forall|i: int| 0 <= i < name.len() implies #[trigger] normalized(name)[i]
            == ascii_lowered(name[i]) by {
            if i < before.len() {
                assert(normalized(name)[i] == normalized(before)[i]);
                assert(before[i] == name[i]);
            }
        }
    }
}

/// Two plain names of different lengths, or with different letters at a place,
/// are different names.
proof fn lemma_different_names(left: Seq<char>, right: Seq<char>, at: int)
    requires
        is_plain(left),
        is_plain(right),
        left.len() != right.len() || (0 <= at < left.len() && ascii_lowered(left[at])
            != ascii_lowered(right[at])),
    ensures
        normalized(left) != normalized(right),
{
    lemma_normalized_plain(left);
    lemma_normalized_plain(right);
    if left.len() == right.len() {
        assert(normalized(left)[at] != normalized(right)[at]);
    }
}

/// A hotkey's canonical name and its other names.
pub open spec fn all_names(pair: KeyPairView) -> Seq<Seq<char>> {
    seq![pair.canonical] + other_names(pair.canonical)
}

/// Whether `left` and `right` have no name in common.
pub open spec fn share_no_name(left: KeyPairView, right: KeyPairView) -> bool {
    forall|i: int, j: int|
        0 <= i < all_names(left).len() && 0 <= j < all_names(right).len() ==> normalized(
            #[trigger] all_names(left)[i],
        ) != normalized(#[trigger] all_names(right)[j])
}

/// Plain names of different lengths are different names.
proof fn lemma_lengths_tell_names_apart(left: Seq<Seq<char>>, right: Seq<Seq<char>>)
    requires
        forall|i: int| 0 <= i < left.len() ==> is_plain(#[trigger] left[i]),
        forall|j: int| 0 <= j < right.len() ==> is_plain(#[trigger] right[j]),
    ensures
        forall|i: int, j: int|
            0 <= i < left.len() && 0 <= j < right.len() && #[trigger] left[i].len()
                != #[trigger] right[j].len() ==> normalized(left[i]) != normalized(right[j]),
{
    assert forall|i: int, j: int|
        0 <= i < left.len() && 0 <= j < right.len() && #[trigger] left[i].len()
            != #[trigger] right[j].len() implies normalized(left[i]) != normalized(right[j]) by {
        lemma_different_names(left[i], right[j], 0);
    }
}

/// The names of the `DoubleShift` hotkey are plain.
proof fn lemma_shift_names()
    ensures
        all_names(supported_pairs()[0]) == seq![
            "DoubleShift"@,
            "Shift+Shift"@,
            "LeftShift+RightShift"@,
        ],
        is_plain("DoubleShift"@) && "DoubleShift"@.len() == 11,
        is_plain("Shift+Shift"@) && "Shift+Shift"@.len() == 11,
        is_plain("LeftShift+RightShift"@) && "LeftShift+RightShift"@.len() == 20,
{
    reveal_strlit("DoubleShift");
    reveal_strlit("Shift+Shift");
    reveal_strlit("LeftShift+RightShift");
    assert(all_names(supported_pairs()[0]) =~= seq![
        "DoubleShift"@,
        "Shift+Shift"@,
        "LeftShift+RightShift"@,
    ]);
}

/// The names of the `DoubleAlt` hotkey are plain.
proof fn lemma_alt_names()
    ensures
        all_names(supported_pairs()[1]) == seq![
            "DoubleAlt"@,
            "Alt+Alt"@,
            "Option+Option"@,
            "DoubleOption"@,
            "LeftAlt+RightAlt"@,
            "LeftOption+RightOption"@,
        ],
        is_plain("DoubleAlt"@) && "DoubleAlt"@.len() == 9,
        is_plain("Alt+Alt"@) && "Alt+Alt"@.len() == 7,
        is_plain("Option+Option"@) && "Option+Option"@.len() == 13,
        is_plain("DoubleOption"@) && "DoubleOption"@.len() == 12,
        is_plain("LeftAlt+RightAlt"@) && "LeftAlt+RightAlt"@.len() == 16,
        is_plain("LeftOption+RightOption"@) && "LeftOption+RightOption"@.len() == 22,
{
    reveal_strlit("DoubleAlt");
    reveal_strlit("Alt+Alt");
    reveal_strlit("Option+Option");
    reveal_strlit("DoubleOption");
    reveal_strlit("LeftAlt+RightAlt");
    reveal_strlit("LeftOption+RightOption");
    reveal_strlit("DoubleShift");
    assert("DoubleAlt"@.len() != "DoubleShift"@.len());
    assert(all_names(supported_pairs()[1]) =~= seq![
        "DoubleAlt"@,
        "Alt+Alt"@,
        "Option+Option"@,
        "DoubleOption"@,
        "LeftAlt+RightAlt"@,
        "LeftOption+RightOption"@,
    ]);
}

/// The names of the `DoubleSuper` hotkey are plain.
proof fn lemma_super_names()
    ensures
        all_names(supported_pairs()[2]) == seq![
            "DoubleSuper"@,
            "Super+Super"@,
            "Meta+Meta"@,
            "Command+Command"@,
            "DoubleCommand"@,
            "DoubleMeta"@,
            "LeftSuper+RightSuper"@,
            "LeftCommand+RightCommand"@,
            "LeftMeta+RightMeta"@,
        ],
        is_plain("DoubleSuper"@) && "DoubleSuper"@.len() == 11,
        is_plain("Super+Super"@) && "Super+Super"@.len() == 11,
        is_plain("Meta+Meta"@) && "Meta+Meta"@.len() == 9,
        is_plain("Command+Command"@) && "Command+Command"@.len() == 15,
        is_plain("DoubleCommand"@) && "DoubleCommand"@.len() == 13,
        is_plain("DoubleMeta"@) && "DoubleMeta"@.len() == 10,
        is_plain("LeftSuper+RightSuper"@) && "LeftSuper+RightSuper"@.len() == 20,
        is_plain("LeftCommand+RightCommand"@) && "LeftCommand+RightCommand"@.len() == 24,
        is_plain("LeftMeta+RightMeta"@) && "LeftMeta+RightMeta"@.len() == 18,
{
    reveal_strlit("DoubleSuper");
    reveal_strlit("Super+Super");
    reveal_strlit("Meta+Meta");
    reveal_strlit("Command+Command");
    reveal_strlit("DoubleCommand");
    reveal_strlit("DoubleMeta");
    reveal_strlit("LeftSuper+RightSuper");
    reveal_strlit("LeftCommand+RightCommand");
    reveal_strlit("LeftMeta+RightMeta");
    reveal_strlit("DoubleShift");
    reveal_strlit("DoubleAlt");
    assert("DoubleSuper"@[7] != "DoubleShift"@[7]);
    assert("DoubleSuper"@.len() != "DoubleAlt"@.len());
    assert(all_names(supported_pairs()[2]) =~= seq![
        "DoubleSuper"@,
        "Super+Super"@,
        "Meta+Meta"@,
        "Command+Command"@,
        "DoubleCommand"@,
        "DoubleMeta"@,
        "LeftSuper+RightSuper"@,
        "LeftCommand+RightCommand"@,
        "LeftMeta+RightMeta"@,
    ]);
}

/// The names of the `DoubleControl` hotkey are plain.
proof fn lemma_control_names()
    ensures
        all_names(supported_pairs()[3]) == seq![
            "DoubleControl"@,
            "Control+Control"@,
            "Ctrl+Ctrl"@,
            "DoubleCtrl"@,
            "LeftControl+RightControl"@,
            "LeftCtrl+RightCtrl"@,
        ],
        is_plain("DoubleControl"@) && "DoubleControl"@.len() == 13,
        is_plain("Control+Control"@) && "Control+Control"@.len() == 15,
        is_plain("Ctrl+Ctrl"@) && "Ctrl+Ctrl"@.len() == 9,
        is_plain("DoubleCtrl"@) && "DoubleCtrl"@.len() == 10,
        is_plain("LeftControl+RightControl"@) && "LeftControl+RightControl"@.len() == 24,
        is_plain("LeftCtrl+RightCtrl"@) && "LeftCtrl+RightCtrl"@.len() == 18,
{
    reveal_strlit("DoubleControl");
    reveal_strlit("Control+Control");
    reveal_strlit("Ctrl+Ctrl");
    reveal_strlit("DoubleCtrl");
    reveal_strlit("LeftControl+RightControl");
    reveal_strlit("LeftCtrl+RightCtrl");
    reveal_strlit("DoubleShift");
    reveal_strlit("DoubleAlt");
    reveal_strlit("DoubleSuper");
    assert("DoubleControl"@.len() != "DoubleShift"@.len());
    assert("DoubleControl"@.len() != "DoubleAlt"@.len());
    assert("DoubleControl"@.len() != "DoubleSuper"@.len());
    assert(all_names(supported_pairs()[3]) =~= seq![
        "DoubleControl"@,
        "Control+Control"@,
        "Ctrl+Ctrl"@,
        "DoubleCtrl"@,
        "LeftControl+RightControl"@,
        "LeftCtrl+RightCtrl"@,
    ]);
}

proof fn lemma_alt_and_shift()
    ensures
        share_no_name(supported_pairs()[1], supported_pairs()[0]),
{
    lemma_alt_names();
    lemma_shift_names();
    lemma_lengths_tell_names_apart(
        all_names(supported_pairs()[1]),
        all_names(supported_pairs()[0]),
    );
}

proof fn lemma_super_and_shift()
    ensures
        share_no_name(supported_pairs()[2], supported_pairs()[0]),
{
    lemma_super_names();
    lemma_shift_names();
    reveal_strlit("DoubleSuper");
    reveal_strlit("DoubleShift");
    lemma_different_names("DoubleSuper"@, "DoubleShift"@, 7);
    reveal_strlit("Shift+Shift");
    lemma_different_names("DoubleSuper"@, "Shift+Shift"@, 0);
    reveal_strlit("Super+Super");
    lemma_different_names("Super+Super"@, "DoubleShift"@, 0);
    lemma_different_names("Super+Super"@, "Shift+Shift"@, 1);
    reveal_strlit("LeftSuper+RightSuper");
    reveal_strlit("LeftShift+RightShift");
    lemma_different_names("LeftSuper+RightSuper"@, "LeftShift+RightShift"@, 5);
    lemma_lengths_tell_names_apart(
        all_names(supported_pairs()[2]),
        all_names(supported_pairs()[0]),
    );
}

proof fn lemma_super_and_alt()
    ensures
        share_no_name(supported_pairs()[2], supported_pairs()[1]),
{
    lemma_super_names();
    lemma_alt_names();
    reveal_strlit("Meta+Meta");
    reveal_strlit("DoubleAlt");
    lemma_different_names("Meta+Meta"@, "DoubleAlt"@, 0);
    reveal_strlit("DoubleCommand");
    reveal_strlit("Option+Option");
    lemma_different_names("DoubleCommand"@, "Option+Option"@, 0);
    lemma_lengths_tell_names_apart(
        all_names(supported_pairs()[2]),
        all_names(supported_pairs()[1]),
    );
}

proof fn lemma_control_and_shift()
    ensures
        share_no_name(supported_pairs()[3], supported_pairs()[0]),
{
    lemma_control_names();
    lemma_shift_names();
    lemma_lengths_tell_names_apart(
        all_names(supported_pairs()[3]),
        all_names(supported_pairs()[0]),
    );
}

proof fn lemma_control_and_alt()
    ensures
        share_no_name(supported_pairs()[3], supported_pairs()[1]),
{
    lemma_control_names();
    lemma_alt_names();
    reveal_strlit("DoubleControl");
    reveal_strlit("Option+Option");
    lemma_different_names("DoubleControl"@, "Option+Option"@, 0);
    reveal_strlit("Ctrl+Ctrl");
    reveal_strlit("DoubleAlt");
    lemma_different_names("Ctrl+Ctrl"@, "DoubleAlt"@, 0);
    lemma_lengths_tell_names_apart(
        all_names(supported_pairs()[3]),
        all_names(supported_pairs()[1]),
    );
}

proof fn lemma_control_and_super()
    ensures
        share_no_name(supported_pairs()[3], supported_pairs()[2]),
{
    lemma_control_names();
    lemma_super_names();
    reveal_strlit("DoubleControl");
    reveal_strlit("DoubleCommand");
    lemma_different_names("DoubleControl"@, "DoubleCommand"@, 8);
    reveal_strlit("Control+Control");
    reveal_strlit("Command+Command");
    lemma_different_names("Control+Control"@, "Command+Command"@, 2);
    reveal_strlit("Ctrl+Ctrl");
    reveal_strlit("Meta+Meta");
    lemma_different_names("Ctrl+Ctrl"@, "Meta+Meta"@, 0);
    reveal_strlit("DoubleCtrl");
    reveal_strlit("DoubleMeta");
    lemma_different_names("DoubleCtrl"@, "DoubleMeta"@, 6);
    reveal_strlit("LeftControl+RightControl");
    reveal_strlit("LeftCommand+RightCommand");
    lemma_different_names("LeftControl+RightControl"@, "LeftCommand+RightCommand"@, 6);
    reveal_strlit("LeftCtrl+RightCtrl");
    reveal_strlit("LeftMeta+RightMeta");
    lemma_different_names("LeftCtrl+RightCtrl"@, "LeftMeta+RightMeta"@, 4);
    lemma_lengths_tell_names_apart(
        all_names(supported_pairs()[3]),
        all_names(supported_pairs()[2]),
    );
}

/// Every name of a supported hotkey, canonical or not, finds that hotkey.
pub proof fn law_every_name_finds_its_hotkey(i: int, k: int)
    requires
        0 <= i < supported_pairs().len(),
        0 <= k < all_names(supported_pairs()[i]).len(),
    ensures
        named_pair(all_names(supported_pairs()[i])[k]) == Some(supported_pairs()[i]),
{
    let name = all_names(supported_pairs()[i])[k];
    let pairs = supported_pairs();
    assert(goes_by(pairs[i], normalized(name))) by {
        if k > 0 {
            assert(name == other_names(pairs[i].canonical)[k - 1]);
        }
    }
    assert forall|j: int| 0 <= j < i implies !goes_by(#[trigger] pairs[j], normalized(name)) by {
        lemma_earlier_pairs(i, j);
        assert(all_names(pairs[j])[0] == pairs[j].canonical);
        assert forall|n: int| 0 <= n < other_names(pairs[j].canonical).len() implies normalized(
            #[trigger] other_names(pairs[j].canonical)[n],
        ) != normalized(name) by {
            assert(all_names(pairs[j])[n + 1] == other_names(pairs[j].canonical)[n]);
        }
    }
    lemma_first_named(pairs, normalized(name), i);
}

/// No two supported hotkeys share a name.
proof fn lemma_earlier_pairs(i: int, j: int)
    requires
        0 <= j < i < supported_pairs().len(),
    ensures
        share_no_name(supported_pairs()[i], supported_pairs()[j]),
{
    if i == 1 {
        lemma_alt_and_shift();
    } else if i == 2 {
        if j == 0 {
            lemma_super_and_shift();
        } else {
            lemma_super_and_alt();
        }
    } else {
        if j == 0 {
            lemma_control_and_shift();
        } else if j == 1 {
            lemma_control_and_alt();
        } else {
            lemma_control_and_super();
        }
    }
}

/// The first pair that goes by a name is the one that no earlier one goes by.
proof fn lemma_first_named(pairs: Seq<KeyPairView>, key: Seq<char>, i: int)
    requires
        0 <= i < pairs.len(),
        goes_by(pairs[i], key),
        forall|j: int| 0 <= j < i ==> !goes_by(#[trigger] pairs[j], key),
    ensures
        first_named(pairs, key) == Some(pairs[i]),
    decreases i,
{
    if i > 0 {
        assert(!goes_by(pairs[0], key));
        let rest = pairs.drop_first();
        assert forall|j: int| 0 <= j < i - 1 implies !goes_by(#[trigger] rest[j], key) by {
            assert(rest[j] == pairs[j + 1]);
        }
        lemma_first_named(rest, key, i - 1);
    }
}

/// What counts of a name is found character by character: white space, hyphens
/// and underscores do not count, ASCII capitals count as small letters, and
/// every other ASCII character as itself.
pub proof fn law_name_counts_by_character(name: Seq<char>, ch: char)
    ensures
        normalized(Seq::<char>::empty()) == Seq::<char>::empty(),
        normalized(name.push(ch)) == if ch == ' ' || ch == '\t' || ch == '\n' || ch == '\u{c}'
            || ch == '\r' || ch == '-' || ch == '_' {
            normalized(name)
        } else if 'A' <= ch <= 'Z' {
            normalized(name).push((ch as u32 + 32) as char)
        } else if ch <= '\u{7f}' {
            normalized(name).push(ch)
        } else {
            normalized(name) + lowercase_of(ch)
        },
{
    assert(name.push(ch).drop_last() =~= name);
    assert(normalized(name.push(ch)) =~= if is_filler(ch) {
        normalized(name)
    } else {
        normalized(name) + lowered(ch)
    });
}

/// A name finds a hotkey exactly if it counts as one of the names of a
/// supported hotkey, and the hotkey that it finds has such a name.
pub proof fn law_only_names_find_a_hotkey(key: Seq<char>)
    ensures
        named_pair(key) is None <==> forall|i: int, k: int|
            0 <= i < supported_pairs().len() && 0 <= k < all_names(supported_pairs()[i]).len()
                ==> normalized(#[trigger] all_names(supported_pairs()[i])[k]) != normalized(key),
        named_pair(key) matches Some(pair) ==> {
            &&& supported_pairs().contains(pair)
            &&& exists|k: int|
                0 <= k < all_names(pair).len() && normalized(#[trigger] all_names(pair)[k])
                    == normalized(key)
        },
{
    let pairs = supported_pairs();
    lemma_found_pair(pairs, normalized(key));
    if let Some(pair) = named_pair(key) {
        lemma_goes_by_a_name(pair, normalized(key));
        let at = choose|i: int| 0 <= i < pairs.len() && pairs[i] == pair;
        let k = choose|k: int|
            0 <= k < all_names(pair).len() && normalized(#[trigger] all_names(pair)[k])
                == normalized(key);
        assert(normalized(all_names(supported_pairs()[at])[k]) == normalized(key));
    } else {
        assert forall|i: int, k: int|
            0 <= i < supported_pairs().len() && 0 <= k < all_names(
                supported_pairs()[i],
            ).len() implies normalized(#[trigger] all_names(supported_pairs()[i])[k]) != normalized(
            key,
        ) by {
            assert(!goes_by(pairs[i], normalized(key)));
            if k > 0 {
                assert(all_names(pairs[i])[k] == other_names(pairs[i].canonical)[k - 1]);
            }
        }
    }
}

proof fn lemma_goes_by_a_name(pair: KeyPairView, key: Seq<char>)
    requires
        goes_by(pair, key),
    ensures
        exists|k: int|
            0 <= k < all_names(pair).len() && normalized(#[trigger] all_names(pair)[k]) == key,
{
    if normalized(pair.canonical) == key {
        assert(all_names(pair)[0] == pair.canonical);
    } else {
        let i = choose|i: int|
            0 <= i < other_names(pair.canonical).len() && normalized(
                #[trigger] other_names(pair.canonical)[i],
            ) == key;
        assert(all_names(pair)[i + 1] == other_names(pair.canonical)[i]);
    }
}

proof fn lemma_found_pair(pairs: Seq<KeyPairView>, key: Seq<char>)
    ensures
        first_named(pairs, key) is None <==> forall|i: int|
            0 <= i < pairs.len() ==> !goes_by(#[trigger] pairs[i], key),
        first_named(pairs, key) matches Some(pair) ==> goes_by(pair, key) && pairs.contains(pair),
    decreases pairs.len(),
{
    if pairs.len() > 0 {
        let rest = pairs.drop_first();
        lemma_found_pair(rest, key);
        assert forall|i: int| 0 <= i < rest.len() implies rest[i] == #[trigger] pairs[i + 1] by {}
        if !goes_by(pairs[0], key) {
            if let Some(pair) = first_named(rest, key) {
                let at = choose|i: int| 0 <= i < rest.len() && rest[i] == pair;
                assert(pairs[at + 1] == pair);
                assert(goes_by(pairs[at + 1], key));
            } else {
                assert forall|i: int| 0 <= i < pairs.len() implies !goes_by(
                    #[trigger] pairs[i],
                    key,
                ) by {
                    if i > 0 {
                        assert(!goes_by(rest[i - 1], key));
                    }
                }
            }
        } else {
            assert(pairs[0] == pairs[0]);
        }
    }
}

/// The hotkey that each name stands for, with the symbols that its keys may be
/// bound to and the usual codes of its keys.
pub proof fn law_names_and_keys(name: Seq<char>)
    ensures
        seq!["DoubleShift"@, "Shift+Shift"@, "LeftShift+RightShift"@].contains(name) ==> named_pair(
            name,
        ) == Some(
            KeyPairView {
                canonical: "DoubleShift"@,
                left_symbols: seq!["Shift_L"@],
                right_symbols: seq!["Shift_R"@],
                fallback_left: 50,
                fallback_right: 62,
            },
        ),
        seq![
            "DoubleAlt"@,
            "Alt+Alt"@,
            "Option+Option"@,
            "DoubleOption"@,
            "LeftAlt+RightAlt"@,
            "LeftOption+RightOption"@,
        ].contains(name) ==> named_pair(name) == Some(
            KeyPairView {
                canonical: "DoubleAlt"@,
                left_symbols: seq!["Alt_L"@, "Meta_L"@],
                right_symbols: seq!["Alt_R"@, "ISO_Level3_Shift"@, "Meta_R"@],
                fallback_left: 64,
                fallback_right: 108,
            },
        ),
        seq![
            "DoubleSuper"@,
            "Super+Super"@,
            "Meta+Meta"@,
            "Command+Command"@,
            "DoubleCommand"@,
            "DoubleMeta"@,
            "LeftSuper+RightSuper"@,
            "LeftCommand+RightCommand"@,
            "LeftMeta+RightMeta"@,
        ].contains(name) ==> named_pair(name) == Some(
            KeyPairView {
                canonical: "DoubleSuper"@,
                left_symbols: seq!["Super_L"@, "Meta_L"@, "Hyper_L"@],
                right_symbols: seq!["Super_R"@, "Meta_R"@, "Hyper_R"@],
                fallback_left: 133,
                fallback_right: 134,
            },
        ),
        seq![
            "DoubleControl"@,
            "Control+Control"@,
            "Ctrl+Ctrl"@,
            "DoubleCtrl"@,
            "LeftControl+RightControl"@,
            "LeftCtrl+RightCtrl"@,
        ].contains(name) ==> named_pair(name) == Some(
            KeyPairView {
                canonical: "DoubleControl"@,
                left_symbols: seq!["Control_L"@],
                right_symbols: seq!["Control_R"@],
                fallback_left: 37,
                fallback_right: 105,
            },
        ),
        supported_pairs().len() == 4,
        all_names(supported_pairs()[0]).len() == 3,
        all_names(supported_pairs()[1]).len() == 6,
        all_names(supported_pairs()[2]).len() == 9,
        all_names(supported_pairs()[3]).len() == 6,
{
    lemma_shift_names();
    lemma_alt_names();
    lemma_super_names();
    lemma_control_names();
    assert forall|i: int|
        0 <= i < supported_pairs().len() && #[trigger] all_names(supported_pairs()[i]).contains(
            name,
        ) implies named_pair(name) == Some(supported_pairs()[i]) by {
        let names = all_names(supported_pairs()[i]);
        let k = choose|k: int| 0 <= k < names.len() && names[k] == name;
        law_every_name_finds_its_hotkey(i, k);
    }
    assert(all_names(supported_pairs()[0]).contains(name) ==> named_pair(name) == Some(
        supported_pairs()[0],
    ));
    assert(all_names(supported_pairs()[1]).contains(name) ==> named_pair(name) == Some(
        supported_pairs()[1],
    ));
    assert(all_names(supported_pairs()[2]).contains(name) ==> named_pair(name) == Some(
        supported_pairs()[2],
    ));
    assert(all_names(supported_pairs()[3]).contains(name) ==> named_pair(name) == Some(
        supported_pairs()[3],
    ));
}

/// The view of a pair of keys is that of its fields.
pub proof fn law_view_of_a_pair(pair: KeyPair)
    ensures
        pair@.canonical == pair.canonical@,
        pair@.left_symbols == str_views(pair.left_symbols@),
        pair@.right_symbols == str_views(pair.right_symbols@),
        pair@.fallback_left == pair.fallback_left,
        pair@.fallback_right == pair.fallback_right,
{
}

/// Only a supported hotkey has other names, and the hotkeys keep their order
/// when they are viewed.
pub proof fn law_other_names(canonical: Seq<char>, pairs: Seq<KeyPair>, i: int)
    ensures
        canonical != "DoubleShift"@ && canonical != "DoubleAlt"@ && canonical != "DoubleSuper"@
            && canonical != "DoubleControl"@ ==> other_names(canonical).len() == 0,
        pair_views(pairs).len() == pairs.len(),
        0 <= i < pairs.len() ==> pair_views(pairs)[i] == pairs[i]@,
{
}

} // verus!
