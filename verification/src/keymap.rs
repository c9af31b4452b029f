//! Key codes by the symbols that the keyboard map binds to them.

use vstd::prelude::*;
use vstd::string::*;
use vstd::utf8::*;
use vstd::hash_map::StringHashMap;
use crate::codec::{decode_lossy, lossy_text};
use crate::numbers::{
    decimal, is_digit, law_decimal_reads_back, lemma_decimal_digits, parse_unsigned, parsed_unsigned,
};
use crate::text::{
    chars_of, find_char, first_at, is_white, law_a_word_is_its_only_part, law_first_place,
    law_white_space_separates_words, lemma_lines_after_line_feed, lemma_some_line, lines, same_text,
    split_lines, split_words, str_views, views, without_return, words,
};

verus! {

/// The key code that a line of the form `keycode <code> = <symbols>` binds.
pub open spec fn line_code(line: Seq<char>) -> Option<u16> {
    let at = first_at(line, '=');
    let prefix = words(line.take(at as int));
    if at < line.len() && prefix.len() >= 2 && prefix[0] == "keycode"@ {
        match parsed_unsigned(prefix[1], u16::MAX as nat) {
            Some(code) => Some(code as u16),
            None => None,
        }
    } else {
        None
    }
}

/// The symbols that a line of the form `keycode <code> = <symbols>` binds.
pub open spec fn line_symbols(line: Seq<char>) -> Seq<Seq<char>> {
    words(line.skip(first_at(line, '=') as int + 1))
}

/// `table` with `code` for each of `symbols` that has no code yet.
pub open spec fn with_symbols(
    table: Map<Seq<char>, u16>,
    symbols: Seq<Seq<char>>,
    code: u16,
) -> Map<Seq<char>, u16>
    decreases symbols.len(),
{
    if symbols.len() == 0 {
        table
    } else {
        let before = with_symbols(table, symbols.drop_last(), code);
        if before.contains_key(symbols.last()) {
            before
        } else {
            before.insert(symbols.last(), code)
        }
    }
}

/// `table` with what one line binds.
pub open spec fn with_line(table: Map<Seq<char>, u16>, line: Seq<char>) -> Map<Seq<char>, u16> {
    match line_code(line) {
        Some(code) => with_symbols(table, line_symbols(line), code),
        None => table,
    }
}

/// The codes that some lines bind, by symbol.
pub open spec fn bound_codes(lines: Seq<Seq<char>>) -> Map<Seq<char>, u16>
    decreases lines.len(),
{
    if lines.len() == 0 {
        Map::empty()
    } else {
        with_line(bound_codes(lines.drop_last()), lines.last())
    }
}

/// Reads the code that a line binds.
fn read_line_code(chars: &[char], at: usize) -> (code: Option<u16>)
    requires
        at == first_at(chars@, '='),
        at <= chars@.len(),
    ensures
        code == line_code(chars@),
{
    if at == chars.len() {
        return None;
    }
    let prefix = split_words(vstd::slice::slice_subrange(chars, 0, at));
    assert(chars@.subrange(0, at as int) == chars@.take(at as int));
    let ghost parts = words(chars@.take(at as int));
    assert(views(prefix@) == parts);
    if prefix.len() < 2 {
        return None;
    }
    assert(parts[0] == prefix@[0]@ && parts[1] == prefix@[1]@);
    if !same_text(prefix[0].as_str(), "keycode") {
        return None;
    }
    let number = chars_of(prefix[1].as_str());
    match parse_unsigned(&number, 65535) {
        Some(code) => Some(code as u16),
        None => None,
    }
}

/// Reads the codes that `xmodmap -pke` printed, by symbol. Where a symbol is
/// bound more than once, the first code counts.
pub fn parse_xmodmap(output: &str) -> (keycodes: StringHashMap<u16>)
    ensures
        keycodes@ == bound_codes(lines(output@)),
{
    let mut keycodes: StringHashMap<u16> = StringHashMap::new();
    let chars = chars_of(output);
    let parts = split_lines(&chars);
    let ghost all = lines(output@);
    let mut i: usize = 0;
    while i < parts.len()
        invariant
            i <= parts@.len(),
            views(parts@) == all,
            keycodes@ == bound_codes(all.take(i as int)),
        decreases parts@.len() - i,
    {
        let line = chars_of(parts[i].as_str());
        assert(all[i as int] == line@);
        assert(all.take(i + 1).drop_last() == all.take(i as int));
        let ghost before = keycodes@;
        let at = find_char(&line, '=');
        if let Some(code) = read_line_code(&line, at) {
            let symbols = split_words(vstd::slice::slice_subrange(&line, at + 1, line.len()));
            assert(line@.subrange(at + 1, line@.len() as int) == line@.skip(at as int + 1));
            let ghost bound = line_symbols(line@);
            assert(views(symbols@) == bound);
            let mut j: usize = 0;
            while j < symbols.len()
                invariant
                    j <= symbols@.len(),
                    views(symbols@) == bound,
                    keycodes@ == with_symbols(before, bound.take(j as int), code),
                decreases symbols@.len() - j,
            {
                assert(bound[j as int] == symbols@[j as int]@);
                assert(bound.take(j + 1).drop_last() == bound.take(j as int));
                if !keycodes.contains_key(symbols[j].as_str()) {
                    keycodes.insert(symbols[j].clone(), code);
                }
                j += 1;
            }
            assert(bound.take(j as int) == bound);
        }
        i += 1;
    }
    assert(all.take(i as int) == all);
    keycodes
}

/// The codes that a run of `xmodmap -pke` printed: none where it could not be
/// run or failed.
pub open spec fn reported_codes(output: Option<(bool, &[u8])>) -> Map<Seq<char>, u16> {
    match output {
        Some((true, stdout)) => bound_codes(lines(lossy_text(stdout@))),
        _ => Map::empty(),
    }
}

/// Reads the codes from a run of `xmodmap -pke`: whether it succeeded, and
/// what it printed. There are none where it could not be run or failed.
pub fn read_xmodmap_keycodes(output: Option<(bool, &[u8])>) -> (keycodes: StringHashMap<u16>)
    ensures
        keycodes@ == reported_codes(output),
        output matches Some((true, stdout)) ==> valid_utf8(stdout@) ==> keycodes@ == bound_codes(
            lines(decode_utf8(stdout@)),
        ),
{
    match output {
        Some((success, stdout)) => if success {
            let text = decode_lossy(stdout);
            parse_xmodmap(text.as_str())
        } else {
            StringHashMap::new()
        },
        None => StringHashMap::new(),
    }
}

/// The code of the first of `symbols` that has one.
pub open spec fn first_bound(table: Map<Seq<char>, u16>, symbols: Seq<Seq<char>>) -> Option<u16>
    decreases symbols.len(),
{
    if symbols.len() == 0 {
        None
    } else if table.contains_key(symbols[0]) {
        Some(table[symbols[0]])
    } else {
        first_bound(table, symbols.drop_first())
    }
}

/// Returns the code of the first of `symbols` that has one.
pub fn find_keysym_code(keycodes: &StringHashMap<u16>, symbols: &[&str]) -> (code: Option<u16>)
    ensures
        code == first_bound(keycodes@, str_views(symbols@)),
{
    let ghost all = str_views(symbols@);
    let mut i: usize = 0;
    assert(all.skip(0) == all);
    while i < symbols.len()
        invariant
            i <= symbols@.len(),
            all == str_views(symbols@),
            first_bound(keycodes@, all.skip(i as int)) == first_bound(keycodes@, all),
        decreases symbols@.len() - i,
    {
        assert(all.skip(i as int)[0] == symbols@[i as int]@);
        assert(all.skip(i as int).drop_first() == all.skip(i + 1));
        if let Some(code) = keycodes.get(symbols[i]) {
            return Some(*code);
        }
        i += 1;
    }
    None
}

/// Whether a line binds a symbol.
pub open spec fn binds(line: Seq<char>, symbol: Seq<char>) -> bool {
    line_code(line) is Some && line_symbols(line).contains(symbol)
}

proof fn lemma_with_symbols(
    table: Map<Seq<char>, u16>,
    symbols: Seq<Seq<char>>,
    code: u16,
    symbol: Seq<char>,
)
    ensures
        with_symbols(table, symbols, code).contains_key(symbol) <==> table.contains_key(symbol)
            || symbols.contains(symbol),
        with_symbols(table, symbols, code).contains_key(symbol) ==> with_symbols(
            table,
            symbols,
            code,
        )[symbol] == if table.contains_key(symbol) { table[symbol] } else { code },
    decreases symbols.len(),
{
    if symbols.len() > 0 {
        let before = symbols.drop_last();
        lemma_with_symbols(table, before, code, symbol);
        assert(symbols.contains(symbol) <==> before.contains(symbol) || symbols.last() == symbol)
            by {
            if before.contains(symbol) {
                let i = choose|i: int| 0 <= i < before.len() && before[i] == symbol;
                assert(symbols[i] == symbol);
            }
            if symbols.contains(symbol) && symbols.last() != symbol {
                let i = choose|i: int| 0 <= i < symbols.len() && symbols[i] == symbol;
                assert(before[i] == symbol);
            }
            if symbols.last() == symbol {
                assert(symbols[symbols.len() - 1] == symbol);
            }
        }
    }
}

/// A symbol has a code exactly if a line binds it, and it is the code of the
/// first line that does.
pub proof fn law_first_binding_counts(lines: Seq<Seq<char>>, symbol: Seq<char>)
    ensures
        bound_codes(lines).contains_key(symbol) <==> exists|i: int|
            0 <= i < lines.len() && binds(#[trigger] lines[i], symbol),
        forall|i: int|
            0 <= i < lines.len() && binds(#[trigger] lines[i], symbol) && (forall|j: int|
                0 <= j < i ==> !binds(#[trigger] lines[j], symbol)) ==> Some(
                bound_codes(lines)[symbol],
            ) == line_code(lines[i]),
    decreases lines.len(),
{
    if lines.len() > 0 {
        let before = lines.drop_last();
        let last = lines.last();
        law_first_binding_counts(before, symbol);
        let table = bound_codes(before);
        if let Some(code) = line_code(last) {
            lemma_with_symbols(table, line_symbols(last), code, symbol);
        }
        assert forall|i: int| 0 <= i < before.len() implies before[i] == #[trigger] lines[i] by {}
        assert(lines[lines.len() - 1] == last);
        if bound_codes(lines).contains_key(symbol) {
            if table.contains_key(symbol) {
                let i = choose|i: int| 0 <= i < before.len() && binds(#[trigger] before[i], symbol);
                assert(binds(lines[i], symbol));
            } else {
                assert(binds(lines[lines.len() - 1], symbol));
            }
        }
        if exists|i: int| 0 <= i < lines.len() && binds(#[trigger] lines[i], symbol) {
            let i = choose|i: int| 0 <= i < lines.len() && binds(#[trigger] lines[i], symbol);
            if i < before.len() {
                assert(binds(before[i], symbol));
            }
        }
        assert forall|i: int|
            0 <= i < lines.len() && binds(#[trigger] lines[i], symbol) && (forall|j: int|
                0 <= j < i ==> !binds(#[trigger] lines[j], symbol)) implies Some(
            bound_codes(lines)[symbol],
        ) == line_code(lines[i]) by {
            if i < before.len() {
                assert(binds(before[i], symbol));
                assert forall|j: int| 0 <= j < i implies !binds(#[trigger] before[j], symbol) by {
                    assert(!binds(lines[j], symbol));
                }
                assert(table.contains_key(symbol));
            } else {
                if table.contains_key(symbol) {
                    let k = choose|k: int|
                        0 <= k < before.len() && binds(#[trigger] before[k], symbol);
                    assert(binds(lines[k], symbol));
                }
            }
        }
    }
}

/// The codes of `first`, and those of `second` for the symbols that have none
/// in `first`.
pub open spec fn merged(first: Map<Seq<char>, u16>, second: Map<Seq<char>, u16>) -> Map<
    Seq<char>,
    u16,
> {
    second.union_prefer_right(first)
}

proof fn lemma_symbols_merge(
    first: Map<Seq<char>, u16>,
    second: Map<Seq<char>, u16>,
    symbols: Seq<Seq<char>>,
    code: u16,
)
    ensures
        with_symbols(merged(first, second), symbols, code) == merged(
            first,
            with_symbols(second, symbols, code),
        ),
    decreases symbols.len(),
{
    if symbols.len() > 0 {
        lemma_symbols_merge(first, second, symbols.drop_last(), code);
        assert(with_symbols(merged(first, second), symbols, code) =~= merged(
            first,
            with_symbols(second, symbols, code),
        ));
    }
}

proof fn lemma_lines_merge(first: Seq<Seq<char>>, second: Seq<Seq<char>>)
    ensures
        bound_codes(first + second) == merged(bound_codes(first), bound_codes(second)),
    decreases second.len(),
{
    if second.len() == 0 {
        assert(first + second =~= first);
        assert(merged(bound_codes(first), bound_codes(second)) =~= bound_codes(first));
    } else {
        assert((first + second).drop_last() =~= first + second.drop_last());
        assert((first + second).last() == second.last());
        lemma_lines_merge(first, second.drop_last());
        if let Some(code) = line_code(second.last()) {
            lemma_symbols_merge(
                bound_codes(first),
                bound_codes(second.drop_last()),
                line_symbols(second.last()),
                code,
            );
        }
    }
}

proof fn lemma_first_at_push(line: Seq<char>, ch: char, end: char)
    requires
        end != ch,
    ensures
        first_at(line, ch) <= line.len(),
        first_at(line.push(end), ch) == if first_at(line, ch) < line.len() {
            first_at(line, ch)
        } else {
            line.len() + 1
        },
    decreases line.len(),
{
    if line.len() == 0 {
        assert(line.push(end).drop_first() =~= Seq::empty());
        assert(first_at(line.push(end).drop_first(), ch) == 0);
    } else {
        assert(line.push(end).drop_first() =~= line.drop_first().push(end));
        lemma_first_at_push(line.drop_first(), ch, end);
    }
}

/// A carriage return at the end of a line makes no difference.
proof fn lemma_return_binds_nothing(table: Map<Seq<char>, u16>, line: Seq<char>)
    ensures
        with_line(table, without_return(line)) == with_line(table, line),
{
    if line.len() > 0 && line.last() == '\r' {
        let before = line.drop_last();
        assert(before.push('\r') =~= line);
        lemma_first_at_push(before, '=', '\r');
        let at = first_at(before, '=');
        if at < before.len() {
            assert(line.take(at as int) =~= before.take(at as int));
            let symbols = line.skip(at as int + 1);
            assert(symbols.drop_last() =~= before.skip(at as int + 1));
            assert(symbols.last() == '\r');
            assert(words(symbols) == words(before.skip(at as int + 1)));
        }
    }
}

/// A line feed at the end of a text makes no difference.
proof fn lemma_line_feed_binds_nothing(text: Seq<char>)
    ensures
        bound_codes(lines(text + seq!['\n'])) == bound_codes(lines(text)),
{
    let ended = text + seq!['\n'];
    assert(ended.drop_last() =~= text);
    let done = lines(text);
    if text.len() > 0 && text.last() != '\n' {
        let last = without_return(done.last());
        assert(lines(ended) == done.drop_last().push(last));
        assert(lines(ended).drop_last() =~= done.drop_last());
        lemma_some_line(text);
        lemma_return_binds_nothing(bound_codes(done.drop_last()), done.last());
    } else {
        assert(lines(ended) == done.push(Seq::empty()));
        assert(lines(ended).drop_last() =~= done);
        assert(first_at(Seq::empty(), '=') == 0);
    }
}

/// The codes that two texts with a line feed between them bind are those of
/// the first, and those of the second for the symbols that the first does not
/// bind.
pub proof fn law_texts_bind_in_order(first: Seq<char>, second: Seq<char>)
    ensures
        bound_codes(lines(first + seq!['\n'] + second)) == merged(
            bound_codes(lines(first)),
            bound_codes(lines(second)),
        ),
{
    lemma_lines_after_line_feed(first, second);
    lemma_lines_merge(lines(first + seq!['\n']), lines(second));
    lemma_line_feed_binds_nothing(first);
}

/// The code that is found is that of the first symbol that the table binds,
/// and there is none exactly if it binds none of them.
pub proof fn law_first_bound_symbol_counts(table: Map<Seq<char>, u16>, symbols: Seq<Seq<char>>)
    ensures
        first_bound(table, symbols) is None <==> forall|i: int|
            0 <= i < symbols.len() ==> !table.contains_key(#[trigger] symbols[i]),
        forall|i: int|
            0 <= i < symbols.len() && table.contains_key(#[trigger] symbols[i]) && (forall|j: int|
                0 <= j < i ==> !table.contains_key(#[trigger] symbols[j])) ==> first_bound(
                table,
                symbols,
            ) == Some(table[symbols[i]]),
    decreases symbols.len(),
{
    if symbols.len() > 0 {
        let rest = symbols.drop_first();
        law_first_bound_symbol_counts(table, rest);
        assert forall|i: int| 0 <= i < rest.len() implies rest[i] == #[trigger] symbols[i + 1] by {}
        if !table.contains_key(symbols[0]) {
            assert forall|i: int|
                0 <= i < symbols.len() && table.contains_key(#[trigger] symbols[i]) && (forall|
                    j: int,
                |
                    0 <= j < i ==> !table.contains_key(#[trigger] symbols[j])) implies first_bound(
                table,
                symbols,
            ) == Some(table[symbols[i]]) by {
                assert(rest[i - 1] == symbols[i]);
                assert forall|j: int| 0 <= j < i - 1 implies !table.contains_key(
                    #[trigger] rest[j],
                ) by {
                    assert(!table.contains_key(symbols[j + 1]));
                }
            }
            if first_bound(table, rest) is None {
                assert forall|i: int| 0 <= i < symbols.len() implies !table.contains_key(
                    #[trigger] symbols[i],
                ) by {
                    if i > 0 {
                        assert(!table.contains_key(rest[i - 1]));
                    }
                }
            } else {
                let i = choose|i: int|
                    0 <= i < rest.len() && table.contains_key(#[trigger] rest[i]);
                assert(table.contains_key(symbols[i + 1]));
            }
        } else {
            assert(table.contains_key(symbols[0]));
        }
    }
}

/// The first place of a character is right after a text that does not hold it.
proof fn lemma_first_at_after(before: Seq<char>, ch: char, rest: Seq<char>)
    requires
        !before.contains(ch),
    ensures
        first_at(before + seq![ch] + rest, ch) == before.len(),
{
    let line = before + seq![ch] + rest;
    law_first_place(line, ch);
    let at = first_at(line, ch) as int;
    assert(line[before.len() as int] == ch);
    if at < before.len() {
        assert(before[at] == ch);
    }
}

/// A line binds a code only if it has an equals sign, and before the first one
/// the word `keycode` and a number of at most 65535; what it binds it to is
/// the words after the sign.
pub proof fn law_what_a_line_binds(prefix: Seq<char>, rest: Seq<char>)
    requires
        !prefix.contains('='),
    ensures
        line_code(prefix) is None,
        line_symbols(prefix + seq!['='] + rest) == words(rest),
        line_code(prefix + seq!['='] + rest) == if words(prefix).len() >= 2 && words(prefix)[0]
            == "keycode"@ && parsed_unsigned(words(prefix)[1], 65535) is Some {
            Some(parsed_unsigned(words(prefix)[1], 65535)->0 as u16)
        } else {
            None
        },
{
    let line = prefix + seq!['='] + rest;
    lemma_first_at_after(prefix, '=', rest);
    law_first_place(prefix, '=');
    if first_at(prefix, '=') < prefix.len() {
        assert(prefix[first_at(prefix, '=') as int] == '=');
    }
    assert(line.take(prefix.len() as int) =~= prefix);
    assert(line.skip(prefix.len() as int + 1) =~= rest);
}

/// A line `keycode <code> = <symbols>` binds the code to the symbols, whatever
/// white space stands between the word and the code.
pub proof fn law_keycode_line(code: u16, gap: Seq<char>, rest: Seq<char>)
    requires
        gap.len() > 0,
        forall|i: int| 0 <= i < gap.len() ==> is_white(#[trigger] gap[i]),
    ensures
        line_code("keycode"@ + gap + decimal(code as nat) + seq![' ', '='] + rest) == Some(code),
        line_symbols("keycode"@ + gap + decimal(code as nat) + seq![' ', '='] + rest) == words(
            rest,
        ),
{
    reveal_strlit("keycode");
    let number = decimal(code as nat);
    lemma_decimal_digits(code as nat);
    assert forall|i: int| 0 <= i < number.len() implies !is_white(#[trigger] number[i]) && number[i]
        != '=' by {
        assert(is_digit(number[i]));
    }
    let head = "keycode"@ + gap + number;
    let prefix = head + seq![' '];
    assert forall|i: int| 0 <= i < prefix.len() implies prefix[i] != '=' by {
        if 7 <= i < 7 + gap.len() {
            assert(is_white(gap[i - 7]));
        } else if 7 + gap.len() <= i < head.len() {
            assert(number[i - 7 - gap.len()] != '=');
        }
    }
    law_what_a_line_binds(prefix, rest);
    assert(prefix + seq!['='] + rest =~= "keycode"@ + gap + number + seq![' ', '='] + rest);
    assert(head + seq![' '] + Seq::<char>::empty() =~= prefix);
    law_white_space_separates_words(head, ' ', Seq::empty());
    law_a_word_is_its_only_part(Seq::empty());
    lemma_words_after_gap("keycode"@, gap, number);
    law_a_word_is_its_only_part("keycode"@);
    law_a_word_is_its_only_part(number);
    assert(words(prefix) =~= seq!["keycode"@, number]);
    law_decimal_reads_back(code as nat, 65535);
}

proof fn lemma_words_after_gap(left: Seq<char>, gap: Seq<char>, right: Seq<char>)
    requires
        gap.len() > 0,
        forall|i: int| 0 <= i < gap.len() ==> is_white(#[trigger] gap[i]),
    ensures
        words(left + gap + right) == words(left) + words(right),
    decreases gap.len(),
{
    let less = gap.drop_last();
    assert(is_white(gap[gap.len() - 1]));
    assert(left + gap + right =~= (left + less) + seq![gap.last()] + right);
    law_white_space_separates_words(left + less, gap.last(), right);
    if less.len() == 0 {
        assert(left + less =~= left);
    } else {
        assert forall|i: int| 0 <= i < less.len() implies is_white(#[trigger] less[i]) by {
            assert(is_white(gap[i]));
        }
        lemma_words_after_gap(left, less, Seq::empty());
        law_a_word_is_its_only_part(Seq::empty());
        assert(left + less + Seq::<char>::empty() =~= left + less);
        assert(words(left) + Seq::<Seq<char>>::empty() =~= words(left));
    }
}

/// A run of `xmodmap` that could not be started or failed binds nothing; what
/// one that succeeded printed is read line by line.
pub proof fn law_failed_run_binds_nothing(stdout: &[u8])
    ensures
        reported_codes(None) == Map::<Seq<char>, u16>::empty(),
        reported_codes(Some((false, stdout))) == Map::<Seq<char>, u16>::empty(),
        reported_codes(Some((true, stdout))) == bound_codes(lines(lossy_text(stdout@))),
{
}

} // verus!
