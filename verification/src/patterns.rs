//! The text passes before parsing: validation, normalisation, and the
//! splitting of a source into logical lines.

use vstd::prelude::*;
use crate::chars::{
    closer, is_closer, is_opener, is_quote, is_space, is_word, opener, paired, quote, space, word,
};
use crate::string::{chars_of, slice_string, string_of};

verus! {

/// The end of the run of white space that begins at `at`.
pub open spec fn spaces_end(text: Seq<char>, at: int) -> int
    decreases text.len() - at,
{
    if 0 <= at < text.len() && space(text[at]) {
        spaces_end(text, at + 1)
    } else {
        at
    }
}

/// The end of the run of word characters that begins at `at`.
pub open spec fn word_end(text: Seq<char>, at: int) -> int
    decreases text.len() - at,
{
    if 0 <= at < text.len() && word(text[at]) {
        word_end(text, at + 1)
    } else {
        at
    }
}

/// The place of the first line feed at or after `at`, or the end of the text.
pub open spec fn line_end(text: Seq<char>, at: int) -> int
    decreases text.len() - at,
{
    if 0 <= at < text.len() && text[at] != '\n' {
        line_end(text, at + 1)
    } else {
        at
    }
}

/// The place of the first `mark` at or after `at` and before any line feed.
pub open spec fn closing(text: Seq<char>, at: int, mark: char) -> Option<int>
    decreases text.len() - at,
{
    if !(0 <= at < text.len()) {
        None
    } else if text[at] == mark {
        Some(at)
    } else if text[at] == '\n' {
        None
    } else {
        closing(text, at + 1, mark)
    }
}

/// Whether `mark` occurs at or after `at`.
pub open spec fn occurs(text: Seq<char>, at: int, mark: char) -> bool
    decreases text.len() - at,
{
    if !(0 <= at < text.len()) {
        false
    } else if text[at] == mark {
        true
    } else {
        occurs(text, at + 1, mark)
    }
}

/// Whether a comment begins at `at`.
pub open spec fn comment_at(text: Seq<char>, at: int) -> bool {
    0 <= at && at + 1 < text.len() && text[at] == '/' && text[at + 1] == '/'
}

/// Whether the text from `at` on holds nothing but white space and comments.
/// A comment runs from `//` to the end of its line.
pub open spec fn blank_from(text: Seq<char>, at: int) -> bool
    decreases text.len() - at,
{
    if !(0 <= at < text.len()) {
        true
    } else if space(text[at]) {
        blank_from(text, at + 1)
    } else if comment_at(text, at) {
        let end = line_end(text, at + 2);
        if at < end <= text.len() {
            blank_from(text, end)
        } else {
            false
        }
    } else {
        false
    }
}

/// Whether the text from `at` on holds a quotation mark that nothing closes.
/// A mark with its partner later on the same line opens a string, which is
/// passed over; a mark that never comes again is unmatched; any other mark
/// is passed by.
pub open spec fn unquoted_from(text: Seq<char>, at: int) -> bool
    decreases text.len() - at,
{
    if !(0 <= at < text.len()) {
        false
    } else if quote(text[at]) {
        match closing(text, at + 1, text[at]) {
            Some(end) => if at < end < text.len() {
                unquoted_from(text, end + 1)
            } else {
                false
            },
            None => !occurs(text, at + 1, text[at]) || unquoted_from(text, at + 1),
        }
    } else {
        unquoted_from(text, at + 1)
    }
}

/// Whether the brackets from `at` on fail to balance, given the brackets
/// that stand open. Brackets inside a string that closes on its line do not
/// count.
pub open spec fn unmatched_from(text: Seq<char>, at: int, open: Seq<char>) -> bool
    decreases text.len() - at,
{
    if !(0 <= at < text.len()) {
        open.len() > 0
    } else if quote(text[at]) && closing(text, at + 1, text[at]) is Some {
        let end = closing(text, at + 1, text[at])->0;
        if at < end < text.len() {
            unmatched_from(text, end + 1, open)
        } else {
            true
        }
    } else if opener(text[at]) {
        unmatched_from(text, at + 1, open.push(text[at]))
    } else if closer(text[at]) {
        if open.len() > 0 && paired(open.last(), text[at]) {
            unmatched_from(text, at + 1, open.drop_last())
        } else {
            true
        }
    } else {
        unmatched_from(text, at + 1, open)
    }
}

/// The text from `at` on with each comment, and the white space before it,
/// replaced by one line feed. A comment takes its line's line feed with it.
pub open spec fn stripped_from(text: Seq<char>, at: int) -> Seq<char>
    decreases text.len() - at,
{
    if !(0 <= at < text.len()) {
        Seq::empty()
    } else if comment_at(text, spaces_end(text, at)) {
        let end = line_end(text, spaces_end(text, at) + 2);
        let next = if end < text.len() {
            end + 1
        } else {
            end
        };
        if at < next <= text.len() {
            seq!['\n'] + stripped_from(text, next)
        } else {
            Seq::empty()
        }
    } else {
        seq![text[at]] + stripped_from(text, at + 1)
    }
}

/// Whether four blanks stand at `at`.
pub open spec fn blanks_at(text: Seq<char>, at: int) -> bool {
    0 <= at && at + 3 < text.len() && text[at] == ' ' && text[at + 1] == ' ' && text[at + 2] == ' '
        && text[at + 3] == ' '
}

/// The text from `at` on with each run of four blanks replaced by one tab.
pub open spec fn tabbed_from(text: Seq<char>, at: int) -> Seq<char>
    decreases text.len() - at,
{
    if !(0 <= at < text.len()) {
        Seq::empty()
    } else if blanks_at(text, at) {
        seq!['\t'] + tabbed_from(text, at + 4)
    } else {
        seq![text[at]] + tabbed_from(text, at + 1)
    }
}

/// The canonical name of a type keyword, and any other name unchanged.
pub open spec fn canonical(name: Seq<char>) -> Seq<char> {
    if name == "bool"@ {
        "boolean"@
    } else if name == "int"@ {
        "integer"@
    } else if name == "num"@ {
        "number"@
    } else if name == "str"@ {
        "string"@
    } else {
        name
    }
}

/// The text from `at` on with each name outside a string replaced by its
/// canonical name.
pub open spec fn aliased_from(text: Seq<char>, at: int) -> Seq<char>
    decreases text.len() - at,
{
    if !(0 <= at < text.len()) {
        Seq::empty()
    } else if quote(text[at]) && closing(text, at + 1, text[at]) is Some {
        let end = closing(text, at + 1, text[at])->0;
        if at < end < text.len() {
            text.subrange(at, end + 1) + aliased_from(text, end + 1)
        } else {
            Seq::empty()
        }
    } else if word(text[at]) {
        let end = word_end(text, at);
        if at < end <= text.len() {
            canonical(text.subrange(at, end)) + aliased_from(text, end)
        } else {
            Seq::empty()
        }
    } else {
        seq![text[at]] + aliased_from(text, at + 1)
    }
}

/// The normal form of a source: comments out, four blanks to a tab, type
/// keywords to their canonical names.
pub open spec fn normalised(text: Seq<char>) -> Seq<char> {
    aliased_from(tabbed_from(stripped_from(text, 0), 0), 0)
}

/// Punctuation that continues a statement from the line before.
pub open spec fn trails_after(symbol: char) -> bool {
    symbol == ',' || symbol == ';' || symbol == '\'' || symbol == '"' || closer(symbol)
}

/// Punctuation that continues a statement onto the next line.
pub open spec fn trails_before(symbol: char) -> bool {
    symbol == ',' || symbol == ';' || symbol == '\'' || symbol == '"' || opener(symbol)
}

/// The place of the last line feed in `text[from..to]`, or `from - 1`.
pub open spec fn last_feed(text: Seq<char>, from: int, to: int) -> int
    decreases to - from,
{
    if from < to <= text.len() && 0 <= from {
        if text[to - 1] == '\n' {
            to - 1
        } else {
            last_feed(text, from, to - 1)
        }
    } else {
        from - 1
    }
}

/// The text from `at` on with each line feed that meets trailing
/// punctuation taken out, together with the white space beside it: a line
/// feed and white space before `, ; ' " ) ] }`, and a line feed and white
/// space after `, ; ' " ( [ {`. White space that ends in a line feed, or ends
/// the text, is passed over as it is.
pub open spec fn collapsed_from(text: Seq<char>, at: int) -> Seq<char>
    decreases text.len() - at,
{
    if !(0 <= at < text.len()) {
        Seq::empty()
    } else {
        let run = spaces_end(text, at);
        if text[at] == '\n' && at < run < text.len() && trails_after(text[run]) {
            seq![text[run]] + collapsed_from(text, run + 1)
        } else if trails_before(text[at]) && at + 1 < text.len() && text[at + 1] == '\n' {
            let next = spaces_end(text, at + 2);
            if at < next <= text.len() {
                seq![text[at]] + collapsed_from(text, next)
            } else {
                Seq::empty()
            }
        } else if at <= last_feed(text, at, run) < text.len() {
            let feed = last_feed(text, at, run);
            text.subrange(at, feed + 1) + collapsed_from(text, feed + 1)
        } else if at < run && run >= text.len() {
            text.subrange(at, text.len() as int)
        } else {
            seq![text[at]] + collapsed_from(text, at + 1)
        }
    }
}

/// The lines of the text from `at` on that are not empty.
pub open spec fn lines_from(text: Seq<char>, at: int) -> Seq<Seq<char>>
    decreases text.len() - at,
{
    if !(0 <= at <= text.len()) {
        Seq::empty()
    } else {
        let end = line_end(text, at);
        let rest = if at <= end < text.len() {
            lines_from(text, end + 1)
        } else {
            Seq::empty()
        };
        if at < end <= text.len() {
            seq![text.subrange(at, end)] + rest
        } else {
            rest
        }
    }
}

/// The logical lines of a source.
pub open spec fn logical_lines(text: Seq<char>) -> Seq<Seq<char>> {
    lines_from(collapsed_from(text, 0), 0)
}

/// A run of white space ends within the text, at or after its start.
pub proof fn lemma_spaces_end(text: Seq<char>, at: int)
    requires
        0 <= at <= text.len(),
    ensures
        at <= spaces_end(text, at) <= text.len(),
    decreases text.len() - at,
{
    if at < text.len() && space(text[at]) {
        lemma_spaces_end(text, at + 1);
    }
}

/// A run of word characters ends within the text, at or after its start.
pub proof fn lemma_word_end(text: Seq<char>, at: int)
    requires
        0 <= at <= text.len(),
    ensures
        at <= word_end(text, at) <= text.len(),
        at < text.len() && word(text[at]) ==> at < word_end(text, at),
    decreases text.len() - at,
{
    if at < text.len() && word(text[at]) {
        lemma_word_end(text, at + 1);
    }
}

/// The end of the run of white space that begins at `at`.
pub fn find_spaces_end(text: &Vec<char>, at: usize) -> (end: usize)
    requires
        at <= text.len(),
    ensures
        end == spaces_end(text@, at as int),
        at <= end <= text.len(),
{
    let mut end = at;
    while end < text.len() && is_space(text[end])
        invariant
            at <= end <= text.len(),
            spaces_end(text@, at as int) == spaces_end(text@, end as int),
        decreases text.len() - end,
    {
        end += 1;
    }
    end
}

/// The end of the run of word characters that begins at `at`.
pub fn find_word_end(text: &Vec<char>, at: usize) -> (end: usize)
    requires
        at <= text.len(),
    ensures
        end == word_end(text@, at as int),
        at <= end <= text.len(),
{
    let mut end = at;
    while end < text.len() && is_word(text[end])
        invariant
            at <= end <= text.len(),
            word_end(text@, at as int) == word_end(text@, end as int),
        decreases text.len() - end,
    {
        end += 1;
    }
    end
}

/// The place of the first line feed at or after `at`, or the end of the text.
pub fn find_line_end(text: &Vec<char>, at: usize) -> (end: usize)
    requires
        at <= text.len(),
    ensures
        end == line_end(text@, at as int),
        at <= end <= text.len(),
{
    let mut end = at;
    while end < text.len() && text[end] != '\n'
        invariant
            at <= end <= text.len(),
            line_end(text@, at as int) == line_end(text@, end as int),
        decreases text.len() - end,
    {
        end += 1;
    }
    end
}

/// The place of the first `mark` at or after `at` and before any line feed.
pub fn find_closing(text: &Vec<char>, at: usize, mark: char) -> (end: Option<usize>)
    requires
        at <= text.len(),
    ensures
        match end {
            Some(place) => closing(text@, at as int, mark) == Some(place as int) && at <= place
                < text.len(),
            None => closing(text@, at as int, mark) is None,
        },
{
    let mut end = at;
    while end < text.len()
        invariant
            at <= end <= text.len(),
            closing(text@, at as int, mark) == closing(text@, end as int, mark),
        decreases text.len() - end,
    {
        if text[end] == mark {
            return Some(end);
        }
        if text[end] == '\n' {
            return None;
        }
        end += 1;
    }
    None
}

/// Whether `mark` occurs at or after `at`.
pub fn find_occurs(text: &Vec<char>, at: usize, mark: char) -> (found: bool)
    requires
        at <= text.len(),
    ensures
        found == occurs(text@, at as int, mark),
{
    let mut end = at;
    while end < text.len()
        invariant
            at <= end <= text.len(),
            occurs(text@, at as int, mark) == occurs(text@, end as int, mark),
        decreases text.len() - end,
    {
        if text[end] == mark {
            return true;
        }
        end += 1;
    }
    false
}

/// Whether a comment begins at `at`.
fn is_comment_at(text: &Vec<char>, at: usize) -> (out: bool)
    requires
        at <= text.len(),
    ensures
        out == comment_at(text@, at as int),
{
    at < text.len() && text.len() - at >= 2 && text[at] == '/' && text[at + 1] == '/'
}

/// Whether a source holds nothing but white space and comments.
pub fn is_empty(source: &str) -> (out: bool)
    ensures
        out == blank_from(source@, 0),
{
    let text = chars_of(source);
    let mut at: usize = 0;
    while at < text.len()
        invariant
            at <= text.len(),
            text@ == source@,
            blank_from(text@, 0) == blank_from(text@, at as int),
        decreases text.len() - at,
    {
        if is_space(text[at]) {
            at += 1;
        } else if is_comment_at(&text, at) {
            at = find_line_end(&text, at + 2);
        } else {
            return false;
        }
    }
    true
}

/// Whether a source holds a quotation mark that nothing closes.
pub fn is_unquoted(source: &str) -> (out: bool)
    ensures
        out == unquoted_from(source@, 0),
{
    let text = chars_of(source);
    let mut at: usize = 0;
    while at < text.len()
        invariant
            at <= text.len(),
            text@ == source@,
            unquoted_from(text@, 0) == unquoted_from(text@, at as int),
        decreases text.len() - at,
    {
        if is_quote(text[at]) {
            match find_closing(&text, at + 1, text[at]) {
                Some(end) => {
                    at = end + 1;
                },
                None => {
                    if !find_occurs(&text, at + 1, text[at]) {
                        return true;
                    }
                    at += 1;
                },
            }
        } else {
            at += 1;
        }
    }
    false
}

/// Whether the brackets of a source fail to balance. Brackets inside strings
/// do not count.
pub fn is_unmatched(source: &str) -> (out: bool)
    ensures
        out == unmatched_from(source@, 0, Seq::empty()),
{
    let text = chars_of(source);
    let mut open: Vec<char> = Vec::new();
    let mut at: usize = 0;
    while at < text.len()
        invariant
            at <= text.len(),
            text@ == source@,
            unmatched_from(text@, 0, Seq::empty()) == unmatched_from(text@, at as int, open@),
        decreases text.len() - at,
    {
        let symbol = text[at];
        let end = if is_quote(symbol) {
            find_closing(&text, at + 1, symbol)
        } else {
            None
        };
        if let Some(end) = end {
            at = end + 1;
        } else if is_opener(symbol) {
            open.push(symbol);
            at += 1;
        } else if is_closer(symbol) {
            let fits = open.len() > 0 && {
                let last = open[open.len() - 1];
                (last == '(' && symbol == ')') || (last == '[' && symbol == ']') || (last == '{'
                    && symbol == '}')
            };
            if fits {
                let ghost before = open@;
                open.pop();
                assert(open@ =~= before.drop_last());
                at += 1;
            } else {
                return true;
            }
        } else {
            at += 1;
        }
    }
    open.len() > 0
}

/// The text with each comment, and the white space before it, replaced by
/// one line feed.
fn strip(text: &Vec<char>) -> (out: Vec<char>)
    ensures
        out@ == stripped_from(text@, 0),
{
    let mut out: Vec<char> = Vec::new();
    let mut at: usize = 0;
    while at < text.len()
        invariant
            at <= text.len(),
            stripped_from(text@, 0) == out@ + stripped_from(text@, at as int),
        decreases text.len() - at,
    {
        let ghost before = out@;
        let run = find_spaces_end(text, at);
        if is_comment_at(text, run) {
            let end = find_line_end(text, run + 2);
            let next = if end < text.len() {
                end + 1
            } else {
                end
            };
            out.push('\n');
            assert(out@ + stripped_from(text@, next as int) =~= before + (seq!['\n']
                + stripped_from(text@, next as int)));
            at = next;
        } else {
            out.push(text[at]);
            assert(out@ + stripped_from(text@, at + 1) =~= before + (seq![text@[at as int]]
                + stripped_from(text@, at + 1)));
            at += 1;
        }
    }
    assert(out@ + Seq::<char>::empty() =~= out@);
    out
}

/// The text with each run of four blanks replaced by one tab.
fn tab(text: &Vec<char>) -> (out: Vec<char>)
    ensures
        out@ == tabbed_from(text@, 0),
{
    let mut out: Vec<char> = Vec::new();
    let mut at: usize = 0;
    while at < text.len()
        invariant
            at <= text.len(),
            tabbed_from(text@, 0) == out@ + tabbed_from(text@, at as int),
        decreases text.len() - at,
    {
        let ghost before = out@;
        if text.len() - at >= 4 && text[at] == ' ' && text[at + 1] == ' ' && text[at + 2] == ' '
            && text[at + 3] == ' ' {
            out.push('\t');
            assert(out@ + tabbed_from(text@, at + 4) =~= before + (seq!['\t'] + tabbed_from(
                text@,
                at + 4,
            )));
            at += 4;
        } else {
            out.push(text[at]);
            assert(out@ + tabbed_from(text@, at + 1) =~= before + (seq![text@[at as int]]
                + tabbed_from(text@, at + 1)));
            at += 1;
        }
    }
    assert(out@ + Seq::<char>::empty() =~= out@);
    out
}

/// Appends `text[from..to]` to `out`.
pub fn push_slice(out: &mut Vec<char>, text: &Vec<char>, from: usize, to: usize)
    requires
        from <= to <= text.len(),
    ensures
        final(out)@ == old(out)@ + text@.subrange(from as int, to as int),
{
    let mut at = from;
    while at < to
        invariant
            from <= at <= to <= text.len(),
            out@ == old(out)@ + text@.subrange(from as int, at as int),
        decreases to - at,
    {
        out.push(text[at]);
        at += 1;
        assert(out@ =~= old(out)@ + text@.subrange(from as int, at as int));
    }
}

/// Whether `text[from..to]` spells `word`.
pub fn spells(text: &Vec<char>, from: usize, to: usize, word: &str) -> (out: bool)
    requires
        from <= to <= text.len(),
    ensures
        out == (text@.subrange(from as int, to as int) == word@),
{
    let letters = chars_of(word);
    if letters.len() != to - from {
        return false;
    }
    let mut at: usize = 0;
    while at < letters.len()
        invariant
            at <= letters.len(),
            letters.len() == to - from,
            letters@ == word@,
            from <= to <= text.len(),
            forall|i: int| 0 <= i < at ==> text@[from + i] == letters@[i],
        decreases letters.len() - at,
    {
        if text[from + at] != letters[at] {
            assert(text@.subrange(from as int, to as int)[at as int] != letters@[at as int]);
            return false;
        }
        at += 1;
    }
    assert(text@.subrange(from as int, to as int) =~= letters@);
    true
}

/// Appends the characters of `word` to `out`.
fn push_text(out: &mut Vec<char>, word: &str)
    ensures
        final(out)@ == old(out)@ + word@,
{
    let letters = chars_of(word);
    push_slice(out, &letters, 0, letters.len());
    assert(letters@.subrange(0, letters.len() as int) =~= letters@);
}

/// The text with each name outside a string replaced by its canonical name.
fn alias(text: &Vec<char>) -> (out: Vec<char>)
    ensures
        out@ == aliased_from(text@, 0),
{
    let mut out: Vec<char> = Vec::new();
    let mut at: usize = 0;
    while at < text.len()
        invariant
            at <= text.len(),
            aliased_from(text@, 0) == out@ + aliased_from(text@, at as int),
        decreases text.len() - at,
    {
        let ghost before = out@;
        let symbol = text[at];
        let end = if is_quote(symbol) {
            find_closing(text, at + 1, symbol)
        } else {
            None
        };
        if let Some(end) = end {
            push_slice(&mut out, text, at, end + 1);
            assert(out@ + aliased_from(text@, end + 1) =~= before + (text@.subrange(
                at as int,
                end + 1,
            ) + aliased_from(text@, end + 1)));
            at = end + 1;
        } else if is_word(symbol) {
            let end = find_word_end(text, at);
            proof {
                lemma_word_end(text@, at as int);
            }
            let ghost name = text@.subrange(at as int, end as int);
            if spells(text, at, end, "bool") {
                push_text(&mut out, "boolean");
            } else if spells(text, at, end, "int") {
                push_text(&mut out, "integer");
            } else if spells(text, at, end, "num") {
                push_text(&mut out, "number");
            } else if spells(text, at, end, "str") {
                push_text(&mut out, "string");
            } else {
                push_slice(&mut out, text, at, end);
            }
            assert(out@ == before + canonical(name));
            assert(out@ + aliased_from(text@, end as int) =~= before + (canonical(name)
                + aliased_from(text@, end as int)));
            at = end;
        } else {
            out.push(symbol);
            assert(out@ + aliased_from(text@, at + 1) =~= before + (seq![symbol] + aliased_from(
                text@,
                at + 1,
            )));
            at += 1;
        }
    }
    assert(out@ + Seq::<char>::empty() =~= out@);
    out
}

/// Brings a source into normal form: comments become line feeds, four
/// blanks become a tab, and type keywords outside strings become their
/// canonical names.
pub fn normalise(source: &str) -> (out: String)
    ensures
        out@ == normalised(source@),
{
    let text = chars_of(source);
    let stripped = strip(&text);
    let tabbed = tab(&stripped);
    let aliased = alias(&tabbed);
    string_of(&aliased)
}

/// Whether a character continues a statement from the line before.
fn is_trail_after(symbol: char) -> (out: bool)
    ensures
        out == trails_after(symbol),
{
    symbol == ',' || symbol == ';' || symbol == '\'' || symbol == '"' || is_closer(symbol)
}

/// Whether a character continues a statement onto the next line.
fn is_trail_before(symbol: char) -> (out: bool)
    ensures
        out == trails_before(symbol),
{
    symbol == ',' || symbol == ';' || symbol == '\'' || symbol == '"' || is_opener(symbol)
}

/// The place of the last line feed in `text[from..to]`, if there is one.
fn find_last_feed(text: &Vec<char>, from: usize, to: usize) -> (out: Option<usize>)
    requires
        from <= to <= text.len(),
    ensures
        match out {
            Some(place) => last_feed(text@, from as int, to as int) == place && from <= place < to,
            None => last_feed(text@, from as int, to as int) == from - 1,
        },
{
    let mut end = to;
    while end > from
        invariant
            from <= end <= to <= text.len(),
            last_feed(text@, from as int, to as int) == last_feed(text@, from as int, end as int),
        decreases end,
    {
        if text[end - 1] == '\n' {
            return Some(end - 1);
        }
        end -= 1;
    }
    None
}

/// The text with each line feed that meets trailing punctuation taken out.
fn collapse(text: &Vec<char>) -> (out: Vec<char>)
    ensures
        out@ == collapsed_from(text@, 0),
{
    let mut out: Vec<char> = Vec::new();
    let mut at: usize = 0;
    while at < text.len()
        invariant
            at <= text.len(),
            collapsed_from(text@, 0) == out@ + collapsed_from(text@, at as int),
        decreases text.len() - at,
    {
        let ghost before = out@;
        let symbol = text[at];
        let run = find_spaces_end(text, at);
        if symbol == '\n' && at < run && run < text.len() && is_trail_after(text[run]) {
            out.push(text[run]);
            assert(out@ + collapsed_from(text@, run + 1) =~= before + (seq![text@[run as int]]
                + collapsed_from(text@, run + 1)));
            at = run + 1;
        } else if is_trail_before(symbol) && text.len() - at >= 2 && text[at + 1] == '\n' {
            let next = find_spaces_end(text, at + 2);
            out.push(symbol);
            assert(out@ + collapsed_from(text@, next as int) =~= before + (seq![symbol]
                + collapsed_from(text@, next as int)));
            at = next;
        } else {
            match find_last_feed(text, at, run) {
                Some(feed) => {
                    push_slice(&mut out, text, at, feed + 1);
                    assert(out@ + collapsed_from(text@, feed + 1) =~= before + (text@.subrange(
                        at as int,
                        feed + 1,
                    ) + collapsed_from(text@, feed + 1)));
                    at = feed + 1;
                },
                None => {
                    if at < run && run >= text.len() {
                        push_slice(&mut out, text, at, text.len());
                        assert(collapsed_from(text@, text.len() as int) =~= Seq::<char>::empty());
                        assert(out@ + collapsed_from(text@, text.len() as int) =~= before
                            + text@.subrange(at as int, text.len() as int));
                        at = text.len();
                    } else {
                        out.push(symbol);
                        assert(out@ + collapsed_from(text@, at + 1) =~= before + (seq![symbol]
                            + collapsed_from(text@, at + 1)));
                        at += 1;
                    }
                },
            }
        }
    }
    assert(out@ + Seq::<char>::empty() =~= out@);
    out
}

/// The lines of a text that are not empty.
pub fn lines(text: &Vec<char>) -> (out: Vec<String>)
    ensures
        out.deep_view() == lines_from(text@, 0),
{
    let mut out: Vec<String> = Vec::new();
    let mut at: usize = 0;
    let mut done = false;
    while !done
        invariant
            at <= text.len(),
            !done ==> lines_from(text@, 0) == out.deep_view() + lines_from(text@, at as int),
            done ==> lines_from(text@, 0) == out.deep_view(),
        decreases text.len() - at + if done { 0int } else { 1int },
    {
        let ghost before = out.deep_view();
        let end = find_line_end(text, at);
        if at < end {
            out.push(slice_string(text, at, end));
            assert(out.deep_view() =~= before + seq![text@.subrange(at as int, end as int)]);
        }
        if end < text.len() {
            assert(out.deep_view() + lines_from(text@, end + 1) =~= before + lines_from(
                text@,
                at as int,
            ));
            at = end + 1;
        } else {
            assert(out.deep_view() =~= before + lines_from(text@, at as int));
            done = true;
        }
    }
    out
}

/// Splits a source into logical lines: a line feed beside trailing
/// punctuation joins its two lines; every other line feed parts two lines;
/// empty lines are dropped.
pub fn split(source: &str) -> (out: Vec<String>)
    ensures
        out.deep_view() == logical_lines(source@),
{
    let text = chars_of(source);
    let collapsed = collapse(&text);
    lines(&collapsed)
}

} // verus!
