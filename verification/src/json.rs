//! The model of text inside a JSON string literal: how text is escaped
//! before it is embedded, and what a reader of the literal gets back.
use vstd::prelude::*;
use crate::pattern::{lemma_substitute_concat, lemma_substitute_one, substitute};

verus! {

/// What stands for one character of the text inside a string literal.
///
/// A linefeed becomes a space. A reverse solidus, a solidus and a quotation
/// mark are each preceded by a reverse solidus. Every other character stands
/// for itself.
pub open spec fn escape_char(c: char) -> Seq<char> {
    if c == '\n' {
        seq![' ']
    } else if c == '\\' {
        seq!['\\', '\\']
    } else if c == '/' {
        seq!['\\', '/']
    } else if c == '"' {
        seq!['\\', '"']
    } else {
        seq![c]
    }
}

/// The escaped form of a text: each character replaced by what stands for it.
pub open spec fn escaped(text: Seq<char>) -> Seq<char>
    decreases text.len(),
{
    if text.len() == 0 {
        Seq::empty()
    } else {
        escape_char(text[0]) + escaped(text.drop_first())
    }
}

/// The number of rewriting passes that escaping is made of.
pub open spec fn pass_count() -> nat {
    4
}

/// The character that pass `index` looks for.
pub open spec fn pass_target(index: int) -> char {
    if index == 0 {
        '\n'
    } else if index == 1 {
        '\\'
    } else if index == 2 {
        '/'
    } else {
        '"'
    }
}

/// What pass `index` puts in the place of its target.
pub open spec fn pass_replacement(index: int) -> Seq<char> {
    if index == 0 {
        seq![' ']
    } else if index == 1 {
        seq!['\\', '\\']
    } else if index == 2 {
        seq!['\\', '/']
    } else {
        seq!['\\', '"']
    }
}

/// The text after the first `passes` passes, applied one after the other to
/// the whole text: linefeed, reverse solidus, solidus, quotation mark.
pub open spec fn rewritten(text: Seq<char>, passes: nat) -> Seq<char>
    decreases passes,
{
    if passes == 0 {
        text
    } else {
        substitute(
            rewritten(text, (passes - 1) as nat),
            pass_target(passes - 1),
            pass_replacement(passes - 1),
        )
    }
}

/// The passes work piece by piece.
pub proof fn lemma_rewritten_concat(left: Seq<char>, right: Seq<char>, passes: nat)
    ensures
        rewritten(left + right, passes) == rewritten(left, passes) + rewritten(right, passes),
    decreases passes,
{
    if passes > 0 {
        let before = (passes - 1) as nat;
        lemma_rewritten_concat(left, right, before);
        lemma_substitute_concat(
            rewritten(left, before),
            rewritten(right, before),
            pass_target(passes - 1),
            pass_replacement(passes - 1),
        );
    }
}

/// The four passes turn a single character into what stands for it: no pass
/// touches what an earlier pass has put in.
pub proof fn lemma_rewritten_one(c: char)
    ensures
        rewritten(seq![c], pass_count()) == escape_char(c),
{
    let start = seq![c];
    let first = rewritten(start, 1);
    let second = rewritten(start, 2);
    let third = rewritten(start, 3);
    let fourth = rewritten(start, 4);
    assert(rewritten(start, 0) == start);
    assert(first == substitute(start, '\n', seq![' ']));
    assert(second == substitute(first, '\\', seq!['\\', '\\']));
    assert(third == substitute(second, '/', seq!['\\', '/']));
    assert(fourth == substitute(third, '"', seq!['\\', '"']));
    lemma_substitute_one(c, '\n', seq![' ']);
    if c == '\n' {
        lemma_substitute_one(' ', '\\', seq!['\\', '\\']);
        lemma_substitute_one(' ', '/', seq!['\\', '/']);
        lemma_substitute_one(' ', '"', seq!['\\', '"']);
    } else {
        lemma_substitute_one(c, '\\', seq!['\\', '\\']);
        if c == '\\' {
            lemma_pair_untouched('\\', '/', seq!['\\', '/']);
            lemma_pair_untouched('\\', '"', seq!['\\', '"']);
        } else {
            lemma_substitute_one(c, '/', seq!['\\', '/']);
            if c == '/' {
                lemma_pair_untouched('/', '"', seq!['\\', '"']);
            } else {
                lemma_substitute_one(c, '"', seq!['\\', '"']);
            }
        }
    }
}

/// A reverse solidus followed by `second` holds no `target` when neither of
/// the two is one, so substitution leaves the pair as it is.
proof fn lemma_pair_untouched(second: char, target: char, replacement: Seq<char>)
    requires
        target != '\\',
        target != second,
    ensures
        substitute(seq!['\\', second], target, replacement) == seq!['\\', second],
{
    crate::pattern::lemma_substitute_absent(seq!['\\', second], target, replacement);
}

/// Escaping in four passes, in this order, is escaping character by
/// character: the result of the passes is the escaped form of the text.
pub proof fn lemma_rewritten_is_escaped(text: Seq<char>)
    ensures
        rewritten(text, pass_count()) == escaped(text),
    decreases text.len(),
{
    if text.len() == 0 {
        assert(rewritten(text, 0) == text);
        assert(rewritten(text, 1) == Seq::<char>::empty());
        assert(rewritten(text, 2) == Seq::<char>::empty());
        assert(rewritten(text, 3) == Seq::<char>::empty());
        assert(rewritten(text, 4) == Seq::<char>::empty());
    } else {
        let head = seq![text[0]];
        let tail = text.drop_first();
        assert(head + tail =~= text);
        lemma_rewritten_concat(head, tail, pass_count());
        lemma_rewritten_one(text[0]);
        lemma_rewritten_is_escaped(tail);
    }
}

/// A control character: one that may not stand unescaped in a string literal.
pub open spec fn is_control(c: char) -> bool {
    (c as u32) < 0x20
}

/// The character that a reverse solidus followed by `c` stands for in a
/// string literal, for the escapes of two characters. `None` where `c` starts
/// no such escape.
pub open spec fn escape_value(c: char) -> Option<char> {
    if c == '"' || c == '\\' || c == '/' {
        Some(c)
    } else if c == 'b' {
        Some('\u{8}')
    } else if c == 'f' {
        Some('\u{c}')
    } else if c == 'n' {
        Some('\n')
    } else if c == 'r' {
        Some('\r')
    } else if c == 't' {
        Some('\t')
    } else {
        None
    }
}

/// The offset of the quotation mark that closes a string literal whose text
/// starts at the beginning of `text`: the first quotation mark that no
/// reverse solidus escapes. `None` where the literal is never closed.
pub open spec fn closing_quote(text: Seq<char>) -> Option<int>
    decreases text.len(),
{
    if text.len() == 0 {
        None
    } else if text[0] == '"' {
        Some(0)
    } else if text[0] == '\\' {
        if text.len() < 2 {
            None
        } else {
            match closing_quote(text.skip(2)) {
                Some(offset) => Some(offset + 2),
                None => None,
            }
        }
    } else {
        match closing_quote(text.skip(1)) {
            Some(offset) => Some(offset + 1),
            None => None,
        }
    }
}

/// The value that the text between the quotation marks of a string literal
/// stands for. `None` where the text is no such text: it holds a control
/// character or a bare quotation mark, or a reverse solidus that starts none
/// of the escapes of two characters. (Escapes by code point are not part of
/// this model; escaped text never holds one.)
pub open spec fn literal_value(inner: Seq<char>) -> Option<Seq<char>>
    decreases inner.len(),
{
    if inner.len() == 0 {
        Some(Seq::empty())
    } else if inner[0] == '\\' {
        if inner.len() >= 2 && escape_value(inner[1]) is Some {
            match literal_value(inner.skip(2)) {
                Some(rest) => Some(seq![escape_value(inner[1])->0] + rest),
                None => None,
            }
        } else {
            None
        }
    } else if inner[0] == '"' || is_control(inner[0]) {
        None
    } else {
        match literal_value(inner.skip(1)) {
            Some(rest) => Some(seq![inner[0]] + rest),
            None => None,
        }
    }
}

/// A string literal read from the start of its text: the value it stands for
/// and what follows its closing quotation mark.
pub open spec fn read_literal(text: Seq<char>) -> Option<(Seq<char>, Seq<char>)> {
    match closing_quote(text) {
        Some(end) => match literal_value(text.take(end)) {
            Some(value) => Some((value, text.skip(end + 1))),
            None => None,
        },
        None => None,
    }
}

/// A text with each linefeed turned into a space.
pub open spec fn on_one_line(text: Seq<char>) -> Seq<char> {
    text.map_values(
        |c: char|
            if c == '\n' {
                ' '
            } else {
                c
            },
    )
}

/// A text whose only control characters are linefeeds.
pub open spec fn is_plain(text: Seq<char>) -> bool {
    forall|i: int| 0 <= i < text.len() && is_control(#[trigger] text[i]) ==> text[i] == '\n'
}

/// A text without control characters.
pub open spec fn is_printable(text: Seq<char>) -> bool {
    forall|i: int| 0 <= i < text.len() ==> !is_control(#[trigger] text[i])
}

/// Escaped text cannot end the string literal it is embedded in: whatever
/// follows, the quotation mark that closes the literal is the one set after
/// the escaped text.
pub proof fn lemma_escaped_stays_inside(text: Seq<char>, rest: Seq<char>)
    ensures
        closing_quote(escaped(text) + seq!['"'] + rest) == Some(escaped(text).len() as int),
    decreases text.len(),
{
    let whole = escaped(text) + seq!['"'] + rest;
    if text.len() == 0 {
        assert(whole[0] == '"');
    } else {
        let tail = text.drop_first();
        let after = escaped(tail) + seq!['"'] + rest;
        lemma_escaped_stays_inside(tail, rest);
        let head = escape_char(text[0]);
        assert(whole =~= head + after);
        if head.len() == 2 {
            assert(whole[0] == '\\');
            assert(whole.skip(2) =~= after);
        } else {
            assert(whole[0] == head[0]);
            assert(whole.skip(1) =~= after);
        }
    }
}

/// What a reader gets back from escaped text, where the text's only control
/// characters are linefeeds: the text itself, on one line.
pub proof fn lemma_escaped_reads_back(text: Seq<char>)
    requires
        is_plain(text),
    ensures
        literal_value(escaped(text)) == Some(on_one_line(text)),
    decreases text.len(),
{
    let inner = escaped(text);
    if text.len() == 0 {
        assert(on_one_line(text) =~= Seq::<char>::empty());
    } else {
        let tail = text.drop_first();
        let c = text[0];
        assert forall|i: int| 0 <= i < tail.len() && is_control(#[trigger] tail[i]) implies tail[i]
            == '\n' by {
            assert(tail[i] == text[i + 1]);
        }
        lemma_escaped_reads_back(tail);
        let head = escape_char(c);
        assert(inner =~= head + escaped(tail));
        let kept = if c == '\n' {
            ' '
        } else {
            c
        };
        assert(on_one_line(text) =~= seq![kept] + on_one_line(tail));
        if head.len() == 2 {
            assert(inner[0] == '\\');
            assert(inner[1] == c);
            assert(inner.skip(2) =~= escaped(tail));
        } else {
            assert(inner[0] == kept);
            assert(!is_control(kept)) by {
                if c != '\n' {
                    assert(c == text[0]);
                }
            }
            assert(inner.skip(1) =~= escaped(tail));
        }
    }
}

/// Escaping loses nothing of a text without control characters: a reader of
/// the escaped text gets the text back, character for character.
pub proof fn lemma_escape_round_trip(text: Seq<char>)
    requires
        is_printable(text),
    ensures
        literal_value(escaped(text)) == Some(text),
{
    assert(is_plain(text));
    lemma_escaped_reads_back(text);
    assert(on_one_line(text) =~= text);
}

} // verus!
