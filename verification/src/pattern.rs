//! Literal patterns: the part of the regular expression engine that the
//! escaping rules rely on, and the model of what a replacement does.
//!
//! The patterns used by this library each stand for exactly one character.
//! For those, replacing every match is plain substitution of a character by
//! a string, which `substitute` states. The engine itself is not verified;
//! `replace_all` is the one place where its behaviour is taken on trust.
use vstd::prelude::*;

verus! {

/// The error of the regular expression engine. Opaque to the proofs.
#[verifier::external_type_specification]
#[verifier::external_body]
pub struct ExPatternError(regex::Error);

/// The characters that have a meaning of their own in a pattern.
pub open spec fn is_meta_character(c: char) -> bool {
    c == '\\' || c == '.' || c == '+' || c == '*' || c == '?' || c == '(' || c == ')' || c == '|'
        || c == '[' || c == ']' || c == '{' || c == '}' || c == '^' || c == '$' || c == '#' || c
        == '&' || c == '-' || c == '~'
}

/// The character that a pattern stands for, where the pattern is one literal:
/// a single character without a meaning of its own, an escaped character that
/// has one, or the escape for a linefeed. `None` for every other pattern.
pub open spec fn literal_of(pattern: Seq<char>) -> Option<char> {
    if pattern.len() == 1 && !is_meta_character(pattern[0]) {
        Some(pattern[0])
    } else if pattern.len() == 2 && pattern[0] == '\\' && is_meta_character(pattern[1]) {
        Some(pattern[1])
    } else if pattern.len() == 2 && pattern[0] == '\\' && pattern[1] == 'n' {
        Some('\n')
    } else {
        None
    }
}

/// A replacement that is inserted as it is: it holds no `$`, the one
/// character that starts a reference to a capture group.
pub open spec fn is_verbatim(replacement: Seq<char>) -> bool {
    forall|i: int| 0 <= i < replacement.len() ==> replacement[i] != '$'
}

/// `text` with every occurrence of `target` replaced by `replacement`.
pub open spec fn substitute(text: Seq<char>, target: char, replacement: Seq<char>) -> Seq<char>
    decreases text.len(),
{
    if text.len() == 0 {
        Seq::empty()
    } else if text[0] == target {
        replacement + substitute(text.drop_first(), target, replacement)
    } else {
        seq![text[0]] + substitute(text.drop_first(), target, replacement)
    }
}

/// Substitution works piece by piece.
pub proof fn lemma_substitute_concat(
    left: Seq<char>,
    right: Seq<char>,
    target: char,
    replacement: Seq<char>,
)
    ensures
        substitute(left + right, target, replacement) == substitute(left, target, replacement)
            + substitute(right, target, replacement),
    decreases left.len(),
{
    if left.len() == 0 {
        assert(left + right =~= right);
        assert(substitute(left, target, replacement) + substitute(right, target, replacement)
            =~= substitute(right, target, replacement));
    } else {
        assert((left + right).drop_first() =~= left.drop_first() + right);
        lemma_substitute_concat(left.drop_first(), right, target, replacement);
        let head = if left[0] == target {
            replacement
        } else {
            seq![left[0]]
        };
        assert(substitute(left + right, target, replacement) == head + substitute(
            left.drop_first() + right,
            target,
            replacement,
        ));
        assert(head + (substitute(left.drop_first(), target, replacement) + substitute(
            right,
            target,
            replacement,
        )) =~= (head + substitute(left.drop_first(), target, replacement)) + substitute(
            right,
            target,
            replacement,
        ));
    }
}

/// Substitution in a text of one character.
pub proof fn lemma_substitute_one(c: char, target: char, replacement: Seq<char>)
    ensures
        substitute(seq![c], target, replacement) == if c == target {
            replacement
        } else {
            seq![c]
        },
{
    let text = seq![c];
    assert(text.drop_first() =~= Seq::<char>::empty());
    assert(substitute(text.drop_first(), target, replacement) == Seq::<char>::empty());
    if c == target {
        assert(replacement + Seq::<char>::empty() =~= replacement);
    } else {
        assert(seq![c] + Seq::<char>::empty() =~= seq![c]);
    }
}

/// Substitution leaves a text without the target as it is.
pub proof fn lemma_substitute_absent(text: Seq<char>, target: char, replacement: Seq<char>)
    requires
        forall|i: int| 0 <= i < text.len() ==> text[i] != target,
    ensures
        substitute(text, target, replacement) == text,
    decreases text.len(),
{
    if text.len() > 0 {
        lemma_substitute_absent(text.drop_first(), target, replacement);
        assert(seq![text[0]] + text.drop_first() =~= text);
    }
}

/// Compiles `pattern` with `regex::Regex::new` and replaces every match in
/// `text` with `regex::Regex::replace_all`.
///
/// Trusted: where the pattern is one literal and the replacement is free of
/// `$`, the pattern compiles and the result is `text` with each occurrence of
/// that character replaced. Nothing is claimed of other patterns, nor of
/// replacements that refer to capture groups.
#[verifier::external_body]
pub(crate) fn replace_all(pattern: &str, text: &str, replacement: &str) -> (result: Result<
    String,
    regex::Error,
>)
    ensures
        literal_of(pattern@) is Some && is_verbatim(replacement@) ==> result is Ok,
        literal_of(pattern@) is Some && is_verbatim(replacement@) && result is Ok
            ==> result->Ok_0@ == substitute(text@, literal_of(pattern@)->0, replacement@),
{
    match regex::Regex::new(pattern) {
        Ok(compiled) => Ok(compiled.replace_all(text, replacement).into_owned()),
        Err(error) => Err(error),
    }
}

} // verus!
