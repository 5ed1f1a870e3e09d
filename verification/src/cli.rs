use vstd::prelude::*;
use crate::text::{ascii_lowercase, is_ascii_text, same_text};

verus! {

/// How the remaining images are converted: all at once with one format, or one by one.
#[derive(Debug, Clone, Copy, PartialEq, Eq, Structural)]
pub enum Mode {
    Auto,
    Manual,
}

/// The formats images can be converted to.
#[derive(Debug, Clone, Copy, PartialEq, Eq, Structural)]
pub enum Format {
    Webp,
    Avif,
}

/// The characters with the Unicode `White_Space` property, which
/// `char::is_whitespace` tests for.
pub open spec fn is_white_space(c: char) -> bool {
    let v = c as u32;
    ||| 0x09 <= v <= 0x0d
    ||| v == 0x20
    ||| v == 0x85
    ||| v == 0xa0
    ||| v == 0x1680
    ||| 0x2000 <= v <= 0x200a
    ||| v == 0x2028
    ||| v == 0x2029
    ||| v == 0x202f
    ||| v == 0x205f
    ||| v == 0x3000
}

/// The text without its leading white space.
pub open spec fn trim_start(s: Seq<char>) -> Seq<char>
    decreases s.len(),
{
    if s.len() > 0 && is_white_space(s[0]) {
        trim_start(s.drop_first())
    } else {
        s
    }
}

/// The text without its trailing white space.
pub open spec fn trim_end(s: Seq<char>) -> Seq<char>
    decreases s.len(),
{
    if s.len() > 0 && is_white_space(s.last()) {
        trim_end(s.drop_last())
    } else {
        s
    }
}

/// What `str::trim` returns: the text without leading and trailing white space.
pub open spec fn trimmed(s: Seq<char>) -> Seq<char> {
    trim_end(trim_start(s))
}

/// What `str::to_lowercase` returns: the Unicode lower-case form of the text.
pub uninterp spec fn lowercased(s: Seq<char>) -> Seq<char>;

/// Calls `str::trim`, which removes leading and trailing characters with the
/// Unicode `White_Space` property.
#[verifier::external_body]
fn trim_text(s: &str) -> (r: &str)
    ensures
        r@ == trimmed(s@),
{
    s.trim()
}

/// Calls `str::to_lowercase`; its result is named `lowercased`. On ASCII text
/// the Unicode lower-case mapping turns `A`..`Z` into `a`..`z` and keeps every
/// other character.
#[verifier::external_body]
fn lowercase_text(s: &str) -> (r: String)
    ensures
        r@ == lowercased(s@),
        is_ascii_text(s@) ==> r@ == ascii_lowercase(s@),
{
    s.to_lowercase()
}

/// The form in which a typed answer is compared: trimmed, then lower-cased.
pub open spec fn normalized(input: Seq<char>) -> Seq<char> {
    lowercased(trimmed(input))
}

/// A normalized answer confirms when it is `y` or `yes`.
pub open spec fn confirm_answer(answer: Seq<char>) -> bool {
    answer == "y"@ || answer == "yes"@
}

/// The mode a normalized answer chooses, if it is a valid one.
pub open spec fn mode_answer(answer: Seq<char>) -> Option<Mode> {
    if answer == "auto"@ || answer == "a"@ {
        Some(Mode::Auto)
    } else if answer == "manual"@ || answer == "m"@ {
        Some(Mode::Manual)
    } else {
        None
    }
}

/// The choice a normalized answer makes about a format: `Some(Some(f))` to
/// convert to `f`, `Some(None)` to skip, `None` when the answer is not valid.
pub open spec fn format_answer(answer: Seq<char>) -> Option<Option<Format>> {
    if answer == "webp"@ || answer == "w"@ {
        Some(Some(Format::Webp))
    } else if answer == "avif"@ || answer == "a"@ {
        Some(Some(Format::Avif))
    } else if answer == "skip"@ || answer == "s"@ || answer == "n"@ || answer == "no"@ {
        Some(None)
    } else {
        None
    }
}

/// Law: exactly the answers `y` and `yes` confirm; every other answer, such as
/// `n`, `no` or an empty line, counts as no.
pub proof fn law_confirm_only_on_yes(answer: Seq<char>)
    ensures
        confirm_answer(answer) <==> (answer == seq!['y'] || answer == seq!['y', 'e', 's']),
        !confirm_answer(seq!['n']),
        !confirm_answer(seq!['n', 'o']),
        !confirm_answer(Seq::<char>::empty()),
{
    reveal_strlit("y");
    reveal_strlit("yes");
    assert("y"@ =~= seq!['y']);
    assert("yes"@ =~= seq!['y', 'e', 's']);
    assert(seq!['n'][0] != seq!['y'][0]);
    assert(seq!['n', 'o'].len() != seq!['y', 'e', 's'].len());
}

/// Law: `auto` or `a` choose automatic mode, `manual` or `m` choose manual
/// mode, and every other answer chooses none.
pub proof fn law_mode_answers(answer: Seq<char>)
    ensures
        mode_answer(answer) == Some(Mode::Auto) <==> (answer == seq!['a', 'u', 't', 'o'] || answer
            == seq!['a']),
        mode_answer(answer) == Some(Mode::Manual) <==> (answer == seq![
            'm',
            'a',
            'n',
            'u',
            'a',
            'l',
        ] || answer == seq!['m']),
        mode_answer(answer) is None <==> !(answer == seq!['a', 'u', 't', 'o'] || answer == seq!['a']
            || answer == seq!['m', 'a', 'n', 'u', 'a', 'l'] || answer == seq!['m']),
{
    reveal_strlit("auto");
    reveal_strlit("a");
    reveal_strlit("manual");
    reveal_strlit("m");
    assert("auto"@ =~= seq!['a', 'u', 't', 'o']);
    assert("a"@ =~= seq!['a']);
    assert("manual"@ =~= seq!['m', 'a', 'n', 'u', 'a', 'l']);
    assert("m"@ =~= seq!['m']);
    assert(seq!['a'][0] != seq!['m'][0]);
    assert(seq!['a', 'u', 't', 'o'][0] != seq!['m', 'a', 'n', 'u', 'a', 'l'][0]);
}

/// Law: `webp`/`w` choose WebP, `avif`/`a` choose AVIF, `skip`/`s`/`n`/`no`
/// skip, and every other answer is not valid.
pub proof fn law_format_answers(answer: Seq<char>)
    ensures
        format_answer(answer) == Some(Some(Format::Webp)) <==> (answer == seq!['w', 'e', 'b', 'p']
            || answer == seq!['w']),
        format_answer(answer) == Some(Some(Format::Avif)) <==> (answer == seq!['a', 'v', 'i', 'f']
            || answer == seq!['a']),
        format_answer(answer) == Some(None::<Format>) <==> (answer == seq!['s', 'k', 'i', 'p']
            || answer == seq!['s'] || answer == seq!['n'] || answer == seq!['n', 'o']),
        format_answer(answer) is None <==> !(answer == seq!['w', 'e', 'b', 'p'] || answer == seq!['w']
            || answer == seq!['a', 'v', 'i', 'f'] || answer == seq!['a'] || answer == seq![
            's',
            'k',
            'i',
            'p',
        ] || answer == seq!['s'] || answer == seq!['n'] || answer == seq!['n', 'o']),
{
    reveal_strlit("webp");
    reveal_strlit("w");
    reveal_strlit("avif");
    reveal_strlit("a");
    reveal_strlit("skip");
    reveal_strlit("s");
    reveal_strlit("n");
    reveal_strlit("no");
    assert("webp"@ =~= seq!['w', 'e', 'b', 'p']);
    assert("w"@ =~= seq!['w']);
    assert("avif"@ =~= seq!['a', 'v', 'i', 'f']);
    assert("a"@ =~= seq!['a']);
    assert("skip"@ =~= seq!['s', 'k', 'i', 'p']);
    assert("s"@ =~= seq!['s']);
    assert("n"@ =~= seq!['n']);
    assert("no"@ =~= seq!['n', 'o']);
    assert(seq!['w'][0] != seq!['a'][0]);
    assert(seq!['w'][0] != seq!['s'][0]);
    assert(seq!['w'][0] != seq!['n'][0]);
    assert(seq!['a'][0] != seq!['s'][0]);
    assert(seq!['a'][0] != seq!['n'][0]);
    assert(seq!['s'][0] != seq!['n'][0]);
    assert(seq!['w', 'e', 'b', 'p'][0] != seq!['a', 'v', 'i', 'f'][0]);
    assert(seq!['w', 'e', 'b', 'p'][0] != seq!['s', 'k', 'i', 'p'][0]);
    assert(seq!['a', 'v', 'i', 'f'][0] != seq!['s', 'k', 'i', 'p'][0]);
}

/// Trims a typed line and lower-cases it.
pub fn normalize_answer(input: &str) -> (r: String)
    ensures
        r@ == normalized(input@),
        is_ascii_text(trimmed(input@)) ==> normalized(input@) == ascii_lowercase(trimmed(input@)),
{
    lowercase_text(trim_text(input))
}

/// Whether a normalized answer says yes.
pub fn confirm_from_answer(answer: &str) -> (r: bool)
    ensures
        r == confirm_answer(answer@),
{
    same_text(answer, "y") || same_text(answer, "yes")
}

/// The mode that a normalized answer selects, or `None` when it selects none.
pub fn mode_from_answer(answer: &str) -> (r: Option<Mode>)
    ensures
        r == mode_answer(answer@),
{
    if same_text(answer, "auto") || same_text(answer, "a") {
        Some(Mode::Auto)
    } else if same_text(answer, "manual") || same_text(answer, "m") {
        Some(Mode::Manual)
    } else {
        None
    }
}

/// The format choice that a normalized answer makes, or `None` when it is not valid.
pub fn format_from_answer(answer: &str) -> (r: Option<Option<Format>>)
    ensures
        r == format_answer(answer@),
{
    if same_text(answer, "webp") || same_text(answer, "w") {
        Some(Some(Format::Webp))
    } else if same_text(answer, "avif") || same_text(answer, "a") {
        Some(Some(Format::Avif))
    } else if same_text(answer, "skip") || same_text(answer, "s") || same_text(answer, "n")
        || same_text(answer, "no") {
        Some(None)
    } else {
        None
    }
}

/// Whether a typed line answers a yes/no question with yes.
pub fn parse_confirm(input: &str) -> (r: bool)
    ensures
        r == confirm_answer(normalized(input@)),
        is_ascii_text(trimmed(input@)) ==> normalized(input@) == ascii_lowercase(trimmed(input@)),
{
    let answer = normalize_answer(input);
    confirm_from_answer(answer.as_str())
}

/// The conversion mode that a typed line selects, or `None` when the line is not valid.
pub fn parse_mode(input: &str) -> (r: Option<Mode>)
    ensures
        r == mode_answer(normalized(input@)),
        is_ascii_text(trimmed(input@)) ==> normalized(input@) == ascii_lowercase(trimmed(input@)),
{
    let answer = normalize_answer(input);
    mode_from_answer(answer.as_str())
}

/// The format choice that a typed line makes, or `None` when the line is not valid.
pub fn parse_format(input: &str) -> (r: Option<Option<Format>>)
    ensures
        r == format_answer(normalized(input@)),
        is_ascii_text(trimmed(input@)) ==> normalized(input@) == ascii_lowercase(trimmed(input@)),
{
    let answer = normalize_answer(input);
    format_from_answer(answer.as_str())
}

} // verus!
