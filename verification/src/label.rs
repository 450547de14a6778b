use crate::text::same_text;
use vstd::prelude::*;

verus! {

/// The label that every pause is booked under.
pub const MAIN_PAUSE_TEXT: &'static str = "pause";

/// The text that closes a day.
pub const END_TEXT: &'static str = "end";

/// A text that holds `[something]` is labelled by what stands between the
/// brackets.
pub const OVERRIDE_PATTERN: &'static str = "\\[(.*)\\]";

/// The capture group of `OVERRIDE_PATTERN` that holds the label.
pub const OVERRIDE_GROUP: usize = 1;

/// What the regex crate finds for capture group `group` when it searches
/// `text` for the leftmost match of `pattern`: the part of `text` that the
/// group matched. `None` when `pattern` does not compile, when nothing in
/// `text` matches, or when the group took no part in the match.
pub uninterp spec fn captured_group(pattern: Seq<char>, group: usize, text: Seq<char>) -> Option<Seq<char>>;

/// Compiles `pattern` with `regex::Regex::new`, searches `text` with
/// `Regex::captures` and copies what `Captures::get` holds for `group`.
#[verifier::external_body]
pub(crate) fn capture_group(pattern: &str, group: usize, text: &str) -> (found: Option<String>)
    ensures
        found matches Some(part) ==> captured_group(pattern@, group, text@) == Some(part@),
        found is None ==> captured_group(pattern@, group, text@) is None,
{
    let matcher = match regex::Regex::new(pattern) {
        Ok(matcher) => matcher,
        Err(_) => return None,
    };
    let captures = matcher.captures(text)?;
    let part = captures.get(group)?;
    Some(part.as_str().to_owned())
}

/// The texts that stand for a pause.
pub open spec fn is_pause_text(text: Seq<char>) -> bool {
    ||| text == "pause"@
    ||| text == "lunch"@
    ||| text == "mittag"@
    ||| text == "break"@
}

/// The label of `text`, given what stands between its brackets: the
/// bracketed part if there is one and it is not empty, the whole text
/// otherwise; and the one pause label for every text that stands for a pause.
pub open spec fn normalized(text: Seq<char>, bracketed: Option<Seq<char>>) -> Seq<char> {
    let chosen = match bracketed {
        Some(part) => if part.len() > 0 { part } else { text },
        None => text,
    };
    if is_pause_text(chosen) {
        MAIN_PAUSE_TEXT@
    } else {
        chosen
    }
}

/// The label that the time of an entry with this text is booked under.
pub open spec fn label_of(text: Seq<char>) -> Seq<char> {
    normalized(text, captured_group(OVERRIDE_PATTERN@, OVERRIDE_GROUP, text))
}

/// Whether the text stands for a pause.
pub fn is_pause(text: &str) -> (pause: bool)
    ensures
        pause == is_pause_text(text@),
{
    same_text(text, "pause") || same_text(text, "lunch") || same_text(text, "mittag") || same_text(
        text,
        "break",
    )
}

/// Picks the label of `text` once the bracketed part, if any, is known.
pub fn normalize_label(text: String, bracketed: Option<String>) -> (label: String)
    ensures
        label@ == normalized(
            text@,
            match bracketed {
                Some(part) => Some(part@),
                None => None,
            },
        ),
{
    let chosen = match bracketed {
        Some(part) => if part.as_str().is_empty() { text } else { part },
        None => text,
    };
    if is_pause(chosen.as_str()) {
        MAIN_PAUSE_TEXT.to_owned()
    } else {
        chosen
    }
}

/// If a time text contains "[something]",
/// only use the message inside the brackets.
pub fn effective_text(s: String) -> (label: String)
    ensures
        label@ == label_of(s@),
{
    let bracketed = capture_group(OVERRIDE_PATTERN, OVERRIDE_GROUP, s.as_str());
    normalize_label(s, bracketed)
}

} // verus!
