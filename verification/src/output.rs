//! What leaves the program: which texts are worth committing, and which
//! clipboard texts look like an API key.

use vstd::prelude::*;

use crate::text;
use crate::text::trimmed;

verus! {

/// Where a user creates an API key.
pub const AI_STUDIO_URL: &'static str = "https://aistudio.google.com/apikey";

/// The shortest text that can be a key.
pub const MIN_KEY_LEN: usize = 12;

/// How long the clipboard settles before the paste keystroke, in ms.
pub const PASTE_DELAY_MS: u64 = 30;

/// The shape of a key: at least 12 characters, no whitespace inside.
pub open spec fn key_shaped(key: Seq<char>) -> bool {
    trimmed(key).len() >= MIN_KEY_LEN && text::no_space(trimmed(key))
}

/// Whether a text has the shape of a key, whitespace around it aside.
pub fn is_valid_key(key: &str) -> (r: bool)
    ensures
        r == key_shaped(key@),
{
    let k = text::trim(key);
    let chars = text::chars_of(k.as_str());
    chars.len() >= MIN_KEY_LEN && text::is_solid(k.as_str())
}

/// The key that a clipboard text holds, if it looks like one.
pub fn key_from_text(clip: &str) -> (r: Option<String>)
    ensures
        match r {
            Some(k) => key_shaped(clip@) && k@ == trimmed(clip@),
            None => !key_shaped(clip@),
        },
{
    let k = text::trim(clip);
    proof {
        text::lemma_trimmed_twice(clip@);
    }
    if is_valid_key(k.as_str()) {
        Some(k)
    } else {
        None
    }
}

/// A text is committed unless it is blank.
pub fn worth_committing(t: &str) -> (r: bool)
    ensures
        r == (trimmed(t@).len() > 0),
{
    !text::is_blank(t)
}

/// Whitespace around a key does not matter.
pub proof fn law_key_shape_ignores_surrounding_space(
    before: Seq<char>,
    key: Seq<char>,
    after: Seq<char>,
)
    requires
        forall|i: int| 0 <= i < before.len() ==> text::is_space(#[trigger] before[i]),
        forall|i: int| 0 <= i < after.len() ==> text::is_space(#[trigger] after[i]),
    ensures
        key_shaped(before + key + after) == key_shaped(key),
{
    text::lemma_trimmed_padding(before, key, after);
}

/// The key read from the clipboard passes the check that it was read by.
pub proof fn law_read_key_is_valid(clip: Seq<char>)
    requires
        key_shaped(clip),
    ensures
        key_shaped(trimmed(clip)),
        text::no_space(trimmed(clip)),
        trimmed(clip).len() >= MIN_KEY_LEN,
{
    text::lemma_trimmed_twice(clip);
}

/// A text without whitespace has the shape of a key from twelve characters on,
/// whatever they are; a text with whitespace between its ends never has it.
pub proof fn law_shape_of_a_key(key: Seq<char>)
    requires
        key.len() > 0 && !text::is_space(key[0]) && !text::is_space(key[key.len() - 1]),
    ensures
        key_shaped(key) <==> key.len() >= 12 && (forall|i: int|
            0 <= i < key.len() ==> !text::is_space(#[trigger] key[i])),
{
    text::lemma_trimmed_solid_ends(key);
}

} // verus!
