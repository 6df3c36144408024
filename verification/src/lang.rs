//! Language detection: the Unicode-range heuristic that picks a default
//! language tag from a text's script when a request names none.

use vstd::prelude::*;

use crate::chars::chars_of;

verus! {

/// Whether the text holds a character in the inclusive code-point range.
pub open spec fn has_char_between(s: Seq<char>, lo: u32, hi: u32) -> bool {
    exists|i: int| 0 <= i < s.len() && lo <= #[trigger] s[i] as u32 <= hi
}

/// Whether any character of the vector lies in the inclusive range.
fn contains_in_range(cs: &Vec<char>, lo: u32, hi: u32) -> (r: bool)
    ensures
        r == has_char_between(cs@, lo, hi),
{
    let n = cs.len();
    let mut i: usize = 0;
    while i < n
        invariant
            n == cs@.len(),
            i <= n,
            forall|k: int| 0 <= k < i ==> !(lo <= #[trigger] cs@[k] as u32 <= hi),
        decreases n - i,
    {
        let u = cs[i] as u32;
        if lo <= u && u <= hi {
            return true;
        }
        i = i + 1;
    }
    false
}

/// Picks the default language tag from the text's script: a CJK ideograph
/// selects `zh-cn`; otherwise kana selects `ja-jp`; otherwise a Cyrillic
/// letter selects `de-de` (kept as the original service's quirk); otherwise
/// `en-us`.
pub fn detect_language(text: &str) -> (r: String)
    ensures
        has_char_between(text@, 0x4E00, 0x9FFF) ==> r@ == "zh-cn"@,
        !has_char_between(text@, 0x4E00, 0x9FFF) && has_char_between(text@, 0x3040, 0x30FF) ==> r@
            == "ja-jp"@,
        !has_char_between(text@, 0x4E00, 0x9FFF) && !has_char_between(text@, 0x3040, 0x30FF)
            && has_char_between(text@, 0x0400, 0x04FF) ==> r@ == "de-de"@,
        !has_char_between(text@, 0x4E00, 0x9FFF) && !has_char_between(text@, 0x3040, 0x30FF)
            && !has_char_between(text@, 0x0400, 0x04FF) ==> r@ == "en-us"@,
{
    let cs = chars_of(text);
    if contains_in_range(&cs, 0x4E00, 0x9FFF) {
        String::from_str("zh-cn")
    } else if contains_in_range(&cs, 0x3040, 0x30FF) {
        String::from_str("ja-jp")
    } else if contains_in_range(&cs, 0x0400, 0x04FF) {
        String::from_str("de-de")
    } else {
        String::from_str("en-us")
    }
}

} // verus!
