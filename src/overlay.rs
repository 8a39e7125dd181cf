//! Text shown in the result overlay.

use crate::text::{escaped, html_escape, is_blank, is_blank_seq};
use vstd::prelude::*;

verus! {

/// Shown in place of the user's words when nothing was said.
pub const NOTHING_SAID: &'static str = "<span class='empty'>You didn't say anything, but I can see your screen...</span>";

/// The overlay's HTML for what the user said.
pub open spec fn said_html(asr: Seq<char>) -> Seq<char> {
    if is_blank_seq(asr) {
        NOTHING_SAID@
    } else {
        escaped(asr)
    }
}

/// The user's words as HTML, or a note that nothing was said.
pub fn said_markup(asr: &str) -> (r: String)
    ensures
        r@ == said_html(asr@),
{
    if is_blank(asr) {
        String::from_str(NOTHING_SAID)
    } else {
        html_escape(asr)
    }
}

} // verus!
