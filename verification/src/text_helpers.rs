//! Text shortening for fixed-width overlay fields.

use vstd::prelude::*;

verus! {

/// Caps a label at `max_length` characters.
///
/// Text that fits is returned unchanged; longer text is cut to
/// `max_length - 3` characters and finished with a three-dot ellipsis, so the
/// result never exceeds `max_length` characters.
pub fn limit_str_length(text: &str, max_length: usize) -> (r: String)
    requires
        max_length >= 3,
    ensures
        text@.len() <= max_length ==> r@ == text@,
        text@.len() > max_length ==> r@ == text@.subrange(0, max_length - 3) + "..."@,
{
    if text.unicode_len() <= max_length {
        text.to_owned()
    } else {
        let prefix = text.substring_char(0, max_length - 3);
        String::from_str(prefix).concat("...")
    }
}

} // verus!
