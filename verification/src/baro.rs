//! The text of the barometer's calibration file: the reference altitude
//! on the first line and the reference pressure on the second.

use crate::text::chars_of;
use crate::text::pieces;
use crate::text::split;
use crate::text::trim;
use crate::text::trimmed;
use vstd::prelude::*;

verus! {

/// The lines of a calibration text: the text without the white space
/// around it, split at its line breaks.
pub open spec fn config_lines(text: Seq<char>) -> Seq<Seq<char>> {
    split(trimmed(text), '\n')
}

/// Takes a calibration text apart into its two values, still as text.
/// A text of any other number of lines is refused.
pub fn read_config(text: &str) -> (r: Result<(String, String), &'static str>)
    ensures
        match r {
            Ok((alt, pres)) => {
                &&& config_lines(text@).len() == 2
                &&& alt@ == config_lines(text@)[0]
                &&& pres@ == config_lines(text@)[1]
            },
            Err(why) => {
                &&& config_lines(text@).len() != 2
                &&& why@ == "Failed to parse file, not enough values found"@
            },
        },
{
    let chars = chars_of(text);
    let body = trim(&chars, 0, chars.len());
    assert(chars@.subrange(0, chars@.len() as int) == chars@);
    let parts = pieces(&chars, body.0, body.1, '\n');

    if parts.len() != 2 {
        return Err("Failed to parse file, not enough values found");
    }
    let alt = text.substring_char(parts[0].0, parts[0].1).to_owned();
    let pres = text.substring_char(parts[1].0, parts[1].1).to_owned();
    Ok((alt, pres))
}

} // verus!
