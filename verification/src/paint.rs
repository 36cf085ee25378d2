//! Terminal colours.

use vstd::prelude::*;
use vstd::string::*;

verus! {

pub const GREEN: &'static str = "\x1b[38;5;82m";

pub const YELLOW: &'static str = "\x1b[38;5;226m";

pub const PINK: &'static str = "\x1b[38;5;213m";

pub const CYAN: &'static str = "\x1b[38;5;87m";

pub const DIM: &'static str = "\x1b[2m";

pub const RESET: &'static str = "\x1b[0m";

/// `text` switched to `colour` and back.
pub open spec fn painted(colour: Seq<char>, text: Seq<char>) -> Seq<char> {
    colour + text + RESET@
}

/// `text` switched to `colour` and back.
pub fn painted_text(colour: &str, text: &str) -> (r: String)
    ensures
        r@ == painted(colour@, text@),
{
    colour.to_string().concat(text).concat(RESET)
}

/// Painting keeps the text as it is, between the code of the colour and the code that
/// ends it.
pub proof fn law_painting_keeps_the_text(colour: Seq<char>, text: Seq<char>)
    ensures
        painted(colour, text).len() == colour.len() + text.len() + 4,
        painted(colour, text).take(colour.len() as int) == colour,
        painted(colour, text).subrange(colour.len() as int, (colour.len() + text.len()) as int)
            == text,
        painted(colour, text).skip((colour.len() + text.len()) as int) == seq![
            '\x1b',
            '[',
            '0',
            'm',
        ],
{
    reveal_strlit("\x1b[0m");
    let p = painted(colour, text);
    assert(RESET@ =~= seq!['\x1b', '[', '0', 'm']);
    assert(p.take(colour.len() as int) =~= colour);
    assert(p.subrange(colour.len() as int, (colour.len() + text.len()) as int) =~= text);
    assert(p.skip((colour.len() + text.len()) as int) =~= RESET@);
}

} // verus!
