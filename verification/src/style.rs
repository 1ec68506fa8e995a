//! Terminal styling: escape sequences, colours and the width of text on screen.

use vstd::prelude::*;
use crate::number::decimal;
use crate::text::is_ascii_text;

verus! {

// --- Styled text ---

pub open spec fn painted(text: Seq<char>, color: u8) -> Seq<char> {
    "\x1b[38;5;"@ + decimal(color as nat) + "m"@ + text + "\x1b[39m"@
}

pub open spec fn painted_on(text: Seq<char>, fgc: u8, bgc: u8) -> Seq<char> {
    "\x1b[38;5;"@ + decimal(fgc as nat) + ";48;5;"@ + decimal(bgc as nat) + "m"@ + text
        + "\x1b[39;49m"@
}

pub open spec fn emboldened(text: Seq<char>) -> Seq<char> {
    "\x1b[1m"@ + text + "\x1b[22m"@
}

pub open spec fn slanted(text: Seq<char>) -> Seq<char> {
    "\x1b[3m"@ + text + "\x1b[23m"@
}

pub open spec fn underlined(text: Seq<char>) -> Seq<char> {
    "\x1b[4m"@ + text + "\x1b[24m"@
}

pub open spec fn reversed(text: Seq<char>) -> Seq<char> {
    "\x1b[7m"@ + text + "\x1b[27m"@
}

/// `crust::style::fg` sets a 256-colour foreground before the text and resets it after.
pub assume_specification[ crust::style::fg ](text: &str, color: u8) -> (r: String)
    ensures
        r@ == painted(text@, color),
;

/// `crust::style::fb` sets foreground and background before the text and resets both after.
pub assume_specification[ crust::style::fb ](text: &str, fgc: u8, bgc: u8) -> (r: String)
    ensures
        r@ == painted_on(text@, fgc, bgc),
;

/// `crust::style::bold` puts the bold sequence before the text and its reset after.
pub assume_specification[ crust::style::bold ](text: &str) -> (r: String)
    ensures
        r@ == emboldened(text@),
;

/// `crust::style::italic` puts the italic sequence before the text and its reset after.
pub assume_specification[ crust::style::italic ](text: &str) -> (r: String)
    ensures
        r@ == slanted(text@),
;

/// `crust::style::underline` puts the underline sequence before the text and its reset after.
pub assume_specification[ crust::style::underline ](text: &str) -> (r: String)
    ensures
        r@ == underlined(text@),
;

/// `crust::style::reverse` puts the reverse-video sequence before the text and its reset after.
pub assume_specification[ crust::style::reverse ](text: &str) -> (r: String)
    ensures
        r@ == reversed(text@),
;

// --- Plain text and width ---

/// What `crust::strip_ansi` leaves of a text.
pub uninterp spec fn plain_text(s: Seq<char>) -> Seq<char>;

/// `crust::strip_ansi` drops escape sequences; a text without an escape character stays whole.
pub assume_specification[ crust::strip_ansi ](s: &str) -> (r: String)
    ensures
        r@ == plain_text(s@),
        !s@.contains('\x1b') ==> r@ == s@,
;

/// The number of terminal cells that `crust::display_width` counts for a text.
pub uninterp spec fn width_of(s: Seq<char>) -> usize;

/// Only printable ASCII characters.
pub open spec fn is_printable(s: Seq<char>) -> bool {
    forall|i: int| 0 <= i < s.len() ==> ' ' <= #[trigger] s[i] <= '~'
}

/// `crust::display_width` counts the cells of a text from its characters alone: one for
/// each printable ASCII character, where there are no others.
pub assume_specification[ crust::display_width ](s: &str) -> (r: usize)
    ensures
        r == width_of(s@),
        is_printable(s@) ==> r == s@.len(),
;

// --- Colours ---

pub open spec fn hex_value(c: char) -> Option<u8> {
    if '0' <= c <= '9' {
        Some((c as u8 - 48) as u8)
    } else if 'a' <= c <= 'f' {
        Some((c as u8 - 87) as u8)
    } else if 'A' <= c <= 'F' {
        Some((c as u8 - 55) as u8)
    } else {
        None
    }
}

/// The value of two hexadecimal digits; a plus sign may stand in place of the first.
pub open spec fn hex_pair(a: char, b: char) -> Option<u8> {
    if a == '+' {
        hex_value(b)
    } else {
        match (hex_value(a), hex_value(b)) {
            (Some(x), Some(y)) => Some((16 * x + y) as u8),
            _ => None,
        }
    }
}

pub open spec fn triple(r: Option<u8>, g: Option<u8>, b: Option<u8>) -> Option<(u8, u8, u8)> {
    match (r, g, b) {
        (Some(r), Some(g), Some(b)) => Some((r, g, b)),
        _ => None,
    }
}

pub open spec fn unhashed(s: Seq<char>) -> Seq<char>
    decreases s.len(),
{
    if s.len() > 0 && s[0] == '#' {
        unhashed(s.drop_first())
    } else {
        s
    }
}

pub open spec fn hex_color(s: Seq<char>) -> Option<(u8, u8, u8)> {
    let h = unhashed(s);
    if h.len() == 6 {
        triple(hex_pair(h[0], h[1]), hex_pair(h[2], h[3]), hex_pair(h[4], h[5]))
    } else if h.len() == 3 && h[0] != '+' && h[1] != '+' && h[2] != '+' {
        triple(hex_pair(h[0], h[0]), hex_pair(h[1], h[1]), hex_pair(h[2], h[2]))
    } else {
        None
    }
}

/// `crust::style::parse_hex_color` reads three or six hexadecimal digits behind any
/// number of `#`. It slices by bytes, so it is called on ASCII text only.
pub assume_specification[ crust::style::parse_hex_color ](hex: &str) -> (r: Option<(u8, u8, u8)>)
    requires
        is_ascii_text(hex@),
    ensures
        r == hex_color(hex@),
;

/// The entry of the 256-colour palette that stands for a colour: the grey ramp for
/// greys, the colour cube for the rest.
pub open spec fn palette_entry(r: u8, g: u8, b: u8) -> u8 {
    if r == g && g == b {
        if r < 8 {
            16
        } else if r > 248 {
            231
        } else {
            ((r - 8) * 24 / 247 + 232) as u8
        }
    } else {
        (16 + 36 * (r as int / 51) + 6 * (g as int / 51) + (b as int / 51)) as u8
    }
}

/// `crust::style::rgb_to_xterm` gives the palette entry of a colour.
pub assume_specification[ crust::style::rgb_to_xterm ](r: u8, g: u8, b: u8) -> (c: u8)
    ensures
        c == palette_entry(r, g, b),
;

pub fn ascii_only(s: &[char]) -> (r: bool)
    ensures
        r == is_ascii_text(s@),
{
    for i in 0..s.len()
        invariant
            forall|j: int| 0 <= j < i ==> (#[trigger] s@[j]) <= '\u{7f}',
    {
        let c: char = s[i];
        if c > '\u{7f}' {
            return false;
        }
    }
    true
}

} // verus!
