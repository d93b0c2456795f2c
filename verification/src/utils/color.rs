//! Escape codes that set the colors and the style of terminal text.

use crate::text::{decimal_text, push_decimal};
use vstd::prelude::*;

verus! {

pub const BLACK: &'static str = "\x1b[30m";

pub const RED: &'static str = "\x1b[31m";

pub const GREEN: &'static str = "\x1b[32m";

pub const YELLOW: &'static str = "\x1b[33m";

pub const BLUE: &'static str = "\x1b[34m";

pub const MAGENTA: &'static str = "\x1b[35m";

pub const CYAN: &'static str = "\x1b[36m";

pub const WHITE: &'static str = "\x1b[37m";

pub const ORANGE: &'static str = "\x1b[38;5;208m";

pub const PINK: &'static str = "\x1b[38;5;205m";

pub const PURPLE: &'static str = "\x1b[38;5;141m";

pub const GRAY: &'static str = "\x1b[38;5;245m";

pub const DARK_GREEN: &'static str = "\x1b[38;5;22m";

pub const BRIGHT_BLACK: &'static str = "\x1b[90m";

pub const BRIGHT_RED: &'static str = "\x1b[91m";

pub const BRIGHT_GREEN: &'static str = "\x1b[92m";

pub const BRIGHT_YELLOW: &'static str = "\x1b[93m";

pub const BRIGHT_BLUE: &'static str = "\x1b[94m";

pub const BRIGHT_MAGENTA: &'static str = "\x1b[95m";

pub const BRIGHT_CYAN: &'static str = "\x1b[96m";

pub const BRIGHT_WHITE: &'static str = "\x1b[97m";

pub const BG_BLACK: &'static str = "\x1b[40m";

pub const BG_RED: &'static str = "\x1b[41m";

pub const BG_GREEN: &'static str = "\x1b[42m";

pub const BG_YELLOW: &'static str = "\x1b[43m";

pub const BG_BLUE: &'static str = "\x1b[44m";

pub const BG_MAGENTA: &'static str = "\x1b[45m";

pub const BG_CYAN: &'static str = "\x1b[46m";

pub const BG_WHITE: &'static str = "\x1b[47m";

pub const RESET: &'static str = "\x1b[0m";

pub const BOLD: &'static str = "\x1b[1m";

pub const DIM: &'static str = "\x1b[2m";

pub const ITALIC: &'static str = "\x1b[3m";

pub const UNDERLINE: &'static str = "\x1b[4m";

pub const BLINK: &'static str = "\x1b[5m";

pub const REVERSE: &'static str = "\x1b[7m";

pub const HIDDEN: &'static str = "\x1b[8m";

/// The code that sets a color of three channels, after `lead`, which says
/// whether the text or its background is meant.
pub open spec fn rgb_code(lead: Seq<char>, r: u8, g: u8, b: u8) -> Seq<char> {
    lead + decimal_text(r as nat) + ";"@ + decimal_text(g as nat) + ";"@ + decimal_text(b as nat)
        + "m"@
}

/// The code with the given lead.
fn rgb(lead: &str, r: u8, g: u8, b: u8) -> (code: String)
    ensures
        code@ == rgb_code(lead@, r, g, b),
{
    let mut code = String::from_str(lead);
    push_decimal(&mut code, r as u128);
    code.append(";");
    push_decimal(&mut code, g as u128);
    code.append(";");
    push_decimal(&mut code, b as u128);
    code.append("m");
    code
}

/// The code that sets the color of the text to the given channels.
pub fn rgb_fg(r: u8, g: u8, b: u8) -> (code: String)
    ensures
        code@ == rgb_code("\x1b[38;2;"@, r, g, b),
{
    rgb("\x1b[38;2;", r, g, b)
}

/// The code that sets the color of the background to the given channels.
pub fn rgb_bg(r: u8, g: u8, b: u8) -> (code: String)
    ensures
        code@ == rgb_code("\x1b[48;2;"@, r, g, b),
{
    rgb("\x1b[48;2;", r, g, b)
}

} // verus!
