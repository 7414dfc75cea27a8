//! Central configuration values the rest of the program keys off.
use vstd::prelude::*;

verus! {

/// Application version.
pub const VERSION: &'static str = "0.9.1";

/// Application name, shown in the window title and the About dialog.
pub const APP_NAME: &'static str = "LazyCruncher Workshop";

/// The window title.
pub fn window_title() -> (r: String)
    ensures
        r@ == APP_NAME@ + " v"@ + VERSION@,
{
    let mut s = APP_NAME.to_owned();
    s.append(" v");
    s.append(VERSION);
    s
}

} // verus!
