//! Colors for text that is written to a terminal.
use vstd::prelude::*;

verus! {

/// `colored::Colorize::green`, written out as text: `text` in green, or
/// `text` as it is where the environment asks for no colors. The environment
/// decides, so nothing is claimed of the result.
#[verifier::external_body]
fn paint_green(text: &str) -> String {
    colored::Colorize::green(text).to_string()
}

/// `colored::Colorize::red`, written out as text: `text` in red, or `text`
/// as it is where the environment asks for no colors. The environment
/// decides, so nothing is claimed of the result.
#[verifier::external_body]
fn paint_red(text: &str) -> String {
    colored::Colorize::red(text).to_string()
}

/// `colored::Colorize::purple`, written out as text: `text` in purple, or
/// `text` as it is where the environment asks for no colors. The environment
/// decides, so nothing is claimed of the result.
#[verifier::external_body]
fn paint_purple(text: &str) -> String {
    colored::Colorize::purple(text).to_string()
}

/// A color that text can be written in.
#[derive(Debug, Clone, Copy, PartialEq, Eq)]
pub enum Color {
    Green,
    Red,
    Purple,
}

/// `text` for a reader that is a terminal or not: as it is where it is not,
/// in the given color where it is.
pub fn colorize(text: &str, color: Color, tty: bool) -> (r: String)
    ensures
        !tty ==> r@ == text@,
{
    if tty {
        match color {
            Color::Green => paint_green(text),
            Color::Red => paint_red(text),
            Color::Purple => paint_purple(text),
        }
    } else {
        String::from_str(text)
    }
}

/// Text that is colored where it is written to a terminal.
pub trait MaybeColorize {
    /// The characters of `self`. An implementation says what they are; where
    /// it says nothing, nothing is known of them.
    open spec fn text(&self) -> Seq<char> {
        arbitrary()
    }

    /// `self` in green where `tty` is set, else as it is.
    fn green(&self, tty: bool) -> (r: String)
        ensures
            !tty ==> r@ == self.text(),
    ;

    /// `self` in red where `tty` is set, else as it is.
    fn red(&self, tty: bool) -> (r: String)
        ensures
            !tty ==> r@ == self.text(),
    ;

    /// `self` in purple where `tty` is set, else as it is.
    fn purple(&self, tty: bool) -> (r: String)
        ensures
            !tty ==> r@ == self.text(),
    ;
}

impl MaybeColorize for &str {
    open spec fn text(&self) -> Seq<char> {
        self@
    }

    fn green(&self, tty: bool) -> (r: String) {
        colorize(self, Color::Green, tty)
    }

    fn red(&self, tty: bool) -> (r: String) {
        colorize(self, Color::Red, tty)
    }

    fn purple(&self, tty: bool) -> (r: String) {
        colorize(self, Color::Purple, tty)
    }
}

impl MaybeColorize for String {
    open spec fn text(&self) -> Seq<char> {
        self@
    }

    fn green(&self, tty: bool) -> (r: String) {
        colorize(self.as_str(), Color::Green, tty)
    }

    fn red(&self, tty: bool) -> (r: String) {
        colorize(self.as_str(), Color::Red, tty)
    }

    fn purple(&self, tty: bool) -> (r: String) {
        colorize(self.as_str(), Color::Purple, tty)
    }
}

} // verus!
