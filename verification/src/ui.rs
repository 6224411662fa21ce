//! The shell's view-model values: the color theme, the visible view, and
//! their initial state. Rendering, colors and widget layout belong to the
//! caller.

use vstd::prelude::*;

verus! {

/// The two color themes of the player.
#[derive(Debug, Clone, Copy, PartialEq, Eq, Structural)]
pub enum Theme {
    /// The dark theme.
    Tekkadan,
    /// The light theme.
    Barbatos,
}

impl Theme {
    /// The other theme.
    pub open spec fn spec_toggled(self) -> Theme {
        match self {
            Theme::Tekkadan => Theme::Barbatos,
            Theme::Barbatos => Theme::Tekkadan,
        }
    }

    /// The theme's display name.
    pub fn name(self) -> (r: &'static str)
        ensures
            self is Tekkadan ==> r@ == "TEKKADAN"@,
            self is Barbatos ==> r@ == "BARBATOS"@,
    {
        match self {
            Theme::Tekkadan => "TEKKADAN",
            Theme::Barbatos => "BARBATOS",
        }
    }

    /// Cycles forward through the themes; with two themes, the other one.
    pub fn up(self) -> (r: Theme)
        ensures
            r == self.spec_toggled(),
    {
        match self {
            Theme::Tekkadan => Theme::Barbatos,
            Theme::Barbatos => Theme::Tekkadan,
        }
    }

    /// Cycles backward through the themes; with two themes, the other one.
    pub fn down(self) -> (r: Theme)
        ensures
            r == self.spec_toggled(),
    {
        self.up()
    }
}

/// The character of one decimal digit.
pub open spec fn digit_char(d: int) -> char {
    if d == 0 {
        '0'
    } else if d == 1 {
        '1'
    } else if d == 2 {
        '2'
    } else if d == 3 {
        '3'
    } else if d == 4 {
        '4'
    } else if d == 5 {
        '5'
    } else if d == 6 {
        '6'
    } else if d == 7 {
        '7'
    } else if d == 8 {
        '8'
    } else {
        '9'
    }
}

/// The decimal digits of a non-negative number, most significant first.
pub open spec fn spec_decimal(n: int) -> Seq<char>
    decreases n,
{
    if n < 10 {
        seq![digit_char(n)]
    } else {
        spec_decimal(n / 10).push(digit_char(n % 10))
    }
}

/// A number padded with a leading zero to at least two digits.
pub open spec fn spec_two_digits(n: int) -> Seq<char> {
    if 0 <= n < 10 {
        seq!['0', digit_char(n)]
    } else {
        spec_decimal(n)
    }
}

/// A playback position in whole seconds rendered as zero-padded minutes and
/// seconds.
pub open spec fn spec_mm_ss(total_secs: u64) -> Seq<char> {
    spec_two_digits(total_secs as int / 60) + seq![':'] + spec_two_digits(total_secs as int % 60)
}

/// The single character of one decimal digit, as a string.
fn digit_str(d: u64) -> (r: &'static str)
    requires
        d < 10,
    ensures
        r@ =~= seq![digit_char(d as int)],
{
    proof {
        reveal_strlit("0");
        reveal_strlit("1");
        reveal_strlit("2");
        reveal_strlit("3");
        reveal_strlit("4");
        reveal_strlit("5");
        reveal_strlit("6");
        reveal_strlit("7");
        reveal_strlit("8");
        reveal_strlit("9");
    }
    match d {
        0 => "0",
        1 => "1",
        2 => "2",
        3 => "3",
        4 => "4",
        5 => "5",
        6 => "6",
        7 => "7",
        8 => "8",
        _ => "9",
    }
}

/// The decimal digits of a number, most significant first.
fn decimal_str(n: u64) -> (r: String)
    ensures
        r@ =~= spec_decimal(n as int),
    decreases n,
{
    if n < 10 {
        digit_str(n).to_owned()
    } else {
        let mut s = decimal_str(n / 10);
        s.append(digit_str(n % 10));
        s
    }
}

/// A number padded to at least two digits.
fn two_digits_str(n: u64) -> (r: String)
    ensures
        r@ =~= spec_two_digits(n as int),
{
    if n < 10 {
        proof {
            reveal_strlit("0");
        }
        let mut s = "0".to_owned();
        s.append(digit_str(n));
        s
    } else {
        decimal_str(n)
    }
}

/// Renders a playback position in whole seconds as `MM:SS`, each part
/// zero-padded to two digits and the minutes growing past two digits when
/// the position demands it.
pub fn format_duration(total_secs: u64) -> (r: String)
    ensures
        r@ == spec_mm_ss(total_secs),
{
    let minutes = total_secs / 60;
    let seconds = total_secs % 60;
    proof {
        reveal_strlit(":");
    }
    let mut r = two_digits_str(minutes);
    r.append(":");
    let sec_str = two_digits_str(seconds);
    r.append(sec_str.as_str());
    proof {
        assert(":"@ =~= seq![':']);
    }
    r
}

/// The view the shell is showing.
#[derive(Debug, Clone, Copy, PartialEq, Eq, Structural)]
pub enum AppView {
    Library,
    Karaoke,
    Settings,
}

/// The shell's view state: the active theme and the visible view.
pub struct UI {
    pub theme: Theme,
    pub current_view: AppView,
}

impl UI {
    /// The initial view state: dark theme, library view.
    pub fn new() -> (r: UI)
        ensures
            r.theme is Tekkadan,
            r.current_view is Library,
    {
        UI { theme: Theme::Tekkadan, current_view: AppView::Library }
    }
}

} // verus!
