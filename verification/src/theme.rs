//! Colour themes of the calendar image.

use crate::intensity::{classify, spec_classify};
use vstd::prelude::*;
use vstd::string::StringExecFns;

verus! {

/// A colour with its opacity, one byte per channel.
#[derive(Clone, Copy, Debug, PartialEq, Eq, Structural)]
pub struct Color {
    pub red: u8,
    pub green: u8,
    pub blue: u8,
    pub alpha: u8,
}

/// An opaque colour.
pub open spec fn rgb(red: u8, green: u8, blue: u8) -> Color {
    Color { red, green, blue, alpha: 255 }
}

/// The colours of a calendar image.
#[derive(Clone, Copy, Debug)]
pub struct Theme {
    pub background: Color,
    pub text_primary: Color,
    pub text_secondary: Color,
    pub separator: Color,
    /// One colour per intensity bucket, from no commit to twenty or more.
    pub commit_colors: [Color; 6],
}

/// What `str::to_lowercase` makes of a text.
pub uninterp spec fn lowercase_of(text: Seq<char>) -> Seq<char>;

/// Calls `str::to_lowercase`, which gives the lowercase equivalent of a
/// text. Nothing is claimed of the outcome but that it depends on the text
/// alone.
#[verifier::external_body]
fn lowercase(text: &str) -> (lower: String)
    ensures
        lower@ == lowercase_of(text@),
{
    text.to_lowercase()
}

fn opaque(red: u8, green: u8, blue: u8) -> (color: Color)
    ensures
        color == rgb(red, green, blue),
{
    Color { red, green, blue, alpha: 255 }
}

impl Theme {
    /// The colour of a day with `count` commits: that of the count's bucket.
    pub open spec fn spec_commit_color(&self, count: nat) -> Color {
        self.commit_colors[spec_classify(count) as int]
    }

    /// The colour of a day with `count` commits.
    pub fn commit_color(&self, count: u64) -> (color: Color)
        ensures
            color == self.spec_commit_color(count as nat),
    {
        self.commit_colors[classify(count) as usize]
    }

    /// Whether `theme` is the dark theme.
    pub open spec fn is_dark(theme: Theme) -> bool {
        &&& theme.background == rgb(30, 30, 30)
        &&& theme.text_primary == rgb(255, 255, 255)
        &&& theme.text_secondary == rgb(200, 200, 200)
        &&& theme.separator == rgb(70, 70, 70)
        &&& theme.commit_colors@ == seq![
            rgb(50, 50, 50),
            rgb(40, 160, 40),
            rgb(60, 200, 60),
            rgb(80, 240, 80),
            rgb(120, 255, 120),
            rgb(160, 255, 160),
        ]
    }

    /// The dark theme.
    pub fn dark() -> (theme: Theme)
        ensures
            Theme::is_dark(theme),
    {
        Theme {
            background: opaque(30, 30, 30),
            text_primary: opaque(255, 255, 255),
            text_secondary: opaque(200, 200, 200),
            separator: opaque(70, 70, 70),
            commit_colors: [
                opaque(50, 50, 50),
                opaque(40, 160, 40),
                opaque(60, 200, 60),
                opaque(80, 240, 80),
                opaque(120, 255, 120),
                opaque(160, 255, 160),
            ],
        }
    }

    /// Whether `theme` is the light theme.
    pub open spec fn is_light(theme: Theme) -> bool {
        &&& theme.background == rgb(255, 255, 255)
        &&& theme.text_primary == rgb(50, 50, 50)
        &&& theme.text_secondary == rgb(100, 100, 100)
        &&& theme.separator == rgb(220, 220, 220)
        &&& theme.commit_colors@ == seq![
            rgb(240, 240, 240),
            rgb(140, 240, 140),
            rgb(100, 220, 100),
            rgb(60, 200, 60),
            rgb(40, 180, 40),
            rgb(20, 160, 20),
        ]
    }

    /// The light theme.
    pub fn light() -> (theme: Theme)
        ensures
            Theme::is_light(theme),
    {
        Theme {
            background: opaque(255, 255, 255),
            text_primary: opaque(50, 50, 50),
            text_secondary: opaque(100, 100, 100),
            separator: opaque(220, 220, 220),
            commit_colors: [
                opaque(240, 240, 240),
                opaque(140, 240, 140),
                opaque(100, 220, 100),
                opaque(60, 200, 60),
                opaque(40, 180, 40),
                opaque(20, 160, 20),
            ],
        }
    }

    /// Whether `theme` is the theme in the colours of GitHub.
    pub open spec fn is_github(theme: Theme) -> bool {
        &&& theme.background == rgb(255, 255, 255)
        &&& theme.text_primary == rgb(24, 23, 23)
        &&& theme.text_secondary == rgb(87, 96, 106)
        &&& theme.separator == rgb(235, 237, 240)
        &&& theme.commit_colors@ == seq![
            rgb(235, 237, 240),
            rgb(155, 233, 168),
            rgb(100, 220, 123),
            rgb(64, 196, 99),
            rgb(48, 161, 78),
            rgb(33, 110, 57),
        ]
    }

    /// The theme in the colours of GitHub.
    pub fn github() -> (theme: Theme)
        ensures
            Theme::is_github(theme),
    {
        Theme {
            background: opaque(255, 255, 255),
            text_primary: opaque(24, 23, 23),
            text_secondary: opaque(87, 96, 106),
            separator: opaque(235, 237, 240),
            commit_colors: [
                opaque(235, 237, 240),
                opaque(155, 233, 168),
                opaque(100, 220, 123),
                opaque(64, 196, 99),
                opaque(48, 161, 78),
                opaque(33, 110, 57),
            ],
        }
    }

    /// The theme that a name in lowercase stands for: `dark` and `github`
    /// name their themes, every other name the light theme.
    pub fn of_lowercase(name: &str) -> (theme: Theme)
        ensures
            if name@ == "dark"@ {
                Theme::is_dark(theme)
            } else if name@ == "github"@ {
                Theme::is_github(theme)
            } else {
                Theme::is_light(theme)
            },
    {
        let owned = String::from_str(name);
        if owned == String::from_str("dark") {
            Theme::dark()
        } else if owned == String::from_str("github") {
            Theme::github()
        } else {
            Theme::light()
        }
    }

    /// The theme of a name, however its letters are cased: the theme that
    /// the name stands for once it is put in lowercase.
    pub fn named(name: &str) -> (theme: Theme)
        ensures
            if lowercase_of(name@) == "dark"@ {
                Theme::is_dark(theme)
            } else if lowercase_of(name@) == "github"@ {
                Theme::is_github(theme)
            } else {
                Theme::is_light(theme)
            },
    {
        let lower = lowercase(name);
        Theme::of_lowercase(lower.as_str())
    }
}

} // verus!
