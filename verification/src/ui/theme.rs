//! Which colour theme a configuration names.

use vstd::prelude::*;

use crate::text::eq_str;

verus! {

/// The built-in colour themes.
#[derive(Debug, Clone, Copy, PartialEq, Eq, Structural)]
pub enum ThemeName {
    Default,
    Dracula,
    Nord,
    Gruvbox,
}

/// The theme a configured name selects: `dracula`, `nord` and `gruvbox`
/// (exactly so written) select those themes, anything else the default.
pub open spec fn theme_named(name: Seq<char>) -> ThemeName {
    if name == "dracula"@ {
        ThemeName::Dracula
    } else if name == "nord"@ {
        ThemeName::Nord
    } else if name == "gruvbox"@ {
        ThemeName::Gruvbox
    } else {
        ThemeName::Default
    }
}

impl ThemeName {
    /// The theme a configured name selects; see [`theme_named`].
    pub fn from_name(name: &str) -> (r: ThemeName)
        ensures
            r == theme_named(name@),
    {
        let v = crate::text::chars_of(name);
        if eq_str(&v, "dracula") {
            ThemeName::Dracula
        } else if eq_str(&v, "nord") {
            ThemeName::Nord
        } else if eq_str(&v, "gruvbox") {
            ThemeName::Gruvbox
        } else {
            ThemeName::Default
        }
    }
}

} // verus!
