//! Icon sets for the terminal interface: Nerd Font glyphs or portable
//! Unicode symbols.

use vstd::prelude::*;
use crate::text::{chars_of, chars_eq, to_ascii_lowercase, trim, trim_chars, ascii_lower_seq};

verus! {

/// Which icons to draw.
#[derive(Debug, Clone, Copy, PartialEq, Eq, Structural)]
pub enum IconMode {
    Nerd,
    Plain,
}

/// The glyphs the interface draws.
#[derive(Debug, Clone, Copy)]
pub struct IconSet {
    pub expanded: &'static str,
    pub collapsed: &'static str,
    pub selected: &'static str,
    pub unselected: &'static str,
    pub success: &'static str,
    pub failed: &'static str,
    pub skipped: &'static str,
    pub running: &'static str,
    pub warning: &'static str,
    pub pending: &'static str,
    pub retry: &'static str,
    pub app: &'static str,
    pub info: &'static str,
    pub host: &'static str,
    pub menu_deploy: &'static str,
    pub menu_plan: &'static str,
    pub menu_history: &'static str,
    pub menu_quit: &'static str,
}

/// Every glyph of the set is non-empty text.
pub open spec fn all_drawn(s: IconSet) -> bool {
    &&& s.expanded@.len() > 0 && s.collapsed@.len() > 0 && s.selected@.len() > 0 && s.unselected@.len() > 0
    &&& s.success@.len() > 0 && s.failed@.len() > 0 && s.skipped@.len() > 0 && s.running@.len() > 0
    &&& s.warning@.len() > 0 && s.pending@.len() > 0 && s.retry@.len() > 0 && s.app@.len() > 0
    &&& s.info@.len() > 0 && s.host@.len() > 0 && s.menu_deploy@.len() > 0 && s.menu_plan@.len() > 0
    &&& s.menu_history@.len() > 0 && s.menu_quit@.len() > 0
}

/// The Nerd Font glyph of each icon.
pub open spec fn is_nerd_set(s: IconSet) -> bool {
    &&& s.expanded@ == "\u{f47c}"@
    &&& s.collapsed@ == "\u{f460}"@
    &&& s.selected@ == "\u{f0132}"@
    &&& s.unselected@ == "\u{f0131}"@
    &&& s.success@ == "\u{f058}"@
    &&& s.failed@ == "\u{f057}"@
    &&& s.skipped@ == "\u{f529}"@
    &&& s.running@ == "\u{f04b}"@
    &&& s.warning@ == "\u{f071}"@
    &&& s.pending@ == "\u{f04c}"@
    &&& s.retry@ == "\u{f021}"@
    &&& s.app@ == "\u{f013}"@
    &&& s.info@ == "\u{f05a}"@
    &&& s.host@ == "\u{f109}"@
    &&& s.menu_deploy@ == "\u{f135}"@
    &&& s.menu_plan@ == "\u{f0ae}"@
    &&& s.menu_history@ == "\u{f1da}"@
    &&& s.menu_quit@ == "\u{f011}"@
}

/// The portable Unicode symbol of each icon.
pub open spec fn is_plain_set(s: IconSet) -> bool {
    &&& s.expanded@ == "▾"@
    &&& s.collapsed@ == "▸"@
    &&& s.selected@ == "■"@
    &&& s.unselected@ == "□"@
    &&& s.success@ == "✓"@
    &&& s.failed@ == "✗"@
    &&& s.skipped@ == "⊘"@
    &&& s.running@ == "▶"@
    &&& s.warning@ == "⚠"@
    &&& s.pending@ == "‖"@
    &&& s.retry@ == "↻"@
    &&& s.app@ == "⚙"@
    &&& s.info@ == "i"@
    &&& s.host@ == "⌂"@
    &&& s.menu_deploy@ == ">"@
    &&& s.menu_plan@ == "?"@
    &&& s.menu_history@ == "↺"@
    &&& s.menu_quit@ == "×"@
}

/// The Nerd Font glyphs.
pub fn nerd() -> (r: IconSet)
    ensures
        is_nerd_set(r),
        all_drawn(r),
{
    proof {
        reveal_strlit("\u{f47c}");
        reveal_strlit("\u{f460}");
        reveal_strlit("\u{f0132}");
        reveal_strlit("\u{f0131}");
        reveal_strlit("\u{f058}");
        reveal_strlit("\u{f057}");
        reveal_strlit("\u{f529}");
        reveal_strlit("\u{f04b}");
        reveal_strlit("\u{f071}");
        reveal_strlit("\u{f04c}");
        reveal_strlit("\u{f021}");
        reveal_strlit("\u{f013}");
        reveal_strlit("\u{f05a}");
        reveal_strlit("\u{f109}");
        reveal_strlit("\u{f135}");
        reveal_strlit("\u{f0ae}");
        reveal_strlit("\u{f1da}");
        reveal_strlit("\u{f011}");
    }
    IconSet {
        expanded: "\u{f47c}",
        collapsed: "\u{f460}",
        selected: "\u{f0132}",
        unselected: "\u{f0131}",
        success: "\u{f058}",
        failed: "\u{f057}",
        skipped: "\u{f529}",
        running: "\u{f04b}",
        warning: "\u{f071}",
        pending: "\u{f04c}",
        retry: "\u{f021}",
        app: "\u{f013}",
        info: "\u{f05a}",
        host: "\u{f109}",
        menu_deploy: "\u{f135}",
        menu_plan: "\u{f0ae}",
        menu_history: "\u{f1da}",
        menu_quit: "\u{f011}",
    }
}

/// The portable Unicode symbols.
pub fn plain() -> (r: IconSet)
    ensures
        is_plain_set(r),
        all_drawn(r),
{
    proof {
        reveal_strlit("▾");
        reveal_strlit("▸");
        reveal_strlit("■");
        reveal_strlit("□");
        reveal_strlit("✓");
        reveal_strlit("✗");
        reveal_strlit("⊘");
        reveal_strlit("▶");
        reveal_strlit("⚠");
        reveal_strlit("‖");
        reveal_strlit("↻");
        reveal_strlit("⚙");
        reveal_strlit("i");
        reveal_strlit("⌂");
        reveal_strlit(">");
        reveal_strlit("?");
        reveal_strlit("↺");
        reveal_strlit("×");
    }
    IconSet {
        expanded: "▾",
        collapsed: "▸",
        selected: "■",
        unselected: "□",
        success: "✓",
        failed: "✗",
        skipped: "⊘",
        running: "▶",
        warning: "⚠",
        pending: "‖",
        retry: "↻",
        app: "⚙",
        info: "i",
        host: "⌂",
        menu_deploy: ">",
        menu_plan: "?",
        menu_history: "↺",
        menu_quit: "×",
    }
}

/// The frames of the braille spinner, in order.
pub open spec fn braille_frames() -> Seq<Seq<char>> {
    seq![
        seq!['⠋'], seq!['⠙'], seq!['⠹'], seq!['⠸'], seq!['⠼'],
        seq!['⠴'], seq!['⠦'], seq!['⠧'], seq!['⠇'], seq!['⠏'],
    ]
}

/// The frames of the circle spinner, in order.
pub open spec fn circle_frames() -> Seq<Seq<char>> {
    seq![seq!['◐'], seq!['◓'], seq!['◑'], seq!['◒']]
}

/// The braille spinner frames.
pub fn spinner_braille() -> (r: [&'static str; 10])
    ensures
        forall|i: int| 0 <= i < 10 ==> (#[trigger] r@[i])@ == braille_frames()[i],
{
    proof {
        reveal_strlit("⠋");
        reveal_strlit("⠙");
        reveal_strlit("⠹");
        reveal_strlit("⠸");
        reveal_strlit("⠼");
        reveal_strlit("⠴");
        reveal_strlit("⠦");
        reveal_strlit("⠧");
        reveal_strlit("⠇");
        reveal_strlit("⠏");
    }
    ["⠋", "⠙", "⠹", "⠸", "⠼", "⠴", "⠦", "⠧", "⠇", "⠏"]
}

/// The circle spinner frames.
pub fn spinner_circle() -> (r: [&'static str; 4])
    ensures
        forall|i: int| 0 <= i < 4 ==> (#[trigger] r@[i])@ == circle_frames()[i],
{
    proof {
        reveal_strlit("◐");
        reveal_strlit("◓");
        reveal_strlit("◑");
        reveal_strlit("◒");
    }
    ["◐", "◓", "◑", "◒"]
}

/// A full progress bar cell.
pub const PROGRESS_FULL: &'static str = "█";

/// An empty progress bar cell.
pub const PROGRESS_EMPTY: &'static str = "░";

/// The icon mode an override value names (trimmed, in any ASCII case).
pub open spec fn mode_of(value: Seq<char>) -> Option<IconMode> {
    let v = ascii_lower_seq(trim(value));
    if v == "nerd"@ || v == "nerdfont"@ || v == "nerd-font"@ {
        Some(IconMode::Nerd)
    } else if v == "plain"@ || v == "unicode"@ || v == "fallback"@ {
        Some(IconMode::Plain)
    } else {
        None
    }
}

fn is(v: &Vec<char>, s: &str) -> (r: bool)
    ensures
        r == (v@ == s@),
{
    chars_eq(v.as_slice(), chars_of(s).as_slice())
}

/// The icon mode an override value names, if any.
pub fn parse_mode(value: &str) -> (r: Option<IconMode>)
    ensures
        r == mode_of(value@),
{
    let v = to_ascii_lowercase(trim_chars(chars_of(value).as_slice()).as_slice());
    if is(&v, "nerd") || is(&v, "nerdfont") || is(&v, "nerd-font") {
        Some(IconMode::Nerd)
    } else if is(&v, "plain") || is(&v, "unicode") || is(&v, "fallback") {
        Some(IconMode::Plain)
    } else {
        None
    }
}

/// The icon mode: an override when one is given, else Nerd Font glyphs in
/// the fish shell and plain symbols elsewhere.
pub fn mode_from(override_mode: Option<IconMode>, fish_shell: bool) -> (r: IconMode)
    ensures
        r == match override_mode {
            Some(m) => m,
            None => if fish_shell {
                IconMode::Nerd
            } else {
                IconMode::Plain
            },
        },
{
    match override_mode {
        Some(m) => m,
        None => if fish_shell {
            IconMode::Nerd
        } else {
            IconMode::Plain
        },
    }
}

/// The icon set of a mode.
pub fn icon_set(mode: IconMode) -> (r: IconSet)
    ensures
        match mode {
            IconMode::Nerd => is_nerd_set(r),
            IconMode::Plain => is_plain_set(r),
        },
        all_drawn(r),
{
    match mode {
        IconMode::Nerd => nerd(),
        IconMode::Plain => plain(),
    }
}

/// The shell is fish: its program's file name is `fish` in any ASCII case.
pub fn is_fish_shell(shell_file_name: Option<&str>) -> (r: bool)
    ensures
        r == match shell_file_name {
            Some(n) => ascii_lower_seq(n@) == "fish"@,
            None => false,
        },
{
    match shell_file_name {
        Some(n) => is(&to_ascii_lowercase(chars_of(n).as_slice()), "fish"),
        None => false,
    }
}

/// The icon mode in effect: a recognised `DOTMAN_ICONS` value, else Nerd
/// Font glyphs in the fish shell and plain symbols elsewhere.
pub open spec fn mode_spec(icons_env: Option<Seq<char>>, shell_file_name: Option<Seq<char>>) -> IconMode {
    match (match icons_env {
        Some(v) => mode_of(v),
        None => None,
    }) {
        Some(m) => m,
        None => if (match shell_file_name {
            Some(n) => ascii_lower_seq(n) == "fish"@,
            None => false,
        }) {
            IconMode::Nerd
        } else {
            IconMode::Plain
        },
    }
}

/// The icon mode in effect.
pub fn mode(icons_env: Option<&str>, shell_file_name: Option<&str>) -> (r: IconMode)
    ensures
        r == mode_spec(crate::text::opt_view(icons_env), crate::text::opt_view(shell_file_name)),
{
    let over = match icons_env {
        Some(v) => parse_mode(v),
        None => None,
    };
    mode_from(over, is_fish_shell(shell_file_name))
}

/// The icon set in effect, from the `DOTMAN_ICONS` value and the shell's
/// program name.
pub fn current(icons_env: Option<&str>, shell_file_name: Option<&str>) -> (r: IconSet)
    ensures
        match mode_spec(crate::text::opt_view(icons_env), crate::text::opt_view(shell_file_name)) {
            IconMode::Nerd => is_nerd_set(r),
            IconMode::Plain => is_plain_set(r),
        },
{
    icon_set(mode(icons_env, shell_file_name))
}

} // verus!
