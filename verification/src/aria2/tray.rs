//! The tray of the desktop application: the entries of its menu, the
//! pixels of its icon and the numbers that its tooltip shows.

use crate::aria2::types::GlobalStat;
use crate::text::{chars_of, parse_u32, parse_u64, spec_parse_u32, spec_parse_u64, str_eq};
use vstd::prelude::*;

verus! {

/// What an entry of the tray menu does.
#[derive(Clone, Copy, Debug, PartialEq, Eq, Structural)]
pub enum TrayAction {
    ToggleWindow,
    PauseAll,
    ResumeAll,
    OpenSettings,
    Quit,
}

/// One line of the tray menu.
#[derive(Clone, Copy, Debug, PartialEq, Eq, Structural)]
pub enum MenuEntry {
    Action(TrayAction),
    Separator,
}

impl TrayAction {
    /// The id under which the menu reports the entry.
    pub open spec fn id(self) -> Seq<char> {
        match self {
            TrayAction::ToggleWindow => "show_hide"@,
            TrayAction::PauseAll => "pause_all"@,
            TrayAction::ResumeAll => "resume_all"@,
            TrayAction::OpenSettings => "settings"@,
            TrayAction::Quit => "quit"@,
        }
    }

    /// The text of the entry.
    pub open spec fn label(self) -> Seq<char> {
        match self {
            TrayAction::ToggleWindow => "Show/Hide Window"@,
            TrayAction::PauseAll => "Pause All"@,
            TrayAction::ResumeAll => "Resume All"@,
            TrayAction::OpenSettings => "Settings"@,
            TrayAction::Quit => "Quit"@,
        }
    }

    /// The action that an id of the menu stands for, if it stands for
    /// one.
    pub open spec fn spec_from_id(id: Seq<char>) -> Option<TrayAction> {
        if id == "show_hide"@ {
            Some(TrayAction::ToggleWindow)
        } else if id == "pause_all"@ {
            Some(TrayAction::PauseAll)
        } else if id == "resume_all"@ {
            Some(TrayAction::ResumeAll)
        } else if id == "settings"@ {
            Some(TrayAction::OpenSettings)
        } else if id == "quit"@ {
            Some(TrayAction::Quit)
        } else {
            None
        }
    }

    pub fn to_id(self) -> (r: &'static str)
        ensures
            r@ == self.id(),
    {
        match self {
            TrayAction::ToggleWindow => "show_hide",
            TrayAction::PauseAll => "pause_all",
            TrayAction::ResumeAll => "resume_all",
            TrayAction::OpenSettings => "settings",
            TrayAction::Quit => "quit",
        }
    }

    pub fn to_label(self) -> (r: &'static str)
        ensures
            r@ == self.label(),
    {
        match self {
            TrayAction::ToggleWindow => "Show/Hide Window",
            TrayAction::PauseAll => "Pause All",
            TrayAction::ResumeAll => "Resume All",
            TrayAction::OpenSettings => "Settings",
            TrayAction::Quit => "Quit",
        }
    }

    /// The action that an id of the menu stands for; an unknown id stands
    /// for none.
    pub fn from_id(id: &str) -> (r: Option<TrayAction>)
        ensures
            r == TrayAction::spec_from_id(id@),
    {
        if str_eq(id, "show_hide") {
            Some(TrayAction::ToggleWindow)
        } else if str_eq(id, "pause_all") {
            Some(TrayAction::PauseAll)
        } else if str_eq(id, "resume_all") {
            Some(TrayAction::ResumeAll)
        } else if str_eq(id, "settings") {
            Some(TrayAction::OpenSettings)
        } else if str_eq(id, "quit") {
            Some(TrayAction::Quit)
        } else {
            None
        }
    }
}

/// Every action is found again by its id.
pub proof fn lemma_ids_round_trip()
    ensures
        forall|a: TrayAction| TrayAction::spec_from_id(a.id()) == Some(a),
{
    reveal_strlit("show_hide");
    reveal_strlit("pause_all");
    reveal_strlit("resume_all");
    reveal_strlit("settings");
    reveal_strlit("quit");
    assert forall|a: TrayAction| TrayAction::spec_from_id(a.id()) == Some(a) by {
        match a {
            TrayAction::ToggleWindow => {},
            TrayAction::PauseAll => {
                assert("pause_all"@[0] != "show_hide"@[0]);
            },
            TrayAction::ResumeAll => {
                assert("resume_all"@[0] != "show_hide"@[0]);
                assert("resume_all"@[0] != "pause_all"@[0]);
            },
            TrayAction::OpenSettings => {
                assert("settings"@.len() != "show_hide"@.len());
                assert("settings"@.len() != "pause_all"@.len());
                assert("settings"@.len() != "resume_all"@.len());
            },
            TrayAction::Quit => {
                assert("quit"@.len() != "show_hide"@.len());
                assert("quit"@.len() != "pause_all"@.len());
                assert("quit"@.len() != "resume_all"@.len());
                assert("quit"@.len() != "settings"@.len());
            },
        }
    }
}

/// The lines of the tray menu, from the top.
pub open spec fn spec_tray_menu() -> Seq<MenuEntry> {
    seq![
        MenuEntry::Action(TrayAction::ToggleWindow),
        MenuEntry::Separator,
        MenuEntry::Action(TrayAction::PauseAll),
        MenuEntry::Action(TrayAction::ResumeAll),
        MenuEntry::Separator,
        MenuEntry::Action(TrayAction::OpenSettings),
        MenuEntry::Separator,
        MenuEntry::Action(TrayAction::Quit),
    ]
}

/// The lines of the tray menu, from the top.
pub fn create_tray_menu() -> (r: Vec<MenuEntry>)
    ensures
        r@ == spec_tray_menu(),
{
    let mut menu: Vec<MenuEntry> = Vec::new();
    menu.push(MenuEntry::Action(TrayAction::ToggleWindow));
    menu.push(MenuEntry::Separator);
    menu.push(MenuEntry::Action(TrayAction::PauseAll));
    menu.push(MenuEntry::Action(TrayAction::ResumeAll));
    menu.push(MenuEntry::Separator);
    menu.push(MenuEntry::Action(TrayAction::OpenSettings));
    menu.push(MenuEntry::Separator);
    menu.push(MenuEntry::Action(TrayAction::Quit));
    assert(menu@ =~= spec_tray_menu());
    menu
}

/// Side of the square icon, in pixels.
pub const ICON_SIZE: u32 = 16;

/// The pixel in column `x` of row `y` belongs to the arrow of the icon: to
/// its stem, or to its head, which narrows toward the bottom.
pub open spec fn is_arrow(x: int, y: int) -> bool {
    let off = if x >= 8 {
        x - 8
    } else {
        8 - x
    };
    ||| (4 <= y <= 10 && 6 <= x <= 9)
    ||| (8 <= y <= 12 && 3 <= x <= 12 && y - 8 >= off - 4)
}

/// Byte `i` of the icon: four bytes (red, green, blue, alpha) for each
/// pixel, row by row. The arrow is green and opaque, the rest transparent.
pub open spec fn icon_byte(i: int) -> u8 {
    let pixel = i / 4;
    if is_arrow(pixel % 16, pixel / 16) {
        if i % 4 == 0 {
            35
        } else if i % 4 == 1 {
            134
        } else if i % 4 == 2 {
            54
        } else {
            255
        }
    } else {
        0
    }
}

fn arrow_at(x: u32, y: u32) -> (r: bool)
    requires
        x < 16,
        y < 16,
    ensures
        r == is_arrow(x as int, y as int),
{
    let off: u32 = if x >= 8 {
        x - 8
    } else {
        8 - x
    };
    (4 <= y && y <= 10 && 6 <= x && x <= 9) || (8 <= y && y <= 12 && 3 <= x && x <= 12 && y + 4
        >= off + 8)
}

/// The pixels of the tray icon as RGBA bytes.
pub fn get_tray_icon() -> (r: Vec<u8>)
    ensures
        r@.len() == 4 * ICON_SIZE * ICON_SIZE,
        forall|i: int| 0 <= i < r@.len() ==> r@[i] == icon_byte(i),
{
    let mut rgba: Vec<u8> = Vec::new();
    let mut pixel: u32 = 0;
    while pixel < 256
        invariant
            pixel <= 256,
            rgba@.len() == 4 * pixel,
            forall|i: int| 0 <= i < rgba@.len() ==> rgba@[i] == icon_byte(i),
        decreases 256 - pixel,
    {
        let arrow = arrow_at(pixel % 16, pixel / 16);
        let ghost before = rgba@;
        if arrow {
            rgba.push(35);
            rgba.push(134);
            rgba.push(54);
            rgba.push(255);
        } else {
            rgba.push(0);
            rgba.push(0);
            rgba.push(0);
            rgba.push(0);
        }
        assert forall|i: int| 0 <= i < rgba@.len() implies rgba@[i] == icon_byte(i) by {
            if i < before.len() {
                assert(rgba@[i] == before[i]);
            } else {
                assert(i / 4 == pixel);
                assert(i % 4 == i - 4 * pixel);
            }
        }
        pixel += 1;
    }
    rgba
}

/// The totals that the tray shows.
#[derive(Clone, Copy, Debug, PartialEq, Eq, Structural)]
pub struct TrayStats {
    pub download_speed: u64,
    pub upload_speed: u64,
    pub num_active: u32,
    pub num_waiting: u32,
    pub num_stopped: u32,
}

/// The number that a text of aria2 states, zero for a text that states
/// none.
pub open spec fn count_of(text: Seq<char>) -> u32 {
    match spec_parse_u32(text) {
        Some(n) => n,
        None => 0,
    }
}

/// The speed that a text of aria2 states, zero for a text that states
/// none.
pub open spec fn speed_of(text: Seq<char>) -> u64 {
    match spec_parse_u64(text) {
        Some(n) => n,
        None => 0,
    }
}

fn read_count(text: &str) -> (r: u32)
    ensures
        r == count_of(text@),
{
    match parse_u32(&chars_of(text)) {
        Some(n) => n,
        None => 0,
    }
}

fn read_speed(text: &str) -> (r: u64)
    ensures
        r == speed_of(text@),
{
    match parse_u64(&chars_of(text)) {
        Some(n) => n,
        None => 0,
    }
}

/// The totals of aria2 as numbers.
pub fn tray_stats(stats: &GlobalStat) -> (r: TrayStats)
    ensures
        r == (TrayStats {
            download_speed: speed_of(stats.download_speed@),
            upload_speed: speed_of(stats.upload_speed@),
            num_active: count_of(stats.num_active@),
            num_waiting: count_of(stats.num_waiting@),
            num_stopped: count_of(stats.num_stopped@),
        }),
{
    TrayStats {
        download_speed: read_speed(stats.download_speed.as_str()),
        upload_speed: read_speed(stats.upload_speed.as_str()),
        num_active: read_count(stats.num_active.as_str()),
        num_waiting: read_count(stats.num_waiting.as_str()),
        num_stopped: read_count(stats.num_stopped.as_str()),
    }
}

} // verus!
