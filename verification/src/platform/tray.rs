//! The notification-area icon: what its clicks and menu entries mean.
//!
//! Creating the icon and its menu, and running the message loop, are
//! left to the caller.
use vstd::prelude::*;
use crate::text::to_owned_string;

verus! {

/// The message the icon sends to its window (`WM_USER + 101`).
pub const WM_TRAYICON: u32 = 0x0465;
/// `WM_LBUTTONUP`.
pub const WM_LBUTTONUP: u32 = 0x0202;
/// `WM_LBUTTONDBLCLK`.
pub const WM_LBUTTONDBLCLK: u32 = 0x0203;
/// `WM_RBUTTONUP`.
pub const WM_RBUTTONUP: u32 = 0x0205;

/// The command of the "Open RexPaper" entry.
pub const ID_TRAY_OPEN: usize = 1001;
/// The command of the "Static Wallpapers" entry.
pub const ID_TRAY_STATIC: usize = 1002;
/// The command of the "Live Wallpapers" entry.
pub const ID_TRAY_LIVE: usize = 1003;
/// The command of the "Settings" entry.
pub const ID_TRAY_SETTINGS: usize = 1004;
/// The command of the "Quit RexPaper" entry.
pub const ID_TRAY_QUIT: usize = 1005;

/// What the user asked for through the icon.
#[derive(Debug, Clone, Copy, PartialEq, Eq, Structural)]
pub enum TrayAction {
    Open,
    StaticPage,
    LivePage,
    SettingsPage,
    Quit,
}

/// What to do about a mouse event on the icon.
#[derive(Debug, Clone, Copy, PartialEq, Eq, Structural)]
pub enum TrayClick {
    /// Act at once.
    Act(TrayAction),
    /// Show the menu.
    ShowMenu,
    /// Nothing.
    Ignore,
}

/// A left click or double click opens the window; a right click shows the
/// menu; anything else is ignored.
pub open spec fn click_meaning(event: u32) -> TrayClick {
    if event == WM_LBUTTONUP || event == WM_LBUTTONDBLCLK {
        TrayClick::Act(TrayAction::Open)
    } else if event == WM_RBUTTONUP {
        TrayClick::ShowMenu
    } else {
        TrayClick::Ignore
    }
}

/// What a mouse event on the icon means.
pub fn tray_click(event: u32) -> (r: TrayClick)
    ensures
        r == click_meaning(event),
{
    if event == WM_LBUTTONUP || event == WM_LBUTTONDBLCLK {
        TrayClick::Act(TrayAction::Open)
    } else if event == WM_RBUTTONUP {
        TrayClick::ShowMenu
    } else {
        TrayClick::Ignore
    }
}

/// The action of a menu command; none for anything else (such as the menu
/// being dismissed).
pub open spec fn command_meaning(cmd: usize) -> Option<TrayAction> {
    if cmd == ID_TRAY_OPEN {
        Some(TrayAction::Open)
    } else if cmd == ID_TRAY_STATIC {
        Some(TrayAction::StaticPage)
    } else if cmd == ID_TRAY_LIVE {
        Some(TrayAction::LivePage)
    } else if cmd == ID_TRAY_SETTINGS {
        Some(TrayAction::SettingsPage)
    } else if cmd == ID_TRAY_QUIT {
        Some(TrayAction::Quit)
    } else {
        None
    }
}

/// The action of the menu command `cmd`.
pub fn menu_action(cmd: usize) -> (r: Option<TrayAction>)
    ensures
        r == command_meaning(cmd),
{
    if cmd == ID_TRAY_OPEN {
        Some(TrayAction::Open)
    } else if cmd == ID_TRAY_STATIC {
        Some(TrayAction::StaticPage)
    } else if cmd == ID_TRAY_LIVE {
        Some(TrayAction::LivePage)
    } else if cmd == ID_TRAY_SETTINGS {
        Some(TrayAction::SettingsPage)
    } else if cmd == ID_TRAY_QUIT {
        Some(TrayAction::Quit)
    } else {
        None
    }
}

/// An entry of the icon's menu.
pub enum MenuEntry {
    /// A command with its label.
    Item(usize, String),
    /// A separator line.
    Separator,
}

/// The abstract menu entry.
pub enum MenuEntryView {
    Item(usize, Seq<char>),
    Separator,
}

impl View for MenuEntry {
    type V = MenuEntryView;

    open spec fn view(&self) -> MenuEntryView {
        match self {
            MenuEntry::Item(id, label) => MenuEntryView::Item(*id, label@),
            MenuEntry::Separator => MenuEntryView::Separator,
        }
    }
}

/// The icon's menu, top to bottom.
pub open spec fn tray_menu_spec() -> Seq<MenuEntryView> {
    seq![
        MenuEntryView::Item(ID_TRAY_OPEN, "Open RexPaper"@),
        MenuEntryView::Separator,
        MenuEntryView::Item(ID_TRAY_STATIC, "Static Wallpapers"@),
        MenuEntryView::Item(ID_TRAY_LIVE, "Live Wallpapers"@),
        MenuEntryView::Item(ID_TRAY_SETTINGS, "Settings"@),
        MenuEntryView::Separator,
        MenuEntryView::Item(ID_TRAY_QUIT, "Quit RexPaper"@),
    ]
}

/// The icon's menu, top to bottom.
pub fn tray_menu() -> (r: Vec<MenuEntry>)
    ensures
        r@.map_values(|e: MenuEntry| e@) == tray_menu_spec(),
{
    let mut r: Vec<MenuEntry> = Vec::new();
    r.push(MenuEntry::Item(ID_TRAY_OPEN, to_owned_string("Open RexPaper")));
    r.push(MenuEntry::Separator);
    r.push(MenuEntry::Item(ID_TRAY_STATIC, to_owned_string("Static Wallpapers")));
    r.push(MenuEntry::Item(ID_TRAY_LIVE, to_owned_string("Live Wallpapers")));
    r.push(MenuEntry::Item(ID_TRAY_SETTINGS, to_owned_string("Settings")));
    r.push(MenuEntry::Separator);
    r.push(MenuEntry::Item(ID_TRAY_QUIT, to_owned_string("Quit RexPaper")));
    assert(r@.map_values(|e: MenuEntry| e@) =~= tray_menu_spec());
    r
}

/// The icon's tooltip.
pub fn tray_tooltip() -> (r: String)
    ensures
        r@ == "RexPaper - Wallpaper Manager"@,
{
    to_owned_string("RexPaper - Wallpaper Manager")
}

/// The action of a menu entry, if it is a command with one.
pub open spec fn entry_action(e: MenuEntryView) -> Option<TrayAction> {
    match e {
        MenuEntryView::Item(id, _) => command_meaning(id),
        MenuEntryView::Separator => None,
    }
}

/// Every command of the menu has an action, and different entries have
/// different actions.
pub proof fn law_menu_commands_are_actions()
    ensures
        forall|i: int|
            0 <= i < tray_menu_spec().len() && #[trigger] tray_menu_spec()[i] is Item
                ==> entry_action(tray_menu_spec()[i]) is Some,
        forall|i: int, j: int|
            0 <= i < j < tray_menu_spec().len() && #[trigger] tray_menu_spec()[i] is Item
                && #[trigger] tray_menu_spec()[j] is Item
                ==> entry_action(tray_menu_spec()[i]) != entry_action(tray_menu_spec()[j]),
{
}

} // verus!
