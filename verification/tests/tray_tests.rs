use gosh_dl::aria2::tray::{
    create_tray_menu, get_tray_icon, tray_stats, MenuEntry, TrayAction, TrayStats, ICON_SIZE,
};
use gosh_dl::aria2::types::GlobalStat;

fn pixel(icon: &[u8], x: usize, y: usize) -> [u8; 4] {
    let at = (y * 16 + x) * 4;
    [icon[at], icon[at + 1], icon[at + 2], icon[at + 3]]
}

#[test]
fn test_tray_menu() {
    let menu = create_tray_menu();
    assert_eq!(
        menu,
        vec![
            MenuEntry::Action(TrayAction::ToggleWindow),
            MenuEntry::Separator,
            MenuEntry::Action(TrayAction::PauseAll),
            MenuEntry::Action(TrayAction::ResumeAll),
            MenuEntry::Separator,
            MenuEntry::Action(TrayAction::OpenSettings),
            MenuEntry::Separator,
            MenuEntry::Action(TrayAction::Quit),
        ]
    );
    assert_eq!(TrayAction::ToggleWindow.to_id(), "show_hide");
    assert_eq!(TrayAction::ToggleWindow.to_label(), "Show/Hide Window");
    assert_eq!(TrayAction::Quit.to_label(), "Quit");
    for entry in menu {
        if let MenuEntry::Action(action) = entry {
            assert_eq!(TrayAction::from_id(action.to_id()), Some(action));
        }
    }
    assert_eq!(TrayAction::from_id("about"), None);
    assert_eq!(TrayAction::from_id(""), None);
}

#[test]
fn test_tray_icon() {
    let icon = get_tray_icon();
    assert_eq!(ICON_SIZE, 16);
    assert_eq!(icon.len(), 16 * 16 * 4);
    let green = [35, 134, 54, 255];
    let clear = [0, 0, 0, 0];
    assert_eq!(pixel(&icon, 0, 0), clear);
    assert_eq!(pixel(&icon, 6, 4), green);
    assert_eq!(pixel(&icon, 9, 10), green);
    assert_eq!(pixel(&icon, 5, 4), clear);
    assert_eq!(pixel(&icon, 10, 7), clear);
    assert_eq!(pixel(&icon, 6, 3), clear);
    assert_eq!(pixel(&icon, 8, 12), green);
    assert_eq!(pixel(&icon, 8, 13), clear);
    assert_eq!(pixel(&icon, 3, 9), green);
    assert_eq!(pixel(&icon, 3, 8), clear);
    assert_eq!(pixel(&icon, 12, 8), green);
    assert_eq!(pixel(&icon, 13, 12), clear);
    for y in 0..16usize {
        for x in 0..16usize {
            let off = (x as i32 - 8).abs();
            let stem = (4..=10).contains(&y) && (6..=9).contains(&x);
            let head = (8..=12).contains(&y) && (3..=12).contains(&x) && y as i32 - 8 >= off - 4;
            let expected = if stem || head { green } else { clear };
            assert_eq!(pixel(&icon, x, y), expected, "pixel {} {}", x, y);
        }
    }
}

#[test]
fn test_tray_stats() {
    let stats = GlobalStat {
        download_speed: "1048576".to_string(),
        upload_speed: "x".to_string(),
        num_active: "3".to_string(),
        num_waiting: "".to_string(),
        num_stopped: "4294967296".to_string(),
        num_stopped_total: "9".to_string(),
    };
    assert_eq!(
        tray_stats(&stats),
        TrayStats {
            download_speed: 1048576,
            upload_speed: 0,
            num_active: 3,
            num_waiting: 0,
            num_stopped: 0,
        }
    );
}
