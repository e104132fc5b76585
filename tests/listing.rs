use graphterm::size::format_size;
use graphterm::layout::{calculate_grid_layout, hit_test_grid, Rect};
use graphterm::ui::{Action, Key, Mouse, Ui};

fn float_format(bytes: u64) -> String {
    const KB: u64 = 1024;
    const MB: u64 = KB * 1024;
    const GB: u64 = MB * 1024;
    if bytes >= GB {
        format!("{:.1} GB", bytes as f64 / GB as f64)
    } else if bytes >= MB {
        format!("{:.1} MB", bytes as f64 / MB as f64)
    } else if bytes >= KB {
        format!("{:.1} KB", bytes as f64 / KB as f64)
    } else {
        format!("{} B", bytes)
    }
}

#[test]
fn sizes_in_each_unit() {
    assert_eq!(format_size(0), "0 B");
    assert_eq!(format_size(1023), "1023 B");
    assert_eq!(format_size(1024), "1.0 KB");
    assert_eq!(format_size(1536), "1.5 KB");
    assert_eq!(format_size(1024 * 1024), "1.0 MB");
    assert_eq!(format_size(5 * 1024 * 1024 * 1024 + 1024 * 1024 * 1024 / 2), "5.5 GB");
    assert_eq!(format_size(1024 * 1024 - 1), "1024.0 KB");
}

#[test]
fn sizes_match_floating_point_rounding() {
    // 1024 * 0.05 = 51.2, so the ties fall at multiples of 51.2 bytes: 1024 + 256 * k / 5.
    let mut samples: Vec<u64> = (0..5000u64).map(|i| 1024 + i * 37).collect();
    samples.extend([1024 + 512, 1024 * 3 / 2 + 256, 1075, 1076, 1024 * 1024 * 7 + 52429, u64::MAX >> 12]);
    samples.extend((0..64u64).map(|k| 1024 * 1024 + k * 1024 * 1024 / 20));
    for b in samples {
        assert_eq!(format_size(b), float_format(b), "bytes = {}", b);
    }
}

fn entry(name: &str, is_dir: bool) -> graphterm::fs::FileEntry {
    graphterm::fs::FileEntry {
        name: name.to_string(),
        path: format!("/tmp/{}", name),
        is_dir,
        size: 1,
        modified: None,
    }
}

#[test]
fn listing_hides_dot_files_and_puts_directories_first() {
    let mut fs = graphterm::fs::FileSystem::new("/tmp".to_string());
    fs.set_entries(vec![
        entry("zeta.txt", false),
        entry(".hidden", false),
        entry("Beta", true),
        entry("alpha.rs", false),
        entry(".git", true),
        entry("apple", true),
        entry("Zed.md", false),
    ]);
    let names: Vec<&str> = fs.entries.iter().map(|e| e.name.as_str()).collect();
    assert_eq!(names, vec!["apple", "Beta", "alpha.rs", "Zed.md", "zeta.txt"]);
    assert_eq!(fs.get_selected(1).map(|e| e.name.as_str()), Some("Beta"));
    assert!(fs.get_selected(5).is_none());
}

#[test]
fn listing_keeps_the_given_order_of_equal_names() {
    let mut fs = graphterm::fs::FileSystem::new("/".to_string());
    fs.set_entries(vec![entry("README", false), entry("readme", false), entry("Readme", false)]);
    let names: Vec<&str> = fs.entries.iter().map(|e| e.name.as_str()).collect();
    assert_eq!(names, vec!["README", "readme", "Readme"]);
}

#[test]
fn file_icons_by_lower_cased_extension() {
    assert_eq!(Ui::get_file_icon("main.RS"), "🦀");
    assert_eq!(Ui::get_file_icon("Dockerfile"), "🐳");
    assert_eq!(Ui::get_file_icon("photo.JPeG"), "🖼️");
    assert_eq!(Ui::get_file_icon("notes.txt"), "📄");
    assert_eq!(Ui::get_file_icon("mystery.xyz"), "📄");
}

fn rect(x: u16, y: u16, width: u16, height: u16) -> Rect {
    Rect { x, y, width, height }
}

#[test]
fn grid_cells_fill_rows_of_whole_items() {
    let cells = calculate_grid_layout(rect(0, 0, 10, 5), 3, 2);
    let corners: Vec<(u16, u16)> = cells.iter().map(|c| (c.x, c.y)).collect();
    assert_eq!(corners, vec![(0, 0), (3, 0), (6, 0), (0, 2), (3, 2), (6, 2)]);
    assert!(cells.iter().all(|c| c.width == 3 && c.height == 2));
    assert_eq!(calculate_grid_layout(rect(2, 1, 2, 9), 3, 2), vec![]);
    assert_eq!(calculate_grid_layout(rect(5, 5, 4, 4), 4, 4), vec![rect(5, 5, 4, 4)]);
}

#[test]
fn hit_test_finds_the_first_holding_cell() {
    let cells = calculate_grid_layout(rect(0, 0, 10, 5), 3, 2);
    assert_eq!(hit_test_grid(&cells, 4, 3), Some(4));
    assert_eq!(hit_test_grid(&cells, 0, 0), Some(0));
    assert_eq!(hit_test_grid(&cells, 9, 0), None);
    assert_eq!(hit_test_grid(&cells, 2, 4), None);
}

#[test]
fn keys_drive_selection_menu_and_navigation() {
    let mut ui = Ui::new();
    assert_eq!(ui.handle_key(Key::Char('j'), 3, false), Action::Stay);
    assert_eq!(ui.selected_index, 1);
    assert_eq!(ui.handle_key(Key::End, 3, false), Action::Stay);
    assert_eq!(ui.selected_index, 2);
    assert_eq!(ui.handle_key(Key::Down, 3, false), Action::Stay);
    assert_eq!(ui.selected_index, 2);
    assert_eq!(ui.handle_key(Key::Enter, 3, false), Action::Stay);
    assert_eq!(ui.selected_index, 2);
    assert_eq!(ui.handle_key(Key::Enter, 3, true), Action::EnterSelected);
    assert_eq!(ui.selected_index, 0);
    assert_eq!(ui.handle_key(Key::F(1), 3, false), Action::Stay);
    assert!(!ui.show_sidebar);
    assert_eq!(ui.handle_key(Key::Backspace, 3, false), Action::GoUp);
    assert_eq!(ui.handle_key(Key::End, 0, false), Action::Stay);
    assert_eq!(ui.selected_index, 0);

    ui.handle_mouse(Mouse::RightDown { column: 7, row: 9 });
    assert!(ui.show_context_menu);
    assert_eq!(ui.context_menu_pos, (7, 9));
    for _ in 0..8 {
        assert_eq!(ui.handle_key(Key::Down, 3, false), Action::Stay);
    }
    assert_eq!(ui.context_menu_selected, 5);
    assert_eq!(ui.handle_key(Key::Char('q'), 3, false), Action::Stay);
    assert_eq!(ui.handle_key(Key::Esc, 3, false), Action::Stay);
    assert!(!ui.show_context_menu);
    assert_eq!(ui.handle_key(Key::Char('q'), 3, false), Action::Quit);
}

#[test]
fn mouse_selects_and_scrolls() {
    let mut ui = Ui::new();
    ui.handle_mouse(Mouse::ScrollDown);
    ui.handle_mouse(Mouse::ScrollDown);
    ui.handle_mouse(Mouse::ScrollUp);
    assert_eq!(ui.scroll_offset, 3);
    ui.handle_mouse(Mouse::LeftDown { column: 10, row: 6 });
    assert_eq!(ui.selected_index, 5);
    ui.handle_mouse(Mouse::LeftDown { column: 10, row: 2 });
    assert_eq!(ui.selected_index, 5);
    ui.handle_mouse(Mouse::ScrollUp);
    ui.handle_mouse(Mouse::ScrollUp);
    assert_eq!(ui.scroll_offset, 0);
}
