use ncmpc::format::Column;
use ncmpc::format::SongProperty;
use ncmpc::keys::KEY_BACKSPACE;
use ncmpc::keys::KEY_DOWN;
use ncmpc::keys::KEY_UP;
use ncmpc::view::layout;
use ncmpc::view::playlist_start_index;
use ncmpc::view::CommandInput;
use ncmpc::view::PlaylistInfo;

fn rel(width: i32) -> Column {
    Column { column_type: SongProperty::Artist, width, is_fixed: false, color: -1 }
}

fn fix(width: i32) -> Column {
    Column { column_type: SongProperty::Length, width, is_fixed: true, color: -1 }
}

#[test]
fn layout_splits_free_space_evenly() {
    // One fixed column of 20 and two relative columns of equal weight: the
    // 80 free cells are split evenly.
    let cols = vec![fix(20), rel(30), rel(30)];
    let widths = layout(100, &cols);
    assert_eq!(widths, vec![20, 40, 40]);
    let total: i64 = widths.iter().map(|w| *w as i64).sum();
    assert!(total <= 100);
}

#[test]
fn layout_with_no_relative_columns() {
    // With zero relative columns nothing is divided: only the fixed widths
    // come back.
    let cols = vec![fix(10), fix(25)];
    assert_eq!(layout(80, &cols), vec![10, 25]);
    assert_eq!(layout(0, &cols), vec![10, 25]);
    let none: Vec<Column> = vec![];
    assert_eq!(layout(50, &none), Vec::<i32>::new());
}

#[test]
fn layout_truncates_relative_shares() {
    let cols = vec![rel(1), rel(1), rel(1)];
    // 100 cells over three equal weights: each gets floor(100 / 3).
    assert_eq!(layout(100, &cols), vec![33, 33, 33]);
}

#[test]
fn layout_clamps_overfull_fixed_columns() {
    // The fixed columns overrun the terminal: the relative column gets zero
    // width, not a negative one.
    let cols = vec![fix(80), fix(40), rel(10)];
    assert_eq!(layout(100, &cols), vec![80, 40, 0]);
}

#[test]
fn start_index_window() {
    // Selection near the top pins the window to the start.
    assert_eq!(playlist_start_index(0, 50, 20), 0);
    assert_eq!(playlist_start_index(9, 50, 20), 0);
    // A mid-list selection is centered.
    assert_eq!(playlist_start_index(25, 50, 20), 15);
    // Near the end the window pins to the bottom.
    assert_eq!(playlist_start_index(49, 50, 20), 30);
    // No selection behaves like the top.
    assert_eq!(playlist_start_index(-1, 50, 20), 0);
}

#[test]
fn command_input_edits_and_submits() {
    let mut input = CommandInput::new();
    input.begin();
    assert_eq!(input.step('p' as i32), None);
    assert_eq!(input.step('l' as i32), None);
    assert_eq!(input.step('a' as i32), None);
    assert_eq!(input.step('z' as i32), None);
    assert_eq!(input.step(KEY_BACKSPACE), None);
    assert_eq!(input.step('y' as i32), None);
    assert_eq!(input.step('\n' as i32), Some(String::from("play")));
}

#[test]
fn command_input_history_navigation() {
    let mut input = CommandInput::new();
    input.begin();
    for c in "stop".chars() {
        input.step(c as i32);
    }
    assert_eq!(input.step('\n' as i32), Some(String::from("stop")));
    input.begin();
    // Up copies the previous command into the edited line.
    assert_eq!(input.step(KEY_UP), None);
    assert_eq!(input.step('\n' as i32), Some(String::from("stop")));
    // Down moves back to the fresh line, clearing it.
    input.begin();
    input.step(KEY_UP);
    input.step(KEY_DOWN);
    assert_eq!(input.step('\n' as i32), Some(String::from("")));
}

#[test]
fn playlist_info_display_strings() {
    let empty = PlaylistInfo::new();
    assert_eq!(empty.to_display_string(), String::from("0 item"));
    let info = PlaylistInfo { size: 3, duration_secs: 2 * 3600 + 5 * 60 + 1 };
    assert_eq!(
        info.to_display_string(),
        String::from("3 items, length: 2 hours, 5 minutes, 1 second")
    );
    let one = PlaylistInfo { size: 1, duration_secs: 0 };
    assert_eq!(
        one.to_display_string(),
        String::from("1 items, length: 0 hour, 0 minute, 0 second")
    );
}
