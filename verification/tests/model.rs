use ncmpc::model::apply_volume_step;
use ncmpc::model::format_length;
use ncmpc::model::format_song_msg;
use ncmpc::model::format_track;
use ncmpc::model::format_track_status;
use ncmpc::model::progress_percent;
use ncmpc::model::scroll_playlist;
use ncmpc::model::stateline_flags;
use ncmpc::model::DataChangeStatus;
use ncmpc::model::SongId;
use ncmpc::server_info::format_duration;
use ncmpc::server_info::format_duration_time;

#[test]
fn scroll_positions() {
    // No selection starts at the top.
    assert_eq!(scroll_playlist(None, 1, 50, false), 0);
    // Ordinary movement.
    assert_eq!(scroll_playlist(Some(10), 1, 50, false), 11);
    assert_eq!(scroll_playlist(Some(10), -1, 50, false), 9);
    // Past the end: pinned, or wrapped when cyclic.
    assert_eq!(scroll_playlist(Some(49), 1, 50, false), 50);
    assert_eq!(scroll_playlist(Some(49), 1, 50, true), 0);
    // Past the start: pinned, or wrapped when cyclic.
    assert_eq!(scroll_playlist(Some(0), -1, 50, false), 0);
    assert_eq!(scroll_playlist(Some(0), -1, 50, true), 49);
}

#[test]
fn volume_steps_clamp() {
    assert_eq!(apply_volume_step(50, 2), 52);
    assert_eq!(apply_volume_step(99, 2), 100);
    assert_eq!(apply_volume_step(1, -2), 0);
    assert_eq!(apply_volume_step(100, 127), 100);
    assert_eq!(apply_volume_step(0, -128), 0);
}

#[test]
fn stateline_flag_order() {
    assert_eq!(stateline_flags(true, true, true, true, true), vec!['r', 'z', 's', 'c', 'x']);
    assert_eq!(stateline_flags(false, true, false, false, true), vec!['z', 'x']);
    assert_eq!(stateline_flags(false, false, false, false, false), Vec::<char>::new());
}

#[test]
fn progress_values() {
    assert_eq!(progress_percent(30, 60), 50);
    assert_eq!(progress_percent(0, 60), 0);
    assert_eq!(progress_percent(60, 60), 100);
    // An unknown duration counts as not begun; nothing is divided by zero.
    assert_eq!(progress_percent(30, 0), 0);
}

#[test]
fn track_and_length_formats() {
    assert_eq!(format_track(7), String::from("07"));
    assert_eq!(format_track(12), String::from("12"));
    assert_eq!(format_track(0), String::from("00"));
    assert_eq!(format_length(3, 7), String::from("3:07"));
    assert_eq!(format_length(0, 59), String::from("0:59"));
}

#[test]
fn track_status_formats() {
    assert_eq!(
        format_track_status(None, 1, 2, 3, 4),
        String::from("[1:02/3:04]")
    );
    assert_eq!(
        format_track_status(Some(320), 1, 2, 3, 4),
        String::from("(320 kbps) [1:02/3:04]")
    );
}

#[test]
fn song_msg_format() {
    assert_eq!(
        format_song_msg("Artist", "Title", "Album"),
        String::from("Artist - Title - Album")
    );
}

#[test]
fn duration_formats() {
    assert_eq!(
        format_duration(34 * 86400 + 5 * 3600 + 57 * 60 + 53),
        String::from("34d, 5h, 57m, 53s")
    );
    assert_eq!(format_duration(61), String::from("1m, 1s"));
    assert_eq!(format_duration(3600), String::from("1h"));
    assert_eq!(format_duration(0), String::from(""));
}

#[test]
fn duration_time_formats() {
    assert_eq!(format_duration_time(2), String::from("0:02"));
    assert_eq!(format_duration_time(5 * 3600 + 57 * 60 + 53), String::from("5:57:53"));
    assert_eq!(format_duration_time(60), String::from("1:00"));
}

#[test]
fn data_change_status_starts_changed() {
    let s = DataChangeStatus::new();
    assert!(s.playlist && s.status && s.current_song);
    let id = SongId(3);
    assert_eq!(id, SongId(3));
}
