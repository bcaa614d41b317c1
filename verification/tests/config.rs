use ncmpc::config::apply_settings;
use ncmpc::config::assign;
use ncmpc::config::parse_bool;
use ncmpc::config::parse_int;
use ncmpc::config::trim_quotes;
use ncmpc::config::ColorConfig;
use ncmpc::config::Config;
use ncmpc::config::KeyConfig;
use ncmpc::config::ParamConfig;
use ncmpc::constants::COLOR_GREEN;
use ncmpc::constants::COLOR_RED;
use ncmpc::format::Column;
use ncmpc::format::SongProperty;
use ncmpc::keys::ControlKey;
use ncmpc::keys::KEY_DOWN;
use ncmpc::keys::KEY_UP;

#[test]
fn load_default_config() {
    // A configuration file that restates the defaults leaves the default
    // parameters in place.
    let mut config = Config::new();
    let pairs = vec![
        (String::from("cyclic_scrolling"), String::from("\"no\"")),
        (String::from("display_volume_level"), String::from("\"yes\"")),
        (String::from("mpd_host"), String::from("\"localhost\"")),
        (String::from("mpd_port"), String::from("\"6600\"")),
        (
            String::from("song_columns_list_format"),
            String::from("\"(20)[]{a} (6f)[green]{NE} (50)[white]{t|f:Title} (20)[cyan]{b} (7f)[magenta]{l}\""),
        ),
    ];
    apply_settings(&mut config, &pairs);

    let params = ParamConfig::new();
    assert_eq!(config.params, params);
}

#[test]
fn load_custom_config() {
    let mut config = Config::new();
    let pairs = vec![
        (String::from("cyclic_scrolling"), String::from("\"yes\"")),
        (String::from("display_bitrate"), String::from("\"yes\"")),
        (String::from("display_remaining_time"), String::from("\"yes\"")),
        (String::from("display_volume_level"), String::from("\"no\"")),
        (String::from("header_text_scrolling"), String::from("\"no\"")),
        (String::from("mpd_port"), String::from("\"7700\"")),
        (
            String::from("song_columns_list_format"),
            String::from("\"(10)[]{a} (6f)[green]{N}\""),
        ),
        (String::from("volume_change_step"), String::from("5")),
    ];
    apply_settings(&mut config, &pairs);

    let mut params = ParamConfig::new();
    params.cyclic_scrolling = true;
    params.display_bitrate = true;
    params.display_remaining_time = true;
    params.display_volume_level = false;
    params.header_text_scrolling = false;
    params.mpd_port = 7700;
    params.song_columns_list_format = vec![
        Column {
            column_type: SongProperty::Artist,
            width: 10,
            is_fixed: false,
            color: -1,
        },
        Column {
            column_type: SongProperty::TrackFull,
            width: 6,
            is_fixed: true,
            color: COLOR_GREEN,
        },
    ];
    params.volume_change_step = 5;
    assert_eq!(config.params, params);
}

#[test]
fn assign_colors_and_unknown_keys() {
    let mut config = Config::new();
    assert!(assign("color1", "red", &mut config));
    assert_eq!(config.colors.color1, COLOR_RED);
    assert!(assign("statusbar_color", "green", &mut config));
    assert_eq!(config.colors.statusbar, COLOR_GREEN);
    assert!(!assign("no_such_setting", "1", &mut config));
}

#[test]
fn assign_keeps_field_on_bad_value() {
    let mut config = Config::new();
    assert!(assign("mpd_port", "not_a_number", &mut config));
    assert_eq!(config.params.mpd_port, 6600);
    assert!(assign("mpd_port", "70000", &mut config));
    assert_eq!(config.params.mpd_port, 6600);
    assert!(assign("volume_change_step", "5", &mut config));
    assert_eq!(config.params.volume_change_step, 5);
    // A column format that does not compile leaves an empty column list.
    assert!(assign("song_columns_list_format", "oops", &mut config));
    assert!(config.params.song_columns_list_format.is_empty());
}

#[test]
fn parse_int_values() {
    assert_eq!(parse_int("42"), Some(42));
    assert_eq!(parse_int("-7"), Some(-7));
    assert_eq!(parse_int("+7"), Some(7));
    assert_eq!(parse_int("0"), Some(0));
    assert_eq!(parse_int(""), None);
    assert_eq!(parse_int("-"), None);
    assert_eq!(parse_int("12x"), None);
    assert_eq!(parse_int("99999999999999999999"), None);
}

#[test]
fn parse_bool_reads_yes() {
    assert!(parse_bool("yes"));
    assert!(!parse_bool("no"));
    assert!(!parse_bool("true"));
}

#[test]
fn trim_quotes_strips_both_ends() {
    assert_eq!(trim_quotes("\"abc\""), "abc");
    assert_eq!(trim_quotes("abc"), "abc");
    assert_eq!(trim_quotes("\"\""), "");
    assert_eq!(trim_quotes("\"\"a\"\""), "a");
}

#[test]
fn default_key_config() {
    let keys = KeyConfig::new();
    assert_eq!(keys.quit, vec![ControlKey::Char('q')]);
    assert_eq!(keys.scroll_up, vec![ControlKey::KeyCode(KEY_UP)]);
    assert_eq!(keys.scroll_down, vec![ControlKey::KeyCode(KEY_DOWN)]);
    assert_eq!(keys.custom.len(), 0);
}

#[test]
fn assign_adds_keys_without_duplicates() {
    let mut keys = KeyConfig::new();
    assert!(keys.assign("quit", ControlKey::Char('x')));
    assert_eq!(keys.quit, vec![ControlKey::Char('q'), ControlKey::Char('x')]);
    // The same key a second time is not added again.
    assert!(!keys.assign("quit", ControlKey::Char('x')));
    assert_eq!(keys.quit.len(), 2);
    // An unknown action changes nothing.
    assert!(!keys.assign("no_such_action", ControlKey::Char('y')));
}

#[test]
fn action_to_keys_reads_fields() {
    let keys = KeyConfig::new();
    assert_eq!(keys.action_to_keys("quit"), Some(&vec![ControlKey::Char('q')]));
    assert_eq!(keys.action_to_keys("bogus"), None);
}

#[test]
fn default_colors_are_zero() {
    let colors = ColorConfig::new();
    assert_eq!(colors.color1, 0);
    assert_eq!(colors.window_border, 0);
}
