use ncmpc::config::Config;
use ncmpc::dispatch::action_from_name;
use ncmpc::dispatch::apply_bindings;
use ncmpc::dispatch::get_action_map;
use ncmpc::dispatch::resolve_action_names;
use ncmpc::dispatch::ActionKind;
use ncmpc::dispatch::ControlQuery;
use ncmpc::dispatch::DispatchTable;
use ncmpc::keys::KEY_MOUSE;
use ncmpc::keys::KEY_RESIZE;
use ncmpc::keys::KEY_UP;

#[test]
fn default_dispatch_table() {
    let config = Config::new();
    let table = DispatchTable::new(&config.keys);
    assert_eq!(table.lookup('q' as i32), Some(&vec![ActionKind::Quit]));
    assert_eq!(table.lookup(KEY_UP), Some(&vec![ActionKind::ScrollUp]));
    assert_eq!(table.lookup('z' as i32), Some(&vec![ActionKind::ToggleRandom]));
    assert_eq!(table.lookup(KEY_MOUSE), Some(&vec![ActionKind::ProcessMouse]));
    assert_eq!(table.lookup(KEY_RESIZE), Some(&vec![ActionKind::ResizeWindows]));
    assert_eq!(table.lookup(9999), None);
}

#[test]
fn process_input_classifies() {
    let config = Config::new();
    let table = DispatchTable::new(&config.keys);
    assert_eq!(table.process_input(-1), ControlQuery::Nothing);
    assert_eq!(table.process_input('q' as i32), ControlQuery::Exit);
    assert_eq!(table.process_input('z' as i32), ControlQuery::Command);
    // An unmapped code is still a command, so the caller can report it.
    assert_eq!(table.process_input(9999), ControlQuery::Command);
}

#[test]
fn unknown_action_in_custom_binding_is_dropped() {
    // One unknown action name among two valid ones: the entry resolves to
    // the two valid actions, in their original order.
    let mut config = Config::new();
    let entries = vec![(
        String::from("x"),
        vec![
            String::from("playlist_play"),
            String::from("bogus_name"),
            String::from("playlist_stop"),
        ],
    )];
    apply_bindings(&mut config, entries);
    let table = DispatchTable::new(&config.keys);
    assert_eq!(
        table.lookup('x' as i32),
        Some(&vec![ActionKind::PlaylistPlay, ActionKind::PlaylistStop])
    );
}

#[test]
fn rebinding_default_key_replaces_action() {
    // Re-binding the default quit key: the dispatch table returns only the
    // new action, the default is fully replaced.
    let mut config = Config::new();
    let entries = vec![(String::from("q"), vec![String::from("scroll_up")])];
    apply_bindings(&mut config, entries);
    let table = DispatchTable::new(&config.keys);
    assert_eq!(table.lookup('q' as i32), Some(&vec![ActionKind::ScrollUp]));
    assert_eq!(table.process_input('q' as i32), ControlQuery::Command);
}

#[test]
fn later_binding_overrides_earlier() {
    let mut config = Config::new();
    let entries = vec![
        (String::from("x"), vec![String::from("playlist_play")]),
        (
            String::from("x"),
            vec![String::from("scroll_up"), String::from("scroll_down")],
        ),
    ];
    apply_bindings(&mut config, entries);
    let table = DispatchTable::new(&config.keys);
    assert_eq!(
        table.lookup('x' as i32),
        Some(&vec![ActionKind::ScrollUp, ActionKind::ScrollDown])
    );
}

#[test]
fn binding_to_quit_exits() {
    let mut config = Config::new();
    let entries = vec![(String::from("Q"), vec![String::from("quit")])];
    apply_bindings(&mut config, entries);
    let table = DispatchTable::new(&config.keys);
    assert_eq!(table.process_input('Q' as i32), ControlQuery::Exit);
}

#[test]
fn single_binding_with_unknown_action_is_ignored() {
    let mut config = Config::new();
    let entries = vec![(String::from("q"), vec![String::from("bogus_name")])];
    apply_bindings(&mut config, entries);
    let table = DispatchTable::new(&config.keys);
    // The default stays: the entry resolved to nothing.
    assert_eq!(table.process_input('q' as i32), ControlQuery::Exit);
}

#[test]
fn resolve_names_filters_and_orders() {
    let names = vec![
        String::from("volume_up"),
        String::from("nonsense"),
        String::from("volume_down"),
    ];
    assert_eq!(
        resolve_action_names(&names),
        vec![ActionKind::VolumeUp, ActionKind::VolumeDown]
    );
}

#[test]
fn action_catalog() {
    let map = get_action_map();
    assert_eq!(map.len(), 26);
    assert_eq!(map[0].0, "execute_command");
    assert_eq!(map[0].1, ActionKind::ExecuteCommand);
    assert_eq!(action_from_name("toggle_repeat"), Some(ActionKind::ToggleRepeat));
    assert_eq!(action_from_name("quit"), Some(ActionKind::Quit));
    assert_eq!(action_from_name("???"), None);
    assert_eq!(ActionKind::VolumeUp.name(), "volume_up");
    assert_eq!(ActionKind::VolumeUp.description(), "Raise the volume");
}
