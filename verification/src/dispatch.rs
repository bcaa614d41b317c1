//! The action catalog and the dispatch builder: resolving parsed binding
//! entries against the configuration, and compiling the configuration into
//! the runtime table from key code to the ordered actions to execute.

use vstd::prelude::*;

use crate::config::{Config, CustomActions, KeyConfig, spec_keys_of};
use crate::keymap::{lemma_lookup_at, lookup_spec, KeyMap};
use crate::keys::{keycode_of, to_keycode, ControlKey, ToKeyCode, KEY_MOUSE, KEY_RESIZE};
use crate::text::str_eq;

verus! {

/// One invokable command of the player.
#[derive(Clone, Copy, PartialEq, Eq, Structural, Debug)]
pub enum ActionKind {
    ExecuteCommand,
    PlaylistPlay,
    PlaylistPause,
    PlaylistStop,
    PlaylistClear,
    PlaylistDeleteItems,
    PlaylistPrevious,
    PlaylistNext,
    PlaySelected,
    ProcessMouse,
    ResizeWindows,
    ScrollDown,
    ScrollUp,
    PageDown,
    PageUp,
    MoveHome,
    MoveEnd,
    ShowHelp,
    ShowPlaylist,
    ShowServerInfo,
    ToggleBitrateVisibility,
    ToggleRandom,
    ToggleRepeat,
    VolumeDown,
    VolumeUp,
    Quit,
}

/// The catalog name of one action.
pub open spec fn action_name(a: ActionKind) -> Seq<char> {
    match a {
        ActionKind::ExecuteCommand => "execute_command"@,
        ActionKind::PlaylistPlay => "playlist_play"@,
        ActionKind::PlaylistPause => "playlist_pause"@,
        ActionKind::PlaylistStop => "playlist_stop"@,
        ActionKind::PlaylistClear => "playlist_clear"@,
        ActionKind::PlaylistDeleteItems => "playlist_delete_items"@,
        ActionKind::PlaylistPrevious => "playlist_previous"@,
        ActionKind::PlaylistNext => "playlist_next"@,
        ActionKind::PlaySelected => "play_selected"@,
        ActionKind::ProcessMouse => "process_mouse"@,
        ActionKind::ResizeWindows => "resize_windows"@,
        ActionKind::ScrollDown => "scroll_down"@,
        ActionKind::ScrollUp => "scroll_up"@,
        ActionKind::PageDown => "page_down"@,
        ActionKind::PageUp => "page_up"@,
        ActionKind::MoveHome => "move_home"@,
        ActionKind::MoveEnd => "move_end"@,
        ActionKind::ShowHelp => "show_help"@,
        ActionKind::ShowPlaylist => "show_playlist"@,
        ActionKind::ShowServerInfo => "show_server_info"@,
        ActionKind::ToggleBitrateVisibility => "toggle_bitrate_visibility"@,
        ActionKind::ToggleRandom => "toggle_random"@,
        ActionKind::ToggleRepeat => "toggle_repeat"@,
        ActionKind::VolumeDown => "volume_down"@,
        ActionKind::VolumeUp => "volume_up"@,
        ActionKind::Quit => "quit"@,
    }
}

/// The action named by a piece of text, if any.
pub open spec fn action_of_name(s: Seq<char>) -> Option<ActionKind> {
    if s == "execute_command"@ {
        Some(ActionKind::ExecuteCommand)
    } else if s == "playlist_play"@ {
        Some(ActionKind::PlaylistPlay)
    } else if s == "playlist_pause"@ {
        Some(ActionKind::PlaylistPause)
    } else if s == "playlist_stop"@ {
        Some(ActionKind::PlaylistStop)
    } else if s == "playlist_clear"@ {
        Some(ActionKind::PlaylistClear)
    } else if s == "playlist_delete_items"@ {
        Some(ActionKind::PlaylistDeleteItems)
    } else if s == "playlist_previous"@ {
        Some(ActionKind::PlaylistPrevious)
    } else if s == "playlist_next"@ {
        Some(ActionKind::PlaylistNext)
    } else if s == "play_selected"@ {
        Some(ActionKind::PlaySelected)
    } else if s == "process_mouse"@ {
        Some(ActionKind::ProcessMouse)
    } else if s == "resize_windows"@ {
        Some(ActionKind::ResizeWindows)
    } else if s == "scroll_down"@ {
        Some(ActionKind::ScrollDown)
    } else if s == "scroll_up"@ {
        Some(ActionKind::ScrollUp)
    } else if s == "page_down"@ {
        Some(ActionKind::PageDown)
    } else if s == "page_up"@ {
        Some(ActionKind::PageUp)
    } else if s == "move_home"@ {
        Some(ActionKind::MoveHome)
    } else if s == "move_end"@ {
        Some(ActionKind::MoveEnd)
    } else if s == "show_help"@ {
        Some(ActionKind::ShowHelp)
    } else if s == "show_playlist"@ {
        Some(ActionKind::ShowPlaylist)
    } else if s == "show_server_info"@ {
        Some(ActionKind::ShowServerInfo)
    } else if s == "toggle_bitrate_visibility"@ {
        Some(ActionKind::ToggleBitrateVisibility)
    } else if s == "toggle_random"@ {
        Some(ActionKind::ToggleRandom)
    } else if s == "toggle_repeat"@ {
        Some(ActionKind::ToggleRepeat)
    } else if s == "volume_down"@ {
        Some(ActionKind::VolumeDown)
    } else if s == "volume_up"@ {
        Some(ActionKind::VolumeUp)
    } else if s == "quit"@ {
        Some(ActionKind::Quit)
    } else {
        None
    }
}

/// The human description of one action, as shown in the help view.
pub open spec fn action_description(a: ActionKind) -> Seq<char> {
    match a {
        ActionKind::ExecuteCommand => "Execute a command"@,
        ActionKind::PlaylistPlay => "Play the playlist"@,
        ActionKind::PlaylistPause => "Pause the playlist"@,
        ActionKind::PlaylistStop => "Stop the playlist"@,
        ActionKind::PlaylistClear => "Clear the playlist"@,
        ActionKind::PlaylistDeleteItems => "Delete songs from the playlist"@,
        ActionKind::PlaylistPrevious => "Play the playlist's previous song"@,
        ActionKind::PlaylistNext => "Play the playlist's next song"@,
        ActionKind::PlaySelected => "Play the selected song"@,
        ActionKind::ProcessMouse => "Process mouse events"@,
        ActionKind::ResizeWindows => "Resize the windows"@,
        ActionKind::ScrollDown => "Scroll down in a list"@,
        ActionKind::ScrollUp => "Scroll up in a list"@,
        ActionKind::PageDown => "Page down in a list"@,
        ActionKind::PageUp => "Page up in a list"@,
        ActionKind::MoveHome => "Move to the start of a list"@,
        ActionKind::MoveEnd => "Move to the end of a list"@,
        ActionKind::ShowHelp => "Show the help view"@,
        ActionKind::ShowPlaylist => "Show the playlist view"@,
        ActionKind::ShowServerInfo => "Show the MPD server information"@,
        ActionKind::ToggleBitrateVisibility => "Toggle the bitrate visibility"@,
        ActionKind::ToggleRandom => "Toggle the \"random\" mode"@,
        ActionKind::ToggleRepeat => "Toggle the \"repeat\" mode"@,
        ActionKind::VolumeDown => "Lower the volume"@,
        ActionKind::VolumeUp => "Raise the volume"@,
        ActionKind::Quit => "Quit"@,
    }
}

impl ActionKind {
    /// The catalog name of this action.
    pub fn name(&self) -> (r: &'static str)
        ensures
            r@ == action_name(*self),
    {
        match *self {
            ActionKind::ExecuteCommand => "execute_command",
            ActionKind::PlaylistPlay => "playlist_play",
            ActionKind::PlaylistPause => "playlist_pause",
            ActionKind::PlaylistStop => "playlist_stop",
            ActionKind::PlaylistClear => "playlist_clear",
            ActionKind::PlaylistDeleteItems => "playlist_delete_items",
            ActionKind::PlaylistPrevious => "playlist_previous",
            ActionKind::PlaylistNext => "playlist_next",
            ActionKind::PlaySelected => "play_selected",
            ActionKind::ProcessMouse => "process_mouse",
            ActionKind::ResizeWindows => "resize_windows",
            ActionKind::ScrollDown => "scroll_down",
            ActionKind::ScrollUp => "scroll_up",
            ActionKind::PageDown => "page_down",
            ActionKind::PageUp => "page_up",
            ActionKind::MoveHome => "move_home",
            ActionKind::MoveEnd => "move_end",
            ActionKind::ShowHelp => "show_help",
            ActionKind::ShowPlaylist => "show_playlist",
            ActionKind::ShowServerInfo => "show_server_info",
            ActionKind::ToggleBitrateVisibility => "toggle_bitrate_visibility",
            ActionKind::ToggleRandom => "toggle_random",
            ActionKind::ToggleRepeat => "toggle_repeat",
            ActionKind::VolumeDown => "volume_down",
            ActionKind::VolumeUp => "volume_up",
            ActionKind::Quit => "quit",
        }
    }

    /// The human description of this action.
    pub fn description(&self) -> (r: &'static str)
        ensures
            r@ == action_description(*self),
    {
        match *self {
            ActionKind::ExecuteCommand => "Execute a command",
            ActionKind::PlaylistPlay => "Play the playlist",
            ActionKind::PlaylistPause => "Pause the playlist",
            ActionKind::PlaylistStop => "Stop the playlist",
            ActionKind::PlaylistClear => "Clear the playlist",
            ActionKind::PlaylistDeleteItems => "Delete songs from the playlist",
            ActionKind::PlaylistPrevious => "Play the playlist's previous song",
            ActionKind::PlaylistNext => "Play the playlist's next song",
            ActionKind::PlaySelected => "Play the selected song",
            ActionKind::ProcessMouse => "Process mouse events",
            ActionKind::ResizeWindows => "Resize the windows",
            ActionKind::ScrollDown => "Scroll down in a list",
            ActionKind::ScrollUp => "Scroll up in a list",
            ActionKind::PageDown => "Page down in a list",
            ActionKind::PageUp => "Page up in a list",
            ActionKind::MoveHome => "Move to the start of a list",
            ActionKind::MoveEnd => "Move to the end of a list",
            ActionKind::ShowHelp => "Show the help view",
            ActionKind::ShowPlaylist => "Show the playlist view",
            ActionKind::ShowServerInfo => "Show the MPD server information",
            ActionKind::ToggleBitrateVisibility => "Toggle the bitrate visibility",
            ActionKind::ToggleRandom => "Toggle the \"random\" mode",
            ActionKind::ToggleRepeat => "Toggle the \"repeat\" mode",
            ActionKind::VolumeDown => "Lower the volume",
            ActionKind::VolumeUp => "Raise the volume",
            ActionKind::Quit => "Quit",
        }
    }
}

/// Every action, in catalog order.
pub open spec fn all_actions_spec() -> Seq<ActionKind> {
    seq![
        ActionKind::ExecuteCommand,
        ActionKind::PlaylistPlay,
        ActionKind::PlaylistPause,
        ActionKind::PlaylistStop,
        ActionKind::PlaylistClear,
        ActionKind::PlaylistDeleteItems,
        ActionKind::PlaylistPrevious,
        ActionKind::PlaylistNext,
        ActionKind::PlaySelected,
        ActionKind::ProcessMouse,
        ActionKind::ResizeWindows,
        ActionKind::ScrollDown,
        ActionKind::ScrollUp,
        ActionKind::PageDown,
        ActionKind::PageUp,
        ActionKind::MoveHome,
        ActionKind::MoveEnd,
        ActionKind::ShowHelp,
        ActionKind::ShowPlaylist,
        ActionKind::ShowServerInfo,
        ActionKind::ToggleBitrateVisibility,
        ActionKind::ToggleRandom,
        ActionKind::ToggleRepeat,
        ActionKind::VolumeDown,
        ActionKind::VolumeUp,
        ActionKind::Quit,
    ]
}

/// The action catalog: every action under its name, in catalog order.
pub fn get_action_map() -> (r: Vec<(String, ActionKind)>)
    ensures
        r@.len() == all_actions_spec().len(),
        forall|i: int|
            0 <= i < r@.len() ==> (#[trigger] r@[i]).1 == all_actions_spec()[i] && r@[i].0@
                == action_name(all_actions_spec()[i]),
{
    let mut v: Vec<(String, ActionKind)> = Vec::new();
    let actions = all_actions();
    let n = actions.len();
    let mut i: usize = 0;
    while i < n
        invariant
            0 <= i <= n,
            n == all_actions_spec().len(),
            actions@ == all_actions_spec(),
            v@.len() == i,
            forall|j: int|
                0 <= j < i ==> (#[trigger] v@[j]).1 == all_actions_spec()[j] && v@[j].0@
                    == action_name(all_actions_spec()[j]),
        decreases n - i,
    {
        let a = actions[i];
        let name = String::from_str(a.name());
        v.push((name, a));
        i = i + 1;
    }
    v
}

/// Every action, in catalog order.
pub fn all_actions() -> (r: Vec<ActionKind>)
    ensures
        r@ == all_actions_spec(),
{
    let mut v: Vec<ActionKind> = Vec::new();
    v.push(ActionKind::ExecuteCommand);
    v.push(ActionKind::PlaylistPlay);
    v.push(ActionKind::PlaylistPause);
    v.push(ActionKind::PlaylistStop);
    v.push(ActionKind::PlaylistClear);
    v.push(ActionKind::PlaylistDeleteItems);
    v.push(ActionKind::PlaylistPrevious);
    v.push(ActionKind::PlaylistNext);
    v.push(ActionKind::PlaySelected);
    v.push(ActionKind::ProcessMouse);
    v.push(ActionKind::ResizeWindows);
    v.push(ActionKind::ScrollDown);
    v.push(ActionKind::ScrollUp);
    v.push(ActionKind::PageDown);
    v.push(ActionKind::PageUp);
    v.push(ActionKind::MoveHome);
    v.push(ActionKind::MoveEnd);
    v.push(ActionKind::ShowHelp);
    v.push(ActionKind::ShowPlaylist);
    v.push(ActionKind::ShowServerInfo);
    v.push(ActionKind::ToggleBitrateVisibility);
    v.push(ActionKind::ToggleRandom);
    v.push(ActionKind::ToggleRepeat);
    v.push(ActionKind::VolumeDown);
    v.push(ActionKind::VolumeUp);
    v.push(ActionKind::Quit);
    proof {
        assert(v@ =~= all_actions_spec());
    }
    v
}

/// Resolves an action name against the catalog.
pub fn action_from_name(s: &str) -> (r: Option<ActionKind>)
    ensures
        r == action_of_name(s@),
{
    if str_eq(s, "execute_command") {
        Some(ActionKind::ExecuteCommand)
    } else if str_eq(s, "playlist_play") {
        Some(ActionKind::PlaylistPlay)
    } else if str_eq(s, "playlist_pause") {
        Some(ActionKind::PlaylistPause)
    } else if str_eq(s, "playlist_stop") {
        Some(ActionKind::PlaylistStop)
    } else if str_eq(s, "playlist_clear") {
        Some(ActionKind::PlaylistClear)
    } else if str_eq(s, "playlist_delete_items") {
        Some(ActionKind::PlaylistDeleteItems)
    } else if str_eq(s, "playlist_previous") {
        Some(ActionKind::PlaylistPrevious)
    } else if str_eq(s, "playlist_next") {
        Some(ActionKind::PlaylistNext)
    } else if str_eq(s, "play_selected") {
        Some(ActionKind::PlaySelected)
    } else if str_eq(s, "process_mouse") {
        Some(ActionKind::ProcessMouse)
    } else if str_eq(s, "resize_windows") {
        Some(ActionKind::ResizeWindows)
    } else if str_eq(s, "scroll_down") {
        Some(ActionKind::ScrollDown)
    } else if str_eq(s, "scroll_up") {
        Some(ActionKind::ScrollUp)
    } else if str_eq(s, "page_down") {
        Some(ActionKind::PageDown)
    } else if str_eq(s, "page_up") {
        Some(ActionKind::PageUp)
    } else if str_eq(s, "move_home") {
        Some(ActionKind::MoveHome)
    } else if str_eq(s, "move_end") {
        Some(ActionKind::MoveEnd)
    } else if str_eq(s, "show_help") {
        Some(ActionKind::ShowHelp)
    } else if str_eq(s, "show_playlist") {
        Some(ActionKind::ShowPlaylist)
    } else if str_eq(s, "show_server_info") {
        Some(ActionKind::ShowServerInfo)
    } else if str_eq(s, "toggle_bitrate_visibility") {
        Some(ActionKind::ToggleBitrateVisibility)
    } else if str_eq(s, "toggle_random") {
        Some(ActionKind::ToggleRandom)
    } else if str_eq(s, "toggle_repeat") {
        Some(ActionKind::ToggleRepeat)
    } else if str_eq(s, "volume_down") {
        Some(ActionKind::VolumeDown)
    } else if str_eq(s, "volume_up") {
        Some(ActionKind::VolumeUp)
    } else if str_eq(s, "quit") {
        Some(ActionKind::Quit)
    } else {
        None
    }
}

/// The actions named by a custom binding list: unresolved names are dropped
/// silently, and the resolved actions keep their order.
pub open spec fn resolve_actions(names: Seq<Seq<char>>) -> Seq<ActionKind>
    decreases names.len(),
{
    if names.len() == 0 {
        Seq::empty()
    } else {
        (match action_of_name(names[0]) {
            Some(a) => seq![a],
            None => Seq::<ActionKind>::empty(),
        }) + resolve_actions(names.drop_first())
    }
}

/// Resolves a custom binding list against the catalog, dropping unresolved
/// names.
pub fn resolve_action_names(names: &Vec<String>) -> (r: Vec<ActionKind>)
    ensures
        r@ == resolve_actions(names.deep_view()),
{
    let n = names.len();
    let mut acc: Vec<ActionKind> = Vec::new();
    proof {
        assert(names.deep_view().skip(0) =~= names.deep_view());
        assert(acc@ + resolve_actions(names.deep_view()) =~= resolve_actions(names.deep_view()));
    }
    let mut i: usize = 0;
    while i < n
        invariant
            0 <= i <= n,
            n == names@.len(),
            n == names.deep_view().len(),
            forall|j: int| 0 <= j < n ==> names.deep_view()[j] == (#[trigger] names@[j])@,
            resolve_actions(names.deep_view()) == acc@ + resolve_actions(
                names.deep_view().skip(i as int),
            ),
        decreases n - i,
    {
        let ghost rest = names.deep_view().skip(i as int);
        match action_from_name(names[i].as_str()) {
            Some(a) => {
                acc.push(a);
            },
            None => {},
        }
        proof {
            assert(rest[0] == names.deep_view()[i as int]);
            assert(rest.drop_first() =~= names.deep_view().skip(i + 1));
            match action_of_name(names.deep_view()[i as int]) {
                Some(a) => {
                    assert(resolve_actions(rest) =~= seq![a] + resolve_actions(
                        rest.drop_first(),
                    ));
                    assert(acc@ + resolve_actions(rest.drop_first()) =~= acc@.drop_last().push(a)
                        + resolve_actions(rest.drop_first()));
                },
                None => {
                    assert(resolve_actions(rest) =~= resolve_actions(rest.drop_first()));
                },
            }
            assert(resolve_actions(names.deep_view()) == acc@ + resolve_actions(
                names.deep_view().skip(i + 1),
            ));
        }
        i = i + 1;
    }
    proof {
        assert(names.deep_view().skip(n as int) =~= Seq::<Seq<char>>::empty());
        assert(acc@ + resolve_actions(Seq::empty()) =~= acc@);
    }
    acc
}

/// The number of catalog names in a binding list.
pub open spec fn known_count(names: Seq<Seq<char>>) -> int
    decreases names.len(),
{
    if names.len() == 0 {
        0
    } else {
        (if action_of_name(names[0]) is Some {
            1int
        } else {
            0int
        }) + known_count(names.drop_first())
    }
}

proof fn lemma_resolve_len(names: Seq<Seq<char>>)
    ensures
        resolve_actions(names).len() == known_count(names),
        0 <= known_count(names) <= names.len(),
    decreases names.len(),
{
    if names.len() > 0 {
        lemma_resolve_len(names.drop_first());
    }
}

/// Law: a custom binding list resolves to exactly its catalog names, kept in
/// their original order: every unknown name among them is dropped, and the
/// action of each known name stands at the index given by how many known
/// names come before it.
pub proof fn lemma_resolve_actions_order(names: Seq<Seq<char>>, i: int)
    requires
        0 <= i < names.len(),
        action_of_name(names[i]) is Some,
    ensures
        resolve_actions(names).len() == known_count(names),
        0 <= known_count(names.take(i)) < resolve_actions(names).len(),
        resolve_actions(names)[known_count(names.take(i))] == action_of_name(names[i])->Some_0,
    decreases names.len(),
{
    lemma_resolve_len(names);
    let t = names.drop_first();
    if i == 0 {
        assert(names.take(0) =~= Seq::<Seq<char>>::empty());
        assert(known_count(names.take(0)) == 0);
        lemma_resolve_len(t);
        assert(resolve_actions(names) == seq![action_of_name(names[0])->Some_0]
            + resolve_actions(t));
        assert(resolve_actions(names)[0] == action_of_name(names[0])->Some_0);
    } else {
        lemma_resolve_actions_order(t, i - 1);
        assert(t[i - 1] == names[i]);
        assert(names.take(i).drop_first() =~= t.take(i - 1));
        assert(names.take(i)[0] == names[0]);
        assert(known_count(names.take(i)) == (if action_of_name(names[0]) is Some {
            1int
        } else {
            0int
        }) + known_count(t.take(i - 1)));
        if action_of_name(names[0]) is Some {
            let a = action_of_name(names[0])->Some_0;
            assert(resolve_actions(names) == seq![a] + resolve_actions(t));
            assert(resolve_actions(names)[1 + known_count(t.take(i - 1))] == resolve_actions(
                t,
            )[known_count(t.take(i - 1))]);
        } else {
            assert(resolve_actions(names) =~= resolve_actions(t));
        }
    }
}

// ---------------------------------------------------------------------------
// The dispatch table.
// ---------------------------------------------------------------------------
/// Whether any key of the list encodes to `code`.
pub open spec fn has_key(s: Seq<ControlKey>, code: int) -> bool {
    exists|i: int| 0 <= i < s.len() && (#[trigger] s[i]).spec_keycode() == code
}

/// The action list at one code of a raw table.
pub open spec fn lookup_acts(s: Seq<(i32, Vec<ActionKind>)>, code: int) -> Option<Seq<ActionKind>> {
    match lookup_spec(s, code) {
        Some(v) => Some(v@),
        None => None,
    }
}

/// The actions a key code dispatches to under the default bindings alone:
/// each built-in action is registered under its configured keys in a fixed
/// order, later registrations winning, and the mouse and resize codes are
/// registered last.
pub open spec fn default_action_of(k: KeyConfig, code: int) -> Option<Seq<ActionKind>> {
    if code == KEY_RESIZE as int {
        Some(seq![ActionKind::ResizeWindows])
    } else if code == KEY_MOUSE as int {
        Some(seq![ActionKind::ProcessMouse])
    } else if has_key(k.volume_up@, code) {
        Some(seq![ActionKind::VolumeUp])
    } else if has_key(k.volume_down@, code) {
        Some(seq![ActionKind::VolumeDown])
    } else if has_key(k.toggle_repeat@, code) {
        Some(seq![ActionKind::ToggleRepeat])
    } else if has_key(k.toggle_random@, code) {
        Some(seq![ActionKind::ToggleRandom])
    } else if has_key(k.toggle_bitrate_visibility@, code) {
        Some(seq![ActionKind::ToggleBitrateVisibility])
    } else if has_key(k.stop@, code) {
        Some(seq![ActionKind::PlaylistStop])
    } else if has_key(k.show_server_info@, code) {
        Some(seq![ActionKind::ShowServerInfo])
    } else if has_key(k.show_playlist@, code) {
        Some(seq![ActionKind::ShowPlaylist])
    } else if has_key(k.show_help@, code) {
        Some(seq![ActionKind::ShowHelp])
    } else if has_key(k.move_end@, code) {
        Some(seq![ActionKind::MoveEnd])
    } else if has_key(k.move_home@, code) {
        Some(seq![ActionKind::MoveHome])
    } else if has_key(k.scroll_up@, code) {
        Some(seq![ActionKind::ScrollUp])
    } else if has_key(k.scroll_down@, code) {
        Some(seq![ActionKind::ScrollDown])
    } else if has_key(k.quit@, code) {
        Some(seq![ActionKind::Quit])
    } else if has_key(k.previous@, code) {
        Some(seq![ActionKind::PlaylistPrevious])
    } else if has_key(k.press_enter@, code) {
        Some(seq![ActionKind::PlaySelected])
    } else if has_key(k.play_pause@, code) {
        Some(seq![ActionKind::PlaylistPause])
    } else if has_key(k.next@, code) {
        Some(seq![ActionKind::PlaylistNext])
    } else if has_key(k.delete@, code) {
        Some(seq![ActionKind::PlaylistDeleteItems])
    } else if has_key(k.clear@, code) {
        Some(seq![ActionKind::PlaylistClear])
    } else if has_key(k.execute_command@, code) {
        Some(seq![ActionKind::ExecuteCommand])
    } else {
        None
    }
}

/// The actions a key code dispatches to under a whole key configuration:
/// a custom binding for the code decides it outright (unresolved names
/// dropped), and the defaults answer otherwise.
pub open spec fn dispatch_of(k: KeyConfig, code: int) -> Option<Seq<ActionKind>> {
    match lookup_spec(k.custom@, code) {
        Some(names) => Some(resolve_actions(names.deep_view())),
        None => default_action_of(k, code),
    }
}

proof fn lemma_has_key_take_step(s: Seq<ControlKey>, i: int, c: int)
    requires
        0 <= i < s.len(),
    ensures
        has_key(s.take(i + 1), c) == (has_key(s.take(i), c) || s[i].spec_keycode() == c),
{
    if has_key(s.take(i + 1), c) {
        let w = choose|j: int|
            0 <= j < s.take(i + 1).len() && (#[trigger] s.take(i + 1)[j]).spec_keycode() == c;
        assert(s.take(i + 1)[w] == s[w]);
        if w < i {
            assert(s.take(i)[w] == s[w]);
            assert(has_key(s.take(i), c));
        }
    }
    if has_key(s.take(i), c) {
        let w = choose|j: int|
            0 <= j < s.take(i).len() && (#[trigger] s.take(i)[j]).spec_keycode() == c;
        assert(s.take(i + 1)[w] == s.take(i)[w]);
        assert(has_key(s.take(i + 1), c));
    }
    if s[i].spec_keycode() == c {
        assert(s.take(i + 1)[i] == s[i]);
        assert(has_key(s.take(i + 1), c));
    }
}

/// A singleton key list binds exactly its own code.
proof fn lemma_single_key(k: ControlKey, c: int)
    ensures
        has_key(seq![k], c) == (k.spec_keycode() == c),
{
    if k.spec_keycode() == c {
        assert(seq![k][0].spec_keycode() == c);
    }
    if has_key(seq![k], c) {
        let w = choose|j: int|
            0 <= j < seq![k].len() && (#[trigger] seq![k][j]).spec_keycode() == c;
        assert(w == 0);
    }
}

fn register(table: &mut KeyMap<Vec<ActionKind>>, keys: &Vec<ControlKey>, action: ActionKind)
    requires
        old(table).wf(),
    ensures
        final(table).wf(),
        forall|c: int|
            #[trigger] lookup_acts(final(table)@, c) == if has_key(keys@, c) {
                Some(seq![action])
            } else {
                lookup_acts(old(table)@, c)
            },
{
    let n = keys.len();
    proof {
        assert(keys@.take(0) =~= Seq::<ControlKey>::empty());
    }
    let mut i: usize = 0;
    while i < n
        invariant
            0 <= i <= n,
            n == keys@.len(),
            table.wf(),
            forall|c: int|
                #[trigger] lookup_acts(table@, c) == if has_key(keys@.take(i as int), c) {
                    Some(seq![action])
                } else {
                    lookup_acts(old(table)@, c)
                },
        decreases n - i,
    {
        let code = keys[i].keycode();
        let ghost pre = table@;
        let mut single: Vec<ActionKind> = Vec::new();
        single.push(action);
        proof {
            assert(single@ =~= seq![action]);
        }
        table.insert(code, single);
        proof {
            assert forall|c: int|
                #[trigger] lookup_acts(table@, c) == if has_key(keys@.take(i + 1), c) {
                    Some(seq![action])
                } else {
                    lookup_acts(old(table)@, c)
                } by {
                lemma_has_key_take_step(keys@, i as int, c);
                assert(lookup_acts(pre, c) == if has_key(keys@.take(i as int), c) {
                    Some(seq![action])
                } else {
                    lookup_acts(old(table)@, c)
                });
                if c != code as int {
                    assert(lookup_spec(table@, c) == lookup_spec(pre, c));
                    assert(lookup_acts(table@, c) == lookup_acts(pre, c));
                }
            }
        }
        i = i + 1;
    }
    proof {
        assert(keys@.take(n as int) =~= keys@);
    }
}

/// Whether some entry among the first `i` of the store binds `code`.
pub open spec fn code_in_prefix(s: Seq<(i32, Vec<String>)>, i: int, code: int) -> bool {
    exists|j: int| 0 <= j < i && (#[trigger] s[j]).0 as int == code
}

proof fn lemma_code_prefix_step(s: Seq<(i32, Vec<String>)>, i: int, c: int)
    requires
        0 <= i < s.len(),
    ensures
        code_in_prefix(s, i + 1, c) == (code_in_prefix(s, i, c) || s[i].0 as int == c),
{
    if code_in_prefix(s, i + 1, c) {
        let w = choose|j: int| 0 <= j < i + 1 && (#[trigger] s[j]).0 as int == c;
        if w < i {
            assert(code_in_prefix(s, i, c));
        }
    }
    if code_in_prefix(s, i, c) {
        let w = choose|j: int| 0 <= j < i && (#[trigger] s[j]).0 as int == c;
        assert(0 <= w < i + 1 && s[w].0 as int == c);
    }
    if s[i].0 as int == c {
        assert(code_in_prefix(s, i + 1, c));
    }
}

/// What the user asked for with one key press.
#[derive(Clone, Copy, PartialEq, Eq, Structural, Debug)]
pub enum ControlQuery {
    /// Some query was made.
    Command,
    /// No query was made.
    Nothing,
    /// Exit query.
    Exit,
}

/// How one raw input code is answered: no key means nothing to do, a
/// dispatch list holding the quit action exits, and everything else is a
/// command (an unmapped code too, so the caller can report it).
pub open spec fn classification(acts: Option<Seq<ActionKind>>, ch: int) -> ControlQuery {
    if ch == -1 {
        ControlQuery::Nothing
    } else {
        match acts {
            Some(l) => if l.contains(ActionKind::Quit) {
                ControlQuery::Exit
            } else {
                ControlQuery::Command
            },
            None => ControlQuery::Command,
        }
    }
}

/// The custom-binding store as a map from key code to action-name list.
pub open spec fn custom_view(m: CustomActions) -> Map<int, Seq<Seq<char>>> {
    Map::new(
        |c: int| lookup_spec(m@, c) is Some,
        |c: int| lookup_spec(m@, c)->Some_0.deep_view(),
    )
}

/// The named-action key lists as a map from action name to its keys.
pub open spec fn actions_map(k: KeyConfig) -> Map<Seq<char>, Seq<ControlKey>> {
    Map::new(
        |a: Seq<char>| spec_keys_of(k, a) is Some,
        |a: Seq<char>| spec_keys_of(k, a)->Some_0,
    )
}

/// One key added to one named action, unless the name is unknown or the key
/// is already bound to it.
pub open spec fn am_assign(
    m: Map<Seq<char>, Seq<ControlKey>>,
    name: Seq<char>,
    key: ControlKey,
) -> Map<Seq<char>, Seq<ControlKey>> {
    if m.dom().contains(name) && !m[name].contains(key) {
        m.insert(name, m[name].push(key))
    } else {
        m
    }
}

/// What one parsed binding entry does to the configuration. A key name
/// outside the codec's vocabulary drops the entry. A single-action entry
/// adds the key to the named action's key list and, when the name is in the
/// action catalog, overrides the code's custom binding. A multi-action
/// entry overrides the code's custom binding outright.
pub open spec fn bind_step(
    am: Map<Seq<char>, Seq<ControlKey>>,
    cm: Map<int, Seq<Seq<char>>>,
    key_text: Seq<char>,
    actions: Seq<Seq<char>>,
) -> (Map<Seq<char>, Seq<ControlKey>>, Map<int, Seq<Seq<char>>>) {
    match keycode_of(key_text) {
        None => (am, cm),
        Some(code) => if actions.len() == 1 {
            let am2 = am_assign(am, actions[0], ControlKey::KeyCode(code as i32));
            if action_of_name(actions[0]) is Some {
                (am2, cm.insert(code, actions))
            } else {
                (am2, cm)
            }
        } else {
            (am, cm.insert(code, actions))
        },
    }
}

/// The configuration after a whole list of binding entries, in file order.
pub open spec fn bindings_fold(
    am: Map<Seq<char>, Seq<ControlKey>>,
    cm: Map<int, Seq<Seq<char>>>,
    entries: Seq<(Seq<char>, Seq<Seq<char>>)>,
) -> (Map<Seq<char>, Seq<ControlKey>>, Map<int, Seq<Seq<char>>>)
    decreases entries.len(),
{
    if entries.len() == 0 {
        (am, cm)
    } else {
        let st = bind_step(am, cm, entries[0].0, entries[0].1);
        bindings_fold(st.0, st.1, entries.drop_first())
    }
}

/// The view of a list of parsed binding entries.
pub open spec fn entries_deep(v: Seq<(String, Vec<String>)>) -> Seq<(Seq<char>, Seq<Seq<char>>)> {
    Seq::new(v.len(), |i: int| (v[i].0@, v[i].1.deep_view()))
}

/// Folds the parsed binding entries into the configuration, in file order:
/// later entries for a key code override earlier ones, single-action
/// entries also extend the named action's key list, and entries whose key
/// name is not in the codec's vocabulary are dropped.
pub fn apply_bindings(config: &mut Config, entries: Vec<(String, Vec<String>)>)
    requires
        old(config).keys.custom.wf(),
    ensures
        final(config).keys.custom.wf(),
        ({
            let folded = bindings_fold(
                actions_map(old(config).keys),
                custom_view(old(config).keys.custom),
                entries_deep(entries@),
            );
            actions_map(final(config).keys) == folded.0 && custom_view(final(config).keys.custom)
                == folded.1
        }),
        final(config).colors == old(config).colors,
        final(config).params == old(config).params,
{
    let ghost am0 = actions_map(old(config).keys);
    let ghost cm0 = custom_view(old(config).keys.custom);
    let ghost all = entries_deep(entries@);
    let mut rest = entries;
    while rest.len() > 0
        invariant
            config.keys.custom.wf(),
            bindings_fold(am0, cm0, all) == bindings_fold(
                actions_map(config.keys),
                custom_view(config.keys.custom),
                entries_deep(rest@),
            ),
            config.colors == old(config).colors,
            config.params == old(config).params,
        decreases rest@.len(),
    {
        let ghost before = entries_deep(rest@);
        let ghost am_cur = actions_map(config.keys);
        let ghost cm_cur = custom_view(config.keys.custom);
        let e = rest.remove(0);
        proof {
            assert(before[0] == (e.0@, e.1.deep_view()));
            assert(before.drop_first() =~= entries_deep(rest@));
        }
        match to_keycode(e.0.as_str()) {
            None => {
                proof {
                    assert(bind_step(am_cur, cm_cur, e.0@, e.1.deep_view()) == (am_cur, cm_cur));
                }
            },
            Some(code) => {
                if rest_entry_len(&e.1) == 1 {
                    let known = action_from_name(e.1[0].as_str()).is_some();
                    let ghost keys_pre = config.keys;
                    config.keys.assign(e.1[0].as_str(), ControlKey::KeyCode(code));
                    proof {
                        assert(actions_map(config.keys) =~= am_assign(
                            actions_map(keys_pre),
                            e.1.deep_view()[0],
                            ControlKey::KeyCode(code),
                        ));
                        assert(custom_view(config.keys.custom) =~= cm_cur);
                    }
                    if known {
                        let ghost keys_mid = config.keys;
                        let ghost custom_pre = config.keys.custom;
                        let ghost names = e.1.deep_view();
                        config.keys.custom.insert(code, e.1);
                        proof {
                            assert(custom_view(config.keys.custom) =~= custom_view(
                                custom_pre,
                            ).insert(code as int, names));
                            assert(actions_map(config.keys) =~= actions_map(keys_mid));
                        }
                    }
                } else {
                    let ghost custom_pre = config.keys.custom;
                    let ghost names = e.1.deep_view();
                    config.keys.custom.insert(code, e.1);
                    proof {
                        assert(custom_view(config.keys.custom) =~= custom_view(custom_pre).insert(
                            code as int,
                            names,
                        ));
                        assert(actions_map(config.keys) =~= am_cur);
                    }
                }
            },
        }
        proof {
            let st = bind_step(am_cur, cm_cur, before[0].0, before[0].1);
            assert(actions_map(config.keys) == st.0 && custom_view(config.keys.custom) == st.1);
            assert(bindings_fold(am_cur, cm_cur, before) == bindings_fold(
                st.0,
                st.1,
                before.drop_first(),
            ));
        }
    }
    proof {
        assert(entries_deep(rest@).len() == 0);
    }
}

/// The length of one entry's action list.
fn rest_entry_len(v: &Vec<String>) -> (r: usize)
    ensures
        r == v@.len(),
        r == v.deep_view().len(),
{
    v.len()
}

/// Law: a binding entry whose key name encodes to `code`, and whose action
/// list is either multi-action or a single catalog action, replaces the
/// custom binding of `code` outright, whatever it was.
pub proof fn lemma_rebinding_overrides(
    am: Map<Seq<char>, Seq<ControlKey>>,
    cm: Map<int, Seq<Seq<char>>>,
    key_text: Seq<char>,
    names: Seq<Seq<char>>,
    code: int,
)
    requires
        keycode_of(key_text) == Some(code),
        names.len() != 1 || action_of_name(names[0]) is Some,
    ensures
        bind_step(am, cm, key_text, names).1 == cm.insert(code, names),
{
}

/// Law: a key code with a custom binding dispatches to exactly the actions
/// that the binding's names resolve to; no default binding shows through.
pub proof fn lemma_custom_decides_dispatch(k: KeyConfig, code: int, names: Seq<Seq<char>>)
    requires
        custom_view(k.custom).dom().contains(code),
        custom_view(k.custom)[code] == names,
    ensures
        dispatch_of(k, code) == Some(resolve_actions(names)),
{
}

/// Runtime table from key code to the ordered actions to execute.
pub struct DispatchTable {
    table: KeyMap<Vec<ActionKind>>,
}

impl DispatchTable {
    pub closed spec fn wf(&self) -> bool {
        self.table.wf()
    }

    /// The action list this table dispatches `code` to.
    pub closed spec fn spec_lookup(&self, code: int) -> Option<Seq<ActionKind>> {
        lookup_acts(self.table@, code)
    }

    /// Compiles a key configuration into the dispatch table: every built-in
    /// action under its keys, and then every custom binding, which replaces
    /// whatever its code dispatched to.
    pub fn new(keys: &KeyConfig) -> (r: DispatchTable)
        requires
            keys.custom.wf(),
        ensures
            r.wf(),
            forall|c: int| #[trigger] r.spec_lookup(c) == dispatch_of(*keys, c),
    {
        let mut table: KeyMap<Vec<ActionKind>> = KeyMap::new();
        register(&mut table, &keys.execute_command, ActionKind::ExecuteCommand);
        register(&mut table, &keys.clear, ActionKind::PlaylistClear);
        register(&mut table, &keys.delete, ActionKind::PlaylistDeleteItems);
        register(&mut table, &keys.next, ActionKind::PlaylistNext);
        register(&mut table, &keys.play_pause, ActionKind::PlaylistPause);
        register(&mut table, &keys.press_enter, ActionKind::PlaySelected);
        register(&mut table, &keys.previous, ActionKind::PlaylistPrevious);
        register(&mut table, &keys.quit, ActionKind::Quit);
        register(&mut table, &keys.scroll_down, ActionKind::ScrollDown);
        register(&mut table, &keys.scroll_up, ActionKind::ScrollUp);
        register(&mut table, &keys.move_home, ActionKind::MoveHome);
        register(&mut table, &keys.move_end, ActionKind::MoveEnd);
        register(&mut table, &keys.show_help, ActionKind::ShowHelp);
        register(&mut table, &keys.show_playlist, ActionKind::ShowPlaylist);
        register(&mut table, &keys.show_server_info, ActionKind::ShowServerInfo);
        register(&mut table, &keys.stop, ActionKind::PlaylistStop);
        register(&mut table, &keys.toggle_bitrate_visibility, ActionKind::ToggleBitrateVisibility);
        register(&mut table, &keys.toggle_random, ActionKind::ToggleRandom);
        register(&mut table, &keys.toggle_repeat, ActionKind::ToggleRepeat);
        register(&mut table, &keys.volume_down, ActionKind::VolumeDown);
        register(&mut table, &keys.volume_up, ActionKind::VolumeUp);
        let mut mouse_keys: Vec<ControlKey> = Vec::new();
        mouse_keys.push(ControlKey::KeyCode(KEY_MOUSE));
        proof {
            assert(mouse_keys@ =~= seq![ControlKey::KeyCode(KEY_MOUSE)]);
        }
        register(&mut table, &mouse_keys, ActionKind::ProcessMouse);
        let mut resize_keys: Vec<ControlKey> = Vec::new();
        resize_keys.push(ControlKey::KeyCode(KEY_RESIZE));
        proof {
            assert(resize_keys@ =~= seq![ControlKey::KeyCode(KEY_RESIZE)]);
        }
        register(&mut table, &resize_keys, ActionKind::ResizeWindows);
        proof {
            assert forall|c: int|
                #[trigger] lookup_acts(table@, c) == default_action_of(*keys, c) by {
                lemma_single_key(ControlKey::KeyCode(KEY_MOUSE), c);
                lemma_single_key(ControlKey::KeyCode(KEY_RESIZE), c);
            }
        }
        let ghost defaults = table@;
        let n = keys.custom.len();
        let mut i: usize = 0;
        while i < n
            invariant
                0 <= i <= n,
                n == keys.custom@.len(),
                keys.custom.wf(),
                table.wf(),
                forall|c: int|
                    #[trigger] lookup_acts(table@, c) == if code_in_prefix(
                        keys.custom@,
                        i as int,
                        c,
                    ) {
                        Some(
                            resolve_actions(
                                lookup_spec(keys.custom@, c)->Some_0.deep_view(),
                            ),
                        )
                    } else {
                        default_action_of(*keys, c)
                    },
            decreases n - i,
        {
            let entry = keys.custom.entry_at(i);
            let code = entry.0;
            let resolved = resolve_action_names(&entry.1);
            let ghost pre = table@;
            table.insert(code, resolved);
            proof {
                lemma_lookup_at(keys.custom@, i as int);
                assert forall|c: int|
                    #[trigger] lookup_acts(table@, c) == if code_in_prefix(
                        keys.custom@,
                        i + 1,
                        c,
                    ) {
                        Some(
                            resolve_actions(
                                lookup_spec(keys.custom@, c)->Some_0.deep_view(),
                            ),
                        )
                    } else {
                        default_action_of(*keys, c)
                    } by {
                    lemma_code_prefix_step(keys.custom@, i as int, c);
                    assert(lookup_acts(pre, c) == if code_in_prefix(keys.custom@, i as int, c) {
                        Some(resolve_actions(lookup_spec(keys.custom@, c)->Some_0.deep_view()))
                    } else {
                        default_action_of(*keys, c)
                    });
                    if c == code as int {
                        assert(code_in_prefix(keys.custom@, i + 1, c)) by {
                            assert(keys.custom@[i as int].0 as int == c);
                        }
                    } else {
                        assert(lookup_spec(table@, c) == lookup_spec(pre, c));
                        assert(lookup_acts(table@, c) == lookup_acts(pre, c));
                    }
                }
            }
            i = i + 1;
        }
        proof {
            assert forall|c: int|
                lookup_acts(table@, c) == #[trigger] dispatch_of(*keys, c) by {
                if code_in_prefix(keys.custom@, n as int, c) {
                    assert(lookup_spec(keys.custom@, c) is Some) by {
                        let w = choose|j: int|
                            0 <= j < n && (#[trigger] keys.custom@[j]).0 as int == c;
                        lemma_lookup_at(keys.custom@, w);
                    }
                } else {
                    if lookup_spec(keys.custom@, c) is Some {
                        crate::keymap::lemma_lookup_index(keys.custom@, c);
                        assert(code_in_prefix(keys.custom@, n as int, c));
                    }
                }
            }
        }
        DispatchTable { table }
    }

    /// The action list bound to one key code, if any.
    pub fn lookup(&self, code: i32) -> (r: Option<&Vec<ActionKind>>)
        requires
            self.wf(),
        ensures
            match r {
                Some(v) => self.spec_lookup(code as int) == Some(v@),
                None => self.spec_lookup(code as int) is None,
            },
    {
        self.table.get(code)
    }

    /// Answers one raw input code: nothing on the no-key code, an exit when
    /// the code dispatches to a list holding the quit action, and a command
    /// otherwise.
    pub fn process_input(&self, ch: i32) -> (r: ControlQuery)
        requires
            self.wf(),
        ensures
            r == classification(self.spec_lookup(ch as int), ch as int),
    {
        if ch == -1 {
            return ControlQuery::Nothing;
        }
        match self.lookup(ch) {
            None => ControlQuery::Command,
            Some(acts) => {
                let n = acts.len();
                let mut i: usize = 0;
                while i < n
                    invariant
                        0 <= i <= n,
                        n == acts@.len(),
                        ch != -1,
                        self.spec_lookup(ch as int) == Some(acts@),
                        forall|j: int| 0 <= j < i ==> acts@[j] != ActionKind::Quit,
                    decreases n - i,
                {
                    if acts[i] == ActionKind::Quit {
                        proof {
                            assert(acts@.contains(ActionKind::Quit)) by {
                                assert(acts@[i as int] == ActionKind::Quit);
                            }
                        }
                        return ControlQuery::Exit;
                    }
                    i = i + 1;
                }
                proof {
                    assert(!acts@.contains(ActionKind::Quit));
                }
                ControlQuery::Command
            },
        }
    }
}

} // verus!
