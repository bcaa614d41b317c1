//! The configuration model: default key bindings, colors and display
//! parameters, and the interpreter that folds parsed `key = value` settings
//! into a configuration.

use vstd::prelude::*;

use crate::constants::Color;
use crate::format::{color_of, columns_of, generate_columns, get_color, Column, SongProperty};
use crate::keymap::KeyMap;
use crate::keys::{all_digits, dec_value, ControlKey, KEY_DC, KEY_DOWN, KEY_END, KEY_F0, KEY_HOME, KEY_LEFT, KEY_RIGHT, KEY_UP};
use crate::text::str_eq;

verus! {

pub type ControlKeys = Vec<ControlKey>;

/// Custom multi-action bindings, keyed by numeric key code.
pub type CustomActions = KeyMap<Vec<String>>;

/// Key bindings configuration.
#[derive(Clone)]
pub struct KeyConfig {
    pub execute_command: ControlKeys,
    pub clear: ControlKeys,
    pub delete: ControlKeys,
    pub next: ControlKeys,
    pub play_pause: ControlKeys,
    pub press_enter: ControlKeys,
    pub previous: ControlKeys,
    pub quit: ControlKeys,
    pub scroll_down: ControlKeys,
    pub scroll_up: ControlKeys,
    pub move_home: ControlKeys,
    pub move_end: ControlKeys,
    pub show_help: ControlKeys,
    pub show_playlist: ControlKeys,
    pub show_server_info: ControlKeys,
    pub stop: ControlKeys,
    pub toggle_bitrate_visibility: ControlKeys,
    pub toggle_random: ControlKeys,
    pub toggle_repeat: ControlKeys,
    pub volume_down: ControlKeys,
    pub volume_up: ControlKeys,
    pub custom: CustomActions,
}

/// The key list of one named action, if the name is an action of the
/// configuration.
pub open spec fn spec_keys_of(c: KeyConfig, action: Seq<char>) -> Option<Seq<ControlKey>> {
    if action == "execute_command"@ {
        Some(c.execute_command@)
    } else if action == "clear"@ {
        Some(c.clear@)
    } else if action == "delete"@ {
        Some(c.delete@)
    } else if action == "next"@ {
        Some(c.next@)
    } else if action == "play_pause"@ {
        Some(c.play_pause@)
    } else if action == "press_enter"@ {
        Some(c.press_enter@)
    } else if action == "previous"@ {
        Some(c.previous@)
    } else if action == "quit"@ {
        Some(c.quit@)
    } else if action == "scroll_down"@ {
        Some(c.scroll_down@)
    } else if action == "scroll_up"@ {
        Some(c.scroll_up@)
    } else if action == "move_home"@ {
        Some(c.move_home@)
    } else if action == "move_end"@ {
        Some(c.move_end@)
    } else if action == "show_help"@ {
        Some(c.show_help@)
    } else if action == "show_playlist"@ {
        Some(c.show_playlist@)
    } else if action == "show_server_info"@ {
        Some(c.show_server_info@)
    } else if action == "stop"@ {
        Some(c.stop@)
    } else if action == "toggle_bitrate_visibility"@ {
        Some(c.toggle_bitrate_visibility@)
    } else if action == "toggle_random"@ {
        Some(c.toggle_random@)
    } else if action == "toggle_repeat"@ {
        Some(c.toggle_repeat@)
    } else if action == "volume_down"@ {
        Some(c.volume_down@)
    } else if action == "volume_up"@ {
        Some(c.volume_up@)
    } else {
        None
    }
}

/// The default key bindings.
pub open spec fn is_default_key_config(c: KeyConfig) -> bool {
    &&& c.execute_command@ == seq![ControlKey::Char(':')]
    &&& c.clear@ == seq![ControlKey::Char('c')]
    &&& c.delete@ == seq![ControlKey::KeyCode(KEY_DC)]
    &&& c.next@ == seq![ControlKey::Char('>')]
    &&& c.play_pause@ == seq![ControlKey::Char('p')]
    &&& c.press_enter@ == seq![ControlKey::Char('\n')]
    &&& c.previous@ == seq![ControlKey::Char('<')]
    &&& c.quit@ == seq![ControlKey::Char('q')]
    &&& c.scroll_down@ == seq![ControlKey::KeyCode(KEY_DOWN)]
    &&& c.scroll_up@ == seq![ControlKey::KeyCode(KEY_UP)]
    &&& c.move_home@ == seq![ControlKey::KeyCode(KEY_HOME)]
    &&& c.move_end@ == seq![ControlKey::KeyCode(KEY_END)]
    &&& c.show_help@ == seq![ControlKey::KeyCode((KEY_F0 + 1) as i32)]
    &&& c.show_playlist@ == seq![ControlKey::Char('1')]
    &&& c.show_server_info@ == seq![ControlKey::Char('@')]
    &&& c.stop@ == seq![ControlKey::Char('s')]
    &&& c.toggle_bitrate_visibility@ == seq![ControlKey::Char('#')]
    &&& c.toggle_random@ == seq![ControlKey::Char('z')]
    &&& c.toggle_repeat@ == seq![ControlKey::Char('r')]
    &&& c.volume_down@ == seq![ControlKey::KeyCode(KEY_LEFT)]
    &&& c.volume_up@ == seq![ControlKey::KeyCode(KEY_RIGHT)]
    &&& c.custom@ == Seq::<(i32, Vec<String>)>::empty()
    &&& c.custom.wf()
}

fn one_key(k: ControlKey) -> (r: ControlKeys)
    ensures
        r@ == seq![k],
{
    let mut v: Vec<ControlKey> = Vec::new();
    v.push(k);
    proof {
        assert(v@ =~= seq![k]);
    }
    v
}

impl KeyConfig {
    /// The default bindings.
    pub fn new() -> (r: KeyConfig)
        ensures
            is_default_key_config(r),
    {
        KeyConfig {
            execute_command: one_key(ControlKey::Char(':')),
            clear: one_key(ControlKey::Char('c')),
            delete: one_key(ControlKey::KeyCode(KEY_DC)),
            next: one_key(ControlKey::Char('>')),
            play_pause: one_key(ControlKey::Char('p')),
            press_enter: one_key(ControlKey::Char('\n')),
            previous: one_key(ControlKey::Char('<')),
            quit: one_key(ControlKey::Char('q')),
            scroll_down: one_key(ControlKey::KeyCode(KEY_DOWN)),
            scroll_up: one_key(ControlKey::KeyCode(KEY_UP)),
            move_home: one_key(ControlKey::KeyCode(KEY_HOME)),
            move_end: one_key(ControlKey::KeyCode(KEY_END)),
            show_help: one_key(ControlKey::KeyCode(KEY_F0 + 1)),
            show_playlist: one_key(ControlKey::Char('1')),
            show_server_info: one_key(ControlKey::Char('@')),
            stop: one_key(ControlKey::Char('s')),
            toggle_bitrate_visibility: one_key(ControlKey::Char('#')),
            toggle_random: one_key(ControlKey::Char('z')),
            toggle_repeat: one_key(ControlKey::Char('r')),
            volume_down: one_key(ControlKey::KeyCode(KEY_LEFT)),
            volume_up: one_key(ControlKey::KeyCode(KEY_RIGHT)),
            custom: KeyMap::new(),
        }
    }

    /// The key list bound to a named action.
    pub fn action_to_keys(&self, action: &str) -> (r: Option<&ControlKeys>)
        ensures
            match r {
                Some(v) => spec_keys_of(*self, action@) == Some(v@),
                None => spec_keys_of(*self, action@) is None,
            },
    {
        if str_eq(action, "execute_command") {
            Some(&self.execute_command)
        } else if str_eq(action, "clear") {
            Some(&self.clear)
        } else if str_eq(action, "delete") {
            Some(&self.delete)
        } else if str_eq(action, "next") {
            Some(&self.next)
        } else if str_eq(action, "play_pause") {
            Some(&self.play_pause)
        } else if str_eq(action, "press_enter") {
            Some(&self.press_enter)
        } else if str_eq(action, "previous") {
            Some(&self.previous)
        } else if str_eq(action, "quit") {
            Some(&self.quit)
        } else if str_eq(action, "scroll_down") {
            Some(&self.scroll_down)
        } else if str_eq(action, "scroll_up") {
            Some(&self.scroll_up)
        } else if str_eq(action, "move_home") {
            Some(&self.move_home)
        } else if str_eq(action, "move_end") {
            Some(&self.move_end)
        } else if str_eq(action, "show_help") {
            Some(&self.show_help)
        } else if str_eq(action, "show_playlist") {
            Some(&self.show_playlist)
        } else if str_eq(action, "show_server_info") {
            Some(&self.show_server_info)
        } else if str_eq(action, "stop") {
            Some(&self.stop)
        } else if str_eq(action, "toggle_bitrate_visibility") {
            Some(&self.toggle_bitrate_visibility)
        } else if str_eq(action, "toggle_random") {
            Some(&self.toggle_random)
        } else if str_eq(action, "toggle_repeat") {
            Some(&self.toggle_repeat)
        } else if str_eq(action, "volume_down") {
            Some(&self.volume_down)
        } else if str_eq(action, "volume_up") {
            Some(&self.volume_up)
        } else {
            None
        }
    }

    /// Adds a key to a named action, unless the key is already bound to it.
    /// Returns whether the key was added; an unknown action name changes
    /// nothing.
    pub fn assign(&mut self, action: &str, key: ControlKey) -> (r: bool)
        ensures
            r == (spec_keys_of(*old(self), action@) is Some && !spec_keys_of(
                *old(self),
                action@,
            )->Some_0.contains(key)),
            forall|a: Seq<char>|
                #[trigger] spec_keys_of(*final(self), a) == if r && a == action@ {
                    Some(spec_keys_of(*old(self), action@)->Some_0.push(key))
                } else {
                    spec_keys_of(*old(self), a)
                },
            final(self).custom == old(self).custom,
    {
        if str_eq(action, "execute_command") {
            push_if_absent(&mut self.execute_command, key)
        } else if str_eq(action, "clear") {
            push_if_absent(&mut self.clear, key)
        } else if str_eq(action, "delete") {
            push_if_absent(&mut self.delete, key)
        } else if str_eq(action, "next") {
            push_if_absent(&mut self.next, key)
        } else if str_eq(action, "play_pause") {
            push_if_absent(&mut self.play_pause, key)
        } else if str_eq(action, "press_enter") {
            push_if_absent(&mut self.press_enter, key)
        } else if str_eq(action, "previous") {
            push_if_absent(&mut self.previous, key)
        } else if str_eq(action, "quit") {
            push_if_absent(&mut self.quit, key)
        } else if str_eq(action, "scroll_down") {
            push_if_absent(&mut self.scroll_down, key)
        } else if str_eq(action, "scroll_up") {
            push_if_absent(&mut self.scroll_up, key)
        } else if str_eq(action, "move_home") {
            push_if_absent(&mut self.move_home, key)
        } else if str_eq(action, "move_end") {
            push_if_absent(&mut self.move_end, key)
        } else if str_eq(action, "show_help") {
            push_if_absent(&mut self.show_help, key)
        } else if str_eq(action, "show_playlist") {
            push_if_absent(&mut self.show_playlist, key)
        } else if str_eq(action, "show_server_info") {
            push_if_absent(&mut self.show_server_info, key)
        } else if str_eq(action, "stop") {
            push_if_absent(&mut self.stop, key)
        } else if str_eq(action, "toggle_bitrate_visibility") {
            push_if_absent(&mut self.toggle_bitrate_visibility, key)
        } else if str_eq(action, "toggle_random") {
            push_if_absent(&mut self.toggle_random, key)
        } else if str_eq(action, "toggle_repeat") {
            push_if_absent(&mut self.toggle_repeat, key)
        } else if str_eq(action, "volume_down") {
            push_if_absent(&mut self.volume_down, key)
        } else if str_eq(action, "volume_up") {
            push_if_absent(&mut self.volume_up, key)
        } else {
            false
        }
    }
}

fn push_if_absent(keys: &mut Vec<ControlKey>, key: ControlKey) -> (r: bool)
    ensures
        r == !old(keys)@.contains(key),
        r ==> final(keys)@ == old(keys)@.push(key),
        !r ==> final(keys)@ == old(keys)@,
{
    let n = keys.len();
    let mut i: usize = 0;
    while i < n
        invariant
            0 <= i <= n,
            n == keys@.len(),
            keys == old(keys),
            forall|j: int| 0 <= j < i ==> keys@[j] != key,
        decreases n - i,
    {
        if keys[i] == key {
            return false;
        }
        i = i + 1;
    }
    proof {
        assert(!keys@.contains(key));
    }
    keys.push(key);
    true
}

/// Colors configuration.
#[derive(Clone, Copy, PartialEq, Eq, Structural, Debug)]
pub struct ColorConfig {
    pub color1: Color,
    pub color2: Color,
    pub header_window: Color,
    pub main_window: Color,
    pub main_window_highlight: Color,
    pub progressbar: Color,
    pub progressbar_elapsed: Color,
    pub state_flags: Color,
    pub state_line: Color,
    pub statusbar: Color,
    pub volume: Color,
    pub window_border: Color,
}

pub open spec fn is_default_color_config(c: ColorConfig) -> bool {
    c == (ColorConfig {
        color1: 0 as Color,
        color2: 0 as Color,
        header_window: 0 as Color,
        main_window: 0 as Color,
        main_window_highlight: 0 as Color,
        progressbar: 0 as Color,
        progressbar_elapsed: 0 as Color,
        state_flags: 0 as Color,
        state_line: 0 as Color,
        statusbar: 0 as Color,
        volume: 0 as Color,
        window_border: 0 as Color,
    })
}

impl ColorConfig {
    /// The default colors: every region on the default color handle 0.
    pub fn new() -> (r: ColorConfig)
        ensures
            is_default_color_config(r),
    {
        ColorConfig {
            color1: 0,
            color2: 0,
            header_window: 0,
            main_window: 0,
            main_window_highlight: 0,
            progressbar: 0,
            progressbar_elapsed: 0,
            state_flags: 0,
            state_line: 0,
            statusbar: 0,
            volume: 0,
            window_border: 0,
        }
    }
}

/// The default playlist columns: artist, full track number, title, album,
/// and length.
pub open spec fn default_columns() -> Seq<Column> {
    seq![
        Column {
            column_type: SongProperty::Artist,
            width: 20,
            is_fixed: false,
            color: -1 as Color,
        },
        Column { column_type: SongProperty::TrackFull, width: 6, is_fixed: true, color: 2 as Color },
        Column { column_type: SongProperty::Title, width: 50, is_fixed: false, color: 7 as Color },
        Column { column_type: SongProperty::Album, width: 20, is_fixed: false, color: 6 as Color },
        Column { column_type: SongProperty::Length, width: 7, is_fixed: true, color: 5 as Color },
    ]
}

/// The default playlist column layout.
pub fn default_song_columns_list_format() -> (r: Vec<Column>)
    ensures
        r@ == default_columns(),
{
    let mut v: Vec<Column> = Vec::new();
    v.push(Column { column_type: SongProperty::Artist, width: 20, is_fixed: false, color: -1 });
    v.push(Column { column_type: SongProperty::TrackFull, width: 6, is_fixed: true, color: 2 });
    v.push(Column { column_type: SongProperty::Title, width: 50, is_fixed: false, color: 7 });
    v.push(Column { column_type: SongProperty::Album, width: 20, is_fixed: false, color: 6 });
    v.push(Column { column_type: SongProperty::Length, width: 7, is_fixed: true, color: 5 });
    proof {
        assert(v@ =~= default_columns());
    }
    v
}

/// Parameters configuration.
#[derive(Clone, PartialEq, Debug)]
pub struct ParamConfig {
    pub cyclic_scrolling: bool,
    pub display_bitrate: bool,
    pub display_remaining_time: bool,
    pub display_volume_level: bool,
    pub header_text_scrolling: bool,
    pub mpd_host: String,
    pub mpd_port: u16,
    pub progressbar_look: String,
    pub song_columns_list_format: Vec<Column>,
    pub volume_change_step: i8,
}

/// The mathematical content of a parameters configuration.
pub ghost struct ParamView {
    pub cyclic_scrolling: bool,
    pub display_bitrate: bool,
    pub display_remaining_time: bool,
    pub display_volume_level: bool,
    pub header_text_scrolling: bool,
    pub mpd_host: Seq<char>,
    pub mpd_port: u16,
    pub progressbar_look: Seq<char>,
    pub song_columns_list_format: Seq<Column>,
    pub volume_change_step: i8,
}

pub open spec fn param_view(p: ParamConfig) -> ParamView {
    ParamView {
        cyclic_scrolling: p.cyclic_scrolling,
        display_bitrate: p.display_bitrate,
        display_remaining_time: p.display_remaining_time,
        display_volume_level: p.display_volume_level,
        header_text_scrolling: p.header_text_scrolling,
        mpd_host: p.mpd_host@,
        mpd_port: p.mpd_port,
        progressbar_look: p.progressbar_look@,
        song_columns_list_format: p.song_columns_list_format@,
        volume_change_step: p.volume_change_step,
    }
}

pub open spec fn is_default_param_config(p: ParamView) -> bool {
    p == (ParamView {
        cyclic_scrolling: false,
        display_bitrate: false,
        display_remaining_time: false,
        display_volume_level: true,
        header_text_scrolling: true,
        mpd_host: "localhost"@,
        mpd_port: 6600 as u16,
        progressbar_look: "=>"@,
        song_columns_list_format: default_columns(),
        volume_change_step: 2 as i8,
    })
}

impl ParamConfig {
    /// The default parameters.
    pub fn new() -> (r: ParamConfig)
        ensures
            is_default_param_config(param_view(r)),
    {
        ParamConfig {
            cyclic_scrolling: false,
            display_bitrate: false,
            display_remaining_time: false,
            display_volume_level: true,
            header_text_scrolling: true,
            mpd_host: String::from_str("localhost"),
            mpd_port: 6600,
            progressbar_look: String::from_str("=>"),
            song_columns_list_format: default_song_columns_list_format(),
            volume_change_step: 2,
        }
    }
}

/// Whole configuration: colors, key bindings, and parameters.
#[derive(Clone)]
pub struct Config {
    pub colors: ColorConfig,
    pub keys: KeyConfig,
    pub params: ParamConfig,
}

impl Config {
    /// The default configuration.
    pub fn new() -> (r: Config)
        ensures
            is_default_color_config(r.colors),
            is_default_key_config(r.keys),
            is_default_param_config(param_view(r.params)),
    {
        Config { colors: ColorConfig::new(), keys: KeyConfig::new(), params: ParamConfig::new() }
    }
}

/// Whether a setting value means true.
pub fn parse_bool(s: &str) -> (r: bool)
    ensures
        r == (s@ == "yes"@),
{
    str_eq(s, "yes")
}

/// The signed 64-bit integer written in a piece of text: an optional sign,
/// and at least one digit; values beyond the signed 64-bit range are
/// unparsable.
pub open spec fn parse_int_spec(s: Seq<char>) -> Option<int> {
    let neg = s.len() >= 1 && s[0] == '-';
    let d = if s.len() >= 1 && (s[0] == '-' || s[0] == '+') {
        s.skip(1)
    } else {
        s
    };
    if d.len() > 0 && all_digits(d) && dec_value(d) <= 0x7fff_ffff_ffff_ffff {
        Some(
            if neg {
                -dec_value(d)
            } else {
                dec_value(d)
            },
        )
    } else {
        None
    }
}

/// Parses a decimal integer, with an optional leading sign.
pub fn parse_int(s: &str) -> (r: Option<i64>)
    ensures
        match r {
            Some(v) => parse_int_spec(s@) == Some(v as int),
            None => parse_int_spec(s@) is None,
        },
{
    let len = s.unicode_len();
    let mut neg = false;
    let mut start: usize = 0;
    if len >= 1 {
        let c0 = s.get_char(0);
        if c0 == '-' {
            neg = true;
            start = 1;
        } else if c0 == '+' {
            start = 1;
        }
    }
    let ghost d = if start == 1 {
        s@.skip(1)
    } else {
        s@
    };
    if start >= len {
        return None;
    }
    let mut value: i128 = 0;
    let mut i: usize = start;
    while i < len
        invariant
            start <= i <= len,
            start <= 1,
            len == s@.len(),
            d == if start == 1 {
                s@.skip(1)
            } else {
                s@
            },
            (start == 1) <==> (s@.len() >= 1 && (s@[0] == '-' || s@[0] == '+')),
            neg == (s@.len() >= 1 && s@[0] == '-'),
            all_digits(s@.subrange(start as int, i as int)),
            value == dec_value(s@.subrange(start as int, i as int)),
            0 <= value <= 0x7fff_ffff_ffff_ffff,
        decreases len - i,
    {
        let c = s.get_char(i);
        let u = c as u32;
        if !(48 <= u && u <= 57) {
            proof {
                assert(d[i - start] == s@[i as int]);
                assert(!all_digits(d));
            }
            return None;
        }
        let dv = (u - 48) as i128;
        let next = value * 10 + dv;
        proof {
            let p = s@.subrange(start as int, i + 1);
            assert(p.drop_last() =~= s@.subrange(start as int, i as int));
            assert(p.last() == s@[i as int]);
        }
        if next > 0x7fff_ffff_ffff_ffff {
            proof {
                if all_digits(d) {
                    assert(s@.subrange(start as int, i + 1) =~= d.take(i + 1 - start));
                    crate::keys::lemma_dec_value_prefix(d, i + 1 - start);
                }
            }
            return None;
        }
        value = next;
        i = i + 1;
    }
    proof {
        assert(s@.subrange(start as int, len as int) =~= d);
    }
    if neg {
        Some(-(value as i64))
    } else {
        Some(value as i64)
    }
}

/// The first position in `s` at or after `pos` that is not a quote.
pub open spec fn quote_start(s: Seq<char>, pos: int) -> int
    decreases s.len() - pos,
{
    if pos < s.len() && s[pos] == '"' {
        quote_start(s, pos + 1)
    } else {
        pos
    }
}

/// The position after the last character before `pos` that is not a quote.
pub open spec fn quote_end(s: Seq<char>, pos: int) -> int
    decreases pos,
{
    if pos > 0 && pos <= s.len() && s[pos - 1] == '"' {
        quote_end(s, pos - 1)
    } else {
        pos
    }
}

/// A piece of text with every leading and trailing quote removed.
pub open spec fn trim_quotes_spec(s: Seq<char>) -> Seq<char> {
    let l = quote_start(s, 0);
    let r = quote_end(s, s.len() as int);
    if l < r {
        s.subrange(l, r)
    } else {
        Seq::empty()
    }
}

/// Removes the quotes around a setting value.
pub fn trim_quotes(s: &str) -> (r: &str)
    ensures
        r@ == trim_quotes_spec(s@),
{
    let len = s.unicode_len();
    let mut l: usize = 0;
    while l < len && s.get_char(l) == '"'
        invariant
            0 <= l <= len,
            len == s@.len(),
            quote_start(s@, 0) == quote_start(s@, l as int),
        decreases len - l,
    {
        l = l + 1;
    }
    let mut r: usize = len;
    while r > 0 && s.get_char(r - 1) == '"'
        invariant
            0 <= r <= len,
            len == s@.len(),
            quote_end(s@, len as int) == quote_end(s@, r as int),
        decreases r,
    {
        r = r - 1;
    }
    if l < r {
        s.substring_char(l, r)
    } else {
        let e = s.substring_char(0, 0);
        proof {
            assert(e@ =~= Seq::<char>::empty());
        }
        e
    }
}

/// Whether a settings key names anything the configuration knows.
pub open spec fn settings_key_recognized(key: Seq<char>) -> bool {
    ||| key == "color1"@
    ||| key == "color2"@
    ||| key == "header_window_color"@
    ||| key == "progressbar_color"@
    ||| key == "progressbar_elapsed_color"@
    ||| key == "main_window_color"@
    ||| key == "main_window_highlight_color"@
    ||| key == "state_flags_color"@
    ||| key == "state_line_color"@
    ||| key == "statusbar_color"@
    ||| key == "volume_color"@
    ||| key == "window_border_color"@
    ||| key == "cyclic_scrolling"@
    ||| key == "display_bitrate"@
    ||| key == "display_remaining_time"@
    ||| key == "display_volume_level"@
    ||| key == "header_text_scrolling"@
    ||| key == "mpd_host"@
    ||| key == "mpd_port"@
    ||| key == "progressbar_look"@
    ||| key == "volume_change_step"@
    ||| key == "song_columns_list_format"@
}

/// The colors after one `key = value` setting is applied.
pub open spec fn expected_colors(c: ColorConfig, key: Seq<char>, val: Seq<char>) -> ColorConfig {
    let v = color_of(val) as Color;
    if key == "color1"@ {
        ColorConfig { color1: v, ..c }
    } else if key == "color2"@ {
        ColorConfig { color2: v, ..c }
    } else if key == "header_window_color"@ {
        ColorConfig { header_window: v, ..c }
    } else if key == "progressbar_color"@ {
        ColorConfig { progressbar: v, ..c }
    } else if key == "progressbar_elapsed_color"@ {
        ColorConfig { progressbar_elapsed: v, ..c }
    } else if key == "main_window_color"@ {
        ColorConfig { main_window: v, ..c }
    } else if key == "main_window_highlight_color"@ {
        ColorConfig { main_window_highlight: v, ..c }
    } else if key == "state_flags_color"@ {
        ColorConfig { state_flags: v, ..c }
    } else if key == "state_line_color"@ {
        ColorConfig { state_line: v, ..c }
    } else if key == "statusbar_color"@ {
        ColorConfig { statusbar: v, ..c }
    } else if key == "volume_color"@ {
        ColorConfig { volume: v, ..c }
    } else if key == "window_border_color"@ {
        ColorConfig { window_border: v, ..c }
    } else {
        c
    }
}

/// The parameters after one `key = value` setting is applied: booleans read
/// `yes`, the port and the volume step take in-range integers (anything else
/// leaves them unchanged), and a column format that does not compile leaves
/// an empty column list.
pub open spec fn expected_params(p: ParamView, key: Seq<char>, val: Seq<char>) -> ParamView {
    if key == "cyclic_scrolling"@ {
        ParamView { cyclic_scrolling: val == "yes"@, ..p }
    } else if key == "display_bitrate"@ {
        ParamView { display_bitrate: val == "yes"@, ..p }
    } else if key == "display_remaining_time"@ {
        ParamView { display_remaining_time: val == "yes"@, ..p }
    } else if key == "display_volume_level"@ {
        ParamView { display_volume_level: val == "yes"@, ..p }
    } else if key == "header_text_scrolling"@ {
        ParamView { header_text_scrolling: val == "yes"@, ..p }
    } else if key == "mpd_host"@ {
        ParamView { mpd_host: val, ..p }
    } else if key == "mpd_port"@ {
        match parse_int_spec(val) {
            Some(v) => if 0 <= v <= 65535 {
                ParamView { mpd_port: v as u16, ..p }
            } else {
                p
            },
            None => p,
        }
    } else if key == "progressbar_look"@ {
        ParamView { progressbar_look: val, ..p }
    } else if key == "volume_change_step"@ {
        match parse_int_spec(val) {
            Some(v) => if -128 <= v <= 127 {
                ParamView { volume_change_step: v as i8, ..p }
            } else {
                p
            },
            None => p,
        }
    } else if key == "song_columns_list_format"@ {
        match columns_of(val) {
            Some(cols) => ParamView { song_columns_list_format: cols, ..p },
            None => ParamView { song_columns_list_format: Seq::empty(), ..p },
        }
    } else {
        p
    }
}

/// Applies one `key = value` setting to the configuration. Returns whether
/// the key was recognized; the key bindings are never touched.
pub fn assign(key: &str, val: &str, config: &mut Config) -> (r: bool)
    ensures
        r == settings_key_recognized(key@),
        final(config).colors == expected_colors(old(config).colors, key@, val@),
        param_view(final(config).params) == expected_params(param_view(old(config).params), key@, val@),
        final(config).keys == old(config).keys,
{
    proof {
        reveal_strlit("color1");
        reveal_strlit("color2");
        reveal_strlit("header_window_color");
        reveal_strlit("progressbar_color");
        reveal_strlit("progressbar_elapsed_color");
        reveal_strlit("main_window_color");
        reveal_strlit("main_window_highlight_color");
        reveal_strlit("state_flags_color");
        reveal_strlit("state_line_color");
        reveal_strlit("statusbar_color");
        reveal_strlit("volume_color");
        reveal_strlit("window_border_color");
        reveal_strlit("cyclic_scrolling");
        reveal_strlit("display_bitrate");
        reveal_strlit("display_remaining_time");
        reveal_strlit("display_volume_level");
        reveal_strlit("header_text_scrolling");
        reveal_strlit("mpd_host");
        reveal_strlit("mpd_port");
        reveal_strlit("progressbar_look");
        reveal_strlit("volume_change_step");
        reveal_strlit("song_columns_list_format");
        assert("color1"@.len() == 6);
        assert("color2"@.len() == 6);
        assert("header_window_color"@.len() == 19);
        assert("progressbar_color"@.len() == 17);
        assert("progressbar_elapsed_color"@.len() == 25);
        assert("main_window_color"@.len() == 17);
        assert("main_window_highlight_color"@.len() == 27);
        assert("state_flags_color"@.len() == 17);
        assert("state_line_color"@.len() == 16);
        assert("statusbar_color"@.len() == 15);
        assert("volume_color"@.len() == 12);
        assert("window_border_color"@.len() == 19);
        assert("cyclic_scrolling"@.len() == 16);
        assert("display_bitrate"@.len() == 15);
        assert("display_remaining_time"@.len() == 22);
        assert("display_volume_level"@.len() == 20);
        assert("header_text_scrolling"@.len() == 21);
        assert("mpd_host"@.len() == 8);
        assert("mpd_port"@.len() == 8);
        assert("progressbar_look"@.len() == 16);
        assert("volume_change_step"@.len() == 18);
        assert("song_columns_list_format"@.len() == 24);
        assert("color1"@[5] == '1');
        assert("color2"@[5] == '2');
        assert("header_window_color"@[0] == 'h');
        assert("window_border_color"@[0] == 'w');
        assert("progressbar_color"@[0] == 'p');
        assert("main_window_color"@[0] == 'm');
        assert("state_flags_color"@[0] == 's');
        assert("state_line_color"@[0] == 's');
        assert("cyclic_scrolling"@[0] == 'c');
        assert("progressbar_look"@[0] == 'p');
        assert("statusbar_color"@[0] == 's');
        assert("display_bitrate"@[0] == 'd');
        assert("mpd_host"@[4] == 'h');
        assert("mpd_port"@[4] == 'p');
    }
    if str_eq(key, "color1") {
        config.colors.color1 = get_color(val);
        true
    } else if str_eq(key, "color2") {
        config.colors.color2 = get_color(val);
        true
    } else if str_eq(key, "header_window_color") {
        config.colors.header_window = get_color(val);
        true
    } else if str_eq(key, "progressbar_color") {
        config.colors.progressbar = get_color(val);
        true
    } else if str_eq(key, "progressbar_elapsed_color") {
        config.colors.progressbar_elapsed = get_color(val);
        true
    } else if str_eq(key, "main_window_color") {
        config.colors.main_window = get_color(val);
        true
    } else if str_eq(key, "main_window_highlight_color") {
        config.colors.main_window_highlight = get_color(val);
        true
    } else if str_eq(key, "state_flags_color") {
        config.colors.state_flags = get_color(val);
        true
    } else if str_eq(key, "state_line_color") {
        config.colors.state_line = get_color(val);
        true
    } else if str_eq(key, "statusbar_color") {
        config.colors.statusbar = get_color(val);
        true
    } else if str_eq(key, "volume_color") {
        config.colors.volume = get_color(val);
        true
    } else if str_eq(key, "window_border_color") {
        config.colors.window_border = get_color(val);
        true
    } else if str_eq(key, "cyclic_scrolling") {
        config.params.cyclic_scrolling = parse_bool(val);
        true
    } else if str_eq(key, "display_bitrate") {
        config.params.display_bitrate = parse_bool(val);
        true
    } else if str_eq(key, "display_remaining_time") {
        config.params.display_remaining_time = parse_bool(val);
        true
    } else if str_eq(key, "display_volume_level") {
        config.params.display_volume_level = parse_bool(val);
        true
    } else if str_eq(key, "header_text_scrolling") {
        config.params.header_text_scrolling = parse_bool(val);
        true
    } else if str_eq(key, "mpd_host") {
        config.params.mpd_host = String::from_str(val);
        true
    } else if str_eq(key, "mpd_port") {
        match parse_int(val) {
            Some(v) => {
                if 0 <= v && v <= 65535 {
                    config.params.mpd_port = v as u16;
                }
            },
            None => {},
        }
        true
    } else if str_eq(key, "progressbar_look") {
        config.params.progressbar_look = String::from_str(val);
        true
    } else if str_eq(key, "volume_change_step") {
        match parse_int(val) {
            Some(v) => {
                if -128 <= v && v <= 127 {
                    config.params.volume_change_step = v as i8;
                }
            },
            None => {},
        }
        true
    } else if str_eq(key, "song_columns_list_format") {
        match generate_columns(val) {
            Ok(cols) => {
                config.params.song_columns_list_format = cols;
            },
            Err(_) => {
                config.params.song_columns_list_format = Vec::new();
            },
        }
        true
    } else {
        false
    }
}

/// The view of a list of raw `key = value` pairs.
pub open spec fn pairs_view(v: Seq<(String, String)>) -> Seq<(Seq<char>, Seq<char>)> {
    Seq::new(v.len(), |i: int| (v[i].0@, v[i].1@))
}

/// The colors and parameters after a list of settings is applied in order,
/// each value stripped of its quotes first.
pub open spec fn settings_fold(
    colors: ColorConfig,
    params: ParamView,
    pairs: Seq<(Seq<char>, Seq<char>)>,
) -> (ColorConfig, ParamView)
    decreases pairs.len(),
{
    if pairs.len() == 0 {
        (colors, params)
    } else {
        let k = pairs[0].0;
        let v = trim_quotes_spec(pairs[0].1);
        settings_fold(expected_colors(colors, k, v), expected_params(params, k, v), pairs.drop_first())
    }
}

/// Applies a whole list of `key = value` settings to the configuration, in
/// order, stripping the quotes around each value; unknown keys are ignored
/// and the key bindings are never touched.
pub fn apply_settings(config: &mut Config, pairs: &Vec<(String, String)>)
    ensures
        ({
            let folded = settings_fold(
                old(config).colors,
                param_view(old(config).params),
                pairs_view(pairs@),
            );
            final(config).colors == folded.0 && param_view(final(config).params) == folded.1
        }),
        final(config).keys == old(config).keys,
{
    let n = pairs.len();
    proof {
        assert(pairs_view(pairs@).skip(0) =~= pairs_view(pairs@));
    }
    let mut i: usize = 0;
    while i < n
        invariant
            0 <= i <= n,
            n == pairs@.len(),
            settings_fold(
                old(config).colors,
                param_view(old(config).params),
                pairs_view(pairs@),
            ) == settings_fold(
                config.colors,
                param_view(config.params),
                pairs_view(pairs@).skip(i as int),
            ),
            config.keys == old(config).keys,
        decreases n - i,
    {
        let ghost before = pairs_view(pairs@).skip(i as int);
        let p = &pairs[i];
        let val = trim_quotes(p.1.as_str());
        assign(p.0.as_str(), val, config);
        proof {
            assert(before[0] == (pairs@[i as int].0@, pairs@[i as int].1@));
            assert(before.drop_first() =~= pairs_view(pairs@).skip(i + 1));
        }
        i = i + 1;
    }
    proof {
        assert(pairs_view(pairs@).skip(n as int) =~= Seq::<(Seq<char>, Seq<char>)>::empty());
    }
}

} // verus!
