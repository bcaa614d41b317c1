//! Key-code codec: the bidirectional mapping between symbolic key names
//! ("ctrl_a", "f5", "up") and the numeric key codes used by the dispatch
//! table, together with the reserved code constants it relies on.

use vstd::prelude::*;

use crate::text::{
    digit_char,
    char_code, char_from_u32, dec_str, is_unicode_scalar, push_char, str_eq, str_prefix,
    spec_has_prefix, u64_to_string,
};

verus! {

// Control-sequence codes shared with every terminal.
pub const KEY_TAB: i32 = 9;
pub const KEY_ESCAPE: i32 = 27;
pub const KEY_CTRL_LEFTBRACKET: i32 = 27;
pub const KEY_CTRL_BACKSLASH: i32 = 28;
pub const KEY_CTRL_RIGHTBRACKET: i32 = 29;
pub const KEY_CTRL_CARET: i32 = 30;
pub const KEY_CTRL_UNDERSCORE: i32 = 31;
pub const KEY_BACKSPACE: i32 = 127;

// Reserved key codes, matching the classic curses values.
pub const KEY_DOWN: i32 = 258;
pub const KEY_UP: i32 = 259;
pub const KEY_LEFT: i32 = 260;
pub const KEY_RIGHT: i32 = 261;
pub const KEY_HOME: i32 = 262;
pub const KEY_F0: i32 = 264;
pub const KEY_F15: i32 = 279;
pub const KEY_DC: i32 = 330;
pub const KEY_IC: i32 = 331;
pub const KEY_NPAGE: i32 = 338;
pub const KEY_PPAGE: i32 = 339;
pub const KEY_END: i32 = 360;
pub const KEY_MOUSE: i32 = 409;
pub const KEY_RESIZE: i32 = 410;

/// The largest function-key number that still yields a valid key code.
pub const FKEY_NUMBER_MAX: i32 = 2147483647 - KEY_F0;

/// One parsed key identifier: either a literal character or a numeric code.
#[derive(Clone, Copy, PartialEq, Eq, Structural, Debug)]
pub enum ControlKey {
    KeyCode(i32),
    Char(char),
}

/// Anything that can be read as a numeric key code.
pub trait ToKeyCode {
    spec fn spec_keycode(&self) -> int;

    fn keycode(&self) -> (c: i32)
        ensures
            c as int == self.spec_keycode(),
    ;
}

impl ToKeyCode for i32 {
    open spec fn spec_keycode(&self) -> int {
        *self as int
    }

    fn keycode(&self) -> (c: i32)
        ensures
            c as int == self.spec_keycode(),
    {
        *self
    }
}

impl ToKeyCode for char {
    open spec fn spec_keycode(&self) -> int {
        *self as int
    }

    fn keycode(&self) -> (c: i32)
        ensures
            c as int == self.spec_keycode(),
    {
        char_code(*self)
    }
}

impl ToKeyCode for ControlKey {
    open spec fn spec_keycode(&self) -> int {
        match *self {
            ControlKey::KeyCode(c) => c as int,
            ControlKey::Char(c) => c as int,
        }
    }

    fn keycode(&self) -> (c: i32)
        ensures
            c as int == self.spec_keycode(),
    {
        match *self {
            ControlKey::KeyCode(c) => c,
            ControlKey::Char(c) => char_code(c),
        }
    }
}

/// The code of a control-qualified character: letters map onto the classic
/// terminal codes 1 to 26, five punctuation characters onto reserved codes,
/// and any other qualifier is taken verbatim.
pub open spec fn ctrl_code(c: char) -> int {
    let v = c as int;
    if 'a' as int <= v && v <= 'z' as int {
        1 + v - 'a' as int
    } else if c == '[' {
        KEY_CTRL_LEFTBRACKET as int
    } else if c == '\\' {
        KEY_CTRL_BACKSLASH as int
    } else if c == ']' {
        KEY_CTRL_RIGHTBRACKET as int
    } else if c == '^' {
        KEY_CTRL_CARET as int
    } else if c == '_' {
        KEY_CTRL_UNDERSCORE as int
    } else {
        v
    }
}

pub open spec fn is_digit_char(c: char) -> bool {
    '0' as int <= c as int && c as int <= '9' as int
}

pub open spec fn all_digits(s: Seq<char>) -> bool {
    forall|i: int| 0 <= i < s.len() ==> is_digit_char(#[trigger] s[i])
}

/// The numeric value of a digit sequence, most significant digit first.
pub open spec fn dec_value(s: Seq<char>) -> int
    decreases s.len(),
{
    if s.len() == 0 {
        0
    } else {
        dec_value(s.drop_last()) * 10 + (s.last() as int - '0' as int)
    }
}

/// The number encoded after the leading `f` of a function-key token:
/// the decimal value when the suffix is a parsable in-range number,
/// and 0 otherwise.
pub open spec fn fkey_number(s: Seq<char>) -> int {
    if s.len() > 0 && all_digits(s) && dec_value(s) <= FKEY_NUMBER_MAX as int {
        dec_value(s)
    } else {
        0
    }
}

/// The reserved code of a named key, if the name is in the fixed vocabulary.
pub open spec fn named_keycode(s: Seq<char>) -> Option<int> {
    if s == "escape"@ {
        Some(KEY_ESCAPE as int)
    } else if s == "up"@ {
        Some(KEY_UP as int)
    } else if s == "down"@ {
        Some(KEY_DOWN as int)
    } else if s == "left"@ {
        Some(KEY_LEFT as int)
    } else if s == "right"@ {
        Some(KEY_RIGHT as int)
    } else if s == "page_up"@ {
        Some(KEY_PPAGE as int)
    } else if s == "page_down"@ {
        Some(KEY_NPAGE as int)
    } else if s == "home"@ {
        Some(KEY_HOME as int)
    } else if s == "end"@ {
        Some(KEY_END as int)
    } else if s == "space"@ {
        Some(' ' as int)
    } else if s == "insert"@ {
        Some(KEY_IC as int)
    } else if s == "delete"@ {
        Some(KEY_DC as int)
    } else if s == "tab"@ {
        Some(KEY_TAB as int)
    } else if s == "backspace"@ {
        Some(KEY_BACKSPACE as int)
    } else {
        None
    }
}

/// The key code encoded by a symbolic key name, applying the encoding rules
/// in priority order: a single character stands for its own ordinal; a
/// six-character `ctrl_X` or `ctrl-X` token for the control code of `X`;
/// a `shift_`-prefixed token for the "up" code (a placeholder kept so that
/// existing binding files stay valid); `f` followed by digits for a
/// function key; and the
/// fixed vocabulary of named keys for their reserved codes.
pub open spec fn keycode_of(s: Seq<char>) -> Option<int> {
    if s.len() == 1 {
        Some(s[0] as int)
    } else if s.len() == 6 && (spec_has_prefix(s, "ctrl_"@) || spec_has_prefix(s, "ctrl-"@)) {
        Some(ctrl_code(s[5]))
    } else if spec_has_prefix(s, "shift_"@) {
        Some(KEY_UP as int)
    } else if s.len() >= 1 && s[0] == 'f' {
        Some(KEY_F0 as int + fkey_number(s.skip(1)))
    } else {
        named_keycode(s)
    }
}

pub proof fn lemma_dec_value_nonneg(s: Seq<char>)
    requires
        all_digits(s),
    ensures
        dec_value(s) >= 0,
    decreases s.len(),
{
    if s.len() > 0 {
        assert(all_digits(s.drop_last())) by {
            assert(forall|i: int| 0 <= i < s.len() - 1 ==> s.drop_last()[i] == s[i]);
        }
        lemma_dec_value_nonneg(s.drop_last());
    }
}

pub proof fn lemma_dec_value_prefix(s: Seq<char>, k: int)
    requires
        all_digits(s),
        0 <= k <= s.len(),
    ensures
        dec_value(s.take(k)) <= dec_value(s),
    decreases s.len() - k,
{
    if k < s.len() {
        lemma_dec_value_prefix(s, k + 1);
        let t = s.take(k + 1);
        assert(t.drop_last() =~= s.take(k));
        assert(all_digits(s.take(k))) by {
            assert(forall|i: int| 0 <= i < k ==> s.take(k)[i] == s[i]);
        }
        lemma_dec_value_nonneg(s.take(k));
        assert(t.last() == s[k]);
        assert(dec_value(t) == dec_value(s.take(k)) * 10 + (s[k] as int - '0' as int));
    } else {
        assert(s.take(k) =~= s);
    }
}

/// Parses the digits that follow the leading character of a function-key
/// token; tokens whose suffix is not an in-range number yield 0.
fn parse_fkey_digits(key: &str) -> (r: i32)
    requires
        key@.len() >= 1,
    ensures
        r as int == fkey_number(key@.skip(1)),
        0 <= r <= FKEY_NUMBER_MAX,
{
    let n = key.unicode_len();
    let ghost t = key@.skip(1);
    let mut value: i64 = 0;
    let mut i: usize = 1;
    while i < n
        invariant
            1 <= i <= n,
            n == key@.len(),
            t == key@.skip(1),
            all_digits(key@.subrange(1, i as int)),
            value == dec_value(key@.subrange(1, i as int)),
            0 <= value <= FKEY_NUMBER_MAX as i64,
        decreases n - i,
    {
        let c = key.get_char(i);
        let u = c as u32;
        if !(48 <= u && u <= 57) {
            proof {
                assert(t[i - 1] == key@[i as int]);
                assert(!all_digits(t));
            }
            return 0;
        }
        let d = (u - 48) as i64;
        let next = value * 10 + d;
        proof {
            let p = key@.subrange(1, i + 1);
            assert(p.drop_last() =~= key@.subrange(1, i as int));
            assert(p.last() == key@[i as int]);
            assert(dec_value(p) == value * 10 + d);
        }
        if next > FKEY_NUMBER_MAX as i64 {
            proof {
                if all_digits(t) {
                    assert(key@.subrange(1, i + 1) =~= t.take(i as int));
                    lemma_dec_value_prefix(t, i as int);
                }
            }
            return 0;
        }
        value = next;
        i = i + 1;
    }
    proof {
        assert(key@.subrange(1, n as int) =~= t);
        if t.len() == 0 {
            assert(fkey_number(t) == 0);
        }
    }
    value as i32
}

/// Encodes a symbolic key name as a numeric key code; names outside the
/// vocabulary are rejected.
pub fn to_keycode(key: &str) -> (r: Option<i32>)
    ensures
        match r {
            Some(c) => keycode_of(key@) == Some(c as int),
            None => keycode_of(key@) is None,
        },
{
    let n = key.unicode_len();
    if n == 1 {
        let c = key.get_char(0);
        Some(char_code(c))
    } else if n == 6 && (str_prefix(key, "ctrl_") || str_prefix(key, "ctrl-")) {
        let c = key.get_char(5);
        let u = c as u32;
        if 97 <= u && u <= 122 {
            Some((1 + (u - 97)) as i32)
        } else if c == '[' {
            Some(KEY_CTRL_LEFTBRACKET)
        } else if c == '\\' {
            Some(KEY_CTRL_BACKSLASH)
        } else if c == ']' {
            Some(KEY_CTRL_RIGHTBRACKET)
        } else if c == '^' {
            Some(KEY_CTRL_CARET)
        } else if c == '_' {
            Some(KEY_CTRL_UNDERSCORE)
        } else {
            Some(char_code(c))
        }
    } else if str_prefix(key, "shift_") {
        Some(KEY_UP)
    } else if n >= 1 && key.get_char(0) == 'f' {
        let num = parse_fkey_digits(key);
        Some(KEY_F0 + num)
    } else if str_eq(key, "escape") {
        Some(KEY_ESCAPE)
    } else if str_eq(key, "up") {
        Some(KEY_UP)
    } else if str_eq(key, "down") {
        Some(KEY_DOWN)
    } else if str_eq(key, "left") {
        Some(KEY_LEFT)
    } else if str_eq(key, "right") {
        Some(KEY_RIGHT)
    } else if str_eq(key, "page_up") {
        Some(KEY_PPAGE)
    } else if str_eq(key, "page_down") {
        Some(KEY_NPAGE)
    } else if str_eq(key, "home") {
        Some(KEY_HOME)
    } else if str_eq(key, "end") {
        Some(KEY_END)
    } else if str_eq(key, "space") {
        Some(32)
    } else if str_eq(key, "insert") {
        Some(KEY_IC)
    } else if str_eq(key, "delete") {
        Some(KEY_DC)
    } else if str_eq(key, "tab") {
        Some(KEY_TAB)
    } else if str_eq(key, "backspace") {
        Some(KEY_BACKSPACE)
    } else {
        None
    }
}

/// Every decimal rendering is all digits and reads back as its number.
pub proof fn lemma_dec_str_value(n: nat)
    ensures
        all_digits(dec_str(n)),
        dec_value(dec_str(n)) == n,
    decreases n,
{
    if n < 10 {
        let s = seq![digit_char(n as int)];
        assert(digit_char(n as int) as int == '0' as int + n);
        assert(is_digit_char(s[0]));
        assert(s.drop_last() =~= Seq::<char>::empty());
        assert(dec_value(Seq::<char>::empty()) == 0);
        assert(dec_value(s) == n);
    } else {
        lemma_dec_str_value(n / 10);
        let s = dec_str(n);
        assert(s == dec_str(n / 10).push(digit_char((n % 10) as int)));
        assert(s.drop_last() =~= dec_str(n / 10));
        assert(digit_char((n % 10) as int) as int == '0' as int + (n % 10));
        assert(all_digits(s)) by {
            assert(forall|i: int|
                0 <= i < s.len() - 1 ==> #[trigger] s[i] == dec_str(n / 10)[i]);
            assert(is_digit_char(s[s.len() - 1]));
        }
        assert(dec_value(s) == dec_value(dec_str(n / 10)) * 10 + (n % 10));
    }
}

/// Law: every function key from f1 to f15 encodes to its reserved code and
/// decodes back to its display form, the letter `F` and its number.
pub proof fn lemma_fkey_roundtrip(n: int)
    requires
        1 <= n <= 15,
    ensures
        keycode_of(seq!['f'] + dec_str(n as nat)) == Some(KEY_F0 as int + n),
        display_of(KEY_F0 as int + n) == seq!['F'] + dec_str(n as nat),
{
    let s = seq!['f'] + dec_str(n as nat);
    lemma_dec_str_value(n as nat);
    assert(1 <= dec_str(n as nat).len() <= 2) by {
        if n >= 10 {
            assert(dec_str(n as nat) == dec_str(n as nat / 10).push(
                digit_char((n as nat % 10) as int),
            ));
        }
    }
    reveal_strlit("ctrl_");
    reveal_strlit("ctrl-");
    reveal_strlit("shift_");
    assert("ctrl_"@.len() == 5 && "ctrl-"@.len() == 5 && "shift_"@.len() == 6);
    assert(s[0] == 'f');
    assert(s.len() != 1);
    assert(!(s.len() == 6 && (spec_has_prefix(s, "ctrl_"@) || spec_has_prefix(s, "ctrl-"@))))
        by {
        if s.len() == 6 && spec_has_prefix(s, "ctrl_"@) {
            assert(s.subrange(0, 5)[0] == 'f');
        }
        if s.len() == 6 && spec_has_prefix(s, "ctrl-"@) {
            assert(s.subrange(0, 5)[0] == 'f');
        }
    }
    assert(!spec_has_prefix(s, "shift_"@)) by {
        if spec_has_prefix(s, "shift_"@) {
            assert(s.subrange(0, 6)[0] == 'f');
        }
    }
    assert(s.skip(1) =~= dec_str(n as nat));
    assert(fkey_number(s.skip(1)) == n);
    assert(display_of(KEY_F0 as int + n) == seq!['F'] + dec_str(n as nat));
}

/// The canonical display form of a named key: the capitalized name that the
/// decoder prints for its reserved code.
pub open spec fn canonical_display_form(name: Seq<char>) -> Seq<char> {
    if name == "up"@ {
        "Up"@
    } else if name == "down"@ {
        "Down"@
    } else if name == "left"@ {
        "Left"@
    } else if name == "right"@ {
        "Right"@
    } else if name == "home"@ {
        "Home"@
    } else if name == "end"@ {
        "End"@
    } else if name == "space"@ {
        "Space"@
    } else if name == "delete"@ {
        "Delete"@
    } else if name == "tab"@ {
        "Tab"@
    } else if name == "backspace"@ {
        "Backspace"@
    } else {
        Seq::empty()
    }
}

/// Law: for every named key whose display form is defined (up, down, left,
/// right, home, end, space, delete, tab, backspace), decoding the encoded
/// key code yields the canonical display form of the name. The other four
/// names of the fixed vocabulary (escape, page_up, page_down, insert) are
/// left out: their reserved codes decode to a raw character instead.
pub proof fn lemma_named_key_roundtrip(name: Seq<char>)
    requires
        name == "up"@ || name == "down"@ || name == "left"@ || name == "right"@ || name == "home"@
            || name == "end"@ || name == "space"@ || name == "delete"@ || name == "tab"@ || name
            == "backspace"@,
    ensures
        keycode_of(name) is Some,
        display_of(keycode_of(name)->Some_0) == canonical_display_form(name),
{
    reveal_strlit("ctrl_");
    reveal_strlit("ctrl-");
    reveal_strlit("shift_");
    reveal_strlit("escape");
    reveal_strlit("up");
    reveal_strlit("down");
    reveal_strlit("left");
    reveal_strlit("right");
    reveal_strlit("page_up");
    reveal_strlit("page_down");
    reveal_strlit("home");
    reveal_strlit("end");
    reveal_strlit("space");
    reveal_strlit("insert");
    reveal_strlit("delete");
    reveal_strlit("tab");
    reveal_strlit("backspace");
    assert("ctrl_"@.len() == 5 && "ctrl-"@.len() == 5 && "shift_"@.len() == 6);
    assert("escape"@.len() == 6 && "up"@.len() == 2 && "down"@.len() == 4 && "left"@.len() == 4
        && "right"@.len() == 5 && "page_up"@.len() == 7 && "page_down"@.len() == 9
        && "home"@.len() == 4 && "end"@.len() == 3 && "space"@.len() == 5 && "insert"@.len() == 6
        && "delete"@.len() == 6 && "tab"@.len() == 3 && "backspace"@.len() == 9);
    assert(!spec_has_prefix(name, "shift_"@)) by {
        if spec_has_prefix(name, "shift_"@) {
            assert(name.subrange(0, 6)[0] == name[0]);
            assert("shift_"@[0] == 's');
        }
    }
    assert(!(name.len() == 6 && (spec_has_prefix(name, "ctrl_"@) || spec_has_prefix(
        name,
        "ctrl-"@,
    )))) by {
        if name.len() == 6 && spec_has_prefix(name, "ctrl_"@) {
            assert(name.subrange(0, 5)[0] == name[0]);
        }
        if name.len() == 6 && spec_has_prefix(name, "ctrl-"@) {
            assert(name.subrange(0, 5)[0] == name[0]);
        }
    }
    assert(name[0] != 'f');
}

/// The display form of a key code: function keys print as `F` plus their
/// number, the reserved navigation codes print under their conventional
/// names, any other code that is a Unicode scalar prints as its character,
/// and everything else prints as a literal `unknown` marker.
pub open spec fn display_of(c: int) -> Seq<char> {
    if (KEY_F0 as int) < c <= (KEY_F15 as int) {
        seq!['F'] + dec_str((c - KEY_F0 as int) as nat)
    } else if c == KEY_UP as int {
        "Up"@
    } else if c == KEY_DOWN as int {
        "Down"@
    } else if c == KEY_LEFT as int {
        "Left"@
    } else if c == KEY_RIGHT as int {
        "Right"@
    } else if c == KEY_HOME as int {
        "Home"@
    } else if c == KEY_END as int {
        "End"@
    } else if c == KEY_DC as int {
        "Delete"@
    } else if c == KEY_TAB as int {
        "Tab"@
    } else if c == KEY_BACKSPACE as int {
        "Backspace"@
    } else if c == '\n' as int {
        "Enter"@
    } else if c == ' ' as int {
        "Space"@
    } else if is_unicode_scalar(c) {
        seq![c as char]
    } else {
        "unknown"@
    }
}

/// Decodes a numeric key code into its display form.
pub fn from_keycode(c: i32) -> (r: String)
    ensures
        r@ == display_of(c as int),
{
    if c > KEY_F0 && c <= KEY_F15 {
        let mut s = String::from_str("F");
        let num = u64_to_string((c - KEY_F0) as u64);
        s.append(num.as_str());
        proof {
            reveal_strlit("F");
            assert("F"@ =~= seq!['F']);
        }
        s
    } else if c == KEY_UP {
        String::from_str("Up")
    } else if c == KEY_DOWN {
        String::from_str("Down")
    } else if c == KEY_LEFT {
        String::from_str("Left")
    } else if c == KEY_RIGHT {
        String::from_str("Right")
    } else if c == KEY_HOME {
        String::from_str("Home")
    } else if c == KEY_END {
        String::from_str("End")
    } else if c == KEY_DC {
        String::from_str("Delete")
    } else if c == KEY_TAB {
        String::from_str("Tab")
    } else if c == KEY_BACKSPACE {
        String::from_str("Backspace")
    } else if c == 10 {
        String::from_str("Enter")
    } else if c == 32 {
        String::from_str("Space")
    } else if c < 0 {
        String::from_str("unknown")
    } else {
        match char_from_u32(c as u32) {
            None => String::from_str("unknown"),
            Some(ch) => {
                let mut s = String::new();
                push_char(&mut s, ch);
                proof {
                    vstd::utf8::char_u32_cast(ch, c as u32);
                    assert(s@ =~= seq![(c as int) as char]);
                }
                s
            },
        }
    }
}

/// The display form of one parsed key: codes decode through `display_of`,
/// and literal characters print verbatim, except that the newline and space
/// characters decode to their named forms.
pub open spec fn control_key_display(k: ControlKey) -> Seq<char> {
    match k {
        ControlKey::KeyCode(c) => display_of(c as int),
        ControlKey::Char(c) => if c == '\n' || c == ' ' {
            display_of(c as int)
        } else {
            seq![c]
        },
    }
}

impl ControlKey {
    /// Renders this key for display in the help view.
    pub fn to_display_string(&self) -> (r: String)
        ensures
            r@ == control_key_display(*self),
    {
        match *self {
            ControlKey::KeyCode(c) => from_keycode(c),
            ControlKey::Char(c) => {
                if c == '\n' || c == ' ' {
                    from_keycode(char_code(c))
                } else {
                    let mut s = String::new();
                    push_char(&mut s, c);
                    proof {
                        assert(s@ =~= seq![c]);
                    }
                    s
                }
            },
        }
    }
}

} // verus!
