use ncmpc::parser::comment;
use ncmpc::parser::def_key;
use ncmpc::parser::get_columns_format;
use ncmpc::parser::ignored_line;
use ncmpc::parser::key_actions;
use ncmpc::parser::key_actions_aggregator;
use ncmpc::parser::parse_bindings;
use ncmpc::parser::ParserError;

#[test]
fn parse_def_key() {
    let file = "def_key \"k\"\n  scroll_up";
    let file_remaining = "  scroll_up";

    let (pos, key) = def_key(file, 0).unwrap();
    assert_eq!(&file[pos..], file_remaining);
    assert_eq!(key, String::from("k"));
}

#[test]
fn parse_action() {
    let file = "  scroll_up\n  scroll_down";
    let file_remaining = "  scroll_down";

    let (pos, name) = ncmpc::parser::action(file, 0).unwrap();
    assert_eq!(&file[pos..], file_remaining);
    assert_eq!(name, String::from("scroll_up"));
}

#[test]
fn parse_key_action() {
    let file = "def_key \"k\"\n  scroll_up\ndef_key \"j\"\n  scroll_down";
    let file_remaining = "def_key \"j\"\n  scroll_down";

    let (pos, (key, actions)) = key_actions(file, 0).unwrap();
    assert_eq!(&file[pos..], file_remaining);
    assert_eq!(key, String::from("k"));
    assert_eq!(actions, vec![String::from("scroll_up")]);
}

#[test]
fn parse_key_actions() {
    let file = "def_key \"k\"\n  scroll_up\n  scroll_down\ndef_key \"j\"\n  scroll_down";
    let file_remaining = "def_key \"j\"\n  scroll_down";

    let (pos, (key, actions)) = key_actions(file, 0).unwrap();
    assert_eq!(&file[pos..], file_remaining);
    assert_eq!(key, String::from("k"));
    assert_eq!(actions, vec![String::from("scroll_up"), String::from("scroll_down")]);
}

#[test]
fn parse_multi_key_actions() {
    let file = "def_key \"k\"\n  scroll_up\n  scroll_down\n\ndef_key \"j\"\n  scroll_down\n";

    let (pos, entries) = key_actions_aggregator(file, 0);
    assert_eq!(&file[pos..], "");
    assert_eq!(
        entries,
        vec![
            (
                String::from("k"),
                vec![String::from("scroll_up"), String::from("scroll_down")]
            ),
            (String::from("j"), vec![String::from("scroll_down")]),
        ]
    );
}

#[test]
fn parse_comment() {
    let files = ["# This is a comment", "### This is a title ###"];

    for f in files.iter() {
        let pos = comment(f, 0).unwrap();
        assert_eq!(&f[pos..], "");
    }
}

#[test]
fn parse_ignored_line() {
    let files = ["# This is a comment\n", "### This is a title ###\n"];

    for f in files.iter() {
        let pos = ignored_line(f, 0).unwrap();
        assert_eq!(&f[pos..], "");
    }
}

#[test]
fn parse_multi_key_action_with_comments() {
    let file = "# Map k\ndef_key \"k\"\n  scroll_up\n  scroll_down\n\n# Map j\ndef_key \"j\"\n  scroll_down\n\n# Some comment\n";

    let (pos, entries) = key_actions_aggregator(file, 0);
    assert_eq!(
        entries,
        vec![
            (
                String::from("k"),
                vec![String::from("scroll_up"), String::from("scroll_down")]
            ),
            (String::from("j"), vec![String::from("scroll_down")]),
        ]
    );
    // The trailing comment is noise; the whole file parses.
    assert!(parse_bindings(file).is_ok());
    let _ = pos;
}

#[test]
fn two_bindings_in_file_order() {
    let file = "def_key \"k\"\n  scroll_up\ndef_key \"j\"\n  scroll_down";
    let entries = parse_bindings(file).unwrap();
    assert_eq!(entries.len(), 2);
    assert_eq!(entries[0], (String::from("k"), vec![String::from("scroll_up")]));
    assert_eq!(entries[1], (String::from("j"), vec![String::from("scroll_down")]));
}

#[test]
fn load_default_bindings() {
    let file = "# Default bindings\ndef_key \"mouse\"\n  mouse_event\n\ndef_key \"k\"\n  scroll_up\n\ndef_key \"shift-up\"\n  select_item\n  scroll_up\n\ndef_key \"q\"\n  quit\n";
    let res = parse_bindings(file);
    assert!(res.is_ok());
    let data = res.unwrap();
    assert_eq!(data[0], (String::from("mouse"), vec![String::from("mouse_event")]));
    assert_eq!(
        data[2],
        (
            String::from("shift-up"),
            vec![String::from("select_item"), String::from("scroll_up")]
        )
    );
    assert_eq!(data.last().unwrap(), &(String::from("q"), vec![String::from("quit")]));
}

#[test]
fn parse_reports_offset_of_mismatch() {
    // The second block has no quoted key, so matching stops after the first.
    let file = "def_key \"k\"\n  scroll_up\ndef_key j\n  scroll_down";
    match parse_bindings(file) {
        Err(ParserError::Parse(pos)) => assert_eq!(pos, 24),
        other => panic!("expected a parse error, got {:?}", other),
    }
}

#[test]
fn parse_empty_and_comment_only_files() {
    assert_eq!(parse_bindings("").unwrap(), vec![]);
    assert_eq!(parse_bindings("# nothing here\n\n# end\n").unwrap(), vec![]);
}

#[test]
fn parse_column() {
    let file = "(20)[yellow]{a}";

    let (pos, tok) = ncmpc::parser::column(file, 0).unwrap();
    assert_eq!(&file[pos..], "");
    assert_eq!(tok, (20, false, String::from("yellow"), String::from("a")));
}

#[test]
fn parse_column_special_content() {
    let file = "(10)[blue]{t|f:Title}";

    let (pos, tok) = ncmpc::parser::column(file, 0).unwrap();
    assert_eq!(&file[pos..], "");
    assert_eq!(tok, (10, false, String::from("blue"), String::from("t|f:Title")));
}

#[test]
fn parse_column_nocolor() {
    let file = "(10)[]{a}";

    let (pos, tok) = ncmpc::parser::column(file, 0).unwrap();
    assert_eq!(&file[pos..], "");
    assert_eq!(tok, (10, false, String::from(""), String::from("a")));
}

#[test]
fn parse_fixed_column() {
    let file = "(5f)[red]{b}";

    let (pos, tok) = ncmpc::parser::column(file, 0).unwrap();
    assert_eq!(&file[pos..], "");
    assert_eq!(tok, (5, true, String::from("red"), String::from("b")));
}

#[test]
fn parse_columns() {
    let file = "(20)[]{a} (6f)[green]{NE} (50)[white]{t|f:Title} (20)[cyan]{b} (7f)[magenta]{l}";

    let (pos, toks) = get_columns_format(file, 0);
    assert_eq!(&file[pos..], "");
    assert_eq!(
        toks,
        vec![
            (20, false, String::from(""), String::from("a")),
            (6, true, String::from("green"), String::from("NE")),
            (50, false, String::from("white"), String::from("t|f:Title")),
            (20, false, String::from("cyan"), String::from("b")),
            (7, true, String::from("magenta"), String::from("l")),
        ]
    );
}

#[test]
fn width_field_fallbacks() {
    assert_eq!(ncmpc::parser::to_width("20"), (20, false));
    assert_eq!(ncmpc::parser::to_width("6f"), (6, true));
    assert_eq!(ncmpc::parser::to_width("f"), (1, true));
    assert_eq!(ncmpc::parser::to_width(""), (1, false));
    assert_eq!(ncmpc::parser::to_width("x7"), (1, false));
    assert_eq!(ncmpc::parser::to_width("99999999999999"), (1, false));
}
