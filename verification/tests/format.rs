use ncmpc::constants::COLOR_CYAN;
use ncmpc::constants::COLOR_DEFAULT;
use ncmpc::constants::COLOR_GREEN;
use ncmpc::constants::COLOR_MAGENTA;
use ncmpc::constants::COLOR_RED;
use ncmpc::constants::COLOR_WHITE;
use ncmpc::format::generate_columns;
use ncmpc::format::get_color;
use ncmpc::format::get_column_type;
use ncmpc::format::get_format;
use ncmpc::format::Column;
use ncmpc::format::Expression;
use ncmpc::format::Format;
use ncmpc::format::SongProperty;
use ncmpc::parser::ParserError;

#[test]
fn check_get_format() {
    assert_eq!(get_format("").unwrap(), Format::Plain);
    assert_eq!(get_format("b").unwrap(), Format::Bold);
    assert_eq!(get_format("/b").unwrap(), Format::NoBold);
    assert_eq!(get_format("u").unwrap(), Format::Underline);
    assert_eq!(get_format("/u").unwrap(), Format::NoUnderline);
    assert_eq!(get_format("r").unwrap(), Format::Reverse);
    assert_eq!(get_format("/r").unwrap(), Format::NoReverse);
    assert_eq!(get_format("a").unwrap(), Format::AltCharset);
    assert_eq!(get_format("/a").unwrap(), Format::NoAltCharset);
    assert!(get_format("c").is_err());
    assert!(get_format("/d").is_err());
}

#[test]
fn check_expression() {
    let mut v = Vec::<Expression>::new();
    v.push(Expression::Text("test".to_string()));
    v.push(Expression::Color(COLOR_RED));
    v.push(Expression::Format(Format::NoBold));
    v.push(Expression::SongProperty(SongProperty::Album));
    assert_eq!(v.len(), 4);
}

#[test]
fn column_types_by_first_character() {
    assert_eq!(get_column_type("l").unwrap(), SongProperty::Length);
    assert_eq!(get_column_type("f").unwrap(), SongProperty::Filename);
    assert_eq!(get_column_type("D").unwrap(), SongProperty::Directory);
    assert_eq!(get_column_type("a").unwrap(), SongProperty::Artist);
    assert_eq!(get_column_type("A").unwrap(), SongProperty::AlbumArtist);
    assert_eq!(get_column_type("t").unwrap(), SongProperty::Title);
    assert_eq!(get_column_type("b").unwrap(), SongProperty::Album);
    assert_eq!(get_column_type("y").unwrap(), SongProperty::Date);
    assert_eq!(get_column_type("n").unwrap(), SongProperty::Track);
    assert_eq!(get_column_type("N").unwrap(), SongProperty::TrackFull);
    assert_eq!(get_column_type("g").unwrap(), SongProperty::Genre);
    assert_eq!(get_column_type("c").unwrap(), SongProperty::Composer);
    assert_eq!(get_column_type("p").unwrap(), SongProperty::Performer);
    assert_eq!(get_column_type("d").unwrap(), SongProperty::Disc);
    assert_eq!(get_column_type("C").unwrap(), SongProperty::Comment);
    assert_eq!(get_column_type("P").unwrap(), SongProperty::Priority);
    // Only the first character decides.
    assert_eq!(get_column_type("t|f:Title").unwrap(), SongProperty::Title);
    assert_eq!(get_column_type("x").unwrap_err(), ParserError::Parse(0));
    assert_eq!(get_column_type("").unwrap_err(), ParserError::Parse(0));
}

#[test]
fn color_vocabulary() {
    assert_eq!(get_color("green"), COLOR_GREEN);
    assert_eq!(get_color("white"), COLOR_WHITE);
    assert_eq!(get_color(""), COLOR_DEFAULT);
    assert_eq!(get_color("chartreuse"), COLOR_DEFAULT);
}

#[test]
fn generate_columns_from_format_string() {
    let fmt = "(20)[]{a} (6f)[green]{NE} (50)[white]{t} (20)[cyan]{b} (7f)[magenta]{l}";
    let cols = generate_columns(fmt).unwrap();
    assert_eq!(cols.len(), 5);
    let widths: Vec<i32> = cols.iter().map(|c| c.width).collect();
    assert_eq!(widths, vec![20, 6, 50, 20, 7]);
    let fixed: Vec<bool> = cols.iter().map(|c| c.is_fixed).collect();
    assert_eq!(fixed, vec![false, true, false, false, true]);
    assert_eq!(
        cols[0],
        Column {
            column_type: SongProperty::Artist,
            width: 20,
            is_fixed: false,
            color: COLOR_DEFAULT,
        }
    );
    assert_eq!(cols[1].column_type, SongProperty::TrackFull);
    assert_eq!(cols[1].color, COLOR_GREEN);
    assert_eq!(cols[2].column_type, SongProperty::Title);
    assert_eq!(cols[3].color, COLOR_CYAN);
    assert_eq!(cols[4].column_type, SongProperty::Length);
    assert_eq!(cols[4].color, COLOR_MAGENTA);
}

#[test]
fn generate_columns_rejects_bad_input() {
    // No column at all.
    assert!(matches!(generate_columns(""), Err(ParserError::Parse(_))));
    // Trailing garbage after the last column.
    assert!(matches!(generate_columns("(5)[]{a} oops"), Err(ParserError::Parse(_))));
    // An unknown property tag reports the index of the offending column.
    assert_eq!(
        generate_columns("(5)[]{a} (6)[]{x}").unwrap_err(),
        ParserError::Parse(1)
    );
}

#[test]
fn property_display_names() {
    assert_eq!(SongProperty::Length.display_name(), "Time");
    assert_eq!(SongProperty::Title.display_name(), "Title/Filename");
    assert_eq!(SongProperty::TrackFull.display_name(), "Full Track");
    assert_eq!(SongProperty::AlbumArtist.display_name(), "Album Artist");
}
