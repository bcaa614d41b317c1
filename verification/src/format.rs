//! Column descriptors for the playlist display: the song properties a
//! column can show, the 8-color vocabulary, the per-character format flags,
//! and the compiler from a column-format string to descriptors.

use vstd::prelude::*;

use crate::constants::{
    Color, COLOR_BLACK, COLOR_BLUE, COLOR_CYAN, COLOR_DEFAULT, COLOR_GREEN, COLOR_MAGENTA,
    COLOR_RED, COLOR_WHITE, COLOR_YELLOW,
};
use crate::parser::{
    columns_format_of, columns_stop, get_columns_format, p_columns, skip_multispace, ParserError,
};
use crate::text::str_eq;

verus! {

/// Song property shown by one playlist column.
#[derive(Clone, Copy, PartialEq, Eq, Structural, Debug, Hash)]
pub enum SongProperty {
    Album,
    AlbumArtist,
    Artist,
    Comment,
    Composer,
    Date,
    Directory,
    Disc,
    Filename,
    Genre,
    Length,
    Performer,
    Priority,
    Title,
    Track,
    TrackFull,
}

/// The human-readable column heading of one song property.
pub open spec fn property_display(p: SongProperty) -> Seq<char> {
    match p {
        SongProperty::Album => "Album"@,
        SongProperty::AlbumArtist => "Album Artist"@,
        SongProperty::Artist => "Artist"@,
        SongProperty::Comment => "Comment"@,
        SongProperty::Composer => "Composer"@,
        SongProperty::Date => "Date"@,
        SongProperty::Directory => "Directory"@,
        SongProperty::Disc => "Disc"@,
        SongProperty::Filename => "Filename"@,
        SongProperty::Genre => "Genre"@,
        SongProperty::Length => "Time"@,
        SongProperty::Performer => "Performer"@,
        SongProperty::Priority => "Priority"@,
        SongProperty::Title => "Title/Filename"@,
        SongProperty::Track => "Track"@,
        SongProperty::TrackFull => "Full Track"@,
    }
}

impl SongProperty {
    /// The heading printed above a column of this property.
    pub fn display_name(&self) -> (r: &'static str)
        ensures
            r@ == property_display(*self),
    {
        match *self {
            SongProperty::Album => "Album",
            SongProperty::AlbumArtist => "Album Artist",
            SongProperty::Artist => "Artist",
            SongProperty::Comment => "Comment",
            SongProperty::Composer => "Composer",
            SongProperty::Date => "Date",
            SongProperty::Directory => "Directory",
            SongProperty::Disc => "Disc",
            SongProperty::Filename => "Filename",
            SongProperty::Genre => "Genre",
            SongProperty::Length => "Time",
            SongProperty::Performer => "Performer",
            SongProperty::Priority => "Priority",
            SongProperty::Title => "Title/Filename",
            SongProperty::Track => "Track",
            SongProperty::TrackFull => "Full Track",
        }
    }
}

/// Column used to display the current playlist.
#[derive(Clone, Copy, PartialEq, Eq, Structural, Debug)]
pub struct Column {
    /// Property shown in the column.
    pub column_type: SongProperty,
    /// Width of the column: a relative weight, or a character count if fixed.
    pub width: i32,
    /// Whether the column width is fixed.
    pub is_fixed: bool,
    /// Color of the column's text.
    pub color: Color,
}

/// The property selected by the first character of a tag; the characters
/// after the first are accepted by the grammar but carry no meaning.
pub open spec fn property_of_char(c: char) -> Option<SongProperty> {
    if c == 'l' {
        Some(SongProperty::Length)
    } else if c == 'f' {
        Some(SongProperty::Filename)
    } else if c == 'D' {
        Some(SongProperty::Directory)
    } else if c == 'a' {
        Some(SongProperty::Artist)
    } else if c == 'A' {
        Some(SongProperty::AlbumArtist)
    } else if c == 't' {
        Some(SongProperty::Title)
    } else if c == 'b' {
        Some(SongProperty::Album)
    } else if c == 'y' {
        Some(SongProperty::Date)
    } else if c == 'n' {
        Some(SongProperty::Track)
    } else if c == 'N' {
        Some(SongProperty::TrackFull)
    } else if c == 'g' {
        Some(SongProperty::Genre)
    } else if c == 'c' {
        Some(SongProperty::Composer)
    } else if c == 'p' {
        Some(SongProperty::Performer)
    } else if c == 'd' {
        Some(SongProperty::Disc)
    } else if c == 'C' {
        Some(SongProperty::Comment)
    } else if c == 'P' {
        Some(SongProperty::Priority)
    } else {
        None
    }
}

/// The property of a whole tag: its first character decides, and an empty
/// tag resolves to nothing.
pub open spec fn column_type_of(tag: Seq<char>) -> Option<SongProperty> {
    if tag.len() == 0 {
        None
    } else {
        property_of_char(tag[0])
    }
}

/// Resolves a property tag against the single-letter property table; an
/// empty or unrecognized tag is a parse error.
pub fn get_column_type(s: &str) -> (r: Result<SongProperty, ParserError>)
    ensures
        match r {
            Ok(p) => column_type_of(s@) == Some(p),
            Err(e) => column_type_of(s@) is None && e == ParserError::Parse(0usize),
        },
{
    let len = s.unicode_len();
    if len == 0 {
        return Err(ParserError::Parse(0));
    }
    let c = s.get_char(0);
    if c == 'l' {
        Ok(SongProperty::Length)
    } else if c == 'f' {
        Ok(SongProperty::Filename)
    } else if c == 'D' {
        Ok(SongProperty::Directory)
    } else if c == 'a' {
        Ok(SongProperty::Artist)
    } else if c == 'A' {
        Ok(SongProperty::AlbumArtist)
    } else if c == 't' {
        Ok(SongProperty::Title)
    } else if c == 'b' {
        Ok(SongProperty::Album)
    } else if c == 'y' {
        Ok(SongProperty::Date)
    } else if c == 'n' {
        Ok(SongProperty::Track)
    } else if c == 'N' {
        Ok(SongProperty::TrackFull)
    } else if c == 'g' {
        Ok(SongProperty::Genre)
    } else if c == 'c' {
        Ok(SongProperty::Composer)
    } else if c == 'p' {
        Ok(SongProperty::Performer)
    } else if c == 'd' {
        Ok(SongProperty::Disc)
    } else if c == 'C' {
        Ok(SongProperty::Comment)
    } else if c == 'P' {
        Ok(SongProperty::Priority)
    } else {
        Err(ParserError::Parse(0))
    }
}

/// The color id of a color name: the fixed 8-color vocabulary, and the
/// unresolved handle for anything else (the empty name too).
pub open spec fn color_of(s: Seq<char>) -> int {
    if s == "black"@ {
        COLOR_BLACK as int
    } else if s == "red"@ {
        COLOR_RED as int
    } else if s == "green"@ {
        COLOR_GREEN as int
    } else if s == "yellow"@ {
        COLOR_YELLOW as int
    } else if s == "blue"@ {
        COLOR_BLUE as int
    } else if s == "magenta"@ {
        COLOR_MAGENTA as int
    } else if s == "cyan"@ {
        COLOR_CYAN as int
    } else if s == "white"@ {
        COLOR_WHITE as int
    } else {
        COLOR_DEFAULT as int
    }
}

/// Resolves a color name against the fixed 8-color vocabulary.
pub fn get_color(s: &str) -> (c: Color)
    ensures
        c as int == color_of(s@),
{
    if str_eq(s, "black") {
        COLOR_BLACK
    } else if str_eq(s, "red") {
        COLOR_RED
    } else if str_eq(s, "green") {
        COLOR_GREEN
    } else if str_eq(s, "yellow") {
        COLOR_YELLOW
    } else if str_eq(s, "blue") {
        COLOR_BLUE
    } else if str_eq(s, "magenta") {
        COLOR_MAGENTA
    } else if str_eq(s, "cyan") {
        COLOR_CYAN
    } else if str_eq(s, "white") {
        COLOR_WHITE
    } else {
        COLOR_DEFAULT
    }
}

/// The columns described by a column-format string: every raw descriptor
/// with its tag resolved; nothing if the string does not match the grammar
/// or some tag is unrecognized.
pub open spec fn columns_of(s: Seq<char>) -> Option<Seq<Column>> {
    match columns_format_of(s) {
        None => None,
        Some(toks) => if forall|i: int|
            0 <= i < toks.len() ==> column_type_of((#[trigger] toks[i]).3) is Some {
            Some(
                Seq::new(
                    toks.len(),
                    |i: int|
                        Column {
                            column_type: column_type_of(toks[i].3)->Some_0,
                            width: toks[i].0 as i32,
                            is_fixed: toks[i].1,
                            color: color_of(toks[i].2) as Color,
                        },
                ),
            )
        } else {
            None
        },
    }
}

/// Compiles a column-format string into column descriptors. Succeeds exactly
/// when the whole string matches the column grammar, has at least one
/// column, and every property tag resolves; a grammar mismatch reports the
/// offset where matching stopped, and an unresolved tag reports the index of
/// the offending column.
pub fn generate_columns(fmt: &str) -> (r: Result<Vec<Column>, ParserError>)
    ensures
        match r {
            Ok(v) => columns_of(fmt@) == Some(v@),
            Err(e) => {
                &&& columns_of(fmt@) is None
                &&& match e {
                    ParserError::Parse(p) => match columns_format_of(fmt@) {
                        None => p as int == columns_stop(fmt@),
                        Some(toks) => p < toks.len() && column_type_of(toks[p as int].3) is None
                            && forall|j: int|
                            0 <= j < p ==> column_type_of((#[trigger] toks[j]).3) is Some,
                    },
                    ParserError::Io(_) => false,
                }
            },
        },
{
    let len = fmt.unicode_len();
    let toks = get_columns_format(fmt, 0);
    let stop = skip_multispace(fmt, toks.0);
    if toks.1.len() == 0 || stop != len {
        return Err(ParserError::Parse(stop));
    }
    let ghost spec_toks = columns_format_of(fmt@)->Some_0;
    let mut cols: Vec<Column> = Vec::new();
    let n = toks.1.len();
    let mut i: usize = 0;
    while i < n
        invariant
            0 <= i <= n,
            n == toks.1@.len(),
            columns_format_of(fmt@) == Some(spec_toks),
            spec_toks.len() == n,
            forall|k: int|
                0 <= k < n ==> {
                    let v = #[trigger] toks.1@[k];
                    v.0 as int == spec_toks[k].0 && v.1 == spec_toks[k].1 && v.2@ == spec_toks[k].2
                        && v.3@ == spec_toks[k].3
                },
            cols@.len() == i,
            forall|k: int| 0 <= k < i ==> column_type_of((#[trigger] spec_toks[k]).3) is Some,
            forall|k: int|
                0 <= k < i ==> #[trigger] cols@[k] == (Column {
                    column_type: column_type_of(spec_toks[k].3)->Some_0,
                    width: spec_toks[k].0 as i32,
                    is_fixed: spec_toks[k].1,
                    color: color_of(spec_toks[k].2) as Color,
                }),
        decreases n - i,
    {
        let tok = &toks.1[i];
        match get_column_type(tok.3.as_str()) {
            Ok(p) => {
                let col = Column {
                    column_type: p,
                    width: tok.0,
                    is_fixed: tok.1,
                    color: get_color(tok.2.as_str()),
                };
                cols.push(col);
            },
            Err(_) => {
                return Err(ParserError::Parse(i));
            },
        }
        i = i + 1;
    }
    proof {
        assert(cols@ =~= columns_of(fmt@)->Some_0);
    }
    Ok(cols)
}

/// Format flag selected by one piece of a song-format expression.
#[derive(Clone, Copy, PartialEq, Eq, Structural, Debug)]
pub enum Format {
    Plain,
    Bold,
    NoBold,
    Underline,
    NoUnderline,
    Reverse,
    NoReverse,
    AltCharset,
    NoAltCharset,
}

/// The format flag named by a piece of text: the empty text is the plain
/// format, a leading `/` negates, and only the first letter after it
/// decides.
pub open spec fn format_of(s: Seq<char>) -> Option<Format> {
    if s.len() == 0 {
        Some(Format::Plain)
    } else if s[0] == '/' {
        if s.len() >= 2 && s[1] == 'b' {
            Some(Format::NoBold)
        } else if s.len() >= 2 && s[1] == 'u' {
            Some(Format::NoUnderline)
        } else if s.len() >= 2 && s[1] == 'r' {
            Some(Format::NoReverse)
        } else if s.len() >= 2 && s[1] == 'a' {
            Some(Format::NoAltCharset)
        } else {
            None
        }
    } else if s[0] == 'b' {
        Some(Format::Bold)
    } else if s[0] == 'u' {
        Some(Format::Underline)
    } else if s[0] == 'r' {
        Some(Format::Reverse)
    } else if s[0] == 'a' {
        Some(Format::AltCharset)
    } else {
        None
    }
}

/// Resolves a format flag; an unrecognized flag is a parse error.
pub fn get_format(s: &str) -> (r: Result<Format, ParserError>)
    ensures
        match r {
            Ok(f) => format_of(s@) == Some(f),
            Err(e) => format_of(s@) is None && e == ParserError::Parse(0usize),
        },
{
    let len = s.unicode_len();
    if len == 0 {
        return Ok(Format::Plain);
    }
    let c = s.get_char(0);
    if c == '/' {
        if len >= 2 {
            let c2 = s.get_char(1);
            if c2 == 'b' {
                return Ok(Format::NoBold);
            } else if c2 == 'u' {
                return Ok(Format::NoUnderline);
            } else if c2 == 'r' {
                return Ok(Format::NoReverse);
            } else if c2 == 'a' {
                return Ok(Format::NoAltCharset);
            }
        }
        Err(ParserError::Parse(0))
    } else if c == 'b' {
        Ok(Format::Bold)
    } else if c == 'u' {
        Ok(Format::Underline)
    } else if c == 'r' {
        Ok(Format::Reverse)
    } else if c == 'a' {
        Ok(Format::AltCharset)
    } else {
        Err(ParserError::Parse(0))
    }
}

/// One piece of a song-format expression.
#[derive(Clone, PartialEq, Debug)]
pub enum Expression {
    Text(String),
    Color(Color),
    Format(Format),
    SongProperty(SongProperty),
}

} // verus!
