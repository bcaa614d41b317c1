//! Model-side decisions: playlist scrolling, volume stepping, the state
//! flag line, song progress, and the track/status text shown in the status
//! bar.

use vstd::prelude::*;

use crate::text::{dec_str, dec_str2, u64_to_string, u64_to_string2};

verus! {

/// Which parts of the model's data changed since the last snapshot.
#[derive(Clone, Copy, PartialEq, Eq, Structural, Debug)]
pub struct DataChangeStatus {
    /// Whether the current playlist was modified.
    pub playlist: bool,
    /// Whether the general status was modified.
    pub status: bool,
    /// Whether the current song was modified.
    pub current_song: bool,
}

impl DataChangeStatus {
    /// Fresh data counts as changed everywhere.
    pub fn new() -> (r: DataChangeStatus)
        ensures
            r.playlist && r.status && r.current_song,
    {
        DataChangeStatus { playlist: true, status: true, current_song: true }
    }
}

/// Song id.
#[derive(Debug, Hash, Clone, Copy, PartialEq, Eq, Structural)]
pub struct SongId(pub u32);

/// The playlist position reached by scrolling `offset` rows from the current
/// selection in a playlist of `end` songs: past either end it wraps when
/// scrolling is cyclic and pins to the boundary otherwise, and with no
/// selection it lands on the first song. The result is clamped into
/// [0, end].
pub open spec fn scroll_target(selected: Option<u32>, offset: int, end: int, cyclic: bool) -> int {
    let raw = match selected {
        None => 0,
        Some(s) => {
            let cur = s as int;
            if cur >= end - offset {
                if cyclic {
                    cur + offset - end
                } else {
                    end
                }
            } else if cur < -offset {
                if cyclic {
                    end + cur + offset
                } else {
                    0
                }
            } else {
                cur + offset
            }
        },
    };
    if raw < 0 {
        0
    } else if raw > end {
        end
    } else {
        raw
    }
}

/// Scrolls the playlist selection by `offset` rows.
pub fn scroll_playlist(selected: Option<u32>, offset: i32, end: u32, cyclic: bool) -> (r: u32)
    requires
        end <= 0x7fff_ffff,
        match selected {
            Some(s) => s <= end,
            None => true,
        },
    ensures
        r as int == scroll_target(selected, offset as int, end as int, cyclic),
{
    let raw: i64 = match selected {
        None => 0,
        Some(s) => {
            let cur = s as i64;
            if cur >= end as i64 - offset as i64 {
                if cyclic {
                    cur + offset as i64 - end as i64
                } else {
                    end as i64
                }
            } else if cur < -(offset as i64) {
                if cyclic {
                    end as i64 + cur + offset as i64
                } else {
                    0
                }
            } else {
                cur + offset as i64
            }
        },
    };
    if raw < 0 {
        0
    } else if raw > end as i64 {
        end
    } else {
        raw as u32
    }
}

/// A volume moved by one step and clamped into [0, 100].
pub open spec fn stepped_volume(vol: int, step: int) -> int {
    let raw = vol + step;
    if raw < 0 {
        0
    } else if raw > 100 {
        100
    } else {
        raw
    }
}

/// Applies one volume step, clamping the result into [0, 100].
pub fn apply_volume_step(vol: i8, step: i8) -> (r: i8)
    ensures
        r as int == stepped_volume(vol as int, step as int),
{
    let raw = vol as i16 + step as i16;
    if raw < 0 {
        0
    } else if raw > 100 {
        100
    } else {
        raw as i8
    }
}

/// The state flags shown on the state line, in their fixed order: repeat,
/// random, single, consume, and crossfade.
pub open spec fn stateline_flags_spec(
    repeat: bool,
    random: bool,
    single: bool,
    consume: bool,
    crossfade: bool,
) -> Seq<char> {
    (if repeat {
        seq!['r']
    } else {
        Seq::empty()
    }) + (if random {
        seq!['z']
    } else {
        Seq::empty()
    }) + (if single {
        seq!['s']
    } else {
        Seq::empty()
    }) + (if consume {
        seq!['c']
    } else {
        Seq::empty()
    }) + (if crossfade {
        seq!['x']
    } else {
        Seq::empty()
    })
}

/// Collects the state flags of the player's current modes.
pub fn stateline_flags(
    repeat: bool,
    random: bool,
    single: bool,
    consume: bool,
    crossfade: bool,
) -> (r: Vec<char>)
    ensures
        r@ == stateline_flags_spec(repeat, random, single, consume, crossfade),
{
    let mut flags: Vec<char> = Vec::new();
    if repeat {
        flags.push('r');
    }
    if random {
        flags.push('z');
    }
    if single {
        flags.push('s');
    }
    if consume {
        flags.push('c');
    }
    if crossfade {
        flags.push('x');
    }
    proof {
        assert(flags@ =~= stateline_flags_spec(repeat, random, single, consume, crossfade));
    }
    flags
}

/// The elapsed share of a song, in whole percent; a song of unknown or zero
/// duration counts as not begun.
pub open spec fn progress_percent_spec(elapsed: int, duration: int) -> int {
    if duration > 0 {
        100 * elapsed / duration
    } else {
        0
    }
}

/// The progress of the current song in percent.
pub fn progress_percent(elapsed: i64, duration: i64) -> (r: i64)
    requires
        0 <= elapsed <= 0xffff_ffff,
        0 <= duration <= 0xffff_ffff,
    ensures
        r as int == progress_percent_spec(elapsed as int, duration as int),
{
    if duration > 0 {
        100 * elapsed / duration
    } else {
        0
    }
}

/// A track number as shown in its column, zero-padded to two digits.
pub open spec fn track_display(track: int) -> Seq<char> {
    dec_str2(track as nat)
}

/// Renders a track number for its playlist column.
pub fn format_track(track: u32) -> (r: String)
    ensures
        r@ == track_display(track as int),
{
    u64_to_string2(track as u64)
}

/// A song length as `minutes:seconds`, seconds zero-padded to two digits.
pub open spec fn length_display(min: int, sec: int) -> Seq<char> {
    dec_str(min as nat) + ":"@ + dec_str2(sec as nat)
}

/// Renders a song length for its playlist column.
pub fn format_length(min: i64, sec: i64) -> (r: String)
    requires
        0 <= min,
        0 <= sec < 60,
    ensures
        r@ == length_display(min as int, sec as int),
{
    let mut out = u64_to_string(min as u64);
    out.append(":");
    let s = u64_to_string2(sec as u64);
    out.append(s.as_str());
    out
}

/// The track part of the status bar: an optional bitrate, and the elapsed
/// and total times as `m:ss`.
pub open spec fn track_status_display(
    bitrate: Option<int>,
    cur_min: int,
    cur_sec: int,
    total_min: int,
    total_sec: int,
) -> Seq<char> {
    (match bitrate {
        Some(b) => "("@ + dec_str(b as nat) + " kbps) "@,
        None => Seq::empty(),
    }) + "["@ + dec_str(cur_min as nat) + ":"@ + dec_str2(cur_sec as nat) + "/"@ + dec_str(
        total_min as nat,
    ) + ":"@ + dec_str2(total_sec as nat) + "]"@
}

/// Renders the track part of the status bar.
pub fn format_track_status(
    bitrate: Option<u32>,
    cur_min: i64,
    cur_sec: i64,
    total_min: i64,
    total_sec: i64,
) -> (r: String)
    requires
        0 <= cur_min,
        0 <= cur_sec < 60,
        0 <= total_min,
        0 <= total_sec < 60,
    ensures
        r@ == track_status_display(
            match bitrate {
                Some(b) => Some(b as int),
                None => None,
            },
            cur_min as int,
            cur_sec as int,
            total_min as int,
            total_sec as int,
        ),
{
    let mut out = String::new();
    match bitrate {
        Some(b) => {
            out.append("(");
            let bs = u64_to_string(b as u64);
            out.append(bs.as_str());
            out.append(" kbps) ");
        },
        None => {},
    }
    out.append("[");
    let a = u64_to_string(cur_min as u64);
    out.append(a.as_str());
    out.append(":");
    let b2 = u64_to_string2(cur_sec as u64);
    out.append(b2.as_str());
    out.append("/");
    let c = u64_to_string(total_min as u64);
    out.append(c.as_str());
    out.append(":");
    let d = u64_to_string2(total_sec as u64);
    out.append(d.as_str());
    out.append("]");
    proof {
        assert(out@ =~= track_status_display(
            match bitrate {
                Some(b) => Some(b as int),
                None => None,
            },
            cur_min as int,
            cur_sec as int,
            total_min as int,
            total_sec as int,
        ));
    }
    out
}

/// The status-bar message for a playing song: artist, title, and album.
pub open spec fn song_msg_display(artist: Seq<char>, title: Seq<char>, album: Seq<char>) -> Seq<
    char,
> {
    artist + " - "@ + title + " - "@ + album
}

/// Renders the status-bar message for a playing song.
pub fn format_song_msg(artist: &str, title: &str, album: &str) -> (r: String)
    ensures
        r@ == song_msg_display(artist@, title@, album@),
{
    let mut out = artist.to_owned();
    out.append(" - ");
    out.append(title);
    out.append(" - ");
    out.append(album);
    out
}

} // verus!
