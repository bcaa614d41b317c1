//! The duration renderings used by the server-info view.

use vstd::prelude::*;

use crate::text::{dec_str, dec_str2, u64_to_string, u64_to_string2};

verus! {

/// A duration written out in days, hours, minutes and seconds, e.g.
/// `34d, 5h, 57m, 53s`; zero components are left out (a zero duration is
/// empty).
pub open spec fn duration_display(t: int) -> Seq<char> {
    let d = t / 86400;
    let h = (t / 3600) % 24;
    let m = (t / 60) % 60;
    let s = t % 60;
    let p1 = if d > 0 {
        dec_str(d as nat) + "d"@
    } else {
        Seq::empty()
    };
    let p2 = if h > 0 {
        (if p1.len() > 0 {
            p1 + ", "@
        } else {
            p1
        }) + dec_str(h as nat) + "h"@
    } else {
        p1
    };
    let p3 = if m > 0 {
        (if p2.len() > 0 {
            p2 + ", "@
        } else {
            p2
        }) + dec_str(m as nat) + "m"@
    } else {
        p2
    };
    if s > 0 {
        (if p3.len() > 0 {
            p3 + ", "@
        } else {
            p3
        }) + dec_str(s as nat) + "s"@
    } else {
        p3
    }
}

/// Renders a duration in days, hours, minutes and seconds.
pub fn format_duration(total_secs: i64) -> (r: String)
    requires
        total_secs >= 0,
    ensures
        r@ == duration_display(total_secs as int),
{
    let t = total_secs;
    let d = t / 86400;
    let h = (t / 3600) % 24;
    let m = (t / 60) % 60;
    let s = t % 60;
    let mut out = String::new();
    if d > 0 {
        let ds = u64_to_string(d as u64);
        out.append(ds.as_str());
        out.append("d");
    }
    if h > 0 {
        if out.as_str().unicode_len() > 0 {
            out.append(", ");
        }
        let hs = u64_to_string(h as u64);
        out.append(hs.as_str());
        out.append("h");
    }
    if m > 0 {
        if out.as_str().unicode_len() > 0 {
            out.append(", ");
        }
        let ms = u64_to_string(m as u64);
        out.append(ms.as_str());
        out.append("m");
    }
    if s > 0 {
        if out.as_str().unicode_len() > 0 {
            out.append(", ");
        }
        let ss = u64_to_string(s as u64);
        out.append(ss.as_str());
        out.append("s");
    }
    out
}

/// A duration written as a clock time: `m:ss`, or `h:m:ss` from one hour on
/// (the minutes are not padded).
pub open spec fn duration_time_display(t: int) -> Seq<char> {
    let h = t / 3600;
    let m = (t / 60) % 60;
    let s = t % 60;
    if h == 0 {
        dec_str(m as nat) + ":"@ + dec_str2(s as nat)
    } else {
        dec_str(h as nat) + ":"@ + dec_str(m as nat) + ":"@ + dec_str2(s as nat)
    }
}

/// Renders a duration as a clock time.
pub fn format_duration_time(total_secs: i64) -> (r: String)
    requires
        total_secs >= 0,
    ensures
        r@ == duration_time_display(total_secs as int),
{
    let t = total_secs;
    let h = t / 3600;
    let m = (t / 60) % 60;
    let s = t % 60;
    let mut out = String::new();
    if h == 0 {
        let ms = u64_to_string(m as u64);
        out.append(ms.as_str());
        out.append(":");
        let ss = u64_to_string2(s as u64);
        out.append(ss.as_str());
    } else {
        let hs = u64_to_string(h as u64);
        out.append(hs.as_str());
        out.append(":");
        let ms = u64_to_string(m as u64);
        out.append(ms.as_str());
        out.append(":");
        let ss = u64_to_string2(s as u64);
        out.append(ss.as_str());
    }
    out
}

} // verus!
