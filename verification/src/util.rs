//! Time-keeping utilities and the marquee scroller: a timestamped value, a
//! cached value with an expiry, and the stateful algorithm that renders a
//! string wider than its viewport as a scrolling window with a wrap-around
//! separator.

use vstd::prelude::*;


verus! {

/// A bound that every millisecond clock reading respects: whole seconds fit
/// a signed 64-bit integer.
pub open spec fn clock_ms_bounded(t: int) -> bool {
    -10_000_000_000_000_000_000_000 <= t <= 10_000_000_000_000_000_000_000
}

/// Relies on time::get_time: the current wall-clock time, as whole seconds
/// since the epoch and the nanoseconds within the second, which are always
/// in [0, 1_000_000_000).
#[verifier::external_body]
fn clock_gettime() -> (r: (i64, i32))
    ensures
        0 <= r.1 < 1_000_000_000,
{
    let t = time::get_time();
    (t.sec, t.nsec)
}

/// The current clock reading in milliseconds. Nothing is promised of the
/// value beyond its bound: the clock decides.
fn now_ms() -> (r: i128)
    ensures
        clock_ms_bounded(r as int),
{
    let t = clock_gettime();
    (t.0 as i128) * 1000 + ((t.1 / 1_000_000) as i128)
}

/// A value together with the time it was last touched.
#[derive(Clone, Copy)]
pub struct TimedValue<T> {
    pub value: T,
    pub timestamp_ms: i128,
}

impl<T> TimedValue<T> {
    /// Wraps a value, stamped with the current time.
    pub fn new(value: T) -> (r: TimedValue<T>)
        ensures
            r.value == value,
            clock_ms_bounded(r.timestamp_ms as int),
    {
        TimedValue { value, timestamp_ms: now_ms() }
    }

    /// Refreshes the timestamp, keeping the value.
    pub fn bump(&mut self)
        ensures
            final(self).value == old(self).value,
            clock_ms_bounded(final(self).timestamp_ms as int),
    {
        self.timestamp_ms = now_ms();
    }
}

/// A value refreshed lazily once its age passes a limit.
#[derive(Clone, Copy)]
pub struct CachedValue<T> {
    pub value: T,
    pub timestamp_ms: i128,
    pub max_duration_ms: i128,
}

impl<T> CachedValue<T> {
    /// Whether the bookkeeping fields are small enough for age arithmetic.
    pub open spec fn wf(&self) -> bool {
        clock_ms_bounded(self.timestamp_ms as int) && -0x7fff_ffff_ffff_ffff
            <= self.max_duration_ms <= 0x7fff_ffff_ffff_ffff
    }

    /// Wraps a value with an expiry, stamped with the current time.
    pub fn new(value: T, max_duration_ms: i128) -> (r: CachedValue<T>)
        requires
            -0x7fff_ffff_ffff_ffff <= max_duration_ms <= 0x7fff_ffff_ffff_ffff,
        ensures
            r.value == value,
            r.max_duration_ms == max_duration_ms,
            r.wf(),
    {
        CachedValue { value, timestamp_ms: now_ms(), max_duration_ms }
    }

    /// The cached value, re-evaluated first when it has expired; whether it
    /// expired is the clock's decision, so the result is either the old
    /// value or one the closure produced.
    pub fn get_or<F: FnOnce() -> T>(&mut self, f: F) -> (r: &T)
        requires
            old(self).wf(),
            f.requires(()),
        ensures
            final(self).wf(),
            final(self).max_duration_ms == old(self).max_duration_ms,
            *r == final(self).value,
            final(self).value == old(self).value || f.ensures((), final(self).value),
    {
        let ts = now_ms();
        if ts > self.timestamp_ms + self.max_duration_ms {
            self.timestamp_ms = ts;
            self.value = f();
        }
        &self.value
    }

    /// Whether the value's age has passed the limit; the clock decides.
    pub fn is_cached(&self) -> bool
        requires
            self.wf(),
    {
        let ts = now_ms();
        ts > self.timestamp_ms + self.max_duration_ms
    }

    /// The cached value, as it stands.
    pub fn get(&self) -> (r: &T)
        ensures
            *r == self.value,
    {
        &self.value
    }

    /// Replaces the cached value, stamping it with the current time.
    pub fn set(&mut self, value: T)
        requires
            old(self).wf(),
        ensures
            final(self).wf(),
            final(self).value == value,
            final(self).max_duration_ms == old(self).max_duration_ms,
    {
        self.value = value;
        self.timestamp_ms = now_ms();
    }
}

// ---------------------------------------------------------------------------
// The marquee scroller.
// ---------------------------------------------------------------------------
/// The next marquee offset: one step forward, wrapping to 0 at the end of
/// the text plus its separator (or at the machine's index limit).
pub open spec fn advanced_pos(tlen: int, slen: int, pos: int) -> int {
    if 1 + pos < tlen + slen && pos < usize::MAX as int {
        pos + 1
    } else {
        0
    }
}

/// The window a marquee shows at one offset. Text that fits its viewport is
/// returned whole. Otherwise the window starts at the offset; when it runs
/// past the end of the text it continues into the separator (at the offset's
/// depth into it) and then wraps around to the head of the text, so that the
/// window is always exactly as wide as the viewport.
pub open spec fn window_spec(text: Seq<char>, sep: Seq<char>, width: int, pos: int) -> Seq<char> {
    if width >= text.len() {
        text
    } else if pos + width <= text.len() {
        text.subrange(pos, pos + width)
    } else {
        let tail = if pos < text.len() {
            text.skip(pos)
        } else {
            Seq::empty()
        };
        let start_sep = if pos >= text.len() {
            pos - text.len()
        } else {
            0
        };
        let free1 = width - tail.len();
        let sep_part = if free1 < sep.len() - start_sep {
            sep.subrange(start_sep, start_sep + free1)
        } else {
            sep.skip(start_sep)
        };
        let free2 = width - tail.len() - sep_part.len();
        tail + sep_part + text.take(free2)
    }
}

/// Law: however far a scrolling marquee has advanced, the window it shows
/// fills its viewport exactly. This holds at every offset the scroller can
/// reach: anything from 0 up to the length of the text plus its separator.
pub proof fn lemma_window_len(text: Seq<char>, sep: Seq<char>, width: int, pos: int)
    requires
        0 <= width < text.len(),
        0 <= pos < text.len() + sep.len(),
    ensures
        window_spec(text, sep, width, pos).len() == width,
{
}

/// A horizontally scrolling text area.
pub struct Scroller {
    /// Width of the viewport.
    width: usize,
    /// Current start of the window.
    pos: usize,
    /// Text to display.
    text: String,
    /// Separator shown between the end of the text and its start.
    separator: String,
    /// Time of the last offset increment.
    pos_update_time: i128,
    /// Milliseconds between offset increments.
    dt_ms: i128,
}

impl Scroller {
    pub closed spec fn spec_width(&self) -> int {
        self.width as int
    }

    pub closed spec fn spec_pos(&self) -> int {
        self.pos as int
    }

    pub closed spec fn spec_text(&self) -> Seq<char> {
        self.text@
    }

    pub closed spec fn spec_separator(&self) -> Seq<char> {
        self.separator@
    }

    /// The offset always lies within the text plus its separator (or is 0,
    /// for an empty text), and the clock bookkeeping is in range.
    pub closed spec fn wf(&self) -> bool {
        &&& (self.spec_pos() == 0 || self.spec_pos() < self.spec_text().len()
            + self.spec_separator().len())
        &&& clock_ms_bounded(self.pos_update_time as int)
        &&& 0 <= self.dt_ms <= 0x7fff_ffff_ffff_ffff
    }

    /// A scroller over the empty text, with the conventional ` ** `
    /// separator and a half-second scroll interval.
    pub fn new(width: usize) -> (r: Scroller)
        ensures
            r.wf(),
            r.spec_width() == width,
            r.spec_pos() == 0,
            r.spec_text() == Seq::<char>::empty(),
            r.spec_separator() == " ** "@,
    {
        Scroller {
            width,
            pos: 0,
            text: String::new(),
            separator: String::from_str(" ** "),
            pos_update_time: now_ms(),
            dt_ms: 500,
        }
    }

    /// Rewinds the marquee to the start of the text.
    pub fn reset_pos(&mut self)
        requires
            old(self).wf(),
        ensures
            final(self).wf(),
            final(self).spec_pos() == 0,
            final(self).spec_width() == old(self).spec_width(),
            final(self).spec_text() == old(self).spec_text(),
            final(self).spec_separator() == old(self).spec_separator(),
    {
        self.pos = 0;
        self.pos_update_time = now_ms();
    }

    /// Changes the viewport width; a non-positive width collapses it to 0.
    pub fn resize(&mut self, width: i32)
        requires
            old(self).wf(),
        ensures
            final(self).wf(),
            final(self).spec_width() == if width <= 0 {
                0int
            } else {
                width as int
            },
            final(self).spec_pos() == old(self).spec_pos(),
            final(self).spec_text() == old(self).spec_text(),
            final(self).spec_separator() == old(self).spec_separator(),
    {
        self.width = if width <= 0 {
            0
        } else {
            width as usize
        };
    }

    /// Replaces the text; an offset beyond the new text (plus separator)
    /// rewinds to the start.
    pub fn set_text(&mut self, text: &str)
        requires
            old(self).wf(),
        ensures
            final(self).wf(),
            final(self).spec_text() == text@,
            final(self).spec_width() == old(self).spec_width(),
            final(self).spec_separator() == old(self).spec_separator(),
            final(self).spec_pos() == 0 || final(self).spec_pos() == old(self).spec_pos(),
    {
        self.text = text.to_owned();
        let tlen = self.text.as_str().unicode_len();
        let slen = self.separator.as_str().unicode_len();
        if !(self.pos < tlen || (self.pos >= tlen && self.pos - tlen < slen)) {
            self.pos = 0;
        }
    }

    /// One display step: the offset advances by one when the scroll interval
    /// has elapsed (wrapping at the end of the text plus separator, as the
    /// clock decides), and the window at the resulting offset is returned.
    pub fn display(&mut self) -> (r: String)
        requires
            old(self).wf(),
        ensures
            final(self).wf(),
            final(self).spec_width() == old(self).spec_width(),
            final(self).spec_text() == old(self).spec_text(),
            final(self).spec_separator() == old(self).spec_separator(),
            final(self).spec_pos() == old(self).spec_pos() || final(self).spec_pos()
                == advanced_pos(
                old(self).spec_text().len() as int,
                old(self).spec_separator().len() as int,
                old(self).spec_pos(),
            ),
            r@ == window_spec(
                final(self).spec_text(),
                final(self).spec_separator(),
                final(self).spec_width() as int,
                final(self).spec_pos(),
            ),
    {
        let tlen = self.text.as_str().unicode_len();
        let slen = self.separator.as_str().unicode_len();
        // Advance the offset when the scroll interval has elapsed.
        let current_t = now_ms();
        if self.pos_update_time + self.dt_ms < current_t {
            let in_range = if self.pos < tlen {
                1 + self.pos < tlen || slen > 0
            } else {
                self.pos - tlen + 1 < slen
            };
            let can_advance = in_range && self.pos < usize::MAX;
            self.pos = if can_advance {
                self.pos + 1
            } else {
                0
            };
            self.pos_update_time = current_t;
        }
        // The full text fits the viewport.
        if self.width >= tlen {
            return self.text.clone();
        }
        // The window lies inside the text.
        if self.pos <= tlen && self.width <= tlen - self.pos {
            return self.text.as_str().substring_char(self.pos, self.pos + self.width).to_owned();
        }
        // The window wraps: the end of the text, part of the separator, and
        // the start of the text.
        let mut out = String::new();
        let mut consumed: usize = 0;
        if self.pos < tlen {
            out.append(self.text.as_str().substring_char(self.pos, tlen));
            consumed = tlen - self.pos;
        }
        let start_sep: usize = if self.pos >= tlen {
            self.pos - tlen
        } else {
            0
        };
        let free1 = self.width - consumed;
        if free1 < slen - start_sep {
            out.append(self.separator.as_str().substring_char(start_sep, start_sep + free1));
            consumed = consumed + free1;
        } else {
            out.append(self.separator.as_str().substring_char(start_sep, slen));
            consumed = consumed + (slen - start_sep);
        }
        let free2 = self.width - consumed;
        out.append(self.text.as_str().substring_char(0, free2));
        proof {
            assert(out@ =~= window_spec(
                self.text@,
                self.separator@,
                self.width as int,
                self.pos as int,
            ));
        }
        out
    }
}

} // verus!
