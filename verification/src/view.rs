//! View-side logic: the adaptive column layout engine, the choice of the
//! first playlist row to draw, the command-line input editor, and the
//! playlist summary shown in the header.

use vstd::prelude::*;

use crate::format::Column;
use crate::keys::{KEY_BACKSPACE, KEY_DOWN, KEY_UP};
use crate::text::{char_from_u32, dec_str, is_unicode_scalar, pop_char, push_char, u64_to_string};

verus! {

/// Which of the main views is active.
#[derive(Clone, Copy, PartialEq, Eq, Structural, Debug)]
pub enum ActiveWindow {
    /// Displaying help window.
    Help,
    /// Displaying current playlist.
    Playlist,
    /// Displaying the daemon's server info.
    ServerInfo,
}

// ---------------------------------------------------------------------------
// The adaptive column layout engine.
// ---------------------------------------------------------------------------
/// The total width the fixed columns claim.
pub open spec fn fixed_sum(cols: Seq<Column>) -> int
    decreases cols.len(),
{
    if cols.len() == 0 {
        0
    } else {
        (if cols.last().is_fixed {
            cols.last().width as int
        } else {
            0
        }) + fixed_sum(cols.drop_last())
    }
}

/// The total weight of the relative columns.
pub open spec fn relative_sum(cols: Seq<Column>) -> int
    decreases cols.len(),
{
    if cols.len() == 0 {
        0
    } else {
        (if cols.last().is_fixed {
            0
        } else {
            cols.last().width as int
        }) + relative_sum(cols.drop_last())
    }
}

/// The cells left for the relative columns once the fixed ones are served;
/// never negative.
pub open spec fn free_space(total: int, cols: Seq<Column>) -> int {
    if total >= fixed_sum(cols) {
        total - fixed_sum(cols)
    } else {
        0
    }
}

/// The resolved width of every column: a fixed column keeps its declared
/// width, and a relative column gets its weighted floor share of the free
/// space; with no relative weight at all, the relative columns get width 0
/// and nothing is divided.
pub open spec fn layout_spec(total: int, cols: Seq<Column>) -> Seq<int> {
    Seq::new(
        cols.len(),
        |i: int|
            if cols[i].is_fixed {
                cols[i].width as int
            } else if relative_sum(cols) > 0 {
                cols[i].width * free_space(total, cols) / relative_sum(cols)
            } else {
                0
            },
    )
}

proof fn lemma_fixed_sum_bounds(cols: Seq<Column>)
    requires
        forall|i: int| 0 <= i < cols.len() ==> (#[trigger] cols[i]).width >= 0,
    ensures
        0 <= fixed_sum(cols) <= 0x7fff_ffff * cols.len(),
        0 <= relative_sum(cols) <= 0x7fff_ffff * cols.len(),
    decreases cols.len(),
{
    if cols.len() > 0 {
        assert(forall|i: int|
            0 <= i < cols.drop_last().len() ==> (#[trigger] cols.drop_last()[i]) == cols[i]);
        lemma_fixed_sum_bounds(cols.drop_last());
    }
}

proof fn lemma_sum_take_step(cols: Seq<Column>, i: int)
    requires
        0 <= i < cols.len(),
    ensures
        fixed_sum(cols.take(i + 1)) == fixed_sum(cols.take(i)) + (if cols[i].is_fixed {
            cols[i].width as int
        } else {
            0
        }),
        relative_sum(cols.take(i + 1)) == relative_sum(cols.take(i)) + (if cols[i].is_fixed {
            0
        } else {
            cols[i].width as int
        }),
{
    assert(cols.take(i + 1).drop_last() =~= cols.take(i));
    assert(cols.take(i + 1).last() == cols[i]);
}

proof fn lemma_relative_prefix(cols: Seq<Column>, k: int)
    requires
        forall|i: int| 0 <= i < cols.len() ==> (#[trigger] cols[i]).width >= 0,
        0 <= k <= cols.len(),
    ensures
        relative_sum(cols.take(k)) <= relative_sum(cols),
    decreases cols.len() - k,
{
    if k < cols.len() {
        lemma_sum_take_step(cols, k);
        lemma_relative_prefix(cols, k + 1);
    } else {
        assert(cols.take(k) =~= cols);
    }
}

/// A relative column's weight never exceeds the total relative weight.
proof fn lemma_relative_member(cols: Seq<Column>, j: int)
    requires
        forall|i: int| 0 <= i < cols.len() ==> (#[trigger] cols[i]).width >= 0,
        0 <= j < cols.len(),
        !cols[j].is_fixed,
    ensures
        relative_sum(cols) >= cols[j].width,
{
    lemma_sum_take_step(cols, j);
    lemma_relative_prefix(cols, j + 1);
    assert(forall|i: int|
        0 <= i < cols.take(j).len() ==> (#[trigger] cols.take(j)[i]) == cols[i]);
    lemma_fixed_sum_bounds(cols.take(j));
}

/// Resolves the columns of one render pass into cell widths, one per input
/// column, in order.
pub fn layout(total_width: i32, columns: &Vec<Column>) -> (r: Vec<i32>)
    requires
        total_width >= 0,
        forall|i: int| 0 <= i < columns@.len() ==> (#[trigger] columns@[i]).width >= 0,
        columns@.len() <= 0x10000,
    ensures
        r@.len() == columns@.len(),
        forall|i: int|
            0 <= i < r@.len() ==> (#[trigger] r@[i]) as int == layout_spec(
                total_width as int,
                columns@,
            )[i],
{
    let n = columns.len();
    // First pass: total the fixed widths and the relative weights.
    let mut fixed: i64 = 0;
    let mut relative: i64 = 0;
    proof {
        assert(columns@.take(0) =~= Seq::<Column>::empty());
        lemma_fixed_sum_bounds(columns@);
    }
    let mut i: usize = 0;
    while i < n
        invariant
            0 <= i <= n,
            n == columns@.len(),
            n <= 0x10000,
            forall|k: int| 0 <= k < columns@.len() ==> (#[trigger] columns@[k]).width >= 0,
            fixed == fixed_sum(columns@.take(i as int)),
            relative == relative_sum(columns@.take(i as int)),
            0 <= fixed <= 0x7fff_ffff * i,
            0 <= relative <= 0x7fff_ffff * i,
        decreases n - i,
    {
        proof {
            lemma_sum_take_step(columns@, i as int);
            assert(columns@.take(i as int).len() == i);
            lemma_fixed_sum_bounds(columns@.take(i as int));
        }
        let c = &columns[i];
        if c.is_fixed {
            fixed = fixed + c.width as i64;
        } else {
            relative = relative + c.width as i64;
        }
        i = i + 1;
    }
    proof {
        assert(columns@.take(n as int) =~= columns@);
    }
    let free: i64 = if total_width as i64 >= fixed {
        total_width as i64 - fixed
    } else {
        0
    };
    // Second pass: resolve each column.
    let mut widths: Vec<i32> = Vec::new();
    let mut j: usize = 0;
    while j < n
        invariant
            0 <= j <= n,
            n == columns@.len(),
            forall|k: int| 0 <= k < columns@.len() ==> (#[trigger] columns@[k]).width >= 0,
            relative == relative_sum(columns@),
            0 <= free <= 0x7fff_ffff,
            free == free_space(total_width as int, columns@),
            widths@.len() == j,
            forall|k: int|
                0 <= k < j ==> (#[trigger] widths@[k]) as int == layout_spec(
                    total_width as int,
                    columns@,
                )[k],
        decreases n - j,
    {
        let c = &columns[j];
        proof {
            if !c.is_fixed && relative > 0 {
                lemma_relative_member(columns@, j as int);
                assert((c.width as int) * (free as int) <= 0x3fff_ffff_0000_0001 && 0 <= (
                c.width as int) * (free as int) / (relative as int) <= free as int)
                    by (nonlinear_arith)
                    requires
                        0 <= c.width as int <= 0x7fff_ffff,
                        0 <= free as int <= 0x7fff_ffff,
                        0 < relative as int,
                        c.width as int <= relative as int,
                ;
            }
        }
        let w: i32 = if c.is_fixed {
            c.width
        } else if relative > 0 {
            ((c.width as i64) * free / relative) as i32
        } else {
            0
        };
        widths.push(w);
        j = j + 1;
    }
    widths
}

/// The total width the relative columns are resolved to, when the free
/// space `f` is split over the weight total `r`.
pub open spec fn shares_sum(cols: Seq<Column>, f: int, r: int) -> int
    decreases cols.len(),
{
    if cols.len() == 0 {
        0
    } else {
        (if cols.last().is_fixed {
            0
        } else {
            cols.last().width * f / r
        }) + shares_sum(cols.drop_last(), f, r)
    }
}

proof fn lemma_div_add_le(a: int, b: int, r: int)
    requires
        a >= 0,
        b >= 0,
        r > 0,
    ensures
        a / r + b / r <= (a + b) / r,
{
    vstd::arithmetic::div_mod::lemma_fundamental_div_mod(a, r);
    vstd::arithmetic::div_mod::lemma_fundamental_div_mod(b, r);
    vstd::arithmetic::div_mod::lemma_mod_bound(a, r);
    vstd::arithmetic::div_mod::lemma_mod_bound(b, r);
    let qa = a / r;
    let qb = b / r;
    assert(r * (qa + qb) == r * qa + r * qb) by (nonlinear_arith);
    assert(r * (qa + qb) <= a + b);
    vstd::arithmetic::div_mod::lemma_div_is_ordered(r * (qa + qb), a + b, r);
    vstd::arithmetic::div_mod::lemma_div_multiples_vanish(qa + qb, r);
}

proof fn lemma_shares_sum_bound(cols: Seq<Column>, f: int, r: int)
    requires
        forall|i: int| 0 <= i < cols.len() ==> (#[trigger] cols[i]).width >= 0,
        f >= 0,
        r > 0,
    ensures
        shares_sum(cols, f, r) <= relative_sum(cols) * f / r,
    decreases cols.len(),
{
    if cols.len() == 0 {
        assert(0 * f == 0) by (nonlinear_arith);
        assert((0int) / r == 0) by {
            vstd::arithmetic::div_mod::lemma_div_multiples_vanish(0, r);
            assert(r * 0 == 0) by (nonlinear_arith);
        }
    } else {
        let rest = cols.drop_last();
        assert(forall|i: int| 0 <= i < rest.len() ==> (#[trigger] rest[i]) == cols[i]);
        lemma_shares_sum_bound(rest, f, r);
        lemma_fixed_sum_bounds(rest);
        if cols.last().is_fixed {
            assert(relative_sum(cols) == relative_sum(rest));
        } else {
            let w = cols.last().width as int;
            assert(w * f >= 0 && relative_sum(rest) * f >= 0 && (w + relative_sum(rest)) * f == w
                * f + relative_sum(rest) * f) by (nonlinear_arith)
                requires
                    w >= 0,
                    f >= 0,
                    relative_sum(rest) >= 0,
            ;
            lemma_div_add_le(w * f, relative_sum(rest) * f, r);
        }
    }
}

/// Law: the resolved relative columns never claim more than the free space:
/// the floor division may leave trailing cells unused, but it never
/// overcommits the line.
pub proof fn lemma_layout_relative_sum(total: int, cols: Seq<Column>)
    requires
        forall|i: int| 0 <= i < cols.len() ==> (#[trigger] cols[i]).width >= 0,
        relative_sum(cols) > 0,
    ensures
        shares_sum(cols, free_space(total, cols), relative_sum(cols)) <= free_space(total, cols),
{
    let f = free_space(total, cols);
    let r = relative_sum(cols);
    lemma_fixed_sum_bounds(cols);
    lemma_shares_sum_bound(cols, f, r);
    assert(r * f / r == f) by {
        assert(r * f == f * r) by (nonlinear_arith);
        vstd::arithmetic::div_mod::lemma_div_multiples_vanish(f, r);
    }
}

// ---------------------------------------------------------------------------
// The playlist window.
// ---------------------------------------------------------------------------
/// The playlist row shown first: the window centers the selected song where
/// it can, pins to the top near the start, and to the bottom near the end.
pub open spec fn start_index_spec(selected: int, n: int, max_height: int) -> int {
    if selected < max_height / 2 {
        0
    } else if selected < n - max_height / 2 {
        selected - max_height / 2
    } else {
        n - max_height
    }
}

/// The index of the song drawn on the first playlist row.
pub fn playlist_start_index(selected: i32, n: i32, max_height: i32) -> (r: i32)
    requires
        0 <= max_height,
        0 <= n,
        -1 <= selected < n || (selected == -1 && n == 0),
    ensures
        r as int == start_index_spec(selected as int, n as int, max_height as int),
{
    let half = max_height / 2;
    if selected < half {
        0
    } else if (selected as i64) < (n as i64) - (half as i64) {
        selected - half
    } else {
        let v = (n as i64) - (max_height as i64);
        v as i32
    }
}

// ---------------------------------------------------------------------------
// The command-line input editor.
// ---------------------------------------------------------------------------
/// One step of the command-line editor, on the history of entered commands
/// (the last entry is the line being edited) and the history cursor. A
/// newline submits the line being edited; backspace erases its last
/// character; the up and down keys move the cursor through the history,
/// copying the visited command into the line (or clearing it back at the
/// bottom); any other code that is a printable scalar is appended.
pub open spec fn input_step(history: Seq<Seq<char>>, cur: int, ch: int) -> (
    Seq<Seq<char>>,
    int,
    Option<Seq<char>>,
) {
    let n = history.len() as int;
    if ch == '\n' as int {
        (history, cur, Some(history.last()))
    } else if ch == KEY_BACKSPACE as int {
        let line = history.last();
        let line2 = if line.len() > 0 {
            line.drop_last()
        } else {
            line
        };
        (history.update(n - 1, line2), cur, None)
    } else if ch == KEY_UP as int {
        let cur2 = if cur > 0 {
            cur - 1
        } else {
            cur
        };
        let hist2 = if cur2 < n - 1 {
            history.update(n - 1, history[cur2])
        } else {
            history.update(n - 1, Seq::empty())
        };
        (hist2, cur2, None)
    } else if ch == KEY_DOWN as int {
        let cur2 = if cur < n - 1 {
            cur + 1
        } else {
            cur
        };
        let hist2 = if cur2 < n - 1 {
            history.update(n - 1, history[cur2])
        } else {
            history.update(n - 1, Seq::empty())
        };
        (hist2, cur2, None)
    } else if 0 <= ch && is_unicode_scalar(ch) {
        (history.update(n - 1, history.last().push(ch as char)), cur, None)
    } else {
        (history, cur, None)
    }
}

/// The state of the command-line editor.
pub struct CommandInput {
    history: Vec<String>,
    cur: usize,
}

impl CommandInput {
    pub closed spec fn spec_history(&self) -> Seq<Seq<char>> {
        self.history.deep_view()
    }

    pub closed spec fn spec_cur(&self) -> int {
        self.cur as int
    }

    /// There is a line being edited, and the cursor points at a history
    /// entry.
    pub closed spec fn wf(&self) -> bool {
        self.history@.len() > 0 && self.cur < self.history@.len()
    }

    pub fn new() -> (r: CommandInput)
        ensures
            r.spec_history() == Seq::<Seq<char>>::empty(),
    {
        let r = CommandInput { history: Vec::new(), cur: 0 };
        proof {
            assert(r.spec_history() =~= Seq::<Seq<char>>::empty());
        }
        r
    }

    /// Opens a fresh empty line at the end of the history and points the
    /// cursor at it.
    pub fn begin(&mut self)
        ensures
            final(self).wf(),
            final(self).spec_history() == old(self).spec_history().push(Seq::<char>::empty()),
            final(self).spec_cur() == old(self).spec_history().len() as int,
    {
        self.history.push(String::new());
        self.cur = self.history.len() - 1;
        proof {
            assert(self.history.deep_view() =~= old(self).history.deep_view().push(
                Seq::<char>::empty(),
            ));
        }
    }

    /// Feeds one key code to the editor; a newline submits the edited line.
    pub fn step(&mut self, ch: i32) -> (r: Option<String>)
        requires
            old(self).wf(),
        ensures
            final(self).wf(),
            ({
                let st = input_step(old(self).spec_history(), old(self).spec_cur(), ch as int);
                &&& final(self).spec_history() == st.0
                &&& final(self).spec_cur() == st.1
                &&& match r {
                    Some(s) => st.2 == Some(s@),
                    None => st.2 is None,
                }
            }),
    {
        let n = self.history.len();
        let ghost st = input_step(self.spec_history(), self.spec_cur(), ch as int);
        if ch == 10 {
            let line = self.history[n - 1].clone();
            proof {
                assert(self.spec_history().last() == line@);
            }
            Some(line)
        } else if ch == KEY_BACKSPACE {
            let line = &mut self.history[n - 1];
            pop_char(line);
            proof {
                assert(self.history.deep_view() =~= st.0);
            }
            None
        } else if ch == KEY_UP {
            if self.cur > 0 {
                self.cur = self.cur - 1;
            }
            if self.cur < n - 1 {
                let cmd = self.history[self.cur].clone();
                self.history[n - 1] = cmd;
            } else {
                self.history[n - 1] = String::new();
            }
            proof {
                assert(self.history.deep_view() =~= st.0);
            }
            None
        } else if ch == KEY_DOWN {
            if self.cur < n - 1 {
                self.cur = self.cur + 1;
            }
            if self.cur < n - 1 {
                let cmd = self.history[self.cur].clone();
                self.history[n - 1] = cmd;
            } else {
                self.history[n - 1] = String::new();
            }
            proof {
                assert(self.history.deep_view() =~= st.0);
            }
            None
        } else if ch >= 0 {
            match char_from_u32(ch as u32) {
                Some(c) => {
                    let line = &mut self.history[n - 1];
                    push_char(line, c);
                    proof {
                        vstd::utf8::char_u32_cast(c, ch as u32);
                        assert(self.history.deep_view() =~= st.0);
                    }
                },
                None => {
                    proof {
                        assert(self.history.deep_view() =~= st.0);
                    }
                },
            }
            None
        } else {
            proof {
                assert(self.history.deep_view() =~= st.0);
            }
            None
        }
    }
}

// ---------------------------------------------------------------------------
// The playlist summary.
// ---------------------------------------------------------------------------
/// Counters describing the current playlist: its size and total duration.
#[derive(Clone, Copy, PartialEq, Eq, Structural, Debug)]
pub struct PlaylistInfo {
    pub size: u32,
    pub duration_secs: i64,
}

impl PlaylistInfo {
    /// An empty playlist.
    pub fn new() -> (r: PlaylistInfo)
        ensures
            r.size == 0,
            r.duration_secs == 0,
    {
        PlaylistInfo { size: 0, duration_secs: 0 }
    }
}

/// The trailing plural `s` of a count above one.
pub open spec fn plural(n: int) -> Seq<char> {
    if n > 1 {
        "s"@
    } else {
        Seq::empty()
    }
}

/// The header summary of a playlist: its item count and, when it holds
/// anything, its total duration in hours, minutes and seconds.
pub open spec fn playlist_info_display(size: int, dur: int) -> Seq<char> {
    if size == 0 {
        "0 item"@
    } else {
        let h = dur / 3600;
        let m = (dur / 60) % 60;
        let s = dur % 60;
        dec_str(size as nat) + " items, length: "@ + dec_str(h as nat) + " hour"@ + plural(h)
            + ", "@ + dec_str(m as nat) + " minute"@ + plural(m) + ", "@ + dec_str(s as nat)
            + " second"@ + plural(s)
    }
}

impl PlaylistInfo {
    /// Renders the summary for the header line.
    pub fn to_display_string(&self) -> (r: String)
        requires
            self.duration_secs >= 0,
        ensures
            r@ == playlist_info_display(self.size as int, self.duration_secs as int),
    {
        if self.size == 0 {
            return String::from_str("0 item");
        }
        let h = self.duration_secs / 3600;
        let m = (self.duration_secs / 60) % 60;
        let s = self.duration_secs % 60;
        let mut out = u64_to_string(self.size as u64);
        out.append(" items, length: ");
        let hs = u64_to_string(h as u64);
        out.append(hs.as_str());
        out.append(" hour");
        if h > 1 {
            out.append("s");
        }
        out.append(", ");
        let ms = u64_to_string(m as u64);
        out.append(ms.as_str());
        out.append(" minute");
        if m > 1 {
            out.append("s");
        }
        out.append(", ");
        let ss = u64_to_string(s as u64);
        out.append(ss.as_str());
        out.append(" second");
        if s > 1 {
            out.append("s");
        }
        proof {
            reveal_strlit("s");
            assert(out@ =~= playlist_info_display(self.size as int, self.duration_secs as int));
        }
        out
    }
}

} // verus!
