//! The screen's console writer: word wrapping and the rolling line
//! buffer.
//!
//! Text is wrapped to the screen width, split into lines at the
//! newlines the wrap inserts, and kept in a ring of rows whose bottom
//! index advances as lines complete. Pushing the rows to the screen is
//! the platform's business; everything before that is pure and lives
//! here. Bytes stand for characters; a space separates words.

use vstd::prelude::*;

verus! {

pub const V5_SCREEN_HEIGHT: usize = 8;
pub const V5_SCREEN_WIDTH: usize = 40;

pub const SPACE: u8 = 32;
pub const NEWLINE: u8 = 10;

/// Errors the screen can report.
#[derive(Clone, Copy, Debug, PartialEq, Eq, Structural)]
pub enum LcdError {
    /// The screen was not initialized.
    NotInitialized,
}

/// Where the word starting at `i` ends: at the next space or at the end
/// of the text.
pub open spec fn word_end(s: Seq<u8>, i: int) -> int
    decreases s.len() - i,
    when 0 <= i <= s.len()
{
    if i >= s.len() || s[i] == SPACE {
        i
    } else {
        word_end(s, i + 1)
    }
}

proof fn lemma_word_end_bounds(s: Seq<u8>, i: int)
    requires
        0 <= i <= s.len(),
    ensures
        i <= word_end(s, i) <= s.len(),
    decreases s.len() - i,
{
    if !(i >= s.len() || s[i] == SPACE) {
        lemma_word_end_bounds(s, i + 1);
    }
}

proof fn lemma_word_end_char(s: Seq<u8>, i: int, j: int)
    requires
        0 <= i <= j <= s.len(),
        forall|k: int| i <= k < j ==> s[k] != SPACE,
        j == s.len() || s[j] == SPACE,
    ensures
        word_end(s, i) == j,
    decreases j - i,
{
    if i < j {
        lemma_word_end_char(s, i + 1, j);
    }
}

/// The text from `i` on, wrapped: each word is emitted with a trailing
/// space, preceded by a newline when the room left on the line cannot
/// take the word and its space. A break refills the room to the screen
/// width less the word; the room never goes below zero.
pub open spec fn wrap_from(s: Seq<u8>, i: int, room: int) -> Seq<u8>
    decreases s.len() - i,
    when 0 <= i <= s.len()
    via wrap_from_decreases
{
    let j = word_end(s, i);
    let w = j - i;
    let broke = w + 1 > room;
    let refilled: int = if broke {
        if w <= V5_SCREEN_WIDTH as int {
            V5_SCREEN_WIDTH as int - w
        } else {
            0
        }
    } else {
        room
    };
    let left: int = if refilled >= w + 1 {
        refilled - (w + 1)
    } else {
        0
    };
    let part = (if broke {
        seq![NEWLINE]
    } else {
        Seq::<u8>::empty()
    }) + s.subrange(i, j) + seq![SPACE];
    if j >= s.len() {
        part
    } else {
        part + wrap_from(s, j + 1, left)
    }
}

#[via_fn]
proof fn wrap_from_decreases(s: Seq<u8>, i: int, room: int) {
    lemma_word_end_bounds(s, i);
}

/// Wrap the text to the screen width: words keep their order and each
/// gets a trailing space; a newline goes in front of every word that
/// would not fit in the room left on its line.
pub fn word_wrap(text: &Vec<u8>) -> (r: Vec<u8>)
    ensures
        r@ == wrap_from(text@, 0, V5_SCREEN_WIDTH as int),
{
    let mut result: Vec<u8> = Vec::new();
    let mut i: usize = 0;
    let mut room: usize = V5_SCREEN_WIDTH;
    loop
        invariant_except_break
            0 <= i <= text.len(),
            wrap_from(text@, 0, V5_SCREEN_WIDTH as int) == result@ + wrap_from(
                text@,
                i as int,
                room as int,
            ),
        ensures
            result@ == wrap_from(text@, 0, V5_SCREEN_WIDTH as int),
        decreases text.len() - i,
    {
        let ghost res0 = result@;
        let ghost room0 = room as int;
        let mut j: usize = i;
        while j < text.len() && text[j] != SPACE
            invariant
                i <= j <= text.len(),
                forall|k: int| i as int <= k < j as int ==> text@[k] != SPACE,
            decreases text.len() - j,
        {
            j = j + 1;
        }
        proof {
            lemma_word_end_char(text@, i as int, j as int);
        }
        let w = j - i;
        let broke = w >= room;
        if broke {
            result.push(NEWLINE);
            room = if w <= V5_SCREEN_WIDTH {
                V5_SCREEN_WIDTH - w
            } else {
                0
            };
        }
        room = if room > w {
            room - w - 1
        } else {
            0
        };
        let ghost mid = result@;
        let mut k = i;
        while k < j
            invariant
                i <= k <= j <= text.len(),
                result@ == mid + text@.subrange(i as int, k as int),
            decreases j - k,
        {
            let c = text[k];
            result.push(c);
            k = k + 1;
        }
        result.push(SPACE);
        proof {
            assert(result@ =~= res0 + ((if broke {
                seq![NEWLINE]
            } else {
                Seq::<u8>::empty()
            }) + text@.subrange(i as int, j as int) + seq![SPACE]));
        }
        if j >= text.len() {
            proof {
                assert(wrap_from(text@, i as int, room0) =~= (if broke {
                    seq![NEWLINE]
                } else {
                    Seq::<u8>::empty()
                }) + text@.subrange(i as int, j as int) + seq![SPACE]);
            }
            break;
        } else {
            proof {
                assert(wrap_from(text@, i as int, room0) =~= ((if broke {
                    seq![NEWLINE]
                } else {
                    Seq::<u8>::empty()
                }) + text@.subrange(i as int, j as int) + seq![SPACE]) + wrap_from(
                    text@,
                    j + 1,
                    room as int,
                ));
            }
            i = j + 1;
        }
    }
    result
}

/// What feeding wrapped text into the line buffer does: a newline rolls
/// the bottom row forward and files the gathered line there; any other
/// byte joins the line being gathered.
pub open spec fn feed(rows: Seq<Seq<u8>>, bottom: int, current: Seq<u8>, s: Seq<u8>) -> (
    Seq<Seq<u8>>,
    int,
    Seq<u8>,
)
    decreases s.len(),
{
    if s.len() == 0 {
        (rows, bottom, current)
    } else if s[0] == NEWLINE {
        let rolled = if bottom + 1 == V5_SCREEN_HEIGHT as int {
            0
        } else {
            bottom + 1
        };
        feed(rows.update(rolled, current), rolled, Seq::<u8>::empty(), s.drop_first())
    } else {
        feed(rows, bottom, current.push(s[0]), s.drop_first())
    }
}

/// The console writer: a ring of rows, the index of the bottom row, and
/// the line being gathered.
pub struct ConsoleLcd {
    rows: Vec<Vec<u8>>,
    bottom_line_index: usize,
    current_line: Vec<u8>,
}

fn set_row(v: &mut Vec<Vec<u8>>, i: usize, row: Vec<u8>)
    requires
        i < old(v).len(),
    ensures
        final(v)@ == old(v)@.update(i as int, row),
{
    let ghost s0 = v@;
    let _ = v.remove(i);
    v.insert(i, row);
    proof {
        assert(v@ =~= s0.update(i as int, row));
    }
}

impl ConsoleLcd {
    /// The rows as mathematics.
    pub closed spec fn rows_view(&self) -> Seq<Seq<u8>> {
        self.rows@.map_values(|row: Vec<u8>| row@)
    }

    pub closed spec fn bottom(&self) -> int {
        self.bottom_line_index as int
    }

    pub closed spec fn current(&self) -> Seq<u8> {
        self.current_line@
    }

    pub open spec fn wf(&self) -> bool {
        self.rows_view().len() == V5_SCREEN_HEIGHT as int && 0 <= self.bottom()
            < V5_SCREEN_HEIGHT as int
    }

    /// A fresh writer: empty rows, the bottom at the last row, nothing
    /// gathered. The screen itself is brought up by the platform.
    pub fn new() -> (w: ConsoleLcd)
        ensures
            w.wf(),
            w.rows_view() == Seq::new(V5_SCREEN_HEIGHT as nat, |i: int| Seq::<u8>::empty()),
            w.bottom() == V5_SCREEN_HEIGHT as int - 1,
            w.current() == Seq::<u8>::empty(),
    {
        let mut rows: Vec<Vec<u8>> = Vec::new();
        let mut i: usize = 0;
        while i < V5_SCREEN_HEIGHT
            invariant
                i <= V5_SCREEN_HEIGHT,
                rows@.len() == i,
                forall|k: int| 0 <= k < i ==> #[trigger] rows@[k]@ == Seq::<u8>::empty(),
            decreases V5_SCREEN_HEIGHT - i,
        {
            rows.push(Vec::new());
            i = i + 1;
        }
        let w = ConsoleLcd { rows, bottom_line_index: V5_SCREEN_HEIGHT - 1, current_line: Vec::new() };
        proof {
            assert(w.rows_view() =~= Seq::new(V5_SCREEN_HEIGHT as nat, |i: int| Seq::<u8>::empty()));
        }
        w
    }

    /// Roll the bottom row forward by one, wrapping around the ring.
    pub fn shift_up_wrapping(&mut self)
        requires
            old(self).wf(),
        ensures
            final(self).wf(),
            final(self).bottom() == (old(self).bottom() + 1) % (V5_SCREEN_HEIGHT as int),
            final(self).rows_view() == old(self).rows_view(),
            final(self).current() == old(self).current(),
    {
        self.bottom_line_index = (self.bottom_line_index + 1) % V5_SCREEN_HEIGHT;
    }

    /// Wrap the text and feed it into the rows; report whether a line
    /// was completed, so that the caller knows to push the rows out.
    pub fn write_str(&mut self, text: &Vec<u8>) -> (should_render: bool)
        requires
            old(self).wf(),
        ensures
            final(self).wf(),
            (final(self).rows_view(), final(self).bottom(), final(self).current()) == feed(
                old(self).rows_view(),
                old(self).bottom(),
                old(self).current(),
                wrap_from(text@, 0, V5_SCREEN_WIDTH as int),
            ),
            should_render == exists|k: int|
                0 <= k < wrap_from(text@, 0, V5_SCREEN_WIDTH as int).len() && wrap_from(
                    text@,
                    0,
                    V5_SCREEN_WIDTH as int,
                )[k] == NEWLINE,
    {
        let wrapped = word_wrap(text);
        let ghost all = wrapped@;
        let ghost start = (old(self).rows_view(), old(self).bottom(), old(self).current());
        let mut should_render = false;
        let mut idx: usize = 0;
        proof {
            assert(all.subrange(0, all.len() as int) =~= all);
        }
        while idx < wrapped.len()
            invariant
                self.wf(),
                0 <= idx <= all.len(),
                wrapped@ == all,
                feed(start.0, start.1, start.2, all) == feed(
                    self.rows_view(),
                    self.bottom(),
                    self.current(),
                    all.subrange(idx as int, all.len() as int),
                ),
                should_render == exists|k: int| 0 <= k < idx && all[k] == NEWLINE,
            decreases wrapped.len() - idx,
        {
            let ghost rest = all.subrange(idx as int, all.len() as int);
            let ghost st = (self.rows_view(), self.bottom(), self.current());
            let c = wrapped[idx];
            proof {
                assert(rest[0] == c);
                assert(rest.drop_first() =~= all.subrange(idx + 1, all.len() as int));
            }
            if c == NEWLINE {
                should_render = true;
                let line = self.current_line.clone();
                self.current_line.clear();
                self.bottom_line_index = (self.bottom_line_index + 1) % V5_SCREEN_HEIGHT;
                let ghost rolled = self.bottom();
                set_row(&mut self.rows, self.bottom_line_index, line);
                proof {
                    assert(line@ == st.2);
                    assert(self.rows_view() =~= st.0.update(rolled, st.2));
                    assert(feed(st.0, st.1, st.2, rest) == feed(
                        self.rows_view(),
                        self.bottom(),
                        self.current(),
                        rest.drop_first(),
                    ));
                }
            } else {
                self.current_line.push(c);
                proof {
                    assert(feed(st.0, st.1, st.2, rest) == feed(
                        self.rows_view(),
                        self.bottom(),
                        self.current(),
                        rest.drop_first(),
                    ));
                }
            }
            idx = idx + 1;
        }
        proof {
            assert(all.subrange(all.len() as int, all.len() as int) =~= Seq::<u8>::empty());
        }
        should_render
    }

    /// The rows in top-to-bottom display order: the row under the
    /// bottom index comes out last.
    pub fn display_rows(&self) -> (out: Vec<Vec<u8>>)
        requires
            self.wf(),
        ensures
            out@.len() == V5_SCREEN_HEIGHT as int,
            forall|r: int|
                0 <= r < V5_SCREEN_HEIGHT as int ==> #[trigger] out@[r]@ == self.rows_view()[(r
                    + self.bottom() + 1) % (V5_SCREEN_HEIGHT as int)],
    {
        let mut out: Vec<Vec<u8>> = Vec::new();
        let mut r: usize = 0;
        while r < V5_SCREEN_HEIGHT
            invariant
                self.wf(),
                r <= V5_SCREEN_HEIGHT,
                out@.len() == r,
                forall|q: int|
                    0 <= q < r ==> #[trigger] out@[q]@ == self.rows_view()[(q + self.bottom() + 1)
                        % (V5_SCREEN_HEIGHT as int)],
            decreases V5_SCREEN_HEIGHT - r,
        {
            let src = (r + self.bottom_line_index + 1) % V5_SCREEN_HEIGHT;
            let row = self.rows[src].clone();
            out.push(row);
            r = r + 1;
        }
        out
    }
}

} // verus!
