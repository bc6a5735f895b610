//! The composer's editable text buffer: a character vector with a cursor,
//! a one-slot kill ring, and atomic inline elements (placeholder ranges the
//! cursor can never rest inside and editing treats as single units).
//!
//! Positions are character indices. The type's invariant `spec_wf` keeps the
//! element list sorted, disjoint and in bounds, and keeps the cursor outside
//! the interior of every element.

use vstd::prelude::*;
use crate::text::{spec_is_space, chars_of_str, string_of_chars};
use crate::width::{char_width_of, char_display_width, spec_width, spec_cap_usize, width_of_range};

verus! {

/// One atomic inline element: the characters `[start, end)` of the text.
#[derive(Clone, Copy, Debug, PartialEq, Eq, Structural)]
pub struct ElementRange {
    pub start: usize,
    pub end: usize,
}

/// Elements are nonempty, in bounds, sorted and pairwise disjoint.
pub open spec fn spec_elements_wf(els: Seq<ElementRange>, text_len: nat) -> bool {
    &&& forall|i: int|
        0 <= i < els.len() ==> (#[trigger] els[i]).start < els[i].end && els[i].end <= text_len
    &&& forall|i: int, j: int| 0 <= i < j < els.len() ==> (#[trigger] els[i]).end <= (#[trigger] els[j]).start
}

/// `pos` does not fall strictly inside any element.
pub open spec fn spec_pos_outside(els: Seq<ElementRange>, pos: int) -> bool {
    forall|i: int| 0 <= i < els.len() ==> !((#[trigger] els[i]).start < pos < els[i].end)
}

/// `pos` moved to the nearer boundary of the element it falls inside, if any.
pub open spec fn spec_clamp_nearest(els: Seq<ElementRange>, pos: int) -> int {
    if spec_pos_outside(els, pos) {
        pos
    } else {
        let i = choose|i: int| 0 <= i < els.len() && (#[trigger] els[i]).start < pos < els[i].end;
        if pos - els[i].start <= els[i].end - pos {
            els[i].start as int
        } else {
            els[i].end as int
        }
    }
}

/// The position one step left of `pos`: the start of the element whose
/// range `(start, end]` holds `pos`, if any, else `pos - 1` (0 stays 0).
pub open spec fn spec_prev_boundary(els: Seq<ElementRange>, pos: int) -> int {
    if pos <= 0 {
        0
    } else if exists|i: int|
        0 <= i < els.len() && (#[trigger] els[i]).start < pos && pos <= els[i].end {
        let i = choose|i: int|
            0 <= i < els.len() && (#[trigger] els[i]).start < pos && pos <= els[i].end;
        els[i].start as int
    } else {
        pos - 1
    }
}

/// The position one step right of `pos`: the end of the element whose range
/// `[start, end)` holds `pos`, if any, else `pos + 1` (the end of the text
/// stays put).
pub open spec fn spec_next_boundary(els: Seq<ElementRange>, pos: int, len: int) -> int {
    if pos >= len {
        len
    } else if exists|i: int|
        0 <= i < els.len() && (#[trigger] els[i]).start <= pos && pos < els[i].end {
        let i = choose|i: int|
            0 <= i < els.len() && (#[trigger] els[i]).start <= pos && pos < els[i].end;
        els[i].end as int
    } else {
        pos + 1
    }
}

/// The start of the logical line holding `pos`: just after the previous
/// newline, or the start of the text.
pub open spec fn spec_bol(s: Seq<char>, pos: int) -> int
    decreases pos,
{
    if pos <= 0 {
        0
    } else if s[pos - 1] == '\n' {
        pos
    } else {
        spec_bol(s, pos - 1)
    }
}

/// The end of the logical line holding `pos`: the next newline, or the end
/// of the text.
pub open spec fn spec_eol(s: Seq<char>, pos: int) -> int
    decreases s.len() - pos,
{
    if pos >= s.len() {
        s.len() as int
    } else if s[pos] == '\n' {
        pos
    } else {
        spec_eol(s, pos + 1)
    }
}

/// `pos` snapped to the start (or end) of the element whose interior holds
/// it, if any.
pub open spec fn spec_adjust_out(els: Seq<ElementRange>, pos: int, prefer_start: bool) -> int {
    if spec_pos_outside(els, pos) {
        pos
    } else {
        let i = choose|i: int| 0 <= i < els.len() && (#[trigger] els[i]).start < pos < els[i].end;
        if prefer_start {
            els[i].start as int
        } else {
            els[i].end as int
        }
    }
}

/// The characters treated as word separators by word motion, besides
/// whitespace.
pub open spec fn spec_word_sep(c: char) -> bool {
    c == '`' || c == '~' || c == '!' || c == '@' || c == '#' || c == '$' || c == '%' || c == '^'
        || c == '&' || c == '*' || c == '(' || c == ')' || c == '-' || c == '=' || c == '+' || c
        == '[' || c == '{' || c == ']' || c == '}' || c == '\\' || c == '|' || c == ';' || c == ':'
        || c == '\'' || c == '"' || c == ',' || c == '.' || c == '<' || c == '>' || c == '/' || c
        == '?'
}

/// The position reached by skipping whitespace leftwards from `pos`.
pub open spec fn spec_skip_spaces_back(s: Seq<char>, pos: int) -> int
    decreases pos,
{
    if pos <= 0 {
        0
    } else if spec_is_space(s[pos - 1]) {
        spec_skip_spaces_back(s, pos - 1)
    } else {
        pos
    }
}

/// The position reached by skipping a run of word characters of one class
/// (separator or not) leftwards from `pos`.
pub open spec fn spec_skip_class_back(s: Seq<char>, pos: int, cls: bool) -> int
    decreases pos,
{
    if pos <= 0 {
        0
    } else if !spec_is_space(s[pos - 1]) && spec_word_sep(s[pos - 1]) == cls {
        spec_skip_class_back(s, pos - 1, cls)
    } else {
        pos
    }
}

/// The start of the word before `pos`: skip whitespace, then the same-class
/// run, then snap out of any element (towards its start).
pub open spec fn spec_prev_word_start(s: Seq<char>, els: Seq<ElementRange>, pos: int) -> int {
    let p1 = spec_skip_spaces_back(s, pos);
    if p1 == 0 {
        0
    } else {
        let cls = spec_word_sep(s[p1 - 1]);
        spec_adjust_out(els, spec_skip_class_back(s, p1, cls), true)
    }
}

/// The position reached by skipping whitespace rightwards from `pos`.
pub open spec fn spec_skip_spaces_fwd(s: Seq<char>, pos: int) -> int
    decreases s.len() - pos,
{
    if pos >= s.len() {
        s.len() as int
    } else if spec_is_space(s[pos]) {
        spec_skip_spaces_fwd(s, pos + 1)
    } else {
        pos
    }
}

/// The position reached by skipping a same-class run rightwards from `pos`.
pub open spec fn spec_skip_class_fwd(s: Seq<char>, pos: int, cls: bool) -> int
    decreases s.len() - pos,
{
    if pos >= s.len() {
        s.len() as int
    } else if !spec_is_space(s[pos]) && spec_word_sep(s[pos]) == cls {
        spec_skip_class_fwd(s, pos + 1, cls)
    } else {
        pos
    }
}

/// The end of the word after `pos`: skip whitespace, then the same-class run
/// starting at the first word character, then snap out of any element
/// (towards its end).
pub open spec fn spec_next_word_end(s: Seq<char>, els: Seq<ElementRange>, pos: int) -> int {
    let p1 = spec_skip_spaces_fwd(s, pos);
    if p1 == s.len() {
        s.len() as int
    } else {
        let cls = spec_word_sep(s[p1]);
        spec_adjust_out(els, spec_skip_class_fwd(s, p1 + 1, cls), false)
    }
}

/// `spec_prev_boundary` iterated `n` times.
pub open spec fn spec_prev_boundary_n(els: Seq<ElementRange>, pos: int, n: nat) -> int
    decreases n,
{
    if n == 0 {
        pos
    } else {
        spec_prev_boundary_n(els, spec_prev_boundary(els, pos), (n - 1) as nat)
    }
}

/// `spec_next_boundary` iterated `n` times.
pub open spec fn spec_next_boundary_n(els: Seq<ElementRange>, pos: int, len: int, n: nat) -> int
    decreases n,
{
    if n == 0 {
        pos
    } else {
        spec_next_boundary_n(els, spec_next_boundary(els, pos, len), len, (n - 1) as nat)
    }
}

/// The landing position for a vertical move: the first position on
/// `[i, end)` where the accumulated display width passes `target`, else
/// `end`. The accumulator saturates with the executable sum.
pub open spec fn spec_move_col(
    s: Seq<char>,
    i: int,
    end: int,
    target: int,
    acc: int,
) -> int
    decreases end - i,
{
    if i >= end {
        end
    } else {
        let w = spec_cap_usize((acc + char_width_of(s[i])) as nat) as int;
        if w > target {
            i
        } else {
            spec_move_col(s, i + 1, end, target, w)
        }
    }
}

/// With disjoint elements, at most one element's `(start, end]` holds `pos`.
pub proof fn lemma_half_open_unique(
    els: Seq<ElementRange>,
    pos: int,
    i: int,
    j: int,
    text_len: nat,
)
    requires
        spec_elements_wf(els, text_len),
        0 <= i < els.len(),
        0 <= j < els.len(),
        els[i].start < pos <= els[i].end,
        els[j].start < pos <= els[j].end,
    ensures
        i == j,
{
    if i < j {
        assert(els[i].end <= els[j].start);
    }
    if j < i {
        assert(els[j].end <= els[i].start);
    }
}

/// With disjoint elements, at most one element's `[start, end)` holds `pos`.
pub proof fn lemma_half_open_low_unique(
    els: Seq<ElementRange>,
    pos: int,
    i: int,
    j: int,
    text_len: nat,
)
    requires
        spec_elements_wf(els, text_len),
        0 <= i < els.len(),
        0 <= j < els.len(),
        els[i].start <= pos < els[i].end,
        els[j].start <= pos < els[j].end,
    ensures
        i == j,
{
    if i < j {
        assert(els[i].end <= els[j].start);
    }
    if j < i {
        assert(els[j].end <= els[i].start);
    }
}

/// With disjoint elements, at most one element's interior holds `pos`.
pub proof fn lemma_containing_unique(els: Seq<ElementRange>, pos: int, i: int, j: int, text_len: nat)
    requires
        spec_elements_wf(els, text_len),
        0 <= i < els.len(),
        0 <= j < els.len(),
        els[i].start < pos < els[i].end,
        els[j].start < pos < els[j].end,
    ensures
        i == j,
{
    if i < j {
        assert(els[i].end <= els[j].start);
    }
    if j < i {
        assert(els[j].end <= els[i].start);
    }
}

pub struct TextArea {
    pub text: Vec<char>,
    pub cursor_pos: usize,
    pub preferred_col: Option<usize>,
    pub kill_buffer: Vec<char>,
    pub elements: Vec<ElementRange>,
}

impl TextArea {
    /// The invariant every operation preserves: a cursor in bounds, a sound
    /// element list, and a cursor outside the interior of every element.
    pub open spec fn spec_wf(self) -> bool {
        &&& self.cursor_pos <= self.text@.len()
        &&& spec_elements_wf(self.elements@, self.text@.len())
        &&& spec_pos_outside(self.elements@, self.cursor_pos as int)
    }

    pub fn new() -> (r: TextArea)
        ensures
            r.spec_wf(),
            r.text@.len() == 0,
            r.cursor_pos == 0,
            r.elements@.len() == 0,
            r.kill_buffer@.len() == 0,
            r.preferred_col is None,
    {
        TextArea {
            text: Vec::new(),
            cursor_pos: 0,
            preferred_col: None,
            kill_buffer: Vec::new(),
            elements: Vec::new(),
        }
    }

    pub fn clear(&mut self)
        ensures
            final(self).spec_wf(),
            final(self).text@.len() == 0,
            final(self).cursor_pos == 0,
            final(self).elements@.len() == 0,
            final(self).kill_buffer@.len() == 0,
            final(self).preferred_col is None,
    {
        self.text = Vec::new();
        self.cursor_pos = 0;
        self.preferred_col = None;
        self.kill_buffer = Vec::new();
        self.elements = Vec::new();
    }

    /// The buffer content as a `String`.
    pub fn text(&self) -> (r: String)
        ensures
            r@ == self.text@,
    {
        string_of_chars(&self.text)
    }

    pub fn is_empty(&self) -> (r: bool)
        ensures
            r == (self.text@.len() == 0),
    {
        self.text.len() == 0
    }

    pub fn cursor(&self) -> (r: usize)
        ensures
            r == self.cursor_pos,
    {
        self.cursor_pos
    }

    /// True if the textarea has any elements.
    pub fn has_elements(&self) -> (r: bool)
        ensures
            r == (self.elements@.len() > 0),
    {
        self.elements.len() > 0
    }

    /// The index of the element whose interior holds `pos`, if any; elements
    /// are disjoint, so it is unique.
    pub fn find_element_containing(&self, pos: usize) -> (r: Option<usize>)
        ensures
            match r {
                Some(i) => 0 <= i < self.elements@.len() && self.elements@[i as int].start < pos
                    < self.elements@[i as int].end,
                None => spec_pos_outside(self.elements@, pos as int),
            },
    {
        let mut i: usize = 0;
        while i < self.elements.len()
            invariant
                i <= self.elements@.len(),
                forall|j: int|
                    0 <= j < i ==> !((#[trigger] self.elements@[j]).start < pos
                        < self.elements@[j].end),
            decreases self.elements@.len() - i,
        {
            let e = self.elements[i];
            if e.start < pos && pos < e.end {
                return Some(i);
            }
            i += 1;
        }
        None
    }

    /// `pos` clamped to the nearer boundary of the element it falls inside,
    /// if any; positions outside every element come back unchanged.
    pub fn clamp_pos_to_nearest_boundary(&self, pos: usize) -> (r: usize)
        requires
            pos <= self.text@.len(),
            spec_elements_wf(self.elements@, self.text@.len()),
        ensures
            r <= self.text@.len(),
            spec_pos_outside(self.elements@, r as int),
            spec_pos_outside(self.elements@, pos as int) ==> r == pos,
            r == spec_clamp_nearest(self.elements@, pos as int),
    {
        match self.find_element_containing(pos) {
            Some(i) => {
                let e = self.elements[i];
                let r = if pos - e.start <= e.end - pos {
                    e.start
                } else {
                    e.end
                };
                proof {
                    lemma_boundary_outside(self.elements@, i as int, self.text@.len());
                    let w = choose|w: int|
                        0 <= w < self.elements@.len() && (#[trigger] self.elements@[w]).start < pos
                            < self.elements@[w].end;
                    lemma_containing_unique(
                        self.elements@,
                        pos as int,
                        i as int,
                        w,
                        self.text@.len(),
                    );
                }
                r
            },
            None => pos,
        }
    }

    /// The range `[start, end)` grown to fully cover every element it
    /// intersects.
    pub fn expand_range_to_element_boundaries(&self, start: usize, end: usize) -> (r: (
        usize,
        usize,
    ))
        requires
            spec_elements_wf(self.elements@, self.text@.len()),
            start <= end <= self.text@.len(),
        ensures
            (r.0 as int, r.1 as int) == spec_expand_range(self.elements@, start as int, end as int),
            r.0 <= start,
            end <= r.1 <= self.text@.len(),
            forall|i: int|
                0 <= i < self.elements@.len() ==> ((#[trigger] self.elements@[i]).end <= r.0
                    || self.elements@[i].start >= r.1 || (r.0 <= self.elements@[i].start
                    && self.elements@[i].end <= r.1)),
    {
        let ghost els = self.elements@;
        let mut s = start;
        let mut e = end;
        let mut i: usize = 0;
        proof {
            assert(els.take(0) =~= Seq::<ElementRange>::empty());
        }
        while i < self.elements.len()
            invariant
                i <= els.len(),
                els == self.elements@,
                start <= end <= self.text@.len(),
                (s as int, e as int) == spec_expand_range(els.take(i as int), start as int, end as int),
            decreases els.len() - i,
        {
            proof {
                assert(els.take(i + 1).drop_last() =~= els.take(i as int));
                assert(els.take(i + 1).last() == els[i as int]);
            }
            let el = self.elements[i];
            if el.start < end && el.end > start {
                if el.start < s {
                    s = el.start;
                }
                if el.end > e {
                    e = el.end;
                }
            }
            i += 1;
        }
        proof {
            assert(els.take(els.len() as int) =~= els);
            lemma_expand_range_props(els, start as int, end as int, self.text@.len());
        }
        (s, e)
    }

    /// Replaces the characters of `[start, end)` (grown to element
    /// boundaries) by `text`. Elements inside the range disappear, elements
    /// after it shift, the cursor follows the edit and is clamped to an
    /// element boundary, and the sticky column is forgotten. A backwards
    /// range leaves the textarea unchanged.
    pub fn replace_range(&mut self, start: usize, end: usize, text: &str)
        requires
            old(self).spec_wf(),
        ensures
            final(self).spec_wf(),
            ({
                let len0 = old(self).text@.len() as int;
                let s0 = spec_min(start as int, len0);
                let e0 = spec_min(end as int, len0);
                if s0 > e0 {
                    *final(self) == *old(self)
                } else {
                    let ex = spec_expand_range(old(self).elements@, s0, e0);
                    let diff = text@.len() - (ex.1 - ex.0);
                    let new_len = len0 + diff;
                    let moved = (if old(self).cursor_pos < ex.0 {
                        old(self).cursor_pos as int
                    } else if old(self).cursor_pos <= ex.1 {
                        ex.0 + text@.len()
                    } else {
                        old(self).cursor_pos + diff
                    });
                    &&& final(self).text@ == old(self).text@.take(ex.0) + text@ + old(
                        self,
                    ).text@.skip(ex.1)
                    &&& final(self).elements@ == spec_shift_elements(
                        old(self).elements@,
                        ex.0,
                        ex.1,
                        diff,
                    )
                    &&& final(self).cursor_pos == moved
                    &&& final(self).kill_buffer == old(self).kill_buffer
                    &&& final(self).preferred_col is None
                }
            }),
    {
        let len = self.text.len();
        let s0 = if start < len {
            start
        } else {
            len
        };
        let e0 = if end < len {
            end
        } else {
            len
        };
        if s0 > e0 {
            return ;
        }
        let (s, e) = self.expand_range_to_element_boundaries(s0, e0);
        let ins = chars_of_str(text);
        let new_text = crate::text::splice_chars(&self.text, s, e, &ins);
        let new_len = new_text.len();
        proof {
            assert(new_len == self.text@.len() - (e - s) + ins@.len());
            assert(self.text@.subrange(0, s as int) =~= self.text@.take(s as int));
            assert(self.text@.subrange(e as int, self.text@.len() as int) =~= self.text@.skip(
                e as int,
            ));
            assert forall|i: int|
                0 <= i < self.elements@.len() implies (#[trigger] self.elements@[i]).start
                <= self.elements@[i].end && self.elements@[i].end + ins@.len() <= usize::MAX + (e
                - s) by {
                assert(self.elements@[i].end <= self.text@.len());
            }
        }
        let ghost old_els = self.elements@;
        let ghost old_len = self.text@.len();
        let old_cursor = self.cursor_pos;
        self.text = new_text;
        shift_elements(&mut self.elements, s, e - s, ins.len());
        proof {
            lemma_shift_elements_wf(
                old_els,
                s as int,
                e as int,
                ins@.len() - (e - s),
                old_len,
            );
        }
        let moved = if old_cursor < s {
            old_cursor
        } else if old_cursor <= e {
            s + ins.len()
        } else {
            old_cursor - (e - s) + ins.len()
        };
        proof {
            lemma_replace_cursor_outside(
                old_els,
                s as int,
                e as int,
                ins@.len() - (e - s),
                old_cursor as int,
                old_len,
            );
            assert(moved <= new_len);
            assert(moved as int == (if old_cursor < s {
                old_cursor as int
            } else if old_cursor <= e {
                e + (ins@.len() - (e - s))
            } else {
                old_cursor + (ins@.len() - (e - s))
            }));
            assert(spec_pos_outside(self.elements@, moved as int));
        }
        let capped = if moved < new_len {
            moved
        } else {
            new_len
        };
        self.cursor_pos = self.clamp_pos_to_nearest_boundary(capped);
        self.preferred_col = None;
    }

    /// Inserts `text` at `pos` (clamped to a valid position outside every
    /// element). The cursor moves with the insertion when it sits at or after
    /// the insertion point, and the sticky column is forgotten.
    pub fn insert_str_at(&mut self, pos: usize, text: &str)
        requires
            old(self).spec_wf(),
        ensures
            final(self).spec_wf(),
            final(self).kill_buffer == old(self).kill_buffer,
            final(self).preferred_col is None,
            // The insertion lands at `pos`, clamped into the text and, when
            // it falls strictly inside an element, snapped to that
            // element's nearer boundary.
            ({
                let p = spec_clamp_nearest(
                    old(self).elements@,
                    spec_min(pos as int, old(self).text@.len() as int),
                );
                &&& 0 <= p <= old(self).text@.len()
                &&& spec_pos_outside(old(self).elements@, p)
                &&& final(self).text@ == old(self).text@.take(p) + text@ + old(self).text@.skip(p)
                &&& final(self).cursor_pos == (if p <= old(self).cursor_pos {
                    old(self).cursor_pos + text@.len()
                } else {
                    old(self).cursor_pos as int
                })
                &&& final(self).elements@ == spec_shift_elements(
                    old(self).elements@,
                    p,
                    p,
                    text@.len() as int,
                )
            }),
    {
        let p = self.clamp_pos_for_insertion(pos);
        let ins = chars_of_str(text);
        let new_text = crate::text::splice_chars(&self.text, p, p, &ins);
        let nlen = new_text.len();
        proof {
            assert(nlen == self.text@.len() + ins@.len());
            assert(self.text@.subrange(0, p as int) =~= self.text@.take(p as int));
            assert(self.text@.subrange(p as int, self.text@.len() as int) =~= self.text@.skip(
                p as int,
            ));
            assert forall|i: int|
                0 <= i < self.elements@.len() implies ((#[trigger] self.elements@[i]).end <= p
                || self.elements@[i].start >= p) by {
                assert(!(self.elements@[i].start < p < self.elements@[i].end));
            }
            assert forall|i: int|
                0 <= i < self.elements@.len() implies (#[trigger] self.elements@[i]).start
                <= self.elements@[i].end && self.elements@[i].end + ins@.len() <= usize::MAX
                by {
                assert(self.elements@[i].end <= self.text@.len());
            }
        }
        let ghost old_els = self.elements@;
        let ghost old_len = self.text@.len();
        let ghost old_cursor = self.cursor_pos as int;
        self.text = new_text;
        shift_elements(&mut self.elements, p, 0, ins.len());
        if p <= self.cursor_pos {
            self.cursor_pos = self.cursor_pos + ins.len();
        }
        self.preferred_col = None;
        proof {
            lemma_shift_elements_wf(old_els, p as int, p as int, ins@.len() as int, old_len);
            lemma_insert_preserves_outside(
                old_els,
                p as int,
                ins@.len() as int,
                old_cursor,
                old_len,
            );
        }
    }

    /// Inserts `text` at the cursor.
    pub fn insert_str(&mut self, text: &str)
        requires
            old(self).spec_wf(),
        ensures
            final(self).spec_wf(),
            final(self).text@ == old(self).text@.take(old(self).cursor_pos as int) + text@ + old(
                self,
            ).text@.skip(old(self).cursor_pos as int),
            final(self).cursor_pos == old(self).cursor_pos + text@.len(),
            final(self).elements@ == spec_shift_elements(
                old(self).elements@,
                old(self).cursor_pos as int,
                old(self).cursor_pos as int,
                text@.len() as int,
            ),
            final(self).kill_buffer == old(self).kill_buffer,
            final(self).preferred_col is None,
    {
        let c = self.cursor_pos;
        self.insert_str_at(c, text);
        proof {
            assert(spec_clamp_nearest(
                old(self).elements@,
                spec_min(c as int, old(self).text@.len() as int),
            ) == c as int);
        }
    }

    /// Inserts `text` at the cursor as one atomic element; the cursor lands
    /// just after it. With no elements present beforehand, the element list
    /// becomes exactly the new range.
    pub fn insert_element(&mut self, text: &str)
        requires
            old(self).spec_wf(),
        ensures
            final(self).spec_wf(),
            final(self).text@ == old(self).text@.take(old(self).cursor_pos as int) + text@ + old(
                self,
            ).text@.skip(old(self).cursor_pos as int),
            final(self).cursor_pos == old(self).cursor_pos + text@.len(),
            text@.len() > 0 ==> final(self).elements@.len() == spec_shift_elements(
                old(self).elements@,
                old(self).cursor_pos as int,
                old(self).cursor_pos as int,
                text@.len() as int,
            ).len() + 1,
            text@.len() > 0 && old(self).elements@.len() == 0 ==> final(self).elements@ =~= seq![
                ElementRange {
                    start: old(self).cursor_pos,
                    end: (old(self).cursor_pos + text@.len()) as usize,
                },
            ],
            final(self).kill_buffer == old(self).kill_buffer,
            final(self).preferred_col is None,
    {
        let start = self.cursor_pos;
        let ins = chars_of_str(text);
        if ins.len() == 0 {
            self.insert_str_at(start, text);
            return ;
        }
        let new_text = crate::text::splice_chars(&self.text, start, start, &ins);
        let nlen = new_text.len();
        proof {
            assert(nlen == self.text@.len() + ins@.len());
            assert(self.text@.subrange(0, start as int) =~= self.text@.take(start as int));
            assert(self.text@.subrange(start as int, self.text@.len() as int)
                =~= self.text@.skip(start as int));
            assert forall|i: int|
                0 <= i < self.elements@.len() implies ((#[trigger] self.elements@[i]).end <= start
                || self.elements@[i].start >= start) by {
                assert(!(self.elements@[i].start < start < self.elements@[i].end));
            }
            assert forall|i: int|
                0 <= i < self.elements@.len() implies (#[trigger] self.elements@[i]).start
                <= self.elements@[i].end && self.elements@[i].end + ins@.len() <= usize::MAX
                by {
                assert(self.elements@[i].end <= self.text@.len());
            }
        }
        let ghost old_els = self.elements@;
        let ghost old_len = self.text@.len();
        self.text = new_text;
        shift_elements(&mut self.elements, start, 0, ins.len());
        proof {
            lemma_shift_elements_wf(old_els, start as int, start as int, ins@.len() as int, old_len);
        }
        let end = start + ins.len();
        // Insert the new element before the first shifted element to keep the
        // list sorted; all kept elements end at or before `start`.
        let mut idx: usize = 0;
        while idx < self.elements.len() && self.elements[idx].end <= start
            invariant
                idx <= self.elements@.len(),
                forall|j: int| 0 <= j < idx ==> (#[trigger] self.elements@[j]).end <= start,
            decreases self.elements@.len() - idx,
        {
            idx += 1;
        }
        let ghost shifted = self.elements@;
        proof {
            assert forall|j: int| idx <= j < shifted.len() implies (#[trigger] shifted[j]).start
                >= start + ins@.len() by {
                assert(shifted[idx as int].end <= start || shifted[idx as int].start >= start
                    + ins@.len());
                assert(shifted[idx as int].end > start);
                if j > idx {
                    assert(shifted[idx as int].end <= shifted[j].start);
                    assert(shifted[idx as int].start < shifted[idx as int].end);
                }
            }
        }
        let new_el = ElementRange { start, end };
        self.elements.insert(idx, new_el);
        self.cursor_pos = end;
        self.preferred_col = None;
        proof {
            let els = self.elements@;
            assert(els == shifted.insert(idx as int, new_el));
            assert forall|i: int| 0 <= i < els.len() implies #[trigger] els[i] == (if i < idx {
                shifted[i]
            } else if i == idx {
                new_el
            } else {
                shifted[i - 1]
            }) by {}
            assert forall|i: int|
                0 <= i < els.len() implies (#[trigger] els[i]).start < els[i].end && els[i].end
                <= self.text@.len() by {}
            assert forall|i: int, j: int| 0 <= i < j < els.len() implies (#[trigger] els[i]).end
                <= (#[trigger] els[j]).start by {
                if i < idx && j == idx {
                    assert(shifted[i].end <= start);
                } else if i < idx && j > idx {
                    assert(shifted[i].end <= start);
                    assert(shifted[j - 1].start >= start + ins@.len());
                } else if i == idx && j > idx {
                    assert(shifted[j - 1].start >= start + ins@.len());
                }
            }
            assert forall|i: int| 0 <= i < els.len() implies !((#[trigger] els[i]).start
                < self.cursor_pos && self.cursor_pos < els[i].end) by {
                if i < idx {
                    assert(shifted[i].end <= start);
                } else if i > idx {
                    assert(shifted[i - 1].start >= start + ins@.len());
                }
            }
        }
    }

    /// Moves the cursor to `pos`, clamped into the text and out of element
    /// interiors; the sticky column is forgotten.
    pub fn set_cursor(&mut self, pos: usize)
        requires
            old(self).spec_wf(),
        ensures
            final(self).spec_wf(),
            final(self).cursor_pos == spec_clamp_nearest(
                old(self).elements@,
                spec_min(pos as int, old(self).text@.len() as int),
            ),
            final(self).text == old(self).text,
            final(self).elements == old(self).elements,
            final(self).kill_buffer == old(self).kill_buffer,
            final(self).preferred_col is None,
    {
        let len = self.text.len();
        let capped = if pos < len {
            pos
        } else {
            len
        };
        self.cursor_pos = self.clamp_pos_to_nearest_boundary(capped);
        self.preferred_col = None;
    }

    /// One position left of `pos`, jumping over a whole element when `pos`
    /// sits at or inside its right part.
    pub fn prev_atomic_boundary(&self, pos: usize) -> (r: usize)
        requires
            spec_elements_wf(self.elements@, self.text@.len()),
            pos <= self.text@.len(),
        ensures
            r == spec_prev_boundary(self.elements@, pos as int),
            r <= pos,
            pos > 0 ==> r < pos,
            spec_pos_outside(self.elements@, r as int),
    {
        if pos == 0 {
            return 0;
        }
        let mut i: usize = 0;
        while i < self.elements.len()
            invariant
                spec_elements_wf(self.elements@, self.text@.len()),
                0 < pos <= self.text@.len(),
                i <= self.elements@.len(),
                forall|j: int|
                    0 <= j < i ==> !((#[trigger] self.elements@[j]).start < pos
                        && pos <= self.elements@[j].end),
            decreases self.elements@.len() - i,
        {
            let e = self.elements[i];
            if e.start < pos && pos <= e.end {
                proof {
                    let w = choose|w: int|
                        0 <= w < self.elements@.len() && (#[trigger] self.elements@[w]).start < pos
                            && pos <= self.elements@[w].end;
                    lemma_half_open_unique(self.elements@, pos as int, i as int, w, self.text@.len());
                    lemma_boundary_outside(self.elements@, i as int, self.text@.len());
                }
                return e.start;
            }
            i += 1;
        }
        proof {
            assert forall|j: int| 0 <= j < self.elements@.len() implies !((#[trigger]
            self.elements@[j]).start < pos - 1 && pos - 1 < self.elements@[j].end) by {
                assert(!(self.elements@[j].start < pos && pos <= self.elements@[j].end));
            }
        }
        pos - 1
    }

    /// One position right of `pos`, jumping over a whole element when `pos`
    /// sits at or inside its left part.
    pub fn next_atomic_boundary(&self, pos: usize) -> (r: usize)
        requires
            spec_elements_wf(self.elements@, self.text@.len()),
            pos <= self.text@.len(),
        ensures
            r == spec_next_boundary(self.elements@, pos as int, self.text@.len() as int),
            pos <= r <= self.text@.len(),
            pos < self.text@.len() ==> r > pos,
            spec_pos_outside(self.elements@, r as int),
    {
        if pos >= self.text.len() {
            return self.text.len();
        }
        let mut i: usize = 0;
        while i < self.elements.len()
            invariant
                spec_elements_wf(self.elements@, self.text@.len()),
                pos < self.text@.len(),
                i <= self.elements@.len(),
                forall|j: int|
                    0 <= j < i ==> !((#[trigger] self.elements@[j]).start <= pos
                        && pos < self.elements@[j].end),
            decreases self.elements@.len() - i,
        {
            let e = self.elements[i];
            if e.start <= pos && pos < e.end {
                proof {
                    let w = choose|w: int|
                        0 <= w < self.elements@.len() && (#[trigger] self.elements@[w]).start <= pos
                            && pos < self.elements@[w].end;
                    lemma_half_open_low_unique(
                        self.elements@,
                        pos as int,
                        i as int,
                        w,
                        self.text@.len(),
                    );
                    lemma_boundary_outside(self.elements@, i as int, self.text@.len());
                }
                return e.end;
            }
            i += 1;
        }
        proof {
            assert forall|j: int| 0 <= j < self.elements@.len() implies !((#[trigger]
            self.elements@[j]).start < pos + 1 && pos + 1 < self.elements@[j].end) by {
                assert(!(self.elements@[j].start <= pos && pos < self.elements@[j].end));
            }
        }
        pos + 1
    }

    /// Moves the cursor one step left (over a whole element in one step).
    pub fn move_cursor_left(&mut self)
        requires
            old(self).spec_wf(),
        ensures
            final(self).spec_wf(),
            final(self).cursor_pos == spec_prev_boundary(
                old(self).elements@,
                old(self).cursor_pos as int,
            ),
            final(self).text == old(self).text,
            final(self).elements == old(self).elements,
            final(self).kill_buffer == old(self).kill_buffer,
            final(self).preferred_col is None,
    {
        self.cursor_pos = self.prev_atomic_boundary(self.cursor_pos);
        self.preferred_col = None;
    }

    /// Moves the cursor one step right (over a whole element in one step).
    pub fn move_cursor_right(&mut self)
        requires
            old(self).spec_wf(),
        ensures
            final(self).spec_wf(),
            final(self).cursor_pos == spec_next_boundary(
                old(self).elements@,
                old(self).cursor_pos as int,
                old(self).text@.len() as int,
            ),
            final(self).text == old(self).text,
            final(self).elements == old(self).elements,
            final(self).kill_buffer == old(self).kill_buffer,
            final(self).preferred_col is None,
    {
        self.cursor_pos = self.next_atomic_boundary(self.cursor_pos);
        self.preferred_col = None;
    }

    /// The start of the logical line holding `pos`.
    pub fn beginning_of_line(&self, pos: usize) -> (r: usize)
        requires
            pos <= self.text@.len(),
        ensures
            r == spec_bol(self.text@, pos as int),
            r <= pos,
    {
        let mut i = pos;
        while i > 0
            invariant
                i <= pos <= self.text@.len(),
                spec_bol(self.text@, pos as int) == spec_bol(self.text@, i as int),
            decreases i,
        {
            if self.text[i - 1] == '\n' {
                return i;
            }
            i -= 1;
        }
        0
    }

    /// The start of the cursor's logical line.
    pub fn beginning_of_current_line(&self) -> (r: usize)
        requires
            self.spec_wf(),
        ensures
            r == spec_bol(self.text@, self.cursor_pos as int),
            r <= self.cursor_pos,
    {
        self.beginning_of_line(self.cursor_pos)
    }

    /// The end of the logical line holding `pos` (the next newline, or the
    /// end of the text).
    pub fn end_of_line(&self, pos: usize) -> (r: usize)
        requires
            pos <= self.text@.len(),
        ensures
            r == spec_eol(self.text@, pos as int),
            pos <= r <= self.text@.len(),
    {
        let mut i = pos;
        while i < self.text.len()
            invariant
                pos <= i <= self.text@.len(),
                spec_eol(self.text@, pos as int) == spec_eol(self.text@, i as int),
            decreases self.text@.len() - i,
        {
            if self.text[i] == '\n' {
                return i;
            }
            i += 1;
        }
        self.text.len()
    }

    /// The end of the cursor's logical line.
    pub fn end_of_current_line(&self) -> (r: usize)
        requires
            self.spec_wf(),
        ensures
            r == spec_eol(self.text@, self.cursor_pos as int),
            self.cursor_pos <= r <= self.text@.len(),
    {
        self.end_of_line(self.cursor_pos)
    }

    /// Moves the cursor to the start of its logical line.
    pub fn move_cursor_to_beginning_of_line(&mut self)
        requires
            old(self).spec_wf(),
        ensures
            final(self).spec_wf(),
            final(self).cursor_pos == spec_clamp_nearest(
                old(self).elements@,
                spec_bol(old(self).text@, old(self).cursor_pos as int),
            ),
            final(self).text == old(self).text,
            final(self).elements == old(self).elements,
            final(self).kill_buffer == old(self).kill_buffer,
            final(self).preferred_col is None,
    {
        let bol = self.beginning_of_current_line();
        self.set_cursor(bol);
    }

    /// Moves the cursor to the end of its logical line.
    pub fn move_cursor_to_end_of_line(&mut self)
        requires
            old(self).spec_wf(),
        ensures
            final(self).spec_wf(),
            final(self).cursor_pos == spec_clamp_nearest(
                old(self).elements@,
                spec_eol(old(self).text@, old(self).cursor_pos as int),
            ),
            final(self).text == old(self).text,
            final(self).elements == old(self).elements,
            final(self).kill_buffer == old(self).kill_buffer,
            final(self).preferred_col is None,
    {
        let eol = self.end_of_current_line();
        self.set_cursor(eol);
    }

    /// The state after killing `[start, end)` (grown to element boundaries):
    /// the removed text is in the kill buffer, the text is spliced, elements
    /// shift, the cursor follows the replacement rule.
    pub open spec fn spec_killed(self, killed: TextArea, start: int, end: int) -> bool {
        let ex = spec_expand_range(self.elements@, start, end);
        let removed = ex.1 - ex.0;
        &&& killed.text@ == self.text@.take(ex.0) + self.text@.skip(ex.1)
        &&& killed.elements@ == spec_shift_elements(self.elements@, ex.0, ex.1, -removed)
        &&& killed.cursor_pos == (if self.cursor_pos < ex.0 {
            self.cursor_pos as int
        } else if self.cursor_pos <= ex.1 {
            ex.0
        } else {
            self.cursor_pos - removed
        })
        &&& killed.kill_buffer@ == self.text@.subrange(ex.0, ex.1)
        &&& killed.preferred_col is None
    }

    /// Kills `[start, end)`: remembers the removed (element-expanded) text in
    /// the kill buffer and deletes it. Nothing happens when the expanded
    /// range is empty.
    pub fn kill_range(&mut self, start: usize, end: usize)
        requires
            old(self).spec_wf(),
            start <= end <= old(self).text@.len(),
        ensures
            final(self).spec_wf(),
            ({
                let ex = spec_expand_range(old(self).elements@, start as int, end as int);
                if ex.0 >= ex.1 {
                    *final(self) == *old(self)
                } else {
                    old(self).spec_killed(*final(self), start as int, end as int)
                }
            }),
    {
        let (s, e) = self.expand_range_to_element_boundaries(start, end);
        if s >= e {
            return ;
        }
        let removed = crate::text::subrange_vec(&self.text, s, e);
        self.kill_buffer = removed;
        let ghost mid = *self;
        self.replace_range(s, e, "");
        proof {
            reveal_strlit("");
            assert(""@ =~= Seq::<char>::empty());
            lemma_expand_fixed(mid.elements@, s as int, e as int, mid.text@.len());
            assert(self.text@ =~= mid.text@.take(s as int) + mid.text@.skip(e as int));
        }
    }

    /// Deletes up to `n` steps backwards from the cursor, whole elements
    /// counting as one step.
    pub fn delete_backward(&mut self, n: usize)
        requires
            old(self).spec_wf(),
        ensures
            final(self).spec_wf(),
            n == 0 || old(self).cursor_pos == 0 ==> *final(self) == *old(self),
            n > 0 && old(self).cursor_pos > 0 ==> ({
                let t = spec_prev_boundary_n(
                    old(self).elements@,
                    old(self).cursor_pos as int,
                    n as nat,
                );
                let ex = spec_expand_range(old(self).elements@, t, old(self).cursor_pos as int);
                &&& final(self).text@ == old(self).text@.take(ex.0) + old(self).text@.skip(ex.1)
                &&& final(self).elements@ == spec_shift_elements(
                    old(self).elements@,
                    ex.0,
                    ex.1,
                    ex.0 - ex.1,
                )
                &&& final(self).cursor_pos == ex.0
                &&& final(self).kill_buffer == old(self).kill_buffer
                &&& final(self).preferred_col is None
            }),
    {
        if n == 0 || self.cursor_pos == 0 {
            return ;
        }
        let mut target = self.cursor_pos;
        let mut k: usize = 0;
        while k < n
            invariant
                self.spec_wf(),
                k <= n,
                target <= self.cursor_pos <= self.text@.len(),
                target as int == spec_prev_boundary_n(self.elements@, self.cursor_pos as int, k as nat),
            decreases n - k,
        {
            proof {
                lemma_prev_boundary_n_step(self.elements@, self.cursor_pos as int, k as nat);
            }
            target = self.prev_atomic_boundary(target);
            k += 1;
        }
        let c = self.cursor_pos;
        let ghost before = *self;
        self.replace_range(target, c, "");
        proof {
            reveal_strlit("");
            assert(""@ =~= Seq::<char>::empty());
            let t = target as int;
            let ex = spec_expand_range(before.elements@, t, c as int);
            lemma_expand_range_props(before.elements@, t, c as int, before.text@.len());
            assert(self.text@ =~= before.text@.take(ex.0) + before.text@.skip(ex.1));
        }
    }

    /// Deletes up to `n` steps forward from the cursor, whole elements
    /// counting as one step; the cursor stays put.
    pub fn delete_forward(&mut self, n: usize)
        requires
            old(self).spec_wf(),
        ensures
            final(self).spec_wf(),
            n == 0 || old(self).cursor_pos == old(self).text@.len() ==> *final(self) == *old(
                self,
            ),
            n > 0 && old(self).cursor_pos < old(self).text@.len() ==> ({
                let t = spec_next_boundary_n(
                    old(self).elements@,
                    old(self).cursor_pos as int,
                    old(self).text@.len() as int,
                    n as nat,
                );
                let ex = spec_expand_range(old(self).elements@, old(self).cursor_pos as int, t);
                &&& final(self).text@ == old(self).text@.take(ex.0) + old(self).text@.skip(ex.1)
                &&& final(self).elements@ == spec_shift_elements(
                    old(self).elements@,
                    ex.0,
                    ex.1,
                    ex.0 - ex.1,
                )
                &&& final(self).cursor_pos == ex.0
                &&& final(self).kill_buffer == old(self).kill_buffer
                &&& final(self).preferred_col is None
            }),
    {
        if n == 0 || self.cursor_pos >= self.text.len() {
            return ;
        }
        let mut target = self.cursor_pos;
        let mut k: usize = 0;
        while k < n
            invariant
                self.spec_wf(),
                k <= n,
                self.cursor_pos <= target <= self.text@.len(),
                target as int == spec_next_boundary_n(
                    self.elements@,
                    self.cursor_pos as int,
                    self.text@.len() as int,
                    k as nat,
                ),
            decreases n - k,
        {
            proof {
                lemma_next_boundary_n_step(
                    self.elements@,
                    self.cursor_pos as int,
                    self.text@.len() as int,
                    k as nat,
                );
            }
            target = self.next_atomic_boundary(target);
            k += 1;
        }
        let c = self.cursor_pos;
        let ghost before = *self;
        self.replace_range(c, target, "");
        proof {
            reveal_strlit("");
            assert(""@ =~= Seq::<char>::empty());
            let t = target as int;
            let ex = spec_expand_range(before.elements@, c as int, t);
            lemma_expand_range_props(before.elements@, c as int, t, before.text@.len());
            assert(self.text@ =~= before.text@.take(ex.0) + before.text@.skip(ex.1));
        }
    }

    /// Kills from the start of the word before the cursor to the cursor.
    pub fn delete_backward_word(&mut self)
        requires
            old(self).spec_wf(),
        ensures
            final(self).spec_wf(),
            ({
                let start = spec_prev_word_start(
                    old(self).text@,
                    old(self).elements@,
                    old(self).cursor_pos as int,
                );
                let ex = spec_expand_range(old(self).elements@, start, old(self).cursor_pos as int);
                if ex.0 >= ex.1 {
                    *final(self) == *old(self)
                } else {
                    old(self).spec_killed(*final(self), start, old(self).cursor_pos as int)
                }
            }),
    {
        let start = self.beginning_of_previous_word();
        let c = self.cursor_pos;
        self.kill_range(start, c);
    }

    /// Kills from the cursor to the end of the word after it.
    pub fn delete_forward_word(&mut self)
        requires
            old(self).spec_wf(),
        ensures
            final(self).spec_wf(),
            ({
                let end = spec_next_word_end(
                    old(self).text@,
                    old(self).elements@,
                    old(self).cursor_pos as int,
                );
                if end <= old(self).cursor_pos {
                    *final(self) == *old(self)
                } else {
                    let ex = spec_expand_range(
                        old(self).elements@,
                        old(self).cursor_pos as int,
                        end,
                    );
                    if ex.0 >= ex.1 {
                        *final(self) == *old(self)
                    } else {
                        old(self).spec_killed(*final(self), old(self).cursor_pos as int, end)
                    }
                }
            }),
    {
        let end = self.end_of_next_word();
        let c = self.cursor_pos;
        if end > c {
            self.kill_range(c, end);
        }
    }

    /// Kills from the cursor to the end of its line, or the line break
    /// itself when the cursor already sits at the line end.
    pub fn kill_to_end_of_line(&mut self)
        requires
            old(self).spec_wf(),
        ensures
            final(self).spec_wf(),
            ({
                let eol = spec_eol(old(self).text@, old(self).cursor_pos as int);
                let c = old(self).cursor_pos as int;
                if c == eol && eol == old(self).text@.len() {
                    *final(self) == *old(self)
                } else {
                    let hi = (if c == eol {
                        eol + 1
                    } else {
                        eol
                    });
                    let ex = spec_expand_range(old(self).elements@, c, hi);
                    if ex.0 >= ex.1 {
                        *final(self) == *old(self)
                    } else {
                        old(self).spec_killed(*final(self), c, hi)
                    }
                }
            }),
    {
        let eol = self.end_of_current_line();
        let c = self.cursor_pos;
        if c == eol {
            if eol < self.text.len() {
                self.kill_range(c, eol + 1);
            }
        } else {
            self.kill_range(c, eol);
        }
    }

    /// Kills from the start of the cursor's line to the cursor, or the
    /// preceding line break when the cursor already sits at the line start.
    pub fn kill_to_beginning_of_line(&mut self)
        requires
            old(self).spec_wf(),
        ensures
            final(self).spec_wf(),
            ({
                let bol = spec_bol(old(self).text@, old(self).cursor_pos as int);
                let c = old(self).cursor_pos as int;
                if c == bol && bol == 0 {
                    *final(self) == *old(self)
                } else {
                    let lo = (if c == bol {
                        bol - 1
                    } else {
                        bol
                    });
                    let hi = (if c == bol {
                        bol
                    } else {
                        c
                    });
                    let ex = spec_expand_range(old(self).elements@, lo, hi);
                    if ex.0 >= ex.1 {
                        *final(self) == *old(self)
                    } else {
                        old(self).spec_killed(*final(self), lo, hi)
                    }
                }
            }),
    {
        let bol = self.beginning_of_current_line();
        let c = self.cursor_pos;
        if c == bol {
            if bol > 0 {
                self.kill_range(bol - 1, bol);
            }
        } else {
            self.kill_range(bol, c);
        }
    }

    /// Re-inserts the kill buffer at the cursor.
    pub fn yank(&mut self)
        requires
            old(self).spec_wf(),
        ensures
            final(self).spec_wf(),
            old(self).kill_buffer@.len() == 0 ==> *final(self) == *old(self),
            old(self).kill_buffer@.len() > 0 ==> {
                &&& final(self).text@ == old(self).text@.take(old(self).cursor_pos as int) + old(
                    self,
                ).kill_buffer@ + old(self).text@.skip(old(self).cursor_pos as int)
                &&& final(self).cursor_pos == old(self).cursor_pos + old(self).kill_buffer@.len()
                &&& final(self).kill_buffer == old(self).kill_buffer
            },
    {
        if self.kill_buffer.len() == 0 {
            return ;
        }
        let text = string_of_chars(&self.kill_buffer);
        self.insert_str(text.as_str());
    }

    /// Applies one key event according to the keybinding table
    /// (`spec_key_action`); each arm restates the contract of the editing
    /// method it dispatches to.
    pub fn input(&mut self, event: KeyEvent)
        requires
            old(self).spec_wf(),
        ensures
            final(self).spec_wf(),
            spec_key_action(event) matches EditAction::InsertChar(c) ==> {
                &&& final(self).text@ == old(self).text@.take(old(self).cursor_pos as int)
                    + seq![c] + old(self).text@.skip(old(self).cursor_pos as int)
                &&& final(self).cursor_pos == old(self).cursor_pos + 1
            },
            spec_key_action(event) is InsertNewline ==> {
                &&& final(self).text@ == old(self).text@.take(old(self).cursor_pos as int) + seq![
                    '\n',
                ] + old(self).text@.skip(old(self).cursor_pos as int)
                &&& final(self).cursor_pos == old(self).cursor_pos + 1
            },
            spec_key_action(event) is Ignore ==> *final(self) == *old(self),
            spec_key_action(event) is DeleteBackward ==> {
                &&& old(self).cursor_pos == 0 ==> *final(self) == *old(self)
                &&& old(self).cursor_pos > 0 ==> ({
                    let t = spec_prev_boundary_n(
                        old(self).elements@,
                        old(self).cursor_pos as int,
                        1,
                    );
                    let ex = spec_expand_range(old(self).elements@, t, old(self).cursor_pos as int);
                    &&& final(self).text@ == old(self).text@.take(ex.0) + old(self).text@.skip(
                        ex.1,
                    )
                    &&& final(self).elements@ == spec_shift_elements(
                        old(self).elements@,
                        ex.0,
                        ex.1,
                        ex.0 - ex.1,
                    )
                    &&& final(self).cursor_pos == ex.0
                    &&& final(self).kill_buffer == old(self).kill_buffer
                })
            },
            spec_key_action(event) is DeleteForward ==> {
                &&& old(self).cursor_pos == old(self).text@.len() ==> *final(self) == *old(self)
                &&& old(self).cursor_pos < old(self).text@.len() ==> ({
                    let t = spec_next_boundary_n(
                        old(self).elements@,
                        old(self).cursor_pos as int,
                        old(self).text@.len() as int,
                        1,
                    );
                    let ex = spec_expand_range(old(self).elements@, old(self).cursor_pos as int, t);
                    &&& final(self).text@ == old(self).text@.take(ex.0) + old(self).text@.skip(
                        ex.1,
                    )
                    &&& final(self).elements@ == spec_shift_elements(
                        old(self).elements@,
                        ex.0,
                        ex.1,
                        ex.0 - ex.1,
                    )
                    &&& final(self).cursor_pos == ex.0
                    &&& final(self).kill_buffer == old(self).kill_buffer
                })
            },
            spec_key_action(event) is DeleteWordBack ==> ({
                let start = spec_prev_word_start(
                    old(self).text@,
                    old(self).elements@,
                    old(self).cursor_pos as int,
                );
                let ex = spec_expand_range(old(self).elements@, start, old(self).cursor_pos as int);
                if ex.0 >= ex.1 {
                    *final(self) == *old(self)
                } else {
                    old(self).spec_killed(*final(self), start, old(self).cursor_pos as int)
                }
            }),
            spec_key_action(event) is DeleteWordFwd ==> ({
                let end = spec_next_word_end(
                    old(self).text@,
                    old(self).elements@,
                    old(self).cursor_pos as int,
                );
                if end <= old(self).cursor_pos {
                    *final(self) == *old(self)
                } else {
                    let ex = spec_expand_range(old(self).elements@, old(self).cursor_pos as int, end);
                    if ex.0 >= ex.1 {
                        *final(self) == *old(self)
                    } else {
                        old(self).spec_killed(*final(self), old(self).cursor_pos as int, end)
                    }
                }
            }),
            spec_key_action(event) is MoveLeft ==> {
                &&& final(self).cursor_pos == spec_prev_boundary(
                    old(self).elements@,
                    old(self).cursor_pos as int,
                )
                &&& final(self).text == old(self).text
                &&& final(self).elements == old(self).elements
                &&& final(self).kill_buffer == old(self).kill_buffer
            },
            spec_key_action(event) is MoveRight ==> {
                &&& final(self).cursor_pos == spec_next_boundary(
                    old(self).elements@,
                    old(self).cursor_pos as int,
                    old(self).text@.len() as int,
                )
                &&& final(self).text == old(self).text
                &&& final(self).elements == old(self).elements
                &&& final(self).kill_buffer == old(self).kill_buffer
            },
            spec_key_action(event) is MoveUp ==> {
                &&& final(self).text == old(self).text
                &&& final(self).elements == old(self).elements
                &&& final(self).kill_buffer == old(self).kill_buffer
                &&& ({
                    let s = old(self).text@;
                    let bol = spec_bol(s, old(self).cursor_pos as int);
                    if bol == 0 {
                        final(self).cursor_pos == 0 && final(self).preferred_col is None
                    } else {
                        let target = (if old(self).preferred_col is Some {
                            old(self).preferred_col->0 as int
                        } else {
                            spec_cap_usize(
                                spec_width(s.subrange(bol, old(self).cursor_pos as int)),
                            ) as int
                        });
                        let prev_nl = bol - 1;
                        let pls = spec_bol(s, prev_nl);
                        &&& final(self).cursor_pos == spec_clamp_nearest(
                            old(self).elements@,
                            spec_move_col(s, pls, prev_nl, target, 0),
                        )
                        &&& final(self).preferred_col == Some(target as usize)
                    }
                })
            },
            spec_key_action(event) is MoveDown ==> {
                &&& final(self).text == old(self).text
                &&& final(self).elements == old(self).elements
                &&& final(self).kill_buffer == old(self).kill_buffer
                &&& ({
                    let s = old(self).text@;
                    let eol = spec_eol(s, old(self).cursor_pos as int);
                    if eol == s.len() {
                        final(self).cursor_pos == s.len() && final(self).preferred_col is None
                    } else {
                        let target = (if old(self).preferred_col is Some {
                            old(self).preferred_col->0 as int
                        } else {
                            spec_cap_usize(
                                spec_width(
                                    s.subrange(
                                        spec_bol(s, old(self).cursor_pos as int),
                                        old(self).cursor_pos as int,
                                    ),
                                ),
                            ) as int
                        });
                        let nls = eol + 1;
                        let nle = spec_eol(s, nls);
                        &&& final(self).cursor_pos == spec_clamp_nearest(
                            old(self).elements@,
                            spec_move_col(s, nls, nle, target, 0),
                        )
                        &&& final(self).preferred_col == Some(target as usize)
                    }
                })
            },
            spec_key_action(event) is MoveBol ==> {
                &&& final(self).cursor_pos == spec_clamp_nearest(
                    old(self).elements@,
                    spec_bol(old(self).text@, old(self).cursor_pos as int),
                )
                &&& final(self).text == old(self).text
                &&& final(self).elements == old(self).elements
                &&& final(self).kill_buffer == old(self).kill_buffer
            },
            spec_key_action(event) is MoveEol ==> {
                &&& final(self).cursor_pos == spec_clamp_nearest(
                    old(self).elements@,
                    spec_eol(old(self).text@, old(self).cursor_pos as int),
                )
                &&& final(self).text == old(self).text
                &&& final(self).elements == old(self).elements
                &&& final(self).kill_buffer == old(self).kill_buffer
            },
            spec_key_action(event) is WordBack ==> {
                &&& final(self).cursor_pos == spec_clamp_nearest(
                    old(self).elements@,
                    spec_min(
                        spec_prev_word_start(
                            old(self).text@,
                            old(self).elements@,
                            old(self).cursor_pos as int,
                        ),
                        old(self).text@.len() as int,
                    ),
                )
                &&& final(self).text == old(self).text
                &&& final(self).elements == old(self).elements
                &&& final(self).kill_buffer == old(self).kill_buffer
            },
            spec_key_action(event) is WordFwd ==> {
                &&& final(self).cursor_pos == spec_clamp_nearest(
                    old(self).elements@,
                    spec_min(
                        spec_next_word_end(
                            old(self).text@,
                            old(self).elements@,
                            old(self).cursor_pos as int,
                        ),
                        old(self).text@.len() as int,
                    ),
                )
                &&& final(self).text == old(self).text
                &&& final(self).elements == old(self).elements
                &&& final(self).kill_buffer == old(self).kill_buffer
            },
            spec_key_action(event) is KillToBol ==> ({
                let bol = spec_bol(old(self).text@, old(self).cursor_pos as int);
                let c = old(self).cursor_pos as int;
                if c == bol && bol == 0 {
                    *final(self) == *old(self)
                } else {
                    let lo = (if c == bol {
                        bol - 1
                    } else {
                        bol
                    });
                    let hi = (if c == bol {
                        bol
                    } else {
                        c
                    });
                    let ex = spec_expand_range(old(self).elements@, lo, hi);
                    if ex.0 >= ex.1 {
                        *final(self) == *old(self)
                    } else {
                        old(self).spec_killed(*final(self), lo, hi)
                    }
                }
            }),
            spec_key_action(event) is KillToEol ==> ({
                let eol = spec_eol(old(self).text@, old(self).cursor_pos as int);
                let c = old(self).cursor_pos as int;
                if c == eol && eol == old(self).text@.len() {
                    *final(self) == *old(self)
                } else {
                    let hi = (if c == eol {
                        eol + 1
                    } else {
                        eol
                    });
                    let ex = spec_expand_range(old(self).elements@, c, hi);
                    if ex.0 >= ex.1 {
                        *final(self) == *old(self)
                    } else {
                        old(self).spec_killed(*final(self), c, hi)
                    }
                }
            }),
            spec_key_action(event) is Yank ==> {
                &&& old(self).kill_buffer@.len() == 0 ==> *final(self) == *old(self)
                &&& old(self).kill_buffer@.len() > 0 ==> {
                    &&& final(self).text@ == old(self).text@.take(old(self).cursor_pos as int)
                        + old(self).kill_buffer@ + old(self).text@.skip(
                        old(self).cursor_pos as int,
                    )
                    &&& final(self).cursor_pos == old(self).cursor_pos + old(
                        self,
                    ).kill_buffer@.len()
                    &&& final(self).kill_buffer == old(self).kill_buffer
                }
            },
    {
        match key_action(event) {
            EditAction::InsertChar(c) => {
                let mut s = String::new();
                crate::text::push_char(&mut s, c);
                self.insert_str(s.as_str());
                proof {
                    assert(s@ =~= seq![c]);
                }
            },
            EditAction::InsertNewline => {
                let mut s = String::new();
                crate::text::push_char(&mut s, '\n');
                self.insert_str(s.as_str());
                proof {
                    assert(s@ =~= seq!['\n']);
                }
            },
            EditAction::DeleteBackward => {
                self.delete_backward(1);
            },
            EditAction::DeleteForward => {
                self.delete_forward(1);
            },
            EditAction::DeleteWordBack => {
                self.delete_backward_word();
            },
            EditAction::DeleteWordFwd => {
                self.delete_forward_word();
            },
            EditAction::MoveLeft => {
                self.move_cursor_left();
            },
            EditAction::MoveRight => {
                self.move_cursor_right();
            },
            EditAction::MoveUp => {
                self.move_cursor_up();
            },
            EditAction::MoveDown => {
                self.move_cursor_down();
            },
            EditAction::MoveBol => {
                self.move_cursor_to_beginning_of_line();
            },
            EditAction::MoveEol => {
                self.move_cursor_to_end_of_line();
            },
            EditAction::WordBack => {
                let p = self.beginning_of_previous_word();
                self.set_cursor(p);
            },
            EditAction::WordFwd => {
                let p = self.end_of_next_word();
                self.set_cursor(p);
            },
            EditAction::KillToBol => {
                self.kill_to_beginning_of_line();
            },
            EditAction::KillToEol => {
                self.kill_to_end_of_line();
            },
            EditAction::Yank => {
                self.yank();
            },
            EditAction::Ignore => {},
        }
    }

    /// The number of rows the soft-wrapped text wants, at least one.
    pub fn desired_height(&self, width: u16) -> (r: u16)
        ensures
            width == 0 ==> r == 1,
            width > 0 ==> r as int == (if crate::wrap::wrap_of(self.text@, width as int).len()
                >= 1 {
                crate::wrap::wrap_of(self.text@, width as int).len() as int
            } else {
                1int
            }) as u16 as int,
    {
        if width == 0 {
            return 1;
        }
        let s = string_of_chars(&self.text);
        let lines = crate::wrap::wrap_first_fit(s.as_str(), width as usize);
        let n = if lines.len() >= 1 {
            lines.len()
        } else {
            1
        };
        #[verifier::truncate] (n as u16)
    }

    /// The display column of the cursor within its logical line.
    pub fn current_display_col(&self) -> (r: usize)
        requires
            self.spec_wf(),
        ensures
            r == spec_cap_usize(
                spec_width(
                    self.text@.subrange(
                        spec_bol(self.text@, self.cursor_pos as int),
                        self.cursor_pos as int,
                    ),
                ),
            ),
    {
        let bol = self.beginning_of_current_line();
        width_of_range(&self.text, bol, self.cursor_pos)
    }

    /// Puts the cursor on `[line_start, line_end)` at the position whose
    /// accumulated display width first passes `target_col` (or at the line
    /// end), clamped out of element interiors.
    pub fn move_to_display_col_on_line(
        &mut self,
        line_start: usize,
        line_end: usize,
        target_col: usize,
    )
        requires
            old(self).spec_wf(),
            line_start <= line_end <= old(self).text@.len(),
        ensures
            final(self).spec_wf(),
            final(self).cursor_pos == spec_clamp_nearest(
                old(self).elements@,
                spec_move_col(
                    old(self).text@,
                    line_start as int,
                    line_end as int,
                    target_col as int,
                    0,
                ),
            ),
            final(self).text == old(self).text,
            final(self).elements == old(self).elements,
            final(self).kill_buffer == old(self).kill_buffer,
            final(self).preferred_col == old(self).preferred_col,
    {
        let ghost s = self.text@;
        let mut acc: usize = 0;
        let mut i = line_start;
        let mut landing = line_end;
        let mut found = false;
        while i < line_end && !found
            invariant
                line_start <= i <= line_end <= self.text@.len(),
                s == self.text@,
                !found ==> spec_move_col(
                    s,
                    line_start as int,
                    line_end as int,
                    target_col as int,
                    0,
                ) == spec_move_col(s, i as int, line_end as int, target_col as int, acc as int),
                !found ==> landing == line_end,
                found ==> landing as int == spec_move_col(
                    s,
                    line_start as int,
                    line_end as int,
                    target_col as int,
                    0,
                ),
                found ==> landing <= line_end,
            decreases line_end - i + (if found { 0int } else { 1int }),
        {
            let w = char_display_width(self.text[i]);
            let next = if acc <= usize::MAX - w {
                acc + w
            } else {
                usize::MAX
            };
            if next > target_col {
                landing = i;
                found = true;
            } else {
                acc = next;
                i += 1;
            }
        }
        let c = self.clamp_pos_to_nearest_boundary(landing);
        self.cursor_pos = c;
    }

    /// Moves the cursor up one logical line, keeping (or establishing) the
    /// sticky display column; from the first line it jumps to the start of
    /// the text.
    pub fn move_cursor_up(&mut self)
        requires
            old(self).spec_wf(),
        ensures
            final(self).spec_wf(),
            final(self).text == old(self).text,
            final(self).elements == old(self).elements,
            final(self).kill_buffer == old(self).kill_buffer,
            ({
                let s = old(self).text@;
                let bol = spec_bol(s, old(self).cursor_pos as int);
                if bol == 0 {
                    final(self).cursor_pos == 0 && final(self).preferred_col is None
                } else {
                    let target = (if old(self).preferred_col is Some {
                        old(self).preferred_col->0 as int
                    } else {
                        spec_cap_usize(
                            spec_width(s.subrange(bol, old(self).cursor_pos as int)),
                        ) as int
                    });
                    let prev_nl = bol - 1;
                    let pls = spec_bol(s, prev_nl);
                    &&& final(self).cursor_pos == spec_clamp_nearest(
                        old(self).elements@,
                        spec_move_col(s, pls, prev_nl, target, 0),
                    )
                    &&& final(self).preferred_col == Some(target as usize)
                }
            }),
    {
        let bol = self.beginning_of_current_line();
        if bol == 0 {
            self.cursor_pos = 0;
            self.preferred_col = None;
            return ;
        }
        let target = match self.preferred_col {
            Some(c) => c,
            None => self.current_display_col(),
        };
        self.preferred_col = Some(target);
        let prev_nl = bol - 1;
        let pls = self.beginning_of_line(prev_nl);
        self.move_to_display_col_on_line(pls, prev_nl, target);
    }

    /// Moves the cursor down one logical line, keeping (or establishing) the
    /// sticky display column; from the last line it jumps to the end of the
    /// text.
    pub fn move_cursor_down(&mut self)
        requires
            old(self).spec_wf(),
        ensures
            final(self).spec_wf(),
            final(self).text == old(self).text,
            final(self).elements == old(self).elements,
            final(self).kill_buffer == old(self).kill_buffer,
            ({
                let s = old(self).text@;
                let eol = spec_eol(s, old(self).cursor_pos as int);
                if eol == s.len() {
                    final(self).cursor_pos == s.len() && final(self).preferred_col is None
                } else {
                    let target = (if old(self).preferred_col is Some {
                        old(self).preferred_col->0 as int
                    } else {
                        spec_cap_usize(
                            spec_width(
                                s.subrange(
                                    spec_bol(s, old(self).cursor_pos as int),
                                    old(self).cursor_pos as int,
                                ),
                            ),
                        ) as int
                    });
                    let nls = eol + 1;
                    let nle = spec_eol(s, nls);
                    &&& final(self).cursor_pos == spec_clamp_nearest(
                        old(self).elements@,
                        spec_move_col(s, nls, nle, target, 0),
                    )
                    &&& final(self).preferred_col == Some(target as usize)
                }
            }),
    {
        let target = match self.preferred_col {
            Some(c) => c,
            None => self.current_display_col(),
        };
        let eol = self.end_of_current_line();
        if eol == self.text.len() {
            self.cursor_pos = self.text.len();
            self.preferred_col = None;
            return ;
        }
        self.preferred_col = Some(target);
        let nls = eol + 1;
        let nle = self.end_of_line(nls);
        self.move_to_display_col_on_line(nls, nle, target);
    }

    /// The start of the word before the cursor.
    pub fn beginning_of_previous_word(&self) -> (r: usize)
        requires
            self.spec_wf(),
        ensures
            r == spec_prev_word_start(self.text@, self.elements@, self.cursor_pos as int),
            r <= self.cursor_pos,
    {
        let ghost s = self.text@;
        let mut p1 = self.cursor_pos;
        while p1 > 0 && space_before(&self.text, p1)
            invariant
                p1 <= self.cursor_pos <= self.text@.len(),
                s == self.text@,
                spec_skip_spaces_back(s, self.cursor_pos as int) == spec_skip_spaces_back(
                    s,
                    p1 as int,
                ),
            decreases p1,
        {
            p1 -= 1;
        }
        if p1 == 0 {
            return 0;
        }
        let cls = is_word_separator(self.text[p1 - 1]);
        let mut p2 = p1;
        while p2 > 0 && class_before(&self.text, p2, cls)
            invariant
                p2 <= p1 <= self.text@.len(),
                s == self.text@,
                spec_skip_class_back(s, p1 as int, cls) == spec_skip_class_back(s, p2 as int, cls),
            decreases p2,
        {
            p2 -= 1;
        }
        self.adjust_pos_out_of_elements(p2, true)
    }

    /// The end of the word after the cursor.
    pub fn end_of_next_word(&self) -> (r: usize)
        requires
            self.spec_wf(),
        ensures
            r == spec_next_word_end(self.text@, self.elements@, self.cursor_pos as int),
            r <= self.text@.len(),
    {
        let ghost s = self.text@;
        let len = self.text.len();
        let mut p1 = self.cursor_pos;
        while p1 < len && space_at(&self.text, p1)
            invariant
                p1 <= len,
                len == self.text@.len(),
                s == self.text@,
                spec_skip_spaces_fwd(s, self.cursor_pos as int) == spec_skip_spaces_fwd(
                    s,
                    p1 as int,
                ),
            decreases len - p1,
        {
            p1 += 1;
        }
        if p1 == len {
            return len;
        }
        let cls = is_word_separator(self.text[p1]);
        let mut p2 = p1 + 1;
        while p2 < len && class_at(&self.text, p2, cls)
            invariant
                p1 < p2 <= len,
                len == self.text@.len(),
                s == self.text@,
                spec_skip_class_fwd(s, p1 + 1 as int, cls) == spec_skip_class_fwd(
                    s,
                    p2 as int,
                    cls,
                ),
            decreases len - p2,
        {
            p2 += 1;
        }
        self.adjust_pos_out_of_elements(p2, false)
    }

    /// `pos` snapped out of the element whose interior holds it, if any.
    pub fn adjust_pos_out_of_elements(&self, pos: usize, prefer_start: bool) -> (r: usize)
        requires
            spec_elements_wf(self.elements@, self.text@.len()),
            pos <= self.text@.len(),
        ensures
            r == spec_adjust_out(self.elements@, pos as int, prefer_start),
            r <= self.text@.len(),
            prefer_start ==> r <= pos,
    {
        match self.find_element_containing(pos) {
            Some(i) => {
                proof {
                    let w = choose|w: int|
                        0 <= w < self.elements@.len() && (#[trigger] self.elements@[w]).start < pos
                            < self.elements@[w].end;
                    lemma_containing_unique(
                        self.elements@,
                        pos as int,
                        i as int,
                        w,
                        self.text@.len(),
                    );
                }
                if prefer_start {
                    self.elements[i].start
                } else {
                    self.elements[i].end
                }
            },
            None => pos,
        }
    }

    /// `pos` clamped so an insertion never lands strictly inside an element.
    pub fn clamp_pos_for_insertion(&self, pos: usize) -> (r: usize)
        requires
            spec_elements_wf(self.elements@, self.text@.len()),
        ensures
            r <= self.text@.len(),
            spec_pos_outside(self.elements@, r as int),
            pos <= self.text@.len() && spec_pos_outside(self.elements@, pos as int) ==> r == pos,
            r == spec_clamp_nearest(
                self.elements@,
                spec_min(pos as int, self.text@.len() as int),
            ),
    {
        let pos = if pos < self.text.len() {
            pos
        } else {
            self.text.len()
        };
        self.clamp_pos_to_nearest_boundary(pos)
    }
}

/// The smaller of two positions.
pub open spec fn spec_min(a: int, b: int) -> int {
    if a <= b {
        a
    } else {
        b
    }
}

/// The larger of two positions.
pub open spec fn spec_max(a: int, b: int) -> int {
    if a >= b {
        a
    } else {
        b
    }
}

/// `[start, end)` grown to fully cover every element it intersects.
pub open spec fn spec_expand_range(els: Seq<ElementRange>, start: int, end: int) -> (int, int)
    decreases els.len(),
{
    if els.len() == 0 {
        (start, end)
    } else {
        let prev = spec_expand_range(els.drop_last(), start, end);
        let el = els.last();
        if el.start < end && el.end > start {
            (spec_min(prev.0, el.start as int), spec_max(prev.1, el.end as int))
        } else {
            prev
        }
    }
}

/// The expanded range contains the original one, stays within the element
/// bounds, and no element partially overlaps it.
pub proof fn lemma_expand_range_props(
    els: Seq<ElementRange>,
    start: int,
    end: int,
    text_len: nat,
)
    requires
        spec_elements_wf(els, text_len),
        0 <= start <= end <= text_len,
    ensures
        ({
            let (s, e) = spec_expand_range(els, start, end);
            &&& 0 <= s <= start
            &&& end <= e <= text_len
            &&& forall|i: int|
                0 <= i < els.len() ==> ((#[trigger] els[i]).end <= s || els[i].start >= e || (s
                    <= els[i].start && els[i].end <= e))
        }),
    decreases els.len(),
{
    if els.len() > 0 {
        let front = els.drop_last();
        assert(spec_elements_wf(front, text_len)) by {
            assert(forall|i: int| 0 <= i < front.len() ==> front[i] == (#[trigger] els[i]));
        }
        lemma_expand_range_props(front, start, end, text_len);
        let prev = spec_expand_range(front, start, end);
        let el = els.last();
        let r = spec_expand_range(els, start, end);
        let n = els.len() - 1;
        assert(el == els[n]);
        assert(forall|i: int| 0 <= i < front.len() ==> front[i] == (#[trigger] els[i]));
        if el.start < end && el.end > start {
            assert forall|i: int|
                0 <= i < els.len() implies ((#[trigger] els[i]).end <= r.0 || els[i].start >= r.1
                || (r.0 <= els[i].start && els[i].end <= r.1)) by {
                if i < n {
                    assert(front[i].end <= prev.0 || front[i].start >= prev.1 || (prev.0
                        <= front[i].start && front[i].end <= prev.1));
                    if front[i].end <= prev.0 {
                        assert(els[i].end <= els[n].start);
                    } else if front[i].start >= prev.1 {
                        // An element ordered before the overlapping one cannot
                        // also start at or beyond the range end.
                        assert(els[i].end <= els[n].start);
                        assert(els[n].start < end);
                        assert(els[i].start < els[i].end);
                        assert(false);
                    }
                }
            }
        } else {
            assert(el.end <= start || el.start >= end);
            if el.end <= start {
                // Elements ordered before `el` end before it starts, so none
                // of them intersects the range and the start never drops.
                assert forall|i: int|
                    0 <= i < front.len() implies (((#[trigger] front[i]).start < end
                    && front[i].end > start) ==> front[i].start >= el.end) by {
                    if front[i].end > start {
                        assert(els[i].end <= els[n].start);
                        assert(els[n].start < els[n].end);
                        assert(false);
                    }
                }
                lemma_expand_start_above(front, start, end, text_len, el.end as int);
            } else {
                assert forall|i: int|
                    0 <= i < front.len() implies (((#[trigger] front[i]).start < end
                    && front[i].end > start) ==> front[i].end <= el.start) by {
                    assert(els[i].end <= els[n].start);
                }
                lemma_expand_end_below(front, start, end, text_len, el.start as int);
            }
        }
    }
}

/// If `b <= start` and every element below `b`'s reach keeps out of the
/// original range, the expanded start never drops below `b` unless an
/// overlapping element starts below `b`; sortedness rules that out for an
/// element ending at `b` or later positions.
pub proof fn lemma_expand_start_above(
    els: Seq<ElementRange>,
    start: int,
    end: int,
    text_len: nat,
    b: int,
)
    requires
        spec_elements_wf(els, text_len),
        0 <= start <= end <= text_len,
        b <= start,
        forall|i: int|
            0 <= i < els.len() ==> ((#[trigger] els[i]).start < end && els[i].end > start)
                ==> els[i].start >= b,
    ensures
        spec_expand_range(els, start, end).0 >= b,
    decreases els.len(),
{
    if els.len() > 0 {
        let front = els.drop_last();
        assert(forall|i: int| 0 <= i < front.len() ==> front[i] == (#[trigger] els[i]));
        lemma_expand_start_above(front, start, end, text_len, b);
    }
}

/// Symmetric bound for the expanded end.
pub proof fn lemma_expand_end_below(
    els: Seq<ElementRange>,
    start: int,
    end: int,
    text_len: nat,
    b: int,
)
    requires
        spec_elements_wf(els, text_len),
        0 <= start <= end <= text_len,
        b >= end,
        forall|i: int|
            0 <= i < els.len() ==> ((#[trigger] els[i]).start < end && els[i].end > start)
                ==> els[i].end <= b,
    ensures
        spec_expand_range(els, start, end).1 <= b,
    decreases els.len(),
{
    if els.len() > 0 {
        let front = els.drop_last();
        assert(forall|i: int| 0 <= i < front.len() ==> front[i] == (#[trigger] els[i]));
        lemma_expand_end_below(front, start, end, text_len, b);
    }
}

/// A key, in the shape the textarea understands. The host program converts
/// real terminal events into this form.
#[derive(Clone, Copy, Debug, PartialEq, Eq, Structural)]
pub enum KeyCode {
    Char(char),
    Enter,
    Backspace,
    Delete,
    Left,
    Right,
    Up,
    Down,
    Home,
    End,
    Esc,
    Other,
}

/// Modifier keys held together with a key press.
#[derive(Clone, Copy, Debug, PartialEq, Eq, Structural)]
pub struct KeyModifiers {
    pub shift: bool,
    pub control: bool,
    pub alt: bool,
}

impl KeyModifiers {
    pub open spec fn spec_none() -> KeyModifiers {
        KeyModifiers { shift: false, control: false, alt: false }
    }

    pub open spec fn spec_shift() -> KeyModifiers {
        KeyModifiers { shift: true, control: false, alt: false }
    }

    pub open spec fn spec_control() -> KeyModifiers {
        KeyModifiers { shift: false, control: true, alt: false }
    }

    pub open spec fn spec_alt() -> KeyModifiers {
        KeyModifiers { shift: false, control: false, alt: true }
    }

    pub open spec fn spec_control_alt() -> KeyModifiers {
        KeyModifiers { shift: false, control: true, alt: true }
    }

    pub fn none() -> (r: KeyModifiers)
        ensures
            r == KeyModifiers::spec_none(),
    {
        KeyModifiers { shift: false, control: false, alt: false }
    }
}

#[derive(Clone, Copy, Debug, PartialEq, Eq, Structural)]
pub struct KeyEvent {
    pub code: KeyCode,
    pub modifiers: KeyModifiers,
}

/// What one key event does to the textarea.
#[derive(Clone, Copy, Debug, PartialEq, Eq, Structural)]
pub enum EditAction {
    InsertChar(char),
    InsertNewline,
    DeleteBackward,
    DeleteForward,
    DeleteWordBack,
    DeleteWordFwd,
    MoveLeft,
    MoveRight,
    MoveUp,
    MoveDown,
    MoveBol,
    MoveEol,
    WordBack,
    WordFwd,
    KillToBol,
    KillToEol,
    Yank,
    Ignore,
}

/// The keybinding table: the common readline set, with C0 control-character
/// fallbacks for terminals that do not report the control modifier, and
/// Enter inserting a newline (a bare Enter never reaches the textarea; the
/// input layer above treats it as submit).
pub open spec fn spec_key_action(e: KeyEvent) -> EditAction {
    let m = e.modifiers;
    match e.code {
        KeyCode::Char(c) => {
            if m == KeyModifiers::spec_none() {
                if c == '\u{2}' {
                    EditAction::MoveLeft
                } else if c == '\u{6}' {
                    EditAction::MoveRight
                } else if c == '\u{10}' {
                    EditAction::MoveUp
                } else if c == '\u{e}' {
                    EditAction::MoveDown
                } else {
                    EditAction::InsertChar(c)
                }
            } else if m == KeyModifiers::spec_shift() {
                EditAction::InsertChar(c)
            } else if (c == 'j' || c == 'm') && m == KeyModifiers::spec_control() {
                EditAction::InsertNewline
            } else if c == 'h' && m == KeyModifiers::spec_control_alt() {
                EditAction::DeleteWordBack
            } else if c == 'h' && m == KeyModifiers::spec_control() {
                EditAction::DeleteBackward
            } else if c == 'd' && m == KeyModifiers::spec_control() {
                EditAction::DeleteForward
            } else if c == 'w' && m == KeyModifiers::spec_control() {
                EditAction::DeleteWordBack
            } else if c == 'b' && m == KeyModifiers::spec_alt() {
                EditAction::WordBack
            } else if c == 'f' && m == KeyModifiers::spec_alt() {
                EditAction::WordFwd
            } else if c == 'u' && m == KeyModifiers::spec_control() {
                EditAction::KillToBol
            } else if c == 'k' && m == KeyModifiers::spec_control() {
                EditAction::KillToEol
            } else if c == 'y' && m == KeyModifiers::spec_control() {
                EditAction::Yank
            } else if c == 'b' && m == KeyModifiers::spec_control() {
                EditAction::MoveLeft
            } else if c == 'f' && m == KeyModifiers::spec_control() {
                EditAction::MoveRight
            } else if c == 'p' && m == KeyModifiers::spec_control() {
                EditAction::MoveUp
            } else if c == 'n' && m == KeyModifiers::spec_control() {
                EditAction::MoveDown
            } else if c == 'a' && m == KeyModifiers::spec_control() {
                EditAction::MoveBol
            } else if c == 'e' && m == KeyModifiers::spec_control() {
                EditAction::MoveEol
            } else {
                EditAction::Ignore
            }
        },
        KeyCode::Enter => EditAction::InsertNewline,
        KeyCode::Backspace => {
            if m == KeyModifiers::spec_alt() {
                EditAction::DeleteWordBack
            } else {
                EditAction::DeleteBackward
            }
        },
        KeyCode::Delete => {
            if m == KeyModifiers::spec_alt() {
                EditAction::DeleteWordFwd
            } else {
                EditAction::DeleteForward
            }
        },
        KeyCode::Left => {
            if m == KeyModifiers::spec_none() {
                EditAction::MoveLeft
            } else if m == KeyModifiers::spec_alt() || m == KeyModifiers::spec_control() {
                EditAction::WordBack
            } else {
                EditAction::Ignore
            }
        },
        KeyCode::Right => {
            if m == KeyModifiers::spec_none() {
                EditAction::MoveRight
            } else if m == KeyModifiers::spec_alt() || m == KeyModifiers::spec_control() {
                EditAction::WordFwd
            } else {
                EditAction::Ignore
            }
        },
        KeyCode::Up => EditAction::MoveUp,
        KeyCode::Down => EditAction::MoveDown,
        KeyCode::Home => EditAction::MoveBol,
        KeyCode::End => EditAction::MoveEol,
        KeyCode::Esc => EditAction::Ignore,
        KeyCode::Other => EditAction::Ignore,
    }
}

/// The keybinding table, executable.
pub fn key_action(e: KeyEvent) -> (a: EditAction)
    ensures
        a == spec_key_action(e),
{
    let m = e.modifiers;
    let none = KeyModifiers { shift: false, control: false, alt: false };
    let shift = KeyModifiers { shift: true, control: false, alt: false };
    let control = KeyModifiers { shift: false, control: true, alt: false };
    let alt = KeyModifiers { shift: false, control: false, alt: true };
    let control_alt = KeyModifiers { shift: false, control: true, alt: true };
    match e.code {
        KeyCode::Char(c) => {
            if m == none {
                if c == '\u{2}' {
                    EditAction::MoveLeft
                } else if c == '\u{6}' {
                    EditAction::MoveRight
                } else if c == '\u{10}' {
                    EditAction::MoveUp
                } else if c == '\u{e}' {
                    EditAction::MoveDown
                } else {
                    EditAction::InsertChar(c)
                }
            } else if m == shift {
                EditAction::InsertChar(c)
            } else if (c == 'j' || c == 'm') && m == control {
                EditAction::InsertNewline
            } else if c == 'h' && m == control_alt {
                EditAction::DeleteWordBack
            } else if c == 'h' && m == control {
                EditAction::DeleteBackward
            } else if c == 'd' && m == control {
                EditAction::DeleteForward
            } else if c == 'w' && m == control {
                EditAction::DeleteWordBack
            } else if c == 'b' && m == alt {
                EditAction::WordBack
            } else if c == 'f' && m == alt {
                EditAction::WordFwd
            } else if c == 'u' && m == control {
                EditAction::KillToBol
            } else if c == 'k' && m == control {
                EditAction::KillToEol
            } else if c == 'y' && m == control {
                EditAction::Yank
            } else if c == 'b' && m == control {
                EditAction::MoveLeft
            } else if c == 'f' && m == control {
                EditAction::MoveRight
            } else if c == 'p' && m == control {
                EditAction::MoveUp
            } else if c == 'n' && m == control {
                EditAction::MoveDown
            } else if c == 'a' && m == control {
                EditAction::MoveBol
            } else if c == 'e' && m == control {
                EditAction::MoveEol
            } else {
                EditAction::Ignore
            }
        },
        KeyCode::Enter => EditAction::InsertNewline,
        KeyCode::Backspace => {
            if m == alt {
                EditAction::DeleteWordBack
            } else {
                EditAction::DeleteBackward
            }
        },
        KeyCode::Delete => {
            if m == alt {
                EditAction::DeleteWordFwd
            } else {
                EditAction::DeleteForward
            }
        },
        KeyCode::Left => {
            if m == none {
                EditAction::MoveLeft
            } else if m == alt || m == control {
                EditAction::WordBack
            } else {
                EditAction::Ignore
            }
        },
        KeyCode::Right => {
            if m == none {
                EditAction::MoveRight
            } else if m == alt || m == control {
                EditAction::WordFwd
            } else {
                EditAction::Ignore
            }
        },
        KeyCode::Up => EditAction::MoveUp,
        KeyCode::Down => EditAction::MoveDown,
        KeyCode::Home => EditAction::MoveBol,
        KeyCode::End => EditAction::MoveEol,
        KeyCode::Esc => EditAction::Ignore,
        KeyCode::Other => EditAction::Ignore,
    }
}

/// Whitespace test for the character before `p`.
fn space_before(v: &Vec<char>, p: usize) -> (r: bool)
    requires
        1 <= p <= v@.len(),
    ensures
        r == spec_is_space(v@[p - 1]),
{
    crate::text::is_space(v[p - 1])
}

/// Same-class test for the character before `p`.
fn class_before(v: &Vec<char>, p: usize, cls: bool) -> (r: bool)
    requires
        1 <= p <= v@.len(),
    ensures
        r == (!spec_is_space(v@[p - 1]) && spec_word_sep(v@[p - 1]) == cls),
{
    !crate::text::is_space(v[p - 1]) && is_word_separator(v[p - 1]) == cls
}

/// Whitespace test for the character at `p`.
fn space_at(v: &Vec<char>, p: usize) -> (r: bool)
    requires
        p < v@.len(),
    ensures
        r == spec_is_space(v@[p as int]),
{
    crate::text::is_space(v[p])
}

/// Same-class test for the character at `p`.
fn class_at(v: &Vec<char>, p: usize, cls: bool) -> (r: bool)
    requires
        p < v@.len(),
    ensures
        r == (!spec_is_space(v@[p as int]) && spec_word_sep(v@[p as int]) == cls),
{
    !crate::text::is_space(v[p]) && is_word_separator(v[p]) == cls
}

/// True for the characters word motion treats as separators.
pub fn is_word_separator(c: char) -> (r: bool)
    ensures
        r == spec_word_sep(c),
{
    c == '`' || c == '~' || c == '!' || c == '@' || c == '#' || c == '$' || c == '%' || c == '^'
        || c == '&' || c == '*' || c == '(' || c == ')' || c == '-' || c == '=' || c == '+' || c
        == '[' || c == '{' || c == ']' || c == '}' || c == '\\' || c == '|' || c == ';' || c == ':'
        || c == '\'' || c == '"' || c == ',' || c == '.' || c == '<' || c == '>' || c == '/' || c
        == '?'
}

/// The element list after text `[at, end)` was replaced by `diff + (end - at)`
/// characters: elements fully inside the replaced range disappear, elements
/// before it stay, elements after it shift by `diff`. Partial overlaps are
/// ruled out by the callers (ranges are expanded to element boundaries first).
pub open spec fn spec_shift_elements(
    els: Seq<ElementRange>,
    at: int,
    end: int,
    diff: int,
) -> Seq<ElementRange>
    decreases els.len(),
{
    if els.len() == 0 {
        Seq::<ElementRange>::empty()
    } else {
        let e = els[0];
        let rest = spec_shift_elements(els.drop_first(), at, end, diff);
        if at <= e.start && e.end <= end {
            rest
        } else if e.end <= at {
            seq![e] + rest
        } else {
            seq![
                ElementRange { start: (e.start + diff) as usize, end: (e.end + diff) as usize },
            ] + rest
        }
    }
}

/// `e` is a kept or shifted copy of one of the old elements.
pub open spec fn spec_is_shift_image(
    els: Seq<ElementRange>,
    at: int,
    end: int,
    diff: int,
    e: ElementRange,
) -> bool {
    exists|j: int|
        0 <= j < els.len() && (((#[trigger] els[j]).end <= at && e == els[j]) || (els[j].start
            >= end && e == ElementRange {
            start: (els[j].start + diff) as usize,
            end: (els[j].end + diff) as usize,
        }))
}

/// Shifting preserves well-formedness, keeps every remaining element clear of
/// the replaced range, and produces only kept or shifted copies of old
/// elements.
pub proof fn lemma_shift_elements_wf(
    els: Seq<ElementRange>,
    at: int,
    end: int,
    diff: int,
    old_len: nat,
)
    requires
        spec_elements_wf(els, old_len),
        0 <= at <= end <= old_len,
        end + diff >= at,
        0 <= old_len + diff <= usize::MAX,
        forall|i: int|
            0 <= i < els.len() ==> ((#[trigger] els[i]).end <= at || els[i].start >= end || (at
                <= els[i].start && els[i].end <= end)),
    ensures
        spec_elements_wf(spec_shift_elements(els, at, end, diff), (old_len + diff) as nat),
        forall|k: int|
            0 <= k < spec_shift_elements(els, at, end, diff).len() ==> ((#[trigger]
            spec_shift_elements(els, at, end, diff)[k]).end <= at || spec_shift_elements(
                els,
                at,
                end,
                diff,
            )[k].start >= end + diff),
        forall|k: int|
            0 <= k < spec_shift_elements(els, at, end, diff).len() ==> spec_is_shift_image(
                els,
                at,
                end,
                diff,
                #[trigger] spec_shift_elements(els, at, end, diff)[k],
            ),
    decreases els.len(),
{
    if els.len() > 0 {
        let e = els[0];
        let tail = els.drop_first();
        assert forall|i: int| 0 <= i < tail.len() implies ((#[trigger] tail[i]).end <= at
            || tail[i].start >= end || (at <= tail[i].start && tail[i].end <= end)) by {
            assert(tail[i] == els[i + 1]);
        }
        assert(spec_elements_wf(tail, old_len)) by {
            assert forall|i: int|
                0 <= i < tail.len() implies (#[trigger] tail[i]).start < tail[i].end && tail[i].end
                <= old_len by {
                assert(tail[i] == els[i + 1]);
            }
            assert forall|i: int, j: int| 0 <= i < j < tail.len() implies (#[trigger] tail[i]).end
                <= (#[trigger] tail[j]).start by {
                assert(tail[i] == els[i + 1]);
                assert(tail[j] == els[j + 1]);
            }
        }
        lemma_shift_elements_wf(tail, at, end, diff, old_len);
        let rest = spec_shift_elements(tail, at, end, diff);
        let r = spec_shift_elements(els, at, end, diff);
        assert forall|k: int|
            0 <= k < r.len() implies spec_is_shift_image(els, at, end, diff, #[trigger] r[k]) by {
            let kept_first: bool = !(at <= e.start && e.end <= end);
            if kept_first && k == 0 {
                assert((els[0].end <= at && r[0] == els[0]) || (els[0].start >= end && r[0]
                    == ElementRange {
                    start: (els[0].start + diff) as usize,
                    end: (els[0].end + diff) as usize,
                }));
            } else {
                let k2: int = if kept_first {
                    k - 1
                } else {
                    k
                };
                assert(r[k] == rest[k2]);
                let w = choose|w: int|
                    0 <= w < tail.len() && (((#[trigger] tail[w]).end <= at && rest[k2] == tail[w])
                        || (tail[w].start >= end && rest[k2] == ElementRange {
                        start: (tail[w].start + diff) as usize,
                        end: (tail[w].end + diff) as usize,
                    }));
                assert(tail[w] == els[w + 1]);
            }
        }
        if !(at <= e.start && e.end <= end) {
            assert forall|i: int, j: int| 0 <= i < j < r.len() implies (#[trigger] r[i]).end <= (
            #[trigger] r[j]).start by {
                if i == 0 {
                    assert(r[j] == rest[j - 1]);
                    let w = choose|w: int|
                        0 <= w < tail.len() && (((#[trigger] tail[w]).end <= at && rest[j - 1]
                            == tail[w]) || (tail[w].start >= end && rest[j - 1] == ElementRange {
                            start: (tail[w].start + diff) as usize,
                            end: (tail[w].end + diff) as usize,
                        }));
                    assert(tail[w] == els[w + 1]);
                    assert(e.end <= els[w + 1].start);
                } else {
                    assert(r[i] == rest[i - 1] && r[j] == rest[j - 1]);
                }
            }
        }
    }
}

/// A cursor outside every element stays outside after an insertion at `at`
/// (the cursor itself shifts with the text when it sits at or after `at`).
pub proof fn lemma_insert_preserves_outside(
    els: Seq<ElementRange>,
    at: int,
    diff: int,
    pos: int,
    old_len: nat,
)
    requires
        spec_elements_wf(els, old_len),
        0 <= at <= old_len,
        diff >= 0,
        0 <= old_len + diff <= usize::MAX,
        forall|i: int| 0 <= i < els.len() ==> ((#[trigger] els[i]).end <= at || els[i].start >= at),
        spec_pos_outside(els, pos),
        0 <= pos,
    ensures
        spec_pos_outside(
            spec_shift_elements(els, at, at, diff),
            if pos >= at {
                pos + diff
            } else {
                pos
            },
        ),
{
    lemma_shift_elements_wf(els, at, at, diff, old_len);
    let r = spec_shift_elements(els, at, at, diff);
    let new_pos: int = if pos >= at {
        pos + diff
    } else {
        pos
    };
    assert forall|k: int| 0 <= k < r.len() implies !((#[trigger] r[k]).start < new_pos
        && new_pos < r[k].end) by {
        let j = choose|j: int|
            0 <= j < els.len() && (((#[trigger] els[j]).end <= at && r[k] == els[j]) || (
            els[j].start >= at && r[k] == ElementRange {
                start: (els[j].start + diff) as usize,
                end: (els[j].end + diff) as usize,
            }));
        assert(!(els[j].start < pos && pos < els[j].end));
    }
}

/// Applies `spec_shift_elements` to the element list in place.
pub fn shift_elements(els: &mut Vec<ElementRange>, at: usize, removed: usize, inserted: usize)
    requires
        at + removed <= usize::MAX,
        forall|i: int|
            0 <= i < old(els)@.len() ==> ((#[trigger] old(els)@[i]).end <= at || old(
                els,
            )@[i].start >= at + removed || (at <= old(els)@[i].start && old(els)@[i].end <= at
                + removed)),
        forall|i: int|
            0 <= i < old(els)@.len() ==> (#[trigger] old(els)@[i]).start <= old(els)@[i].end && old(
                els,
            )@[i].end + inserted <= usize::MAX + removed,
    ensures
        final(els)@ == spec_shift_elements(
            old(els)@,
            at as int,
            at + removed,
            inserted - removed,
        ),
{
    let ghost orig = els@;
    proof {
        assert(orig.skip(0) =~= orig);
    }
    let mut out: Vec<ElementRange> = Vec::new();
    let mut i: usize = 0;
    while i < els.len()
        invariant
            i <= els@.len(),
            els@ == orig,
            at + removed <= usize::MAX,
            forall|k: int|
                0 <= k < orig.len() ==> ((#[trigger] orig[k]).end <= at || orig[k].start >= at
                    + removed || (at <= orig[k].start && orig[k].end <= at + removed)),
            forall|k: int|
                0 <= k < orig.len() ==> (#[trigger] orig[k]).start <= orig[k].end && orig[k].end
                    + inserted <= usize::MAX + removed,
            spec_shift_elements(orig, at as int, at + removed, inserted - removed) == out@
                + spec_shift_elements(
                orig.skip(i as int),
                at as int,
                at + removed,
                inserted - removed,
            ),
        decreases els@.len() - i,
    {
        let ghost rest = orig.skip(i as int);
        proof {
            assert(rest[0] == orig[i as int]);
            assert(rest.drop_first() =~= orig.skip(i + 1));
        }
        let e = els[i];
        proof {
            assert(e == orig[i as int]);
            assert(orig[i as int].end <= at || orig[i as int].start >= at + removed || (at
                <= orig[i as int].start && orig[i as int].end <= at + removed));
        }
        if at <= e.start && e.end <= at + removed {
            // removed with the replaced range
        } else if e.end <= at {
            out.push(e);
        } else {
            proof {
                assert(e.start >= at + removed);
                assert(orig[i as int].end + inserted <= usize::MAX + removed);
            }
            let new_start = e.start - removed + inserted;
            let new_end = e.end - removed + inserted;
            out.push(ElementRange { start: new_start, end: new_end });
        }
        proof {
            assert(spec_shift_elements(orig, at as int, at + removed, inserted - removed) =~= out@
                + spec_shift_elements(
                orig.skip(i + 1),
                at as int,
                at + removed,
                inserted - removed,
            ));
        }
        i += 1;
    }
    proof {
        assert(orig.skip(orig.len() as int) =~= Seq::<ElementRange>::empty());
        assert(out@ =~= spec_shift_elements(orig, at as int, at + removed, inserted - removed));
    }
    *els = out;
}

/// Unfolds one more application of `spec_prev_boundary` at the outside.
pub proof fn lemma_prev_boundary_n_step(els: Seq<ElementRange>, pos: int, k: nat)
    ensures
        spec_prev_boundary_n(els, pos, k + 1) == spec_prev_boundary(
            els,
            spec_prev_boundary_n(els, pos, k),
        ),
    decreases k,
{
    reveal_with_fuel(spec_prev_boundary_n, 3);
    if k > 0 {
        lemma_prev_boundary_n_step(els, spec_prev_boundary(els, pos), (k - 1) as nat);
    }
}

/// Unfolds one more application of `spec_next_boundary` at the outside.
pub proof fn lemma_next_boundary_n_step(els: Seq<ElementRange>, pos: int, len: int, k: nat)
    ensures
        spec_next_boundary_n(els, pos, len, k + 1) == spec_next_boundary(
            els,
            spec_next_boundary_n(els, pos, len, k),
            len,
        ),
    decreases k,
{
    reveal_with_fuel(spec_next_boundary_n, 3);
    if k > 0 {
        lemma_next_boundary_n_step(els, spec_next_boundary(els, pos, len), len, (k - 1) as nat);
    }
}

/// A cursor outside every element stays outside after a replacement of
/// `[at, end)` by `end + diff - at` characters, under the replacement's
/// cursor rule: positions before the range stay, positions in the range land
/// just after the inserted text, positions after the range shift by `diff`.
pub proof fn lemma_replace_cursor_outside(
    els: Seq<ElementRange>,
    at: int,
    end: int,
    diff: int,
    pos: int,
    old_len: nat,
)
    requires
        spec_elements_wf(els, old_len),
        0 <= at <= end <= old_len,
        end + diff >= at,
        0 <= old_len + diff <= usize::MAX,
        forall|i: int|
            0 <= i < els.len() ==> ((#[trigger] els[i]).end <= at || els[i].start >= end || (at
                <= els[i].start && els[i].end <= end)),
        spec_pos_outside(els, pos),
        0 <= pos <= old_len,
    ensures
        spec_pos_outside(
            spec_shift_elements(els, at, end, diff),
            if pos < at {
                pos
            } else if pos <= end {
                end + diff
            } else {
                pos + diff
            },
        ),
{
    lemma_shift_elements_wf(els, at, end, diff, old_len);
    let r = spec_shift_elements(els, at, end, diff);
    let new_pos: int = if pos < at {
        pos
    } else if pos <= end {
        end + diff
    } else {
        pos + diff
    };
    assert forall|k: int| 0 <= k < r.len() implies !((#[trigger] r[k]).start < new_pos && new_pos
        < r[k].end) by {
        assert(spec_is_shift_image(els, at, end, diff, r[k]));
        let j = choose|j: int|
            0 <= j < els.len() && (((#[trigger] els[j]).end <= at && r[k] == els[j]) || (
            els[j].start >= end && r[k] == ElementRange {
                start: (els[j].start + diff) as usize,
                end: (els[j].end + diff) as usize,
            }));
        assert(!(els[j].start < pos && pos < els[j].end));
    }
}

/// Expanding a range that already respects element boundaries changes
/// nothing.
pub proof fn lemma_expand_fixed(els: Seq<ElementRange>, s: int, e: int, text_len: nat)
    requires
        spec_elements_wf(els, text_len),
        0 <= s <= e <= text_len,
        forall|i: int|
            0 <= i < els.len() ==> ((#[trigger] els[i]).end <= s || els[i].start >= e || (s
                <= els[i].start && els[i].end <= e)),
    ensures
        spec_expand_range(els, s, e) == (s, e),
    decreases els.len(),
{
    if els.len() > 0 {
        let front = els.drop_last();
        assert(forall|i: int| 0 <= i < front.len() ==> front[i] == (#[trigger] els[i]));
        lemma_expand_fixed(front, s, e, text_len);
        let el = els.last();
        assert(el == els[els.len() - 1]);
        if el.start < e && el.end > s {
            assert(s <= el.start && el.end <= e);
        }
    }
}

/// Both boundaries of a well-formed element are outside every element's
/// interior.
pub proof fn lemma_boundary_outside(els: Seq<ElementRange>, i: int, text_len: nat)
    requires
        spec_elements_wf(els, text_len),
        0 <= i < els.len(),
    ensures
        spec_pos_outside(els, els[i].start as int),
        spec_pos_outside(els, els[i].end as int),
{
    assert forall|j: int| 0 <= j < els.len() implies !((#[trigger] els[j]).start < els[i].start
        && els[i].start < els[j].end) by {
        if j < i {
            assert(els[j].end <= els[i].start);
        }
        if i < j {
            assert(els[i].end <= els[j].start);
        }
    }
    assert forall|j: int| 0 <= j < els.len() implies !((#[trigger] els[j]).start < els[i].end
        && els[i].end < els[j].end) by {
        if j < i {
            assert(els[j].end <= els[i].start);
        }
        if i < j {
            assert(els[i].end <= els[j].start);
        }
    }
}

/// Law: in a well-formed textarea the cursor never rests strictly inside an
/// atomic element; every operation of the type preserves this.
pub proof fn lemma_cursor_never_inside_element(ta: TextArea)
    requires
        ta.spec_wf(),
    ensures
        forall|i: int|
            0 <= i < ta.elements@.len() ==> !((#[trigger] ta.elements@[i]).start < ta.cursor_pos
                && ta.cursor_pos < ta.elements@[i].end),
{
}

} // verus!

