//! The cursor buffer: safe, symmetric bidirectional traversal over
//! decoded source text, with line-number tracking and word location.

use vstd::prelude::*;
use vstd::string::StrSliceExecFns;

verus! {

/// Number of newline scalar values strictly before `pos` in `s`.
pub open spec fn newlines_before(s: Seq<char>, pos: int) -> int
    recommends
        0 <= pos <= s.len(),
    decreases pos,
{
    if pos <= 0 {
        0
    } else {
        newlines_before(s, pos - 1) + if s[pos - 1] == '\n' {
            1int
        } else {
            0int
        }
    }
}

pub proof fn lemma_newlines_before_bounds(s: Seq<char>, pos: int)
    ensures
        0 <= newlines_before(s, pos),
        pos >= 0 ==> newlines_before(s, pos) <= pos,
    decreases pos,
{
    if pos > 0 {
        lemma_newlines_before_bounds(s, pos - 1);
    }
}

/// Separator classification: exactly space, tab and newline delimit
/// words; no other whitespace scalar value is recognized.
pub open spec fn is_separator_char(c: char) -> bool {
    c == ' ' || c == '\t' || c == '\n'
}

/// Index of the first non-separator scalar value at or after `i` in `s`,
/// or the end of `s` if only separators remain.
pub open spec fn sep_run_end(s: Seq<char>, i: int) -> int
    recommends
        0 <= i <= s.len(),
    decreases s.len() - i,
{
    if i < 0 || i >= s.len() {
        s.len() as int
    } else if is_separator_char(s[i]) {
        sep_run_end(s, i + 1)
    } else {
        i
    }
}

pub proof fn lemma_sep_run_end_bounds(s: Seq<char>, i: int)
    requires
        0 <= i <= s.len(),
    ensures
        i <= sep_run_end(s, i) <= s.len(),
        sep_run_end(s, i) < s.len() ==> !is_separator_char(s[sep_run_end(s, i)]),
        forall|j: int| i <= j < sep_run_end(s, i) ==> is_separator_char(s[j]),
    decreases s.len() - i,
{
    if i < s.len() && is_separator_char(s[i]) {
        lemma_sep_run_end_bounds(s, i + 1);
    }
}

/// Index of the first separator scalar value at or after `i` in `s`, or
/// the end of `s` if the word runs to the end of the buffer.
pub open spec fn word_run_end(s: Seq<char>, i: int) -> int
    recommends
        0 <= i <= s.len(),
    decreases s.len() - i,
{
    if i < 0 || i >= s.len() {
        s.len() as int
    } else if is_separator_char(s[i]) {
        i
    } else {
        word_run_end(s, i + 1)
    }
}

pub proof fn lemma_word_run_end_bounds(s: Seq<char>, i: int)
    requires
        0 <= i <= s.len(),
    ensures
        i <= word_run_end(s, i) <= s.len(),
        word_run_end(s, i) < s.len() ==> is_separator_char(s[word_run_end(s, i)]),
        forall|j: int| i <= j < word_run_end(s, i) ==> !is_separator_char(s[j]),
    decreases s.len() - i,
{
    if i < s.len() && !is_separator_char(s[i]) {
        lemma_word_run_end_bounds(s, i + 1);
    }
}

/// Skipping separators is idempotent: the index that a run of
/// separators ends at is a fixed point of `sep_run_end`, so skipping a
/// second time moves neither the position nor the line count.
pub proof fn lemma_skip_separators_idempotent(s: Seq<char>, i: int)
    requires
        0 <= i <= s.len(),
    ensures
        sep_run_end(s, sep_run_end(s, i)) == sep_run_end(s, i),
{
    lemma_sep_run_end_bounds(s, i);
}

/// One forward step of the cursor model over the buffer `s`: the state
/// is the pair of position and line count. At end-of-buffer the step
/// saturates and leaves the state unchanged.
pub open spec fn step_forward(s: Seq<char>, st: (int, int)) -> (int, int) {
    if st.0 < s.len() {
        (st.0 + 1, st.1 + if s[st.0] == '\n' {
            1int
        } else {
            0int
        })
    } else {
        st
    }
}

/// One backward step of the cursor model; at the start of the buffer
/// the step saturates and leaves the state unchanged.
pub open spec fn step_backward(s: Seq<char>, st: (int, int)) -> (int, int) {
    if st.0 > 0 {
        (st.0 - 1, st.1 - if s[st.0 - 1] == '\n' {
            1int
        } else {
            0int
        })
    } else {
        st
    }
}

/// `n` forward steps of the cursor model.
pub open spec fn steps_forward(s: Seq<char>, st: (int, int), n: nat) -> (int, int)
    decreases n,
{
    if n == 0 {
        st
    } else {
        step_forward(s, steps_forward(s, st, (n - 1) as nat))
    }
}

/// `n` backward steps of the cursor model.
pub open spec fn steps_backward(s: Seq<char>, st: (int, int), n: nat) -> (int, int)
    decreases n,
{
    if n == 0 {
        st
    } else {
        step_backward(s, steps_backward(s, st, (n - 1) as nat))
    }
}

pub proof fn lemma_steps_forward_position(s: Seq<char>, st: (int, int), n: nat)
    requires
        0 <= st.0,
        st.0 + n <= s.len(),
    ensures
        steps_forward(s, st, n).0 == st.0 + n,
    decreases n,
{
    if n > 0 {
        lemma_steps_forward_position(s, st, (n - 1) as nat);
    }
}

pub proof fn lemma_steps_backward_commute(s: Seq<char>, st: (int, int), n: nat)
    requires
        n > 0,
    ensures
        steps_backward(s, st, n) == steps_backward(s, step_backward(s, st), (n - 1) as nat),
    decreases n,
{
    if n == 1 {
        assert(steps_backward(s, st, 1) == step_backward(s, steps_backward(s, st, 0)));
        assert(steps_backward(s, step_backward(s, st), 0) == step_backward(s, st));
    } else {
        lemma_steps_backward_commute(s, st, (n - 1) as nat);
        assert(steps_backward(s, step_backward(s, st), (n - 1) as nat) == step_backward(
            s,
            steps_backward(s, step_backward(s, st), (n - 2) as nat),
        ));
    }
}

/// Inverse property: from any well-placed state, advancing `n` steps
/// without running past the end of the buffer and then retreating `n`
/// steps restores both the position and the line count exactly. The
/// model measures positions in scalar values, so this holds for any
/// buffer contents, newlines and multi-code-unit characters included.
pub proof fn lemma_retreat_inverts_advance(s: Seq<char>, st: (int, int), n: nat)
    requires
        0 <= st.0,
        st.0 + n <= s.len(),
    ensures
        steps_backward(s, steps_forward(s, st, n), n) == st,
    decreases n,
{
    if n > 0 {
        let prev_st = steps_forward(s, st, (n - 1) as nat);
        lemma_steps_forward_position(s, st, (n - 1) as nat);
        lemma_steps_backward_commute(s, steps_forward(s, st, n), n);
        assert(step_backward(s, step_forward(s, prev_st)) == prev_st);
        lemma_retreat_inverts_advance(s, st, (n - 1) as nat);
    }
}

pub proof fn lemma_steps_forward_split(s: Seq<char>, st: (int, int), a: nat, b: nat)
    ensures
        steps_forward(s, st, a + b) == steps_forward(s, steps_forward(s, st, a), b),
    decreases b,
{
    if b > 0 {
        lemma_steps_forward_split(s, st, a, (b - 1) as nat);
    }
}

pub proof fn lemma_steps_backward_split(s: Seq<char>, st: (int, int), a: nat, b: nat)
    ensures
        steps_backward(s, st, a + b) == steps_backward(s, steps_backward(s, st, a), b),
    decreases b,
{
    if b > 0 {
        lemma_steps_backward_split(s, st, a, (b - 1) as nat);
    }
}

/// Saturation at end-of-buffer: once the position sits at the buffer
/// length, any number of forward steps leaves position and line count
/// unchanged.
pub proof fn lemma_advance_saturates(s: Seq<char>, st: (int, int), n: nat)
    requires
        st.0 == s.len(),
    ensures
        steps_forward(s, st, n) == st,
    decreases n,
{
    if n > 0 {
        lemma_advance_saturates(s, st, (n - 1) as nat);
    }
}

/// Saturation at start-of-buffer: once the position sits at zero, any
/// number of backward steps leaves position and line count unchanged.
pub proof fn lemma_retreat_saturates(s: Seq<char>, st: (int, int), n: nat)
    requires
        st.0 == 0,
    ensures
        steps_backward(s, st, n) == st,
    decreases n,
{
    if n > 0 {
        lemma_retreat_saturates(s, st, (n - 1) as nat);
    }
}

/// Inverse property from the start of the buffer: any number of
/// forward steps, saturating at the end or not, followed by the same
/// number of backward steps returns to position zero and line count
/// zero, since the backward steps saturate at the start in turn.
pub proof fn lemma_full_retreat_returns_to_start(s: Seq<char>, st: (int, int), n: nat)
    requires
        st.0 == 0,
    ensures
        steps_backward(s, steps_forward(s, st, n), n) == st,
{
    if n <= s.len() {
        lemma_retreat_inverts_advance(s, st, n);
    } else {
        let len = s.len() as nat;
        let rest = (n - len) as nat;
        lemma_steps_forward_split(s, st, len, rest);
        lemma_steps_forward_position(s, st, len);
        lemma_advance_saturates(s, steps_forward(s, st, len), rest);
        let reached = steps_forward(s, st, n);
        lemma_steps_backward_split(s, reached, len, rest);
        lemma_retreat_inverts_advance(s, st, len);
        lemma_retreat_saturates(s, st, rest);
    }
}

/// The cursor buffer: owns the decoded source text and a movable
/// position with a line count.
pub struct Reader {
    src: String,
    cursor: usize,
    line_number: usize,
}

impl Reader {
    /// The decoded source text, as a sequence of Unicode scalar values;
    /// immutable after construction.
    pub closed spec fn buffer(self) -> Seq<char> {
        self.src@
    }

    /// The current position, measured in scalar values.
    pub closed spec fn pos(self) -> int {
        self.cursor as int
    }

    /// The current line count.
    pub closed spec fn line(self) -> int {
        self.line_number as int
    }

    /// The cursor model state: position paired with line count.
    pub open spec fn state(self) -> (int, int) {
        (self.pos(), self.line())
    }

    /// Well-formedness: the position never leaves the buffer, and the
    /// line count equals the number of newlines strictly before the
    /// position. Every constructor establishes this and every
    /// navigation operation preserves it.
    pub open spec fn wf(self) -> bool {
        &&& 0 <= self.pos() <= self.buffer().len()
        &&& self.line() == newlines_before(self.buffer(), self.pos())
    }

    /// Build a reader over already-decoded source text, with the
    /// position at the start and the line count at zero.
    pub fn new(text: &str) -> (r: Reader)
        ensures
            r.wf(),
            r.buffer() == text@,
            r.pos() == 0,
            r.line() == 0,
    {
        Reader { src: text.to_owned(), cursor: 0, line_number: 0 }
    }

    /// The current position, measured in scalar values.
    pub fn position(&self) -> (p: usize)
        ensures
            p as int == self.pos(),
    {
        self.cursor
    }

    /// Return the scalar value at the position and move one step
    /// forward, counting a newline as a line boundary; at end-of-buffer
    /// return nothing and leave the state unchanged.
    pub fn next(&mut self) -> (r: Option<char>)
        requires
            old(self).wf(),
        ensures
            final(self).wf(),
            final(self).buffer() == old(self).buffer(),
            final(self).state() == step_forward(old(self).buffer(), old(self).state()),
            old(self).pos() < old(self).buffer().len() ==> r == Some(
                old(self).buffer()[old(self).pos()],
            ),
            old(self).pos() == old(self).buffer().len() ==> r is None && *final(self) == *old(
                self,
            ),
    {
        if self.cursor < self.src.as_str().unicode_len() {
            let c = self.src.as_str().get_char(self.cursor);
            if c == '\n' {
                proof {
                    lemma_newlines_before_bounds(self.src@, self.cursor as int);
                }
                self.line_number = self.line_number + 1;
            }
            self.cursor = self.cursor + 1;
            Some(c)
        } else {
            None
        }
    }

    /// Move one step backward and return the scalar value now at the
    /// position, counting a newline as a line boundary; at
    /// start-of-buffer return nothing and leave the state unchanged.
    pub fn prev(&mut self) -> (r: Option<char>)
        requires
            old(self).wf(),
        ensures
            final(self).wf(),
            final(self).buffer() == old(self).buffer(),
            final(self).state() == step_backward(old(self).buffer(), old(self).state()),
            old(self).pos() > 0 ==> r == Some(old(self).buffer()[old(self).pos() - 1]),
            old(self).pos() == 0 ==> r is None && *final(self) == *old(self),
    {
        if self.cursor > 0 {
            self.cursor = self.cursor - 1;
            let c = self.src.as_str().get_char(self.cursor);
            if c == '\n' {
                proof {
                    lemma_newlines_before_bounds(self.src@, self.cursor as int);
                }
                self.line_number = self.line_number - 1;
            }
            Some(c)
        } else {
            None
        }
    }

    /// Repeat `next` `n` times; once the buffer is exhausted the
    /// remaining steps are no-ops.
    pub fn skip(&mut self, n: usize)
        requires
            old(self).wf(),
        ensures
            final(self).wf(),
            final(self).buffer() == old(self).buffer(),
            final(self).state() == steps_forward(old(self).buffer(), old(self).state(), n as nat),
    {
        let mut i: usize = 0;
        while i < n
            invariant
                i <= n,
                self.wf(),
                self.buffer() == old(self).buffer(),
                self.state() == steps_forward(old(self).buffer(), old(self).state(), i as nat),
            decreases n - i,
        {
            let _ = self.next();
            i = i + 1;
        }
    }

    /// Jump the position to the start of the buffer. Jump-style
    /// repositioning recomputes the line count for the new position —
    /// trivially zero here — so the line-tracking invariant survives
    /// jumps as well as single steps.
    pub fn seek_start(&mut self)
        requires
            old(self).wf(),
        ensures
            final(self).wf(),
            final(self).buffer() == old(self).buffer(),
            final(self).pos() == 0,
            final(self).line() == 0,
    {
        self.cursor = 0;
        self.line_number = 0;
    }

    /// Jump the position to the end of the buffer, recomputing the
    /// line count by a scan so that the line-tracking invariant holds
    /// at the new position.
    pub fn seek_end(&mut self)
        requires
            old(self).wf(),
        ensures
            final(self).wf(),
            final(self).buffer() == old(self).buffer(),
            final(self).pos() == final(self).buffer().len(),
    {
        let len = self.src.as_str().unicode_len();
        let mut count: usize = 0;
        let mut i: usize = 0;
        while i < len
            invariant
                i <= len,
                self.src@ == old(self).src@,
                self.cursor == old(self).cursor,
                self.line_number == old(self).line_number,
                len as nat == self.src@.len(),
                count as int == newlines_before(self.src@, i as int),
            decreases len - i,
        {
            proof {
                lemma_newlines_before_bounds(self.src@, i as int);
            }
            if self.src.as_str().get_char(i) == '\n' {
                count = count + 1;
            }
            i = i + 1;
        }
        self.cursor = len;
        self.line_number = count;
    }

    /// Separator test used to delimit words.
    fn is_separator(c: char) -> (r: bool)
        ensures
            r == is_separator_char(c),
    {
        c == ' ' || c == '\t' || c == '\n'
    }

    /// Advance past the maximal run of separators at the position, so
    /// that the cursor rests on the first non-separator scalar value,
    /// or at end-of-buffer if none remains.
    pub fn skip_separator(&mut self)
        requires
            old(self).wf(),
        ensures
            final(self).wf(),
            final(self).buffer() == old(self).buffer(),
            final(self).pos() == sep_run_end(old(self).buffer(), old(self).pos()),
    {
        while self.cursor < self.src.as_str().unicode_len() && Reader::is_separator(
            self.src.as_str().get_char(self.cursor),
        )
            invariant
                self.wf(),
                self.buffer() == old(self).buffer(),
                old(self).pos() <= self.pos(),
                sep_run_end(self.buffer(), self.pos()) == sep_run_end(
                    old(self).buffer(),
                    old(self).pos(),
                ),
            decreases self.buffer().len() - self.pos(),
        {
            let _ = self.next();
        }
    }

    /// Return the word running from the position to the next separator
    /// or the end of the buffer, leaving the cursor on the separator;
    /// empty if the position already sits on a separator or at
    /// end-of-buffer.
    pub fn get_word(&mut self) -> (w: String)
        requires
            old(self).wf(),
        ensures
            final(self).wf(),
            final(self).buffer() == old(self).buffer(),
            final(self).pos() == word_run_end(old(self).buffer(), old(self).pos()),
            w@ == old(self).buffer().subrange(old(self).pos(), final(self).pos()),
    {
        let start = self.cursor;
        while self.cursor < self.src.as_str().unicode_len() && !Reader::is_separator(
            self.src.as_str().get_char(self.cursor),
        )
            invariant
                self.wf(),
                self.buffer() == old(self).buffer(),
                start as int == old(self).pos(),
                start <= self.cursor,
                word_run_end(self.buffer(), self.pos()) == word_run_end(
                    old(self).buffer(),
                    old(self).pos(),
                ),
            decreases self.buffer().len() - self.pos(),
        {
            let _ = self.next();
        }
        let w = self.src.as_str().substring_char(start, self.cursor);
        w.to_owned()
    }

    /// Read-only accessor for the line count.
    pub fn line_number(&self) -> (n: usize)
        ensures
            n as int == self.line(),
    {
        self.line_number
    }
}

} // verus!
