//! The observer's bounded log buffer.
//!
//! An append-only text buffer capped at a maximum line count: when an append
//! pushes the tracked line count over the cap, the oldest half of the lines
//! is discarded at once, always at a line boundary, so the buffer never grows
//! unbounded during a long build.

use vstd::prelude::*;

verus! {

/// The number of `\n` characters in `s`.
pub open spec fn line_breaks(s: Seq<char>) -> int
    decreases s.len(),
{
    if s.len() == 0 {
        0
    } else {
        line_breaks(s.drop_last()) + if s.last() == '\n' {
            1int
        } else {
            0int
        }
    }
}

/// Line counting distributes over concatenation.
pub proof fn lemma_line_breaks_concat(a: Seq<char>, b: Seq<char>)
    ensures
        line_breaks(a + b) == line_breaks(a) + line_breaks(b),
    decreases b.len(),
{
    if b.len() == 0 {
        assert(a + b =~= a);
    } else {
        assert((a + b).drop_last() =~= a + b.drop_last());
        lemma_line_breaks_concat(a, b.drop_last());
    }
}

/// There are never more line breaks than characters.
proof fn lemma_line_breaks_le_len(s: Seq<char>)
    ensures
        0 <= line_breaks(s) <= s.len(),
    decreases s.len(),
{
    if s.len() > 0 {
        lemma_line_breaks_le_len(s.drop_last());
    }
}

/// Count the `\n` characters of `s`.
fn count_newlines(s: &str) -> (r: usize)
    ensures
        r as int == line_breaks(s@),
{
    let n = s.unicode_len();
    let mut i: usize = 0;
    let mut seen: usize = 0;
    while i < n
        invariant
            n == s@.len(),
            i <= n,
            seen <= i,
            seen as int == line_breaks(s@.take(i as int)),
        decreases n - i,
    {
        let c = s.get_char(i);
        proof {
            assert(s@.take(i + 1).drop_last() =~= s@.take(i as int));
        }
        if c == '\n' {
            seen = seen + 1;
        }
        i = i + 1;
    }
    proof {
        assert(s@.take(n as int) =~= s@);
    }
    seen
}

/// `text` is what remains of `full` after the oldest lines are discarded at
/// a line boundary so that exactly `keep` line breaks remain: the retained
/// part is the suffix that starts right after a line break, never inside a
/// line.
pub open spec fn trimmed_suffix(full: Seq<char>, keep: int, text: Seq<char>) -> bool {
    exists|cut: int|
        1 <= cut <= full.len() && full[cut - 1] == '\n' && line_breaks(full.take(cut))
            == line_breaks(full) - keep && text == #[trigger] full.skip(cut)
}

/// How one append changes a buffer: within the cap the text is exactly
/// extended; over it, the oldest lines are discarded at a line boundary
/// until exactly half the maximum remains.
pub open spec fn append_rel(pre: LogBuffer, post: LogBuffer, msg: Seq<char>) -> bool {
    &&& post.spec_max_lines() == pre.spec_max_lines()
    &&& line_breaks(pre.spec_text() + msg) <= pre.spec_max_lines() ==> post.spec_text()
        == pre.spec_text() + msg
    &&& line_breaks(pre.spec_text() + msg) > pre.spec_max_lines() ==> trimmed_suffix(
        pre.spec_text() + msg,
        pre.spec_max_lines() / 2,
        post.spec_text(),
    )
    &&& post.spec_line_count() == if line_breaks(pre.spec_text() + msg) <= pre.spec_max_lines() {
        line_breaks(pre.spec_text() + msg)
    } else {
        pre.spec_max_lines() / 2
    }
}

/// A text buffer whose tracked line count never exceeds `max_lines`.
pub struct LogBuffer {
    text: String,
    line_count: usize,
    max_lines: usize,
}

impl LogBuffer {
    /// The buffer's contents.
    pub closed spec fn spec_text(&self) -> Seq<char> {
        self.text@
    }

    /// The tracked number of lines (line breaks) in the buffer.
    pub closed spec fn spec_line_count(&self) -> int {
        self.line_count as int
    }

    /// The configured maximum line count.
    pub closed spec fn spec_max_lines(&self) -> int {
        self.max_lines as int
    }

    /// The buffer invariant: the tracked count is the true number of line
    /// breaks, and it never exceeds the configured maximum.
    pub closed spec fn wf(&self) -> bool {
        &&& self.line_count as int == line_breaks(self.text@)
        &&& self.line_count <= self.max_lines
        &&& self.max_lines >= 1
    }

    /// An empty buffer capped at `max_lines` lines.
    pub fn new(max_lines: usize) -> (r: LogBuffer)
        requires
            max_lines >= 1,
        ensures
            r.wf(),
            r.spec_text() == Seq::<char>::empty(),
            r.spec_max_lines() == max_lines as int,
    {
        LogBuffer { text: String::new(), line_count: 0, max_lines }
    }

    /// The buffer's contents, for display.
    pub fn text(&self) -> (r: &str)
        ensures
            r@ == self.spec_text(),
    {
        self.text.as_str()
    }

    /// The tracked line count.
    pub fn line_count(&self) -> (r: usize)
        ensures
            r as int == self.spec_line_count(),
    {
        self.line_count
    }

    /// Append `msg` to the buffer.  When the line count stays within the
    /// cap the text is exactly extended; otherwise the oldest lines are
    /// discarded, at a line boundary, until exactly `max_lines / 2` line
    /// breaks remain.
    pub fn append(&mut self, msg: &str)
        requires
            old(self).wf(),
        ensures
            final(self).wf(),
            append_rel(*old(self), *final(self), msg@),
    {
        let ghost old_text = self.text@;
        self.text.append(msg);
        proof {
            assert(self.text@ == old_text + msg@);
        }
        let total = count_newlines(self.text.as_str());
        if total <= self.max_lines {
            self.line_count = total;
            return ;
        }
        // Too many lines: discard the oldest, keeping `max_lines / 2` line
        // breaks, cutting just after a line break.
        let keep = self.max_lines / 2;
        let drop_breaks = total - keep;
        let n = self.text.as_str().unicode_len();
        let mut i: usize = 0;
        let mut seen: usize = 0;
        while seen < drop_breaks
            invariant
                n == self.text@.len(),
                i <= n,
                seen <= drop_breaks,
                drop_breaks as int <= line_breaks(self.text@),
                seen as int == line_breaks(self.text@.take(i as int)),
                drop_breaks >= 1,
                seen == drop_breaks ==> i >= 1 && self.text@[i as int - 1] == '\n',
            decreases n - i,
        {
            proof {
                if i == n {
                    assert(self.text@.take(n as int) =~= self.text@);
                }
                lemma_line_breaks_le_len(self.text@.take(i as int));
            }
            let c = self.text.as_str().get_char(i);
            proof {
                assert(self.text@.take(i + 1).drop_last() =~= self.text@.take(i as int));
            }
            if c == '\n' {
                seen = seen + 1;
            }
            i = i + 1;
        }
        let rest = String::from_str(self.text.as_str().substring_char(i, n));
        proof {
            assert(rest@ =~= self.text@.skip(i as int));
            assert(self.text@.take(i as int) + self.text@.skip(i as int) =~= self.text@);
            lemma_line_breaks_concat(self.text@.take(i as int), self.text@.skip(i as int));
        }
        self.text = rest;
        self.line_count = keep;
    }
}

} // verus!
