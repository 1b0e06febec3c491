//! Quoting strings for interpolation into POSIX shell command lines.
//!
//! Every externally-sourced string that reaches a shell command line is
//! wrapped in single quotes, with embedded single quotes escaped by closing
//! the quote, emitting `\'`, and reopening it.  [`lemma_shell_quote_round_trip`]
//! proves that a shell reading the quoted word recovers the original string
//! exactly.

use vstd::prelude::*;

verus! {

/// Relies on `String::push`: appends exactly the one character `c`.
#[verifier::external_body]
pub(crate) fn push_char(s: &mut String, c: char)
    ensures
        final(s)@ == old(s)@.push(c),
{
    s.push(c);
}

/// How one character is written inside a single-quoted shell word.
pub open spec fn quoted_char(c: char) -> Seq<char> {
    if c == '\'' {
        seq!['\'', '\\', '\'', '\'']
    } else {
        seq![c]
    }
}

/// The body of a single-quoted shell word for `s`.
pub open spec fn quote_body(s: Seq<char>) -> Seq<char>
    decreases s.len(),
{
    if s.len() == 0 {
        Seq::empty()
    } else {
        quoted_char(s[0]) + quote_body(s.drop_first())
    }
}

/// The single-quoted shell word for `s`.
pub open spec fn spec_shell_quote(s: Seq<char>) -> Seq<char> {
    seq!['\''] + quote_body(s) + seq!['\'']
}

/// Quoting distributes over concatenation.
proof fn lemma_quote_body_concat(a: Seq<char>, b: Seq<char>)
    ensures
        quote_body(a + b) == quote_body(a) + quote_body(b),
    decreases a.len(),
{
    if a.len() == 0 {
        assert(a + b =~= b);
        assert(quote_body(a) + quote_body(b) =~= quote_body(b));
    } else {
        assert((a + b).drop_first() =~= a.drop_first() + b);
        lemma_quote_body_concat(a.drop_first(), b);
        assert(quoted_char((a + b)[0]) + (quote_body(a.drop_first()) + quote_body(b)) =~= (
        quoted_char(a[0]) + quote_body(a.drop_first())) + quote_body(b));
    }
}

/// Wrap a string in single quotes for POSIX sh, escaping any `'` inside.
pub fn shell_quote(s: &str) -> (r: String)
    ensures
        r@ == spec_shell_quote(s@),
{
    let n = s.unicode_len();
    let mut out = String::new();
    push_char(&mut out, '\'');
    let mut i: usize = 0;
    while i < n
        invariant
            n == s@.len(),
            i <= n,
            out@ == seq!['\''] + quote_body(s@.take(i as int)),
        decreases n - i,
    {
        let c = s.get_char(i);
        if c == '\'' {
            push_char(&mut out, '\'');
            push_char(&mut out, '\\');
            push_char(&mut out, '\'');
            push_char(&mut out, '\'');
        } else {
            push_char(&mut out, c);
        }
        proof {
            assert(s@.take(i + 1) =~= s@.take(i as int) + seq![s@[i as int]]);
            lemma_quote_body_concat(s@.take(i as int), seq![s@[i as int]]);
            assert(quote_body(seq![s@[i as int]]) == quoted_char(s@[i as int])
                + quote_body(Seq::<char>::empty())) by {
                assert(seq![s@[i as int]].drop_first() =~= Seq::<char>::empty());
            }
            assert(quoted_char(s@[i as int]) + quote_body(Seq::<char>::empty()) =~= quoted_char(
            s@[i as int]));
            assert(out@ =~= seq!['\''] + quote_body(s@.take(i + 1)));
        }
        i = i + 1;
    }
    push_char(&mut out, '\'');
    proof {
        assert(s@.take(n as int) =~= s@);
        assert(out@ =~= spec_shell_quote(s@));
    }
    out
}

/// `r` with `c` put in front, when `r` holds anything.
pub open spec fn unquote_cons(c: char, r: Option<Seq<char>>) -> Option<Seq<char>> {
    match r {
        Some(t) => Some(seq![c] + t),
        None => None,
    }
}

/// How a POSIX shell reads a word made of literal characters, single-quoted
/// spans and backslash escapes — the constructs [`shell_quote`] emits.
/// `in_quote` says whether reading starts inside a single-quoted span.
/// `None` marks a word the shell would reject (an unclosed quote or a
/// trailing backslash).
pub open spec fn sh_unquote_from(q: Seq<char>, in_quote: bool) -> Option<Seq<char>>
    decreases q.len(),
{
    if q.len() == 0 {
        if in_quote {
            None
        } else {
            Some(Seq::empty())
        }
    } else if in_quote {
        if q[0] == '\'' {
            sh_unquote_from(q.drop_first(), false)
        } else {
            unquote_cons(q[0], sh_unquote_from(q.drop_first(), true))
        }
    } else {
        if q[0] == '\'' {
            sh_unquote_from(q.drop_first(), true)
        } else if q[0] == '\\' {
            if q.len() >= 2 {
                unquote_cons(q[1], sh_unquote_from(q.skip(2), false))
            } else {
                None
            }
        } else {
            unquote_cons(q[0], sh_unquote_from(q.drop_first(), false))
        }
    }
}

/// The string a POSIX shell reads a quoted word as.
pub open spec fn sh_unquote(q: Seq<char>) -> Option<Seq<char>> {
    sh_unquote_from(q, false)
}

/// Reading `quote_body(s)` from inside a quote, followed by a closing quote
/// and then `suffix`, yields `s` followed by whatever `suffix` yields.
proof fn lemma_unquote_body(s: Seq<char>, suffix: Seq<char>)
    ensures
        sh_unquote_from(quote_body(s) + seq!['\''] + suffix, true) == (match sh_unquote_from(
            suffix,
            false,
        ) {
            Some(t) => Some(s + t),
            None => None::<Seq<char>>,
        }),
    decreases s.len(),
{
    reveal_with_fuel(sh_unquote_from, 2);
    let q = quote_body(s) + seq!['\''] + suffix;
    if s.len() == 0 {
        assert(q =~= seq!['\''] + suffix);
        assert(q[0] == '\'');
        assert(q.drop_first() =~= suffix);
        assert(sh_unquote_from(q, true) == sh_unquote_from(suffix, false));
        match sh_unquote_from(suffix, false) {
            Some(t) => {
                assert(s + t =~= t);
            },
            None => {},
        }
    } else {
        let c = s[0];
        let s1 = s.drop_first();
        let rest = quote_body(s1) + seq!['\''] + suffix;
        lemma_unquote_body(s1, suffix);
        if c == '\'' {
            assert(q =~= seq!['\'', '\\', '\'', '\''] + rest);
            assert(q[0] == '\'');
            let q1 = q.drop_first();
            assert(q1 =~= seq!['\\', '\'', '\''] + rest);
            assert(q1[0] == '\\' && q1.len() >= 2 && q1[1] == '\'');
            let q2 = q1.skip(2);
            assert(q2 =~= seq!['\''] + rest);
            assert(q2[0] == '\'');
            assert(q2.drop_first() =~= rest);
            assert(sh_unquote_from(q, true) == sh_unquote_from(q1, false));
            assert(sh_unquote_from(q1, false) == unquote_cons(
                '\'',
                sh_unquote_from(q2, false),
            ));
            assert(sh_unquote_from(q2, false) == sh_unquote_from(rest, true));
            match sh_unquote_from(suffix, false) {
                Some(t) => {
                    assert(seq!['\''] + (s1 + t) =~= s + t);
                },
                None => {},
            }
        } else {
            assert(q =~= seq![c] + rest);
            assert(q[0] == c);
            assert(q.drop_first() =~= rest);
            assert(sh_unquote_from(q, true) == unquote_cons(c, sh_unquote_from(rest, true)));
            match sh_unquote_from(suffix, false) {
                Some(t) => {
                    assert(seq![c] + (s1 + t) =~= s + t);
                },
                None => {},
            }
        }
    }
}

/// Quoting round-trip: a POSIX shell reading the quoted word for any string
/// `s` — embedded single quotes included — recovers exactly `s`.
pub proof fn lemma_shell_quote_round_trip(s: Seq<char>)
    ensures
        sh_unquote(spec_shell_quote(s)) == Some(s),
{
    let q = spec_shell_quote(s);
    assert(q =~= seq!['\''] + (quote_body(s) + seq!['\''] + Seq::<char>::empty()));
    assert(q[0] == '\'');
    assert(q.drop_first() =~= quote_body(s) + seq!['\''] + Seq::<char>::empty());
    lemma_unquote_body(s, Seq::empty());
    assert(s + Seq::<char>::empty() =~= s);
}

/// How one character is written inside a double-quoted word.
pub open spec fn dquoted_char(c: char) -> Seq<char> {
    if c == '"' || c == '\\' {
        seq!['\\', c]
    } else {
        seq![c]
    }
}

/// The body of a double-quoted word for `s`.
pub open spec fn dquote_body(s: Seq<char>) -> Seq<char>
    decreases s.len(),
{
    if s.len() == 0 {
        Seq::empty()
    } else {
        dquoted_char(s[0]) + dquote_body(s.drop_first())
    }
}

/// The double-quoted word for `s`.
pub open spec fn spec_dquote(s: Seq<char>) -> Seq<char> {
    seq!['"'] + dquote_body(s) + seq!['"']
}

/// Double-quoting distributes over concatenation.
proof fn lemma_dquote_body_concat(a: Seq<char>, b: Seq<char>)
    ensures
        dquote_body(a + b) == dquote_body(a) + dquote_body(b),
    decreases a.len(),
{
    if a.len() == 0 {
        assert(a + b =~= b);
        assert(dquote_body(a) + dquote_body(b) =~= dquote_body(b));
    } else {
        assert((a + b).drop_first() =~= a.drop_first() + b);
        lemma_dquote_body_concat(a.drop_first(), b);
        assert(dquoted_char((a + b)[0]) + (dquote_body(a.drop_first()) + dquote_body(b)) =~= (
        dquoted_char(a[0]) + dquote_body(a.drop_first())) + dquote_body(b));
    }
}

/// Wrap a string in double quotes, escaping any `"` or `\` inside.
pub fn dquote(s: &str) -> (r: String)
    ensures
        r@ == spec_dquote(s@),
{
    let n = s.unicode_len();
    let mut out = String::new();
    push_char(&mut out, '"');
    let mut i: usize = 0;
    while i < n
        invariant
            n == s@.len(),
            i <= n,
            out@ == seq!['"'] + dquote_body(s@.take(i as int)),
        decreases n - i,
    {
        let c = s.get_char(i);
        if c == '"' || c == '\\' {
            push_char(&mut out, '\\');
            push_char(&mut out, c);
        } else {
            push_char(&mut out, c);
        }
        proof {
            assert(s@.take(i + 1) =~= s@.take(i as int) + seq![s@[i as int]]);
            lemma_dquote_body_concat(s@.take(i as int), seq![s@[i as int]]);
            assert(dquote_body(seq![s@[i as int]]) == dquoted_char(s@[i as int]) + dquote_body(
                Seq::<char>::empty(),
            )) by {
                assert(seq![s@[i as int]].drop_first() =~= Seq::<char>::empty());
            }
            assert(dquoted_char(s@[i as int]) + dquote_body(Seq::<char>::empty()) =~= dquoted_char(
            s@[i as int]));
            assert(out@ =~= seq!['"'] + dquote_body(s@.take(i + 1)));
        }
        i = i + 1;
    }
    push_char(&mut out, '"');
    proof {
        assert(s@.take(n as int) =~= s@);
        assert(out@ =~= spec_dquote(s@));
    }
    out
}

/// `parts` joined with the separator `sep`.
pub open spec fn spec_join_with(parts: Seq<Seq<char>>, sep: Seq<char>) -> Seq<char>
    decreases parts.len(),
{
    if parts.len() == 0 {
        Seq::empty()
    } else if parts.len() == 1 {
        parts[0]
    } else {
        spec_join_with(parts.drop_last(), sep) + sep + parts.last()
    }
}

/// Join strings with a separator.
pub fn join_with(parts: &Vec<String>, sep: &str) -> (r: String)
    ensures
        r@ == spec_join_with(parts.deep_view(), sep@),
{
    let ghost all = parts.deep_view();
    let mut out = String::new();
    let n = parts.len();
    let mut i: usize = 0;
    while i < n
        invariant
            n == parts@.len(),
            i <= n,
            all == parts.deep_view(),
            out@ == spec_join_with(all.take(i as int), sep@),
        decreases n - i,
    {
        proof {
            assert(all.take(i + 1).drop_last() =~= all.take(i as int));
            assert(all.take(i + 1).last() == all[i as int]);
        }
        if i > 0 {
            out.append(sep);
        }
        out.append(parts[i].as_str());
        proof {
            if i == 0 {
                assert(all.take(1).len() == 1);
                assert(out@ =~= spec_join_with(all.take(i + 1), sep@));
            } else {
                assert(out@ =~= spec_join_with(all.take(i + 1), sep@));
            }
        }
        i = i + 1;
    }
    proof {
        assert(all.take(n as int) =~= all);
    }
    out
}

/// Compare two strings character by character.
pub fn str_eq(a: &str, b: &str) -> (r: bool)
    ensures
        r == (a@ == b@),
{
    let n = a.unicode_len();
    let m = b.unicode_len();
    if n != m {
        return false;
    }
    let mut i: usize = 0;
    while i < n
        invariant
            n == a@.len(),
            n == b@.len(),
            i <= n,
            forall|j: int| 0 <= j < i ==> a@[j] == b@[j],
        decreases n - i,
    {
        if a.get_char(i) != b.get_char(i) {
            return false;
        }
        i = i + 1;
    }
    proof {
        assert(a@ =~= b@);
    }
    true
}

/// Return the first `max_chars` characters of `s`, never splitting a
/// character.
pub fn truncate_str<'a>(s: &'a str, max_chars: usize) -> (r: &'a str)
    ensures
        s@.len() <= max_chars ==> r@ == s@,
        s@.len() > max_chars ==> r@ == s@.take(max_chars as int),
{
    let n = s.unicode_len();
    if n <= max_chars {
        s
    } else {
        s.substring_char(0, max_chars)
    }
}

} // verus!
