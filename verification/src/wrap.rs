//! Word wrap: turning a text and a line limit into an ordered sequence of
//! lines.
//!
//! The scan walks the text character by character, remembering where the
//! current line begins (`linestart`) and the position just past the most
//! recent space that could end a line (`lineend`). A space while the line is
//! still short only advances that break mark; a space on an overlong line
//! emits a line, either the single overlong word as it stands (a word is
//! never split or truncated) or everything up to the last recorded break.
//! One space is dropped at each line boundary and nothing else, so joining
//! the lines back with single spaces restores the text exactly
//! ([`lemma_wrap_join`]). Newlines are ordinary non-space characters and do
//! not force a break.

use vstd::prelude::*;

verus! {

/// The lines emitted once the scan has run off the end of the text: when a
/// break is recorded and the remaining tail still exceeds the limit, the text
/// up to that break and then the rest; otherwise the rest alone, however long
/// or short.
pub open spec fn wrap_tail(text: Seq<char>, maxlen: int, linestart: int, lineend: int) -> Seq<
    Seq<char>,
> {
    if lineend > linestart && text.len() - linestart > maxlen {
        seq![
            text.subrange(linestart, lineend - 1),
            text.subrange(lineend, text.len() as int),
        ]
    } else {
        seq![text.subrange(linestart, text.len() as int)]
    }
}

/// The lines the scan emits from position `i` on, with the current line
/// begun at `linestart` and the most recent break recorded at `lineend`
/// (`lineend == linestart` means no break since the line began).
pub open spec fn wrap_from(
    text: Seq<char>,
    maxlen: int,
    i: int,
    linestart: int,
    lineend: int,
) -> Seq<Seq<char>>
    decreases text.len() - i,
{
    if i < 0 || i >= text.len() {
        wrap_tail(text, maxlen, linestart, lineend)
    } else if text[i] == ' ' {
        if i - linestart <= maxlen {
            // A valid, still-short break: record it and scan on.
            wrap_from(text, maxlen, i + 1, linestart, i + 1)
        } else if lineend == linestart {
            // A single word longer than the limit: force it out whole.
            seq![text.subrange(linestart, i)] + wrap_from(text, maxlen, i + 1, i + 1, i + 1)
        } else {
            // Overlong with a completed word: break at the recorded space.
            seq![text.subrange(linestart, lineend - 1)] + wrap_from(
                text,
                maxlen,
                i + 1,
                lineend,
                i + 1,
            )
        }
    } else {
        wrap_from(text, maxlen, i + 1, linestart, lineend)
    }
}

/// The wrapped lines of `text` under the limit `maxlen`: with no positive
/// limit the whole text is the single line, otherwise the scan from the
/// start.
pub open spec fn wrap_spec(text: Seq<char>, maxlen: int) -> Seq<Seq<char>> {
    if maxlen <= 0 {
        seq![text]
    } else {
        wrap_from(text, maxlen, 0, 0, 0)
    }
}

/// Wraps `text` into lines of at most `maxlen` characters where the text's
/// spacing allows it, as [`wrap_spec`] states. Each line is a slice of
/// `text`; a limit of zero disables wrapping.
pub fn wrap_lines<'a>(text: &'a str, maxlen: usize) -> (r: Vec<&'a str>)
    ensures
        r.deep_view() == wrap_spec(text@, maxlen as int),
{
    let mut lines: Vec<&'a str> = Vec::new();
    if maxlen == 0 {
        lines.push(text);
        proof {
            assert(lines.deep_view() =~= wrap_spec(text@, maxlen as int));
        }
        return lines;
    }
    let n = text.unicode_len();
    let mut linestart: usize = 0;
    let mut lineend: usize = 0;
    let mut i: usize = 0;
    proof {
        assert(lines.deep_view() + wrap_from(text@, maxlen as int, 0, 0, 0) =~= wrap_from(
            text@,
            maxlen as int,
            0,
            0,
            0,
        ));
    }
    while i < n
        invariant
            maxlen >= 1,
            n == text@.len(),
            linestart <= lineend <= i <= n,
            wrap_spec(text@, maxlen as int) == lines.deep_view() + wrap_from(
                text@,
                maxlen as int,
                i as int,
                linestart as int,
                lineend as int,
            ),
        decreases n - i,
    {
        let ghost dv = lines.deep_view();
        let ghost ls0 = linestart as int;
        let ghost le0 = lineend as int;
        let c = text.get_char(i);
        if c == ' ' {
            if i - linestart <= maxlen {
                lineend = i + 1;
            } else if lineend == linestart {
                let line = text.substring_char(linestart, i);
                lines.push(line);
                linestart = i + 1;
                lineend = i + 1;
                proof {
                    assert(lines.deep_view() =~= dv.push(text@.subrange(ls0, i as int)));
                    assert(dv + wrap_from(text@, maxlen as int, i as int, ls0, le0) =~= dv + (seq![
                        text@.subrange(ls0, i as int),
                    ] + wrap_from(text@, maxlen as int, i + 1, i + 1, i + 1)));
                    assert(dv + (seq![text@.subrange(ls0, i as int)] + wrap_from(
                        text@,
                        maxlen as int,
                        i + 1,
                        i + 1,
                        i + 1,
                    )) =~= lines.deep_view() + wrap_from(text@, maxlen as int, i + 1, i + 1, i + 1));
                }
            } else {
                let line = text.substring_char(linestart, lineend - 1);
                lines.push(line);
                linestart = lineend;
                lineend = i + 1;
                proof {
                    assert(lines.deep_view() =~= dv.push(text@.subrange(ls0, le0 - 1)));
                    assert(dv + wrap_from(text@, maxlen as int, i as int, ls0, le0) =~= dv + (seq![
                        text@.subrange(ls0, le0 - 1),
                    ] + wrap_from(text@, maxlen as int, i + 1, le0, i + 1)));
                    assert(dv + (seq![text@.subrange(ls0, le0 - 1)] + wrap_from(
                        text@,
                        maxlen as int,
                        i + 1,
                        le0,
                        i + 1,
                    )) =~= lines.deep_view() + wrap_from(text@, maxlen as int, i + 1, le0, i + 1));
                }
            }
        }
        i = i + 1;
    }
    let ghost dv = lines.deep_view();
    let ghost ls0 = linestart as int;
    let ghost le0 = lineend as int;
    if lineend > linestart && n - linestart > maxlen {
        let first = text.substring_char(linestart, lineend - 1);
        lines.push(first);
        let last = text.substring_char(lineend, n);
        lines.push(last);
        proof {
            assert(lines.deep_view() =~= dv + wrap_tail(text@, maxlen as int, ls0, le0));
        }
    } else {
        let last = text.substring_char(linestart, n);
        lines.push(last);
        proof {
            assert(lines.deep_view() =~= dv + wrap_tail(text@, maxlen as int, ls0, le0));
        }
    }
    lines
}

/// The lines joined back together with a single space between each pair.
pub open spec fn join_with_spaces(lines: Seq<Seq<char>>) -> Seq<char>
    decreases lines.len(),
{
    if lines.len() == 0 {
        Seq::empty()
    } else if lines.len() == 1 {
        lines[0]
    } else {
        lines[0] + seq![' '] + join_with_spaces(lines.drop_first())
    }
}

/// The scan always emits at least one line.
pub proof fn lemma_wrap_from_nonempty(
    text: Seq<char>,
    maxlen: int,
    i: int,
    linestart: int,
    lineend: int,
)
    ensures
        wrap_from(text, maxlen, i, linestart, lineend).len() >= 1,
    decreases text.len() - i,
{
    if i < 0 || i >= text.len() {
    } else if text[i] == ' ' {
        if i - linestart <= maxlen {
            lemma_wrap_from_nonempty(text, maxlen, i + 1, linestart, i + 1);
        } else if lineend == linestart {
            lemma_wrap_from_nonempty(text, maxlen, i + 1, i + 1, i + 1);
        } else {
            lemma_wrap_from_nonempty(text, maxlen, i + 1, lineend, i + 1);
        }
    } else {
        lemma_wrap_from_nonempty(text, maxlen, i + 1, linestart, lineend);
    }
}

/// Prepending a line in front of at least one other costs one joining space.
proof fn lemma_join_cons(line: Seq<char>, rest: Seq<Seq<char>>)
    requires
        rest.len() >= 1,
    ensures
        join_with_spaces(seq![line] + rest) == line + seq![' '] + join_with_spaces(rest),
{
    let whole = seq![line] + rest;
    assert(whole.len() >= 2);
    assert(whole[0] == line);
    assert(whole.drop_first() =~= rest);
}

/// Splitting a subrange of `text` at a space inside it and joining the two
/// parts with a space restores the subrange.
proof fn lemma_split_at_space(text: Seq<char>, lo: int, cut: int, hi: int)
    requires
        0 <= lo <= cut < hi <= text.len(),
        text[cut] == ' ',
    ensures
        text.subrange(lo, hi) == text.subrange(lo, cut) + seq![' '] + text.subrange(cut + 1, hi),
{
    assert(text.subrange(lo, hi) =~= text.subrange(lo, cut) + seq![' '] + text.subrange(
        cut + 1,
        hi,
    ));
}

/// From any reachable scan state, joining the lines still to be emitted with
/// single spaces restores the text from `linestart` on.
proof fn lemma_join_wrap_from(text: Seq<char>, maxlen: int, i: int, linestart: int, lineend: int)
    requires
        0 <= linestart <= lineend <= i <= text.len(),
        lineend > linestart ==> text[lineend - 1] == ' ',
    ensures
        join_with_spaces(wrap_from(text, maxlen, i, linestart, lineend)) == text.subrange(
            linestart,
            text.len() as int,
        ),
    decreases text.len() - i,
{
    let len = text.len() as int;
    if i >= len {
        if lineend > linestart && len - linestart > maxlen {
            lemma_split_at_space(text, linestart, lineend - 1, len);
            let wt = wrap_tail(text, maxlen, linestart, lineend);
            assert(wt.len() == 2);
            assert(wt.drop_first() =~= seq![text.subrange(lineend, len)]);
            assert(join_with_spaces(wt.drop_first()) == text.subrange(lineend, len));
            assert(join_with_spaces(wt) == wt[0] + seq![' '] + join_with_spaces(wt.drop_first()));
            assert(join_with_spaces(wt) == text.subrange(linestart, len));
        } else {
            let wt = wrap_tail(text, maxlen, linestart, lineend);
            assert(wt.len() == 1);
            assert(join_with_spaces(wt) == text.subrange(linestart, len));
        }
    } else if text[i] == ' ' {
        if i - linestart <= maxlen {
            lemma_join_wrap_from(text, maxlen, i + 1, linestart, i + 1);
        } else if lineend == linestart {
            lemma_join_wrap_from(text, maxlen, i + 1, i + 1, i + 1);
            lemma_wrap_from_nonempty(text, maxlen, i + 1, i + 1, i + 1);
            lemma_join_cons(
                text.subrange(linestart, i),
                wrap_from(text, maxlen, i + 1, i + 1, i + 1),
            );
            lemma_split_at_space(text, linestart, i, len);
        } else {
            lemma_join_wrap_from(text, maxlen, i + 1, lineend, i + 1);
            lemma_wrap_from_nonempty(text, maxlen, i + 1, lineend, i + 1);
            lemma_join_cons(
                text.subrange(linestart, lineend - 1),
                wrap_from(text, maxlen, i + 1, lineend, i + 1),
            );
            lemma_split_at_space(text, linestart, lineend - 1, len);
        }
    } else {
        lemma_join_wrap_from(text, maxlen, i + 1, linestart, lineend);
    }
}

/// Wrapping loses exactly one space at each line boundary and nothing else:
/// joining the wrapped lines back with single spaces restores the text, for
/// every text and every limit.
pub proof fn lemma_wrap_join(text: Seq<char>, maxlen: int)
    ensures
        join_with_spaces(wrap_spec(text, maxlen)) == text,
{
    if maxlen <= 0 {
    } else {
        lemma_join_wrap_from(text, maxlen, 0, 0, 0);
        assert(text.subrange(0, text.len() as int) =~= text);
    }
}

/// A limit that is not positive disables wrapping: the whole text comes back
/// as the single line.
pub proof fn lemma_wrap_without_limit(text: Seq<char>, maxlen: int)
    requires
        maxlen <= 0,
    ensures
        wrap_spec(text, maxlen) == seq![text],
{
}

} // verus!
