//! Splitting a text into lines.
//!
//! A line feed ends a line; a carriage return just before it belongs to the
//! line ending. A last line needs no line feed, and a line feed at the very
//! end opens no further (empty) line.
use vstd::prelude::*;
use vstd::string::*;

verus! {

/// What a run of text between two line feeds contributes as a line: the run
/// itself, without one carriage return at its end.
pub open spec fn without_cr(run: Seq<char>) -> Seq<char> {
    if run.len() > 0 && run.last() == '\r' {
        run.drop_last()
    } else {
        run
    }
}

/// The lines still to come when `cur` has been read on the current line and
/// `rest` is the text after it.
pub open spec fn lines_after(cur: Seq<char>, rest: Seq<char>) -> Seq<Seq<char>>
    decreases rest.len(),
{
    if rest.len() == 0 {
        if cur.len() == 0 {
            seq![]
        } else {
            seq![cur]
        }
    } else if rest[0] == '\n' {
        seq![without_cr(cur)] + lines_after(seq![], rest.drop_first())
    } else {
        lines_after(cur.push(rest[0]), rest.drop_first())
    }
}

/// The lines of `text`, in order.
pub open spec fn lines_of(text: Seq<char>) -> Seq<Seq<char>> {
    lines_after(seq![], text)
}

/// The characters of each slice in `s`.
pub open spec fn line_views(s: Seq<&str>) -> Seq<Seq<char>> {
    s.map_values(|l: &str| l@)
}

/// A run without a line feed, followed by a line feed, closes the current line.
proof fn lemma_lines_after_feed(cur: Seq<char>, run: Seq<char>, tail: Seq<char>)
    requires
        !run.contains('\n'),
    ensures
        lines_after(cur, run + seq!['\n'] + tail) == seq![without_cr(cur + run)] + lines_of(tail),
    decreases run.len(),
{
    let all = run + seq!['\n'] + tail;
    if run.len() == 0 {
        assert(all.drop_first() =~= tail);
        assert(cur + run =~= cur);
    } else {
        assert(all[0] == run[0]);
        assert(all.drop_first() =~= run.drop_first() + seq!['\n'] + tail);
        assert(!run.drop_first().contains('\n')) by {
            if run.drop_first().contains('\n') {
                let i = choose|i: int| 0 <= i < run.drop_first().len() && run.drop_first()[i] == '\n';
                assert(run[i + 1] == '\n');
            }
        }
        assert(run[0] != '\n') by {
            if run[0] == '\n' {
                assert(run.contains('\n'));
            }
        }
        lemma_lines_after_feed(cur.push(run[0]), run.drop_first(), tail);
        assert(cur.push(run[0]) + run.drop_first() =~= cur + run);
    }
}

/// A run without a line feed at the end of the text closes the last line, if
/// anything is on it.
proof fn lemma_lines_after_end(cur: Seq<char>, run: Seq<char>)
    requires
        !run.contains('\n'),
    ensures
        lines_after(cur, run) == (if (cur + run).len() == 0 {
            seq![]
        } else {
            seq![cur + run]
        }),
    decreases run.len(),
{
    if run.len() == 0 {
        assert(cur + run =~= cur);
    } else {
        assert(!run.drop_first().contains('\n')) by {
            if run.drop_first().contains('\n') {
                let i = choose|i: int| 0 <= i < run.drop_first().len() && run.drop_first()[i] == '\n';
                assert(run[i + 1] == '\n');
            }
        }
        assert(run[0] != '\n') by {
            if run[0] == '\n' {
                assert(run.contains('\n'));
            }
        }
        lemma_lines_after_end(cur.push(run[0]), run.drop_first());
        assert(cur.push(run[0]) + run.drop_first() =~= cur + run);
    }
}

/// Relies on `str::split_once` with a `char` pattern: it splits `s` at its
/// first line feed, or returns `None` when there is none.
#[verifier::external_body]
fn split_at_line_feed<'a>(s: &'a str) -> (r: Option<(&'a str, &'a str)>)
    ensures
        match r {
            None => !s@.contains('\n'),
            Some((head, tail)) => s@ == head@ + seq!['\n'] + tail@ && !head@.contains('\n'),
        },
{
    s.split_once('\n')
}

/// `run` without a carriage return at its end.
fn strip_cr<'a>(run: &'a str) -> (r: &'a str)
    ensures
        r@ == without_cr(run@),
{
    let n = run.unicode_len();
    if n > 0 && run.get_char(n - 1) == '\r' {
        run.substring_char(0, n - 1)
    } else {
        run
    }
}

/// The lines of `contents`, as slices of it, in order.
pub fn lines<'a>(contents: &'a str) -> (r: Vec<&'a str>)
    ensures
        line_views(r@) == lines_of(contents@),
{
    let mut out: Vec<&'a str> = Vec::new();
    let mut rest: &'a str = contents;
    loop
        invariant
            lines_of(contents@) == line_views(out@) + lines_of(rest@),
        decreases rest@.len(),
    {
        match split_at_line_feed(rest) {
            Some((head, tail)) => {
                proof {
                    lemma_lines_after_feed(seq![], head@, tail@);
                    assert(seq![] + head@ =~= head@);
                }
                let line = strip_cr(head);
                let ghost before = out@;
                out.push(line);
                assert(line_views(out@) =~= line_views(before).push(line@));
                assert(line_views(out@) + lines_of(tail@) =~= line_views(before) + lines_of(rest@));
                rest = tail;
            },
            None => {
                proof {
                    lemma_lines_after_end(seq![], rest@);
                    assert(seq![] + rest@ =~= rest@);
                }
                if rest.is_empty() {
                    assert(line_views(out@) + lines_of(rest@) =~= line_views(out@));
                } else {
                    let ghost before = out@;
                    out.push(rest);
                    assert(line_views(out@) =~= line_views(before) + lines_of(rest@));
                }
                return out;
            },
        }
    }
}

} // verus!
