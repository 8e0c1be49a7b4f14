//! Greedy word wrap: message bodies are split on whitespace and packed
//! into lines of at most the wrap column, breaking at the last
//! whitespace that keeps a line within the column; a single word longer
//! than the column stands alone on its line, unsplit.

use vstd::prelude::*;
use crate::text::slice_chars;

verus! {

/// The character sequences of a vector of character vectors.
pub open spec fn line_views(s: Seq<Vec<char>>) -> Seq<Seq<char>> {
    Seq::new(s.len(), |i: int| s[i]@)
}

pub proof fn lemma_line_views_insert_front(s: Seq<Vec<char>>, x: Vec<char>)
    ensures
        line_views(s.insert(0, x)) =~= seq![x@] + line_views(s),
{
}

pub open spec fn is_wrap_space(c: char) -> bool {
    c == ' ' || c == '\t' || c == '\n' || c == '\r'
}

/// Length of the leading run of non-whitespace characters.
pub open spec fn word_end(s: Seq<char>) -> int
    decreases s.len(),
{
    if s.len() == 0 || is_wrap_space(s[0]) {
        0
    } else {
        1 + word_end(s.drop_first())
    }
}

pub proof fn lemma_word_end_bounds(s: Seq<char>)
    ensures
        0 <= word_end(s) <= s.len(),
        s.len() > 0 && !is_wrap_space(s[0]) ==> word_end(s) >= 1,
    decreases s.len(),
{
    if s.len() > 0 && !is_wrap_space(s[0]) {
        lemma_word_end_bounds(s.drop_first());
    }
}

/// The whitespace-separated words of `s`, in order.
pub open spec fn words_spec(s: Seq<char>) -> Seq<Seq<char>>
    decreases s.len(),
    via words_spec_dec
{
    if s.len() == 0 {
        Seq::empty()
    } else if is_wrap_space(s[0]) {
        words_spec(s.drop_first())
    } else {
        let e = word_end(s);
        seq![s.subrange(0, e)] + words_spec(s.subrange(e, s.len() as int))
    }
}

#[via_fn]
proof fn words_spec_dec(s: Seq<char>) {
    if s.len() > 0 && !is_wrap_space(s[0]) {
        lemma_word_end_bounds(s);
    }
}

/// How many further words still fit on a line that already holds
/// `line_len` characters, counting one separating space per word.
pub open spec fn line_take(ws: Seq<Seq<char>>, line_len: int, cols: int) -> int
    decreases ws.len(),
{
    if ws.len() == 0 {
        0
    } else if line_len + 1 + ws[0].len() <= cols {
        1 + line_take(ws.drop_first(), line_len + 1 + ws[0].len(), cols)
    } else {
        0
    }
}

pub proof fn lemma_line_take_bounds(ws: Seq<Seq<char>>, line_len: int, cols: int)
    ensures
        0 <= line_take(ws, line_len, cols) <= ws.len(),
    decreases ws.len(),
{
    if ws.len() > 0 && line_len + 1 + ws[0].len() <= cols {
        lemma_line_take_bounds(ws.drop_first(), line_len + 1 + ws[0].len(), cols);
    }
}

/// `line` extended with the first `k` of `ws`, one space before each.
pub open spec fn join_words(ws: Seq<Seq<char>>, line: Seq<char>, k: int) -> Seq<char>
    decreases k,
{
    if k <= 0 {
        line
    } else {
        join_words(ws.drop_first(), line + seq![' '] + ws[0], k - 1)
    }
}

/// Greedy packing of the words into lines of at most `cols` characters
/// (a single word longer than `cols` stands alone, unsplit).
pub open spec fn wrap_words(ws: Seq<Seq<char>>, cols: int) -> Seq<Seq<char>>
    decreases ws.len(),
    via wrap_words_dec
{
    if ws.len() == 0 {
        Seq::empty()
    } else {
        let k = line_take(ws.drop_first(), ws[0].len() as int, cols);
        seq![join_words(ws.drop_first(), ws[0], k)] + wrap_words(
            ws.subrange(k + 1, ws.len() as int),
            cols,
        )
    }
}

#[via_fn]
proof fn wrap_words_dec(ws: Seq<Seq<char>>, cols: int) {
    if ws.len() > 0 {
        lemma_line_take_bounds(ws.drop_first(), ws[0].len() as int, cols);
    }
}

/// The wrapped lines of a body: its words, greedily packed.
pub open spec fn wrap_spec(s: Seq<char>, cols: int) -> Seq<Seq<char>> {
    wrap_words(words_spec(s), cols)
}

fn is_space_exec(c: char) -> (r: bool)
    ensures
        r == is_wrap_space(c),
{
    c == ' ' || c == '\t' || c == '\n' || c == '\r'
}

fn word_end_exec(v: &Vec<char>, start: usize) -> (r: usize)
    requires
        start <= v@.len(),
    ensures
        start <= r <= v@.len(),
        r - start == word_end(v@.subrange(start as int, v@.len() as int)),
    decreases v@.len() - start,
{
    let ghost s = v@.subrange(start as int, v@.len() as int);
    if start == v.len() || is_space_exec(v[start]) {
        start
    } else {
        proof {
            assert(s[0] == v@[start as int]);
        }
        let r = word_end_exec(v, start + 1);
        proof {
            assert(s.drop_first() =~= v@.subrange(start + 1, v@.len() as int));
        }
        r
    }
}

/// The whitespace-separated words of `v[start..]`.
fn words_from(v: &Vec<char>, start: usize) -> (r: Vec<Vec<char>>)
    requires
        start <= v@.len(),
    ensures
        line_views(r@) == words_spec(v@.subrange(start as int, v@.len() as int)),
    decreases v@.len() - start,
{
    let ghost s = v@.subrange(start as int, v@.len() as int);
    if start == v.len() {
        let r: Vec<Vec<char>> = Vec::new();
        proof {
            assert(line_views(r@) =~= words_spec(s));
        }
        r
    } else if is_space_exec(v[start]) {
        proof {
            assert(s[0] == v@[start as int]);
        }
        let r = words_from(v, start + 1);
        proof {
            assert(s.drop_first() =~= v@.subrange(start + 1, v@.len() as int));
        }
        r
    } else {
        proof {
            assert(s[0] == v@[start as int]);
            lemma_word_end_bounds(s);
        }
        let e = word_end_exec(v, start);
        proof {
            assert(s.subrange(0, word_end(s)) =~= v@.subrange(start as int, e as int));
            assert(s.subrange(word_end(s), s.len() as int) =~= v@.subrange(
                e as int,
                v@.len() as int,
            ));
        }
        let w = slice_chars(v, start, e);
        let mut r = words_from(v, e);
        proof {
            lemma_line_views_insert_front(r@, w);
        }
        r.insert(0, w);
        proof {
            assert(line_views(r@) =~= words_spec(s));
        }
        r
    }
}

/// The words of `v`, in order.
pub fn split_words(v: &Vec<char>) -> (r: Vec<Vec<char>>)
    ensures
        line_views(r@) == words_spec(v@),
{
    let r = words_from(v, 0);
    proof {
        assert(v@.subrange(0, v@.len() as int) =~= v@);
    }
    r
}

/// Extends `line` greedily with words from `ws[from..]`, then wraps the
/// rest; mirrors one step of `wrap_words` followed by the remainder.
fn fill_lines(ws: &Vec<Vec<char>>, from: usize, line: Vec<char>, cols: usize) -> (r: Vec<
    Vec<char>,
>)
    requires
        from <= ws@.len(),
    ensures
        line_views(r@) == seq![
            join_words(
                line_views(ws@).subrange(from as int, ws@.len() as int),
                line@,
                line_take(line_views(ws@).subrange(from as int, ws@.len() as int), line@.len() as int, cols as int),
            ),
        ] + wrap_words(
            line_views(ws@).subrange(
                from + line_take(line_views(ws@).subrange(from as int, ws@.len() as int), line@.len() as int, cols as int),
                ws@.len() as int,
            ),
            cols as int,
        ),
    decreases ws@.len() - from,
{
    let ghost line0 = line@;
    let ghost rest = line_views(ws@).subrange(from as int, ws@.len() as int);
    proof {
        lemma_line_take_bounds(rest, line0.len() as int, cols as int);
    }
    if from < ws.len() && (line.len() as u128) + 1 + (ws[from].len() as u128) <= cols as u128 {
        // the next word still fits on this line
        proof {
            assert(rest[0] == ws@[from as int]@);
            lemma_line_take_bounds(
                rest.drop_first(),
                line0.len() as int + 1 + rest[0].len() as int,
                cols as int,
            );
        }
        let mut cur = line;
        cur.push(' ');
        let w = &ws[from];
        let mut i: usize = 0;
        while i < w.len()
            invariant
                i <= w@.len(),
                cur@ =~= line0 + seq![' '] + w@.subrange(0, i as int),
            decreases w@.len() - i,
        {
            cur.push(w[i]);
            i = i + 1;
            proof {
                assert(cur@ =~= line0 + seq![' '] + w@.subrange(0, i as int));
            }
        }
        proof {
            assert(w@.subrange(0, w@.len() as int) =~= w@);
            assert(cur@ =~= line0 + seq![' '] + rest[0]);
            assert(rest.drop_first() =~= line_views(ws@).subrange(from + 1, ws@.len() as int));
        }
        let r = fill_lines(ws, from + 1, cur, cols);
        proof {
            let k1 = line_take(
                rest.drop_first(),
                line0.len() as int + 1 + rest[0].len() as int,
                cols as int,
            );
            assert(line_take(rest, line0.len() as int, cols as int) == 1 + k1);
            assert(join_words(rest, line0, 1 + k1) == join_words(
                rest.drop_first(),
                line0 + seq![' '] + rest[0],
                k1,
            ));
            assert(line_views(ws@).subrange(from + 1 + k1, ws@.len() as int) =~= line_views(ws@)
                .subrange(from + (1 + k1), ws@.len() as int));
        }
        r
    } else {
        // close the current line and wrap what is left
        let mut r: Vec<Vec<char>>;
        if from == ws.len() {
            r = Vec::new();
            proof {
                assert(rest =~= Seq::<Seq<char>>::empty());
                assert(line_views(r@) =~= wrap_words(rest, cols as int));
            }
        } else {
            proof {
                assert(rest[0] == ws@[from as int]@);
                lemma_line_take_bounds(rest.drop_first(), rest[0].len() as int, cols as int);
                assert(rest.drop_first() =~= line_views(ws@).subrange(from + 1, ws@.len() as int));
            }
            let first = slice_chars(&ws[from], 0, ws[from].len());
            proof {
                assert(first@ =~= rest[0]);
            }
            r = fill_lines(ws, from + 1, first, cols);
            proof {
                let k = line_take(rest.drop_first(), rest[0].len() as int, cols as int);
                assert(line_views(ws@).subrange(from + 1 + k, ws@.len() as int) =~= rest.subrange(
                    k + 1,
                    rest.len() as int,
                ));
                assert(line_views(r@) =~= wrap_words(rest, cols as int));
            }
        }
        proof {
            lemma_line_views_insert_front(r@, line);
        }
        r.insert(0, line);
        proof {
            assert(line_take(rest, line0.len() as int, cols as int) == 0);
            assert(line_views(ws@).subrange(from + 0, ws@.len() as int) =~= rest);
            assert(line_views(r@) =~= seq![join_words(rest, line0, 0)] + wrap_words(
                rest,
                cols as int,
            ));
        }
        r
    }
}

/// Wraps the body `v` at `cols` columns.
pub fn wrap_text(v: &Vec<char>, cols: usize) -> (r: Vec<Vec<char>>)
    ensures
        line_views(r@) == wrap_spec(v@, cols as int),
{
    let ws = split_words(v);
    if ws.len() == 0 {
        let r: Vec<Vec<char>> = Vec::new();
        proof {
            assert(line_views(ws@).len() == 0);
            assert(words_spec(v@).len() == 0);
            assert(line_views(r@) =~= wrap_spec(v@, cols as int));
        }
        r
    } else {
        let ghost all = line_views(ws@);
        proof {
            assert(all[0] == ws@[0]@);
            lemma_line_take_bounds(all.drop_first(), all[0].len() as int, cols as int);
            assert(all.drop_first() =~= all.subrange(1, all.len() as int));
        }
        let first = slice_chars(&ws[0], 0, ws[0].len());
        proof {
            assert(first@ =~= all[0]);
        }
        let r = fill_lines(&ws, 1, first, cols);
        proof {
            let k = line_take(all.drop_first(), all[0].len() as int, cols as int);
            assert(all.subrange(1, all.len() as int).subrange(0, all.len() - 1) =~= all.subrange(
                1,
                all.len() as int,
            ));
            assert(line_take(all.subrange(1, all.len() as int), all[0].len() as int, cols as int)
                == k);
            assert(all.subrange(1 + k, all.len() as int) =~= all.subrange(k + 1, all.len() as int));
            assert(line_views(r@) =~= wrap_words(all, cols as int));
        }
        r
    }
}

/// Length of the longest line.
pub open spec fn max_line_len(lines: Seq<Seq<char>>) -> int
    decreases lines.len(),
{
    if lines.len() == 0 {
        0
    } else {
        let rest = max_line_len(lines.drop_first());
        if lines[0].len() >= rest {
            lines[0].len() as int
        } else {
            rest
        }
    }
}

pub proof fn lemma_max_line_len_nonneg(lines: Seq<Seq<char>>)
    ensures
        max_line_len(lines) >= 0,
    decreases lines.len(),
{
    if lines.len() > 0 {
        lemma_max_line_len_nonneg(lines.drop_first());
    }
}

fn longest_from(lines: &Vec<Vec<char>>, from: usize) -> (r: usize)
    requires
        from <= lines@.len(),
    ensures
        r == max_line_len(line_views(lines@).subrange(from as int, lines@.len() as int)),
    decreases lines@.len() - from,
{
    let ghost s = line_views(lines@).subrange(from as int, lines@.len() as int);
    if from == lines.len() {
        0
    } else {
        let rest = longest_from(lines, from + 1);
        proof {
            assert(s[0] == lines@[from as int]@);
            assert(s.drop_first() =~= line_views(lines@).subrange(from + 1, lines@.len() as int));
        }
        if lines[from].len() >= rest {
            lines[from].len()
        } else {
            rest
        }
    }
}

/// Length of the longest of `lines`.
pub fn longest_line(lines: &Vec<Vec<char>>) -> (r: usize)
    ensures
        r == max_line_len(line_views(lines@)),
{
    let r = longest_from(lines, 0);
    proof {
        assert(line_views(lines@).subrange(0, lines@.len() as int) =~= line_views(lines@));
    }
    r
}

} // verus!
