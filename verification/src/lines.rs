//! The line structure of a text: how it splits at `'\n'`, where each line
//! starts, and which row and column a character position falls on.
use vstd::prelude::*;
use crate::chars::{chars_of, string_of};

verus! {

/// The pieces of `s` between line feeds: one more piece than `s` has line feeds.
pub open spec fn segments(s: Seq<char>) -> Seq<Seq<char>>
    decreases s.len(),
{
    if s.len() == 0 {
        seq![Seq::<char>::empty()]
    } else {
        let prev = segments(s.drop_last());
        if s.last() == '\n' {
            prev.push(Seq::<char>::empty())
        } else {
            prev.update(prev.len() - 1, prev.last().push(s.last()))
        }
    }
}

/// The number of line feeds in `s`.
pub open spec fn newline_count(s: Seq<char>) -> nat
    decreases s.len(),
{
    if s.len() == 0 {
        0
    } else if s.last() == '\n' {
        newline_count(s.drop_last()) + 1
    } else {
        newline_count(s.drop_last())
    }
}

/// A line as `str::lines` yields it: a carriage return right before the
/// line feed is not part of the line.
pub open spec fn strip_cr(l: Seq<char>) -> Seq<char> {
    if l.len() > 0 && l.last() == '\r' {
        l.drop_last()
    } else {
        l
    }
}

/// The lines of `s` as the text box sees them: the lines of `str::lines`,
/// plus an empty last line when `s` is empty or ends with a line feed.
/// Every line but the last one was ended by a line feed.
pub open spec fn split_lines_spec(s: Seq<char>) -> Seq<Seq<char>> {
    let segs = segments(s);
    Seq::new(
        segs.len(),
        |i: int|
            if i < segs.len() - 1 {
                strip_cr(segs[i])
            } else {
                segs[i]
            },
    )
}

/// The character position at which line `r` of `lines` starts when each
/// earlier line is counted with one character for its line feed.
pub open spec fn line_start(lines: Seq<Seq<char>>, r: nat) -> nat
    decreases r,
{
    if r == 0 {
        0
    } else {
        line_start(lines, (r - 1) as nat) + lines[r - 1].len() + 1
    }
}

/// Characters before position `c`; a position past the end counts as the end.
pub open spec fn clamped_prefix(t: Seq<char>, c: nat) -> Seq<char> {
    if c <= t.len() {
        t.take(c as int)
    } else {
        t
    }
}

/// The row (0-based line index) of position `c` in `t`.
pub open spec fn cursor_row(t: Seq<char>, c: nat) -> nat {
    (segments(clamped_prefix(t, c)).len() - 1) as nat
}

/// The column of position `c` in `t`: characters since the last line feed before it.
pub open spec fn cursor_col(t: Seq<char>, c: nat) -> nat {
    segments(clamped_prefix(t, c)).last().len()
}

/// Sum of the piece lengths, each but the last counted with its line feed.
pub open spec fn segments_total(segs: Seq<Seq<char>>, r: nat) -> nat
    decreases r,
{
    if r == 0 {
        0
    } else {
        segments_total(segs, (r - 1) as nat) + segs[r - 1].len() + 1
    }
}

pub proof fn lemma_segments_len(s: Seq<char>)
    ensures
        segments(s).len() == newline_count(s) + 1,
    decreases s.len(),
{
    if s.len() > 0 {
        lemma_segments_len(s.drop_last());
    }
}

pub proof fn lemma_segments_total(s: Seq<char>)
    ensures
        segments_total(segments(s), (segments(s).len() - 1) as nat) + segments(s).last().len()
            == s.len(),
    decreases s.len(),
{
    lemma_segments_len(s);
    if s.len() > 0 {
        let p = s.drop_last();
        lemma_segments_total(p);
        lemma_segments_len(p);
        let ps = segments(p);
        lemma_segments_total_prefix(ps, segments(s), (ps.len() - 1) as nat);
    }
}

/// `segments_total` up to `r` only reads the first `r` pieces.
pub proof fn lemma_segments_total_prefix(a: Seq<Seq<char>>, b: Seq<Seq<char>>, r: nat)
    requires
        r <= a.len(),
        r <= b.len(),
        forall|j: int| 0 <= j < r ==> a[j] == b[j],
    ensures
        segments_total(a, r) == segments_total(b, r),
    decreases r,
{
    if r > 0 {
        lemma_segments_total_prefix(a, b, (r - 1) as nat);
    }
}

/// A line starts no later than the piece with the same index: lines are the
/// pieces with at most a carriage return dropped.
pub proof fn lemma_line_start_le_total(s: Seq<char>, r: nat)
    requires
        r < segments(s).len(),
    ensures
        line_start(split_lines_spec(s), r) <= segments_total(segments(s), r),
    decreases r,
{
    if r > 0 {
        lemma_line_start_le_total(s, (r - 1) as nat);
    }
}

pub proof fn lemma_segments_total_mono(segs: Seq<Seq<char>>, r1: nat, r2: nat)
    requires
        r1 <= r2 <= segs.len(),
    ensures
        segments_total(segs, r1) <= segments_total(segs, r2),
    decreases r2,
{
    if r1 < r2 {
        lemma_segments_total_mono(segs, r1, (r2 - 1) as nat);
    }
}

/// Every line starts and ends inside the text.
pub proof fn lemma_line_bounds(s: Seq<char>, r: nat)
    requires
        r < segments(s).len(),
    ensures
        line_start(split_lines_spec(s), r) + split_lines_spec(s)[r as int].len() <= s.len(),
{
    let segs = segments(s);
    let n = (segs.len() - 1) as nat;
    lemma_line_start_le_total(s, r);
    lemma_segments_total(s);
    if r < n {
        lemma_segments_total_mono(segs, r + 1, n);
        assert(segments_total(segs, r + 1) == segments_total(segs, r) + segs[r as int].len() + 1);
    }
}

/// A prefix never has more line feeds than the whole text.
pub proof fn lemma_newline_count_prefix(s: Seq<char>, i: int)
    requires
        0 <= i <= s.len(),
    ensures
        newline_count(s.take(i)) <= newline_count(s),
    decreases s.len(),
{
    if i < s.len() {
        let p = s.drop_last();
        assert(s.take(i) =~= p.take(i));
        lemma_newline_count_prefix(p, i);
    } else {
        assert(s.take(i) =~= s);
    }
}

/// The row of any position is a line of the text.
pub proof fn lemma_row_in_range(t: Seq<char>, c: nat)
    ensures
        cursor_row(t, c) < split_lines_spec(t).len(),
{
    let p = clamped_prefix(t, c);
    lemma_segments_len(p);
    lemma_segments_len(t);
    if c <= t.len() {
        lemma_newline_count_prefix(t, c as int);
    }
}

pub proof fn lemma_line_start_mono(lines: Seq<Seq<char>>, r1: nat, r2: nat)
    requires
        r1 <= r2,
    ensures
        line_start(lines, r1) <= line_start(lines, r2),
    decreases r2,
{
    if r1 < r2 {
        lemma_line_start_mono(lines, r1, (r2 - 1) as nat);
    }
}

/// Piece `r` starts after the earlier pieces and their line feeds and ends inside the text.
pub proof fn lemma_segment_bounds(s: Seq<char>, r: nat)
    requires
        r < segments(s).len(),
    ensures
        segments_total(segments(s), r) + segments(s)[r as int].len() <= s.len(),
{
    let segs = segments(s);
    let n = (segs.len() - 1) as nat;
    lemma_segments_total(s);
    if r < n {
        lemma_segments_total_mono(segs, r + 1, n);
    }
}

/// The text up to column `k` of piece `r` splits into the first `r` pieces
/// and the first `k` characters of piece `r`.
pub proof fn lemma_position_in_piece(s: Seq<char>, r: nat, k: nat)
    requires
        r < segments(s).len(),
        k <= segments(s)[r as int].len(),
    ensures
        segments(s.take((segments_total(segments(s), r) + k) as int)) == segments(s).take(r as int).push(
            segments(s)[r as int].take(k as int),
        ),
    decreases s.len(),
{
    let segs = segments(s);
    if s.len() == 0 {
        assert(s.take(0) =~= s);
        assert(segs =~= seq![Seq::<char>::empty()]);
        assert(segs[0].take(0) =~= Seq::<char>::empty());
        assert(segs.take(0).push(segs[0].take(0)) =~= segs);
    } else {
        let sp = s.drop_last();
        let sg = segments(sp);
        lemma_segments_len(sp);
        let n = (sg.len() - 1) as nat;
        lemma_segments_total(sp);
        if r < n || (r == n && k <= sg[r as int].len()) {
            lemma_segments_total_prefix(sg, segs, r);
            lemma_segment_bounds(sp, r);
            let p = segments_total(sg, r) + k;
            assert(s.take(p as int) =~= sp.take(p as int));
            lemma_position_in_piece(sp, r, k);
            assert(segs.take(r as int) =~= sg.take(r as int));
            assert(segs[r as int].take(k as int) =~= sg[r as int].take(k as int));
        } else if s.last() == '\n' {
            assert(r == n + 1);
            assert(k == 0);
            lemma_segments_total_prefix(sg, segs, n);
            assert(s.take(s.len() as int) =~= s);
            assert(segs.take(r as int) =~= sg);
            assert(segs[r as int].take(0) =~= Seq::<char>::empty());
        } else {
            assert(r == n);
            lemma_segments_total_prefix(sg, segs, n);
            assert(k == sg[r as int].len() + 1);
            assert(s.take(s.len() as int) =~= s);
            assert(segs[r as int].take(k as int) =~= segs[r as int]);
            assert(segs.take(r as int).push(segs[r as int]) =~= segs);
        }
    }
}

/// A text without carriage returns has no carriage return in its pieces.
pub proof fn lemma_pieces_without_cr(s: Seq<char>)
    requires
        forall|i: int| 0 <= i < s.len() ==> s[i] != '\r',
    ensures
        forall|j: int, i: int|
            0 <= j < segments(s).len() && 0 <= i < segments(s)[j].len() ==> segments(s)[j][i]
                != '\r',
    decreases s.len(),
{
    if s.len() > 0 {
        let sp = s.drop_last();
        lemma_pieces_without_cr(sp);
        lemma_segments_len(sp);
    }
}

/// Without carriage returns, the lines are the pieces and each line starts
/// after the earlier pieces and their line feeds.
pub proof fn lemma_lines_without_cr(s: Seq<char>, r: nat)
    requires
        forall|i: int| 0 <= i < s.len() ==> s[i] != '\r',
        r <= segments(s).len(),
    ensures
        split_lines_spec(s) == segments(s),
        line_start(split_lines_spec(s), r) == segments_total(segments(s), r),
    decreases r,
{
    let segs = segments(s);
    lemma_pieces_without_cr(s);
    assert forall|j: int| 0 <= j < segs.len() implies split_lines_spec(s)[j] == segs[j] by {
        if segs[j].len() > 0 {
            assert(segs[j][segs[j].len() - 1] != '\r');
        }
    }
    assert(split_lines_spec(s) =~= segs);
    if r > 0 {
        lemma_lines_without_cr(s, (r - 1) as nat);
    }
}

/// The lines joined with a line feed between each two.
pub open spec fn join_lines(ls: Seq<Seq<char>>) -> Seq<char>
    decreases ls.len(),
{
    if ls.len() == 0 {
        Seq::<char>::empty()
    } else if ls.len() == 1 {
        ls[0]
    } else {
        join_lines(ls.drop_last()) + seq!['\n'] + ls.last()
    }
}

/// Adding a character to the last line adds it at the end of the joined text.
proof fn lemma_join_extend(ls: Seq<Seq<char>>, c: char)
    requires
        ls.len() >= 1,
    ensures
        join_lines(ls.update(ls.len() - 1, ls.last().push(c))) == join_lines(ls).push(c),
{
    let u = ls.update(ls.len() - 1, ls.last().push(c));
    if ls.len() == 1 {
        assert(u.len() == 1);
    } else {
        assert(u.drop_last() =~= ls.drop_last());
        assert(u.last() == ls.last().push(c));
        assert(join_lines(ls.drop_last()) + seq!['\n'] + ls.last().push(c) =~= (join_lines(
            ls.drop_last(),
        ) + seq!['\n'] + ls.last()).push(c));
    }
}

/// The pieces between line feeds, joined again with line feeds, are the text.
proof fn lemma_join_segments(s: Seq<char>)
    ensures
        join_lines(segments(s)) == s,
    decreases s.len(),
{
    if s.len() == 0 {
        assert(segments(s)[0] =~= s);
    } else {
        let p = s.drop_last();
        lemma_join_segments(p);
        lemma_segments_len(p);
        let prev = segments(p);
        if s.last() == '\n' {
            let ss = prev.push(Seq::<char>::empty());
            assert(ss.drop_last() =~= prev);
            assert(p + seq!['\n'] + Seq::<char>::empty() =~= s);
        } else {
            lemma_join_extend(prev, s.last());
            assert(p.push(s.last()) =~= s);
        }
    }
}

/// Splitting a text without carriage returns into lines and joining the
/// lines with line feeds gives back the text.
pub proof fn lemma_split_then_join(s: Seq<char>)
    requires
        forall|i: int| 0 <= i < s.len() ==> s[i] != '\r',
    ensures
        join_lines(split_lines_spec(s)) == s,
{
    lemma_lines_without_cr(s, 0);
    lemma_join_segments(s);
}

/// Lengths of the pieces of `t` between line feeds, and whether each ends
/// with a carriage return.
fn segment_shapes(t: &Vec<char>) -> (res: (Vec<usize>, Vec<bool>))
    ensures
        res.0@.len() == segments(t@).len(),
        res.1@.len() == segments(t@).len(),
        forall|k: int|
            0 <= k < res.0@.len() ==> res.0@[k] == segments(t@)[k].len() && res.1@[k] == (
            segments(t@)[k].len() > 0 && segments(t@)[k].last() == '\r'),
{
    let mut lens: Vec<usize> = Vec::new();
    let mut crs: Vec<bool> = Vec::new();
    lens.push(0);
    crs.push(false);
    let mut i: usize = 0;
    assert(t@.take(0) =~= Seq::<char>::empty());
    while i < t.len()
        invariant
            i <= t.len(),
            lens@.len() == segments(t@.take(i as int)).len(),
            crs@.len() == segments(t@.take(i as int)).len(),
            forall|k: int|
                0 <= k < lens@.len() ==> lens@[k] == segments(t@.take(i as int))[k].len()
                    && crs@[k] == (segments(t@.take(i as int))[k].len() > 0 && segments(
                    t@.take(i as int),
                )[k].last() == '\r'),
            forall|k: int| 0 <= k < lens@.len() ==> lens@[k] <= i,
        decreases t.len() - i,
    {
        let ghost pre = t@.take(i as int);
        let ghost nxt = t@.take(i + 1);
        assert(nxt.drop_last() =~= pre);
        assert(nxt.last() == t@[i as int]);
        proof {
            lemma_segments_len(pre);
        }
        let c = t[i];
        if c == '\n' {
            lens.push(0);
            crs.push(false);
        } else {
            let last = lens.len() - 1;
            let l = lens[last];
            lens.set(last, l + 1);
            crs.set(last, c == '\r');
            proof {
                let ps = segments(pre);
                assert(segments(nxt) == ps.update(ps.len() - 1, ps.last().push(c)));
                assert(ps.last().push(c).last() == c);
            }
        }
        i += 1;
    }
    assert(t@.take(t.len() as int) =~= t@);
    (lens, crs)
}

/// The lengths of the lines of `t` (see `split_lines_spec`).
pub fn line_lengths(t: &Vec<char>) -> (res: Vec<usize>)
    ensures
        res@.len() == split_lines_spec(t@).len(),
        forall|k: int| 0 <= k < res@.len() ==> res@[k] == split_lines_spec(t@)[k].len(),
{
    let (lens, crs) = segment_shapes(t);
    let n = lens.len();
    let mut res: Vec<usize> = Vec::new();
    let mut k: usize = 0;
    while k < n
        invariant
            n == lens@.len(),
            n == crs@.len(),
            n == segments(t@).len(),
            k <= n,
            res@.len() == k,
            forall|j: int|
                0 <= j < n ==> lens@[j] == segments(t@)[j].len() && crs@[j] == (
                segments(t@)[j].len() > 0 && segments(t@)[j].last() == '\r'),
            forall|j: int| 0 <= j < k ==> res@[j] == split_lines_spec(t@)[j].len(),
        decreases n - k,
    {
        if k + 1 < n && crs[k] {
            res.push(lens[k] - 1);
        } else {
            res.push(lens[k]);
        }
        k += 1;
    }
    res
}

/// Row and column of position `c` in `t`.
pub fn row_and_col(t: &Vec<char>, c: usize) -> (res: (usize, usize))
    ensures
        res.0 == cursor_row(t@, c as nat),
        res.1 == cursor_col(t@, c as nat),
{
    let end = if c <= t.len() {
        c
    } else {
        t.len()
    };
    assert(clamped_prefix(t@, c as nat) =~= t@.take(end as int));
    let mut row: usize = 0;
    let mut col: usize = 0;
    let mut i: usize = 0;
    assert(t@.take(0) =~= Seq::<char>::empty());
    while i < end
        invariant
            end <= t.len(),
            i <= end,
            row == segments(t@.take(i as int)).len() - 1,
            col == segments(t@.take(i as int)).last().len(),
            row <= i,
            col <= i,
        decreases end - i,
    {
        let ghost pre = t@.take(i as int);
        let ghost nxt = t@.take(i + 1);
        assert(nxt.drop_last() =~= pre);
        let ch = t[i];
        if ch == '\n' {
            row += 1;
            col = 0;
        } else {
            col += 1;
        }
        i += 1;
    }
    (row, col)
}

/// `line_start(split_lines_spec(t), r)` computed from the line lengths.
pub fn line_start_of(lens: &Vec<usize>, r: usize, Ghost(t): Ghost<Seq<char>>) -> (res: usize)
    requires
        r < lens@.len(),
        lens@.len() == split_lines_spec(t).len(),
        forall|k: int| 0 <= k < lens@.len() ==> lens@[k] == split_lines_spec(t)[k].len(),
        t.len() <= usize::MAX,
    ensures
        res == line_start(split_lines_spec(t), r as nat),
{
    proof {
        lemma_line_bounds(t, r as nat);
    }
    let mut sum: usize = 0;
    let mut k: usize = 0;
    while k < r
        invariant
            k <= r,
            r < lens@.len(),
            lens@.len() == split_lines_spec(t).len(),
            forall|j: int| 0 <= j < lens@.len() ==> lens@[j] == split_lines_spec(t)[j].len(),
            sum == line_start(split_lines_spec(t), k as nat),
            line_start(split_lines_spec(t), r as nat) <= usize::MAX,
        decreases r - k,
    {
        proof {
            lemma_line_start_mono(split_lines_spec(t), (k + 1) as nat, r as nat);
        }
        sum = sum + lens[k] + 1;
        k += 1;
    }
    sum
}

/// The lines of `text`: the lines of `str::lines`, plus an empty last line
/// when the text is empty or ends with a line feed.
pub fn split_lines(text: &str) -> (res: Vec<String>)
    ensures
        res@.len() == split_lines_spec(text@).len(),
        forall|k: int| 0 <= k < res@.len() ==> res@[k]@ == split_lines_spec(text@)[k],
{
    let t = chars_of(text);
    let mut done: Vec<String> = Vec::new();
    let mut cur: Vec<char> = Vec::new();
    let mut i: usize = 0;
    assert(t@.take(0) =~= Seq::<char>::empty());
    while i < t.len()
        invariant
            i <= t@.len(),
            t@ == text@,
            done@.len() + 1 == segments(t@.take(i as int)).len(),
            forall|k: int|
                0 <= k < done@.len() ==> done@[k]@ == strip_cr(segments(t@.take(i as int))[k]),
            cur@ == segments(t@.take(i as int)).last(),
        decreases t.len() - i,
    {
        let ghost pre = t@.take(i as int);
        let ghost nxt = t@.take(i + 1);
        assert(nxt.drop_last() =~= pre);
        proof {
            lemma_segments_len(pre);
        }
        let c = t[i];
        if c == '\n' {
            let n = cur.len();
            let line = if n > 0 && cur[n - 1] == '\r' {
                let mut stripped: Vec<char> = Vec::new();
                let mut j: usize = 0;
                while j < n - 1
                    invariant
                        n == cur@.len(),
                        n > 0,
                        j <= n - 1,
                        stripped@ == cur@.take(j as int),
                    decreases n - 1 - j,
                {
                    stripped.push(cur[j]);
                    assert(cur@.take(j as int).push(cur@[j as int]) =~= cur@.take(j + 1));
                    j += 1;
                }
                assert(cur@.take((n - 1) as int) =~= cur@.drop_last());
                string_of(&stripped)
            } else {
                string_of(&cur)
            };
            done.push(line);
            cur = Vec::new();
            proof {
                assert(segments(nxt) == segments(pre).push(Seq::<char>::empty()));
                assert forall|k: int| 0 <= k < done@.len() implies done@[k]@ == strip_cr(
                    segments(nxt)[k],
                ) by {
                    if k < done@.len() - 1 {
                    } else {
                        assert(segments(nxt)[k] == segments(pre).last());
                    }
                }
            }
            assert(cur@ =~= Seq::<char>::empty());
        } else {
            cur.push(c);
            proof {
                let ps = segments(pre);
                assert(segments(nxt) == ps.update(ps.len() - 1, ps.last().push(c)));
            }
        }
        i += 1;
    }
    assert(t@.take(t.len() as int) =~= t@);
    let last = string_of(&cur);
    done.push(last);
    proof {
        lemma_segments_len(t@);
        assert forall|k: int| 0 <= k < done@.len() implies done@[k]@ == split_lines_spec(text@)[k] by {
        }
    }
    done
}

} // verus!
