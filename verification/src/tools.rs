//! Reading the output of the system tools that tell whether Cursor still runs
//! (`pgrep` on macOS) and who holds a database open (`lsof`).

use vstd::prelude::*;
use crate::text::{
    chars_of, count_before, insert_sorted_id, is_white_space, leading_count, lemma_count_before_bounds,
    lemma_insert_contains, lemma_leading_count, push_all, string_from_chars, strictly_sorted,
    white_space,
};
use crate::workspace::{lemma_split_chars_nonempty, split_chars, split_text};

verus! {

/// `s` without one trailing carriage return.
pub open spec fn strip_cr(s: Seq<char>) -> Seq<char> {
    if s.len() > 0 && s.last() == '\r' { s.drop_last() } else { s }
}

/// The lines of a text as `str::lines` gives them: cut at `\n`, a `\r`
/// before the `\n` dropped, and no empty line after a final `\n`.
pub open spec fn text_lines(s: Seq<char>) -> Seq<Seq<char>> {
    let p = split_chars(s, '\n');
    let body = p.drop_last().map_values(|l: Seq<char>| strip_cr(l));
    if p.last().len() > 0 { body.push(p.last()) } else { body }
}

/// The lines of a text (see `text_lines`).
pub fn lines_of(text: &str) -> (r: Vec<Vec<char>>)
    ensures
        r.deep_view() == text_lines(text@),
{
    let cs = chars_of(text);
    let parts = split_text(cs.as_slice(), '\n');
    proof {
        lemma_split_chars_nonempty(text@, '\n');
    }
    let ghost p = parts.deep_view();
    let n = parts.len();
    let mut r: Vec<Vec<char>> = Vec::new();
    let mut i: usize = 0;
    while i + 1 < n
        invariant
            n == parts@.len(),
            n >= 1,
            p == parts.deep_view(),
            p == split_chars(text@, '\n'),
            i + 1 <= n,
            r.deep_view() =~= p.take(i as int).map_values(|l: Seq<char>| strip_cr(l)),
        decreases n - i,
    {
        let line = &parts[i];
        assert(p[i as int] == line@);
        let mut out: Vec<char> = Vec::new();
        if line.len() > 0 && line[line.len() - 1] == '\r' {
            let mut k: usize = 0;
            while k < line.len() - 1
                invariant
                    line@.len() >= 1,
                    k + 1 <= line@.len(),
                    out@ =~= line@.take(k as int),
                decreases line@.len() - k,
            {
                out.push(line[k]);
                k = k + 1;
            }
            assert(out@ =~= line@.drop_last());
            assert(line@.last() == '\r');
            assert(out@ == strip_cr(line@));
        } else {
            push_all(&mut out, line.as_slice());
            assert(out@ =~= line@);
            assert(out@ == strip_cr(line@));
        }
        let ghost before = r.deep_view();
        assert(out.deep_view() =~= out@);
        r.push(out);
        assert(r.deep_view() =~= before.push(strip_cr(p[i as int])));
        assert(p.take(i + 1) =~= p.take(i as int).push(p[i as int]));
        i = i + 1;
    }
    assert(p.take(i as int) =~= p.drop_last());
    let last = &parts[n - 1];
    assert(p.last() == last@);
    if last.len() > 0 {
        let mut out: Vec<char> = Vec::new();
        push_all(&mut out, last.as_slice());
        let ghost before = r.deep_view();
        assert(out.deep_view() =~= out@);
        r.push(out);
        assert(r.deep_view() =~= before.push(p.last()));
    }
    r
}

/// The position after the run of characters from `start` that are white
/// space (`ws`) or are not.
fn run_end(s: &[char], start: usize, ws: bool) -> (end: usize)
    requires
        start <= s@.len(),
    ensures
        ws ==> end == start + leading_count(s@.skip(start as int), |c: char| is_white_space(c)),
        !ws ==> end == start + leading_count(s@.skip(start as int), |c: char| !is_white_space(c)),
        end <= s@.len(),
{
    let ghost pred: spec_fn(char) -> bool = if ws {
        |c: char| is_white_space(c)
    } else {
        |c: char| !is_white_space(c)
    };
    let mut i: usize = start;
    while i < s.len() && white_space(s[i]) == ws
        invariant
            start <= i <= s@.len(),
            pred == (if ws {
                |c: char| is_white_space(c)
            } else {
                |c: char| !is_white_space(c)
            }),
            forall|k: int| start <= k < i ==> pred(s@[k]),
        decreases s@.len() - i,
    {
        i = i + 1;
    }
    let ghost t = s@.skip(start as int);
    proof {
        assert forall|k: int| 0 <= k < i - start implies pred(t[k]) by {
            assert(t[k] == s@[start + k]);
        }
        lemma_leading_count(t, pred, i - start);
        assert(t.skip(i - start) =~= s@.skip(i as int));
        if i < s@.len() {
            assert(!pred(s@.skip(i as int)[0]));
        }
        assert(leading_count(s@.skip(i as int), pred) == 0);
    }
    i
}

/// The first white-space separated word of `s` and what follows it.
pub open spec fn first_word(s: Seq<char>) -> (Seq<char>, Seq<char>) {
    let t = s.skip(leading_count(s, |c: char| is_white_space(c)) as int);
    let n = leading_count(t, |c: char| !is_white_space(c));
    (t.take(n as int), t.skip(n as int))
}

/// One process line of `pgrep -fl`: the process id and the command, shown
/// as `<command> (PID <id>)`, the command `Cursor` when it is missing; a
/// line without any word gives nothing.
pub open spec fn pgrep_entry(line: Seq<char>) -> Option<Seq<char>> {
    let (pid, rest) = first_word(line);
    let (name, _) = first_word(rest);
    if pid.len() == 0 {
        None
    } else {
        Some((if name.len() > 0 { name } else { "Cursor"@ }) + " (PID "@ + pid + ")"@)
    }
}

/// The entries of the lines that give one, in order.
pub open spec fn present_entries(lines: Seq<Seq<char>>) -> Seq<Seq<char>>
    decreases lines.len(),
{
    if lines.len() == 0 {
        Seq::empty()
    } else {
        let rest = present_entries(lines.drop_last());
        match pgrep_entry(lines.last()) {
            Some(e) => rest.push(e),
            None => rest,
        }
    }
}

fn word_at(s: &[char], start: usize) -> (r: (usize, usize))
    requires
        start <= s@.len(),
    ensures
        r.0 <= r.1 <= s@.len(),
        first_word(s@.skip(start as int)).0 == s@.subrange(r.0 as int, r.1 as int),
        first_word(s@.skip(start as int)).1 == s@.skip(r.1 as int),
{
    let b = run_end(s, start, true);
    let e = run_end(s, b, false);
    proof {
        let u = s@.skip(start as int);
        assert(u.skip(b - start) =~= s@.skip(b as int));
        assert(s@.skip(b as int).take(e - b) =~= s@.subrange(b as int, e as int));
        assert(s@.skip(b as int).skip(e - b) =~= s@.skip(e as int));
    }
    (b, e)
}

fn copy_range(s: &[char], from: usize, to: usize) -> (r: Vec<char>)
    requires
        from <= to <= s@.len(),
    ensures
        r@ == s@.subrange(from as int, to as int),
{
    let mut r: Vec<char> = Vec::new();
    let mut k: usize = from;
    while k < to
        invariant
            from <= k <= to <= s@.len(),
            r@ =~= s@.subrange(from as int, k as int),
        decreases to - k,
    {
        r.push(s[k]);
        k = k + 1;
    }
    r
}

fn pgrep_line(line: &[char]) -> (r: Option<String>)
    ensures
        match r {
            Some(e) => pgrep_entry(line@) == Some(e@),
            None => pgrep_entry(line@) is None,
        },
{
    assert(line@.skip(0) =~= line@);
    let (pb, pe) = word_at(line, 0);
    if pb == pe {
        return None;
    }
    let (nb, ne) = word_at(line, pe);
    let pid = copy_range(line, pb, pe);
    let mut out: Vec<char> = Vec::new();
    if nb < ne {
        let name = copy_range(line, nb, ne);
        push_all(&mut out, name.as_slice());
    } else {
        let cursor = chars_of("Cursor");
        push_all(&mut out, cursor.as_slice());
    }
    let open = chars_of(" (PID ");
    push_all(&mut out, open.as_slice());
    push_all(&mut out, pid.as_slice());
    out.push(')');
    proof {
        reveal_strlit(")");
    }
    Some(string_from_chars(out.as_slice()))
}

/// The Cursor processes that `pgrep -fl` printed (see `pgrep_entry`).
pub fn parse_pgrep(output: &str) -> (r: Vec<String>)
    ensures
        r.deep_view() == present_entries(text_lines(output@)),
{
    let lines = lines_of(output);
    let ghost ls = lines.deep_view();
    let mut r: Vec<String> = Vec::new();
    let mut i: usize = 0;
    while i < lines.len()
        invariant
            i <= lines@.len(),
            ls == lines.deep_view(),
            ls == text_lines(output@),
            r.deep_view() =~= present_entries(ls.take(i as int)),
        decreases lines@.len() - i,
    {
        assert(ls.take(i + 1).drop_last() =~= ls.take(i as int));
        assert(ls.take(i + 1).last() == lines@[i as int]@);
        let ghost before = r.deep_view();
        match pgrep_line(lines[i].as_slice()) {
            Some(e) => {
                r.push(e);
                assert(r.deep_view() =~= before.push(r@[r@.len() - 1]@));
            },
            None => {},
        }
        i = i + 1;
    }
    assert(ls.take(i as int) =~= ls);
    r
}

/// The holders that `lsof -Fpc` lists, in order: a `p` line sets the
/// process id, a `c` line names a command of that process.
pub open spec fn lsof_holders(lines: Seq<Seq<char>>, pid: Seq<char>) -> Seq<Seq<char>>
    decreases lines.len(),
{
    if lines.len() == 0 {
        Seq::empty()
    } else {
        let l = lines[0];
        if l.len() > 0 && l[0] == 'p' {
            lsof_holders(lines.drop_first(), l.drop_first())
        } else if l.len() > 0 && l[0] == 'c' {
            seq![l.drop_first() + " (PID "@ + pid + ")"@] + lsof_holders(lines.drop_first(), pid)
        } else {
            lsof_holders(lines.drop_first(), pid)
        }
    }
}

/// `all` holds exactly what `have` and `todo` hold together.
pub open spec fn same_items(all: Seq<Seq<char>>, have: Seq<Seq<char>>, todo: Seq<Seq<char>>) -> bool {
    forall|x: Seq<char>|
        #![trigger all.contains(x)]
        #![trigger have.contains(x)]
        #![trigger todo.contains(x)]
        all.contains(x) <==> (have.contains(x) || todo.contains(x))
}

proof fn lemma_take_one(
    all: Seq<Seq<char>>,
    have: Seq<Seq<char>>,
    have2: Seq<Seq<char>>,
    h: Seq<char>,
    tail: Seq<Seq<char>>,
    added: bool,
)
    requires
        same_items(all, have, seq![h] + tail),
        added == !have.contains(h),
        have2 == if added { have.insert(count_before(have, h), h) } else { have },
    ensures
        same_items(all, have2, tail),
{
    if added {
        lemma_count_before_bounds(have, h);
        lemma_insert_contains(have, count_before(have, h), h);
    }
    let t = seq![h] + tail;
    assert forall|x: Seq<char>| t.contains(x) <==> (x == h || tail.contains(x)) by {
        if t.contains(x) {
            let q = choose|q: int| 0 <= q < t.len() && t[q] == x;
            if q > 0 {
                assert(tail[q - 1] == x);
            }
        }
        if tail.contains(x) {
            let q = choose|q: int| 0 <= q < tail.len() && tail[q] == x;
            assert(t[q + 1] == x);
        }
        if x == h {
            assert(t[0] == x);
        }
    }
    assert forall|x: Seq<char>| all.contains(x) <==> (have2.contains(x) || tail.contains(x)) by {
        assert(all.contains(x) <==> (have.contains(x) || t.contains(x)));
    }
}

/// The processes that hold a file open, from the output of `lsof -Fpc`:
/// each holder once, in ascending order.
pub fn parse_lsof(output: &str) -> (r: Vec<String>)
    ensures
        strictly_sorted(r.deep_view()),
        forall|x: Seq<char>| r.deep_view().contains(x) <==> lsof_holders(text_lines(output@), Seq::empty()).contains(x),
{
    let lines = lines_of(output);
    let ghost ls = lines.deep_view();
    let mut pid: Vec<char> = Vec::new();
    let mut r: Vec<String> = Vec::new();
    let mut i: usize = 0;
    assert(ls.skip(0) =~= ls);
    while i < lines.len()
        invariant
            i <= lines@.len(),
            ls == lines.deep_view(),
            ls == text_lines(output@),
            strictly_sorted(r.deep_view()),
            same_items(lsof_holders(ls, Seq::empty()), r.deep_view(), lsof_holders(ls.skip(i as int), pid@)),
        decreases lines@.len() - i,
    {
        let line = &lines[i];
        let ghost rest = ls.skip(i as int);
        assert(rest[0] == line@);
        assert(rest.drop_first() =~= ls.skip(i + 1));
        let ghost old_pid = pid@;
        let ghost before_r = r.deep_view();
        if line.len() > 0 && line[0] == 'p' {
            let next = copy_range(line.as_slice(), 1, line.len());
            assert(next@ =~= line@.drop_first());
            pid = next;
            assert(lsof_holders(rest, old_pid) == lsof_holders(ls.skip(i + 1), pid@));

        } else if line.len() > 0 && line[0] == 'c' {
            let mut entry = copy_range(line.as_slice(), 1, line.len());
            assert(entry@ =~= line@.drop_first());
            let open = chars_of(" (PID ");
            push_all(&mut entry, open.as_slice());
            push_all(&mut entry, pid.as_slice());
            entry.push(')');
            proof {
                reveal_strlit(")");
            }
            let holder = string_from_chars(entry.as_slice());
            let ghost h = holder@;
            assert(h =~= line@.drop_first() + " (PID "@ + pid@ + ")"@);
            let ghost before = r.deep_view();
            let added = insert_sorted_id(&mut r, holder);
            proof {
                let tail = lsof_holders(ls.skip(i + 1), pid@);
                assert(lsof_holders(rest, pid@) =~= seq![h] + tail);
                lemma_take_one(lsof_holders(ls, Seq::empty()), before_r, r.deep_view(), h, tail, added);
            }
        } else {
            assert(lsof_holders(rest, old_pid) == lsof_holders(ls.skip(i + 1), pid@));
        }
        i = i + 1;
    }
    assert(lsof_holders(ls.skip(i as int), pid@) =~= Seq::<Seq<char>>::empty());
    assert forall|x: Seq<char>| r.deep_view().contains(x) <==> lsof_holders(text_lines(output@), Seq::empty()).contains(
        x,
    ) by {
        assert(lsof_holders(ls, Seq::empty()).contains(x) <==> (r.deep_view().contains(x) || lsof_holders(
            ls.skip(i as int),
            pid@,
        ).contains(x)));
    }
    r
}

} // verus!
