//! Preparing the text of a migration script: dropping breakpoint marker
//! lines, and splitting what is left into statements.
use vstd::prelude::*;

use crate::text::{char_is_space, chars_of, is_space, string_of};

verus! {

/// A line without one carriage return at its end, if it has one.
pub open spec fn strip_cr(l: Seq<char>) -> Seq<char> {
    if l.len() > 0 && l.last() == '\r' {
        l.drop_last()
    } else {
        l
    }
}

/// The lines of `s`, where `cur` is the part of the current line already
/// read. Lines end at `\n`, a `\r` just before it is dropped, and a last
/// empty line is not counted: the lines of `str::lines`.
pub open spec fn lines_from(s: Seq<char>, cur: Seq<char>) -> Seq<Seq<char>>
    decreases s.len(),
{
    if s.len() == 0 {
        if cur.len() == 0 {
            seq![]
        } else {
            seq![cur]
        }
    } else if s[0] == '\n' {
        seq![strip_cr(cur)] + lines_from(s.skip(1), seq![])
    } else {
        lines_from(s.skip(1), cur.push(s[0]))
    }
}

pub open spec fn lines_of(s: Seq<char>) -> Seq<Seq<char>> {
    lines_from(s, seq![])
}

/// A line without its leading white space.
pub open spec fn trim_start(l: Seq<char>) -> Seq<char>
    decreases l.len(),
{
    if l.len() > 0 && is_space(l[0]) {
        trim_start(l.skip(1))
    } else {
        l
    }
}

/// A breakpoint marker line: after leading white space it starts with `-->`.
pub open spec fn is_marker_line(l: Seq<char>) -> bool {
    let t = trim_start(l);
    t.len() >= 3 && t.take(3) == seq!['-', '-', '>']
}

/// Lines joined with `\n` between them.
pub open spec fn join_lines(ls: Seq<Seq<char>>) -> Seq<char>
    decreases ls.len(),
{
    if ls.len() == 0 {
        seq![]
    } else if ls.len() == 1 {
        ls[0]
    } else {
        join_lines(ls.drop_last()) + seq!['\n'] + ls.last()
    }
}

/// The lines that a script keeps: all but the markers.
pub open spec fn kept_line() -> spec_fn(Seq<char>) -> bool {
    |l: Seq<char>| !is_marker_line(l)
}

/// A script without its marker lines.
pub open spec fn cleaned_script(s: Seq<char>) -> Seq<char> {
    join_lines(lines_of(s).filter(kept_line()))
}

/// Splits characters into lines as `str::lines` does.
fn split_lines(c: &Vec<char>) -> (r: Vec<Vec<char>>)
    ensures
        r@.len() == lines_of(c@).len(),
        forall|k: int| 0 <= k < r@.len() ==> #[trigger] r@[k]@ == lines_of(c@)[k],
{
    let mut lines: Vec<Vec<char>> = Vec::new();
    let ghost done: Seq<Seq<char>> = seq![];
    let mut cur: Vec<char> = Vec::new();
    let mut i: usize = 0;
    assert(c@.skip(0) =~= c@);
    while i < c.len()
        invariant
            i <= c@.len(),
            lines@.len() == done.len(),
            forall|k: int| 0 <= k < done.len() ==> #[trigger] lines@[k]@ == done[k],
            done + lines_from(c@.skip(i as int), cur@) == lines_of(c@),
        decreases c@.len() - i,
    {
        let ch = c[i];
        assert(c@.skip(i as int).skip(1) =~= c@.skip(i + 1));
        assert(c@.skip(i as int)[0] == ch);
        if ch == '\n' {
            let ghost whole = cur@;
            let ghost before = done;
            let n = cur.len();
            if n > 0 && cur[n - 1] == '\r' {
                cur.pop();
                assert(cur@ =~= whole.drop_last());
            }
            assert(cur@ == strip_cr(whole));
            proof {
                done = done.push(cur@);
                assert(before + (seq![strip_cr(whole)] + lines_from(c@.skip(i + 1), seq![])) =~= done
                    + lines_from(c@.skip(i + 1), seq![]));
            }
            lines.push(cur);
            cur = Vec::new();
            assert(cur@ =~= seq![]);
        } else {
            cur.push(ch);
        }
        i = i + 1;
    }
    assert(c@.skip(i as int) =~= seq![]);
    if cur.len() > 0 {
        proof {
            done = done.push(cur@);
        }
        lines.push(cur);
    } else {
        assert(done =~= done + seq![]);
    }
    lines
}

/// Whether a line is a breakpoint marker.
pub fn marker_line(l: &Vec<char>) -> (r: bool)
    ensures
        r == is_marker_line(l@),
{
    let mut j: usize = 0;
    assert(l@.skip(0) =~= l@);
    while j < l.len() && char_is_space(l[j])
        invariant
            j <= l@.len(),
            trim_start(l@) == trim_start(l@.skip(j as int)),
        decreases l@.len() - j,
    {
        assert(l@.skip(j as int).skip(1) =~= l@.skip(j + 1));
        j = j + 1;
    }
    let ghost t = l@.skip(j as int);
    assert(trim_start(t) == t);
    if l.len() - j < 3 {
        return false;
    }
    let r = l[j] == '-' && l[j + 1] == '-' && l[j + 2] == '>';
    assert(r == (t.take(3) =~= seq!['-', '-', '>']));
    r
}

/// Removes the breakpoint marker lines of a script and joins the other
/// lines with `\n`.
pub fn clean_script(sql: &str) -> (r: String)
    ensures
        r@ == cleaned_script(sql@),
{
    let c = chars_of(sql);
    let lines = split_lines(&c);
    let ghost ls = lines_of(sql@);
    let mut out: Vec<char> = Vec::new();
    let mut any = false;
    let mut i: usize = 0;
    while i < lines.len()
        invariant
            i <= lines@.len(),
            lines@.len() == ls.len(),
            forall|k: int| 0 <= k < lines@.len() ==> #[trigger] lines@[k]@ == ls[k],
            out@ == join_lines(ls.take(i as int).filter(kept_line())),
            any == (ls.take(i as int).filter(kept_line()).len() > 0),
        decreases lines@.len() - i,
    {
        let ghost f = ls.take(i as int).filter(kept_line());
        assert(ls.take(i + 1).drop_last() =~= ls.take(i as int));
        proof {
            reveal(Seq::filter);
        }
        let l = &lines[i];
        assert(ls.take(i + 1).last() == l@);
        if !marker_line(l) {
            assert(kept_line()(l@));
            assert(ls.take(i + 1).filter(kept_line()) == f.push(l@));
            assert(f.push(l@).drop_last() =~= f);
            if any {
                out.push('\n');
            }
            let mut k: usize = 0;
            let ghost start = out@;
            while k < l.len()
                invariant
                    k <= l@.len(),
                    out@ == start + l@.take(k as int),
                decreases l@.len() - k,
            {
                out.push(l[k]);
                assert(l@.take(k + 1) =~= l@.take(k as int).push(l@[k as int]));
                k = k + 1;
            }
            assert(l@.take(l@.len() as int) =~= l@);
            if !any {
                assert(f =~= seq![]);
                assert(out@ =~= join_lines(f.push(l@)));
            }
            any = true;
        } else {
            assert(!kept_line()(l@));
            assert(ls.take(i + 1).filter(kept_line()) == f);
        }
        i = i + 1;
    }
    assert(ls.take(ls.len() as int) =~= ls);
    string_of(&out)
}

/// What sqlparser's SQLite dialect makes of a script: its statements, each
/// printed back as SQL text, or `None` where the script does not parse.
pub uninterp spec fn sqlite_statements(sql: Seq<char>) -> Option<Seq<Seq<char>>>;

/// Relies on `sqlparser::parser::Parser::parse_sql` with `SQLiteDialect`, and
/// on the `Display` of each parsed statement: the outcome depends on the
/// text alone.
#[verifier::external_body]
pub(crate) fn parse_statements(sql: &str) -> (r: Result<Vec<String>, String>)
    ensures
        r is Ok <==> sqlite_statements(sql@) is Some,
        r is Ok ==> r->Ok_0@.map_values(|s: String| s@) == sqlite_statements(sql@)->Some_0,
{
    match sqlparser::parser::Parser::parse_sql(&sqlparser::dialect::SQLiteDialect {}, sql) {
        Ok(statements) => Ok(statements.iter().map(|s| s.to_string()).collect()),
        Err(e) => Err(e.to_string()),
    }
}

} // verus!
