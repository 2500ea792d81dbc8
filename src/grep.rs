use vstd::prelude::*;
use crate::dispatch::words;
use crate::matcher::{Pattern, regex_finds};

verus! {

/// The lines that `str::lines` yields for `s`: split at `\n`, a `\r` before it
/// dropped, no empty last line after a final line ending.
pub uninterp spec fn lines_in(s: Seq<char>) -> Seq<Seq<char>>;

/// Relies on `str::lines`: the lines of `s` in order, without their endings.
#[verifier::external_body]
fn split_lines(s: &str) -> (r: Vec<String>)
    ensures
        words(r@) == lines_in(s@),
{
    s.lines().map(|l| l.to_string()).collect()
}

/// The lines of `ls` that pattern `p` matches, each with its number counted from 1.
pub open spec fn hits(p: Seq<char>, ls: Seq<Seq<char>>) -> Seq<(int, Seq<char>)>
    decreases ls.len(),
{
    if ls.len() == 0 {
        Seq::empty()
    } else if regex_finds(p, ls.last()) {
        hits(p, ls.drop_last()).push((ls.len() as int, ls.last()))
    } else {
        hits(p, ls.drop_last())
    }
}

/// The numbers and texts of a sequence of numbered lines.
pub open spec fn numbered(v: Seq<(usize, String)>) -> Seq<(int, Seq<char>)> {
    v.map_values(|h: (usize, String)| (h.0 as int, h.1@))
}

/// The lines of `contents` that `pat` matches, numbered from 1, in order.
pub fn matching_lines(pat: &Pattern, contents: &str) -> (r: Vec<(usize, String)>)
    ensures
        numbered(r@) == hits(pat@, lines_in(contents@)),
{
    let lines = split_lines(contents);
    let ghost ls = words(lines@);
    let mut res: Vec<(usize, String)> = Vec::new();
    let mut i: usize = 0;
    while i < lines.len()
        invariant
            0 <= i <= lines@.len(),
            ls == words(lines@),
            numbered(res@) == hits(pat@, ls.subrange(0, i as int)),
        decreases lines@.len() - i,
    {
        assert(ls.subrange(0, i + 1).drop_last() =~= ls.subrange(0, i as int));
        if pat.is_match(lines[i].as_str()) {
            let ghost before = res@;
            res.push((i + 1, lines[i].clone()));
            assert(numbered(res@) =~= numbered(before).push(((i + 1) as int, ls[i as int])));
        }
        i = i + 1;
    }
    assert(ls.subrange(0, lines@.len() as int) =~= ls);
    res
}

} // verus!
