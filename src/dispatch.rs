use vstd::prelude::*;

verus! {

/// The words that `shlex::split` makes of `s` under POSIX shell quoting rules,
/// or `None` where the quoting is unbalanced or an escape is left dangling.
pub uninterp spec fn shell_words(s: Seq<char>) -> Option<Seq<Seq<char>>>;

/// The texts of a sequence of strings.
pub open spec fn words(v: Seq<String>) -> Seq<Seq<char>> {
    v.map_values(|w: String| w@)
}

/// The texts of a sequence of command lines.
pub open spec fn lines_of(v: Seq<Vec<String>>) -> Seq<Seq<Seq<char>>> {
    v.map_values(|c: Vec<String>| words(c@))
}

/// Relies on `shlex::split`: splits a command template into words the way a
/// POSIX shell would, honouring quotes and backslash escapes.
#[verifier::external_body]
fn split_words(s: &str) -> (r: Option<Vec<String>>)
    ensures
        r matches Some(v) ==> shell_words(s@) == Some(words(v@)),
        r is None ==> shell_words(s@) is None,
{
    shlex::split(s)
}

/// Splits a command template into words, or `None` where its quoting is broken.
pub fn split_template(s: &str) -> (r: Option<Vec<String>>)
    ensures
        r matches Some(v) ==> shell_words(s@) == Some(words(v@)),
        r is None ==> shell_words(s@) is None,
{
    split_words(s)
}

/// `i` is the first position of `p` in `ws`.
pub open spec fn first_at(ws: Seq<Seq<char>>, p: Seq<char>, i: int) -> bool {
    &&& 0 <= i < ws.len()
    &&& ws[i] == p
    &&& forall|j: int| 0 <= j < i ==> ws[j] != p
}

/// The first position of `placeholder` among the words of `template`, if any.
pub fn placeholder_position(template: &Vec<String>, placeholder: &str) -> (r: Option<usize>)
    ensures
        r matches Some(i) ==> first_at(words(template@), placeholder@, i as int),
        r is None ==> !words(template@).contains(placeholder@),
{
    let wanted: String = placeholder.to_owned();
    let mut i: usize = 0;
    while i < template.len()
        invariant
            0 <= i <= template@.len(),
            wanted@ == placeholder@,
            forall|j: int| 0 <= j < i ==> words(template@)[j] != placeholder@,
        decreases template@.len() - i,
    {
        if template[i] == wanted {
            return Some(i);
        }
        i = i + 1;
    }
    assert forall|j: int| 0 <= j < words(template@).len() implies words(template@)[j] != placeholder@ by {}
    None
}

/// The command line made from `ws` by putting `args` in place of the word at `pos`.
pub open spec fn substituted(ws: Seq<Seq<char>>, pos: int, args: Seq<Seq<char>>) -> Seq<Seq<char>> {
    ws.subrange(0, pos) + args + ws.subrange(pos + 1, ws.len() as int)
}

/// The commands to run for `paths`: one with all of them in place of the
/// placeholder, or one for each path, in order.
pub open spec fn commands(ws: Seq<Seq<char>>, pos: int, paths: Seq<Seq<char>>, all: bool) -> Seq<Seq<Seq<char>>> {
    if all {
        seq![substituted(ws, pos, paths)]
    } else {
        Seq::new(paths.len(), |i: int| substituted(ws, pos, seq![paths[i]]))
    }
}

/// Appends copies of `src[from..to]` to `dst`.
fn extend_words(dst: &mut Vec<String>, src: &Vec<String>, from: usize, to: usize)
    requires
        from <= to <= src@.len(),
    ensures
        words(final(dst)@) == words(old(dst)@) + words(src@).subrange(from as int, to as int),
{
    let mut i: usize = from;
    while i < to
        invariant
            from <= i <= to <= src@.len(),
            words(dst@) == words(old(dst)@) + words(src@).subrange(from as int, i as int),
        decreases to - i,
    {
        let ghost before = dst@;
        dst.push(src[i].clone());
        assert(words(dst@) =~= words(before) + seq![words(src@)[i as int]]);
        assert(words(src@).subrange(from as int, i + 1) =~= words(src@).subrange(from as int, i as int) + seq![words(src@)[i as int]]);
        i = i + 1;
    }
}

/// The command line made from `template` by putting `args` in place of the
/// word at `pos`.
pub fn substitute(template: &Vec<String>, pos: usize, args: &Vec<String>) -> (r: Vec<String>)
    requires
        pos < template@.len(),
    ensures
        words(r@) == substituted(words(template@), pos as int, words(args@)),
{
    let n: usize = template.len();
    let mut r: Vec<String> = Vec::new();
    extend_words(&mut r, template, 0, pos);
    extend_words(&mut r, args, 0, args.len());
    extend_words(&mut r, template, pos + 1, n);
    assert(words(args@).subrange(0, args@.len() as int) =~= words(args@));
    assert(words(r@) =~= substituted(words(template@), pos as int, words(args@)));
    r
}

/// The command lines to spawn for the matched `paths` of one root: with `all`,
/// a single one holding every path in order in place of the placeholder at
/// `pos`; otherwise one per path, in order.
pub fn command_lines(template: &Vec<String>, pos: usize, paths: &Vec<String>, all: bool) -> (r: Vec<Vec<String>>)
    requires
        pos < template@.len(),
    ensures
        lines_of(r@) == commands(words(template@), pos as int, words(paths@), all),
{
    let ghost ws = words(template@);
    let mut r: Vec<Vec<String>> = Vec::new();
    if all {
        r.push(substitute(template, pos, paths));
        assert(lines_of(r@) =~= commands(ws, pos as int, words(paths@), all));
    } else {
        let mut i: usize = 0;
        while i < paths.len()
            invariant
                0 <= i <= paths@.len(),
                pos < template@.len(),
                ws == words(template@),
                !all,
                lines_of(r@) =~= commands(ws, pos as int, words(paths@), all).subrange(0, i as int),
            decreases paths@.len() - i,
        {
            let one: Vec<String> = vec![paths[i].clone()];
            assert(words(one@) =~= seq![words(paths@)[i as int]]);
            let line = substitute(template, pos, &one);
            let ghost before = r@;
            r.push(line);
            assert(lines_of(r@) =~= lines_of(before).push(words(line@)));
            i = i + 1;
        }
    }
    r
}

} // verus!
