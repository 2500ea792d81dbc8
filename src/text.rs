use vstd::prelude::*;
use crate::config::{opt_text, texts};

verus! {

/// What `str::replace` makes of `s`: the occurrences of `from` found scanning
/// left to right, without overlap, each replaced by `to`. An empty `from`
/// matches at every character boundary, the two ends included.
pub open spec fn replaced(s: Seq<char>, from: Seq<char>, to: Seq<char>) -> Seq<char>
    decreases s.len(),
{
    if from.len() == 0 {
        if s.len() == 0 {
            to
        } else {
            to + seq![s[0]] + replaced(s.drop_first(), from, to)
        }
    } else if s.len() < from.len() {
        s
    } else if s.subrange(0, from.len() as int) == from {
        to + replaced(s.subrange(from.len() as int, s.len() as int), from, to)
    } else {
        seq![s[0]] + replaced(s.drop_first(), from, to)
    }
}

/// Relies on `str::replace`: replaces all non-overlapping matches of `from`.
#[verifier::external_body]
fn replace_all(s: &str, from: &str, to: &str) -> (r: String)
    ensures
        r@ == replaced(s@, from@, to@),
{
    s.replace(from, to)
}

/// The text of an optional string.
pub open spec fn opt_view(o: Option<String>) -> Option<Seq<char>> {
    match o {
        Some(s) => Some(s@),
        None => None,
    }
}

/// The text that `delete_words` gives.
pub open spec fn deleted(content: Option<Seq<char>>, delete: Option<Seq<char>>) -> Seq<char> {
    match (content, delete) {
        (Some(c), Some(d)) => replaced(c, d, Seq::empty()),
        _ => Seq::empty(),
    }
}

/// Removes every occurrence of `delete` from the content; without content or
/// without a word to delete, the result is empty.
pub fn delete_words(content: &mut Option<String>, delete: Option<&str>) -> (r: Option<String>)
    ensures
        *final(content) == *old(content),
        r matches Some(s) && s@ == deleted(opt_view(*old(content)), opt_text(delete)),
{
    let mut res = String::new();
    match content.as_ref() {
        Some(c) => match delete {
            Some(d) => {
                proof {
                    reveal_strlit("");
                }
                assert(""@ =~= Seq::<char>::empty());
                res = replace_all(c.as_str(), d, "");
            },
            None => {},
        },
        None => {},
    }
    Some(res)
}

/// The text that `replace_words` gives.
pub open spec fn swapped(content: Option<Seq<char>>, replace: Seq<Seq<char>>) -> Seq<char> {
    match content {
        Some(c) => replaced(c, replace[0], replace[1]),
        None => Seq::empty(),
    }
}

/// The content after the delete and replace command: the word to delete, if
/// one is given, is removed first; then, if exactly two values are given, the
/// first is replaced by the second.
pub open spec fn edited(content: Option<Seq<char>>, delete: Option<Seq<char>>, replace: Seq<Seq<char>>) -> Option<Seq<char>> {
    let after_delete = if delete is Some { Some(deleted(content, delete)) } else { content };
    if replace.len() == 2 {
        Some(swapped(after_delete, replace))
    } else {
        after_delete
    }
}

/// Replaces every occurrence of `replace[0]` in the content by `replace[1]`;
/// without content, the result is empty.
pub fn replace_words(content: &mut Option<String>, replace: Vec<&str>) -> (r: Option<String>)
    requires
        replace@.len() >= 2,
    ensures
        *final(content) == *old(content),
        r matches Some(s) && s@ == swapped(opt_view(*old(content)), texts(replace@)),
{
    let mut res = String::new();
    match content.as_ref() {
        Some(c) => {
            res = replace_all(c.as_str(), replace[0], replace[1]);
        },
        None => {},
    }
    Some(res)
}

/// Arguments of the delete and replace command.
pub struct TrConfig<'a> {
    pub path: Option<&'a str>,
    pub file: Option<&'a str>,
    pub delete: Option<&'a str>,
    pub replace: Vec<&'a str>,
    pub simulate: bool,
}

impl<'a> TrConfig<'a> {
    /// The pair (word, replacement) when exactly two values were given.
    pub fn parse_replace(&self) -> (r: Option<Vec<&'a str>>)
        ensures
            self.replace@.len() == 2 ==> (r matches Some(v) && v@ == self.replace@),
            self.replace@.len() != 2 ==> r is None,
    {
        if self.replace.len() == 2 {
            let mut res: Vec<&'a str> = Vec::new();
            let mut i: usize = 0;
            while i < 2
                invariant
                    0 <= i <= 2,
                    self.replace@.len() == 2,
                    res@ == self.replace@.subrange(0, i as int),
                decreases 2 - i,
            {
                res.push(self.replace[i]);
                i = i + 1;
            }
            assert(res@ == self.replace@);
            return Some(res);
        }
        None
    }

    /// Applies the delete and then the replace that this command asks for to
    /// the content read from the file, if any.
    pub fn edit(&self, content: Option<String>) -> (r: Option<String>)
        ensures
            opt_view(r) == edited(opt_view(content), opt_text(self.delete), texts(self.replace@)),
    {
        let mut content = content;
        if self.delete.is_some() {
            content = delete_words(&mut content, self.delete);
        }
        match self.parse_replace() {
            Some(pair) => {
                content = replace_words(&mut content, pair);
            },
            None => {},
        }
        content
    }
}

} // verus!
