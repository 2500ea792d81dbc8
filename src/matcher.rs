use vstd::prelude::*;

verus! {

#[verifier::external_type_specification]
#[verifier::external_body]
pub struct ExRegex(regex::Regex);

/// Whether `regex::Regex::new` accepts the pattern `p` (its syntax is valid
/// and the compiled program stays within the default size limits).
pub uninterp spec fn regex_compiles(p: Seq<char>) -> bool;

/// Whether the regex compiled from pattern `p` matches anywhere in `text`.
pub uninterp spec fn regex_finds(p: Seq<char>, text: Seq<char>) -> bool;

/// A compiled path pattern together with the text it was compiled from.
pub struct Pattern {
    source: String,
    compiled: regex::Regex,
}

impl View for Pattern {
    type V = Seq<char>;

    /// The pattern text that was compiled.
    closed spec fn view(&self) -> Seq<char> {
        self.source@
    }
}

/// Relies on `regex::Regex::new`: it succeeds exactly on the patterns that
/// compile, and the source text is kept beside the compiled program.
#[verifier::external_body]
fn compile_regex(p: &str) -> (r: Option<Pattern>)
    ensures
        r.is_some() == regex_compiles(p@),
        r matches Some(pat) ==> pat@ == p@,
{
    match regex::Regex::new(p) {
        Ok(compiled) => Some(Pattern { source: p.to_string(), compiled }),
        Err(_) => None,
    }
}

/// Relies on `regex::Regex::is_match`: true when the pattern matches some
/// substring of `text` (no anchoring is added).
#[verifier::external_body]
fn regex_is_match(pat: &Pattern, text: &str) -> (r: bool)
    ensures
        r == regex_finds(pat@, text@),
{
    pat.compiled.is_match(text)
}

impl Pattern {
    /// Compiles `p`, or gives `None` when it is not a valid regular expression.
    pub fn compile(p: &str) -> (r: Option<Pattern>)
        ensures
            r.is_some() == regex_compiles(p@),
            r matches Some(pat) ==> pat@ == p@,
    {
        compile_regex(p)
    }

    /// The pattern text this was compiled from.
    pub fn as_str(&self) -> (r: &str)
        ensures
            r@ == self@,
    {
        self.source.as_str()
    }

    /// Whether the pattern matches anywhere within `text`.
    pub fn is_match(&self, text: &str) -> (r: bool)
        ensures
            r == regex_finds(self@, text@),
    {
        regex_is_match(self, text)
    }
}

/// A path is selected when at least one of the patterns matches it.
pub open spec fn matches_any(pats: Seq<Pattern>, text: Seq<char>) -> bool {
    exists|i: int| 0 <= i < pats.len() && regex_finds(#[trigger] pats[i]@, text)
}

/// Whether any pattern of `pats` matches anywhere within `text`.
pub fn matches_any_of(pats: &[Pattern], text: &str) -> (r: bool)
    ensures
        r == matches_any(pats@, text@),
{
    let mut i: usize = 0;
    while i < pats.len()
        invariant
            0 <= i <= pats@.len(),
            forall|j: int| 0 <= j < i ==> !regex_finds(#[trigger] pats@[j]@, text@),
        decreases pats@.len() - i,
    {
        if pats[i].is_match(text) {
            return true;
        }
        i = i + 1;
    }
    false
}

/// The patterns of `ps` that compile, in their original order.
pub open spec fn compiling(ps: Seq<Seq<char>>) -> Seq<Seq<char>>
    decreases ps.len(),
{
    if ps.len() == 0 {
        Seq::empty()
    } else if regex_compiles(ps.last()) {
        compiling(ps.drop_last()).push(ps.last())
    } else {
        compiling(ps.drop_last())
    }
}

/// Compiles each pattern of `ps`, dropping those that are not valid.
pub fn compile_all(ps: &Vec<&str>) -> (r: Vec<Pattern>)
    ensures
        r@.map_values(|p: Pattern| p@) == compiling(ps@.map_values(|s: &str| s@)),
{
    let ghost texts = ps@.map_values(|s: &str| s@);
    let mut res: Vec<Pattern> = Vec::new();
    let mut i: usize = 0;
    while i < ps.len()
        invariant
            0 <= i <= ps@.len(),
            texts == ps@.map_values(|s: &str| s@),
            res@.map_values(|p: Pattern| p@) == compiling(texts.subrange(0, i as int)),
        decreases ps@.len() - i,
    {
        let p: &str = ps[i];
        let ghost before = texts.subrange(0, i as int);
        assert(texts.subrange(0, i + 1).drop_last() == before);
        match Pattern::compile(p) {
            Some(pat) => {
                res.push(pat);
                assert(res@.map_values(|p: Pattern| p@) =~= compiling(before).push(p@));
            },
            None => {},
        }
        i = i + 1;
    }
    assert(texts.subrange(0, ps@.len() as int) == texts);
    res
}

} // verus!
