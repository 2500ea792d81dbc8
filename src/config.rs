use vstd::prelude::*;
use crate::dispatch::{first_at, placeholder_position, shell_words, split_template, words};
use crate::matcher::{Pattern, compile_all, compiling};
use crate::size::{threshold_from, threshold_of};

verus! {

/// Why a search could not start.
#[derive(PartialEq, Eq, Structural, Debug, Clone, Copy)]
pub enum FindError {
    /// None of the patterns is a valid regular expression.
    NoValidPatterns,
    /// None of the directories exists and is accessible.
    NoValidRoots,
    /// The command template has unbalanced quotes or a dangling escape.
    BadTemplate,
    /// A command template is set but the placeholder is missing from it.
    MissingPlaceholder,
}

impl FindError {
    /// A one-line description of the error.
    pub fn message(&self) -> (r: &'static str)
        ensures
            *self == FindError::NoValidPatterns ==> r@ == "No valid regex given"@,
            *self == FindError::NoValidRoots ==> r@ == "No valid directories given"@,
            *self == FindError::BadTemplate ==> r@ == "The command template could not be split into words"@,
            *self == FindError::MissingPlaceholder ==> r@ == "The placeholder does not appear in the command template"@,
    {
        match self {
            FindError::NoValidPatterns => "No valid regex given",
            FindError::NoValidRoots => "No valid directories given",
            FindError::BadTemplate => "The command template could not be split into words",
            FindError::MissingPlaceholder => "The placeholder does not appear in the command template",
        }
    }
}

/// The texts of a sequence of string slices.
pub open spec fn texts(v: Seq<&str>) -> Seq<Seq<char>> {
    v.map_values(|s: &str| s@)
}

/// The entries of `v` whose flag is set, in order.
pub open spec fn kept(v: Seq<&str>, flags: Seq<bool>) -> Seq<&str>
    decreases v.len(),
{
    if v.len() == 0 || flags.len() < v.len() {
        Seq::empty()
    } else if flags[v.len() - 1] {
        kept(v.drop_last(), flags).push(v.last())
    } else {
        kept(v.drop_last(), flags)
    }
}

/// Keeps the directories whose flag says they are accessible; fails when none is.
pub fn keep_accessible<'a>(dirs: &Vec<&'a str>, accessible: &Vec<bool>) -> (r: Result<Vec<&'a str>, FindError>)
    requires
        accessible@.len() == dirs@.len(),
    ensures
        r matches Ok(v) ==> v@ == kept(dirs@, accessible@) && v@.len() > 0,
        r is Err <==> !accessible@.contains(true),
        r is Err ==> r == Err::<Vec<&'a str>, FindError>(FindError::NoValidRoots),
{
    let mut res: Vec<&'a str> = Vec::new();
    let mut i: usize = 0;
    while i < dirs.len()
        invariant
            0 <= i <= dirs@.len(),
            accessible@.len() == dirs@.len(),
            res@ == kept(dirs@.subrange(0, i as int), accessible@),
            res@.len() > 0 <==> exists|j: int| 0 <= j < i && accessible@[j],
        decreases dirs@.len() - i,
    {
        assert(dirs@.subrange(0, i + 1).drop_last() == dirs@.subrange(0, i as int));
        if accessible[i] {
            res.push(dirs[i]);
        }
        i = i + 1;
    }
    assert(dirs@.subrange(0, dirs@.len() as int) == dirs@);
    if res.len() > 0 {
        Ok(res)
    } else {
        assert forall|j: int| 0 <= j < accessible@.len() implies accessible@[j] != true by {}
        Err(FindError::NoValidRoots)
    }
}

/// Copies a list of names.
fn copy_names<'a>(v: &Vec<&'a str>) -> (r: Vec<&'a str>)
    ensures
        r@ == v@,
{
    let mut res: Vec<&'a str> = Vec::new();
    let mut i: usize = 0;
    while i < v.len()
        invariant
            0 <= i <= v@.len(),
            res@ == v@.subrange(0, i as int),
        decreases v@.len() - i,
    {
        res.push(v[i]);
        i = i + 1;
    }
    assert(res@ == v@);
    res
}

/// Arguments of the command that creates empty files in directories.
pub struct AddConfig<'a> {
    pub dirs: Vec<&'a str>,
    pub files: Vec<&'a str>,
}

impl<'a> AddConfig<'a> {
    /// The directories whose flag in `accessible` is set; an error when none is.
    pub fn parse_dirs(&self, accessible: &Vec<bool>) -> (r: Result<Vec<&'a str>, FindError>)
        requires
            accessible@.len() == self.dirs@.len(),
        ensures
            r matches Ok(v) ==> v@ == kept(self.dirs@, accessible@),
            r is Err <==> !accessible@.contains(true),
            r is Err ==> r == Err::<Vec<&'a str>, FindError>(FindError::NoValidRoots),
    {
        keep_accessible(&self.dirs, accessible)
    }

    /// The file names to create, in order.
    pub fn parse_files(&self) -> (r: Result<Vec<&'a str>, FindError>)
        ensures
            r matches Ok(v) && v@ == self.files@,
    {
        Ok(copy_names(&self.files))
    }
}

/// Arguments of the command that removes files from directories.
pub struct RemoveConfig<'a> {
    pub dirs: Vec<&'a str>,
    pub files: Vec<&'a str>,
}

impl<'a> RemoveConfig<'a> {
    /// The directories whose flag in `accessible` is set; an error when none is.
    pub fn parse_dirs(&self, accessible: &Vec<bool>) -> (r: Result<Vec<&'a str>, FindError>)
        requires
            accessible@.len() == self.dirs@.len(),
        ensures
            r matches Ok(v) ==> v@ == kept(self.dirs@, accessible@),
            r is Err <==> !accessible@.contains(true),
            r is Err ==> r == Err::<Vec<&'a str>, FindError>(FindError::NoValidRoots),
    {
        keep_accessible(&self.dirs, accessible)
    }

    /// The file names to remove, in order.
    pub fn parse_files(&self) -> (r: Result<Vec<&'a str>, FindError>)
        ensures
            r matches Ok(v) && v@ == self.files@,
    {
        Ok(copy_names(&self.files))
    }
}

/// Arguments of the line search command.
pub struct GrepConfig<'a> {
    pub patterns: Vec<&'a str>,
    pub filenames: Vec<&'a str>,
}

impl<'a> GrepConfig<'a> {
    /// The patterns that compile, in order; an error when none does.
    pub fn parse_patterns(&self) -> (r: Result<Vec<Pattern>, FindError>)
        ensures
            r matches Ok(v) ==> v@.map_values(|p: Pattern| p@) == compiling(texts(self.patterns@)),
            r is Err <==> compiling(texts(self.patterns@)).len() == 0,
            r is Err ==> r == Err::<Vec<Pattern>, FindError>(FindError::NoValidPatterns),
    {
        compile_patterns(&self.patterns)
    }

    /// The files to search, in order.
    pub fn parse_files(&self) -> (r: Result<Vec<&'a str>, FindError>)
        ensures
            r matches Ok(v) && v@ == self.filenames@,
    {
        Ok(copy_names(&self.filenames))
    }
}

/// Compiles the patterns that are valid; an error when none is.
fn compile_patterns(ps: &Vec<&str>) -> (r: Result<Vec<Pattern>, FindError>)
    ensures
        r matches Ok(v) ==> v@.map_values(|p: Pattern| p@) == compiling(texts(ps@)),
        r is Err <==> compiling(texts(ps@)).len() == 0,
        r is Err ==> r == Err::<Vec<Pattern>, FindError>(FindError::NoValidPatterns),
{
    let v = compile_all(ps);
    assert(texts(ps@) == ps@.map_values(|s: &str| s@));
    if v.len() > 0 {
        Ok(v)
    } else {
        Err(FindError::NoValidPatterns)
    }
}

/// Arguments of the search command.
pub struct FindConfig<'a> {
    pub dirs: Vec<&'a str>,
    pub patterns: Vec<&'a str>,
    pub output: Option<&'a str>,
    pub size: Option<&'a str>,
    pub command: Option<&'a str>,
    pub replace: Option<&'a str>,
    pub all: bool,
}

/// The text of an optional string slice.
pub open spec fn opt_text(o: Option<&str>) -> Option<Seq<char>> {
    match o {
        Some(s) => Some(s@),
        None => None,
    }
}

impl<'a> FindConfig<'a> {
    /// The patterns that compile, in order; an error when none does.
    pub fn parse_patterns(&self) -> (r: Result<Vec<Pattern>, FindError>)
        ensures
            r matches Ok(v) ==> v@.map_values(|p: Pattern| p@) == compiling(texts(self.patterns@)),
            r is Err <==> compiling(texts(self.patterns@)).len() == 0,
            r is Err ==> r == Err::<Vec<Pattern>, FindError>(FindError::NoValidPatterns),
    {
        compile_patterns(&self.patterns)
    }

    /// The roots whose flag in `accessible` is set; an error when none is.
    pub fn parse_dirs(&self, accessible: &Vec<bool>) -> (r: Result<Vec<&'a str>, FindError>)
        requires
            accessible@.len() == self.dirs@.len(),
        ensures
            r matches Ok(v) ==> v@ == kept(self.dirs@, accessible@),
            r is Err <==> !accessible@.contains(true),
            r is Err ==> r == Err::<Vec<&'a str>, FindError>(FindError::NoValidRoots),
    {
        keep_accessible(&self.dirs, accessible)
    }

    /// The size threshold: a positive integer argument, or none.
    pub fn parse_size(&self) -> (r: Option<u64>)
        ensures
            r == threshold_of(opt_text(self.size)),
    {
        threshold_from(self.size)
    }

    /// The command template split into words; `None` when no command is set.
    pub fn parse_exec(&self) -> (r: Result<Option<Vec<String>>, FindError>)
        ensures
            self.command is None ==> r matches Ok(None),
            self.command matches Some(e) ==> match shell_words(e@) {
                None => r == Err::<Option<Vec<String>>, FindError>(FindError::BadTemplate),
                Some(ws) => r matches Ok(Some(v)) && words(v@) == ws,
            },
    {
        match self.command {
            None => Ok(None),
            Some(e) => match split_template(e) {
                None => Err(FindError::BadTemplate),
                Some(v) => Ok(Some(v)),
            },
        }
    }

    /// Where the placeholder stands in `template`: its first position.
    pub fn parse_replace(&self, template: &Vec<String>) -> (r: Result<usize, FindError>)
        ensures
            r matches Ok(i) ==> self.replace matches Some(p) && first_at(words(template@), p@, i as int),
            r is Err <==> (self.replace matches Some(p) ==> !words(template@).contains(p@)),
            r is Err ==> r == Err::<usize, FindError>(FindError::MissingPlaceholder),
    {
        match self.replace {
            None => Err(FindError::MissingPlaceholder),
            Some(p) => match placeholder_position(template, p) {
                None => Err(FindError::MissingPlaceholder),
                Some(i) => Ok(i),
            },
        }
    }
}

} // verus!
