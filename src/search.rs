use vstd::prelude::*;
use crate::config::{FindConfig, FindError, opt_text, texts};
use crate::dispatch::{command_lines, commands, first_at, lines_of, shell_words, words};
use crate::matcher::{Pattern, compiling};
use crate::size::threshold_of;
use crate::tree::{Entry, FileView, MyFile, batch_of, get_matched_files, views};
use vstd::string::StringExecFns;

verus! {

/// The paths of a sequence of files, in order.
pub open spec fn paths_of(fs: Seq<FileView>) -> Seq<Seq<char>> {
    fs.map_values(|f: FileView| f.path)
}

/// The paths of `files`, in order, one line of output each.
pub fn display(files: &[MyFile]) -> (r: Vec<String>)
    ensures
        words(r@) == paths_of(views(files@)),
{
    let mut res: Vec<String> = Vec::new();
    let mut i: usize = 0;
    while i < files.len()
        invariant
            0 <= i <= files@.len(),
            words(res@) == paths_of(views(files@)).subrange(0, i as int),
        decreases files@.len() - i,
    {
        let ghost before = res@;
        res.push(files[i].path.clone());
        assert(words(res@) =~= words(before).push(files@[i as int].path@));
        assert(paths_of(views(files@)).subrange(0, i + 1) =~= paths_of(views(files@)).subrange(0, i as int).push(files@[i as int].path@));
        i = i + 1;
    }
    assert(paths_of(views(files@)).subrange(0, files@.len() as int) =~= paths_of(views(files@)));
    res
}

/// Lines of text, each followed by a line ending.
pub open spec fn rendered(ls: Seq<Seq<char>>) -> Seq<char>
    decreases ls.len(),
{
    if ls.len() == 0 {
        Seq::empty()
    } else {
        rendered(ls.drop_last()) + ls.last() + seq!['\n']
    }
}

/// The text that standard output or the output file receives for `lines`:
/// each line in order, each ending in a newline.
pub fn render(lines: &Vec<String>) -> (r: String)
    ensures
        r@ == rendered(words(lines@)),
{
    let mut out = String::new();
    let mut i: usize = 0;
    while i < lines.len()
        invariant
            0 <= i <= lines@.len(),
            out@ == rendered(words(lines@).subrange(0, i as int)),
        decreases lines@.len() - i,
    {
        proof {
            reveal_strlit("\n");
        }
        assert(words(lines@).subrange(0, i + 1).drop_last() =~= words(lines@).subrange(0, i as int));
        out.append(lines[i].as_str());
        out.append("\n");
        i = i + 1;
    }
    assert(words(lines@).subrange(0, lines@.len() as int) =~= words(lines@));
    out
}

/// An external command to run on the matches: its words, the position of the
/// placeholder among them, and whether all matches go into a single run.
pub struct Dispatch {
    pub template: Vec<String>,
    pub pos: usize,
    pub all: bool,
}

/// What to do with one root's matches.
pub enum RootOutput {
    /// Write these paths, one per line, to the output file or to standard output.
    Lines(Vec<String>),
    /// Spawn these command lines, in order (program first, then its arguments).
    Commands(Vec<Vec<String>>),
}

/// A validated search: the compiled patterns, the size threshold, the optional
/// command, and the batch of the root processed last.
pub struct FindPlan {
    pub patterns: Vec<Pattern>,
    pub min_size: Option<u64>,
    pub dispatch: Option<Dispatch>,
    pub batch: Vec<MyFile>,
}

impl FindPlan {
    /// The placeholder stands within the command template.
    pub open spec fn wf(&self) -> bool {
        self.dispatch matches Some(d) ==> d.pos < d.template@.len()
    }

    /// What `process_root` hands back for a batch: its paths when no command
    /// is set, else the command lines built from them.
    pub open spec fn output_for(&self, batch: Seq<FileView>, out: RootOutput) -> bool {
        match self.dispatch {
            None => out matches RootOutput::Lines(ls) && words(ls@) == paths_of(batch),
            Some(d) => out matches RootOutput::Commands(cs)
                && lines_of(cs@) == commands(words(d.template@), d.pos as int, paths_of(batch), d.all),
        }
    }

    /// Processes one root: the batch is emptied, filled with the matches found
    /// under `tree` in visitation order, and turned into output lines or
    /// command lines. Nothing of an earlier root stays in the batch.
    pub fn process_root(&mut self, tree: &Entry) -> (r: RootOutput)
        requires
            old(self).wf(),
        ensures
            final(self).wf(),
            final(self).patterns == old(self).patterns,
            final(self).min_size == old(self).min_size,
            final(self).dispatch == old(self).dispatch,
            views(final(self).batch@) == batch_of(*tree, final(self).patterns@, final(self).min_size),
            final(self).output_for(views(final(self).batch@), r),
    {
        self.batch.clear();
        assert(views(self.batch@) =~= Seq::<FileView>::empty());
        get_matched_files(&mut self.batch, tree, self.patterns.as_slice(), self.min_size);
        assert(views(self.batch@) =~= batch_of(*tree, self.patterns@, self.min_size));
        let paths = display(self.batch.as_slice());
        match &self.dispatch {
            None => RootOutput::Lines(paths),
            Some(d) => RootOutput::Commands(command_lines(&d.template, d.pos, &paths, d.all)),
        }
    }
}

/// The plan that `FindConfig::plan` makes, when it makes one.
pub open spec fn planned(c: FindConfig, p: FindPlan) -> bool {
    &&& p.patterns@.map_values(|q: Pattern| q@) == compiling(texts(c.patterns@))
    &&& p.min_size == threshold_of(opt_text(c.size))
    &&& p.batch@.len() == 0
    &&& match c.command {
        None => p.dispatch is None,
        Some(e) => {
            &&& p.dispatch is Some
            &&& shell_words(e@) == Some(words(p.dispatch.unwrap().template@))
            &&& p.dispatch.unwrap().all == c.all
            &&& c.replace is Some
            &&& first_at(words(p.dispatch.unwrap().template@), c.replace.unwrap()@, p.dispatch.unwrap().pos as int)
        },
    }
}

impl<'a> FindConfig<'a> {
    /// Validates the search arguments: patterns first, then the command
    /// template and its placeholder. The directories are checked apart, by
    /// `parse_dirs`, since that needs the file system.
    pub fn plan(&self) -> (r: Result<FindPlan, FindError>)
        ensures
            r matches Ok(p) ==> p.wf() && planned(*self, p),
            compiling(texts(self.patterns@)).len() == 0 ==> r == Err::<FindPlan, FindError>(FindError::NoValidPatterns),
            compiling(texts(self.patterns@)).len() > 0 ==> match self.command {
                None => r is Ok,
                Some(e) => match shell_words(e@) {
                    None => r == Err::<FindPlan, FindError>(FindError::BadTemplate),
                    Some(ws) => if self.replace matches Some(ph) && ws.contains(ph@) {
                        r is Ok
                    } else {
                        r == Err::<FindPlan, FindError>(FindError::MissingPlaceholder)
                    },
                },
            },
    {
        let patterns = match self.parse_patterns() {
            Ok(v) => v,
            Err(e) => return Err(e),
        };
        let min_size = self.parse_size();
        let dispatch = match self.parse_exec() {
            Err(e) => return Err(e),
            Ok(None) => None,
            Ok(Some(template)) => match self.parse_replace(&template) {
                Err(e) => return Err(e),
                Ok(pos) => Some(Dispatch { template, pos, all: self.all }),
            },
        };
        Ok(FindPlan { patterns, min_size, dispatch, batch: Vec::new() })
    }
}

/// With `all`, one command runs per root, holding every matched path in
/// visitation order in place of the placeholder; without it, one command runs
/// per matched path, holding that path alone.
pub proof fn lemma_dispatch_shape(ws: Seq<Seq<char>>, pos: int, paths: Seq<Seq<char>>)
    requires
        0 <= pos < ws.len(),
    ensures
        commands(ws, pos, paths, true).len() == 1,
        commands(ws, pos, paths, true)[0] == ws.subrange(0, pos) + paths + ws.subrange(pos + 1, ws.len() as int),
        commands(ws, pos, paths, false).len() == paths.len(),
        forall|i: int| 0 <= i < paths.len() ==> #[trigger] commands(ws, pos, paths, false)[i]
            == ws.subrange(0, pos) + seq![paths[i]] + ws.subrange(pos + 1, ws.len() as int),
{
}

} // verus!
