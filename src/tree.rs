use vstd::prelude::*;
use crate::matcher::{Pattern, matches_any, matches_any_of};
use crate::size::{admits, admits_spec};

verus! {

/// A regular file found during traversal.
pub struct MyFile {
    pub name: String,
    pub path: String,
    pub size_bytes: u64,
}

/// The plain values that a `MyFile` holds.
pub ghost struct FileView {
    pub name: Seq<char>,
    pub path: Seq<char>,
    pub size_bytes: u64,
}

impl View for MyFile {
    type V = FileView;

    open spec fn view(&self) -> FileView {
        FileView { name: self.name@, path: self.path@, size_bytes: self.size_bytes }
    }
}

#[verifier::external_type_specification]
#[verifier::external_body]
pub struct ExPathBuf(std::path::PathBuf);

/// The final component of the path written `p`, as `Path::file_name` gives
/// it: `None` when the path ends in `..`, or is a root or a prefix alone.
pub uninterp spec fn file_name_of(p: Seq<char>) -> Option<Seq<char>>;

/// Relies on `Path::file_name`: the final component of the path written `p`
/// (a component of a `str` is valid Unicode, so `to_str` keeps all of it).
#[verifier::external_body]
fn file_name_in(p: &str) -> (r: Option<String>)
    ensures
        r matches Some(n) ==> file_name_of(p@) == Some(n@),
        r is None ==> file_name_of(p@) is None,
{
    std::path::Path::new(p).file_name().and_then(|n| n.to_str()).map(|n| n.to_string())
}

/// Relies on `Path::to_str`: the whole path, when it is valid Unicode.
#[verifier::external_body]
fn path_text(path: &std::path::PathBuf) -> (r: Option<String>) {
    path.to_str().map(|p| p.to_string())
}

/// Relies on `Path::metadata` and `Metadata::len`: the size in bytes that the
/// file system reports now, following symbolic links; `None` when it cannot
/// be read.
#[verifier::external_body]
fn metadata_len(path: &std::path::PathBuf) -> (r: Option<u64>) {
    path.metadata().ok().map(|m| m.len())
}

/// Why a file record could not be made.
#[derive(PartialEq, Eq, Structural, Debug, Clone, Copy)]
pub enum FileError {
    NoFileName,
    PathNotUnicode,
    MetadataUnavailable,
}

impl FileError {
    /// A one-line description of the error.
    pub fn message(&self) -> (r: &'static str)
        ensures
            *self == FileError::NoFileName ==> r@ == "Couldn't parse filename"@,
            *self == FileError::PathNotUnicode ==> r@ == "Could not convert path to str"@,
            *self == FileError::MetadataUnavailable ==> r@ == "Could not fetch metadata"@,
    {
        match self {
            FileError::NoFileName => "Couldn't parse filename",
            FileError::PathNotUnicode => "Could not convert path to str",
            FileError::MetadataUnavailable => "Could not fetch metadata",
        }
    }
}

impl MyFile {
    /// Makes the record of the file whose path reads `path` and whose size,
    /// as read from its metadata, is `size_bytes`: its name is the final
    /// component of the path. Fails when the path has none, or when the
    /// metadata could not be read.
    pub fn from_text(path: String, size_bytes: Option<u64>) -> (r: Result<MyFile, FileError>)
        ensures
            file_name_of(path@) is None ==> r == Err::<MyFile, FileError>(FileError::NoFileName),
            file_name_of(path@) is Some && size_bytes is None
                ==> r == Err::<MyFile, FileError>(FileError::MetadataUnavailable),
            file_name_of(path@) is Some && size_bytes is Some ==> (r matches Ok(f) && f@ == (FileView {
                name: file_name_of(path@).unwrap(),
                path: path@,
                size_bytes: size_bytes.unwrap(),
            })),
    {
        match file_name_in(path.as_str()) {
            None => Err(FileError::NoFileName),
            Some(name) => match size_bytes {
                None => Err(FileError::MetadataUnavailable),
                Some(size_bytes) => Ok(MyFile { name, path, size_bytes }),
            },
        }
    }

    /// Reads the record of the file at `path`: its path as text, its name (the
    /// final component of that text) and its size from the file system. Fails
    /// when the path is not valid Unicode, has no final component, or its
    /// metadata cannot be read; the metadata is read only when the first two
    /// succeed.
    pub fn from_path(path: &std::path::PathBuf) -> (r: Result<MyFile, FileError>)
        ensures
            r matches Ok(f) ==> file_name_of(f.path@) == Some(f.name@),
    {
        match path_text(path) {
            None => Err(FileError::PathNotUnicode),
            Some(text) => {
                if file_name_in(text.as_str()).is_none() {
                    return Err(FileError::NoFileName);
                }
                let size_bytes = metadata_len(path);
                MyFile::from_text(text, size_bytes)
            },
        }
    }

    /// A copy holding the same name, path and size.
    pub fn duplicate(&self) -> (r: MyFile)
        ensures
            r@ == self@,
    {
        MyFile { name: self.name.clone(), path: self.path.clone(), size_bytes: self.size_bytes }
    }
}

/// One entry of a directory tree, as it was listed from the file system.
pub enum Entry {
    /// A regular file whose name, path and size could be read.
    File(MyFile),
    /// A readable directory with its entries in listing order.
    Dir(Vec<Entry>),
    /// An entry that is neither, or whose directory or metadata could not be read.
    Skipped,
}

/// The views of a sequence of files.
pub open spec fn views(fs: Seq<MyFile>) -> Seq<FileView> {
    fs.map_values(|f: MyFile| f@)
}

/// Whether a file is reported: it passes the size threshold and its path
/// matches one of the patterns.
pub open spec fn selects(pats: Seq<Pattern>, t: Option<u64>, f: FileView) -> bool {
    admits_spec(t, f.size_bytes) && matches_any(pats, f.path)
}

/// The files of the tree under `e` that are reported, in visitation order.
pub open spec fn batch_of(e: Entry, pats: Seq<Pattern>, t: Option<u64>) -> Seq<FileView>
    decreases e,
{
    match e {
        Entry::File(f) => if selects(pats, t, f@) { seq![f@] } else { Seq::empty() },
        Entry::Dir(children) => batch_of_list(children@, pats, t),
        Entry::Skipped => Seq::empty(),
    }
}

/// The reported files of a sequence of sibling entries, in order.
pub open spec fn batch_of_list(es: Seq<Entry>, pats: Seq<Pattern>, t: Option<u64>) -> Seq<FileView>
    decreases es,
{
    if es.len() == 0 {
        Seq::empty()
    } else {
        batch_of_list(es.drop_last(), pats, t) + batch_of(es.last(), pats, t)
    }
}

/// Every regular file under `e`, in visitation order.
pub open spec fn files_of(e: Entry) -> Seq<FileView>
    decreases e,
{
    match e {
        Entry::File(f) => seq![f@],
        Entry::Dir(children) => files_of_list(children@),
        Entry::Skipped => Seq::empty(),
    }
}

/// Every regular file under a sequence of sibling entries, in order.
pub open spec fn files_of_list(es: Seq<Entry>) -> Seq<FileView>
    decreases es,
{
    if es.len() == 0 {
        Seq::empty()
    } else {
        files_of_list(es.drop_last()) + files_of(es.last())
    }
}

/// The batch of a tree is exactly its regular files that pass the size
/// threshold and match a pattern, each once, in visitation order.
pub proof fn lemma_batch_is_selected_files(e: Entry, pats: Seq<Pattern>, t: Option<u64>)
    ensures
        batch_of(e, pats, t) == files_of(e).filter(|f: FileView| selects(pats, t, f)),
    decreases e,
{
    let pred = |f: FileView| selects(pats, t, f);
    match e {
        Entry::File(f) => {
            reveal_with_fuel(Seq::filter, 2);
            assert(seq![f@].drop_last() =~= Seq::<FileView>::empty());
            assert(files_of(e).filter(pred) =~= batch_of(e, pats, t));
        },
        Entry::Dir(children) => {
            lemma_list_batch_is_selected_files(children@, pats, t);
        },
        Entry::Skipped => {
            assert(files_of(e).filter(pred) =~= Seq::<FileView>::empty());
        },
    }
}

/// The list form of `lemma_batch_is_selected_files`.
proof fn lemma_list_batch_is_selected_files(es: Seq<Entry>, pats: Seq<Pattern>, t: Option<u64>)
    ensures
        batch_of_list(es, pats, t) == files_of_list(es).filter(|f: FileView| selects(pats, t, f)),
    decreases es,
{
    let pred = |f: FileView| selects(pats, t, f);
    if es.len() == 0 {
        assert(files_of_list(es).filter(pred) =~= Seq::<FileView>::empty());
    } else {
        lemma_list_batch_is_selected_files(es.drop_last(), pats, t);
        lemma_batch_is_selected_files(es.last(), pats, t);
        Seq::filter_distributes_over_add(files_of_list(es.drop_last()), files_of(es.last()), pred);
    }
}

/// With a threshold `t`, every file of a batch is strictly larger than `t`;
/// a file of exactly `t` bytes is never reported.
pub proof fn lemma_batch_above_threshold(e: Entry, pats: Seq<Pattern>, t: u64)
    ensures
        forall|i: int| 0 <= i < batch_of(e, pats, Some(t)).len()
            ==> #[trigger] batch_of(e, pats, Some(t))[i].size_bytes > t,
{
    let pred = |f: FileView| selects(pats, Some(t), f);
    lemma_batch_is_selected_files(e, pats, Some(t));
    assert forall|i: int| 0 <= i < batch_of(e, pats, Some(t)).len()
        implies #[trigger] batch_of(e, pats, Some(t))[i].size_bytes > t by {
        files_of(e).lemma_filter_pred(pred, i);
    }
}

/// No two files of `fs` have the same path, as in any listing of a directory
/// tree on disk.
pub open spec fn distinct_paths(fs: Seq<FileView>) -> bool {
    forall|a: int, b: int| 0 <= a < b < fs.len() ==> #[trigger] fs[a].path != #[trigger] fs[b].path
}

/// Keeping some files of a listing keeps their paths distinct.
proof fn lemma_filter_keeps_paths_distinct(fs: Seq<FileView>, pred: spec_fn(FileView) -> bool)
    requires
        distinct_paths(fs),
    ensures
        distinct_paths(fs.filter(pred)),
    decreases fs.len(),
{
    reveal(Seq::filter);
    if fs.len() > 0 {
        let rest = fs.drop_last();
        assert(distinct_paths(rest));
        lemma_filter_keeps_paths_distinct(rest, pred);
        if pred(fs.last()) {
            let kept = rest.filter(pred);
            assert(fs.filter(pred) == kept.push(fs.last()));
            assert forall|a: int| 0 <= a < kept.len() implies kept[a].path != fs.last().path by {
                rest.lemma_filter_contains_rev(pred, kept[a]);
                assert(kept.contains(kept[a]));
                let j = choose|j: int| 0 <= j < rest.len() && rest[j] == kept[a];
                assert(fs[j] == rest[j]);
                assert(fs[j].path != fs[fs.len() - 1].path);
            }
            assert forall|a: int, b: int| 0 <= a < b < fs.filter(pred).len() implies
                #[trigger] fs.filter(pred)[a].path != #[trigger] fs.filter(pred)[b].path by {
                if b < kept.len() {
                    assert(fs.filter(pred)[a] == kept[a] && fs.filter(pred)[b] == kept[b]);
                } else {
                    assert(fs.filter(pred)[a] == kept[a]);
                }
            }
        } else {
            assert(fs.filter(pred) == rest.filter(pred));
        }
    }
}

/// Where the files under `e` have distinct paths and a threshold `t` is set,
/// a file of `t` bytes or less under `e` is never reported: no file of the
/// batch carries its path.
pub proof fn lemma_small_file_not_reported(e: Entry, pats: Seq<Pattern>, t: u64, k: int)
    requires
        distinct_paths(files_of(e)),
        0 <= k < files_of(e).len(),
        files_of(e)[k].size_bytes <= t,
    ensures
        forall|i: int| 0 <= i < batch_of(e, pats, Some(t)).len()
            ==> #[trigger] batch_of(e, pats, Some(t))[i].path != files_of(e)[k].path,
{
    let fs = files_of(e);
    let pred = |f: FileView| selects(pats, Some(t), f);
    lemma_batch_is_selected_files(e, pats, Some(t));
    assert forall|i: int| 0 <= i < batch_of(e, pats, Some(t)).len()
        implies #[trigger] batch_of(e, pats, Some(t))[i].path != fs[k].path by {
        let g = fs.filter(pred)[i];
        fs.lemma_filter_pred(pred, i);
        fs.lemma_filter_contains_rev(pred, g);
        let j = choose|j: int| 0 <= j < fs.len() && fs[j] == g;
        if g.path == fs[k].path {
            if j < k {
                assert(fs[j].path != fs[k].path);
            } else if k < j {
                assert(fs[k].path != fs[j].path);
            }
        }
    }
}

/// Where the files under `e` have distinct paths, each of them that passes
/// the threshold and matches a pattern is reported exactly once: one record
/// of the batch, and only one, carries its path.
pub proof fn lemma_selected_file_reported_once(e: Entry, pats: Seq<Pattern>, t: Option<u64>, k: int)
    requires
        distinct_paths(files_of(e)),
        0 <= k < files_of(e).len(),
        selects(pats, t, files_of(e)[k]),
    ensures
        exists|i: int| #![trigger batch_of(e, pats, t)[i]]
            0 <= i < batch_of(e, pats, t).len()
            && batch_of(e, pats, t)[i] == files_of(e)[k]
            && forall|j: int| 0 <= j < batch_of(e, pats, t).len()
                && #[trigger] batch_of(e, pats, t)[j].path == files_of(e)[k].path ==> j == i,
{
    let fs = files_of(e);
    let pred = |f: FileView| selects(pats, t, f);
    lemma_batch_is_selected_files(e, pats, t);
    let b = fs.filter(pred);
    fs.lemma_filter_contains(pred, k);
    let i = choose|i: int| 0 <= i < b.len() && b[i] == fs[k];
    lemma_filter_keeps_paths_distinct(fs, pred);
    assert forall|j: int| 0 <= j < b.len() && #[trigger] b[j].path == fs[k].path implies j == i by {
        if j < i {
            assert(b[j].path != b[i].path);
        } else if i < j {
            assert(b[i].path != b[j].path);
        }
    }
}

/// Appends to `files` every file under `dir` whose size passes `size` and whose
/// path matches one of `pats`, in visitation order.
pub fn get_matched_files(files: &mut Vec<MyFile>, dir: &Entry, pats: &[Pattern], size: Option<u64>)
    ensures
        views(final(files)@) == views(old(files)@) + batch_of(*dir, pats@, size),
    decreases dir,
{
    match dir {
        Entry::File(f) => {
            if admits(size, f.size_bytes) && matches_any_of(pats, f.path.as_str()) {
                files.push(f.duplicate());
                assert(views(final(files)@) =~= views(old(files)@) + batch_of(*dir, pats@, size));
            } else {
                assert(views(final(files)@) =~= views(old(files)@) + batch_of(*dir, pats@, size));
            }
        },
        Entry::Dir(children) => {
            let mut i: usize = 0;
            while i < children.len()
                invariant
                    0 <= i <= children@.len(),
                    *dir is Dir,
                    dir->Dir_0 == *children,
                    views(files@) == views(old(files)@) + batch_of_list(children@.subrange(0, i as int), pats@, size),
                decreases children@.len() - i,
            {
                let ghost before = files@;
                proof {
                    vstd::std_specs::vec::axiom_vec_index_decreases(*children, i as int);
                    assert(decreases_to!(*dir => dir->Dir_0));
                    assert(decreases_to!(*dir => children@[i as int]));
                }
                get_matched_files(files, &children[i], pats, size);
                assert(children@.subrange(0, i + 1).drop_last() == children@.subrange(0, i as int));
                assert(views(files@) =~= views(before) + batch_of(children@[i as int], pats@, size));
                i = i + 1;
            }
            assert(children@.subrange(0, children@.len() as int) == children@);
        },
        Entry::Skipped => {
            assert(views(final(files)@) =~= views(old(files)@));
        },
    }
}

} // verus!
