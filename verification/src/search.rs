//! The matcher: which files of a tree qualify as results for a pattern.
//!
//! A file qualifies by its stem, or failing that by its content. The stem is
//! always asked first and a stem match settles the file without its content
//! being looked at. Results keep the order in which the files were offered.

use crate::pattern::content_matches;
use crate::pattern::pattern_is_valid;
use crate::pattern::pattern_matches;
use crate::pattern::Pattern;
use crate::pattern::PatternError;
use std::path::PathBuf;
use vstd::prelude::*;
use vstd::utf8::encode_utf8;

verus! {

/// An owned filesystem path, carried as an opaque value.
#[verifier::external_type_specification]
#[verifier::external_body]
pub struct ExPathBuf(PathBuf);

/// The stem of the file name that `path` ends in, as text: the name without
/// its extension. `None` where the path has no file name, or the stem is not
/// text.
pub uninterp spec fn path_stem(path: PathBuf) -> Option<Seq<char>>;

/// Calls `Path::file_stem` and decodes the stem with `to_str`. Trusted: the
/// answer is [`path_stem`] of the path.
#[verifier::external_body]
fn decoded_file_stem(path: &PathBuf) -> (stem: Option<String>)
    ensures
        stem is Some <==> path_stem(*path) is Some,
        stem matches Some(text) ==> path_stem(*path) == Some(text@),
{
    path.file_stem().and_then(|stem| stem.to_str()).map(|stem| stem.to_owned())
}

/// A file that a search found: its path, and the file stem it is shown by.
#[derive(Debug)]
pub struct SearchResult {
    path: PathBuf,
    stem: Option<String>,
}

impl SearchResult {
    /// The path of the file.
    pub closed spec fn location(self) -> PathBuf {
        self.path
    }

    /// The stem of the file's name, where it has one that is text.
    pub closed spec fn label(self) -> Option<Seq<char>> {
        match self.stem {
            Some(stem) => Some(stem@),
            None => None,
        }
    }

    /// A result for the file at `path`, labelled with the stem of its name.
    pub fn new(path: PathBuf) -> (result: SearchResult)
        ensures
            result.location() == path,
            result.label() == path_stem(path),
    {
        let stem = decoded_file_stem(&path);
        SearchResult::with_stem(path, stem)
    }

    /// A result for the file at `path` that is shown by `stem`; `None` for a
    /// file whose name has no stem that is text.
    pub fn with_stem(path: PathBuf, stem: Option<String>) -> (result: SearchResult)
        ensures
            result.location() == path,
            result.label() == (match stem {
                Some(text) => Some(text@),
                None => None,
            }),
    {
        SearchResult { path, stem }
    }

    /// The file's name without its extension, or `None` where the name has
    /// no stem or the stem is not text.
    pub fn file_stem(&self) -> (stem: Option<&str>)
        ensures
            stem is Some <==> self.label() is Some,
            stem matches Some(text) ==> self.label() == Some(text@),
    {
        match &self.stem {
            Some(stem) => Some(stem.as_str()),
            None => None,
        }
    }

    /// Gives up the result for the path of its file.
    pub fn path(self) -> (path: PathBuf)
        ensures
            path == self.location(),
    {
        self.path
    }
}

/// No two of the results are for the same path.
pub open spec fn distinct_paths(results: Seq<SearchResult>) -> bool {
    forall|i: int, j: int|
        0 <= i < j < results.len() ==> (#[trigger] results[i]).location()
            != (#[trigger] results[j]).location()
}

/// A file of the tree as the matcher sees it: the entry under which it would
/// be listed, and its bytes where they could be read.
#[derive(Debug)]
pub struct NoteFile {
    pub entry: SearchResult,
    pub content: Option<Vec<u8>>,
}

/// The pattern matches the stem `label`. A file without a stem never
/// qualifies by it.
pub open spec fn stem_matches(pattern: Seq<char>, label: Option<Seq<char>>) -> bool {
    label matches Some(stem) && pattern_matches(pattern, encode_utf8(stem))
}

/// `file` is a result for `pattern`: its stem matches, or its content could
/// be read and holds a match.
pub open spec fn qualifies(pattern: Seq<char>, file: NoteFile) -> bool {
    stem_matches(pattern, file.entry.label()) || (file.content matches Some(bytes)
        && content_matches(pattern, bytes@))
}

/// The entries of the files that qualify, in the order of `files`.
pub open spec fn matching(pattern: Seq<char>, files: Seq<NoteFile>) -> Seq<SearchResult>
    decreases files.len(),
{
    if files.len() == 0 {
        Seq::empty()
    } else if qualifies(pattern, files.last()) {
        matching(pattern, files.drop_last()).push(files.last().entry)
    } else {
        matching(pattern, files.drop_last())
    }
}

/// One pass of the matcher over a tree, fed one file at a time.
///
/// Each file is first offered by its entry alone. Where the stem does not
/// settle it, the pass waits for the file's content, or for word that it
/// cannot be read.
pub struct SearchPass {
    pattern: Pattern,
    results: Vec<SearchResult>,
    pending: Option<SearchResult>,
}

impl SearchPass {
    /// The text of the pattern that the pass searches for.
    pub closed spec fn pattern(self) -> Seq<char> {
        self.pattern@
    }

    /// The results collected so far.
    pub closed spec fn collected(self) -> Seq<SearchResult> {
        self.results@
    }

    /// The entry whose content the pass is waiting for.
    pub closed spec fn awaiting(self) -> Option<SearchResult> {
        self.pending
    }

    /// Starts a pass for `pattern`, with nothing collected. Fails exactly
    /// where the pattern is malformed.
    pub fn new(pattern: &str) -> (r: Result<SearchPass, PatternError>)
        ensures
            r is Ok <==> pattern_is_valid(pattern@),
            pattern@.len() == 0 ==> r is Ok,
            r matches Ok(pass) ==> {
                &&& pass.pattern() == pattern@
                &&& pass.collected() == Seq::<SearchResult>::empty()
                &&& pass.awaiting() is None
            },
    {
        match Pattern::new(pattern) {
            Ok(pattern) => Ok(SearchPass { pattern, results: Vec::new(), pending: None }),
            Err(error) => Err(error),
        }
    }

    /// Offers the next file. Where its stem matches, the file is collected
    /// and the answer is `false`. Otherwise the answer is `true`: the file
    /// waits for its content. A file that was still waiting is dropped.
    pub fn offer(&mut self, candidate: SearchResult) -> (needs_content: bool)
        ensures
            final(self).pattern() == old(self).pattern(),
            needs_content == !stem_matches(old(self).pattern(), candidate.label()),
            !needs_content ==> {
                &&& final(self).collected() == old(self).collected().push(candidate)
                &&& final(self).awaiting() is None
            },
            needs_content ==> {
                &&& final(self).collected() == old(self).collected()
                &&& final(self).awaiting() == Some(candidate)
            },
    {
        let by_stem = match candidate.file_stem() {
            Some(stem) => self.pattern.is_match(stem.as_bytes()),
            None => false,
        };
        if by_stem {
            self.results.push(candidate);
            self.pending = None;
        } else {
            self.pending = Some(candidate);
        }
        !by_stem
    }

    /// Hands over the content of the file that waits. The file is collected
    /// where some line of the content matches. Without a waiting file
    /// nothing changes.
    pub fn content(&mut self, content: &[u8])
        ensures
            final(self).pattern() == old(self).pattern(),
            final(self).awaiting() is None,
            final(self).collected() == (match old(self).awaiting() {
                Some(candidate) if content_matches(old(self).pattern(), content@) => old(self)
                    .collected().push(candidate),
                _ => old(self).collected(),
            }),
    {
        match self.pending.take() {
            Some(candidate) => {
                if self.pattern.matches_content(content) {
                    self.results.push(candidate);
                }
            },
            None => {},
        }
    }

    /// Reports that the file that waits cannot be read: it is left out.
    pub fn unreadable(&mut self)
        ensures
            final(self).pattern() == old(self).pattern(),
            final(self).awaiting() is None,
            final(self).collected() == old(self).collected(),
    {
        self.pending = None;
    }

    /// The path of the file whose content the pass is waiting for.
    pub fn awaited_path(&self) -> (path: Option<&PathBuf>)
        ensures
            path is Some <==> self.awaiting() is Some,
            path matches Some(p) ==> self.awaiting() matches Some(candidate) && *p
                == candidate.location(),
    {
        match &self.pending {
            Some(candidate) => Some(&candidate.path),
            None => None,
        }
    }

    /// Ends the pass and gives the results, in the order the files came.
    pub fn finish(self) -> (results: Vec<SearchResult>)
        ensures
            results@ == self.collected(),
    {
        self.results
    }
}

/// Runs the matcher over `files`: the entries of those that qualify for
/// `pattern`, in the order given. An empty pattern lists every file that has
/// a stem. A malformed pattern fails the whole search.
pub fn search_for_files(files: Vec<NoteFile>, pattern: &str) -> (r: Result<
    Vec<SearchResult>,
    PatternError,
>)
    ensures
        r is Ok <==> pattern_is_valid(pattern@),
        pattern@.len() == 0 ==> r is Ok,
        r matches Ok(results) ==> results@ == matching(pattern@, files@),
        r matches Ok(results) ==> (distinct_paths(entries(files@)) ==> distinct_paths(results@)),
{
    let mut pass = match SearchPass::new(pattern) {
        Ok(pass) => pass,
        Err(error) => {
            return Err(error);
        },
    };
    let ghost all = files@;
    for file in iter: files
        invariant
            iter.seq() == all,
            pass.pattern() == pattern@,
            pass.collected() == matching(pattern@, all.take(iter.index() as int)),
    {
        let ghost seen = all.take(iter.index() as int + 1);
        assert(seen.drop_last() == all.take(iter.index() as int));
        assert(seen.last() == file);
        let NoteFile { entry, content } = file;
        if pass.offer(entry) {
            match content {
                Some(bytes) => pass.content(bytes.as_slice()),
                None => pass.unreadable(),
            }
        }
    }
    assert(all.take(all.len() as int) == all);
    proof {
        if distinct_paths(entries(all)) {
            lemma_results_hold_no_path_twice(pattern@, all);
        }
    }
    Ok(pass.finish())
}

/// The entries of `files`, each file taken whatever it holds.
pub open spec fn entries(files: Seq<NoteFile>) -> Seq<SearchResult> {
    files.map_values(|file: NoteFile| file.entry)
}

/// A file that qualifies is among the results.
pub proof fn lemma_qualifying_file_is_listed(pattern: Seq<char>, files: Seq<NoteFile>, i: int)
    requires
        0 <= i < files.len(),
        qualifies(pattern, files[i]),
    ensures
        matching(pattern, files).contains(files[i].entry),
    decreases files.len(),
{
    let earlier = matching(pattern, files.drop_last());
    if i == files.len() - 1 {
        assert(earlier.push(files.last().entry).last() == files[i].entry);
    } else {
        lemma_qualifying_file_is_listed(pattern, files.drop_last(), i);
        let k = choose|k: int| 0 <= k < earlier.len() && earlier[k] == files[i].entry;
        if qualifies(pattern, files.last()) {
            assert(earlier.push(files.last().entry)[k] == files[i].entry);
        }
    }
}

/// A file whose stem matches the pattern is among the results, whatever
/// its content holds and whether or not it can be read.
pub proof fn lemma_stem_match_is_listed(pattern: Seq<char>, files: Seq<NoteFile>, i: int)
    requires
        0 <= i < files.len(),
        stem_matches(pattern, files[i].entry.label()),
    ensures
        matching(pattern, files).contains(files[i].entry),
{
    lemma_qualifying_file_is_listed(pattern, files, i);
}

/// Every result is the entry of a file that qualifies, and results come in
/// the order of their files.
pub proof fn lemma_results_come_from_qualifying_files(pattern: Seq<char>, files: Seq<NoteFile>)
    ensures
        matching(pattern, files).len() <= files.len(),
        forall|k: int|
            0 <= k < matching(pattern, files).len() ==> exists|i: int|
                k <= i < files.len() && qualifies(pattern, files[i]) && files[i].entry
                    == #[trigger] matching(pattern, files)[k],
    decreases files.len(),
{
    if files.len() > 0 {
        let earlier = files.drop_last();
        lemma_results_come_from_qualifying_files(pattern, earlier);
        assert forall|k: int| 0 <= k < matching(pattern, files).len() implies exists|i: int|
            k <= i < files.len() && qualifies(pattern, files[i]) && files[i].entry
                == #[trigger] matching(pattern, files)[k] by {
            if k < matching(pattern, earlier).len() {
                let i = choose|i: int|
                    k <= i < earlier.len() && qualifies(pattern, earlier[i]) && earlier[i].entry
                        == matching(pattern, earlier)[k];
                assert(files[i] == earlier[i]);
            } else {
                let i = files.len() - 1;
                assert(files[i].entry == matching(pattern, files)[k]);
            }
        }
    }
}

/// Results stand in the order of their files: of two files that qualify,
/// the entry of the earlier one comes first.
pub proof fn lemma_results_keep_file_order(
    pattern: Seq<char>,
    files: Seq<NoteFile>,
    i: int,
    j: int,
)
    requires
        0 <= i < j < files.len(),
        qualifies(pattern, files[i]),
        qualifies(pattern, files[j]),
    ensures
        exists|k: int, l: int|
            0 <= k < l < matching(pattern, files).len() && #[trigger] matching(pattern, files)[k]
                == files[i].entry && #[trigger] matching(pattern, files)[l] == files[j].entry,
    decreases files.len(),
{
    let earlier = matching(pattern, files.drop_last());
    if j == files.len() - 1 {
        lemma_qualifying_file_is_listed(pattern, files.drop_last(), i);
        let k = choose|k: int| 0 <= k < earlier.len() && earlier[k] == files[i].entry;
        let l = earlier.len() as int;
        assert(matching(pattern, files)[k] == files[i].entry);
        assert(matching(pattern, files)[l] == files[j].entry);
    } else {
        lemma_results_keep_file_order(pattern, files.drop_last(), i, j);
        let (k, l) = choose|k: int, l: int|
            0 <= k < l < earlier.len() && #[trigger] earlier[k] == files[i].entry
                && #[trigger] earlier[l] == files[j].entry;
        assert(matching(pattern, files)[k] == files[i].entry);
        assert(matching(pattern, files)[l] == files[j].entry);
    }
}

/// Where no two files of the tree have the same path, no two results have:
/// a path occurs at most once in the results of a search.
pub proof fn lemma_results_hold_no_path_twice(pattern: Seq<char>, files: Seq<NoteFile>)
    requires
        distinct_paths(entries(files)),
    ensures
        distinct_paths(matching(pattern, files)),
    decreases files.len(),
{
    if files.len() > 0 {
        let earlier = files.drop_last();
        assert forall|i: int, j: int| 0 <= i < j < entries(earlier).len() implies (#[trigger] entries(
            earlier,
        )[i]).location() != (#[trigger] entries(earlier)[j]).location() by {
            assert(entries(earlier)[i] == entries(files)[i]);
            assert(entries(earlier)[j] == entries(files)[j]);
        }
        lemma_results_hold_no_path_twice(pattern, earlier);
        lemma_results_come_from_qualifying_files(pattern, earlier);
        let found = matching(pattern, files);
        assert forall|k: int, l: int| 0 <= k < l < found.len() implies (#[trigger] found[k]).location()
            != (#[trigger] found[l]).location() by {
            if l < matching(pattern, earlier).len() {
                assert(found[k] == matching(pattern, earlier)[k]);
                assert(found[l] == matching(pattern, earlier)[l]);
            } else {
                let i = choose|i: int|
                    k <= i < earlier.len() && qualifies(pattern, earlier[i]) && earlier[i].entry
                        == matching(pattern, earlier)[k];
                assert(found[k] == entries(files)[i]);
                assert(found[l] == entries(files)[files.len() - 1]);
            }
        }
    }
}

/// With the empty pattern every file that has a stem is a result. So the
/// results are the whole tree, in its order, unless some file has neither a
/// stem nor content in which the empty pattern is found.
pub proof fn lemma_empty_pattern_lists_all(pattern: Seq<char>, files: Seq<NoteFile>)
    requires
        pattern.len() == 0,
        forall|i: int|
            0 <= i < files.len() && (#[trigger] files[i]).entry.label() is None ==> (
            files[i].content matches Some(bytes) && content_matches(pattern, bytes@)),
    ensures
        matching(pattern, files) == entries(files),
        forall|i: int| 0 <= i < files.len() ==> qualifies(pattern, #[trigger] files[i]),
    decreases files.len(),
{
    if files.len() > 0 {
        lemma_empty_pattern_lists_all(pattern, files.drop_last());
        assert(files.drop_last().push(files.last()) == files);
        assert(entries(files.drop_last()).push(files.last().entry) == entries(files));
        assert(qualifies(pattern, files[files.len() - 1]));
        assert forall|i: int| 0 <= i < files.len() implies qualifies(
            pattern,
            #[trigger] files[i],
        ) by {
            if i < files.len() - 1 {
                assert(files.drop_last()[i] == files[i]);
            }
        }
    }
    assert(matching(pattern, files) == entries(files));
}

} // verus!
