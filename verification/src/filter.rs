//! The filter: three mappings, and the decision to skip a file or a case.

use crate::diff::{
    lemma_map_diff_is_symmetric, lemma_map_diff_of_self_is_empty, map_diff, map_diff_spec,
};
use crate::listing::{contains_name, FilterMap};
use crate::path::PathWrapper;
use crate::pattern::{
    any_pattern_matches, find_match, pattern_matches, patterns_usable, stops_at,
};
use vstd::pervasive::unreached;
use vstd::prelude::*;
use vstd::seq_lib::lemma_multiset_commutative;

verus! {

/// `name` is listed under `folder`.
pub open spec fn listed(
    skips: Map<Seq<char>, Seq<Seq<char>>>,
    folder: Seq<char>,
    name: Seq<char>,
) -> bool {
    skips.contains_key(folder) && skips[folder].contains(name)
}

/// A pattern of a filter that the `regex` crate does not compile.
#[derive(Debug)]
pub struct PatternError {
    /// The folder under which the pattern is listed.
    pub folder: String,
    /// The position of the pattern in the folder's list.
    pub position: usize,
    /// The pattern.
    pub pattern: String,
}

/// The files, file name patterns and named cases to leave out, by folder.
#[derive(Debug)]
pub struct Filter {
    filename: FilterMap,
    regex: FilterMap,
    test_name: FilterMap,
}

impl Filter {
    /// By folder, the files to skip.
    pub closed spec fn filename_skips(&self) -> FilterMap {
        self.filename
    }

    /// By folder, the patterns of the file names to skip.
    pub closed spec fn regex_skips(&self) -> FilterMap {
        self.regex
    }

    /// By folder, the named cases to skip.
    pub closed spec fn test_name_skips(&self) -> FilterMap {
        self.test_name
    }

    /// The three mappings are well-formed.
    #[verifier::type_invariant]
    pub open spec fn wf(&self) -> bool {
        &&& self.filename_skips().wf()
        &&& self.regex_skips().wf()
        &&& self.test_name_skips().wf()
    }

    /// The file is listed under its folder.
    pub open spec fn skips_by_filename(&self, path: &PathWrapper) -> bool {
        listed(self.filename_skips()@, path.dir_name@, path.file_name@)
    }

    /// A pattern listed under the file's folder matches the file's name.
    pub open spec fn skips_by_regex(&self, path: &PathWrapper) -> bool {
        &&& self.regex_skips()@.contains_key(path.dir_name@)
        &&& any_pattern_matches(self.regex_skips()@[path.dir_name@], path.file_name@)
    }

    /// A case is named, and it is listed under the file's folder.
    pub open spec fn skips_by_test_name(
        &self,
        path: &PathWrapper,
        case_name: Option<Seq<char>>,
    ) -> bool {
        match case_name {
            Some(name) => listed(self.test_name_skips()@, path.dir_name@, name),
            None => false,
        }
    }

    /// The file, or the named case in it, is to be skipped.
    pub open spec fn skips(&self, path: &PathWrapper, case_name: Option<Seq<char>>) -> bool {
        ||| self.skips_by_filename(path)
        ||| self.skips_by_regex(path)
        ||| self.skips_by_test_name(path, case_name)
    }

    /// Every pattern that the search for `path` comes to compiles.
    pub open spec fn patterns_compile(&self, path: &PathWrapper) -> bool {
        self.regex_skips()@.contains_key(path.dir_name@) ==> patterns_usable(
            self.regex_skips()@[path.dir_name@],
            path.file_name@,
        )
    }

    /// The folders on which two filters disagree: those of the files, then
    /// those of the patterns, then those of the named cases.
    pub open spec fn diff_spec(&self, rhs: Filter) -> Seq<Seq<char>> {
        map_diff_spec(self.filename_skips(), rhs.filename_skips()) + map_diff_spec(
            self.regex_skips(),
            rhs.regex_skips(),
        ) + map_diff_spec(self.test_name_skips(), rhs.test_name_skips())
    }

    /// A filter of the three mappings.
    pub fn new(filename: FilterMap, regex: FilterMap, test_name: FilterMap) -> (filter: Self)
        ensures
            filter.filename_skips() == filename,
            filter.regex_skips() == regex,
            filter.test_name_skips() == test_name,
    {
        proof {
            use_type_invariant(&filename);
            use_type_invariant(&regex);
            use_type_invariant(&test_name);
        }
        Filter { filename, regex, test_name }
    }

    /// By folder, the files to skip.
    pub fn filename(&self) -> (skips: &FilterMap)
        ensures
            *skips == self.filename_skips(),
    {
        &self.filename
    }

    /// By folder, the patterns of the file names to skip.
    pub fn regex(&self) -> (skips: &FilterMap)
        ensures
            *skips == self.regex_skips(),
    {
        &self.regex
    }

    /// By folder, the named cases to skip.
    pub fn test_name(&self) -> (skips: &FilterMap)
        ensures
            *skips == self.test_name_skips(),
    {
        &self.test_name
    }

    /// The decision for `path` and `case_name`, given whether a pattern
    /// listed under the file's folder matches the file's name.
    pub fn is_skipped_given(
        &self,
        path: &PathWrapper,
        case_name: Option<String>,
        by_regex: bool,
    ) -> (skip: bool)
        ensures
            skip == (self.skips_by_filename(path) || by_regex || self.skips_by_test_name(
                path,
                case_name.deep_view(),
            )),
    {
        let by_filename = match self.filename.get(&path.dir_name) {
            Some(files) => contains_name(files, &path.file_name),
            None => false,
        };
        let by_test_name = match case_name {
            Some(name) => match self.test_name.get(&path.dir_name) {
                Some(cases) => contains_name(cases, &name),
                None => false,
            },
            None => false,
        };
        by_filename || by_regex || by_test_name
    }

    /// Whether the file at `path`, or the case `case_name` in it, is to be
    /// skipped: the file is listed under its folder, a pattern listed under
    /// the folder matches the file's name, or the case is listed under the
    /// folder.
    ///
    /// The patterns under the folder are tried in order up to the first
    /// match, and each of them has to compile. Where that is not known, call
    /// [`Filter::try_is_skipped`].
    pub fn is_skipped(&self, path: &PathWrapper, case_name: Option<String>) -> (skip: bool)
        requires
            self.patterns_compile(path),
        ensures
            skip == self.skips(path, case_name.deep_view()),
    {
        let by_regex = match self.regex.get(&path.dir_name) {
            Some(patterns) => match find_match(patterns, &path.file_name) {
                Ok(hit) => hit,
                Err(_) => unreached(),
            },
            None => false,
        };
        self.is_skipped_given(path, case_name, by_regex)
    }

    /// As [`Filter::is_skipped`], for a filter whose patterns may not compile:
    /// gives the first pattern that the search comes to and that does not.
    pub fn try_is_skipped(&self, path: &PathWrapper, case_name: Option<String>) -> (outcome: Result<
        bool,
        PatternError,
    >)
        ensures
            outcome is Ok <==> self.patterns_compile(path),
            outcome matches Ok(skip) ==> skip == self.skips(path, case_name.deep_view()),
            outcome matches Err(error) ==> {
                &&& self.regex_skips()@.contains_key(path.dir_name@)
                &&& stops_at(
                    self.regex_skips()@[path.dir_name@],
                    path.file_name@,
                    error.position as int,
                )
                &&& error.folder@ == path.dir_name@
                &&& error.pattern@ == self.regex_skips()@[path.dir_name@][error.position as int]
            },
    {
        match self.regex.get(&path.dir_name) {
            Some(patterns) => match find_match(patterns, &path.file_name) {
                Ok(_) => {},
                Err(position) => {
                    return Err(
                        PatternError {
                            folder: path.dir_name.clone(),
                            position,
                            pattern: patterns[position].clone(),
                        },
                    );
                },
            },
            None => {},
        }
        Ok(self.is_skipped(path, case_name))
    }

    /// The folders on which `self` and `rhs` disagree, mapping by mapping. A
    /// folder comes once for each mapping in which it differs.
    pub fn diff(&self, rhs: &Self) -> (folders: Vec<String>)
        ensures
            folders.deep_view() == self.diff_spec(*rhs),
    {
        let mut diff: Vec<String> = Vec::new();
        let mut files = map_diff(&self.filename, &rhs.filename);
        let mut patterns = map_diff(&self.regex, &rhs.regex);
        let mut cases = map_diff(&self.test_name, &rhs.test_name);
        assert(diff.deep_view() + files.deep_view() + patterns.deep_view() + cases.deep_view()
            =~= self.diff_spec(*rhs));
        diff.append(&mut files);
        diff.append(&mut patterns);
        diff.append(&mut cases);
        diff
    }
}

impl Default for Filter {
    /// The filter that skips nothing.
    fn default() -> (filter: Self)
        ensures
            filter.filename_skips()@ == Map::<Seq<char>, Seq<Seq<char>>>::empty(),
            filter.regex_skips()@ == Map::<Seq<char>, Seq<Seq<char>>>::empty(),
            filter.test_name_skips()@ == Map::<Seq<char>, Seq<Seq<char>>>::empty(),
            filter.filename_skips().folders() == Seq::<Seq<char>>::empty(),
            filter.regex_skips().folders() == Seq::<Seq<char>>::empty(),
            filter.test_name_skips().folders() == Seq::<Seq<char>>::empty(),
    {
        Filter { filename: FilterMap::new(), regex: FilterMap::new(), test_name: FilterMap::new() }
    }
}

/// A file whose folder none of the three mappings lists is not skipped,
/// whatever case is named, and no pattern has to compile for the decision.
pub proof fn lemma_unlisted_folder_is_not_skipped(
    filter: Filter,
    path: PathWrapper,
    case_name: Option<Seq<char>>,
)
    requires
        !filter.filename_skips()@.contains_key(path.dir_name@),
        !filter.regex_skips()@.contains_key(path.dir_name@),
        !filter.test_name_skips()@.contains_key(path.dir_name@),
    ensures
        filter.patterns_compile(&path),
        !filter.skips(&path, case_name),
{
}

/// A file that is listed under its folder is skipped, whatever case is named.
pub proof fn lemma_listed_file_is_skipped(
    filter: Filter,
    path: PathWrapper,
    case_name: Option<Seq<char>>,
)
    requires
        filter.filename_skips()@.contains_key(path.dir_name@),
        filter.filename_skips()@[path.dir_name@].contains(path.file_name@),
    ensures
        filter.skips(&path, case_name),
{
}

/// A file is skipped, whatever case is named, when a pattern that is listed
/// under its folder matches its name.
pub proof fn lemma_matched_file_is_skipped(
    filter: Filter,
    path: PathWrapper,
    case_name: Option<Seq<char>>,
    pattern: Seq<char>,
)
    requires
        filter.regex_skips()@.contains_key(path.dir_name@),
        filter.regex_skips()@[path.dir_name@].contains(pattern),
        pattern_matches(pattern, path.file_name@),
    ensures
        filter.skips(&path, case_name),
{
    let patterns = filter.regex_skips()@[path.dir_name@];
    let i = choose|i: int| 0 <= i < patterns.len() && patterns[i] == pattern;
    assert(pattern_matches(patterns[i], path.file_name@));
}

/// A case that is listed under the folder of its file is skipped.
pub proof fn lemma_listed_case_is_skipped(filter: Filter, path: PathWrapper, case_name: Seq<char>)
    requires
        filter.test_name_skips()@.contains_key(path.dir_name@),
        filter.test_name_skips()@[path.dir_name@].contains(case_name),
    ensures
        filter.skips(&path, Some(case_name)),
{
}

/// A filter does not differ from itself.
pub proof fn lemma_diff_of_self_is_empty(filter: Filter)
    ensures
        filter.diff_spec(filter) == Seq::<Seq<char>>::empty(),
{
    lemma_map_diff_of_self_is_empty(filter.filename_skips());
    lemma_map_diff_of_self_is_empty(filter.regex_skips());
    lemma_map_diff_of_self_is_empty(filter.test_name_skips());
}

/// The folders on which `lhs` differs from `rhs` are, up to order, those on
/// which `rhs` differs from `lhs`.
pub proof fn lemma_diff_is_symmetric(lhs: Filter, rhs: Filter)
    requires
        lhs.wf(),
        rhs.wf(),
    ensures
        lhs.diff_spec(rhs).to_multiset() == rhs.diff_spec(lhs).to_multiset(),
{
    lemma_map_diff_is_symmetric(lhs.filename_skips(), rhs.filename_skips());
    lemma_map_diff_is_symmetric(lhs.regex_skips(), rhs.regex_skips());
    lemma_map_diff_is_symmetric(lhs.test_name_skips(), rhs.test_name_skips());
    lemma_multiset_commutative(
        map_diff_spec(lhs.filename_skips(), rhs.filename_skips()),
        map_diff_spec(lhs.regex_skips(), rhs.regex_skips()),
    );
    lemma_multiset_commutative(
        map_diff_spec(lhs.filename_skips(), rhs.filename_skips()) + map_diff_spec(
            lhs.regex_skips(),
            rhs.regex_skips(),
        ),
        map_diff_spec(lhs.test_name_skips(), rhs.test_name_skips()),
    );
    lemma_multiset_commutative(
        map_diff_spec(rhs.filename_skips(), lhs.filename_skips()),
        map_diff_spec(rhs.regex_skips(), lhs.regex_skips()),
    );
    lemma_multiset_commutative(
        map_diff_spec(rhs.filename_skips(), lhs.filename_skips()) + map_diff_spec(
            rhs.regex_skips(),
            lhs.regex_skips(),
        ),
        map_diff_spec(rhs.test_name_skips(), lhs.test_name_skips()),
    );
}

} // verus!
