//! Predicates on file descriptors, alone or combined with AND / OR, applied
//! before any hashing or conversion. Filtering never touches the files.

use vstd::prelude::*;
use crate::duplicates::views;
use crate::path::{extension, extension_of, file_name, file_name_of};
use crate::scanner::{FileInfo, FileInfoView};
use crate::text::{lower_of, lowercase, occurs_in, starts_with, text_contains, text_eq, text_starts_with};

verus! {

/// A predicate on file descriptors.
pub trait Filter {
    /// Whether the predicate holds of a descriptor.
    spec fn accepts(&self, f: FileInfoView) -> bool;

    /// Tests the predicate on `file`.
    fn apply(&self, file: &FileInfo) -> (r: bool)
        ensures
            r == self.accepts(file@),
    ;
}

/// Files of at least a given size.
pub struct MinSizeFilter {
    pub min_size: u64,
}

impl MinSizeFilter {
    pub fn new(min_size: u64) -> (r: Self)
        ensures
            r.min_size == min_size,
    {
        MinSizeFilter { min_size }
    }
}

impl Filter for MinSizeFilter {
    open spec fn accepts(&self, f: FileInfoView) -> bool {
        f.size >= self.min_size
    }

    fn apply(&self, file: &FileInfo) -> (r: bool) {
        file.size >= self.min_size
    }
}

/// Files of at most a given size.
pub struct MaxSizeFilter {
    pub max_size: u64,
}

impl MaxSizeFilter {
    pub fn new(max_size: u64) -> (r: Self)
        ensures
            r.max_size == max_size,
    {
        MaxSizeFilter { max_size }
    }
}

impl Filter for MaxSizeFilter {
    open spec fn accepts(&self, f: FileInfoView) -> bool {
        f.size <= self.max_size
    }

    fn apply(&self, file: &FileInfo) -> (r: bool) {
        file.size <= self.max_size
    }
}

/// Files whose extension, in lower case, is one of a list.
pub struct ExtensionFilter {
    pub extensions: Vec<String>,
}

/// The texts of `v`.
pub open spec fn texts(v: Seq<String>) -> Seq<Seq<char>> {
    v.map_values(|s: String| s@)
}

/// A copy of a list of texts.
pub fn copy_texts(v: &Vec<String>) -> (r: Vec<String>)
    ensures
        r@.len() == v@.len(),
        forall|i: int| 0 <= i < v@.len() ==> #[trigger] r@[i]@ == v@[i]@,
        texts(r@) == texts(v@),
{
    let mut r: Vec<String> = Vec::new();
    let mut i: usize = 0;
    while i < v.len()
        invariant
            i <= v@.len(),
            r@.len() == i,
            forall|j: int| 0 <= j < i ==> #[trigger] r@[j]@ == v@[j]@,
        decreases v@.len() - i,
    {
        r.push(v[i].clone());
        i += 1;
    }
    assert(texts(r@) =~= texts(v@));
    r
}

impl ExtensionFilter {
    /// Keeps the extensions in lower case.
    pub fn new(extensions: Vec<String>) -> (r: Self)
        ensures
            r.extensions@.len() == extensions@.len(),
            forall|i: int|
                0 <= i < extensions@.len() ==> #[trigger] r.extensions@[i]@ == lower_of(
                    extensions@[i]@,
                ),
    {
        let mut lowered: Vec<String> = Vec::new();
        let mut i: usize = 0;
        while i < extensions.len()
            invariant
                i <= extensions@.len(),
                lowered@.len() == i,
                forall|j: int|
                    0 <= j < i ==> #[trigger] lowered@[j]@ == lower_of(extensions@[j]@),
            decreases extensions@.len() - i,
        {
            lowered.push(lowercase(extensions[i].as_str()));
            i += 1;
        }
        ExtensionFilter { extensions: lowered }
    }
}

impl Filter for ExtensionFilter {
    open spec fn accepts(&self, f: FileInfoView) -> bool {
        match extension_of(f.path) {
            Some(e) => exists|i: int|
                0 <= i < self.extensions@.len() && #[trigger] self.extensions@[i]@ == lower_of(e),
            None => false,
        }
    }

    fn apply(&self, file: &FileInfo) -> (r: bool) {
        match extension(file.path.as_str()) {
            None => false,
            Some(e) => {
                let low = lowercase(e);
                let mut i: usize = 0;
                while i < self.extensions.len()
                    invariant
                        i <= self.extensions@.len(),
                        low@ == lower_of(e@),
                        extension_of(file.path@) == Some(e@),
                        forall|j: int|
                            0 <= j < i ==> #[trigger] self.extensions@[j]@ != lower_of(e@),
                    decreases self.extensions@.len() - i,
                {
                    if text_eq(self.extensions[i].as_str(), low.as_str()) {
                        assert(self.extensions@[i as int]@ == lower_of(e@));
                        return true;
                    }
                    i += 1;
                }
                false
            },
        }
    }
}

/// Files whose name contains a given text.
pub struct PatternFilter {
    pub pattern: String,
}

impl PatternFilter {
    pub fn new(pattern: String) -> (r: Self)
        ensures
            r.pattern@ == pattern@,
    {
        PatternFilter { pattern }
    }
}

impl Filter for PatternFilter {
    open spec fn accepts(&self, f: FileInfoView) -> bool {
        match file_name_of(f.path) {
            Some(n) => occurs_in(self.pattern@, n),
            None => false,
        }
    }

    fn apply(&self, file: &FileInfo) -> (r: bool) {
        match file_name(file.path.as_str()) {
            Some(n) => text_contains(n, self.pattern.as_str()),
            None => false,
        }
    }
}

/// Files of size zero.
pub struct EmptyFileFilter;

impl Filter for EmptyFileFilter {
    open spec fn accepts(&self, f: FileInfoView) -> bool {
        f.size == 0
    }

    fn apply(&self, file: &FileInfo) -> (r: bool) {
        file.size == 0
    }
}

/// Files whose name starts with a dot.
pub struct HiddenFileFilter;

impl Filter for HiddenFileFilter {
    open spec fn accepts(&self, f: FileInfoView) -> bool {
        match file_name_of(f.path) {
            Some(n) => starts_with(n, seq!['.']),
            None => false,
        }
    }

    fn apply(&self, file: &FileInfo) -> (r: bool) {
        match file_name(file.path.as_str()) {
            Some(n) => {
                let dot = ".";
                proof {
                    reveal_strlit(".");
                }
                assert(dot@ =~= seq!['.']);
                text_starts_with(n, dot)
            },
            None => false,
        }
    }
}

/// One of the basic filters.
pub enum Criterion {
    MinSize(MinSizeFilter),
    MaxSize(MaxSizeFilter),
    Extension(ExtensionFilter),
    Pattern(PatternFilter),
    Empty(EmptyFileFilter),
    Hidden(HiddenFileFilter),
}

impl Filter for Criterion {
    open spec fn accepts(&self, f: FileInfoView) -> bool {
        match self {
            Criterion::MinSize(c) => c.accepts(f),
            Criterion::MaxSize(c) => c.accepts(f),
            Criterion::Extension(c) => c.accepts(f),
            Criterion::Pattern(c) => c.accepts(f),
            Criterion::Empty(c) => c.accepts(f),
            Criterion::Hidden(c) => c.accepts(f),
        }
    }

    fn apply(&self, file: &FileInfo) -> (r: bool) {
        match self {
            Criterion::MinSize(c) => c.apply(file),
            Criterion::MaxSize(c) => c.apply(file),
            Criterion::Extension(c) => c.apply(file),
            Criterion::Pattern(c) => c.apply(file),
            Criterion::Empty(c) => c.apply(file),
            Criterion::Hidden(c) => c.apply(file),
        }
    }
}

/// Files that pass every one of a list of filters.
pub struct AndFilter {
    pub filters: Vec<Criterion>,
}

impl AndFilter {
    /// A conjunction of no filters, which every file passes.
    pub fn new() -> (r: Self)
        ensures
            r.filters@.len() == 0,
    {
        AndFilter { filters: Vec::new() }
    }

    /// The same conjunction with `filter` added.
    pub fn add(self, filter: Criterion) -> (r: Self)
        ensures
            r.filters@ == self.filters@.push(filter),
    {
        let mut filters = self.filters;
        filters.push(filter);
        AndFilter { filters }
    }
}

impl Filter for AndFilter {
    open spec fn accepts(&self, f: FileInfoView) -> bool {
        forall|i: int| 0 <= i < self.filters@.len() ==> #[trigger] self.filters@[i].accepts(f)
    }

    fn apply(&self, file: &FileInfo) -> (r: bool) {
        let mut i: usize = 0;
        while i < self.filters.len()
            invariant
                i <= self.filters@.len(),
                forall|j: int| 0 <= j < i ==> #[trigger] self.filters@[j].accepts(file@),
            decreases self.filters@.len() - i,
        {
            if !self.filters[i].apply(file) {
                return false;
            }
            i += 1;
        }
        true
    }
}

/// Files that pass at least one of a list of filters.
pub struct OrFilter {
    pub filters: Vec<Criterion>,
}

impl OrFilter {
    /// A disjunction of no filters, which no file passes.
    pub fn new() -> (r: Self)
        ensures
            r.filters@.len() == 0,
    {
        OrFilter { filters: Vec::new() }
    }

    /// The same disjunction with `filter` added.
    pub fn add(self, filter: Criterion) -> (r: Self)
        ensures
            r.filters@ == self.filters@.push(filter),
    {
        let mut filters = self.filters;
        filters.push(filter);
        OrFilter { filters }
    }
}

impl Filter for OrFilter {
    open spec fn accepts(&self, f: FileInfoView) -> bool {
        exists|i: int| 0 <= i < self.filters@.len() && #[trigger] self.filters@[i].accepts(f)
    }

    fn apply(&self, file: &FileInfo) -> (r: bool) {
        let mut i: usize = 0;
        while i < self.filters.len()
            invariant
                i <= self.filters@.len(),
                forall|j: int| 0 <= j < i ==> !#[trigger] self.filters@[j].accepts(file@),
            decreases self.filters@.len() - i,
        {
            if self.filters[i].apply(file) {
                return true;
            }
            i += 1;
        }
        false
    }
}

/// A basic filter, a conjunction or a disjunction.
pub enum FilterRule {
    Single(Criterion),
    All(AndFilter),
    Any(OrFilter),
}

impl Filter for FilterRule {
    open spec fn accepts(&self, f: FileInfoView) -> bool {
        match self {
            FilterRule::Single(c) => c.accepts(f),
            FilterRule::All(c) => c.accepts(f),
            FilterRule::Any(c) => c.accepts(f),
        }
    }

    fn apply(&self, file: &FileInfo) -> (r: bool) {
        match self {
            FilterRule::Single(c) => c.apply(file),
            FilterRule::All(c) => c.apply(file),
            FilterRule::Any(c) => c.apply(file),
        }
    }
}

/// A filter applied to lists of descriptors.
pub struct FileFilter {
    pub filter: FilterRule,
}

impl FileFilter {
    pub fn new(filter: FilterRule) -> (r: Self)
        ensures
            r.filter == filter,
    {
        FileFilter { filter }
    }

    /// The filter's predicate.
    pub open spec fn accepts(&self, f: FileInfoView) -> bool {
        self.filter.accepts(f)
    }

    /// Tests the filter on `file`.
    pub fn apply(&self, file: &FileInfo) -> (r: bool)
        ensures
            r == self.accepts(file@),
    {
        self.filter.apply(file)
    }

    /// The descriptors of `files` that pass, in their order.
    pub fn filter_files(&self, files: Vec<FileInfo>) -> (r: Vec<FileInfo>)
        ensures
            views(r@) == views(files@).filter(|f: FileInfoView| self.accepts(f)),
    {
        let ghost pred = |f: FileInfoView| self.accepts(f);
        let mut r: Vec<FileInfo> = Vec::new();
        let n = files.len();
        let mut i: usize = 0;
        while i < n
            invariant
                n == files@.len(),
                i <= n,
                pred == (|f: FileInfoView| self.accepts(f)),
                views(r@) == views(files@.take(i as int)).filter(pred),
            decreases n - i,
        {
            proof {
                assert(views(files@.take(i + 1)) =~= views(files@.take(i as int)).push(
                    files@[i as int]@,
                ));
                views(files@.take(i as int)).lemma_filter_push(files@[i as int]@, pred);
            }
            if self.apply(&files[i]) {
                r.push(files[i].duplicate());
                assert(views(r@) =~= views(r@.drop_last()).push(files@[i as int]@));
            }
            i += 1;
        }
        assert(files@.take(n as int) =~= files@);
        r
    }

    /// Files of at least `size` bytes.
    pub fn min_size(size: u64) -> (r: Self)
        ensures
            r.filter == FilterRule::Single(Criterion::MinSize(MinSizeFilter { min_size: size })),
    {
        FileFilter::new(FilterRule::Single(Criterion::MinSize(MinSizeFilter::new(size))))
    }

    /// Files of at most `size` bytes.
    pub fn max_size(size: u64) -> (r: Self)
        ensures
            r.filter == FilterRule::Single(Criterion::MaxSize(MaxSizeFilter { max_size: size })),
    {
        FileFilter::new(FilterRule::Single(Criterion::MaxSize(MaxSizeFilter::new(size))))
    }

    /// Files with one of `exts` as extension, case aside.
    pub fn extensions(exts: Vec<String>) -> (r: Self)
        ensures
            r.filter is Single,
            r.filter->Single_0 is Extension,
            r.filter->Single_0->Extension_0.extensions@.len() == exts@.len(),
            forall|i: int|
                0 <= i < exts@.len() ==> #[trigger] r.filter->Single_0->Extension_0.extensions@[i]@
                    == lower_of(exts@[i]@),
    {
        FileFilter::new(FilterRule::Single(Criterion::Extension(ExtensionFilter::new(exts))))
    }

    /// Files whose name contains `pattern`.
    pub fn pattern(pattern: String) -> (r: Self)
        ensures
            r.filter is Single,
            r.filter->Single_0 is Pattern,
            r.filter->Single_0->Pattern_0.pattern@ == pattern@,
    {
        FileFilter::new(FilterRule::Single(Criterion::Pattern(PatternFilter::new(pattern))))
    }

    /// Empty files.
    pub fn empty_files() -> (r: Self)
        ensures
            r.filter == FilterRule::Single(Criterion::Empty(EmptyFileFilter)),
    {
        FileFilter::new(FilterRule::Single(Criterion::Empty(EmptyFileFilter)))
    }

    /// Hidden files.
    pub fn hidden_files() -> (r: Self)
        ensures
            r.filter == FilterRule::Single(Criterion::Hidden(HiddenFileFilter)),
    {
        FileFilter::new(FilterRule::Single(Criterion::Hidden(HiddenFileFilter)))
    }
}

} // verus!
