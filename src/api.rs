//! The operations offered to front ends: filtering of scan results, the
//! duplicate pipeline's pure steps, and summaries of a listing.

use vstd::prelude::*;
use crate::duplicates::{size_candidates, size_candidates_of, sum_sizes, views};
use crate::filters::{copy_texts, FileFilter};
use crate::path::{extension_of, file_name_of};
use crate::scanner::{DefaultFileScanner, FileInfo, FileInfoView, FileType};
use crate::text::{lower_of, occurs_in};

verus! {

/// Optional limits on a listing, all of which a file must meet.
pub struct FilterConfig {
    /// Minimum file size in bytes.
    pub min_size: Option<u64>,
    /// Maximum file size in bytes.
    pub max_size: Option<u64>,
    /// Extensions to keep, compared in lower case; an empty list keeps all.
    pub extensions: Option<Vec<String>>,
    /// Text the file name must contain; an empty text keeps all.
    pub file_pattern: Option<String>,
}

/// One of `exts`, in lower case, is the lower-case extension of `path`.
pub open spec fn extension_listed(exts: Seq<String>, path: Seq<char>) -> bool {
    match extension_of(path) {
        Some(e) => exists|i: int| 0 <= i < exts.len() && lower_of(#[trigger] exts[i]@) == lower_of(e),
        None => false,
    }
}

impl FilterConfig {
    pub open spec fn min_ok(&self, f: FileInfoView) -> bool {
        match self.min_size {
            Some(m) => f.size >= m,
            None => true,
        }
    }

    pub open spec fn max_ok(&self, f: FileInfoView) -> bool {
        match self.max_size {
            Some(m) => f.size <= m,
            None => true,
        }
    }

    pub open spec fn extension_ok(&self, f: FileInfoView) -> bool {
        match self.extensions {
            Some(e) => e@.len() == 0 || extension_listed(e@, f.path),
            None => true,
        }
    }

    pub open spec fn pattern_ok(&self, f: FileInfoView) -> bool {
        match self.file_pattern {
            Some(p) => p@.len() == 0 || match file_name_of(f.path) {
                Some(n) => occurs_in(p@, n),
                None => false,
            },
            None => true,
        }
    }

    /// A file passes when it meets every limit that is set.
    pub open spec fn passes(&self, f: FileInfoView) -> bool {
        self.min_ok(f) && self.max_ok(f) && self.extension_ok(f) && self.pattern_ok(f)
    }

    /// The files of `files` that pass, in their order.
    pub fn apply(&self, files: Vec<FileInfo>) -> (r: Vec<FileInfo>)
        ensures
            views(r@) == views(files@).filter(|f: FileInfoView| self.passes(f)),
    {
        let ghost s = views(files@);
        let ghost p1 = |f: FileInfoView| self.min_ok(f);
        let ghost p2 = |f: FileInfoView| self.min_ok(f) && self.max_ok(f);
        let ghost p3 = |f: FileInfoView| self.min_ok(f) && self.max_ok(f) && self.extension_ok(f);
        let ghost p4 = |f: FileInfoView| self.passes(f);
        let mut filtered = files;
        match self.min_size {
            Some(m) => {
                let filter = FileFilter::min_size(m);
                filtered = filter.filter_files(filtered);
                proof {
                    lemma_filter_same(s, |f: FileInfoView| filter.accepts(f), p1);
                }
            },
            None => {
                proof {
                    lemma_filter_all(s, p1);
                }
            },
        }
        assert(views(filtered@) == s.filter(p1));
        match self.max_size {
            Some(m) => {
                let filter = FileFilter::max_size(m);
                let ghost before = views(filtered@);
                filtered = filter.filter_files(filtered);
                proof {
                    lemma_filter_and(s, p1, |f: FileInfoView| filter.accepts(f), p2);
                }
            },
            None => {
                proof {
                    lemma_filter_same(s, p1, p2);
                }
            },
        }
        assert(views(filtered@) == s.filter(p2));
        let mut done = false;
        match &self.extensions {
            Some(exts) => {
                if exts.len() > 0 {
                    let filter = FileFilter::extensions(copy_texts(exts));
                    filtered = filter.filter_files(filtered);
                    proof {
                        let fe = filter.filter->Single_0->Extension_0;
                        assert forall|x: FileInfoView| #[trigger] filter.accepts(x)
                            == extension_listed(exts@, x.path) by {
                            match extension_of(x.path) {
                                Some(e) => {
                                    if filter.accepts(x) {
                                        let i = choose|i: int|
                                            0 <= i < fe.extensions@.len()
                                                && #[trigger] fe.extensions@[i]@ == lower_of(e);
                                        assert(lower_of(exts@[i]@) == lower_of(e));
                                    }
                                    if extension_listed(exts@, x.path) {
                                        let i = choose|i: int|
                                            0 <= i < exts@.len() && lower_of(#[trigger] exts@[i]@)
                                                == lower_of(e);
                                        assert(fe.extensions@[i]@ == lower_of(e));
                                    }
                                },
                                None => {},
                            }
                        }
                        lemma_filter_and(s, p2, |f: FileInfoView| filter.accepts(f), p3);
                    }
                    done = true;
                }
            },
            None => {},
        }
        if !done {
            proof {
                lemma_filter_same(s, p2, p3);
            }
        }
        assert(views(filtered@) == s.filter(p3));
        let mut done = false;
        match &self.file_pattern {
            Some(pattern) => {
                if pattern.unicode_len() > 0 {
                    let filter = FileFilter::pattern(pattern.clone());
                    filtered = filter.filter_files(filtered);
                    proof {
                        lemma_filter_and(s, p3, |f: FileInfoView| filter.accepts(f), p4);
                    }
                    done = true;
                }
            },
            None => {},
        }
        if !done {
            proof {
                lemma_filter_same(s, p3, p4);
            }
        }
        filtered
    }
}

/// Filtering by two predicates that agree everywhere keeps the same items.
pub proof fn lemma_filter_same(
    s: Seq<FileInfoView>,
    p: spec_fn(FileInfoView) -> bool,
    q: spec_fn(FileInfoView) -> bool,
)
    requires
        forall|x: FileInfoView| #[trigger] p(x) == q(x),
    ensures
        s.filter(p) == s.filter(q),
    decreases s.len(),
{
    reveal(Seq::filter);
    if s.len() > 0 {
        lemma_filter_same(s.drop_last(), p, q);
    }
}

/// Filtering by a predicate that always holds keeps everything.
pub proof fn lemma_filter_all(s: Seq<FileInfoView>, p: spec_fn(FileInfoView) -> bool)
    requires
        forall|x: FileInfoView| #[trigger] p(x),
    ensures
        s.filter(p) == s,
    decreases s.len(),
{
    reveal(Seq::filter);
    if s.len() > 0 {
        lemma_filter_all(s.drop_last(), p);
        assert(s.drop_last().push(s.last()) =~= s);
    }
}

/// Filtering by `p` and then by `q` is filtering by their conjunction.
pub proof fn lemma_filter_and(
    s: Seq<FileInfoView>,
    p: spec_fn(FileInfoView) -> bool,
    q: spec_fn(FileInfoView) -> bool,
    pq: spec_fn(FileInfoView) -> bool,
)
    requires
        forall|x: FileInfoView| #[trigger] pq(x) == (p(x) && q(x)),
    ensures
        s.filter(p).filter(q) == s.filter(pq),
    decreases s.len(),
{
    reveal(Seq::filter);
    if s.len() > 0 {
        lemma_filter_and(s.drop_last(), p, q, pq);
        let rest = s.drop_last().filter(p);
        rest.lemma_filter_push(s.last(), q);
    }
}

/// The files worth hashing in a duplicate search: those that pass `filter`
/// (when one is given) and share their size with another file that passes.
pub fn duplicate_candidates(files: Vec<FileInfo>, filter: &Option<FilterConfig>) -> (r: Vec<
    FileInfo,
>)
    ensures
        match filter {
            Some(c) => views(r@) == size_candidates_of_views(
                views(files@).filter(|f: FileInfoView| c.passes(f)),
            ),
            None => views(r@) == size_candidates_of_views(views(files@)),
        },
{
    let kept = match filter {
        Some(c) => c.apply(files),
        None => files,
    };
    let r = size_candidates(&kept);
    proof {
        lemma_candidates_views(kept@, kept@);
    }
    r
}

/// How many of `s` have the given size.
pub open spec fn view_size_count(s: Seq<FileInfoView>, size: u64) -> nat
    decreases s.len(),
{
    if s.len() == 0 {
        0
    } else {
        view_size_count(s.drop_last(), size) + if s.last().size == size {
            1nat
        } else {
            0nat
        }
    }
}

/// The items of `s` whose size occurs at least twice in `s`.
pub open spec fn size_candidates_of_views(s: Seq<FileInfoView>) -> Seq<FileInfoView> {
    s.filter(|f: FileInfoView| view_size_count(s, f.size) >= 2)
}

proof fn lemma_size_count_views(all: Seq<FileInfo>, size: u64)
    ensures
        crate::duplicates::size_count(all, size) == view_size_count(views(all), size),
    decreases all.len(),
{
    if all.len() > 0 {
        lemma_size_count_views(all.drop_last(), size);
        assert(views(all).drop_last() =~= views(all.drop_last()));
    }
}

proof fn lemma_candidates_views(prefix: Seq<FileInfo>, all: Seq<FileInfo>)
    ensures
        size_candidates_of(prefix, all) == views(prefix).filter(
            |f: FileInfoView| view_size_count(views(all), f.size) >= 2,
        ),
    decreases prefix.len(),
{
    reveal(Seq::filter);
    if prefix.len() > 0 {
        lemma_candidates_views(prefix.drop_last(), all);
        lemma_size_count_views(all, prefix.last().size);
        assert(views(prefix).drop_last() =~= views(prefix.drop_last()));
    }
}

/// The files found under one root.
pub struct ScanResult {
    pub path: String,
    pub file_count: usize,
    pub total_size: u64,
    pub files: Vec<FileInfo>,
}

impl ScanResult {
    /// The listing of `path`, with its count and total size.
    pub fn from_files(path: String, files: Vec<FileInfo>) -> (r: ScanResult)
        requires
            sum_sizes(views(files@)) <= u64::MAX,
        ensures
            r.path@ == path@,
            views(r.files@) == views(files@),
            r.file_count == files@.len(),
            r.total_size == sum_sizes(views(files@)),
    {
        let n = files.len();
        let mut total: u64 = 0;
        let mut i: usize = 0;
        while i < n
            invariant
                n == files@.len(),
                i <= n,
                sum_sizes(views(files@)) <= u64::MAX,
                total == sum_sizes(views(files@.take(i as int))),
            decreases n - i,
        {
            proof {
                assert(views(files@.take(i + 1)).drop_last() =~= views(files@.take(i as int)));
                lemma_sum_prefix(views(files@), i + 1);
                assert(views(files@.take(i + 1)) =~= views(files@).take(i + 1));
            }
            total = total + files[i].size;
            i += 1;
        }
        assert(files@.take(n as int) =~= files@);
        ScanResult { path, file_count: n, total_size: total, files }
    }
}

/// A prefix's sizes add up to no more than the whole.
proof fn lemma_sum_prefix(s: Seq<FileInfoView>, k: int)
    requires
        0 <= k <= s.len(),
    ensures
        sum_sizes(s.take(k)) <= sum_sizes(s),
    decreases s.len(),
{
    if k < s.len() {
        lemma_sum_prefix(s.drop_last(), k);
        assert(s.drop_last().take(k) =~= s.take(k));
    } else {
        assert(s.take(k) =~= s);
    }
}

/// How many files of `s` are of kind `t`.
pub open spec fn count_kind(s: Seq<FileInfoView>, t: FileType) -> nat
    decreases s.len(),
{
    if s.len() == 0 {
        0
    } else {
        count_kind(s.drop_last(), t) + if s.last().file_type == t {
            1nat
        } else {
            0nat
        }
    }
}

/// What a listing holds: how many files, their total size, how many of each
/// kind and how many are empty.
pub struct StorageStats {
    pub total_files: usize,
    pub total_size: u64,
    pub images: usize,
    pub videos: usize,
    pub documents: usize,
    pub archives: usize,
    pub others: usize,
    pub empty_files: usize,
}

impl StorageStats {
    /// The statistics of `files`.
    pub fn of_files(files: &Vec<FileInfo>) -> (r: StorageStats)
        requires
            sum_sizes(views(files@)) <= u64::MAX,
        ensures
            r.total_files == files@.len(),
            r.total_size == sum_sizes(views(files@)),
            r.images == count_kind(views(files@), FileType::Image),
            r.videos == count_kind(views(files@), FileType::Video),
            r.documents == count_kind(views(files@), FileType::Document),
            r.archives == count_kind(views(files@), FileType::Archive),
            r.others == count_kind(views(files@), FileType::Other),
            r.empty_files == crate::duplicates::size_count(files@, 0),
    {
        let n = files.len();
        let mut r = StorageStats {
            total_files: n,
            total_size: 0,
            images: 0,
            videos: 0,
            documents: 0,
            archives: 0,
            others: 0,
            empty_files: 0,
        };
        let mut i: usize = 0;
        while i < n
            invariant
                n == files@.len(),
                i <= n,
                r.total_files == n,
                sum_sizes(views(files@)) <= u64::MAX,
                r.total_size == sum_sizes(views(files@.take(i as int))),
                r.images == count_kind(views(files@.take(i as int)), FileType::Image),
                r.videos == count_kind(views(files@.take(i as int)), FileType::Video),
                r.documents == count_kind(views(files@.take(i as int)), FileType::Document),
                r.archives == count_kind(views(files@.take(i as int)), FileType::Archive),
                r.others == count_kind(views(files@.take(i as int)), FileType::Other),
                r.empty_files == crate::duplicates::size_count(files@.take(i as int), 0),
                r.images + r.videos + r.documents + r.archives + r.others == i,
                r.empty_files <= i,
            decreases n - i,
        {
            let f = &files[i];
            proof {
                assert(views(files@.take(i + 1)).drop_last() =~= views(files@.take(i as int)));
                assert(files@.take(i + 1).drop_last() =~= files@.take(i as int));
                lemma_sum_prefix(views(files@), i + 1);
                assert(views(files@.take(i + 1)) =~= views(files@).take(i + 1));
            }
            r.total_size = r.total_size + f.size;
            if f.size == 0 {
                r.empty_files = r.empty_files + 1;
            }
            match f.file_type {
                FileType::Image => r.images = r.images + 1,
                FileType::Video => r.videos = r.videos + 1,
                FileType::Document => r.documents = r.documents + 1,
                FileType::Archive => r.archives = r.archives + 1,
                FileType::Other => r.others = r.others + 1,
            }
            i += 1;
        }
        assert(files@.take(n as int) =~= files@);
        r
    }
}

/// The entry point for front ends, with the walk settings it uses.
pub struct ServiceApi {
    pub scanner: DefaultFileScanner,
}

impl ServiceApi {
    /// An API whose walks have no depth bound and do not follow links.
    pub fn new() -> (r: Self)
        ensures
            r.scanner.max_depth.is_none(),
            !r.scanner.follow_links,
    {
        ServiceApi { scanner: DefaultFileScanner::new() }
    }
}

} // verus!
