//! File paths as '/'-separated text: the final component, its extension
//! and its stem, read as `std::path::Path` reads them on Unix.

use vstd::prelude::*;
use crate::text::{eq_ignore_ascii_case, lower_of, lowercase, same_ignoring_ascii_case};

verus! {

/// `p` without the '/' characters that end it.
pub open spec fn trim_trailing_slashes(p: Seq<char>) -> Seq<char>
    decreases p.len(),
{
    if p.len() > 0 && p.last() == '/' {
        trim_trailing_slashes(p.drop_last())
    } else {
        p
    }
}

/// The index of the last `c` in `s`, or -1.
pub open spec fn last_index_of(s: Seq<char>, c: char) -> int
    decreases s.len(),
{
    if s.len() == 0 {
        -1
    } else if s.last() == c {
        s.len() - 1
    } else {
        last_index_of(s.drop_last(), c)
    }
}

/// The text after the last separator, trailing separators ignored.
pub open spec fn final_component(p: Seq<char>) -> Seq<char> {
    let t = trim_trailing_slashes(p);
    t.subrange(last_index_of(t, '/') + 1, t.len() as int)
}

/// The file name of a path: its final component, unless that is empty,
/// `.` or `..`.
pub open spec fn file_name_of(p: Seq<char>) -> Option<Seq<char>> {
    let c = final_component(p);
    if c.len() == 0 || c == seq!['.'] || c == seq!['.', '.'] {
        None
    } else {
        Some(c)
    }
}

/// The extension of a path: what follows the last '.' of the file name,
/// where that '.' is not its first character.
pub open spec fn extension_of(p: Seq<char>) -> Option<Seq<char>> {
    match file_name_of(p) {
        None => None,
        Some(n) => {
            let d = last_index_of(n, '.');
            if d <= 0 {
                None
            } else {
                Some(n.subrange(d + 1, n.len() as int))
            }
        },
    }
}

/// The stem of a path: the file name without its extension and its dot.
pub open spec fn file_stem_of(p: Seq<char>) -> Option<Seq<char>> {
    match file_name_of(p) {
        None => None,
        Some(n) => {
            let d = last_index_of(n, '.');
            if d <= 0 {
                Some(n)
            } else {
                Some(n.subrange(0, d))
            }
        },
    }
}

/// The extension of `p` in lower case, or the empty text where it has none.
pub open spec fn lower_extension(p: Seq<char>) -> Seq<char> {
    match extension_of(p) {
        Some(e) => lower_of(e),
        None => lower_of(Seq::<char>::empty()),
    }
}

/// One of `exts` equals `e`, ASCII case aside.
pub open spec fn listed_ignoring_case(exts: Seq<&str>, e: Seq<char>) -> bool {
    exists|i: int| 0 <= i < exts.len() && same_ignoring_ascii_case(#[trigger] exts[i]@, e)
}

/// The path has an extension listed in `exts`, ASCII case aside.
pub open spec fn has_extension_spec(p: Seq<char>, exts: Seq<&str>) -> bool {
    match extension_of(p) {
        None => false,
        Some(e) => listed_ignoring_case(exts, e),
    }
}

/// The name of a converted file: the source's stem (or `output`), a dot and
/// the new extension.
pub open spec fn output_filename_of(p: Seq<char>, new_ext: Seq<char>) -> Seq<char> {
    let stem = match file_stem_of(p) {
        Some(s) => s,
        None => "output"@,
    };
    stem + seq!['.'] + new_ext
}

/// The length of `p` once its trailing separators are removed.
fn trimmed_len(p: &str) -> (r: usize)
    ensures
        r <= p@.len(),
        trim_trailing_slashes(p@) == p@.subrange(0, r as int),
{
    let mut k = p.unicode_len();
    assert(p@.subrange(0, k as int) =~= p@);
    while k > 0 && p.get_char(k - 1) == '/'
        invariant
            k <= p@.len(),
            trim_trailing_slashes(p@) == trim_trailing_slashes(p@.subrange(0, k as int)),
        decreases k,
    {
        assert(p@.subrange(0, k as int).drop_last() =~= p@.subrange(0, k - 1));
        k -= 1;
    }
    k
}

/// The index of the last `c` among the first `end` characters of `s`.
pub fn last_index(s: &str, end: usize, c: char) -> (r: Option<usize>)
    requires
        end <= s@.len(),
    ensures
        match r {
            None => last_index_of(s@.subrange(0, end as int), c) == -1,
            Some(i) => i < end && last_index_of(s@.subrange(0, end as int), c) == i,
        },
{
    let mut k = end;
    while k > 0
        invariant
            k <= end <= s@.len(),
            last_index_of(s@.subrange(0, end as int), c) == last_index_of(
                s@.subrange(0, k as int),
                c,
            ),
        decreases k,
    {
        if s.get_char(k - 1) == c {
            return Some(k - 1);
        }
        assert(s@.subrange(0, k as int).drop_last() =~= s@.subrange(0, k - 1));
        k -= 1;
    }
    None
}

/// The file name of `path`, if it has one.
pub fn file_name(path: &str) -> (r: Option<&str>)
    ensures
        match r {
            None => file_name_of(path@).is_none(),
            Some(n) => file_name_of(path@) == Some(n@),
        },
{
    let t = trimmed_len(path);
    let start = match last_index(path, t, '/') {
        Some(i) => i + 1,
        None => 0,
    };
    proof {
        assert(path@.subrange(0, t as int).subrange(start as int, t as int) =~= path@.subrange(
            start as int,
            t as int,
        ));
    }
    let c = path.substring_char(start, t);
    let n = c.unicode_len();
    if n == 0 {
        return None;
    }
    if n == 1 && c.get_char(0) == '.' {
        assert(c@ =~= seq!['.']);
        return None;
    }
    if n == 2 && c.get_char(0) == '.' && c.get_char(1) == '.' {
        assert(c@ =~= seq!['.', '.']);
        return None;
    }
    assert(c@ != seq!['.'] && c@ != seq!['.', '.']) by {
        if c@ == seq!['.'] {
            assert(c@.len() == 1);
        }
        if c@ == seq!['.', '.'] {
            assert(c@.len() == 2);
        }
    }
    Some(c)
}

/// The extension of `path`, if it has one.
pub fn extension(path: &str) -> (r: Option<&str>)
    ensures
        match r {
            None => extension_of(path@).is_none(),
            Some(e) => extension_of(path@) == Some(e@),
        },
{
    match file_name(path) {
        None => None,
        Some(n) => {
            let len = n.unicode_len();
            assert(n@.subrange(0, len as int) =~= n@);
            match last_index(n, len, '.') {
                None => None,
                Some(d) => {
                    if d == 0 {
                        None
                    } else {
                        Some(n.substring_char(d + 1, len))
                    }
                },
            }
        },
    }
}

/// The stem of `path`, if it has a file name.
pub fn file_stem(path: &str) -> (r: Option<&str>)
    ensures
        match r {
            None => file_stem_of(path@).is_none(),
            Some(e) => file_stem_of(path@) == Some(e@),
        },
{
    match file_name(path) {
        None => None,
        Some(n) => {
            let len = n.unicode_len();
            assert(n@.subrange(0, len as int) =~= n@);
            match last_index(n, len, '.') {
                None => Some(n),
                Some(d) => {
                    if d == 0 {
                        Some(n)
                    } else {
                        Some(n.substring_char(0, d))
                    }
                },
            }
        },
    }
}

/// The extension of `path` in lower case; empty where there is none.
pub fn lower_extension_text(path: &str) -> (r: String)
    ensures
        r@ == lower_extension(path@),
{
    match extension(path) {
        Some(e) => lowercase(e),
        None => {
            let empty = "";
            proof {
                reveal_strlit("");
            }
            assert(empty@ =~= Seq::<char>::empty());
            lowercase(empty)
        },
    }
}

/// Whether `path` has one of `extensions`, ASCII case aside.
pub fn has_extension(path: &str, extensions: &[&str]) -> (r: bool)
    ensures
        r == has_extension_spec(path@, extensions@),
{
    match extension(path) {
        None => false,
        Some(e) => {
            let mut i: usize = 0;
            while i < extensions.len()
                invariant
                    i <= extensions@.len(),
                    extension_of(path@) == Some(e@),
                    forall|j: int|
                        0 <= j < i ==> !same_ignoring_ascii_case(#[trigger] extensions@[j]@, e@),
                decreases extensions@.len() - i,
            {
                if eq_ignore_ascii_case(extensions[i], e) {
                    assert(same_ignoring_ascii_case(extensions@[i as int]@, e@));
                    assert(listed_ignoring_case(extensions@, e@));
                    return true;
                }
                i += 1;
            }
            false
        },
    }
}

/// The file name under which a conversion of `source` to `new_ext` is written.
pub fn generate_output_filename(source: &str, new_ext: &str) -> (r: String)
    ensures
        r@ == output_filename_of(source@, new_ext@),
{
    let stem = match file_stem(source) {
        Some(s) => s,
        None => "output",
    };
    let mut r = String::from_str(stem);
    r.append(".");
    r.append(new_ext);
    proof {
        reveal_strlit(".");
    }
    assert(r@ =~= output_filename_of(source@, new_ext@));
    r
}

} // verus!
