//! Planning a compressibility scan over a set of active converters: which
//! names are valid, which extensions to list, which converter takes a file,
//! and which converters explain why a file was rejected.

use vstd::prelude::*;
use crate::compress_plugins::{first_named, indices_where, supports_extension, PluginManager, PluginProfile};
use crate::filters::{copy_texts, texts};
use crate::text::{eq_ignore_ascii_case, same_ignoring_ascii_case, text_eq};

verus! {

/// Some text of `v` equals `t`.
pub open spec fn listed_text(v: Seq<String>, t: Seq<char>) -> bool {
    exists|i: int| 0 <= i < v.len() && #[trigger] v[i]@ == t
}

/// The converter's name is among `active`.
pub open spec fn is_active(p: PluginProfile, active: Seq<String>) -> bool {
    listed_text(active, p.metadata.name@)
}

/// Whether some text of `v` equals `t`.
pub fn contains_text(v: &Vec<String>, t: &str) -> (r: bool)
    ensures
        r == listed_text(v@, t@),
{
    let mut i: usize = 0;
    while i < v.len()
        invariant
            i <= v@.len(),
            forall|j: int| 0 <= j < i ==> #[trigger] v@[j]@ != t@,
        decreases v@.len() - i,
    {
        if text_eq(v[i].as_str(), t) {
            assert(v@[i as int]@ == t@);
            return true;
        }
        i += 1;
    }
    false
}

/// Whether converter `p` supports `ext`, ASCII case aside.
pub fn supports(p: &PluginProfile, ext: &str) -> (r: bool)
    ensures
        r == supports_extension(*p, ext@),
{
    let mut j: usize = 0;
    while j < p.extensions.len()
        invariant
            j <= p.extensions@.len(),
            forall|t: int| 0 <= t < j ==> !same_ignoring_ascii_case(#[trigger] p.extensions@[t]@, ext@),
        decreases p.extensions@.len() - j,
    {
        if eq_ignore_ascii_case(p.extensions[j].as_str(), ext) {
            assert(same_ignoring_ascii_case(p.extensions@[j as int]@, ext@));
            return true;
        }
        j += 1;
    }
    false
}

/// The texts of `a` that also occur in `b`, in the order of `a`.
pub open spec fn common_texts(a: Seq<String>, b: Seq<String>) -> Seq<Seq<char>>
    decreases a.len(),
{
    if a.len() == 0 {
        Seq::empty()
    } else {
        let rest = common_texts(a.drop_last(), b);
        if listed_text(b, a.last()@) {
            rest.push(a.last()@)
        } else {
            rest
        }
    }
}

/// The extensions a scan lists, given those the active converters support
/// and those the caller asked for: without supported extensions, the
/// caller's; else those both name, or the supported ones where they name
/// none in common.
pub open spec fn merged_extensions(supported: Seq<String>, requested: Option<Seq<String>>) -> Option<
    Seq<Seq<char>>,
> {
    if supported.len() == 0 {
        match requested {
            Some(e) => Some(texts(e)),
            None => None,
        }
    } else {
        match requested {
            Some(e) => if common_texts(supported, e).len() > 0 {
                Some(common_texts(supported, e))
            } else {
                Some(texts(supported))
            },
            None => Some(texts(supported)),
        }
    }
}

/// The extensions to list in a scan: see [`merged_extensions`].
pub fn merge_extensions(supported: &Vec<String>, requested: &Option<Vec<String>>) -> (r: Option<
    Vec<String>,
>)
    ensures
        match r {
            Some(v) => merged_extensions(
                supported@,
                match requested {
                    Some(e) => Some(e@),
                    None => None,
                },
            ) == Some(texts(v@)),
            None => merged_extensions(
                supported@,
                match requested {
                    Some(e) => Some(e@),
                    None => None,
                },
            ) is None,
        },
{
    if supported.len() == 0 {
        return match requested {
            Some(e) => Some(copy_texts(e)),
            None => None,
        };
    }
    match requested {
        Some(e) => {
            let mut common: Vec<String> = Vec::new();
            let mut i: usize = 0;
            while i < supported.len()
                invariant
                    i <= supported@.len(),
                    texts(common@) == common_texts(supported@.take(i as int), e@),
                decreases supported@.len() - i,
            {
                assert(supported@.take(i + 1).drop_last() =~= supported@.take(i as int));
                if contains_text(e, supported[i].as_str()) {
                    common.push(supported[i].clone());
                    assert(texts(common@) =~= texts(common@.drop_last()).push(supported@[i as int]@));
                }
                i += 1;
            }
            assert(supported@.take(supported@.len() as int) =~= supported@);
            if common.len() > 0 {
                Some(common)
            } else {
                Some(copy_texts(supported))
            }
        },
        None => Some(copy_texts(supported)),
    }
}

impl PluginManager {
    /// The extensions of the converters named in `active`, list after list
    /// in the order of `active`; names of no converter add nothing.
    pub open spec fn active_extension_texts(&self, active: Seq<String>) -> Seq<Seq<char>>
        decreases active.len(),
    {
        if active.len() == 0 {
            Seq::empty()
        } else {
            self.active_extension_texts(active.drop_last()) + match self.plugin_named_spec(
                active.last()@,
            ) {
                Some(k) => texts(self.plugins@[k].extensions@),
                None => Seq::empty(),
            }
        }
    }

    /// The extensions supported by the converters named in `active`.
    pub fn active_extensions(&self, active: &Vec<String>) -> (r: Vec<String>)
        ensures
            texts(r@) == self.active_extension_texts(active@),
    {
        let mut r: Vec<String> = Vec::new();
        let mut i: usize = 0;
        while i < active.len()
            invariant
                i <= active@.len(),
                texts(r@) == self.active_extension_texts(active@.take(i as int)),
            decreases active@.len() - i,
        {
            let exts = self.get_supported_extensions(active[i].as_str());
            proof {
                assert(active@.take(i + 1).drop_last() =~= active@.take(i as int));
                assert(texts(exts@) == match self.plugin_named_spec(active@[i as int]@) {
                    Some(k) => texts(self.plugins@[k].extensions@),
                    None => Seq::<Seq<char>>::empty(),
                }) by {
                    match self.plugin_named_spec(active@[i as int]@) {
                        Some(k) => {
                            assert(texts(exts@) =~= texts(self.plugins@[k].extensions@));
                        },
                        None => {
                            assert(texts(exts@) =~= Seq::<Seq<char>>::empty());
                        },
                    }
                }
            }
            let ghost before = texts(r@);
            let mut j: usize = 0;
            while j < exts.len()
                invariant
                    j <= exts@.len(),
                    texts(r@) == before + texts(exts@.take(j as int)),
                decreases exts@.len() - j,
            {
                let ghost old_r = r@;
                r.push(exts[j].clone());
                assert(r@.drop_last() =~= old_r);
                assert(texts(r@) =~= texts(r@.drop_last()).push(exts@[j as int]@));
                assert(texts(exts@.take(j + 1)) =~= texts(exts@.take(j as int)).push(
                    exts@[j as int]@,
                ));
                assert(texts(r@) =~= before + texts(exts@.take(j + 1)));
                j += 1;
            }
            assert(exts@.take(exts@.len() as int) =~= exts@);
            i += 1;
        }
        assert(active@.take(active@.len() as int) =~= active@);
        r
    }

    /// The first name of `names` that belongs to no converter.
    pub fn first_unknown(&self, names: &Vec<String>) -> (r: Option<usize>)
        ensures
            match r {
                Some(i) => i < names@.len() && self.plugin_named_spec(names@[i as int]@) is None
                    && forall|j: int|
                    0 <= j < i ==> #[trigger] self.plugin_named_spec(names@[j]@) is Some,
                None => forall|j: int|
                    0 <= j < names@.len() ==> #[trigger] self.plugin_named_spec(names@[j]@) is Some,
            },
    {
        let mut i: usize = 0;
        while i < names.len()
            invariant
                i <= names@.len(),
                forall|j: int| 0 <= j < i ==> #[trigger] self.plugin_named_spec(names@[j]@) is Some,
            decreases names@.len() - i,
        {
            match self.plugin_named(names[i].as_str()) {
                Some(k) => {
                    proof {
                        self.lemma_named_found(names@[i as int]@, k as int);
                    }
                },
                None => {
                    proof {
                        self.lemma_named_absent(names@[i as int]@);
                    }
                    return Some(i);
                },
            }
            i += 1;
        }
        None
    }

    proof fn lemma_named_found(&self, name: Seq<char>, k: int)
        requires
            first_named(self.plugins@, name, k),
        ensures
            self.plugin_named_spec(name) == Some(k),
    {
        let c = choose|c: int| first_named(self.plugins@, name, c);
        assert(c == k) by {
            if c < k {
                assert(self.plugins@[c].metadata.name@ != name);
            } else if c > k {
                assert(self.plugins@[k].metadata.name@ != name);
            }
        }
    }

    proof fn lemma_named_absent(&self, name: Seq<char>)
        requires
            forall|j: int|
                0 <= j < self.plugins@.len() ==> (#[trigger] self.plugins@[j]).metadata.name@
                    != name,
        ensures
            self.plugin_named_spec(name) is None,
    {
        if exists|k: int| first_named(self.plugins@, name, k) {
            let k = choose|k: int| first_named(self.plugins@, name, k);
            assert(self.plugins@[k].metadata.name@ == name);
        }
    }

    /// The active converters that support `ext`, in registration order.
    pub open spec fn active_for_extension(&self, ext: Seq<char>, active: Seq<String>) -> Seq<int> {
        indices_where(
            self.plugins@.len(),
            |k: int| supports_extension(self.plugins@[k], ext) && is_active(self.plugins@[k], active),
        )
    }

    /// The active converters, in registration order.
    pub open spec fn active_indices(&self, active: Seq<String>) -> Seq<int> {
        indices_where(self.plugins@.len(), |k: int| is_active(self.plugins@[k], active))
    }

    /// The converters asked why they reject a file with extension `ext`: the
    /// active ones that support the extension, or, where none does, every
    /// active one; in registration order.
    pub fn rejection_candidates(&self, ext: &str, active: &Vec<String>) -> (r: Vec<usize>)
        ensures
            r@.map_values(|k: usize| k as int) == if self.active_for_extension(ext@, active@).len()
                > 0 {
                self.active_for_extension(ext@, active@)
            } else {
                self.active_indices(active@)
            },
    {
        let ghost p1 = |k: int|
            supports_extension(self.plugins@[k], ext@) && is_active(self.plugins@[k], active@);
        let ghost p2 = |k: int| is_active(self.plugins@[k], active@);
        let mut by_ext: Vec<usize> = Vec::new();
        let mut all: Vec<usize> = Vec::new();
        let mut i: usize = 0;
        while i < self.plugins.len()
            invariant
                i <= self.plugins@.len(),
                p1 == (|k: int|
                    supports_extension(self.plugins@[k], ext@) && is_active(
                        self.plugins@[k],
                        active@,
                    )),
                p2 == (|k: int| is_active(self.plugins@[k], active@)),
                by_ext@.map_values(|k: usize| k as int) == indices_where(i as nat, p1),
                all@.map_values(|k: usize| k as int) == indices_where(i as nat, p2),
            decreases self.plugins@.len() - i,
        {
            let p = &self.plugins[i];
            if contains_text(active, p.metadata.name.as_str()) {
                all.push(i);
                assert(all@.map_values(|k: usize| k as int) =~= all@.drop_last().map_values(
                    |k: usize| k as int,
                ).push(i as int));
                if supports(p, ext) {
                    by_ext.push(i);
                    assert(by_ext@.map_values(|k: usize| k as int) =~= by_ext@.drop_last().map_values(
                        |k: usize| k as int,
                    ).push(i as int));
                }
            }
            i += 1;
        }
        if by_ext.len() > 0 {
            by_ext
        } else {
            all
        }
    }
}

} // verus!
