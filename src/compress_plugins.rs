//! The registry of converters and the negotiation that picks one for a file.
//!
//! The registry holds, in registration order, what each converter says of
//! itself: its metadata and the extensions it supports. Whether a converter
//! accepts a given file is asked of the converter itself; the answers come
//! in here as one verdict per registered converter, and the registry decides
//! which converter runs.

use vstd::prelude::*;
use crate::text::{eq_ignore_ascii_case, same_ignoring_ascii_case, text_eq};

verus! {

/// The outcome of a successful conversion.
pub struct CompressionResult {
    pub original_size: u64,
    pub compressed_size: u64,
    pub output_path: String,
    pub plugin_name: String,
    pub files_processed: usize,
    pub backup_path: Option<String>,
}

/// What a converter says of itself; its name identifies it.
pub struct PluginMetadata {
    pub name: String,
    pub description: String,
    pub version: String,
}

impl PluginMetadata {
    /// The same metadata as `self`.
    pub open spec fn same_as(&self, o: PluginMetadata) -> bool {
        self.name@ == o.name@ && self.description@ == o.description@ && self.version@
            == o.version@
    }

    /// A copy of this metadata.
    pub fn duplicate(&self) -> (r: PluginMetadata)
        ensures
            r.same_as(*self),
    {
        PluginMetadata {
            name: self.name.clone(),
            description: self.description.clone(),
            version: self.version.clone(),
        }
    }
}

/// A registered converter: its metadata and the extensions it supports.
pub struct PluginProfile {
    pub metadata: PluginMetadata,
    pub extensions: Vec<String>,
}

/// `k` is the first converter of `plugins` with the given name.
pub open spec fn first_named(plugins: Seq<PluginProfile>, name: Seq<char>, k: int) -> bool {
    &&& 0 <= k < plugins.len()
    &&& plugins[k].metadata.name@ == name
    &&& forall|j: int| 0 <= j < k ==> (#[trigger] plugins[j]).metadata.name@ != name
}

/// `k` is the first converter whose verdict is positive.
pub open spec fn first_capable(verdicts: Seq<bool>, k: int) -> bool {
    &&& 0 <= k < verdicts.len()
    &&& verdicts[k]
    &&& forall|j: int| 0 <= j < k ==> !#[trigger] verdicts[j]
}

/// The first converter, in registration order, that accepts the file.
pub open spec fn default_choice(verdicts: Seq<bool>) -> Option<int> {
    if exists|k: int| first_capable(verdicts, k) {
        Some(choose|k: int| first_capable(verdicts, k))
    } else {
        None
    }
}

/// The converter picked by the names `order[p..]`: the first name that
/// belongs to a registered converter which accepts the file. Unknown names
/// and converters that decline are passed over.
pub open spec fn preferred_choice(
    plugins: Seq<PluginProfile>,
    verdicts: Seq<bool>,
    order: Seq<String>,
    p: int,
) -> Option<int>
    decreases order.len() - p,
{
    if p < 0 || p >= order.len() {
        None
    } else if exists|k: int| first_named(plugins, order[p]@, k) && verdicts[k] {
        Some(choose|k: int| first_named(plugins, order[p]@, k) && verdicts[k])
    } else {
        preferred_choice(plugins, verdicts, order, p + 1)
    }
}

/// The converter that runs on a file: the one the preferred order picks,
/// if any, else the first in registration order that accepts the file.
pub open spec fn resolve(
    plugins: Seq<PluginProfile>,
    verdicts: Seq<bool>,
    order: Option<Seq<String>>,
) -> Option<int> {
    let pref = match order {
        Some(o) => preferred_choice(plugins, verdicts, o, 0),
        None => None,
    };
    match pref {
        Some(k) => Some(k),
        None => default_choice(verdicts),
    }
}

/// `p` supports `ext`, ASCII case aside.
pub open spec fn supports_extension(p: PluginProfile, ext: Seq<char>) -> bool {
    exists|j: int| 0 <= j < p.extensions@.len() && same_ignoring_ascii_case(#[trigger] p.extensions@[j]@, ext)
}

/// The indices below `n` at which `pred` holds, in increasing order.
pub open spec fn indices_where(n: nat, pred: spec_fn(int) -> bool) -> Seq<int>
    decreases n,
{
    if n == 0 {
        Seq::empty()
    } else {
        let rest = indices_where((n - 1) as nat, pred);
        if pred(n - 1) {
            rest.push(n - 1)
        } else {
            rest
        }
    }
}

/// A conversion pays off when its output is strictly smaller than the input.
pub open spec fn pays_off(original_size: u64, compressed_size: u64) -> bool {
    compressed_size < original_size
}

/// Whether a conversion from `original_size` to `compressed_size` bytes is
/// kept: only a strictly smaller output is; otherwise the output is
/// discarded and the conversion fails, leaving the original untouched.
pub fn conversion_pays_off(original_size: u64, compressed_size: u64) -> (r: bool)
    ensures
        r == pays_off(original_size, compressed_size),
{
    compressed_size < original_size
}

/// The view of an optional list of names.
pub open spec fn opt_seq(o: Option<&Vec<String>>) -> Option<Seq<String>> {
    match o {
        Some(v) => Some(v@),
        None => None,
    }
}

/// An ordered registry of converters.
pub struct PluginManager {
    pub plugins: Vec<PluginProfile>,
}

impl PluginManager {
    /// An empty registry.
    pub fn new() -> (r: Self)
        ensures
            r.plugins@.len() == 0,
    {
        PluginManager { plugins: Vec::new() }
    }

    /// Adds a converter after those already registered.
    pub fn register(&mut self, plugin: PluginProfile)
        ensures
            final(self).plugins@ == old(self).plugins@.push(plugin),
    {
        self.plugins.push(plugin);
    }

    /// The metadata of every converter, in registration order.
    pub fn get_plugins(&self) -> (r: Vec<PluginMetadata>)
        ensures
            r@.len() == self.plugins@.len(),
            forall|i: int|
                0 <= i < r@.len() ==> #[trigger] r@[i].same_as(self.plugins@[i].metadata),
    {
        let mut r: Vec<PluginMetadata> = Vec::new();
        let mut i: usize = 0;
        while i < self.plugins.len()
            invariant
                i <= self.plugins@.len(),
                r@.len() == i,
                forall|j: int| 0 <= j < i ==> #[trigger] r@[j].same_as(self.plugins@[j].metadata),
            decreases self.plugins@.len() - i,
        {
            r.push(self.plugins[i].metadata.duplicate());
            i += 1;
        }
        r
    }

    /// The first converter, in registration order, whose verdict on the
    /// file is positive.
    pub fn find_plugin(&self, verdicts: &Vec<bool>) -> (r: Option<usize>)
        requires
            verdicts@.len() == self.plugins@.len(),
        ensures
            match r {
                Some(k) => first_capable(verdicts@, k as int),
                None => forall|j: int| 0 <= j < verdicts@.len() ==> !#[trigger] verdicts@[j],
            },
            r matches Some(k) ==> default_choice(verdicts@) == Some(k as int),
            r is None ==> default_choice(verdicts@) is None,
    {
        let mut i: usize = 0;
        while i < verdicts.len()
            invariant
                i <= verdicts@.len(),
                forall|j: int| 0 <= j < i ==> !#[trigger] verdicts@[j],
            decreases verdicts@.len() - i,
        {
            if verdicts[i] {
                proof {
                    assert(first_capable(verdicts@, i as int));
                    let k = choose|k: int| first_capable(verdicts@, k);
                    assert(first_capable(verdicts@, k));
                    assert(k == i as int) by {
                        if k < i {
                            assert(verdicts@[k]);
                        } else if k > i {
                            assert(verdicts@[i as int]);
                        }
                    }
                }
                return Some(i);
            }
            i += 1;
        }
        None
    }

    /// Every converter whose verdict on the file is positive, by index in
    /// registration order.
    pub fn find_all_plugins(&self, verdicts: &Vec<bool>) -> (r: Vec<usize>)
        requires
            verdicts@.len() == self.plugins@.len(),
        ensures
            r@.map_values(|k: usize| k as int) == indices_where(
                verdicts@.len(),
                |k: int| verdicts@[k],
            ),
    {
        let ghost pred = |k: int| verdicts@[k];
        let mut r: Vec<usize> = Vec::new();
        let mut i: usize = 0;
        while i < verdicts.len()
            invariant
                i <= verdicts@.len(),
                pred == (|k: int| verdicts@[k]),
                r@.map_values(|k: usize| k as int) == indices_where(i as nat, pred),
            decreases verdicts@.len() - i,
        {
            if verdicts[i] {
                r.push(i);
                assert(r@.map_values(|k: usize| k as int) =~= r@.drop_last().map_values(
                    |k: usize| k as int,
                ).push(i as int));
            }
            i += 1;
        }
        r
    }

    /// The first converter registered under `name`.
    pub fn plugin_named(&self, name: &str) -> (r: Option<usize>)
        ensures
            match r {
                Some(k) => first_named(self.plugins@, name@, k as int),
                None => forall|j: int|
                    0 <= j < self.plugins@.len() ==> (#[trigger] self.plugins@[j]).metadata.name@
                        != name@,
            },
    {
        let mut i: usize = 0;
        while i < self.plugins.len()
            invariant
                i <= self.plugins@.len(),
                forall|j: int| 0 <= j < i ==> (#[trigger] self.plugins@[j]).metadata.name@ != name@,
            decreases self.plugins@.len() - i,
        {
            if text_eq(self.plugins[i].metadata.name.as_str(), name) {
                return Some(i);
            }
            i += 1;
        }
        None
    }

    /// The converter picked by the names of `order`: the first name that
    /// belongs to a registered converter which accepts the file (by its
    /// verdict); unknown names and converters that decline are passed over.
    pub fn first_accepting(&self, verdicts: &Vec<bool>, order: &Vec<String>) -> (r: Option<usize>)
        requires
            verdicts@.len() == self.plugins@.len(),
        ensures
            match r {
                Some(k) => k < self.plugins@.len() && verdicts@[k as int] && preferred_choice(
                    self.plugins@,
                    verdicts@,
                    order@,
                    0,
                ) == Some(k as int),
                None => preferred_choice(self.plugins@, verdicts@, order@, 0) is None,
            },
    {
        let mut p: usize = 0;
        while p < order.len()
            invariant
                p <= order@.len(),
                verdicts@.len() == self.plugins@.len(),
                preferred_choice(self.plugins@, verdicts@, order@, 0) == preferred_choice(
                    self.plugins@,
                    verdicts@,
                    order@,
                    p as int,
                ),
            decreases order@.len() - p,
        {
            match self.plugin_named(order[p].as_str()) {
                Some(k) => {
                    if verdicts[k] {
                        proof {
                            assert(first_named(self.plugins@, order@[p as int]@, k as int)
                                && verdicts@[k as int]);
                            let c = choose|c: int|
                                first_named(self.plugins@, order@[p as int]@, c) && verdicts@[c];
                            assert(c == k as int) by {
                                if c < k {
                                    assert(self.plugins@[c].metadata.name@ != order@[p as int]@);
                                } else if c > k {
                                    assert(self.plugins@[k as int].metadata.name@
                                        != order@[p as int]@);
                                }
                            }
                        }
                        return Some(k);
                    }
                    proof {
                        assert forall|c: int|
                            !(first_named(self.plugins@, order@[p as int]@, c) && verdicts@[c]) by {
                            if first_named(self.plugins@, order@[p as int]@, c) {
                                if c < k {
                                    assert(self.plugins@[c].metadata.name@ != order@[p as int]@);
                                } else if c > k {
                                    assert(self.plugins@[k as int].metadata.name@
                                        != order@[p as int]@);
                                }
                            }
                        }
                    }
                },
                None => {},
            }
            p += 1;
        }
        None
    }

    /// The converter that runs on a file, given each converter's verdict on
    /// it and, optionally, names to try first: the first of those names that
    /// belongs to a converter which accepts the file wins; unknown names and
    /// converters that decline are passed over. Failing that, the first
    /// converter in registration order that accepts the file runs. `None`:
    /// no converter accepts the file.
    pub fn choose_plugin(&self, verdicts: &Vec<bool>, preferred_order: Option<&Vec<String>>) -> (r:
        Option<usize>)
        requires
            verdicts@.len() == self.plugins@.len(),
        ensures
            r matches Some(k) ==> k < self.plugins@.len() && verdicts@[k as int],
            match r {
                Some(k) => resolve(self.plugins@, verdicts@, opt_seq(preferred_order)) == Some(
                    k as int,
                ),
                None => resolve(self.plugins@, verdicts@, opt_seq(preferred_order)) is None,
            },
    {
        match preferred_order {
            Some(order) => {
                match self.first_accepting(verdicts, order) {
                    Some(k) => {
                        return Some(k);
                    },
                    None => {},
                }
            },
            None => {},
        }
        self.find_plugin(verdicts)
    }

    /// The metadata of every converter that supports `extension`, ASCII case
    /// aside, in registration order.
    pub fn get_plugins_by_extension(&self, extension: &str) -> (r: Vec<PluginMetadata>)
        ensures
            r@.len() == self.extension_indices(extension@).len(),
            forall|i: int|
                0 <= i < r@.len() ==> #[trigger] r@[i].same_as(
                    self.plugins@[self.extension_indices(extension@)[i]].metadata,
                ),
    {
        let ghost pred = |k: int| supports_extension(self.plugins@[k], extension@);
        let mut r: Vec<PluginMetadata> = Vec::new();
        let mut i: usize = 0;
        while i < self.plugins.len()
            invariant
                i <= self.plugins@.len(),
                pred == (|k: int| supports_extension(self.plugins@[k], extension@)),
                r@.len() == indices_where(i as nat, pred).len(),
                forall|x: int|
                    0 <= x < r@.len() ==> #[trigger] r@[x].same_as(
                        self.plugins@[indices_where(i as nat, pred)[x]].metadata,
                    ),
            decreases self.plugins@.len() - i,
        {
            let p = &self.plugins[i];
            let mut j: usize = 0;
            let mut found = false;
            while j < p.extensions.len()
                invariant
                    j <= p.extensions@.len(),
                    found == exists|t: int|
                        0 <= t < j && same_ignoring_ascii_case(
                            #[trigger] p.extensions@[t]@,
                            extension@,
                        ),
                decreases p.extensions@.len() - j,
            {
                if eq_ignore_ascii_case(p.extensions[j].as_str(), extension) {
                    found = true;
                }
                j += 1;
            }
            if found {
                r.push(p.metadata.duplicate());
            }
            i += 1;
        }
        r
    }

    /// The extensions of the first converter registered under `plugin_name`;
    /// none when no converter has that name.
    pub fn get_supported_extensions(&self, plugin_name: &str) -> (r: Vec<String>)
        ensures
            match self.plugin_named_spec(plugin_name@) {
                Some(k) => r@.len() == self.plugins@[k].extensions@.len() && forall|i: int|
                    0 <= i < r@.len() ==> #[trigger] r@[i]@
                        == self.plugins@[k].extensions@[i]@,
                None => r@.len() == 0,
            },
    {
        match self.plugin_named(plugin_name) {
            Some(k) => {
                proof {
                    self.lemma_first_named_unique(plugin_name@, k as int);
                }
                let exts = &self.plugins[k].extensions;
                let mut r: Vec<String> = Vec::new();
                let mut i: usize = 0;
                while i < exts.len()
                    invariant
                        i <= exts@.len(),
                        r@.len() == i,
                        forall|j: int| 0 <= j < i ==> #[trigger] r@[j]@ == exts@[j]@,
                    decreases exts@.len() - i,
                {
                    r.push(exts[i].clone());
                    i += 1;
                }
                r
            },
            None => Vec::new(),
        }
    }

    /// The indices of the converters that support `ext`, in order.
    pub open spec fn extension_indices(&self, ext: Seq<char>) -> Seq<int> {
        indices_where(self.plugins@.len(), |k: int| supports_extension(self.plugins@[k], ext))
    }

    /// The first converter registered under `name`.
    pub open spec fn plugin_named_spec(&self, name: Seq<char>) -> Option<int> {
        if exists|k: int| first_named(self.plugins@, name, k) {
            Some(choose|k: int| first_named(self.plugins@, name, k))
        } else {
            None
        }
    }

    proof fn lemma_first_named_unique(&self, name: Seq<char>, k: int)
        requires
            first_named(self.plugins@, name, k),
        ensures
            self.plugin_named_spec(name) == Some(k),
    {
        let c = choose|c: int| first_named(self.plugins@, name, c);
        assert(c == k) by {
            if c < k {
                assert(self.plugins@[c].metadata.name@ != name);
            } else if c > k {
                assert(self.plugins@[k].metadata.name@ != name);
            }
        }
    }
}

} // verus!
