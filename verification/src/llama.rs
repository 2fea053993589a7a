//! The registry of local model files the user has loaded, and the current one.

pub mod params;

use crate::text::bytes_equal;
use vstd::prelude::*;

verus! {

/// A loaded model: its name and description.
pub struct ModelInfo {
    pub name: String,
    pub desc: String,
}

impl ModelInfo {
    /// The model's name and description.
    pub open spec fn info_view(&self) -> (Seq<char>, Seq<char>) {
        (self.name@, self.desc@)
    }

    /// A copy of this record.
    pub fn duplicate(&self) -> (m: Self)
        ensures
            m.info_view() == self.info_view(),
    {
        ModelInfo { name: self.name.clone(), desc: self.desc.clone() }
    }
}

/// A registry entry: the model file's path, as the bytes of its platform encoding,
/// and what was learned when loading it.
pub type ModelEntry = (Seq<u8>, (Seq<char>, Seq<char>));

/// Position of the first entry of `s` at or after `i` whose path is `path`.
pub open spec fn find_path_from(s: Seq<ModelEntry>, path: Seq<u8>, i: int) -> Option<int>
    decreases s.len() - i,
{
    if i < 0 || i >= s.len() {
        None
    } else if s[i].0 == path {
        Some(i)
    } else {
        find_path_from(s, path, i + 1)
    }
}

/// What the registry `s` records for `path`.
pub open spec fn lookup(s: Seq<ModelEntry>, path: Seq<u8>) -> Option<(Seq<char>, Seq<char>)> {
    match find_path_from(s, path, 0) {
        Some(i) => Some(s[i].1),
        None => None,
    }
}

/// The registry `s` with `path` recorded as `info`: the entry for `path` is replaced
/// where there is one, and appended where there is none.
pub open spec fn record(s: Seq<ModelEntry>, path: Seq<u8>, info: (Seq<char>, Seq<char>)) -> Seq<
    ModelEntry,
> {
    match find_path_from(s, path, 0) {
        Some(i) => s.update(i, (path, info)),
        None => s.push((path, info)),
    }
}

/// The entries of `s` whose flag in `keep` is set, in order.
pub open spec fn retained(s: Seq<ModelEntry>, keep: Seq<bool>) -> Seq<ModelEntry>
    decreases s.len(),
{
    if s.len() == 0 {
        s
    } else {
        let rest = retained(s.drop_last(), keep.drop_last());
        if keep.last() {
            rest.push(s.last())
        } else {
            rest
        }
    }
}

/// No path occurs twice in the registry `s`.
pub open spec fn paths_unique(s: Seq<ModelEntry>) -> bool {
    forall|i: int, j: int| 0 <= i < j < s.len() ==> #[trigger] s[i].0 != #[trigger] s[j].0
}

/// The models the user has loaded, keyed by the bytes of their file paths, and the
/// current one.
pub struct Llama {
    current_model: Option<(Vec<u8>, ModelInfo)>,
    models: Vec<(Vec<u8>, ModelInfo)>,
}

/// The entries of a list of (path, info) pairs.
pub open spec fn entries_of(v: Seq<(Vec<u8>, ModelInfo)>) -> Seq<ModelEntry> {
    v.map_values(|e: (Vec<u8>, ModelInfo)| (e.0@, e.1.info_view()))
}

proof fn lemma_find_path_from(s: Seq<ModelEntry>, path: Seq<u8>, i: int)
    requires
        0 <= i,
    ensures
        match find_path_from(s, path, i) {
            Some(k) => i <= k < s.len() && s[k].0 == path && forall|j: int|
                i <= j < k ==> s[j].0 != path,
            None => forall|j: int| i <= j < s.len() ==> s[j].0 != path,
        },
    decreases s.len() - i,
{
    if i < s.len() && s[i].0 != path {
        lemma_find_path_from(s, path, i + 1);
    }
}

proof fn lemma_find_path_unique(s: Seq<ModelEntry>, path: Seq<u8>, k: int)
    requires
        0 <= k < s.len(),
        s[k].0 == path,
        forall|j: int| 0 <= j < k ==> s[j].0 != path,
    ensures
        find_path_from(s, path, 0) == Some(k),
{
    lemma_find_path_from(s, path, 0);
}

impl Llama {
    /// The registry, in the order models were first loaded.
    pub closed spec fn registry(&self) -> Seq<ModelEntry> {
        entries_of(self.models@)
    }

    /// The current model, if any: its path and information.
    pub closed spec fn current(&self) -> Option<ModelEntry> {
        match self.current_model {
            Some((p, m)) => Some((p@, m.info_view())),
            None => None,
        }
    }

    /// No models loaded.
    pub fn new() -> (l: Self)
        ensures
            l.registry() == Seq::<ModelEntry>::empty(),
            paths_unique(l.registry()),
            l.current() is None,
    {
        let l = Llama { current_model: None, models: Vec::new() };
        assert(l.registry() =~= Seq::<ModelEntry>::empty());
        l
    }

    /// Whether no model has been recorded.
    pub fn is_empty(&self) -> (b: bool)
        ensures
            b == (self.registry().len() == 0),
    {
        self.models.len() == 0
    }

    /// Records that the model file at `path` was loaded and is described by `info`,
    /// and makes it the current model.
    pub fn record_model(&mut self, path: Vec<u8>, info: ModelInfo)
        ensures
            final(self).registry() == record(old(self).registry(), path@, info.info_view()),
            paths_unique(old(self).registry()) ==> paths_unique(final(self).registry()),
            final(self).current() == Some((path@, info.info_view())),
    {
        let ghost s = self.registry();
        proof {
            if paths_unique(s) {
                law_record_keeps_paths_unique(s, path@, info.info_view());
            }
        }
        let found = self.find_index(&path);
        let entry = (path.clone(), info.duplicate());
        match found {
            Some(i) => {
                let ghost before = self.models@;
                let _ = self.models.remove(i);
                self.models.insert(i, entry);
                assert(self.models@ =~= before.update(i as int, entry));
                assert(entries_of(self.models@) =~= s.update(i as int, (path@, info.info_view())));
            },
            None => {
                let ghost before = self.models@;
                self.models.push(entry);
                assert(entries_of(self.models@) =~= s.push((path@, info.info_view())));
            },
        }
        self.current_model = Some((path, info));
    }

    fn find_index(&self, path: &Vec<u8>) -> (r: Option<usize>)
        ensures
            match r {
                Some(i) => find_path_from(self.registry(), path@, 0) == Some(i as int) && i
                    < self.models@.len(),
                None => find_path_from(self.registry(), path@, 0) is None,
            },
    {
        let n = self.models.len();
        let mut i: usize = 0;
        while i < n
            invariant
                n == self.models@.len(),
                i <= n,
                forall|j: int| 0 <= j < i ==> self.registry()[j].0 != path@,
            decreases n - i,
        {
            if bytes_equal(&self.models[i].0, path) {
                proof {
                    lemma_find_path_unique(self.registry(), path@, i as int);
                }
                return Some(i);
            }
            i = i + 1;
        }
        proof {
            lemma_find_path_from(self.registry(), path@, 0);
        }
        None
    }

    /// What was recorded for the model file at `path`.
    pub fn get_model_info(&self, path: &Vec<u8>) -> (r: Option<&ModelInfo>)
        ensures
            match r {
                Some(m) => lookup(self.registry(), path@) == Some(m.info_view()),
                None => lookup(self.registry(), path@) is None,
            },
    {
        match self.find_index(path) {
            Some(i) => {
                assert(self.registry()[i as int] == (
                    self.models@[i as int].0@,
                    self.models@[i as int].1.info_view(),
                ));
                Some(&self.models[i].1)
            },
            None => None,
        }
    }

    /// The current model's path and information.
    pub fn current_model(&self) -> (r: Option<(&Vec<u8>, &ModelInfo)>)
        ensures
            match r {
                Some((p, m)) => self.current() == Some((p@, m.info_view())),
                None => self.current() is None,
            },
    {
        match &self.current_model {
            Some((p, m)) => Some((p, m)),
            None => None,
        }
    }

    /// Forgets the models whose flag in `keep` is unset (the files that no longer
    /// exist), keeping the others in order.
    pub fn retain_models(&mut self, keep: &Vec<bool>)
        requires
            keep@.len() == old(self).registry().len(),
        ensures
            final(self).registry() == retained(old(self).registry(), keep@),
            paths_unique(old(self).registry()) ==> paths_unique(final(self).registry()),
            final(self).current() == old(self).current(),
    {
        let ghost s = self.registry();
        proof {
            if paths_unique(s) {
                law_retain_keeps_paths_unique(s, keep@);
            }
        }
        let n = self.models.len();
        let mut remaining: Vec<(Vec<u8>, ModelInfo)> = Vec::new();
        std::mem::swap(&mut remaining, &mut self.models);
        let ghost orig = remaining@;
        let mut kept: Vec<(Vec<u8>, ModelInfo)> = Vec::new();
        let mut i: usize = 0;
        assert(entries_of(kept@) =~= retained(s.take(0), keep@.take(0)));
        while i < n
            invariant
                n == orig.len(),
                keep@.len() == n,
                s == entries_of(orig),
                i <= n,
                remaining@ == orig.skip(i as int),
                entries_of(kept@) == retained(s.take(i as int), keep@.take(i as int)),
            decreases n - i,
        {
            let item = remaining.remove(0);
            proof {
                assert(item == orig[i as int]);
                assert(s.take(i + 1).drop_last() =~= s.take(i as int));
                assert(keep@.take(i + 1).drop_last() =~= keep@.take(i as int));
                assert(s.take(i + 1).last() == s[i as int]);
            }
            if keep[i] {
                let ghost before = kept@;
                kept.push(item);
                assert(entries_of(kept@) =~= entries_of(before).push(s[i as int]));
            }
            i = i + 1;
            assert(remaining@ =~= orig.skip(i as int));
        }
        assert(s.take(n as int) =~= s);
        assert(keep@.take(n as int) =~= keep@);
        self.models = kept;
    }

    /// The recorded models, in the order they were first loaded.
    pub fn models(&self) -> (r: &Vec<(Vec<u8>, ModelInfo)>)
        ensures
            entries_of(r@) == self.registry(),
    {
        &self.models
    }
}

/// A lookup reads back what was recorded: after `path` is recorded as `info`, looking
/// up `path` gives `info`, and every other path gives what it gave before.
pub proof fn law_lookup_after_record(
    s: Seq<ModelEntry>,
    path: Seq<u8>,
    info: (Seq<char>, Seq<char>),
    other: Seq<u8>,
)
    ensures
        lookup(record(s, path, info), path) == Some(info),
        other != path ==> lookup(record(s, path, info), other) == lookup(s, other),
{
    lemma_find_path_from(s, path, 0);
    lemma_find_path_from(s, other, 0);
    let t = record(s, path, info);
    match find_path_from(s, path, 0) {
        Some(i) => {
            assert forall|j: int| 0 <= j < i implies t[j].0 != path by {}
            lemma_find_path_unique(t, path, i);
            if other != path {
                lemma_find_path_from(t, other, 0);
                match find_path_from(s, other, 0) {
                    Some(k) => {
                        lemma_find_path_unique(t, other, k);
                    },
                    None => {},
                }
            }
        },
        None => {
            assert forall|j: int| 0 <= j < s.len() implies t[j].0 != path by {}
            lemma_find_path_unique(t, path, s.len() as int);
            if other != path {
                lemma_find_path_from(t, other, 0);
                match find_path_from(s, other, 0) {
                    Some(k) => {
                        lemma_find_path_unique(t, other, k);
                    },
                    None => {},
                }
            }
        },
    }
}

/// Recording a path that is already there keeps the number of models; recording a new
/// one adds exactly one.
pub proof fn law_record_size(s: Seq<ModelEntry>, path: Seq<u8>, info: (Seq<char>, Seq<char>))
    ensures
        lookup(s, path) is Some ==> record(s, path, info).len() == s.len(),
        lookup(s, path) is None ==> record(s, path, info).len() == s.len() + 1,
{
    lemma_find_path_from(s, path, 0);
}

/// Recording keeps each path once: where no path occurs twice in `s`, none occurs
/// twice after `path` is recorded.
pub proof fn law_record_keeps_paths_unique(
    s: Seq<ModelEntry>,
    path: Seq<u8>,
    info: (Seq<char>, Seq<char>),
)
    requires
        paths_unique(s),
    ensures
        paths_unique(record(s, path, info)),
{
    lemma_find_path_from(s, path, 0);
    let t = record(s, path, info);
    assert forall|i: int, j: int| 0 <= i < j < t.len() implies #[trigger] t[i].0 != #[trigger] t[j].0 by {
        if j == s.len() {
            assert(t[i] == s[i]);
        } else {
            assert(t[i].0 == s[i].0);
            assert(t[j].0 == s[j].0);
        }
    }
}

proof fn lemma_retained_from(s: Seq<ModelEntry>, keep: Seq<bool>)
    requires
        keep.len() == s.len(),
    ensures
        forall|i: int| 0 <= i < retained(s, keep).len() ==> s.contains(#[trigger] retained(s, keep)[i]),
        paths_unique(s) ==> paths_unique(retained(s, keep)),
    decreases s.len(),
{
    if s.len() > 0 {
        let init = s.drop_last();
        let rest = retained(init, keep.drop_last());
        lemma_retained_from(init, keep.drop_last());
        let r = retained(s, keep);
        assert(r == if keep.last() {
            rest.push(s.last())
        } else {
            rest
        });
        assert forall|i: int| 0 <= i < r.len() implies s.contains(#[trigger] r[i]) by {
            if i < rest.len() {
                assert(init.contains(rest[i]));
                let j = choose|j: int| 0 <= j < init.len() && init[j] == rest[i];
                assert(s[j] == r[i]);
            } else {
                assert(s[s.len() - 1] == r[i]);
            }
        }
        if paths_unique(s) {
            assert forall|i: int, j: int| 0 <= i < j < r.len() implies #[trigger] r[i].0
                != #[trigger] r[j].0 by {
                if j >= rest.len() {
                    assert(init.contains(rest[i]));
                    let k = choose|k: int| 0 <= k < init.len() && init[k] == rest[i];
                    assert(r[i] == s[k]);
                    assert(r[j] == s[s.len() - 1]);
                }
            }
        }
    }
}

/// Forgetting models keeps each path once: where no path occurs twice in `s`, none
/// occurs twice in the entries kept.
pub proof fn law_retain_keeps_paths_unique(s: Seq<ModelEntry>, keep: Seq<bool>)
    requires
        paths_unique(s),
        keep.len() == s.len(),
    ensures
        paths_unique(retained(s, keep)),
{
    lemma_retained_from(s, keep);
}

} // verus!