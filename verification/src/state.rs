//! The installation state: the record of what is installed, keyed by
//! package name.
//!
//! The state here is the in-memory mapping and its invariants: names are
//! unique, and an entry's artifact list is de-duplicated (set semantics
//! over insertion order) when it is inserted. Reading the state file,
//! writing it back and holding the lock-file sentinel are the callers'
//! side; a rejected insert leaves the state untouched, so nothing stale
//! can be written back.
use vstd::prelude::*;

use crate::error::BinmanError;
use crate::error::BinmanResult;
use crate::error::Cause;
use crate::fuzzy_semver::Version;
use crate::fuzzy_semver::VersionView;
use crate::text::strings_equal;

verus! {

/// The mathematical value of one installation record.
pub struct StateEntryView {
    pub name: Seq<char>,
    pub artifacts: Seq<Seq<char>>,
    pub url: Seq<char>,
    pub version: VersionView,
}

/// One installation record: the package name, the repository URL it came
/// from, the installed version, and the artifact paths it owns.
#[derive(Debug)]
pub struct StateEntry {
    pub name: String,
    pub artifacts: Vec<String>,
    pub url: String,
    pub version: Version,
}

impl View for StateEntry {
    type V = StateEntryView;

    open spec fn view(&self) -> StateEntryView {
        StateEntryView {
            name: self.name@,
            artifacts: self.artifacts.deep_view(),
            url: self.url@,
            version: self.version@,
        }
    }
}

impl Clone for StateEntry {
    fn clone(&self) -> (r: Self)
        ensures
            r@ == self@,
    {
        let mut artifacts: Vec<String> = Vec::new();
        let mut i: usize = 0;
        while i < self.artifacts.len()
            invariant
                i <= self.artifacts@.len(),
                artifacts@.len() == i,
                forall|k: int| 0 <= k < i ==> artifacts@[k]@ == #[trigger] self.artifacts@[k]@,
            decreases self.artifacts@.len() - i,
        {
            artifacts.push(self.artifacts[i].clone());
            i = i + 1;
        }
        proof {
            assert(artifacts.deep_view() =~= self.artifacts.deep_view());
        }
        StateEntry {
            name: self.name.clone(),
            artifacts,
            url: self.url.clone(),
            version: self.version.clone(),
        }
    }
}

/// The values of `s` with later duplicates dropped: each value keeps its
/// first occurrence only.
pub open spec fn spec_dedup(s: Seq<Seq<char>>) -> Seq<Seq<char>>
    decreases s.len(),
{
    if s.len() == 0 {
        Seq::empty()
    } else {
        let rest = spec_dedup(s.drop_last());
        if rest.contains(s.last()) {
            rest
        } else {
            rest.push(s.last())
        }
    }
}

/// De-duplicates a list of paths, keeping first occurrences in order.
fn dedup_strings(items: Vec<String>) -> (r: Vec<String>)
    ensures
        r.deep_view() == spec_dedup(items.deep_view()),
{
    let ghost s = items.deep_view();
    let mut out: Vec<String> = Vec::new();
    let mut i: usize = 0;
    proof {
        assert(s.take(0) =~= Seq::<Seq<char>>::empty());
        assert(out.deep_view() =~= spec_dedup(s.take(0)));
    }
    while i < items.len()
        invariant
            i <= items@.len(),
            s == items.deep_view(),
            s.len() == items@.len(),
            out.deep_view() == spec_dedup(s.take(i as int)),
        decreases items@.len() - i,
    {
        let mut seen = false;
        let mut j: usize = 0;
        while j < out.len()
            invariant
                j <= out@.len(),
                i < items@.len(),
                s == items.deep_view(),
                s.len() == items@.len(),
                seen == out.deep_view().take(j as int).contains(s[i as int]),
            decreases out@.len() - j,
        {
            proof {
                assert(out.deep_view().take(j + 1).drop_last() =~= out.deep_view().take(j as int));
                assert(out.deep_view().take(j + 1).last() == out.deep_view()[j as int]);
                assert(out.deep_view()[j as int] == out@[j as int]@);
                assert(s[i as int] == items@[i as int]@);
            }
            if strings_equal(out[j].as_str(), items[i].as_str()) {
                seen = true;
            }
            proof {
                if seen {
                    assert(out.deep_view().take(j + 1).contains(s[i as int])) by {
                        if out@[j as int]@ == items@[i as int]@ {
                            assert(out.deep_view().take(j + 1).last() == s[i as int]);
                        } else {
                            assert(out.deep_view().take(j as int).contains(s[i as int]));
                            let k = choose|k: int|
                                0 <= k < j && #[trigger] out.deep_view().take(j as int)[k] == s[i as int];
                            assert(out.deep_view().take(j + 1)[k] == s[i as int]);
                        }
                    }
                } else {
                    assert(!out.deep_view().take(j + 1).contains(s[i as int])) by {
                        if out.deep_view().take(j + 1).contains(s[i as int]) {
                            let k = choose|k: int|
                                0 <= k <= j && #[trigger] out.deep_view().take(j + 1)[k] == s[i as int];
                            if k < j {
                                assert(out.deep_view().take(j as int)[k] == s[i as int]);
                            }
                        }
                    }
                }
            }
            j = j + 1;
        }
        proof {
            assert(out.deep_view().take(out@.len() as int) =~= out.deep_view());
            assert(seen == out.deep_view().contains(s[i as int]));
            assert(s.take(i + 1).drop_last() =~= s.take(i as int));
            assert(s.take(i + 1).last() == s[i as int]);
        }
        if !seen {
            out.push(items[i].clone());
            proof {
                assert(out.deep_view() =~= spec_dedup(s.take(i as int)).push(s[i as int]));
            }
        }
        i = i + 1;
    }
    proof {
        assert(s.take(i as int) =~= s);
    }
    out
}

/// The locally persisted record of what is installed.
pub struct State {
    path: String,
    entries: Vec<StateEntry>,
}

/// The first entry of `s` with the given name, if any.
pub open spec fn spec_lookup(s: Seq<StateEntryView>, name: Seq<char>) -> Option<StateEntryView> {
    if exists|i: int| 0 <= i < s.len() && (#[trigger] s[i]).name == name {
        Some(s[choose|i: int| 0 <= i < s.len() && (#[trigger] s[i]).name == name])
    } else {
        None
    }
}

impl State {
    /// The values of the records, in insertion order.
    pub closed spec fn entries_view(&self) -> Seq<StateEntryView> {
        self.entries@.map_values(|e: StateEntry| e@)
    }

    /// The path of the state file this state was opened from.
    pub closed spec fn spec_path(&self) -> Seq<char> {
        self.path@
    }

    /// Well-formed: no two records share a name.
    pub open spec fn wf(&self) -> bool {
        forall|i: int, j: int|
            0 <= i < j < self.entries_view().len() ==> (#[trigger] self.entries_view()[i]).name != (
            #[trigger] self.entries_view()[j]).name
    }

    /// An empty state for the given state-file path.
    pub fn new(path: &str) -> (r: State)
        ensures
            r.entries_view().len() == 0,
            r.wf(),
            r.spec_path() == path@,
    {
        let r = State { path: path.to_owned(), entries: Vec::new() };
        proof {
            assert(r.entries_view() =~= Seq::<StateEntryView>::empty());
        }
        r
    }

    /// The path of the state file.
    pub fn path(&self) -> (r: &String)
        ensures
            r@ == self.spec_path(),
    {
        &self.path
    }

    /// Finds the index of the record with the given name, if any.
    fn index_of_name(&self, name: &str) -> (r: Option<usize>)
        ensures
            match r {
                Some(i) => i < self.entries_view().len() && self.entries_view()[i as int].name
                    == name@,
                None => !exists|i: int|
                    0 <= i < self.entries_view().len() && (#[trigger] self.entries_view()[i]).name
                        == name@,
            },
    {
        let mut i: usize = 0;
        while i < self.entries.len()
            invariant
                i <= self.entries@.len(),
                self.entries_view().len() == self.entries@.len(),
                forall|k: int|
                    0 <= k < i ==> (#[trigger] self.entries_view()[k]).name != name@,
            decreases self.entries@.len() - i,
        {
            proof {
                assert(self.entries_view()[i as int] == self.entries@[i as int]@);
            }
            if strings_equal(self.entries[i].name.as_str(), name) {
                return Some(i);
            }
            i = i + 1;
        }
        None
    }

    /// The record with the given name, if one is installed.
    pub fn get(&self, name: &str) -> (r: Option<&StateEntry>)
        requires
            self.wf(),
        ensures
            match r {
                Some(e) => spec_lookup(self.entries_view(), name@) == Some(e@),
                None => spec_lookup(self.entries_view(), name@) is None,
            },
    {
        match self.index_of_name(name) {
            Some(i) => {
                let e = &self.entries[i];
                proof {
                    assert(self.entries_view()[i as int] == e@);
                    let w = choose|k: int|
                        0 <= k < self.entries_view().len() && (#[trigger] self.entries_view()[k]).name
                            == name@;
                    assert(w == i as int);
                }
                Some(e)
            },
            None => None,
        }
    }

    /// A copy of the record with the given name, if one is installed.
    pub fn get_copy(&self, name: &str) -> (r: Option<StateEntry>)
        requires
            self.wf(),
        ensures
            match r {
                Some(e) => spec_lookup(self.entries_view(), name@) == Some(e@),
                None => spec_lookup(self.entries_view(), name@) is None,
            },
    {
        match self.get(name) {
            Some(e) => Some(e.clone()),
            None => None,
        }
    }

    /// Every installed record, in insertion order.
    pub fn list(&self) -> (r: Vec<&StateEntry>)
        ensures
            r@.len() == self.entries_view().len(),
            forall|i: int| 0 <= i < r@.len() ==> r@[i]@ == #[trigger] self.entries_view()[i],
    {
        let mut out: Vec<&StateEntry> = Vec::new();
        let mut i: usize = 0;
        while i < self.entries.len()
            invariant
                i <= self.entries@.len(),
                self.entries_view().len() == self.entries@.len(),
                out@.len() == i,
                forall|k: int| 0 <= k < i ==> out@[k]@ == #[trigger] self.entries_view()[k],
            decreases self.entries@.len() - i,
        {
            out.push(&self.entries[i]);
            i = i + 1;
        }
        out
    }

    /// Inserts a new record, de-duplicating its artifact paths; a record
    /// whose name is already present is rejected with `AlreadyExists` and
    /// the state is left exactly as it was.
    pub fn insert(&mut self, entry: StateEntry) -> (r: BinmanResult<()>)
        requires
            old(self).wf(),
        ensures
            final(self).spec_path() == old(self).spec_path(),
            match r {
                Ok(_) => {
                    &&& spec_lookup(old(self).entries_view(), entry@.name) is None
                    &&& final(self).entries_view() == old(self).entries_view().push(
                        StateEntryView {
                            name: entry@.name,
                            artifacts: spec_dedup(entry@.artifacts),
                            url: entry@.url,
                            version: entry@.version,
                        },
                    )
                    &&& final(self).wf()
                },
                Err(e) => {
                    &&& spec_lookup(old(self).entries_view(), entry@.name) is Some
                    &&& e.cause == Cause::AlreadyExists
                    &&& *final(self) == *old(self)
                },
            },
    {
        match self.index_of_name(entry.name.as_str()) {
            Some(_) => {
                proof {
                    let w = choose|k: int|
                        0 <= k < self.entries_view().len() && (#[trigger] self.entries_view()[k]).name
                            == entry@.name;
                }
                Err(BinmanError::new(Cause::AlreadyExists, "target already in state"))
            },
            None => {
                let StateEntry { name, artifacts, url, version } = entry;
                let deduped = dedup_strings(artifacts);
                let new_entry = StateEntry { name, artifacts: deduped, url, version };
                let ghost before = self.entries_view();
                self.entries.push(new_entry);
                proof {
                    assert(self.entries_view() =~= before.push(
                        StateEntryView {
                            name: entry@.name,
                            artifacts: spec_dedup(entry@.artifacts),
                            url: entry@.url,
                            version: entry@.version,
                        },
                    ));
                    assert forall|i: int, j: int|
                        0 <= i < j < self.entries_view().len() implies (
                    #[trigger] self.entries_view()[i]).name != (
                    #[trigger] self.entries_view()[j]).name by {
                        if j == self.entries_view().len() - 1 {
                            assert(self.entries_view()[i] == before[i]);
                        }
                    }
                }
                Ok(())
            },
        }
    }

    /// Removes the record with the given name; absent names are a no-op.
    pub fn remove(&mut self, entry_name: &str) -> (r: BinmanResult<()>)
        requires
            old(self).wf(),
        ensures
            r is Ok,
            final(self).spec_path() == old(self).spec_path(),
            final(self).entries_view() == old(self).entries_view().filter(
                |e: StateEntryView| e.name != entry_name@,
            ),
            final(self).wf(),
    {
        let ghost s = old(self).entries_view();
        let ghost pred = |e: StateEntryView| e.name != entry_name@;
        let mut out: Vec<StateEntry> = Vec::new();
        let mut i: usize = 0;
        proof {
            reveal(Seq::filter);
            assert(s.take(0) =~= Seq::<StateEntryView>::empty());
            assert(out@.map_values(|e: StateEntry| e@) =~= s.take(0).filter(pred));
        }
        while i < self.entries.len()
            invariant
                i <= self.entries@.len(),
                self.entries_view() == s,
                s.len() == self.entries@.len(),
                pred == (|e: StateEntryView| e.name != entry_name@),
                out@.map_values(|e: StateEntry| e@) == s.take(i as int).filter(pred),
            decreases self.entries@.len() - i,
        {
            proof {
                reveal(Seq::filter);
                assert(s[i as int] == self.entries@[i as int]@);
                assert(s.take(i + 1).drop_last() =~= s.take(i as int));
                assert(s.take(i + 1).last() == s[i as int]);
            }
            if !strings_equal(self.entries[i].name.as_str(), entry_name) {
                out.push(self.entries[i].clone());
                proof {
                    assert(out@.map_values(|e: StateEntry| e@) =~= s.take(i as int).filter(
                        pred,
                    ).push(s[i as int]));
                }
            }
            i = i + 1;
        }
        proof {
            assert(s.take(i as int) =~= s);
        }
        self.entries = out;
        proof {
            assert forall|a: int, b: int|
                0 <= a < b < self.entries_view().len() implies (
            #[trigger] self.entries_view()[a]).name != (#[trigger] self.entries_view()[b]).name by {
                s.lemma_filter_pred(pred, a);
                s.lemma_filter_pred(pred, b);
                lemma_filter_keeps_distinct_names(s, pred, a, b);
            }
        }
        Ok(())
    }
}

/// Two distinct positions of a filtered sequence come from two distinct
/// positions of the original, so distinct names stay distinct.
proof fn lemma_filter_keeps_distinct_names(
    s: Seq<StateEntryView>,
    pred: spec_fn(StateEntryView) -> bool,
    a: int,
    b: int,
)
    requires
        forall|i: int, j: int|
            0 <= i < j < s.len() ==> (#[trigger] s[i]).name != (#[trigger] s[j]).name,
        0 <= a < b < s.filter(pred).len(),
    ensures
        s.filter(pred)[a].name != s.filter(pred)[b].name,
    decreases s.len(),
{
    reveal(Seq::filter);
    if s.len() > 0 {
        let prefix = s.drop_last();
        broadcast use vstd::prelude::Seq::lemma_filter_len;

        if pred(s.last()) {
            if b == s.filter(pred).len() - 1 {
                // s.filter(pred)[b] is s.last(); a comes from the prefix
                lemma_filter_element_is_member(prefix, pred, a);
            } else {
                lemma_filter_keeps_distinct_names(prefix, pred, a, b);
            }
        } else {
            lemma_filter_keeps_distinct_names(prefix, pred, a, b);
        }
    }
}

/// Every element of a filtered sequence occurs in the original.
proof fn lemma_filter_element_is_member(
    s: Seq<StateEntryView>,
    pred: spec_fn(StateEntryView) -> bool,
    a: int,
)
    requires
        0 <= a < s.filter(pred).len(),
    ensures
        exists|i: int| 0 <= i < s.len() && #[trigger] s[i] == s.filter(pred)[a],
    decreases s.len(),
{
    reveal(Seq::filter);
    if s.len() > 0 {
        let prefix = s.drop_last();
        broadcast use vstd::prelude::Seq::lemma_filter_len;

        if pred(s.last()) && a == s.filter(pred).len() - 1 {
            assert(s[s.len() - 1] == s.filter(pred)[a]);
        } else {
            lemma_filter_element_is_member(prefix, pred, a);
            let i = choose|i: int| 0 <= i < prefix.len() && #[trigger] prefix[i] == prefix.filter(
                pred,
            )[a];
            assert(s[i] == s.filter(pred)[a]);
        }
    }
}

} // verus!
