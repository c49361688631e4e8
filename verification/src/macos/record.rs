//! The record of what was bundled.
use crate::macos::bundle::ModulePath;
use crate::text::same_text;
use vstd::prelude::*;
use vstd::string::*;

verus! {

/// What a list of recorded dependencies maps: each reference to the source
/// recorded for it last.
pub open spec fn recorded(entries: Seq<(ModulePath, String)>) -> Map<Seq<char>, Seq<char>>
    decreases entries.len(),
{
    if entries.len() == 0 {
        Map::empty()
    } else {
        recorded(entries.drop_last()).insert(entries.last().0@, entries.last().1@)
    }
}

/// An entry that no later entry covers decides what its reference maps to;
/// a reference without any entry is not mapped.
pub proof fn lemma_recorded_lookup(entries: Seq<(ModulePath, String)>, key: Seq<char>, i: int)
    requires
        -1 <= i < entries.len(),
        i >= 0 ==> entries[i].0@ == key,
        forall|k: int| i < k < entries.len() ==> (#[trigger] entries[k]).0@ != key,
    ensures
        recorded(entries).dom().contains(key) <==> i >= 0,
        i >= 0 ==> recorded(entries)[key] == entries[i].1@,
    decreases entries.len(),
{
    if entries.len() > 0 {
        if i < entries.len() - 1 {
            let rest = entries.drop_last();
            assert(entries.last().0@ != key);
            assert forall|k: int| i < k < rest.len() implies (#[trigger] rest[k]).0@ != key by {
                assert(rest[k] == entries[k]);
            }
            if i >= 0 {
                assert(rest[i] == entries[i]);
            }
            lemma_recorded_lookup(rest, key, i);
        }
    }
}

/// No reference has two entries.
pub open spec fn distinct(entries: Seq<(ModulePath, String)>) -> bool {
    forall|i: int, j: int|
        0 <= i < j < entries.len() ==> (#[trigger] entries[i]).0@ != (#[trigger] entries[j]).0@
}

/// The reference of every entry is mapped.
pub proof fn lemma_recorded_contains(entries: Seq<(ModulePath, String)>, i: int)
    requires
        0 <= i < entries.len(),
    ensures
        recorded(entries).dom().contains(entries[i].0@),
    decreases entries.len(),
{
    if i < entries.len() - 1 {
        let rest = entries.drop_last();
        assert(rest[i] == entries[i]);
        lemma_recorded_contains(rest, i);
    }
}

/// The dependencies bundled so far: for each reference that the bundle
/// gives out, the source file that was recorded for it.
#[derive(Debug)]
pub struct ProcessedLibraries {
    pub entries: Vec<(ModulePath, String)>,
}

impl View for ProcessedLibraries {
    type V = Map<Seq<char>, Seq<char>>;

    open spec fn view(&self) -> Map<Seq<char>, Seq<char>> {
        recorded(self.entries@)
    }
}

impl ProcessedLibraries {
    pub fn new() -> (res: Self)
        ensures
            res@ == Map::<Seq<char>, Seq<char>>::empty(),
            res.entries@.len() == 0,
    {
        Self { entries: Vec::new() }
    }

    /// The source recorded for `key`, if there is one.
    pub fn get(&self, key: &ModulePath) -> (res: Option<String>)
        ensures
            res is Some <==> self@.dom().contains(key@),
            res is Some ==> res->0@ == self@[key@],
    {
        let mut i: usize = self.entries.len();
        while i > 0
            invariant
                i <= self.entries@.len(),
                forall|k: int| i <= k < self.entries@.len() ==> (#[trigger] self.entries@[k]).0@ != key@,
            decreases i,
        {
            if same_text(self.entries[i - 1].0.as_str(), key.as_str()) {
                proof {
                    lemma_recorded_lookup(self.entries@, key@, i - 1);
                }
                return Some(self.entries[i - 1].1.clone());
            }
            i -= 1;
        }
        proof {
            lemma_recorded_lookup(self.entries@, key@, -1);
        }
        None
    }

    /// Records `source` for `key`.
    pub fn insert(&mut self, key: ModulePath, source: String)
        ensures
            final(self)@ == old(self)@.insert(key@, source@),
            final(self).entries@ == old(self).entries@.push((key, source)),
            !old(self)@.dom().contains(key@) && distinct(old(self).entries@) ==> distinct(
                final(self).entries@,
            ),
    {
        let ghost before = self.entries@;
        self.entries.push((key, source));
        assert(self.entries@.drop_last() =~= before);
        proof {
            if !old(self)@.dom().contains(key@) && distinct(before) {
                assert forall|i: int, j: int| 0 <= i < j < self.entries@.len() implies (
                #[trigger] self.entries@[i]).0@ != (#[trigger] self.entries@[j]).0@ by {
                    assert(self.entries@[i] == before[i]);
                    if j < before.len() {
                        assert(self.entries@[j] == before[j]);
                    } else {
                        lemma_recorded_contains(before, i);
                    }
                }
            }
        }
    }

    /// How many records were made.
    pub fn len(&self) -> (res: usize)
        ensures
            res == self.entries@.len(),
    {
        self.entries.len()
    }
}

/// Every entry of `b` is in `a`, with its reference and its source.
pub open spec fn covers(a: Seq<(ModulePath, String)>, b: Seq<(ModulePath, String)>) -> bool {
    forall|j: int|
        0 <= j < b.len() ==> exists|i: int|
            0 <= i < a.len() && a[i].0@ == (#[trigger] b[j]).0@ && a[i].1@ == b[j].1@
}

/// The record does not depend on the order in which it was made: two
/// records without a repeated reference that hold the same references,
/// each from the same source, map alike.
pub proof fn lemma_record_ignores_order(a: Seq<(ModulePath, String)>, b: Seq<(ModulePath, String)>)
    requires
        distinct(a),
        distinct(b),
        covers(a, b),
        covers(b, a),
    ensures
        recorded(a) == recorded(b),
{
    assert forall|k: Seq<char>|
        (#[trigger] recorded(a).dom().contains(k)) == recorded(b).dom().contains(k) && (recorded(
            a,
        ).dom().contains(k) ==> recorded(a)[k] == recorded(b)[k]) by {
        lemma_recorded_by_entry(a, k);
        lemma_recorded_by_entry(b, k);
        if exists|i: int| 0 <= i < a.len() && a[i].0@ == k {
            let i = choose|i: int| 0 <= i < a.len() && a[i].0@ == k;
            let j = choose|j: int| 0 <= j < b.len() && b[j].0@ == a[i].0@ && b[j].1@ == a[i].1@;
            lemma_recorded_lookup(a, k, i);
            lemma_recorded_lookup(b, k, j);
        } else if exists|j: int| 0 <= j < b.len() && b[j].0@ == k {
            let j = choose|j: int| 0 <= j < b.len() && b[j].0@ == k;
            let i = choose|i: int| 0 <= i < a.len() && a[i].0@ == b[j].0@ && a[i].1@ == b[j].1@;
            assert(a[i].0@ == k);
        }
    }
    assert(recorded(a).dom() =~= recorded(b).dom());
    assert(recorded(a) =~= recorded(b));
}

/// A reference is mapped exactly if it has an entry.
pub proof fn lemma_recorded_by_entry(entries: Seq<(ModulePath, String)>, key: Seq<char>)
    ensures
        recorded(entries).dom().contains(key) <==> exists|i: int|
            0 <= i < entries.len() && entries[i].0@ == key,
    decreases entries.len(),
{
    if entries.len() > 0 {
        let rest = entries.drop_last();
        lemma_recorded_by_entry(rest, key);
        if exists|i: int| 0 <= i < rest.len() && rest[i].0@ == key {
            let i = choose|i: int| 0 <= i < rest.len() && rest[i].0@ == key;
            assert(entries[i].0@ == key);
        }
        if exists|i: int| 0 <= i < entries.len() && entries[i].0@ == key {
            let i = choose|i: int| 0 <= i < entries.len() && entries[i].0@ == key;
            if i < rest.len() {
                assert(rest[i].0@ == key);
            }
        }
    }
}

} // verus!
