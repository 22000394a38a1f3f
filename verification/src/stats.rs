//! Statistics of a signal chain run.
use vstd::prelude::*;
use crate::tile::copy_string;

verus! {

/// How many tiles each layer resolved, by layer name.
///
/// Names are kept in the order they were first counted; no name occurs twice.
#[derive(Debug)]
pub struct LayerTally {
    names: Vec<String>,
    counts: Vec<u64>,
}

/// The characters of each name.
pub open spec fn name_views(names: Seq<String>) -> Seq<Seq<char>> {
    names.map_values(|s: String| s@)
}

/// In a sequence without duplicates, the index of an element is where it stands.
proof fn lemma_index_of_unique(keys: Seq<Seq<char>>, i: int)
    requires
        keys.no_duplicates(),
        0 <= i < keys.len(),
    ensures
        keys.index_of(keys[i]) == i,
{
    let j = keys.index_of(keys[i]);
    assert(0 <= j < keys.len() && keys[j] == keys[i]);
}

/// The sum of the counts.
pub open spec fn sum_counts(s: Seq<u64>) -> int
    decreases s.len(),
{
    if s.len() == 0 {
        0
    } else {
        sum_counts(s.drop_last()) + s.last()
    }
}

/// No count exceeds the sum, and the sum is not negative.
proof fn lemma_sum_bounds(s: Seq<u64>, i: int)
    requires
        0 <= i < s.len(),
    ensures
        s[i] <= sum_counts(s),
    decreases s.len(),
{
    if i < s.len() - 1 {
        lemma_sum_bounds(s.drop_last(), i);
    } else {
        lemma_sum_nonnegative(s.drop_last());
    }
}

proof fn lemma_sum_nonnegative(s: Seq<u64>)
    ensures
        sum_counts(s) >= 0,
    decreases s.len(),
{
    if s.len() > 0 {
        lemma_sum_nonnegative(s.drop_last());
    }
}

/// Changing one count changes the sum by the difference.
proof fn lemma_sum_update(s: Seq<u64>, i: int, v: u64)
    requires
        0 <= i < s.len(),
    ensures
        sum_counts(s.update(i, v)) == sum_counts(s) - s[i] + v,
    decreases s.len(),
{
    let t = s.update(i, v);
    if i < s.len() - 1 {
        assert(t.drop_last() =~= s.drop_last().update(i, v));
        lemma_sum_update(s.drop_last(), i, v);
    } else {
        assert(t.drop_last() =~= s.drop_last());
    }
}

impl LayerTally {
    #[verifier::type_invariant]
    spec fn well_formed(self) -> bool {
        &&& self.names@.len() == self.counts@.len()
        &&& name_views(self.names@).no_duplicates()
    }

    /// The counted names, in the order they were first counted.
    pub closed spec fn names_seq(self) -> Seq<Seq<char>> {
        name_views(self.names@)
    }

    /// The count of the name at position `i` of `names_seq`.
    pub closed spec fn count_at(self, i: int) -> u64 {
        self.counts@[i]
    }

    /// The counts, in the order of `names_seq`.
    pub closed spec fn count_seq(self) -> Seq<u64> {
        Seq::new(self.names_seq().len(), |i: int| self.counts@[i])
    }

    /// The sum of all counts.
    pub open spec fn total(self) -> int {
        sum_counts(self.count_seq())
    }

    /// No name's count exceeds the sum of all counts.
    pub proof fn lemma_count_le_total(self, name: Seq<char>)
        ensures
            self.count_of(name) <= self.total(),
    {
        lemma_sum_nonnegative(self.count_seq());
        if self@.dom().contains(name) {
            let i = self.names_seq().index_of(name);
            assert(self.count_seq()[i] == self@[name]);
            lemma_sum_bounds(self.count_seq(), i);
        }
    }

    /// The count of `name`, 0 for a name never counted.
    pub open spec fn count_of(self, name: Seq<char>) -> u64 {
        if self@.dom().contains(name) {
            self@[name]
        } else {
            0
        }
    }

    /// The tally as a map from name to count.
    pub closed spec fn as_map(self) -> Map<Seq<char>, u64> {
        Map::new(
            |k: Seq<char>| self.names_seq().contains(k),
            |k: Seq<char>| self.counts@[self.names_seq().index_of(k)],
        )
    }

    /// A well-formed tally lists each name once, and each listed name with its count.
    proof fn lemma_listing(self)
        requires
            self.well_formed(),
        ensures
            self.names_seq().no_duplicates(),
            forall|k: Seq<char>| #[trigger] self@.dom().contains(k) <==> self.names_seq().contains(k),
            forall|i: int|
                0 <= i < self.names_seq().len() ==> #[trigger] self@[self.names_seq()[i]]
                    == self.count_at(i),
    {
        assert forall|i: int| 0 <= i < self.names_seq().len() implies #[trigger] self@[self.names_seq()[i]]
            == self.count_at(i) by {
            lemma_index_of_unique(self.names_seq(), i);
        }
    }

    /// An empty tally.
    pub fn new() -> (t: LayerTally)
        ensures
            t@ == Map::<Seq<char>, u64>::empty(),
            t.names_seq().len() == 0,
            t.total() == 0,
    {
        let t = LayerTally { names: Vec::new(), counts: Vec::new() };
        assert(t.count_seq() =~= Seq::<u64>::empty());
        assert(t.as_map() =~= Map::<Seq<char>, u64>::empty());
        t
    }

    /// How many names have been counted.
    pub fn len(&self) -> (n: usize)
        ensures
            n == self.names_seq().len(),
            self.names_seq().no_duplicates(),
            forall|k: Seq<char>| #[trigger] self@.dom().contains(k) <==> self.names_seq().contains(k),
    {
        proof {
            use_type_invariant(self);
            self.lemma_listing();
        }
        self.names.len()
    }

    /// The name and count at position `i`, in the order names were first counted.
    pub fn entry(&self, i: usize) -> (e: (String, u64))
        requires
            i < self.names_seq().len(),
        ensures
            e.0@ == self.names_seq()[i as int],
            e.1 == self.count_at(i as int),
            e.1 == self@[e.0@],
    {
        proof {
            use_type_invariant(self);
            self.lemma_listing();
        }
        (copy_string(&self.names[i]), self.counts[i])
    }

    fn position(&self, name: &String) -> (p: Option<usize>)
        ensures
            match p {
                Some(i) => i < self.names_seq().len() && self.names_seq()[i as int] == name@,
                None => !self.names_seq().contains(name@),
            },
    {
        proof {
            use_type_invariant(self);
        }
        let n = self.names.len();
        let mut i: usize = 0;
        while i < n
            invariant
                i <= n,
                n == self.names_seq().len(),
                forall|j: int| 0 <= j < i ==> self.names_seq()[j] != name@,
            decreases n - i,
        {
            if self.names[i] == *name {
                return Some(i);
            }
            i = i + 1;
        }
        None
    }

    /// The count of `name`, 0 for a name never counted.
    pub fn get(&self, name: &str) -> (c: u64)
        ensures
            c == self.count_of(name@),
    {
        proof {
            use_type_invariant(self);
            self.lemma_listing();
        }
        let key = String::from_str(name);
        match self.position(&key) {
            Some(i) => self.counts[i],
            None => 0,
        }
    }

    /// Set the count of `name`, adding the name at the end if it is new.
    pub fn set(&mut self, name: &str, count: u64)
        ensures
            final(self)@ == old(self)@.insert(name@, count),
            final(self).total() == old(self).total() - old(self).count_of(name@) + count,
    {
        proof {
            use_type_invariant(&*self);
            self.lemma_listing();
        }
        let key = String::from_str(name);
        let ghost old_keys = self.names_seq();
        let ghost old_map = self@;
        let ghost old_counts = self.count_seq();
        let ghost old_total = self.total();
        let found = self.position(&key);
        let mut taken = LayerTally::new();
        std::mem::swap(self, &mut taken);
        proof {
            use_type_invariant(&taken);
        }
        let LayerTally { mut names, mut counts } = taken;
        match found {
            Some(i) => {
                counts.set(i, count);
                *self = LayerTally { names, counts };
                proof {
                    lemma_index_of_unique(old_keys, i as int);
                    assert forall|k: Seq<char>| #[trigger] self.names_seq().contains(k) && k != name@
                        implies self.count_at(self.names_seq().index_of(k)) == old_map[k] by {
                        let j = old_keys.index_of(k);
                        assert(old_keys[j] == k);
                        lemma_index_of_unique(old_keys, j);
                    }
                    assert(self@ =~= old_map.insert(name@, count));
                    assert(old_counts[i as int] == old_map[name@]);
                    assert(self.count_seq() =~= old_counts.update(i as int, count));
                    lemma_sum_update(old_counts, i as int, count);
                }
            },
            None => {
                names.push(key);
                counts.push(count);
                proof {
                    assert(name_views(names@) =~= old_keys.push(name@));
                    assert(name_views(names@).no_duplicates());
                }
                *self = LayerTally { names, counts };
                proof {
                    let keys = self.names_seq();
                    lemma_index_of_unique(keys, old_keys.len() as int);
                    assert forall|k: Seq<char>| #[trigger] old_keys.contains(k)
                        implies self.count_at(keys.index_of(k)) == old_map[k] by {
                        let j = old_keys.index_of(k);
                        assert(keys[j] == k);
                        lemma_index_of_unique(keys, j);
                        lemma_index_of_unique(old_keys, j);
                    }
                    assert forall|k: Seq<char>| keys.contains(k) <==> (old_keys.contains(k) || k == name@) by {
                        if keys.contains(k) && k != name@ {
                            let j = keys.index_of(k);
                            assert(old_keys[j] == k);
                        }
                        if old_keys.contains(k) {
                            let j = old_keys.index_of(k);
                            assert(keys[j] == k);
                        }
                        if k == name@ {
                            assert(keys[old_keys.len() as int] == k);
                        }
                    }
                    assert(self@ =~= old_map.insert(name@, count));
                    assert(self.count_seq().drop_last() =~= old_counts);
                }
            },
        }
    }

    /// Raise the count of `name` by one, counting from 0 for a new name.
    pub fn increment(&mut self, name: &str)
        requires
            old(self).count_of(name@) < u64::MAX,
        ensures
            final(self)@ == old(self)@.insert(name@, (old(self).count_of(name@) + 1) as u64),
            final(self).total() == old(self).total() + 1,
    {
        let c = self.get(name);
        self.set(name, c + 1);
    }

    /// A copy of this tally, with the same names in the same order and the same counts.
    pub fn duplicate(&self) -> (t: LayerTally)
        ensures
            t@ == self@,
            t.names_seq() == self.names_seq(),
            t.total() == self.total(),
    {
        proof {
            use_type_invariant(self);
        }
        let n = self.names.len();
        let mut names: Vec<String> = Vec::new();
        let mut counts: Vec<u64> = Vec::new();
        let mut i: usize = 0;
        while i < n
            invariant
                i <= n,
                n == self.names@.len(),
                n == self.counts@.len(),
                names@ == self.names@.subrange(0, i as int),
                counts@ == self.counts@.subrange(0, i as int),
            decreases n - i,
        {
            names.push(copy_string(&self.names[i]));
            counts.push(self.counts[i]);
            i = i + 1;
            assert(names@ =~= self.names@.subrange(0, i as int));
            assert(counts@ =~= self.counts@.subrange(0, i as int));
        }
        assert(names@ =~= self.names@);
        assert(counts@ =~= self.counts@);
        LayerTally { names, counts }
    }
}

impl View for LayerTally {
    type V = Map<Seq<char>, u64>;

    closed spec fn view(&self) -> Map<Seq<char>, u64> {
        self.as_map()
    }
}

/// Statistics for a signal chain run.
#[derive(Debug)]
pub struct ChainStats {
    pub total_processed: u64,
    pub resolved_count: u64,
    pub unresolved_count: u64,
    pub total_latency_ns: u64,
    pub resolution_by_layer: LayerTally,
    pub last_resolution_layer: Option<String>,
}

impl ChainStats {
    /// Every processed tile is counted once as resolved or unresolved, and the per-layer
    /// counts add up to the resolved tiles.
    pub open spec fn consistent(self) -> bool {
        &&& self.resolved_count + self.unresolved_count == self.total_processed
        &&& self.resolution_by_layer.total() == self.resolved_count
    }

    /// All counters are zero and nothing has been resolved yet.
    pub open spec fn is_fresh(self) -> bool {
        &&& self.total_processed == 0
        &&& self.resolved_count == 0
        &&& self.unresolved_count == 0
        &&& self.total_latency_ns == 0
        &&& self.resolution_by_layer@ == Map::<Seq<char>, u64>::empty()
        &&& self.last_resolution_layer is None
    }

    /// `self` holds the same statistics as `other`.
    pub open spec fn same_as(self, other: ChainStats) -> bool {
        &&& self.total_processed == other.total_processed
        &&& self.resolved_count == other.resolved_count
        &&& self.unresolved_count == other.unresolved_count
        &&& self.total_latency_ns == other.total_latency_ns
        &&& self.resolution_by_layer@ == other.resolution_by_layer@
        &&& self.resolution_by_layer.names_seq() == other.resolution_by_layer.names_seq()
        &&& self.resolution_by_layer.total() == other.resolution_by_layer.total()
        &&& self.last_resolution_layer == other.last_resolution_layer
    }
}

impl Default for ChainStats {
    fn default() -> (s: ChainStats)
        ensures
            s.is_fresh(),
            s.consistent(),
    {
        ChainStats {
            total_processed: 0,
            resolved_count: 0,
            unresolved_count: 0,
            total_latency_ns: 0,
            resolution_by_layer: LayerTally::new(),
            last_resolution_layer: None,
        }
    }
}

impl Clone for ChainStats {
    fn clone(&self) -> (s: ChainStats)
        ensures
            s.same_as(*self),
            self.consistent() ==> s.consistent(),
    {
        ChainStats {
            total_processed: self.total_processed,
            resolved_count: self.resolved_count,
            unresolved_count: self.unresolved_count,
            total_latency_ns: self.total_latency_ns,
            resolution_by_layer: self.resolution_by_layer.duplicate(),
            last_resolution_layer: match &self.last_resolution_layer {
                Some(s) => Some(copy_string(s)),
                None => None,
            },
        }
    }
}

} // verus!
