//! The in-memory record store: the key/value entries this node holds and the
//! provider claims it has accepted. Entries live until shutdown; an update
//! replaces the stored value (last write wins), and accepting the same
//! provider claim twice changes nothing.

use vstd::prelude::*;
use crate::bytes::{bytes_equal, copy_bytes};
use crate::data::{PeerIdentity, Record, RecordKey};

verus! {

/// No two entries share a key.
pub open spec fn record_keys_unique(s: Seq<Record>) -> bool {
    forall|i: int, j: int| 0 <= i < j < s.len() ==> s[i].key@ != s[j].key@
}

/// Some entry holds the key.
pub open spec fn holds_key(s: Seq<Record>, k: Seq<u8>) -> bool {
    exists|i: int| 0 <= i < s.len() && s[i].key@ == k
}

/// The index of an entry holding the key (meaningful only when `holds_key`).
pub open spec fn index_of_key(s: Seq<Record>, k: Seq<u8>) -> int {
    choose|i: int| 0 <= i < s.len() && s[i].key@ == k
}

/// The entries read as a map from key bytes to value bytes.
pub open spec fn entries_as_map(s: Seq<Record>) -> Map<Seq<u8>, Seq<u8>> {
    Map::new(|k: Seq<u8>| holds_key(s, k), |k: Seq<u8>| s[index_of_key(s, k)].value@)
}

/// A provider claim read as a pair of byte strings.
pub open spec fn provider_pair(e: (RecordKey, PeerIdentity)) -> (Seq<u8>, Seq<u8>) {
    (e.0@, e.1@)
}

/// On a unique-keyed entry sequence, the map reads back exactly the entries.
pub proof fn lemma_entries_as_map(s: Seq<Record>)
    requires
        record_keys_unique(s),
    ensures
        forall|k: Seq<u8>| #[trigger] entries_as_map(s).contains_key(k) <==> holds_key(s, k),
        forall|i: int|
            0 <= i < s.len() ==> entries_as_map(s).contains_key(#[trigger] s[i].key@)
                && entries_as_map(s)[s[i].key@] == s[i].value@,
{
    assert forall|i: int|
        0 <= i < s.len() implies entries_as_map(s).contains_key(#[trigger] s[i].key@)
        && entries_as_map(s)[s[i].key@] == s[i].value@ by {
        assert(holds_key(s, s[i].key@));
        let j = index_of_key(s, s[i].key@);
        assert(0 <= j < s.len() && s[j].key@ == s[i].key@);
        if i < j {
            assert(false);
        } else if j < i {
            assert(false);
        }
    }
}

/// The node's volatile store: records and provider claims, lost on shutdown.
pub struct RecordStore {
    records: Vec<Record>,
    providers: Vec<(RecordKey, PeerIdentity)>,
}

impl RecordStore {
    /// The stored records, as a map from key bytes to value bytes.
    pub closed spec fn records_view(&self) -> Map<Seq<u8>, Seq<u8>> {
        entries_as_map(self.records@)
    }

    /// The accepted provider claims, as a set of (key bytes, peer bytes) pairs.
    pub closed spec fn providers_view(&self) -> Set<(Seq<u8>, Seq<u8>)> {
        self.providers@.map_values(|e: (RecordKey, PeerIdentity)| provider_pair(e)).to_set()
    }

    /// Internal shape: record keys unique, provider pairs unique.
    pub closed spec fn wf(&self) -> bool {
        &&& record_keys_unique(self.records@)
        &&& self.providers@.map_values(|e: (RecordKey, PeerIdentity)| provider_pair(e)).no_duplicates()
    }

    /// An empty store.
    pub fn new() -> (s: Self)
        ensures
            s.wf(),
            s.records_view() == Map::<Seq<u8>, Seq<u8>>::empty(),
            s.providers_view() == Set::<(Seq<u8>, Seq<u8>)>::empty(),
    {
        let s = RecordStore { records: Vec::new(), providers: Vec::new() };
        proof {
            assert(s.records_view() =~= Map::<Seq<u8>, Seq<u8>>::empty());
            assert(s.providers_view() =~= Set::<(Seq<u8>, Seq<u8>)>::empty());
        }
        s
    }

    /// Accept a record: insert it, replacing any value stored under its key.
    pub fn put(&mut self, record: Record)
        requires
            old(self).wf(),
        ensures
            final(self).wf(),
            final(self).records_view() == old(self).records_view().insert(
                record.key@,
                record.value@,
            ),
            final(self).providers_view() == old(self).providers_view(),
    {
        let ghost s0 = self.records@;
        let n = self.records.len();
        let mut i: usize = 0;
        while i < n
            invariant
                old(self).wf(),
                n == self.records@.len(),
                i <= n,
                self == old(self),
                s0 == self.records@,
                forall|j: int| 0 <= j < i ==> self.records@[j].key@ != record.key@,
            decreases n - i,
        {
            if bytes_equal(&self.records[i].key.bytes, &record.key.bytes) {
                self.records.remove(i);
                self.records.push(record);
                proof {
                    Self::lemma_replace_entry(s0, i as int, record);
                }
                return;
            }
            i = i + 1;
        }
        self.records.push(record);
        proof {
            assert(old(self).wf());
            Self::lemma_append_entry(s0, record);
        }
    }

    /// The entry sequence after removing the one entry with the new record's
    /// key and appending the record denotes the old map with the key bound
    /// to the new value.
    proof fn lemma_replace_entry(s: Seq<Record>, i: int, record: Record)
        requires
            record_keys_unique(s),
            0 <= i < s.len(),
            s[i].key@ == record.key@,
        ensures
            record_keys_unique(s.remove(i).push(record)),
            entries_as_map(s.remove(i).push(record)) == entries_as_map(s).insert(
                record.key@,
                record.value@,
            ),
    {
        let s2 = s.remove(i).push(record);
        let last = s2.len() - 1;
        assert forall|a: int, b: int| 0 <= a < b < s2.len() implies s2[a].key@ != s2[b].key@ by {
            if b < last {
                // both entries come from s, at distinct indices
                assert(s2[a] == if a < i { s[a] } else { s[a + 1] });
                assert(s2[b] == if b < i { s[b] } else { s[b + 1] });
            } else {
                // s2[b] is the new record; s2[a] comes from s at an index other than i
                assert(s2[a] == if a < i { s[a] } else { s[a + 1] });
            }
        }
        lemma_entries_as_map(s);
        lemma_entries_as_map(s2);
        assert forall|k: Seq<u8>| #[trigger] holds_key(s2, k) implies holds_key(s, k)
            || k == record.key@ by {
            let j = choose|j: int| 0 <= j < s2.len() && s2[j].key@ == k;
            if j < last {
                assert(s2[j] == if j < i { s[j] } else { s[j + 1] });
            }
        }
        assert forall|k: Seq<u8>| holds_key(s, k) || k == record.key@ implies #[trigger] holds_key(
            s2,
            k,
        ) by {
            if k == record.key@ {
                assert(s2[last].key@ == k);
            } else {
                let j = choose|j: int| 0 <= j < s.len() && s[j].key@ == k;
                if j < i {
                    assert(s2[j] == s[j]);
                } else {
                    assert(j != i);
                    assert(s2[j - 1] == s[j]);
                }
            }
        }
        assert forall|k: Seq<u8>| #[trigger] holds_key(s2, k) && k != record.key@ implies
            entries_as_map(s2)[k] == entries_as_map(s)[k] by {
            let j = choose|j: int| 0 <= j < s2.len() && s2[j].key@ == k;
            assert(j != last);
            if j < i {
                assert(s2[j] == s[j]);
                assert(entries_as_map(s2)[s2[j].key@] == s2[j].value@);
                assert(entries_as_map(s)[s[j].key@] == s[j].value@);
            } else {
                assert(s2[j] == s[j + 1]);
                assert(entries_as_map(s2)[s2[j].key@] == s2[j].value@);
                assert(entries_as_map(s)[s[j + 1].key@] == s[j + 1].value@);
            }
        }
        assert(s2[last] == record);
        assert(entries_as_map(s2)[record.key@] == record.value@);
        assert(entries_as_map(s2) =~= entries_as_map(s).insert(record.key@, record.value@));
    }

    /// Appending an entry with a fresh key denotes a plain map insert.
    proof fn lemma_append_entry(s: Seq<Record>, record: Record)
        requires
            record_keys_unique(s),
            forall|j: int| 0 <= j < s.len() ==> s[j].key@ != record.key@,
        ensures
            record_keys_unique(s.push(record)),
            entries_as_map(s.push(record)) == entries_as_map(s).insert(
                record.key@,
                record.value@,
            ),
    {
        let s2 = s.push(record);
        let last = s2.len() - 1;
        lemma_entries_as_map(s);
        lemma_entries_as_map(s2);
        assert forall|k: Seq<u8>| #[trigger] holds_key(s2, k) implies holds_key(s, k)
            || k == record.key@ by {
            let j = choose|j: int| 0 <= j < s2.len() && s2[j].key@ == k;
            if j < last {
                assert(s2[j] == s[j]);
            }
        }
        assert forall|k: Seq<u8>| holds_key(s, k) implies #[trigger] holds_key(s2, k) by {
            let j = choose|j: int| 0 <= j < s.len() && s[j].key@ == k;
            assert(s2[j] == s[j]);
        }
        assert(s2[last].key@ == record.key@);
        assert forall|k: Seq<u8>| #[trigger] holds_key(s2, k) && k != record.key@ implies
            entries_as_map(s2)[k] == entries_as_map(s)[k] by {
            let j = choose|j: int| 0 <= j < s2.len() && s2[j].key@ == k;
            assert(j != last);
            assert(s2[j] == s[j]);
            assert(entries_as_map(s2)[s2[j].key@] == s2[j].value@);
            assert(entries_as_map(s)[s[j].key@] == s[j].value@);
        }
        assert(entries_as_map(s2)[record.key@] == record.value@);
        assert(entries_as_map(s2) =~= entries_as_map(s).insert(record.key@, record.value@));
    }

    /// Look a key up; a fresh copy of the stored value, or nothing.
    pub fn get(&self, key: &RecordKey) -> (r: Option<Vec<u8>>)
        requires
            self.wf(),
        ensures
            match r {
                Some(v) => self.records_view().contains_key(key@)
                    && v@ == self.records_view()[key@],
                None => !self.records_view().contains_key(key@),
            },
    {
        proof {
            lemma_entries_as_map(self.records@);
        }
        let n = self.records.len();
        let mut i: usize = 0;
        while i < n
            invariant
                self.wf(),
                n == self.records@.len(),
                i <= n,
                forall|j: int| 0 <= j < i ==> self.records@[j].key@ != key@,
            decreases n - i,
        {
            if bytes_equal(&self.records[i].key.bytes, &key.bytes) {
                proof {
                    lemma_entries_as_map(self.records@);
                }
                return Some(copy_bytes(&self.records[i].value));
            }
            i = i + 1;
        }
        None
    }

    /// Accept a provider claim. Accepting a claim already present changes
    /// nothing, so a provider appears at most once per key.
    pub fn add_provider(&mut self, key: RecordKey, provider: PeerIdentity)
        requires
            old(self).wf(),
        ensures
            final(self).wf(),
            final(self).providers_view() == old(self).providers_view().insert((key@, provider@)),
            final(self).records_view() == old(self).records_view(),
    {
        let ghost pairs0 = self.providers@.map_values(
            |e: (RecordKey, PeerIdentity)| provider_pair(e),
        );
        let n = self.providers.len();
        let mut i: usize = 0;
        while i < n
            invariant
                old(self).wf(),
                n == self.providers@.len(),
                i <= n,
                self == old(self),
                pairs0 == self.providers@.map_values(
                    |e: (RecordKey, PeerIdentity)| provider_pair(e),
                ),
                forall|j: int| 0 <= j < i ==> pairs0[j] != (key@, provider@),
            decreases n - i,
        {
            let same_key = bytes_equal(&self.providers[i].0.bytes, &key.bytes);
            let same_peer = bytes_equal(&self.providers[i].1.bytes, &provider.bytes);
            if same_key && same_peer {
                proof {
                    assert(pairs0[i as int] == (key@, provider@));
                    assert(pairs0.contains(pairs0[i as int]));
                    assert(old(self).providers_view().contains((key@, provider@)));
                    assert(final(self).providers_view() =~= old(self).providers_view().insert(
                        (key@, provider@),
                    ));
                }
                return;
            }
            proof {
                assert(pairs0[i as int] == (self.providers@[i as int].0@, self.providers@[i as int].1@));
            }
            i = i + 1;
        }
        self.providers.push((key, provider));
        proof {
            let pairs1 = self.providers@.map_values(
                |e: (RecordKey, PeerIdentity)| provider_pair(e),
            );
            assert(pairs1 =~= pairs0.push((key@, provider@)));
            let last = pairs1.len() - 1;
            assert forall|a: int, b: int| 0 <= a < b < pairs1.len() implies pairs1[a]
                != pairs1[b] by {
                if b < last {
                    assert(pairs0[a] != pairs0[b]);
                } else {
                    assert(pairs1[a] == pairs0[a]);
                    assert(pairs0[a] != (key@, provider@));
                }
            }
            assert forall|x: (Seq<u8>, Seq<u8>)| pairs1.contains(x) implies pairs0.contains(x)
                || x == (key@, provider@) by {
                let j = choose|j: int| 0 <= j < pairs1.len() && pairs1[j] == x;
                if j < pairs0.len() {
                    assert(pairs0[j] == x);
                }
            }
            assert forall|x: (Seq<u8>, Seq<u8>)| pairs0.contains(x) implies pairs1.contains(x) by {
                let j = choose|j: int| 0 <= j < pairs0.len() && pairs0[j] == x;
                assert(pairs1[j] == x);
            }
            assert(pairs1[last] == (key@, provider@));
            assert(pairs1.contains((key@, provider@)));
            assert(final(self).providers_view() =~= old(self).providers_view().insert(
                (key@, provider@),
            ));
        }
    }

    /// All peers recorded as providers for a key, each at most once, as
    /// fresh copies.
    pub fn providers_for(&self, key: &RecordKey) -> (r: Vec<PeerIdentity>)
        requires
            self.wf(),
        ensures
            forall|j: int| 0 <= j < r@.len() ==> self.providers_view().contains(
                (key@, #[trigger] r@[j]@),
            ),
            forall|p: Seq<u8>| #[trigger] self.providers_view().contains((key@, p)) ==> exists|j: int|
                0 <= j < r@.len() && r@[j]@ == p,
            forall|j1: int, j2: int| 0 <= j1 < j2 < r@.len() ==> r@[j1]@ != r@[j2]@,
    {
        let ghost pairs = self.providers@.map_values(
            |e: (RecordKey, PeerIdentity)| provider_pair(e),
        );
        let mut r: Vec<PeerIdentity> = Vec::new();
        let n = self.providers.len();
        let mut i: usize = 0;
        while i < n
            invariant
                self.wf(),
                n == self.providers@.len(),
                i <= n,
                pairs == self.providers@.map_values(
                    |e: (RecordKey, PeerIdentity)| provider_pair(e),
                ),
                forall|j: int| 0 <= j < r@.len() ==> exists|m: int|
                    0 <= m < i && pairs[m] == (key@, #[trigger] r@[j]@),
                forall|m: int| 0 <= m < i && (#[trigger] pairs[m]).0 == key@ ==> exists|j: int|
                    0 <= j < r@.len() && r@[j]@ == pairs[m].1,
                forall|j1: int, j2: int| 0 <= j1 < j2 < r@.len() ==> r@[j1]@ != r@[j2]@,
            decreases n - i,
        {
            proof {
                assert(pairs[i as int] == (self.providers@[i as int].0@, self.providers@[i as int].1@));
            }
            if bytes_equal(&self.providers[i].0.bytes, &key.bytes) {
                let ghost r_before = r@;
                r.push(PeerIdentity { bytes: copy_bytes(&self.providers[i].1.bytes) });
                proof {
                    let added = pairs[i as int].1;
                    let last = r@.len() - 1;
                    assert(r@ =~= r_before.push(r@[last]));
                    assert(r@[last]@ == added);
                    // a second copy of this peer would mean two equal provider
                    // pairs at distinct indices
                    assert forall|j: int| 0 <= j < r_before.len() implies r_before[j]@
                        != added by {
                        if r_before[j]@ == added {
                            let m = choose|m: int|
                                0 <= m < i && pairs[m] == (key@, r_before[j]@);
                            assert(pairs[m] == pairs[i as int]);
                            assert(pairs.no_duplicates());
                        }
                    }
                    assert forall|m: int| 0 <= m < i + 1 && (#[trigger] pairs[m]).0 == key@
                        implies exists|j: int| 0 <= j < r@.len() && r@[j]@ == pairs[m].1 by {
                        if m < i {
                            let j = choose|j: int|
                                0 <= j < r_before.len() && r_before[j]@ == pairs[m].1;
                            assert(r@[j]@ == pairs[m].1);
                        } else {
                            assert(r@[last]@ == pairs[m].1);
                        }
                    }
                }
            }
            i = i + 1;
        }
        proof {
            assert forall|j: int| 0 <= j < r@.len() implies self.providers_view().contains(
                (key@, #[trigger] r@[j]@),
            ) by {
                let m = choose|m: int| 0 <= m < i && pairs[m] == (key@, r@[j]@);
                assert(pairs.contains((key@, r@[j]@)));
            }
            assert forall|p: Seq<u8>| #[trigger] self.providers_view().contains((key@, p)) implies
                exists|j: int| 0 <= j < r@.len() && r@[j]@ == p by {
                assert(pairs.contains((key@, p)));
                let m = choose|m: int| 0 <= m < pairs.len() && pairs[m] == (key@, p);
                assert(pairs[m].0 == key@ && pairs[m].1 == p);
            }
        }
        r
    }
}

/// Round trip: looking a key up right after storing a value under it reads
/// back exactly that value, in the map model that `put` and `get` speak of.
pub proof fn lemma_put_then_get(m: Map<Seq<u8>, Seq<u8>>, k: Seq<u8>, v: Seq<u8>)
    ensures
        m.insert(k, v).contains_key(k),
        m.insert(k, v)[k] == v,
{
}

/// Storing under one key never disturbs what another key reads back.
pub proof fn lemma_put_preserves_other_keys(
    m: Map<Seq<u8>, Seq<u8>>,
    k: Seq<u8>,
    v: Seq<u8>,
    other: Seq<u8>,
)
    requires
        other != k,
    ensures
        m.insert(k, v).contains_key(other) == m.contains_key(other),
        m.contains_key(other) ==> m.insert(k, v)[other] == m[other],
{
}

/// Provider idempotence: accepting the same provider claim twice leaves the
/// provider set exactly as after accepting it once.
pub proof fn lemma_add_provider_idempotent(s: Set<(Seq<u8>, Seq<u8>)>, k: Seq<u8>, p: Seq<u8>)
    ensures
        s.insert((k, p)).insert((k, p)) == s.insert((k, p)),
{
    assert(s.insert((k, p)).insert((k, p)) =~= s.insert((k, p)));
}

} // verus!
