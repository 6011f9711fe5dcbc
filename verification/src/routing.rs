//! Discovery-derived routing state: the set of (peer, address) pairs
//! currently known. Discovery adds a pair per announcement; expiry removes
//! one pair per time-to-live lapse — address-scoped, never peer-scoped.
//!
//! Expiring a pair that was never added is a no-op here: a consumer that
//! derives its peer count from this set's size can therefore never count
//! below zero, where an independent increment/decrement counter could.

use vstd::prelude::*;
use crate::bytes::bytes_equal;
use crate::data::{Address, PeerIdentity};

verus! {

/// A (peer bytes, address bytes) pair, as routing state speaks of it.
pub open spec fn book_pair(e: (PeerIdentity, Address)) -> (Seq<u8>, Seq<u8>) {
    (e.0@, e.1@)
}

/// The set of discovered (peer, address) pairs.
pub struct AddressBook {
    entries: Vec<(PeerIdentity, Address)>,
}

impl AddressBook {
    /// The pairs currently known, as a set of byte-string pairs.
    pub closed spec fn view_set(&self) -> Set<(Seq<u8>, Seq<u8>)> {
        self.entries@.map_values(|e: (PeerIdentity, Address)| book_pair(e)).to_set()
    }

    /// Internal shape: one entry per pair.
    pub closed spec fn wf(&self) -> bool {
        self.entries@.map_values(|e: (PeerIdentity, Address)| book_pair(e)).no_duplicates()
    }

    /// An empty book.
    pub fn new() -> (b: Self)
        ensures
            b.wf(),
            b.view_set() == Set::<(Seq<u8>, Seq<u8>)>::empty(),
    {
        let b = AddressBook { entries: Vec::new() };
        proof {
            assert(b.view_set() =~= Set::<(Seq<u8>, Seq<u8>)>::empty());
        }
        b
    }

    /// Record a discovered pair; recording a known pair changes nothing.
    pub fn insert(&mut self, peer: PeerIdentity, address: Address)
        requires
            old(self).wf(),
        ensures
            final(self).wf(),
            final(self).view_set() == old(self).view_set().insert((peer@, address@)),
    {
        let ghost pairs0 = self.entries@.map_values(|e: (PeerIdentity, Address)| book_pair(e));
        let n = self.entries.len();
        let mut i: usize = 0;
        while i < n
            invariant
                old(self).wf(),
                n == self.entries@.len(),
                i <= n,
                self == old(self),
                pairs0 == self.entries@.map_values(|e: (PeerIdentity, Address)| book_pair(e)),
                forall|j: int| 0 <= j < i ==> pairs0[j] != (peer@, address@),
            decreases n - i,
        {
            proof {
                assert(pairs0[i as int] == (self.entries@[i as int].0@, self.entries@[i as int].1@));
            }
            let same_peer = bytes_equal(&self.entries[i].0.bytes, &peer.bytes);
            let same_addr = bytes_equal(&self.entries[i].1.bytes, &address.bytes);
            if same_peer && same_addr {
                proof {
                    assert(pairs0.contains(pairs0[i as int]));
                    assert(final(self).view_set() =~= old(self).view_set().insert(
                        (peer@, address@),
                    ));
                }
                return;
            }
            i = i + 1;
        }
        self.entries.push((peer, address));
        proof {
            let pairs1 = self.entries@.map_values(|e: (PeerIdentity, Address)| book_pair(e));
            assert(pairs1 =~= pairs0.push((peer@, address@)));
            let last = pairs1.len() - 1;
            assert forall|a: int, b: int| 0 <= a < b < pairs1.len() implies pairs1[a]
                != pairs1[b] by {
                if b < last {
                    assert(pairs0[a] != pairs0[b]);
                } else {
                    assert(pairs1[a] == pairs0[a]);
                    assert(pairs0[a] != (peer@, address@));
                }
            }
            assert forall|x: (Seq<u8>, Seq<u8>)| pairs1.contains(x) implies pairs0.contains(x)
                || x == (peer@, address@) by {
                let j = choose|j: int| 0 <= j < pairs1.len() && pairs1[j] == x;
                if j < pairs0.len() {
                    assert(pairs0[j] == x);
                }
            }
            assert forall|x: (Seq<u8>, Seq<u8>)| pairs0.contains(x) implies pairs1.contains(x) by {
                let j = choose|j: int| 0 <= j < pairs0.len() && pairs0[j] == x;
                assert(pairs1[j] == x);
            }
            assert(pairs1[last] == (peer@, address@));
            assert(pairs1.contains((peer@, address@)));
            assert(final(self).view_set() =~= old(self).view_set().insert((peer@, address@)));
        }
    }

    /// Forget an expired pair; forgetting an unknown pair changes nothing.
    pub fn remove(&mut self, peer: &PeerIdentity, address: &Address)
        requires
            old(self).wf(),
        ensures
            final(self).wf(),
            final(self).view_set() == old(self).view_set().remove((peer@, address@)),
    {
        let ghost pairs0 = self.entries@.map_values(|e: (PeerIdentity, Address)| book_pair(e));
        let n = self.entries.len();
        let mut i: usize = 0;
        while i < n
            invariant
                old(self).wf(),
                n == self.entries@.len(),
                i <= n,
                self == old(self),
                pairs0 == self.entries@.map_values(|e: (PeerIdentity, Address)| book_pair(e)),
                forall|j: int| 0 <= j < i ==> pairs0[j] != (peer@, address@),
            decreases n - i,
        {
            proof {
                assert(pairs0[i as int] == (self.entries@[i as int].0@, self.entries@[i as int].1@));
            }
            let same_peer = bytes_equal(&self.entries[i].0.bytes, &peer.bytes);
            let same_addr = bytes_equal(&self.entries[i].1.bytes, &address.bytes);
            if same_peer && same_addr {
                self.entries.remove(i);
                proof {
                    let pairs1 = self.entries@.map_values(
                        |e: (PeerIdentity, Address)| book_pair(e),
                    );
                    assert(pairs1 =~= pairs0.remove(i as int));
                    assert forall|a: int, b: int| 0 <= a < b < pairs1.len() implies pairs1[a]
                        != pairs1[b] by {
                        assert(pairs1[a] == if a < i { pairs0[a] } else { pairs0[a + 1] });
                        assert(pairs1[b] == if b < i { pairs0[b] } else { pairs0[b + 1] });
                    }
                    assert forall|x: (Seq<u8>, Seq<u8>)| pairs1.contains(x) implies
                        pairs0.contains(x) && x != (peer@, address@) by {
                        let j = choose|j: int| 0 <= j < pairs1.len() && pairs1[j] == x;
                        if j < i {
                            assert(pairs0[j] == x);
                        } else {
                            assert(pairs0[j + 1] == x);
                        }
                    }
                    assert forall|x: (Seq<u8>, Seq<u8>)|
                        pairs0.contains(x) && x != (peer@, address@) implies pairs1.contains(
                        x,
                    ) by {
                        let j = choose|j: int| 0 <= j < pairs0.len() && pairs0[j] == x;
                        assert(j != i);
                        if j < i {
                            assert(pairs1[j] == x);
                        } else {
                            assert(pairs1[j - 1] == x);
                        }
                    }
                    assert(final(self).view_set() =~= old(self).view_set().remove(
                        (peer@, address@),
                    ));
                }
                return;
            }
            i = i + 1;
        }
        proof {
            assert forall|x: (Seq<u8>, Seq<u8>)| pairs0.contains(x) implies x
                != (peer@, address@) by {
                let j = choose|j: int| 0 <= j < pairs0.len() && pairs0[j] == x;
            }
            assert(final(self).view_set() =~= old(self).view_set().remove((peer@, address@)));
        }
    }

    /// Whether a pair is currently known.
    pub fn contains(&self, peer: &PeerIdentity, address: &Address) -> (r: bool)
        requires
            self.wf(),
        ensures
            r == self.view_set().contains((peer@, address@)),
    {
        let ghost pairs = self.entries@.map_values(|e: (PeerIdentity, Address)| book_pair(e));
        let n = self.entries.len();
        let mut i: usize = 0;
        while i < n
            invariant
                self.wf(),
                n == self.entries@.len(),
                i <= n,
                pairs == self.entries@.map_values(|e: (PeerIdentity, Address)| book_pair(e)),
                forall|j: int| 0 <= j < i ==> pairs[j] != (peer@, address@),
            decreases n - i,
        {
            proof {
                assert(pairs[i as int] == (self.entries@[i as int].0@, self.entries@[i as int].1@));
            }
            let same_peer = bytes_equal(&self.entries[i].0.bytes, &peer.bytes);
            let same_addr = bytes_equal(&self.entries[i].1.bytes, &address.bytes);
            if same_peer && same_addr {
                proof {
                    assert(pairs.contains(pairs[i as int]));
                }
                return true;
            }
            i = i + 1;
        }
        proof {
            assert forall|x: (Seq<u8>, Seq<u8>)| pairs.contains(x) implies x
                != (peer@, address@) by {
                let j = choose|j: int| 0 <= j < pairs.len() && pairs[j] == x;
            }
        }
        false
    }

    /// How many pairs are known: the size of the discovered set. A peer
    /// count derived from this can never go negative.
    pub fn len(&self) -> (r: usize)
        requires
            self.wf(),
        ensures
            r == self.view_set().len(),
    {
        proof {
            self.entries@.map_values(|e: (PeerIdentity, Address)| book_pair(e)).unique_seq_to_set();
        }
        self.entries.len()
    }
}

} // verus!
