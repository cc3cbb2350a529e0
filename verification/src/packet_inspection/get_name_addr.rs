//! A least-recently-used cache of reverse-DNS names.
//!
//! The cache performs no lookup. A caller asks it for the name of an
//! address; on a miss the caller performs the lookup and hands the outcome
//! back, and the cache decides what name to report and whether to keep it.

use vstd::prelude::*;

verus! {

/// Number of names the cache keeps unless told otherwise.
pub const DEFAULT_CACHE_CAPACITY: usize = 8192;

/// One cached name: the address as text, and the host name found for it.
pub struct CacheEntry {
    address: String,
    hostname: String,
}

/// The entries of a cache, least recently used first, each as address and
/// host name.
pub type CacheModel = Seq<(Seq<char>, Seq<char>)>;

/// Whether no address occurs twice.
pub open spec fn distinct_addresses(entries: CacheModel) -> bool {
    forall|i: int, j: int|
        0 <= i < entries.len() && 0 <= j < entries.len() && i != j ==> entries[i].0 != entries[j].0
}

/// Whether `address` has an entry.
pub open spec fn holds(entries: CacheModel, address: Seq<char>) -> bool {
    exists|i: int| 0 <= i < entries.len() && entries[i].0 == address
}

/// The place of the entry of `address`, for an address that has one.
pub open spec fn place_of(entries: CacheModel, address: Seq<char>) -> int {
    choose|i: int| 0 <= i < entries.len() && entries[i].0 == address
}

/// The name cached for `address`, for an address that has an entry.
pub open spec fn name_of(entries: CacheModel, address: Seq<char>) -> Seq<char> {
    entries[place_of(entries, address)].1
}

/// The entries after a hit on `address`: its entry becomes the most
/// recently used, and nothing else changes.
pub open spec fn touched(entries: CacheModel, address: Seq<char>) -> CacheModel {
    entries.remove(place_of(entries, address)).push(entries[place_of(entries, address)])
}

/// The entries after `hostname` was found for `address`, in a cache that
/// keeps `capacity` entries: the entry is the most recently used; it takes
/// the place of an older entry of the same address, or else, when the cache
/// is full, of the least recently used entry. A cache that keeps nothing
/// stays empty.
pub open spec fn admitted(
    entries: CacheModel,
    capacity: nat,
    address: Seq<char>,
    hostname: Seq<char>,
) -> CacheModel {
    if capacity == 0 {
        entries
    } else if holds(entries, address) {
        entries.remove(place_of(entries, address)).push((address, hostname))
    } else if entries.len() >= capacity {
        entries.drop_first().push((address, hostname))
    } else {
        entries.push((address, hostname))
    }
}

/// Whether a lookup gave a name worth keeping: it succeeded, and the name
/// is not the address itself.
pub open spec fn is_named(address: Seq<char>, looked_up: Option<Seq<char>>) -> bool {
    looked_up matches Some(hostname) && hostname != address
}

/// The name reported after a lookup: the name found, or `unknown`.
pub open spec fn reported_name(address: Seq<char>, looked_up: Option<Seq<char>>) -> Seq<char> {
    match looked_up {
        Some(hostname) => if hostname != address {
            hostname
        } else {
            "unknown"@
        },
        None => "unknown"@,
    }
}

/// A hit can be repeated: after a hit on `address` the cache still holds
/// the same name for it, holds as many entries as before, and still names
/// every other address as it did.
pub proof fn lemma_hit_is_repeatable(entries: CacheModel, address: Seq<char>, other: Seq<char>)
    requires
        distinct_addresses(entries),
        holds(entries, address),
    ensures
        distinct_addresses(touched(entries, address)),
        touched(entries, address).len() == entries.len(),
        holds(touched(entries, address), address),
        name_of(touched(entries, address), address) == name_of(entries, address),
        holds(touched(entries, address), other) == holds(entries, other),
        holds(entries, other) ==> name_of(touched(entries, address), other) == name_of(
            entries,
            other,
        ),
{
    let p = place_of(entries, address);
    let after = touched(entries, address);
    let last = entries.len() - 1;
    assert(after.len() == entries.len());
    assert forall|k: int| 0 <= k < after.len() implies #[trigger] after[k] == entries[if k
        == last {
        p
    } else if k < p {
        k
    } else {
        k + 1
    }] by {}
    assert(after[last] == entries[p]);
    assert(holds(after, address));
    let q = place_of(after, address);
    assert(q == last) by {
        if q != last {
            let src = if q < p {
                q
            } else {
                q + 1
            };
            assert(after[q] == entries[src]);
            assert(src != p);
        }
    }
    if holds(entries, other) {
        let o = place_of(entries, other);
        let k = if o == p {
            last
        } else if o < p {
            o
        } else {
            o - 1
        };
        assert(after[k] == entries[o]);
        assert(holds(after, other));
        let r = place_of(after, other);
        assert(r == k) by {
            if r != k {
                assert(after[r].0 == after[k].0);
            }
        }
    }
    if holds(after, other) {
        let r = place_of(after, other);
        let src = if r == last {
            p
        } else if r < p {
            r
        } else {
            r + 1
        };
        assert(after[r] == entries[src]);
        assert(holds(entries, other));
    }
}

/// What was found is cached: after `hostname` was admitted for `address`
/// into a cache that keeps at least one entry, the cache holds `hostname`
/// for `address`, within its capacity and without repeating an address.
pub proof fn lemma_admitted_is_held(
    entries: CacheModel,
    capacity: nat,
    address: Seq<char>,
    hostname: Seq<char>,
)
    requires
        distinct_addresses(entries),
        entries.len() <= capacity,
        capacity > 0,
    ensures
        distinct_addresses(admitted(entries, capacity, address, hostname)),
        admitted(entries, capacity, address, hostname).len() <= capacity,
        holds(admitted(entries, capacity, address, hostname), address),
        name_of(admitted(entries, capacity, address, hostname), address) == hostname,
{
    let after = admitted(entries, capacity, address, hostname);
    let last = after.len() - 1;
    if holds(entries, address) {
        let p = place_of(entries, address);
        assert forall|k: int| 0 <= k < last implies #[trigger] after[k] == entries[if k < p {
            k
        } else {
            k + 1
        }] by {}
    } else if entries.len() >= capacity {
        assert forall|k: int| 0 <= k < last implies #[trigger] after[k] == entries[k + 1] by {}
    } else {
        assert forall|k: int| 0 <= k < last implies #[trigger] after[k] == entries[k] by {}
    }
    assert(after[last] == (address, hostname));
    assert(holds(after, address));
    let q = place_of(after, address);
    assert(q == last) by {
        if q != last {
            assert(after[q].0 == address);
            if holds(entries, address) {
                let p = place_of(entries, address);
                let src = if q < p {
                    q
                } else {
                    q + 1
                };
                assert(after[q] == entries[src]);
            } else if entries.len() >= capacity {
                assert(after[q] == entries[q + 1]);
            } else {
                assert(after[q] == entries[q]);
            }
        }
    }
}

/// A name leaves the cache only to make room: after `hostname` was admitted
/// for `address`, every other address that was held is still held, with the
/// name it had, unless the cache was full and the address was the least
/// recently used one.
pub proof fn lemma_admitted_keeps_the_others(
    entries: CacheModel,
    capacity: nat,
    address: Seq<char>,
    hostname: Seq<char>,
    other: Seq<char>,
)
    requires
        distinct_addresses(entries),
        entries.len() <= capacity,
        capacity > 0,
        other != address,
        holds(entries, other),
        holds(entries, address) || entries.len() < capacity || entries[0].0 != other,
    ensures
        holds(admitted(entries, capacity, address, hostname), other),
        name_of(admitted(entries, capacity, address, hostname), other) == name_of(entries, other),
{
    lemma_admitted_is_held(entries, capacity, address, hostname);
    let after = admitted(entries, capacity, address, hostname);
    let o = place_of(entries, other);
    let k = if holds(entries, address) {
        let p = place_of(entries, address);
        if o < p {
            o
        } else {
            o - 1
        }
    } else if entries.len() >= capacity {
        o - 1
    } else {
        o
    };
    assert(after[k] == entries[o]);
    assert(holds(after, other));
    let r = place_of(after, other);
    assert(r == k) by {
        if r != k {
            assert(after[r].0 == after[k].0);
        }
    }
}

/// The cache of the name resolver.
pub struct GetNameAddrImpl {
    cache: Vec<CacheEntry>,
    capacity: usize,
}

impl GetNameAddrImpl {
    /// The entries, least recently used first.
    pub closed spec fn entries(&self) -> CacheModel {
        self.cache@.map_values(|e: CacheEntry| (e.address@, e.hostname@))
    }

    /// Number of entries the cache keeps.
    pub closed spec fn capacity(&self) -> nat {
        self.capacity as nat
    }

    /// No address is cached twice, and the cache is within its capacity.
    pub open spec fn wf(&self) -> bool {
        distinct_addresses(self.entries()) && self.entries().len() <= self.capacity()
    }

    /// An empty cache of the default capacity.
    pub fn new() -> (r: GetNameAddrImpl)
        ensures
            r.wf(),
            r.entries() == CacheModel::empty(),
            r.capacity() == DEFAULT_CACHE_CAPACITY,
    {
        GetNameAddrImpl::with_capacity(DEFAULT_CACHE_CAPACITY)
    }

    /// An empty cache that keeps `capacity` entries.
    pub fn with_capacity(capacity: usize) -> (r: GetNameAddrImpl)
        ensures
            r.wf(),
            r.entries() == CacheModel::empty(),
            r.capacity() == capacity,
    {
        let r = GetNameAddrImpl { cache: Vec::new(), capacity };
        assert(r.entries() =~= CacheModel::empty());
        r
    }

    /// Number of cached names.
    pub fn len(&self) -> (r: usize)
        ensures
            r == self.entries().len(),
    {
        self.cache.len()
    }

    /// The place of the entry of `address`, if there is one.
    fn find(&self, address: &String) -> (r: Option<usize>)
        requires
            self.wf(),
        ensures
            r is Some <==> holds(self.entries(), address@),
            r matches Some(i) ==> i as int == place_of(self.entries(), address@) && i
                < self.cache@.len(),
    {
        let mut i: usize = 0;
        while i < self.cache.len()
            invariant
                self.wf(),
                i <= self.cache@.len(),
                forall|j: int| 0 <= j < i ==> self.entries()[j].0 != address@,
            decreases self.cache@.len() - i,
        {
            if self.cache[i].address == *address {
                proof {
                    assert(self.entries()[i as int].0 == address@);
                    let p = place_of(self.entries(), address@);
                    assert(self.entries()[p].0 == self.entries()[i as int].0);
                }
                return Some(i);
            }
            i += 1;
        }
        None
    }

    /// The name cached for `address`, if there is one. A hit makes the
    /// entry the most recently used; a miss changes nothing.
    pub fn cached(&mut self, address: &str) -> (r: Option<String>)
        requires
            old(self).wf(),
        ensures
            final(self).wf(),
            final(self).capacity() == old(self).capacity(),
            r is Some <==> holds(old(self).entries(), address@),
            r matches Some(name) ==> name@ == name_of(old(self).entries(), address@),
            final(self).entries() == if holds(old(self).entries(), address@) {
                touched(old(self).entries(), address@)
            } else {
                old(self).entries()
            },
    {
        let key = address.to_owned();
        match self.find(&key) {
            Some(i) => {
                let entry = self.cache.remove(i);
                let name = entry.hostname.clone();
                self.cache.push(entry);
                proof {
                    assert(self.entries() =~= touched(old(self).entries(), address@));
                    lemma_hit_is_repeatable(old(self).entries(), address@, address@);
                }
                Some(name)
            },
            None => None,
        }
    }

    /// Takes the outcome of a lookup for `address` and gives the name to
    /// report.
    ///
    /// A lookup that failed, or that gave the address back, reports
    /// `unknown` and leaves the cache as it is, so that a later lookup can
    /// do better. Any other name is reported and cached as the most
    /// recently used entry; if the cache is full, the least recently used
    /// entry makes room.
    pub fn resolved(&mut self, address: &str, looked_up: Option<String>) -> (r: String)
        requires
            old(self).wf(),
        ensures
            final(self).wf(),
            final(self).capacity() == old(self).capacity(),
            r@ == reported_name(
                address@,
                match looked_up {
                    Some(hostname) => Some(hostname@),
                    None => None,
                },
            ),
            final(self).entries() == match looked_up {
                Some(hostname) => if hostname@ != address@ {
                    admitted(old(self).entries(), old(self).capacity(), address@, hostname@)
                } else {
                    old(self).entries()
                },
                None => old(self).entries(),
            },
    {
        let key = address.to_owned();
        match looked_up {
            Some(hostname) => {
                if hostname == key {
                    "unknown".to_owned()
                } else {
                    let name = hostname.clone();
                    self.keep(key, hostname);
                    name
                }
            },
            None => "unknown".to_owned(),
        }
    }

    /// Caches `hostname` for `address`.
    fn keep(&mut self, address: String, hostname: String)
        requires
            old(self).wf(),
        ensures
            final(self).wf(),
            final(self).capacity() == old(self).capacity(),
            final(self).entries() == admitted(
                old(self).entries(),
                old(self).capacity(),
                address@,
                hostname@,
            ),
    {
        if self.capacity == 0 {
            return ;
        }
        proof {
            lemma_admitted_is_held(old(self).entries(), old(self).capacity(), address@, hostname@);
        }
        match self.find(&address) {
            Some(i) => {
                self.cache.remove(i);
            },
            None => {
                if self.cache.len() >= self.capacity {
                    self.cache.remove(0);
                }
            },
        }
        self.cache.push(CacheEntry { address, hostname });
        proof {
            assert(self.entries() =~= admitted(
                old(self).entries(),
                old(self).capacity(),
                address@,
                hostname@,
            ));
        }
    }
}

} // verus!
