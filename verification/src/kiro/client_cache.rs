//! A bounded cache of clients, one for each proxy.

use vstd::prelude::*;

use crate::http_client::{opt_proxy, ProxyConfig, ProxyView};
use crate::kiro::proxy::same_candidate;

verus! {

/// The most clients that are kept, beside the one of the global proxy.
pub const CLIENT_CACHE_CAP: usize = 64;

/// A cache of clients by the proxy that they use; none stands for a direct
/// connection. The client of the protected key stays for good. Of the others
/// the oldest makes room for a new one when the cache is full.
#[derive(Debug)]
pub struct ClientCache<C> {
    protected: Option<ProxyConfig>,
    initial: C,
    entries: Vec<(Option<ProxyConfig>, C)>,
    cap: usize,
}

/// A kept client and its key.
pub struct CacheEntry<C> {
    pub key: Option<ProxyView>,
    pub client: C,
}

/// What a cache holds.
pub struct CacheView<C> {
    pub protected: Option<ProxyView>,
    /// The client of the protected key.
    pub initial: C,
    /// The other clients, the oldest first.
    pub entries: Seq<CacheEntry<C>>,
    pub cap: nat,
}

impl<C> CacheView<C> {
    /// No key is there twice, and no more are kept than there is room for.
    pub open spec fn wf(self) -> bool {
        &&& forall|i: int|
            0 <= i < self.entries.len() ==> (#[trigger] self.entries[i]).key != self.protected
        &&& forall|i: int, j: int|
            0 <= i < j < self.entries.len() ==> (#[trigger] self.entries[i]).key != (
            #[trigger] self.entries[j]).key
        &&& self.entries.len() <= self.cap || self.entries.len() <= 1
    }

    /// Where the client of a key stands.
    pub open spec fn position(self, key: Option<ProxyView>) -> Option<int> {
        if exists|i: int| 0 <= i < self.entries.len() && (#[trigger] self.entries[i]).key == key {
            Some(
                choose|i: int|
                    0 <= i < self.entries.len() && (#[trigger] self.entries[i]).key == key,
            )
        } else {
            None
        }
    }

    /// The client of a key.
    pub open spec fn get(self, key: Option<ProxyView>) -> Option<C> {
        if key == self.protected {
            Some(self.initial)
        } else {
            match self.position(key) {
                Some(i) => Some(self.entries[i].client),
                None => None,
            }
        }
    }

    /// The other clients that stay when one more is to find room.
    pub open spec fn with_room(self) -> Seq<CacheEntry<C>> {
        if self.entries.len() < self.cap || self.entries.len() == 0 {
            self.entries
        } else {
            self.entries.skip(1)
        }
    }

    /// The cache after a client was put in.
    pub open spec fn insert(self, key: Option<ProxyView>, client: C) -> CacheView<C> {
        if key == self.protected {
            CacheView { initial: client, ..self }
        } else {
            match self.position(key) {
                Some(i) => CacheView {
                    entries: self.entries.update(i, CacheEntry { key, client }),
                    ..self
                },
                None => CacheView {
                    entries: self.with_room().push(CacheEntry { key, client }),
                    ..self
                },
            }
        }
    }
}

impl<C> ClientCache<C> {
    spec fn entry_views(list: Seq<(Option<ProxyConfig>, C)>) -> Seq<CacheEntry<C>> {
        list.map_values(
            |e: (Option<ProxyConfig>, C)| CacheEntry { key: opt_proxy(e.0), client: e.1 },
        )
    }

    pub closed spec fn view(&self) -> CacheView<C> {
        CacheView {
            protected: opt_proxy(self.protected),
            initial: self.initial,
            entries: Self::entry_views(self.entries@),
            cap: self.cap as nat,
        }
    }

    /// A cache that holds the client of the protected key only.
    pub fn new(protected: Option<ProxyConfig>, initial: C, cap: usize) -> (r: Self)
        ensures
            r@ == (CacheView {
                protected: opt_proxy(protected),
                initial,
                entries: Seq::empty(),
                cap: cap as nat,
            }),
            r@.wf(),
    {
        let r = ClientCache { protected, initial, entries: Vec::new(), cap };
        assert(Self::entry_views(r.entries@) =~= Seq::empty());
        r
    }

    fn find(&self, key: &Option<ProxyConfig>) -> (r: Option<usize>)
        requires
            self@.wf(),
        ensures
            match r {
                Some(i) => i < self.entries@.len() && self@.position(opt_proxy(*key)) == Some(
                    i as int,
                ) && self@.entries[i as int].key == opt_proxy(*key),
                None => self@.position(opt_proxy(*key)) is None,
            },
    {
        let mut i: usize = 0;
        while i < self.entries.len()
            invariant
                i <= self.entries@.len(),
                self@.wf(),
                forall|k: int|
                    0 <= k < i ==> (#[trigger] self@.entries[k]).key != opt_proxy(*key),
            decreases self.entries@.len() - i,
        {
            if same_candidate(&self.entries[i].0, key) {
                assert(self@.entries[i as int].key == opt_proxy(*key));
                return Some(i);
            }
            i += 1;
        }
        None
    }

    /// The client of a key.
    pub fn get(&self, key: &Option<ProxyConfig>) -> (r: Option<&C>)
        requires
            self@.wf(),
        ensures
            (match r {
                Some(c) => Some(*c),
                None => None,
            }) == self@.get(opt_proxy(*key)),
    {
        if same_candidate(&self.protected, key) {
            return Some(&self.initial);
        }
        match self.find(key) {
            Some(i) => Some(&self.entries[i].1),
            None => None,
        }
    }

    /// Puts a client in. When the cache is full the oldest one gives way.
    pub fn insert(&mut self, key: Option<ProxyConfig>, client: C)
        requires
            old(self)@.wf(),
        ensures
            final(self)@ == old(self)@.insert(opt_proxy(key), client),
            final(self)@.wf(),
    {
        let ghost before = self.entries@;
        if same_candidate(&self.protected, &key) {
            self.initial = client;
            return;
        }
        match self.find(&key) {
            Some(i) => {
                self.entries.set(i, (key, client));
                assert(Self::entry_views(self.entries@) =~= Self::entry_views(before).update(
                    i as int,
                    CacheEntry { key: opt_proxy(key), client },
                ));
            },
            None => {
                if self.entries.len() >= self.cap && self.entries.len() > 0 {
                    self.entries.remove(0);
                    assert(self.entries@ =~= before.skip(1));
                }
                let ghost kept = self.entries@;
                assert(Self::entry_views(kept) =~= old(self)@.with_room());
                self.entries.push((key, client));
                assert(Self::entry_views(self.entries@) =~= Self::entry_views(kept).push(
                    CacheEntry { key: opt_proxy(key), client },
                ));
                proof {
                    insert_then_get(old(self)@, opt_proxy(key), client);
                }
            },
        }
    }
}

/// A client that was put in is found, and the one of the protected key stays.
pub proof fn insert_then_get<C>(c: CacheView<C>, key: Option<ProxyView>, client: C)
    requires
        c.wf(),
    ensures
        c.insert(key, client).wf(),
        c.insert(key, client).get(key) == Some(client),
        key != c.protected ==> c.insert(key, client).get(c.protected) == c.get(c.protected),
        c.insert(key, client).entries.len() <= c.cap || c.insert(key, client).entries.len() <= 1,
{
    let after = c.insert(key, client);
    if key != c.protected {
        match c.position(key) {
            Some(i) => {
                assert(after.entries[i].key == key);
                assert(after.position(key) == Some(i));
            },
            None => {
                let kept = c.with_room();
                let last = after.entries.len() - 1;
                assert(after.entries[last].key == key);
                assert forall|i: int| 0 <= i < last implies (#[trigger] after.entries[i]).key != key
                    && after.entries[i].key != c.protected by {
                    assert(after.entries[i] == kept[i]);
                    assert(kept[i] == c.entries[i] || kept[i] == c.entries[i + 1]);
                }
                assert forall|i: int, j: int| 0 <= i < j < after.entries.len() implies (
                #[trigger] after.entries[i]).key != (#[trigger] after.entries[j]).key by {
                    if j < last {
                        let d: int = if kept == c.entries {
                            0
                        } else {
                            1
                        };
                        assert(kept[i] == c.entries[i + d] && kept[j] == c.entries[j + d]);
                    }
                }
                assert(after.position(key) == Some(last));
            },
        }
    }
}

} // verus!
