//! A pool of language servers, one per language, with an idle time after which a server
//! is given up. Times are nanoseconds on a clock that does not go back.

use vstd::prelude::*;

use crate::seqs;
use crate::string_map::StringMap;
use crate::text;

verus! {

/// Idle time after which a pooled server is reaped: five minutes.
pub const DEFAULT_IDLE_TTL: u128 = 300_000_000_000;

/// A running language server.
#[derive(Debug)]
pub struct ChildHandle<C> {
    /// The language under which the pool keeps the handle.
    pub language: String,
    /// The server, unless it was taken out.
    pub child: Option<C>,
    /// When the handle was acquired or released last.
    pub last_used: u128,
}

impl<C> ChildHandle<C> {
    /// A handle for a server that was just spawned.
    pub fn new(language: String, child: C, now: u128) -> (h: ChildHandle<C>)
        ensures
            h == (ChildHandle { language, child: Some(child), last_used: now }),
    {
        ChildHandle { language, child: Some(child), last_used: now }
    }
}

/// The handle with the time of its last use set.
pub open spec fn used_at<C>(h: ChildHandle<C>, now: u128) -> ChildHandle<C> {
    ChildHandle { language: h.language, child: h.child, last_used: now }
}

/// The handle was not used for longer than `ttl`.
pub open spec fn idle<C>(h: ChildHandle<C>, now: u128, ttl: u128) -> bool {
    now - h.last_used > ttl
}

/// The keys of the handles that were not used for longer than `ttl`.
pub open spec fn idle_keys<C>(
    pool: Map<Seq<char>, ChildHandle<C>>,
    keys: Seq<Seq<char>>,
    now: u128,
    ttl: u128,
) -> Seq<Seq<char>> {
    keys.filter(|k: Seq<char>| idle(pool[k], now, ttl))
}

/// The handles of the given keys.
pub open spec fn handles<C>(
    pool: Map<Seq<char>, ChildHandle<C>>,
    keys: Seq<Seq<char>>,
) -> Seq<ChildHandle<C>> {
    Seq::new(keys.len(), |i: int| pool[keys[i]])
}

/// The pool of language servers. Where a handle is asked for and none is pooled, the
/// caller spawns a server.
#[derive(Debug)]
pub struct LspServerManager<C> {
    pool: StringMap<ChildHandle<C>>,
    idle_ttl: u128,
}

impl<C> LspServerManager<C> {
    /// The pooled handles by language.
    pub closed spec fn pool(&self) -> Map<Seq<char>, ChildHandle<C>> {
        self.pool@
    }

    /// The pooled languages in the order in which the pool walks them.
    pub closed spec fn languages(&self) -> Seq<Seq<char>> {
        self.pool.keys()
    }

    /// The idle time after which a server is reaped.
    pub closed spec fn idle_ttl(&self) -> u128 {
        self.idle_ttl
    }

    /// The languages are those of the pool, each once. It holds of every pool.
    pub closed spec fn wf(&self) -> bool {
        self.pool.wf()
    }

    /// The languages are those of the pool, each once.
    pub proof fn lemma_languages(&self)
        requires
            self.wf(),
        ensures
            self.languages().no_duplicates(),
            self.languages().to_set() == self.pool().dom(),
    {
        self.pool.lemma_keys();
    }

    /// An empty pool with the default idle time.
    pub fn new() -> (m: LspServerManager<C>)
        ensures
            m.pool() == Map::<Seq<char>, ChildHandle<C>>::empty(),
            m.idle_ttl() == DEFAULT_IDLE_TTL,
            m.wf(),
    {
        Self::with_ttl(DEFAULT_IDLE_TTL)
    }

    /// An empty pool with an idle time of its own.
    pub fn with_ttl(ttl: u128) -> (m: LspServerManager<C>)
        ensures
            m.pool() == Map::<Seq<char>, ChildHandle<C>>::empty(),
            m.idle_ttl() == ttl,
            m.wf(),
    {
        LspServerManager { pool: StringMap::new(), idle_ttl: ttl }
    }

    /// Takes the handle of a language out of the pool, where there is one, and marks it
    /// as used.
    pub fn acquire(&mut self, language: &str, now: u128) -> (handle: Option<ChildHandle<C>>)
        ensures
            final(self).pool() == old(self).pool().remove(language@),
            final(self).idle_ttl() == old(self).idle_ttl(),
            handle == (if old(self).pool().dom().contains(language@) {
                Some(used_at(old(self).pool()[language@], now))
            } else {
                None
            }),
    {
        match self.pool.remove(language) {
            Some(handle) => Some(
                ChildHandle { language: handle.language, child: handle.child, last_used: now },
            ),
            None => None,
        }
    }

    /// Puts a handle into the pool and marks it as used. Returns the server that was
    /// pooled for the language till then: it is to be killed.
    pub fn release(&mut self, handle: ChildHandle<C>, now: u128) -> (stale: Option<C>)
        ensures
            final(self).pool() == old(self).pool().insert(handle.language@, used_at(handle, now)),
            final(self).idle_ttl() == old(self).idle_ttl(),
            stale == (if old(self).pool().dom().contains(handle.language@) {
                old(self).pool()[handle.language@].child
            } else {
                None
            }),
    {
        let mut handle = handle;
        handle.last_used = now;
        let key = handle.language.clone();
        match self.pool.insert(key, handle) {
            Some(stale) => stale.child,
            None => None,
        }
    }

    /// Takes the handles of the given languages out of the pool.
    fn evict(&mut self, keys: &Vec<String>) -> (evicted: Vec<ChildHandle<C>>)
        requires
            text::views(keys@).no_duplicates(),
            text::views(keys@).to_set().subset_of(old(self).pool().dom()),
        ensures
            final(self).pool() == old(self).pool().remove_keys(text::views(keys@).to_set()),
            final(self).idle_ttl() == old(self).idle_ttl(),
            evicted@ == handles(old(self).pool(), text::views(keys@)),
    {
        let ghost all = text::views(keys@);
        let ghost before = self.pool();
        let mut evicted: Vec<ChildHandle<C>> = Vec::new();
        let mut i: usize = 0;
        while i < keys.len()
            invariant
                0 <= i <= keys@.len(),
                all == text::views(keys@),
                all.no_duplicates(),
                all.to_set().subset_of(before.dom()),
                self.idle_ttl() == old(self).idle_ttl(),
                evicted@ == handles(before, all.take(i as int)),
                self.pool() =~= before.remove_keys(all.take(i as int).to_set()),
            decreases keys@.len() - i,
        {
            proof {
                let key = all[i as int];
                assert(all.to_set().contains(key));
                let done = all.take(i as int);
                let more = all.take(i + 1);
                assert(!done.contains(key));
                assert(more =~= done.push(key));
                assert forall|k: Seq<char>| more.to_set().contains(k) == done.to_set().insert(
                    key,
                ).contains(k) by {
                    if more.contains(k) {
                        let j = choose|j: int| 0 <= j < more.len() && more[j] == k;
                        if j < i {
                            assert(done[j] == k);
                        }
                    }
                    if done.contains(k) {
                        let j = choose|j: int| 0 <= j < done.len() && done[j] == k;
                        assert(more[j] == k);
                    }
                    if k == key {
                        assert(more[i as int] == k);
                    }
                }
                assert(more.to_set() =~= done.to_set().insert(key));
            }
            let removed = self.pool.remove(keys[i].as_str());
            assert(removed is Some);
            if let Some(handle) = removed {
                evicted.push(handle);
                assert(evicted@ =~= handles(before, all.take(i + 1)));
            }
            i += 1;
        }
        assert(all.take(i as int) =~= all);
        evicted
    }

    /// Takes the servers that were not used for longer than the idle time out of the
    /// pool. They are to be killed.
    pub fn reap_idle(&mut self, now: u128) -> (reaped: Vec<ChildHandle<C>>)
        ensures
            reaped@ == handles(
                old(self).pool(),
                idle_keys(old(self).pool(), old(self).languages(), now, old(self).idle_ttl()),
            ),
            final(self).pool() == old(self).pool().remove_keys(
                idle_keys(
                    old(self).pool(),
                    old(self).languages(),
                    now,
                    old(self).idle_ttl(),
                ).to_set(),
            ),
            final(self).idle_ttl() == old(self).idle_ttl(),
    {
        let ttl: u128 = self.idle_ttl;
        let n: usize = self.pool.len();
        let ghost pool = self.pool();
        let ghost keys = self.languages();
        let ghost stale = |k: Seq<char>| idle(pool[k], now, ttl);
        proof {
            self.pool.lemma_keys();
        }
        let mut stale_keys: Vec<String> = Vec::new();
        let mut i: usize = 0;
        assert(text::views(stale_keys@) =~= keys.take(0).filter(stale)) by {
            reveal(Seq::filter);
        }
        while i < n
            invariant
                0 <= i <= n,
                n == keys.len(),
                keys == self.languages(),
                pool == self.pool(),
                ttl == self.idle_ttl(),
                self.idle_ttl() == old(self).idle_ttl(),
                self.pool() == old(self).pool(),
                stale == (|k: Seq<char>| idle(pool[k], now, ttl)),
                text::views(stale_keys@) =~= keys.take(i as int).filter(stale),
            decreases n - i,
        {
            proof {
                seqs::lemma_filter_step(keys, stale, i as int);
            }
            let handle = self.pool.value_at(i);
            if handle.last_used < now && now - handle.last_used > ttl {
                stale_keys.push(self.pool.key_at(i).to_owned());
            }
            i += 1;
        }
        proof {
            assert(keys.take(i as int) =~= keys);
            assert(idle_keys(pool, keys, now, ttl) == keys.filter(stale));
            lemma_filter_distinct(keys, stale);
        }
        self.evict(&stale_keys)
    }

    /// Takes every server out of the pool. They are to be killed.
    pub fn kill_all(&mut self) -> (killed: Vec<ChildHandle<C>>)
        ensures
            killed@ == handles(old(self).pool(), old(self).languages()),
            final(self).pool() == Map::<Seq<char>, ChildHandle<C>>::empty(),
            final(self).idle_ttl() == old(self).idle_ttl(),
    {
        let n: usize = self.pool.len();
        let ghost keys = self.languages();
        proof {
            self.pool.lemma_keys();
        }
        let mut all: Vec<String> = Vec::new();
        let mut i: usize = 0;
        while i < n
            invariant
                0 <= i <= n,
                n == keys.len(),
                keys == self.languages(),
                self.pool() == old(self).pool(),
                self.idle_ttl() == old(self).idle_ttl(),
                text::views(all@) =~= keys.take(i as int),
            decreases n - i,
        {
            all.push(self.pool.key_at(i).to_owned());
            assert(keys.take(i + 1) =~= keys.take(i as int).push(keys[i as int]));
            assert(text::views(all@).last() == keys[i as int]);
            i += 1;
        }
        assert(keys.take(i as int) =~= keys);
        let killed = self.evict(&all);
        assert(self.pool() =~= Map::<Seq<char>, ChildHandle<C>>::empty());
        killed
    }

    /// The number of pooled servers.
    pub fn len(&self) -> (n: usize)
        ensures
            n == self.pool().len(),
            self.pool().dom().finite(),
            self.wf(),
    {
        self.pool.len()
    }

    /// Whether no server is pooled.
    pub fn is_empty(&self) -> (b: bool)
        ensures
            b == (self.pool() == Map::<Seq<char>, ChildHandle<C>>::empty()),
    {
        self.pool.is_empty()
    }
}

proof fn lemma_filter_distinct(keys: Seq<Seq<char>>, p: spec_fn(Seq<char>) -> bool)
    requires
        keys.no_duplicates(),
    ensures
        keys.filter(p).no_duplicates(),
        keys.filter(p).to_set().subset_of(keys.to_set()),
    decreases keys.len(),
{
    reveal(Seq::filter);
    if keys.len() > 0 {
        let rest = keys.drop_last();
        lemma_filter_distinct(rest, p);
        assert forall|k: Seq<char>| keys.filter(p).to_set().contains(k) implies keys.to_set().contains(
            k,
        ) by {
            let list = keys.filter(p);
            let i = choose|i: int| 0 <= i < list.len() && list[i] == k;
            if k != keys.last() {
                assert(rest.filter(p)[i] == k);
                assert(rest.filter(p).to_set().contains(k));
                let j = choose|j: int| 0 <= j < rest.len() && rest[j] == k;
                assert(keys[j] == k);
            }
        }
        assert forall|i: int| 0 <= i < rest.filter(p).len() implies rest.filter(p)[i]
            != keys.last() by {
            let x = rest.filter(p)[i];
            assert(rest.filter(p).contains(x));
            assert(rest.filter(p).to_set().contains(x));
            assert(rest.to_set().contains(x));
            let j = choose|j: int| 0 <= j < rest.len() && rest[j] == x;
            assert(keys[j] == x);
        }
    }
}

/// A released server is what the next request for its language is given, however many
/// others were released or acquired for other languages meanwhile.
pub proof fn released_server_is_reused<C>(
    before: Map<Seq<char>, ChildHandle<C>>,
    handle: ChildHandle<C>,
    released: u128,
    now: u128,
)
    ensures
        ({
            let pool = before.insert(handle.language@, used_at(handle, released));
            &&& pool.dom().contains(handle.language@)
            &&& used_at(pool[handle.language@], now) == used_at(handle, now)
            &&& forall|other: Seq<char>|
                other != handle.language@ ==> pool.remove(other).dom().contains(handle.language@)
                    && pool.remove(other)[handle.language@] == pool[handle.language@]
        }),
{
}

/// A server that was used within the idle time stays.
pub proof fn used_servers_stay<C>(m: LspServerManager<C>, now: u128, language: Seq<char>)
    requires
        m.wf(),
        m.pool().dom().contains(language),
    ensures
        m.pool().remove_keys(
            idle_keys(m.pool(), m.languages(), now, m.idle_ttl()).to_set(),
        ).dom().contains(language) <==> now - m.pool()[language].last_used <= m.idle_ttl(),
{
    broadcast use vstd::seq_lib::group_seq_properties;

    m.lemma_languages();
    let pool = m.pool();
    let ttl = m.idle_ttl();
    let stale = |k: Seq<char>| idle(pool[k], now, ttl);
    let list = m.languages().filter(stale);
    assert(idle_keys(pool, m.languages(), now, ttl) == list);
    assert(m.languages().to_set().contains(language));
    assert(m.languages().contains(language));
    assert(list.contains(language) <==> stale(language)) by {
        if stale(language) {
            let i = choose|i: int| 0 <= i < m.languages().len() && m.languages()[i] == language;
            assert(stale(m.languages()[i]));
        }
        if list.contains(language) {
            let i = choose|i: int| 0 <= i < list.len() && list[i] == language;
            assert(stale(list[i]));
        }
    }
}

/// A handle that is used stays the same but for the time of its use.
pub proof fn use_changes_the_time_alone<C>(h: ChildHandle<C>, now: u128)
    ensures
        used_at(h, now).language == h.language,
        used_at(h, now).child == h.child,
        used_at(h, now).last_used == now,
{
}

/// Every server that has been idle for longer than the pool allows is among those that are
/// reaped, and no other is.
pub proof fn idle_servers_are_reaped<C>(m: LspServerManager<C>, now: u128, language: Seq<char>)
    requires
        m.wf(),
        m.pool().dom().contains(language),
    ensures
        m.pool()[language].last_used + m.idle_ttl() < now ==> handles(
            m.pool(),
            idle_keys(m.pool(), m.languages(), now, m.idle_ttl()),
        ).contains(m.pool()[language]),
        idle_keys(m.pool(), m.languages(), now, m.idle_ttl()).contains(language)
            <==> m.pool()[language].last_used + m.idle_ttl() < now,
{
    m.lemma_languages();
    let keys = m.languages();
    let p = |k: Seq<char>| idle(m.pool()[k], now, m.idle_ttl());
    let reaped = idle_keys(m.pool(), keys, now, m.idle_ttl());
    keys.filter_lemma(p);
    assert(keys.to_set().contains(language));
    let i = choose|i: int| 0 <= i < keys.len() && keys[i] == language;
    if p(language) {
        assert(p(keys[i]));
        assert(keys.filter(p).contains(keys[i]));
        let k = choose|k: int| 0 <= k < reaped.len() && reaped[k] == language;
        assert(handles(m.pool(), reaped)[k] == m.pool()[language]);
    }
    if reaped.contains(language) {
        let k = choose|k: int| 0 <= k < reaped.len() && reaped[k] == language;
        assert(p(keys.filter(p)[k]));
    }
}

/// Every server of the pool is killed with it.
pub proof fn every_server_is_killed<C>(m: LspServerManager<C>, language: Seq<char>)
    requires
        m.wf(),
        m.pool().dom().contains(language),
    ensures
        handles(m.pool(), m.languages()).contains(m.pool()[language]),
        handles(m.pool(), m.languages()).len() == m.pool().dom().len(),
{
    m.lemma_languages();
    let keys = m.languages();
    assert(keys.to_set().contains(language));
    let i = choose|i: int| 0 <= i < keys.len() && keys[i] == language;
    assert(handles(m.pool(), keys)[i] == m.pool()[language]);
    keys.unique_seq_to_set();
}

} // verus!
