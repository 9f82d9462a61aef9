//! The state store: registered guilds with their settings and worker
//! bindings, the worker pool's prefixes, and pending member registrations.

use vstd::prelude::*;
use crate::assignment::{all_busy, bound_to, is_first_free, Assignment, Slot};
use crate::models::{Guild, Id, Setting, UnregisteredMember};
use crate::settings::{all_unset, with_field, SettingField};

verus! {

/// What the store keeps for one registered guild.
pub struct GuildRecord {
    pub guild: Guild,
    pub settings: Setting,
    pub assignment: Assignment,
}

/// The guild that record `r` belongs to.
pub open spec fn key(r: GuildRecord) -> u64 {
    r.guild.discord_id.0
}

/// A record whose settings belong to it and whose pool has `n` workers.
pub open spec fn record_wf(r: GuildRecord, n: nat) -> bool {
    &&& r.settings.id == r.guild.settings_id
    &&& r.assignment.wf()
    &&& r.assignment@.len() == n
}

/// Each record of `m` is stored under its own guild and is well formed
/// for a pool of `n` workers.
pub open spec fn records_wf(m: Map<u64, GuildRecord>, n: nat) -> bool {
    forall|g: u64| #[trigger] m.contains_key(g) ==> key(m[g]) == g && record_wf(m[g], n)
}

proof fn lemma_records_wf_insert(m: Map<u64, GuildRecord>, g: u64, r: GuildRecord, n: nat)
    requires
        records_wf(m, n),
        key(r) == g,
        record_wf(r, n),
    ensures
        records_wf(m.insert(g, r), n),
{
    assert forall|h: u64| #[trigger] m.insert(g, r).contains_key(h) implies key(m.insert(g, r)[h]) == h
        && record_wf(m.insert(g, r)[h], n) by {
        if h != g {
            assert(m.contains_key(h));
        }
    }
}

proof fn lemma_records_wf_remove(m: Map<u64, GuildRecord>, g: u64, n: nat)
    requires
        records_wf(m, n),
    ensures
        records_wf(m.remove(g), n),
{
    assert forall|h: u64| #[trigger] m.remove(g).contains_key(h) implies key(m.remove(g)[h]) == h
        && record_wf(m.remove(g)[h], n) by {
        assert(m.contains_key(h));
    }
}

/// The two maps agree on every guild but `g`.
pub open spec fn same_except(a: Map<u64, GuildRecord>, b: Map<u64, GuildRecord>, g: u64) -> bool {
    forall|h: u64|
        h != g ==> (#[trigger] a.contains_key(h) == b.contains_key(h)) && (a.contains_key(h)
            ==> a[h] == b[h])
}

/// The pending registrations of member `m`.
pub open spec fn of_member(m: u64) -> spec_fn(UnregisteredMember) -> bool {
    |p: UnregisteredMember| p.discord_id.0 == m
}

/// The pending registrations of members other than `m`.
pub open spec fn not_of_member(m: u64) -> spec_fn(UnregisteredMember) -> bool {
    |p: UnregisteredMember| p.discord_id.0 != m
}

spec fn has_key(s: Seq<GuildRecord>, g: u64) -> bool {
    exists|i: int| 0 <= i < s.len() && key(s[i]) == g
}

spec fn unique_keys(s: Seq<GuildRecord>) -> bool {
    forall|i: int, j: int| 0 <= i < s.len() && 0 <= j < s.len() && key(s[i]) == key(s[j]) ==> i == j
}

spec fn seq_view(s: Seq<GuildRecord>) -> Map<u64, GuildRecord> {
    Map::new(
        |g: u64| has_key(s, g),
        |g: u64| s[choose|i: int| 0 <= i < s.len() && key(s[i]) == g],
    )
}

proof fn lemma_view_at(s: Seq<GuildRecord>, i: int)
    requires
        unique_keys(s),
        0 <= i < s.len(),
    ensures
        seq_view(s).contains_key(key(s[i])),
        seq_view(s)[key(s[i])] == s[i],
{
    let g = key(s[i]);
    assert(has_key(s, g));
    let j = choose|j: int| 0 <= j < s.len() && key(s[j]) == g;
    assert(j == i);
}

proof fn lemma_view_update(s: Seq<GuildRecord>, i: int, r: GuildRecord)
    requires
        unique_keys(s),
        0 <= i < s.len(),
        key(r) == key(s[i]),
    ensures
        unique_keys(s.update(i, r)),
        seq_view(s.update(i, r)) == seq_view(s).insert(key(r), r),
{
    let t = s.update(i, r);
    assert forall|a: int, b: int| 0 <= a < t.len() && 0 <= b < t.len() && key(t[a]) == key(t[b]) implies a == b by {
        assert(key(t[a]) == key(s[a]) && key(t[b]) == key(s[b]));
    }
    assert forall|g: u64| #[trigger] seq_view(t).contains_key(g) == seq_view(s).insert(key(r), r).contains_key(g) by {
        if has_key(s, g) {
            let j = choose|j: int| 0 <= j < s.len() && key(s[j]) == g;
            assert(key(t[j]) == g);
        }
        if has_key(t, g) {
            let j = choose|j: int| 0 <= j < t.len() && key(t[j]) == g;
            assert(key(s[j]) == g);
        }
    }
    assert forall|g: u64| #[trigger] seq_view(t).contains_key(g) implies seq_view(t)[g] == seq_view(s).insert(key(r), r)[g] by {
        let j = choose|j: int| 0 <= j < t.len() && key(t[j]) == g;
        lemma_view_at(t, j);
        if j != i {
            lemma_view_at(s, j);
        }
    }
    assert(seq_view(t) =~= seq_view(s).insert(key(r), r));
}

proof fn lemma_view_push(s: Seq<GuildRecord>, r: GuildRecord)
    requires
        unique_keys(s),
        !has_key(s, key(r)),
    ensures
        unique_keys(s.push(r)),
        seq_view(s.push(r)) == seq_view(s).insert(key(r), r),
{
    let t = s.push(r);
    assert forall|a: int, b: int| 0 <= a < t.len() && 0 <= b < t.len() && key(t[a]) == key(t[b]) implies a == b by {
        if a < s.len() && b < s.len() {
            assert(t[a] == s[a] && t[b] == s[b]);
        } else if a < s.len() {
            assert(t[a] == s[a]);
            assert(has_key(s, key(r)));
        } else if b < s.len() {
            assert(t[b] == s[b]);
            assert(has_key(s, key(r)));
        }
    }
    assert forall|g: u64| #[trigger] seq_view(t).contains_key(g) == seq_view(s).insert(key(r), r).contains_key(g) by {
        if has_key(s, g) {
            let j = choose|j: int| 0 <= j < s.len() && key(s[j]) == g;
            assert(key(t[j]) == g);
        }
        if g == key(r) {
            assert(key(t[s.len() as int]) == g);
        }
        if has_key(t, g) {
            let j = choose|j: int| 0 <= j < t.len() && key(t[j]) == g;
            if j < s.len() {
                assert(key(s[j]) == g);
            }
        }
    }
    assert forall|g: u64| #[trigger] seq_view(t).contains_key(g) implies seq_view(t)[g] == seq_view(s).insert(key(r), r)[g] by {
        let j = choose|j: int| 0 <= j < t.len() && key(t[j]) == g;
        lemma_view_at(t, j);
        if j < s.len() {
            assert(t[j] == s[j]);
            lemma_view_at(s, j);
        }
    }
    assert(seq_view(t) =~= seq_view(s).insert(key(r), r));
}

proof fn lemma_view_remove(s: Seq<GuildRecord>, i: int)
    requires
        unique_keys(s),
        0 <= i < s.len(),
    ensures
        unique_keys(s.remove(i)),
        seq_view(s.remove(i)) == seq_view(s).remove(key(s[i])),
{
    let t = s.remove(i);
    let g0 = key(s[i]);
    assert forall|a: int, b: int| 0 <= a < t.len() && 0 <= b < t.len() && key(t[a]) == key(t[b]) implies a == b by {
        let aa = if a < i { a } else { a + 1 };
        let bb = if b < i { b } else { b + 1 };
        assert(t[a] == s[aa] && t[b] == s[bb]);
    }
    assert forall|g: u64| #[trigger] seq_view(t).contains_key(g) == seq_view(s).remove(g0).contains_key(g) by {
        if has_key(t, g) {
            let j = choose|j: int| 0 <= j < t.len() && key(t[j]) == g;
            let jj = if j < i { j } else { j + 1 };
            assert(t[j] == s[jj]);
            assert(has_key(s, g));
            assert(jj != i);
        }
        if has_key(s, g) && g != g0 {
            let j = choose|j: int| 0 <= j < s.len() && key(s[j]) == g;
            assert(j != i);
            if j < i {
                assert(key(t[j]) == g);
            } else {
                assert(key(t[j - 1]) == g);
            }
        }
    }
    assert forall|g: u64| #[trigger] seq_view(t).contains_key(g) implies seq_view(t)[g] == seq_view(s).remove(g0)[g] by {
        let j = choose|j: int| 0 <= j < t.len() && key(t[j]) == g;
        let jj = if j < i { j } else { j + 1 };
        assert(t[j] == s[jj]);
        lemma_view_at(t, j);
        lemma_view_at(s, jj);
    }
    assert(seq_view(t) =~= seq_view(s).remove(g0));
}

/// The store of registered guilds, keyed by guild id.
pub struct Registry {
    guilds: Vec<GuildRecord>,
    pending: Vec<UnregisteredMember>,
    prefixes: Vec<String>,
}

impl View for Registry {
    type V = Map<u64, GuildRecord>;

    closed spec fn view(&self) -> Map<u64, GuildRecord> {
        seq_view(self.guilds@)
    }
}

impl Registry {
    /// Pending registrations, oldest first.
    pub closed spec fn pending(&self) -> Seq<UnregisteredMember> {
        self.pending@
    }

    /// The prefixes of the worker pool, in pool order.
    pub closed spec fn prefixes(&self) -> Seq<Seq<char>> {
        self.prefixes@.map_values(|s: String| s@)
    }

    /// Guild records are stored once each.
    pub closed spec fn keys_unique(&self) -> bool {
        unique_keys(self.guilds@)
    }

    /// Each registered guild is stored under its own id, with settings
    /// that belong to it and a well-formed binding of the whole pool.
    pub open spec fn wf(&self) -> bool {
        &&& self.keys_unique()
        &&& records_wf(self@, self.prefixes().len())
    }

    /// An empty store for a pool with the given worker prefixes.
    pub fn new(prefixes: Vec<String>) -> (r: Registry)
        ensures
            r.wf(),
            r@ == Map::<u64, GuildRecord>::empty(),
            r.pending() == Seq::<UnregisteredMember>::empty(),
            r.prefixes() == prefixes@.map_values(|s: String| s@),
    {
        let r = Registry { guilds: Vec::new(), pending: Vec::new(), prefixes };
        assert(r@ =~= Map::<u64, GuildRecord>::empty());
        r
    }

    /// Number of workers in the pool.
    pub fn pool_size(&self) -> (r: usize)
        ensures
            r == self.prefixes().len(),
    {
        self.prefixes.len()
    }

    /// The prefix of worker `i`.
    pub fn prefix(&self, i: usize) -> (r: &str)
        requires
            i < self.prefixes().len(),
        ensures
            r@ == self.prefixes()[i as int],
    {
        self.prefixes[i].as_str()
    }

    fn find(&self, g: u64) -> (r: Option<usize>)
        requires
            self.wf(),
        ensures
            r is None <==> !self@.contains_key(g),
            r is Some ==> r->0 < self.guilds@.len() && key(self.guilds@[r->0 as int]) == g
                && self@[g] == self.guilds@[r->0 as int],
    {
        let mut i: usize = 0;
        while i < self.guilds.len()
            invariant
                self.wf(),
                0 <= i <= self.guilds@.len(),
                forall|j: int| 0 <= j < i ==> key(self.guilds@[j]) != g,
            decreases self.guilds@.len() - i,
        {
            if self.guilds[i].guild.discord_id.0 == g {
                proof {
                    lemma_view_at(self.guilds@, i as int);
                }
                return Some(i);
            }
            i = i + 1;
        }
        None
    }

    /// Whether guild `g` is registered.
    pub fn is_registered(&self, g: Id) -> (r: bool)
        requires
            self.wf(),
        ensures
            r == self@.contains_key(g.0),
    {
        self.find(g.0).is_some()
    }

    /// The settings of guild `g`, if it is registered.
    pub fn settings(&self, g: Id) -> (r: Option<Setting>)
        requires
            self.wf(),
        ensures
            self@.contains_key(g.0) ==> r == Some(self@[g.0].settings),
            !self@.contains_key(g.0) ==> r is None,
    {
        match self.find(g.0) {
            Some(i) => Some(self.guilds[i].settings),
            None => None,
        }
    }

    /// Registers guild `g` with unset settings and no worker bound.
    /// Registering a guild twice changes nothing and returns `false`.
    pub fn guild_create(&mut self, g: Id) -> (r: bool)
        requires
            old(self).wf(),
        ensures
            final(self).wf(),
            old(self)@.contains_key(g.0) ==> !r && *final(self) == *old(self),
            !old(self)@.contains_key(g.0) ==> {
                &&& r
                &&& final(self)@.contains_key(g.0)
                &&& same_except(final(self)@, old(self)@, g.0)
                &&& final(self)@[g.0].guild == Guild { discord_id: g, settings_id: g.0 }
                &&& final(self)@[g.0].settings.id == g.0
                &&& all_unset(final(self)@[g.0].settings)
                &&& forall|i: int|
                    0 <= i < final(self).prefixes().len() ==> (
                    #[trigger] final(self)@[g.0].assignment@[i]) is Free
            },
            final(self).pending() == old(self).pending(),
            final(self).prefixes() == old(self).prefixes(),
    {
        if self.find(g.0).is_some() {
            return false;
        }
        let n = self.prefixes.len();
        let rec = GuildRecord {
            guild: Guild { discord_id: g, settings_id: g.0 },
            settings: Setting::unset(g.0),
            assignment: Assignment::new(n),
        };
        proof {
            lemma_view_push(self.guilds@, rec);
        }
        self.guilds.push(rec);
        proof {
            assert(self@ == old(self)@.insert(g.0, rec));
        }
        true
    }

    /// Forgets guild `g`: its settings, worker bindings and leases.
    /// Returns whether it was registered; changes nothing when it was not.
    pub fn guild_delete(&mut self, g: Id) -> (r: bool)
        requires
            old(self).wf(),
        ensures
            final(self).wf(),
            r == old(self)@.contains_key(g.0),
            !r ==> *final(self) == *old(self),
            final(self)@ == old(self)@.remove(g.0),
            final(self).pending() == old(self).pending(),
            final(self).prefixes() == old(self).prefixes(),
    {
        match self.find(g.0) {
            None => {
                assert(self@ =~= self@.remove(g.0));
                false
            },
            Some(i) => {
                proof {
                    lemma_view_remove(self.guilds@, i as int);
                    lemma_records_wf_remove(self@, g.0, self.prefixes().len());
                }
                self.guilds.remove(i);
                true
            },
        }
    }

    fn take_at(&mut self, i: usize) -> (r: GuildRecord)
        requires
            old(self).wf(),
            i < old(self).guilds@.len(),
        ensures
            r == old(self).guilds@[i as int],
            final(self).guilds@ == old(self).guilds@.remove(i as int),
            final(self).pending == old(self).pending,
            final(self).prefixes == old(self).prefixes,
    {
        self.guilds.remove(i)
    }

    /// Replaces reference `f` of guild `g`'s settings by `value`.
    /// Returns `false`, changing nothing, when `g` is not registered.
    pub fn set_setting(&mut self, g: Id, f: SettingField, value: Id) -> (r: bool)
        requires
            old(self).wf(),
        ensures
            final(self).wf(),
            r == old(self)@.contains_key(g.0),
            !r ==> *final(self) == *old(self),
            r ==> final(self)@.contains_key(g.0) && same_except(final(self)@, old(self)@, g.0),
            r ==> final(self)@[g.0].settings == with_field(
                old(self)@[g.0].settings,
                f,
                crate::models::ForeignId(Some(value.0)),
            ),
            r ==> final(self)@[g.0].guild == old(self)@[g.0].guild,
            r ==> final(self)@[g.0].assignment == old(self)@[g.0].assignment,
            final(self).pending() == old(self).pending(),
            final(self).prefixes() == old(self).prefixes(),
    {
        match self.find(g.0) {
            None => false,
            Some(i) => {
                let ghost s0 = self.guilds@;
                let mut rec = self.take_at(i);
                rec.settings.set(f, value);
                self.guilds.insert(i, rec);
                assert(self.guilds@ =~= s0.update(i as int, rec));
                proof {
                    lemma_view_update(s0, i as int, rec);
                }
                true
            },
        }
    }

    /// The state of worker `i` in guild `g`, if `g` is registered and the
    /// pool has a worker `i`.
    pub fn worker_state(&self, g: Id, i: usize) -> (r: Option<Slot>)
        requires
            self.wf(),
        ensures
            self@.contains_key(g.0) && i < self.prefixes().len() ==> r == Some(
                self@[g.0].assignment@[i as int],
            ),
            !(self@.contains_key(g.0) && i < self.prefixes().len()) ==> r is None,
    {
        if i >= self.prefixes.len() {
            return None;
        }
        match self.find(g.0) {
            None => None,
            Some(k) => Some(self.guilds[k].assignment.destination(i)),
        }
    }

    /// The worker bound to voice channel `d` of guild `g`, if any.
    pub fn lookup(&self, g: Id, d: Id) -> (r: Option<usize>)
        requires
            self.wf(),
        ensures
            !self@.contains_key(g.0) ==> r is None,
            self@.contains_key(g.0) ==> (r is Some <==> bound_to(self@[g.0].assignment@, d.0)),
            r is Some ==> r->0 < self.prefixes().len() && self@[g.0].assignment@[r->0 as int] == Slot::Bound(
                d.0,
            ),
    {
        match self.find(g.0) {
            None => None,
            Some(i) => self.guilds[i].assignment.lookup(d.0),
        }
    }

    /// Binds the first unbound worker of guild `g` to voice channel `d`.
    /// Changes nothing when `g` is not registered, when `d` is already
    /// leased, or when every worker of `g` is bound.
    pub fn acquire(&mut self, g: Id, d: Id) -> (r: Option<usize>)
        requires
            old(self).wf(),
        ensures
            final(self).wf(),
            final(self).pending() == old(self).pending(),
            final(self).prefixes() == old(self).prefixes(),
            !old(self)@.contains_key(g.0) ==> r is None && *final(self) == *old(self),
            old(self)@.contains_key(g.0) && bound_to(old(self)@[g.0].assignment@, d.0) ==> r is None
                && *final(self) == *old(self),
            old(self)@.contains_key(g.0) && all_busy(old(self)@[g.0].assignment@) ==> r is None
                && *final(self) == *old(self),
            old(self)@.contains_key(g.0) && !bound_to(old(self)@[g.0].assignment@, d.0) && !all_busy(
                old(self)@[g.0].assignment@,
            ) ==> {
                &&& r is Some
                &&& is_first_free(old(self)@[g.0].assignment@, r->0 as int)
                &&& final(self)@.contains_key(g.0)
                &&& same_except(final(self)@, old(self)@, g.0)
                &&& final(self)@[g.0].guild == old(self)@[g.0].guild
                &&& final(self)@[g.0].settings == old(self)@[g.0].settings
                &&& final(self)@[g.0].assignment@ == old(self)@[g.0].assignment@.update(
                    r->0 as int,
                    Slot::Bound(d.0),
                )
            },
    {
        match self.find(g.0) {
            None => None,
            Some(i) => {
                if self.guilds[i].assignment.is_leased(d.0) || !self.guilds[i].assignment.has_free() {
                    return None;
                }
                let ghost s0 = self.guilds@;
                let mut rec = self.take_at(i);
                let r = rec.assignment.acquire(d.0);
                self.guilds.insert(i, rec);
                assert(self.guilds@ =~= s0.update(i as int, rec));
                proof {
                    lemma_view_update(s0, i as int, rec);
                    lemma_records_wf_insert(old(self)@, g.0, rec, self.prefixes().len());
                }
                r
            },
        }
    }

    /// Unbinds the worker of guild `g` that is bound to voice channel `d`
    /// and deletes the lease. Changes nothing when there is none.
    pub fn release(&mut self, g: Id, d: Id) -> (r: Option<usize>)
        requires
            old(self).wf(),
        ensures
            final(self).wf(),
            final(self).pending() == old(self).pending(),
            final(self).prefixes() == old(self).prefixes(),
            !(old(self)@.contains_key(g.0) && bound_to(old(self)@[g.0].assignment@, d.0)) ==> r is None
                && *final(self) == *old(self),
            old(self)@.contains_key(g.0) && bound_to(old(self)@[g.0].assignment@, d.0) ==> {
                &&& r is Some
                &&& r->0 < old(self)@[g.0].assignment@.len()
                &&& old(self)@[g.0].assignment@[r->0 as int] == Slot::Bound(d.0)
                &&& final(self)@.contains_key(g.0)
                &&& same_except(final(self)@, old(self)@, g.0)
                &&& final(self)@[g.0].guild == old(self)@[g.0].guild
                &&& final(self)@[g.0].settings == old(self)@[g.0].settings
                &&& final(self)@[g.0].assignment@ == old(self)@[g.0].assignment@.update(
                    r->0 as int,
                    Slot::Free,
                )
            },
    {
        match self.find(g.0) {
            None => None,
            Some(i) => {
                if self.guilds[i].assignment.lookup(d.0).is_none() {
                    return None;
                }
                let ghost s0 = self.guilds@;
                let mut rec = self.take_at(i);
                let r = rec.assignment.release(d.0);
                self.guilds.insert(i, rec);
                assert(self.guilds@ =~= s0.update(i as int, rec));
                proof {
                    lemma_view_update(s0, i as int, rec);
                    lemma_records_wf_insert(old(self)@, g.0, rec, self.prefixes().len());
                }
                r
            },
        }
    }

    /// Worker `i` left guild `g`: it is withdrawn from that guild's pool
    /// and a lease it held there is deleted. Returns the voice channel it
    /// was bound to, if any. Changes nothing when `g` is not registered or
    /// there is no worker `i`.
    pub fn withdraw(&mut self, g: Id, i: usize) -> (r: Option<u64>)
        requires
            old(self).wf(),
        ensures
            final(self).wf(),
            final(self).pending() == old(self).pending(),
            final(self).prefixes() == old(self).prefixes(),
            !(old(self)@.contains_key(g.0) && i < old(self).prefixes().len()) ==> r is None
                && *final(self) == *old(self),
            old(self)@.contains_key(g.0) && i < old(self).prefixes().len() ==> {
                &&& final(self)@.contains_key(g.0)
                &&& same_except(final(self)@, old(self)@, g.0)
                &&& final(self)@[g.0].guild == old(self)@[g.0].guild
                &&& final(self)@[g.0].settings == old(self)@[g.0].settings
                &&& final(self)@[g.0].assignment@ == old(self)@[g.0].assignment@.update(
                    i as int,
                    Slot::Gone,
                )
                &&& old(self)@[g.0].assignment@[i as int] matches Slot::Bound(d) ==> r == Some(d)
                &&& !(old(self)@[g.0].assignment@[i as int] is Bound) ==> r is None
            },
    {
        if i >= self.prefixes.len() {
            return None;
        }
        match self.find(g.0) {
            None => None,
            Some(k) => {
                let ghost s0 = self.guilds@;
                let mut rec = self.take_at(k);
                let r = rec.assignment.withdraw(i);
                self.guilds.insert(k, rec);
                assert(self.guilds@ =~= s0.update(k as int, rec));
                proof {
                    lemma_view_update(s0, k as int, rec);
                    lemma_records_wf_insert(old(self)@, g.0, rec, self.prefixes().len());
                }
                r
            },
        }
    }

    /// Records that `member` of guild `g` still has to name themselves.
    pub fn add_pending(&mut self, member: Id, g: Id)
        requires
            old(self).wf(),
        ensures
            final(self).wf(),
            final(self)@ == old(self)@,
            final(self).prefixes() == old(self).prefixes(),
            final(self).pending() == old(self).pending().push(
                UnregisteredMember { discord_id: member, guild_id: g },
            ),
    {
        self.pending.push(UnregisteredMember { discord_id: member, guild_id: g });
    }

    /// Removes and returns every pending registration of `member`, in the
    /// order they were recorded.
    pub fn take_pending(&mut self, member: Id) -> (r: Vec<UnregisteredMember>)
        requires
            old(self).wf(),
        ensures
            final(self).wf(),
            final(self)@ == old(self)@,
            final(self).prefixes() == old(self).prefixes(),
            r@ == old(self).pending().filter(of_member(member.0)),
            final(self).pending() == old(self).pending().filter(not_of_member(member.0)),
    {
        let ghost before = self.pending@;
        let mut taken: Vec<UnregisteredMember> = Vec::new();
        let mut kept: Vec<UnregisteredMember> = Vec::new();
        let mut i: usize = 0;
        while i < self.pending.len()
            invariant
                self.pending@ == before,
                0 <= i <= before.len(),
                taken@ == before.take(i as int).filter(of_member(member.0)),
                kept@ == before.take(i as int).filter(not_of_member(member.0)),
            decreases before.len() - i,
        {
            let p = self.pending[i];
            proof {
                assert(before.take(i + 1) =~= before.take(i as int).push(p));
                before.take(i as int).lemma_filter_push(p, of_member(member.0));
                before.take(i as int).lemma_filter_push(p, not_of_member(member.0));
            }
            if p.discord_id.0 == member.0 {
                taken.push(p);
            } else {
                kept.push(p);
            }
            i = i + 1;
        }
        assert(before.take(before.len() as int) =~= before);
        self.pending = kept;
        taken
    }
}

/// Within a registered guild no voice channel is ever held by two
/// workers, whatever sequence of operations produced the store.
pub proof fn lemma_one_worker_per_channel(reg: Registry, g: u64, d: u64, i: int, j: int)
    requires
        reg.wf(),
        reg@.contains_key(g),
        0 <= i < reg@[g].assignment@.len(),
        0 <= j < reg@[g].assignment@.len(),
        reg@[g].assignment@[i] == Slot::Bound(d),
        reg@[g].assignment@[j] == Slot::Bound(d),
    ensures
        i == j,
{
    crate::assignment::lemma_no_double_lease(reg@[g].assignment, d, i, j);
}

} // verus!
