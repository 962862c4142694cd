//! Remembered balances.
use crate::amount::{Amount, HUNDRED_BITS};
use crate::classify::balance_failure;
use crate::error::AdminServiceError;
use crate::service::AdminService;
use crate::text::{decimal, decimal_text, parse_decimal, parsed, parsing_undoes_writing};
use crate::types::{BalanceResponse, UsageReading};
use std::collections::HashMap;
use vstd::prelude::*;

verus! {

broadcast use vstd::std_specs::hash::group_hash_axioms;

/// How long a balance is remembered, in seconds.
pub const BALANCE_CACHE_TTL_SECS: i64 = 300;

/// A balance and when it was fetched, in seconds since the Unix epoch.
#[derive(Debug)]
pub struct CachedBalance {
    pub cached_at: i64,
    /// The time as it stands where the balance was stored, if `cached_at` cannot hold it;
    /// `cached_at` is then the next whole second that it can.
    pub stored_time: Option<Amount>,
    pub data: BalanceResponse,
}

impl Clone for CachedBalance {
    fn clone(&self) -> (r: Self)
        ensures
            r == *self,
    {
        CachedBalance {
            cached_at: self.cached_at,
            stored_time: self.stored_time,
            data: self.data.clone(),
        }
    }
}

/// What is fetched at `cached_at` is still good at `now`.
pub open spec fn is_fresh(cached_at: i64, now: i64) -> bool {
    now - cached_at < BALANCE_CACHE_TTL_SECS
}

/// The balance of credential `id` that `cache` remembers at `now`.
pub open spec fn remembered(cache: Map<u64, CachedBalance>, id: u64, now: i64) -> Option<
    BalanceResponse,
> {
    if cache.contains_key(id) && is_fresh(cache[id].cached_at, now) {
        Some(cache[id].data)
    } else {
        None
    }
}

/// `cache` after the balance of credential `id` was fetched at `now`.
pub open spec fn recorded(
    cache: Map<u64, CachedBalance>,
    id: u64,
    balance: BalanceResponse,
    now: i64,
) -> Map<u64, CachedBalance> {
    cache.insert(id, CachedBalance { cached_at: now, stored_time: None, data: balance })
}

/// The balances in stored entries, each under its id in decimal: what is too old at `now` or has
/// no proper id is left out, and of entries with the same id the last counts.
pub open spec fn loaded(entries: Seq<(String, CachedBalance)>, now: i64) -> Map<u64, CachedBalance>
    decreases entries.len(),
{
    if entries.len() == 0 {
        Map::empty()
    } else {
        let earlier = loaded(entries.drop_last(), now);
        let (key, balance) = entries.last();
        match parsed(key@) {
            Some(id) => if is_fresh(balance.cached_at, now) {
                earlier.insert(id, balance)
            } else {
                earlier
            },
            None => earlier,
        }
    }
}

/// `entries` are the balances of `cache` for storing, one for each id, in the order of `ids`.
pub open spec fn exports(
    entries: Seq<(String, CachedBalance)>,
    cache: Map<u64, CachedBalance>,
    ids: Seq<u64>,
) -> bool {
    &&& ids.no_duplicates()
    &&& ids.to_set() == cache.dom()
    &&& entries.len() == ids.len()
    &&& forall|i: int|
        0 <= i < ids.len() ==> (#[trigger] entries[i]).0@ == decimal(ids[i] as nat) && entries[i].1
            == cache[ids[i]]
}

/// Calls `chrono::Utc::now` and reads the seconds since the Unix epoch off its result.  Nothing is
/// said of the result, which is the time of the call.
#[verifier::external_body]
fn unix_time() -> (r: i64) {
    chrono::Utc::now().timestamp()
}

/// `now` is a time that the clock gave when it was asked.
pub closed spec fn is_clock_reading(now: i64) -> bool {
    call_ensures(unix_time, (), now)
}

/// Asks a clock for the time.
fn ask<C: Fn() -> i64>(clock: C) -> (r: i64)
    requires
        call_requires(clock, ()),
    ensures
        call_ensures(clock, (), r),
{
    clock()
}

/// Reads the clock.
fn read_clock() -> (r: i64)
    ensures
        is_clock_reading(r),
{
    ask(unix_time)
}

/// A clock reading is what the clock gave, and nothing else is.
proof fn clock_readings_come_from_the_clock(now: i64)
    ensures
        is_clock_reading(now) <==> call_ensures(unix_time, (), now),
{
}

/// Tells whether a balance is still good.
pub fn fresh(cached_at: i64, now: i64) -> (r: bool)
    ensures
        r == is_fresh(cached_at, now),
        r <==> now - cached_at < 300,
{
    (now as i128) - (cached_at as i128) < BALANCE_CACHE_TTL_SECS as i128
}

/// A fetched balance, and the email to note for the credential.
#[derive(Debug)]
pub struct FetchedBalance {
    pub balance: BalanceResponse,
    pub email: Option<String>,
}

/// The balance that a reading of the usage of credential `id` shows: what is left is never
/// negative, and the share that is used is at most a hundred percent, or zero without a limit.
pub open spec fn balance_of(id: u64, usage: UsageReading) -> BalanceResponse {
    BalanceResponse {
        id,
        subscription_title: usage.subscription_title,
        current_usage: usage.current_usage,
        usage_limit: usage.usage_limit,
        remaining: usage.difference.at_least_zero(),
        usage_percentage: if usage.usage_limit.is_positive() {
            usage.ratio.at_most_hundred()
        } else {
            Amount::zero()
        },
        next_reset_at: usage.next_reset_at,
    }
}

impl AdminService {
    /// Reads stored balances at the time `now`.
    pub fn load_balance_cache_at(entries: Vec<(String, CachedBalance)>, now: i64) -> (r: HashMap<
        u64,
        CachedBalance,
    >)
        ensures
            r@ == loaded(entries@, now),
    {
        let mut cache: HashMap<u64, CachedBalance> = HashMap::new();
        assert(entries@.take(0) =~= Seq::<(String, CachedBalance)>::empty());
        for entry in iter: entries
            invariant
                iter.seq() == entries@,
                cache@ == loaded(entries@.take(iter.index() as int), now),
        {
            let ghost i = iter.index() as int;
            assert(entries@.take(i + 1).drop_last() =~= entries@.take(i));
            assert(entries@.take(i + 1).last() == entries@[i]);
            let (key, balance) = entry;
            match parse_decimal(key.as_str()) {
                Some(id) => {
                    if fresh(balance.cached_at, now) {
                        cache.insert(id, balance);
                    }
                },
                None => {},
            }
        }
        assert(entries@.take(entries@.len() as int) =~= entries@);
        cache
    }

    /// Reads stored balances.
    pub fn load_balance_cache_from(entries: Vec<(String, CachedBalance)>) -> (r: HashMap<
        u64,
        CachedBalance,
    >)
        ensures
            exists|now: i64| r@ == #[trigger] loaded(entries@, now),
            exists|now: i64| #[trigger] is_clock_reading(now) && r@ == loaded(entries@, now),
    {
        Self::load_balance_cache_at(entries, read_clock())
    }

    /// The remembered balance of a credential at the time `now`, if it is still good.
    pub fn get_balance_at(&self, id: u64, now: i64) -> (r: Option<BalanceResponse>)
        ensures
            r == remembered(self.balance_cache@, id, now),
            r is Some <==> self.balance_cache@.contains_key(id) && now
                - self.balance_cache@[id].cached_at < 300,
            r is Some ==> r->0 == self.balance_cache@[id].data,
    {
        match self.balance_cache.get(&id) {
            Some(cached) => if fresh(cached.cached_at, now) {
                Some(cached.data.clone())
            } else {
                None
            },
            None => None,
        }
    }

    /// The remembered balance of a credential, if it is still good; without one, the balance is to
    /// be fetched.
    pub fn get_balance(&self, id: u64) -> (r: Option<BalanceResponse>)
        ensures
            exists|now: i64| r == #[trigger] remembered(self.balance_cache@, id, now),
            !self.balance_cache@.contains_key(id) ==> r is None,
            exists|now: i64| #[trigger]
                is_clock_reading(now) && r == remembered(self.balance_cache@, id, now) && (r is Some
                    <==> self.balance_cache@.contains_key(id) && now
                    - self.balance_cache@[id].cached_at < 300),
            r is Some ==> r->0 == self.balance_cache@[id].data,
    {
        self.get_balance_at(id, read_clock())
    }

    /// Remembers a balance that was fetched at the time `now`.
    pub fn record_balance_at(&mut self, id: u64, balance: BalanceResponse, now: i64)
        ensures
            final(self).balance_cache@ == recorded(old(self).balance_cache@, id, balance, now),
            final(self).balance_cache@ == old(self).balance_cache@.insert(
                id,
                CachedBalance { cached_at: now, stored_time: None, data: balance },
            ),
            final(self).config == old(self).config,
            final(self).compression_config == old(self).compression_config,
    {
        let cached = CachedBalance { cached_at: now, stored_time: None, data: balance };
        self.balance_cache.insert(id, cached);
    }

    /// Answers once a balance was fetched, or could not be, at the time `now`: a fetched balance is
    /// remembered, and a failure leaves what is remembered alone.
    pub fn balance_fetched_at(
        &mut self,
        id: u64,
        fetched: Result<FetchedBalance, AdminServiceError>,
        now: i64,
    ) -> (r: Result<BalanceResponse, AdminServiceError>)
        ensures
            match fetched {
                Ok(f) => {
                    &&& r == Ok::<BalanceResponse, AdminServiceError>(f.balance)
                    &&& final(self).balance_cache@ == recorded(
                        old(self).balance_cache@,
                        id,
                        f.balance,
                        now,
                    )
                    &&& final(self).config == old(self).config
                    &&& final(self).compression_config == old(self).compression_config
                },
                Err(error) => {
                    &&& r == Err::<BalanceResponse, AdminServiceError>(error)
                    &&& *final(self) == *old(self)
                },
            },
    {
        match fetched {
            Ok(f) => {
                self.record_balance_at(id, f.balance.clone(), now);
                Ok(f.balance)
            },
            Err(error) => Err(error),
        }
    }

    /// Answers once a balance was fetched, or could not be: a fetched balance is remembered, and a
    /// failure leaves what is remembered alone.
    pub fn balance_fetched(
        &mut self,
        id: u64,
        fetched: Result<FetchedBalance, AdminServiceError>,
    ) -> (r: Result<BalanceResponse, AdminServiceError>)
        ensures
            match fetched {
                Ok(f) => {
                    &&& r == Ok::<BalanceResponse, AdminServiceError>(f.balance)
                    &&& exists|now: i64|
                        final(self).balance_cache@ == #[trigger] recorded(
                            old(self).balance_cache@,
                            id,
                            f.balance,
                            now,
                        )
                    &&& exists|now: i64| #[trigger]
                        is_clock_reading(now) && final(self).balance_cache@ == recorded(
                            old(self).balance_cache@,
                            id,
                            f.balance,
                            now,
                        )
                    &&& final(self).config == old(self).config
                    &&& final(self).compression_config == old(self).compression_config
                },
                Err(error) => {
                    &&& r == Err::<BalanceResponse, AdminServiceError>(error)
                    &&& *final(self) == *old(self)
                },
            },
    {
        let now: i64 = read_clock();
        self.balance_fetched_at(id, fetched, now)
    }

    /// Answers with a balance that was fetched, or with the failure to fetch it.
    pub fn fetch_balance(id: u64, usage: Result<UsageReading, String>) -> (r: Result<
        FetchedBalance,
        AdminServiceError,
    >)
        ensures
            match usage {
                Ok(reading) => {
                    &&& r is Ok
                    &&& r->Ok_0.balance == balance_of(id, reading)
                    &&& r->Ok_0.email == reading.email
                },
                Err(message) => r is Err && r->Err_0@ == balance_failure(message@, id),
            },
    {
        match usage {
            Ok(usage) => {
                let usage_percentage = if usage.usage_limit.positive() {
                    usage.ratio.lowered_to_hundred()
                } else {
                    Amount::zero()
                };
                Ok(
                    FetchedBalance {
                        balance: BalanceResponse {
                            id,
                            subscription_title: usage.subscription_title,
                            current_usage: usage.current_usage,
                            usage_limit: usage.usage_limit,
                            remaining: usage.difference.raised_to_zero(),
                            usage_percentage,
                            next_reset_at: usage.next_reset_at,
                        },
                        email: usage.email,
                    },
                )
            },
            Err(message) => Err(Self::classify_balance_error(message, id)),
        }
    }

    /// The remembered balances for storing, each under its id in decimal.
    pub fn save_balance_cache(&self) -> (r: Vec<(String, CachedBalance)>)
        ensures
            exists|ids: Seq<u64>| #[trigger] exports(r@, self.balance_cache@, ids),
    {
        let mut entries: Vec<(String, CachedBalance)> = Vec::new();
        let ghost mut ids: Seq<u64> = Seq::empty();
        for id in iter: self.balance_cache.keys()
            invariant
                iter.seq().unref().to_set() == self.balance_cache@.dom(),
                iter.seq().no_duplicates(),
                iter.seq().len() == self.balance_cache@.dom().len(),
                ids.len() == iter.index(),
                ids.no_duplicates(),
                forall|i: int|
                    0 <= i < ids.len() ==> self.balance_cache@.contains_key(#[trigger] ids[i]),
                entries@.len() == ids.len(),
                forall|i: int| 0 <= i < ids.len() ==> #[trigger] ids[i] == *iter.seq()[i],
                forall|i: int|
                    0 <= i < ids.len() ==> (#[trigger] entries@[i]).0@ == decimal(ids[i] as nat)
                        && entries@[i].1 == self.balance_cache@[ids[i]],
        {
            assert(iter.seq().unref()[iter.index() as int] == *id);
            assert(iter.seq().unref().to_set().contains(*id));
            assert(self.balance_cache@.contains_key(*id));
            match self.balance_cache.get(id) {
                Some(balance) => {
                    entries.push((decimal_text(*id), balance.clone()));
                    proof {
                        ids = ids.push(*id);
                    }
                },
                None => {},
            }
        }
        proof {
            ids.unique_seq_to_set();
            assert(ids.to_set().subset_of(self.balance_cache@.dom()));
            vstd::set_lib::lemma_subset_equality(ids.to_set(), self.balance_cache@.dom());
            assert(exports(entries@, self.balance_cache@, ids));
        }
        entries
    }
}

/// Whatever the upstream service reports, what is shown as left is a number and not negative, and
/// the share that is shown as used is a number and at most a hundred percent.
pub proof fn shown_balance_is_in_range(id: u64, usage: UsageReading)
    ensures
        !balance_of(id, usage).remaining.is_nan(),
        balance_of(id, usage).remaining.rank() >= 0,
        !balance_of(id, usage).usage_percentage.is_nan(),
        balance_of(id, usage).usage_percentage.rank() <= HUNDRED_BITS,
{
}

/// A remembered balance is given exactly if it was fetched less than 300 seconds ago, and it is
/// given as it was fetched.
pub proof fn given_balance_is_under_five_minutes_old(
    cache: Map<u64, CachedBalance>,
    id: u64,
    now: i64,
)
    ensures
        remembered(cache, id, now) is Some <==> cache.contains_key(id) && now - cache[id].cached_at
            < 300,
        remembered(cache, id, now) is Some ==> remembered(cache, id, now)->0 == cache[id].data,
{
}

/// A recorded balance is given 299 seconds later and is not given 300 seconds later.
pub proof fn recorded_balance_lasts_five_minutes(
    cache: Map<u64, CachedBalance>,
    id: u64,
    balance: BalanceResponse,
    at: i64,
    now: i64,
)
    ensures
        now <= at + 299 ==> remembered(recorded(cache, id, balance, at), id, now) == Some(balance),
        now >= at + 300 ==> remembered(recorded(cache, id, balance, at), id, now) is None,
        recorded(cache, id, balance, at).contains_key(id),
        recorded(cache, id, balance, at)[id].cached_at == at,
        recorded(cache, id, balance, at)[id].data == balance,
        recorded(cache, id, balance, at).dom() == cache.dom().insert(id),
{
}

/// A balance that is read from stored entries is that of an entry with its id that is less than 300
/// seconds old.
pub proof fn loaded_balance_was_stored(entries: Seq<(String, CachedBalance)>, now: i64, id: u64)
    requires
        loaded(entries, now).contains_key(id),
    ensures
        exists|i: int|
            0 <= i < entries.len() && parsed((#[trigger] entries[i]).0@) == Some(id) && now
                - entries[i].1.cached_at < 300 && loaded(entries, now)[id] == entries[i].1,
    decreases entries.len(),
{
    let n = entries.len() - 1;
    if parsed(entries[n].0@) == Some(id) && now - entries[n].1.cached_at < 300 {
        assert(loaded(entries, now)[id] == entries[n].1);
    } else {
        let earlier = entries.drop_last();
        loaded_balance_was_stored(earlier, now, id);
        let i = choose|i: int|
            0 <= i < earlier.len() && parsed((#[trigger] earlier[i]).0@) == Some(id) && now
                - earlier[i].1.cached_at < 300 && loaded(earlier, now)[id] == earlier[i].1;
        assert(entries[i] == earlier[i]);
    }
}

/// An entry with a proper id that is less than 300 seconds old is read, unless such an entry with
/// the same id follows.
pub proof fn good_entries_are_loaded(
    entries: Seq<(String, CachedBalance)>,
    now: i64,
    i: int,
    id: u64,
)
    requires
        0 <= i < entries.len(),
        parsed(entries[i].0@) == Some(id),
        now - entries[i].1.cached_at < 300,
        forall|j: int|
            i < j < entries.len() && parsed((#[trigger] entries[j]).0@) == Some(id) ==> now
                - entries[j].1.cached_at >= 300,
    ensures
        loaded(entries, now).contains_key(id),
        loaded(entries, now)[id] == entries[i].1,
    decreases entries.len(),
{
    let n = entries.len() - 1;
    if i < n {
        let earlier = entries.drop_last();
        assert forall|j: int|
            i < j < earlier.len() && parsed((#[trigger] earlier[j]).0@) == Some(id) implies now
            - earlier[j].1.cached_at >= 300 by {
            assert(earlier[j] == entries[j]);
        }
        good_entries_are_loaded(earlier, now, i, id);
        assert(entries.last() == entries[n]);
    }
}

/// Every remembered balance is stored under its id in decimal, as it is.
pub proof fn every_balance_is_stored(
    entries: Seq<(String, CachedBalance)>,
    cache: Map<u64, CachedBalance>,
    ids: Seq<u64>,
    id: u64,
)
    requires
        exports(entries, cache, ids),
        cache.contains_key(id),
    ensures
        exists|i: int|
            0 <= i < entries.len() && (#[trigger] entries[i]).0@ == decimal(id as nat)
                && entries[i].1 == cache[id],
        entries.len() == cache.dom().len(),
{
    ids.unique_seq_to_set();
    assert(ids.to_set().contains(id));
    let i = choose|i: int| 0 <= i < ids.len() && ids[i] == id;
    assert(entries[i].0@ == decimal(id as nat));
}

/// Nothing is stored but remembered balances, each under its id in decimal.
pub proof fn only_balances_are_stored(
    entries: Seq<(String, CachedBalance)>,
    cache: Map<u64, CachedBalance>,
    ids: Seq<u64>,
    i: int,
)
    requires
        exports(entries, cache, ids),
        0 <= i < entries.len(),
    ensures
        exists|id: u64| #[trigger]
            cache.contains_key(id) && entries[i].0@ == decimal(id as nat) && entries[i].1
                == cache[id],
{
    let id = ids[i];
    assert(ids.to_set().contains(id));
    assert(cache.contains_key(id) && entries[i].0@ == decimal(id as nat));
}

/// A balance shows the reading that it was made from: title, usage, limit and reset as they were
/// read; as left, the difference if it is a number above zero and zero otherwise; and as used, zero
/// without a limit above zero, else the ratio but never more than a hundred.
pub proof fn balance_shows_the_reading(id: u64, usage: UsageReading)
    ensures
        balance_of(id, usage).id == id,
        balance_of(id, usage).subscription_title == usage.subscription_title,
        balance_of(id, usage).current_usage == usage.current_usage,
        balance_of(id, usage).usage_limit == usage.usage_limit,
        balance_of(id, usage).next_reset_at == usage.next_reset_at,
        balance_of(id, usage).remaining.bits == if 0 < usage.difference.bits
            <= 0x7ff0_0000_0000_0000 {
            usage.difference.bits
        } else {
            0
        },
        !(0 < usage.usage_limit.bits <= 0x7ff0_0000_0000_0000) ==> balance_of(
            id,
            usage,
        ).usage_percentage.bits == 0,
        0 < usage.usage_limit.bits <= 0x7ff0_0000_0000_0000 && (usage.ratio.bits
            < 0x4059_0000_0000_0000 || 0x8000_0000_0000_0000 <= usage.ratio.bits
            <= 0xfff0_0000_0000_0000) ==> balance_of(id, usage).usage_percentage == usage.ratio,
        0 < usage.usage_limit.bits <= 0x7ff0_0000_0000_0000 && !(usage.ratio.bits
            < 0x4059_0000_0000_0000 || 0x8000_0000_0000_0000 <= usage.ratio.bits
            <= 0xfff0_0000_0000_0000) ==> balance_of(id, usage).usage_percentage.bits
            == 0x4059_0000_0000_0000,
{
}

/// A balance that was recorded is given back until it is too old, and not after.
pub proof fn recorded_balance_is_remembered(
    cache: Map<u64, CachedBalance>,
    id: u64,
    balance: BalanceResponse,
    at: i64,
    now: i64,
)
    ensures
        remembered(recorded(cache, id, balance, at), id, now) == if now - at
            < BALANCE_CACHE_TTL_SECS {
            Some(balance)
        } else {
            None
        },
{
}

/// Recording a balance touches no other credential.
pub proof fn recording_touches_one_balance(
    cache: Map<u64, CachedBalance>,
    id: u64,
    balance: BalanceResponse,
    at: i64,
    other: u64,
    now: i64,
)
    requires
        other != id,
    ensures
        remembered(recorded(cache, id, balance, at), other, now) == remembered(cache, other, now),
{
}

/// The balance of a deleted credential is forgotten, and no other.
pub proof fn deleted_balance_is_forgotten(
    cache: Map<u64, CachedBalance>,
    id: u64,
    other: u64,
    now: i64,
)
    ensures
        remembered(cache.remove(id), id, now) is None,
        other != id ==> remembered(cache.remove(id), other, now) == remembered(cache, other, now),
{
}

/// A balance that is no longer remembered stays so as time goes on.
pub proof fn balances_age(cache: Map<u64, CachedBalance>, id: u64, now: i64, later: i64)
    requires
        now <= later,
        remembered(cache, id, now) is None,
    ensures
        remembered(cache, id, later) is None,
{
}

proof fn lemma_loaded_prefix(
    entries: Seq<(String, CachedBalance)>,
    cache: Map<u64, CachedBalance>,
    ids: Seq<u64>,
    now: i64,
    k: int,
)
    requires
        exports(entries, cache, ids),
        0 <= k <= ids.len(),
    ensures
        forall|id: u64| #[trigger]
            loaded(entries.take(k), now).contains_key(id) <==> exists|i: int|
                0 <= i < k && #[trigger] ids[i] == id && is_fresh(cache[id].cached_at, now),
        forall|id: u64|
            loaded(entries.take(k), now).contains_key(id) ==> #[trigger] loaded(
                entries.take(k),
                now,
            )[id] == cache[id],
    decreases k,
{
    if k > 0 {
        lemma_loaded_prefix(entries, cache, ids, now, k - 1);
        let before = loaded(entries.take(k - 1), now);
        let after = loaded(entries.take(k), now);
        assert(entries.take(k).drop_last() =~= entries.take(k - 1));
        assert(entries.take(k).last() == entries[k - 1]);
        let last = ids[k - 1];
        parsing_undoes_writing(last);
        assert(after == if is_fresh(cache[last].cached_at, now) {
            before.insert(last, cache[last])
        } else {
            before
        });
        assert forall|id: u64| #[trigger] after.contains_key(id) <==> exists|i: int|
            0 <= i < k && #[trigger] ids[i] == id && is_fresh(cache[id].cached_at, now) by {
            if before.contains_key(id) {
                let i = choose|i: int|
                    0 <= i < k - 1 && #[trigger] ids[i] == id && is_fresh(
                        cache[id].cached_at,
                        now,
                    );
                assert(ids[i] == id);
            }
            if exists|i: int|
                0 <= i < k && #[trigger] ids[i] == id && is_fresh(cache[id].cached_at, now) {
                let i = choose|i: int|
                    0 <= i < k && #[trigger] ids[i] == id && is_fresh(cache[id].cached_at, now);
                if i < k - 1 {
                    assert(before.contains_key(id));
                }
            }
        }
    }
}

/// What was stored is read back: the balances that are still good, and no others.
pub proof fn stored_balances_are_read_back(
    entries: Seq<(String, CachedBalance)>,
    cache: Map<u64, CachedBalance>,
    ids: Seq<u64>,
    now: i64,
)
    requires
        exports(entries, cache, ids),
    ensures
        forall|id: u64| #[trigger]
            loaded(entries, now).contains_key(id) <==> cache.contains_key(id) && is_fresh(
                cache[id].cached_at,
                now,
            ),
        forall|id: u64| #[trigger]
            loaded(entries, now).contains_key(id) ==> loaded(entries, now)[id] == cache[id],
        forall|id: u64| #[trigger]
            remembered(loaded(entries, now), id, now) == remembered(cache, id, now),
{
    let n = ids.len() as int;
    lemma_loaded_prefix(entries, cache, ids, now, n);
    assert(entries.take(n) =~= entries);
    assert forall|id: u64| #[trigger]
        loaded(entries, now).contains_key(id) <==> cache.contains_key(id) && is_fresh(
            cache[id].cached_at,
            now,
        ) by {
        if cache.contains_key(id) {
            assert(ids.to_set().contains(id));
            let i = choose|i: int| 0 <= i < ids.len() && ids[i] == id;
            assert(ids[i] == id);
        }
        if loaded(entries, now).contains_key(id) {
            let i = choose|i: int|
                0 <= i < n && #[trigger] ids[i] == id && is_fresh(cache[id].cached_at, now);
            assert(ids.contains(id));
            assert(ids.to_set().contains(id));
        }
    }
}

} // verus!
