//! The balances that the token manager remembers, listed and summarised.
use crate::amount::Amount;
use crate::service::AdminService;
use crate::sorting::{
    ordered_items_stay, same_items_are_found, sorted_lists_ascend, stable_sort, stably_sorted,
    SortKey,
};
use crate::types::{
    copy_text, BalanceSummary, BalanceSummaryItem, CachedBalanceInfo, CachedBalanceItem,
    CachedBalancesResponse, CredentialEntry, ManagerSnapshot,
};
use std::collections::HashMap;
use vstd::prelude::*;

verus! {

broadcast use vstd::std_specs::hash::group_hash_axioms;

/// The balances by credential: a later one takes the place of an earlier.
pub open spec fn current_balances(balances: Seq<CachedBalanceInfo>) -> Map<u64, CachedBalanceInfo>
    decreases balances.len(),
{
    if balances.len() == 0 {
        Map::empty()
    } else {
        current_balances(balances.drop_last()).insert(balances.last().id, balances.last())
    }
}

/// A credential in the summary: without a balance, nothing remains.
pub open spec fn detail_of(
    entry: CredentialEntry,
    current: Map<u64, CachedBalanceInfo>,
) -> BalanceSummaryItem {
    BalanceSummaryItem {
        id: entry.id,
        remaining: if current.contains_key(entry.id) {
            current[entry.id].remaining
        } else {
            Amount::zero()
        },
        disabled: entry.disabled,
        email: entry.email,
        cached_at: if current.contains_key(entry.id) {
            Some(current[entry.id].cached_at)
        } else {
            None
        },
    }
}

/// All credentials in the summary, in the order in which the token manager lists them.
pub open spec fn details_of(
    entries: Seq<CredentialEntry>,
    current: Map<u64, CachedBalanceInfo>,
) -> Seq<BalanceSummaryItem> {
    entries.map_values(|e: CredentialEntry| detail_of(e, current))
}

/// One of the credentials has an amount left that is no number.
pub open spec fn has_no_order(details: Seq<BalanceSummaryItem>) -> bool {
    exists|i: int| 0 <= i < details.len() && (#[trigger] details[i]).remaining.is_nan()
}

/// `shown` are the credentials of `listed`, those with the least left first; where an amount is no
/// number and so cannot be compared, they stay in their order.
pub open spec fn arranged(
    listed: Seq<BalanceSummaryItem>,
    shown: Seq<BalanceSummaryItem>,
) -> bool {
    if has_no_order(listed) {
        shown == listed
    } else {
        stably_sorted(listed, shown)
    }
}

/// The test for an amount that is used up.
pub open spec fn used_up_test() -> spec_fn(Amount) -> bool {
    |a: Amount| a.is_used_up()
}

/// The test for a low amount.
pub open spec fn low_test() -> spec_fn(Amount) -> bool {
    |a: Amount| a.is_low()
}

/// The credentials whose remaining amount meets a test.
pub open spec fn ids_where(
    current: Map<u64, CachedBalanceInfo>,
    test: spec_fn(Amount) -> bool,
) -> Set<u64> {
    current.dom().filter(|id: u64| test(current[id].remaining))
}

/// `remainings` is what remains for each credential, in the order of `ids`.
pub open spec fn lists_remaining(
    remainings: Seq<Amount>,
    current: Map<u64, CachedBalanceInfo>,
    ids: Seq<u64>,
) -> bool {
    &&& ids.no_duplicates()
    &&& ids.to_set() == current.dom()
    &&& remainings.len() == ids.len()
    &&& forall|i: int| 0 <= i < ids.len() ==> #[trigger] remainings[i] == current[ids[i]].remaining
}

/// `least` is the smallest number that remains for a credential, or no number if there is none.
pub open spec fn is_least(current: Map<u64, CachedBalanceInfo>, least: Option<Amount>) -> bool {
    &&& least is None <==> current.dom().len() == 0
    &&& least is Some ==> {
        &&& exists|id: u64| #[trigger]
            current.contains_key(id) && current[id].remaining == least->0
        &&& forall|id: u64| #[trigger]
            current.contains_key(id) && !current[id].remaining.is_nan() ==> !least->0.is_nan()
                && least->0.rank() <= current[id].remaining.rank()
    }
}

/// `greatest` is the largest number that remains for a credential, or no number if there is none.
pub open spec fn is_greatest(
    current: Map<u64, CachedBalanceInfo>,
    greatest: Option<Amount>,
) -> bool {
    &&& greatest is None <==> current.dom().len() == 0
    &&& greatest is Some ==> {
        &&& exists|id: u64| #[trigger]
            current.contains_key(id) && current[id].remaining == greatest->0
        &&& forall|id: u64| #[trigger]
            current.contains_key(id) && !current[id].remaining.is_nan() ==> !greatest->0.is_nan()
                && current[id].remaining.rank() <= greatest->0.rank()
    }
}

/// The balance that counts for a credential is the last of its balances.
pub proof fn current_balance_is_the_latest(balances: Seq<CachedBalanceInfo>, i: int)
    requires
        0 <= i < balances.len(),
        forall|j: int| i < j < balances.len() ==> (#[trigger] balances[j]).id != balances[i].id,
    ensures
        current_balances(balances).contains_key(balances[i].id),
        current_balances(balances)[balances[i].id] == balances[i],
    decreases balances.len(),
{
    if i < balances.len() - 1 {
        assert(balances.last().id != balances[i].id);
        current_balance_is_the_latest(balances.drop_last(), i);
    }
}

/// Only a credential with a balance counts.
pub proof fn current_balance_is_one_of_them(balances: Seq<CachedBalanceInfo>, id: u64)
    requires
        current_balances(balances).contains_key(id),
    ensures
        balances.contains(current_balances(balances)[id]),
        current_balances(balances)[id].id == id,
    decreases balances.len(),
{
    if balances.last().id == id {
        assert(balances[balances.len() - 1] == balances.last());
    } else {
        let before = balances.drop_last();
        current_balance_is_one_of_them(before, id);
        let i = choose|i: int| 0 <= i < before.len() && before[i] == current_balances(before)[id];
        assert(balances[i] == before[i]);
    }
}

proof fn lemma_current_balances_finite(balances: Seq<CachedBalanceInfo>)
    ensures
        current_balances(balances).dom().finite(),
    decreases balances.len(),
{
    if balances.len() > 0 {
        lemma_current_balances_finite(balances.drop_last());
    }
}

/// Every remembered balance is either used up, low, at least one, or no number; so the two counts
/// never exceed the number of balances.
pub proof fn counts_are_disjoint(balances: Seq<CachedBalanceInfo>)
    ensures
        ({
            let current = current_balances(balances);
            ids_where(current, used_up_test()).len() + ids_where(current, low_test()).len()
                <= current.dom().len()
        }),
{
    let current = current_balances(balances);
    lemma_current_balances_finite(balances);
    let used_up = ids_where(current, used_up_test());
    let low = ids_where(current, low_test());
    assert(used_up.disjoint(low));
    vstd::set_lib::lemma_set_disjoint_lens(used_up, low);
    vstd::set_lib::lemma_len_subset(used_up + low, current.dom());
}

/// Where there are numbers among the balances, the least is not above the greatest.
pub proof fn least_is_not_above_greatest(
    balances: Seq<CachedBalanceInfo>,
    least: Option<Amount>,
    greatest: Option<Amount>,
    id: u64,
)
    requires
        is_least(current_balances(balances), least),
        is_greatest(current_balances(balances), greatest),
        current_balances(balances).contains_key(id),
        !current_balances(balances)[id].remaining.is_nan(),
    ensures
        least is Some,
        greatest is Some,
        least->0.rank() <= current_balances(balances)[id].remaining.rank() <= greatest->0.rank(),
{
    let current = current_balances(balances);
    lemma_current_balances_finite(balances);
    assert(current.dom().contains(id));
    assert(current.dom().len() > 0);
}

/// Every credential is in the summary with its own id, email and state, and with its balance: what
/// remains and since when that is known, or nothing.
pub proof fn every_credential_is_summarised(
    entries: Seq<CredentialEntry>,
    current: Map<u64, CachedBalanceInfo>,
    shown: Seq<BalanceSummaryItem>,
    i: int,
)
    requires
        shown.to_multiset() == details_of(entries, current).to_multiset(),
        0 <= i < entries.len(),
    ensures
        shown.len() == entries.len(),
        exists|j: int|
            0 <= j < shown.len() && (#[trigger] shown[j]).id == entries[i].id && shown[j].disabled
                == entries[i].disabled && shown[j].email == entries[i].email && (
            current.contains_key(entries[i].id) ==> shown[j].remaining
                == current[entries[i].id].remaining && shown[j].cached_at == Some(
                current[entries[i].id].cached_at,
            )) && (!current.contains_key(entries[i].id) ==> shown[j].remaining.bits == 0
                && shown[j].cached_at is None),
{
    let listed = details_of(entries, current);
    same_items_are_found(shown, listed);
    assert(listed[i] == detail_of(entries[i], current));
    assert(listed.contains(listed[i]));
    assert(shown.contains(listed[i]));
    let j = choose|j: int| 0 <= j < shown.len() && shown[j] == listed[i];
    assert(shown[j].id == entries[i].id);
}

/// Nothing is in the summary but a credential, with its own email, state and balance.
pub proof fn only_credentials_are_summarised(
    entries: Seq<CredentialEntry>,
    current: Map<u64, CachedBalanceInfo>,
    shown: Seq<BalanceSummaryItem>,
    j: int,
)
    requires
        shown.to_multiset() == details_of(entries, current).to_multiset(),
        0 <= j < shown.len(),
    ensures
        exists|i: int|
            0 <= i < entries.len() && shown[j].id == (#[trigger] entries[i]).id && shown[j].disabled
                == entries[i].disabled && shown[j].email == entries[i].email,
        current.contains_key(shown[j].id) ==> shown[j].remaining == current[shown[j].id].remaining
            && shown[j].cached_at == Some(current[shown[j].id].cached_at),
        !current.contains_key(shown[j].id) ==> shown[j].remaining.bits == 0
            && shown[j].cached_at is None,
{
    let listed = details_of(entries, current);
    same_items_are_found(shown, listed);
    assert(shown.contains(shown[j]));
    assert(listed.contains(shown[j]));
    let i = choose|i: int| 0 <= i < listed.len() && listed[i] == shown[j];
    assert(listed[i] == detail_of(entries[i], current));
    assert(entries[i].id == shown[j].id);
}

/// Where every amount is a number, a credential comes before those that have more left; those that
/// have as much left, and all where the order is right already, stay in the manager's order.
pub proof fn least_left_comes_first(
    listed: Seq<BalanceSummaryItem>,
    shown: Seq<BalanceSummaryItem>,
)
    requires
        forall|i: int| 0 <= i < listed.len() ==> !(#[trigger] listed[i]).remaining.is_nan(),
        arranged(listed, shown),
    ensures
        forall|i: int, j: int|
            #![trigger shown[i], shown[j]]
            0 <= i <= j < shown.len() ==> shown[i].remaining.rank() <= shown[j].remaining.rank(),
        (forall|i: int, j: int|
            #![trigger listed[i], listed[j]]
            0 <= i <= j < listed.len() ==> listed[i].remaining.rank()
                <= listed[j].remaining.rank()) ==> shown == listed,
{
    assert forall|i: int, j: int|
        #![trigger shown[i], shown[j]]
        0 <= i <= j < shown.len() implies shown[i].remaining.rank()
        <= shown[j].remaining.rank() by {
        sorted_lists_ascend(listed, shown, i, j);
    }
    if forall|i: int, j: int|
        #![trigger listed[i], listed[j]]
        0 <= i <= j < listed.len() ==> listed[i].remaining.rank() <= listed[j].remaining.rank() {
        assert forall|i: int, j: int|
            #![trigger listed[i], listed[j]]
            0 <= i <= j < listed.len() implies listed[i].sort_key() <= listed[j].sort_key() by {
            assert(listed[i].remaining.rank() <= listed[j].remaining.rank());
        }
        ordered_items_stay(listed, shown);
    }
}

/// Where an amount is no number, the credentials stay in the manager's order.
pub proof fn what_cannot_be_compared_stays(
    listed: Seq<BalanceSummaryItem>,
    shown: Seq<BalanceSummaryItem>,
    i: int,
)
    requires
        0 <= i < listed.len(),
        listed[i].remaining.is_nan(),
        arranged(listed, shown),
    ensures
        shown == listed,
{
}

/// A credential counts as used up exactly if its remaining amount is a number that is zero or
/// negative, and as low exactly if it is a number above zero and below one.
pub proof fn credentials_are_counted_by_what_remains(
    current: Map<u64, CachedBalanceInfo>,
    id: u64,
)
    ensures
        ids_where(current, used_up_test()).contains(id) <==> current.contains_key(id) && (
        current[id].remaining.bits == 0 || 0x8000_0000_0000_0000 <= current[id].remaining.bits
            <= 0xfff0_0000_0000_0000),
        ids_where(current, low_test()).contains(id) <==> current.contains_key(id) && 0
            < current[id].remaining.bits < 0x3ff0_0000_0000_0000,
{
}

/// What remains is listed once for each credential with a balance: as many amounts as there are
/// such credentials, and the amount of each among them.
pub proof fn every_balance_is_listed(
    remainings: Seq<Amount>,
    current: Map<u64, CachedBalanceInfo>,
    ids: Seq<u64>,
    id: u64,
)
    requires
        lists_remaining(remainings, current, ids),
        current.contains_key(id),
    ensures
        remainings.len() == current.dom().len(),
        remainings.contains(current[id].remaining),
{
    ids.unique_seq_to_set();
    assert(ids.to_set().contains(id));
    let i = choose|i: int| 0 <= i < ids.len() && ids[i] == id;
    assert(remainings[i] == current[id].remaining);
}

/// The least and the greatest amount are amounts of balances, and there is neither exactly if there
/// are no balances.
pub proof fn extremes_are_reached(
    balances: Seq<CachedBalanceInfo>,
    least: Option<Amount>,
    greatest: Option<Amount>,
)
    requires
        is_least(current_balances(balances), least),
        is_greatest(current_balances(balances), greatest),
    ensures
        least is None <==> balances.len() == 0,
        greatest is None <==> balances.len() == 0,
        least is Some ==> exists|i: int|
            0 <= i < balances.len() && (#[trigger] balances[i]).remaining == least->0,
        greatest is Some ==> exists|i: int|
            0 <= i < balances.len() && (#[trigger] balances[i]).remaining == greatest->0,
{
    let current = current_balances(balances);
    lemma_current_balances_finite(balances);
    if balances.len() > 0 {
        assert(current.dom().contains(balances.last().id));
    }
    if least is Some {
        let id = choose|id: u64| #[trigger]
            current.contains_key(id) && current[id].remaining == least->0;
        current_balance_is_one_of_them(balances, id);
        let i = choose|i: int| 0 <= i < balances.len() && balances[i] == current[id];
        assert(balances[i].remaining == least->0);
    }
    if greatest is Some {
        let id = choose|id: u64| #[trigger]
            current.contains_key(id) && current[id].remaining == greatest->0;
        current_balance_is_one_of_them(balances, id);
        let i = choose|i: int| 0 <= i < balances.len() && balances[i] == current[id];
        assert(balances[i].remaining == greatest->0);
    }
}

/// Collects the balances by credential.
fn collect_current(balances: &Vec<CachedBalanceInfo>) -> (r: HashMap<u64, CachedBalanceInfo>)
    ensures
        r@ == current_balances(balances@),
{
    let mut current: HashMap<u64, CachedBalanceInfo> = HashMap::new();
    let mut i: usize = 0;
    assert(balances@.take(0) =~= Seq::<CachedBalanceInfo>::empty());
    while i < balances.len()
        invariant
            i <= balances@.len(),
            current@ == current_balances(balances@.take(i as int)),
        decreases balances@.len() - i,
    {
        let info = balances[i];
        assert(balances@.take(i + 1).drop_last() =~= balances@.take(i as int));
        current.insert(info.id, info);
        i = i + 1;
    }
    assert(balances@.take(balances@.len() as int) =~= balances@);
    current
}

/// What some credentials have left.
struct Tally {
    remainings: Vec<Amount>,
    min_remaining: Option<Amount>,
    max_remaining: Option<Amount>,
    zero_balance_count: usize,
    low_balance_count: usize,
}

/// `tally` is the tally of the credentials `ids`, whose balances are `seen`.
spec fn tallies(tally: Tally, seen: Map<u64, CachedBalanceInfo>, ids: Seq<u64>) -> bool {
    &&& seen.dom().finite()
    &&& lists_remaining(tally.remainings@, seen, ids)
    &&& is_least(seen, tally.min_remaining)
    &&& is_greatest(seen, tally.max_remaining)
    &&& tally.zero_balance_count == ids_where(seen, used_up_test()).len()
    &&& tally.low_balance_count == ids_where(seen, low_test()).len()
    &&& tally.zero_balance_count <= ids.len()
    &&& tally.low_balance_count <= ids.len()
}

/// A new balance is counted if it meets the test, and no other count changes.
proof fn lemma_count_next(
    seen: Map<u64, CachedBalanceInfo>,
    id: u64,
    info: CachedBalanceInfo,
    test: spec_fn(Amount) -> bool,
)
    requires
        seen.dom().finite(),
        !seen.contains_key(id),
    ensures
        ids_where(seen.insert(id, info), test).len() == ids_where(seen, test).len() + if test(
            info.remaining,
        ) {
            1nat
        } else {
            0nat
        },
{
    let old_ids = ids_where(seen, test);
    let new_ids = ids_where(seen.insert(id, info), test);
    if test(info.remaining) {
        assert(new_ids =~= old_ids.insert(id));
    } else {
        assert(new_ids =~= old_ids);
    }
}

/// The smaller of an amount and those before it; what is no number gives way.
fn lesser(least: Option<Amount>, a: Amount) -> (r: Amount)
    ensures
        r == a || least == Some(r),
        !a.is_nan() ==> !r.is_nan() && r.rank() <= a.rank(),
        least is Some && !least->0.is_nan() ==> !r.is_nan() && r.rank() <= least->0.rank(),
{
    match least {
        Some(l) => if l.not_a_number() || (!a.not_a_number() && a.position() < l.position()) {
            a
        } else {
            l
        },
        None => a,
    }
}

/// The larger of an amount and those before it; what is no number gives way.
fn greater(greatest: Option<Amount>, a: Amount) -> (r: Amount)
    ensures
        r == a || greatest == Some(r),
        !a.is_nan() ==> !r.is_nan() && a.rank() <= r.rank(),
        greatest is Some && !greatest->0.is_nan() ==> !r.is_nan() && greatest->0.rank()
            <= r.rank(),
{
    match greatest {
        Some(g) => if g.not_a_number() || (!a.not_a_number() && a.position() > g.position()) {
            a
        } else {
            g
        },
        None => a,
    }
}

/// Adds the next balance to a tally.
fn add_to_tally(
    tally: &mut Tally,
    info: CachedBalanceInfo,
    Ghost(seen): Ghost<Map<u64, CachedBalanceInfo>>,
    Ghost(ids): Ghost<Seq<u64>>,
    Ghost(id): Ghost<u64>,
)
    requires
        tallies(*old(tally), seen, ids),
        !seen.contains_key(id),
        ids.len() < usize::MAX,
    ensures
        tallies(*final(tally), seen.insert(id, info), ids.push(id)),
{
    let a = info.remaining;
    let ghost before = *tally;
    let ghost now_seen = seen.insert(id, info);
    let least = lesser(tally.min_remaining, a);
    let greatest = greater(tally.max_remaining, a);
    tally.min_remaining = Some(least);
    tally.max_remaining = Some(greatest);
    tally.remainings.push(a);
    if a.used_up() {
        tally.zero_balance_count = tally.zero_balance_count + 1;
    }
    if a.low() {
        tally.low_balance_count = tally.low_balance_count + 1;
    }
    proof {
        lemma_count_next(seen, id, info, used_up_test());
        lemma_count_next(seen, id, info, low_test());
        assert(ids.push(id).to_set() =~= now_seen.dom()) by {
            assert forall|x: u64| ids.push(id).to_set().contains(x) <==> now_seen.contains_key(
                x,
            ) by {
                if now_seen.contains_key(x) && x != id {
                    assert(ids.to_set().contains(x));
                    let i = choose|i: int| 0 <= i < ids.len() && ids[i] == x;
                    assert(ids.push(id)[i] == x);
                }
                assert(ids.push(id)[ids.len() as int] == id);
                if ids.push(id).contains(x) && x != id {
                    let i = choose|i: int| 0 <= i < ids.push(id).len() && ids.push(id)[i] == x;
                    assert(ids[i] == x);
                    assert(ids.to_set().contains(x));
                }
            }
        }
        assert forall|i: int| 0 <= i < ids.len() implies #[trigger] ids[i] != id by {
            assert(ids.to_set().contains(ids[i]));
        }
        assert(ids.push(id).no_duplicates());
        assert(now_seen.contains_key(id));
        assert(now_seen.dom().len() > 0) by {
            assert(now_seen.dom().contains(id));
        }
        assert forall|i: int| 0 <= i < ids.push(id).len() implies #[trigger] tally.remainings@[i]
            == now_seen[ids.push(id)[i]].remaining by {
            if i < ids.len() {
                assert(before.remainings@[i] == seen[ids[i]].remaining);
            }
        }
        if before.min_remaining == Some(least) {
            let x = choose|x: u64| #[trigger]
                seen.contains_key(x) && seen[x].remaining == least;
            assert(now_seen.contains_key(x) && now_seen[x].remaining == least);
        }
        if before.max_remaining == Some(greatest) {
            let x = choose|x: u64| #[trigger]
                seen.contains_key(x) && seen[x].remaining == greatest;
            assert(now_seen.contains_key(x) && now_seen[x].remaining == greatest);
        }
        assert forall|x: u64| #[trigger]
            now_seen.contains_key(x) && !now_seen[x].remaining.is_nan() implies !least.is_nan()
            && least.rank() <= now_seen[x].remaining.rank() && !greatest.is_nan()
            && now_seen[x].remaining.rank() <= greatest.rank() by {
            if x != id {
                assert(seen.contains_key(x));
                assert(seen.dom().contains(x));
                assert(seen.dom().len() > 0);
            }
        }
    }
}

/// Tallies all balances.
fn tally_all(current: &HashMap<u64, CachedBalanceInfo>) -> (r: Tally)
    ensures
        exists|ids: Seq<u64>| #[trigger] tallies(r, current@, ids),
{
    let count: usize = current.len();
    let mut tally = Tally {
        remainings: Vec::with_capacity(count),
        min_remaining: None,
        max_remaining: None,
        zero_balance_count: 0,
        low_balance_count: 0,
    };
    let ghost mut ids: Seq<u64> = Seq::empty();
    let ghost mut seen: Map<u64, CachedBalanceInfo> = Map::empty();
    proof {
        assert(ids.to_set() =~= seen.dom());
        assert(ids_where(seen, used_up_test()) =~= Set::empty());
        assert(ids_where(seen, low_test()) =~= Set::empty());
    }
    for id in iter: current.keys()
        invariant
            iter.seq().unref().to_set() == current@.dom(),
            iter.seq().no_duplicates(),
            iter.seq().len() == current@.dom().len() == count,
            current@.dom().finite(),
            ids.len() == iter.index(),
            forall|i: int| 0 <= i < ids.len() ==> #[trigger] ids[i] == *iter.seq()[i],
            forall|x: u64| #[trigger]
                seen.contains_key(x) ==> current@.contains_key(x) && seen[x] == current@[x],
            tallies(tally, seen, ids),
    {
        assert(iter.seq().unref()[iter.index() as int] == *id);
        assert(iter.seq().unref().to_set().contains(*id));
        assert(!seen.contains_key(*id)) by {
            if seen.contains_key(*id) {
                assert(ids.to_set().contains(*id));
                let i = choose|i: int| 0 <= i < ids.len() && ids[i] == *id;
                assert(*iter.seq()[i] == *iter.seq()[iter.index() as int]);
            }
        }
        match current.get(id) {
            Some(info) => {
                add_to_tally(&mut tally, *info, Ghost(seen), Ghost(ids), Ghost(*id));
                proof {
                    seen = seen.insert(*id, *info);
                    ids = ids.push(*id);
                }
            },
            None => {},
        }
    }
    proof {
        ids.unique_seq_to_set();
        assert(ids.to_set().subset_of(current@.dom()));
        vstd::set_lib::lemma_subset_equality(ids.to_set(), current@.dom());
        assert(seen =~= current@);
        assert(tallies(tally, current@, ids));
    }
    tally
}

impl AdminService {
    /// Lists the balances that the token manager remembers.
    pub fn get_cached_balances(infos: Vec<CachedBalanceInfo>) -> (r: CachedBalancesResponse)
        ensures
            r.balances@.len() == infos@.len(),
            forall|i: int|
                0 <= i < infos@.len() ==> #[trigger] r.balances@[i] == (CachedBalanceItem {
                    id: infos@[i].id,
                    remaining: infos@[i].remaining,
                    cached_at: infos@[i].cached_at,
                    ttl_secs: infos@[i].ttl_secs,
                }),
    {
        let mut balances: Vec<CachedBalanceItem> = Vec::new();
        let mut i: usize = 0;
        while i < infos.len()
            invariant
                i <= infos@.len(),
                balances@.len() == i,
                forall|j: int|
                    0 <= j < i ==> #[trigger] balances@[j] == (CachedBalanceItem {
                        id: infos@[j].id,
                        remaining: infos@[j].remaining,
                        cached_at: infos@[j].cached_at,
                        ttl_secs: infos@[j].ttl_secs,
                    }),
            decreases infos@.len() - i,
        {
            let info = infos[i];
            balances.push(
                CachedBalanceItem {
                    id: info.id,
                    remaining: info.remaining,
                    cached_at: info.cached_at,
                    ttl_secs: info.ttl_secs,
                },
            );
            i = i + 1;
        }
        CachedBalancesResponse { balances }
    }

    /// Summarises the remembered balances of all credentials; those with the least left come first.
    ///
    /// Where an amount that is left is no number, the credentials come in the order in which the
    /// token manager lists them.
    pub fn get_balance_summary(
        snapshot: &ManagerSnapshot,
        balances: Vec<CachedBalanceInfo>,
    ) -> (r: BalanceSummary)
        ensures
            r.total_credentials == snapshot.entries@.len(),
            r.cached_count == current_balances(balances@).dom().len(),
            exists|ids: Seq<u64>| #[trigger]
                lists_remaining(r.remainings@, current_balances(balances@), ids),
            is_least(current_balances(balances@), r.min_remaining),
            is_greatest(current_balances(balances@), r.max_remaining),
            r.zero_balance_count == ids_where(
                current_balances(balances@),
                used_up_test(),
            ).len(),
            r.low_balance_count == ids_where(current_balances(balances@), low_test()).len(),
            arranged(details_of(snapshot.entries@, current_balances(balances@)), r.details@),
            r.details@.to_multiset() == details_of(
                snapshot.entries@,
                current_balances(balances@),
            ).to_multiset(),
            r.details@.len() == snapshot.entries@.len(),
            forall|i: int|
                #![trigger snapshot.entries@[i]]
                0 <= i < snapshot.entries@.len() ==> exists|j: int|
                    0 <= j < r.details@.len() && (#[trigger] r.details@[j]).id
                        == snapshot.entries@[i].id && r.details@[j].disabled
                        == snapshot.entries@[i].disabled && r.details@[j].email
                        == snapshot.entries@[i].email,
    {
        let current = collect_current(&balances);
        let entries = &snapshot.entries;
        let mut details: Vec<BalanceSummaryItem> = Vec::new();
        let mut ordered: bool = true;
        let mut i: usize = 0;
        while i < entries.len()
            invariant
                i <= entries@.len(),
                details@ == details_of(entries@.take(i as int), current@),
                ordered <==> !has_no_order(details@),
            decreases entries@.len() - i,
        {
            let entry = &entries[i];
            let (remaining, cached_at) = match current.get(&entry.id) {
                Some(b) => (b.remaining, Some(b.cached_at)),
                None => (Amount::zero(), None),
            };
            let detail = BalanceSummaryItem {
                id: entry.id,
                remaining,
                disabled: entry.disabled,
                email: copy_text(&entry.email),
                cached_at,
            };
            assert(detail == detail_of(*entry, current@));
            let ghost before = details@;
            if remaining.not_a_number() {
                ordered = false;
            }
            details.push(detail);
            proof {
                assert(details@ =~= details_of(entries@.take(i + 1), current@));
                assert(details@[i as int] == detail);
                if has_no_order(before) {
                    let j = choose|j: int|
                        0 <= j < before.len() && (#[trigger] before[j]).remaining.is_nan();
                    assert(details@[j].remaining.is_nan());
                }
                if has_no_order(details@) && !remaining.is_nan() {
                    let j = choose|j: int|
                        0 <= j < details@.len() && (#[trigger] details@[j]).remaining.is_nan();
                    assert(before[j].remaining.is_nan());
                }
            }
            i = i + 1;
        }
        assert(entries@.take(entries@.len() as int) =~= entries@);
        let details = if ordered {
            stable_sort(details)
        } else {
            details
        };
        let cached_count: usize = current.len();
        let tally = tally_all(&current);
        let ghost ids = choose|ids: Seq<u64>| #[trigger] tallies(tally, current@, ids);
        let summary = BalanceSummary {
            total_credentials: snapshot.entries.len(),
            cached_count,
            min_remaining: tally.min_remaining,
            max_remaining: tally.max_remaining,
            zero_balance_count: tally.zero_balance_count,
            low_balance_count: tally.low_balance_count,
            remainings: tally.remainings,
            details,
        };
        proof {
            assert(lists_remaining(summary.remainings@, current_balances(balances@), ids));
            assert forall|i: int|
                #![trigger snapshot.entries@[i]]
                0 <= i < snapshot.entries@.len() implies exists|j: int|
                0 <= j < summary.details@.len() && (#[trigger] summary.details@[j]).id
                    == snapshot.entries@[i].id && summary.details@[j].disabled
                    == snapshot.entries@[i].disabled && summary.details@[j].email
                    == snapshot.entries@[i].email by {
                every_credential_is_summarised(
                    snapshot.entries@,
                    current_balances(balances@),
                    summary.details@,
                    i,
                );
            }
        }
        summary
    }
}

} // verus!
