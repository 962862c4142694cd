//! Checking many credentials at once.
use crate::amount::Amount;
use crate::service::AdminService;
use crate::sorting::{
    arrival_order_is_forgotten, distinct_keys, same_items_are_found, sorted_lists_ascend,
    stable_sort, stably_sorted,
};
use crate::types::{
    BatchVerifyPlan, BatchVerifyRequest, BatchVerifyResponse, CredentialEntry, ManagerSnapshot,
    VerifyResultItem,
};
use vstd::prelude::*;

verus! {

/// How many credentials are checked at a time, at most.
pub const MAX_VERIFY_CONCURRENCY: usize = 50;

/// The ids of all credentials.
pub open spec fn all_ids(entries: Seq<CredentialEntry>) -> Seq<u64> {
    entries.map_values(|e: CredentialEntry| e.id)
}

/// The credentials to check: those that the request names, or all if it names none.
pub open spec fn wanted_ids(req: BatchVerifyRequest, entries: Seq<CredentialEntry>) -> Seq<u64> {
    match req.ids {
        Some(ids) => if ids@.len() > 0 {
            ids@
        } else {
            all_ids(entries)
        },
        None => all_ids(entries),
    }
}

/// The test for a check that went well.
pub open spec fn went_well() -> spec_fn(VerifyResultItem) -> bool {
    |r: VerifyResultItem| r.success
}

/// How many checks went well.
pub open spec fn count_successes(results: Seq<VerifyResultItem>) -> nat {
    results.filter(went_well()).len()
}

impl AdminService {
    /// Decides which credentials to check and how many at a time, from one to fifty.
    pub fn plan_batch_verify(req: BatchVerifyRequest, snapshot: &ManagerSnapshot) -> (r:
        BatchVerifyPlan)
        ensures
            r.ids@ == wanted_ids(req, snapshot.entries@),
            r.concurrency == if req.concurrency < 1 {
                1
            } else if req.concurrency > 50 {
                50
            } else {
                req.concurrency as int
            },
            req.ids is Some && req.ids->0@.len() > 0 ==> r.ids@ == req.ids->0@,
            req.ids is None || req.ids->0@.len() == 0 ==> {
                &&& r.ids@.len() == snapshot.entries@.len()
                &&& forall|i: int|
                    0 <= i < snapshot.entries@.len() ==> #[trigger] r.ids@[i]
                        == snapshot.entries@[i].id
            },
    {
        let concurrency: usize = if req.concurrency < 1 {
            1
        } else if req.concurrency > MAX_VERIFY_CONCURRENCY {
            MAX_VERIFY_CONCURRENCY
        } else {
            req.concurrency
        };
        if let Some(ids) = req.ids {
            if ids.len() > 0 {
                return BatchVerifyPlan { ids, concurrency };
            }
        }
        let mut ids: Vec<u64> = Vec::new();
        let mut i: usize = 0;
        while i < snapshot.entries.len()
            invariant
                i <= snapshot.entries@.len(),
                ids@ == all_ids(snapshot.entries@.take(i as int)),
            decreases snapshot.entries@.len() - i,
        {
            ids.push(snapshot.entries[i].id);
            assert(ids@ =~= all_ids(snapshot.entries@.take(i + 1)));
            i = i + 1;
        }
        assert(snapshot.entries@.take(snapshot.entries@.len() as int) =~= snapshot.entries@);
        BatchVerifyPlan { ids, concurrency }
    }

    /// The outcome of checking one credential: what remains for it, or why that is not known.
    pub fn verify_item(id: u64, remaining: Result<Amount, String>) -> (r: VerifyResultItem)
        ensures
            r == match remaining {
                Ok(amount) => VerifyResultItem {
                    id,
                    success: true,
                    remaining: Some(amount),
                    error: None,
                },
                Err(message) => VerifyResultItem {
                    id,
                    success: false,
                    remaining: None,
                    error: Some(message),
                },
            },
    {
        match remaining {
            Ok(amount) => VerifyResultItem {
                id,
                success: true,
                remaining: Some(amount),
                error: None,
            },
            Err(message) => VerifyResultItem {
                id,
                success: false,
                remaining: None,
                error: Some(message),
            },
        }
    }

    /// Orders the outcomes of all checks by credential and counts them.
    pub fn batch_verify(results: Vec<VerifyResultItem>) -> (r: BatchVerifyResponse)
        ensures
            stably_sorted(results@, r.results@),
            r.results@.to_multiset() == results@.to_multiset(),
            r.total == results@.len(),
            r.success == count_successes(results@),
            r.failed == r.total - r.success,
            r.results@.len() == results@.len(),
            forall|i: int, j: int|
                #![trigger r.results@[i], r.results@[j]]
                0 <= i <= j < r.results@.len() ==> r.results@[i].id <= r.results@[j].id,
            forall|x: VerifyResultItem| #[trigger]
                r.results@.contains(x) <==> results@.contains(x),
    {
        let total: usize = results.len();
        let mut success: usize = 0;
        let mut i: usize = 0;
        proof {
            reveal(Seq::filter);
            assert(results@.take(0) =~= Seq::<VerifyResultItem>::empty());
        }
        while i < results.len()
            invariant
                i <= results@.len(),
                success == count_successes(results@.take(i as int)),
                success <= i,
            decreases results@.len() - i,
        {
            proof {
                reveal(Seq::filter);
                assert(results@.take(i + 1).drop_last() =~= results@.take(i as int));
            }
            if results[i].success {
                success = success + 1;
            }
            i = i + 1;
        }
        assert(results@.take(results@.len() as int) =~= results@);
        let failed: usize = total - success;
        let ghost finished = results@;
        let results = stable_sort(results);
        proof {
            same_items_are_found(results@, finished);
            assert forall|i: int, j: int|
                #![trigger results@[i], results@[j]]
                0 <= i <= j < results@.len() implies results@[i].id <= results@[j].id by {
                sorted_lists_ascend(finished, results@, i, j);
            }
        }
        BatchVerifyResponse { total, success, failed, results }
    }
}

/// A request that names no credentials has every credential checked, whatever its state: there are
/// as many checks as credentials, and each is of the credential in the same place.
pub proof fn unnamed_request_checks_every_credential(
    req: BatchVerifyRequest,
    entries: Seq<CredentialEntry>,
)
    requires
        req.ids is None || req.ids->0@.len() == 0,
    ensures
        wanted_ids(req, entries).len() == entries.len(),
        forall|i: int|
            0 <= i < entries.len() ==> #[trigger] wanted_ids(req, entries)[i] == entries[i].id,
{
}

/// A request that names credentials has those checked and no others, in the order in which it names
/// them and as often, whatever credentials there are.
pub proof fn named_credentials_are_checked(
    req: BatchVerifyRequest,
    ids: Vec<u64>,
    entries: Seq<CredentialEntry>,
)
    requires
        req.ids == Some(ids),
        ids@.len() > 0,
    ensures
        wanted_ids(req, entries).len() == ids@.len(),
        forall|i: int| 0 <= i < ids@.len() ==> #[trigger] wanted_ids(req, entries)[i] == ids@[i],
{
}

/// Each check that went well is counted once, and none that did not.
pub proof fn successes_are_counted_one_by_one(
    results: Seq<VerifyResultItem>,
    next: VerifyResultItem,
)
    ensures
        count_successes(Seq::empty()) == 0,
        next.success ==> count_successes(results.push(next)) == count_successes(results) + 1,
        !next.success ==> count_successes(results.push(next)) == count_successes(results),
        count_successes(results) <= results.len(),
    decreases results.len(),
{
    reveal(Seq::filter);
    assert(results.push(next).drop_last() =~= results);
    if results.len() > 0 {
        successes_are_counted_one_by_one(results.drop_last(), next);
    }
}

/// If no credential is checked twice, the order in which the checks end does not show in the
/// answer.
pub proof fn checks_may_end_in_any_order(
    first: Seq<VerifyResultItem>,
    second: Seq<VerifyResultItem>,
    a: Seq<VerifyResultItem>,
    b: Seq<VerifyResultItem>,
)
    requires
        distinct_keys(first),
        first.to_multiset() == second.to_multiset(),
        stably_sorted(first, a),
        stably_sorted(second, b),
    ensures
        a == b,
{
    arrival_order_is_forgotten(first, second, a, b);
}

} // verus!
