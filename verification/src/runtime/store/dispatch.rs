//! Which attempts can be handed to workers, and in which order.
use crate::kernel::event::KernelError;
use crate::runtime::attempt::AttemptExecutionStatus;
use crate::runtime::models::{clone_opt_string, AttemptDispatchRecord, AttemptRow, DispatchableAttemptContext, LeaseRecord};
use crate::runtime::store::attempts::opt_view;
use crate::runtime::store::keyed::{find_key, key_pos, keys_unique, lemma_key_pos, Keyed};
use crate::runtime::store::leases::lease_active;
use crate::runtime::store::InMemoryRuntimeRepository;
use crate::text::{lemma_seq_lt_asymmetric, lemma_seq_lt_irreflexive, lemma_seq_lt_total, lemma_seq_lt_transitive, seq_lt, str_lt};
use vstd::prelude::*;

verus! {

/// The attempt holds a lease that is active at `now`.
pub open spec fn has_active_lease(leases: Seq<LeaseRecord>, attempt_id: Seq<char>, now_ms: i64) -> bool {
    let p = key_pos(leases, attempt_id);
    p >= 0 && lease_active(leases[p], now_ms)
}

/// An attempt can be handed out at `now`: it holds no active lease, and it is queued, or
/// waiting for a retry whose time has come.
pub open spec fn dispatchable(row: AttemptRow, leases: Seq<LeaseRecord>, now_ms: i64) -> bool {
    &&& !has_active_lease(leases, row.attempt_id@, now_ms)
    &&& (row.status == AttemptExecutionStatus::Queued || (row.status == AttemptExecutionStatus::RetryBackoff && (
    row.retry_at_ms is None || row.retry_at_ms->0 <= now_ms)))
}

/// Dispatch order: higher priority first, then lower attempt number, then attempt id.
pub open spec fn dispatch_before(a: AttemptRow, b: AttemptRow) -> bool {
    ||| a.priority > b.priority
    ||| a.priority == b.priority && a.attempt_no < b.attempt_no
    ||| a.priority == b.priority && a.attempt_no == b.attempt_no && seq_lt(a.attempt_id@, b.attempt_id@)
}

/// `idx` lists, in dispatch order, the first `limit` attempts of `rows` that can be handed out.
pub open spec fn dispatch_selection(rows: Seq<AttemptRow>, leases: Seq<LeaseRecord>, now_ms: i64, limit: int, idx: Seq<int>) -> bool {
    &&& idx.len() <= limit
    &&& forall|k: int| 0 <= k < idx.len() ==> 0 <= #[trigger] idx[k] < rows.len() && dispatchable(rows[idx[k]], leases, now_ms)
    &&& forall|k1: int, k2: int|
        0 <= k1 < k2 < idx.len() ==> dispatch_before(rows[#[trigger] idx[k1]], rows[#[trigger] idx[k2]])
    &&& forall|j: int|
        0 <= j < rows.len() && dispatchable(#[trigger] rows[j], leases, now_ms) ==> (exists|k: int| 0 <= k < idx.len() && idx[k] == j)
            || (idx.len() == limit && (idx.len() == 0 || dispatch_before(rows[idx.last()], rows[j])))
}

/// Number of attempts of `rows` that can be handed out at `now`.
pub open spec fn dispatchable_count(rows: Seq<AttemptRow>, leases: Seq<LeaseRecord>, now_ms: i64) -> nat
    decreases rows.len(),
{
    if rows.len() == 0 {
        0
    } else {
        dispatchable_count(rows.drop_last(), leases, now_ms) + if dispatchable(rows.last(), leases, now_ms) {
            1nat
        } else {
            0nat
        }
    }
}

/// `rec` is the dispatch record of `row`.
pub open spec fn record_of(rec: AttemptDispatchRecord, row: AttemptRow) -> bool {
    &&& rec.attempt_id@ == row.attempt_id@
    &&& rec.run_id@ == row.run_id@
    &&& rec.attempt_no == row.attempt_no
    &&& rec.status == row.status
    &&& rec.retry_at_ms == row.retry_at_ms
}

/// `ctx` is the dispatch context of `row`.
pub open spec fn context_of(ctx: DispatchableAttemptContext, row: AttemptRow) -> bool {
    &&& ctx.attempt_id@ == row.attempt_id@
    &&& opt_view(ctx.tenant_id) == opt_view(row.tenant_id)
    &&& ctx.started_at_ms == row.started_at_ms
}

/// `rows[j]` can be handed out and nothing that can be handed out comes before it.
pub open spec fn first_in_dispatch_order(rows: Seq<AttemptRow>, leases: Seq<LeaseRecord>, now_ms: i64, j: int) -> bool {
    &&& 0 <= j < rows.len()
    &&& dispatchable(rows[j], leases, now_ms)
    &&& forall|j2: int|
        0 <= j2 < rows.len() && dispatchable(#[trigger] rows[j2], leases, now_ms) ==> !dispatch_before(rows[j2], rows[j])
}

/// Position of the attempt handed out first at `now`, or -1 when none can be.
pub open spec fn first_dispatchable_pos(rows: Seq<AttemptRow>, leases: Seq<LeaseRecord>, now_ms: i64) -> int {
    if exists|j: int| first_in_dispatch_order(rows, leases, now_ms, j) {
        choose|j: int| first_in_dispatch_order(rows, leases, now_ms, j)
    } else {
        -1
    }
}

/// Dispatch order law: among the attempts listed for dispatch, one of higher priority is
/// listed before one of lower priority, of two with equal priority the one with the smaller
/// attempt number is listed first, and of two equal in both the one whose id comes first.
pub proof fn lemma_dispatch_order(
    rows: Seq<AttemptRow>,
    leases: Seq<LeaseRecord>,
    now_ms: i64,
    limit: int,
    idx: Seq<int>,
    k1: int,
    k2: int,
)
    requires
        dispatch_selection(rows, leases, now_ms, limit, idx),
        0 <= k1 < idx.len(),
        0 <= k2 < idx.len(),
    ensures
        rows[idx[k1]].priority > rows[idx[k2]].priority ==> k1 < k2,
        rows[idx[k1]].priority == rows[idx[k2]].priority && rows[idx[k1]].attempt_no < rows[idx[k2]].attempt_no
            ==> k1 < k2,
        rows[idx[k1]].priority == rows[idx[k2]].priority && rows[idx[k1]].attempt_no == rows[idx[k2]].attempt_no
            && seq_lt(rows[idx[k1]].attempt_id@, rows[idx[k2]].attempt_id@) ==> k1 < k2,
{
    if k1 == k2 {
        lemma_seq_lt_irreflexive(rows[idx[k1]].attempt_id@);
    }
    if k2 < k1 {
        assert(dispatch_before(rows[idx[k2]], rows[idx[k1]]));
        if rows[idx[k1]].priority == rows[idx[k2]].priority && rows[idx[k1]].attempt_no == rows[idx[k2]].attempt_no
            && seq_lt(rows[idx[k1]].attempt_id@, rows[idx[k2]].attempt_id@) {
            lemma_before_asymmetric(rows[idx[k2]], rows[idx[k1]]);
        }
    }
}

/// The attempt handed out first has the highest priority of all attempts that can be handed
/// out, and among those of that priority the smallest attempt number.
pub proof fn lemma_first_dispatched_order(rows: Seq<AttemptRow>, leases: Seq<LeaseRecord>, now_ms: i64, j: int, other: int)
    requires
        first_in_dispatch_order(rows, leases, now_ms, j),
        0 <= other < rows.len(),
        dispatchable(rows[other], leases, now_ms),
    ensures
        rows[j].priority >= rows[other].priority,
        rows[j].priority == rows[other].priority ==> rows[j].attempt_no <= rows[other].attempt_no,
{
    assert(!dispatch_before(rows[other], rows[j]));
}

/// A selection with room for one attempt starts with the attempt handed out first.
pub proof fn lemma_selection_first(rows: Seq<AttemptRow>, leases: Seq<LeaseRecord>, now_ms: i64, limit: int, idx: Seq<int>)
    requires
        keys_unique(rows),
        limit >= 1,
        dispatch_selection(rows, leases, now_ms, limit, idx),
    ensures
        idx.len() == 0 <==> first_dispatchable_pos(rows, leases, now_ms) == -1,
        idx.len() > 0 ==> idx[0] == first_dispatchable_pos(rows, leases, now_ms),
{
    if idx.len() == 0 {
        if exists|j: int| first_in_dispatch_order(rows, leases, now_ms, j) {
            let j = choose|j: int| first_in_dispatch_order(rows, leases, now_ms, j);
            assert(dispatchable(rows[j], leases, now_ms));
        }
    } else {
        let m = idx[0];
        assert forall|j2: int|
            0 <= j2 < rows.len() && dispatchable(#[trigger] rows[j2], leases, now_ms) implies !dispatch_before(rows[j2], rows[m]) by {
            if exists|k: int| 0 <= k < idx.len() && idx[k] == j2 {
                let k = choose|k: int| 0 <= k < idx.len() && idx[k] == j2;
                if k == 0 {
                    lemma_before_irreflexive(rows[m]);
                } else {
                    assert(dispatch_before(rows[idx[0]], rows[idx[k]]));
                    lemma_before_asymmetric(rows[m], rows[j2]);
                }
            } else {
                let l = idx.last();
                if idx.len() > 1 {
                    assert(dispatch_before(rows[idx[0]], rows[idx[idx.len() - 1]]));
                    lemma_before_transitive(rows[m], rows[l], rows[j2]);
                }
                lemma_before_asymmetric(rows[m], rows[j2]);
            }
        }
        assert(first_in_dispatch_order(rows, leases, now_ms, m));
        let c = choose|j: int| first_in_dispatch_order(rows, leases, now_ms, j);
        assert(!dispatch_before(rows[c], rows[m]));
        assert(!dispatch_before(rows[m], rows[c]));
        lemma_before_total(rows[c], rows[m]);
        lemma_key_pos(rows, c);
        lemma_key_pos(rows, m);
    }
}

proof fn lemma_before_irreflexive(a: AttemptRow)
    ensures
        !dispatch_before(a, a),
{
    lemma_seq_lt_irreflexive(a.attempt_id@);
}

proof fn lemma_before_transitive(a: AttemptRow, b: AttemptRow, c: AttemptRow)
    requires
        dispatch_before(a, b),
        dispatch_before(b, c),
    ensures
        dispatch_before(a, c),
{
    if a.priority == b.priority && b.priority == c.priority && a.attempt_no == b.attempt_no && b.attempt_no == c.attempt_no {
        lemma_seq_lt_transitive(a.attempt_id@, b.attempt_id@, c.attempt_id@);
    }
}

proof fn lemma_before_total(a: AttemptRow, b: AttemptRow)
    requires
        !dispatch_before(a, b),
        !dispatch_before(b, a),
    ensures
        a.attempt_id@ == b.attempt_id@,
{
    if a.attempt_id@ != b.attempt_id@ {
        lemma_seq_lt_total(a.attempt_id@, b.attempt_id@);
    }
}

proof fn lemma_before_asymmetric(a: AttemptRow, b: AttemptRow)
    requires
        dispatch_before(a, b),
    ensures
        !dispatch_before(b, a),
{
    if a.priority == b.priority && a.attempt_no == b.attempt_no {
        lemma_seq_lt_asymmetric(a.attempt_id@, b.attempt_id@);
    }
}

/// `j` may be chosen after `last`: it can be handed out and comes after `last`.
spec fn candidate(rows: Seq<AttemptRow>, leases: Seq<LeaseRecord>, now_ms: i64, last: Option<int>, j: int) -> bool {
    &&& 0 <= j < rows.len()
    &&& dispatchable(rows[j], leases, now_ms)
    &&& (last matches Some(l) ==> dispatch_before(rows[l], rows[j]))
}

/// Every attempt that can be handed out and does not come after the last chosen one is chosen.
spec fn covered(rows: Seq<AttemptRow>, leases: Seq<LeaseRecord>, now_ms: i64, idx: Seq<int>) -> bool {
    forall|j: int|
        0 <= j < rows.len() && dispatchable(#[trigger] rows[j], leases, now_ms) && idx.len() > 0 && !dispatch_before(
            rows[idx.last()],
            rows[j],
        ) ==> exists|k: int| 0 <= k < idx.len() && idx[k] == j
}

/// `idx` is sorted in dispatch order and lists attempts that can be handed out.
spec fn chosen_ok(rows: Seq<AttemptRow>, leases: Seq<LeaseRecord>, now_ms: i64, idx: Seq<int>) -> bool {
    &&& forall|k: int| 0 <= k < idx.len() ==> 0 <= #[trigger] idx[k] < rows.len() && dispatchable(rows[idx[k]], leases, now_ms)
    &&& forall|k1: int, k2: int|
        0 <= k1 < k2 < idx.len() ==> dispatch_before(rows[#[trigger] idx[k1]], rows[#[trigger] idx[k2]])
}

impl InMemoryRuntimeRepository {
    fn is_dispatchable(&self, j: usize, now_ms: i64) -> (r: bool)
        requires
            self.wf(),
            j < self.attempts().len(),
        ensures
            r == dispatchable(self.attempts()[j as int], self.leases(), now_ms),
    {
        let leased = match find_key(&self.leases, self.attempts[j].attempt_id.as_str()) {
            Some(li) => self.leases[li].lease_expires_at_ms >= now_ms,
            None => false,
        };
        if leased {
            return false;
        }
        match self.attempts[j].status {
            AttemptExecutionStatus::Queued => true,
            AttemptExecutionStatus::RetryBackoff => match self.attempts[j].retry_at_ms {
                None => true,
                Some(t) => t <= now_ms,
            },
            _ => false,
        }
    }

    fn before(&self, a: usize, b: usize) -> (r: bool)
        requires
            a < self.attempts().len(),
            b < self.attempts().len(),
        ensures
            r == dispatch_before(self.attempts()[a as int], self.attempts()[b as int]),
    {
        let x = &self.attempts[a];
        let y = &self.attempts[b];
        if x.priority != y.priority {
            return x.priority > y.priority;
        }
        if x.attempt_no != y.attempt_no {
            return x.attempt_no < y.attempt_no;
        }
        str_lt(x.attempt_id.as_str(), y.attempt_id.as_str())
    }

    /// Positions of the first `limit` attempts that can be handed out, in dispatch order.
    fn select_dispatchable(&self, now_ms: i64, limit: usize) -> (r: Vec<usize>)
        requires
            self.wf(),
        ensures
            dispatch_selection(self.attempts(), self.leases(), now_ms, limit as int, r@.map_values(|v: usize| v as int)),
    {
        let ghost rows = self.attempts();
        let ghost leases = self.leases();
        let n = self.attempts.len();
        let mut out: Vec<usize> = Vec::new();
        let mut last: Option<usize> = None;
        let ghost mut idx: Seq<int> = Seq::empty();
        while out.len() < limit
            invariant
                self.wf(),
                rows == self.attempts(),
                leases == self.leases(),
                n == rows.len(),
                out@.len() == idx.len(),
                out@.len() <= limit,
                forall|k: int| 0 <= k < idx.len() ==> #[trigger] idx[k] == out@[k] as int,
                chosen_ok(rows, leases, now_ms, idx),
                covered(rows, leases, now_ms, idx),
                last is None <==> idx.len() == 0,
                last matches Some(l) ==> l as int == idx.last(),
            decreases limit - out@.len(),
        {
            let ghost glast: Option<int> = match last {
                Some(l) => Some(l as int),
                None => None,
            };
            let mut best: Option<usize> = None;
            let mut j: usize = 0;
            while j < n
                invariant
                    self.wf(),
                    rows == self.attempts(),
                    leases == self.leases(),
                    n == rows.len(),
                    j <= n,
                    glast == (match last {
                        Some(l) => Some(l as int),
                        None => None::<int>,
                    }),
                    last matches Some(l) ==> l < n,
                    best matches Some(b) ==> b < n && candidate(rows, leases, now_ms, glast, b as int),
                    best matches Some(b) ==> forall|j2: int|
                        0 <= j2 < j && candidate(rows, leases, now_ms, glast, j2) ==> !dispatch_before(
                            #[trigger] rows[j2],
                            rows[b as int],
                        ),
                    best is None ==> forall|j2: int| 0 <= j2 < j ==> !#[trigger] candidate(rows, leases, now_ms, glast, j2),
                decreases n - j,
            {
                let mut take = self.is_dispatchable(j, now_ms);
                if take {
                    match last {
                        Some(l) => {
                            take = self.before(l, j);
                        },
                        None => {},
                    }
                }
                if take {
                    match best {
                        Some(b) => {
                            if self.before(j, b) {
                                proof {
                                    assert forall|j2: int|
                                        0 <= j2 < j + 1 && candidate(rows, leases, now_ms, glast, j2) implies !dispatch_before(
                                            #[trigger] rows[j2],
                                            rows[j as int],
                                        ) by {
                                        if j2 < j && dispatch_before(rows[j2], rows[j as int]) {
                                            lemma_before_transitive(rows[j2], rows[j as int], rows[b as int]);
                                        }
                                        if j2 == j {
                                            lemma_before_irreflexive(rows[j as int]);
                                        }
                                    }
                                }
                                best = Some(j);
                            }
                        },
                        None => {
                            proof {
                                lemma_before_irreflexive(rows[j as int]);
                            }
                            best = Some(j);
                        },
                    }
                }
                j = j + 1;
            }
            match best {
                None => {
                    proof {
                        assert forall|j2: int|
                            0 <= j2 < rows.len() && dispatchable(#[trigger] rows[j2], leases, now_ms) implies (exists|k: int|
                                0 <= k < idx.len() && idx[k] == j2) || (idx.len() == limit && (idx.len() == 0 || dispatch_before(
                            rows[idx.last()],
                            rows[j2],
                        ))) by {
                            assert(!candidate(rows, leases, now_ms, glast, j2));
                        }
                        assert(idx =~= out@.map_values(|v: usize| v as int));
                    }
                    return out;
                },
                Some(b) => {
                    let ghost old_idx = idx;
                    out.push(b);
                    last = Some(b);
                    proof {
                        idx = idx.push(b as int);
                        assert forall|k1: int, k2: int|
                            0 <= k1 < k2 < idx.len() implies dispatch_before(rows[#[trigger] idx[k1]], rows[#[trigger] idx[k2]]) by {
                            if k2 == idx.len() - 1 && k1 < k2 - 1 {
                                assert(idx[k1] == old_idx[k1]);
                                lemma_before_transitive(rows[old_idx[k1]], rows[old_idx.last()], rows[b as int]);
                            }
                        }
                        assert forall|j2: int|
                            0 <= j2 < rows.len() && dispatchable(#[trigger] rows[j2], leases, now_ms) && idx.len() > 0
                                && !dispatch_before(rows[idx.last()], rows[j2]) implies exists|k: int|
                            0 <= k < idx.len() && idx[k] == j2 by {
                            if old_idx.len() > 0 && !dispatch_before(rows[old_idx.last()], rows[j2]) {
                                let k = choose|k: int| 0 <= k < old_idx.len() && old_idx[k] == j2;
                                assert(idx[k] == j2);
                            } else {
                                assert(candidate(rows, leases, now_ms, glast, j2));
                                assert(!dispatch_before(rows[j2], rows[b as int]));
                                lemma_before_total(rows[j2], rows[b as int]);
                                lemma_key_pos(rows, j2);
                                lemma_key_pos(rows, b as int);
                                assert(idx[idx.len() - 1] == j2);
                            }
                        }
                    }
                },
            }
        }
        proof {
            assert(idx =~= out@.map_values(|v: usize| v as int));
            assert forall|j2: int|
                0 <= j2 < rows.len() && dispatchable(#[trigger] rows[j2], leases, now_ms) implies (exists|k: int|
                    0 <= k < idx.len() && idx[k] == j2) || (idx.len() == limit && (idx.len() == 0 || dispatch_before(
                rows[idx.last()],
                rows[j2],
            ))) by {
                if idx.len() > 0 && !dispatch_before(rows[idx.last()], rows[j2]) {
                    assert(exists|k: int| 0 <= k < idx.len() && idx[k] == j2);
                }
            }
        }
        out
    }

    /// Positions in the attempts of the records `r`.
    pub open spec fn positions(&self, r: Seq<AttemptDispatchRecord>) -> Seq<int> {
        r.map_values(|rec: AttemptDispatchRecord| key_pos(self.attempts(), rec.attempt_id@))
    }

    /// The first `limit` attempts that can be handed out at `now_ms`, in dispatch order.
    pub fn list_dispatchable_attempts(&self, now_ms: i64, limit: usize) -> (r: Result<Vec<AttemptDispatchRecord>, KernelError>)
        requires
            self.wf(),
        ensures
            r matches Ok(v) && dispatch_selection(self.attempts(), self.leases(), now_ms, limit as int, self.positions(v@))
                && forall|k: int| 0 <= k < v@.len() ==> record_of(#[trigger] v@[k], self.attempts()[self.positions(v@)[k]]),
    {
        let sel = self.select_dispatchable(now_ms, limit);
        let mut out: Vec<AttemptDispatchRecord> = Vec::new();
        let mut k: usize = 0;
        while k < sel.len()
            invariant
                self.wf(),
                k <= sel@.len(),
                out@.len() == k,
                dispatch_selection(self.attempts(), self.leases(), now_ms, limit as int, sel@.map_values(|v: usize| v as int)),
                forall|a: int| 0 <= a < k ==> #[trigger] key_pos(self.attempts(), out@[a].attempt_id@) == sel@[a] as int,
                forall|a: int| 0 <= a < k ==> record_of(#[trigger] out@[a], self.attempts()[sel@[a] as int]),
            decreases sel@.len() - k,
        {
            let i = sel[k];
            proof {
                assert(sel@.map_values(|v: usize| v as int)[k as int] == i as int);
                lemma_key_pos(self.attempts(), i as int);
            }
            let row = &self.attempts[i];
            out.push(
                AttemptDispatchRecord {
                    attempt_id: row.attempt_id.clone(),
                    run_id: row.run_id.clone(),
                    attempt_no: row.attempt_no,
                    status: row.status,
                    retry_at_ms: row.retry_at_ms,
                },
            );
            k = k + 1;
        }
        proof {
            assert(self.positions(out@) =~= sel@.map_values(|v: usize| v as int));
        }
        Ok(out)
    }

    /// Dispatch contexts of the first `limit` attempts that can be handed out at `now_ms`,
    /// in dispatch order.
    pub fn list_dispatchable_attempt_contexts(&self, now_ms: i64, limit: usize) -> (r: Result<
        Vec<DispatchableAttemptContext>,
        KernelError,
    >)
        requires
            self.wf(),
        ensures
            r matches Ok(v) && dispatch_selection(
                self.attempts(),
                self.leases(),
                now_ms,
                limit as int,
                v@.map_values(|c: DispatchableAttemptContext| key_pos(self.attempts(), c.attempt_id@)),
            ) && forall|k: int|
                0 <= k < v@.len() ==> context_of(#[trigger] v@[k], self.attempts()[key_pos(self.attempts(), v@[k].attempt_id@)]),
    {
        let sel = self.select_dispatchable(now_ms, limit);
        let mut out: Vec<DispatchableAttemptContext> = Vec::new();
        let mut k: usize = 0;
        while k < sel.len()
            invariant
                self.wf(),
                k <= sel@.len(),
                out@.len() == k,
                dispatch_selection(self.attempts(), self.leases(), now_ms, limit as int, sel@.map_values(|v: usize| v as int)),
                forall|a: int| 0 <= a < k ==> #[trigger] key_pos(self.attempts(), out@[a].attempt_id@) == sel@[a] as int,
                forall|a: int| 0 <= a < k ==> context_of(#[trigger] out@[a], self.attempts()[sel@[a] as int]),
            decreases sel@.len() - k,
        {
            let i = sel[k];
            proof {
                assert(sel@.map_values(|v: usize| v as int)[k as int] == i as int);
                lemma_key_pos(self.attempts(), i as int);
            }
            let row = &self.attempts[i];
            out.push(
                DispatchableAttemptContext {
                    attempt_id: row.attempt_id.clone(),
                    tenant_id: clone_opt_string(&row.tenant_id),
                    started_at_ms: row.started_at_ms,
                },
            );
            k = k + 1;
        }
        proof {
            assert(out@.map_values(|c: DispatchableAttemptContext| key_pos(self.attempts(), c.attempt_id@)) =~= sel@.map_values(
                |v: usize| v as int,
            ));
        }
        Ok(out)
    }

    /// Number of attempts that can be handed out at `now_ms`.
    pub fn queue_depth(&self, now_ms: i64) -> (r: Result<usize, KernelError>)
        requires
            self.wf(),
        ensures
            r matches Ok(n) && n == dispatchable_count(self.attempts(), self.leases(), now_ms),
    {
        let mut n: usize = 0;
        let mut i: usize = 0;
        while i < self.attempts.len()
            invariant
                self.wf(),
                i <= self.attempts().len(),
                n <= i,
                n == dispatchable_count(self.attempts().take(i as int), self.leases(), now_ms),
            decreases self.attempts().len() - i,
        {
            proof {
                assert(self.attempts().take(i + 1).drop_last() =~= self.attempts().take(i as int));
            }
            if self.is_dispatchable(i, now_ms) {
                n = n + 1;
            }
            i = i + 1;
        }
        proof {
            assert(self.attempts().take(i as int) =~= self.attempts());
        }
        Ok(n)
    }
}

} // verus!
