//! Newest-first selection of table rows, by a timestamp and then by position.
use vstd::prelude::*;

verus! {

/// Row `i` comes before row `j` newest first: a later time, or on equal times a later position.
pub open spec fn newer(keys: Seq<i64>, i: int, j: int) -> bool {
    keys[i] > keys[j] || (keys[i] == keys[j] && i > j)
}

/// `idx` lists, newest first, the first `limit` positions that `wanted` marks.
pub open spec fn newest_selection(keys: Seq<i64>, wanted: Seq<bool>, limit: int, idx: Seq<int>) -> bool {
    &&& idx.len() <= limit
    &&& forall|k: int| 0 <= k < idx.len() ==> 0 <= #[trigger] idx[k] < keys.len() && wanted[idx[k]]
    &&& forall|k1: int, k2: int| 0 <= k1 < k2 < idx.len() ==> newer(keys, #[trigger] idx[k1], #[trigger] idx[k2])
    &&& forall|j: int|
        0 <= j < keys.len() && #[trigger] wanted[j] ==> (exists|k: int| 0 <= k < idx.len() && idx[k] == j) || (idx.len()
            == limit && (idx.len() == 0 || newer(keys, idx.last(), j)))
}

/// A newest-first selection lists no row twice, and a selection with room to spare lists
/// every wanted row.
pub proof fn lemma_selection_distinct_and_complete(keys: Seq<i64>, wanted: Seq<bool>, limit: int, idx: Seq<int>)
    requires
        newest_selection(keys, wanted, limit, idx),
    ensures
        forall|a: int, b: int| 0 <= a < idx.len() && 0 <= b < idx.len() && a != b ==> idx[a] != idx[b],
        idx.len() < limit ==> forall|j: int| 0 <= j < keys.len() && wanted[j] ==> idx.contains(j),
{
    assert forall|a: int, b: int| 0 <= a < idx.len() && 0 <= b < idx.len() && a != b implies idx[a] != idx[b] by {
        if a < b {
            assert(newer(keys, idx[a], idx[b]));
        } else {
            assert(newer(keys, idx[b], idx[a]));
        }
    }
    assert forall|j: int| idx.len() < limit && 0 <= j < keys.len() && wanted[j] implies idx.contains(j) by {
        let k = choose|k: int| 0 <= k < idx.len() && idx[k] == j;
        assert(idx[k] == j);
    }
}

/// The positions listed by a selection of `limit` rows after the first `offset`.
pub open spec fn page_of(idx: Seq<int>, offset: int) -> Seq<int> {
    if offset < idx.len() { idx.skip(offset) } else { Seq::empty() }
}

/// `j` may be chosen after `last`: it is wanted and comes after `last`.
spec fn candidate(keys: Seq<i64>, wanted: Seq<bool>, last: Option<int>, j: int) -> bool {
    &&& 0 <= j < keys.len()
    &&& wanted[j]
    &&& (last matches Some(l) ==> newer(keys, l, j))
}

/// Every wanted row that does not come after the last chosen one is chosen.
spec fn covered(keys: Seq<i64>, wanted: Seq<bool>, idx: Seq<int>) -> bool {
    forall|j: int|
        0 <= j < keys.len() && #[trigger] wanted[j] && idx.len() > 0 && !newer(keys, idx.last(), j) ==> exists|k: int|
            0 <= k < idx.len() && idx[k] == j
}

/// `idx` is newest first and lists wanted rows.
spec fn chosen_ok(keys: Seq<i64>, wanted: Seq<bool>, idx: Seq<int>) -> bool {
    &&& forall|k: int| 0 <= k < idx.len() ==> 0 <= #[trigger] idx[k] < keys.len() && wanted[idx[k]]
    &&& forall|k1: int, k2: int| 0 <= k1 < k2 < idx.len() ==> newer(keys, #[trigger] idx[k1], #[trigger] idx[k2])
}

fn newer_exec(keys: &Vec<i64>, i: usize, j: usize) -> (r: bool)
    requires
        i < keys@.len(),
        j < keys@.len(),
    ensures
        r == newer(keys@, i as int, j as int),
{
    keys[i] > keys[j] || (keys[i] == keys[j] && i > j)
}

/// Positions of the first `skip + limit` rows that `wanted` marks, newest first.
pub fn select_newest(keys: &Vec<i64>, wanted: &Vec<bool>, skip: usize, limit: usize) -> (r: Vec<usize>)
    requires
        keys@.len() == wanted@.len(),
    ensures
        newest_selection(keys@, wanted@, skip + limit, r@.map_values(|v: usize| v as int)),
{
    let ghost bound: int = skip + limit;
    let ghost ks = keys@;
    let ghost ws = wanted@;
    let n = keys.len();
    let mut out: Vec<usize> = Vec::new();
    let mut last: Option<usize> = None;
    let ghost mut idx: Seq<int> = Seq::empty();
    while out.len() < skip || out.len() - skip < limit
        invariant
            bound == skip + limit,
            ks == keys@,
            ws == wanted@,
            n == ks.len(),
            ws.len() == n,
            out@.len() == idx.len(),
            out@.len() <= bound,
            forall|k: int| 0 <= k < idx.len() ==> #[trigger] idx[k] == out@[k] as int,
            chosen_ok(ks, ws, idx),
            covered(ks, ws, idx),
            last is None <==> idx.len() == 0,
            last matches Some(l) ==> l as int == idx.last(),
        decreases bound - out@.len(),
    {
        let ghost glast: Option<int> = match last {
            Some(l) => Some(l as int),
            None => None,
        };
        let mut best: Option<usize> = None;
        let mut j: usize = 0;
        while j < n
            invariant
                ks == keys@,
                ws == wanted@,
                n == ks.len(),
                ws.len() == n,
                j <= n,
                glast == (match last {
                    Some(l) => Some(l as int),
                    None => None::<int>,
                }),
                last matches Some(l) ==> l < n,
                best matches Some(b) ==> b < n && candidate(ks, ws, glast, b as int),
                best matches Some(b) ==> forall|j2: int|
                    0 <= j2 < j && candidate(ks, ws, glast, j2) ==> !newer(ks, j2, b as int),
                best is None ==> forall|j2: int| 0 <= j2 < j ==> !#[trigger] candidate(ks, ws, glast, j2),
            decreases n - j,
        {
            let mut take = wanted[j];
            if take {
                match last {
                    Some(l) => {
                        take = newer_exec(keys, l, j);
                    },
                    None => {},
                }
            }
            if take {
                match best {
                    Some(b) => {
                        if newer_exec(keys, j, b) {
                            proof {
                                assert forall|j2: int| 0 <= j2 < j + 1 && candidate(ks, ws, glast, j2) implies !newer(
                                    ks,
                                    j2,
                                    j as int,
                                ) by {
                                    if j2 < j {
                                        assert(!newer(ks, j2, b as int));
                                    }
                                }
                            }
                            best = Some(j);
                        }
                    },
                    None => {
                        best = Some(j);
                    },
                }
            }
            j = j + 1;
        }
        match best {
            None => {
                proof {
                    assert forall|j2: int| 0 <= j2 < ks.len() && #[trigger] ws[j2] implies (exists|k: int|
                        0 <= k < idx.len() && idx[k] == j2) || (idx.len() == bound && (idx.len() == 0 || newer(
                        ks,
                        idx.last(),
                        j2,
                    ))) by {
                        assert(!candidate(ks, ws, glast, j2));
                    }
                    assert(idx =~= out@.map_values(|v: usize| v as int));
                }
                return out;
            },
            Some(b) => {
                let ghost old_idx = idx;
                out.push(b);
                last = Some(b);
                proof {
                    idx = idx.push(b as int);
                    assert forall|k1: int, k2: int| 0 <= k1 < k2 < idx.len() implies newer(
                        ks,
                        #[trigger] idx[k1],
                        #[trigger] idx[k2],
                    ) by {
                        if k2 == idx.len() - 1 && k1 < k2 - 1 {
                            assert(idx[k1] == old_idx[k1]);
                            assert(newer(ks, old_idx[k1], old_idx.last()));
                        }
                    }
                    assert forall|j2: int|
                        0 <= j2 < ks.len() && #[trigger] ws[j2] && idx.len() > 0 && !newer(ks, idx.last(), j2) implies exists|
                        k: int,
                    | 0 <= k < idx.len() && idx[k] == j2 by {
                        if old_idx.len() > 0 && !newer(ks, old_idx.last(), j2) {
                            let k = choose|k: int| 0 <= k < old_idx.len() && old_idx[k] == j2;
                            assert(idx[k] == j2);
                        } else {
                            assert(candidate(ks, ws, glast, j2));
                            assert(!newer(ks, j2, b as int));
                            assert(idx[idx.len() - 1] == j2);
                        }
                    }
                }
            },
        }
    }
    proof {
        assert(idx =~= out@.map_values(|v: usize| v as int));
        assert forall|j2: int| 0 <= j2 < ks.len() && #[trigger] ws[j2] implies (exists|k: int|
            0 <= k < idx.len() && idx[k] == j2) || (idx.len() == bound && (idx.len() == 0 || newer(ks, idx.last(), j2))) by {
            if idx.len() > 0 && !newer(ks, idx.last(), j2) {
                assert(exists|k: int| 0 <= k < idx.len() && idx[k] == j2);
            }
        }
    }
    out
}

/// The positions of one page: `limit` rows after the first `offset`, newest first.
pub fn select_page(keys: &Vec<i64>, wanted: &Vec<bool>, offset: usize, limit: usize) -> (r: Vec<usize>)
    requires
        keys@.len() == wanted@.len(),
    ensures
        exists|idx: Seq<int>|
            newest_selection(keys@, wanted@, offset + limit, idx) && #[trigger] page_of(idx, offset as int)
                == r@.map_values(|v: usize| v as int),
{
    let all = select_newest(keys, wanted, offset, limit);
    let ghost idx = all@.map_values(|v: usize| v as int);
    let mut out: Vec<usize> = Vec::new();
    let mut k: usize = offset;
    while k < all.len()
        invariant
            offset <= k,
            k <= all@.len() || (k == offset && offset >= all@.len()),
            out@.len() == k - offset,
            idx == all@.map_values(|v: usize| v as int),
            forall|a: int| 0 <= a < out@.len() ==> #[trigger] out@[a] == all@[offset + a],
        decreases all@.len() - k,
    {
        out.push(all[k]);
        k = k + 1;
    }
    proof {
        assert(page_of(idx, offset as int) =~= out@.map_values(|v: usize| v as int));
    }
    out
}

} // verus!
