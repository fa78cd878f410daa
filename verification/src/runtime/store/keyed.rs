//! Rows found by a string key, in tables whose keys are unique.
use crate::text::str_eq;
use vstd::prelude::*;

verus! {

/// A row with a string key.
pub trait Keyed {
    spec fn key(&self) -> Seq<char>;

    fn key_str(&self) -> (r: &str)
        ensures
            r@ == self.key(),
    ;
}

/// No two rows share a key.
pub open spec fn keys_unique<T: Keyed>(s: Seq<T>) -> bool {
    forall|i: int, j: int|
        0 <= i < s.len() && 0 <= j < s.len() && #[trigger] s[i].key() == #[trigger] s[j].key() ==> i == j
}

/// Some row has key `k`.
pub open spec fn has_key<T: Keyed>(s: Seq<T>, k: Seq<char>) -> bool {
    exists|i: int| 0 <= i < s.len() && #[trigger] s[i].key() == k
}

/// Position of the row with key `k`, or -1 when there is none.
pub open spec fn key_pos<T: Keyed>(s: Seq<T>, k: Seq<char>) -> int {
    if has_key(s, k) {
        choose|i: int| 0 <= i < s.len() && #[trigger] s[i].key() == k
    } else {
        -1
    }
}

/// In a table with unique keys, a row is found at its own position.
pub proof fn lemma_key_pos<T: Keyed>(s: Seq<T>, i: int)
    requires
        keys_unique(s),
        0 <= i < s.len(),
    ensures
        key_pos(s, s[i].key()) == i,
{
    let k = s[i].key();
    assert(has_key(s, k));
    let j = choose|j: int| 0 <= j < s.len() && #[trigger] s[j].key() == k;
    assert(s[j].key() == s[i].key());
}

/// A found position holds a row with the key.
pub proof fn lemma_key_pos_range<T: Keyed>(s: Seq<T>, k: Seq<char>)
    ensures
        -1 <= key_pos(s, k) < s.len(),
        key_pos(s, k) >= 0 ==> s[key_pos(s, k)].key() == k,
        key_pos(s, k) < 0 <==> !has_key(s, k),
{
}

/// Replacing a row by one with the same key keeps keys unique and positions unchanged.
pub proof fn lemma_key_update<T: Keyed>(s: Seq<T>, i: int, x: T)
    requires
        keys_unique(s),
        0 <= i < s.len(),
        x.key() == s[i].key(),
    ensures
        keys_unique(s.update(i, x)),
        forall|k: Seq<char>| #[trigger] key_pos(s.update(i, x), k) == key_pos(s, k),
{
    let t = s.update(i, x);
    assert forall|a: int| 0 <= a < s.len() implies #[trigger] t[a].key() == s[a].key() by {}
    assert forall|k: Seq<char>| #[trigger] key_pos(t, k) == key_pos(s, k) by {
        if has_key(s, k) {
            let a = key_pos(s, k);
            assert(t[a].key() == k);
            assert(has_key(t, k));
            lemma_key_pos(s, a);
            lemma_key_pos(t, a);
        } else {
            if has_key(t, k) {
                let a = choose|a: int| 0 <= a < t.len() && #[trigger] t[a].key() == k;
                assert(s[a].key() == k);
            }
        }
    }
}

/// Appending a row with a new key keeps keys unique and puts it last.
pub proof fn lemma_key_push<T: Keyed>(s: Seq<T>, x: T)
    requires
        keys_unique(s),
        !has_key(s, x.key()),
    ensures
        keys_unique(s.push(x)),
        key_pos(s.push(x), x.key()) == s.len(),
        forall|k: Seq<char>| k != x.key() ==> #[trigger] key_pos(s.push(x), k) == key_pos(s, k),
{
    let t = s.push(x);
    assert forall|a: int, b: int|
        0 <= a < t.len() && 0 <= b < t.len() && #[trigger] t[a].key() == #[trigger] t[b].key() implies a == b by {
        if a < s.len() && b == s.len() {
            assert(s[a].key() == x.key());
        }
        if b < s.len() && a == s.len() {
            assert(s[b].key() == x.key());
        }
    }
    lemma_key_pos(t, s.len() as int);
    assert forall|k: Seq<char>| k != x.key() implies #[trigger] key_pos(t, k) == key_pos(s, k) by {
        if has_key(s, k) {
            let a = key_pos(s, k);
            assert(t[a] == s[a]);
            lemma_key_pos(t, a);
        } else if has_key(t, k) {
            let a = choose|a: int| 0 <= a < t.len() && #[trigger] t[a].key() == k;
            assert(a < s.len());
            assert(s[a].key() == k);
        }
    }
}

/// Removing a row keeps the other keys unique.
pub proof fn lemma_key_remove<T: Keyed>(s: Seq<T>, i: int)
    requires
        keys_unique(s),
        0 <= i < s.len(),
    ensures
        keys_unique(s.remove(i)),
        !has_key(s.remove(i), s[i].key()),
        forall|k: Seq<char>| k != s[i].key() ==> (#[trigger] has_key(s.remove(i), k) <==> has_key(s, k)),
{
    let t = s.remove(i);
    assert forall|a: int| 0 <= a < t.len() implies #[trigger] t[a] == (if a < i { s[a] } else { s[a + 1] }) by {}
    assert forall|a: int, b: int|
        0 <= a < t.len() && 0 <= b < t.len() && #[trigger] t[a].key() == #[trigger] t[b].key() implies a == b by {
        let sa = if a < i { a } else { a + 1 };
        let sb = if b < i { b } else { b + 1 };
        assert(s[sa].key() == s[sb].key());
    }
    if has_key(t, s[i].key()) {
        let a = choose|a: int| 0 <= a < t.len() && #[trigger] t[a].key() == s[i].key();
        let sa = if a < i { a } else { a + 1 };
        assert(s[sa].key() == s[i].key());
    }
    assert forall|k: Seq<char>| k != s[i].key() implies (#[trigger] has_key(t, k) <==> has_key(s, k)) by {
        if has_key(s, k) {
            let a = choose|a: int| 0 <= a < s.len() && #[trigger] s[a].key() == k;
            let ta = if a < i { a } else { a - 1 };
            assert(t[ta].key() == k);
        }
        if has_key(t, k) {
            let a = choose|a: int| 0 <= a < t.len() && #[trigger] t[a].key() == k;
            let sa = if a < i { a } else { a + 1 };
            assert(s[sa].key() == k);
        }
    }
}

/// Finds the row with key `k`.
pub fn find_key<T: Keyed>(v: &Vec<T>, k: &str) -> (r: Option<usize>)
    requires
        keys_unique(v@),
    ensures
        match r {
            Some(i) => i < v@.len() && i as int == key_pos(v@, k@) && v@[i as int].key() == k@,
            None => key_pos(v@, k@) == -1 && !has_key(v@, k@),
        },
{
    let mut i: usize = 0;
    while i < v.len()
        invariant
            i <= v@.len(),
            keys_unique(v@),
            forall|a: int| 0 <= a < i ==> #[trigger] v@[a].key() != k@,
        decreases v@.len() - i,
    {
        if str_eq(v[i].key_str(), k) {
            proof {
                lemma_key_pos(v@, i as int);
            }
            return Some(i);
        }
        i = i + 1;
    }
    None
}

} // verus!
