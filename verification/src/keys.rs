use vstd::prelude::*;
use vstd::std_specs::iter::IteratorSpec;

verus! {

/// The first position at which `key` stands in `keys`, or the length of
/// `keys` if it stands nowhere. A list of pairs that is searched from the
/// front behaves as a map from keys to values; this is where a key is found.
pub open spec fn first_index<K>(keys: Seq<K>, key: K) -> int
    decreases keys.len(),
{
    if keys.len() == 0 {
        0
    } else if keys[0] == key {
        0
    } else {
        1 + first_index(keys.drop_first(), key)
    }
}

/// `first_index` is a position of `key` where there is one, and no earlier
/// position holds `key`.
pub proof fn lemma_first_index<K>(keys: Seq<K>, key: K)
    ensures
        0 <= first_index(keys, key) <= keys.len(),
        first_index(keys, key) < keys.len() ==> keys[first_index(keys, key)] == key,
        forall|j: int| 0 <= j < first_index(keys, key) ==> #[trigger] keys[j] != key,
    decreases keys.len(),
{
    if keys.len() > 0 && keys[0] != key {
        let rest = keys.drop_first();
        lemma_first_index(rest, key);
        assert forall|j: int| 0 <= j < first_index(keys, key) implies #[trigger] keys[j] != key by {
            if j > 0 {
                assert(rest[j - 1] == keys[j]);
            }
        }
    }
}

/// A position of `key` with no earlier one is the first.
pub proof fn lemma_first_index_is<K>(keys: Seq<K>, key: K, i: int)
    requires
        0 <= i <= keys.len(),
        i < keys.len() ==> keys[i] == key,
        forall|j: int| 0 <= j < i ==> #[trigger] keys[j] != key,
    ensures
        first_index(keys, key) == i,
{
    lemma_first_index(keys, key);
}

/// A key put at the end is found there only if it stood nowhere before.
pub proof fn lemma_first_index_push<K>(keys: Seq<K>, last: K, key: K)
    ensures
        first_index(keys.push(last), key) == if first_index(keys, key) < keys.len() {
            first_index(keys, key)
        } else if last == key {
            keys.len() as int
        } else {
            (keys.len() + 1) as int
        },
    decreases keys.len(),
{
    let longer = keys.push(last);
    if keys.len() == 0 {
        assert(longer.drop_first() =~= keys);
    } else {
        assert(longer.drop_first() =~= keys.drop_first().push(last));
        assert(longer[0] == keys[0]);
        if keys[0] != key {
            lemma_first_index_push(keys.drop_first(), last, key);
        }
    }
}

/// Whether two string slices hold the same characters.
pub fn same_text(a: &str, b: &str) -> (res: bool)
    ensures
        res == (a@ == b@),
{
    broadcast use vstd::string::group_string_axioms;

    let mut rest_a = a.chars();
    let mut rest_b = b.chars();
    let ghost mut k: int = 0;
    proof {
        assert(a@.skip(0) =~= a@);
        assert(b@.skip(0) =~= b@);
    }
    loop
        invariant
            0 <= k <= a@.len(),
            k <= b@.len(),
            rest_a.remaining() == a@.skip(k),
            rest_b.remaining() == b@.skip(k),
            forall|j: int| 0 <= j < k ==> a@[j] == b@[j],
        decreases a@.len() - k,
    {
        let next_a = rest_a.next();
        let next_b = rest_b.next();
        match (next_a, next_b) {
            (None, None) => {
                assert(a@ =~= b@);
                return true;
            },
            (Some(x), Some(y)) => {
                if x != y {
                    assert(a@[k] != b@[k]);
                    return false;
                }
                proof {
                    assert(a@.skip(k).drop_first() =~= a@.skip(k + 1));
                    assert(b@.skip(k).drop_first() =~= b@.skip(k + 1));
                    k = k + 1;
                }
            },
            _ => {
                assert(a@.len() != b@.len());
                return false;
            },
        }
    }
}

} // verus!
