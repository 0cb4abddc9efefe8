//! The keyword store: the run-scoped mapping from exact placeholder-token
//! text to its resolved value, with keys unique and temporally ordered by
//! first write.
use crate::text::spec_replace;
use vstd::prelude::*;

verus! {

/// Mapping from token text to resolved value. Keys are unique; the order of
/// the pairs is the order of first insertion, which substitution follows, so
/// replacement is deterministic for a fixed store.
pub struct KeywordStore {
    pairs: Vec<(String, String)>,
}

impl View for KeywordStore {
    type V = Seq<(Seq<char>, Seq<char>)>;

    closed spec fn view(&self) -> Seq<(Seq<char>, Seq<char>)> {
        self.pairs.deep_view()
    }
}

/// Index of `key` among `pairs`, or -1 when absent.
pub open spec fn spec_key_index(pairs: Seq<(Seq<char>, Seq<char>)>, key: Seq<char>) -> int
    decreases pairs.len(),
{
    if pairs.len() == 0 {
        -1
    } else if pairs[0].0 == key {
        0
    } else {
        let r = spec_key_index(pairs.skip(1), key);
        if r < 0 {
            -1
        } else {
            r + 1
        }
    }
}

/// Whether `key` stands in `pairs`.
pub open spec fn spec_has_key(pairs: Seq<(Seq<char>, Seq<char>)>, key: Seq<char>) -> bool {
    spec_key_index(pairs, key) >= 0
}

/// The value stored under `key` (meaningful only when the key is present).
pub open spec fn spec_value_of(pairs: Seq<(Seq<char>, Seq<char>)>, key: Seq<char>) -> Seq<char> {
    pairs[spec_key_index(pairs, key)].1
}

/// What inserting `key -> value` does to the pairs: overwrite in place when
/// the key is present, append otherwise.
pub open spec fn spec_insert(
    pairs: Seq<(Seq<char>, Seq<char>)>,
    key: Seq<char>,
    value: Seq<char>,
) -> Seq<(Seq<char>, Seq<char>)> {
    let i = spec_key_index(pairs, key);
    if i >= 0 {
        pairs.update(i, (key, value))
    } else {
        pairs.push((key, value))
    }
}

/// All keys of `pairs` are distinct.
pub open spec fn spec_keys_unique(pairs: Seq<(Seq<char>, Seq<char>)>) -> bool {
    forall|i: int, j: int|
        0 <= i < j < pairs.len() ==> pairs[i].0 != pairs[j].0
}

proof fn lemma_key_index_in_range(pairs: Seq<(Seq<char>, Seq<char>)>, key: Seq<char>)
    ensures
        -1 <= spec_key_index(pairs, key) < pairs.len(),
        spec_key_index(pairs, key) >= 0 ==> pairs[spec_key_index(pairs, key)].0 == key,
    decreases pairs.len(),
{
    if pairs.len() > 0 && pairs[0].0 != key {
        lemma_key_index_in_range(pairs.skip(1), key);
    }
}

proof fn lemma_key_index_found(pairs: Seq<(Seq<char>, Seq<char>)>, key: Seq<char>, i: int)
    requires
        0 <= i < pairs.len(),
        pairs[i].0 == key,
        forall|j: int| 0 <= j < i ==> pairs[j].0 != key,
    ensures
        spec_key_index(pairs, key) == i,
    decreases i,
{
    if i > 0 {
        lemma_key_index_found(pairs.skip(1), key, i - 1);
    }
}

proof fn lemma_key_index_absent(pairs: Seq<(Seq<char>, Seq<char>)>, key: Seq<char>)
    requires
        forall|j: int| 0 <= j < pairs.len() ==> pairs[j].0 != key,
    ensures
        spec_key_index(pairs, key) == -1,
    decreases pairs.len(),
{
    if pairs.len() > 0 {
        lemma_key_index_absent(pairs.skip(1), key);
    }
}

impl KeywordStore {
    /// Keys are unique.
    pub open spec fn wf(&self) -> bool {
        spec_keys_unique(self@)
    }

    /// An empty store.
    pub fn new() -> (r: KeywordStore)
        ensures
            r@ == Seq::<(Seq<char>, Seq<char>)>::empty(),
            r.wf(),
    {
        let r = KeywordStore { pairs: Vec::new() };
        assert(r@ =~= Seq::<(Seq<char>, Seq<char>)>::empty());
        r
    }

    /// How many keys the store holds.
    pub fn len(&self) -> (n: usize)
        ensures
            n == self@.len(),
    {
        self.pairs.len()
    }

    /// The pair at position `i`, in first-write order.
    pub fn pair_at(&self, i: usize) -> (r: (String, String))
        requires
            i < self@.len(),
        ensures
            r.0@ == self@[i as int].0,
            r.1@ == self@[i as int].1,
    {
        let p = &self.pairs[i];
        (p.0.clone(), p.1.clone())
    }

    /// Index of `key`, if present.
    fn index_of_key(&self, key: &String) -> (r: Option<usize>)
        ensures
            match r {
                Option::Some(i) => spec_key_index(self@, key@) == i as int && i < self@.len(),
                Option::None => spec_key_index(self@, key@) == -1,
            },
    {
        let mut i: usize = 0;
        let n = self.pairs.len();
        while i < n
            invariant
                i <= n,
                n == self@.len(),
                n == self.pairs@.len(),
                forall|j: int| 0 <= j < i ==> self@[j].0 != key@,
            decreases n - i,
        {
            assert(self@[i as int].0 == self.pairs@[i as int].0@);
            if self.pairs[i].0.eq(key) {
                proof {
                    lemma_key_index_found(self@, key@, i as int);
                }
                return Option::Some(i);
            }
            i = i + 1;
        }
        proof {
            lemma_key_index_absent(self@, key@);
        }
        Option::None
    }

    /// Whether the exact token text `key` has a stored value.
    pub fn contains_key(&self, key: &String) -> (b: bool)
        ensures
            b == spec_has_key(self@, key@),
    {
        match self.index_of_key(key) {
            Option::Some(_) => true,
            Option::None => false,
        }
    }

    /// The value stored under `key`, if any.
    pub fn get(&self, key: &String) -> (r: Option<String>)
        ensures
            match r {
                Option::Some(v) => spec_has_key(self@, key@) && v@ == spec_value_of(self@, key@),
                Option::None => !spec_has_key(self@, key@),
            },
    {
        match self.index_of_key(key) {
            Option::Some(i) => Option::Some(self.pairs[i].1.clone()),
            Option::None => Option::None,
        }
    }

    /// Stores `value` under `key`: overwrites in place when the key is
    /// present, appends otherwise, so first-write order is kept.
    pub fn insert(&mut self, key: String, value: String)
        requires
            old(self).wf(),
        ensures
            final(self).wf(),
            final(self)@ == spec_insert(old(self)@, key@, value@),
    {
        let ghost pre = self@;
        match self.index_of_key(&key) {
            Option::Some(i) => {
                proof {
                    lemma_key_index_in_range(pre, key@);
                }
                self.pairs.set(i, (key, value));
                assert(self@ =~= spec_insert(pre, key@, value@));
                assert(self.wf()) by {
                    assert(forall|a: int, b: int|
                        0 <= a < b < self@.len() ==> self@[a].0 != self@[b].0);
                }
            },
            Option::None => {
                self.pairs.push((key, value));
                assert(self@ =~= spec_insert(pre, key@, value@));
                proof {
                    lemma_key_index_in_range(pre, key@);
                    assert forall|a: int, b: int|
                        0 <= a < b < self@.len() implies self@[a].0 != self@[b].0 by {
                        if b == self@.len() - 1 {
                            if self@[a].0 == key@ {
                                lemma_key_index_has(pre, key@, a);
                            }
                        }
                    }
                }
            },
        }
    }
}

proof fn lemma_key_index_has(pairs: Seq<(Seq<char>, Seq<char>)>, key: Seq<char>, i: int)
    requires
        0 <= i < pairs.len(),
        pairs[i].0 == key,
    ensures
        spec_key_index(pairs, key) >= 0,
    decreases i,
{
    if pairs[0].0 != key {
        lemma_key_index_has(pairs.skip(1), key, i - 1);
    }
}

/// Facts every caller of the store needs: the index points at the key, and an
/// insert leaves every other key's value alone.
pub proof fn lemma_store_insert(pairs: Seq<(Seq<char>, Seq<char>)>, key: Seq<char>, value: Seq<char>)
    requires
        spec_keys_unique(pairs),
    ensures
        spec_has_key(spec_insert(pairs, key, value), key),
        spec_value_of(spec_insert(pairs, key, value), key) == value,
        forall|k: Seq<char>|
            k != key ==> spec_has_key(spec_insert(pairs, key, value), k) == spec_has_key(pairs, k),
        forall|k: Seq<char>|
            k != key && spec_has_key(pairs, k) ==> spec_value_of(spec_insert(pairs, key, value), k)
                == spec_value_of(pairs, k),
{
    let post = spec_insert(pairs, key, value);
    lemma_key_index_in_range(pairs, key);
    let i = spec_key_index(pairs, key);
    if i >= 0 {
        lemma_key_index_stable(pairs, post, key);
    } else {
        lemma_key_index_no_entry(pairs, key);
        lemma_key_index_found(post, key, pairs.len() as int);
    }
    assert forall|k: Seq<char>| k != key implies spec_has_key(post, k) == spec_has_key(pairs, k)
        && (spec_has_key(pairs, k) ==> spec_value_of(post, k) == spec_value_of(pairs, k)) by {
        lemma_key_index_other(pairs, key, value, k);
    }
}

proof fn lemma_key_index_stable(
    pairs: Seq<(Seq<char>, Seq<char>)>,
    post: Seq<(Seq<char>, Seq<char>)>,
    key: Seq<char>,
)
    requires
        spec_key_index(pairs, key) >= 0,
        post.len() == pairs.len(),
        forall|j: int| 0 <= j < spec_key_index(pairs, key) ==> post[j].0 == pairs[j].0,
        post[spec_key_index(pairs, key)].0 == key,
        forall|j: int| 0 <= j < spec_key_index(pairs, key) ==> pairs[j].0 != key,
    ensures
        spec_key_index(post, key) == spec_key_index(pairs, key),
{
    lemma_key_index_in_range(pairs, key);
    lemma_key_index_first(pairs, key);
    lemma_key_index_found(post, key, spec_key_index(pairs, key));
}

proof fn lemma_key_index_first(pairs: Seq<(Seq<char>, Seq<char>)>, key: Seq<char>)
    ensures
        forall|j: int| 0 <= j < spec_key_index(pairs, key) ==> pairs[j].0 != key,
    decreases pairs.len(),
{
    if pairs.len() > 0 && pairs[0].0 != key {
        lemma_key_index_in_range(pairs, key);
        lemma_key_index_in_range(pairs.skip(1), key);
        lemma_key_index_first(pairs.skip(1), key);
        assert forall|j: int| 0 <= j < spec_key_index(pairs, key) implies pairs[j].0 != key by {
            if j > 0 {
                assert(0 <= j - 1 < spec_key_index(pairs.skip(1), key));
                assert(pairs.skip(1)[j - 1].0 != key);
            } else {
                assert(pairs[0].0 != key);
            }
        }
    }
}

proof fn lemma_key_index_other(
    pairs: Seq<(Seq<char>, Seq<char>)>,
    key: Seq<char>,
    value: Seq<char>,
    k: Seq<char>,
)
    requires
        spec_keys_unique(pairs),
        k != key,
    ensures
        spec_has_key(spec_insert(pairs, key, value), k) == spec_has_key(pairs, k),
        spec_has_key(pairs, k) ==> spec_value_of(spec_insert(pairs, key, value), k)
            == spec_value_of(pairs, k),
{
    let post = spec_insert(pairs, key, value);
    lemma_key_index_in_range(pairs, key);
    lemma_key_index_in_range(pairs, k);
    lemma_key_index_first(pairs, k);
    let ik = spec_key_index(pairs, k);
    if ik >= 0 {
        // The same entry still stands at the same position afterwards.
        assert(post[ik].0 == k);
        assert forall|j: int| 0 <= j < ik implies post[j].0 != k by {
            if spec_key_index(pairs, key) != j {
                assert(post[j].0 == pairs[j].0);
            }
        }
        lemma_key_index_found(post, k, ik);
    } else {
        lemma_key_index_absent_keep(pairs, key, value, k);
    }
}

proof fn lemma_key_index_absent_keep(
    pairs: Seq<(Seq<char>, Seq<char>)>,
    key: Seq<char>,
    value: Seq<char>,
    k: Seq<char>,
)
    requires
        k != key,
        spec_key_index(pairs, k) == -1,
    ensures
        spec_key_index(spec_insert(pairs, key, value), k) == -1,
{
    let post = spec_insert(pairs, key, value);
    lemma_key_index_in_range(pairs, key);
    lemma_key_index_no_entry(pairs, k);
    assert forall|j: int| 0 <= j < post.len() implies post[j].0 != k by {
        if j < pairs.len() {
            if spec_key_index(pairs, key) != j {
                assert(post[j].0 == pairs[j].0);
            }
        }
    }
    lemma_key_index_absent(post, k);
}

proof fn lemma_key_index_no_entry(pairs: Seq<(Seq<char>, Seq<char>)>, k: Seq<char>)
    requires
        spec_key_index(pairs, k) == -1,
    ensures
        forall|j: int| 0 <= j < pairs.len() ==> pairs[j].0 != k,
    decreases pairs.len(),
{
    if pairs.len() > 0 {
        lemma_key_index_no_entry(pairs.skip(1), k);
        assert forall|j: int| 0 <= j < pairs.len() implies pairs[j].0 != k by {
            if j > 0 {
                assert(pairs.skip(1)[j - 1].0 != k);
            }
        }
    }
}

} // verus!
