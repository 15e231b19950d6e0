//! The template context: a finite map from variable names to values.

use vstd::prelude::*;

verus! {

/// Whether `pairs` holds the key `key`.
pub open spec fn has_key(pairs: Seq<(Seq<char>, Seq<char>)>, key: Seq<char>) -> bool {
    exists|i: int| 0 <= i < pairs.len() && (#[trigger] pairs[i]).0 == key
}

/// An index at which `pairs` holds the key `key`.
pub open spec fn key_index(pairs: Seq<(Seq<char>, Seq<char>)>, key: Seq<char>) -> int {
    choose|i: int| 0 <= i < pairs.len() && (#[trigger] pairs[i]).0 == key
}

/// Whether no key occurs twice in `pairs`.
pub open spec fn keys_unique(pairs: Seq<(Seq<char>, Seq<char>)>) -> bool {
    forall|i: int, j: int|
        0 <= i < j < pairs.len() ==> (#[trigger] pairs[i]).0 != (#[trigger] pairs[j]).0
}

/// The map that the pairs `pairs` stand for.
pub open spec fn map_of(pairs: Seq<(Seq<char>, Seq<char>)>) -> Map<Seq<char>, Seq<char>> {
    Map::new(|key: Seq<char>| has_key(pairs, key), |key: Seq<char>| pairs[key_index(pairs, key)].1)
}

/// `base` with the first `n` of the pairs `pairs` written over it in
/// order, so that a later pair wins over an earlier one and over `base`.
pub open spec fn overlay(
    base: Map<Seq<char>, Seq<char>>,
    pairs: Seq<(Seq<char>, Seq<char>)>,
    n: int,
) -> Map<Seq<char>, Seq<char>>
    decreases n,
{
    if n <= 0 {
        base
    } else {
        overlay(base, pairs, n - 1).insert(pairs[n - 1].0, pairs[n - 1].1)
    }
}

/// `base` with all of `pairs` written over it.
pub open spec fn overlay_all(base: Map<Seq<char>, Seq<char>>, pairs: Seq<(Seq<char>, Seq<char>)>) -> Map<
    Seq<char>,
    Seq<char>,
> {
    overlay(base, pairs, pairs.len() as int)
}

/// In an overlay, the pair at index `i` decides the value of its key
/// unless a later pair has the same key.
pub proof fn lemma_overlay_last_wins(
    base: Map<Seq<char>, Seq<char>>,
    pairs: Seq<(Seq<char>, Seq<char>)>,
    n: int,
    i: int,
)
    requires
        0 <= i < n <= pairs.len(),
        forall|j: int| i < j < n ==> (#[trigger] pairs[j]).0 != pairs[i].0,
    ensures
        overlay(base, pairs, n).contains_key(pairs[i].0),
        overlay(base, pairs, n)[pairs[i].0] == pairs[i].1,
    decreases n,
{
    if i < n - 1 {
        lemma_overlay_last_wins(base, pairs, n - 1, i);
    }
}

/// An overlay leaves every key alone that none of its pairs has.
pub proof fn lemma_overlay_keeps_others(
    base: Map<Seq<char>, Seq<char>>,
    pairs: Seq<(Seq<char>, Seq<char>)>,
    n: int,
    key: Seq<char>,
)
    requires
        0 <= n <= pairs.len(),
        forall|j: int| 0 <= j < n ==> (#[trigger] pairs[j]).0 != key,
    ensures
        overlay(base, pairs, n).contains_key(key) == base.contains_key(key),
        base.contains_key(key) ==> overlay(base, pairs, n)[key] == base[key],
    decreases n,
{
    if n > 0 {
        lemma_overlay_keeps_others(base, pairs, n - 1, key);
    }
}

/// Pairs with unique keys stand for a map of as many entries.
pub proof fn lemma_map_of_len(pairs: Seq<(Seq<char>, Seq<char>)>)
    requires
        keys_unique(pairs),
    ensures
        map_of(pairs).dom().finite(),
        map_of(pairs).dom().len() == pairs.len(),
    decreases pairs.len(),
{
    if pairs.len() == 0 {
        assert(map_of(pairs).dom() =~= Set::<Seq<char>>::empty());
    } else {
        let init = pairs.drop_last();
        let last = pairs.last().0;
        lemma_map_of_len(init);
        assert forall|key: Seq<char>| has_key(pairs, key) == (has_key(init, key) || key
            == last) by {
            if has_key(init, key) {
                let i = key_index(init, key);
                assert(pairs[i].0 == key);
            }
            if key == last {
                assert(pairs[pairs.len() - 1].0 == key);
            }
            if has_key(pairs, key) {
                let i = key_index(pairs, key);
                if i < init.len() {
                    assert(init[i].0 == key);
                }
            }
        }
        assert(!has_key(init, last)) by {
            if has_key(init, last) {
                let i = key_index(init, last);
                assert(pairs[i].0 == pairs[pairs.len() - 1].0);
            }
        }
        assert(map_of(pairs).dom() =~= map_of(init).dom().insert(last));
    }
}

/// The variables that templates are rendered against.
#[derive(Debug)]
pub struct Context {
    pairs: Vec<(String, String)>,
}

impl View for Context {
    type V = Map<Seq<char>, Seq<char>>;

    closed spec fn view(&self) -> Map<Seq<char>, Seq<char>> {
        map_of(self.pairs.deep_view())
    }
}

impl Context {
    #[verifier::type_invariant]
    spec fn wf(&self) -> bool {
        keys_unique(self.pairs.deep_view())
    }

    /// The context without any variable.
    pub fn new() -> (c: Context)
        ensures
            c@ == Map::<Seq<char>, Seq<char>>::empty(),
    {
        let c = Context { pairs: Vec::new() };
        assert(c@ =~= Map::<Seq<char>, Seq<char>>::empty());
        c
    }

    fn position(&self, key: &str) -> (r: Option<usize>)
        ensures
            match r {
                Some(i) => i < self.pairs.len() && self.pairs.deep_view()[i as int].0 == key@,
                None => !has_key(self.pairs.deep_view(), key@),
            },
    {
        let mut i: usize = 0;
        while i < self.pairs.len()
            invariant
                i <= self.pairs.len(),
                forall|j: int| 0 <= j < i ==> (#[trigger] self.pairs.deep_view()[j]).0 != key@,
            decreases self.pairs.len() - i,
        {
            if crate::text::str_eq(self.pairs[i].0.as_str(), key) {
                return Some(i);
            }
            i = i + 1;
        }
        None
    }

    /// The value of the variable `key`, if the context has it.
    pub fn get(&self, key: &str) -> (value: Option<&String>)
        ensures
            match value {
                Some(v) => self@.contains_key(key@) && self@[key@] == v@,
                None => !self@.contains_key(key@),
            },
    {
        proof {
            use_type_invariant(self);
        }
        match self.position(key) {
            Some(i) => {
                let ghost pairs = self.pairs.deep_view();
                assert(has_key(pairs, key@));
                assert(key_index(pairs, key@) == i);
                Some(&self.pairs[i].1)
            },
            None => None,
        }
    }

    /// Whether the context has the variable `key`.
    pub fn contains_key(&self, key: &str) -> (b: bool)
        ensures
            b == self@.contains_key(key@),
    {
        self.position(key).is_some()
    }

    /// The variables as pairs of name and value, each name once.
    pub fn entries(&self) -> (pairs: &Vec<(String, String)>)
        ensures
            keys_unique(pairs.deep_view()),
            map_of(pairs.deep_view()) == self@,
    {
        proof {
            use_type_invariant(self);
        }
        &self.pairs
    }

    /// How many variables the context has.
    pub fn len(&self) -> (n: usize)
        ensures
            self@.dom().finite(),
            n == self@.dom().len(),
    {
        proof {
            use_type_invariant(self);
            lemma_map_of_len(self.pairs.deep_view());
        }
        self.pairs.len()
    }

    /// Sets the variable `key` to `value`, whether or not it was set.
    pub fn insert(&mut self, key: String, value: String)
        ensures
            final(self)@ == old(self)@.insert(key@, value@),
    {
        proof {
            use_type_invariant(&*self);
        }
        let ghost before = self.pairs.deep_view();
        let found = self.position(key.as_str());
        let mut taken = Context { pairs: Vec::new() };
        core::mem::swap(self, &mut taken);
        let mut pairs = taken.pairs;
        match found {
            Some(i) => {
                pairs.set(i, (key, value));
                let ghost after = pairs.deep_view();
                assert(after =~= before.update(i as int, (key@, value@)));
                assert(keys_unique(after));
                assert forall|k: Seq<char>| has_key(after, k) == (has_key(before, k) || k
                    == key@) by {
                    if has_key(before, k) {
                        let j = key_index(before, k);
                        assert(after[j].0 == k);
                    }
                    if has_key(after, k) {
                        let j = key_index(after, k);
                        assert(before[j].0 == k || k == key@);
                    }
                }
                assert forall|k: Seq<char>| has_key(after, k) implies #[trigger] map_of(after)[k]
                    == map_of(before).insert(key@, value@)[k] by {
                    let j = key_index(after, k);
                    if k == key@ {
                        assert(j == i);
                    } else {
                        assert(before[j].0 == k);
                        assert(key_index(before, k) == j);
                    }
                }
                assert(map_of(after) =~= map_of(before).insert(key@, value@));
            },
            None => {
                pairs.push((key, value));
                let ghost after = pairs.deep_view();
                assert(after =~= before.push((key@, value@)));
                assert(keys_unique(after));
                assert forall|k: Seq<char>| has_key(after, k) == (has_key(before, k) || k
                    == key@) by {
                    if has_key(before, k) {
                        let j = key_index(before, k);
                        assert(after[j].0 == k);
                    }
                    if k == key@ {
                        assert(after[before.len() as int].0 == k);
                    }
                    if has_key(after, k) {
                        let j = key_index(after, k);
                        if j < before.len() {
                            assert(before[j].0 == k);
                        }
                    }
                }
                assert forall|k: Seq<char>| has_key(after, k) implies #[trigger] map_of(after)[k]
                    == map_of(before).insert(key@, value@)[k] by {
                    let j = key_index(after, k);
                    if k == key@ {
                        assert(j == before.len());
                    } else {
                        assert(before[j].0 == k);
                        assert(key_index(before, k) == j);
                    }
                }
                assert(map_of(after) =~= map_of(before).insert(key@, value@));
            },
        }
        *self = Context { pairs };
    }

    /// Writes `pairs` over the context in order: a later pair wins over an
    /// earlier one, and over what the context held.
    pub fn extend(&mut self, pairs: &Vec<(String, String)>)
        ensures
            final(self)@ == overlay_all(old(self)@, pairs.deep_view()),
    {
        let mut k: usize = 0;
        while k < pairs.len()
            invariant
                k <= pairs.len(),
                self@ == overlay(old(self)@, pairs.deep_view(), k as int),
            decreases pairs.len() - k,
        {
            self.insert(pairs[k].0.clone(), pairs[k].1.clone());
            k = k + 1;
        }
    }
}

} // verus!
