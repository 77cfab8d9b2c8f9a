//! A map from names to values that is walked in the order of its names.

use crate::text::{lemma_text_order, pair_texts, same_text, text_less, text_lt};
use vstd::prelude::*;

verus! {

/// Whether the names of `s` stand in strictly ascending order.
pub open spec fn ascending<V>(s: Seq<(Seq<char>, V)>) -> bool {
    forall|i: int, j: int| 0 <= i < j < s.len() ==> text_less(#[trigger] s[i].0, #[trigger] s[j].0)
}

/// Whether some entry of `s` has the name `k`.
pub open spec fn has_name<V>(s: Seq<(Seq<char>, V)>, k: Seq<char>) -> bool {
    exists|i: int| 0 <= i < s.len() && #[trigger] s[i].0 == k
}

/// The position of an entry of `s` with the name `k`.
pub open spec fn place_of<V>(s: Seq<(Seq<char>, V)>, k: Seq<char>) -> int {
    choose|i: int| 0 <= i < s.len() && #[trigger] s[i].0 == k
}

/// The value that `s` holds under the name `k`.
pub open spec fn value_of<V>(s: Seq<(Seq<char>, V)>, k: Seq<char>) -> V {
    s[place_of(s, k)].1
}

/// In an ascending sequence a name stands at one position only.
pub proof fn lemma_one_place<V>(s: Seq<(Seq<char>, V)>, i: int, j: int)
    requires
        ascending(s),
        0 <= i < s.len(),
        0 <= j < s.len(),
        s[i].0 == s[j].0,
    ensures
        i == j,
{
    lemma_text_order(s[i].0, s[j].0, s[i].0);
    if i < j {
        assert(text_less(s[i].0, s[j].0));
    } else if j < i {
        assert(text_less(s[j].0, s[i].0));
    }
}

/// The entry at position `i` of an ascending sequence is the one found
/// under its name.
pub proof fn lemma_found_at<V>(s: Seq<(Seq<char>, V)>, i: int)
    requires
        ascending(s),
        0 <= i < s.len(),
    ensures
        has_name(s, s[i].0),
        place_of(s, s[i].0) == i,
        value_of(s, s[i].0) == s[i].1,
{
    lemma_one_place(s, i, place_of(s, s[i].0));
}

/// Two ascending sequences that hold the same names hold them at the same
/// positions.
pub proof fn lemma_same_names<A, B>(a: Seq<(Seq<char>, A)>, b: Seq<(Seq<char>, B)>)
    requires
        ascending(a),
        ascending(b),
        forall|k: Seq<char>| has_name(a, k) == has_name(b, k),
    ensures
        a.len() == b.len(),
        forall|i: int| 0 <= i < a.len() ==> (#[trigger] a[i]).0 == b[i].0,
    decreases a.len(),
{
    if a.len() == 0 {
        if b.len() > 0 {
            assert(has_name(b, b[0].0));
            let w = choose|i: int| 0 <= i < a.len() && #[trigger] a[i].0 == b[0].0;
        }
    } else if b.len() == 0 {
        assert(has_name(a, a[0].0));
        let w = choose|i: int| 0 <= i < b.len() && #[trigger] b[i].0 == a[0].0;
    } else {
        assert(has_name(a, a[0].0));
        assert(has_name(b, b[0].0));
        let pa = choose|i: int| 0 <= i < a.len() && #[trigger] a[i].0 == b[0].0;
        let pb = choose|i: int| 0 <= i < b.len() && #[trigger] b[i].0 == a[0].0;
        lemma_text_order(a[0].0, b[0].0, a[0].0);
        if pa > 0 {
            assert(text_less(a[0].0, a[pa].0));
        }
        if pb > 0 {
            assert(text_less(b[0].0, b[pb].0));
        }
        assert(a[0].0 == b[0].0);
        let ta = a.skip(1);
        let tb = b.skip(1);
        assert forall|k: Seq<char>| has_name(ta, k) == has_name(tb, k) by {
            if has_name(ta, k) {
                let i = choose|i: int| 0 <= i < ta.len() && #[trigger] ta[i].0 == k;
                assert(a[i + 1].0 == k);
                assert(text_less(a[0].0, a[i + 1].0));
                lemma_text_order(a[0].0, k, k);
                assert(has_name(a, k));
                let j = choose|j: int| 0 <= j < b.len() && #[trigger] b[j].0 == k;
                assert(j > 0);
                assert(tb[j - 1].0 == k);
            }
            if has_name(tb, k) {
                let i = choose|i: int| 0 <= i < tb.len() && #[trigger] tb[i].0 == k;
                assert(b[i + 1].0 == k);
                assert(text_less(b[0].0, b[i + 1].0));
                lemma_text_order(b[0].0, k, k);
                assert(has_name(b, k));
                let j = choose|j: int| 0 <= j < a.len() && #[trigger] a[j].0 == k;
                assert(j > 0);
                assert(ta[j - 1].0 == k);
            }
        }
        assert(ascending(ta)) by {
            assert forall|i: int, j: int| 0 <= i < j < ta.len() implies text_less(
                #[trigger] ta[i].0,
                #[trigger] ta[j].0,
            ) by {
                assert(text_less(a[i + 1].0, a[j + 1].0));
            }
        }
        assert(ascending(tb)) by {
            assert forall|i: int, j: int| 0 <= i < j < tb.len() implies text_less(
                #[trigger] tb[i].0,
                #[trigger] tb[j].0,
            ) by {
                assert(text_less(b[i + 1].0, b[j + 1].0));
            }
        }
        lemma_same_names(ta, tb);
        assert forall|i: int| 0 <= i < a.len() implies (#[trigger] a[i]).0 == b[i].0 by {
            if i > 0 {
                assert(ta[i - 1].0 == tb[i - 1].0);
            }
        }
    }
}

/// A map from names to values, kept in ascending order of its names, each
/// name at most once.
pub struct NameMap<V> {
    entries: Vec<(String, V)>,
}

/// The entries of a map as pairs of a name's characters and a value.
pub closed spec fn pairs_of<V>(e: Seq<(String, V)>) -> Seq<(Seq<char>, V)> {
    Seq::new(e.len(), |i: int| (e[i].0@, e[i].1))
}

impl<V> View for NameMap<V> {
    type V = Seq<(Seq<char>, V)>;

    closed spec fn view(&self) -> Seq<(Seq<char>, V)> {
        pairs_of(self.entries@)
    }
}

impl<V> NameMap<V> {
    /// The names stand in ascending order, each once.
    #[verifier::type_invariant]
    pub open spec fn ordered(&self) -> bool {
        ascending(self@)
    }

    /// Whether the map holds the name `k`.
    pub open spec fn has(&self, k: Seq<char>) -> bool {
        has_name(self@, k)
    }

    /// The value under the name `k`.
    pub open spec fn at(&self, k: Seq<char>) -> V {
        value_of(self@, k)
    }

    /// The empty map.
    pub fn new() -> (m: Self)
        ensures
            m@.len() == 0,
    {
        NameMap { entries: Vec::new() }
    }

    /// The number of names.
    pub fn len(&self) -> (n: usize)
        ensures
            n == self@.len(),
    {
        self.entries.len()
    }

    /// Whether the map holds no name.
    pub fn is_empty(&self) -> (b: bool)
        ensures
            b == (self@.len() == 0),
    {
        self.entries.len() == 0
    }

    /// The name at position `i`.
    pub fn name_at(&self, i: usize) -> (k: &String)
        requires
            i < self@.len(),
        ensures
            k@ == self@[i as int].0,
    {
        &self.entries[i].0
    }

    /// The value at position `i`.
    pub fn value_at(&self, i: usize) -> (v: &V)
        requires
            i < self@.len(),
        ensures
            *v == self@[i as int].1,
    {
        &self.entries[i].1
    }

    /// The first position whose name does not come before `k`.
    fn lower_bound(&self, k: &str) -> (i: usize)
        ensures
            i <= self@.len(),
            forall|j: int| 0 <= j < i ==> text_less(#[trigger] self@[j].0, k@),
            i < self@.len() ==> !text_less(self@[i as int].0, k@),
    {
        let mut i: usize = 0;
        while i < self.entries.len()
            invariant
                i <= self.entries.len(),
                forall|j: int| 0 <= j < i ==> text_less(#[trigger] self@[j].0, k@),
            decreases self.entries.len() - i,
        {
            if !text_lt(self.entries[i].0.as_str(), k) {
                return i;
            }
            i += 1;
        }
        i
    }

    /// The position of the name `k`, if the map holds it.
    pub fn find(&self, k: &str) -> (r: Option<usize>)
        ensures
            r.is_some() == self.has(k@),
            r matches Some(i) ==> i < self@.len() && self@[i as int].0 == k@ && self@[i as int].1
                == self.at(k@),
    {
        proof {
            use_type_invariant(self);
        }
        let i = self.lower_bound(k);
        if i < self.entries.len() && same_text(self.entries[i].0.as_str(), k) {
            proof {
                lemma_found_at(self@, i as int);
            }
            Some(i)
        } else {
            proof {
                if self.has(k@) {
                    let p = place_of(self@, k@);
                    lemma_text_order(k@, k@, k@);
                    if p < i {
                        assert(text_less(self@[p].0, k@));
                    } else if p > i {
                        assert(text_less(self@[i as int].0, self@[p].0));
                    }
                }
            }
            None
        }
    }

    /// Whether the map holds the name `k`.
    pub fn contains_key(&self, k: &str) -> (b: bool)
        ensures
            b == self.has(k@),
    {
        self.find(k).is_some()
    }

    /// The value under the name `k`, if the map holds it.
    pub fn get(&self, k: &str) -> (r: Option<&V>)
        ensures
            r.is_some() == self.has(k@),
            r matches Some(v) ==> *v == self.at(k@),
    {
        match self.find(k) {
            Some(i) => Some(&self.entries[i].1),
            None => None,
        }
    }

    /// Puts `v` under the name `k`, in place of the value that stood there
    /// if the map held the name already.
    pub fn insert(&mut self, k: String, v: V)
        ensures
            final(self).has(k@),
            final(self).at(k@) == v,
            forall|o: Seq<char>|
                #![trigger has_name(final(self)@, o)]
                #![trigger has_name(old(self)@, o)]
                o != k@ ==> has_name(final(self)@, o) == has_name(old(self)@, o),
            forall|o: Seq<char>|
                #![trigger value_of(final(self)@, o)]
                #![trigger value_of(old(self)@, o)]
                o != k@ && has_name(old(self)@, o) ==> value_of(final(self)@, o) == value_of(
                    old(self)@,
                    o,
                ),
            final(self)@.len() == old(self)@.len() + (if old(self).has(k@) { 0int } else { 1int }),
    {
        proof {
            use_type_invariant(&*self);
        }
        let ghost before = self@;
        let i = self.lower_bound(k.as_str());
        if i < self.entries.len() && same_text(self.entries[i].0.as_str(), k.as_str()) {
            let mut held: Vec<(String, V)> = Vec::new();
            core::mem::swap(&mut self.entries, &mut held);
            held.set(i, (k, v));
            proof {
                let after = pairs_of(held@);
                assert(after.len() == before.len());
                assert forall|j: int| 0 <= j < after.len() implies #[trigger] after[j].0
                    == before[j].0 by {}
                assert(ascending(after));
                lemma_found_at(after, i as int);
                lemma_found_at(before, i as int);
                assert forall|o: Seq<char>| o != k@ implies has_name(after, o) == has_name(
                    before,
                    o,
                ) by {
                    if has_name(before, o) {
                        let p = place_of(before, o);
                        assert(after[p].0 == o);
                    }
                    if has_name(after, o) {
                        let p = place_of(after, o);
                        assert(before[p].0 == o);
                    }
                }
                assert forall|o: Seq<char>| o != k@ && has_name(before, o) implies value_of(
                    after,
                    o,
                ) == value_of(before, o) by {
                    let p = place_of(before, o);
                    assert(after[p].0 == o);
                    lemma_found_at(after, p);
                    lemma_found_at(before, p);
                }
            }
            core::mem::swap(&mut self.entries, &mut held);
        } else {
            proof {
                if has_name(before, k@) {
                    let p = place_of(before, k@);
                    lemma_text_order(k@, k@, k@);
                    if p < i {
                        assert(text_less(before[p].0, k@));
                    } else if p > i {
                        assert(text_less(before[i as int].0, before[p].0));
                    }
                }
            }
            let mut held: Vec<(String, V)> = Vec::new();
            core::mem::swap(&mut self.entries, &mut held);
            held.insert(i, (k, v));
            proof {
                let after = pairs_of(held@);
                assert(after.len() == before.len() + 1);
                assert forall|j: int| 0 <= j < i implies #[trigger] after[j] == before[j] by {}
                assert(after[i as int].0 == k@);
                assert forall|j: int| i < j < after.len() implies #[trigger] after[j] == before[j
                    - 1] by {}
                assert forall|j: int| i < j < after.len() implies text_less(
                    k@,
                    #[trigger] after[j].0,
                ) by {
                    let b = before[i as int].0;
                    lemma_text_order(b, k@, after[j].0);
                    lemma_text_order(k@, b, after[j].0);
                    if j - 1 > i {
                        assert(text_less(before[i as int].0, before[j - 1].0));
                    }
                }
                assert forall|x: int, y: int| 0 <= x < y < after.len() implies text_less(
                    #[trigger] after[x].0,
                    #[trigger] after[y].0,
                ) by {
                    if y < i {
                        assert(text_less(before[x].0, before[y].0));
                    } else if y == i {
                        assert(text_less(before[x].0, k@));
                    } else if x < i {
                        assert(text_less(before[x].0, before[y - 1].0));
                    } else if x == i {
                    } else {
                        assert(text_less(before[x - 1].0, before[y - 1].0));
                    }
                }
                lemma_found_at(after, i as int);
                assert forall|o: Seq<char>| o != k@ implies has_name(after, o) == has_name(
                    before,
                    o,
                ) by {
                    if has_name(before, o) {
                        let p = place_of(before, o);
                        if p < i {
                            assert(after[p].0 == o);
                        } else {
                            assert(after[p + 1].0 == o);
                        }
                    }
                    if has_name(after, o) {
                        let p = place_of(after, o);
                        if p < i {
                            assert(before[p].0 == o);
                        } else {
                            assert(before[p - 1].0 == o);
                        }
                    }
                }
                assert forall|o: Seq<char>| o != k@ && has_name(before, o) implies value_of(
                    after,
                    o,
                ) == value_of(before, o) by {
                    let p = place_of(before, o);
                    lemma_found_at(before, p);
                    if p < i {
                        assert(after[p].0 == o);
                        lemma_found_at(after, p);
                    } else {
                        assert(after[p + 1].0 == o);
                        lemma_found_at(after, p + 1);
                    }
                }
            }
            core::mem::swap(&mut self.entries, &mut held);
        }
    }

    /// Takes the name `k` out of the map and hands back the value that stood
    /// under it.
    pub fn remove(&mut self, k: &str) -> (r: Option<V>)
        ensures
            r.is_some() == old(self).has(k@),
            r matches Some(v) ==> v == old(self).at(k@),
            !final(self).has(k@),
            forall|o: Seq<char>|
                #![trigger has_name(final(self)@, o)]
                #![trigger has_name(old(self)@, o)]
                o != k@ ==> has_name(final(self)@, o) == has_name(old(self)@, o),
            forall|o: Seq<char>|
                #![trigger value_of(final(self)@, o)]
                #![trigger value_of(old(self)@, o)]
                o != k@ && has_name(old(self)@, o) ==> value_of(final(self)@, o) == value_of(
                    old(self)@,
                    o,
                ),
            final(self)@.len() == old(self)@.len() - (if old(self).has(k@) { 1int } else { 0int }),
    {
        proof {
            use_type_invariant(&*self);
        }
        let ghost before = self@;
        match self.find(k) {
            None => None,
            Some(i) => {
                let mut held: Vec<(String, V)> = Vec::new();
                core::mem::swap(&mut self.entries, &mut held);
                let gone = held.remove(i);
                proof {
                    let after = pairs_of(held@);
                    assert forall|j: int| 0 <= j < i implies #[trigger] after[j] == before[j] by {}
                    assert forall|j: int| i <= j < after.len() implies #[trigger] after[j]
                        == before[j + 1] by {}
                    assert forall|x: int, y: int| 0 <= x < y < after.len() implies text_less(
                        #[trigger] after[x].0,
                        #[trigger] after[y].0,
                    ) by {
                        let bx = if x < i { x } else { x + 1 };
                        let by = if y < i { y } else { y + 1 };
                        assert(text_less(before[bx].0, before[by].0));
                    }
                    if has_name(after, k@) {
                        let p = place_of(after, k@);
                        let bp = if p < i { p } else { p + 1 };
                        lemma_one_place(before, bp, i as int);
                    }
                    assert forall|o: Seq<char>| o != k@ implies has_name(after, o) == has_name(
                        before,
                        o,
                    ) by {
                        if has_name(before, o) {
                            let p = place_of(before, o);
                            if p < i {
                                assert(after[p].0 == o);
                            } else {
                                assert(after[p - 1].0 == o);
                            }
                        }
                        if has_name(after, o) {
                            let p = place_of(after, o);
                            if p < i {
                                assert(before[p].0 == o);
                            } else {
                                assert(before[p + 1].0 == o);
                            }
                        }
                    }
                    assert forall|o: Seq<char>| o != k@ && has_name(before, o) implies value_of(
                        after,
                        o,
                    ) == value_of(before, o) by {
                        let p = place_of(before, o);
                        lemma_found_at(before, p);
                        if p < i {
                            assert(after[p].0 == o);
                            lemma_found_at(after, p);
                        } else {
                            assert(after[p - 1].0 == o);
                            lemma_found_at(after, p - 1);
                        }
                    }
                }
                core::mem::swap(&mut self.entries, &mut held);
                Some(gone.1)
            },
        }
    }
}

/// The entries of a map of strings as pairs of texts.
pub open spec fn text_pairs(s: Seq<(Seq<char>, String)>) -> Seq<(Seq<char>, Seq<char>)> {
    Seq::new(s.len(), |i: int| (s[i].0, s[i].1@))
}

impl NameMap<String> {
    /// A map with the same names and the same texts under them.
    pub fn duplicate(&self) -> (m: Self)
        ensures
            m@ == self@,
    {
        proof {
            use_type_invariant(self);
        }
        let mut copy: Vec<(String, String)> = Vec::new();
        let mut i: usize = 0;
        while i < self.entries.len()
            invariant
                i <= self.entries.len(),
                copy.len() == i,
                pairs_of(copy@) == pairs_of(self.entries@).take(i as int),
            decreases self.entries.len() - i,
        {
            let k = self.entries[i].0.clone();
            let v = self.entries[i].1.clone();
            let ghost before = copy@;
            copy.push((k, v));
            proof {
                let a = pairs_of(copy@);
                let b = pairs_of(self.entries@).take(i + 1);
                assert(a.len() == b.len());
                assert forall|j: int| 0 <= j < a.len() implies a[j] == b[j] by {
                    if j < i {
                        assert(pairs_of(before)[j] == pairs_of(self.entries@).take(i as int)[j]);
                    }
                }
                assert(a =~= b);
            }
            i += 1;
        }
        assert(pairs_of(self.entries@).take(self.entries.len() as int) =~= pairs_of(self.entries@));
        NameMap { entries: copy }
    }

    /// The entries of the map as a list, in the order of their names.
    pub fn pairs(&self) -> (list: Vec<(String, String)>)
        ensures
            pair_texts(list@) == text_pairs(self@),
    {
        let mut list: Vec<(String, String)> = Vec::new();
        let mut i: usize = 0;
        while i < self.entries.len()
            invariant
                i <= self.entries.len(),
                list.len() == i,
                pair_texts(list@) == text_pairs(self@).take(i as int),
            decreases self.entries.len() - i,
        {
            let k = self.entries[i].0.clone();
            let v = self.entries[i].1.clone();
            list.push((k, v));
            assert(pair_texts(list@) =~= text_pairs(self@).take(i + 1));
            i += 1;
        }
        assert(text_pairs(self@).take(self.entries.len() as int) =~= text_pairs(self@));
        list
    }
}

} // verus!
