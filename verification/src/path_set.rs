//! Ordered sets of image paths.
//!
//! A `PathSet` holds each path once and keeps its paths in the order of
//! `text_before`, so that what it hands out does not depend on the order in
//! which the paths came in.

use crate::text::compare;
use crate::text::lemma_text_before_asymmetric;
use crate::text::lemma_text_before_irreflexive;
use crate::text::lemma_text_before_transitive;
use crate::text::text_before;
use crate::text::Rank;
use vstd::prelude::*;

verus! {

/// Every path of `paths` sorts strictly before the ones that follow it.
pub open spec fn strictly_ordered(paths: Seq<Seq<char>>) -> bool {
    forall|i: int, j: int|
        0 <= i < j < paths.len() ==> text_before(#[trigger] paths[i], #[trigger] paths[j])
}

/// The strings of `items` as sequences of characters.
pub open spec fn texts(items: Seq<String>) -> Seq<Seq<char>> {
    Seq::new(items.len(), |i: int| items[i]@)
}

/// A set of paths, kept in order.
#[derive(Debug)]
pub struct PathSet {
    items: Vec<String>,
}

impl View for PathSet {
    type V = Set<Seq<char>>;

    /// The paths that the set holds.
    closed spec fn view(&self) -> Set<Seq<char>> {
        self.paths().to_set()
    }
}

/// A strictly ordered sequence holds no path twice.
pub proof fn lemma_ordered_no_duplicates(paths: Seq<Seq<char>>)
    requires
        strictly_ordered(paths),
    ensures
        paths.no_duplicates(),
{
    assert forall|i: int, j: int| 0 <= i < paths.len() && 0 <= j < paths.len() && i != j implies
        paths[i] != paths[j] by {
        lemma_text_before_irreflexive(paths[i]);
        if i < j {
            assert(text_before(paths[i], paths[j]));
        } else {
            assert(text_before(paths[j], paths[i]));
        }
    }
}

/// Two strictly ordered sequences that hold the same paths are the same
/// sequence: the order of a set is fixed by what it holds.
pub proof fn lemma_order_is_canonical(s: Seq<Seq<char>>, t: Seq<Seq<char>>)
    requires
        strictly_ordered(s),
        strictly_ordered(t),
        s.to_set() == t.to_set(),
    ensures
        s == t,
    decreases s.len(),
{
    if s.len() == 0 {
        if t.len() > 0 {
            assert(t.contains(t[0]));
            assert(t.to_set().contains(t[0]));
            assert(s.contains(t[0]));
        }
        assert(s =~= t);
    } else {
        let a = s.last();
        assert(s.contains(a));
        assert(s.to_set().contains(a));
        assert(t.contains(a));
        let j = choose|j: int| 0 <= j < t.len() && t[j] == a;
        let b = t.last();
        assert(t.contains(b));
        assert(t.to_set().contains(b));
        assert(s.contains(b));
        let i = choose|i: int| 0 <= i < s.len() && s[i] == b;
        if j < t.len() - 1 {
            assert(text_before(t[j], t[t.len() - 1]));
            if i < s.len() - 1 {
                assert(text_before(s[i], s[s.len() - 1]));
                lemma_text_before_asymmetric(a, b);
            } else {
                lemma_text_before_irreflexive(a);
            }
        }
        assert(a == b);
        let s0 = s.drop_last();
        let t0 = t.drop_last();
        assert(strictly_ordered(s0)) by {
            assert forall|x: int, y: int| 0 <= x < y < s0.len() implies text_before(
                #[trigger] s0[x],
                #[trigger] s0[y],
            ) by {
                assert(s0[x] == s[x] && s0[y] == s[y]);
            }
        }
        assert(strictly_ordered(t0)) by {
            assert forall|x: int, y: int| 0 <= x < y < t0.len() implies text_before(
                #[trigger] t0[x],
                #[trigger] t0[y],
            ) by {
                assert(t0[x] == t[x] && t0[y] == t[y]);
            }
        }
        assert forall|p: Seq<char>| s0.to_set().contains(p) <==> t0.to_set().contains(p) by {
            lemma_text_before_irreflexive(a);
            if s0.contains(p) {
                let x = choose|x: int| 0 <= x < s0.len() && s0[x] == p;
                assert(s[x] == p);
                assert(text_before(s[x], s[s.len() - 1]));
                assert(s.contains(p));
                assert(s.to_set().contains(p));
                assert(t.contains(p));
                let y = choose|y: int| 0 <= y < t.len() && t[y] == p;
                assert(y < t.len() - 1);
                assert(t0[y] == p);
            }
            if t0.contains(p) {
                let y = choose|y: int| 0 <= y < t0.len() && t0[y] == p;
                assert(t[y] == p);
                assert(text_before(t[y], t[t.len() - 1]));
                assert(t.contains(p));
                assert(t.to_set().contains(p));
                assert(s.contains(p));
                let x = choose|x: int| 0 <= x < s.len() && s[x] == p;
                assert(x < s.len() - 1);
                assert(s0[x] == p);
            }
        }
        assert(s0.to_set() =~= t0.to_set());
        lemma_order_is_canonical(s0, t0);
        assert(s =~= s0.push(a));
        assert(t =~= t0.push(b));
    }
}

/// The paths of a finite set in order: the one strictly ordered sequence
/// that holds exactly the paths of the set.
pub open spec fn ordered_paths(set: Set<Seq<char>>) -> Seq<Seq<char>> {
    choose|paths: Seq<Seq<char>>| strictly_ordered(paths) && paths.to_set() == set
}

/// A strictly ordered sequence is the order of the set of its paths.
pub proof fn lemma_ordered_paths(paths: Seq<Seq<char>>)
    requires
        strictly_ordered(paths),
    ensures
        ordered_paths(paths.to_set()) == paths,
{
    let chosen = ordered_paths(paths.to_set());
    assert(strictly_ordered(chosen) && chosen.to_set() == paths.to_set());
    lemma_order_is_canonical(chosen, paths);
}

impl PathSet {
    /// The paths of the set, in order.
    pub closed spec fn paths(&self) -> Seq<Seq<char>> {
        texts(self.items@)
    }

    /// The paths are strictly ordered. Every set that the library hands out
    /// is well formed.
    #[verifier::type_invariant]
    pub closed spec fn wf(&self) -> bool {
        strictly_ordered(self.paths())
    }

    /// A path is in the set exactly if it stands in the sequence of its
    /// paths.
    pub proof fn lemma_view_is_paths(&self)
        ensures
            self@ == self.paths().to_set(),
            forall|p: Seq<char>| self@.contains(p) <==> self.paths().contains(p),
            self@.finite(),
    {
        vstd::seq_lib::seq_to_set_is_finite(self.paths());
    }

    /// The sequence of a well-formed set is fixed by the paths that it
    /// holds: two sets with the same paths hand them out in the same order.
    pub proof fn lemma_paths_are_ordered(&self)
        requires
            self.wf(),
        ensures
            self.paths() == ordered_paths(self@),
    {
        lemma_ordered_paths(self.paths());
    }

    /// A well-formed set holds as many paths as its sequence is long.
    pub proof fn lemma_len(&self)
        requires
            self.wf(),
        ensures
            self@.len() == self.paths().len(),
            self.paths().no_duplicates(),
    {
        lemma_ordered_no_duplicates(self.paths());
        self.paths().unique_seq_to_set();
    }

    /// The empty set.
    pub fn new() -> (set: PathSet)
        ensures
            set@ == Set::<Seq<char>>::empty(),
            set.paths() == Seq::<Seq<char>>::empty(),
            set.wf(),
    {
        let set = PathSet { items: Vec::new() };
        assert(set.paths() =~= Seq::<Seq<char>>::empty());
        assert(set@ =~= Set::<Seq<char>>::empty());
        set
    }

    /// The number of paths in the set.
    pub fn len(&self) -> (n: usize)
        ensures
            n == self.paths().len(),
            n == self@.len(),
    {
        proof {
            use_type_invariant(self);
            self.lemma_len();
        }
        self.items.len()
    }

    /// Whether the set holds no path.
    pub fn is_empty(&self) -> (empty: bool)
        ensures
            empty == (self@ == Set::<Seq<char>>::empty()),
            empty == (self.paths().len() == 0),
    {
        proof {
            use_type_invariant(self);
            self.lemma_len();
            self.lemma_view_is_paths();
            if self.paths().len() == 0 {
                assert(self@ =~= Set::<Seq<char>>::empty());
            }
        }
        self.items.len() == 0
    }

    /// The path at place `index` of the order, if the set holds that many
    /// paths.
    pub fn get(&self, index: usize) -> (path: Option<&String>)
        ensures
            match path {
                Some(p) => index < self.paths().len() && p@ == self.paths()[index as int],
                None => index >= self.paths().len(),
            },
    {
        if index < self.items.len() {
            Some(&self.items[index])
        } else {
            None
        }
    }

    /// Where `path` stands in the order, or would stand: the number of paths
    /// of the set that sort before it, and whether the set holds it.
    fn position(&self, path: &str) -> (found: (usize, bool))
        ensures
            found.0 <= self.paths().len(),
            forall|i: int| 0 <= i < found.0 ==> text_before(#[trigger] self.paths()[i], path@),
            forall|i: int|
                found.0 + (if found.1 {
                    1int
                } else {
                    0int
                }) <= i < self.paths().len() ==> text_before(path@, #[trigger] self.paths()[i]),
            found.1 ==> found.0 < self.paths().len() && self.paths()[found.0 as int] == path@,
            found.1 == self@.contains(path@),
    {
        proof {
            use_type_invariant(self);
        }
        let mut lo: usize = 0;
        let mut hi: usize = self.items.len();
        while lo < hi
            invariant
                lo <= hi <= self.items.len(),
                self.paths().len() == self.items.len(),
                strictly_ordered(self.paths()),
                forall|i: int| 0 <= i < lo ==> text_before(#[trigger] self.paths()[i], path@),
                forall|i: int|
                    hi <= i < self.paths().len() ==> text_before(path@, #[trigger] self.paths()[i]),
            decreases hi - lo,
        {
            let mid: usize = lo + (hi - lo) / 2;
            assert(self.paths()[mid as int] == self.items@[mid as int]@);
            match compare(self.items[mid].as_str(), path) {
                Rank::Same => {
                    proof {
                        assert forall|i: int| 0 <= i < mid implies text_before(
                            #[trigger] self.paths()[i],
                            path@,
                        ) by {
                            assert(text_before(self.paths()[i], self.paths()[mid as int]));
                        }
                        assert forall|i: int| mid < i < self.paths().len() implies text_before(
                            path@,
                            #[trigger] self.paths()[i],
                        ) by {
                            assert(text_before(self.paths()[mid as int], self.paths()[i]));
                        }
                        assert(self.paths().contains(path@));
                    }
                    return (mid, true);
                },
                Rank::Before => {
                    proof {
                        assert forall|i: int| 0 <= i < mid + 1 implies text_before(
                            #[trigger] self.paths()[i],
                            path@,
                        ) by {
                            if i < mid {
                                assert(text_before(self.paths()[i], self.paths()[mid as int]));
                                lemma_text_before_transitive(
                                    self.paths()[i],
                                    self.paths()[mid as int],
                                    path@,
                                );
                            }
                        }
                    }
                    lo = mid + 1;
                },
                Rank::After => {
                    proof {
                        assert forall|i: int| mid <= i < self.paths().len() implies text_before(
                            path@,
                            #[trigger] self.paths()[i],
                        ) by {
                            if mid < i {
                                assert(text_before(self.paths()[mid as int], self.paths()[i]));
                                lemma_text_before_transitive(
                                    path@,
                                    self.paths()[mid as int],
                                    self.paths()[i],
                                );
                            }
                        }
                    }
                    hi = mid;
                },
            }
        }
        proof {
            if self.paths().contains(path@) {
                let i = choose|i: int| 0 <= i < self.paths().len() && self.paths()[i] == path@;
                lemma_text_before_irreflexive(path@);
            }
        }
        (lo, false)
    }

    /// Whether the set holds `path`.
    pub fn contains(&self, path: &str) -> (held: bool)
        ensures
            held == self@.contains(path@),
    {
        self.position(path).1
    }

    /// The paths of this set whose membership in `other` is `wanted`.
    fn keep(&self, other: &PathSet, wanted: bool) -> (kept: PathSet)
        ensures
            forall|p: Seq<char>|
                kept@.contains(p) <==> self@.contains(p) && other@.contains(p) == wanted,
            kept.wf(),
    {
        proof {
            use_type_invariant(self);
        }
        let n: usize = self.items.len();
        let mut out: Vec<String> = Vec::new();
        let mut i: usize = 0;
        assert(texts(out@) =~= Seq::<Seq<char>>::empty());
        while i < n
            invariant
                i <= n,
                n == self.items.len(),
                self.paths().len() == n,
                strictly_ordered(self.paths()),
                strictly_ordered(texts(out@)),
                forall|j: int, k: int|
                    0 <= j < out@.len() && i <= k < n ==> text_before(
                        #[trigger] texts(out@)[j],
                        #[trigger] self.paths()[k],
                    ),
                forall|p: Seq<char>| #[trigger]
                    texts(out@).contains(p) <==> self.paths().take(i as int).contains(p)
                        && other@.contains(p) == wanted,
            decreases n - i,
        {
            let item = &self.items[i];
            let ghost x = self.paths()[i as int];
            let ghost before = texts(out@);
            assert(item@ == x);
            proof {
                assert(self.paths().take(i + 1) =~= self.paths().take(i as int).push(x));
                vstd::seq_lib::lemma_seq_contains_after_push(self.paths().take(i as int), x, x);
            }
            if other.contains(item.as_str()) == wanted {
                out.push(item.clone());
                proof {
                    let after = texts(out@);
                    assert(after =~= before.push(x));
                    assert forall|a: int, b: int| 0 <= a < b < after.len() implies text_before(
                        #[trigger] after[a],
                        #[trigger] after[b],
                    ) by {
                        if b < before.len() {
                            assert(after[a] == before[a] && after[b] == before[b]);
                        } else {
                            assert(after[a] == before[a]);
                        }
                    }
                    assert forall|j: int, k: int|
                        0 <= j < out@.len() && i + 1 <= k < n implies text_before(
                        #[trigger] texts(out@)[j],
                        #[trigger] self.paths()[k],
                    ) by {
                        if j < before.len() {
                            assert(after[j] == before[j]);
                        } else {
                            assert(text_before(self.paths()[i as int], self.paths()[k]));
                        }
                    }
                    assert forall|p: Seq<char>| #[trigger]
                        after.contains(p) <==> self.paths().take(i + 1).contains(p)
                            && other@.contains(p) == wanted by {
                        vstd::seq_lib::lemma_seq_contains_after_push(before, x, p);
                        vstd::seq_lib::lemma_seq_contains_after_push(
                            self.paths().take(i as int),
                            x,
                            p,
                        );
                    }
                }
            } else {
                proof {
                    assert forall|p: Seq<char>| #[trigger]
                        before.contains(p) <==> self.paths().take(i + 1).contains(p)
                            && other@.contains(p) == wanted by {
                        vstd::seq_lib::lemma_seq_contains_after_push(
                            self.paths().take(i as int),
                            x,
                            p,
                        );
                    }
                }
            }
            i = i + 1;
        }
        let kept = PathSet { items: out };
        proof {
            assert(self.paths().take(n as int) =~= self.paths());
        }
        kept
    }

    /// The paths of this set that `other` does not hold.
    pub fn difference(&self, other: &PathSet) -> (rest: PathSet)
        ensures
            rest@ == self@.difference(other@),
            rest.wf(),
    {
        let rest = self.keep(other, false);
        assert(rest@ =~= self@.difference(other@));
        rest
    }

    /// The paths that both sets hold.
    pub fn intersection(&self, other: &PathSet) -> (common: PathSet)
        ensures
            common@ == self@.intersect(other@),
            common.wf(),
    {
        let common = self.keep(other, true);
        assert(common@ =~= self@.intersect(other@));
        common
    }

    /// The paths of the set as strings, in order.
    pub fn to_vec(&self) -> (list: Vec<String>)
        ensures
            texts(list@) == self.paths(),
    {
        let n: usize = self.items.len();
        let mut list: Vec<String> = Vec::new();
        let mut i: usize = 0;
        while i < n
            invariant
                i <= n,
                n == self.items.len(),
                list@.len() == i,
                forall|j: int| 0 <= j < i ==> (#[trigger] list@[j])@ == self.items@[j]@,
            decreases n - i,
        {
            list.push(self.items[i].clone());
            i = i + 1;
        }
        assert(texts(list@) =~= self.paths());
        list
    }

    /// The set of the strings of `list`.
    pub fn from_vec(list: Vec<String>) -> (set: PathSet)
        ensures
            set@ == texts(list@).to_set(),
            set.wf(),
    {
        let n: usize = list.len();
        let mut set = PathSet::new();
        let mut i: usize = 0;
        while i < n
            invariant
                i <= n,
                n == list.len(),
                set.wf(),
                set@ == texts(list@).take(i as int).to_set(),
            decreases n - i,
        {
            let ghost before = texts(list@).take(i as int);
            set.insert(list[i].clone());
            proof {
                let x = texts(list@)[i as int];
                assert(texts(list@).take(i + 1) =~= before.push(x));
                before.lemma_push_to_set_commute(x);
            }
            i = i + 1;
        }
        assert(texts(list@).take(n as int) =~= texts(list@));
        set
    }

    /// Adds `path` to the set. Returns whether the set did not hold it
    /// before.
    pub fn insert(&mut self, path: String) -> (added: bool)
        ensures
            final(self)@ == old(self)@.insert(path@),
            added == !old(self)@.contains(path@),
            final(self).wf(),
    {
        proof {
            use_type_invariant(&*self);
        }
        let (index, found) = self.position(path.as_str());
        if found {
            assert(self@.insert(path@) =~= self@);
            return false;
        }
        let ghost before = self.paths();
        let ghost text = path@;
        let mut taken = PathSet::new();
        core::mem::swap(self, &mut taken);
        let mut items = taken.items;
        items.insert(index, path);
        proof {
            let after = texts(items@);
            assert(after =~= before.insert(index as int, text));
            assert forall|i: int, j: int| 0 <= i < j < after.len() implies text_before(
                #[trigger] after[i],
                #[trigger] after[j],
            ) by {
                if j < index {
                    assert(after[i] == before[i] && after[j] == before[j]);
                } else if j == index {
                    assert(after[i] == before[i]);
                } else if i < index {
                    assert(after[i] == before[i] && after[j] == before[j - 1]);
                    if i == j - 1 {
                    }
                    lemma_text_before_transitive(before[i], text, before[j - 1]);
                } else if i == index {
                    assert(after[j] == before[j - 1]);
                } else {
                    assert(after[i] == before[i - 1] && after[j] == before[j - 1]);
                }
            }
            assert forall|p: Seq<char>| after.to_set().contains(p) <==> before.to_set().insert(
                text,
            ).contains(p) by {
                if after.contains(p) {
                    let k = choose|k: int| 0 <= k < after.len() && after[k] == p;
                    if k < index {
                        assert(before[k] == p);
                    } else if k > index {
                        assert(before[k - 1] == p);
                    }
                }
                if before.contains(p) {
                    let k = choose|k: int| 0 <= k < before.len() && before[k] == p;
                    if k < index {
                        assert(after[k] == p);
                    } else {
                        assert(after[k + 1] == p);
                    }
                }
                if p == text {
                    assert(after[index as int] == p);
                }
            }
            assert(after.to_set() =~= before.to_set().insert(text));
        }
        *self = PathSet { items };
        true
    }
}

impl Clone for PathSet {
    /// A copy that holds the same paths.
    fn clone(&self) -> (copy: PathSet)
        ensures
            copy@ == self@,
            copy.paths() == self.paths(),
            copy.wf(),
    {
        proof {
            use_type_invariant(self);
        }
        let copy = PathSet { items: self.to_vec() };
        copy
    }
}

} // verus!
