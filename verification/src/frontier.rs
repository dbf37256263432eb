//! A binary min-heap of search entries `(priority, cx, cy)`, ordered
//! lexicographically: the open list of the chunk-graph path search.

use vstd::prelude::*;

verus! {

/// An open-list entry: priority, then the chunk's column and row.
pub type Entry = (u32, i32, i32);

/// Lexicographic order on entries.
pub open spec fn entry_le(a: Entry, b: Entry) -> bool {
    a.0 < b.0 || (a.0 == b.0 && (a.1 < b.1 || (a.1 == b.1 && a.2 <= b.2)))
}

pub open spec fn parent(i: int) -> int {
    (i - 1) / 2
}

/// Every entry is no smaller than its parent.
pub open spec fn is_heap(s: Seq<Entry>) -> bool {
    forall|i: int| 1 <= i < s.len() ==> entry_le(s[parent(i)], #[trigger] s[i])
}

/// Swapping two entries keeps the same entries, each as often.
proof fn lemma_swap_multiset(s: Seq<Entry>, i: int, j: int)
    requires
        0 <= i < s.len(),
        0 <= j < s.len(),
    ensures
        s.update(i, s[j]).update(j, s[i]).to_multiset() == s.to_multiset(),
{
    broadcast use vstd::seq_lib::group_to_multiset_ensures, vstd::multiset::group_multiset_axioms;
    if i != j {
        let s1 = s.update(i, s[j]);
        assert(s1.to_multiset() == s.to_multiset().insert(s[j]).remove(s[i]));
        assert(s1[j] == s[j]);
        assert(s1.update(j, s[i]).to_multiset() == s1.to_multiset().insert(s[i]).remove(s[j]));
        assert(s1.update(j, s[i]).to_multiset() =~= s.to_multiset());
    } else {
        assert(s.update(i, s[j]).update(j, s[i]) =~= s);
    }
}

fn entry_le_exec(a: Entry, b: Entry) -> (r: bool)
    ensures
        r == entry_le(a, b),
{
    a.0 < b.0 || (a.0 == b.0 && (a.1 < b.1 || (a.1 == b.1 && a.2 <= b.2)))
}

/// The root of a heap is its least entry.
proof fn lemma_heap_root_least(s: Seq<Entry>, i: int)
    requires
        is_heap(s),
        0 <= i < s.len(),
    ensures
        entry_le(s[0], s[i]),
    decreases i,
{
    if i > 0 {
        lemma_heap_root_least(s, parent(i));
        assert(entry_le(s[parent(i)], s[i]));
    }
}

/// Open list of a best-first search: a binary min-heap.
pub struct Frontier {
    items: Vec<Entry>,
}

impl View for Frontier {
    type V = Seq<Entry>;

    closed spec fn view(&self) -> Seq<Entry> {
        self.items@
    }
}

impl Frontier {
    /// The heap order holds.
    pub closed spec fn wf(&self) -> bool {
        is_heap(self.items@)
    }

    pub fn new() -> (r: Self)
        ensures
            r.wf(),
            r@ == Seq::<Entry>::empty(),
    {
        Frontier { items: Vec::new() }
    }

    pub fn len(&self) -> (r: usize)
        ensures
            r == self@.len(),
    {
        self.items.len()
    }

    fn swap(&mut self, i: usize, j: usize)
        requires
            i < old(self)@.len(),
            j < old(self)@.len(),
        ensures
            final(self)@ == old(self)@.update(i as int, old(self)@[j as int]).update(j as int, old(self)@[i as int]),
    {
        let a = self.items[i];
        let b = self.items[j];
        self.items.set(i, b);
        self.items.set(j, a);
    }

    /// Add an entry.
    pub fn push(&mut self, e: Entry)
        requires
            old(self).wf(),
        ensures
            final(self).wf(),
            final(self)@.len() == old(self)@.len() + 1,
            forall|x: Entry| final(self)@.contains(x) <==> (old(self)@.contains(x) || x == e),
            final(self)@.to_multiset() == old(self)@.to_multiset().insert(e),
    {
        let ghost before = self@;
        self.items.push(e);
        let mut i = self.items.len() - 1;
        proof {
            let s = self@;
            assert(s =~= before.push(e));
            broadcast use vstd::seq_lib::group_to_multiset_ensures;
            assert(s.to_multiset() == before.to_multiset().insert(e));
            assert forall|x: Entry| s.contains(x) <==> (before.contains(x) || x == e) by {
                if before.contains(x) {
                    let k = choose|k: int| 0 <= k < before.len() && before[k] == x;
                    assert(s[k] == x);
                }
                if x == e {
                    assert(s[i as int] == e);
                }
                if s.contains(x) {
                    let k = choose|k: int| 0 <= k < s.len() && s[k] == x;
                    if k < before.len() {
                        assert(before[k] == x);
                    }
                }
            }
        }
        let mut done = false;
        while i > 0 && !done
            invariant
                0 <= i < self@.len(),
                self@.len() == before.len() + 1,
                forall|x: Entry| self@.contains(x) <==> (before.contains(x) || x == e),
                self@.to_multiset() == before.to_multiset().insert(e),
                forall|j: int| 1 <= j < self@.len() && j != i ==> entry_le(self@[parent(j)], #[trigger] self@[j]),
                forall|c: int|
                    1 <= c < self@.len() && parent(c) == i && i > 0 ==> entry_le(self@[parent(i as int)], #[trigger] self@[c]),
                done ==> is_heap(self@),
            decreases i + if done { 0int } else { 1int },
        {
            let p = (i - 1) / 2;
            if entry_le_exec(self.items[p], self.items[i]) {
                proof {
                    assert forall|j: int| 1 <= j < self@.len() implies entry_le(self@[parent(j)], #[trigger] self@[j]) by {
                        if j == i {
                            assert(parent(j) == p);
                        }
                    }
                }
                done = true;
                continue;
            }
            let ghost s0 = self@;
            self.swap(p, i);
            proof {
                let s1 = self@;
                lemma_swap_multiset(s0, p as int, i as int);
                assert forall|x: Entry| s1.contains(x) <==> s0.contains(x) by {
                    if s0.contains(x) {
                        let k = choose|k: int| 0 <= k < s0.len() && s0[k] == x;
                        if k == p {
                            assert(s1[i as int] == x);
                        } else if k == i {
                            assert(s1[p as int] == x);
                        } else {
                            assert(s1[k] == x);
                        }
                    }
                    if s1.contains(x) {
                        let k = choose|k: int| 0 <= k < s1.len() && s1[k] == x;
                        if k == p {
                            assert(s0[i as int] == x);
                        } else if k == i {
                            assert(s0[p as int] == x);
                        } else {
                            assert(s0[k] == x);
                        }
                    }
                }
                assert forall|j: int| 1 <= j < s1.len() && j != p implies entry_le(s1[parent(j)], #[trigger] s1[j]) by {
                    if j == i {
                    } else if parent(j) == i {
                        assert(entry_le(s0[parent(i as int)], s0[j]));
                    } else if parent(j) == p {
                        assert(entry_le(s0[p as int], s0[j]));
                    } else if j == p {
                    } else {
                        assert(entry_le(s0[parent(j)], s0[j]));
                    }
                }
                assert forall|c: int| 1 <= c < s1.len() && parent(c) == p && p > 0 implies entry_le(
                    s1[parent(p as int)],
                    #[trigger] s1[c],
                ) by {
                    assert(entry_le(s0[parent(p as int)], s0[p as int]));
                    if c != i {
                        assert(entry_le(s0[p as int], s0[c]));
                    }
                }
            }
            i = p;
        }
    }

    /// Remove and return the least entry, or `None` when empty.
    pub fn pop(&mut self) -> (r: Option<Entry>)
        requires
            old(self).wf(),
        ensures
            final(self).wf(),
            match r {
                None => old(self)@.len() == 0 && final(self)@ == old(self)@,
                Some(e) => {
                    &&& old(self)@.contains(e)
                    &&& final(self)@.len() == old(self)@.len() - 1
                    &&& forall|x: Entry| old(self)@.contains(x) ==> entry_le(e, x)
                    &&& forall|x: Entry| final(self)@.contains(x) ==> old(self)@.contains(x)
                    &&& forall|x: Entry| old(self)@.contains(x) ==> final(self)@.contains(x) || x == e
                    &&& final(self)@.to_multiset() == old(self)@.to_multiset().remove(e)
                },
            },
    {
        let n = self.items.len();
        if n == 0 {
            return None;
        }
        let ghost before = self@;
        let top = self.items[0];
        proof {
            assert(before.contains(top));
            assert forall|x: Entry| before.contains(x) implies entry_le(top, x) by {
                let k = choose|k: int| 0 <= k < before.len() && before[k] == x;
                lemma_heap_root_least(before, k);
            }
        }
        let last = self.items.pop().unwrap();
        proof {
            broadcast use vstd::seq_lib::group_to_multiset_ensures, vstd::multiset::group_multiset_axioms;
            assert(before.remove(n - 1) =~= self@);
            assert(self@.to_multiset() == before.to_multiset().remove(last));
        }
        if n == 1 {
            proof {
                assert(self@.len() == 0);
                assert(self@ =~= Seq::<Entry>::empty());
                assert(before =~= seq![top]);
                assert(before.to_multiset() =~= vstd::multiset::Multiset::<Entry>::empty().insert(top));
                assert(self@.to_multiset() =~= before.to_multiset().remove(top));
            }
            return Some(top);
        }
        let ghost mid = self@;
        self.items.set(0, last);
        proof {
            broadcast use vstd::seq_lib::group_to_multiset_ensures, vstd::multiset::group_multiset_axioms;
            assert(self@ == mid.update(0, last));
            assert(mid[0] == top);
            assert(self@.to_multiset() == mid.to_multiset().insert(last).remove(top));
            assert(before.to_multiset().count(last) >= 1);
            assert(self@.to_multiset() =~= before.to_multiset().remove(top));
        }
        proof {
            let s = self@;
            assert forall|x: Entry| s.contains(x) implies before.contains(x) by {
                let k = choose|k: int| 0 <= k < s.len() && s[k] == x;
                if k == 0 {
                    assert(before[n - 1] == x);
                } else {
                    assert(before[k] == x);
                }
            }
            assert forall|x: Entry| before.contains(x) implies s.contains(x) || x == top by {
                let k = choose|k: int| 0 <= k < before.len() && before[k] == x;
                if k == n - 1 {
                    assert(s[0] == x);
                } else if k > 0 {
                    assert(s[k] == x);
                }
            }
            assert forall|j: int| 1 <= j < s.len() && parent(j) != 0 implies entry_le(s[parent(j)], #[trigger] s[j]) by {
                assert(entry_le(before[parent(j)], before[j]));
            }
        }
        let mut i: usize = 0;
        loop
            invariant
                i < self@.len(),
                self@.len() == before.len() - 1,
                forall|x: Entry| self@.contains(x) ==> before.contains(x),
                forall|x: Entry| before.contains(x) ==> self@.contains(x) || x == top,
                self@.to_multiset() == before.to_multiset().remove(top),
                forall|j: int| 1 <= j < self@.len() && parent(j) != i ==> entry_le(self@[parent(j)], #[trigger] self@[j]),
                forall|c: int|
                    1 <= c < self@.len() && parent(c) == i && i > 0 ==> entry_le(self@[parent(i as int)], #[trigger] self@[c]),
            ensures
                is_heap(self@),
                self@.len() == before.len() - 1,
                forall|x: Entry| self@.contains(x) ==> before.contains(x),
                forall|x: Entry| before.contains(x) ==> self@.contains(x) || x == top,
                self@.to_multiset() == before.to_multiset().remove(top),
            decreases self@.len() - i,
        {
            let len = self.items.len();
            if len < 2 || i > (len - 2) / 2 {
                proof {
                    assert forall|j: int| 1 <= j < self@.len() implies entry_le(self@[parent(j)], #[trigger] self@[j]) by {
                        assert(parent(j) != i);
                    }
                }
                break;
            }
            let l = 2 * i + 1;
            let r = l + 1;
            let m = if r < len && !entry_le_exec(self.items[l], self.items[r]) {
                r
            } else {
                l
            };
            if entry_le_exec(self.items[i], self.items[m]) {
                proof {
                    assert forall|j: int| 1 <= j < self@.len() implies entry_le(self@[parent(j)], #[trigger] self@[j]) by {
                        if parent(j) == i {
                            if j == l {
                            } else {
                                assert(j == r);
                            }
                        }
                    }
                }
                break;
            }
            let ghost s0 = self@;
            self.swap(i, m);
            proof {
                let s1 = self@;
                lemma_swap_multiset(s0, i as int, m as int);
                assert(parent(l as int) == i && parent(r as int) == i);
                assert forall|x: Entry| s1.contains(x) <==> s0.contains(x) by {
                    if s0.contains(x) {
                        let k = choose|k: int| 0 <= k < s0.len() && s0[k] == x;
                        if k == i {
                            assert(s1[m as int] == x);
                        } else if k == m {
                            assert(s1[i as int] == x);
                        } else {
                            assert(s1[k] == x);
                        }
                    }
                    if s1.contains(x) {
                        let k = choose|k: int| 0 <= k < s1.len() && s1[k] == x;
                        if k == i {
                            assert(s0[m as int] == x);
                        } else if k == m {
                            assert(s0[i as int] == x);
                        } else {
                            assert(s0[k] == x);
                        }
                    }
                }
                assert forall|j: int| 1 <= j < s1.len() && parent(j) != m implies entry_le(s1[parent(j)], #[trigger] s1[j]) by {
                    if j == m {
                    } else if parent(j) == i {
                        assert(j == l || j == r);
                    } else if j == i {
                        assert(entry_le(s0[parent(i as int)], s0[m as int]));
                    } else {
                        assert(entry_le(s0[parent(j)], s0[j]));
                    }
                }
                assert forall|c: int| 1 <= c < s1.len() && parent(c) == m && m > 0 implies entry_le(
                    s1[parent(m as int)],
                    #[trigger] s1[c],
                ) by {
                    assert(entry_le(s0[m as int], s0[c]));
                }
            }
            i = m;
        }
        Some(top)
    }
}

} // verus!
