//! Stable sorting by a total preorder, with its specification: the result is a
//! permutation of the input, ordered, and elements that tie keep their order.

use vstd::prelude::*;
use vstd::relations::injective_on;
use vstd::set_lib::{lemma_int_range, lemma_map_size, lemma_subset_equality, set_int_range};

verus! {

/// A total preorder used to sort values: `a.sorts_before(b)` means that `a` may
/// stand before `b`.
pub trait SortKey: Sized {
    spec fn sorts_before(self, other: Self) -> bool;

    fn sorts_before_exec(&self, other: &Self) -> (r: bool)
        ensures
            r == self.sorts_before(*other),
    ;

    proof fn lemma_sorts_before_total(a: Self, b: Self)
        ensures
            a.sorts_before(b) || b.sorts_before(a),
    ;

    proof fn lemma_sorts_before_trans(a: Self, b: Self, c: Self)
        requires
            a.sorts_before(b),
            b.sorts_before(c),
        ensures
            a.sorts_before(c),
    ;
}

/// Every element may stand before every later one.
pub open spec fn sorted_by_key<T: SortKey>(s: Seq<T>) -> bool {
    forall|k: int, l: int|
        #![trigger s[k], s[l]]
        0 <= k < l < s.len() ==> s[k].sorts_before(s[l])
}

/// `out` is `inp` rearranged by the index map `p` (element `k` of `out` is
/// element `p[k]` of `inp`, each used once), ordered, and elements that tie keep
/// their order from `inp`.
pub open spec fn stable_sort_witness<T: SortKey>(out: Seq<T>, inp: Seq<T>, p: Seq<int>) -> bool {
    &&& out.len() == inp.len()
    &&& p.len() == inp.len()
    &&& forall|k: int| 0 <= k < out.len() ==> 0 <= #[trigger] p[k] < inp.len() && out[k] == inp[p[k]]
    &&& forall|k: int, l: int| 0 <= k < l < out.len() ==> #[trigger] p[k] != #[trigger] p[l]
    &&& sorted_by_key(out)
    &&& forall|k: int, l: int|
        #![trigger out[k], out[l]]
        0 <= k < l < out.len() && out[l].sorts_before(out[k]) ==> p[k] < p[l]
}

/// `out` is the stable sort of `inp`.
pub open spec fn is_stable_sort_of<T: SortKey>(out: Seq<T>, inp: Seq<T>) -> bool {
    exists|p: Seq<int>| stable_sort_witness(out, inp, p)
}

proof fn lemma_insert_keeps_witness<T: SortKey>(
    out: Seq<T>,
    inp: Seq<T>,
    p: Seq<int>,
    i: int,
    j: int,
)
    requires
        0 <= i < inp.len(),
        stable_sort_witness(out, inp.take(i), p),
        0 <= j <= out.len(),
        forall|k: int| 0 <= k < j ==> (#[trigger] out[k]).sorts_before(inp[i]),
        j < out.len() ==> !out[j].sorts_before(inp[i]),
    ensures
        stable_sort_witness(out.insert(j, inp[i]), inp.take(i + 1), p.insert(j, i)),
{
    let x = inp[i];
    let out2 = out.insert(j, x);
    let p2 = p.insert(j, i);
    let inp2 = inp.take(i + 1);
    assert forall|l: int| j <= l < out.len() implies !(#[trigger] out[l]).sorts_before(x)
        && x.sorts_before(out[l]) by {
        if out[l].sorts_before(x) {
            if j < l {
                assert(out[j].sorts_before(out[l]));
            }
            T::lemma_sorts_before_trans(out[j], out[l], x);
        }
        T::lemma_sorts_before_total(out[l], x);
    }
    assert forall|k: int| 0 <= k < out2.len() implies 0 <= #[trigger] p2[k] < inp2.len()
        && out2[k] == inp2[p2[k]] by {
        if k < j {
            assert(p2[k] == p[k]);
        } else if k > j {
            assert(p2[k] == p[k - 1]);
        }
    }
    assert forall|k: int, l: int| 0 <= k < l < out2.len() implies #[trigger] p2[k]
        != #[trigger] p2[l] by {
        if k != j && l != j {
            let k1 = if k < j {
                k
            } else {
                k - 1
            };
            let l1 = if l < j {
                l
            } else {
                l - 1
            };
            assert(p[k1] != p[l1]);
        } else if k == j {
            assert(p[l - 1] < i);
        } else {
            assert(p[k] < i);
        }
    }
    assert forall|k: int, l: int|
        #![trigger out2[k], out2[l]]
        0 <= k < l < out2.len() implies out2[k].sorts_before(out2[l]) by {
        if k != j && l != j {
            let k1 = if k < j {
                k
            } else {
                k - 1
            };
            let l1 = if l < j {
                l
            } else {
                l - 1
            };
            assert(out[k1].sorts_before(out[l1]));
        } else if k == j {
            assert(out2[l] == out[l - 1]);
        } else {
            assert(out2[k] == out[k]);
        }
    }
    assert forall|k: int, l: int|
        #![trigger out2[k], out2[l]]
        0 <= k < l < out2.len() && out2[l].sorts_before(out2[k]) implies p2[k] < p2[l] by {
        if k != j && l != j {
            let k1 = if k < j {
                k
            } else {
                k - 1
            };
            let l1 = if l < j {
                l
            } else {
                l - 1
            };
            assert(out[k1] == out2[k] && out[l1] == out2[l]);
        } else if k == j {
            assert(out2[l] == out[l - 1]);
            assert(!out[l - 1].sorts_before(x));
        } else {
            assert(p[k] < i);
        }
    }
}

/// Sorts `v` stably: a permutation of `v`, ordered by `sorts_before`, in which
/// elements that tie keep their relative order.
pub fn stable_sort<T: SortKey>(v: Vec<T>) -> (r: Vec<T>)
    ensures
        is_stable_sort_of(r@, v@),
{
    let ghost inp = v@;
    let n = v.len();
    let mut rest = v;
    let mut out: Vec<T> = Vec::new();
    let ghost mut p: Seq<int> = Seq::empty();
    let mut i: usize = 0;
    assert(inp.skip(0) =~= inp);
    assert(stable_sort_witness(out@, inp.take(0), p));
    while i < n
        invariant
            n == inp.len(),
            i <= n,
            rest@ == inp.skip(i as int),
            stable_sort_witness(out@, inp.take(i as int), p),
        decreases n - i,
    {
        let x = rest.remove(0);
        assert(x == inp[i as int]);
        assert(rest@ =~= inp.skip(i + 1));
        let mut j: usize = 0;
        while j < out.len() && out[j].sorts_before_exec(&x)
            invariant
                j <= out@.len(),
                forall|k: int| 0 <= k < j ==> (#[trigger] out@[k]).sorts_before(x),
            decreases out@.len() - j,
        {
            j = j + 1;
        }
        proof {
            lemma_insert_keeps_witness(out@, inp, p, i as int, j as int);
            p = p.insert(j as int, i as int);
        }
        out.insert(j, x);
        i = i + 1;
    }
    assert(inp.take(n as int) =~= inp);
    out
}

/// A stable sort only rearranges: the output is as long as the input, every
/// element of the output is one of the input, and every element of the input
/// is in the output.
pub proof fn lemma_stable_sort_same_elements<T: SortKey>(out: Seq<T>, inp: Seq<T>)
    requires
        is_stable_sort_of(out, inp),
    ensures
        out.len() == inp.len(),
        forall|k: int| 0 <= k < out.len() ==> inp.contains(#[trigger] out[k]),
        forall|j: int| 0 <= j < inp.len() ==> out.contains(#[trigger] inp[j]),
{
    let p = choose|p: Seq<int>| stable_sort_witness(out, inp, p);
    let n = inp.len() as int;
    let dom = set_int_range(0, n);
    let f = |k: int| p[k];
    lemma_int_range(0, n);
    let img = dom.map(f);
    assert(injective_on(f, dom)) by {
        assert forall|a: int, b: int|
            dom.contains(a) && dom.contains(b) && #[trigger] f(a) == #[trigger] f(b) implies a
            == b by {
            if a < b {
                assert(p[a] != p[b]);
            } else if b < a {
                assert(p[b] != p[a]);
            }
        }
    }
    lemma_map_size(dom, img, f);
    assert(img.subset_of(dom)) by {
        assert forall|x: int| img.contains(x) implies dom.contains(x) by {
            let k = choose|k: int| dom.contains(k) && x == f(k);
            assert(0 <= p[k] < n);
        }
    }
    lemma_subset_equality(img, dom);
    assert forall|j: int| 0 <= j < inp.len() implies out.contains(#[trigger] inp[j]) by {
        assert(dom.contains(j));
        assert(img.contains(j));
        let k = choose|k: int| dom.contains(k) && j == f(k);
        assert(out[k] == inp[p[k]]);
    }
    assert forall|k: int| 0 <= k < out.len() implies inp.contains(#[trigger] out[k]) by {
        assert(out[k] == inp[p[k]]);
    }
}

} // verus!
