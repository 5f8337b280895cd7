use vstd::prelude::*;

verus! {

/// An entry of a bind group, or of its layout, placed at a binding index.
pub trait BindingIndexed: Sized {
    spec fn binding_spec(&self) -> u32;

    fn binding_index(&self) -> (r: u32)
        ensures
            r == self.binding_spec(),
    ;
}

/// Binding indices strictly increase along `r`.
pub open spec fn strictly_sorted<E: BindingIndexed>(r: Seq<E>) -> bool {
    forall|i: int, j: int|
        0 <= i < j < r.len() ==> #[trigger] r[i].binding_spec() < #[trigger] r[j].binding_spec()
}

/// No two entries of `s` share a binding index.
pub open spec fn unique_bindings<E: BindingIndexed>(s: Seq<E>) -> bool {
    forall|i: int, j: int|
        0 <= i < s.len() && 0 <= j < s.len() && i != j ==> #[trigger] s[i].binding_spec()
            != #[trigger] s[j].binding_spec()
}

/// Some entry of `r` sits at binding index `b`.
pub open spec fn has_binding<E: BindingIndexed>(r: Seq<E>, b: u32) -> bool {
    exists|i: int| 0 <= i < r.len() && #[trigger] r[i].binding_spec() == b
}

/// `x` is the entry of `s` listed last at its binding index.
pub open spec fn last_at_binding<E: BindingIndexed>(s: Seq<E>, x: E) -> bool {
    exists|j: int|
        0 <= j < s.len() && #[trigger] s[j] == x && forall|k: int|
            j < k < s.len() ==> #[trigger] s[k].binding_spec() != x.binding_spec()
}

/// `r` is the canonical order of the entries `s`: sorted by binding index,
/// one entry per index that `s` uses, the one listed last there; where the
/// indices of `s` are distinct, `r` holds every entry of `s`.
pub open spec fn is_canonical_form<E: BindingIndexed>(s: Seq<E>, r: Seq<E>) -> bool {
    &&& strictly_sorted(r)
    &&& forall|i: int| 0 <= i < r.len() ==> s.contains(#[trigger] r[i])
    &&& forall|i: int| 0 <= i < r.len() ==> last_at_binding(s, #[trigger] r[i])
    &&& forall|j: int| 0 <= j < s.len() ==> has_binding(r, #[trigger] s[j].binding_spec())
    &&& unique_bindings(s) ==> forall|j: int| 0 <= j < s.len() ==> r.contains(#[trigger] s[j])
}

/// Two sequences sorted by binding index that hold the same entries are equal.
pub proof fn lemma_sorted_same_entries_equal<E: BindingIndexed>(a: Seq<E>, b: Seq<E>)
    requires
        strictly_sorted(a),
        strictly_sorted(b),
        forall|x: E| a.contains(x) <==> b.contains(x),
    ensures
        a == b,
    decreases a.len(),
{
    if a.len() == 0 {
        if b.len() > 0 {
            assert(b.contains(b[0]));
        }
        assert(a =~= b);
    } else {
        assert(a.contains(a[0]));
        let j = choose|j: int| 0 <= j < b.len() && b[j] == a[0];
        assert(b.contains(b[0]));
        let i = choose|i: int| 0 <= i < a.len() && a[i] == b[0];
        if i > 0 {
            assert(a[0].binding_spec() < a[i].binding_spec());
        }
        if j > 0 {
            assert(b[0].binding_spec() < b[j].binding_spec());
        }
        assert(j == 0);
        let a1 = a.drop_first();
        let b1 = b.drop_first();
        assert forall|x: E| a1.contains(x) <==> b1.contains(x) by {
            if a1.contains(x) {
                let p = choose|p: int| 0 <= p < a1.len() && a1[p] == x;
                assert(a[p + 1] == x);
                assert(a[0].binding_spec() < a[p + 1].binding_spec());
                assert(a.contains(x));
                let q = choose|q: int| 0 <= q < b.len() && b[q] == x;
                assert(q != 0);
                assert(b1[q - 1] == x);
            }
            if b1.contains(x) {
                let p = choose|p: int| 0 <= p < b1.len() && b1[p] == x;
                assert(b[p + 1] == x);
                assert(b[0].binding_spec() < b[p + 1].binding_spec());
                assert(b.contains(x));
                let q = choose|q: int| 0 <= q < a.len() && a[q] == x;
                assert(q != 0);
                assert(a1[q - 1] == x);
            }
        }
        assert forall|p: int, q: int|
            0 <= p < q < a1.len() implies #[trigger] a1[p].binding_spec()
            < #[trigger] a1[q].binding_spec() by {
            assert(a1[p] == a[p + 1] && a1[q] == a[q + 1]);
        }
        assert forall|p: int, q: int|
            0 <= p < q < b1.len() implies #[trigger] b1[p].binding_spec()
            < #[trigger] b1[q].binding_spec() by {
            assert(b1[p] == b[p + 1] && b1[q] == b[q + 1]);
        }
        lemma_sorted_same_entries_equal(a1, b1);
        assert(a =~= b1.insert(0, a[0]));
        assert(b =~= b1.insert(0, b[0]));
    }
}

/// Entries that differ only in the order they were listed in have one
/// canonical form: the sets of (binding, entry) pairs decide it.
pub proof fn lemma_canonical_form_ignores_order<E: BindingIndexed>(
    s1: Seq<E>,
    s2: Seq<E>,
    r1: Seq<E>,
    r2: Seq<E>,
)
    requires
        unique_bindings(s1),
        unique_bindings(s2),
        forall|x: E| s1.contains(x) <==> s2.contains(x),
        is_canonical_form(s1, r1),
        is_canonical_form(s2, r2),
    ensures
        r1 == r2,
{
    assert forall|x: E| r1.contains(x) <==> r2.contains(x) by {
        if r1.contains(x) {
            let i = choose|i: int| 0 <= i < r1.len() && r1[i] == x;
            assert(s1.contains(r1[i]));
            assert(s2.contains(x));
            let j = choose|j: int| 0 <= j < s2.len() && s2[j] == x;
            assert(r2.contains(s2[j]));
        }
        if r2.contains(x) {
            let i = choose|i: int| 0 <= i < r2.len() && r2[i] == x;
            assert(s2.contains(r2[i]));
            assert(s1.contains(x));
            let j = choose|j: int| 0 <= j < s1.len() && s1[j] == x;
            assert(r1.contains(s1[j]));
        }
    }
    lemma_sorted_same_entries_equal(r1, r2);
}

/// A list of entries has one canonical form.
pub proof fn lemma_canonical_form_unique<E: BindingIndexed>(s: Seq<E>, r1: Seq<E>, r2: Seq<E>)
    requires
        is_canonical_form(s, r1),
        is_canonical_form(s, r2),
    ensures
        r1 == r2,
{
    assert forall|x: E| r1.contains(x) implies r2.contains(x) by {
        lemma_canonical_member(s, r1, r2, x);
    }
    assert forall|x: E| r2.contains(x) implies r1.contains(x) by {
        lemma_canonical_member(s, r2, r1, x);
    }
    lemma_sorted_same_entries_equal(r1, r2);
}

proof fn lemma_canonical_member<E: BindingIndexed>(s: Seq<E>, r1: Seq<E>, r2: Seq<E>, x: E)
    requires
        is_canonical_form(s, r1),
        is_canonical_form(s, r2),
        r1.contains(x),
    ensures
        r2.contains(x),
{
    let i = choose|i: int| 0 <= i < r1.len() && r1[i] == x;
    assert(last_at_binding(s, r1[i]));
    let j = choose|j: int|
        0 <= j < s.len() && #[trigger] s[j] == x && forall|k: int|
            j < k < s.len() ==> #[trigger] s[k].binding_spec() != x.binding_spec();
    assert(has_binding(r2, s[j].binding_spec()));
    let i2 = choose|i2: int| 0 <= i2 < r2.len() && #[trigger] r2[i2].binding_spec() == s[j].binding_spec();
    let y = r2[i2];
    assert(last_at_binding(s, r2[i2]));
    let j2 = choose|j2: int|
        0 <= j2 < s.len() && #[trigger] s[j2] == y && forall|k: int|
            j2 < k < s.len() ==> #[trigger] s[k].binding_spec() != y.binding_spec();
    if j < j2 {
        assert(s[j2].binding_spec() != x.binding_spec());
    } else if j2 < j {
        assert(s[j].binding_spec() != y.binding_spec());
    }
    assert(y == x);
}

/// The entries of `entries` in canonical order (see `is_canonical_form`).
pub fn canonical_order<E: BindingIndexed>(entries: Vec<E>) -> (r: Vec<E>)
    ensures
        is_canonical_form(entries@, r@),
{
    let ghost s = entries@;
    let mut rest = entries;
    let mut out: Vec<E> = Vec::new();
    while rest.len() > 0
        invariant
            rest@.len() <= s.len(),
            rest@ == s.subrange(0, rest@.len() as int),
            strictly_sorted(out@),
            forall|i: int|
                0 <= i < out@.len() ==> exists|j: int|
                    rest@.len() <= j < s.len() && s[j] == #[trigger] out@[i],
            forall|i: int| 0 <= i < out@.len() ==> last_at_binding(s, #[trigger] out@[i]),
            forall|j: int|
                rest@.len() <= j < s.len() ==> has_binding(out@, #[trigger] s[j].binding_spec()),
            unique_bindings(s) ==> forall|j: int|
                rest@.len() <= j < s.len() ==> out@.contains(#[trigger] s[j]),
        decreases rest@.len(),
    {
        let ghost m = rest@.len() - 1;
        let e = rest.pop().unwrap();
        assert(e == s[m]);
        let b = e.binding_index();
        let mut p: usize = 0;
        while p < out.len() && out[p].binding_index() < b
            invariant
                0 <= p <= out@.len(),
                forall|q: int| 0 <= q < p ==> #[trigger] out@[q].binding_spec() < b,
            decreases out@.len() - p,
        {
            p = p + 1;
        }
        let ghost old_out = out@;
        if p < out.len() && out[p].binding_index() == b {
            // An entry at this binding index is already placed; the first one placed stays.
            proof {
                assert(has_binding(out@, s[m].binding_spec()));
                if unique_bindings(s) {
                    let j = choose|j: int| rest@.len() + 1 <= j < s.len() && s[j] == #[trigger] out@[p as int];
                    assert(s[j].binding_spec() == s[m].binding_spec());
                    assert(false);
                }
            }
        } else {
            proof {
                assert forall|q: int| 0 <= q < old_out.len() implies #[trigger] old_out[q].binding_spec() != b by {
                    if q > p {
                        assert(old_out[p as int].binding_spec() < old_out[q].binding_spec());
                    }
                }
                assert forall|k: int| m < k < s.len() implies #[trigger] s[k].binding_spec() != b by {
                    assert(has_binding(old_out, s[k].binding_spec()));
                }
                assert(last_at_binding(s, s[m]));
            }
            out.insert(p, e);
            proof {
                assert forall|i: int| 0 <= i < out@.len() implies last_at_binding(s, #[trigger] out@[i]) by {
                    if i < p {
                        assert(out@[i] == old_out[i]);
                    } else if i > p {
                        assert(out@[i] == old_out[i - 1]);
                    }
                }
                assert forall|i: int, j: int|
                    0 <= i < j < out@.len() implies #[trigger] out@[i].binding_spec()
                    < #[trigger] out@[j].binding_spec() by {
                    if i < p && j > p {
                        assert(old_out[i].binding_spec() < b);
                        assert(out@[j] == old_out[j - 1]);
                        if (j - 1) > p {
                            assert(old_out[p as int].binding_spec() < old_out[j - 1].binding_spec());
                        }
                    } else if i == p && j > p {
                        assert(out@[j] == old_out[j - 1]);
                        if (j - 1) > p {
                            assert(old_out[p as int].binding_spec() < old_out[j - 1].binding_spec());
                        }
                    } else if i > p {
                        assert(out@[i] == old_out[i - 1] && out@[j] == old_out[j - 1]);
                    }
                }
                assert forall|i: int|
                    0 <= i < out@.len() implies exists|j: int|
                        rest@.len() <= j < s.len() && s[j] == #[trigger] out@[i] by {
                    if i == p {
                        assert(s[m] == out@[i]);
                    } else if i < p {
                        assert(out@[i] == old_out[i]);
                        let j = choose|j: int| rest@.len() + 1 <= j < s.len() && s[j] == #[trigger] old_out[i];
                        assert(s[j] == out@[i]);
                    } else {
                        assert(out@[i] == old_out[i - 1]);
                        let j = choose|j: int| rest@.len() + 1 <= j < s.len() && s[j] == #[trigger] old_out[i - 1];
                        assert(s[j] == out@[i]);
                    }
                }
                assert(out@[p as int] == s[m]);
                assert forall|j: int|
                    rest@.len() <= j < s.len() implies has_binding(out@, #[trigger] s[j].binding_spec()) by {
                    if j == m {
                        assert(out@[p as int].binding_spec() == s[j].binding_spec());
                    } else {
                        let q = choose|q: int| 0 <= q < old_out.len() && #[trigger] old_out[q].binding_spec() == s[j].binding_spec();
                        if q < p {
                            assert(out@[q] == old_out[q]);
                        } else {
                            assert(out@[q + 1] == old_out[q]);
                        }
                    }
                }
                if unique_bindings(s) {
                    assert forall|j: int|
                        rest@.len() <= j < s.len() implies out@.contains(#[trigger] s[j]) by {
                        if j == m {
                            assert(out@[p as int] == s[j]);
                        } else {
                            assert(old_out.contains(s[j]));
                            let q = choose|q: int| 0 <= q < old_out.len() && old_out[q] == s[j];
                            if q < p {
                                assert(out@[q] == old_out[q]);
                            } else {
                                assert(out@[q + 1] == old_out[q]);
                            }
                        }
                    }
                }
            }
        }
    }
    proof {
        assert forall|i: int| 0 <= i < out@.len() implies s.contains(#[trigger] out@[i]) by {
            let j = choose|j: int| 0 <= j < s.len() && s[j] == #[trigger] out@[i];
        }
    }
    out
}

} // verus!
