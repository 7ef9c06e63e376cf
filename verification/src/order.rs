//! Text order (`str`'s `Ord`) and sorting by a text key.
use vstd::prelude::*;

verus! {

/// `a <= b` in the order of `str`: lexicographic by characters, which is the
/// byte order of their UTF-8 encodings.
pub open spec fn text_le(a: Seq<char>, b: Seq<char>) -> bool
    decreases a.len(),
{
    if a.len() == 0 {
        true
    } else if b.len() == 0 {
        false
    } else if a[0] != b[0] {
        a[0] < b[0]
    } else {
        text_le(a.drop_first(), b.drop_first())
    }
}

/// Any two texts are ordered one way or the other.
pub proof fn lemma_text_le_total(a: Seq<char>, b: Seq<char>)
    ensures
        text_le(a, b) || text_le(b, a),
    decreases a.len(),
{
    if a.len() > 0 && b.len() > 0 && a[0] == b[0] {
        lemma_text_le_total(a.drop_first(), b.drop_first());
    }
}

/// The text order is transitive.
pub proof fn lemma_text_le_transitive(a: Seq<char>, b: Seq<char>, c: Seq<char>)
    requires
        text_le(a, b),
        text_le(b, c),
    ensures
        text_le(a, c),
    decreases a.len(),
{
    if a.len() > 0 && b.len() > 0 && c.len() > 0 && a[0] == b[0] && b[0] == c[0] {
        lemma_text_le_transitive(a.drop_first(), b.drop_first(), c.drop_first());
    }
}

/// Whether `a <= b` in the order of `str`.
pub fn text_at_most(a: &String, b: &String) -> (r: bool)
    ensures
        r == text_le(a@, b@),
{
    let mut i: usize = 0;
    let av = crate::text::chars_of(a.as_str());
    let bv = crate::text::chars_of(b.as_str());
    assert(a@.skip(0) =~= a@);
    assert(b@.skip(0) =~= b@);
    while i < av.len() && i < bv.len() && av[i] == bv[i]
        invariant
            i <= av@.len(),
            i <= bv@.len(),
            av@ == a@,
            bv@ == b@,
            text_le(a@, b@) == text_le(a@.skip(i as int), b@.skip(i as int)),
        decreases av@.len() - i,
    {
        assert(a@.skip(i as int).drop_first() =~= a@.skip(i + 1));
        assert(b@.skip(i as int).drop_first() =~= b@.skip(i + 1));
        i = i + 1;
    }
    if i == av.len() {
        true
    } else if i == bv.len() {
        false
    } else {
        av[i] < bv[i]
    }
}

/// A value sorted by a text key.
pub trait Keyed: View + Sized {
    /// The key of a value, by its view.
    spec fn key_of(v: Self::V) -> Seq<char>;

    /// The key of this value.
    fn key(&self) -> (k: &String)
        ensures
            k@ == Self::key_of(self@),
    ;
}

/// The views of the values.
pub open spec fn view_seq<T: View>(v: Seq<T>) -> Seq<T::V> {
    v.map_values(|x: T| x@)
}

/// The values are in nondecreasing order of their keys.
pub open spec fn sorted_by_key<T: Keyed>(v: Seq<T::V>) -> bool {
    forall|i: int, j: int| 0 <= i < j < v.len() ==> text_le(T::key_of(v[i]), T::key_of(v[j]))
}

/// The values sorted by key: the same values, counted with multiplicity, in
/// nondecreasing order of their keys (`sort_by` on the keys' `cmp`).
pub fn sort_by_key<T: Keyed>(v: Vec<T>) -> (r: Vec<T>)
    ensures
        sorted_by_key::<T>(view_seq(r@)),
        view_seq(r@).to_multiset() == view_seq(v@).to_multiset(),
{
    broadcast use vstd::seq_lib::group_to_multiset_ensures;

    let mut input = v;
    let mut out: Vec<T> = Vec::new();
    assert(view_seq(out@) =~= Seq::<T::V>::empty());
    while input.len() > 0
        invariant
            sorted_by_key::<T>(view_seq(out@)),
            view_seq(out@).to_multiset().add(view_seq(input@).to_multiset()) == view_seq(v@).to_multiset(),
        decreases input@.len(),
    {
        let ghost before_in = view_seq(input@);
        let ghost before_out = view_seq(out@);
        let x = input.pop().unwrap();
        assert(before_in =~= view_seq(input@).push(x@));
        let mut k: usize = 0;
        while k < out.len() && text_at_most(out[k].key(), x.key())
            invariant
                k <= out@.len(),
                view_seq(out@) == before_out,
                forall|j: int| 0 <= j < k ==> text_le(T::key_of(before_out[j]), T::key_of(x@)),
            decreases out@.len() - k,
        {
            k = k + 1;
        }
        proof {
            if k < out@.len() {
                lemma_text_le_total(T::key_of(before_out[k as int]), T::key_of(x@));
            }
        }
        let ghost xv = x@;
        out.insert(k, x);
        let ghost after = view_seq(out@);
        assert(after =~= before_out.insert(k as int, xv));
        proof {
            assert forall|i: int, j: int| 0 <= i < j < after.len() implies text_le(
                T::key_of(after[i]),
                T::key_of(after[j]),
            ) by {
                if j < k {
                } else if j == k {
                    assert(after[i] == before_out[i]);
                } else if i < k {
                    assert(after[j] == before_out[j - 1]);
                    assert(after[i] == before_out[i]);
                    lemma_text_le_transitive(T::key_of(before_out[i]), T::key_of(xv), T::key_of(before_out[k as int]));
                    if j - 1 > k {
                        lemma_text_le_transitive(T::key_of(before_out[i]), T::key_of(before_out[k as int]), T::key_of(before_out[j - 1]));
                    }
                } else if i == k {
                    assert(after[j] == before_out[j - 1]);
                    if j - 1 > k {
                        lemma_text_le_transitive(T::key_of(xv), T::key_of(before_out[k as int]), T::key_of(before_out[j - 1]));
                    }
                } else {
                    assert(after[j] == before_out[j - 1]);
                    assert(after[i] == before_out[i - 1]);
                }
            }
            assert(after.remove(k as int) =~= before_out);
            after.to_multiset_ensures();
            assert(after.remove(k as int).to_multiset() == after.to_multiset().remove(after[k as int]));
            assert(after.to_multiset().remove(xv) == before_out.to_multiset());
            assert(after.to_multiset().count(xv) > 0) by {
                assert(after[k as int] == xv);
                assert(after.contains(xv));
            }
            assert(after.to_multiset() =~= before_out.to_multiset().insert(xv));
            view_seq(input@).to_multiset_ensures();
            assert(view_seq(input@).push(xv).to_multiset() =~= view_seq(input@).to_multiset().insert(xv));
            assert(before_in.to_multiset() =~= view_seq(input@).to_multiset().insert(xv));
            assert(after.to_multiset().add(view_seq(input@).to_multiset()) =~= before_out.to_multiset().add(
                before_in.to_multiset(),
            ));
        }
    }
    assert(view_seq(input@) =~= Seq::<T::V>::empty());
    assert(view_seq(out@).to_multiset().add(view_seq(input@).to_multiset()) =~= view_seq(out@).to_multiset());
    out
}

} // verus!
