//! Sequences of results that stop at their first error: what a decoder
//! yields, call after call.

use crate::error::Decoded;
use crate::error::DecodeError;
use vstd::prelude::*;

verus! {

/// The number of results at the front of `s` that are no errors.
pub open spec fn ok_prefix_len<T>(s: Seq<Decoded<T>>) -> int
    decreases s.len(),
{
    if s.len() == 0 || s[0] is Err {
        0
    } else {
        1 + ok_prefix_len(s.skip(1))
    }
}

/// All values of `s` where none of its results is an error, and else its
/// first error.
pub open spec fn gather<T>(s: Seq<Decoded<T>>) -> Decoded<Seq<T>> {
    let k = ok_prefix_len(s);
    if k == s.len() {
        Ok(Seq::new(s.len(), |i: int| s[i]->Ok_0))
    } else {
        Err(s[k]->Err_0)
    }
}

/// The results of `s` up to its first error, the error included.
pub open spec fn cut<T>(s: Seq<Decoded<T>>) -> Seq<Decoded<T>> {
    if ok_prefix_len(s) < s.len() {
        s.take(ok_prefix_len(s) + 1)
    } else {
        s
    }
}

/// What one call of a decoder's `next` does to the results it has yet to
/// yield: it hands out the first of them and keeps the rest, or finds
/// none left.
pub open spec fn is_next<T: View>(
    before: Seq<Decoded<T::V>>,
    r: Option<Decoded<T>>,
    after: Seq<Decoded<T::V>>,
) -> bool {
    match r {
        Some(Ok(v)) => before.len() > 0 && before[0] == Ok::<T::V, DecodeError>(v@) && after
            == before.skip(1),
        Some(Err(e)) => before.len() > 0 && before[0] == Err::<T::V, DecodeError>(e) && after
            == before.skip(1),
        None => before.len() == 0 && after.len() == 0,
    }
}

/// `ok_prefix_len` is the position of the first error, or the length where
/// there is none.
pub proof fn lemma_ok_prefix_len<T>(s: Seq<Decoded<T>>)
    ensures
        0 <= ok_prefix_len(s) <= s.len(),
        forall|i: int| 0 <= i < ok_prefix_len(s) ==> (#[trigger] s[i]) is Ok,
        ok_prefix_len(s) < s.len() ==> s[ok_prefix_len(s)] is Err,
    decreases s.len(),
{
    if s.len() > 0 && s[0] is Ok {
        let rest = s.skip(1);
        lemma_ok_prefix_len(rest);
        assert forall|i: int| 0 <= i < ok_prefix_len(s) implies (#[trigger] s[i]) is Ok by {
            if i > 0 {
                assert(s[i] == rest[i - 1]);
            }
        }
        if ok_prefix_len(s) < s.len() {
            assert(s[ok_prefix_len(s)] == rest[ok_prefix_len(rest)]);
        }
    }
}

/// A position before which all results are good, and which holds an error
/// or is the length, is `ok_prefix_len`.
pub proof fn lemma_ok_prefix_len_is<T>(s: Seq<Decoded<T>>, k: int)
    requires
        0 <= k <= s.len(),
        forall|i: int| 0 <= i < k ==> (#[trigger] s[i]) is Ok,
        k < s.len() ==> s[k] is Err,
    ensures
        ok_prefix_len(s) == k,
{
    lemma_ok_prefix_len(s);
    let p = ok_prefix_len(s);
    if p < k {
        assert(s[p] is Ok);
    } else if p > k {
        assert(s[k] is Ok);
    }
}

/// The first result of a sequence is the first that its cut yields; after
/// a good one the cut goes on with the rest, and after an error it ends.
pub proof fn lemma_cut_step<T>(s: Seq<Decoded<T>>)
    requires
        s.len() > 0,
    ensures
        cut(s).len() > 0,
        cut(s)[0] == s[0],
        s[0] is Ok ==> cut(s).skip(1) == cut(s.skip(1)),
        s[0] is Err ==> cut(s).skip(1) == Seq::<Decoded<T>>::empty(),
{
    lemma_ok_prefix_len(s);
    lemma_ok_prefix_len(s.skip(1));
    if s[0] is Ok {
        assert(cut(s).skip(1) =~= cut(s.skip(1)));
    } else {
        assert(cut(s).skip(1) =~= Seq::<Decoded<T>>::empty());
    }
}

/// What follows the first error of a sequence does not show in its cut:
/// the parts of a sequence may be cut before they are joined.
pub proof fn lemma_cut_concat<T>(a: Seq<Decoded<T>>, b: Seq<Decoded<T>>)
    ensures
        cut(cut(a) + b) == cut(a + b),
        cut(a + cut(b)) == cut(a + b),
        cut(cut(a) + cut(b)) == cut(a + b),
{
    lemma_ok_prefix_len(a);
    lemma_ok_prefix_len(b);
    let ka = ok_prefix_len(a);
    let kb = ok_prefix_len(b);
    if ka < a.len() {
        let ca = a.take(ka + 1);
        assert(cut(a) == ca);
        assert forall|s: Seq<Decoded<T>>| #![auto] cut(ca + s) == ca && cut(a + s) == ca by {
            assert forall|i: int| 0 <= i < ka implies (#[trigger] (ca + s)[i]) is Ok by {
                assert((ca + s)[i] == a[i]);
            }
            assert((ca + s)[ka] == a[ka]);
            lemma_ok_prefix_len_is(ca + s, ka);
            assert((ca + s).take(ka + 1) =~= ca);
            assert forall|i: int| 0 <= i < ka implies (#[trigger] (a + s)[i]) is Ok by {
                assert((a + s)[i] == a[i]);
            }
            assert((a + s)[ka] == a[ka]);
            lemma_ok_prefix_len_is(a + s, ka);
            assert((a + s).take(ka + 1) =~= ca);
        }
        assert(cut(ca + b) == ca);
        assert(cut(a + b) == ca);
        assert(cut(a + cut(b)) == ca);
        assert(cut(ca + cut(b)) == ca);
    } else {
        assert(cut(a) == a);
        let k = ka + kb;
        assert forall|i: int| 0 <= i < k implies (#[trigger] (a + b)[i]) is Ok by {
            if i < ka {
                assert((a + b)[i] == a[i]);
            } else {
                assert((a + b)[i] == b[i - ka]);
            }
        }
        if kb < b.len() {
            let cb = b.take(kb + 1);
            assert(cut(b) == cb);
            assert((a + b)[k] == b[kb]);
            lemma_ok_prefix_len_is(a + b, k);
            assert forall|i: int| 0 <= i < k implies (#[trigger] (a + cb)[i]) is Ok by {
                if i < ka {
                    assert((a + cb)[i] == a[i]);
                } else {
                    assert((a + cb)[i] == b[i - ka]);
                }
            }
            assert((a + cb)[k] == b[kb]);
            lemma_ok_prefix_len_is(a + cb, k);
            assert(cut(a + cb) =~= cut(a + b));
        } else {
            assert(cut(b) == b);
        }
    }
}

/// The first result of two joined sequences is the first of the first
/// one, where it has one; after a good one the cut goes on with the rest.
pub proof fn lemma_cut_concat_step<T>(a: Seq<Decoded<T>>, b: Seq<Decoded<T>>)
    requires
        a.len() > 0,
    ensures
        cut(a + b).len() > 0,
        cut(a + b)[0] == a[0],
        a[0] is Ok ==> cut(a + b).skip(1) == cut(a.skip(1) + b),
        a[0] is Err ==> cut(a + b).skip(1) == Seq::<Decoded<T>>::empty(),
{
    lemma_cut_step(a + b);
    assert((a + b).skip(1) =~= a.skip(1) + b);
}

/// The results of `s` with `f` applied to the good ones.
pub open spec fn lift<T, U>(s: Seq<Decoded<T>>, f: spec_fn(T) -> U) -> Seq<Decoded<U>> {
    Seq::new(
        s.len(),
        |i: int|
            match s[i] {
                Ok(v) => Ok(f(v)),
                Err(e) => Err(e),
            },
    )
}

/// It is the same to cut before `f` is applied and after.
pub proof fn lemma_lift_cut<T, U>(s: Seq<Decoded<T>>, f: spec_fn(T) -> U)
    ensures
        lift(cut(s), f) == cut(lift(s, f)),
{
    lemma_ok_prefix_len(s);
    let t = lift(s, f);
    assert forall|i: int| 0 <= i < ok_prefix_len(s) implies (#[trigger] t[i]) is Ok by {
        assert(s[i] is Ok);
    }
    lemma_ok_prefix_len_is(t, ok_prefix_len(s));
    assert(lift(cut(s), f) =~= cut(t));
}

} // verus!
