//! Rotation of a finite sequence, the mathematical model of a turning wheel.

use vstd::arithmetic::div_mod::{
    lemma_add_mod_noop, lemma_mod_add_multiples_vanish, lemma_mod_twice, lemma_small_mod,
};
use vstd::prelude::*;
use vstd::seq_lib::{to_multiset_build, to_multiset_remove};

verus! {

/// `s` turned by one place: the head leaves the front and joins the end.
pub open spec fn turn<T>(s: Seq<T>) -> Seq<T> {
    if s.len() == 0 {
        s
    } else {
        s.drop_first().push(s.first())
    }
}

/// `s` after `k` single turns.
pub open spec fn turn_by<T>(s: Seq<T>, k: nat) -> Seq<T>
    decreases k,
{
    if k == 0 {
        s
    } else {
        turn(turn_by(s, (k - 1) as nat))
    }
}

/// Turning keeps the length, and after `k` turns position `i` holds what stood
/// `k` places further round the wheel.
pub proof fn lemma_turn_by_index<T>(s: Seq<T>, k: nat)
    ensures
        turn_by(s, k).len() == s.len(),
        forall|i: int|
            0 <= i < s.len() ==> #[trigger] turn_by(s, k)[i] == s[(i + k) % (s.len() as int)],
    decreases k,
{
    let n = s.len() as int;
    if k == 0 {
        assert forall|i: int| 0 <= i < n implies #[trigger] turn_by(s, k)[i] == s[(i + k) % n] by {
            lemma_small_mod(i as nat, n as nat);
        }
    } else {
        let before = turn_by(s, (k - 1) as nat);
        lemma_turn_by_index(s, (k - 1) as nat);
        assert forall|i: int| 0 <= i < n implies #[trigger] turn_by(s, k)[i] == s[(i + k) % n] by {
            if i < n - 1 {
                assert(turn(before)[i] == before[i + 1]);
            } else {
                assert(turn(before)[i] == before[0]);
                lemma_mod_add_multiples_vanish(k - 1, n);
            }
        }
    }
}

/// After `k` turns the head is the element that stood at offset `k mod len`.
pub proof fn lemma_turn_by_head<T>(s: Seq<T>, k: nat)
    requires
        s.len() > 0,
    ensures
        turn_by(s, k)[0] == s[(k as int) % (s.len() as int)],
{
    lemma_turn_by_index(s, k);
}

/// A full round of `len` turns brings every element back to its place.
pub proof fn lemma_turn_by_full_round<T>(s: Seq<T>)
    ensures
        turn_by(s, s.len()) == s,
{
    let n = s.len() as int;
    lemma_turn_by_index(s, s.len());
    assert forall|i: int| 0 <= i < n implies turn_by(s, s.len())[i] == s[i] by {
        lemma_mod_add_multiples_vanish(i, n);
        lemma_small_mod(i as nat, n as nat);
    }
    assert(turn_by(s, s.len()) =~= s);
}

/// Only the number of turns modulo the length matters.
pub proof fn lemma_turn_by_mod<T>(s: Seq<T>, k: nat)
    requires
        s.len() > 0,
    ensures
        turn_by(s, k) == turn_by(s, k % s.len()),
{
    let n = s.len() as int;
    let r = k % s.len();
    lemma_turn_by_index(s, k);
    lemma_turn_by_index(s, r);
    assert forall|i: int| 0 <= i < n implies turn_by(s, k)[i] == turn_by(s, r)[i] by {
        lemma_add_mod_noop(i, k as int, n);
        lemma_add_mod_noop(i, r as int, n);
        lemma_mod_twice(k as int, n);
    }
    assert(turn_by(s, k) =~= turn_by(s, r));
}

/// A turned sequence is the old one cut at the new head, the two parts swapped.
pub proof fn lemma_turn_by_is_cut<T>(s: Seq<T>, k: nat)
    requires
        s.len() > 0,
    ensures
        turn_by(s, k) == s.subrange((k % s.len()) as int, s.len() as int) + s.subrange(
            0,
            (k % s.len()) as int,
        ),
{
    let n = s.len() as int;
    let r = (k % s.len()) as int;
    let cut = s.subrange(r, n) + s.subrange(0, r);
    lemma_turn_by_mod(s, k);
    lemma_turn_by_index(s, r as nat);
    assert forall|i: int| 0 <= i < n implies turn_by(s, r as nat)[i] == cut[i] by {
        if i + r < n {
            lemma_small_mod((i + r) as nat, n as nat);
        } else {
            lemma_mod_add_multiples_vanish(i + r - n, n);
            lemma_small_mod((i + r - n) as nat, n as nat);
        }
    }
    assert(turn_by(s, r as nat) =~= cut);
}

/// One turn neither adds nor drops an element.
pub proof fn lemma_turn_multiset<T>(s: Seq<T>)
    ensures
        turn(s).to_multiset() == s.to_multiset(),
{
    if s.len() > 0 {
        let rest = s.drop_first();
        to_multiset_build(rest, s.first());
        to_multiset_remove(s, 0);
        assert(s.remove(0) =~= rest);
        s.to_multiset_ensures();
        assert(s.contains(s[0]));
        assert(turn(s).to_multiset() =~= s.to_multiset());
    }
}

/// However often a wheel turns, it holds the same elements, each as often as
/// before.
pub proof fn lemma_turn_by_multiset<T>(s: Seq<T>, k: nat)
    ensures
        turn_by(s, k).to_multiset() == s.to_multiset(),
    decreases k,
{
    if k > 0 {
        lemma_turn_by_multiset(s, (k - 1) as nat);
        lemma_turn_multiset(turn_by(s, (k - 1) as nat));
    }
}

} // verus!
