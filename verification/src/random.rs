//! Random selection of katas.

use rand::seq::SliceRandom;
use vstd::prelude::*;

verus! {

use vstd::seq_lib::lemma_multiset_commutative;

/// Why no random selection could be made.
#[derive(Debug)]
pub enum RandomError {
    /// Zero katas were requested.
    Zero,
    /// There is no kata to choose from.
    Empty,
    /// More katas were requested than there are; carries how many there are.
    NotEnough { available: usize },
}

/// Relies on rand's SliceRandom::shuffle: it permutes the vector in place
/// by swaps, so the elements afterwards form the same multiset.
#[verifier::external_body]
pub(crate) fn shuffle_strings(v: &mut Vec<String>)
    ensures
        final(v)@.to_multiset() == old(v)@.to_multiset(),
        final(v)@.len() == old(v)@.len(),
{
    v.shuffle(&mut rand::thread_rng());
}

/// The first `count` names of the vector, in order.
fn take_prefix(v: &Vec<String>, count: usize) -> (r: Vec<String>)
    requires
        count <= v@.len(),
    ensures
        r@ == v@.subrange(0, count as int),
{
    let mut r: Vec<String> = Vec::new();
    let mut i: usize = 0;
    while i < count
        invariant
            0 <= i <= count <= v@.len(),
            r@ == v@.subrange(0, i as int),
        decreases count - i,
    {
        r.push(v[i].clone());
        proof {
            assert(r@ =~= v@.subrange(0, i + 1));
        }
        i = i + 1;
    }
    r
}

/// Chooses `number_of_katas` distinct entries of `kata_names` at random:
/// the names are shuffled and the first `number_of_katas` are returned.
/// Fails when zero katas are requested, when there is none to choose
/// from, and when more are requested than there are.
pub fn random_katas(kata_names: Vec<String>, number_of_katas: u8) -> (r: Result<
    Vec<String>,
    RandomError,
>)
    ensures
        r is Ok <==> 0 < number_of_katas && number_of_katas as nat <= kata_names@.len(),
        r matches Err(e) ==> {
            &&& (e is Zero <==> number_of_katas == 0)
            &&& (e is Empty <==> number_of_katas > 0 && kata_names@.len() == 0)
            &&& (e is NotEnough <==> number_of_katas > 0 && 0 < kata_names@.len()
                < number_of_katas as nat)
            &&& (e matches RandomError::NotEnough { available } ==> available == kata_names@.len())
        },
        r matches Ok(v) ==> {
            &&& v@.len() == number_of_katas
            &&& v@.to_multiset().subset_of(kata_names@.to_multiset())
            &&& (kata_names@.no_duplicates() ==> v@.no_duplicates())
        },
{
    if number_of_katas == 0 {
        return Err(RandomError::Zero);
    }
    if kata_names.len() == 0 {
        return Err(RandomError::Empty);
    }
    if (number_of_katas as usize) > kata_names.len() {
        return Err(RandomError::NotEnough { available: kata_names.len() });
    }
    let ghost orig = kata_names@;
    let mut names = kata_names;
    shuffle_strings(&mut names);
    let picked = take_prefix(&names, number_of_katas as usize);
    proof {
        let n = number_of_katas as int;
        let pre = names@.subrange(0, n);
        let post = names@.subrange(n, names@.len() as int);
        assert(names@ =~= pre + post);
        lemma_multiset_commutative(pre, post);
        assert forall|x: String| pre.to_multiset().count(x) <= orig.to_multiset().count(x) by {
            assert(names@.to_multiset().count(x) == pre.to_multiset().count(x)
                + post.to_multiset().count(x));
        }
        if orig.no_duplicates() {
            orig.lemma_multiset_has_no_duplicates();
            assert forall|x: String|
                names@.to_multiset().contains(x) implies names@.to_multiset().count(x) == 1 by {
                assert(orig.to_multiset().count(x) == names@.to_multiset().count(x));
            }
            names@.lemma_multiset_has_no_duplicates_conv();
            assert forall|i: int, j: int|
                0 <= i < pre.len() && 0 <= j < pre.len() && i != j implies pre[i] != pre[j] by {
                assert(names@[i] == pre[i] && names@[j] == pre[j]);
            }
        }
    }
    Ok(picked)
}

/// Every kata of a random selection comes from the given list: a
/// multiset contained in another only holds that one's elements. With
/// what `random_katas` ensures of an `Ok` result, each of the returned
/// names is one of the names it was given.
pub proof fn lemma_chosen_from_list(chosen: Seq<String>, list: Seq<String>)
    requires
        chosen.to_multiset().subset_of(list.to_multiset()),
    ensures
        forall|i: int| 0 <= i < chosen.len() ==> list.contains(#[trigger] chosen[i]),
{
    broadcast use vstd::seq_lib::group_to_multiset_ensures;

    assert forall|i: int| 0 <= i < chosen.len() implies list.contains(chosen[i]) by {
        assert(chosen.contains(chosen[i]));
        assert(chosen.to_multiset().count(chosen[i]) > 0);
        assert(list.to_multiset().count(chosen[i]) > 0);
        assert(list.contains(chosen[i]));
    }
}

} // verus!
