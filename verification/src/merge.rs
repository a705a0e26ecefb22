//! Merging a requested change into the environment that was fetched.

use crate::mapping::{
    assigned, is_last_with_name, lemma_assigned_last_wins, lemma_assigned_names,
    lemma_assigned_push, lemma_assigned_untouched, names, pair_views, removed, text_views, Env,
    Text, Variables,
};
use vstd::prelude::*;

verus! {

/// A change to an environment, as the caller asks for it.
#[derive(Debug, Clone, PartialEq, Eq)]
pub enum Request {
    /// Set each name to the value beside it, in the order given.
    Assign(Vec<(String, String)>),
    /// Unset each of the names.
    Remove(Vec<String>),
}

impl Request {
    /// The environment that the request asks for when `current` is the one
    /// in place.
    pub open spec fn applied_to(self, current: Variables) -> Variables {
        match self {
            Request::Assign(pairs) => assigned(current, pair_views(pairs@)),
            Request::Remove(unset) => removed(current, text_views(unset@)),
        }
    }
}

/// `current` with every pair of `pairs` written into it, first to last.
fn assign(current: Env, pairs: &Vec<(String, String)>) -> (desired: Env)
    ensures
        desired@ == assigned(current@, pair_views(pairs@)),
{
    let mut desired = current;
    let mut i: usize = 0;
    while i < pairs.len()
        invariant
            i <= pairs.len(),
            desired@ == assigned(current@, pair_views(pairs@).take(i as int)),
        decreases pairs.len() - i,
    {
        let name = pairs[i].0.clone();
        let value = pairs[i].1.clone();
        proof {
            let views = pair_views(pairs@);
            assert(views.take(i + 1) =~= views.take(i as int).push(views[i as int]));
            lemma_assigned_push(current@, views.take(i as int), views[i as int]);
        }
        desired.insert(name, value);
        i += 1;
    }
    proof {
        let views = pair_views(pairs@);
        assert(views.take(pairs.len() as int) =~= views);
    }
    desired
}

/// `current` without the names in `unset`.
fn remove(current: Env, unset: &Vec<String>) -> (desired: Env)
    ensures
        desired@ == removed(current@, text_views(unset@)),
{
    let mut desired = current;
    let mut i: usize = 0;
    while i < unset.len()
        invariant
            i <= unset.len(),
            desired@ == removed(current@, text_views(unset@).take(i as int)),
        decreases unset.len() - i,
    {
        proof {
            let views = text_views(unset@);
            let done = views.take(i as int);
            let next = views.take(i + 1);
            assert(next =~= done.push(views[i as int]));
            assert(next.to_set() =~= done.to_set().insert(views[i as int])) by {
                assert forall|name: Text| next.to_set().contains(name) implies done.to_set().insert(
                    views[i as int],
                ).contains(name) by {
                    let j = choose|j: int| 0 <= j < next.len() && next[j] == name;
                    if j < i {
                        assert(done[j] == name);
                    }
                }
                assert forall|name: Text|
                    done.to_set().insert(views[i as int]).contains(
                        name,
                    ) implies next.to_set().contains(name) by {
                    if name == views[i as int] {
                        assert(next[i as int] == name);
                    } else {
                        let j = choose|j: int| 0 <= j < done.len() && done[j] == name;
                        assert(next[j] == name);
                    }
                }
            }
            assert(removed(current@, next) =~= removed(current@, done).remove(views[i as int]));
        }
        desired.remove(unset[i].as_str());
        i += 1;
    }
    proof {
        let views = text_views(unset@);
        assert(views.take(unset.len() as int) =~= views);
    }
    desired
}

/// The environment to put in place: `current` changed as `request` asks.
///
/// An assignment overwrites the names it mentions and adds those that are
/// new; of two pairs with one name the later one stays. A removal drops the
/// names it mentions and passes over those that are not set. Every other
/// name keeps its value.
pub fn merge(current: Env, request: &Request) -> (desired: Env)
    ensures
        desired@ == request.applied_to(current@),
{
    match request {
        Request::Assign(pairs) => assign(current, pairs),
        Request::Remove(unset) => remove(current, unset),
    }
}

/// A name that some pair mentions has a last pair that mentions it.
proof fn lemma_last_with_name_exists(pairs: Seq<(Text, Text)>, name: Text) -> (i: int)
    requires
        names(pairs, name),
    ensures
        is_last_with_name(pairs, i),
        pairs[i].0 == name,
    decreases pairs.len(),
{
    if pairs.last().0 == name {
        pairs.len() - 1
    } else {
        let front = pairs.drop_last();
        let k = choose|k: int| 0 <= k < pairs.len() && (#[trigger] pairs[k]).0 == name;
        assert(front[k].0 == name);
        let i = lemma_last_with_name_exists(front, name);
        assert forall|j: int| i < j < pairs.len() implies (#[trigger] pairs[j]).0
            != pairs[i].0 by {
            if j < front.len() {
                assert(front[j].0 != front[i].0);
            }
        }
        i
    }
}

/// After an assignment every name that a pair mentions has the value of the
/// last pair that mentions it, and every other name is as it was: present or
/// absent, and with the same value.
pub proof fn lemma_assign_overwrites_and_keeps(current: Variables, pairs: Seq<(Text, Text)>)
    ensures
        forall|i: int|
            0 <= i < pairs.len() ==> assigned(current, pairs).contains_key(
                (#[trigger] pairs[i]).0,
            ),
        forall|i: int| #[trigger]
            is_last_with_name(pairs, i) ==> assigned(current, pairs)[pairs[i].0] == pairs[i].1,
        forall|name: Text|
            !names(pairs, name) ==> (#[trigger] assigned(current, pairs).contains_key(name)
                <==> current.contains_key(name)),
        forall|name: Text|
            !names(pairs, name) && current.contains_key(name) ==> #[trigger] assigned(
                current,
                pairs,
            )[name] == current[name],
{
    assert forall|i: int| 0 <= i < pairs.len() implies assigned(current, pairs).contains_key(
        (#[trigger] pairs[i]).0,
    ) by {
        lemma_assigned_names(current, pairs, pairs[i].0);
    }
    assert forall|i: int| #[trigger] is_last_with_name(pairs, i) implies assigned(
        current,
        pairs,
    )[pairs[i].0] == pairs[i].1 by {
        lemma_assigned_last_wins(current, pairs, i);
    }
    assert forall|name: Text| !names(pairs, name) implies (#[trigger] assigned(
        current,
        pairs,
    ).contains_key(name) <==> current.contains_key(name)) by {
        lemma_assigned_untouched(current, pairs, name);
    }
    assert forall|name: Text|
        !names(pairs, name) && current.contains_key(name) implies #[trigger] assigned(
        current,
        pairs,
    )[name] == current[name] by {
        lemma_assigned_untouched(current, pairs, name);
    }
}

/// After a removal none of the listed names is set, and every other name is
/// as it was: present or absent, and with the same value.
pub proof fn lemma_remove_drops_and_keeps(current: Variables, unset: Seq<Text>)
    ensures
        forall|i: int|
            0 <= i < unset.len() ==> !removed(current, unset).contains_key(#[trigger] unset[i]),
        forall|name: Text|
            !unset.contains(name) ==> (#[trigger] removed(current, unset).contains_key(name)
                <==> current.contains_key(name)),
        forall|name: Text|
            !unset.contains(name) && current.contains_key(name) ==> #[trigger] removed(
                current,
                unset,
            )[name] == current[name],
        removed(current, unset) == current.restrict(
            Set::new(|name: Text| !unset.contains(name)),
        ),
{
    assert forall|i: int| 0 <= i < unset.len() implies !removed(current, unset).contains_key(
        #[trigger] unset[i],
    ) by {
        assert(unset.contains(unset[i]));
    }
    assert(removed(current, unset) =~= current.restrict(
        Set::new(|name: Text| !unset.contains(name)),
    ));
}

/// Assigning the same pairs a second time changes nothing.
pub proof fn lemma_assign_idempotent(current: Variables, pairs: Seq<(Text, Text)>)
    ensures
        assigned(assigned(current, pairs), pairs) == assigned(current, pairs),
{
    let once = assigned(current, pairs);
    let twice = assigned(once, pairs);
    assert forall|name: Text| twice.contains_key(name) <==> once.contains_key(name) by {
        lemma_assigned_names(once, pairs, name);
        lemma_assigned_names(current, pairs, name);
    }
    assert forall|name: Text| once.contains_key(name) implies twice[name] == once[name] by {
        if names(pairs, name) {
            let i = lemma_last_with_name_exists(pairs, name);
            lemma_assigned_last_wins(current, pairs, i);
            lemma_assigned_last_wins(once, pairs, i);
        } else {
            lemma_assigned_untouched(once, pairs, name);
        }
    }
    assert(twice =~= once);
}

/// Removing the same names a second time changes nothing.
pub proof fn lemma_remove_idempotent(current: Variables, unset: Seq<Text>)
    ensures
        removed(removed(current, unset), unset) == removed(current, unset),
{
    assert(removed(removed(current, unset), unset) =~= removed(current, unset));
}

/// Carrying out a request a second time changes nothing.
pub proof fn lemma_request_idempotent(current: Variables, request: Request)
    ensures
        request.applied_to(request.applied_to(current)) == request.applied_to(current),
{
    match request {
        Request::Assign(pairs) => lemma_assign_idempotent(current, pair_views(pairs@)),
        Request::Remove(unset) => lemma_remove_idempotent(current, text_views(unset@)),
    }
}

} // verus!
