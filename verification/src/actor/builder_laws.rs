//! What a draft of a graph has to be like, and what becomes of it.

use vstd::prelude::*;

use crate::actor::builder::{first_flaw, firsts, firsts_of, seconds_of, Draft, Flaw};
use crate::actor::graph::Graph;

verus! {

/// Whether the actors of a draft have ids, no two the same.
pub open spec fn actors_are_told_apart<F>(d: Draft<F>) -> bool {
    &&& d.actors.len() > 0
    &&& forall|i: int| 0 <= i < d.actors.len() ==> (#[trigger] d.actors[i]).name().len() > 0
    &&& forall|i: int, j: int|
        0 <= i < j < d.actors.len() ==> (#[trigger] d.actors[i]).name() != (
        #[trigger] d.actors[j]).name()
}

/// Whether some actor of a draft has the id.
pub open spec fn has_actor<F>(d: Draft<F>, id: Seq<char>) -> bool {
    exists|i: int| 0 <= i < d.actors.len() && (#[trigger] d.actors[i]).name() == id
}

/// Whether the ingress points of a draft have names, no two the same.
pub open spec fn ingresses_are_told_apart<F>(d: Draft<F>) -> bool {
    &&& forall|i: int| 0 <= i < d.ingresses.len() ==> (#[trigger] d.ingresses[i]).0.len() > 0
    &&& forall|i: int, j: int|
        0 <= i < j < d.ingresses.len() ==> (#[trigger] d.ingresses[i]).0 != (
        #[trigger] d.ingresses[j]).0
}

proof fn lemma_all_sound(flaw: spec_fn(int) -> Option<Flaw>, n: nat)
    ensures
        first_flaw(flaw, n) is None <==> (forall|i: int|
            0 <= i < n ==> (#[trigger] flaw(i)) is None),
    decreases n,
{
    if n > 0 {
        lemma_all_sound(flaw, (n - 1) as nat);
        if first_flaw(flaw, n) is None {
            assert forall|i: int| 0 <= i < n implies (#[trigger] flaw(i)) is None by {
                if i < n - 1 {
                    assert(first_flaw(flaw, (n - 1) as nat) is None);
                }
            }
        }
        if forall|i: int| 0 <= i < n ==> (#[trigger] flaw(i)) is None {
            assert(flaw(n - 1) is None);
        }
    }
}

proof fn lemma_actor_ids<F>(d: Draft<F>, id: Seq<char>)
    ensures
        d.ids().contains(id) <==> has_actor(d, id),
{
    if d.ids().contains(id) {
        let at = d.ids().index_of(id);
        assert(d.actors[at].name() == id);
    }
    if has_actor(d, id) {
        let at = choose|i: int| 0 <= i < d.actors.len() && (#[trigger] d.actors[i]).name() == id;
        assert(d.ids()[at] == id);
    }
}

/// A draft is accepted exactly if its name is not empty, mailboxes hold something, it
/// has actors that can be told apart, as its ingress points can, and every link and every
/// ingress point leads from and to actors that there are.
pub proof fn sound_drafts_are_accepted<F>(d: Draft<F>)
    ensures
        d.flaw() is None <==> {
            &&& d.name matches Some(name) ==> name.len() > 0
            &&& d.mailbox_capacity > 0
            &&& actors_are_told_apart(d)
            &&& ingresses_are_told_apart(d)
            &&& forall|i: int|
                0 <= i < d.links.len() ==> has_actor(d, (#[trigger] d.links[i]).0) && has_actor(
                    d,
                    d.links[i].1,
                )
            &&& forall|i: int|
                0 <= i < d.ingresses.len() ==> has_actor(d, (#[trigger] d.ingresses[i]).1)
        },
{
    if let Some(name) = d.name {
        assert(name.len() == 0 <==> name =~= Seq::<char>::empty());
    }
    lemma_all_sound(d.actor_flaws(), d.actors.len());
    lemma_all_sound(d.link_flaws(), d.links.len());
    lemma_all_sound(d.ingress_flaws(), d.ingresses.len());
    lemma_sound_actors(d);
    lemma_sound_links(d);
    lemma_sound_ingresses(d);
}

proof fn lemma_sound_actors<F>(d: Draft<F>)
    ensures
        d.actors.len() > 0 ==> ((forall|i: int|
            0 <= i < d.actors.len() ==> (#[trigger] d.actor_flaws()(i)) is None)
            <==> actors_are_told_apart(d)),
{
    let ids = d.ids();
    if forall|i: int| 0 <= i < d.actors.len() ==> (#[trigger] d.actor_flaws()(i)) is None {
        assert forall|i: int| 0 <= i < d.actors.len() implies (
        #[trigger] d.actors[i]).name().len() > 0 by {
            assert(d.actor_flaws()(i) is None);
            assert(ids[i] == d.actors[i].name());
        }
        assert forall|i: int, j: int| 0 <= i < j < d.actors.len() implies (
        #[trigger] d.actors[i]).name() != (#[trigger] d.actors[j]).name() by {
            assert(d.actor_flaws()(j) is None);
            assert(ids[j] == d.actors[j].name());
            assert(ids.take(j)[i] == d.actors[i].name());
        }
    }
    if actors_are_told_apart(d) {
        assert forall|i: int| 0 <= i < d.actors.len() implies (
        #[trigger] d.actor_flaws()(i)) is None by {
            assert(ids[i] == d.actors[i].name());
            if ids.take(i).contains(ids[i]) {
                let at = ids.take(i).index_of(ids[i]);
                assert(d.actors[at].name() == d.actors[i].name());
            }
        }
    }
}

proof fn lemma_sound_links<F>(d: Draft<F>)
    ensures
        (forall|i: int| 0 <= i < d.links.len() ==> (#[trigger] d.link_flaws()(i)) is None) <==> (
        forall|i: int|
            0 <= i < d.links.len() ==> has_actor(d, (#[trigger] d.links[i]).0) && has_actor(
                d,
                d.links[i].1,
            )),
{
    assert forall|i: int| 0 <= i < d.links.len() implies ((#[trigger] d.link_flaws()(i)) is None
        <==> has_actor(d, d.links[i].0) && has_actor(d, d.links[i].1)) by {
        lemma_actor_ids(d, d.links[i].0);
        lemma_actor_ids(d, d.links[i].1);
    }
    if forall|i: int| 0 <= i < d.links.len() ==> (#[trigger] d.link_flaws()(i)) is None {
        assert forall|i: int| 0 <= i < d.links.len() implies has_actor(
            d,
            (#[trigger] d.links[i]).0,
        ) && has_actor(d, d.links[i].1) by {
            assert(d.link_flaws()(i) is None);
        }
    }
}

proof fn lemma_sound_ingresses<F>(d: Draft<F>)
    ensures
        (forall|i: int| 0 <= i < d.ingresses.len() ==> (#[trigger] d.ingress_flaws()(i)) is None)
            <==> ingresses_are_told_apart(d) && (forall|i: int|
            0 <= i < d.ingresses.len() ==> has_actor(d, (#[trigger] d.ingresses[i]).1)),
{
    let names = firsts(d.ingresses);
    if forall|i: int| 0 <= i < d.ingresses.len() ==> (#[trigger] d.ingress_flaws()(i)) is None {
        assert forall|i: int| 0 <= i < d.ingresses.len() implies (
        #[trigger] d.ingresses[i]).0.len() > 0 && has_actor(d, d.ingresses[i].1) by {
            assert(d.ingress_flaws()(i) is None);
            lemma_actor_ids(d, d.ingresses[i].1);
        }
        assert forall|i: int, j: int| 0 <= i < j < d.ingresses.len() implies (
        #[trigger] d.ingresses[i]).0 != (#[trigger] d.ingresses[j]).0 by {
            assert(d.ingress_flaws()(j) is None);
            assert(names.take(j)[i] == d.ingresses[i].0);
        }
    }
    if ingresses_are_told_apart(d) && (forall|i: int|
        0 <= i < d.ingresses.len() ==> has_actor(d, (#[trigger] d.ingresses[i]).1)) {
        assert forall|i: int| 0 <= i < d.ingresses.len() implies (
        #[trigger] d.ingress_flaws()(i)) is None by {
            lemma_actor_ids(d, d.ingresses[i].1);
            if names.take(i).contains(d.ingresses[i].0) {
                let at = names.take(i).index_of(d.ingresses[i].0);
                assert(d.ingresses[at].0 == d.ingresses[i].0);
            }
        }
    }
}

proof fn lemma_seconds(pairs: Seq<(Seq<char>, Seq<char>)>, from: Seq<char>, to: Seq<char>)
    ensures
        seconds_of(pairs, from).contains(to) <==> pairs.contains((from, to)),
    decreases pairs.len(),
{
    if pairs.len() > 0 {
        let rest = pairs.drop_last();
        lemma_seconds(rest, from, to);
        let found = seconds_of(rest, from);
        if pairs.contains((from, to)) {
            let at = pairs.index_of((from, to));
            if at < rest.len() {
                assert(rest[at] == (from, to));
                let k = found.index_of(to);
                assert(seconds_of(pairs, from)[k] == to);
            } else {
                assert(seconds_of(pairs, from).last() == to);
            }
        }
        if seconds_of(pairs, from).contains(to) {
            let k = seconds_of(pairs, from).index_of(to);
            if k < found.len() {
                assert(found[k] == to);
                assert(pairs[rest.index_of((from, to))] == (from, to));
            } else {
                assert(pairs[pairs.len() - 1] == (from, to));
            }
        }
    }
}

proof fn lemma_firsts(pairs: Seq<(Seq<char>, Seq<char>)>, name: Seq<char>, id: Seq<char>)
    ensures
        firsts_of(pairs, id).contains(name) <==> pairs.contains((name, id)),
    decreases pairs.len(),
{
    if pairs.len() > 0 {
        let rest = pairs.drop_last();
        lemma_firsts(rest, name, id);
        let found = firsts_of(rest, id);
        if pairs.contains((name, id)) {
            let at = pairs.index_of((name, id));
            if at < rest.len() {
                assert(rest[at] == (name, id));
                let k = found.index_of(name);
                assert(firsts_of(pairs, id)[k] == name);
            } else {
                assert(firsts_of(pairs, id).last() == name);
            }
        }
        if firsts_of(pairs, id).contains(name) {
            let k = firsts_of(pairs, id).index_of(name);
            if k < found.len() {
                assert(found[k] == name);
                assert(pairs[rest.index_of((name, id))] == (name, id));
            } else {
                assert(pairs[pairs.len() - 1] == (name, id));
            }
        }
    }
}

/// A graph is wired as it was drafted: an actor is linked to another exactly if the draft
/// says so, and in that direction; an ingress point leads to an actor exactly if the draft
/// says so. The actors are those of the draft, in that order, and the limits are its own.
pub proof fn graphs_are_wired_as_drafted<F>(
    graph: Graph<F>,
    d: Draft<F>,
    from: Seq<char>,
    to: Seq<char>,
    name: Seq<char>,
)
    requires
        graph.realizes(d),
        has_actor(d, from),
    ensures
        graph.links_from(from).contains(to) <==> d.links.contains((from, to)),
        graph.entrances_to(to).contains(name) <==> d.ingresses.contains((name, to)),
        d.ingresses.contains((name, to)) ==> graph.entrances()[name].target() == to,
        graph.specs() == d.actors,
        graph.capacity() == d.mailbox_capacity,
        graph.envelope_limit() == d.max_envelope_bytes,
        graph.blocking_limit() == d.max_blocking_tasks_per_actor,
        graph.blocking_timeout() == d.blocking_shutdown_timeout,
{
    lemma_actor_ids(d, from);
    lemma_seconds(d.links, from, to);
    lemma_firsts(d.ingresses, name, to);
    assert(graph.entrances_to(to) == firsts_of(d.ingresses, to));
    if d.ingresses.contains((name, to)) {
        let at = d.ingresses.index_of((name, to));
        assert(d.ingresses[at] == (name, to));
    }
}

} // verus!
