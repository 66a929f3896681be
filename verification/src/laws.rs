//! What holds of the scene graph across calls.
use vstd::prelude::*;

use crate::color::Material;
use crate::channel::taken_from;
use crate::object::{has_link, link_position, material_sends, transform_sends, Group, Object, VisualObject};
use crate::scene::{
    lemma_nodes_wf_same_parents, lemma_visuals_wf_same_nodes,
    node_update, nodes_after, nodes_wf, same_locals, visual_update, visuals_after, visuals_wf, world_composed,
    Message, Node, Scene, Visual,
};

verus! {

/// Messages change local transforms and materials only: the nodes keep their
/// number, parents and world transforms, the visuals their number, nodes and
/// GPU data, and a well-formed scene stays well-formed.
pub proof fn lemma_messages_keep_structure<T, G>(
    nodes: Seq<Node<T>>,
    visuals: Seq<Visual<G>>,
    msgs: Seq<Message<T>>,
)
    ensures
        nodes_after(nodes, msgs).len() == nodes.len(),
        visuals_after(visuals, msgs).len() == visuals.len(),
        forall|i: int| 0 <= i < nodes.len() ==>
            (#[trigger] nodes_after(nodes, msgs)[i]).parent == nodes[i].parent
            && nodes_after(nodes, msgs)[i].world == nodes[i].world,
        forall|i: int| 0 <= i < visuals.len() ==>
            (#[trigger] visuals_after(visuals, msgs)[i]).node == visuals[i].node
            && visuals_after(visuals, msgs)[i].gpu_data == visuals[i].gpu_data,
        nodes_wf(nodes) ==> nodes_wf(nodes_after(nodes, msgs)),
        visuals_wf(visuals, nodes.len()) ==> visuals_wf(visuals_after(visuals, msgs), nodes.len()),
    decreases msgs.len(),
{
    if msgs.len() > 0 {
        lemma_messages_keep_structure(nodes, visuals, msgs.drop_last());
        let before = nodes_after(nodes, msgs.drop_last());
        let vbefore = visuals_after(visuals, msgs.drop_last());
        let after = nodes_after(nodes, msgs);
        let vafter = visuals_after(visuals, msgs);
        assert(after == node_update(before, msgs.last()));
        assert(vafter == visual_update(vbefore, msgs.last()));
        assert forall|i: int| 0 <= i < nodes.len() implies (#[trigger] after[i]).parent == nodes[i].parent
            && after[i].world == nodes[i].world by {
            assert(after[i].parent == before[i].parent);
        }
        assert forall|i: int| 0 <= i < visuals.len() implies (#[trigger] vafter[i]).node == visuals[i].node
            && vafter[i].gpu_data == visuals[i].gpu_data by {
            assert(vafter[i].node == vbefore[i].node);
        }
        if nodes_wf(nodes) {
            lemma_nodes_wf_same_parents(nodes, after);
        }
        if visuals_wf(visuals, nodes.len()) {
            lemma_visuals_wf_same_nodes(visuals, vafter, nodes.len());
        }
    }
}

/// The last transform sent for a node is its local transform once the
/// messages are applied, whatever was sent before it or to other nodes.
pub proof fn lemma_last_transform_wins<T>(nodes: Seq<Node<T>>, msgs: Seq<Message<T>>, k: int, n: usize, t: T)
    requires
        0 <= k < msgs.len(),
        n < nodes.len(),
        msgs[k] == Message::SetTransform(n, t),
        forall|j: int| k < j < msgs.len() ==> !((#[trigger] msgs[j]) matches Message::SetTransform(m, _) && m == n),
    ensures
        nodes_after(nodes, msgs)[n as int].local == t,
    decreases msgs.len(),
{
    let before = nodes_after(nodes, msgs.drop_last());
    lemma_messages_keep_structure(nodes, Seq::<Visual<()>>::empty(), msgs.drop_last());
    if k == msgs.len() - 1 {
        assert(nodes_after(nodes, msgs) == node_update(before, msgs.last()));
    } else {
        assert forall|j: int| k < j < msgs.drop_last().len() implies !((#[trigger] msgs.drop_last()[j]) matches Message::SetTransform(m, _) && m == n) by {
            assert(msgs.drop_last()[j] == msgs[j]);
        }
        lemma_last_transform_wins(nodes, msgs.drop_last(), k, n, t);
        assert(!(msgs[msgs.len() - 1] matches Message::SetTransform(m, _) && m == n));
    }
}

/// The last material sent for a visual is its material once the messages
/// are applied, whatever was sent before it or to other visuals.
pub proof fn lemma_last_material_wins<T, G>(visuals: Seq<Visual<G>>, msgs: Seq<Message<T>>, k: int, v: usize, m: Material)
    requires
        0 <= k < msgs.len(),
        v < visuals.len(),
        msgs[k] == Message::<T>::SetMaterial(v, m),
        forall|j: int| k < j < msgs.len() ==> !((#[trigger] msgs[j]) matches Message::SetMaterial(w, _) && w == v),
    ensures
        visuals_after(visuals, msgs)[v as int].material == m,
    decreases msgs.len(),
{
    let before = visuals_after(visuals, msgs.drop_last());
    lemma_messages_keep_structure(Seq::<Node<T>>::empty(), visuals, msgs.drop_last());
    if k == msgs.len() - 1 {
        assert(visuals_after(visuals, msgs) == visual_update(before, msgs.last()));
    } else {
        assert forall|j: int| k < j < msgs.drop_last().len() implies !((#[trigger] msgs.drop_last()[j]) matches Message::SetMaterial(w, _) && w == v) by {
            assert(msgs.drop_last()[j] == msgs[j]);
        }
        lemma_last_material_wins(visuals, msgs.drop_last(), k, v, m);
        assert(!(msgs[msgs.len() - 1] matches Message::SetMaterial(w, _) && w == v));
    }
}

/// A transform written to an object reaches each scene it is in: of what
/// the write hands to `send` (`transform_sends`), exactly one entry is for
/// the link to that scene, it is handed to that link's sender, a clone of
/// the scene's own, and its message makes the transform the local one of the
/// object's node there and changes no other node.
pub proof fn lemma_transform_reaches_node<T: Copy, G>(object: Object<T>, scene: Scene<T, G>, t: T)
    requires
        object.wf(),
        object.is_in(scene.id()),
        object.node_in(scene.id()) < scene.nodes().len(),
        cloned(scene.message_sender(), object.links()[link_position(object.links(), scene.id())].sender()),
    ensures
        ({
            let sends = transform_sends(object.links(), t);
            let k = link_position(object.links(), scene.id());
            let n = object.node_in(scene.id());
            let after = node_update(scene.nodes(), sends[k].1);
            &&& 0 <= k < sends.len()
            &&& sends[k].0 == object.links()[k].sender()
            &&& cloned(scene.message_sender(), sends[k].0)
            &&& object.links()[k].id() == scene.id()
            &&& forall|j: int| 0 <= j < sends.len() && j != k ==> (#[trigger] object.links()[j]).id() != scene.id()
            &&& after.len() == scene.nodes().len()
            &&& after[n as int].local == t
            &&& after[n as int].world == scene.nodes()[n as int].world
            &&& forall|i: int| 0 <= i < after.len() && i != n ==> after[i] == scene.nodes()[i]
        }),
{
    let links = object.links();
    let k = link_position(links, scene.id());
    let sends = transform_sends(links, t);
    assert forall|j: int| 0 <= j < sends.len() && j != k implies (#[trigger] links[j]).id() != scene.id() by {
        assert(links[k].id() == scene.id());
    }
}

/// A material written to a visual object reaches each scene it is in: of
/// what the write hands to `send` (`material_sends`), exactly one entry is
/// for the link to that scene, it is handed to that link's sender, a clone of
/// the scene's own, and its message makes the material the one of the
/// object's visual there and changes no other visual.
pub proof fn lemma_material_reaches_visual<T: Copy, G: Clone>(object: VisualObject<T, G>, scene: Scene<T, G>, m: Material)
    requires
        object.wf(),
        object.is_in(scene.id()),
        object.visual_in(scene.id()) < scene.visuals().len(),
        cloned(scene.message_sender(), object.links()[link_position(object.links(), scene.id())].sender()),
    ensures
        ({
            let sends = material_sends(object.links(), m);
            let k = link_position(object.links(), scene.id());
            let v = object.visual_in(scene.id());
            let after = visual_update::<T, G>(scene.visuals(), sends[k].1);
            &&& 0 <= k < sends.len()
            &&& sends[k].0 == object.links()[k].sender()
            &&& cloned(scene.message_sender(), sends[k].0)
            &&& object.links()[k].id() == scene.id()
            &&& forall|j: int| 0 <= j < sends.len() && j != k ==> (#[trigger] object.links()[j]).id() != scene.id()
            &&& after.len() == scene.visuals().len()
            &&& after[v as int].material == m
            &&& after[v as int].node == scene.visuals()[v as int].node
            &&& forall|i: int| 0 <= i < after.len() && i != v ==> after[i] == scene.visuals()[i]
        }),
{
    let links = object.links();
    let k = link_position(links, scene.id());
    let sends = material_sends(links, m);
    assert forall|j: int| 0 <= j < sends.len() && j != k implies (#[trigger] links[j]).id() != scene.id() by {
        assert(links[k].id() == scene.id());
    }
}

/// The world transform of node `i` composed along its chain of ancestors: the
/// root's local transform, then each local transform down to `i`'s, joined
/// with `f`.
pub open spec fn chain_world<T>(nodes: Seq<Node<T>>, i: int, f: spec_fn(T, T) -> T) -> T
    decreases i,
{
    match nodes[i].parent {
        Some(p) => if 0 <= p < i {
            f(chain_world(nodes, p as int, f), nodes[i].local)
        } else {
            nodes[i].local
        },
        None => nodes[i].local,
    }
}

/// Once every world transform is composed from its parent's, and the
/// composition gives `f` of its arguments, each world transform is the
/// composition of the local transforms along the node's chain of ancestors.
pub proof fn lemma_world_is_chain<T, F: Fn(&T, &T) -> T>(
    nodes: Seq<Node<T>>,
    concat: F,
    f: spec_fn(T, T) -> T,
    i: int,
)
    requires
        nodes_wf(nodes),
        0 <= i < nodes.len(),
        forall|j: int| 0 <= j < nodes.len() ==> world_composed(nodes, j, concat),
        forall|a: T, b: T, r: T| call_ensures(concat, (&a, &b), r) ==> r == f(a, b),
    ensures
        nodes[i].world == chain_world(nodes, i, f),
    decreases i,
{
    assert(world_composed(nodes, i, concat));
    match nodes[i].parent {
        Some(p) => {
            assert(p < i);
            lemma_world_is_chain(nodes, concat, f, p as int);
        },
        None => {},
    }
}

/// World transforms are determined by the local ones: two graphs with the
/// same parents and local transforms, each fully composed with a composition
/// that gives `f` of its arguments, have the same world transforms. So
/// recomputing the world transforms of an unchanged scene changes nothing.
pub proof fn lemma_worlds_determined<T, F: Fn(&T, &T) -> T>(
    a: Seq<Node<T>>,
    b: Seq<Node<T>>,
    concat: F,
    f: spec_fn(T, T) -> T,
)
    requires
        nodes_wf(a),
        same_locals(a, b),
        forall|j: int| 0 <= j < a.len() ==> world_composed(a, j, concat),
        forall|j: int| 0 <= j < b.len() ==> world_composed(b, j, concat),
        forall|x: T, y: T, r: T| call_ensures(concat, (&x, &y), r) ==> r == f(x, y),
    ensures
        forall|i: int| 0 <= i < a.len() ==> (#[trigger] a[i]).world == b[i].world,
{
    lemma_nodes_wf_same_parents(a, b);
    assert forall|i: int| 0 <= i < a.len() implies (#[trigger] a[i]).world == b[i].world by {
        lemma_world_is_chain(a, concat, f, i);
        lemma_world_is_chain(b, concat, f, i);
        lemma_chain_same_locals(a, b, f, i);
    }
}

/// The chain composition reads only parents and local transforms.
proof fn lemma_chain_same_locals<T>(a: Seq<Node<T>>, b: Seq<Node<T>>, f: spec_fn(T, T) -> T, i: int)
    requires
        same_locals(a, b),
        0 <= i < a.len(),
    ensures
        chain_world(a, i, f) == chain_world(b, i, f),
    decreases i,
{
    assert(a[i].parent == b[i].parent && a[i].local == b[i].local);
    match a[i].parent {
        Some(p) => if 0 <= p < i {
            lemma_chain_same_locals(a, b, f, p as int);
        },
        None => {},
    }
}

/// `concat` gives one result for the same arguments.
pub open spec fn deterministic<T, F: Fn(&T, &T) -> T>(concat: F) -> bool {
    forall|a: T, b: T, r1: T, r2: T|
        call_ensures(concat, (&a, &b), r1) && call_ensures(concat, (&a, &b), r2) ==> r1 == r2
}

/// Computing the world transforms a second time changes nothing, for a
/// composition that gives one result for the same arguments: a graph whose
/// world transforms were all composed, then composed again from the same
/// parents and local transforms, is the graph it was.
pub proof fn lemma_recompute_changes_nothing<T, F: Fn(&T, &T) -> T>(
    once: Seq<Node<T>>,
    twice: Seq<Node<T>>,
    concat: F,
)
    requires
        nodes_wf(once),
        same_locals(once, twice),
        forall|j: int| 0 <= j < once.len() ==> world_composed(once, j, concat),
        forall|j: int| 0 <= j < twice.len() ==> world_composed(twice, j, concat),
        deterministic(concat),
    ensures
        twice == once,
{
    let f = |x: T, y: T| choose|r: T| call_ensures(concat, (&x, &y), r);
    assert forall|x: T, y: T, r: T| call_ensures(concat, (&x, &y), r) implies r == f(x, y) by {
        assert(exists|r2: T| call_ensures(concat, (&x, &y), r2));
        let c = choose|r2: T| call_ensures(concat, (&x, &y), r2);
        assert(call_ensures(concat, (&x, &y), c));
    }
    lemma_worlds_determined(once, twice, concat, f);
    assert forall|i: int| 0 <= i < once.len() implies twice[i] == once[i] by {
        assert(once[i].world == twice[i].world);
        assert(twice[i].local == once[i].local && twice[i].parent == once[i].parent);
    }
    assert(twice =~= once);
}

/// `update` ends where `process_messages` then `compute_transforms` end, for
/// the same received messages and a composition that gives one result per
/// argument pair: two node sequences that both keep the local transforms
/// and parents of the nodes after those messages, with every world
/// transform composed, are the same.
pub proof fn lemma_update_is_process_then_compute<T, F: Fn(&T, &T) -> T>(
    before: Seq<Node<T>>,
    msgs: Seq<Message<T>>,
    by_update: Seq<Node<T>>,
    by_steps: Seq<Node<T>>,
    concat: F,
)
    requires
        nodes_wf(before),
        same_locals(nodes_after(before, msgs), by_update),
        same_locals(nodes_after(before, msgs), by_steps),
        forall|j: int| 0 <= j < by_update.len() ==> world_composed(by_update, j, concat),
        forall|j: int| 0 <= j < by_steps.len() ==> world_composed(by_steps, j, concat),
        deterministic(concat),
    ensures
        by_update == by_steps,
{
    let mid = nodes_after(before, msgs);
    lemma_messages_keep_structure(before, Seq::<Visual<()>>::empty(), msgs);
    lemma_nodes_wf_same_parents(mid, by_update);
    assert(same_locals(by_update, by_steps)) by {
        assert forall|i: int| 0 <= i < by_update.len() implies (#[trigger] by_steps[i]).local == by_update[i].local
            && by_steps[i].parent == by_update[i].parent by {
            assert(by_steps[i].local == mid[i].local && by_update[i].local == mid[i].local);
        }
    }
    lemma_recompute_changes_nothing(by_update, by_steps, concat);
}

/// A node made under a group hangs under the group's own node in that scene:
/// the parent that a group gives is the node of the group's link to the
/// scene, one of the scene's nodes.
pub proof fn lemma_parent_is_group_node<T: Copy, G>(scene: Scene<T, G>, group: &Group<T>)
    requires
        scene.group_fits(Some(group)),
    ensures
        scene.parent_for(Some(group)) == Some(group.inner().node_in(scene.id())),
        ({
            let k = link_position(group.inner().links(), scene.id());
            &&& 0 <= k < group.inner().links().len()
            &&& group.inner().links()[k].id() == scene.id()
            &&& scene.parent_for(Some(group)) == Some(group.inner().links()[k].node())
        }),
        group.inner().node_in(scene.id()) < scene.nodes().len(),
{
    let links = group.inner().links();
    let k = link_position(links, scene.id());
    assert(has_link(links, scene.id()));
    assert(0 <= k < links.len() && links[k].id() == scene.id());
}

/// Processing drains the scene's own channel and applies what came: when a
/// scene goes from `before` to `after` as `process_messages` (or `update`)
/// says, the drain was of the scene's own receiver, every message taken came
/// from it, and a transform sent for a node, not followed by another for the
/// same node, is that node's local transform afterwards.
pub proof fn lemma_processed_transform_applied<T: Copy, G>(
    before: Scene<T, G>,
    after: Scene<T, G>,
    k: int,
    n: usize,
    t: T,
)
    requires
        after.drained() == before.drained().push(before.message_receiver()),
        after.message_receiver() == before.message_receiver(),
        after.received_log() == before.received_log() + taken_from(
            before.message_receiver(),
            after.received_since(before.received().len()),
        ),
        after.nodes() == nodes_after(before.nodes(), after.received_since(before.received().len())),
        0 <= k < after.received_since(before.received().len()).len(),
        n < before.nodes().len(),
        after.received_since(before.received().len())[k] == Message::SetTransform(n, t),
        forall|j: int|
            k < j < after.received_since(before.received().len()).len() ==> !((#[trigger] after.received_since(
                before.received().len(),
            )[j]) matches Message::SetTransform(m, _) && m == n),
    ensures
        after.drained().len() == before.drained().len() + 1,
        after.drained().last() == after.message_receiver(),
        after.received_log()[before.received_log().len() + k] == (after.message_receiver(), Message::SetTransform(n, t)),
        after.nodes()[n as int].local == t,
{
    let msgs = after.received_since(before.received().len());
    lemma_last_transform_wins(before.nodes(), msgs, k, n, t);
    assert(before.received().len() == before.received_log().len());
}

} // verus!
