//! A scene: a graph of nodes, each with a local and a world transform and at
//! most one parent that comes before it, the visuals drawn at those nodes, and
//! the channel on which attached objects report their changes.
use vstd::prelude::*;
use std::sync::mpsc::{Receiver, Sender};

use crate::channel::{drain_messages, new_channel, taken_from, ReceiveLog};
use crate::color::Material;
use crate::object::Group;

verus! {

/// The number by which a factory tells its scenes apart.
pub type SceneId = usize;

/// A node of a scene's graph. `parent` is the index of the parent node.
#[derive(Clone, Copy)]
pub struct Node<T> {
    pub local: T,
    pub world: T,
    pub parent: Option<usize>,
}

/// What a scene draws: a material and GPU data, placed at node `node`.
pub struct Visual<G> {
    pub material: Material,
    pub gpu_data: G,
    pub node: usize,
}

/// A change that an object sends to a scene it is attached to: the new local
/// transform of a node, or the new material of a visual, each by index.
#[derive(Clone, Copy)]
pub enum Message<T> {
    SetTransform(usize, T),
    SetMaterial(usize, Material),
}

/// Every parent comes before its child.
pub open spec fn nodes_wf<T>(nodes: Seq<Node<T>>) -> bool {
    forall|i: int|
        0 <= i < nodes.len() ==> match (#[trigger] nodes[i]).parent {
            Some(p) => p < i,
            None => true,
        }
}

/// Every visual stands at a node of the scene.
pub open spec fn visuals_wf<G>(visuals: Seq<Visual<G>>, num_nodes: nat) -> bool {
    forall|i: int| 0 <= i < visuals.len() ==> (#[trigger] visuals[i]).node < num_nodes
}

/// The nodes after one message: a transform message for a node of the scene
/// replaces that node's local transform; any other message leaves them.
pub open spec fn node_update<T>(nodes: Seq<Node<T>>, m: Message<T>) -> Seq<Node<T>> {
    match m {
        Message::SetTransform(i, t) => if i < nodes.len() {
            nodes.update(i as int, Node { local: t, world: nodes[i as int].world, parent: nodes[i as int].parent })
        } else {
            nodes
        },
        Message::SetMaterial(_, _) => nodes,
    }
}

/// The visuals after one message: a material message for a visual of the
/// scene replaces that visual's material; any other message leaves them.
pub open spec fn visual_update<T, G>(visuals: Seq<Visual<G>>, m: Message<T>) -> Seq<Visual<G>> {
    match m {
        Message::SetMaterial(i, mat) => if i < visuals.len() {
            visuals.update(i as int, Visual { material: mat, gpu_data: visuals[i as int].gpu_data, node: visuals[i as int].node })
        } else {
            visuals
        },
        Message::SetTransform(_, _) => visuals,
    }
}

/// The nodes after a sequence of messages, taken in order.
pub open spec fn nodes_after<T>(nodes: Seq<Node<T>>, msgs: Seq<Message<T>>) -> Seq<Node<T>>
    decreases msgs.len(),
{
    if msgs.len() == 0 {
        nodes
    } else {
        node_update(nodes_after(nodes, msgs.drop_last()), msgs.last())
    }
}

/// The visuals after a sequence of messages, taken in order.
pub open spec fn visuals_after<T, G>(visuals: Seq<Visual<G>>, msgs: Seq<Message<T>>) -> Seq<Visual<G>>
    decreases msgs.len(),
{
    if msgs.len() == 0 {
        visuals
    } else {
        visual_update(visuals_after(visuals, msgs.drop_last()), msgs.last())
    }
}

/// Node `i`'s world transform is its local one for a root, and what `concat`
/// gives for its parent's world transform and its own local one otherwise.
pub open spec fn world_composed<T, F: Fn(&T, &T) -> T>(nodes: Seq<Node<T>>, i: int, concat: F) -> bool {
    match nodes[i].parent {
        Some(p) => call_ensures(concat, (&nodes[p as int].world, &nodes[i].local), nodes[i].world),
        None => nodes[i].world == nodes[i].local,
    }
}

/// Local transforms and parents are those of `before`.
pub open spec fn same_locals<T>(before: Seq<Node<T>>, after: Seq<Node<T>>) -> bool {
    &&& after.len() == before.len()
    &&& forall|i: int| 0 <= i < before.len() ==> (#[trigger] after[i]).local == before[i].local
        && after[i].parent == before[i].parent
}

/// Changing anything but the parents keeps parents before children.
pub proof fn lemma_nodes_wf_same_parents<T>(before: Seq<Node<T>>, after: Seq<Node<T>>)
    requires
        nodes_wf(before),
        after.len() == before.len(),
        forall|i: int| 0 <= i < before.len() ==> (#[trigger] after[i]).parent == before[i].parent,
    ensures
        nodes_wf(after),
{
    assert forall|i: int| 0 <= i < after.len() implies match (#[trigger] after[i]).parent {
        Some(p) => p < i,
        None => true,
    } by {
        assert(after[i].parent == before[i].parent);
    }
}

/// A new last node whose parent is an existing node keeps parents before children.
pub proof fn lemma_nodes_wf_push<T>(nodes: Seq<Node<T>>, node: Node<T>)
    requires
        nodes_wf(nodes),
        node.parent matches Some(p) ==> p < nodes.len(),
    ensures
        nodes_wf(nodes.push(node)),
{
    let after = nodes.push(node);
    assert forall|i: int| 0 <= i < after.len() implies match (#[trigger] after[i]).parent {
        Some(p) => p < i,
        None => true,
    } by {
        if i < nodes.len() {
            assert(after[i] == nodes[i]);
        }
    }
}

/// Changing anything but the nodes of the visuals keeps them at existing nodes.
pub proof fn lemma_visuals_wf_same_nodes<G>(before: Seq<Visual<G>>, after: Seq<Visual<G>>, num_nodes: nat)
    requires
        visuals_wf(before, num_nodes),
        after.len() == before.len(),
        forall|i: int| 0 <= i < before.len() ==> (#[trigger] after[i]).node == before[i].node,
    ensures
        visuals_wf(after, num_nodes),
{
    assert forall|i: int| 0 <= i < after.len() implies (#[trigger] after[i]).node < num_nodes by {
        assert(after[i].node == before[i].node);
    }
}

/// A new last visual at an existing node keeps the visuals at existing nodes.
pub proof fn lemma_visuals_wf_push<G>(visuals: Seq<Visual<G>>, visual: Visual<G>, num_nodes: nat)
    requires
        visuals_wf(visuals, num_nodes),
        visual.node < num_nodes,
    ensures
        visuals_wf(visuals.push(visual), num_nodes),
{
    let after = visuals.push(visual);
    assert forall|i: int| 0 <= i < after.len() implies (#[trigger] after[i]).node < num_nodes by {
        if i < visuals.len() {
            assert(after[i] == visuals[i]);
        }
    }
}

/// A scene keeps its two channel ends from one call of `channel` as long as
/// it keeps its sender and its receiver, which every method does.
pub proof fn lemma_same_channel<T: Copy, G>(before: Scene<T, G>, after: Scene<T, G>)
    requires
        after.message_sender() == before.message_sender(),
        after.message_receiver() == before.message_receiver(),
    ensures
        after.ends_of_one_channel() == before.ends_of_one_channel(),
{
}

/// A graph of transform nodes with the visuals placed on them.
#[verifier::reject_recursive_types(T)]
pub struct Scene<T: Copy, G> {
    nodes: Vec<Node<T>>,
    visuals: Vec<Visual<G>>,
    unique_id: SceneId,
    identity: T,
    message_tx: Sender<Message<T>>,
    message_rx: Receiver<Message<T>>,
    received: ReceiveLog<Message<T>>,
}

impl<T: Copy, G> Scene<T, G> {
    pub closed spec fn nodes(&self) -> Seq<Node<T>> {
        self.nodes@
    }

    pub closed spec fn visuals(&self) -> Seq<Visual<G>> {
        self.visuals@
    }

    pub closed spec fn id(&self) -> SceneId {
        self.unique_id
    }

    /// The sender and the receiver that the scene keeps are the two ends
    /// returned by one call of `std::sync::mpsc::channel`.
    pub closed spec fn ends_of_one_channel(&self) -> bool {
        call_ensures(new_channel::<Message<T>>, (), (self.message_tx, self.message_rx))
    }

    /// The receiving end of this scene's channel.
    pub closed spec fn message_receiver(&self) -> Receiver<Message<T>> {
        self.message_rx
    }

    /// Every message this scene has taken from its channel, in order, each
    /// with the receiver it was taken from.
    pub closed spec fn received_log(&self) -> Seq<(Receiver<Message<T>>, Message<T>)> {
        self.received.entries()
    }

    /// Each time the scene took every message waiting on its channel, the
    /// receiver it drained, in order.
    pub closed spec fn drained(&self) -> Seq<Receiver<Message<T>>> {
        self.received.drains()
    }

    /// The messages of `received_log`, without their receivers.
    pub open spec fn received(&self) -> Seq<Message<T>> {
        self.received_log().map_values(|e: (Receiver<Message<T>>, Message<T>)| e.1)
    }

    /// The messages taken from the channel after the first `n`.
    pub open spec fn received_since(&self, n: nat) -> Seq<Message<T>> {
        self.received().skip(n as int)
    }

    /// The transform that a new node starts with as its world transform.
    pub closed spec fn identity(&self) -> T {
        self.identity
    }

    /// Every parent comes before its child and every visual stands at a node.
    #[verifier::type_invariant]
    pub open spec fn wf(&self) -> bool {
        &&& nodes_wf(self.nodes())
        &&& visuals_wf(self.visuals(), self.nodes().len())
    }

    /// An empty scene with the given id, whose new nodes start with `identity`
    /// as their world transform.
    pub(crate) fn new(unique_id: SceneId, identity: T) -> (s: Self)
        ensures
            s.wf(),
            s.nodes() == Seq::<Node<T>>::empty(),
            s.visuals() == Seq::<Visual<G>>::empty(),
            s.id() == unique_id,
            s.identity() == identity,
            s.received_log() == Seq::<(Receiver<Message<T>>, Message<T>)>::empty(),
            s.drained() == Seq::<Receiver<Message<T>>>::empty(),
            call_ensures(new_channel::<Message<T>>, (), (s.message_sender(), s.message_receiver())),
            s.ends_of_one_channel(),
    {
        let (tx, rx) = new_channel();
        Scene {
            nodes: Vec::new(),
            visuals: Vec::new(),
            unique_id,
            identity,
            message_tx: tx,
            message_rx: rx,
            received: ReceiveLog::new(),
        }
    }

    /// The id of this scene.
    pub fn unique_id(&self) -> (id: SceneId)
        ensures
            id == self.id(),
    {
        self.unique_id
    }

    /// The number of nodes.
    pub fn num_nodes(&self) -> (n: usize)
        ensures
            n == self.nodes().len(),
    {
        self.nodes.len()
    }

    /// Node `i`.
    pub fn node(&self, i: usize) -> (node: &Node<T>)
        requires
            i < self.nodes().len(),
        ensures
            *node == self.nodes()[i as int],
    {
        &self.nodes[i]
    }

    /// The number of visuals.
    pub fn num_visuals(&self) -> (n: usize)
        ensures
            n == self.visuals().len(),
    {
        self.visuals.len()
    }

    /// Visual `i`.
    pub fn visual(&self, i: usize) -> (visual: &Visual<G>)
        requires
            i < self.visuals().len(),
        ensures
            *visual == self.visuals()[i as int],
    {
        &self.visuals[i]
    }

    /// The world transform of the node that visual `i` is drawn at.
    pub fn visual_world(&self, i: usize) -> (world: T)
        requires
            i < self.visuals().len(),
        ensures
            world == self.nodes()[self.visuals()[i as int].node as int].world,
    {
        proof {
            use_type_invariant(self);
        }
        let node = self.visuals[i].node;
        self.nodes[node].world
    }

    /// The sender into this scene's channel that the scene keeps.
    pub closed spec fn message_sender(&self) -> Sender<Message<T>> {
        self.message_tx
    }

    /// A new sender into this scene's channel: a clone of the one it keeps.
    pub(crate) fn sender(&self) -> (tx: Sender<Message<T>>)
        ensures
            cloned(self.message_sender(), tx),
    {
        self.message_tx.clone()
    }

    /// The parent that `group` gives a new node: the node that the group has
    /// in this scene, or none.
    pub open spec fn parent_for(&self, group: Option<&Group<T>>) -> Option<usize> {
        match group {
            Some(g) => Some(g.inner().node_in(self.id())),
            None => None,
        }
    }

    /// `group` is absent, or attached to this scene at one of its nodes.
    pub open spec fn group_fits(&self, group: Option<&Group<T>>) -> bool {
        match group {
            Some(g) => {
                &&& g.inner().is_in(self.id())
                &&& g.inner().node_in(self.id()) < self.nodes().len()
            },
            None => true,
        }
    }

    /// Adds a node with local transform `transform` under the node that
    /// `group` has in this scene (at the root without a group), and returns
    /// its index. Its world transform starts as the identity.
    pub(crate) fn make_node(&mut self, transform: T, group: Option<&Group<T>>) -> (ptr: usize)
        requires
            old(self).group_fits(group),
        ensures
            final(self).wf(),
            ptr == old(self).nodes().len(),
            final(self).nodes() == old(self).nodes().push(
                Node { local: transform, world: old(self).identity(), parent: old(self).parent_for(group) },
            ),
            group is None ==> final(self).nodes().last().parent is None,
            group matches Some(g) ==> final(self).nodes().last().parent == Some(g.inner().node_in(old(self).id())),
            final(self).visuals() == old(self).visuals(),
            final(self).id() == old(self).id(),
            final(self).identity() == old(self).identity(),
            final(self).received_log() == old(self).received_log(),
            final(self).drained() == old(self).drained(),
            final(self).message_receiver() == old(self).message_receiver(),
            final(self).message_sender() == old(self).message_sender(),
    {
        proof {
            use_type_invariant(&*self);
        }
        let parent = match group {
            Some(g) => {
                let pos = g.object().get_scene(self.unique_id);
                match pos {
                    Some(k) => Some(g.object().link_node(k)),
                    None => None,
                }
            },
            None => None,
        };
        let ptr = self.nodes.len();
        let node = Node { local: transform, world: self.identity, parent };
        proof {
            lemma_nodes_wf_push(self.nodes@, node);
        }
        // The visuals and then the nodes are taken out, so that the scene is
        // well-formed at every step, and put back after the push.
        let mut visuals = Vec::new();
        std::mem::swap(&mut visuals, &mut self.visuals);
        let mut nodes = Vec::new();
        std::mem::swap(&mut nodes, &mut self.nodes);
        nodes.push(node);
        std::mem::swap(&mut nodes, &mut self.nodes);
        std::mem::swap(&mut visuals, &mut self.visuals);
        ptr
    }

    /// Adds a visual and returns its index.
    pub(crate) fn add_visual(&mut self, visual: Visual<G>) -> (ptr: usize)
        requires
            visual.node < old(self).nodes().len(),
        ensures
            final(self).wf(),
            ptr == old(self).visuals().len(),
            final(self).visuals() == old(self).visuals().push(visual),
            final(self).nodes() == old(self).nodes(),
            final(self).id() == old(self).id(),
            final(self).identity() == old(self).identity(),
            final(self).received_log() == old(self).received_log(),
            final(self).drained() == old(self).drained(),
            final(self).message_receiver() == old(self).message_receiver(),
            final(self).message_sender() == old(self).message_sender(),
    {
        proof {
            use_type_invariant(&*self);
        }
        let ptr = self.visuals.len();
        proof {
            lemma_visuals_wf_push(self.visuals@, visual, self.nodes@.len());
        }
        let mut visuals = Vec::new();
        std::mem::swap(&mut visuals, &mut self.visuals);
        visuals.push(visual);
        std::mem::swap(&mut visuals, &mut self.visuals);
        ptr
    }

    /// Applies one message: a transform message replaces the local transform
    /// of its node, a material message the material of its visual; one whose
    /// index is not in this scene changes nothing.
    pub fn apply_message(&mut self, message: Message<T>)
        ensures
            final(self).wf(),
            final(self).nodes() == node_update(old(self).nodes(), message),
            final(self).visuals() == visual_update(old(self).visuals(), message),
            final(self).id() == old(self).id(),
            final(self).identity() == old(self).identity(),
            final(self).received_log() == old(self).received_log(),
            final(self).drained() == old(self).drained(),
            final(self).message_receiver() == old(self).message_receiver(),
            final(self).message_sender() == old(self).message_sender(),
    {
        proof {
            use_type_invariant(&*self);
            lemma_nodes_wf_same_parents(self.nodes@, node_update(self.nodes@, message));
            lemma_visuals_wf_same_nodes(self.visuals@, visual_update(self.visuals@, message), self.nodes@.len());
        }
        let mut visuals = Vec::new();
        std::mem::swap(&mut visuals, &mut self.visuals);
        let mut nodes = Vec::new();
        std::mem::swap(&mut nodes, &mut self.nodes);
        match message {
            Message::SetTransform(i, transform) => {
                if i < nodes.len() {
                    nodes[i].local = transform;
                }
            },
            Message::SetMaterial(i, material) => {
                if i < visuals.len() {
                    visuals[i].material = material;
                }
            },
        }
        assert(nodes@ =~= node_update(old(self).nodes@, message));
        assert(visuals@ =~= visual_update(old(self).visuals@, message));
        std::mem::swap(&mut nodes, &mut self.nodes);
        std::mem::swap(&mut visuals, &mut self.visuals);
    }

    /// Applies the messages in order.
    pub fn apply_messages(&mut self, messages: Vec<Message<T>>)
        ensures
            final(self).wf(),
            final(self).nodes() == nodes_after(old(self).nodes(), messages@),
            final(self).visuals() == visuals_after(old(self).visuals(), messages@),
            final(self).id() == old(self).id(),
            final(self).identity() == old(self).identity(),
            final(self).received_log() == old(self).received_log(),
            final(self).drained() == old(self).drained(),
            final(self).message_receiver() == old(self).message_receiver(),
            final(self).message_sender() == old(self).message_sender(),
    {
        proof {
            use_type_invariant(&*self);
        }
        let n = messages.len();
        let mut i: usize = 0;
        while i < n
            invariant
                n == messages@.len(),
                0 <= i <= n,
                self.nodes() == nodes_after(old(self).nodes(), messages@.take(i as int)),
                self.visuals() == visuals_after(old(self).visuals(), messages@.take(i as int)),
                self.id() == old(self).id(),
                self.identity() == old(self).identity(),
                self.received_log() == old(self).received_log(),
                self.drained() == old(self).drained(),
                self.message_receiver() == old(self).message_receiver(),
                self.message_sender() == old(self).message_sender(),
            decreases n - i,
        {
            let m = messages[i];
            self.apply_message(m);
            assert(messages@.take(i + 1).drop_last() =~= messages@.take(i as int));
            i = i + 1;
        }
        assert(messages@.take(n as int) =~= messages@);
        proof {
            use_type_invariant(&*self);
        }
    }

    /// Drains this scene's own receiver, taking every message waiting on it,
    /// and applies them in the order they were sent; the scene records the
    /// drain and the messages as received. Which messages
    /// those are is up to the senders; the scene is what applying them gives.
    pub fn process_messages(&mut self)
        ensures
            final(self).wf(),
            final(self).drained() == old(self).drained().push(old(self).message_receiver()),
            final(self).received_log() == old(self).received_log() + taken_from(
                old(self).message_receiver(),
                final(self).received_since(old(self).received().len()),
            ),
            final(self).nodes() == nodes_after(old(self).nodes(), final(self).received_since(old(self).received().len())),
            final(self).visuals() == visuals_after(old(self).visuals(), final(self).received_since(old(self).received().len())),
            final(self).id() == old(self).id(),
            final(self).identity() == old(self).identity(),
            final(self).message_sender() == old(self).message_sender(),
            final(self).message_receiver() == old(self).message_receiver(),
    {
        proof {
            use_type_invariant(&*self);
        }
        let mut received = ReceiveLog::new();
        std::mem::swap(&mut received, &mut self.received);
        let messages = drain_messages(&self.message_rx, &mut received);
        std::mem::swap(&mut received, &mut self.received);
        let ghost msgs = messages@;
        self.apply_messages(messages);
        proof {
            let old_log = old(self).received_log();
            let new_log = old_log + taken_from(old(self).message_receiver(), msgs);
            assert(self.received_log() == new_log);
            assert(old(self).received().len() == old_log.len());
            assert(self.received_since(old(self).received().len()) =~= msgs) by {
                assert forall|i: int| 0 <= i < msgs.len() implies #[trigger] self.received_since(
                    old(self).received().len(),
                )[i] == msgs[i] by {
                    assert(new_log[old_log.len() + i] == (old(self).message_receiver(), msgs[i]));
                }
            }
        }
    }

    /// Recomputes every world transform in storage order: a root's world
    /// transform is its local one, any other node's is `concat` of its
    /// parent's (already recomputed) world transform and its own local one.
    pub fn compute_transforms<F: Fn(&T, &T) -> T>(&mut self, concat: F)
        requires
            forall|a: T, b: T| call_requires(concat, (&a, &b)),
        ensures
            final(self).wf(),
            same_locals(old(self).nodes(), final(self).nodes()),
            forall|i: int| 0 <= i < final(self).nodes().len() ==> world_composed(final(self).nodes(), i, concat),
            final(self).visuals() == old(self).visuals(),
            final(self).id() == old(self).id(),
            final(self).identity() == old(self).identity(),
            final(self).received_log() == old(self).received_log(),
            final(self).drained() == old(self).drained(),
            final(self).message_receiver() == old(self).message_receiver(),
            final(self).message_sender() == old(self).message_sender(),
    {
        proof {
            use_type_invariant(&*self);
        }
        // The visuals and then the nodes are taken out while the world
        // transforms are written, and put back afterwards.
        let mut visuals = Vec::new();
        std::mem::swap(&mut visuals, &mut self.visuals);
        let mut nodes = Vec::new();
        std::mem::swap(&mut nodes, &mut self.nodes);
        let n = nodes.len();
        let mut i: usize = 0;
        while i < n
            invariant
                n == nodes@.len(),
                0 <= i <= n,
                nodes_wf(nodes@),
                forall|a: T, b: T| call_requires(concat, (&a, &b)),
                same_locals(old(self).nodes(), nodes@),
                forall|j: int| 0 <= j < i ==> world_composed(nodes@, j, concat),
            decreases n - i,
        {
            let node = nodes[i];
            let world = match node.parent {
                Some(p) => {
                    let parent_world = nodes[p].world;
                    concat(&parent_world, &node.local)
                },
                None => node.local,
            };
            let ghost before = nodes@;
            nodes[i].world = world;
            proof {
                lemma_nodes_wf_same_parents(before, nodes@);
            }
            assert forall|j: int| 0 <= j < i + 1 implies world_composed(nodes@, j, concat) by {
                if j < i {
                    assert(world_composed(before, j, concat));
                    assert(nodes@[j] == before[j]);
                    match before[j].parent {
                        Some(p) => assert(nodes@[p as int] == before[p as int]),
                        None => {},
                    }
                }
            }
            i = i + 1;
        }
        std::mem::swap(&mut nodes, &mut self.nodes);
        std::mem::swap(&mut visuals, &mut self.visuals);
    }

    /// Applies the messages that have arrived, then recomputes the world
    /// transforms.
    pub fn update<F: Fn(&T, &T) -> T>(&mut self, concat: F)
        requires
            forall|a: T, b: T| call_requires(concat, (&a, &b)),
        ensures
            final(self).wf(),
            final(self).drained() == old(self).drained().push(old(self).message_receiver()),
            final(self).received_log() == old(self).received_log() + taken_from(
                old(self).message_receiver(),
                final(self).received_since(old(self).received().len()),
            ),
            same_locals(nodes_after(old(self).nodes(), final(self).received_since(old(self).received().len())), final(self).nodes()),
            final(self).visuals() == visuals_after(old(self).visuals(), final(self).received_since(old(self).received().len())),
            forall|i: int| 0 <= i < final(self).nodes().len() ==> world_composed(final(self).nodes(), i, concat),
            final(self).id() == old(self).id(),
            final(self).identity() == old(self).identity(),
            final(self).message_sender() == old(self).message_sender(),
            final(self).message_receiver() == old(self).message_receiver(),
    {
        self.process_messages();
        self.compute_transforms(concat);
    }
}

} // verus!
