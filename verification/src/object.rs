//! Objects that can be attached to scenes, the proxies through which their
//! transform and material are changed, and the groups and lines built on them.
use vstd::prelude::*;
use std::sync::mpsc::Sender;

use crate::channel::{send_message, slice_at, slice_len, SendLog};
use crate::color::Material;
use crate::geometry::Geometry;
use crate::scene::{Message, Node, Scene, SceneId, Visual};

verus! {

/// Where an object stands in one scene: the scene's id, the object's node in
/// it, what else the object has there (its visual, for a visual object), and
/// a sender into the scene's channel.
#[verifier::reject_recursive_types(T)]
pub struct SceneLink<T, V> {
    id: SceneId,
    node: usize,
    visual: V,
    tx: Sender<Message<T>>,
}

impl<T, V> SceneLink<T, V> {
    pub closed spec fn id(&self) -> SceneId {
        self.id
    }

    pub closed spec fn node(&self) -> usize {
        self.node
    }

    pub closed spec fn visual(&self) -> V {
        self.visual
    }

    /// The sender into the scene's channel that this link holds.
    pub closed spec fn sender(&self) -> Sender<Message<T>> {
        self.tx
    }
}

/// No two links lead to the same scene.
pub open spec fn ids_distinct<T, V>(links: Seq<SceneLink<T, V>>) -> bool {
    forall|i: int, j: int|
        0 <= i < links.len() && 0 <= j < links.len() && i != j ==> #[trigger] links[i].id() != #[trigger] links[j].id()
}

/// Some link leads to scene `id`.
pub open spec fn has_link<T, V>(links: Seq<SceneLink<T, V>>, id: SceneId) -> bool {
    exists|i: int| 0 <= i < links.len() && #[trigger] links[i].id() == id
}

/// The position of the link to scene `id`.
pub open spec fn link_position<T, V>(links: Seq<SceneLink<T, V>>, id: SceneId) -> int {
    choose|i: int| 0 <= i < links.len() && #[trigger] links[i].id() == id
}

/// The message that tells the scene behind `link` the new local transform `t`.
pub open spec fn transform_message<T, V>(link: SceneLink<T, V>, t: T) -> Message<T> {
    Message::SetTransform(link.node(), t)
}

/// The message that tells the scene behind `link` the new material `m`.
pub open spec fn material_message<T>(link: SceneLink<T, usize>, m: Material) -> Message<T> {
    Message::SetMaterial(link.visual(), m)
}

/// What sending transform `t` through each of `links` hands to `send`, in
/// order: each link's own sender, with the message for the object's node in
/// that link's scene.
pub open spec fn transform_sends<T, V>(links: Seq<SceneLink<T, V>>, t: T) -> Seq<(Sender<Message<T>>, Message<T>)> {
    Seq::new(links.len(), |i: int| (links[i].sender(), transform_message(links[i], t)))
}

/// What sending material `m` through each of `links` hands to `send`, in
/// order: each link's own sender, with the message for the object's visual
/// in that link's scene.
pub open spec fn material_sends<T>(links: Seq<SceneLink<T, usize>>, m: Material) -> Seq<(Sender<Message<T>>, Message<T>)> {
    Seq::new(links.len(), |i: int| (links[i].sender(), material_message(links[i], m)))
}

/// The position of the first link to scene `id` in `links`, if there is one.
fn find_link<T, V>(links: &Vec<SceneLink<T, V>>, id: SceneId) -> (pos: Option<usize>)
    ensures
        match pos {
            Some(k) => k < links@.len() && links@[k as int].id() == id
                && forall|j: int| 0 <= j < k ==> #[trigger] links@[j].id() != id,
            None => !has_link(links@, id),
        },
{
    let n = links.len();
    let mut k: usize = 0;
    while k < n
        invariant
            n == links@.len(),
            0 <= k <= n,
            forall|j: int| 0 <= j < k ==> #[trigger] links@[j].id() != id,
        decreases n - k,
    {
        if links[k].id == id {
            return Some(k);
        }
        k = k + 1;
    }
    None
}

/// With distinct ids, the link to `id` that was found is the one `link_position` names.
proof fn lemma_found_link<T, V>(links: Seq<SceneLink<T, V>>, id: SceneId, k: int)
    requires
        ids_distinct(links),
        0 <= k < links.len(),
        links[k].id() == id,
    ensures
        has_link(links, id),
        link_position(links, id) == k,
{
    assert(has_link(links, id));
    let j = link_position(links, id);
    assert(links[j].id() == id);
}

/// A link to a scene that no link leads to yet keeps the ids distinct, and is
/// the link to that scene afterwards.
proof fn lemma_push_link<T, V>(links: Seq<SceneLink<T, V>>, link: SceneLink<T, V>)
    requires
        ids_distinct(links),
        !has_link(links, link.id()),
    ensures
        ids_distinct(links.push(link)),
        has_link(links.push(link), link.id()),
        link_position(links.push(link), link.id()) == links.len(),
{
    let after = links.push(link);
    assert forall|i: int, j: int|
        0 <= i < after.len() && 0 <= j < after.len() && i != j implies #[trigger] after[i].id()
        != #[trigger] after[j].id() by {
        if i < links.len() {
            assert(after[i] == links[i]);
        }
        if j < links.len() {
            assert(after[j] == links[j]);
        }
    }
    lemma_found_link(after, link.id(), links.len() as int);
}

/// The message that carries transform `t` to the scene behind `link`.
fn link_transform_message<T: Copy, V>(link: &SceneLink<T, V>, t: T) -> (m: Message<T>)
    ensures
        m == transform_message(*link, t),
    opens_invariants none
    no_unwind
{
    Message::SetTransform(link.node, t)
}

/// The message that carries material `mat` to the scene behind `link`.
fn link_material_message<T>(link: &SceneLink<T, usize>, mat: Material) -> (m: Message<T>)
    ensures
        m == material_message(*link, mat),
    opens_invariants none
    no_unwind
{
    Message::SetMaterial(link.visual, mat)
}

/// Sends, on each link's own sender in order, the message that carries
/// transform `t` to the object's node in that link's scene; a scene that is
/// gone is skipped. The log gains exactly what was handed over.
fn send_transform<T: Copy, V>(links: &[SceneLink<T, V>], t: T, log: &mut SendLog<Message<T>>)
    ensures
        final(log).entries() == old(log).entries() + transform_sends(links@, t),
    opens_invariants none
    no_unwind
{
    let n = slice_len(links);
    let mut i: usize = 0;
    while i < n
        invariant
            n == links@.len(),
            0 <= i <= n,
            log.entries() =~= old(log).entries() + transform_sends(links@, t).take(i as int),
        decreases n - i,
    {
        let link = slice_at(links, i);
        let m = link_transform_message(link, t);
        send_message(&link.tx, m, log);
        assert(transform_sends(links@, t).take(i + 1) =~= transform_sends(links@, t).take(i as int).push(
            (link.sender(), m),
        ));
        i = i + 1;
    }
    assert(transform_sends(links@, t).take(n as int) =~= transform_sends(links@, t));
}

/// Sends, on each link's own sender in order, the message that carries
/// material `mat` to the object's visual in that link's scene; a scene that
/// is gone is skipped. The log gains exactly what was handed over.
fn send_material<T>(links: &[SceneLink<T, usize>], mat: Material, log: &mut SendLog<Message<T>>)
    ensures
        final(log).entries() == old(log).entries() + material_sends(links@, mat),
    opens_invariants none
    no_unwind
{
    let n = slice_len(links);
    let mut i: usize = 0;
    while i < n
        invariant
            n == links@.len(),
            0 <= i <= n,
            log.entries() =~= old(log).entries() + material_sends(links@, mat).take(i as int),
        decreases n - i,
    {
        let link = slice_at(links, i);
        let m = link_material_message(link, mat);
        send_message(&link.tx, m, log);
        assert(material_sends(links@, mat).take(i + 1) =~= material_sends(links@, mat).take(i as int).push(
            (link.sender(), m),
        ));
        i = i + 1;
    }
    assert(material_sends(links@, mat).take(n as int) =~= material_sends(links@, mat));
}

/// A transform that takes part in the scenes it is attached to, one node in each.
#[verifier::reject_recursive_types(T)]
pub struct Object<T: Copy> {
    transform: T,
    scenes: Vec<SceneLink<T, ()>>,
    sent: SendLog<Message<T>>,
}

impl<T: Copy> Object<T> {
    pub closed spec fn spec_transform(&self) -> T {
        self.transform
    }

    pub closed spec fn links(&self) -> Seq<SceneLink<T, ()>> {
        self.scenes@
    }

    /// What this object has handed to its scenes' senders, in order.
    pub closed spec fn sent_log(&self) -> Seq<(Sender<Message<T>>, Message<T>)> {
        self.sent.entries()
    }

    /// Attached to each scene at most once.
    #[verifier::type_invariant]
    pub open spec fn wf(&self) -> bool {
        ids_distinct(self.links())
    }

    pub open spec fn is_in(&self, id: SceneId) -> bool {
        has_link(self.links(), id)
    }

    /// The node that this object has in scene `id`.
    pub open spec fn node_in(&self, id: SceneId) -> usize {
        self.links()[link_position(self.links(), id)].node()
    }

    pub(crate) fn new(identity: T) -> (o: Self)
        ensures
            o.wf(),
            o.spec_transform() == identity,
            o.links() == Seq::<SceneLink<T, ()>>::empty(),
            o.sent_log() == Seq::<(Sender<Message<T>>, Message<T>)>::empty(),
    {
        Object { transform: identity, scenes: Vec::new(), sent: SendLog::new() }
    }

    /// The position of the link to scene `id`, if this object is in it.
    pub(crate) fn get_scene(&self, id: SceneId) -> (pos: Option<usize>)
        ensures
            match pos {
                Some(k) => k < self.links().len() && self.links()[k as int].id() == id
                    && link_position(self.links(), id) == k,
                None => !self.is_in(id),
            },
    {
        proof {
            use_type_invariant(self);
        }
        let pos = find_link(&self.scenes, id);
        proof {
            if let Some(k) = pos {
                lemma_found_link(self.scenes@, id, k as int);
            }
        }
        pos
    }

    /// The node of the link at position `k`.
    pub(crate) fn link_node(&self, k: usize) -> (node: usize)
        requires
            k < self.links().len(),
        ensures
            node == self.links()[k as int].node(),
    {
        self.scenes[k].node
    }

    /// Whether the object is attached to scene `id`.
    pub fn in_scene(&self, id: SceneId) -> (b: bool)
        ensures
            b == self.is_in(id),
    {
        self.get_scene(id).is_some()
    }

    /// The object's node in scene `id`, if it is attached to that scene.
    pub fn scene_node(&self, id: SceneId) -> (node: Option<usize>)
        ensures
            node == (if self.is_in(id) { Some(self.node_in(id)) } else { None }),
    {
        match self.get_scene(id) {
            Some(k) => Some(self.scenes[k].node),
            None => None,
        }
    }

    /// The object's transform.
    pub fn transform(&self) -> (t: &T)
        ensures
            *t == self.spec_transform(),
    {
        &self.transform
    }

    /// A proxy through which the transform is changed. When the proxy is
    /// dropped, every scene the object is in is sent the transform it then
    /// holds for the object's node there.
    pub fn transform_mut(&mut self) -> (proxy: TransformProxy<'_, T>)
        ensures
            *proxy.value == old(self).spec_transform(),
            proxy.links@ == old(self).links(),
            proxy.log.entries() == old(self).sent_log(),
            final(self).spec_transform() == *final(proxy.value),
            final(self).sent_log() == final(proxy.log).entries(),
            final(self).links() == old(self).links(),
    {
        proof {
            use_type_invariant(&*self);
        }
        TransformProxy::new(&mut self.transform, self.scenes.as_slice(), &mut self.sent)
    }

    /// Replaces the transform and sends it to every scene the object is in,
    /// for the object's node there, as dropping a transform proxy does.
    pub fn set_transform(&mut self, t: T)
        ensures
            final(self).sent_log() == old(self).sent_log() + transform_sends(old(self).links(), t),
            final(self).spec_transform() == t,
            final(self).links() == old(self).links(),
    {
        proof {
            use_type_invariant(&*self);
        }
        self.transform = t;
        send_transform(self.scenes.as_slice(), t, &mut self.sent);
    }

    /// Attaches the object to `scene`, under `group` if one is given: the
    /// scene gains a node with the object's transform as its local one, a
    /// child of the group's node there, and the object gains a link to it.
    /// The object must not be in the scene already, and the group must be.
    pub fn attach<G>(&mut self, scene: &mut Scene<T, G>, group: Option<&Group<T>>)
        requires
            !old(self).is_in(old(scene).id()),
            old(scene).group_fits(group),
        ensures
            final(self).wf(),
            final(self).spec_transform() == old(self).spec_transform(),
            final(self).links().drop_last() == old(self).links(),
            final(self).links().len() == old(self).links().len() + 1,
            final(self).links().last().id() == old(scene).id(),
            final(self).links().last().node() == old(scene).nodes().len(),
            cloned(old(scene).message_sender(), final(self).links().last().sender()),
            final(self).sent_log() == old(self).sent_log(),
            final(self).is_in(old(scene).id()),
            final(self).node_in(old(scene).id()) == old(scene).nodes().len(),
            final(scene).wf(),
            final(scene).nodes() == old(scene).nodes().push(
                Node {
                    local: old(self).spec_transform(),
                    world: old(scene).identity(),
                    parent: old(scene).parent_for(group),
                },
            ),
            group is None ==> final(scene).nodes().last().parent is None,
            group matches Some(g) ==> final(scene).nodes().last().parent == Some(g.inner().node_in(old(scene).id())),
            group matches Some(g) ==> g.inner().node_in(old(scene).id()) < old(scene).nodes().len(),
            final(scene).visuals() == old(scene).visuals(),
            final(scene).id() == old(scene).id(),
            final(scene).identity() == old(scene).identity(),
            final(scene).message_sender() == old(scene).message_sender(),
            final(scene).received_log() == old(scene).received_log(),
            final(scene).drained() == old(scene).drained(),
            final(scene).message_receiver() == old(scene).message_receiver(),
    {
        let id = scene.unique_id();
        let node = scene.make_node(self.transform, group);
        let tx = scene.sender();
        let link = SceneLink { id, node, visual: (), tx };
        proof {
            use_type_invariant(&*self);
            lemma_push_link(self.scenes@, link);
        }
        let mut scenes = Vec::new();
        std::mem::swap(&mut scenes, &mut self.scenes);
        scenes.push(link);
        std::mem::swap(&mut scenes, &mut self.scenes);
        proof {
            assert(self.scenes@.drop_last() =~= old(self).scenes@);
        }
    }
}

/// An object that is drawn: a transform, a material and GPU data, with a
/// node and a visual in each scene it is attached to.
#[verifier::reject_recursive_types(T)]
pub struct VisualObject<T: Copy, G: Clone> {
    visible: bool,
    transform: T,
    material: Material,
    gpu_data: G,
    scenes: Vec<SceneLink<T, usize>>,
    sent: SendLog<Message<T>>,
}

impl<T: Copy, G: Clone> VisualObject<T, G> {
    pub closed spec fn spec_transform(&self) -> T {
        self.transform
    }

    pub closed spec fn spec_material(&self) -> Material {
        self.material
    }

    pub closed spec fn spec_gpu_data(&self) -> G {
        self.gpu_data
    }

    pub closed spec fn spec_visible(&self) -> bool {
        self.visible
    }

    pub closed spec fn links(&self) -> Seq<SceneLink<T, usize>> {
        self.scenes@
    }

    /// What this object has handed to its scenes' senders, in order.
    pub closed spec fn sent_log(&self) -> Seq<(Sender<Message<T>>, Message<T>)> {
        self.sent.entries()
    }

    /// Attached to each scene at most once.
    #[verifier::type_invariant]
    pub open spec fn wf(&self) -> bool {
        ids_distinct(self.links())
    }

    pub open spec fn is_in(&self, id: SceneId) -> bool {
        has_link(self.links(), id)
    }

    /// The node that this object has in scene `id`.
    pub open spec fn node_in(&self, id: SceneId) -> usize {
        self.links()[link_position(self.links(), id)].node()
    }

    /// The visual that this object has in scene `id`.
    pub open spec fn visual_in(&self, id: SceneId) -> usize {
        self.links()[link_position(self.links(), id)].visual()
    }

    /// A visible object with the identity transform, attached nowhere.
    pub(crate) fn new(material: Material, gpu_data: G, identity: T) -> (o: Self)
        ensures
            o.wf(),
            o.spec_visible(),
            o.spec_transform() == identity,
            o.spec_material() == material,
            o.spec_gpu_data() == gpu_data,
            o.links() == Seq::<SceneLink<T, usize>>::empty(),
            o.sent_log() == Seq::<(Sender<Message<T>>, Message<T>)>::empty(),
    {
        VisualObject { visible: true, transform: identity, material, gpu_data, scenes: Vec::new(), sent: SendLog::new() }
    }

    /// The position of the link to scene `id`, if this object is in it.
    pub(crate) fn get_scene(&self, id: SceneId) -> (pos: Option<usize>)
        ensures
            match pos {
                Some(k) => k < self.links().len() && self.links()[k as int].id() == id
                    && link_position(self.links(), id) == k,
                None => !self.is_in(id),
            },
    {
        proof {
            use_type_invariant(self);
        }
        let pos = find_link(&self.scenes, id);
        proof {
            if let Some(k) = pos {
                lemma_found_link(self.scenes@, id, k as int);
            }
        }
        pos
    }

    /// Whether the object is attached to scene `id`.
    pub fn in_scene(&self, id: SceneId) -> (b: bool)
        ensures
            b == self.is_in(id),
    {
        self.get_scene(id).is_some()
    }

    /// The object's node in scene `id`, if it is attached to that scene.
    pub fn scene_node(&self, id: SceneId) -> (node: Option<usize>)
        ensures
            node == (if self.is_in(id) { Some(self.node_in(id)) } else { None }),
    {
        match self.get_scene(id) {
            Some(k) => Some(self.scenes[k].node),
            None => None,
        }
    }

    /// The object's transform.
    pub fn transform(&self) -> (t: &T)
        ensures
            *t == self.spec_transform(),
    {
        &self.transform
    }

    /// A proxy through which the transform is changed. When the proxy is
    /// dropped, every scene the object is in is sent the transform it then
    /// holds for the object's node there.
    pub fn transform_mut(&mut self) -> (proxy: TransformProxyVisual<'_, T>)
        ensures
            *proxy.value == old(self).spec_transform(),
            proxy.links@ == old(self).links(),
            proxy.log.entries() == old(self).sent_log(),
            final(self).spec_transform() == *final(proxy.value),
            final(self).sent_log() == final(proxy.log).entries(),
            final(self).spec_material() == old(self).spec_material(),
            final(self).spec_gpu_data() == old(self).spec_gpu_data(),
            final(self).spec_visible() == old(self).spec_visible(),
            final(self).links() == old(self).links(),
    {
        proof {
            use_type_invariant(&*self);
        }
        TransformProxyVisual::new(&mut self.transform, self.scenes.as_slice(), &mut self.sent)
    }

    /// The object's material.
    pub fn material(&self) -> (m: &Material)
        ensures
            *m == self.spec_material(),
    {
        &self.material
    }

    /// A proxy through which the material is changed. When the proxy is
    /// dropped, every scene the object is in is sent the material it then
    /// holds for the object's visual there.
    pub fn material_mut(&mut self) -> (proxy: MaterialProxy<'_, T>)
        ensures
            *proxy.value == old(self).spec_material(),
            proxy.links@ == old(self).links(),
            proxy.log.entries() == old(self).sent_log(),
            final(self).spec_material() == *final(proxy.value),
            final(self).sent_log() == final(proxy.log).entries(),
            final(self).spec_transform() == old(self).spec_transform(),
            final(self).spec_gpu_data() == old(self).spec_gpu_data(),
            final(self).spec_visible() == old(self).spec_visible(),
            final(self).links() == old(self).links(),
    {
        proof {
            use_type_invariant(&*self);
        }
        MaterialProxy::new(&mut self.material, self.scenes.as_slice(), &mut self.sent)
    }

    /// Replaces the transform and sends it to every scene the object is in,
    /// for the object's node there, as dropping a transform proxy does.
    pub fn set_transform(&mut self, t: T)
        ensures
            final(self).sent_log() == old(self).sent_log() + transform_sends(old(self).links(), t),
            final(self).spec_transform() == t,
            final(self).spec_material() == old(self).spec_material(),
            final(self).spec_gpu_data() == old(self).spec_gpu_data(),
            final(self).spec_visible() == old(self).spec_visible(),
            final(self).links() == old(self).links(),
    {
        proof {
            use_type_invariant(&*self);
        }
        self.transform = t;
        send_transform(self.scenes.as_slice(), t, &mut self.sent);
    }

    /// Replaces the material and sends it to every scene the object is in,
    /// for the object's visual there, as dropping a material proxy does.
    pub fn set_material(&mut self, mat: Material)
        ensures
            final(self).sent_log() == old(self).sent_log() + material_sends(old(self).links(), mat),
            final(self).spec_material() == mat,
            final(self).spec_transform() == old(self).spec_transform(),
            final(self).spec_gpu_data() == old(self).spec_gpu_data(),
            final(self).spec_visible() == old(self).spec_visible(),
            final(self).links() == old(self).links(),
    {
        proof {
            use_type_invariant(&*self);
        }
        self.material = mat;
        send_material(self.scenes.as_slice(), mat, &mut self.sent);
    }

    /// Attaches the object to `scene`, under `group` if one is given: the
    /// scene gains a node with the object's transform as its local one, a
    /// child of the group's node there, and a visual at that node with the
    /// object's material and a clone of its GPU data; the object gains a link
    /// to both. The object must not be in the scene already, and the group
    /// must be.
    pub fn attach(&mut self, scene: &mut Scene<T, G>, group: Option<&Group<T>>)
        requires
            !old(self).is_in(old(scene).id()),
            old(scene).group_fits(group),
        ensures
            final(self).wf(),
            final(self).spec_transform() == old(self).spec_transform(),
            final(self).spec_material() == old(self).spec_material(),
            final(self).spec_gpu_data() == old(self).spec_gpu_data(),
            final(self).spec_visible() == old(self).spec_visible(),
            final(self).links().drop_last() == old(self).links(),
            final(self).links().len() == old(self).links().len() + 1,
            final(self).links().last().id() == old(scene).id(),
            final(self).links().last().node() == old(scene).nodes().len(),
            cloned(old(scene).message_sender(), final(self).links().last().sender()),
            final(self).sent_log() == old(self).sent_log(),
            final(self).links().last().visual() == old(scene).visuals().len(),
            final(self).is_in(old(scene).id()),
            final(self).node_in(old(scene).id()) == old(scene).nodes().len(),
            final(self).visual_in(old(scene).id()) == old(scene).visuals().len(),
            final(scene).wf(),
            final(scene).nodes() == old(scene).nodes().push(
                Node {
                    local: old(self).spec_transform(),
                    world: old(scene).identity(),
                    parent: old(scene).parent_for(group),
                },
            ),
            group is None ==> final(scene).nodes().last().parent is None,
            group matches Some(g) ==> final(scene).nodes().last().parent == Some(g.inner().node_in(old(scene).id())),
            group matches Some(g) ==> g.inner().node_in(old(scene).id()) < old(scene).nodes().len(),
            final(scene).visuals().drop_last() == old(scene).visuals(),
            final(scene).visuals().len() == old(scene).visuals().len() + 1,
            final(scene).visuals().last().material == old(self).spec_material(),
            final(scene).visuals().last().node == old(scene).nodes().len(),
            cloned::<G>(old(self).spec_gpu_data(), final(scene).visuals().last().gpu_data),
            final(scene).id() == old(scene).id(),
            final(scene).identity() == old(scene).identity(),
            final(scene).message_sender() == old(scene).message_sender(),
            final(scene).received_log() == old(scene).received_log(),
            final(scene).drained() == old(scene).drained(),
            final(scene).message_receiver() == old(scene).message_receiver(),
    {
        let id = scene.unique_id();
        let node = scene.make_node(self.transform, group);
        let gpu_data = self.gpu_data.clone();
        let visual = scene.add_visual(Visual { material: self.material, gpu_data, node });
        let tx = scene.sender();
        let link = SceneLink { id, node, visual, tx };
        proof {
            use_type_invariant(&*self);
            lemma_push_link(self.scenes@, link);
        }
        let mut scenes = Vec::new();
        std::mem::swap(&mut scenes, &mut self.scenes);
        scenes.push(link);
        std::mem::swap(&mut scenes, &mut self.scenes);
        proof {
            assert(self.scenes@.drop_last() =~= old(self).scenes@);
            assert(final(scene).visuals().drop_last() =~= old(scene).visuals());
        }
    }
}

/// A change to an object's transform in progress. Reading goes through
/// `Deref`; writing through `set`. When dropped, it sends the transform to
/// each scene of `links`, for the object's node there, and records what it
/// handed over in the object's log.
#[verifier::reject_recursive_types(T)]
pub struct TransformProxy<'a, T: Copy> {
    pub value: &'a mut T,
    pub links: &'a [SceneLink<T, ()>],
    /// The object's record of what it has handed to its scenes' senders.
    pub log: &'a mut SendLog<Message<T>>,
}

impl<'a, T: Copy> TransformProxy<'a, T> {
    /// A proxy for `value`, for the scenes of `links`.
    fn new(value: &'a mut T, links: &'a [SceneLink<T, ()>], log: &'a mut SendLog<Message<T>>) -> (proxy: Self)
        ensures
            *proxy.value == *old(value),
            *final(value) == *final(proxy.value),
            proxy.links == links,
            *proxy.log == *old(log),
            *final(log) == *final(proxy.log),
        opens_invariants none
        no_unwind
    {
        TransformProxy { value, links, log }
    }

    /// Replaces the transform.
    pub fn set(&mut self, value: T)
        ensures
            *final(self).value == value,
            *final(final(self).value) == *final(old(self).value),
            final(self).links == old(self).links,
            *final(self).log == *old(self).log,
            *final(final(self).log) == *final(old(self).log),
    {
        *self.value = value;
    }
}

impl<'a, T: Copy> std::ops::Deref for TransformProxy<'a, T> {
    type Target = T;

    fn deref(&self) -> (t: &T)
        ensures
            *t == *old(self.value),
    {
        &*self.value
    }
}

impl<'a, T: Copy> Drop for TransformProxy<'a, T> {
    fn drop(&mut self)
        ensures
            *final(self).value == *old(self).value,
            final(self).links == old(self).links,
            final(self).log.entries() == old(self).log.entries() + transform_sends(old(self).links@, *old(self).value),
        opens_invariants none
        no_unwind
    {
        send_transform(self.links, *self.value, self.log);
    }
}

/// A change to a visual object's transform in progress. Reading goes through
/// `Deref`; writing through `set`. When dropped, it sends the transform to
/// each scene of `links`, for the object's node there, and records what it
/// handed over in the object's log.
#[verifier::reject_recursive_types(T)]
pub struct TransformProxyVisual<'a, T: Copy> {
    pub value: &'a mut T,
    pub links: &'a [SceneLink<T, usize>],
    /// The object's record of what it has handed to its scenes' senders.
    pub log: &'a mut SendLog<Message<T>>,
}

impl<'a, T: Copy> TransformProxyVisual<'a, T> {
    /// A proxy for `value`, for the scenes of `links`.
    fn new(value: &'a mut T, links: &'a [SceneLink<T, usize>], log: &'a mut SendLog<Message<T>>) -> (proxy: Self)
        ensures
            *proxy.value == *old(value),
            *final(value) == *final(proxy.value),
            proxy.links == links,
            *proxy.log == *old(log),
            *final(log) == *final(proxy.log),
        opens_invariants none
        no_unwind
    {
        TransformProxyVisual { value, links, log }
    }

    /// Replaces the transform.
    pub fn set(&mut self, value: T)
        ensures
            *final(self).value == value,
            *final(final(self).value) == *final(old(self).value),
            final(self).links == old(self).links,
            *final(self).log == *old(self).log,
            *final(final(self).log) == *final(old(self).log),
    {
        *self.value = value;
    }
}

impl<'a, T: Copy> std::ops::Deref for TransformProxyVisual<'a, T> {
    type Target = T;

    fn deref(&self) -> (t: &T)
        ensures
            *t == *old(self.value),
    {
        &*self.value
    }
}

impl<'a, T: Copy> Drop for TransformProxyVisual<'a, T> {
    fn drop(&mut self)
        ensures
            *final(self).value == *old(self).value,
            final(self).links == old(self).links,
            final(self).log.entries() == old(self).log.entries() + transform_sends(old(self).links@, *old(self).value),
        opens_invariants none
        no_unwind
    {
        send_transform(self.links, *self.value, self.log);
    }
}

/// A change to a visual object's material in progress. Reading goes through
/// `Deref`; writing through `set`. When dropped, it sends the material to
/// each scene of `links`, for the object's visual there, and records what it
/// handed over in the object's log.
#[verifier::reject_recursive_types(T)]
pub struct MaterialProxy<'a, T> {
    pub value: &'a mut Material,
    pub links: &'a [SceneLink<T, usize>],
    /// The object's record of what it has handed to its scenes' senders.
    pub log: &'a mut SendLog<Message<T>>,
}

impl<'a, T> MaterialProxy<'a, T> {
    /// A proxy for `value`, for the scenes of `links`.
    fn new(value: &'a mut Material, links: &'a [SceneLink<T, usize>], log: &'a mut SendLog<Message<T>>) -> (proxy: Self)
        ensures
            *proxy.value == *old(value),
            *final(value) == *final(proxy.value),
            proxy.links == links,
            *proxy.log == *old(log),
            *final(log) == *final(proxy.log),
        opens_invariants none
        no_unwind
    {
        MaterialProxy { value, links, log }
    }

    /// Replaces the material.
    pub fn set(&mut self, value: Material)
        ensures
            *final(self).value == value,
            *final(final(self).value) == *final(old(self).value),
            final(self).links == old(self).links,
            *final(self).log == *old(self).log,
            *final(final(self).log) == *final(old(self).log),
    {
        *self.value = value;
    }
}

impl<'a, T> std::ops::Deref for MaterialProxy<'a, T> {
    type Target = Material;

    fn deref(&self) -> (m: &Material)
        ensures
            *m == *old(self.value),
    {
        &*self.value
    }
}

impl<'a, T> Drop for MaterialProxy<'a, T> {
    fn drop(&mut self)
        ensures
            *final(self).value == *old(self).value,
            final(self).links == old(self).links,
            final(self).log.entries() == old(self).log.entries() + material_sends(old(self).links@, *old(self).value),
        opens_invariants none
        no_unwind
    {
        send_material(self.links, *self.value, self.log);
    }
}

/// An object that other objects can be attached under.
#[verifier::reject_recursive_types(T)]
pub struct Group<T: Copy> {
    object: Object<T>,
}

impl<T: Copy> Group<T> {
    pub closed spec fn inner(&self) -> Object<T> {
        self.object
    }

    pub(crate) fn new(identity: T) -> (g: Self)
        ensures
            g.inner().wf(),
            g.inner().spec_transform() == identity,
            g.inner().links() == Seq::<SceneLink<T, ()>>::empty(),
    {
        Group { object: Object::new(identity) }
    }

    /// The group's object.
    pub fn object(&self) -> (o: &Object<T>)
        ensures
            *o == self.inner(),
    {
        &self.object
    }

    /// The group's object, to attach it or change its transform.
    pub fn object_mut(&mut self) -> (o: &mut Object<T>)
        ensures
            *o == old(self).inner(),
            final(self).inner() == *final(o),
    {
        &mut self.object
    }
}

impl<T: Copy> std::ops::Deref for Group<T> {
    type Target = Object<T>;

    fn deref(&self) -> (o: &Object<T>)
        ensures
            *o == self.inner(),
    {
        &self.object
    }
}

/// A visual object drawn as lines, which keeps its geometry when that
/// geometry is dynamic.
#[verifier::reject_recursive_types(T)]
pub struct Line<T: Copy, G: Clone, P, N> {
    object: VisualObject<T, G>,
    _geometry: Option<Geometry<P, N>>,
}

impl<T: Copy, G: Clone, P, N> Line<T, G, P, N> {
    pub closed spec fn inner(&self) -> VisualObject<T, G> {
        self.object
    }

    pub closed spec fn kept_geometry(&self) -> Option<Geometry<P, N>> {
        self._geometry
    }

    pub(crate) fn new(object: VisualObject<T, G>, geometry: Option<Geometry<P, N>>) -> (l: Self)
        ensures
            l.inner() == object,
            l.kept_geometry() == geometry,
    {
        Line { object, _geometry: geometry }
    }

    /// The line's visual object.
    pub fn object(&self) -> (o: &VisualObject<T, G>)
        ensures
            *o == self.inner(),
    {
        &self.object
    }

    /// The line's visual object, to attach it or change it.
    pub fn object_mut(&mut self) -> (o: &mut VisualObject<T, G>)
        ensures
            *o == old(self).inner(),
            final(self).inner() == *final(o),
            final(self).kept_geometry() == old(self).kept_geometry(),
    {
        &mut self.object
    }
}

impl<T: Copy, G: Clone, P, N> std::ops::Deref for Line<T, G, P, N> {
    type Target = VisualObject<T, G>;

    fn deref(&self) -> (o: &VisualObject<T, G>)
        ensures
            *o == self.inner(),
    {
        &self.object
    }
}

} // verus!
