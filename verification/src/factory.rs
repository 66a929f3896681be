//! The factory that makes scenes, groups and lines.
use vstd::prelude::*;

use crate::color::Material;
use crate::geometry::Geometry;
use crate::object::{Group, Line, SceneLink, VisualObject};
use crate::scene::{Message, Node, Scene, SceneId, Visual};
use std::sync::mpsc::Receiver;

verus! {

/// Makes scenes with ids that it counts up from one, and the objects that go
/// into them. `F` is the graphics factory that GPU data is made with; the
/// identity transform is what new objects and nodes start with.
pub struct Factory<F, T> {
    graphics: F,
    scene_id: SceneId,
    identity: T,
}

impl<F, T: Copy> Factory<F, T> {
    /// The id of the last scene made, zero before the first.
    pub closed spec fn last_scene_id(&self) -> SceneId {
        self.scene_id
    }

    pub closed spec fn spec_graphics(&self) -> F {
        self.graphics
    }

    pub closed spec fn spec_identity(&self) -> T {
        self.identity
    }

    /// A factory that has made no scene yet.
    pub fn new(graphics: F, identity: T) -> (f: Self)
        ensures
            f.last_scene_id() == 0,
            f.spec_graphics() == graphics,
            f.spec_identity() == identity,
    {
        Factory { graphics, scene_id: 0, identity }
    }

    /// The graphics factory, to make GPU data with.
    pub fn graphics_mut(&mut self) -> (g: &mut F)
        ensures
            *g == old(self).spec_graphics(),
            final(self).spec_graphics() == *final(g),
            final(self).last_scene_id() == old(self).last_scene_id(),
            final(self).spec_identity() == old(self).spec_identity(),
    {
        &mut self.graphics
    }

    /// A new empty scene, with the next id.
    pub fn scene<G>(&mut self) -> (s: Scene<T, G>)
        requires
            old(self).last_scene_id() < usize::MAX,
        ensures
            s.wf(),
            s.id() == old(self).last_scene_id() + 1,
            final(self).last_scene_id() == s.id(),
            s.nodes() == Seq::<Node<T>>::empty(),
            s.visuals() == Seq::<Visual<G>>::empty(),
            s.identity() == old(self).spec_identity(),
            s.received_log() == Seq::<(Receiver<Message<T>>, Message<T>)>::empty(),
            s.drained() == Seq::<Receiver<Message<T>>>::empty(),
            s.ends_of_one_channel(),
            final(self).spec_graphics() == old(self).spec_graphics(),
            final(self).spec_identity() == old(self).spec_identity(),
    {
        self.scene_id = self.scene_id + 1;
        Scene::new(self.scene_id, self.identity)
    }

    /// A new group with the identity transform, attached nowhere.
    pub fn group(&mut self) -> (g: Group<T>)
        ensures
            g.inner().wf(),
            g.inner().spec_transform() == old(self).spec_identity(),
            g.inner().links() == Seq::<SceneLink<T, ()>>::empty(),
            *final(self) == *old(self),
    {
        Group::new(self.identity)
    }

    /// A new line drawn with `mat` from `gpu_data`, the GPU copy of
    /// `geom`'s vertices, with the identity transform and attached nowhere.
    /// The line keeps `geom` when it is dynamic.
    pub fn line<G: Clone, P, N>(&mut self, geom: Geometry<P, N>, mat: Material, gpu_data: G) -> (l: Line<T, G, P, N>)
        ensures
            l.inner().wf(),
            l.inner().spec_visible(),
            l.inner().spec_transform() == old(self).spec_identity(),
            l.inner().spec_material() == mat,
            l.inner().spec_gpu_data() == gpu_data,
            l.inner().links() == Seq::<SceneLink<T, usize>>::empty(),
            l.kept_geometry() == (if geom.is_dynamic { Some(geom) } else { None }),
            *final(self) == *old(self),
    {
        let object = VisualObject::new(mat, gpu_data, self.identity);
        let kept = if geom.is_dynamic { Some(geom) } else { None };
        Line::new(object, kept)
    }
}

} // verus!
