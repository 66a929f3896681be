//! A small scene graph: objects and groups are attached to scenes, changes to
//! their transforms and materials travel to every scene they are part of as
//! messages, and a scene composes the world transform of each node from its
//! parent's.
//!
//! Transforms, GPU data and the graphics factory are type parameters: the
//! library moves them, copies them and hands them to the composition its
//! caller supplies, and never looks inside.
mod channel;
pub mod color;
pub mod factory;
pub mod geometry;
pub mod laws;
pub mod object;
pub mod scene;

pub use color::{color_channels, Color, Material};
pub use factory::Factory;
pub use geometry::Geometry;
pub use object::{Group, Line, MaterialProxy, Object, TransformProxy, TransformProxyVisual, VisualObject};
pub use scene::{Message, Scene, SceneId};
