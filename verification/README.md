# three

A scene graph for drawing lines, verified with Verus.

- `src/` is the library. Scenes hold a graph of nodes (local and world
  transforms, each with at most one parent that comes before it) and the
  visuals drawn at them, kept in vectors and addressed by index; nothing is
  ever removed, so an index stays valid for the scene's lifetime. Objects,
  groups and lines are attached to scenes; each link to a scene holds a
  clone of that scene's sender. A change made through a transform or
  material proxy (when it is dropped) or through `set_transform` /
  `set_material` is handed to `Sender::send` on every link's own sender, with
  the message for the object's node or visual in that scene. What is handed
  to `send` is recorded in a ghost log that only the call of `send` extends,
  and the contracts state that log exactly; `laws.rs` proves that each such
  message, once applied, sets the object's node or visual in that scene. A
  scene records in a second ghost log what it takes from its channel, each
  message with the receiver it came from, and `process_messages` / `update`
  take them from the scene's own receiver and apply exactly those messages;
  a scene's sender and receiver are the two ends of one `channel` call. That a message
  handed to a sender comes out of the receiver of the same channel is not
  stated by anything in the library: it is what `std::sync::mpsc` does.
  `Scene::update` applies the messages that arrived and recomputes the world
  transforms from the root down.
- Verus does not apply a `Drop` implementation's contract where a value goes
  out of scope, so after a proxy's scope ends a verified caller knows neither
  the object's new value nor its send log, though each proxy function's
  contract states its part. `set_transform` and `set_material` make the same
  change in one call, and their contracts compose.
- Scene nodes and visuals live in vectors addressed by index, where a
  component storage with reference-counted pointers could serve: the
  storage's items would hold the caller's transform type, and what such a
  storage holds cannot be named for a generic item type; its reference
  counts also live in shared state that no contract could name. Nodes are
  never freed here, as they are never freed in a storage that is never
  synchronised.
  Transforms, GPU data and the graphics factory are type parameters, so the
  library never touches floating point or the GPU. `src/laws.rs` holds what
  is proved across calls.
- `app/` fixes those parameters to cgmath and gfx types and holds the OpenGL
  renderer, the cameras, the upload of line vertices, and the tests made
  before attaching that the library asks of its callers.
- `tests/` runs the library with integer transforms.
