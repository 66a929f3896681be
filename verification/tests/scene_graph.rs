use three::{color_channels, Factory, Geometry, Material, Message, Scene};

fn add(a: &i64, b: &i64) -> i64 {
    a + b
}

fn factory() -> Factory<(), i64> {
    Factory::new((), 0)
}

#[test]
fn color_channels_split_bytes() {
    assert_eq!(color_channels(0x123456), (0x12, 0x34, 0x56));
    assert_eq!(color_channels(0xFF0000), (0xFF, 0, 0));
    assert_eq!(color_channels(0x0000FF), (0, 0, 0xFF));
    assert_eq!(color_channels(0xAB_FFFFFF), (0xFF, 0xFF, 0xFF));
    assert_eq!(color_channels(0), (0, 0, 0));
}

#[test]
fn color_channels_recombine() {
    for c in [0u32, 1, 0x808080, 0xDEADBEEF, u32::MAX] {
        let (r, g, b) = color_channels(c);
        assert_eq!((r as u32) << 16 | (g as u32) << 8 | b as u32, c & 0xFF_FFFF);
    }
}

#[test]
fn material_color() {
    assert_eq!(Material::LineBasic { color: 0x00FF00 }.color(), 0x00FF00);
}

#[test]
fn geometry_new_is_empty_and_static() {
    let g: Geometry<i32, i32> = Geometry::new();
    assert!(g.vertices.is_empty() && g.normals.is_empty() && g.faces.is_empty());
    assert!(!g.is_dynamic);
}

#[test]
fn geometry_from_vertices_keeps_vertices() {
    let g: Geometry<i32, i32> = Geometry::from_vertices(vec![1, 2, 3]);
    assert_eq!(g.vertices, vec![1, 2, 3]);
    assert!(g.normals.is_empty() && g.faces.is_empty());
    assert!(!g.is_dynamic);
}

#[test]
fn scene_ids_count_up() {
    let mut f = factory();
    let a: Scene<i64, u8> = f.scene();
    let b: Scene<i64, u8> = f.scene();
    assert_eq!(a.unique_id(), 1);
    assert_eq!(b.unique_id(), 2);
    assert_eq!(a.num_nodes(), 0);
    assert_eq!(a.num_visuals(), 0);
}

#[test]
fn group_starts_with_identity() {
    let mut f = Factory::new((), 7i64);
    let g = f.group();
    assert_eq!(*g.transform(), 7);
    assert!(!g.in_scene(1));
}

#[test]
fn line_keeps_only_dynamic_geometry() {
    let mut f = factory();
    let mut geom: Geometry<i32, i32> = Geometry::from_vertices(vec![1, 2]);
    let l = f.line(geom.clone(), Material::LineBasic { color: 5 }, 9u8);
    assert!(l.object().material() == &Material::LineBasic { color: 5 });
    assert_eq!(*l.transform(), 0);
    geom.is_dynamic = true;
    let _l2 = f.line(geom, Material::LineBasic { color: 5 }, 9u8);
}

#[test]
fn attach_adds_node_under_group() {
    let mut f = factory();
    let mut scene: Scene<i64, u8> = f.scene();
    let mut group = f.group();
    {
        let mut t = group.object_mut().transform_mut();
        t.set(10);
    }
    group.object_mut().attach(&mut scene, None);
    assert_eq!(scene.num_nodes(), 1);
    assert_eq!(scene.node(0).parent, None);
    assert_eq!(scene.node(0).local, 10);
    assert_eq!(group.scene_node(scene.unique_id()), Some(0));

    let mut child = f.group();
    child.object_mut().attach(&mut scene, Some(&group));
    assert_eq!(scene.num_nodes(), 2);
    assert_eq!(scene.node(1).parent, Some(0));
    assert_eq!(scene.node(1).world, 0);
    assert!(child.in_scene(scene.unique_id()));
}

#[test]
fn attach_visual_adds_node_and_visual() {
    let mut f = factory();
    let mut scene: Scene<i64, u8> = f.scene();
    let mut line = f.line(Geometry::<i32, i32>::new(), Material::LineBasic { color: 0xFF }, 3u8);
    line.object_mut().attach(&mut scene, None);
    assert_eq!(scene.num_nodes(), 1);
    assert_eq!(scene.num_visuals(), 1);
    assert_eq!(scene.visual(0).node, 0);
    assert_eq!(scene.visual(0).gpu_data, 3);
    assert!(scene.visual(0).material == Material::LineBasic { color: 0xFF });
}

#[test]
fn one_object_in_two_scenes() {
    let mut f = factory();
    let mut s1: Scene<i64, u8> = f.scene();
    let mut s2: Scene<i64, u8> = f.scene();
    let mut g = f.group();
    g.object_mut().attach(&mut s1, None);
    g.object_mut().attach(&mut s2, None);
    {
        let mut t = g.object_mut().transform_mut();
        t.set(4);
    }
    s1.update(add);
    s2.update(add);
    assert_eq!(s1.node(0).local, 4);
    assert_eq!(s2.node(0).local, 4);
    assert_eq!(s1.node(0).world, 4);
}

#[test]
fn transform_write_reaches_scene_on_update() {
    let mut f = factory();
    let mut scene: Scene<i64, u8> = f.scene();
    let mut g = f.group();
    g.object_mut().attach(&mut scene, None);
    {
        let mut t = g.object_mut().transform_mut();
        assert_eq!(*t, 0);
        t.set(3);
        assert_eq!(*t, 3);
    }
    assert_eq!(*g.transform(), 3);
    assert_eq!(scene.node(0).local, 0);
    scene.update(add);
    assert_eq!(scene.node(0).local, 3);
    assert_eq!(scene.node(0).world, 3);
}

#[test]
fn last_transform_wins() {
    let mut f = factory();
    let mut scene: Scene<i64, u8> = f.scene();
    let mut g = f.group();
    g.object_mut().attach(&mut scene, None);
    for v in [1, 2, 5] {
        let mut t = g.object_mut().transform_mut();
        t.set(v);
    }
    scene.process_messages();
    assert_eq!(scene.node(0).local, 5);
    assert_eq!(scene.node(0).world, 0);
}

#[test]
fn material_write_reaches_visual() {
    let mut f = factory();
    let mut scene: Scene<i64, u8> = f.scene();
    let mut line = f.line(Geometry::<i32, i32>::new(), Material::LineBasic { color: 1 }, 0u8);
    line.object_mut().attach(&mut scene, None);
    {
        let mut m = line.object_mut().material_mut();
        m.set(Material::LineBasic { color: 0xABCDEF });
    }
    scene.process_messages();
    assert!(scene.visual(0).material == Material::LineBasic { color: 0xABCDEF });
    assert_eq!(scene.num_nodes(), 1);
}

#[test]
fn visual_transform_write_reaches_node() {
    let mut f = factory();
    let mut scene: Scene<i64, u8> = f.scene();
    let mut line = f.line(Geometry::<i32, i32>::new(), Material::LineBasic { color: 1 }, 0u8);
    line.object_mut().attach(&mut scene, None);
    {
        let mut t = line.object_mut().transform_mut();
        t.set(8);
    }
    scene.update(add);
    assert_eq!(scene.visual_world(0), 8);
}

#[test]
fn world_composes_along_ancestors() {
    let mut f = factory();
    let mut scene: Scene<i64, u8> = f.scene();
    let mut a = f.group();
    let mut b = f.group();
    let mut c = f.line(Geometry::<i32, i32>::new(), Material::LineBasic { color: 1 }, 0u8);
    a.object_mut().attach(&mut scene, None);
    b.object_mut().attach(&mut scene, Some(&a));
    c.object_mut().attach(&mut scene, Some(&b));
    {
        let mut t = a.object_mut().transform_mut();
        t.set(10);
    }
    {
        let mut t = b.object_mut().transform_mut();
        t.set(5);
    }
    {
        let mut t = c.object_mut().transform_mut();
        t.set(1);
    }
    scene.update(add);
    assert_eq!(scene.node(0).world, 10);
    assert_eq!(scene.node(1).world, 15);
    assert_eq!(scene.node(2).world, 16);
    assert_eq!(scene.visual_world(0), 16);
}

#[test]
fn compute_transforms_uses_parent_world() {
    let mut f = factory();
    let mut scene: Scene<i64, u8> = f.scene();
    let mut a = f.group();
    a.object_mut().attach(&mut scene, None);
    let mut b = f.group();
    b.object_mut().attach(&mut scene, Some(&a));
    scene.apply_message(Message::SetTransform(0, 2));
    scene.apply_message(Message::SetTransform(1, 3));
    scene.compute_transforms(|x: &i64, y: &i64| x * 10 + y);
    assert_eq!(scene.node(0).world, 2);
    assert_eq!(scene.node(1).world, 23);
}

#[test]
fn messages_out_of_range_change_nothing() {
    let mut f = factory();
    let mut scene: Scene<i64, u8> = f.scene();
    let mut g = f.group();
    g.object_mut().attach(&mut scene, None);
    scene.apply_messages(vec![
        Message::SetTransform(7, 1),
        Message::SetMaterial(0, Material::LineBasic { color: 2 }),
    ]);
    assert_eq!(scene.num_nodes(), 1);
    assert_eq!(scene.num_visuals(), 0);
    assert_eq!(scene.node(0).local, 0);
}

#[test]
fn messages_apply_in_order() {
    let mut f = factory();
    let mut scene: Scene<i64, u8> = f.scene();
    let mut g = f.group();
    g.object_mut().attach(&mut scene, None);
    scene.apply_messages(vec![Message::SetTransform(0, 1), Message::SetTransform(0, 9)]);
    assert_eq!(scene.node(0).local, 9);
}

#[test]
fn recomputing_world_transforms_changes_nothing() {
    let mut f = factory();
    let mut scene: Scene<i64, u8> = f.scene();
    let mut a = f.group();
    a.object_mut().attach(&mut scene, None);
    let mut b = f.group();
    b.object_mut().attach(&mut scene, Some(&a));
    {
        let mut t = a.object_mut().transform_mut();
        t.set(2);
    }
    {
        let mut t = b.object_mut().transform_mut();
        t.set(7);
    }
    scene.update(add);
    let first = (scene.node(0).world, scene.node(1).world);
    scene.update(add);
    assert_eq!((scene.node(0).world, scene.node(1).world), first);
    assert_eq!(first, (2, 9));
}

#[test]
fn world_is_not_recomputed_by_messages_alone() {
    let mut f = factory();
    let mut scene: Scene<i64, u8> = f.scene();
    let mut a = f.group();
    a.object_mut().attach(&mut scene, None);
    scene.update(add);
    {
        let mut t = a.object_mut().transform_mut();
        t.set(6);
    }
    scene.process_messages();
    assert_eq!(scene.node(0).local, 6);
    assert_eq!(scene.node(0).world, 0);
    scene.compute_transforms(add);
    assert_eq!(scene.node(0).world, 6);
}

#[test]
fn factory_graphics_is_reachable() {
    let mut f: Factory<u32, i64> = Factory::new(3, 0);
    *f.graphics_mut() += 1;
    assert_eq!(*f.graphics_mut(), 4);
    let s: Scene<i64, u8> = f.scene();
    assert_eq!(s.unique_id(), 1);
}

#[test]
fn scene_node_of_unattached_object_is_none() {
    let mut f = factory();
    let mut s1: Scene<i64, u8> = f.scene();
    let s2: Scene<i64, u8> = f.scene();
    let mut g = f.group();
    g.object_mut().attach(&mut s1, None);
    assert_eq!(g.scene_node(s1.unique_id()), Some(0));
    assert_eq!(g.scene_node(s2.unique_id()), None);
    assert!(!g.in_scene(s2.unique_id()));
}

#[test]
fn material_proxy_reads_through_deref() {
    let mut f = factory();
    let mut line = f.line(Geometry::<i32, i32>::new(), Material::LineBasic { color: 4 }, 0u8);
    let m = line.object_mut().material_mut();
    assert!(*m == Material::LineBasic { color: 4 });
    drop(m);
    assert!(line.material() == &Material::LineBasic { color: 4 });
}

#[test]
fn set_transform_reaches_every_scene() {
    let mut f = factory();
    let mut s1: Scene<i64, u8> = f.scene();
    let mut s2: Scene<i64, u8> = f.scene();
    let mut g = f.group();
    g.object_mut().attach(&mut s1, None);
    g.object_mut().attach(&mut s2, None);
    g.object_mut().set_transform(12);
    assert_eq!(*g.transform(), 12);
    s1.process_messages();
    s2.update(add);
    assert_eq!(s1.node(0).local, 12);
    assert_eq!(s1.node(0).world, 0);
    assert_eq!(s2.node(0).world, 12);
}

#[test]
fn set_material_and_transform_of_visual() {
    let mut f = factory();
    let mut s1: Scene<i64, u8> = f.scene();
    let mut s2: Scene<i64, u8> = f.scene();
    let mut line = f.line(Geometry::<i32, i32>::new(), Material::LineBasic { color: 1 }, 0u8);
    line.object_mut().attach(&mut s1, None);
    line.object_mut().attach(&mut s2, None);
    line.object_mut().set_material(Material::LineBasic { color: 0x102030 });
    line.object_mut().set_transform(3);
    assert!(line.material() == &Material::LineBasic { color: 0x102030 });
    for s in [&mut s1, &mut s2] {
        s.update(add);
        assert!(s.visual(0).material == Material::LineBasic { color: 0x102030 });
        assert_eq!(s.visual_world(0), 3);
    }
}

#[test]
fn proxy_sends_even_when_a_scene_is_gone() {
    let mut f = factory();
    let mut s1: Scene<i64, u8> = f.scene();
    let mut s2: Scene<i64, u8> = f.scene();
    let mut g = f.group();
    g.object_mut().attach(&mut s1, None);
    g.object_mut().attach(&mut s2, None);
    drop(s1);
    {
        let mut t = g.object_mut().transform_mut();
        t.set(9);
    }
    s2.process_messages();
    assert_eq!(s2.node(0).local, 9);
}

#[test]
fn group_change_reaches_children_in_one_update() {
    let mut f = factory();
    let mut scene: Scene<i64, u8> = f.scene();
    let mut g = f.group();
    g.object_mut().attach(&mut scene, None);
    let mut line = f.line(Geometry::<i32, i32>::new(), Material::LineBasic { color: 1 }, 0u8);
    line.object_mut().attach(&mut scene, Some(&g));
    line.object_mut().set_transform(2);
    scene.update(add);
    {
        let mut t = g.object_mut().transform_mut();
        t.set(30);
    }
    scene.update(add);
    assert_eq!(scene.node(0).world, 30);
    assert_eq!(scene.node(1).world, 32);
}
