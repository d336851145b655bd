use khepri::scene::{Scene, SceneData, ShapeType, DEFAULT_POSITION_BITS, DEFAULT_ROTATION_BITS, DEFAULT_SIZE_BITS};

#[test]
fn test_add_object() {
    let mut scene = Scene::new();
    let id = scene.add_object(ShapeType::Rectangle);
    assert_eq!(id, 1);
    assert_eq!(scene.object_count(), 1);
    assert_eq!(scene.objects[0].name, "Rectangle 1");
    assert_eq!(scene.objects[0].shape, ShapeType::Rectangle);
}

#[test]
fn test_add_multiple_objects() {
    let mut scene = Scene::new();
    let r_id = scene.add_object(ShapeType::Rectangle);
    let c_id = scene.add_object(ShapeType::Circle);
    let t_id = scene.add_object(ShapeType::Triangle);

    assert_eq!(scene.object_count(), 3);
    assert_eq!(scene.objects[0].name, "Rectangle 1");
    assert_eq!(scene.objects[0].id, r_id);
    assert_eq!(scene.objects[1].name, "Circle 1");
    assert_eq!(scene.objects[1].id, c_id);
    assert_eq!(scene.objects[2].name, "Triangle 1");
    assert_eq!(scene.objects[2].id, t_id);
}

#[test]
fn test_add_second_of_same_type() {
    let mut scene = Scene::new();
    scene.add_object(ShapeType::Rectangle);
    scene.add_object(ShapeType::Rectangle);
    assert_eq!(scene.objects[0].name, "Rectangle 1");
    assert_eq!(scene.objects[1].name, "Rectangle 2");
}

#[test]
fn test_select_and_deselect() {
    let mut scene = Scene::new();
    let id = scene.add_object(ShapeType::Circle);

    scene.select(Some(id));
    assert_eq!(scene.selected_id, Some(id));

    scene.select(None);
    assert_eq!(scene.selected_id, None);
}

#[test]
fn test_remove_selected() {
    let mut scene = Scene::new();
    let id1 = scene.add_object(ShapeType::Rectangle);
    let _id2 = scene.add_object(ShapeType::Circle);

    scene.select(Some(id1));
    scene.remove_selected();

    assert_eq!(scene.object_count(), 1);
    assert_eq!(scene.objects[0].name, "Circle 1");
    assert_eq!(scene.selected_id, None);
}

#[test]
fn test_get_selected_mut() {
    let mut scene = Scene::new();
    let id = scene.add_object(ShapeType::Triangle);
    scene.select(Some(id));

    scene.get_selected_mut().unwrap().x = 250.0f32.to_bits();
    scene.get_selected_mut().unwrap().y = 300.0f32.to_bits();

    let obj = scene.get_selected().unwrap();
    assert_eq!(f32::from_bits(obj.x), 250.0);
    assert_eq!(f32::from_bits(obj.y), 300.0);
}

#[test]
fn shape_names_and_slots() {
    assert_eq!(ShapeType::Rectangle.name(), "Rectangle");
    assert_eq!(ShapeType::Circle.name(), "Circle");
    assert_eq!(ShapeType::Triangle.name(), "Triangle");
    assert_eq!(ShapeType::Rectangle.index(), 0);
    assert_eq!(ShapeType::Circle.index(), 1);
    assert_eq!(ShapeType::Triangle.index(), 2);
}

#[test]
fn new_objects_get_the_default_transform() {
    let mut scene = Scene::new();
    scene.add_object(ShapeType::Circle);
    let o = &scene.objects[0];
    assert_eq!(f32::from_bits(o.x), 100.0);
    assert_eq!(f32::from_bits(o.y), 100.0);
    assert_eq!(f32::from_bits(o.width), 80.0);
    assert_eq!(f32::from_bits(o.height), 80.0);
    assert_eq!(f32::from_bits(o.rotation), 0.0);
    assert_eq!(o.x, DEFAULT_POSITION_BITS);
    assert_eq!(o.width, DEFAULT_SIZE_BITS);
    assert_eq!(o.rotation, DEFAULT_ROTATION_BITS);
}

#[test]
fn counters_are_per_shape_and_survive_removal() {
    let mut scene = Scene::new();
    let a = scene.add_object(ShapeType::Circle);
    scene.add_object(ShapeType::Triangle);
    scene.select(Some(a));
    scene.remove_selected();
    let c = scene.add_object(ShapeType::Circle);
    assert_eq!(c, 3);
    assert_eq!(scene.next_id(), 4);
    assert_eq!(scene.name_counter(ShapeType::Rectangle), 0);
    assert_eq!(scene.name_counter(ShapeType::Circle), 2);
    assert_eq!(scene.name_counter(ShapeType::Triangle), 1);
    assert_eq!(scene.objects[0].name, "Triangle 1");
    assert_eq!(scene.objects[1].name, "Circle 2");
}

#[test]
fn names_count_past_nine() {
    let mut scene = Scene::new();
    for _ in 0..12 {
        scene.add_object(ShapeType::Triangle);
    }
    assert_eq!(scene.objects[9].name, "Triangle 10");
    assert_eq!(scene.objects[11].name, "Triangle 12");
}

#[test]
fn remove_without_selection_keeps_objects() {
    let mut scene = Scene::new();
    scene.add_object(ShapeType::Rectangle);
    scene.remove_selected();
    assert_eq!(scene.object_count(), 1);
}

#[test]
fn selecting_a_missing_id_finds_nothing() {
    let mut scene = Scene::new();
    scene.add_object(ShapeType::Rectangle);
    scene.select(Some(42));
    assert!(scene.get_selected().is_none());
    assert!(scene.get_selected_mut().is_none());
    scene.remove_selected();
    assert_eq!(scene.object_count(), 1);
    assert_eq!(scene.selected_id, None);
}

#[test]
fn topmost_hit_wins() {
    let mut scene = Scene::new();
    scene.add_object(ShapeType::Rectangle);
    scene.add_object(ShapeType::Circle);
    scene.add_object(ShapeType::Triangle);
    scene.select_topmost(&vec![true, true, false]);
    assert_eq!(scene.selected_id, Some(2));
    scene.select_topmost(&vec![false, false, false]);
    assert_eq!(scene.selected_id, None);
    scene.select_topmost(&vec![false, false, true]);
    assert_eq!(scene.selected_id, Some(3));
}

#[test]
fn scene_data_round_trip_drops_selection() {
    let mut scene = Scene::new();
    scene.add_object(ShapeType::Rectangle);
    scene.add_object(ShapeType::Circle);
    scene.select(Some(1));
    let data: SceneData = scene.to_scene_data();
    assert_eq!(data.objects.len(), 2);
    assert_eq!(data.next_id, 3);
    assert_eq!(data.name_counters, [1, 1, 0]);
    let loaded = Scene::from_scene_data(data);
    assert_eq!(loaded.object_count(), 2);
    assert_eq!(loaded.objects[0].name, "Rectangle 1");
    assert_eq!(loaded.objects[1].name, "Circle 1");
    assert_eq!(loaded.selected_id, None);
    let mut loaded = loaded;
    assert_eq!(loaded.add_object(ShapeType::Circle), 3);
    assert_eq!(loaded.objects[2].name, "Circle 2");
}

#[test]
fn default_scene_is_empty() {
    let scene = Scene::default();
    assert_eq!(scene.object_count(), 0);
    assert_eq!(scene.selected_id, None);
    assert_eq!(scene.next_id(), 1);
}

#[test]
fn duplicate_copies_every_field() {
    let mut scene = Scene::new();
    scene.add_object(ShapeType::Triangle);
    let copy = scene.objects[0].duplicate();
    assert_eq!(copy.id, 1);
    assert_eq!(copy.name, "Triangle 1");
    assert_eq!(copy.shape, ShapeType::Triangle);
    assert_eq!(copy.height, DEFAULT_SIZE_BITS);
}

#[test]
fn change_detection_apart_from_transform() {
    let mut scene = Scene::new();
    scene.add_object(ShapeType::Circle);
    let earlier = scene.objects.clone();
    let earlier_selected = scene.selected_id;
    assert!(!scene.changed_apart_from_transform(&earlier, earlier_selected));
    scene.objects[0].x = 7;
    assert!(!scene.changed_apart_from_transform(&earlier, earlier_selected));
    scene.objects[0].name = "Renamed".to_string();
    assert!(scene.changed_apart_from_transform(&earlier, earlier_selected));
    scene.objects[0].name = earlier[0].name.clone();
    scene.select(Some(1));
    assert!(scene.changed_apart_from_transform(&earlier, earlier_selected));
    scene.select(None);
    scene.add_object(ShapeType::Triangle);
    assert!(scene.changed_apart_from_transform(&earlier, earlier_selected));
}
