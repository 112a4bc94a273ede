use std::sync::Arc;

use spritec::math::Mat4;
use spritec::query3d::gltf::GltfFile;
use spritec::query3d::{
    CameraQuery, File, FileError, GeometryFilter, GeometryQuery, LightQuery, QueryError,
    SceneFormat, str_eq,
};
use spritec::scene::{CameraType, Geometry, LightType, Mesh, Node, Scene};

fn bare_node() -> Node {
    Node {
        name: None,
        transform: Mat4::identity(),
        mesh: None,
        camera: None,
        light: None,
        children: Vec::new(),
    }
}

/// A diagonal matrix; diag(1,1,1,1) is the identity.
fn diag(a: i64, b: i64, c: i64, d: i64) -> Mat4 {
    let mut m = Mat4::identity();
    m.e00 = a;
    m.e11 = b;
    m.e22 = c;
    m.e33 = d;
    m
}

fn scene_named(name: &str, roots: Vec<Node>) -> Arc<Scene> {
    Arc::new(Scene { name: Some(name.to_string()), roots })
}

fn geometry_query() -> GeometryQuery {
    GeometryQuery { models: GeometryFilter::all_in_default_scene() }
}

#[test]
fn repeated_geometry_query_returns_the_same_shared_list() {
    let mut node = bare_node();
    node.mesh = Some(Arc::new(Mesh { geometry: vec![Geometry { id: 1 }, Geometry { id: 2 }] }));
    let mut file = GltfFile::open(vec![scene_named("A", vec![node])], 0);

    let first = file.query_geometry(&geometry_query()).unwrap();
    let second = file.query_geometry(&geometry_query()).unwrap();
    assert!(Arc::ptr_eq(&first, &second));
    assert_eq!(first.len(), 2);
    assert_eq!(first[0].geometry, Geometry { id: 1 });
    assert_eq!(first[1].geometry, Geometry { id: 2 });
}

#[test]
fn geometry_accumulates_world_transforms() {
    let parent_transform = diag(2, 3, 5, 1);
    let child_transform = diag(7, 1, 1, 1);
    let mut child = bare_node();
    child.transform = child_transform;
    child.mesh = Some(Arc::new(Mesh { geometry: vec![Geometry { id: 9 }] }));
    let mut parent = bare_node();
    parent.transform = parent_transform;
    parent.children = vec![child];

    let mut file = GltfFile::open(vec![scene_named("A", vec![parent])], 0);
    let geo = file.query_geometry(&geometry_query()).unwrap();
    assert_eq!(geo.len(), 1);
    let expected = Mat4::identity().mul(&parent_transform).mul(&child_transform);
    assert_eq!(geo[0].model_transform, expected);
}

#[test]
fn empty_scene_reports_no_geometry_found() {
    let mut file = GltfFile::open(vec![scene_named("A", vec![bare_node()])], 0);
    let err = file.query_geometry(&geometry_query()).unwrap_err();
    assert_eq!(err, QueryError::NoGeometryFound);
}

#[test]
fn unknown_scene_is_distinct_from_empty_results() {
    let mut file = GltfFile::open(vec![scene_named("A", vec![bare_node()])], 0);
    let query = GeometryQuery {
        models: GeometryFilter::Scene { name: Some("Nonexistent".to_string()) },
    };
    let err = file.query_geometry(&query).unwrap_err();
    assert_eq!(err, QueryError::UnknownScene { name: "Nonexistent".to_string() });
    assert_ne!(err, QueryError::NoGeometryFound);

    let cam_err = file
        .query_camera(&CameraQuery::FirstInScene { name: Some("Nonexistent".to_string()) })
        .unwrap_err();
    assert_eq!(cam_err, QueryError::UnknownScene { name: "Nonexistent".to_string() });

    let light_err = file
        .query_lights(&LightQuery::Scene { name: Some("Nonexistent".to_string()) })
        .unwrap_err();
    assert_eq!(light_err, QueryError::UnknownScene { name: "Nonexistent".to_string() });
}

#[test]
fn find_scene_resolves_names_and_default() {
    let scenes = vec![scene_named("A", vec![bare_node()]), scene_named("B", vec![bare_node()])];
    let file = GltfFile::open(scenes, 1);
    assert_eq!(file.find_scene(None).unwrap(), 1);
    assert_eq!(file.find_scene(Some(&"A".to_string())).unwrap(), 0);
    assert_eq!(file.find_scene(Some(&"B".to_string())).unwrap(), 1);
    assert!(matches!(
        file.find_scene(Some(&"C".to_string())),
        Err(QueryError::UnknownScene { .. })
    ));
}

#[test]
fn first_camera_view_is_the_exact_inverse_of_the_world_transform() {
    // An identity-transform camera node: the view matrix must be the
    // camera-local-to-world inverse, i.e. the identity with denominator 1.
    let projection = diag(4, 4, 1, 1);
    let mut node = bare_node();
    node.camera = Some(Arc::new(CameraType { name: None, projection }));
    let mut file = GltfFile::open(vec![scene_named("A", vec![node])], 0);

    let cam = file.query_camera(&CameraQuery::FirstInScene { name: None }).unwrap();
    assert_eq!(cam.view, Mat4::identity().inverted());
    assert_eq!(cam.view.mat, Mat4::identity());
    assert_eq!(cam.view.den, 1);
    assert_eq!(cam.projection, projection);
    assert_eq!(CameraType { name: None, projection }.to_projection(), projection);
}

#[test]
fn first_camera_on_a_scene_without_cameras_fails() {
    let mut file = GltfFile::open(vec![scene_named("A", vec![bare_node()])], 0);
    let err = file.query_camera(&CameraQuery::FirstInScene { name: None }).unwrap_err();
    assert_eq!(err, QueryError::NoCameraFound);
}

#[test]
fn first_camera_in_traversal_order_wins() {
    let mut first = bare_node();
    first.transform = diag(2, 2, 2, 1);
    first.camera = Some(Arc::new(CameraType { name: None, projection: diag(1, 1, 1, 1) }));
    let mut second = bare_node();
    second.camera = Some(Arc::new(CameraType { name: None, projection: diag(9, 9, 9, 9) }));

    let mut file = GltfFile::open(vec![scene_named("A", vec![first, second])], 0);
    let cam = file.query_camera(&CameraQuery::FirstInScene { name: None }).unwrap();
    // The view is the inverse of diag(2,2,2,1): adjugate diag(4,4,4,8)
    // over determinant 8.
    assert_eq!(cam.view, diag(2, 2, 2, 1).inverted());
    assert_eq!(cam.view.den, 8);

    let again = file.query_camera(&CameraQuery::FirstInScene { name: None }).unwrap();
    assert!(Arc::ptr_eq(&cam, &again));
}

#[test]
fn named_camera_matches_node_or_camera_name() {
    let mut by_node_name = bare_node();
    by_node_name.name = Some("rig".to_string());
    by_node_name.camera = Some(Arc::new(CameraType { name: None, projection: diag(1, 2, 3, 4) }));

    let mut by_camera_name = bare_node();
    by_camera_name.camera = Some(Arc::new(CameraType {
        name: Some("hero".to_string()),
        projection: diag(5, 6, 7, 8),
    }));

    let scenes = vec![scene_named("A", vec![by_node_name, by_camera_name])];
    let mut file = GltfFile::open(scenes, 0);

    let rig = file
        .query_camera(&CameraQuery::Named { name: "rig".to_string(), scene: None })
        .unwrap();
    assert_eq!(rig.projection, diag(1, 2, 3, 4));

    let hero = file
        .query_camera(&CameraQuery::Named { name: "hero".to_string(), scene: None })
        .unwrap();
    assert_eq!(hero.projection, diag(5, 6, 7, 8));

    let hero_again = file
        .query_camera(&CameraQuery::Named { name: "hero".to_string(), scene: None })
        .unwrap();
    assert!(Arc::ptr_eq(&hero, &hero_again));

    let missing = file
        .query_camera(&CameraQuery::Named { name: "gone".to_string(), scene: None })
        .unwrap_err();
    assert_eq!(missing, QueryError::UnknownCamera { name: "gone".to_string() });
}

#[test]
fn lights_are_collected_with_world_transforms() {
    let mut lit = bare_node();
    lit.transform = diag(3, 3, 3, 1);
    lit.light = Some(Arc::new(LightType { id: 11 }));
    let mut dark_child = bare_node();
    dark_child.light = Some(Arc::new(LightType { id: 12 }));
    lit.children = vec![dark_child];

    let mut file = GltfFile::open(vec![scene_named("A", vec![lit])], 0);
    let lights = file.query_lights(&LightQuery::Scene { name: None }).unwrap();
    assert_eq!(lights.len(), 2);
    assert_eq!(lights[0].data.id, 11);
    assert_eq!(lights[0].world_transform, Mat4::identity().mul(&diag(3, 3, 3, 1)));
    assert_eq!(lights[1].data.id, 12);
    let expected = Mat4::identity().mul(&diag(3, 3, 3, 1)).mul(&Mat4::identity());
    assert_eq!(lights[1].world_transform, expected);

    let again = file.query_lights(&LightQuery::Scene { name: None }).unwrap();
    assert!(Arc::ptr_eq(&lights, &again));
}

#[test]
fn scene_without_lights_reports_no_lights_found() {
    let mut file = GltfFile::open(vec![scene_named("A", vec![bare_node()])], 0);
    let err = file.query_lights(&LightQuery::Scene { name: None }).unwrap_err();
    assert_eq!(err, QueryError::NoLightsFound);
}

#[test]
fn file_backend_forwards_queries() {
    let mut node = bare_node();
    node.mesh = Some(Arc::new(Mesh { geometry: vec![Geometry { id: 5 }] }));
    let mut file = File::open_gltf(vec![scene_named("A", vec![node])], 0);
    let geo = file.query_geometry(&geometry_query()).unwrap();
    assert_eq!(geo.len(), 1);
    let again = file.query_geometry(&geometry_query()).unwrap();
    assert!(Arc::ptr_eq(&geo, &again));
}

#[test]
fn file_format_follows_the_extension() {
    assert_eq!(File::format_for_path("m.obj", Some("obj")).unwrap(), SceneFormat::Obj);
    assert_eq!(File::format_for_path("m.gltf", Some("gltf")).unwrap(), SceneFormat::Gltf);
    assert_eq!(File::format_for_path("m.glb", Some("glb")).unwrap(), SceneFormat::Gltf);
    assert_eq!(
        File::format_for_path("m.png", Some("png")).unwrap_err(),
        FileError::UnsupportedFileExtension { path: "m.png".to_string() }
    );
    assert_eq!(
        File::format_for_path("noext", None).unwrap_err(),
        FileError::UnsupportedFileExtension { path: "noext".to_string() }
    );
}

#[test]
fn str_eq_is_exact() {
    assert!(str_eq("scene", "scene"));
    assert!(!str_eq("scene", "Scene"));
    assert!(!str_eq("scene", "scen"));
    assert!(str_eq("", ""));
}
