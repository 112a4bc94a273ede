//! The glTF query backend: one open file's scenes and the memoized
//! answers to the queries already made against them.
//!
//! The scene graph is immutable for the lifetime of the open file, so a
//! cache entry, once written, is never invalidated or recomputed: every
//! entry always equals the data derived from its scene, which the
//! backend's well-formedness states and every operation preserves.

use vstd::prelude::*;
use std::sync::Arc;
use crate::math::{Mat4, mat4_identity};
use crate::scene::{
    Scene,
    ShaderGeometry,
    Light,
    Camera,
    scene_geometry,
    scene_lights,
    scene_first_camera,
    scene_named_camera,
    shader_geometry_views,
    light_views,
    forest_geometry,
    forest_lights,
    forest_first_camera,
    forest_named_camera,
    lemma_forest_geometry_take_step,
    lemma_forest_lights_take_step,
    lemma_forest_first_camera_append,
    lemma_forest_first_camera_singleton,
    lemma_forest_named_camera_append,
    lemma_forest_named_camera_singleton,
};
use super::{GeometryQuery, GeometryFilter, CameraQuery, LightQuery, QueryError};

verus! {

/// One open glTF file: its scenes, the index of the default scene, and
/// one cache per query kind. Geometry, lights and the scene's first
/// camera are cached by scene index; named cameras are cached by scene
/// index and name.
#[derive(Debug)]
pub struct GltfFile {
    default_scene: usize,
    scenes: Vec<Arc<Scene>>,
    scene_shader_geometry: Vec<Option<Arc<Vec<Arc<ShaderGeometry>>>>>,
    scene_lights: Vec<Option<Arc<Vec<Arc<Light>>>>>,
    scene_first_camera: Vec<Option<Arc<Camera>>>,
    scene_cameras: Vec<(usize, String, Arc<Camera>)>,
}

/// Whether a scene answers to `name`.
pub open spec fn scene_matches_name(s: Scene, name: Seq<char>) -> bool {
    s.name matches Some(n) && n@ == name
}

/// The index of the first scene answering to `name`, if any.
pub open spec fn scene_index_for(scenes: Seq<Scene>, name: Seq<char>) -> Option<int>
    decreases scenes,
{
    if scenes.len() == 0 {
        None
    } else if scene_matches_name(scenes[0], name) {
        Some(0)
    } else {
        match scene_index_for(scenes.drop_first(), name) {
            Some(i) => Some(i + 1),
            None => None,
        }
    }
}

/// Looking a name up in two adjacent runs of scenes finds the first
/// run's match if it has one, else the second run's, shifted past the
/// first run.
pub proof fn lemma_scene_index_append(a: Seq<Scene>, b: Seq<Scene>, name: Seq<char>)
    ensures
        scene_index_for(a + b, name) == match scene_index_for(a, name) {
            Some(i) => Some(i),
            None => match scene_index_for(b, name) {
                Some(j) => Some(a.len() + j),
                None => None::<int>,
            },
        },
    decreases a,
{
    if a.len() == 0 {
        assert(a + b =~= b);
    } else {
        assert((a + b).drop_first() =~= a.drop_first() + b);
        assert((a + b)[0] == a[0]);
        lemma_scene_index_append(a.drop_first(), b, name);
    }
}

/// A successful scene lookup returns an index into the scene list.
pub proof fn lemma_scene_index_bounds(scenes: Seq<Scene>, name: Seq<char>)
    ensures
        scene_index_for(scenes, name) matches Some(i) ==> 0 <= i < scenes.len(),
    decreases scenes,
{
    if scenes.len() > 0 && !scene_matches_name(scenes[0], name) {
        lemma_scene_index_bounds(scenes.drop_first(), name);
    }
}

/// A run of one scene matches at index zero exactly when that scene
/// answers to the name.
pub proof fn lemma_scene_index_singleton(s: Scene, name: Seq<char>)
    ensures
        scene_index_for(seq![s], name) == if scene_matches_name(s, name) {
            Some(0int)
        } else {
            None::<int>
        },
{
    assert(seq![s].drop_first() =~= Seq::<Scene>::empty());
    assert(scene_index_for(Seq::<Scene>::empty(), name) is None);
}

/// The shared camera cached under `(scene, name)`, if any; the first
/// entry with that key wins.
pub open spec fn camera_cache_lookup(
    entries: Seq<(usize, String, Arc<Camera>)>,
    scene: int,
    name: Seq<char>,
) -> Option<Arc<Camera>>
    decreases entries,
{
    if entries.len() == 0 {
        None
    } else if entries[0].0 == scene && entries[0].1@ == name {
        Some(entries[0].2)
    } else {
        camera_cache_lookup(entries.drop_first(), scene, name)
    }
}

/// Looking a key up in two adjacent runs of cache entries finds the
/// first run's entry if it has one, else the second run's.
pub proof fn lemma_camera_cache_lookup_append(
    a: Seq<(usize, String, Arc<Camera>)>,
    b: Seq<(usize, String, Arc<Camera>)>,
    scene: int,
    name: Seq<char>,
)
    ensures
        camera_cache_lookup(a + b, scene, name) == match camera_cache_lookup(a, scene, name) {
            Some(c) => Some(c),
            None => camera_cache_lookup(b, scene, name),
        },
    decreases a,
{
    if a.len() == 0 {
        assert(a + b =~= b);
    } else {
        assert((a + b).drop_first() =~= a.drop_first() + b);
        assert((a + b)[0] == a[0]);
        lemma_camera_cache_lookup_append(a.drop_first(), b, scene, name);
    }
}

/// A run of one cache entry answers exactly to its own key.
pub proof fn lemma_camera_cache_lookup_singleton(
    e: (usize, String, Arc<Camera>),
    scene: int,
    name: Seq<char>,
)
    ensures
        camera_cache_lookup(seq![e], scene, name) == if e.0 == scene && e.1@ == name {
            Some(e.2)
        } else {
            None::<Arc<Camera>>
        },
{
    assert(seq![e].drop_first() =~= Seq::<(usize, String, Arc<Camera>)>::empty());
    assert(camera_cache_lookup(Seq::<(usize, String, Arc<Camera>)>::empty(), scene, name)
        is None);
}

/// A geometry cache entry, where present, holds exactly the non-empty
/// derived geometry of its scene.
pub open spec fn geo_entry_ok(
    scenes: Seq<Scene>,
    cache: Seq<Option<Arc<Vec<Arc<ShaderGeometry>>>>>,
    k: int,
) -> bool {
    cache[k] matches Some(v) ==> shader_geometry_views(v@) == scene_geometry(scenes[k]) && v@.len()
        > 0
}

/// A light cache entry, where present, holds exactly the non-empty
/// derived lights of its scene.
pub open spec fn lights_entry_ok(
    scenes: Seq<Scene>,
    cache: Seq<Option<Arc<Vec<Arc<Light>>>>>,
    k: int,
) -> bool {
    cache[k] matches Some(v) ==> light_views(v@) == scene_lights(scenes[k]) && v@.len() > 0
}

/// A first-camera cache entry, where present, holds exactly the first
/// camera of its scene.
pub open spec fn first_camera_entry_ok(
    scenes: Seq<Scene>,
    cache: Seq<Option<Arc<Camera>>>,
    k: int,
) -> bool {
    cache[k] matches Some(c) ==> scene_first_camera(scenes[k]) == Some(*c)
}

/// A named-camera cache entry names a scene of the file and holds
/// exactly the camera its scene resolves that name to.
pub open spec fn named_entry_ok(
    scenes: Seq<Scene>,
    entries: Seq<(usize, String, Arc<Camera>)>,
    k: int,
) -> bool {
    entries[k].0 < scenes.len() && scene_named_camera(scenes[entries[k].0 as int], entries[k].1@)
        == Some(*entries[k].2)
}

/// Well-formedness survives writing a correct entry into the geometry
/// cache.
proof fn lemma_wf_geo_update(
    pre: GltfFile,
    post: GltfFile,
    si: int,
    v: Arc<Vec<Arc<ShaderGeometry>>>,
)
    requires
        pre.wf(),
        0 <= si < pre.scenes_view().len(),
        post.scene_handles() == pre.scene_handles(),
        post.spec_default_scene() == pre.spec_default_scene(),
        post.geo_cache() == pre.geo_cache().update(si, Some(v)),
        post.lights_cache() == pre.lights_cache(),
        post.first_camera_cache() == pre.first_camera_cache(),
        post.named_camera_cache() == pre.named_camera_cache(),
        shader_geometry_views(v@) == scene_geometry(pre.scenes_view()[si]),
        v@.len() > 0,
    ensures
        post.wf(),
{
    assert(post.scenes_view() =~= pre.scenes_view());
    let scenes = post.scenes_view();
    assert forall|k: int| 0 <= k < scenes.len() implies #[trigger] geo_entry_ok(
        scenes,
        post.geo_cache(),
        k,
    ) by {
        assert(geo_entry_ok(pre.scenes_view(), pre.geo_cache(), k));
        if k != si {
            assert(post.geo_cache()[k] == pre.geo_cache()[k]);
        }
    }
    assert forall|k: int| 0 <= k < scenes.len() implies #[trigger] lights_entry_ok(
        scenes,
        post.lights_cache(),
        k,
    ) by {
        assert(lights_entry_ok(pre.scenes_view(), pre.lights_cache(), k));
    }
    assert forall|k: int| 0 <= k < scenes.len() implies #[trigger] first_camera_entry_ok(
        scenes,
        post.first_camera_cache(),
        k,
    ) by {
        assert(first_camera_entry_ok(pre.scenes_view(), pre.first_camera_cache(), k));
    }
    assert forall|k: int| 0 <= k < post.named_camera_cache().len()
        implies #[trigger] named_entry_ok(scenes, post.named_camera_cache(), k) by {
        assert(named_entry_ok(pre.scenes_view(), pre.named_camera_cache(), k));
    }
}

/// Well-formedness survives writing a correct entry into the light
/// cache.
proof fn lemma_wf_lights_update(pre: GltfFile, post: GltfFile, si: int, v: Arc<Vec<Arc<Light>>>)
    requires
        pre.wf(),
        0 <= si < pre.scenes_view().len(),
        post.scene_handles() == pre.scene_handles(),
        post.spec_default_scene() == pre.spec_default_scene(),
        post.lights_cache() == pre.lights_cache().update(si, Some(v)),
        post.geo_cache() == pre.geo_cache(),
        post.first_camera_cache() == pre.first_camera_cache(),
        post.named_camera_cache() == pre.named_camera_cache(),
        light_views(v@) == scene_lights(pre.scenes_view()[si]),
        v@.len() > 0,
    ensures
        post.wf(),
{
    assert(post.scenes_view() =~= pre.scenes_view());
    let scenes = post.scenes_view();
    assert forall|k: int| 0 <= k < scenes.len() implies #[trigger] geo_entry_ok(
        scenes,
        post.geo_cache(),
        k,
    ) by {
        assert(geo_entry_ok(pre.scenes_view(), pre.geo_cache(), k));
    }
    assert forall|k: int| 0 <= k < scenes.len() implies #[trigger] lights_entry_ok(
        scenes,
        post.lights_cache(),
        k,
    ) by {
        assert(lights_entry_ok(pre.scenes_view(), pre.lights_cache(), k));
        if k != si {
            assert(post.lights_cache()[k] == pre.lights_cache()[k]);
        }
    }
    assert forall|k: int| 0 <= k < scenes.len() implies #[trigger] first_camera_entry_ok(
        scenes,
        post.first_camera_cache(),
        k,
    ) by {
        assert(first_camera_entry_ok(pre.scenes_view(), pre.first_camera_cache(), k));
    }
    assert forall|k: int| 0 <= k < post.named_camera_cache().len()
        implies #[trigger] named_entry_ok(scenes, post.named_camera_cache(), k) by {
        assert(named_entry_ok(pre.scenes_view(), pre.named_camera_cache(), k));
    }
}

/// Well-formedness survives writing a correct entry into the
/// first-camera cache.
proof fn lemma_wf_first_camera_update(pre: GltfFile, post: GltfFile, si: int, c: Arc<Camera>)
    requires
        pre.wf(),
        0 <= si < pre.scenes_view().len(),
        post.scene_handles() == pre.scene_handles(),
        post.spec_default_scene() == pre.spec_default_scene(),
        post.first_camera_cache() == pre.first_camera_cache().update(si, Some(c)),
        post.geo_cache() == pre.geo_cache(),
        post.lights_cache() == pre.lights_cache(),
        post.named_camera_cache() == pre.named_camera_cache(),
        scene_first_camera(pre.scenes_view()[si]) == Some(*c),
    ensures
        post.wf(),
{
    assert(post.scenes_view() =~= pre.scenes_view());
    let scenes = post.scenes_view();
    assert forall|k: int| 0 <= k < scenes.len() implies #[trigger] geo_entry_ok(
        scenes,
        post.geo_cache(),
        k,
    ) by {
        assert(geo_entry_ok(pre.scenes_view(), pre.geo_cache(), k));
    }
    assert forall|k: int| 0 <= k < scenes.len() implies #[trigger] lights_entry_ok(
        scenes,
        post.lights_cache(),
        k,
    ) by {
        assert(lights_entry_ok(pre.scenes_view(), pre.lights_cache(), k));
    }
    assert forall|k: int| 0 <= k < scenes.len() implies #[trigger] first_camera_entry_ok(
        scenes,
        post.first_camera_cache(),
        k,
    ) by {
        assert(first_camera_entry_ok(pre.scenes_view(), pre.first_camera_cache(), k));
        if k != si {
            assert(post.first_camera_cache()[k] == pre.first_camera_cache()[k]);
        }
    }
    assert forall|k: int| 0 <= k < post.named_camera_cache().len()
        implies #[trigger] named_entry_ok(scenes, post.named_camera_cache(), k) by {
        assert(named_entry_ok(pre.scenes_view(), pre.named_camera_cache(), k));
    }
}

/// Well-formedness survives appending a correct entry to the
/// named-camera cache.
proof fn lemma_wf_named_push(pre: GltfFile, post: GltfFile, e: (usize, String, Arc<Camera>))
    requires
        pre.wf(),
        post.scene_handles() == pre.scene_handles(),
        post.spec_default_scene() == pre.spec_default_scene(),
        post.named_camera_cache() == pre.named_camera_cache().push(e),
        post.geo_cache() == pre.geo_cache(),
        post.lights_cache() == pre.lights_cache(),
        post.first_camera_cache() == pre.first_camera_cache(),
        e.0 < pre.scenes_view().len(),
        scene_named_camera(pre.scenes_view()[e.0 as int], e.1@) == Some(*e.2),
    ensures
        post.wf(),
{
    assert(post.scenes_view() =~= pre.scenes_view());
    let scenes = post.scenes_view();
    assert forall|k: int| 0 <= k < scenes.len() implies #[trigger] geo_entry_ok(
        scenes,
        post.geo_cache(),
        k,
    ) by {
        assert(geo_entry_ok(pre.scenes_view(), pre.geo_cache(), k));
    }
    assert forall|k: int| 0 <= k < scenes.len() implies #[trigger] lights_entry_ok(
        scenes,
        post.lights_cache(),
        k,
    ) by {
        assert(lights_entry_ok(pre.scenes_view(), pre.lights_cache(), k));
    }
    assert forall|k: int| 0 <= k < scenes.len() implies #[trigger] first_camera_entry_ok(
        scenes,
        post.first_camera_cache(),
        k,
    ) by {
        assert(first_camera_entry_ok(pre.scenes_view(), pre.first_camera_cache(), k));
    }
    assert forall|k: int| 0 <= k < post.named_camera_cache().len()
        implies #[trigger] named_entry_ok(scenes, post.named_camera_cache(), k) by {
        if k < pre.named_camera_cache().len() {
            assert(named_entry_ok(pre.scenes_view(), pre.named_camera_cache(), k));
            assert(post.named_camera_cache()[k] == pre.named_camera_cache()[k]);
        } else {
            assert(post.named_camera_cache()[k] == e);
        }
    }
}

impl GltfFile {
    /// The scenes of the open file.
    pub closed spec fn scenes_view(&self) -> Seq<Scene> {
        self.scenes@.map(|i: int, a: Arc<Scene>| *a)
    }

    /// The shared scene handles of the open file.
    pub closed spec fn scene_handles(&self) -> Seq<Arc<Scene>> {
        self.scenes@
    }

    /// The index of the default scene.
    pub closed spec fn spec_default_scene(&self) -> int {
        self.default_scene as int
    }

    /// The geometry cache, by scene index.
    pub closed spec fn geo_cache(&self) -> Seq<Option<Arc<Vec<Arc<ShaderGeometry>>>>> {
        self.scene_shader_geometry@
    }

    /// The light cache, by scene index.
    pub closed spec fn lights_cache(&self) -> Seq<Option<Arc<Vec<Arc<Light>>>>> {
        self.scene_lights@
    }

    /// The first-camera cache, by scene index.
    pub closed spec fn first_camera_cache(&self) -> Seq<Option<Arc<Camera>>> {
        self.scene_first_camera@
    }

    /// The named-camera cache: entries keyed by scene index and name.
    pub closed spec fn named_camera_cache(&self) -> Seq<(usize, String, Arc<Camera>)> {
        self.scene_cameras@
    }

    /// Well-formedness: the default scene exists, every scene has at
    /// least one root, every cache covers the scenes, and every cache
    /// entry equals the data derived from its immutable scene.
    pub open spec fn wf(&self) -> bool {
        let scenes = self.scenes_view();
        &&& 0 <= self.spec_default_scene() < scenes.len()
        &&& forall|i: int| 0 <= i < scenes.len() ==> (#[trigger] scenes[i]).wf()
        &&& self.geo_cache().len() == scenes.len()
        &&& self.lights_cache().len() == scenes.len()
        &&& self.first_camera_cache().len() == scenes.len()
        &&& forall|k: int|
            0 <= k < scenes.len() ==> #[trigger] geo_entry_ok(scenes, self.geo_cache(), k)
        &&& forall|k: int|
            0 <= k < scenes.len() ==> #[trigger] lights_entry_ok(scenes, self.lights_cache(), k)
        &&& forall|k: int|
            0 <= k < scenes.len() ==> #[trigger] first_camera_entry_ok(
                scenes,
                self.first_camera_cache(),
                k,
            )
        &&& forall|k: int|
            0 <= k < self.named_camera_cache().len() ==> #[trigger] named_entry_ok(
                scenes,
                self.named_camera_cache(),
                k,
            )
    }

    /// A backend freshly opened over `scenes`: the given default index
    /// and every cache empty.
    pub open spec fn is_fresh(&self, scenes: Seq<Arc<Scene>>, default_scene: usize) -> bool {
        &&& self.scene_handles() == scenes
        &&& self.spec_default_scene() == default_scene
        &&& self.geo_cache().len() == scenes.len()
        &&& self.lights_cache().len() == scenes.len()
        &&& self.first_camera_cache().len() == scenes.len()
        &&& forall|k: int| 0 <= k < scenes.len() ==> self.geo_cache()[k] is None
        &&& forall|k: int| 0 <= k < scenes.len() ==> self.lights_cache()[k] is None
        &&& forall|k: int| 0 <= k < scenes.len() ==> self.first_camera_cache()[k] is None
        &&& self.named_camera_cache() == Seq::<(usize, String, Arc<Camera>)>::empty()
    }

    /// The scene a selector resolves to: the default scene when no name
    /// is given, else the first scene with that name.
    pub open spec fn spec_resolve(&self, name: Option<String>) -> Option<int> {
        match name {
            None => Some(self.spec_default_scene()),
            Some(n) => scene_index_for(self.scenes_view(), n@),
        }
    }

    /// Opens a backend over loaded scenes with every cache empty. The
    /// loader guarantees at least one scene, each with at least one root
    /// node, and a default scene index among them.
    pub fn open(scenes: Vec<Arc<Scene>>, default_scene: usize) -> (r: Self)
        requires
            default_scene < scenes@.len(),
            forall|i: int| 0 <= i < scenes@.len() ==> (*#[trigger] scenes@[i]).wf(),
        ensures
            r.wf(),
            r.is_fresh(scenes@, default_scene),
    {
        let n = scenes.len();
        let mut geo: Vec<Option<Arc<Vec<Arc<ShaderGeometry>>>>> = Vec::new();
        let mut lights: Vec<Option<Arc<Vec<Arc<Light>>>>> = Vec::new();
        let mut cams: Vec<Option<Arc<Camera>>> = Vec::new();
        let mut i: usize = 0;
        while i < n
            invariant
                i <= n,
                geo@.len() == i,
                lights@.len() == i,
                cams@.len() == i,
                forall|k: int| 0 <= k < i ==> geo@[k] is None,
                forall|k: int| 0 <= k < i ==> lights@[k] is None,
                forall|k: int| 0 <= k < i ==> cams@[k] is None,
            decreases n - i,
        {
            geo.push(None);
            lights.push(None);
            cams.push(None);
            i += 1;
        }
        let r = GltfFile {
            default_scene,
            scenes,
            scene_shader_geometry: geo,
            scene_lights: lights,
            scene_first_camera: cams,
            scene_cameras: Vec::new(),
        };
        proof {
            assert forall|k: int| 0 <= k < r.scenes_view().len() implies #[trigger] geo_entry_ok(
                r.scenes_view(),
                r.scene_shader_geometry@,
                k,
            ) by {}
            assert forall|k: int| 0 <= k < r.scenes_view().len() implies #[trigger] lights_entry_ok(
                r.scenes_view(),
                r.scene_lights@,
                k,
            ) by {}
            assert forall|k: int|
                0 <= k < r.scenes_view().len() implies #[trigger] first_camera_entry_ok(
                r.scenes_view(),
                r.scene_first_camera@,
                k,
            ) by {}
        }
        r
    }

    /// The index of the scene a selector resolves to: the default scene
    /// when no name is given, else the first scene with that exact name;
    /// an unknown name is a resolution error, distinct from every
    /// emptiness error.
    pub fn find_scene(&self, name: Option<&String>) -> (r: Result<usize, QueryError>)
        requires
            self.wf(),
        ensures
            match name {
                None => r matches Ok(i) && i == self.spec_default_scene(),
                Some(n) => match scene_index_for(self.scenes_view(), n@) {
                    Some(i) => r matches Ok(j) && j == i,
                    None => r matches Err(QueryError::UnknownScene { name: en }) && en@ == n@,
                },
            },
            r matches Ok(i) ==> 0 <= i < self.scenes_view().len(),
    {
        match name {
            None => Ok(self.default_scene),
            Some(n) => {
                let count = self.scenes.len();
                let mut i: usize = 0;
                while i < count
                    invariant
                        i <= count,
                        count == self.scenes@.len(),
                        self.wf(),
                        name == Some(n),
                        scene_index_for(self.scenes_view().take(i as int), n@) is None,
                    decreases count - i,
                {
                    let s = &self.scenes[i];
                    let found = match &(**s).name {
                        Some(sn) => *sn == *n,
                        None => false,
                    };
                    proof {
                        lemma_scene_index_append(
                            self.scenes_view().take(i as int),
                            seq![self.scenes_view()[i as int]],
                            n@,
                        );
                        lemma_scene_index_singleton(self.scenes_view()[i as int], n@);
                        assert(self.scenes_view().take(i + 1) =~= self.scenes_view().take(i as int)
                            + seq![self.scenes_view()[i as int]]);
                    }
                    if found {
                        proof {
                            lemma_scene_index_append(
                                self.scenes_view().take(i + 1),
                                self.scenes_view().skip(i + 1),
                                n@,
                            );
                            assert(self.scenes_view().take(i + 1) + self.scenes_view().skip(i + 1)
                                =~= self.scenes_view());
                        }
                        return Ok(i);
                    }
                    i += 1;
                }
                proof {
                    assert(self.scenes_view().take(count as int) =~= self.scenes_view());
                }
                Err(QueryError::UnknownScene { name: n.clone() })
            },
        }
    }
}

/// The scene name a geometry filter selects by.
pub open spec fn filter_name(f: GeometryFilter) -> Option<String> {
    match f {
        GeometryFilter::Scene { name } => name,
    }
}

/// The scene name a light query selects by.
pub open spec fn light_query_name(q: LightQuery) -> Option<String> {
    match q {
        LightQuery::Scene { name } => name,
    }
}

/// What a geometry query leaves behind: every other cache untouched;
/// an unknown scene name fails and changes nothing; a scene without
/// geometry fails and changes nothing; otherwise the result is exactly
/// the scene's derived geometry, the geometry cache now holds it, and a
/// cache hit returns the previously cached shared value with the whole
/// backend unchanged.
pub open spec fn geometry_query_post(
    pre: GltfFile,
    post: GltfFile,
    query: GeometryQuery,
    r: Result<Arc<Vec<Arc<ShaderGeometry>>>, QueryError>,
) -> bool {
    &&& post.scene_handles() == pre.scene_handles()
    &&& post.spec_default_scene() == pre.spec_default_scene()
    &&& post.lights_cache() == pre.lights_cache()
    &&& post.first_camera_cache() == pre.first_camera_cache()
    &&& post.named_camera_cache() == pre.named_camera_cache()
    &&& match pre.spec_resolve(filter_name(query.models)) {
        None => {
            &&& r matches Err(QueryError::UnknownScene { name: en })
            &&& filter_name(query.models) matches Some(qn) && en@ == qn@
            &&& post == pre
        },
        Some(si) => {
            let scene = pre.scenes_view()[si];
            if scene_geometry(scene).len() == 0 {
                &&& r matches Err(QueryError::NoGeometryFound)
                &&& post == pre
            } else {
                &&& r matches Ok(v) && shader_geometry_views(v@) == scene_geometry(scene)
                &&& r matches Ok(v) && post.geo_cache() == pre.geo_cache().update(si, Some(v))
                &&& (pre.geo_cache()[si] matches Some(c) ==> r == Ok::<
                    Arc<Vec<Arc<ShaderGeometry>>>,
                    QueryError,
                >(c) && post == pre)
            }
        },
    }
}

/// What a light query leaves behind, in the same shape as a geometry
/// query: exact results, caching, and identity of cache hits.
pub open spec fn lights_query_post(
    pre: GltfFile,
    post: GltfFile,
    query: LightQuery,
    r: Result<Arc<Vec<Arc<Light>>>, QueryError>,
) -> bool {
    &&& post.scene_handles() == pre.scene_handles()
    &&& post.spec_default_scene() == pre.spec_default_scene()
    &&& post.geo_cache() == pre.geo_cache()
    &&& post.first_camera_cache() == pre.first_camera_cache()
    &&& post.named_camera_cache() == pre.named_camera_cache()
    &&& match pre.spec_resolve(light_query_name(query)) {
        None => {
            &&& r matches Err(QueryError::UnknownScene { name: en })
            &&& light_query_name(query) matches Some(qn) && en@ == qn@
            &&& post == pre
        },
        Some(si) => {
            let scene = pre.scenes_view()[si];
            if scene_lights(scene).len() == 0 {
                &&& r matches Err(QueryError::NoLightsFound)
                &&& post == pre
            } else {
                &&& r matches Ok(v) && light_views(v@) == scene_lights(scene)
                &&& r matches Ok(v) && post.lights_cache() == pre.lights_cache().update(
                    si,
                    Some(v),
                )
                &&& (pre.lights_cache()[si] matches Some(c) ==> r == Ok::<
                    Arc<Vec<Arc<Light>>>,
                    QueryError,
                >(c) && post == pre)
            }
        },
    }
}

/// What a camera query leaves behind: an unknown scene name fails and
/// changes nothing; a first-camera query on a scene without cameras
/// fails with the no-camera error; a named query whose name matches no
/// camera fails with the unknown-camera error; otherwise the result is
/// exactly the camera the scene resolves, with the view matrix the exact
/// inverse of that node's world transform, it is cached, and a cache hit
/// returns the previously cached shared value with the backend
/// unchanged.
pub open spec fn camera_query_post(
    pre: GltfFile,
    post: GltfFile,
    query: CameraQuery,
    r: Result<Arc<Camera>, QueryError>,
) -> bool {
    &&& post.scene_handles() == pre.scene_handles()
    &&& post.spec_default_scene() == pre.spec_default_scene()
    &&& post.geo_cache() == pre.geo_cache()
    &&& post.lights_cache() == pre.lights_cache()
    &&& match query {
        CameraQuery::FirstInScene { name } => {
            &&& post.named_camera_cache() == pre.named_camera_cache()
            &&& match pre.spec_resolve(name) {
                None => {
                    &&& r matches Err(QueryError::UnknownScene { name: en })
                    &&& name matches Some(qn) && en@ == qn@
                    &&& post == pre
                },
                Some(si) => match scene_first_camera(pre.scenes_view()[si]) {
                    None => {
                        &&& r matches Err(QueryError::NoCameraFound)
                        &&& post == pre
                    },
                    Some(cam) => {
                        &&& r matches Ok(c) && *c == cam
                        &&& r matches Ok(c) && post.first_camera_cache()
                            == pre.first_camera_cache().update(si, Some(c))
                        &&& (pre.first_camera_cache()[si] matches Some(cc) ==> r == Ok::<
                            Arc<Camera>,
                            QueryError,
                        >(cc) && post == pre)
                    },
                },
            }
        },
        CameraQuery::Named { name, scene } => {
            &&& post.first_camera_cache() == pre.first_camera_cache()
            &&& match pre.spec_resolve(scene) {
                None => {
                    &&& r matches Err(QueryError::UnknownScene { name: en })
                    &&& scene matches Some(qn) && en@ == qn@
                    &&& post == pre
                },
                Some(si) => match scene_named_camera(pre.scenes_view()[si], name@) {
                    None => {
                        &&& r matches Err(QueryError::UnknownCamera { name: en }) && en@ == name@
                        &&& post == pre
                    },
                    Some(cam) => {
                        &&& r matches Ok(c) && *c == cam
                        &&& match camera_cache_lookup(pre.named_camera_cache(), si, name@) {
                            Some(a) => r == Ok::<Arc<Camera>, QueryError>(a) && post == pre,
                            None => r matches Ok(c) && post.named_camera_cache()
                                == pre.named_camera_cache().push((si as usize, name, c)),
                        }
                    },
                },
            }
        },
    }
}

/// Memoization is identity-preserving: once a geometry query has
/// succeeded, running the same query again returns exactly the shared
/// value cached by the first run and leaves the backend untouched.
pub proof fn lemma_repeated_geometry_query_returns_cached(
    pre: GltfFile,
    mid: GltfFile,
    post: GltfFile,
    query: GeometryQuery,
    r1: Result<Arc<Vec<Arc<ShaderGeometry>>>, QueryError>,
    r2: Result<Arc<Vec<Arc<ShaderGeometry>>>, QueryError>,
)
    requires
        pre.wf(),
        geometry_query_post(pre, mid, query, r1),
        geometry_query_post(mid, post, query, r2),
        r1 is Ok,
    ensures
        r2 == r1,
        post == mid,
{
    assert(mid.scenes_view() =~= pre.scenes_view());
    match filter_name(query.models) {
        Some(n) => lemma_scene_index_bounds(pre.scenes_view(), n@),
        None => {},
    }
    match pre.spec_resolve(filter_name(query.models)) {
        None => {},
        Some(si) => {
            assert(0 <= si < pre.scenes_view().len());
            assert(mid.spec_resolve(filter_name(query.models)) == Some(si));
            assert(mid.geo_cache()[si] == pre.geo_cache().update(si, Some(r1->Ok_0))[si]);
            assert(mid.geo_cache()[si] matches Some(c) && c == r1->Ok_0);
        },
    }
}

impl GltfFile {
    /// Fetches the renderer-ready geometry of the scene the query
    /// selects: every mesh piece reachable in traversal order, paired
    /// with its accumulated world transform. The first answer per scene
    /// is cached; later calls return the same shared list.
    pub fn query_geometry(&mut self, query: &GeometryQuery) -> (r: Result<
        Arc<Vec<Arc<ShaderGeometry>>>,
        QueryError,
    >)
        requires
            old(self).wf(),
        ensures
            final(self).wf(),
            geometry_query_post(*old(self), *final(self), *query, r),
    {
        let scene_index = {
            let resolved = match &query.models {
                GeometryFilter::Scene { name } => match name {
                    Some(n) => self.find_scene(Some(n)),
                    None => self.find_scene(None),
                },
            };
            match resolved {
                Ok(i) => i,
                Err(e) => {
                    return Err(e);
                },
            }
        };
        let mut cached: Option<Arc<Vec<Arc<ShaderGeometry>>>> = None;
        match &self.scene_shader_geometry[scene_index] {
            Some(v) => {
                cached = Some(v.clone());
            },
            None => {},
        }
        match cached {
            Some(v) => {
                proof {
                    assert(geo_entry_ok(
                        self.scenes_view(),
                        self.scene_shader_geometry@,
                        scene_index as int,
                    ));
                    assert(self.scene_shader_geometry@.update(scene_index as int, Some(v))
                        =~= self.scene_shader_geometry@);
                }
                return Ok(v);
            },
            None => {},
        }
        let scene: Arc<Scene> = self.scenes[scene_index].clone();
        let identity = Mat4::identity();
        let mut geo: Vec<Arc<ShaderGeometry>> = Vec::new();
        let count = scene.roots.len();
        let mut i: usize = 0;
        while i < count
            invariant
                i <= count,
                count == scene.roots@.len(),
                identity == mat4_identity(),
                shader_geometry_views(geo@) == forest_geometry(
                    scene.roots@.take(i as int),
                    mat4_identity(),
                ),
            decreases count - i,
        {
            scene.roots[i].collect_geometry(&identity, &mut geo);
            proof {
                lemma_forest_geometry_take_step(scene.roots@, mat4_identity(), i as int);
                assert(shader_geometry_views(geo@) =~= forest_geometry(
                    scene.roots@.take(i + 1),
                    mat4_identity(),
                ));
            }
            i += 1;
        }
        proof {
            assert(scene.roots@.take(count as int) =~= scene.roots@);
        }
        if geo.len() == 0 {
            proof {
                assert(scene_geometry(self.scenes_view()[scene_index as int]).len() == 0);
            }
            return Err(QueryError::NoGeometryFound);
        }
        let shared = Arc::new(geo);
        let result = shared.clone();
        self.scene_shader_geometry[scene_index] = Some(shared);
        proof {
            lemma_wf_geo_update(*old(self), *self, scene_index as int, result);
        }
        Ok(result)
    }

    /// Fetches every light of the scene the query selects, paired with
    /// its accumulated world transform, in traversal order. The first
    /// answer per scene is cached; later calls return the same shared
    /// list.
    pub fn query_lights(&mut self, query: &LightQuery) -> (r: Result<
        Arc<Vec<Arc<Light>>>,
        QueryError,
    >)
        requires
            old(self).wf(),
        ensures
            final(self).wf(),
            lights_query_post(*old(self), *final(self), *query, r),
    {
        let scene_index = {
            let resolved = match query {
                LightQuery::Scene { name } => match name {
                    Some(n) => self.find_scene(Some(n)),
                    None => self.find_scene(None),
                },
            };
            match resolved {
                Ok(i) => i,
                Err(e) => {
                    return Err(e);
                },
            }
        };
        let mut cached: Option<Arc<Vec<Arc<Light>>>> = None;
        match &self.scene_lights[scene_index] {
            Some(v) => {
                cached = Some(v.clone());
            },
            None => {},
        }
        match cached {
            Some(v) => {
                proof {
                    assert(lights_entry_ok(
                        self.scenes_view(),
                        self.scene_lights@,
                        scene_index as int,
                    ));
                    assert(self.scene_lights@.update(scene_index as int, Some(v))
                        =~= self.scene_lights@);
                }
                return Ok(v);
            },
            None => {},
        }
        let scene: Arc<Scene> = self.scenes[scene_index].clone();
        let identity = Mat4::identity();
        let mut lights: Vec<Arc<Light>> = Vec::new();
        let count = scene.roots.len();
        let mut i: usize = 0;
        while i < count
            invariant
                i <= count,
                count == scene.roots@.len(),
                identity == mat4_identity(),
                light_views(lights@) == forest_lights(
                    scene.roots@.take(i as int),
                    mat4_identity(),
                ),
            decreases count - i,
        {
            scene.roots[i].collect_lights(&identity, &mut lights);
            proof {
                lemma_forest_lights_take_step(scene.roots@, mat4_identity(), i as int);
                assert(light_views(lights@) =~= forest_lights(
                    scene.roots@.take(i + 1),
                    mat4_identity(),
                ));
            }
            i += 1;
        }
        proof {
            assert(scene.roots@.take(count as int) =~= scene.roots@);
        }
        if lights.len() == 0 {
            proof {
                assert(scene_lights(self.scenes_view()[scene_index as int]).len() == 0);
            }
            return Err(QueryError::NoLightsFound);
        }
        let shared = Arc::new(lights);
        let result = shared.clone();
        self.scene_lights[scene_index] = Some(shared);
        proof {
            lemma_wf_lights_update(*old(self), *self, scene_index as int, result);
        }
        Ok(result)
    }

    /// Fetches the camera the query selects: the first camera of a scene
    /// in traversal order, or the first camera answering to a name
    /// (matching the node's name or the camera definition's name; the
    /// first match wins). The view matrix is the exact inverse of the
    /// camera node's accumulated world transform. Answers are cached per
    /// scene (first camera) or per scene and name (named cameras);
    /// later calls return the same shared camera.
    pub fn query_camera(&mut self, query: &CameraQuery) -> (r: Result<Arc<Camera>, QueryError>)
        requires
            old(self).wf(),
        ensures
            final(self).wf(),
            camera_query_post(*old(self), *final(self), *query, r),
    {
        match query {
            CameraQuery::FirstInScene { name } => {
                let scene_index = {
                    let resolved = match name {
                        Some(n) => self.find_scene(Some(n)),
                        None => self.find_scene(None),
                    };
                    match resolved {
                        Ok(i) => i,
                        Err(e) => {
                            return Err(e);
                        },
                    }
                };
                let mut cached: Option<Arc<Camera>> = None;
                match &self.scene_first_camera[scene_index] {
                    Some(c) => {
                        cached = Some(c.clone());
                    },
                    None => {},
                }
                match cached {
                    Some(c) => {
                        proof {
                            assert(first_camera_entry_ok(
                                self.scenes_view(),
                                self.scene_first_camera@,
                                scene_index as int,
                            ));
                            assert(self.scene_first_camera@.update(scene_index as int, Some(c))
                                =~= self.scene_first_camera@);
                        }
                        return Ok(c);
                    },
                    None => {},
                }
                let scene: Arc<Scene> = self.scenes[scene_index].clone();
                let identity = Mat4::identity();
                let count = scene.roots.len();
                let mut i: usize = 0;
                while i < count
                    invariant
                        i <= count,
                        count == scene.roots@.len(),
                        identity == mat4_identity(),
                        *self == *old(self),
                        old(self).wf(),
                        scene_index < old(self).scenes_view().len(),
                        *query matches CameraQuery::FirstInScene { name: qn } && old(
                            self,
                        ).spec_resolve(qn) == Some(scene_index as int),
                        scene == old(self).scene_handles()[scene_index as int],
                        old(self).first_camera_cache()[scene_index as int] is None,
                        forest_first_camera(scene.roots@.take(i as int), mat4_identity())
                            is None,
                    decreases count - i,
                {
                    let found = scene.roots[i].find_first_camera(&identity);
                    proof {
                        lemma_forest_first_camera_append(
                            scene.roots@.take(i as int),
                            seq![scene.roots@[i as int]],
                            mat4_identity(),
                        );
                        lemma_forest_first_camera_singleton(
                            scene.roots@[i as int],
                            mat4_identity(),
                        );
                        assert(scene.roots@.take(i + 1) =~= scene.roots@.take(i as int)
                            + seq![scene.roots@[i as int]]);
                    }
                    match found {
                        Some(cam) => {
                            proof {
                                lemma_forest_first_camera_append(
                                    scene.roots@.take(i + 1),
                                    scene.roots@.skip(i + 1),
                                    mat4_identity(),
                                );
                                assert(scene.roots@.take(i + 1) + scene.roots@.skip(i + 1)
                                    =~= scene.roots@);
                                assert(scene_first_camera(
                                    old(self).scenes_view()[scene_index as int],
                                ) == Some(cam));
                            }
                            let arc = Arc::new(cam);
                            let result = arc.clone();
                            self.scene_first_camera[scene_index] = Some(arc);
                            proof {
                                lemma_wf_first_camera_update(
                                    *old(self),
                                    *self,
                                    scene_index as int,
                                    result,
                                );
                            }
                            return Ok(result);
                        },
                        None => {},
                    }
                    i += 1;
                }
                proof {
                    assert(scene.roots@.take(count as int) =~= scene.roots@);
                }
                Err(QueryError::NoCameraFound)
            },
            CameraQuery::Named { name, scene } => {
                let scene_index = {
                    let resolved = match scene {
                        Some(n) => self.find_scene(Some(n)),
                        None => self.find_scene(None),
                    };
                    match resolved {
                        Ok(i) => i,
                        Err(e) => {
                            return Err(e);
                        },
                    }
                };
                let cache_len = self.scene_cameras.len();
                let mut k: usize = 0;
                while k < cache_len
                    invariant
                        k <= cache_len,
                        cache_len == self.scene_cameras@.len(),
                        *self == *old(self),
                        old(self).wf(),
                        scene_index < old(self).scenes_view().len(),
                        *query matches CameraQuery::Named { name: qnm, scene: qsc } && qnm
                            == *name && old(self).spec_resolve(qsc) == Some(scene_index as int),
                        camera_cache_lookup(
                            self.scene_cameras@.take(k as int),
                            scene_index as int,
                            name@,
                        ) is None,
                    decreases cache_len - k,
                {
                    let entry = &self.scene_cameras[k];
                    let key_matches = entry.0 == scene_index && entry.1 == *name;
                    proof {
                        lemma_camera_cache_lookup_append(
                            self.scene_cameras@.take(k as int),
                            seq![self.scene_cameras@[k as int]],
                            scene_index as int,
                            name@,
                        );
                        lemma_camera_cache_lookup_singleton(
                            self.scene_cameras@[k as int],
                            scene_index as int,
                            name@,
                        );
                        assert(self.scene_cameras@.take(k + 1) =~= self.scene_cameras@.take(
                            k as int,
                        ) + seq![self.scene_cameras@[k as int]]);
                    }
                    if key_matches {
                        proof {
                            lemma_camera_cache_lookup_append(
                                self.scene_cameras@.take(k + 1),
                                self.scene_cameras@.skip(k + 1),
                                scene_index as int,
                                name@,
                            );
                            assert(self.scene_cameras@.take(k + 1) + self.scene_cameras@.skip(
                                k + 1,
                            ) =~= self.scene_cameras@);
                            assert(named_entry_ok(
                                old(self).scenes_view(),
                                old(self).named_camera_cache(),
                                k as int,
                            ));
                        }
                        return Ok(entry.2.clone());
                    }
                    k += 1;
                }
                proof {
                    assert(self.scene_cameras@.take(cache_len as int) =~= self.scene_cameras@);
                }
                let scene_arc: Arc<Scene> = self.scenes[scene_index].clone();
                let identity = Mat4::identity();
                let count = scene_arc.roots.len();
                let mut i: usize = 0;
                while i < count
                    invariant
                        i <= count,
                        count == scene_arc.roots@.len(),
                        identity == mat4_identity(),
                        *self == *old(self),
                        old(self).wf(),
                        scene_index < old(self).scenes_view().len(),
                        *query matches CameraQuery::Named { name: qnm, scene: qsc } && qnm
                            == *name && old(self).spec_resolve(qsc) == Some(scene_index as int),
                        scene_arc == old(self).scene_handles()[scene_index as int],
                        camera_cache_lookup(
                            old(self).named_camera_cache(),
                            scene_index as int,
                            name@,
                        ) is None,
                        forest_named_camera(
                            scene_arc.roots@.take(i as int),
                            mat4_identity(),
                            name@,
                        ) is None,
                    decreases count - i,
                {
                    let found = scene_arc.roots[i].find_named_camera(&identity, name);
                    proof {
                        lemma_forest_named_camera_append(
                            scene_arc.roots@.take(i as int),
                            seq![scene_arc.roots@[i as int]],
                            mat4_identity(),
                            name@,
                        );
                        lemma_forest_named_camera_singleton(
                            scene_arc.roots@[i as int],
                            mat4_identity(),
                            name@,
                        );
                        assert(scene_arc.roots@.take(i + 1) =~= scene_arc.roots@.take(i as int)
                            + seq![scene_arc.roots@[i as int]]);
                    }
                    match found {
                        Some(cam) => {
                            proof {
                                lemma_forest_named_camera_append(
                                    scene_arc.roots@.take(i + 1),
                                    scene_arc.roots@.skip(i + 1),
                                    mat4_identity(),
                                    name@,
                                );
                                assert(scene_arc.roots@.take(i + 1) + scene_arc.roots@.skip(
                                    i + 1,
                                ) =~= scene_arc.roots@);
                                assert(scene_named_camera(
                                    old(self).scenes_view()[scene_index as int],
                                    name@,
                                ) == Some(cam));
                            }
                            let arc = Arc::new(cam);
                            let result = arc.clone();
                            let cached_name = name.clone();
                            self.scene_cameras.push((scene_index, cached_name, arc));
                            proof {
                                lemma_wf_named_push(
                                    *old(self),
                                    *self,
                                    self.named_camera_cache().last(),
                                );
                            }
                            return Ok(result);
                        },
                        None => {},
                    }
                    i += 1;
                }
                proof {
                    assert(scene_arc.roots@.take(count as int) =~= scene_arc.roots@);
                }
                Err(QueryError::UnknownCamera { name: name.clone() })
            },
        }
    }
}

} // verus!
