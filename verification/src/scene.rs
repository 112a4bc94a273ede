//! The immutable scene graph and its derived render-ready data.
//!
//! A scene is an ordered forest of nodes. Each node carries a local
//! transform and may carry a mesh, a camera, or a light. Traversal is
//! depth-first in declaration order and accumulates the world transform
//! of each node as `parent_world_transform * local_transform`. The scene
//! graph is never mutated after construction, so every traversal of the
//! same scene yields the same sequence.

use vstd::prelude::*;
use std::sync::Arc;
use crate::math::{Mat4, ScaledMat4, mat4_mul, mat4_adjugate, mat4_det};

verus! {

/// One raw piece of mesh geometry. The vertex-level content is owned by
/// the rasterizer collaborator; the scene graph identifies a piece by a
/// caller-chosen id and carries it through the queries unchanged.
#[derive(Clone, Copy, Debug, PartialEq, Eq, Structural)]
pub struct Geometry {
    pub id: u64,
}

/// A mesh: an ordered list of geometry pieces.
#[derive(Debug)]
pub struct Mesh {
    pub geometry: Vec<Geometry>,
}

/// A camera definition: an optional name (matched by named camera
/// queries) and the projection matrix that the collaborator computed
/// for it.
#[derive(Debug)]
pub struct CameraType {
    pub name: Option<String>,
    pub projection: Mat4,
}

impl CameraType {
    /// The projection matrix of this camera definition.
    pub fn to_projection(&self) -> (r: Mat4)
        ensures
            r == self.projection,
    {
        self.projection
    }
}

/// A light definition. The photometric content (color, intensity) is
/// owned by the rasterizer collaborator; the scene graph identifies a
/// definition by a caller-chosen id and carries it through unchanged.
#[derive(Debug)]
pub struct LightType {
    pub id: u64,
}

/// A node of the scene graph: a local transform, optional mesh, camera
/// and light references, and an ordered list of children.
#[derive(Debug)]
pub struct Node {
    pub name: Option<String>,
    pub transform: Mat4,
    pub mesh: Option<Arc<Mesh>>,
    pub camera: Option<Arc<CameraType>>,
    pub light: Option<Arc<LightType>>,
    pub children: Vec<Node>,
}

/// An immutable scene: an optional name and an ordered, non-empty list
/// of root nodes.
#[derive(Debug)]
pub struct Scene {
    pub name: Option<String>,
    pub roots: Vec<Node>,
}

impl Scene {
    /// A scene must have at least one root node.
    pub open spec fn wf(&self) -> bool {
        self.roots@.len() > 0
    }
}

/// Renderer-ready geometry: one raw geometry piece together with the
/// accumulated world transform of the node that carried its mesh.
#[derive(Clone, Copy, Debug, PartialEq, Eq, Structural)]
pub struct ShaderGeometry {
    pub geometry: Geometry,
    pub model_transform: Mat4,
}

/// A resolved camera: the view matrix, which is the exact inverse of the
/// camera node's accumulated world transform (represented exactly as
/// adjugate over determinant), and the camera's projection matrix.
#[derive(Clone, Copy, Debug, PartialEq, Eq, Structural)]
pub struct Camera {
    pub view: ScaledMat4,
    pub projection: Mat4,
}

/// A resolved light: the light definition together with the accumulated
/// world transform of the node that carried it.
#[derive(Debug)]
pub struct Light {
    pub data: Arc<LightType>,
    pub world_transform: Mat4,
}

/// The camera resolved at a node whose accumulated world transform is
/// `world`: the view matrix is the exact inverse of `world`.
pub open spec fn camera_at(world: Mat4, cam: CameraType) -> Camera {
    Camera {
        view: ScaledMat4 { mat: mat4_adjugate(world), den: mat4_det(world) },
        projection: cam.projection,
    }
}

/// The renderer-ready geometry contributed by one node (not its
/// children): one entry per geometry piece of its mesh, in order, each
/// paired with the node's world transform.
pub open spec fn own_geometry(world: Mat4, n: Node) -> Seq<ShaderGeometry> {
    match n.mesh {
        Some(m) => m.geometry@.map(
            |i: int, g: Geometry| ShaderGeometry { geometry: g, model_transform: world },
        ),
        None => Seq::empty(),
    }
}

/// The lights contributed by one node (not its children).
pub open spec fn own_lights(world: Mat4, n: Node) -> Seq<Light> {
    match n.light {
        Some(l) => seq![Light { data: l, world_transform: world }],
        None => Seq::empty(),
    }
}

/// All renderer-ready geometry reachable from `n`, depth-first in
/// declaration order, where `parent` is the accumulated world transform
/// of `n`'s parent.
pub open spec fn node_geometry(n: Node, parent: Mat4) -> Seq<ShaderGeometry>
    decreases n,
{
    own_geometry(mat4_mul(parent, n.transform), n) + forest_geometry(
        n.children@,
        mat4_mul(parent, n.transform),
    )
}

/// All renderer-ready geometry of an ordered forest of siblings.
pub open spec fn forest_geometry(nodes: Seq<Node>, parent: Mat4) -> Seq<ShaderGeometry>
    decreases nodes,
{
    if nodes.len() == 0 {
        Seq::empty()
    } else {
        node_geometry(nodes[0], parent) + forest_geometry(nodes.drop_first(), parent)
    }
}

/// All lights reachable from `n`, depth-first in declaration order.
pub open spec fn node_lights(n: Node, parent: Mat4) -> Seq<Light>
    decreases n,
{
    own_lights(mat4_mul(parent, n.transform), n) + forest_lights(
        n.children@,
        mat4_mul(parent, n.transform),
    )
}

/// All lights of an ordered forest of siblings.
pub open spec fn forest_lights(nodes: Seq<Node>, parent: Mat4) -> Seq<Light>
    decreases nodes,
{
    if nodes.len() == 0 {
        Seq::empty()
    } else {
        node_lights(nodes[0], parent) + forest_lights(nodes.drop_first(), parent)
    }
}

/// The first camera reachable from `n` in depth-first declaration order,
/// resolved against its node's world transform.
pub open spec fn node_first_camera(n: Node, parent: Mat4) -> Option<Camera>
    decreases n,
{
    let world = mat4_mul(parent, n.transform);
    match n.camera {
        Some(c) => Some(camera_at(world, *c)),
        None => forest_first_camera(n.children@, world),
    }
}

/// The first camera of an ordered forest of siblings.
pub open spec fn forest_first_camera(nodes: Seq<Node>, parent: Mat4) -> Option<Camera>
    decreases nodes,
{
    if nodes.len() == 0 {
        None
    } else {
        match node_first_camera(nodes[0], parent) {
            Some(c) => Some(c),
            None => forest_first_camera(nodes.drop_first(), parent),
        }
    }
}

/// Whether `n` carries a camera that answers to `name`: either the
/// node's own name or the camera definition's name matches exactly.
pub open spec fn camera_answers_to(n: Node, name: Seq<char>) -> bool {
    n.camera is Some && ((n.name matches Some(nn) && nn@ == name) || (n.camera matches Some(c)
        && c.name matches Some(cn) && cn@ == name))
}

/// The first camera answering to `name` reachable from `n`, depth-first
/// in declaration order; the first match wins.
pub open spec fn node_named_camera(n: Node, parent: Mat4, name: Seq<char>) -> Option<Camera>
    decreases n,
{
    let world = mat4_mul(parent, n.transform);
    if camera_answers_to(n, name) {
        Some(camera_at(world, *n.camera->0))
    } else {
        forest_named_camera(n.children@, world, name)
    }
}

/// The first camera answering to `name` in an ordered forest of siblings.
pub open spec fn forest_named_camera(nodes: Seq<Node>, parent: Mat4, name: Seq<char>) -> Option<
    Camera,
>
    decreases nodes,
{
    if nodes.len() == 0 {
        None
    } else {
        match node_named_camera(nodes[0], parent, name) {
            Some(c) => Some(c),
            None => forest_named_camera(nodes.drop_first(), parent, name),
        }
    }
}

/// The renderer-ready geometry of a whole scene: its root forest,
/// starting from the identity transform.
pub open spec fn scene_geometry(s: Scene) -> Seq<ShaderGeometry> {
    forest_geometry(s.roots@, crate::math::mat4_identity())
}

/// The lights of a whole scene.
pub open spec fn scene_lights(s: Scene) -> Seq<Light> {
    forest_lights(s.roots@, crate::math::mat4_identity())
}

/// The first camera of a whole scene.
pub open spec fn scene_first_camera(s: Scene) -> Option<Camera> {
    forest_first_camera(s.roots@, crate::math::mat4_identity())
}

/// The first camera of a whole scene answering to `name`.
pub open spec fn scene_named_camera(s: Scene, name: Seq<char>) -> Option<Camera> {
    forest_named_camera(s.roots@, crate::math::mat4_identity(), name)
}

/// The sequence of geometry values behind a sequence of shared geometry
/// handles.
pub open spec fn shader_geometry_views(s: Seq<Arc<ShaderGeometry>>) -> Seq<ShaderGeometry> {
    s.map(|i: int, a: Arc<ShaderGeometry>| *a)
}

/// The sequence of light values behind a sequence of shared light
/// handles.
pub open spec fn light_views(s: Seq<Arc<Light>>) -> Seq<Light> {
    s.map(|i: int, a: Arc<Light>| *a)
}

/// A run of one sibling contributes exactly that node's geometry.
pub proof fn lemma_forest_geometry_singleton(n: Node, parent: Mat4)
    ensures
        forest_geometry(seq![n], parent) == node_geometry(n, parent),
{
    assert(seq![n].drop_first() =~= Seq::<Node>::empty());
    assert(forest_geometry(Seq::<Node>::empty(), parent) =~= Seq::<ShaderGeometry>::empty());
    assert(forest_geometry(seq![n], parent) =~= node_geometry(n, parent));
}

/// A run of one sibling contributes exactly that node's lights.
pub proof fn lemma_forest_lights_singleton(n: Node, parent: Mat4)
    ensures
        forest_lights(seq![n], parent) == node_lights(n, parent),
{
    assert(seq![n].drop_first() =~= Seq::<Node>::empty());
    assert(forest_lights(Seq::<Node>::empty(), parent) =~= Seq::<Light>::empty());
    assert(forest_lights(seq![n], parent) =~= node_lights(n, parent));
}

/// Searching a run of one sibling finds exactly that node's first
/// camera.
pub proof fn lemma_forest_first_camera_singleton(n: Node, parent: Mat4)
    ensures
        forest_first_camera(seq![n], parent) == node_first_camera(n, parent),
{
    assert(seq![n].drop_first() =~= Seq::<Node>::empty());
    assert(forest_first_camera(Seq::<Node>::empty(), parent) is None);
}

/// Searching a run of one sibling finds exactly that node's first
/// camera answering to `name`.
pub proof fn lemma_forest_named_camera_singleton(n: Node, parent: Mat4, name: Seq<char>)
    ensures
        forest_named_camera(seq![n], parent, name) == node_named_camera(n, parent, name),
{
    assert(seq![n].drop_first() =~= Seq::<Node>::empty());
    assert(forest_named_camera(Seq::<Node>::empty(), parent, name) is None);
}

/// The geometry of two adjacent runs of siblings is the concatenation of
/// the geometry of each run.
pub proof fn lemma_forest_geometry_append(a: Seq<Node>, b: Seq<Node>, parent: Mat4)
    ensures
        forest_geometry(a + b, parent) == forest_geometry(a, parent) + forest_geometry(b, parent),
    decreases a,
{
    if a.len() == 0 {
        assert(a + b =~= b);
        assert(forest_geometry(a, parent) + forest_geometry(b, parent) =~= forest_geometry(
            b,
            parent,
        ));
    } else {
        assert((a + b).drop_first() =~= a.drop_first() + b);
        assert((a + b)[0] == a[0]);
        lemma_forest_geometry_append(a.drop_first(), b, parent);
        assert(forest_geometry(a + b, parent) =~= forest_geometry(a, parent) + forest_geometry(
            b,
            parent,
        ));
    }
}

/// Extending a prefix of siblings by one node appends that node's
/// geometry.
pub proof fn lemma_forest_geometry_take_step(nodes: Seq<Node>, parent: Mat4, i: int)
    requires
        0 <= i < nodes.len(),
    ensures
        forest_geometry(nodes.take(i + 1), parent) == forest_geometry(nodes.take(i), parent)
            + node_geometry(nodes[i], parent),
{
    assert(nodes.take(i + 1) =~= nodes.take(i) + seq![nodes[i]]);
    lemma_forest_geometry_append(nodes.take(i), seq![nodes[i]], parent);
    lemma_forest_geometry_singleton(nodes[i], parent);
}

/// The lights of two adjacent runs of siblings is the concatenation of
/// the lights of each run.
pub proof fn lemma_forest_lights_append(a: Seq<Node>, b: Seq<Node>, parent: Mat4)
    ensures
        forest_lights(a + b, parent) == forest_lights(a, parent) + forest_lights(b, parent),
    decreases a,
{
    if a.len() == 0 {
        assert(a + b =~= b);
        assert(forest_lights(a, parent) + forest_lights(b, parent) =~= forest_lights(b, parent));
    } else {
        assert((a + b).drop_first() =~= a.drop_first() + b);
        assert((a + b)[0] == a[0]);
        lemma_forest_lights_append(a.drop_first(), b, parent);
        assert(forest_lights(a + b, parent) =~= forest_lights(a, parent) + forest_lights(
            b,
            parent,
        ));
    }
}

/// Extending a prefix of siblings by one node appends that node's
/// lights.
pub proof fn lemma_forest_lights_take_step(nodes: Seq<Node>, parent: Mat4, i: int)
    requires
        0 <= i < nodes.len(),
    ensures
        forest_lights(nodes.take(i + 1), parent) == forest_lights(nodes.take(i), parent)
            + node_lights(nodes[i], parent),
{
    assert(nodes.take(i + 1) =~= nodes.take(i) + seq![nodes[i]]);
    lemma_forest_lights_append(nodes.take(i), seq![nodes[i]], parent);
    lemma_forest_lights_singleton(nodes[i], parent);
}

/// Searching two adjacent runs of siblings for the first camera finds
/// the first run's camera if it has one, else the second run's.
pub proof fn lemma_forest_first_camera_append(a: Seq<Node>, b: Seq<Node>, parent: Mat4)
    ensures
        forest_first_camera(a + b, parent) == match forest_first_camera(a, parent) {
            Some(c) => Some(c),
            None => forest_first_camera(b, parent),
        },
    decreases a,
{
    if a.len() == 0 {
        assert(a + b =~= b);
    } else {
        assert((a + b).drop_first() =~= a.drop_first() + b);
        assert((a + b)[0] == a[0]);
        lemma_forest_first_camera_append(a.drop_first(), b, parent);
    }
}

/// Searching two adjacent runs of siblings for the first camera
/// answering to a name finds the first run's match if it has one, else
/// the second run's.
pub proof fn lemma_forest_named_camera_append(
    a: Seq<Node>,
    b: Seq<Node>,
    parent: Mat4,
    name: Seq<char>,
)
    ensures
        forest_named_camera(a + b, parent, name) == match forest_named_camera(a, parent, name) {
            Some(c) => Some(c),
            None => forest_named_camera(b, parent, name),
        },
    decreases a,
{
    if a.len() == 0 {
        assert(a + b =~= b);
    } else {
        assert((a + b).drop_first() =~= a.drop_first() + b);
        assert((a + b)[0] == a[0]);
        lemma_forest_named_camera_append(a.drop_first(), b, parent, name);
    }
}

impl Node {
    /// Appends to `out` the renderer-ready geometry of this subtree,
    /// depth-first in declaration order, given the world transform of
    /// this node's parent.
    pub fn collect_geometry(&self, parent: &Mat4, out: &mut Vec<Arc<ShaderGeometry>>)
        ensures
            shader_geometry_views(final(out)@) == shader_geometry_views(old(out)@) + node_geometry(
                *self,
                *parent,
            ),
        decreases *self,
    {
        let world = parent.mul(&self.transform);
        let ghost mid = shader_geometry_views(out@);
        match &self.mesh {
            Some(m) => {
                let mesh: &Mesh = &**m;
                let mut j: usize = 0;
                while j < mesh.geometry.len()
                    invariant
                        j <= mesh.geometry@.len(),
                        self.mesh matches Some(mm) && mm == *m,
                        mesh == &**m,
                        shader_geometry_views(out@) == mid + own_geometry(world, *self).take(
                            j as int,
                        ),
                    decreases mesh.geometry@.len() - j,
                {
                    let g = mesh.geometry[j];
                    let a = Arc::new(ShaderGeometry { geometry: g, model_transform: world });
                    let ghost prev = out@;
                    out.push(a);
                    proof {
                        assert(out@ =~= prev.push(a));
                        assert(shader_geometry_views(out@) =~= shader_geometry_views(prev).push(
                            *a,
                        ));
                        assert(own_geometry(world, *self)[j as int] == ShaderGeometry {
                            geometry: g,
                            model_transform: world,
                        });
                        assert(own_geometry(world, *self).take(j + 1) =~= own_geometry(
                            world,
                            *self,
                        ).take(j as int).push(own_geometry(world, *self)[j as int]));
                        assert(shader_geometry_views(out@) =~= mid + own_geometry(
                            world,
                            *self,
                        ).take(j + 1));
                    }
                    j += 1;
                }
                proof {
                    assert(own_geometry(world, *self).take(mesh.geometry@.len() as int)
                        =~= own_geometry(world, *self));
                }
            },
            None => {
                proof {
                    assert(shader_geometry_views(out@) =~= mid + own_geometry(world, *self));
                }
            },
        }
        let ghost after_own = shader_geometry_views(out@);
        let mut i: usize = 0;
        while i < self.children.len()
            invariant
                i <= self.children@.len(),
                world == mat4_mul(*parent, self.transform),
                shader_geometry_views(out@) == after_own + forest_geometry(
                    self.children@.take(i as int),
                    world,
                ),
                after_own == mid + own_geometry(world, *self),
            decreases self.children@.len() - i,
        {
            self.children[i].collect_geometry(&world, out);
            proof {
                lemma_forest_geometry_take_step(self.children@, world, i as int);
                assert(shader_geometry_views(out@) =~= after_own + forest_geometry(
                    self.children@.take(i + 1),
                    world,
                ));
            }
            i += 1;
        }
        proof {
            assert(self.children@.take(self.children@.len() as int) =~= self.children@);
            assert(shader_geometry_views(out@) =~= mid + node_geometry(*self, *parent));
        }
    }

    /// Appends to `out` the lights of this subtree, depth-first in
    /// declaration order, given the world transform of this node's
    /// parent.
    pub fn collect_lights(&self, parent: &Mat4, out: &mut Vec<Arc<Light>>)
        ensures
            light_views(final(out)@) == light_views(old(out)@) + node_lights(*self, *parent),
        decreases *self,
    {
        let world = parent.mul(&self.transform);
        let ghost mid = light_views(out@);
        match &self.light {
            Some(l) => {
                out.push(Arc::new(Light { data: l.clone(), world_transform: world }));
                proof {
                    assert(light_views(out@) =~= mid + own_lights(world, *self));
                }
            },
            None => {
                proof {
                    assert(light_views(out@) =~= mid + own_lights(world, *self));
                }
            },
        }
        let ghost after_own = light_views(out@);
        let mut i: usize = 0;
        while i < self.children.len()
            invariant
                i <= self.children@.len(),
                world == mat4_mul(*parent, self.transform),
                light_views(out@) == after_own + forest_lights(
                    self.children@.take(i as int),
                    world,
                ),
                after_own == mid + own_lights(world, *self),
            decreases self.children@.len() - i,
        {
            self.children[i].collect_lights(&world, out);
            proof {
                lemma_forest_lights_take_step(self.children@, world, i as int);
                assert(light_views(out@) =~= after_own + forest_lights(
                    self.children@.take(i + 1),
                    world,
                ));
            }
            i += 1;
        }
        proof {
            assert(self.children@.take(self.children@.len() as int) =~= self.children@);
            assert(light_views(out@) =~= mid + node_lights(*self, *parent));
        }
    }

    /// The first camera of this subtree in depth-first declaration
    /// order, resolved against its node's world transform.
    pub fn find_first_camera(&self, parent: &Mat4) -> (r: Option<Camera>)
        ensures
            r == node_first_camera(*self, *parent),
        decreases *self,
    {
        let world = parent.mul(&self.transform);
        match &self.camera {
            Some(c) => Some(Camera { view: world.inverted(), projection: (**c).projection }),
            None => {
                let mut i: usize = 0;
                while i < self.children.len()
                    invariant
                        i <= self.children@.len(),
                        world == mat4_mul(*parent, self.transform),
                        self.camera is None,
                        forest_first_camera(self.children@.take(i as int), world) is None,
                    decreases self.children@.len() - i,
                {
                    let found = self.children[i].find_first_camera(&world);
                    proof {
                        lemma_forest_first_camera_append(
                            self.children@.take(i as int),
                            seq![self.children@[i as int]],
                            world,
                        );
                        lemma_forest_first_camera_singleton(self.children@[i as int], world);
                        assert(self.children@.take(i + 1) =~= self.children@.take(i as int)
                            + seq![self.children@[i as int]]);
                    }
                    if found.is_some() {
                        proof {
                            lemma_forest_first_camera_append(
                                self.children@.take(i + 1),
                                self.children@.skip(i + 1),
                                world,
                            );
                            assert(self.children@.take(i + 1) + self.children@.skip(i + 1)
                                =~= self.children@);
                        }
                        return found;
                    }
                    i += 1;
                }
                proof {
                    assert(self.children@.take(self.children@.len() as int) =~= self.children@);
                }
                None
            },
        }
    }

    /// Whether this node carries a camera that answers to `name`.
    pub fn camera_answers_to(&self, name: &String) -> (r: bool)
        ensures
            r == camera_answers_to(*self, name@),
    {
        match &self.camera {
            None => false,
            Some(c) => {
                let node_match = match &self.name {
                    Some(nn) => *nn == *name,
                    None => false,
                };
                if node_match {
                    true
                } else {
                    match &(**c).name {
                        Some(cn) => *cn == *name,
                        None => false,
                    }
                }
            },
        }
    }

    /// The first camera of this subtree answering to `name`, depth-first
    /// in declaration order; the first match wins.
    pub fn find_named_camera(&self, parent: &Mat4, name: &String) -> (r: Option<Camera>)
        ensures
            r == node_named_camera(*self, *parent, name@),
        decreases *self,
    {
        let world = parent.mul(&self.transform);
        if self.camera_answers_to(name) {
            match &self.camera {
                Some(c) => Some(
                    Camera { view: world.inverted(), projection: (**c).projection },
                ),
                None => None,  // unreachable: answering to a name implies a camera
            }
        } else {
            let mut i: usize = 0;
            while i < self.children.len()
                invariant
                    i <= self.children@.len(),
                    world == mat4_mul(*parent, self.transform),
                    !camera_answers_to(*self, name@),
                    forest_named_camera(self.children@.take(i as int), world, name@) is None,
                decreases self.children@.len() - i,
            {
                let found = self.children[i].find_named_camera(&world, name);
                proof {
                    lemma_forest_named_camera_append(
                        self.children@.take(i as int),
                        seq![self.children@[i as int]],
                        world,
                        name@,
                    );
                    lemma_forest_named_camera_singleton(self.children@[i as int], world, name@);
                    assert(self.children@.take(i + 1) =~= self.children@.take(i as int)
                        + seq![self.children@[i as int]]);
                }
                if found.is_some() {
                    proof {
                        lemma_forest_named_camera_append(
                            self.children@.take(i + 1),
                            self.children@.skip(i + 1),
                            world,
                            name@,
                        );
                        assert(self.children@.take(i + 1) + self.children@.skip(i + 1)
                            =~= self.children@);
                    }
                    return found;
                }
                i += 1;
            }
            proof {
                assert(self.children@.take(self.children@.len() as int) =~= self.children@);
            }
            None
        }
    }
}

} // verus!
