//! Queries against an open scene file.
//!
//! A selector names a scene (or asks for the default scene) and
//! optionally a named entity inside it. The backend answers geometry,
//! camera and light queries against the immutable scene graph and
//! memoizes every answer, so repeated queries return the same shared
//! value without recomputing it.

pub mod gltf;

use vstd::prelude::*;
use vstd::string::StrSliceExecFns;
use std::sync::Arc;
use crate::scene::Scene;
use crate::scene::ShaderGeometry;
use crate::scene::Light;
use crate::scene::Camera;
use self::gltf::GltfFile;
use self::gltf::geometry_query_post;
use self::gltf::camera_query_post;
use self::gltf::lights_query_post;

verus! {

/// Selects the models a geometry query should fetch: every mesh of one
/// scene, named or default.
#[derive(Debug)]
pub enum GeometryFilter {
    Scene { name: Option<String> },
}

impl GeometryFilter {
    /// Every mesh of the default scene.
    pub fn all_in_default_scene() -> (r: GeometryFilter)
        ensures
            r matches GeometryFilter::Scene { name: None },
    {
        GeometryFilter::Scene { name: None }
    }
}

/// A geometry query. Scenes are queried in their static pose; animation
/// is not resolved here.
#[derive(Debug)]
pub struct GeometryQuery {
    pub models: GeometryFilter,
}

/// A camera query: the first camera of a scene in traversal order, or a
/// camera picked by name.
#[derive(Debug)]
pub enum CameraQuery {
    FirstInScene { name: Option<String> },
    Named { name: String, scene: Option<String> },
}

/// A light query: every light of one scene, named or default.
#[derive(Debug)]
pub enum LightQuery {
    Scene { name: Option<String> },
}

/// Why a query failed. Resolution errors (a name matched nothing) are
/// distinct from emptiness errors (the selector was valid but the scene
/// holds nothing of the kind), so callers can tell the two apart.
#[derive(Debug, PartialEq, Eq)]
pub enum QueryError {
    /// No scene has the requested name.
    UnknownScene { name: String },
    /// No camera answers to the requested name.
    UnknownCamera { name: String },
    /// The scene resolved, but contains no geometry.
    NoGeometryFound,
    /// The scene resolved, but no node carries a camera.
    NoCameraFound,
    /// The scene resolved, but no node carries a light.
    NoLightsFound,
}

/// Why opening a scene file failed before any query ran.
#[derive(Debug, PartialEq, Eq)]
pub enum FileError {
    /// The path's extension names no supported format.
    UnsupportedFileExtension { path: String },
    /// The loader collaborator could not parse the file at `path`.
    ParseFailure { path: String, message: String },
}

/// The model file formats this backend accepts.
#[derive(Clone, Copy, Debug, PartialEq, Eq, Structural)]
pub enum SceneFormat {
    Obj,
    Gltf,
}

/// The format chosen for a file extension: `obj` files load as OBJ,
/// `gltf` and `glb` files as glTF, anything else is unsupported.
pub open spec fn format_for_extension(ext: Option<Seq<char>>) -> Option<SceneFormat> {
    match ext {
        Some(e) => if e == "obj"@ {
            Some(SceneFormat::Obj)
        } else if e == "gltf"@ || e == "glb"@ {
            Some(SceneFormat::Gltf)
        } else {
            None
        },
        None => None,
    }
}

/// Exact character-for-character string equality.
pub fn str_eq(a: &str, b: &str) -> (r: bool)
    ensures
        r == (a@ == b@),
{
    let la = a.unicode_len();
    let lb = b.unicode_len();
    if la != lb {
        return false;
    }
    let mut i: usize = 0;
    while i < la
        invariant
            i <= la,
            la == a@.len(),
            lb == b@.len(),
            la == lb,
            forall|k: int| 0 <= k < i ==> a@[k] == b@[k],
        decreases la - i,
    {
        if a.get_char(i) != b.get_char(i) {
            return false;
        }
        i += 1;
    }
    proof {
        assert(a@ =~= b@);
    }
    true
}

/// A marker for backends that can answer the three query kinds against
/// an open scene file.
pub trait QueryBackend {

}

/// One open scene file, ready to answer queries.
#[derive(Debug)]
pub enum File {
    Gltf(GltfFile),
}

impl QueryBackend for File {

}

impl File {
    /// The backend is well formed when the file it wraps is.
    pub open spec fn wf(&self) -> bool {
        match self {
            File::Gltf(g) => g.wf(),
        }
    }

    /// Picks the loader format for a file from its extension, exactly as
    /// the loaders support them; any other extension is rejected with
    /// the offending path.
    pub fn format_for_path(path: &str, extension: Option<&str>) -> (r: Result<
        SceneFormat,
        FileError,
    >)
        ensures
            match format_for_extension(
                match extension {
                    Some(e) => Some(e@),
                    None => None,
                },
            ) {
                Some(f) => r == Ok::<SceneFormat, FileError>(f),
                None => r matches Err(FileError::UnsupportedFileExtension { path: p }) && p@
                    == path@,
            },
    {
        match extension {
            Some(e) => {
                if str_eq(e, "obj") {
                    Ok(SceneFormat::Obj)
                } else if str_eq(e, "gltf") {
                    Ok(SceneFormat::Gltf)
                } else if str_eq(e, "glb") {
                    Ok(SceneFormat::Gltf)
                } else {
                    Err(FileError::UnsupportedFileExtension { path: path.to_owned() })
                }
            },
            None => Err(FileError::UnsupportedFileExtension { path: path.to_owned() }),
        }
    }

    /// Opens a query backend over the scenes a glTF loader produced.
    pub fn open_gltf(scenes: Vec<Arc<Scene>>, default_scene: usize) -> (r: File)
        requires
            default_scene < scenes@.len(),
            forall|i: int| 0 <= i < scenes@.len() ==> (*#[trigger] scenes@[i]).wf(),
        ensures
            r matches File::Gltf(g) && g.is_fresh(scenes@, default_scene),
            r.wf(),
    {
        File::Gltf(GltfFile::open(scenes, default_scene))
    }

    /// Fetches the renderer-ready geometry the query selects, from the
    /// cache when the scene was already resolved.
    pub fn query_geometry(&mut self, query: &GeometryQuery) -> (r: Result<
        Arc<Vec<Arc<ShaderGeometry>>>,
        QueryError,
    >)
        requires
            old(self).wf(),
        ensures
            final(self).wf(),
            *old(self) matches File::Gltf(g) && *final(self) matches File::Gltf(g2)
                && geometry_query_post(g, g2, *query, r),
    {
        match self {
            File::Gltf(g) => g.query_geometry(query),
        }
    }

    /// Fetches the camera the query selects, from the cache when it was
    /// already resolved.
    pub fn query_camera(&mut self, query: &CameraQuery) -> (r: Result<Arc<Camera>, QueryError>)
        requires
            old(self).wf(),
        ensures
            final(self).wf(),
            *old(self) matches File::Gltf(g) && *final(self) matches File::Gltf(g2)
                && camera_query_post(g, g2, *query, r),
    {
        match self {
            File::Gltf(g) => g.query_camera(query),
        }
    }

    /// Fetches the lights the query selects, from the cache when the
    /// scene was already resolved.
    pub fn query_lights(&mut self, query: &LightQuery) -> (r: Result<
        Arc<Vec<Arc<Light>>>,
        QueryError,
    >)
        requires
            old(self).wf(),
        ensures
            final(self).wf(),
            *old(self) matches File::Gltf(g) && *final(self) matches File::Gltf(g2)
                && lights_query_post(g, g2, *query, r),
    {
        match self {
            File::Gltf(g) => g.query_lights(query),
        }
    }
}

} // verus!
