//! Mesh file formats, loading options and the decisions made while loading.

pub mod gltf;
pub mod mtl;
pub mod obj;
pub mod paths;
pub mod stl;
pub mod texture;

use vstd::prelude::*;
use crate::error::Error;
use crate::loader::paths::{name_extension, names_extension, path_extension, portable_file_name};
use crate::model::Texture;
use crate::text::{chars_of, ci_eq, ci_matches};

verus! {

/// Options used while loading meshes and optional companion assets.
#[derive(Debug, Clone)]
pub struct MeshLoadOptions {
    /// Texture to use for faces with UVs when no material texture is assigned.
    pub texture_override: Option<String>,
    /// Load textures referenced from MTL `map_Kd` entries.
    pub load_material_textures: bool,
    /// Treat missing or undecodable textures as errors instead of falling back.
    pub strict_textures: bool,
}

impl Default for MeshLoadOptions {
    fn default() -> (o: Self)
        ensures
            o.texture_override is None,
            !o.load_material_textures,
            !o.strict_textures,
    {
        MeshLoadOptions { texture_override: None, load_material_textures: false, strict_textures: false }
    }
}

impl MeshLoadOptions {
    /// Use a manually supplied texture image for OBJ files that contain UVs.
    pub fn texture_override(self, path: String) -> (o: Self)
        ensures
            o.texture_override == Some(path),
            o.load_material_textures == self.load_material_textures,
            o.strict_textures == self.strict_textures,
    {
        MeshLoadOptions { texture_override: Some(path), ..self }
    }

    /// Enable or disable loading material texture maps.
    pub fn load_material_textures(self, enabled: bool) -> (o: Self)
        ensures
            o.texture_override == self.texture_override,
            o.load_material_textures == enabled,
            o.strict_textures == self.strict_textures,
    {
        MeshLoadOptions { load_material_textures: enabled, ..self }
    }

    /// Configure whether texture loading failures should be hard errors.
    pub fn strict_textures(self, strict: bool) -> (o: Self)
        ensures
            o.texture_override == self.texture_override,
            o.load_material_textures == self.load_material_textures,
            o.strict_textures == strict,
    {
        MeshLoadOptions { strict_textures: strict, ..self }
    }
}

/// Mesh file formats, chosen by file extension.
#[derive(Debug, Clone, Copy, PartialEq, Eq, Structural)]
pub enum MeshFormat {
    /// glTF JSON or binary GLB.
    Gltf,
    /// Wavefront OBJ.
    Obj,
    /// ASCII or binary STL.
    Stl,
}

/// The format named by a file extension, ignoring ASCII case.
pub open spec fn format_of_extension(ext: Seq<char>) -> Option<MeshFormat> {
    if ci_eq(ext, "gltf"@) || ci_eq(ext, "glb"@) {
        Some(MeshFormat::Gltf)
    } else if ci_eq(ext, "obj"@) {
        Some(MeshFormat::Obj)
    } else if ci_eq(ext, "stl"@) {
        Some(MeshFormat::Stl)
    } else {
        None
    }
}

/// The format of the file at `path` whose extension is `ext`: a supported
/// extension in any ASCII case, or an unsupported-format error.
pub fn format_for_extension(path: &str, ext: Option<String>) -> (r: Result<MeshFormat, Error>)
    ensures
        match ext {
            Some(e) => match format_of_extension(e@) {
                Some(f) => r == Ok::<MeshFormat, Error>(f),
                None => r matches Err(Error::UnsupportedFormat { path: p }) && p@ == path@,
            },
            None => r matches Err(Error::UnsupportedFormat { path: p }) && p@ == path@,
        },
{
    if let Some(e) = ext {
        let cs = chars_of(e.as_str());
        if ci_matches(&cs, 0, "gltf") || ci_matches(&cs, 0, "glb") {
            proof {
                assert(cs@.skip(0) =~= cs@);
            }
            return Ok(MeshFormat::Gltf);
        }
        if ci_matches(&cs, 0, "obj") {
            proof {
                assert(cs@.skip(0) =~= cs@);
            }
            return Ok(MeshFormat::Obj);
        }
        if ci_matches(&cs, 0, "stl") {
            proof {
                assert(cs@.skip(0) =~= cs@);
            }
            return Ok(MeshFormat::Stl);
        }
        proof {
            assert(cs@.skip(0) =~= cs@);
        }
    }
    Err(Error::UnsupportedFormat { path: path.to_owned() })
}

/// The format of the file at `path`, from its extension: a format is only
/// chosen for a `.` in the path followed by the format's extension, in any
/// ASCII case; otherwise the path's format is unsupported. For a path in the
/// syntax every platform shares, the extension is the text after the last
/// `.` of the file name.
pub fn mesh_format(path: &str) -> (r: Result<MeshFormat, Error>)
    ensures
        portable_file_name(path@) matches Some(n) ==> match name_extension(n) {
            Some(x) => match format_of_extension(x) {
                Some(f) => r == Ok::<MeshFormat, Error>(f),
                None => r matches Err(Error::UnsupportedFormat { path: p }) && p@ == path@,
            },
            None => r matches Err(Error::UnsupportedFormat { path: p }) && p@ == path@,
        },
        r matches Ok(f) ==> exists|e: Seq<char>|
            names_extension(path@, e) && #[trigger] format_of_extension(e) == Some(f),
        r matches Err(e) ==> (e matches Error::UnsupportedFormat { path: p } && p@ == path@),
        !path@.contains('.') ==> r is Err,
{
    let ext = path_extension(path);
    let ghost seen = ext;
    let r = format_for_extension(path, ext);
    proof {
        if let Some(e) = seen {
            if let Ok(f) = r {
                assert(format_of_extension(e@) == Some(f));
            }
            if !path@.contains('.') {
                let k = choose|k: int|
                    1 <= k && k + e@.len() <= path@.len() && path@[k - 1] == '.'
                        && #[trigger] path@.subrange(k, k + e@.len()) == e@;
                assert(path@[k - 1] == '.');
            }
        }
    }
    r
}

/// Record the outcome of loading one texture. A loaded texture is appended
/// and its index returned; a failure is returned under strict loading and
/// skipped otherwise.
pub fn attach_loaded_texture(
    textures: &mut Vec<Texture>,
    loaded: Result<Texture, Error>,
    strict: bool,
) -> (r: Result<Option<usize>, Error>)
    ensures
        match loaded {
            Ok(t) => r == Ok::<Option<usize>, Error>(Some(old(textures)@.len() as usize))
                && final(textures)@ == old(textures)@.push(t),
            Err(e) => final(textures)@ == old(textures)@ && if strict {
                r == Err::<Option<usize>, Error>(e)
            } else {
                r == Ok::<Option<usize>, Error>(None)
            },
        },
{
    match loaded {
        Ok(t) => {
            let index = textures.len();
            textures.push(t);
            Ok(Some(index))
        },
        Err(e) => {
            if strict {
                Err(e)
            } else {
                Ok(None)
            }
        },
    }
}

} // verus!
