//! Which kind of shader a resource holds.

use vstd::prelude::*;

verus! {

/// The stages of the pipeline that a shader can be written for.
#[derive(Clone, Copy, Debug, PartialEq, Eq, Structural)]
pub enum ShaderKind {
    Vertex,
    Fragment,
}

/// Whether `text` ends with `suffix`.
pub open spec fn is_suffix(suffix: Seq<char>, text: Seq<char>) -> bool {
    suffix.len() <= text.len() && text.subrange(text.len() - suffix.len(), text.len() as int)
        == suffix
}

/// Calls `str::ends_with` with a string as the pattern: whether the last
/// characters of `text` are those of `suffix`.
#[verifier::external_body]
fn ends_with(text: &str, suffix: &str) -> (ends: bool)
    ensures
        ends == is_suffix(suffix@, text@),
{
    text.ends_with(suffix)
}

/// The kind of the shader in the resource `name`, which is told by the
/// extension of the name: `.vert` for a vertex shader, `.frag` for a
/// fragment shader. A name with neither extension names no shader.
pub fn shader_kind(name: &str) -> (kind: Option<ShaderKind>)
    ensures
        kind == (if is_suffix(".vert"@, name@) {
            Some(ShaderKind::Vertex)
        } else if is_suffix(".frag"@, name@) {
            Some(ShaderKind::Fragment)
        } else {
            None
        }),
{
    if ends_with(name, ".vert") {
        Some(ShaderKind::Vertex)
    } else if ends_with(name, ".frag") {
        Some(ShaderKind::Fragment)
    } else {
        None
    }
}

/// The resources that hold the shaders of the program `name`: its vertex
/// shader and its fragment shader.
pub fn shader_names(name: &str) -> (names: (String, String))
    ensures
        names.0@ == name@ + ".vert"@,
        names.1@ == name@ + ".frag"@,
{
    let mut vertex = String::from_str(name);
    vertex.append(".vert");
    let mut fragment = String::from_str(name);
    fragment.append(".frag");
    (vertex, fragment)
}

} // verus!
