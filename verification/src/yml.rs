//! The names of a scene file: which texture a material means, which
//! material a shape means, which shape a transform wraps.
//!
//! A scene file names its textures, materials and geometry. This module
//! resolves the names to places in lists and reports the first name that
//! means nothing. Reading the file and making the textures, materials and
//! shapes themselves is the caller's business.

use crate::error::TracerError;
use vstd::prelude::*;
use vstd::string::StringExecFns;

verus! {

/// The texts of `names`.
pub open spec fn texts(names: Seq<String>) -> Seq<Seq<char>> {
    Seq::new(names.len(), |k: int| names[k]@)
}

/// Whether `at` is the last place of `names` that holds `key`; `None`
/// where no place holds it.
pub open spec fn is_last_of(names: Seq<Seq<char>>, key: Seq<char>, at: Option<usize>) -> bool {
    match at {
        Some(i) => i < names.len() && names[i as int] == key && forall|j: int|
            i < j < names.len() ==> names[j] != key,
        None => forall|j: int| 0 <= j < names.len() ==> names[j] != key,
    }
}

/// The last place of `names` that holds `key`.
pub fn find_last(names: &Vec<String>, key: &String) -> (at: Option<usize>)
    ensures
        is_last_of(texts(names@), key@, at),
{
    let mut k = names.len();
    while k > 0
        invariant
            k <= names@.len(),
            forall|j: int| k <= j < names@.len() ==> texts(names@)[j] != key@,
        decreases k,
    {
        k = k - 1;
        if names[k] == *key {
            return Some(k);
        }
    }
    None
}

/// A checkered texture of a scene file: its own name and the names of the
/// two textures it alternates.
pub struct CheckeredEntry {
    pub key: String,
    pub texture_a: String,
    pub texture_b: String,
}

/// The kinds of material that take their colour from a texture.
#[derive(Clone, Copy, Debug, PartialEq, Eq, Structural)]
pub enum TexturedKind {
    Lambertian,
    Metal,
    DiffuseLight,
}

/// What a textured material says of its texture: the kind of the material
/// and the name of the texture.
pub struct TextureRef {
    pub kind: TexturedKind,
    pub name: String,
}

/// A material of a scene file: its name and, where it takes its colour from
/// a texture, what it says of the texture.
pub struct MaterialEntry {
    pub key: String,
    pub texture: Option<TextureRef>,
}

/// A shape of a scene file: its name and the name of its material.
pub struct ShapeEntry {
    pub key: String,
    pub material: String,
}

/// The kinds of transform that wrap a shape.
#[derive(Clone, Copy, Debug, PartialEq, Eq, Structural)]
pub enum TransformKind {
    RotateY,
    Translate,
}

/// The text that reports a checkered texture whose part is missing. It
/// names the checkered texture and its first part.
pub open spec fn missing_part_text(key: Seq<char>, texture_a: Seq<char>) -> Seq<char> {
    "Checkered texture \""@ + key + "\" expected texture \""@ + texture_a + "\" to exist."@
}

/// The name of a kind of material in a report.
pub open spec fn kind_text(kind: TexturedKind) -> Seq<char> {
    match kind {
        TexturedKind::Lambertian => "lambertian"@,
        TexturedKind::Metal => "metal"@,
        TexturedKind::DiffuseLight => "diffuse light"@,
    }
}

/// The text that reports a material whose texture is missing.
pub open spec fn missing_texture_text(
    texture_key: Seq<char>,
    kind: TexturedKind,
    key: Seq<char>,
) -> Seq<char> {
    "Failed to find texture \""@ + texture_key + "\" for "@ + kind_text(kind) + " material \""@
        + key + "\""@
}

/// The text that reports a transform whose shape is missing.
pub open spec fn missing_child_text(kind: TransformKind, child: Seq<char>) -> Seq<char> {
    match kind {
        TransformKind::RotateY => "Rotation_Y \""@ + child
            + "\" did not have any child with key \""@ + child + "\""@,
        TransformKind::Translate => "Translation \""@ + child
            + "\" did not have any child with key \""@ + child + "\""@,
    }
}

/// Whether `e` is a scene-load failure with the text `text`.
pub open spec fn is_scene_load(e: TracerError, text: Seq<char>) -> bool {
    e matches TracerError::SceneLoad(words) && words@ == text
}

/// The names that textures can be found under when checkered texture
/// number `k` is made: those of the plain textures, then those of the
/// checkered textures made before it.
pub open spec fn names_before(
    plain: Seq<String>,
    checkered: Seq<CheckeredEntry>,
    k: int,
) -> Seq<Seq<char>> {
    texts(plain) + Seq::new(k as nat, |j: int| checkered[j].key@)
}

/// Whether both parts of checkered texture number `k` can be found when it
/// is made.
pub open spec fn has_parts(plain: Seq<String>, checkered: Seq<CheckeredEntry>, k: int) -> bool {
    let names = names_before(plain, checkered, k);
    names.contains(checkered[k].texture_a@) && names.contains(checkered[k].texture_b@)
}

/// Finds the two parts of every checkered texture.
///
/// The textures are looked up among the plain textures, whose names are
/// `plain`, and the checkered textures that stand before in the list; the
/// places handed back count the plain textures first and the checkered
/// ones after them. Where a name is used twice, the last texture of that
/// name is meant. The first checkered texture with a part that cannot be
/// found is reported, and nothing is handed back.
pub fn resolve_checkered(plain: &Vec<String>, checkered: &Vec<CheckeredEntry>) -> (res: Result<
    Vec<(usize, usize)>,
    TracerError,
>)
    ensures
        res is Ok <==> forall|k: int| 0 <= k < checkered@.len() ==> has_parts(plain@, checkered@, k),
        res matches Ok(parts) ==> parts@.len() == checkered@.len() && forall|k: int|
            0 <= k < parts@.len() ==> is_last_of(
                names_before(plain@, checkered@, k),
                checkered@[k].texture_a@,
                Some((#[trigger] parts@[k]).0),
            ) && is_last_of(
                names_before(plain@, checkered@, k),
                checkered@[k].texture_b@,
                Some(parts@[k].1),
            ),
        res matches Err(e) ==> exists|k: int|
            0 <= k < checkered@.len() && !has_parts(plain@, checkered@, k) && (forall|j: int|
                0 <= j < k ==> has_parts(plain@, checkered@, j)) && #[trigger] is_scene_load(
                e,
                missing_part_text(checkered@[k].key@, checkered@[k].texture_a@),
            ),
{
    let mut names: Vec<String> = plain.clone();
    let mut parts: Vec<(usize, usize)> = Vec::new();
    let mut k: usize = 0;
    assert(texts(names@) =~= names_before(plain@, checkered@, 0));
    while k < checkered.len()
        invariant
            k <= checkered@.len(),
            texts(names@) == names_before(plain@, checkered@, k as int),
            parts@.len() == k,
            forall|j: int| 0 <= j < k ==> has_parts(plain@, checkered@, j),
            forall|j: int|
                0 <= j < k ==> is_last_of(
                    names_before(plain@, checkered@, j),
                    checkered@[j].texture_a@,
                    Some((#[trigger] parts@[j]).0),
                ) && is_last_of(
                    names_before(plain@, checkered@, j),
                    checkered@[j].texture_b@,
                    Some(parts@[j].1),
                ),
        decreases checkered@.len() - k,
    {
        let entry = &checkered[k];
        let a = find_last(&names, &entry.texture_a);
        let b = find_last(&names, &entry.texture_b);
        let ghost before = texts(names@);
        match (a, b) {
            (Some(a), Some(b)) => {
                assert(before[a as int] == entry.texture_a@ && before[b as int]
                    == entry.texture_b@);
                parts.push((a, b));
                names.push(entry.key.clone());
                proof {
                    let after = names_before(plain@, checkered@, k + 1);
                    assert(before.len() == plain@.len() + k);
                    assert forall|i: int| 0 <= i < after.len() implies texts(names@)[i]
                        == after[i] by {
                        if i < before.len() {
                            assert(texts(names@)[i] == before[i]);
                            assert(before[i] == names_before(plain@, checkered@, k as int)[i]);
                        }
                    }
                    assert(texts(names@) =~= after);
                }
            },
            _ => {
                proof {
                    if a is None {
                        assert(!before.contains(entry.texture_a@));
                    } else {
                        assert(!before.contains(entry.texture_b@));
                    }
                    assert(!has_parts(plain@, checkered@, k as int));
                }
                let mut text = String::from_str("Checkered texture \"");
                text.append(entry.key.as_str());
                text.append("\" expected texture \"");
                text.append(entry.texture_a.as_str());
                text.append("\" to exist.");
                let e = TracerError::SceneLoad(text);
                assert(is_scene_load(
                    e,
                    missing_part_text(checkered@[k as int].key@, checkered@[k as int].texture_a@),
                ));
                return Err(e);
            },
        }
        k = k + 1;
    }
    Ok(parts)
}

fn kind_name(kind: TexturedKind) -> (name: &'static str)
    ensures
        name@ == kind_text(kind),
{
    match kind {
        TexturedKind::Lambertian => "lambertian",
        TexturedKind::Metal => "metal",
        TexturedKind::DiffuseLight => "diffuse light",
    }
}

/// Whether the texture of material number `k` can be found under one of
/// the names `textures`; a material without a texture needs none.
pub open spec fn has_texture(textures: Seq<String>, materials: Seq<MaterialEntry>, k: int) -> bool {
    materials[k].texture matches Some(wanted) ==> texts(textures).contains(wanted.name@)
}

/// Finds the texture of every material that has one, among the textures
/// whose names are `textures`. Where a name is used twice, the last
/// texture of that name is meant. The first material whose texture cannot
/// be found is reported, and nothing is handed back.
pub fn resolve_materials(textures: &Vec<String>, materials: &Vec<MaterialEntry>) -> (res: Result<
    Vec<Option<usize>>,
    TracerError,
>)
    ensures
        res is Ok <==> forall|k: int|
            0 <= k < materials@.len() ==> has_texture(textures@, materials@, k),
        res matches Ok(found) ==> found@.len() == materials@.len() && forall|k: int|
            0 <= k < found@.len() ==> match materials@[k].texture {
                Some(wanted) => (#[trigger] found@[k]) is Some && is_last_of(
                    texts(textures@),
                    wanted.name@,
                    found@[k],
                ),
                None => found@[k] is None,
            },
        res matches Err(e) ==> exists|k: int|
            0 <= k < materials@.len() && !has_texture(textures@, materials@, k) && (forall|j: int|
                0 <= j < k ==> has_texture(textures@, materials@, j)) && #[trigger] is_scene_load(
                e,
                missing_texture_text(
                    (materials@[k].texture->0).name@,
                    (materials@[k].texture->0).kind,
                    materials@[k].key@,
                ),
            ),
{
    let mut found: Vec<Option<usize>> = Vec::new();
    let mut k: usize = 0;
    while k < materials.len()
        invariant
            k <= materials@.len(),
            found@.len() == k,
            forall|j: int| 0 <= j < k ==> has_texture(textures@, materials@, j),
            forall|j: int|
                0 <= j < k ==> match materials@[j].texture {
                    Some(wanted) => (#[trigger] found@[j]) is Some && is_last_of(
                        texts(textures@),
                        wanted.name@,
                        found@[j],
                    ),
                    None => found@[j] is None,
                },
        decreases materials@.len() - k,
    {
        let entry = &materials[k];
        match &entry.texture {
            Some(wanted) => {
                let name = &wanted.name;
                let kind = &wanted.kind;
                match find_last(textures, name) {
                    Some(at) => {
                        assert(texts(textures@)[at as int] == name@);
                        found.push(Some(at));
                    },
                    None => {
                        proof {
                            assert(!texts(textures@).contains(name@));
                            assert(!has_texture(textures@, materials@, k as int));
                        }
                        let mut text = String::from_str("Failed to find texture \"");
                        text.append(name.as_str());
                        text.append("\" for ");
                        text.append(kind_name(*kind));
                        text.append(" material \"");
                        text.append(entry.key.as_str());
                        text.append("\"");
                        let e = TracerError::SceneLoad(text);
                        assert(is_scene_load(
                            e,
                            missing_texture_text(
                                (materials@[k as int].texture->0).name@,
                                (materials@[k as int].texture->0).kind,
                                materials@[k as int].key@,
                            ),
                        ));
                        return Err(e);
                    },
                }
            },
            None => {
                found.push(None);
            },
        }
        k = k + 1;
    }
    Ok(found)
}

/// Whether `e` reports the unknown material `name`.
pub open spec fn is_unknown_material(e: TracerError, name: Seq<char>) -> bool {
    e matches TracerError::UnknownMaterial(words) && words@ == name
}

/// Finds the material of every shape, among the materials whose names are
/// `materials`. Where a name is used twice, the last material of that name
/// is meant. The first shape whose material cannot be found is reported as
/// an unknown material, and nothing is handed back.
pub fn resolve_shapes(materials: &Vec<String>, shapes: &Vec<ShapeEntry>) -> (res: Result<
    Vec<usize>,
    TracerError,
>)
    ensures
        res is Ok <==> forall|k: int|
            0 <= k < shapes@.len() ==> texts(materials@).contains(#[trigger] shapes@[k].material@),
        res matches Ok(found) ==> found@.len() == shapes@.len() && forall|k: int|
            0 <= k < found@.len() ==> is_last_of(
                texts(materials@),
                shapes@[k].material@,
                Some(#[trigger] found@[k]),
            ),
        res matches Err(e) ==> exists|k: int|
            0 <= k < shapes@.len() && !texts(materials@).contains(shapes@[k].material@) && (
            forall|j: int|
                0 <= j < k ==> texts(materials@).contains(#[trigger] shapes@[j].material@))
                && #[trigger] is_unknown_material(e, shapes@[k].material@),
{
    let mut found: Vec<usize> = Vec::new();
    let mut k: usize = 0;
    while k < shapes.len()
        invariant
            k <= shapes@.len(),
            found@.len() == k,
            forall|j: int|
                0 <= j < k ==> texts(materials@).contains(#[trigger] shapes@[j].material@),
            forall|j: int|
                0 <= j < k ==> is_last_of(
                    texts(materials@),
                    shapes@[j].material@,
                    Some(#[trigger] found@[j]),
                ),
        decreases shapes@.len() - k,
    {
        match find_last(materials, &shapes[k].material) {
            Some(at) => {
                assert(texts(materials@)[at as int] == shapes@[k as int].material@);
                found.push(at);
            },
            None => {
                assert(!texts(materials@).contains(shapes@[k as int].material@));
                let e = TracerError::UnknownMaterial(shapes[k].material.clone());
                assert(is_unknown_material(e, shapes@[k as int].material@));
                return Err(e);
            },
        }
        k = k + 1;
    }
    Ok(found)
}

/// Whether `wrap` says, for every shape, which transform wraps it: the
/// last transform that names the shape, or none where none names it.
pub open spec fn is_wrapping(
    shapes: Seq<Seq<char>>,
    children: Seq<Seq<char>>,
    wrap: Seq<Option<usize>>,
) -> bool {
    &&& wrap.len() == shapes.len()
    &&& forall|s: int| 0 <= s < shapes.len() ==> is_last_of(children, shapes[s], #[trigger] wrap[s])
}

/// Finds, for every shape, the transform that wraps it. `shapes` are the
/// names of the shapes, `children` the name that each transform gives for
/// the shape it wraps. Where several transforms name one shape, the last
/// of them wraps it. The first transform that names no shape is reported,
/// and nothing is handed back.
pub fn resolve_transforms(kind: TransformKind, shapes: &Vec<String>, children: &Vec<String>) -> (res:
    Result<Vec<Option<usize>>, TracerError>)
    ensures
        res is Ok <==> forall|t: int|
            0 <= t < children@.len() ==> texts(shapes@).contains(#[trigger] texts(children@)[t]),
        res matches Ok(wrap) ==> is_wrapping(texts(shapes@), texts(children@), wrap@),
        res matches Err(e) ==> exists|t: int|
            0 <= t < children@.len() && !texts(shapes@).contains(texts(children@)[t]) && (
            forall|j: int|
                0 <= j < t ==> texts(shapes@).contains(#[trigger] texts(children@)[j]))
                && #[trigger] is_scene_load(e, missing_child_text(kind, children@[t]@)),
{
    let mut t: usize = 0;
    while t < children.len()
        invariant
            t <= children@.len(),
            forall|j: int| 0 <= j < t ==> texts(shapes@).contains(#[trigger] texts(children@)[j]),
        decreases children@.len() - t,
    {
        match find_last(shapes, &children[t]) {
            Some(at) => {
                assert(texts(shapes@)[at as int] == texts(children@)[t as int]);
            },
            None => {
                assert(!texts(shapes@).contains(texts(children@)[t as int]));
                let child = &children[t];
                let mut text = match kind {
                    TransformKind::RotateY => String::from_str("Rotation_Y \""),
                    TransformKind::Translate => String::from_str("Translation \""),
                };
                text.append(child.as_str());
                text.append("\" did not have any child with key \"");
                text.append(child.as_str());
                text.append("\"");
                let e = TracerError::SceneLoad(text);
                assert(is_scene_load(e, missing_child_text(kind, children@[t as int]@)));
                assert(texts(children@)[t as int] == children@[t as int]@);
                return Err(e);
            },
        }
        t = t + 1;
    }
    let mut wrap: Vec<Option<usize>> = Vec::new();
    let mut s: usize = 0;
    while s < shapes.len()
        invariant
            s <= shapes@.len(),
            wrap@.len() == s,
            forall|j: int|
                0 <= j < s ==> is_last_of(texts(children@), texts(shapes@)[j], #[trigger] wrap@[j]),
        decreases shapes@.len() - s,
    {
        let at = find_last(children, &shapes[s]);
        wrap.push(at);
        s = s + 1;
    }
    Ok(wrap)
}

} // verus!
