use racer_tracer::error::TracerError;
use racer_tracer::yml::{
    find_last, resolve_checkered, resolve_materials, resolve_shapes, resolve_transforms,
    CheckeredEntry, MaterialEntry, ShapeEntry, TextureRef, TexturedKind, TransformKind,
};

fn names(list: &[&str]) -> Vec<String> {
    list.iter().map(|name| String::from(*name)).collect()
}

fn checkered(key: &str, a: &str, b: &str) -> CheckeredEntry {
    CheckeredEntry {
        key: String::from(key),
        texture_a: String::from(a),
        texture_b: String::from(b),
    }
}

fn material(key: &str, texture: Option<(TexturedKind, &str)>) -> MaterialEntry {
    MaterialEntry {
        key: String::from(key),
        texture: texture.map(|(kind, name)| TextureRef { kind, name: String::from(name) }),
    }
}

fn shape(key: &str, material: &str) -> ShapeEntry {
    ShapeEntry { key: String::from(key), material: String::from(material) }
}

fn scene_load(text: &str) -> TracerError {
    TracerError::SceneLoad(String::from(text))
}

#[test]
fn the_last_of_a_name_is_meant() {
    let list = names(&["a", "b", "a", "c"]);
    assert_eq!(find_last(&list, &String::from("a")), Some(2));
    assert_eq!(find_last(&list, &String::from("b")), Some(1));
    assert_eq!(find_last(&list, &String::from("c")), Some(3));
    assert_eq!(find_last(&list, &String::from("d")), None);
    assert_eq!(find_last(&names(&[]), &String::from("a")), None);
}

#[test]
fn checkered_textures_find_their_parts() {
    let plain = names(&["white", "green"]);
    let parts = resolve_checkered(
        &plain,
        &vec![
            checkered("board", "white", "green"),
            checkered("nested", "board", "white"),
            checkered("plain", "green", "green"),
        ],
    );
    // Plain textures count first, checkered ones after them.
    assert_eq!(parts, Ok(vec![(0, 1), (2, 0), (1, 1)]));
    assert_eq!(resolve_checkered(&plain, &vec![]), Ok(vec![]));
}

#[test]
fn a_checkered_texture_cannot_use_what_comes_after_it() {
    let plain = names(&["white"]);
    let res = resolve_checkered(
        &plain,
        &vec![checkered("nested", "board", "white"), checkered("board", "white", "white")],
    );
    assert_eq!(
        res,
        Err(scene_load("Checkered texture \"nested\" expected texture \"board\" to exist."))
    );
}

#[test]
fn a_missing_second_part_is_reported_under_the_first() {
    let plain = names(&["white"]);
    let res = resolve_checkered(&plain, &vec![checkered("board", "white", "black")]);
    assert_eq!(
        res,
        Err(scene_load("Checkered texture \"board\" expected texture \"white\" to exist."))
    );
}

#[test]
fn materials_find_their_textures() {
    let textures = names(&["white", "green", "white"]);
    let found = resolve_materials(
        &textures,
        &vec![
            material("matte", Some((TexturedKind::Lambertian, "green"))),
            material("glass", None),
            material("mirror", Some((TexturedKind::Metal, "white"))),
            material("lamp", Some((TexturedKind::DiffuseLight, "white"))),
        ],
    );
    assert_eq!(found, Ok(vec![Some(1), None, Some(2), Some(2)]));
}

#[test]
fn a_material_without_its_texture_is_reported() {
    let textures = names(&["white"]);
    let one = |kind, text: &str| {
        assert_eq!(
            resolve_materials(
                &textures,
                &vec![material("ok", None), material("m", Some((kind, "red")))]
            ),
            Err(scene_load(text))
        );
    };
    one(
        TexturedKind::Lambertian,
        "Failed to find texture \"red\" for lambertian material \"m\"",
    );
    one(TexturedKind::Metal, "Failed to find texture \"red\" for metal material \"m\"");
    one(
        TexturedKind::DiffuseLight,
        "Failed to find texture \"red\" for diffuse light material \"m\"",
    );
}

#[test]
fn shapes_find_their_materials() {
    let materials = names(&["matte", "glass"]);
    assert_eq!(
        resolve_shapes(
            &materials,
            &vec![shape("ball", "glass"), shape("floor", "matte"), shape("pearl", "glass")]
        ),
        Ok(vec![1, 0, 1])
    );
    assert_eq!(
        resolve_shapes(&materials, &vec![shape("ball", "glass"), shape("floor", "gold")]),
        Err(TracerError::UnknownMaterial(String::from("gold")))
    );
}

#[test]
fn transforms_wrap_the_shapes_they_name() {
    let shapes = names(&["box", "ball", "floor"]);
    let children = names(&["ball", "box", "ball"]);
    // Of two transforms that name one shape, the last wraps it.
    assert_eq!(
        resolve_transforms(TransformKind::RotateY, &shapes, &children),
        Ok(vec![Some(1), Some(2), None])
    );
    assert_eq!(
        resolve_transforms(TransformKind::Translate, &shapes, &names(&[])),
        Ok(vec![None, None, None])
    );
}

#[test]
fn a_transform_without_its_shape_is_reported() {
    let shapes = names(&["box"]);
    assert_eq!(
        resolve_transforms(TransformKind::RotateY, &shapes, &names(&["box", "ball"])),
        Err(scene_load("Rotation_Y \"ball\" did not have any child with key \"ball\""))
    );
    assert_eq!(
        resolve_transforms(TransformKind::Translate, &shapes, &names(&["cone", "ball"])),
        Err(scene_load("Translation \"cone\" did not have any child with key \"cone\""))
    );
}
