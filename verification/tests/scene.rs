use racer_tracer::config::SceneLoaderConfig;
use racer_tracer::error::TracerError;
use racer_tracer::scene::{
    apply_event, move_object, Loader, NoneLoader, ObjectCookie, Random, Sandbox, SandboxSelect,
    Scene, SceneObjectEvent, YmlLoader,
};

#[derive(Clone, Debug, PartialEq)]
struct Ball {
    name: &'static str,
    at: i32,
}

fn ball(name: &'static str, at: i32) -> Ball {
    Ball { name, at }
}

fn place(ball: &Ball, at: &i32) -> Ball {
    Ball { name: ball.name, at: *at }
}

fn at(ball: &Ball) -> i32 {
    ball.at
}

fn three() -> Vec<Ball> {
    vec![ball("a", 1), ball("b", 2), ball("c", 3)]
}

#[test]
fn removing_closes_the_gap_and_is_published() {
    let mut scene: Scene<Ball, i32> = Scene::new(three());
    let (_, mut reader) = scene.get_shared_objects();
    assert_eq!(scene.remove_object(&ObjectCookie { id: 1 }), Ok(()));
    assert_eq!(scene.objects(), &vec![ball("a", 1), ball("c", 3)]);
    assert_eq!(scene.get_pos(&ObjectCookie { id: 1 }, &at), Ok(3));
    assert_eq!(scene.get_pos(&ObjectCookie { id: 2 }, &at), Err(TracerError::NoObjectWithId(2)));
    scene.update().unwrap();
    let events = reader.get_messages().unwrap();
    assert_eq!(events.len(), 1);
    assert!(matches!(events[0], SceneObjectEvent::Remove { id } if id.id == 1));
}

#[test]
fn removing_what_is_not_there_is_refused() {
    let mut scene: Scene<Ball, i32> = Scene::new(three());
    assert_eq!(
        scene.remove_object(&ObjectCookie { id: 3 }),
        Err(TracerError::NoObjectWithId(3))
    );
    assert_eq!(scene.objects(), &three());
}

#[test]
fn removing_the_selected_object_drops_the_selection() {
    let mut scene: Scene<Ball, i32> = Scene::new(three());
    assert_eq!(scene.selected_object(), None);
    assert_eq!(scene.select_object(Some(2)), Some(ObjectCookie { id: 2 }));
    assert_eq!(scene.selected_object(), Some(ObjectCookie { id: 2 }));
    scene.remove_object(&ObjectCookie { id: 0 }).unwrap();
    assert_eq!(scene.selected_object(), Some(ObjectCookie { id: 2 }));
    // The selection goes even when the cookie names no object any more.
    assert_eq!(
        scene.remove_object(&ObjectCookie { id: 2 }),
        Err(TracerError::NoObjectWithId(2))
    );
    assert_eq!(scene.selected_object(), None);
    assert_eq!(scene.select_object(None), None);
}

#[test]
fn moving_replaces_one_object_and_is_published() {
    let mut scene: Scene<Ball, i32> = Scene::new(three());
    let (copies, mut reader) = scene.get_shared_objects();
    assert_eq!(copies, three());
    assert_eq!(scene.set_pos(&ObjectCookie { id: 1 }, 20, &place), Ok(()));
    assert_eq!(scene.objects(), &vec![ball("a", 1), ball("b", 20), ball("c", 3)]);
    assert_eq!(scene.get_pos(&ObjectCookie { id: 1 }, &at), Ok(20));
    assert_eq!(
        scene.set_pos(&ObjectCookie { id: 7 }, 20, &place),
        Err(TracerError::NoObjectWithId(7))
    );
    scene.update().unwrap();
    let events = reader.get_messages().unwrap();
    assert_eq!(events.len(), 1);
    assert!(matches!(events[0], SceneObjectEvent::Pos { id, pos } if id.id == 1 && pos == 20));
}

#[test]
fn a_copy_follows_the_events() {
    let mut scene: Scene<Ball, i32> = Scene::new(three());
    let (mut copy, mut reader) = scene.get_shared_objects();
    scene.set_pos(&ObjectCookie { id: 2 }, 30, &place).unwrap();
    scene.remove_object(&ObjectCookie { id: 0 }).unwrap();
    scene.set_pos(&ObjectCookie { id: 0 }, 9, &place).unwrap();
    scene.update().unwrap();
    for event in reader.get_messages().unwrap() {
        apply_event(&mut copy, &event, &place).unwrap();
    }
    assert_eq!(copy, vec![ball("b", 9), ball("c", 30)]);
    assert_eq!(scene.objects(), &copy);
}

#[test]
fn events_on_a_list() {
    let mut list = three();
    move_object(&mut list, 0, &10, &place);
    assert_eq!(list[0], ball("a", 10));

    let moved = SceneObjectEvent::Pos { id: ObjectCookie { id: 9 }, pos: 5 };
    assert_eq!(apply_event(&mut list, &moved, &place), Ok(()));
    assert_eq!(list.len(), 3);

    let removed: SceneObjectEvent<i32> = SceneObjectEvent::Remove { id: ObjectCookie { id: 3 } };
    assert_eq!(apply_event(&mut list, &removed, &place), Err(TracerError::NoObjectWithId(3)));
    assert_eq!(list.len(), 3);

    let removed: SceneObjectEvent<i32> = SceneObjectEvent::Remove { id: ObjectCookie { id: 2 } };
    assert_eq!(apply_event(&mut list, &removed, &place), Ok(()));
    assert_eq!(list, vec![ball("a", 10), ball("b", 2)]);
}

#[test]
fn loaders_are_chosen_by_the_configuration() {
    assert!(matches!(Loader::select(&SceneLoaderConfig::NoScene), Loader::Empty(NoneLoader {})));
    assert!(matches!(Loader::select(&SceneLoaderConfig::Random), Loader::Random(Random {})));
    assert!(matches!(
        Loader::select(&SceneLoaderConfig::Sandbox),
        Loader::Sandbox(Sandbox { selection: SandboxSelect::Sandbox })
    ));
    match Loader::select(&SceneLoaderConfig::Yml { path: String::from("a.yml") }) {
        Loader::Yml(YmlLoader { path }) => assert_eq!(path, "a.yml"),
        other => panic!("unexpected {:?}", other),
    }
    assert_eq!(Sandbox::new().selection, SandboxSelect::Sandbox);
    assert_eq!(YmlLoader::new(String::from("b.yml")).path, "b.yml");
    let _ = (NoneLoader::new(), Random::new());
}
