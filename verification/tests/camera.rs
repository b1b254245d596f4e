use racer_tracer::camera::SharedCamera;
use racer_tracer::data_bus::DataBus;
use racer_tracer::error::TracerError;

#[derive(Clone, Debug, PartialEq)]
struct Snapshot {
    x: i32,
    zoom: i32,
}

#[derive(Clone)]
enum Event {
    Move(i32),
    Zoom(i32),
}

fn applied(snapshot: &Snapshot, event: &Event) -> Snapshot {
    match event {
        Event::Move(x) => Snapshot { x: *x, zoom: snapshot.zoom },
        Event::Zoom(by) => Snapshot { x: snapshot.x, zoom: snapshot.zoom * by },
    }
}

#[test]
fn the_mirror_takes_events_in_their_order() {
    let mut bus: DataBus<Event> = DataBus::new("camera");
    let mut mirror = SharedCamera::new(Snapshot { x: 0, zoom: 1 }, bus.get_reader());
    assert!(mirror.changed());
    mirror.follow(&vec![Event::Zoom(2), Event::Move(5), Event::Zoom(3), Event::Move(7)], &applied);
    assert_eq!(mirror.data(), &Snapshot { x: 7, zoom: 6 });
    assert!(mirror.changed());
    mirror.follow(&vec![], &applied);
    assert_eq!(mirror.data(), &Snapshot { x: 7, zoom: 6 });
    assert!(!mirror.changed());
}

#[test]
fn the_mirror_follows_the_channel() {
    let mut bus: DataBus<Event> = DataBus::new("camera");
    let writer = bus.get_writer();
    let mut mirror = SharedCamera::new(Snapshot { x: 1, zoom: 1 }, bus.get_reader());

    assert_eq!(mirror.update(&applied), Ok(()));
    assert!(!mirror.changed());

    writer.write(Event::Move(4)).unwrap();
    writer.write(Event::Zoom(5)).unwrap();
    bus.update().unwrap();
    assert_eq!(mirror.update(&applied), Ok(()));
    assert!(mirror.changed());
    assert_eq!(mirror.data(), &Snapshot { x: 4, zoom: 5 });

    assert_eq!(mirror.update(&applied), Ok(()));
    assert!(!mirror.changed());
    assert_eq!(mirror.data(), &Snapshot { x: 4, zoom: 5 });

    drop(bus);
    assert!(matches!(mirror.update(&applied), Err(TracerError::BusReadError(..))));
    assert!(!mirror.changed());
    assert_eq!(mirror.data(), &Snapshot { x: 4, zoom: 5 });
}
