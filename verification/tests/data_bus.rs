use racer_tracer::data_bus::{DataBus, DataReader, DataWriter, DrainEnd, ForwardEnd, BUS_CAPACITY};
use racer_tracer::error::TracerError;

#[test]
fn a_reader_sees_messages_in_the_order_written() {
    let mut bus: DataBus<u32> = DataBus::new("numbers");
    let mut reader = bus.get_reader();
    let writer = bus.get_writer();
    for n in 1..=100u32 {
        writer.write(n).unwrap();
    }
    bus.update().unwrap();
    let expected: Vec<u32> = (1..=100).collect();
    assert_eq!(reader.get_messages(), Ok(expected));
}

#[test]
fn every_reader_has_its_own_view() {
    let mut bus: DataBus<u32> = DataBus::new("numbers");
    let mut first = bus.get_reader();
    let mut second = bus.get_reader();
    let writer = bus.get_writer();
    writer.write(1).unwrap();
    writer.write(2).unwrap();
    bus.update().unwrap();
    assert_eq!(first.get_messages(), Ok(vec![1, 2]));
    writer.write(3).unwrap();
    bus.update().unwrap();
    assert_eq!(first.get_messages(), Ok(vec![3]));
    assert_eq!(second.get_messages(), Ok(vec![1, 2, 3]));
    assert_eq!(second.get_messages(), Ok(vec![]));
}

#[test]
fn a_reader_sees_nothing_older_than_itself() {
    let mut bus: DataBus<u32> = DataBus::new("numbers");
    let writer = bus.get_writer();
    writer.write(1).unwrap();
    bus.update().unwrap();
    let mut late = bus.get_reader();
    writer.write(2).unwrap();
    bus.update().unwrap();
    assert_eq!(late.get_messages(), Ok(vec![2]));
}

#[test]
fn nothing_is_seen_before_the_hub_forwards() {
    let mut bus: DataBus<u32> = DataBus::new("numbers");
    let mut reader = bus.get_reader();
    let writer = bus.get_writer();
    writer.write(1).unwrap();
    assert_eq!(reader.get_messages(), Ok(vec![]));
    bus.update().unwrap();
    assert_eq!(reader.get_messages(), Ok(vec![1]));
}

#[test]
fn writers_are_copies_of_one_end() {
    let mut bus: DataBus<u32> = DataBus::new("numbers");
    let mut reader = bus.get_reader();
    let a = bus.get_writer();
    let b = a.clone();
    a.write(1).unwrap();
    b.write(2).unwrap();
    a.write(3).unwrap();
    bus.update().unwrap();
    assert_eq!(reader.get_messages(), Ok(vec![1, 2, 3]));
}

#[test]
fn a_full_ring_fails_the_update() {
    let mut bus: DataBus<usize> = DataBus::new("numbers");
    let mut slow = bus.get_reader();
    let writer = bus.get_writer();
    for n in 0..BUS_CAPACITY {
        writer.write(n).unwrap();
    }
    assert_eq!(bus.update(), Ok(()));
    writer.write(BUS_CAPACITY).unwrap();
    assert_eq!(
        bus.update(),
        Err(TracerError::RecieveError(String::from("Failed to update databus \"numbers\"")))
    );
    let seen = slow.get_messages().unwrap();
    assert_eq!(seen.len(), BUS_CAPACITY);
    assert_eq!(seen[0], 0);
    assert_eq!(seen[BUS_CAPACITY - 1], BUS_CAPACITY - 1);
}

#[test]
fn writing_to_a_dropped_hub_fails() {
    let bus: DataBus<u32> = DataBus::new("numbers");
    let writer: DataWriter<u32> = bus.get_writer();
    drop(bus);
    match writer.write(1) {
        Err(TracerError::BusWriteError(name, _)) => assert_eq!(name, "numbers"),
        other => panic!("unexpected {:?}", other),
    }
}

#[test]
fn reading_from_a_dropped_hub_fails_once_drained() {
    let mut bus: DataBus<u32> = DataBus::new("numbers");
    let mut reader: DataReader<u32> = bus.get_reader();
    let writer = bus.get_writer();
    writer.write(1).unwrap();
    bus.update().unwrap();
    drop(bus);
    match reader.get_messages() {
        Err(TracerError::BusReadError(name, _)) => assert_eq!(name, "numbers"),
        other => panic!("unexpected {:?}", other),
    }
}

#[test]
fn outcomes_of_a_write() {
    let name = String::from("tiles");
    assert_eq!(DataWriter::<u32>::written(&name, Ok(())), Ok(()));
    assert_eq!(
        DataWriter::<u32>::written(&name, Err(String::from("closed"))),
        Err(TracerError::BusWriteError(String::from("tiles"), String::from("closed")))
    );
}

#[test]
fn outcomes_of_a_drain() {
    let name = String::from("tiles");
    assert_eq!(DataReader::<u32>::drained(&name, vec![4, 5], DrainEnd::Empty), Ok(vec![4, 5]));
    assert_eq!(
        DataReader::<u32>::drained(&name, vec![4, 5], DrainEnd::Closed(String::from("gone"))),
        Err(TracerError::BusReadError(String::from("tiles"), String::from("gone")))
    );
}

#[test]
fn outcomes_of_a_forward() {
    let name = String::from("tiles");
    assert_eq!(DataBus::<u32>::forwarded(&name, ForwardEnd::Empty), Ok(()));
    assert_eq!(
        DataBus::<u32>::forwarded(&name, ForwardEnd::Full),
        Err(TracerError::RecieveError(String::from("Failed to update databus \"tiles\"")))
    );
    assert_eq!(
        DataBus::<u32>::forwarded(&name, ForwardEnd::Closed(String::from("gone"))),
        Err(TracerError::RecieveError(String::from("Failed to update databus \"gone\"")))
    );
}
