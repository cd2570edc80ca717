use rshm::condvar::Condvar;
use rshm::dict::{DictClient, DictError, DictOwner};
use rshm::log::{LogConsumer, LogError, LogProducer};
use rshm::shm::ShmDefinition;

fn record(key: u64, value: u64) -> Vec<u8> {
    let mut r = key.to_le_bytes().to_vec();
    r.extend_from_slice(&value.to_le_bytes());
    r
}

#[test]
fn layout_matches_the_documented_formulas() {
    assert_eq!(16, rshm::layout::first_slot_offset(8));
    assert_eq!(20, rshm::layout::first_slot_offset(10));
    assert_eq!(16, rshm::layout::first_slot_offset(16));
    assert_eq!(24, rshm::layout::first_slot_offset(24));
    assert_eq!(3, rshm::layout::capacity(40, 8));
    assert_eq!(3, rshm::layout::capacity(64, 16));
    assert_eq!(0, rshm::layout::capacity(10, 4));
    assert_eq!(1, rshm::layout::capacity(48, 24));
}

#[test]
fn notify_all_without_waiters_wakes_nobody() {
    let cv = Condvar::new();
    assert_eq!(0, cv.notify_all().unwrap());
    assert_eq!(0, cv.notify_all().unwrap());
}

#[test]
fn three_records_in_order_then_no_space_left() {
    // region sized for exactly 3 records of an 8-byte payload
    let definition = ShmDefinition {
        path: "rshm_log_three".to_string(),
        size: 40,
    };
    let region = definition.create().unwrap();
    let cv = Condvar::new();
    let mut producer = LogProducer::new(region, 8).unwrap();

    assert!(producer.insert(&1u64.to_le_bytes(), &cv).is_ok());
    assert!(producer.insert(&2u64.to_le_bytes(), &cv).is_ok());
    assert!(producer.insert(&3u64.to_le_bytes(), &cv).is_ok());

    let reader_definition = ShmDefinition {
        path: "rshm_log_three".to_string(),
        size: 40,
    };
    let reader_region = reader_definition.open().unwrap();
    let mut consumer = LogConsumer::new(reader_region, 8);

    assert_eq!(
        1,
        u64::from_le_bytes(consumer.next(&cv).unwrap().unwrap().try_into().unwrap())
    );
    assert_eq!(
        2,
        u64::from_le_bytes(consumer.next(&cv).unwrap().unwrap().try_into().unwrap())
    );
    assert_eq!(
        3,
        u64::from_le_bytes(consumer.next(&cv).unwrap().unwrap().try_into().unwrap())
    );
    // every slot the region can hold has been consumed
    assert_eq!(None, consumer.next(&cv).unwrap());

    let error = producer.insert(&4u64.to_le_bytes(), &cv).unwrap_err();
    assert_eq!(LogError::NoSpaceLeft, error);

    consumer.release().unwrap();
    producer.release().unwrap();
}

#[test]
fn consumer_started_during_insertion_sees_every_record() {
    let definition = ShmDefinition {
        path: "rshm_log_interleaved".to_string(),
        size: 80,
    };
    let region = definition.create().unwrap();
    let cv = Condvar::new();
    let mut producer = LogProducer::new(region, 8).unwrap();

    let reader_definition = ShmDefinition {
        path: "rshm_log_interleaved".to_string(),
        size: 80,
    };
    let reader_region = reader_definition.open().unwrap();
    let mut consumer = LogConsumer::new(reader_region, 8);

    let mut observed: Vec<u64> = Vec::new();
    for value in [10u64, 20, 30, 40, 50] {
        producer.insert(&value.to_le_bytes(), &cv).unwrap();
        let bytes = consumer.next(&cv).unwrap().unwrap();
        observed.push(u64::from_le_bytes(bytes.try_into().unwrap()));
    }

    assert_eq!(vec![10u64, 20, 30, 40, 50], observed);

    consumer.release().unwrap();
    producer.release().unwrap();
}

#[test]
fn dictionary_returns_the_latest_value_for_an_overwritten_key() {
    let definition = ShmDefinition {
        path: "rshm_dict_lww".to_string(),
        size: 64,
    };
    let region = definition.create().unwrap();
    let cv = Condvar::new();
    let mut owner = DictOwner::new(region, 16).unwrap();

    owner.put(&record(7, 111), &cv).unwrap();
    owner.put(&record(7, 222), &cv).unwrap();

    // a client started after both writes sees only the second value
    let reader_definition = ShmDefinition {
        path: "rshm_dict_lww".to_string(),
        size: 64,
    };
    let reader_region = reader_definition.open().unwrap();
    let mut client = DictClient::new(reader_region, 16);

    let found = client.get(7).unwrap();
    assert_eq!(record(7, 222), found);

    client.release().unwrap();
    owner.release().unwrap();
}

#[test]
fn dictionary_value_becomes_visible_to_an_existing_client() {
    let definition = ShmDefinition {
        path: "rshm_dict_fresh".to_string(),
        size: 64,
    };
    let region = definition.create().unwrap();
    let cv = Condvar::new();
    let mut owner = DictOwner::new(region, 16).unwrap();

    let reader_definition = ShmDefinition {
        path: "rshm_dict_fresh".to_string(),
        size: 64,
    };
    let reader_region = reader_definition.open().unwrap();
    let mut client = DictClient::new(reader_region, 16);

    assert_eq!(DictError::NoSuchKey, client.get(5).unwrap_err());

    owner.put(&record(5, 99), &cv).unwrap();

    // same client instance, no reopening
    assert_eq!(record(5, 99), client.get(5).unwrap());

    client.release().unwrap();
    owner.release().unwrap();
}

#[test]
fn dictionary_overwrites_consume_no_capacity() {
    // room for exactly one 16-byte record past the header
    let definition = ShmDefinition {
        path: "rshm_dict_capacity".to_string(),
        size: 32,
    };
    let region = definition.create().unwrap();
    let cv = Condvar::new();
    let mut owner = DictOwner::new(region, 16).unwrap();

    owner.put(&record(1, 10), &cv).unwrap();

    let error = owner.put(&record(2, 20), &cv).unwrap_err();
    assert_eq!(DictError::OutOfMemory, error);

    // the known key still has its slot: overwriting it needs no capacity
    owner.put(&record(1, 11), &cv).unwrap();

    let reader_definition = ShmDefinition {
        path: "rshm_dict_capacity".to_string(),
        size: 32,
    };
    let reader_region = reader_definition.open().unwrap();
    let mut client = DictClient::new(reader_region, 16);
    assert_eq!(record(1, 11), client.get(1).unwrap());
    assert_eq!(DictError::NoSuchKey, client.get(2).unwrap_err());

    client.release().unwrap();
    owner.release().unwrap();
}

#[test]
fn log_counter_in_the_header_matches_the_inserted_count() {
    let definition = ShmDefinition {
        path: "rshm_log_counter".to_string(),
        size: 48,
    };
    let region = definition.create().unwrap();
    let cv = Condvar::new();
    let mut producer = LogProducer::new(region, 8).unwrap();

    producer.insert(&41u64.to_le_bytes(), &cv).unwrap();
    producer.insert(&42u64.to_le_bytes(), &cv).unwrap();

    let probe_definition = ShmDefinition {
        path: "rshm_log_counter".to_string(),
        size: 48,
    };
    let probe = probe_definition.open().unwrap();
    let counter = probe.read_at(8, 8).unwrap();
    assert_eq!(2, u64::from_le_bytes(counter.try_into().unwrap()));

    // the first record sits at the first aligned slot past the header
    let first = probe.read_at(16, 8).unwrap();
    assert_eq!(41, u64::from_le_bytes(first.try_into().unwrap()));

    probe.release().unwrap();
    producer.release().unwrap();
}

#[test]
fn dictionary_handles_key_only_records() {
    // records that are nothing but their key
    let definition = ShmDefinition {
        path: "rshm_dict_keyonly".to_string(),
        size: 32,
    };
    let region = definition.create().unwrap();
    let cv = Condvar::new();
    let mut owner = DictOwner::new(region, 8).unwrap();

    owner.put(&3u64.to_le_bytes(), &cv).unwrap();

    let reader_definition = ShmDefinition {
        path: "rshm_dict_keyonly".to_string(),
        size: 32,
    };
    let reader_region = reader_definition.open().unwrap();
    let mut client = DictClient::new(reader_region, 8);
    assert_eq!(3u64.to_le_bytes().to_vec(), client.get(3).unwrap());
    assert_eq!(DictError::NoSuchKey, client.get(4).unwrap_err());

    client.release().unwrap();
    owner.release().unwrap();
}

#[test]
fn try_next_polls_without_blocking() {
    let definition = ShmDefinition {
        path: "rshm_log_poll".to_string(),
        size: 40,
    };
    let region = definition.create().unwrap();
    let cv = Condvar::new();
    let mut producer = LogProducer::new(region, 8).unwrap();

    let reader_definition = ShmDefinition {
        path: "rshm_log_poll".to_string(),
        size: 40,
    };
    let reader_region = reader_definition.open().unwrap();
    let mut consumer = LogConsumer::new(reader_region, 8);

    // nothing inserted yet: polling yields no record and does not wait
    assert_eq!(None, consumer.try_next().unwrap());

    producer.insert(&9u64.to_le_bytes(), &cv).unwrap();
    let bytes = consumer.try_next().unwrap().unwrap();
    assert_eq!(9, u64::from_le_bytes(bytes.try_into().unwrap()));

    assert_eq!(None, consumer.try_next().unwrap());

    consumer.release().unwrap();
    producer.release().unwrap();
}
