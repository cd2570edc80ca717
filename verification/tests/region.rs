use rshm::shm::{ErrorCode, ShmDefinition};

#[test]
fn open_maps_an_existing_shared_memory_object() {
    let definition_owned = ShmDefinition {
        path: "test3".to_string(),
        size: 1024,
    };
    let definition = ShmDefinition {
        path: "test3".to_string(),
        size: 1024,
    };
    let mut owned_shm = definition_owned.create().unwrap();
    let shm = definition.open().unwrap();

    owned_shm.write_at(0, &[8]).unwrap();
    assert_eq!(8, shm.read_at(0, 1).unwrap()[0]);
    owned_shm.write_at(0, &[0]).unwrap();
    assert_eq!(0, shm.read_at(0, 1).unwrap()[0]);

    shm.release().unwrap();
    owned_shm.release().unwrap();
}

#[test]
fn create_reports_an_error_when_path_is_invalid() {
    let definition = ShmDefinition {
        path: "/dev/shm/test".to_string(),
        size: 1024,
    };
    let error = definition.create().err().unwrap();

    assert_eq!(ErrorCode::ShmPathInvalid, error);
}

#[test]
fn create_reports_an_error_when_path_already_exists() {
    let definition1 = ShmDefinition {
        path: "test6".to_string(),
        size: 1024,
    };
    let definition2 = ShmDefinition {
        path: "test6".to_string(),
        size: 1024,
    };
    let shm = definition1.create().unwrap();
    let error = definition2.create().err().unwrap();

    assert_eq!(ErrorCode::ShmPathAlreadyExists, error);
    shm.release().unwrap();
}

#[test]
fn open_reports_an_error_when_path_does_not_exists() {
    let definition = ShmDefinition {
        path: "test7".to_string(),
        size: 1024,
    };
    let error = definition.open().err().unwrap();

    assert_eq!(ErrorCode::ShmPathDoesNotExist, error);
}

#[test]
fn open_reports_an_error_when_size_is_invalid() {
    let definition = ShmDefinition {
        path: "test8".to_string(),
        size: 0,
    };
    let error = definition.create().err().unwrap();

    assert_eq!(ErrorCode::InvalidMMapArguments, error);
}

#[test]
fn created_region_starts_zeroed() {
    let definition = ShmDefinition {
        path: "rshm_zeroed".to_string(),
        size: 64,
    };
    let shm = definition.create().unwrap();

    let bytes = shm.read_at(0, 64).unwrap();
    assert_eq!(64, bytes.len());
    assert!(bytes.iter().all(|b| *b == 0));

    shm.release().unwrap();
}

#[test]
fn release_of_owning_mapping_removes_the_named_resource() {
    let definition_owned = ShmDefinition {
        path: "rshm_owned_release".to_string(),
        size: 1024,
    };
    let owned_shm = definition_owned.create().unwrap();
    owned_shm.release().unwrap();

    let definition = ShmDefinition {
        path: "rshm_owned_release".to_string(),
        size: 1024,
    };
    let error = definition.open().err().unwrap();
    assert_eq!(ErrorCode::ShmPathDoesNotExist, error);
}

#[test]
fn release_of_non_owning_mapping_keeps_the_named_resource() {
    let definition_owned = ShmDefinition {
        path: "rshm_shared_release".to_string(),
        size: 1024,
    };
    let definition1 = ShmDefinition {
        path: "rshm_shared_release".to_string(),
        size: 1024,
    };
    let definition2 = ShmDefinition {
        path: "rshm_shared_release".to_string(),
        size: 1024,
    };
    let owned_shm = definition_owned.create().unwrap();

    let shm = definition1.open().unwrap();
    shm.release().unwrap();

    let again = definition2.open().unwrap();
    again.release().unwrap();

    owned_shm.release().unwrap();
}

#[test]
fn writes_through_one_mapping_are_read_through_the_other() {
    let definition_owned = ShmDefinition {
        path: "rshm_symmetry".to_string(),
        size: 256,
    };
    let definition = ShmDefinition {
        path: "rshm_symmetry".to_string(),
        size: 256,
    };
    let mut owned_shm = definition_owned.create().unwrap();
    let shm = definition.open().unwrap();

    let payload = [1u8, 2, 3, 4, 5, 6, 7, 8];
    owned_shm.write_at(200, &payload).unwrap();
    let through_other = shm.read_at(200, 8).unwrap();
    assert_eq!(payload.to_vec(), through_other);

    let read_back = owned_shm.read_at(200, 8).unwrap();
    assert_eq!(payload.to_vec(), read_back);

    shm.release().unwrap();
    owned_shm.release().unwrap();
}

#[test]
fn errno_values_map_to_the_documented_conditions() {
    assert_eq!(ErrorCode::ShmPathAccessDenied, rshm::shm::map_open_error(13));
    assert_eq!(ErrorCode::ShmPathAlreadyExists, rshm::shm::map_open_error(17));
    assert_eq!(ErrorCode::ShmPathInvalid, rshm::shm::map_open_error(22));
    assert_eq!(ErrorCode::ProcessTooManyOpenFD, rshm::shm::map_open_error(24));
    assert_eq!(ErrorCode::ShmPathTooLong, rshm::shm::map_open_error(36));
    assert_eq!(ErrorCode::SystemTooManyOpenFiles, rshm::shm::map_open_error(23));
    assert_eq!(ErrorCode::ShmPathDoesNotExist, rshm::shm::map_open_error(2));
    assert_eq!(ErrorCode::Unknown(99), rshm::shm::map_open_error(99));

    assert_eq!(ErrorCode::TruncateInterrupted, rshm::shm::map_truncate_error(4));
    assert_eq!(ErrorCode::InvalidTruncationSize, rshm::shm::map_truncate_error(22));
    assert_eq!(ErrorCode::InvalidTruncationSize, rshm::shm::map_truncate_error(7));
    assert_eq!(ErrorCode::Unknown(99), rshm::shm::map_truncate_error(99));

    assert_eq!(ErrorCode::InvalidMMapArguments, rshm::shm::map_mmap_error(22));
    assert_eq!(ErrorCode::OutOfMemory, rshm::shm::map_mmap_error(12));
    assert_eq!(ErrorCode::MissingPermission, rshm::shm::map_mmap_error(1));
    assert_eq!(ErrorCode::Unknown(99), rshm::shm::map_mmap_error(99));

    assert_eq!(ErrorCode::CloseInterrupted, rshm::shm::map_close_error(4));
    assert_eq!(ErrorCode::CloseIOError, rshm::shm::map_close_error(5));
    assert_eq!(ErrorCode::Unknown(99), rshm::shm::map_close_error(99));

    assert_eq!(ErrorCode::UnlinkingANonExistentFile, rshm::shm::map_unlink_error(2));
    assert_eq!(ErrorCode::Unknown(99), rshm::shm::map_unlink_error(99));
}

#[test]
fn head_points_at_the_mapped_region() {
    let definition_owned = ShmDefinition {
        path: "rshm_head".to_string(),
        size: 128,
    };
    let definition = ShmDefinition {
        path: "rshm_head".to_string(),
        size: 128,
    };
    let owned_shm = definition_owned.create().unwrap();
    let shm = definition.open().unwrap();

    assert_ne!(0, owned_shm.head());
    assert_ne!(0, shm.head());

    shm.release().unwrap();
    owned_shm.release().unwrap();
}

#[test]
fn create_rejects_a_size_beyond_the_offset_limit() {
    let definition = ShmDefinition {
        path: "rshm_oversized".to_string(),
        size: usize::MAX,
    };
    let error = definition.create().err().unwrap();
    assert_eq!(ErrorCode::InvalidTruncationSize, error);

    // the failed creation left no resource behind
    let probe = ShmDefinition {
        path: "rshm_oversized".to_string(),
        size: 64,
    };
    assert_eq!(ErrorCode::ShmPathDoesNotExist, probe.open().err().unwrap());
}

#[test]
fn open_does_not_resize_the_shared_object() {
    let definition_owned = ShmDefinition {
        path: "rshm_open_no_resize".to_string(),
        size: 64,
    };
    let mut owned_shm = definition_owned.create().unwrap();
    owned_shm.write_at(50, &[7]).unwrap();

    // a non-owner attaching with a smaller view leaves the object as
    // its creator sized it
    let small = ShmDefinition {
        path: "rshm_open_no_resize".to_string(),
        size: 32,
    };
    let small_view = small.open().unwrap();
    small_view.release().unwrap();

    let full = ShmDefinition {
        path: "rshm_open_no_resize".to_string(),
        size: 64,
    };
    let full_view = full.open().unwrap();
    assert_eq!(7, full_view.read_at(50, 1).unwrap()[0]);

    full_view.release().unwrap();
    owned_shm.release().unwrap();
}
