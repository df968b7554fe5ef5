use rat_quickdb::id_generator::{
    is_object_id_text, parses_as_u64, IdGenerator, MongoAutoIncrementGenerator, SnowflakeGenerator, SnowflakeNext,
    SNOWFLAKE_EPOCH,
};
use rat_quickdb::types::{IdStrategy, IdType};

#[test]
fn test_uuid_generator() {
    let mut generator = IdGenerator::new(IdStrategy::Uuid).unwrap();

    let id1 = generator.generate().unwrap();
    let id2 = generator.generate().unwrap();

    match (&id1, &id2) {
        (IdType::String(s1), IdType::String(s2)) => {
            assert_ne!(s1, s2);
            assert!(generator.validate_id(&id1));
            assert!(generator.validate_id(&id2));
        }
        _ => panic!("Expected string IDs"),
    }
}

#[test]
fn test_auto_increment_generator() {
    let mut generator = IdGenerator::new(IdStrategy::AutoIncrement).unwrap();

    let id1 = generator.generate().unwrap();
    let id2 = generator.generate().unwrap();

    match (&id1, &id2) {
        (IdType::Number(n1), IdType::Number(n2)) => {
            assert_eq!(*n1, 1);
            assert_eq!(*n2, 2);
            assert!(generator.validate_id(&id1));
            assert!(generator.validate_id(&id2));
        }
        _ => panic!("Expected number IDs"),
    }
}

#[test]
fn test_snowflake_generator() {
    let mut generator = IdGenerator::new(IdStrategy::Snowflake { machine_id: 1, datacenter_id: 1 }).unwrap();

    let id1 = generator.generate().unwrap();
    let id2 = generator.generate().unwrap();

    match (&id1, &id2) {
        (IdType::String(s1), IdType::String(s2)) => {
            assert_ne!(s1, s2);
            assert!(generator.validate_id(&id1));
            assert!(generator.validate_id(&id2));
        }
        _ => panic!("Expected string IDs"),
    }
}

#[test]
fn test_object_id_generator() {
    let mut generator = IdGenerator::new(IdStrategy::ObjectId).unwrap();

    let id1 = generator.generate().unwrap();
    let id2 = generator.generate().unwrap();

    match (&id1, &id2) {
        (IdType::String(s1), IdType::String(s2)) => {
            assert_ne!(s1, s2);
            assert_eq!(s1.len(), 24);
            assert_eq!(s2.len(), 24);
            assert!(generator.validate_id(&id1));
            assert!(generator.validate_id(&id2));
        }
        _ => panic!("Expected string IDs"),
    }
}

#[test]
fn test_mongo_auto_increment_generator() {
    let mut generator = MongoAutoIncrementGenerator::new("test_collection".to_string());

    let id1 = generator.next_id().unwrap();
    let id2 = generator.next_id().unwrap();

    assert_eq!(id1, 1);
    assert_eq!(id2, 2);

    generator.set_start_value(100);
    let id3 = generator.next_id().unwrap();
    assert_eq!(id3, 100);
}

#[test]
fn mongo_generator_reset_and_current() {
    let mut g = MongoAutoIncrementGenerator::new("c".to_string());
    assert_eq!(g.current_value(), 1);
    g.next_id().unwrap();
    assert_eq!(g.current_value(), 2);
    g.reset();
    assert_eq!(g.next_id().unwrap(), 1);
}

#[test]
fn snowflake_rejects_out_of_range_ids() {
    assert_eq!(SnowflakeGenerator::new(1024, 0).unwrap_err(), "Machine ID must be between 0 and 1023");
    assert_eq!(SnowflakeGenerator::new(0, 32).unwrap_err(), "Datacenter ID must be between 0 and 31");
    assert!(SnowflakeGenerator::new(1023, 31).is_ok());
    assert_eq!(
        IdGenerator::new(IdStrategy::Snowflake { machine_id: 2000, datacenter_id: 1 }).unwrap_err(),
        "Machine ID must be between 0 and 1023"
    );
}

#[test]
fn snowflake_ids_increase_and_carry_machine_bits() {
    let mut g = SnowflakeGenerator::new(5, 3).unwrap();
    let mut last = 0u64;
    for _ in 0..200 {
        let id = g.generate().unwrap();
        assert!(id > last);
        // The datacenter bits (from bit 17) overlap the machine bits (from bit 12).
        assert_eq!((id >> 12) & 0x3FF, 5 | (3 << 5));
        assert!((id >> 22) > 0);
        last = id;
    }
    assert!(SNOWFLAKE_EPOCH == 1288834974657);
}

#[test]
fn auto_increment_start_and_validation() {
    let mut g = IdGenerator::new(IdStrategy::AutoIncrement).unwrap();
    g.set_auto_increment_start(41);
    assert!(matches!(g.generate().unwrap(), IdType::Number(41)));
    assert!(!g.validate_id(&IdType::Number(0)));
    assert!(!g.validate_id(&IdType::String("1".to_string())));
    assert!(matches!(g.strategy(), IdStrategy::AutoIncrement));
}

#[test]
fn uuid_validation_shapes() {
    let g = IdGenerator::new(IdStrategy::Uuid).unwrap();
    let ok = [
        "67e55044-10b1-426f-9247-bb680e5fe0c8",
        "67e5504410b1426f9247bb680e5fe0c8",
        "{67e55044-10b1-426f-9247-bb680e5fe0c8}",
        "urn:uuid:67e55044-10b1-426f-9247-bb680e5fe0c8",
    ];
    for s in ok {
        assert!(g.validate_id(&IdType::String(s.to_string())), "{}", s);
    }
    assert!(!g.validate_id(&IdType::String("67e55044-10b1-426f-9247".to_string())));
    assert!(!g.validate_id(&IdType::String("zze55044-10b1-426f-9247-bb680e5fe0c8".to_string())));
    assert!(!g.validate_id(&IdType::Number(1)));
}

#[test]
fn custom_ids_carry_the_generator_name() {
    let mut g = IdGenerator::new(IdStrategy::Custom("order".to_string())).unwrap();
    match g.generate().unwrap() {
        IdType::String(s) => {
            assert!(s.starts_with("order_"));
            assert!(s["order_".len()..].chars().all(|c| c.is_ascii_digit()));
        }
        other => panic!("unexpected {:?}", other),
    }
    assert!(g.validate_id(&IdType::String("anything".to_string())));
}

#[test]
fn u64_text_checks() {
    assert!(parses_as_u64("0"));
    assert!(parses_as_u64("+17"));
    assert!(parses_as_u64("18446744073709551615"));
    assert!(!parses_as_u64("18446744073709551616"));
    assert!(!parses_as_u64(""));
    assert!(!parses_as_u64("+"));
    assert!(!parses_as_u64("-1"));
    assert!(!parses_as_u64("12a"));
}

#[test]
fn object_id_text_checks() {
    assert!(is_object_id_text("507f1f77bcf86cd799439011"));
    assert!(is_object_id_text("507F1F77BCF86CD799439011"));
    assert!(!is_object_id_text("507f1f77bcf86cd79943901"));
    assert!(!is_object_id_text("507f1f77bcf86cd79943901g"));
}

#[test]
fn snowflake_steps_on_given_readings() {
    let mut g = SnowflakeGenerator::new(1, 2).unwrap();
    let t = SNOWFLAKE_EPOCH + 5;
    let base = (5u64 << 22) | (2u64 << 17) | (1u64 << 12);
    assert_eq!(g.next_from(SNOWFLAKE_EPOCH - 1), SnowflakeNext::Backwards);
    assert_eq!(g.next_from(t), SnowflakeNext::Issued(base));
    // The counter restarted at 0, so the same millisecond has no sequence left.
    assert_eq!(g.next_from(t), SnowflakeNext::Wait);
    assert_eq!(g.next_from(t - 1), SnowflakeNext::Backwards);
    let later = g.next_after_wait(t + 1);
    assert_eq!(later, (6u64 << 22) | (2u64 << 17) | (1u64 << 12));
    // The counter advanced to 1: the same millisecond now issues sequence 1.
    assert_eq!(g.next_from(t + 1), SnowflakeNext::Issued(later | 1));
    assert_eq!(g.next_from(t + 1), SnowflakeNext::Issued(later | 2));
    assert_eq!(g.next_from(t + 3), SnowflakeNext::Issued((8u64 << 22) | (2u64 << 17) | (1u64 << 12)));
}

#[test]
fn mongo_ids_count_up_from_one() {
    let mut g = MongoAutoIncrementGenerator::new("c".to_string());
    for k in 0..5i64 {
        assert_eq!(g.current_value(), (1 + k) as u64);
        assert_eq!(g.next_id().unwrap(), 1 + k);
    }
    assert_eq!(g.current_value(), 6);
    assert_eq!(g.current_value(), 6);
}
