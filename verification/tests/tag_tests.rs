use file_tracker::tag::mint_file_id;
use file_tracker::tag::mint_file_id_with_node;
use file_tracker::tag::Clock;
use file_tracker::tag::TagError;

const NODE: [u8; 6] = [0x01, 0x02, 0x03, 0x04, 0x05, 0x06];

#[test]
fn minted_identifier_has_canonical_shape() {
    let clock = Clock::new().unwrap();
    let id = mint_file_id_with_node(&clock, &NODE).unwrap();
    assert_eq!(id.len(), 36);
    let bytes = id.as_bytes();
    for (i, b) in bytes.iter().enumerate() {
        match i {
            8 | 13 | 18 | 23 => assert_eq!(*b, b'-'),
            _ => assert!(b.is_ascii_hexdigit()),
        }
    }
    // Version-1 shape: the version nibble leads the third group, and the
    // node bytes close the identifier.
    assert_eq!(bytes[14], b'1');
    assert_eq!(&id[24..], "010203040506");
}

#[test]
fn distinct_mints_yield_distinct_identifiers() {
    let clock = Clock::new().unwrap();
    let a = mint_file_id_with_node(&clock, &NODE).unwrap();
    let b = mint_file_id_with_node(&clock, &NODE).unwrap();
    assert_ne!(a, b);
}

#[test]
fn one_clock_serves_many_mints() {
    let clock = Clock::new().unwrap();
    let mut seen: Vec<String> = Vec::new();
    let mut k: usize = 0;
    while k < 8 {
        let id = mint_file_id_with_node(&clock, &NODE).unwrap();
        assert!(!seen.contains(&id));
        seen.push(id);
        k += 1;
    }
}

#[test]
fn host_mint_answers_or_names_its_failure() {
    // Whether this machine exposes a usable MAC address decides the outcome;
    // both sides of the contract are exercised here.
    let clock = Clock::new().unwrap();
    match mint_file_id(&clock) {
        Ok(id) => assert_eq!(id.len(), 36),
        Err(e) => assert_eq!(e, TagError::MacUnavailable),
    }
}

#[test]
fn clock_sequences_are_seed_plus_probe() {
    let clock = Clock::new().unwrap();
    let base = clock.generate_sequence(0, 0);
    assert_eq!(clock.generate_sequence(2, 5), base + 2_000_000_005);
    assert_eq!(clock.generate_sequence(0, 999_999_999), base + 999_999_999);
}
