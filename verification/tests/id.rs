use chunkstore::id::{usize_le_bytes, Id};
use chunkstore::layout::ID_LENGTH;
use chunkstore::provider::storage_path;
use std::collections::hash_map::DefaultHasher;
use std::hash::{Hash, Hasher};

fn counting() -> [u8; ID_LENGTH] {
    std::array::from_fn(|i| i as u8)
}

fn hash_of(id: &Id) -> u64 {
    let mut hasher = DefaultHasher::new();
    id.hash(&mut hasher);
    hasher.finish()
}

#[test]
fn test_random() {
    let id = Id::new_random();
    println!("{}", id.to_string());
}

#[test]
fn random_identifiers_differ() {
    let a = Id::new_random();
    let b = Id::new_random();
    assert_ne!(a, b);
    assert_ne!(*a, [0u8; ID_LENGTH]);
    assert_eq!(a.hex().len(), 64);
}

#[test]
fn identifier_keeps_its_bytes() {
    let id = Id::new(counting());
    assert_eq!(*id, counting());
    assert_eq!(id.as_ref(), &counting()[..]);
    assert_eq!(id.len(), 32);
    assert_eq!(id[31], 31);
    assert_eq!(Id::from(counting()), id);
    assert_eq!(id.clone(), id);
}

#[test]
fn hex_is_lower_case_with_the_high_half_first() {
    let id = Id::new(counting());
    assert_eq!(id.hex(), "000102030405060708090a0b0c0d0e0f101112131415161718191a1b1c1d1e1f");
    let mut bytes = [0u8; ID_LENGTH];
    bytes[0] = 0xAB;
    bytes[1] = 0xF0;
    bytes[2] = 0x0F;
    bytes[31] = 0xFF;
    assert_eq!(
        Id::new(bytes).hex(),
        "abf00f00000000000000000000000000000000000000000000000000000000ff"
    );
}

#[test]
fn identifier_as_text() {
    let id = Id::new(counting());
    assert_eq!(
        id.to_string(),
        "Id(000102030405060708090a0b0c0d0e0f101112131415161718191a1b1c1d1e1f)"
    );
    assert_eq!(id.to_string(), format!("Id({})", id.hex()));
}

#[test]
fn identifiers_are_ordered_by_their_bytes() {
    let low = Id::new([0u8; ID_LENGTH]);
    let mut bytes = [0u8; ID_LENGTH];
    bytes[31] = 1;
    let mid = Id::new(bytes);
    bytes[0] = 1;
    bytes[31] = 0;
    let high = Id::new(bytes);
    assert!(low < mid);
    assert!(mid < high);
    assert!(low < high);
    assert_eq!(low.cmp(&low.clone()), std::cmp::Ordering::Equal);
    assert_eq!(mid.partial_cmp(&high), Some(std::cmp::Ordering::Less));
    assert_eq!(high.clone().max(mid.clone()), Id::new(bytes));
    assert_ne!(low, mid);
    assert_eq!(hash_of(&mid), hash_of(&mid.clone()));
    assert_ne!(hash_of(&mid), hash_of(&high));
}

#[test]
fn derived_identifier_is_the_keyed_hash() {
    let id = Id::new(counting());
    for n in [0usize, 1, 255, 256, 65_535, usize::MAX] {
        let expected = blake3::keyed_hash(&counting(), n.to_le_bytes().as_ref());
        assert_eq!(id.derive_n(n), *expected.as_bytes());
    }
    assert_ne!(id.derive_n(0), id.derive_n(1));
    assert_ne!(id.derive_n(0), counting());
    assert_ne!(id.derive_n(7), Id::new([0u8; ID_LENGTH]).derive_n(7));
    assert_eq!(id.derive_n(7), id.clone().derive_n(7));
}

#[test]
fn le_bytes_of_a_usize() {
    assert_eq!(usize_le_bytes(0), 0usize.to_le_bytes());
    assert_eq!(usize_le_bytes(1), 1usize.to_le_bytes());
    assert_eq!(usize_le_bytes(0x0102_0304), 0x0102_0304usize.to_le_bytes());
    assert_eq!(usize_le_bytes(usize::MAX), usize::MAX.to_le_bytes());
    assert_eq!(usize_le_bytes(258)[..2], [2, 1]);
    assert_eq!(usize_le_bytes(258).len(), std::mem::size_of::<usize>());
}

#[test]
fn storage_path_fans_out_by_the_first_digits() {
    let id = Id::new(counting());
    assert_eq!(
        storage_path(&id),
        vec![
            "00".to_string(),
            "0001".to_string(),
            "000102".to_string(),
            "000102030405060708090a0b0c0d0e0f101112131415161718191a1b1c1d1e1f".to_string(),
        ]
    );
    let parts = storage_path(&Id::new([0xC4u8; ID_LENGTH]));
    assert_eq!(parts[0], "c4");
    assert_eq!(parts[1], "c4c4");
    assert_eq!(parts[2], "c4c4c4");
    assert_eq!(parts[3].len(), 64);
}
