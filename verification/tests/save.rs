use kaseta_control::mapping::AttributeIdentifier;
use kaseta_control::save::{accepts_frame, Save, StoredCalibration, Store, STORE_SIZE};

#[test]
fn initialize_store() {
    let _store = Store::new(Save::default(), 0);
}

#[test]
fn get_save_from_store() {
    let save = Save::default();
    let store = Store::new(save, 0);
    assert!(store.save() == Some(save));
}

#[test]
fn get_version_from_store() {
    let store = Store::new(Save::default(), 10);
    assert_eq!(store.version(), 10);
}

#[test]
fn initialize_store_from_bytes() {
    let store_a = Store::new(Save::default(), 0);
    let bytes = store_a.to_bytes();
    let store_b = Store::from_bytes(bytes).ok().unwrap();
    assert!(store_a.save() == store_b.save());
}

#[test]
fn detect_invalid_crc_while_initializing_from_bytes() {
    let store = Store::new(Save::default(), 0);
    let mut bytes = store.to_bytes();
    bytes[5] = 0x13;
    assert!(Store::from_bytes(bytes).is_err());
}

#[test]
fn dump_store_as_bytes() {
    let save_a = Save {
        tapped_tempo: Some(1000),
        ..Save::default()
    };
    let store_a = Store::new(save_a, 0);
    let bytes_a = store_a.to_bytes();

    let save_b = Save {
        tapped_tempo: Some(2000),
        ..Save::default()
    };
    let store_b = Store::new(save_b, 0);
    let bytes_b = store_b.to_bytes();

    assert!(bytes_a != bytes_b);
}

#[test]
fn store_fits_into_one_page() {
    let page_size = 256;
    let store_size = core::mem::size_of::<Store>();
    assert!(store_size < page_size);
    assert!(STORE_SIZE < page_size);
}

fn custom_save() -> Save {
    let mut save = Save::default();
    save.mapping[0] = AttributeIdentifier::Drive;
    save.mapping[3] = AttributeIdentifier::Pan(2);
    save.calibrations[1] = StoredCalibration {
        offset: 0x3dcc_cccd,
        scaling: 0x3f8c_cccd,
    };
    save.options.rewind = true;
    save.configuration.rewind_speed[2] = (3, 1);
    save.configuration.position_reset_mapping = Some(2);
    save.tapped_tempo = Some(1234);
    save
}

#[test]
fn save_comes_back_from_its_bytes() {
    let save = custom_save();
    let store = Store::new(save, 7);
    let restored = Store::from_bytes(store.to_bytes()).ok().unwrap();
    assert!(restored.save() == Some(save));
    assert_eq!(restored.version(), 7);
}

#[test]
fn store_bytes_start_with_version_and_token() {
    let store = Store::new(Save::default(), 0x0403_0201);
    let bytes = store.to_bytes();
    assert_eq!(bytes.len(), STORE_SIZE);
    assert_eq!(&bytes[0..6], &[1, 2, 3, 4, 1, 0]);
}

#[test]
fn corrupted_payload_fails_the_checksum() {
    let store = Store::new(custom_save(), 0);
    let mut bytes = store.to_bytes();
    bytes[20] ^= 0x01;
    assert!(Store::from_bytes(bytes).is_err());
}

#[test]
fn corrupted_checksum_is_refused() {
    let store = Store::new(custom_save(), 0);
    let mut bytes = store.to_bytes();
    bytes[STORE_SIZE - 1] ^= 0xff;
    assert!(Store::from_bytes(bytes).is_err());
}

#[test]
fn save_bytes_round_trip() {
    let save = custom_save();
    let bytes = save.to_bytes();
    assert!(Save::from_bytes(&bytes) == Some(save));
}

#[test]
fn a_frame_is_accepted_with_its_stored_checksum_only() {
    let bytes = Store::new(custom_save(), 3).to_bytes();
    let stored = u16::from_le_bytes([bytes[STORE_SIZE - 2], bytes[STORE_SIZE - 1]]);
    assert!(accepts_frame(&bytes, stored));
    assert!(!accepts_frame(&bytes, stored.wrapping_add(1)));
    let mut stale = bytes;
    stale[4] = 2;
    assert!(!accepts_frame(&stale, stored));
}

#[test]
fn a_frame_with_a_valid_checksum_loads_even_if_its_save_does_not_decode() {
    let store = Store::new(Save::default(), 0);
    let mut raw = Save::default().to_bytes();
    raw[0] = 0xff;
    assert!(Save::from_bytes(&raw).is_none());
    let mut bytes = store.to_bytes();
    bytes[6..6 + raw.len()].copy_from_slice(&raw);
    let crc = crc::Crc::<u16>::new(&crc::CRC_16_USB).checksum(&raw);
    bytes[STORE_SIZE - 2..].copy_from_slice(&crc.to_le_bytes());
    assert!(accepts_frame(&bytes, crc));
    let loaded = Store::from_bytes(bytes).ok().unwrap();
    assert!(loaded.save().is_none());
    assert_eq!(loaded.version(), 0);
}
