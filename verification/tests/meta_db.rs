use parity_scale_codec::Encode;
use starknet_ff::FieldElement;
use sync_meta::codec::{Felt, TipHash};
use sync_meta::meta::{DbError, MetaDb};
use sync_meta::store::{Column, Db, MetaKey};

fn fresh() -> MetaDb {
    MetaDb::new(Db::new())
}

fn tip(b: u8) -> TipHash {
    TipHash { bytes: [b; 32] }
}

#[test]
fn tips_round_trip_empty() {
    let mut m = fresh();
    m.write_current_syncing_tips(Vec::new()).unwrap();
    assert_eq!(m.current_syncing_tips().unwrap(), Vec::new());
}

#[test]
fn tips_round_trip_order_kept() {
    let mut m = fresh();
    let tips = vec![tip(1), tip(2), tip(3)];
    m.write_current_syncing_tips(tips.clone()).unwrap();
    assert_eq!(m.current_syncing_tips().unwrap(), tips);
}

#[test]
fn tips_duplicates_kept_as_supplied() {
    let mut m = fresh();
    let tips = vec![tip(9), tip(9)];
    m.write_current_syncing_tips(tips.clone()).unwrap();
    assert_eq!(m.current_syncing_tips().unwrap(), tips);
}

#[test]
fn tips_default_is_empty() {
    let m = fresh();
    assert_eq!(m.current_syncing_tips().unwrap(), Vec::new());
}

#[test]
fn tips_write_is_full_overwrite() {
    let mut m = fresh();
    m.write_current_syncing_tips(vec![tip(1), tip(2)]).unwrap();
    m.write_current_syncing_tips(vec![tip(3)]).unwrap();
    assert_eq!(m.current_syncing_tips().unwrap(), vec![tip(3)]);
}

#[test]
fn tips_write_twice_same_as_once() {
    let mut once = fresh();
    let mut twice = fresh();
    let tips = vec![tip(4), tip(5)];
    once.write_current_syncing_tips(tips.clone()).unwrap();
    twice.write_current_syncing_tips(tips.clone()).unwrap();
    twice.write_current_syncing_tips(tips.clone()).unwrap();
    assert_eq!(
        once.current_syncing_tips().unwrap(),
        twice.current_syncing_tips().unwrap()
    );
    assert_eq!(twice.current_syncing_tips().unwrap(), tips);
}

#[test]
fn tips_read_matches_independent_encoding() {
    // Bytes produced straight by the codec, not by the store's own writer,
    // must read back as the same tips.
    let arrays: Vec<[u8; 32]> = vec![[7u8; 32], [8u8; 32]];
    let raw = arrays.encode();
    let mut db = Db::new();
    db.put_cf(Column::Meta, MetaKey::CurrentSyncingTips, raw);
    let m = MetaDb::new(db);
    assert_eq!(m.current_syncing_tips().unwrap(), vec![tip(7), tip(8)]);
}

#[test]
fn tips_read_matches_hand_laid_bytes() {
    // A count of two in the one-byte compact form (2 shifted left twice),
    // then two 32-byte identifiers.
    let mut raw = vec![8u8];
    raw.extend_from_slice(&[7u8; 32]);
    raw.extend_from_slice(&[8u8; 32]);
    let mut db = Db::new();
    db.put_cf(Column::Meta, MetaKey::CurrentSyncingTips, raw);
    let m = MetaDb::new(db);
    assert_eq!(m.current_syncing_tips().unwrap(), vec![tip(7), tip(8)]);
}

#[test]
fn tips_read_matches_hand_laid_two_byte_count() {
    // A count of 64 needs the two-byte compact form: 64 shifted left twice,
    // low bits 01, little-endian.
    let mut raw = vec![0x01u8, 0x01u8];
    for _ in 0..64 {
        raw.extend_from_slice(&[5u8; 32]);
    }
    let mut db = Db::new();
    db.put_cf(Column::Meta, MetaKey::CurrentSyncingTips, raw);
    let m = MetaDb::new(db);
    assert_eq!(m.current_syncing_tips().unwrap(), vec![tip(5); 64]);
}

#[test]
fn tips_corrupt_bytes_are_a_decode_error() {
    // A count of one tip with no bytes behind it.
    let mut db = Db::new();
    db.put_cf(Column::Meta, MetaKey::CurrentSyncingTips, vec![4u8]);
    let m = MetaDb::new(db);
    assert!(matches!(m.current_syncing_tips(), Err(DbError::Decode)));
}

#[test]
fn height_round_trip() {
    let mut m = fresh();
    m.set_current_sync_block(42).unwrap();
    assert_eq!(m.current_sync_block().unwrap(), 42);
    m.set_current_sync_block(u64::MAX).unwrap();
    assert_eq!(m.current_sync_block().unwrap(), u64::MAX);
}

#[test]
fn height_default_is_zero() {
    let m = fresh();
    assert_eq!(m.current_sync_block().unwrap(), 0);
}

#[test]
fn height_zero_overwrites() {
    let mut m = fresh();
    m.set_current_sync_block(42).unwrap();
    m.set_current_sync_block(0).unwrap();
    assert_eq!(m.current_sync_block().unwrap(), 0);
}

#[test]
fn height_is_stored_big_endian() {
    let mut db = Db::new();
    db.put_cf(
        Column::Meta,
        MetaKey::CurrentSyncBlock,
        vec![0, 0, 0, 0, 0, 0, 1, 2],
    );
    let m = MetaDb::new(db);
    assert_eq!(m.current_sync_block().unwrap(), 258);
}

#[test]
fn height_wrong_length_is_a_format_error() {
    let mut db = Db::new();
    db.put_cf(Column::Meta, MetaKey::CurrentSyncBlock, vec![1, 2, 3]);
    let m = MetaDb::new(db);
    assert!(matches!(m.current_sync_block(), Err(DbError::Format(_))));

    let mut db = Db::new();
    db.put_cf(
        Column::Meta,
        MetaKey::CurrentSyncBlock,
        vec![0, 0, 0, 0, 0, 0, 0, 0, 0],
    );
    let m = MetaDb::new(db);
    assert!(matches!(m.current_sync_block(), Err(DbError::Format(_))));
}

#[test]
fn latest_unwritten_is_an_uninitialized_error() {
    let m = fresh();
    assert!(matches!(
        m.get_latest_block_hash_and_number(),
        Err(DbError::ValueNotInitialized(
            Column::Meta,
            MetaKey::LatestBlockHashAndNumber
        ))
    ));
}

#[test]
fn latest_round_trip() {
    let mut m = fresh();
    let hash = Felt {
        mont: [1, 2, 3, 4],
    };
    m.set_latest_block_hash_and_number(hash, 100).unwrap();
    assert_eq!(m.get_latest_block_hash_and_number().unwrap(), (hash, 100));
}

#[test]
fn latest_overwrite_returns_only_the_new_pair() {
    let mut m = fresh();
    let h3 = Felt {
        mont: [3, 3, 3, 3],
    };
    let h4 = Felt {
        mont: [4, 4, 4, 4],
    };
    m.set_latest_block_hash_and_number(h3, 100).unwrap();
    assert_eq!(m.get_latest_block_hash_and_number().unwrap(), (h3, 100));
    m.set_latest_block_hash_and_number(h4, 101).unwrap();
    assert_eq!(m.get_latest_block_hash_and_number().unwrap(), (h4, 101));
}

#[test]
fn latest_round_trip_through_field_element() {
    // Through the residue conversion: a field element goes in via its
    // montgomery limbs and reconstructs to an equal field element.
    let fe = FieldElement::from(123456789u64);
    let mut m = fresh();
    m.set_latest_block_hash_and_number(Felt { mont: fe.into_mont() }, 7)
        .unwrap();
    let (hash, number) = m.get_latest_block_hash_and_number().unwrap();
    assert_eq!(FieldElement::from_mont(hash.mont), fe);
    assert_eq!(number, 7);
}

#[test]
fn latest_read_matches_independent_encoding() {
    let raw = ([11u64, 12, 13, 14], 99u64).encode();
    let mut db = Db::new();
    db.put_cf(Column::Meta, MetaKey::LatestBlockHashAndNumber, raw);
    let m = MetaDb::new(db);
    let (hash, number) = m.get_latest_block_hash_and_number().unwrap();
    assert_eq!(hash.mont, [11, 12, 13, 14]);
    assert_eq!(number, 99);
}

#[test]
fn latest_short_bytes_are_a_decode_error() {
    let mut db = Db::new();
    db.put_cf(
        Column::Meta,
        MetaKey::LatestBlockHashAndNumber,
        vec![1, 2, 3],
    );
    let m = MetaDb::new(db);
    assert!(matches!(
        m.get_latest_block_hash_and_number(),
        Err(DbError::Decode)
    ));
}

#[test]
fn fields_do_not_disturb_each_other() {
    let mut m = fresh();
    let tips = vec![tip(1), tip(2)];
    m.write_current_syncing_tips(tips.clone()).unwrap();
    m.set_current_sync_block(42).unwrap();
    assert_eq!(m.current_syncing_tips().unwrap(), tips);
    assert_eq!(m.current_sync_block().unwrap(), 42);
    m.set_latest_block_hash_and_number(Felt { mont: [5, 6, 7, 8] }, 100)
        .unwrap();
    assert_eq!(m.current_syncing_tips().unwrap(), tips);
    assert_eq!(m.current_sync_block().unwrap(), 42);
}

#[test]
fn example_scenario() {
    let mut m = fresh();
    let h1 = tip(1);
    let h2 = tip(2);
    m.write_current_syncing_tips(vec![h1, h2]).unwrap();
    assert_eq!(m.current_syncing_tips().unwrap(), vec![h1, h2]);

    m.set_current_sync_block(42).unwrap();
    assert_eq!(m.current_sync_block().unwrap(), 42);
    m.set_current_sync_block(0).unwrap();
    assert_eq!(m.current_sync_block().unwrap(), 0);

    let h3 = Felt {
        mont: [3, 0, 0, 0],
    };
    let h4 = Felt {
        mont: [4, 0, 0, 0],
    };
    m.set_latest_block_hash_and_number(h3, 100).unwrap();
    assert_eq!(m.get_latest_block_hash_and_number().unwrap(), (h3, 100));
    m.set_latest_block_hash_and_number(h4, 101).unwrap();
    let read = m.get_latest_block_hash_and_number().unwrap();
    assert_eq!(read, (h4, 101));
    assert_ne!(read, (h3, 100));
}
