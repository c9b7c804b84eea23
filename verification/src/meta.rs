//! The sync metadata accessors: typed get/set pairs over the meta column for
//! the syncing tips, the sync height, and the latest block's hash and height.
//! Each field has its own encoding, default-on-absence policy and failure
//! behavior; every write is a full overwrite.

use vstd::prelude::*;

use crate::codec::{
    spec_latest_decoded, spec_latest_encoding, spec_tip_bytes, spec_tips_decode,
    spec_tips_encoding, spec_u64_be, spec_u64_from_be, u64_from_be_slice, u64_to_be_vec, Felt,
    TipHash,
};
use crate::codec::{lemma_latest_decoded_unique, lemma_latest_round_trip, lemma_tip_bytes_injective,
    lemma_tips_round_trip, lemma_u64_be_round_trip};
use crate::scale::{scale_decode_latest, scale_decode_tips, scale_encode_latest, scale_encode_tips};
use crate::store::{Column, Db, MetaKey};

verus! {

/// Failures of the sync metadata store. Errors are returned to the caller,
/// never swallowed, and no default is ever substituted for corrupt bytes.
#[derive(PartialEq, Eq, Debug)]
pub enum DbError {
    /// Stored bytes do not match the field's sequence or pair encoding.
    Decode,
    /// A fixed-width field has the wrong length on read; the text names the
    /// expected shape.
    Format(&'static str),
    /// The named key of the named column was never written, for a field that
    /// has no default.
    ValueNotInitialized(Column, MetaKey),
}

/// Typed access to the sync metadata held in the meta column of the store.
///
/// The tips and height fields default to empty and zero before any write;
/// the latest-hash-and-number field has no default and reading it before a
/// write is an error. The store checks no ordering of heights and neither
/// sorts nor deduplicates tips: both are the caller's obligations.
pub struct MetaDb {
    db: Db,
}

impl View for MetaDb {
    type V = Map<MetaKey, Seq<u8>>;

    /// The raw bytes stored under each meta key.
    closed spec fn view(&self) -> Map<MetaKey, Seq<u8>> {
        self.db@
    }
}

impl MetaDb {
    /// The wrapped store keeps at most one value per key.
    pub closed spec fn wf(&self) -> bool {
        self.db.wf()
    }

    /// Wrap a store handle.
    pub fn new(db: Db) -> (r: MetaDb)
        requires
            db.wf(),
        ensures
            r.wf(),
            r@ == db@,
    {
        MetaDb { db }
    }

    /// Retrieve the current tips of the synced chain: the empty sequence if
    /// none were ever written, the decoded stored sequence otherwise, and a
    /// decode error exactly when the stored bytes are malformed.
    pub fn current_syncing_tips(&self) -> (r: Result<Vec<TipHash>, DbError>)
        requires
            self.wf(),
        ensures
            match r {
                Ok(tips) => if self@.contains_key(MetaKey::CurrentSyncingTips) {
                    spec_tips_decode(self@[MetaKey::CurrentSyncingTips]) == Some(
                        spec_tip_bytes(tips@),
                    )
                } else {
                    tips@ == Seq::<TipHash>::empty()
                },
                Err(e) => e is Decode && self@.contains_key(MetaKey::CurrentSyncingTips)
                    && spec_tips_decode(self@[MetaKey::CurrentSyncingTips]) is None,
            },
    {
        match self.db.get_cf(Column::Meta, MetaKey::CurrentSyncingTips) {
            Some(raw) => match scale_decode_tips(raw) {
                Ok(tips) => Ok(tips),
                Err(_) => Err(DbError::Decode),
            },
            None => Ok(Vec::new()),
        }
    }

    /// Store the current tips of the synced chain, overwriting whatever the
    /// key held. The count must fit the encoding's 32-bit length prefix.
    pub fn write_current_syncing_tips(&mut self, tips: Vec<TipHash>) -> (r: Result<(), DbError>)
        requires
            old(self).wf(),
            tips@.len() <= u32::MAX,
        ensures
            final(self).wf(),
            r is Ok,
            final(self)@ == old(self)@.insert(
                MetaKey::CurrentSyncingTips,
                spec_tips_encoding(spec_tip_bytes(tips@)),
            ),
    {
        let encoded = scale_encode_tips(&tips);
        self.db.put_cf(Column::Meta, MetaKey::CurrentSyncingTips, encoded);
        Ok(())
    }

    /// Retrieve the height up to which historical sync has progressed: zero
    /// if never written, the stored 8-byte big-endian value otherwise, and a
    /// format error exactly when the stored value is not 8 bytes long.
    pub fn current_sync_block(&self) -> (r: Result<u64, DbError>)
        requires
            self.wf(),
        ensures
            match r {
                Ok(height) => if self@.contains_key(MetaKey::CurrentSyncBlock) {
                    self@[MetaKey::CurrentSyncBlock].len() == 8 && height == spec_u64_from_be(
                        self@[MetaKey::CurrentSyncBlock],
                    )
                } else {
                    height == 0
                },
                Err(e) => e is Format && self@.contains_key(MetaKey::CurrentSyncBlock)
                    && self@[MetaKey::CurrentSyncBlock].len() != 8,
            },
    {
        match self.db.get_cf(Column::Meta, MetaKey::CurrentSyncBlock) {
            Some(raw) => if raw.len() == 8 {
                Ok(u64_from_be_slice(raw.as_slice()))
            } else {
                Err(DbError::Format("current sync block should be a u64"))
            },
            None => Ok(0),
        }
    }

    /// Store the sync height as 8 big-endian bytes, overwriting whatever the
    /// key held. Any value is accepted; advancing monotonically is the
    /// caller's obligation.
    pub fn set_current_sync_block(&mut self, sync_block: u64) -> (r: Result<(), DbError>)
        requires
            old(self).wf(),
        ensures
            final(self).wf(),
            r is Ok,
            final(self)@ == old(self)@.insert(MetaKey::CurrentSyncBlock, spec_u64_be(sync_block)),
    {
        let encoded = u64_to_be_vec(sync_block);
        self.db.put_cf(Column::Meta, MetaKey::CurrentSyncBlock, encoded);
        Ok(())
    }

    /// Retrieve the latest block's hash and height. Absence is an error
    /// naming the column and key — a fresh store has no latest block and no
    /// default is fabricated — and stored bytes shorter than the pair's 40
    /// bytes are a decode error.
    pub fn get_latest_block_hash_and_number(&self) -> (r: Result<(Felt, u64), DbError>)
        requires
            self.wf(),
        ensures
            match r {
                Ok(p) => self@.contains_key(MetaKey::LatestBlockHashAndNumber)
                    && spec_latest_decoded(self@[MetaKey::LatestBlockHashAndNumber], p.0, p.1),
                Err(e) => match e {
                    DbError::ValueNotInitialized(c, k) => c == Column::Meta && k
                        == MetaKey::LatestBlockHashAndNumber && !self@.contains_key(
                        MetaKey::LatestBlockHashAndNumber,
                    ),
                    DbError::Decode => self@.contains_key(MetaKey::LatestBlockHashAndNumber)
                        && self@[MetaKey::LatestBlockHashAndNumber].len() < 40,
                    _ => false,
                },
            },
    {
        match self.db.get_cf(Column::Meta, MetaKey::LatestBlockHashAndNumber) {
            Some(raw) => match scale_decode_latest(raw) {
                Ok(p) => Ok(p),
                Err(_) => Err(DbError::Decode),
            },
            None => Err(
                DbError::ValueNotInitialized(Column::Meta, MetaKey::LatestBlockHashAndNumber),
            ),
        }
    }

    /// Store the latest block's hash, in its residue form, paired with its
    /// height, overwriting whatever the key held.
    pub fn set_latest_block_hash_and_number(&mut self, hash: Felt, number: u64) -> (r: Result<
        (),
        DbError,
    >)
        requires
            old(self).wf(),
        ensures
            final(self).wf(),
            r is Ok,
            final(self)@ == old(self)@.insert(
                MetaKey::LatestBlockHashAndNumber,
                spec_latest_encoding(hash, number),
            ),
    {
        let encoded = scale_encode_latest(&hash, number);
        self.db.put_cf(Column::Meta, MetaKey::LatestBlockHashAndNumber, encoded);
        Ok(())
    }
}

// ---------------------------------------------------------------------------
// Laws relating the writes to the reads, stated over the same spec functions
// that the accessors' contracts use.
// ---------------------------------------------------------------------------

/// Law: after writing a tips sequence, whatever a read decodes back is that
/// sequence, in the same order — for any store content and any sequence,
/// the empty one included.
pub proof fn lemma_tips_write_then_read(
    m: Map<MetaKey, Seq<u8>>,
    written: Seq<TipHash>,
    read: Seq<TipHash>,
)
    requires
        written.len() <= u32::MAX,
        spec_tips_decode(
            m.insert(
                MetaKey::CurrentSyncingTips,
                spec_tips_encoding(spec_tip_bytes(written)),
            )[MetaKey::CurrentSyncingTips],
        ) == Some(spec_tip_bytes(read)),
    ensures
        read == written,
{
    assert(forall|i: int|
        0 <= i < spec_tip_bytes(written).len() ==> #[trigger] spec_tip_bytes(written)[i].len()
            == 32);
    lemma_tips_round_trip(spec_tip_bytes(written));
    lemma_tip_bytes_injective(read, written);
}

/// Law: after writing a height, a read finds exactly 8 bytes and they read
/// back as the height written — for any store content and any 64-bit value.
pub proof fn lemma_height_write_then_read(m: Map<MetaKey, Seq<u8>>, height: u64)
    ensures
        m.insert(MetaKey::CurrentSyncBlock, spec_u64_be(height))[MetaKey::CurrentSyncBlock].len()
            == 8,
        spec_u64_from_be(
            m.insert(MetaKey::CurrentSyncBlock, spec_u64_be(height))[MetaKey::CurrentSyncBlock],
        ) == height,
{
    lemma_u64_be_round_trip(height);
}

/// Law: after writing a hash-and-height pair, whatever a read decodes back
/// is that hash and that height, through the residue form — for any store
/// content and any pair.
pub proof fn lemma_latest_write_then_read(
    m: Map<MetaKey, Seq<u8>>,
    hash: Felt,
    number: u64,
    read_hash: Felt,
    read_number: u64,
)
    requires
        spec_latest_decoded(
            m.insert(
                MetaKey::LatestBlockHashAndNumber,
                spec_latest_encoding(hash, number),
            )[MetaKey::LatestBlockHashAndNumber],
            read_hash,
            read_number,
        ),
    ensures
        read_hash == hash,
        read_number == number,
{
    lemma_latest_round_trip(hash, number);
    lemma_latest_decoded_unique(
        spec_latest_encoding(hash, number),
        hash,
        number,
        read_hash,
        read_number,
    );
}

/// Law: writing the same tips sequence twice leaves the store exactly as
/// writing it once does, so a read returns the same result either way.
pub proof fn lemma_tips_write_idempotent(m: Map<MetaKey, Seq<u8>>, tips: Seq<TipHash>)
    ensures
        m.insert(MetaKey::CurrentSyncingTips, spec_tips_encoding(spec_tip_bytes(tips))).insert(
            MetaKey::CurrentSyncingTips,
            spec_tips_encoding(spec_tip_bytes(tips)),
        ) == m.insert(MetaKey::CurrentSyncingTips, spec_tips_encoding(spec_tip_bytes(tips))),
{
    let enc = spec_tips_encoding(spec_tip_bytes(tips));
    assert(m.insert(MetaKey::CurrentSyncingTips, enc).insert(MetaKey::CurrentSyncingTips, enc)
        =~= m.insert(MetaKey::CurrentSyncingTips, enc));
}

} // verus!
