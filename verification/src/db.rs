//! The `db` big-data block: a segment count and a pointer to a list of
//! segment offsets whose raw cells are concatenated into one payload.

use vstd::prelude::*;
use vstd::string::StringExecFns;
use crate::errors::ErrorKind;
use crate::errors::RegError;
use crate::utils;
use crate::utils::le_u16_spec;
use crate::utils::le_u32_spec;

verus! {

/// Whether a big-data header fits in `b`.
pub open spec fn db_parses(b: Seq<u8>) -> bool {
    b.len() >= 8
}

/// Whether the segment-offset list the block points at lies inside the hive
/// bytes. The list sits in a raw cell whose 4-byte size prefix is skipped.
pub open spec fn db_list_ok(h: Seq<u8>, db: DataBlock) -> bool {
    4096 + db.segments_offset + 4 + 4 * (db.segment_count as int) <= h.len()
}

/// The segment offsets the block's list holds.
pub open spec fn db_segment_offsets(h: Seq<u8>, db: DataBlock) -> Seq<u32> {
    Seq::new(
        db.segment_count as nat,
        |i: int| le_u32_spec(h, 4096 + db.segments_offset + 4 + 4 * i),
    )
}

/// Whether every listed segment offset frames a cell.
pub open spec fn db_segments_ok(h: Seq<u8>, db: DataBlock) -> bool {
    forall|i: int|
        0 <= i < db.segment_count ==> crate::cell::cell_framing_ok(
            h,
            4096 + #[trigger] db_segment_offsets(h, db)[i],
        )
}

/// The concatenation of the payloads of the cells at `offs`, in order.
pub open spec fn db_concat(h: Seq<u8>, offs: Seq<u32>) -> Seq<u8>
    decreases offs.len(),
{
    if offs.len() == 0 {
        Seq::empty()
    } else {
        db_concat(h, offs.drop_last()) + crate::cell::cell_payload(h, 4096 + offs.last())
    }
}

/// Law: a big-data block with a single segment assembles to exactly the
/// payload of that one referenced raw cell, as if the value had referenced
/// the cell directly.
pub proof fn lemma_single_segment_concat(h: Seq<u8>, db: DataBlock)
    requires
        db.segment_count == 1,
    ensures
        db_concat(h, db_segment_offsets(h, db)) == crate::cell::cell_payload(
            h,
            4096 + db_segment_offsets(h, db)[0],
        ),
{
    let offs = db_segment_offsets(h, db);
    assert(offs.len() == 1);
    assert(offs.drop_last() =~= Seq::<u32>::empty());
    assert(db_concat(h, offs.drop_last()) =~= Seq::<u8>::empty());
    assert(db_concat(h, offs) =~= crate::cell::cell_payload(h, 4096 + offs[0]));
}

/// A big-data block header.
#[derive(Debug)]
pub struct DataBlock {
    pub _offset: u64,
    pub signature: u16,
    pub segment_count: u16,
    pub segments_offset: u32,
}

impl DataBlock {
    /// Whether the parsed fields are the decoding of `b`.
    pub open spec fn matches(&self, b: Seq<u8>) -> bool {
        &&& self.signature == le_u16_spec(b, 0)
        &&& self.segment_count == le_u16_spec(b, 2)
        &&& self.segments_offset == le_u32_spec(b, 4)
    }

    pub fn new(buffer: &[u8], offset: u64) -> (r: Result<DataBlock, RegError>)
        ensures
            r is Ok <==> db_parses(buffer@),
            r matches Ok(x) ==> x.matches(buffer@) && x._offset == offset,
            r matches Err(e) ==> e.kind == ErrorKind::ValidationError,
    {
        let len: usize = buffer.len();
        if len < 8 {
            return Err(RegError::validation_error("big-data header out of range".to_owned()));
        }
        let signature = utils::read_u16_le(buffer, 0);
        let segment_count = utils::read_u16_le(buffer, 2);
        let segments_offset = utils::read_u32_le(buffer, 4);
        Ok(DataBlock { _offset: offset, signature, segment_count, segments_offset })
    }

    /// Assemble the big-data payload: follow the segment list and append the
    /// raw payload of each listed cell in order. The result may carry
    /// trailing slack beyond the value's true size; callers truncate.
    pub fn get_data(&self, hive: &[u8]) -> (r: Result<Vec<u8>, RegError>)
        ensures
            r is Ok <==> db_list_ok(hive@, *self) && db_segments_ok(hive@, *self),
            r matches Ok(v) ==> v@ == db_concat(hive@, db_segment_offsets(hive@, *self)),
            r matches Err(e) ==> e.kind == ErrorKind::ValidationError,
    {
        let len: usize = hive.len();
        let base: u64 = 4096u64 + self.segments_offset as u64 + 4u64;
        if base + 4u64 * self.segment_count as u64 > len as u64 {
            return Err(RegError::validation_error("big-data segment list out of range".to_owned()));
        }
        let count: usize = self.segment_count as usize;
        let mut segments_list: Vec<u32> = Vec::new();
        let mut i: usize = 0;
        while i < count
            invariant
                len == hive@.len(),
                count == self.segment_count,
                db_list_ok(hive@, *self),
                base == 4096 + self.segments_offset + 4,
                i <= count,
                segments_list@.len() == i,
                forall|j: int|
                    0 <= j < i ==> #[trigger] segments_list@[j] == db_segment_offsets(
                        hive@,
                        *self,
                    )[j],
            decreases count - i,
        {
            let off: usize = (base + 4u64 * i as u64) as usize;
            let element = utils::read_u32_le(hive, off);
            segments_list.push(element);
            i += 1;
        }
        proof {
            assert(segments_list@ =~= db_segment_offsets(hive@, *self));
        }
        let mut raw_data: Vec<u8> = Vec::new();
        let mut k: usize = 0;
        while k < count
            invariant
                len == hive@.len(),
                count == self.segment_count,
                segments_list@ == db_segment_offsets(hive@, *self),
                segments_list@.len() == count,
                k <= count,
                raw_data@ == db_concat(hive@, segments_list@.take(k as int)),
                forall|j: int|
                    0 <= j < k ==> crate::cell::cell_framing_ok(
                        hive@,
                        4096 + #[trigger] segments_list@[j],
                    ),
            decreases count - k,
        {
            let seg: u32 = segments_list[k];
            let mut cell = crate::cell::Cell::at_offset(
                hive,
                crate::hive::HBIN_START_OFFSET + seg as u64,
            )?;
            raw_data.append(&mut cell.data);
            k += 1;
            proof {
                assert(segments_list@.take(k as int).drop_last() =~= segments_list@.take(
                    k - 1,
                ));
                assert(raw_data@ == db_concat(hive@, segments_list@.take(k as int)));
            }
        }
        proof {
            assert(segments_list@.take(count as int) =~= segments_list@);
        }
        Ok(raw_data)
    }
}

} // verus!
