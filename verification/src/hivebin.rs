//! Hive bins: fixed-size containers holding a contiguous run of cells.

use vstd::prelude::*;
use vstd::slice::slice_subrange;
use vstd::string::StringExecFns;
use crate::cell::Cell;
use crate::cell::cell_abs_size;
use crate::cell::cell_framing_ok;
use crate::errors::ErrorKind;
use crate::errors::RegError;
use crate::utils;
use crate::utils::le_u32_spec;
use crate::utils::le_u64_spec;

verus! {

/// The `hbin` signature every hive bin must carry.
pub const HBIN_SIGNATURE: u32 = 0x6E696268;

/// Whether a hive-bin header parses at absolute offset `off`: the 32 header
/// bytes are readable, the signature matches, and the stored size is a
/// non-zero multiple of 4096.
pub open spec fn hb_parses(h: Seq<u8>, off: int) -> bool {
    &&& 0 <= off
    &&& off + 32 <= h.len()
    &&& le_u32_spec(h, off) == HBIN_SIGNATURE
    &&& le_u32_spec(h, off + 8) != 0
    &&& le_u32_spec(h, off + 8) % 4096 == 0
}

/// A hive-bin header.
#[derive(Debug)]
pub struct HiveBinHeader {
    pub _offset: u64,
    pub signature: u32,
    pub hb_offset: u32,
    pub size: u32,
    pub reserved1: u64,
    pub timestamp: u64,
    pub spare: u32,
}

impl HiveBinHeader {
    /// Whether the parsed fields are the decoding of the header at `off`.
    pub open spec fn matches(&self, h: Seq<u8>, off: int) -> bool {
        &&& self.signature == le_u32_spec(h, off)
        &&& self.hb_offset == le_u32_spec(h, off + 4)
        &&& self.size == le_u32_spec(h, off + 8)
        &&& self.reserved1 == le_u64_spec(h, off + 12)
        &&& self.timestamp == le_u64_spec(h, off + 20)
        &&& self.spare == le_u32_spec(h, off + 28)
    }

    /// Parse and validate the 32-byte bin header at `offset`.
    pub fn new(hive: &[u8], offset: u64) -> (r: Result<HiveBinHeader, RegError>)
        ensures
            r is Ok <==> hb_parses(hive@, offset as int),
            r matches Ok(x) ==> x.matches(hive@, offset as int) && x._offset == offset,
            r matches Err(e) ==> e.kind == ErrorKind::ValidationError,
    {
        let len: usize = hive.len();
        if offset > u64::MAX - 32 || offset + 32 > len as u64 {
            return Err(RegError::validation_error("hive bin header out of range".to_owned()));
        }
        let off: usize = offset as usize;
        let signature = utils::read_u32_le(hive, off);
        if signature != HBIN_SIGNATURE {
            return Err(RegError::validation_error("hive bin signature mismatch".to_owned()));
        }
        let hb_offset = utils::read_u32_le(hive, off + 4);
        let size = utils::read_u32_le(hive, off + 8);
        if size == 0 || size % 4096 != 0 {
            return Err(
                RegError::validation_error("hive bin size is not a multiple of 4096".to_owned()),
            );
        }
        let reserved1 = utils::read_u64_le(hive, off + 12);
        let timestamp = utils::read_u64_le(hive, off + 20);
        let spare = utils::read_u32_le(hive, off + 28);
        Ok(HiveBinHeader { _offset: offset, signature, hb_offset, size, reserved1, timestamp, spare })
    }

    pub fn get_size(&self) -> (r: u32)
        ensures
            r == self.size,
    {
        self.size
    }
}

/// Law: every successfully parsed hive-bin header carries the `hbin`
/// signature and a size that is a non-zero multiple of 4096. The premises
/// are exactly what `HiveBinHeader::new` guarantees of an accepted header.
pub proof fn lemma_hivebin_header_invariant(hb: HiveBinHeader, h: Seq<u8>, off: int)
    requires
        hb.matches(h, off),
        hb_parses(h, off),
    ensures
        hb.signature == HBIN_SIGNATURE,
        hb.size % 4096 == 0,
        hb.size != 0,
{
}

/// The offsets, within a bin's cells region, at which the sequential cell
/// scan frames a cell; the scan stops at the first framing failure.
pub open spec fn cell_run(region: Seq<u8>, pos: int) -> Seq<int>
    decreases region.len() - pos,
    when 0 <= pos <= region.len()
{
    if !cell_framing_ok(region, pos) {
        Seq::empty()
    } else {
        seq![pos] + cell_run(region, pos + cell_abs_size(region, pos))
    }
}

/// A hive bin: its header and the cells framed from its cells region.
#[derive(Debug)]
pub struct HiveBin {
    pub _offset: u64,
    pub header: HiveBinHeader,
    pub cells: Vec<Cell>,
}

impl HiveBin {
    /// Whether the framed cells are the full sequential scan of `region`.
    pub open spec fn cells_match(&self, region: Seq<u8>) -> bool {
        &&& self.cells@.len() == cell_run(region, 0).len()
        &&& forall|i: int|
            0 <= i < self.cells@.len() ==> (#[trigger] self.cells@[i]).matches(
                region,
                cell_run(region, 0)[i],
            )
    }

    /// Read the bin at absolute offset `offset`: its header, then every cell
    /// the sequential scan can frame. A framing failure inside the bin ends
    /// the scan without failing the bin.
    #[verifier::rlimit(60)]
    pub fn new(hive: &[u8], offset: u64) -> (r: Result<HiveBin, RegError>)
        ensures
            r is Ok <==> hb_parses(hive@, offset as int) && offset + le_u32_spec(
                hive@,
                offset as int + 8,
            ) <= hive@.len(),
            r matches Ok(x) ==> x.header.matches(hive@, offset as int) && x._offset == offset
                && x.cells_match(
                hive@.subrange(
                    offset + 32,
                    offset + le_u32_spec(hive@, offset as int + 8),
                ),
            ),
            r matches Err(e) ==> e.kind == ErrorKind::ValidationError,
    {
        let len: usize = hive.len();
        let header = HiveBinHeader::new(hive, offset)?;
        let size: u32 = header.get_size();
        if size as u64 > len as u64 - offset {
            return Err(RegError::validation_error("hive bin extends past the hive".to_owned()));
        }
        let off: usize = offset as usize;
        let region = slice_subrange(hive, off + 32, off + size as usize);
        let region_len: usize = region.len();
        let mut cells: Vec<Cell> = Vec::new();
        let mut pos: usize = 0;
        let ghost mut offs: Seq<int> = Seq::empty();
        loop
            invariant
                region_len == region@.len(),
                0 <= pos <= region_len,
                offs.len() == cells@.len(),
                cell_run(region@, 0) == offs + cell_run(region@, pos as int),
                forall|i: int|
                    0 <= i < cells@.len() ==> (#[trigger] cells@[i]).matches(region@, offs[i]),
            ensures
                offs.len() == cells@.len(),
                cell_run(region@, 0) == offs + cell_run(region@, pos as int),
                cell_run(region@, pos as int) == Seq::<int>::empty(),
                forall|i: int|
                    0 <= i < cells@.len() ==> (#[trigger] cells@[i]).matches(region@, offs[i]),
            decreases region_len - pos,
        {
            match Cell::at_offset(region, pos as u64) {
                Ok(cell) => {
                    let ghost prev_pos = pos as int;
                    let ghost prev_offs = offs;
                    let abs: u32 = if cell.size < 0 {
                        (-(cell.size as i64)) as u32
                    } else {
                        cell.size as u32
                    };
                    proof {
                        assert(abs == cell_abs_size(region@, prev_pos));
                    }
                    cells.push(cell);
                    pos = pos + abs as usize;
                    proof {
                        offs = offs.push(prev_pos);
                        let runn = cell_run(region@, pos as int);
                        assert(cell_run(region@, prev_pos) == seq![prev_pos] + runn);
                        assert(prev_offs + (seq![prev_pos] + runn) =~= offs + runn);
                    }
                },
                Err(_) => {
                    proof {
                        assert(cell_run(region@, pos as int) =~= Seq::<int>::empty());
                    }
                    break ;
                },
            }
        }
        proof {
            assert(cell_run(region@, 0) =~= offs + cell_run(region@, pos as int));
            assert forall|i: int| 0 <= i < cells@.len() implies (#[trigger] cells@[i]).matches(
                region@,
                cell_run(region@, 0)[i],
            ) by {
                assert(cell_run(region@, 0)[i] == offs[i]);
            }
        }
        proof {
            assert(region@ =~= hive@.subrange(
                offset + 32,
                offset + le_u32_spec(hive@, offset as int + 8),
            ));
        }
        Ok(HiveBin { _offset: offset, header, cells })
    }

    /// Read the bin that follows this one.
    pub fn next(&self, hive: &[u8]) -> (r: Result<HiveBin, RegError>)
        requires
            self._offset + self.header.size <= u64::MAX,
        ensures
            r is Ok <==> hb_parses(hive@, self._offset + self.header.size)
                && self._offset + self.header.size + le_u32_spec(
                hive@,
                self._offset + self.header.size + 8,
            ) <= hive@.len(),
            r matches Ok(x) ==> x._offset == self._offset + self.header.size && x.header.matches(
                hive@,
                self._offset + self.header.size,
            ) && x.cells_match(
                hive@.subrange(
                    self._offset + self.header.size + 32,
                    self._offset + self.header.size + le_u32_spec(
                        hive@,
                        self._offset + self.header.size + 8,
                    ),
                ),
            ),
            r matches Err(e) ==> e.kind == ErrorKind::ValidationError,
    {
        let next_offset: u64 = self._offset + self.header.size as u64;
        HiveBin::new(hive, next_offset)
    }

    pub fn get_size(&self) -> (r: u32)
        ensures
            r == self.header.size,
    {
        self.header.get_size()
    }
}

} // verus!
