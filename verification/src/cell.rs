//! Cell framing: the signed 32-bit size prefix, the allocation bit, the
//! two-byte type signature, and dispatch to the variant parsers.

use vstd::prelude::*;
use vstd::slice::slice_index_get;
use vstd::string::StringExecFns;
use crate::db::DataBlock;
use crate::errors::ErrorKind;
use crate::errors::RegError;
use crate::lf::FastLeaf;
use crate::lh::HashLeaf;
use crate::li::IndexLeaf;
use crate::nk::NodeKey;
use crate::ri::RootIndex;
use crate::sk::SecurityKey;
use crate::utils;
use crate::utils::le_u16_spec;
use crate::utils::le_u32_spec;
use crate::utils::i32_of_u32_spec;
use crate::vk::ValueKey;

verus! {

/// The signed cell size stored at absolute offset `off` of the hive bytes.
pub open spec fn cell_size_of(h: Seq<u8>, off: int) -> i32
    recommends
        0 <= off,
        off + 4 <= h.len(),
{
    i32_of_u32_spec(le_u32_spec(h, off))
}

/// The absolute value of the cell size: the cell's total extent in bytes,
/// including the 4-byte size prefix itself.
pub open spec fn cell_abs_size(h: Seq<u8>, off: int) -> int {
    if cell_size_of(h, off) < 0 {
        -(cell_size_of(h, off) as int)
    } else {
        cell_size_of(h, off) as int
    }
}

/// Whether a well-formed cell starts at absolute offset `off`: the size field
/// is readable, non-zero, a multiple of 8, not the unrepresentable minimum,
/// and the whole cell lies inside the hive bytes.
pub open spec fn cell_framing_ok(h: Seq<u8>, off: int) -> bool {
    &&& 0 <= off
    &&& off + 4 <= h.len()
    &&& cell_size_of(h, off) != 0
    &&& cell_size_of(h, off) != i32::MIN
    &&& cell_abs_size(h, off) % 8 == 0
    &&& off + cell_abs_size(h, off) <= h.len()
}

/// The cell's payload: everything after the 4-byte size prefix.
pub open spec fn cell_payload(h: Seq<u8>, off: int) -> Seq<u8>
    recommends
        cell_framing_ok(h, off),
{
    h.subrange(off + 4, off + cell_abs_size(h, off))
}

/// Law: every framed cell has a non-zero size that is a multiple of 8: an
/// allocated cell has a negative size whose absolute value is a multiple of
/// 8, and a free cell a positive size that is a multiple of 8. The premises
/// are exactly what `Cell::at_offset` guarantees of an accepted cell.
pub proof fn lemma_cell_size_invariant(c: Cell, h: Seq<u8>, off: int)
    requires
        c.matches(h, off),
        cell_framing_ok(h, off),
    ensures
        c.size != 0,
        c.size < 0 ==> (-(c.size as int)) % 8 == 0,
        c.size > 0 ==> (c.size as int) % 8 == 0,
{
}

/// A two-byte cell type signature.
#[derive(Debug)]
pub struct CellSignature(pub u16);

impl CellSignature {
    pub fn new(value: u16) -> (r: CellSignature)
        ensures
            r.0 == value,
    {
        CellSignature(value)
    }

    /// The mnemonic for a known signature, or `0x` and four lowercase hex
    /// digits for an unknown one.
    pub open spec fn as_string_spec(&self) -> Seq<char> {
        match self.0 {
            26220u16 => "lf"@,
            26732u16 => "lh"@,
            26988u16 => "li"@,
            26994u16 => "ri"@,
            27502u16 => "nk"@,
            27507u16 => "sk"@,
            27510u16 => "vk"@,
            25188u16 => "db"@,
            _ => "0x"@ + utils::hex_u16_lower(self.0),
        }
    }

    pub fn as_string(&self) -> (r: String)
        ensures
            r@ == self.as_string_spec(),
    {
        match self.0 {
            26220u16 => "lf".to_owned(),
            26732u16 => "lh".to_owned(),
            26988u16 => "li".to_owned(),
            26994u16 => "ri".to_owned(),
            27502u16 => "nk".to_owned(),
            27507u16 => "sk".to_owned(),
            27510u16 => "vk".to_owned(),
            25188u16 => "db".to_owned(),
            _ => {
                let mut out = "0x".to_owned();
                utils::push_hex_u16_lower(&mut out, self.0);
                out
            },
        }
    }

    pub fn as_u16(&self) -> (r: u16)
        ensures
            r == self.0,
    {
        self.0
    }
}

/// A parsed cell payload: one variant per recognized type signature, plus
/// raw bytes for everything else.
#[derive(Debug)]
pub enum CellData {
    Raw(Vec<u8>),
    IndexLeaf(IndexLeaf),
    FastLeaf(FastLeaf),
    HashLeaf(HashLeaf),
    RootIndex(RootIndex),
    NodeKey(NodeKey),
    ValueKey(ValueKey),
    SecurityKey(SecurityKey),
    DataBlock(DataBlock),
}

/// Whether `s` selects one of the recognized cell type signatures.
pub open spec fn known_signature(s: u16) -> bool {
    s == 26220 || s == 26732 || s == 26988 || s == 26994 || s == 27502 || s == 27507 || s == 27510
        || s == 25188
}

/// Whether the payload `b` parses under the variant its signature selects.
pub open spec fn cell_data_parses(b: Seq<u8>) -> bool {
    match le_u16_spec(b, 0) {
        26220u16 => crate::lf::lf_parses(b),
        26732u16 => crate::lh::lh_parses(b),
        26988u16 => crate::li::li_parses(b),
        26994u16 => crate::ri::ri_parses(b),
        27502u16 => crate::nk::nk_parses(b),
        27507u16 => crate::sk::sk_parses(b),
        27510u16 => crate::vk::vk_parses(b),
        25188u16 => crate::db::db_parses(b),
        _ => true,
    }
}

/// Whether `cd` is the freshly parsed decoding of the payload `b`: the
/// variant selected by the signature, its fields decoded from `b`, and every
/// cursor and side structure still in its initial state.
pub open spec fn cell_data_matches(cd: CellData, b: Seq<u8>) -> bool {
    match cd {
        CellData::Raw(v) => !known_signature(le_u16_spec(b, 0)) && v@ == b,
        CellData::FastLeaf(x) => le_u16_spec(b, 0) == 26220 && x.matches(b) && x.next_index == 0,
        CellData::HashLeaf(x) => le_u16_spec(b, 0) == 26732 && x.matches(b) && x.next_index == 0,
        CellData::IndexLeaf(x) => le_u16_spec(b, 0) == 26988 && x.matches(b) && x.next_index == 0,
        CellData::RootIndex(x) => le_u16_spec(b, 0) == 26994 && x.matches(b) && x.next_index == 0
            && x.current_cell_data is None,
        CellData::NodeKey(x) => le_u16_spec(b, 0) == 27502 && x.matches(b)
            && x.value_key_list is None && x.sub_key_list is None && x.security_key is None,
        CellData::SecurityKey(x) => le_u16_spec(b, 0) == 27507 && x.matches(b),
        CellData::ValueKey(x) => le_u16_spec(b, 0) == 27510 && x.matches(b) && x.data@
            == Seq::<u8>::empty(),
        CellData::DataBlock(x) => le_u16_spec(b, 0) == 25188 && x.matches(b),
    }
}

/// A framed cell: its absolute offset, signed size and raw payload bytes.
#[derive(Debug)]
pub struct Cell {
    pub _offset: u64,
    pub size: i32,
    pub data: Vec<u8>,
}

impl Cell {
    /// Whether this cell's fields are the decoding of the cell starting at
    /// absolute offset `off` of the hive bytes.
    pub open spec fn matches(&self, h: Seq<u8>, off: int) -> bool {
        &&& self.size == cell_size_of(h, off)
        &&& self.data@ == cell_payload(h, off)
    }

    /// Read the cell starting at absolute offset `offset`. Fails with a
    /// validation error when no well-formed cell starts there.
    pub fn at_offset(hive: &[u8], offset: u64) -> (r: Result<Cell, RegError>)
        ensures
            r is Ok <==> cell_framing_ok(hive@, offset as int),
            r matches Ok(c) ==> c.matches(hive@, offset as int) && c._offset == offset,
            r matches Err(e) ==> e.kind == ErrorKind::ValidationError,
    {
        let len: usize = hive.len();
        if offset > u64::MAX - 4 || offset + 4 > len as u64 {
            return Err(RegError::validation_error("cell size prefix out of range".to_owned()));
        }
        let off: usize = offset as usize;
        let size = utils::read_i32_le(hive, off);
        if size == 0 || size == i32::MIN {
            return Err(RegError::validation_error("cell size is not usable".to_owned()));
        }
        let abs: u32 = if size < 0 {
            (-(size as i64)) as u32
        } else {
            size as u32
        };
        if abs % 8 != 0 {
            return Err(RegError::validation_error("cell size is not a multiple of 8".to_owned()));
        }
        if abs as u64 > len as u64 - offset {
            return Err(RegError::validation_error("cell extends past the hive bytes".to_owned()));
        }
        let data = utils::copy_range(hive, off + 4, off + abs as usize);
        Ok(Cell { _offset: offset, size, data })
    }

    /// Read the cell starting at the beginning of `buffer`.
    pub fn new(buffer: &[u8]) -> (r: Result<Cell, RegError>)
        ensures
            r is Ok <==> cell_framing_ok(buffer@, 0),
            r matches Ok(c) ==> c.matches(buffer@, 0) && c._offset == 0,
            r matches Err(e) ==> e.kind == ErrorKind::ValidationError,
    {
        Cell::at_offset(buffer, 0)
    }

    /// The two-byte type signature at the start of the payload.
    pub fn get_signature(&self) -> (r: CellSignature)
        requires
            self.data@.len() >= 2,
        ensures
            r.0 == le_u16_spec(self.data@, 0),
    {
        CellSignature::new(utils::read_u16_le(self.data.as_slice(), 0))
    }

    /// Parse the payload under the variant its signature selects. Unknown
    /// signatures degrade to raw bytes rather than failing.
    pub fn get_data(&self) -> (r: Result<CellData, RegError>)
        requires
            self.data@.len() >= 2,
            self._offset + 4 <= u64::MAX,
        ensures
            r is Ok <==> cell_data_parses(self.data@),
            r matches Ok(cd) ==> cell_data_matches(cd, self.data@),
            r matches Err(e) ==> e.kind == ErrorKind::ValidationError || e.kind
                == ErrorKind::SecDescParseError || e.kind == ErrorKind::UnknownAceType,
            r matches Err(e) ==> ((e.kind == ErrorKind::SecDescParseError || e.kind
                == ErrorKind::UnknownAceType) <==> (le_u16_spec(self.data@, 0) == 27507
                && self.data@.len() >= 20)),
    {
        let payload = self.data.as_slice();
        let payload_offset: u64 = self._offset + 4;
        match self.get_signature().as_u16() {
            26220u16 => Ok(CellData::FastLeaf(FastLeaf::new(payload, payload_offset)?)),
            26732u16 => Ok(CellData::HashLeaf(HashLeaf::new(payload, payload_offset)?)),
            26988u16 => Ok(CellData::IndexLeaf(IndexLeaf::new(payload, payload_offset)?)),
            26994u16 => Ok(CellData::RootIndex(RootIndex::new(payload, payload_offset)?)),
            27502u16 => Ok(CellData::NodeKey(NodeKey::new(payload, payload_offset)?)),
            27507u16 => Ok(CellData::SecurityKey(SecurityKey::new(payload, payload_offset)?)),
            27510u16 => Ok(CellData::ValueKey(ValueKey::new(payload, payload_offset)?)),
            25188u16 => Ok(CellData::DataBlock(DataBlock::new(payload, payload_offset)?)),
            _ => {
                let len: usize = self.data.len();
                let raw = utils::copy_range(payload, 0, len);
                proof {
                    assert(raw@ =~= self.data@);
                }
                Ok(CellData::Raw(raw))
            },
        }
    }

    /// The payload as raw bytes, regardless of its signature.
    pub fn get_raw_data(&self) -> (r: CellData)
        ensures
            r matches CellData::Raw(v) && v@ == self.data@,
    {
        let len: usize = self.data.len();
        CellData::Raw(utils::copy_range(self.data.as_slice(), 0, len))
    }
}

} // verus!
