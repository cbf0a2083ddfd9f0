//! The `vk` value key: a named, typed value, with inline or referenced data,
//! and the value list that owns a node's values.

use vstd::prelude::*;
use vstd::slice::slice_subrange;
use vstd::string::StringExecFns;
use crate::cell::Cell;
use crate::cell::CellData;
use crate::hive::HBIN_START_OFFSET;
use crate::errors::ErrorKind;
use crate::errors::RegError;
use crate::utils;
use crate::utils::ascii_lossy;
use crate::utils::hex_u32_upper;
use crate::utils::le_u16_spec;
use crate::utils::le_u32_spec;
use crate::utils::strip_null_u16;
use crate::utils::strip_null_u8;
use crate::utils::utf16le_lossy;

verus! {

/// The value-name flag bit: the name is stored as 8-bit ASCII.
pub const VK_VALUE_COMP_NAME: u16 = 0x0001;

/// A decoded datum: absent, rendered as a string, or a 32-bit integer.
#[derive(Debug, Clone)]
pub enum Data {
    Empty,
    String(String),
    Int32(i32),
}

/// Whether a value list of `count` offsets fits in `b`.
pub open spec fn value_list_parses(b: Seq<u8>, count: u32) -> bool {
    4 * (count as int) <= b.len()
}

/// Whether the cell at hive-relative offset `rel` frames and its payload
/// parses as a value key.
pub open spec fn vk_cell_ok(h: Seq<u8>, rel: u32) -> bool {
    &&& crate::cell::cell_framing_ok(h, 4096 + rel)
    &&& le_u16_spec(crate::cell::cell_payload(h, 4096 + rel), 0) == 27510
    &&& vk_parses(crate::cell::cell_payload(h, 4096 + rel))
}

/// Whether `vk` is the fresh parse of the value-key cell at hive-relative
/// offset `rel`, its datum not yet resolved.
pub open spec fn vk_from_cell(h: Seq<u8>, rel: u32, vk: ValueKey) -> bool {
    &&& vk_cell_ok(h, rel)
    &&& vk.matches(crate::cell::cell_payload(h, 4096 + rel))
    &&& vk.data@ == Seq::<u8>::empty()
}

/// Whether the datum of the value-key cell at hive-relative offset `rel`
/// can be resolved, read off the stored fields alone: an inline datum
/// always can; a referenced one needs a framed data cell, and a big-data
/// chain needs its whole segment list.
pub open spec fn vk_cell_resolves(h: Seq<u8>, rel: u32) -> bool {
    let p = crate::cell::cell_payload(h, 4096 + rel);
    let ds = le_u32_spec(p, 4);
    let doff = le_u32_spec(p, 8);
    if ds >> 31 != 0 {
        true
    } else {
        &&& crate::cell::cell_framing_ok(h, 4096 + doff)
        &&& (le_u16_spec(crate::cell::cell_payload(h, 4096 + doff), 0) == 25188 ==> {
            let q = crate::cell::cell_payload(h, 4096 + doff);
            let db = crate::db::DataBlock {
                _offset: (4096 + doff + 4) as u64,
                signature: le_u16_spec(q, 0),
                segment_count: le_u16_spec(q, 2),
                segments_offset: le_u32_spec(q, 4),
            };
            &&& crate::db::db_parses(q)
            &&& crate::db::db_list_ok(h, db)
            &&& crate::db::db_segments_ok(h, db)
        })
    }
}

/// A parsed value key's datum resolves exactly when its cell's does.
pub proof fn lemma_resolves_agrees(h: Seq<u8>, rel: u32, vk: ValueKey)
    requires
        vk_from_cell(h, rel, vk),
    ensures
        vk.resolved_ok(h) == vk_cell_resolves(h, rel),
{
}

/// The four bytes of `v` in little-endian order.
pub open spec fn u32_le_bytes(v: u32) -> Seq<u8> {
    seq![
        (v & 0xff) as u8,
        ((v >> 8) & 0xff) as u8,
        ((v >> 16) & 0xff) as u8,
        ((v >> 24) & 0xff) as u8,
    ]
}

/// Law: reading a 32-bit value back from its little-endian bytes yields the
/// value, so an inline dword datum decodes to the stored data-offset field.
pub proof fn lemma_u32_le_bytes_roundtrip(v: u32)
    ensures
        le_u32_spec(u32_le_bytes(v), 0) == v,
{
    let b = u32_le_bytes(v);
    let b0 = (v & 0xff) as u8;
    let b1 = ((v >> 8) & 0xff) as u8;
    let b2 = ((v >> 16) & 0xff) as u8;
    let b3 = ((v >> 24) & 0xff) as u8;
    assert(b0 as u64 + b1 as u64 * 0x100 + b2 as u64 * 0x10000 + b3 as u64 * 0x1000000 == v
        as u64) by (bit_vector)
        requires
            b0 == (v & 0xff) as u8,
            b1 == ((v >> 8) & 0xff) as u8,
            b2 == ((v >> 16) & 0xff) as u8,
            b3 == ((v >> 24) & 0xff) as u8,
    ;
    assert(b[0] == b0 && b[1] == b1 && b[2] == b2 && b[3] == b3);
}

/// The first position at or after `i` holding a non-zero offset, or the end
/// of `offs`: zero entries are skipped, not treated as terminators.
pub open spec fn skip_zeros(offs: Seq<u32>, i: int) -> int
    decreases offs.len() - i,
{
    if i < 0 || i >= offs.len() {
        i
    } else if offs[i] != 0 {
        i
    } else {
        skip_zeros(offs, i + 1)
    }
}

/// The cursor position never moves backwards while skipping zero offsets.
pub proof fn lemma_skip_zeros_bounds(offs: Seq<u32>, i: int)
    requires
        0 <= i,
    ensures
        i <= skip_zeros(offs, i),
        skip_zeros(offs, i) <= offs.len() || skip_zeros(offs, i) == i,
    decreases offs.len() - i,
{
    if i < offs.len() && offs[i] == 0 {
        lemma_skip_zeros_bounds(offs, i + 1);
    }
}

/// The offset array of a node's value list, consumed through a forward
/// cursor that skips zero entries.
#[derive(Debug)]
pub struct ValueKeyList {
    pub _offset: u64,
    pub value_offsets: Vec<u32>,
    pub next_index: usize,
}

impl ValueKeyList {
    /// Whether the parsed offsets are the first `count` entries of `b`.
    pub open spec fn matches(&self, b: Seq<u8>, count: u32) -> bool {
        &&& self.value_offsets@.len() == count
        &&& forall|i: int|
            0 <= i < self.value_offsets@.len() ==> #[trigger] self.value_offsets@[i]
                == le_u32_spec(b, 4 * i)
    }

    pub fn new(buffer: &[u8], value_count: u32, offset: u64) -> (r: Result<
        ValueKeyList,
        RegError,
    >)
        ensures
            r is Ok <==> value_list_parses(buffer@, value_count),
            r matches Ok(x) ==> x.matches(buffer@, value_count) && x.next_index == 0
                && x._offset == offset,
            r matches Err(e) ==> e.kind == ErrorKind::ValidationError,
    {
        let len: usize = buffer.len();
        if ((len / 4) as u64) < (value_count as u64) {
            return Err(RegError::validation_error("value list out of range".to_owned()));
        }
        let mut value_offsets: Vec<u32> = Vec::new();
        let mut i: usize = 0;
        while i < value_count as usize
            invariant
                value_list_parses(buffer@, value_count),
                len == buffer@.len(),
                i <= value_count as usize,
                value_offsets@.len() == i,
                forall|j: int|
                    0 <= j < i ==> #[trigger] value_offsets@[j] == le_u32_spec(buffer@, 4 * j),
            decreases value_count as usize - i,
        {
            let o = utils::read_u32_le(buffer, i * 4);
            value_offsets.push(o);
            i += 1;
        }
        Ok(ValueKeyList { _offset: offset, value_offsets, next_index: 0 })
    }

    /// Yield the value key the cursor points at, skipping zero offsets, or
    /// nothing once the offsets are exhausted.
    pub fn get_next_value(&mut self, hive: &[u8]) -> (r: Result<Option<ValueKey>, RegError>)
        ensures
            final(self).value_offsets == old(self).value_offsets,
            final(self)._offset == old(self)._offset,
            ({
                let offs = old(self).value_offsets@;
                let j = skip_zeros(offs, old(self).next_index as int);
                &&& (j >= offs.len() ==> r is Ok && r->Ok_0 is None && final(self).next_index
                    == j)
                &&& (0 <= j < offs.len() ==> {
                    let rel = offs[j];
                    &&& (r is Ok <==> vk_cell_ok(hive@, rel))
                    &&& (r matches Ok(o) ==> o matches Some(vk) && vk_from_cell(hive@, rel, vk)
                        && final(self).next_index == j + 1)
                    &&& (r is Err ==> final(self).next_index == j)
                })
            }),
            r matches Err(e) ==> e.kind == ErrorKind::ValidationError || e.kind
                == ErrorKind::SecDescParseError || e.kind == ErrorKind::UnknownAceType,
    {
        let len: usize = self.value_offsets.len();
        while self.next_index < len && self.value_offsets[self.next_index] == 0
            invariant
                len == self.value_offsets@.len(),
                self.value_offsets == old(self).value_offsets,
                self._offset == old(self)._offset,
                old(self).next_index <= self.next_index,
                skip_zeros(self.value_offsets@, old(self).next_index as int) == skip_zeros(
                    self.value_offsets@,
                    self.next_index as int,
                ),
            decreases len - self.next_index,
        {
            self.next_index += 1;
        }
        proof {
            assert(skip_zeros(self.value_offsets@, self.next_index as int)
                == self.next_index as int);
        }
        if self.next_index >= len {
            return Ok(None);
        }
        let rel: u32 = self.value_offsets[self.next_index];
        let cell = Cell::at_offset(hive, HBIN_START_OFFSET + rel as u64)?;
        match cell.get_data()? {
            CellData::ValueKey(vk) => {
                self.next_index += 1;
                Ok(Some(vk))
            },
            _ => Err(RegError::validation_error("cell data is not a value key".to_owned())),
        }
    }
}

/// A registry value type code.
#[derive(Debug)]
pub struct VkDataType(pub u32);

impl VkDataType {
    pub fn new(value: u32) -> (r: VkDataType)
        ensures
            r.0 == value,
    {
        VkDataType(value)
    }

    /// The type's name, or `REG_TYPE: 0x` and eight uppercase hex digits for
    /// an unknown code.
    pub open spec fn as_string_spec(&self) -> Seq<char> {
        match self.0 {
            0x00000000u32 => "REG_NONE"@,
            0x00000001u32 => "REG_SZ"@,
            0x00000002u32 => "REG_EXPAND_SZ"@,
            0x00000003u32 => "REG_BINARY"@,
            0x00000004u32 => "REG_DWORD_LITTLE_ENDIAN"@,
            0x00000005u32 => "REG_DWORD_BIG_ENDIAN"@,
            0x00000006u32 => "REG_LINK"@,
            0x00000007u32 => "REG_MULTI_SZ"@,
            0x00000008u32 => "REG_RESOURCE_LIST"@,
            0x00000009u32 => "REG_FULL_RESOURCE_DESCRIPTOR"@,
            0x0000000au32 => "REG_RESOURCE_REQUIREMENTS_LIST"@,
            0x0000000bu32 => "REG_QWORD_LITTLE_ENDIAN"@,
            _ => "REG_TYPE: 0x"@ + hex_u32_upper(self.0),
        }
    }

    pub fn as_string(&self) -> (r: String)
        ensures
            r@ == self.as_string_spec(),
    {
        match self.0 {
            0x00000000u32 => "REG_NONE".to_owned(),
            0x00000001u32 => "REG_SZ".to_owned(),
            0x00000002u32 => "REG_EXPAND_SZ".to_owned(),
            0x00000003u32 => "REG_BINARY".to_owned(),
            0x00000004u32 => "REG_DWORD_LITTLE_ENDIAN".to_owned(),
            0x00000005u32 => "REG_DWORD_BIG_ENDIAN".to_owned(),
            0x00000006u32 => "REG_LINK".to_owned(),
            0x00000007u32 => "REG_MULTI_SZ".to_owned(),
            0x00000008u32 => "REG_RESOURCE_LIST".to_owned(),
            0x00000009u32 => "REG_FULL_RESOURCE_DESCRIPTOR".to_owned(),
            0x0000000au32 => "REG_RESOURCE_REQUIREMENTS_LIST".to_owned(),
            0x0000000bu32 => "REG_QWORD_LITTLE_ENDIAN".to_owned(),
            _ => {
                let mut out = "REG_TYPE: 0x".to_owned();
                utils::push_hex_u32_upper(&mut out, self.0);
                out
            },
        }
    }

    pub fn as_u32(&self) -> (r: u32)
        ensures
            r == self.0,
    {
        self.0
    }
}

/// Whether a value key's fixed header and name fit in `b`.
pub open spec fn vk_parses(b: Seq<u8>) -> bool {
    &&& b.len() >= 20
    &&& 20 + (le_u16_spec(b, 2) as int) <= b.len()
}

/// The name bytes of the value key stored in `b`.
pub open spec fn vk_name_bytes(b: Seq<u8>) -> Seq<u8> {
    b.subrange(20, 20 + le_u16_spec(b, 2) as int)
}

/// A value key record.
#[derive(Debug)]
pub struct ValueKey {
    pub _offset: u64,
    pub signature: u16,
    pub value_name_size: u16,
    pub data_size: u32,
    pub data_offset: u32,
    pub data_type: VkDataType,
    pub flags: u16,
    pub unknown1: u16,
    pub value_name: String,
    pub padding: Vec<u8>,
    pub data: Vec<u8>,
    pub data_slack: Vec<u8>,
}

impl ValueKey {
    /// Whether the parsed fields are the decoding of `b`. Says nothing about
    /// the `data` fields, which are filled later by data resolution.
    pub open spec fn matches(&self, b: Seq<u8>) -> bool {
        &&& self.signature == le_u16_spec(b, 0)
        &&& self.value_name_size == le_u16_spec(b, 2)
        &&& self.data_size == le_u32_spec(b, 4)
        &&& self.data_offset == le_u32_spec(b, 8)
        &&& self.data_type.0 == le_u32_spec(b, 12)
        &&& self.flags == (le_u16_spec(b, 16) & VK_VALUE_COMP_NAME)
        &&& self.unknown1 == le_u16_spec(b, 18)
        &&& self.value_name@ == (if self.flags & VK_VALUE_COMP_NAME != 0 {
            ascii_lossy(strip_null_u8(vk_name_bytes(b)))
        } else {
            utf16le_lossy(strip_null_u16(vk_name_bytes(b)))
        })
        &&& self.padding@ == b.skip(20 + le_u16_spec(b, 2) as int)
    }

    pub fn new(buffer: &[u8], offset: u64) -> (r: Result<ValueKey, RegError>)
        ensures
            r is Ok <==> vk_parses(buffer@),
            r matches Ok(x) ==> x.matches(buffer@) && x._offset == offset && x.data@
                == Seq::<u8>::empty() && x.data_slack@ == Seq::<u8>::empty(),
            r matches Err(e) ==> e.kind == ErrorKind::ValidationError,
    {
        let len: usize = buffer.len();
        if len < 20 {
            return Err(RegError::validation_error("value key header out of range".to_owned()));
        }
        let signature = utils::read_u16_le(buffer, 0);
        let value_name_size = utils::read_u16_le(buffer, 2);
        let data_size = utils::read_u32_le(buffer, 4);
        let data_offset = utils::read_u32_le(buffer, 8);
        let data_type = VkDataType::new(utils::read_u32_le(buffer, 12));
        let flags = utils::read_u16_le(buffer, 16) & VK_VALUE_COMP_NAME;
        let unknown1 = utils::read_u16_le(buffer, 18);
        if len - 20 < value_name_size as usize {
            return Err(RegError::validation_error("value key name out of range".to_owned()));
        }
        let name_end: usize = 20 + value_name_size as usize;
        let name_bytes = slice_subrange(buffer, 20, name_end);
        proof {
            assert(name_bytes@ =~= vk_name_bytes(buffer@));
        }
        let value_name = if flags & VK_VALUE_COMP_NAME != 0 {
            utils::read_ascii(name_bytes)?
        } else {
            utils::read_utf16(name_bytes)?
        };
        let padding = utils::copy_range(buffer, name_end, len);
        proof {
            assert(padding@ =~= buffer@.skip(20 + le_u16_spec(buffer@, 2) as int));
        }
        Ok(
            ValueKey {
                _offset: offset,
                signature,
                value_name_size,
                data_size,
                data_offset,
                data_type,
                flags,
                unknown1,
                value_name,
                padding,
                data: Vec::new(),
                data_slack: Vec::new(),
            },
        )
    }

    pub fn get_name(&self) -> (r: &str)
        ensures
            r@ == self.value_name@,
    {
        self.value_name.as_str()
    }

    /// Whether the datum is stored inline in the data-offset field: the high
    /// bit of the data size.
    pub open spec fn data_is_resident_spec(&self) -> bool {
        self.data_size >> 31 != 0
    }

    pub fn data_is_resident(&self) -> (r: bool)
        ensures
            r == self.data_is_resident_spec(),
    {
        if self.data_size >> 31 == 0 {
            false
        } else {
            true
        }
    }

    /// The datum's true length: the data size with the inline flag cleared.
    pub open spec fn get_size_spec(&self) -> u32 {
        if self.data_is_resident_spec() {
            (self.data_size - 0x80000000) as u32
        } else {
            self.data_size
        }
    }

    pub fn get_size(&self) -> (r: u32)
        ensures
            r == self.get_size_spec(),
    {
        if self.data_is_resident() {
            let ds = self.data_size;
            proof {
                assert(ds >= 0x80000000) by (bit_vector)
                    requires
                        ds >> 31 != 0,
                ;
            }
            ds - 0x80000000
        } else {
            self.data_size
        }
    }

    /// Whether `other` carries the same parsed fields as `self`; the
    /// resolved data may differ.
    pub open spec fn same_parsed(&self, other: &ValueKey) -> bool {
        &&& self._offset == other._offset
        &&& self.signature == other.signature
        &&& self.value_name_size == other.value_name_size
        &&& self.data_size == other.data_size
        &&& self.data_offset == other.data_offset
        &&& self.data_type == other.data_type
        &&& self.flags == other.flags
        &&& self.unknown1 == other.unknown1
        &&& self.value_name == other.value_name
        &&& self.padding == other.padding
    }

    /// Whether this value's datum can be resolved against the hive bytes:
    /// an inline datum always can; a referenced one needs a framed cell, and
    /// a big-data cell needs its whole segment chain.
    pub open spec fn resolved_ok(&self, h: Seq<u8>) -> bool {
        if self.data_is_resident_spec() {
            true
        } else {
            &&& crate::cell::cell_framing_ok(h, 4096 + self.data_offset)
            &&& (le_u16_spec(crate::cell::cell_payload(h, 4096 + self.data_offset), 0) == 25188
                ==> {
                let payload = crate::cell::cell_payload(h, 4096 + self.data_offset);
                &&& crate::db::db_parses(payload)
                &&& crate::db::db_list_ok(h, self.spec_data_block(h))
                &&& crate::db::db_segments_ok(h, self.spec_data_block(h))
            })
        }
    }

    /// The big-data header decoded from the referenced cell's payload.
    pub open spec fn spec_data_block(&self, h: Seq<u8>) -> crate::db::DataBlock {
        let payload = crate::cell::cell_payload(h, 4096 + self.data_offset);
        crate::db::DataBlock {
            _offset: (4096 + self.data_offset + 4) as u64,
            signature: le_u16_spec(payload, 0),
            segment_count: le_u16_spec(payload, 2),
            segments_offset: le_u32_spec(payload, 4),
        }
    }

    /// The datum's bytes once resolved: the inline bytes truncated to the
    /// stored size, the referenced cell's payload, or the assembled big-data
    /// segments truncated to the stored size.
    pub open spec fn resolved_data(&self, h: Seq<u8>) -> Seq<u8> {
        if self.data_is_resident_spec() {
            let inline = u32_le_bytes(self.data_offset);
            inline.take(if self.get_size_spec() < 4 {
                self.get_size_spec() as int
            } else {
                4
            })
        } else {
            let payload = crate::cell::cell_payload(h, 4096 + self.data_offset);
            if le_u16_spec(payload, 0) == 25188 {
                let assembled = crate::db::db_concat(
                    h,
                    crate::db::db_segment_offsets(h, self.spec_data_block(h)),
                );
                assembled.take(
                    if (self.get_size_spec() as int) < assembled.len() {
                        self.get_size_spec() as int
                    } else {
                        assembled.len() as int
                    },
                )
            } else {
                payload
            }
        }
    }

    /// Resolve the datum: inline bytes from the data-offset field, a
    /// referenced raw cell's payload, or an assembled big-data chain. Slack
    /// beyond the stored size of a big-data chain lands in `data_slack`.
    pub fn read_value(&mut self, hive: &[u8]) -> (r: Result<bool, RegError>)
        ensures
            old(self).same_parsed(final(self)),
            r is Ok <==> old(self).resolved_ok(hive@),
            r matches Ok(b) ==> b == true && final(self).data@ == old(self).resolved_data(hive@),
            r is Err ==> *final(self) == *old(self) && r->Err_0.kind
                == ErrorKind::ValidationError,
    {
        if !self.data_is_resident() {
            let cell = Cell::at_offset(hive, HBIN_START_OFFSET + self.data_offset as u64)?;
            let sig: u16 = utils::read_u16_le(cell.data.as_slice(), 0);
            if sig == 25188u16 {
                let block = crate::db::DataBlock::new(
                    cell.data.as_slice(),
                    HBIN_START_OFFSET + self.data_offset as u64 + 4,
                )?;
                let assembled = block.get_data(hive)?;
                let total: usize = assembled.len();
                let size: u32 = self.get_size();
                let cut: usize = if (size as u64) < (total as u64) {
                    size as usize
                } else {
                    total
                };
                self.data = utils::copy_range(assembled.as_slice(), 0, cut);
                self.data_slack = utils::copy_range(assembled.as_slice(), cut, total);
                proof {
                    assert(self.data@ =~= old(self).resolved_data(hive@));
                }
            } else {
                self.data = cell.data;
                self.data_slack = Vec::new();
            }
            Ok(true)
        } else {
            let v: u32 = self.data_offset;
            proof {
                assert(v & 0xff < 256 && (v >> 8) & 0xff < 256 && (v >> 16) & 0xff < 256 && (v
                    >> 24) & 0xff < 256) by (bit_vector);
            }
            let mut inline: Vec<u8> = Vec::new();
            inline.push((v & 0xff) as u8);
            inline.push(((v >> 8) & 0xff) as u8);
            inline.push(((v >> 16) & 0xff) as u8);
            inline.push(((v >> 24) & 0xff) as u8);
            proof {
                assert(inline@ =~= u32_le_bytes(v));
            }
            let size: u32 = self.get_size();
            let cut: usize = if size < 4 {
                size as usize
            } else {
                4
            };
            self.data = utils::copy_range(inline.as_slice(), 0, cut);
            self.data_slack = Vec::new();
            proof {
                assert(self.data@ =~= old(self).resolved_data(hive@));
            }
            Ok(true)
        }
    }

    /// The string a text-typed datum decodes to: ASCII when the value's
    /// compressed-name flag is set, UTF-16LE otherwise, one terminator
    /// stripped.
    pub open spec fn decoded_string(&self) -> Seq<char> {
        let raw = self.data@.take(self.get_size_spec() as int);
        if self.flags & VK_VALUE_COMP_NAME != 0 {
            ascii_lossy(strip_null_u8(raw))
        } else {
            utf16le_lossy(strip_null_u16(raw))
        }
    }

    /// Decode the resolved datum by its registry type: text types become
    /// strings, the two dword types become integers, and everything else is
    /// rendered as uppercase hex of the datum truncated to its stored size.
    pub fn decode_data(&self) -> (r: Result<Option<Data>, RegError>)
        ensures
            ({
                let d = self.data@;
                let size = self.get_size_spec() as int;
                let ty = self.data_type.0;
                let text = ty == 1 || ty == 2 || ty == 6 || ty == 7;
                &&& (d.len() == 0 ==> r is Ok && r->Ok_0 is None)
                &&& (d.len() > 0 && size > d.len() ==> r is Err && r->Err_0.kind
                    == ErrorKind::ValidationError)
                &&& (d.len() > 0 && size <= d.len() ==> {
                    &&& (ty == 0 ==> r is Ok && r->Ok_0 is None)
                    &&& (text && size == 0 ==> r is Ok && r->Ok_0 is None)
                    &&& (text && size > 0 ==> r is Ok && (r->Ok_0 matches Some(
                        Data::String(s),
                    ) && s@ == self.decoded_string()))
                    &&& (ty == 4 && d.len() >= 4 ==> r is Ok && (r->Ok_0 matches Some(
                        Data::Int32(v),
                    ) && v == crate::utils::i32_of_u32_spec(le_u32_spec(d, 0))))
                    &&& (ty == 5 && d.len() >= 4 ==> r is Ok && (r->Ok_0 matches Some(
                        Data::Int32(v),
                    ) && v == crate::utils::i32_of_u32_spec(crate::utils::be_u32_spec(d, 0))))
                    &&& ((ty == 4 || ty == 5) && d.len() < 4 ==> r is Err && r->Err_0.kind
                        == ErrorKind::ValidationError)
                    &&& (!(ty == 0 || text || ty == 4 || ty == 5) ==> r is Ok && (
                        r->Ok_0 matches Some(Data::String(s)) && s@ == crate::utils::hex_of_bytes(
                        d.take(size),
                    )))
                })
            }),
    {
        let data_len: usize = self.data.len();
        if data_len == 0 {
            return Ok(None);
        }
        let size: u32 = self.get_size();
        if (size as u64) > (data_len as u64) {
            return Err(RegError::validation_error("data size exceeds resolved data".to_owned()));
        }
        let ty: u32 = self.data_type.0;
        if ty == 0 {
            Ok(None)
        } else if ty == 1 || ty == 2 || ty == 6 || ty == 7 {
            if size == 0 {
                return Ok(None);
            }
            let raw = slice_subrange(self.data.as_slice(), 0, size as usize);
            let s = if self.flags & VK_VALUE_COMP_NAME != 0 {
                utils::read_ascii(raw)?
            } else {
                utils::read_utf16(raw)?
            };
            Ok(Some(Data::String(s)))
        } else if ty == 4 {
            if data_len < 4 {
                return Err(
                    RegError::validation_error("dword value is shorter than 4 bytes".to_owned()),
                );
            }
            let v = utils::read_i32_le(self.data.as_slice(), 0);
            Ok(Some(Data::Int32(v)))
        } else if ty == 5 {
            if data_len < 4 {
                return Err(
                    RegError::validation_error("dword value is shorter than 4 bytes".to_owned()),
                );
            }
            let v = utils::i32_of_u32(utils::read_u32_be(self.data.as_slice(), 0));
            Ok(Some(Data::Int32(v)))
        } else {
            let raw = slice_subrange(self.data.as_slice(), 0, size as usize);
            Ok(Some(Data::String(utils::to_hex_string(raw))))
        }
    }
}

} // verus!
