//! The `nk` node key: a registry key record with its name, flags, timestamp,
//! counts and the offsets of its value list, subkey list and security key.

use vstd::prelude::*;
use vstd::slice::slice_subrange;
use vstd::string::StringExecFns;
use crate::cell::Cell;
use crate::cell::CellData;
use crate::vk::ValueKey;
use crate::errors::ErrorKind;
use crate::errors::RegError;
use crate::sk::SecurityKey;
use crate::utils;
use crate::utils::ascii_lossy;
use crate::utils::le_u16_spec;
use crate::utils::le_u32_spec;
use crate::utils::le_u64_spec;
use crate::utils::strip_null_u16;
use crate::utils::strip_null_u8;
use crate::utils::utf16le_lossy;
use crate::vk::ValueKeyList;

verus! {

/// The name-encoding flag bit: the key name is stored as 8-bit ASCII.
pub const KEY_COMP_NAME: u16 = 0x0020;

/// The mask of defined node-key flag bits; undefined bits are dropped.
pub const NK_FLAGS_MASK: u16 = 0x53FF;

/// Whether a node key's fixed 76-byte header and name fit in `b`.
pub open spec fn nk_parses(b: Seq<u8>) -> bool {
    &&& b.len() >= 76
    &&& 76 + (le_u16_spec(b, 72) as int) <= b.len()
}

/// The name bytes of the node key stored in `b`.
pub open spec fn nk_name_bytes(b: Seq<u8>) -> Seq<u8> {
    b.subrange(76, 76 + le_u16_spec(b, 72) as int)
}

/// The offset array decoded from the value-list cell at hive-relative
/// offset `rel`, read as `count` little-endian 32-bit entries.
pub open spec fn list_offsets_of(h: Seq<u8>, rel: u32, count: u32) -> Seq<u32> {
    Seq::new(
        count as nat,
        |i: int| le_u32_spec(crate::cell::cell_payload(h, 4096 + rel), 4 * i),
    )
}

/// Whether the value-list cell at hive-relative offset `rel` frames and can
/// hold `count` offsets.
pub open spec fn value_list_cell_ok(h: Seq<u8>, rel: u32, count: u32) -> bool {
    &&& crate::cell::cell_framing_ok(h, 4096 + rel)
    &&& crate::vk::value_list_parses(crate::cell::cell_payload(h, 4096 + rel), count)
}

/// Whether the cell at hive-relative offset `rel` frames and its payload
/// parses under the variant its signature selects: the condition for a
/// subkey-list cell to materialize.
pub open spec fn subkey_cell_ok(h: Seq<u8>, rel: u32) -> bool {
    &&& crate::cell::cell_framing_ok(h, 4096 + rel)
    &&& crate::cell::cell_data_parses(crate::cell::cell_payload(h, 4096 + rel))
}

/// Whether `b` carries one of the three leaf signatures (`lf`, `lh`, `li`).
pub open spec fn is_leaf_signature(b: Seq<u8>) -> bool {
    le_u16_spec(b, 0) == 26220 || le_u16_spec(b, 0) == 26732 || le_u16_spec(b, 0) == 26988
}

/// The child offsets a leaf cell holds, in storage order: bare offsets for
/// `li`, the offset of each (offset, hint-or-hash) pair for `lf` and `lh`.
pub open spec fn leaf_entries_of(b: Seq<u8>) -> Seq<u32> {
    if le_u16_spec(b, 0) == 26988 {
        Seq::new(le_u16_spec(b, 2) as nat, |i: int| le_u32_spec(b, 4 + 4 * i))
    } else {
        Seq::new(le_u16_spec(b, 2) as nat, |i: int| le_u32_spec(b, 4 + 8 * i))
    }
}

/// Whether the cell at hive-relative offset `rel` frames and its payload
/// parses as a node key.
pub open spec fn nk_cell_ok(h: Seq<u8>, rel: u32) -> bool {
    &&& crate::cell::cell_framing_ok(h, 4096 + rel)
    &&& le_u16_spec(crate::cell::cell_payload(h, 4096 + rel), 0) == 27502
    &&& nk_parses(crate::cell::cell_payload(h, 4096 + rel))
}

/// Whether `nk` is the fresh parse of the node-key cell at hive-relative
/// offset `rel`: fields decoded, side structures not yet materialized.
pub open spec fn nk_from_cell(h: Seq<u8>, rel: u32, nk: NodeKey) -> bool {
    &&& nk_cell_ok(h, rel)
    &&& nk.matches(crate::cell::cell_payload(h, 4096 + rel))
    &&& nk.value_key_list is None
    &&& nk.sub_key_list is None
    &&& nk.security_key is None
}

/// Law: a parsed node key's name is the decoding of exactly its
/// `key_name_size` name bytes: ASCII (non-ASCII bytes skipped) when the
/// compressed-name flag is set, UTF-16LE otherwise, one trailing terminator
/// stripped before decoding. The premises are exactly what `NodeKey::new`
/// guarantees of an accepted buffer.
pub proof fn lemma_nodekey_name_encoding(nk: NodeKey, b: Seq<u8>)
    requires
        nk.matches(b),
        nk_parses(b),
    ensures
        nk_name_bytes(b).len() == nk.key_name_size,
        nk.flags & KEY_COMP_NAME != 0 ==> nk.key_name@ == ascii_lossy(
            strip_null_u8(nk_name_bytes(b)),
        ),
        nk.flags & KEY_COMP_NAME == 0 ==> nk.key_name@ == utf16le_lossy(
            strip_null_u16(nk_name_bytes(b)),
        ),
{
}

/// A node key record, with lazily materialized value-list, subkey-list and
/// security-key side structures and two independent forward cursors.
#[derive(Debug)]
pub struct NodeKey {
    pub _offset: u64,
    pub signature: u16,
    pub flags: u16,
    pub last_written: u64,
    pub access_bits: u32,
    pub offset_parent_key: u32,
    pub num_sub_keys: u32,
    pub num_volatile_sub_keys: u32,
    pub offset_sub_key_list: u32,
    pub offset_volatile_sub_key_list: u32,
    pub num_values: u32,
    pub offset_value_list: u32,
    pub offset_security_key: u32,
    pub offset_class_name: u32,
    pub largest_sub_key_name_size: u32,
    pub largest_sub_key_class_name_size: u32,
    pub largest_value_name_size: u32,
    pub largest_value_data_size: u32,
    pub work_var: u32,
    pub key_name_size: u16,
    pub class_name_size: u16,
    pub key_name: String,
    pub padding: Vec<u8>,
    pub value_key_list: Option<Box<ValueKeyList>>,
    pub sub_key_list: Option<Box<CellData>>,
    pub security_key: Option<Box<SecurityKey>>,
}

impl NodeKey {
    /// Whether the parsed fields are the decoding of `b`. Says nothing about
    /// the side structures, which are materialized lazily.
    pub open spec fn matches(&self, b: Seq<u8>) -> bool {
        &&& self.signature == le_u16_spec(b, 0)
        &&& self.flags == (le_u16_spec(b, 2) & NK_FLAGS_MASK)
        &&& self.last_written == le_u64_spec(b, 4)
        &&& self.access_bits == le_u32_spec(b, 12)
        &&& self.offset_parent_key == le_u32_spec(b, 16)
        &&& self.num_sub_keys == le_u32_spec(b, 20)
        &&& self.num_volatile_sub_keys == le_u32_spec(b, 24)
        &&& self.offset_sub_key_list == le_u32_spec(b, 28)
        &&& self.offset_volatile_sub_key_list == le_u32_spec(b, 32)
        &&& self.num_values == le_u32_spec(b, 36)
        &&& self.offset_value_list == le_u32_spec(b, 40)
        &&& self.offset_security_key == le_u32_spec(b, 44)
        &&& self.offset_class_name == le_u32_spec(b, 48)
        &&& self.largest_sub_key_name_size == le_u32_spec(b, 52)
        &&& self.largest_sub_key_class_name_size == le_u32_spec(b, 56)
        &&& self.largest_value_name_size == le_u32_spec(b, 60)
        &&& self.largest_value_data_size == le_u32_spec(b, 64)
        &&& self.work_var == le_u32_spec(b, 68)
        &&& self.key_name_size == le_u16_spec(b, 72)
        &&& self.class_name_size == le_u16_spec(b, 74)
        &&& self.key_name@ == (if self.flags & KEY_COMP_NAME != 0 {
            ascii_lossy(strip_null_u8(nk_name_bytes(b)))
        } else {
            utf16le_lossy(strip_null_u16(nk_name_bytes(b)))
        })
        &&& self.padding@ == b.skip(76 + le_u16_spec(b, 72) as int)
    }

    pub fn new(buffer: &[u8], offset: u64) -> (r: Result<NodeKey, RegError>)
        ensures
            r is Ok <==> nk_parses(buffer@),
            r matches Ok(x) ==> x.matches(buffer@) && x._offset == offset
                && x.value_key_list is None && x.sub_key_list is None
                && x.security_key is None,
            r matches Err(e) ==> e.kind == ErrorKind::ValidationError,
    {
        let len: usize = buffer.len();
        if len < 76 {
            return Err(RegError::validation_error("node key header out of range".to_owned()));
        }
        let signature = utils::read_u16_le(buffer, 0);
        let flags = utils::read_u16_le(buffer, 2) & NK_FLAGS_MASK;
        let last_written = utils::read_u64_le(buffer, 4);
        let access_bits = utils::read_u32_le(buffer, 12);
        let offset_parent_key = utils::read_u32_le(buffer, 16);
        let num_sub_keys = utils::read_u32_le(buffer, 20);
        let num_volatile_sub_keys = utils::read_u32_le(buffer, 24);
        let offset_sub_key_list = utils::read_u32_le(buffer, 28);
        let offset_volatile_sub_key_list = utils::read_u32_le(buffer, 32);
        let num_values = utils::read_u32_le(buffer, 36);
        let offset_value_list = utils::read_u32_le(buffer, 40);
        let offset_security_key = utils::read_u32_le(buffer, 44);
        let offset_class_name = utils::read_u32_le(buffer, 48);
        let largest_sub_key_name_size = utils::read_u32_le(buffer, 52);
        let largest_sub_key_class_name_size = utils::read_u32_le(buffer, 56);
        let largest_value_name_size = utils::read_u32_le(buffer, 60);
        let largest_value_data_size = utils::read_u32_le(buffer, 64);
        let work_var = utils::read_u32_le(buffer, 68);
        let key_name_size = utils::read_u16_le(buffer, 72);
        let class_name_size = utils::read_u16_le(buffer, 74);
        if len - 76 < key_name_size as usize {
            return Err(RegError::validation_error("node key name out of range".to_owned()));
        }
        let name_end: usize = 76 + key_name_size as usize;
        let name_bytes = slice_subrange(buffer, 76, name_end);
        proof {
            assert(name_bytes@ =~= nk_name_bytes(buffer@));
        }
        let key_name = if flags & KEY_COMP_NAME != 0 {
            utils::read_ascii(name_bytes)?
        } else {
            utils::read_utf16(name_bytes)?
        };
        let padding = utils::copy_range(buffer, name_end, len);
        proof {
            assert(padding@ =~= buffer@.skip(76 + le_u16_spec(buffer@, 72) as int));
        }
        Ok(
            NodeKey {
                _offset: offset,
                signature,
                flags,
                last_written,
                access_bits,
                offset_parent_key,
                num_sub_keys,
                num_volatile_sub_keys,
                offset_sub_key_list,
                offset_volatile_sub_key_list,
                num_values,
                offset_value_list,
                offset_security_key,
                offset_class_name,
                largest_sub_key_name_size,
                largest_sub_key_class_name_size,
                largest_value_name_size,
                largest_value_data_size,
                work_var,
                key_name_size,
                class_name_size,
                key_name,
                padding,
                value_key_list: None,
                sub_key_list: None,
                security_key: None,
            },
        )
    }

    /// Whether `other` carries the same parsed fields as `self`; the side
    /// structures may differ.
    pub open spec fn same_parsed(&self, other: &NodeKey) -> bool {
        &&& self._offset == other._offset
        &&& self.signature == other.signature
        &&& self.flags == other.flags
        &&& self.last_written == other.last_written
        &&& self.access_bits == other.access_bits
        &&& self.offset_parent_key == other.offset_parent_key
        &&& self.num_sub_keys == other.num_sub_keys
        &&& self.num_volatile_sub_keys == other.num_volatile_sub_keys
        &&& self.offset_sub_key_list == other.offset_sub_key_list
        &&& self.offset_volatile_sub_key_list == other.offset_volatile_sub_key_list
        &&& self.num_values == other.num_values
        &&& self.offset_value_list == other.offset_value_list
        &&& self.offset_security_key == other.offset_security_key
        &&& self.offset_class_name == other.offset_class_name
        &&& self.largest_sub_key_name_size == other.largest_sub_key_name_size
        &&& self.largest_sub_key_class_name_size == other.largest_sub_key_class_name_size
        &&& self.largest_value_name_size == other.largest_value_name_size
        &&& self.largest_value_data_size == other.largest_value_data_size
        &&& self.work_var == other.work_var
        &&& self.key_name_size == other.key_name_size
        &&& self.class_name_size == other.class_name_size
        &&& self.key_name == other.key_name
        &&& self.padding == other.padding
    }

    /// The value-list offsets this node's cursor walks: the cached list if
    /// one is materialized, else the decoding of the value-list cell.
    pub open spec fn cached_list_offsets(&self, h: Seq<u8>) -> Seq<u32> {
        match self.value_key_list {
            Option::Some(l) => l.value_offsets@,
            Option::None => list_offsets_of(h, self.offset_value_list, self.num_values),
        }
    }

    /// The position of this node's value cursor.
    pub open spec fn cached_list_cur(&self) -> int {
        match self.value_key_list {
            Option::Some(l) => l.next_index as int,
            Option::None => 0,
        }
    }

    /// Yield this node's next value key, materializing the value list on the
    /// first call; zero offsets in the list are skipped. Yields nothing when
    /// the node has no value list or the list is exhausted.
    pub fn get_next_value(&mut self, hive: &[u8]) -> (r: Result<Option<ValueKey>, RegError>)
        ensures
            old(self).same_parsed(final(self)),
            final(self).sub_key_list == old(self).sub_key_list,
            final(self).security_key == old(self).security_key,
            old(self).offset_value_list == 0xFFFFFFFFu32 ==> r is Ok && r->Ok_0 is None
                && *final(self) == *old(self),
            old(self).offset_value_list != 0xFFFFFFFFu32 && old(self).value_key_list is None
                && !value_list_cell_ok(
                hive@,
                old(self).offset_value_list,
                old(self).num_values,
            ) ==> r is Err && final(self).value_key_list is None
                && r->Err_0.kind == ErrorKind::ValidationError,
            old(self).offset_value_list != 0xFFFFFFFFu32 && (old(self).value_key_list is Some
                || value_list_cell_ok(hive@, old(self).offset_value_list, old(self).num_values))
                ==> {
                let offs = old(self).cached_list_offsets(hive@);
                let j = crate::vk::skip_zeros(offs, old(self).cached_list_cur());
                &&& final(self).value_key_list is Some
                &&& final(self).cached_list_offsets(hive@) == offs
                &&& (j >= offs.len() ==> r is Ok && r->Ok_0 is None
                    && final(self).cached_list_cur() == j)
                &&& (0 <= j < offs.len() ==> {
                    let rel = offs[j];
                    &&& (r is Ok <==> crate::vk::vk_cell_ok(hive@, rel))
                    &&& (r matches Ok(o) ==> o matches Some(vk) && crate::vk::vk_from_cell(
                        hive@,
                        rel,
                        vk,
                    ) && final(self).cached_list_cur() == j + 1)
                    &&& (r is Err ==> final(self).cached_list_cur() == j)
                })
            },
    {
        if self.offset_value_list == 0xFFFFFFFFu32 {
            return Ok(None);
        }
        if self.value_key_list.is_none() {
            let cell = Cell::at_offset(hive, crate::hive::HBIN_START_OFFSET
                + self.offset_value_list as u64)?;
            let list = ValueKeyList::new(
                cell.data.as_slice(),
                self.num_values,
                self.offset_value_list as u64,
            )?;
            proof {
                assert(list.value_offsets@ =~= list_offsets_of(
                    hive@,
                    self.offset_value_list,
                    self.num_values,
                ));
            }
            self.value_key_list = Some(Box::new(list));
        }
        match &mut self.value_key_list {
            Option::Some(l) => l.get_next_value(hive),
            Option::None => Err(
                RegError::validation_error("value list was not materialized".to_owned()),
            ),
        }
    }

    /// The payload of the cell this node's subkey-list offset points at.
    pub open spec fn subkey_payload(&self, h: Seq<u8>) -> Seq<u8> {
        crate::cell::cell_payload(h, 4096 + self.offset_sub_key_list)
    }

    /// Whether this node's subkey cursor walks a plain leaf (not a root
    /// index): the cached list if one is materialized, else the cell the
    /// subkey-list offset points at.
    pub open spec fn cached_subkey_is_leaf(&self, h: Seq<u8>) -> bool {
        match self.sub_key_list {
            Option::Some(cd) => match *cd {
                CellData::FastLeaf(_) => true,
                CellData::HashLeaf(_) => true,
                CellData::IndexLeaf(_) => true,
                _ => false,
            },
            Option::None => is_leaf_signature(self.subkey_payload(h)),
        }
    }

    /// The child offsets this node's leaf subkey cursor walks.
    pub open spec fn cached_subkey_entries(&self, h: Seq<u8>) -> Seq<u32> {
        match self.sub_key_list {
            Option::Some(cd) => match *cd {
                CellData::FastLeaf(x) => x.elements@.map_values(
                    |e: crate::lf::FastElement| e.0,
                ),
                CellData::HashLeaf(x) => x.elements@.map_values(
                    |e: crate::lh::HashElement| e.0,
                ),
                CellData::IndexLeaf(x) => x.elements@,
                _ => Seq::empty(),
            },
            Option::None => leaf_entries_of(self.subkey_payload(h)),
        }
    }

    /// The position of this node's leaf subkey cursor.
    pub open spec fn cached_subkey_cur(&self) -> int {
        match self.sub_key_list {
            Option::Some(cd) => match *cd {
                CellData::FastLeaf(x) => x.next_index as int,
                CellData::HashLeaf(x) => x.next_index as int,
                CellData::IndexLeaf(x) => x.next_index as int,
                _ => 0,
            },
            Option::None => 0,
        }
    }

    /// Whether this node's subkey cursor walks a root index.
    pub open spec fn cached_subkey_is_ri(&self, h: Seq<u8>) -> bool {
        match self.sub_key_list {
            Option::Some(cd) => match *cd {
                CellData::RootIndex(_) => true,
                _ => false,
            },
            Option::None => le_u16_spec(self.subkey_payload(h), 0) == 26994,
        }
    }

    /// Whether the root index this node's subkey cursor walks can keep
    /// yielding: its cached subleaf and every remaining entry are leaves.
    pub open spec fn cached_ri_cursor_ok(&self, h: Seq<u8>) -> bool {
        match self.sub_key_list {
            Option::Some(cd) => match *cd {
                CellData::RootIndex(x) => x.cursor_ok(h),
                _ => false,
            },
            Option::None => {
                &&& le_u16_spec(self.subkey_payload(h), 0) == 26994
                &&& crate::ri::ri_tail_ok(
                    h,
                    crate::ri::ri_entries_of(self.subkey_payload(h)),
                    0,
                )
            },
        }
    }

    /// The child offsets the root index behind this node's subkey cursor
    /// still has to yield.
    pub open spec fn cached_ri_remaining(&self, h: Seq<u8>) -> Seq<u32> {
        match self.sub_key_list {
            Option::Some(cd) => match *cd {
                CellData::RootIndex(x) => x.remaining_children(h),
                _ => Seq::empty(),
            },
            Option::None => crate::ri::ri_tail_entries(
                h,
                crate::ri::ri_entries_of(self.subkey_payload(h)),
                0,
            ),
        }
    }

    /// Yield this node's next child node, materializing the subkey list on
    /// the first call. Yields nothing when the node has no subkey list or
    /// the list is exhausted. Over a plain leaf list the children come in
    /// the storage order of its offset array.
    pub fn get_next_key(&mut self, hive: &[u8]) -> (r: Result<Option<NodeKey>, RegError>)
        ensures
            old(self).same_parsed(final(self)),
            final(self).value_key_list == old(self).value_key_list,
            final(self).security_key == old(self).security_key,
            old(self).offset_sub_key_list == 0xFFFFFFFFu32 ==> r is Ok && r->Ok_0 is None
                && *final(self) == *old(self),
            r matches Ok(Some(nk)) ==> exists|rel: u32| #[trigger] nk_from_cell(hive@, rel, nk),
            old(self).offset_sub_key_list != 0xFFFFFFFFu32 && old(self).sub_key_list is None
                && !subkey_cell_ok(hive@, old(self).offset_sub_key_list) ==> r is Err
                && final(self).sub_key_list is None,
            old(self).offset_sub_key_list != 0xFFFFFFFFu32 && (old(self).sub_key_list is Some
                || subkey_cell_ok(hive@, old(self).offset_sub_key_list))
                && old(self).cached_subkey_is_leaf(hive@) ==> {
                let es = old(self).cached_subkey_entries(hive@);
                let cur = old(self).cached_subkey_cur();
                &&& final(self).sub_key_list is Some
                &&& final(self).cached_subkey_is_leaf(hive@)
                &&& final(self).cached_subkey_entries(hive@) == es
                &&& (cur >= es.len() ==> r is Ok && r->Ok_0 is None
                    && final(self).cached_subkey_cur() == cur)
                &&& (0 <= cur < es.len() ==> {
                    let rel = es[cur];
                    &&& (r is Ok <==> nk_cell_ok(hive@, rel))
                    &&& (r matches Ok(o) ==> o matches Some(nk) && nk_from_cell(hive@, rel, nk)
                        && final(self).cached_subkey_cur() == cur + 1)
                    &&& (r is Err ==> final(self).cached_subkey_cur() == cur)
                })
            },
            old(self).offset_sub_key_list != 0xFFFFFFFFu32 && (old(self).sub_key_list is Some
                || subkey_cell_ok(hive@, old(self).offset_sub_key_list))
                && old(self).cached_ri_cursor_ok(hive@) ==> {
                let rem = old(self).cached_ri_remaining(hive@);
                &&& final(self).sub_key_list is Some
                &&& (rem.len() == 0 ==> r is Ok && r->Ok_0 is None)
                &&& (rem.len() > 0 ==> {
                    let rel = rem[0];
                    &&& (r is Ok <==> nk_cell_ok(hive@, rel))
                    &&& (r matches Ok(o) ==> o matches Some(nk) && nk_from_cell(hive@, rel, nk)
                        && final(self).cached_ri_cursor_ok(hive@)
                        && final(self).cached_ri_remaining(hive@) == rem.skip(1))
                    &&& (r is Err ==> final(self).cached_ri_cursor_ok(hive@)
                        && final(self).cached_ri_remaining(hive@) == rem)
                })
            },
            old(self).offset_sub_key_list != 0xFFFFFFFFu32 && (old(self).sub_key_list is Some
                || subkey_cell_ok(hive@, old(self).offset_sub_key_list))
                && !old(self).cached_subkey_is_leaf(hive@) && !old(self).cached_subkey_is_ri(
                hive@,
            ) ==> r is Err && r->Err_0.kind == ErrorKind::ValidationError,
    {
        if self.offset_sub_key_list == 0xFFFFFFFFu32 {
            return Ok(None);
        }
        if self.sub_key_list.is_none() {
            let cell = Cell::at_offset(hive, crate::hive::HBIN_START_OFFSET
                + self.offset_sub_key_list as u64)?;
            let cd = cell.get_data()?;
            self.sub_key_list = Some(Box::new(cd));
            proof {
                let payload = old(self).subkey_payload(hive@);
                if is_leaf_signature(payload) {
                    assert(self.cached_subkey_entries(hive@) =~= leaf_entries_of(payload));
                }
                if le_u16_spec(payload, 0) == 26994 {
                    match &self.sub_key_list {
                        Option::Some(cd) => match &**cd {
                            CellData::RootIndex(x) => {
                                assert(x.elements@ =~= crate::ri::ri_entries_of(payload));
                            },
                            _ => {},
                        },
                        Option::None => {},
                    }
                }
            }
        }
        match &mut self.sub_key_list {
            Option::Some(cd) => match &mut **cd {
                CellData::RootIndex(ri) => ri.get_next_key(hive),
                CellData::FastLeaf(lf) => lf.get_next_key(hive),
                CellData::HashLeaf(lh) => lh.get_next_key(hive),
                CellData::IndexLeaf(li) => li.get_next_key(hive),
                _ => Err(
                    RegError::validation_error("subkey list is not an index cell".to_owned()),
                ),
            },
            Option::None => Err(
                RegError::validation_error("subkey list was not materialized".to_owned()),
            ),
        }
    }

    /// Fetch and cache this node's security key. A failure to parse the
    /// descriptor leaves the node without one rather than failing.
    pub fn set_security_key(&mut self, hive: &[u8]) -> (r: Result<(), RegError>)
        ensures
            old(self).same_parsed(final(self)),
            final(self).value_key_list == old(self).value_key_list,
            final(self).sub_key_list == old(self).sub_key_list,
            old(self).offset_security_key == 0xFFFFFFFFu32 ==> r is Ok && *final(self) == *old(
                self,
            ),
            old(self).offset_security_key != 0xFFFFFFFFu32 ==> {
                let rel = old(self).offset_security_key;
                &&& (r is Ok <==> crate::sk::sk_envelope_ok(hive@, rel))
                &&& (r is Ok && crate::sk::sk_cell_ok(hive@, rel) ==> (
                    final(self).security_key matches Some(sk) && crate::sk::sk_from_cell(
                        hive@,
                        rel,
                        *sk,
                    )))
                &&& (r is Ok && !crate::sk::sk_cell_ok(hive@, rel) ==> final(self).security_key
                    == old(self).security_key)
                &&& (r is Err ==> final(self).security_key == old(self).security_key)
            },
    {
        if self.offset_security_key == 0xFFFFFFFFu32 {
            return Ok(());
        }
        let cell = Cell::at_offset(hive, crate::hive::HBIN_START_OFFSET
            + self.offset_security_key as u64)?;
        match cell.get_data() {
            Ok(CellData::SecurityKey(sk)) => {
                self.security_key = Some(Box::new(sk));
                Ok(())
            },
            Ok(_) => Err(
                RegError::validation_error("cell data is not a security key".to_owned()),
            ),
            Err(e) => {
                if e.kind == ErrorKind::SecDescParseError || e.kind == ErrorKind::UnknownAceType {
                    Ok(())
                } else {
                    Err(e)
                }
            },
        }
    }

    pub fn get_security_key(&self) -> (r: &Option<Box<SecurityKey>>)
        ensures
            *r == self.security_key,
    {
        &self.security_key
    }

    pub fn key_name(&self) -> (r: &String)
        ensures
            r@ == self.key_name@,
    {
        &self.key_name
    }

    pub fn get_last_written(&self) -> (r: u64)
        ensures
            r == self.last_written,
    {
        self.last_written
    }
}

} // verus!
