//! The `li` index leaf: a count followed by bare child-cell offsets.

use vstd::prelude::*;
use vstd::string::StringExecFns;
use crate::cell::Cell;
use crate::cell::CellData;
use crate::errors::ErrorKind;
use crate::errors::RegError;
use crate::hive::HBIN_START_OFFSET;
use crate::nk::NodeKey;
use crate::nk::nk_cell_ok;
use crate::nk::nk_from_cell;
use crate::utils;
use crate::utils::le_u16_spec;
use crate::utils::le_u32_spec;

verus! {

/// Whether an index leaf's fixed header and offset array fit in `b`.
pub open spec fn li_parses(b: Seq<u8>) -> bool {
    &&& b.len() >= 4
    &&& 4 + 4 * (le_u16_spec(b, 2) as int) <= b.len()
}

/// An index leaf: bare u32 child offsets, consumed through a forward cursor.
#[derive(Debug)]
pub struct IndexLeaf {
    pub _offset: u64,
    pub signature: u16,
    pub element_count: u16,
    pub elements: Vec<u32>,
    pub next_index: usize,
}

impl IndexLeaf {
    /// Whether the parsed fields are the decoding of `b`.
    pub open spec fn matches(&self, b: Seq<u8>) -> bool {
        &&& self.signature == le_u16_spec(b, 0)
        &&& self.element_count == le_u16_spec(b, 2)
        &&& self.elements@.len() == self.element_count
        &&& forall|i: int|
            0 <= i < self.elements@.len() ==> #[trigger] self.elements@[i] == le_u32_spec(
                b,
                4 + 4 * i,
            )
    }

    pub fn new(buffer: &[u8], offset: u64) -> (r: Result<IndexLeaf, RegError>)
        ensures
            r is Ok <==> li_parses(buffer@),
            r matches Ok(x) ==> x.matches(buffer@) && x.next_index == 0 && x._offset == offset,
            r matches Err(e) ==> e.kind == ErrorKind::ValidationError,
    {
        let len: usize = buffer.len();
        if len < 4 {
            return Err(RegError::validation_error("index leaf header out of range".to_owned()));
        }
        let signature = utils::read_u16_le(buffer, 0);
        let element_count = utils::read_u16_le(buffer, 2);
        if (len - 4) / 4 < element_count as usize {
            return Err(
                RegError::validation_error("index leaf offset array out of range".to_owned()),
            );
        }
        let mut elements: Vec<u32> = Vec::new();
        let mut i: usize = 0;
        while i < element_count as usize
            invariant
                li_parses(buffer@),
                element_count == le_u16_spec(buffer@, 2),
                len == buffer@.len(),
                i <= element_count as usize,
                elements@.len() == i,
                forall|j: int|
                    0 <= j < i ==> #[trigger] elements@[j] == le_u32_spec(buffer@, 4 + 4 * j),
            decreases element_count as usize - i,
        {
            let element = utils::read_u32_le(buffer, 4 + i * 4);
            elements.push(element);
            i += 1;
        }
        Ok(IndexLeaf { _offset: offset, signature, element_count, elements, next_index: 0 })
    }

    /// Whether `other` differs from `self` at most in its cursor position.
    pub open spec fn same_entries(&self, other: &IndexLeaf) -> bool {
        &&& self._offset == other._offset
        &&& self.signature == other.signature
        &&& self.element_count == other.element_count
        &&& self.elements == other.elements
    }

    /// Yield the child node at the cursor, or nothing once the offsets are
    /// exhausted; a call past the end keeps yielding nothing.
    pub fn get_next_key(&mut self, hive: &[u8]) -> (r: Result<Option<NodeKey>, RegError>)
        ensures
            old(self).same_entries(final(self)),
            old(self).next_index >= old(self).elements@.len() ==> r is Ok && r->Ok_0 is None
                && final(self).next_index == old(self).next_index,
            old(self).next_index < old(self).elements@.len() ==> {
                let rel = old(self).elements@[old(self).next_index as int];
                &&& (r is Ok <==> nk_cell_ok(hive@, rel))
                &&& (r matches Ok(o) ==> o matches Some(nk) && nk_from_cell(hive@, rel, nk)
                    && final(self).next_index == old(self).next_index + 1)
                &&& (r is Err ==> final(self).next_index == old(self).next_index)
            },
    {
        if self.next_index >= self.elements.len() {
            return Ok(None);
        }
        let rel: u32 = self.elements[self.next_index];
        let cell = Cell::at_offset(hive, HBIN_START_OFFSET + rel as u64)?;
        match cell.get_data()? {
            CellData::NodeKey(nk) => {
                self.next_index += 1;
                Ok(Some(nk))
            },
            _ => Err(RegError::validation_error("cell data is not a node key".to_owned())),
        }
    }
}

} // verus!
