//! The `lh` hash leaf: a count followed by (child-offset, name hash) pairs.

use vstd::prelude::*;
use vstd::string::StringExecFns;
use crate::cell::Cell;
use crate::cell::CellData;
use crate::hive::HBIN_START_OFFSET;
use crate::nk::NodeKey;
use crate::nk::nk_cell_ok;
use crate::nk::nk_from_cell;
use crate::errors::ErrorKind;
use crate::errors::RegError;
use crate::utils;
use crate::utils::le_u16_spec;
use crate::utils::le_u32_spec;

verus! {

/// Whether a hash leaf's fixed header and element array fit in `b`.
pub open spec fn lh_parses(b: Seq<u8>) -> bool {
    &&& b.len() >= 4
    &&& 4 + 8 * (le_u16_spec(b, 2) as int) <= b.len()
}

/// One hash-leaf element: a child-cell offset and a 4-byte name hash.
#[derive(Debug)]
pub struct HashElement(pub u32, pub u32);

impl HashElement {
    /// Whether this element is the decoding of the 8 bytes at `o` in `b`.
    pub open spec fn matches(&self, b: Seq<u8>, o: int) -> bool {
        &&& self.0 == le_u32_spec(b, o)
        &&& self.1 == le_u32_spec(b, o + 4)
    }

    pub fn new(buffer: &[u8], o: usize) -> (r: HashElement)
        requires
            o + 8 <= buffer@.len(),
        ensures
            r.matches(buffer@, o as int),
    {
        let n: usize = buffer.len();
        HashElement(utils::read_u32_le(buffer, o), utils::read_u32_le(buffer, o + 4))
    }

    pub fn get_offset(&self) -> (r: &u32)
        ensures
            *r == self.0,
    {
        &self.0
    }
}

/// A hash leaf: child offsets with name hashes, consumed through a forward
/// cursor.
#[derive(Debug)]
pub struct HashLeaf {
    pub _offset: u64,
    pub signature: u16,
    pub element_count: u16,
    pub elements: Vec<HashElement>,
    pub next_index: usize,
}

impl HashLeaf {
    /// Whether the parsed fields are the decoding of `b`.
    pub open spec fn matches(&self, b: Seq<u8>) -> bool {
        &&& self.signature == le_u16_spec(b, 0)
        &&& self.element_count == le_u16_spec(b, 2)
        &&& self.elements@.len() == self.element_count
        &&& forall|i: int|
            0 <= i < self.elements@.len() ==> (#[trigger] self.elements@[i]).matches(
                b,
                4 + 8 * i,
            )
    }

    pub fn new(buffer: &[u8], offset: u64) -> (r: Result<HashLeaf, RegError>)
        ensures
            r is Ok <==> lh_parses(buffer@),
            r matches Ok(x) ==> x.matches(buffer@) && x.next_index == 0 && x._offset == offset,
            r matches Err(e) ==> e.kind == ErrorKind::ValidationError,
    {
        let len: usize = buffer.len();
        if len < 4 {
            return Err(RegError::validation_error("hash leaf header out of range".to_owned()));
        }
        let signature = utils::read_u16_le(buffer, 0);
        let element_count = utils::read_u16_le(buffer, 2);
        if (len - 4) / 8 < element_count as usize {
            return Err(
                RegError::validation_error("hash leaf element array out of range".to_owned()),
            );
        }
        let mut elements: Vec<HashElement> = Vec::new();
        let mut i: usize = 0;
        while i < element_count as usize
            invariant
                lh_parses(buffer@),
                element_count == le_u16_spec(buffer@, 2),
                len == buffer@.len(),
                i <= element_count as usize,
                elements@.len() == i,
                forall|j: int|
                    0 <= j < i ==> (#[trigger] elements@[j]).matches(buffer@, 4 + 8 * j),
            decreases element_count as usize - i,
        {
            let element = HashElement::new(buffer, 4 + i * 8);
            elements.push(element);
            i += 1;
        }
        Ok(HashLeaf { _offset: offset, signature, element_count, elements, next_index: 0 })
    }

    /// Whether `other` differs from `self` at most in its cursor position.
    pub open spec fn same_entries(&self, other: &HashLeaf) -> bool {
        &&& self._offset == other._offset
        &&& self.signature == other.signature
        &&& self.element_count == other.element_count
        &&& self.elements == other.elements
    }

    /// Yield the child node at the cursor, or nothing once the offsets are
    /// exhausted; a call past the end keeps yielding nothing.
    pub fn get_next_key(&mut self, hive: &[u8]) -> (r: Result<Option<NodeKey>, RegError>)
        ensures
            old(self).same_entries(final(self)),
            old(self).next_index >= old(self).elements@.len() ==> r is Ok && r->Ok_0 is None
                && final(self).next_index == old(self).next_index,
            old(self).next_index < old(self).elements@.len() ==> {
                let rel = old(self).elements@[old(self).next_index as int].0;
                &&& (r is Ok <==> nk_cell_ok(hive@, rel))
                &&& (r matches Ok(o) ==> o matches Some(nk) && nk_from_cell(hive@, rel, nk)
                    && final(self).next_index == old(self).next_index + 1)
                &&& (r is Err ==> final(self).next_index == old(self).next_index)
            },
    {
        if self.next_index >= self.elements.len() {
            return Ok(None);
        }
        let rel: u32 = self.elements[self.next_index].0;
        let cell = Cell::at_offset(hive, HBIN_START_OFFSET + rel as u64)?;
        match cell.get_data()? {
            CellData::NodeKey(nk) => {
                self.next_index += 1;
                Ok(Some(nk))
            },
            _ => Err(RegError::validation_error("cell data is not a node key".to_owned())),
        }
    }
}

} // verus!
