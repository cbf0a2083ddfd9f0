//! The `ri` root index: one level of indirection whose entries point at
//! subleaf cells (`lf`, `lh` or `li`) holding the actual child offsets.

use vstd::prelude::*;
use vstd::string::StringExecFns;
use crate::cell::Cell;
use crate::cell::CellData;
use crate::errors::ErrorKind;
use crate::errors::RegError;
use crate::hive::HBIN_START_OFFSET;
use crate::nk::NodeKey;
use crate::nk::nk_from_cell;
use crate::utils;
use crate::utils::le_u16_spec;
use crate::utils::le_u32_spec;

verus! {

/// Whether a root index's fixed header and offset array fit in `b`.
pub open spec fn ri_parses(b: Seq<u8>) -> bool {
    &&& b.len() >= 4
    &&& 4 + 4 * (le_u16_spec(b, 2) as int) <= b.len()
}

/// Whether every subleaf entry of `elements` from `k` on frames a cell
/// whose payload parses as one of the three leaf kinds.
pub open spec fn ri_tail_ok(h: Seq<u8>, elements: Seq<u32>, k: int) -> bool {
    forall|i: int|
        k <= i < elements.len() ==> {
            &&& crate::cell::cell_framing_ok(h, 4096 + #[trigger] elements[i])
            &&& crate::cell::cell_data_parses(crate::cell::cell_payload(h, 4096 + elements[i]))
            &&& crate::nk::is_leaf_signature(crate::cell::cell_payload(h, 4096 + elements[i]))
        }
}

/// The concatenation, in order, of the child offsets held by the subleaf
/// cells that `elements[k..]` point at.
pub open spec fn ri_tail_entries(h: Seq<u8>, elements: Seq<u32>, k: int) -> Seq<u32>
    decreases elements.len() - k,
{
    if k < 0 || k >= elements.len() {
        Seq::empty()
    } else {
        crate::nk::leaf_entries_of(crate::cell::cell_payload(h, 4096 + elements[k]))
            + ri_tail_entries(h, elements, k + 1)
    }
}

/// The subleaf offsets a root-index payload holds, in storage order.
pub open spec fn ri_entries_of(b: Seq<u8>) -> Seq<u32> {
    Seq::new(le_u16_spec(b, 2) as nat, |i: int| le_u32_spec(b, 4 + 4 * i))
}

/// A root index: subleaf offsets, consumed through a two-level cursor that
/// walks each subleaf in turn.
#[derive(Debug)]
pub struct RootIndex {
    pub _offset: u64,
    pub signature: u16,
    pub element_count: u16,
    pub elements: Vec<u32>,
    pub next_index: usize,
    pub current_cell_data: Option<Box<CellData>>,
}

impl RootIndex {
    /// Whether the parsed fields are the decoding of `b`.
    pub open spec fn matches(&self, b: Seq<u8>) -> bool {
        &&& self.signature == le_u16_spec(b, 0)
        &&& self.element_count == le_u16_spec(b, 2)
        &&& self.elements@.len() == self.element_count
        &&& forall|i: int|
            0 <= i < self.elements@.len() ==> #[trigger] self.elements@[i] == le_u32_spec(
                b,
                4 + 4 * i,
            )
    }

    pub fn new(buffer: &[u8], offset: u64) -> (r: Result<RootIndex, RegError>)
        ensures
            r is Ok <==> ri_parses(buffer@),
            r matches Ok(x) ==> x.matches(buffer@) && x.next_index == 0 && x._offset == offset
                && x.current_cell_data is None,
            r matches Err(e) ==> e.kind == ErrorKind::ValidationError,
    {
        let len: usize = buffer.len();
        if len < 4 {
            return Err(RegError::validation_error("root index header out of range".to_owned()));
        }
        let signature = utils::read_u16_le(buffer, 0);
        let element_count = utils::read_u16_le(buffer, 2);
        if (len - 4) / 4 < element_count as usize {
            return Err(
                RegError::validation_error("root index offset array out of range".to_owned()),
            );
        }
        let mut elements: Vec<u32> = Vec::new();
        let mut i: usize = 0;
        while i < element_count as usize
            invariant
                ri_parses(buffer@),
                element_count == le_u16_spec(buffer@, 2),
                len == buffer@.len(),
                i <= element_count as usize,
                elements@.len() == i,
                forall|j: int|
                    0 <= j < i ==> #[trigger] elements@[j] == le_u32_spec(buffer@, 4 + 4 * j),
            decreases element_count as usize - i,
        {
            let element = utils::read_u32_le(buffer, 4 + i * 4);
            elements.push(element);
            i += 1;
        }
        Ok(
            RootIndex {
                _offset: offset,
                signature,
                element_count,
                elements,
                next_index: 0,
                current_cell_data: None,
            },
        )
    }

    /// Whether `other` differs from `self` at most in its cursor state.
    pub open spec fn same_entries(&self, other: &RootIndex) -> bool {
        &&& self._offset == other._offset
        &&& self.signature == other.signature
        &&& self.element_count == other.element_count
        &&& self.elements == other.elements
    }

    /// Whether the two-level cursor can keep walking leaves: the cached
    /// subleaf, if any, is a leaf kind with its cursor in range, and every
    /// remaining subleaf entry frames a cell that parses as a leaf.
    pub open spec fn cursor_ok(&self, h: Seq<u8>) -> bool {
        &&& ri_tail_ok(h, self.elements@, self.next_index as int)
        &&& match self.current_cell_data {
            Option::Some(cd) => match *cd {
                CellData::FastLeaf(x) => x.next_index <= x.elements@.len(),
                CellData::HashLeaf(x) => x.next_index <= x.elements@.len(),
                CellData::IndexLeaf(x) => x.next_index <= x.elements@.len(),
                _ => false,
            },
            Option::None => true,
        }
    }

    /// The child offsets still to be yielded, in order: the rest of the
    /// cached subleaf, then the entries of the remaining subleaves.
    pub open spec fn remaining_children(&self, h: Seq<u8>) -> Seq<u32> {
        let tail = ri_tail_entries(h, self.elements@, self.next_index as int);
        match self.current_cell_data {
            Option::Some(cd) => match *cd {
                CellData::FastLeaf(x) => x.elements@.map_values(
                    |e: crate::lf::FastElement| e.0,
                ).skip(x.next_index as int) + tail,
                CellData::HashLeaf(x) => x.elements@.map_values(
                    |e: crate::lh::HashElement| e.0,
                ).skip(x.next_index as int) + tail,
                CellData::IndexLeaf(x) => x.elements@.skip(x.next_index as int) + tail,
                _ => tail,
            },
            Option::None => tail,
        }
    }

    /// Load the subleaf cell the cursor points at and advance past it.
    /// Yields false once the subleaf offsets are exhausted.
    pub fn increment_current_cell_data(&mut self, hive: &[u8]) -> (r: Result<bool, RegError>)
        ensures
            old(self).same_entries(final(self)),
            old(self).next_index >= old(self).elements@.len() ==> r is Ok && r->Ok_0 == false
                && *final(self) == *old(self),
            old(self).next_index < old(self).elements@.len() ==> {
                let rel = old(self).elements@[old(self).next_index as int];
                let off = 4096 + rel;
                &&& (r is Ok <==> crate::cell::cell_framing_ok(hive@, off)
                    && crate::cell::cell_data_parses(crate::cell::cell_payload(hive@, off)))
                &&& (r is Ok ==> r->Ok_0 == true && final(self).next_index == old(self).next_index
                    + 1 && (final(self).current_cell_data matches Some(cd)
                    && crate::cell::cell_data_matches(*cd, crate::cell::cell_payload(hive@, off))))
                &&& (r is Err ==> final(self).next_index == old(self).next_index
                    && final(self).current_cell_data == old(self).current_cell_data)
            },
    {
        if self.next_index >= self.elements.len() {
            return Ok(false);
        }
        let rel: u32 = self.elements[self.next_index];
        let cell = Cell::at_offset(hive, HBIN_START_OFFSET + rel as u64)?;
        let cell_data = cell.get_data()?;
        self.current_cell_data = Some(Box::new(cell_data));
        self.next_index += 1;
        Ok(true)
    }

    /// Yield the next child node, walking each subleaf in turn; yields
    /// nothing once every subleaf is drained, and keeps yielding nothing.
    /// Over a well-formed index the children come in the storage order of
    /// the concatenated subleaf offset arrays.
    pub fn get_next_key(&mut self, hive: &[u8]) -> (r: Result<Option<NodeKey>, RegError>)
        ensures
            old(self).same_entries(final(self)),
            final(self).next_index >= old(self).next_index,
            r matches Ok(Some(nk)) ==> exists|rel: u32| #[trigger] nk_from_cell(hive@, rel, nk),
            old(self).cursor_ok(hive@) ==> {
                let rem = old(self).remaining_children(hive@);
                &&& (rem.len() == 0 ==> r is Ok && r->Ok_0 is None)
                &&& (rem.len() > 0 ==> {
                    let rel = rem[0];
                    &&& (r is Ok <==> crate::nk::nk_cell_ok(hive@, rel))
                    &&& (r matches Ok(o) ==> o matches Some(nk) && nk_from_cell(hive@, rel, nk)
                        && final(self).cursor_ok(hive@) && final(self).remaining_children(hive@)
                        == rem.skip(1))
                    &&& (r is Err ==> final(self).cursor_ok(hive@)
                        && final(self).remaining_children(hive@) == rem)
                })
            },
    {
        loop
            invariant
                old(self).same_entries(self),
                self.next_index >= old(self).next_index,
                old(self).cursor_ok(hive@) ==> self.cursor_ok(hive@) && self.remaining_children(
                    hive@,
                ) == old(self).remaining_children(hive@),
            ensures
                old(self).same_entries(self),
                self.next_index >= old(self).next_index,
            decreases 2 * (if self.next_index <= self.elements@.len() {
                self.elements@.len() + 1 - self.next_index
            } else {
                0int
            }) + (if self.current_cell_data is Some {
                1int
            } else {
                0int
            }),
        {
            if self.next_index >= self.elements.len() && self.current_cell_data.is_none() {
                return Ok(None);
            }
            if self.current_cell_data.is_none() {
                let ghost before_inc = *self;
                if !self.increment_current_cell_data(hive)? {
                    return Ok(None);
                }
                proof {
                    if old(self).cursor_ok(hive@) {
                        let es = self.elements@;
                        let kk = before_inc.next_index as int;
                        let p = crate::cell::cell_payload(hive@, 4096 + es[kk]);
                        match &self.current_cell_data {
                            Option::Some(cd) => {
                                match &**cd {
                                    CellData::FastLeaf(x) => {
                                        let m = x.elements@.map_values(
                                            |e: crate::lf::FastElement| e.0,
                                        );
                                        assert(m =~= crate::nk::leaf_entries_of(p));
                                        assert(m.skip(0) =~= m);
                                    },
                                    CellData::HashLeaf(x) => {
                                        let m = x.elements@.map_values(
                                            |e: crate::lh::HashElement| e.0,
                                        );
                                        assert(m =~= crate::nk::leaf_entries_of(p));
                                        assert(m.skip(0) =~= m);
                                    },
                                    CellData::IndexLeaf(x) => {
                                        assert(x.elements@ =~= crate::nk::leaf_entries_of(p));
                                        assert(x.elements@.skip(0) =~= x.elements@);
                                    },
                                    _ => {},
                                }
                            },
                            Option::None => {},
                        }
                        assert(self.remaining_children(hive@) == before_inc.remaining_children(
                            hive@,
                        ));
                        assert(self.cursor_ok(hive@));
                    }
                }
            }
            let ghost pre = *self;
            let mut yielded: Option<NodeKey> = Option::None;
            let mut drained = false;
            let mut failed: Option<RegError> = Option::None;
            match &mut self.current_cell_data {
                Option::Some(cd) => match &mut **cd {
                    CellData::HashLeaf(hl) => {
                        match hl.get_next_key(hive) {
                            Ok(Option::Some(nk)) => {
                                yielded = Option::Some(nk);
                            },
                            Ok(Option::None) => {
                                drained = true;
                            },
                            Err(e) => {
                                failed = Option::Some(e);
                            },
                        }
                    },
                    CellData::FastLeaf(lf) => {
                        match lf.get_next_key(hive) {
                            Ok(Option::Some(nk)) => {
                                yielded = Option::Some(nk);
                            },
                            Ok(Option::None) => {
                                drained = true;
                            },
                            Err(e) => {
                                failed = Option::Some(e);
                            },
                        }
                    },
                    CellData::IndexLeaf(li) => {
                        match li.get_next_key(hive) {
                            Ok(Option::Some(nk)) => {
                                yielded = Option::Some(nk);
                            },
                            Ok(Option::None) => {
                                drained = true;
                            },
                            Err(e) => {
                                failed = Option::Some(e);
                            },
                        }
                    },
                    _ => {
                        return Err(
                            RegError::validation_error(
                                "root index entry is not a subleaf".to_owned(),
                            ),
                        );
                    },
                },
                Option::None => {
                    return Err(
                        RegError::validation_error("root index lost its subleaf".to_owned()),
                    );
                },
            }
            proof {
                if old(self).cursor_ok(hive@) {
                    let tail = ri_tail_entries(hive@, self.elements@, self.next_index as int);
                    match pre.current_cell_data {
                        Option::Some(cd0) => {
                            match *cd0 {
                                CellData::HashLeaf(x0) => {
                                    let m = x0.elements@.map_values(
                                        |e: crate::lh::HashElement| e.0,
                                    );
                                    let cur = x0.next_index as int;
                                    if cur < m.len() {
                                        assert(m.skip(cur)[0] == m[cur]);
                                        assert((m.skip(cur) + tail).skip(1) =~= m.skip(cur + 1)
                                            + tail);
                                    } else {
                                        assert(m.skip(cur) =~= Seq::<u32>::empty());
                                        assert(m.skip(cur) + tail =~= tail);
                                    }
                                    match &self.current_cell_data {
                                        Option::Some(cd1) => match &**cd1 {
                                            CellData::HashLeaf(x1) => {
                                                assert(x1.elements@.map_values(
                                                    |e: crate::lh::HashElement| e.0,
                                                ) == m);
                                            },
                                            _ => {},
                                        },
                                        Option::None => {},
                                    }
                                },
                                CellData::FastLeaf(x0) => {
                                    let m = x0.elements@.map_values(
                                        |e: crate::lf::FastElement| e.0,
                                    );
                                    let cur = x0.next_index as int;
                                    if cur < m.len() {
                                        assert(m.skip(cur)[0] == m[cur]);
                                        assert((m.skip(cur) + tail).skip(1) =~= m.skip(cur + 1)
                                            + tail);
                                    } else {
                                        assert(m.skip(cur) =~= Seq::<u32>::empty());
                                        assert(m.skip(cur) + tail =~= tail);
                                    }
                                    match &self.current_cell_data {
                                        Option::Some(cd1) => match &**cd1 {
                                            CellData::FastLeaf(x1) => {
                                                assert(x1.elements@.map_values(
                                                    |e: crate::lf::FastElement| e.0,
                                                ) == m);
                                            },
                                            _ => {},
                                        },
                                        Option::None => {},
                                    }
                                },
                                CellData::IndexLeaf(x0) => {
                                    let m = x0.elements@;
                                    let cur = x0.next_index as int;
                                    if cur < m.len() {
                                        assert(m.skip(cur)[0] == m[cur]);
                                        assert((m.skip(cur) + tail).skip(1) =~= m.skip(cur + 1)
                                            + tail);
                                    } else {
                                        assert(m.skip(cur) =~= Seq::<u32>::empty());
                                        assert(m.skip(cur) + tail =~= tail);
                                    }
                                },
                                _ => {},
                            }
                        },
                        Option::None => {},
                    }
                }
            }
            if let Option::Some(nk) = yielded {
                return Ok(Option::Some(nk));
            }
            if let Option::Some(e) = failed {
                return Err(e);
            }
            if drained {
                self.current_cell_data = Option::None;
                if self.next_index >= self.elements.len() {
                    return Ok(None);
                }
            }
        }
    }
}

} // verus!
