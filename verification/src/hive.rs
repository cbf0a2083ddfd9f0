//! The hive handle and its traversal engine: a depth-first walk over the
//! key tree that emits one record per value, values of a node before its
//! children, in value-list and subkey-list storage order.

use vstd::prelude::*;
use vstd::slice::slice_subrange;
use vstd::string::StringExecFns;
use crate::baseblock::BaseBlock;
use crate::baseblock::REGF_SIGNATURE;
use crate::cell::Cell;
use crate::cell::CellData;
use crate::errors::ErrorKind;
use crate::errors::RegError;
use crate::nk::NodeKey;
use crate::nk::nk_cell_ok;
use crate::nk::nk_from_cell;
use crate::record::Record;
use crate::utils::le_u32_spec;

verus! {

/// The absolute file offset of the first hive bin: the origin every cell
/// offset stored in a record is relative to.
pub const HBIN_START_OFFSET: u64 = 4096;

/// Whether `buffer` begins with the `regf` signature: the four-byte sniff
/// that filters candidate hive files.
pub fn has_hive_signature(buffer: &[u8]) -> (r: bool)
    ensures
        r == (buffer@.len() >= 4 && le_u32_spec(buffer@, 0) == REGF_SIGNATURE),
{
    let len: usize = buffer.len();
    if len < 4 {
        return false;
    }
    crate::utils::read_u32_le(buffer, 0) == REGF_SIGNATURE
}

/// The names of the node keys on the traversal stack, outermost first.
pub open spec fn stack_names(stack: Seq<NodeKey>) -> Seq<Seq<char>> {
    stack.map_values(|n: NodeKey| n.key_name@)
}

/// The back-slash separated, root-inclusive path built from `names`: one
/// separator before each component.
pub open spec fn path_prefix(names: Seq<Seq<char>>) -> Seq<char>
    decreases names.len(),
{
    if names.len() == 0 {
        Seq::empty()
    } else {
        path_prefix(names.drop_last()) + seq!['\\'] + names.last()
    }
}

/// Join the names of the stacked nodes and of `top` into one path.
fn join_path_with(stack: &Vec<NodeKey>, top: &NodeKey) -> (out: String)
    ensures
        out@ == path_prefix(stack_names(stack@.push(*top))),
{
    let mut out = String::new();
    let n: usize = stack.len();
    let mut i: usize = 0;
    while i < n
        invariant
            i <= n,
            n == stack@.len(),
            out@ == path_prefix(stack_names(stack@.take(i as int))),
        decreases n - i,
    {
        out.push('\\');
        out.append(stack[i].key_name.as_str());
        i += 1;
        proof {
            let pre = stack_names(stack@.take(i as int));
            assert(pre.drop_last() =~= stack_names(stack@.take(i - 1)));
            assert(pre.last() == stack@[i - 1].key_name@);
            assert(out@ =~= path_prefix(pre));
        }
    }
    out.push('\\');
    out.append(top.key_name.as_str());
    proof {
        assert(stack@.take(n as int) =~= stack@);
        let all = stack_names(stack@.push(*top));
        assert(all.drop_last() =~= stack_names(stack@));
        assert(all.last() == top.key_name@);
        assert(out@ =~= path_prefix(all));
    }
    out
}

/// Whether a traversal frame is exhausted: its value cursor has no entry
/// left to yield and its subkey cursor no child. Such a frame is popped.
#[verifier::opaque]
pub open spec fn frame_drained(top: NodeKey, h: Seq<u8>) -> bool {
    &&& (top.offset_value_list == 0xFFFFFFFFu32 || ((top.value_key_list is Some
        || crate::nk::value_list_cell_ok(h, top.offset_value_list, top.num_values)) && {
        let offs = top.cached_list_offsets(h);
        crate::vk::skip_zeros(offs, top.cached_list_cur()) >= offs.len()
    }))
    &&& (top.offset_sub_key_list == 0xFFFFFFFFu32 || ((top.sub_key_list is Some
        || crate::nk::subkey_cell_ok(h, top.offset_sub_key_list)) && ((
    top.cached_subkey_is_leaf(h) && top.cached_subkey_cur() >= top.cached_subkey_entries(
        h,
    ).len()) || (top.cached_ri_cursor_ok(h) && top.cached_ri_remaining(h).len() == 0))))
}

/// One outcome of a traversal step: a record was emitted, the walk is
/// drained, or a frame was pushed or popped and the walk goes on.
enum Step {
    Emit(Record),
    Drained,
    Advanced,
}

/// An open hive: the file bytes, the parsed base block, and the state of
/// one depth-first traversal.
pub struct Hive {
    pub buffer: Vec<u8>,
    pub baseblock: Box<BaseBlock>,
    pub node_stack: Vec<NodeKey>,
    pub started: bool,
    pub done: bool,
    pub steps_left: u64,
}

/// Whether the top traversal frame has a pending value: its next non-zero
/// value-list entry parses as a value key whose datum resolves. From such
/// a state the next step must emit a record.
#[verifier::opaque]
pub open spec fn top_value_pending(stack: Seq<NodeKey>, h: Seq<u8>) -> bool {
    &&& stack.len() >= 1
    &&& {
        let top = stack.last();
        &&& top.offset_value_list != 0xFFFFFFFFu32
        &&& (top.value_key_list is Some || crate::nk::value_list_cell_ok(
            h,
            top.offset_value_list,
            top.num_values,
        ))
        &&& {
            let offs = top.cached_list_offsets(h);
            let j = crate::vk::skip_zeros(offs, top.cached_list_cur());
            &&& 0 <= j < offs.len()
            &&& crate::vk::vk_cell_ok(h, offs[j])
            &&& crate::vk::vk_cell_resolves(h, offs[j])
        }
    }
}

/// Whether the top traversal frame has a pending child: its value cursor
/// is drained, its subkey cursor stands on a leaf entry that parses as a
/// node key, and that child's security key, if any, is at least a framed
/// `sk` envelope. From such a state the next step must descend.
#[verifier::opaque]
pub open spec fn top_child_pending(stack: Seq<NodeKey>, h: Seq<u8>) -> bool {
    &&& stack.len() >= 1
    &&& {
        let top = stack.last();
        &&& (top.offset_value_list == 0xFFFFFFFFu32 || ((top.value_key_list is Some
            || crate::nk::value_list_cell_ok(h, top.offset_value_list, top.num_values)) && {
            let offs = top.cached_list_offsets(h);
            crate::vk::skip_zeros(offs, top.cached_list_cur()) >= offs.len()
        }))
        &&& top.offset_sub_key_list != 0xFFFFFFFFu32
        &&& (top.sub_key_list is Some || crate::nk::subkey_cell_ok(h, top.offset_sub_key_list))
        &&& top.cached_subkey_is_leaf(h)
        &&& {
            let es = top.cached_subkey_entries(h);
            let cur = top.cached_subkey_cur();
            &&& 0 <= cur < es.len()
            &&& crate::nk::nk_cell_ok(h, es[cur])
            &&& {
                let child = crate::cell::cell_payload(h, 4096 + es[cur]);
                le_u32_spec(child, 44) == 0xFFFFFFFFu32 || crate::sk::sk_envelope_ok(
                    h,
                    le_u32_spec(child, 44),
                )
            }
        }
    }
}

impl Hive {
    /// Open a hive over its file bytes: parse and validate the base block.
    pub fn from_source(source: Vec<u8>) -> (r: Result<Hive, RegError>)
        ensures
            r is Ok <==> source@.len() >= 4096 && le_u32_spec(source@, 0) == REGF_SIGNATURE,
            r matches Ok(h) ==> {
                &&& h.buffer@ == source@
                &&& h.baseblock.matches(source@.subrange(0, 4096))
                &&& h.node_stack@.len() == 0
                &&& !h.started
                &&& !h.done
            },
            r matches Err(e) ==> e.kind == ErrorKind::ValidationError,
    {
        let len: usize = source.len();
        if len < 4096 {
            return Err(RegError::validation_error("hive is shorter than a base block".to_owned()));
        }
        let baseblock = BaseBlock::new(slice_subrange(source.as_slice(), 0, 4096), 0)?;
        let steps_left: u64 = if len as u64 > u64::MAX - 64 {
            u64::MAX
        } else {
            len as u64 + 64
        };
        Ok(
            Hive {
                buffer: source,
                baseblock: Box::new(baseblock),
                node_stack: Vec::new(),
                started: false,
                done: false,
                steps_left,
            },
        )
    }

    /// Read the root node at the offset the base block reports.
    pub fn get_root_node(&mut self) -> (r: Result<NodeKey, RegError>)
        ensures
            *final(self) == *old(self),
            r is Ok <==> nk_cell_ok(old(self).buffer@, old(self).baseblock.root_cell_offset),
            r matches Ok(nk) ==> nk_from_cell(
                old(self).buffer@,
                old(self).baseblock.root_cell_offset,
                nk,
            ),
    {
        let offset: u64 = HBIN_START_OFFSET + self.baseblock.root_cell_offset() as u64;
        let cell = Cell::at_offset(self.buffer.as_slice(), offset)?;
        match cell.get_data()? {
            CellData::NodeKey(nk) => Ok(nk),
            _ => Err(RegError::validation_error("root cell is not a node key".to_owned())),
        }
    }

    /// Take one traversal step: emit the top frame's next value, else push
    /// its next child, else pop the frame; report exhaustion on an empty
    /// stack. Leaves the open-file state and the step budget untouched.
    fn advance(&mut self) -> (r: Result<Step, RegError>)
        ensures
            final(self).buffer == old(self).buffer,
            final(self).baseblock == old(self).baseblock,
            final(self).started == old(self).started,
            final(self).done == old(self).done,
            final(self).steps_left == old(self).steps_left,
            old(self).node_stack@.len() == 0 ==> r is Ok && r->Ok_0 is Drained,
            top_value_pending(old(self).node_stack@, old(self).buffer@) ==> r is Ok
                && r->Ok_0 is Emit,
            old(self).node_stack@.len() >= 1 && frame_drained(
                old(self).node_stack@.last(),
                old(self).buffer@,
            ) ==> r is Ok && r->Ok_0 is Advanced && final(self).node_stack@ == old(
                self,
            ).node_stack@.drop_last(),
            top_child_pending(old(self).node_stack@, old(self).buffer@) ==> r is Ok
                && r->Ok_0 is Advanced && final(self).node_stack@.len() == old(
                self,
            ).node_stack@.len() + 1,
            r matches Ok(Step::Emit(rec)) ==> final(self).node_stack@.len() >= 1
                && rec.fullpath@ == path_prefix(stack_names(final(self).node_stack@))
                + seq!['\\'] + rec.valuekey.value_name@,
            r matches Ok(Step::Emit(rec)) ==> rec.nk_last_written
                == final(self).node_stack@.last().last_written
                && (final(self).node_stack@.last().security_key is Some
                <==> rec.security is Some),
            r matches Ok(Step::Emit(rec)) ==> exists|rel: u32|
                #[trigger] crate::vk::vk_cell_ok(old(self).buffer@, rel)
                    && rec.valuekey.matches(
                    crate::cell::cell_payload(old(self).buffer@, 4096 + rel),
                ) && rec.valuekey.data@ == rec.valuekey.resolved_data(old(self).buffer@),
    {
        proof {
            reveal(crate::hive::frame_drained);
            reveal(crate::hive::top_value_pending);
            reveal(crate::hive::top_child_pending);
        }
        if self.node_stack.len() == 0 {
            return Ok(Step::Drained);
        }
        let mut top = self.node_stack.pop().unwrap();
        let ghost top_before = top;
        match top.get_next_value(self.buffer.as_slice()) {
            Err(e) => {
                self.node_stack.push(top);
                Err(e)
            },
            Ok(Some(mut vk)) => {
                let ghost vk_parsed = vk;
                proof {
                    if top_value_pending(old(self).node_stack@, old(self).buffer@) {
                        let h = old(self).buffer@;
                        let top0 = old(self).node_stack@.last();
                        let offs = top0.cached_list_offsets(h);
                        crate::vk::lemma_skip_zeros_bounds(offs, top0.cached_list_cur());
                        let j = crate::vk::skip_zeros(offs, top0.cached_list_cur());
                        crate::vk::lemma_resolves_agrees(h, offs[j], vk_parsed);
                    }
                }
                match vk.read_value(self.buffer.as_slice()) {
                    Err(e) => {
                        self.node_stack.push(top);
                        return Err(e);
                    },
                    Ok(_) => {},
                }
                proof {
                    let h = old(self).buffer@;
                    let offs = top_before.cached_list_offsets(h);
                    crate::vk::lemma_skip_zeros_bounds(offs, top_before.cached_list_cur());
                    let j = crate::vk::skip_zeros(offs, top_before.cached_list_cur());
                    assert(crate::vk::vk_from_cell(h, offs[j], vk_parsed));
                    assert(crate::vk::vk_cell_ok(h, offs[j]));
                    assert(vk.matches(crate::cell::cell_payload(h, 4096 + offs[j])));
                    assert(vk.data@ == vk.resolved_data(h));
                }
                let path = join_path_with(&self.node_stack, &top);
                let record = Record::new(path.as_str(), &top, vk);
                self.node_stack.push(top);
                Ok(Step::Emit(record))
            },
            Ok(None) => {
                match top.get_next_key(self.buffer.as_slice()) {
                    Err(e) => {
                        self.node_stack.push(top);
                        Err(e)
                    },
                    Ok(Some(mut key)) => {
                        match key.set_security_key(self.buffer.as_slice()) {
                            Err(e) => {
                                self.node_stack.push(top);
                                return Err(e);
                            },
                            Ok(_) => {},
                        }
                        self.node_stack.push(top);
                        self.node_stack.push(key);
                        Ok(Step::Advanced)
                    },
                    Ok(None) => Ok(Step::Advanced),
                }
            },
        }
    }

    /// Yield the next record of the depth-first traversal: all values of a
    /// node, in value-list order, before any of its subkeys is descended.
    /// After exhaustion or an error the traversal stays exhausted. The walk
    /// is budgeted by a step counter so that a hive whose offsets form a
    /// cycle is reported as malformed instead of looping.
    #[verifier::rlimit(60)]
    pub fn get_next_value(&mut self) -> (r: Result<Option<Record>, RegError>)
        ensures
            final(self).buffer == old(self).buffer,
            final(self).baseblock == old(self).baseblock,
            old(self).done ==> r is Ok && r->Ok_0 is None && *final(self) == *old(self),
            r is Err ==> final(self).done,
            r matches Ok(None) ==> final(self).done,
            r matches Ok(Some(rec)) ==> final(self).node_stack@.len() >= 1 && rec.fullpath@
                == path_prefix(stack_names(final(self).node_stack@)) + seq!['\\']
                + rec.valuekey.value_name@,
            r matches Ok(Some(rec)) ==> rec.nk_last_written
                == final(self).node_stack@.last().last_written
                && (final(self).node_stack@.last().security_key is Some
                <==> rec.security is Some),
            r matches Ok(Some(rec)) ==> exists|rel: u32|
                #[trigger] crate::vk::vk_cell_ok(old(self).buffer@, rel)
                    && rec.valuekey.matches(
                    crate::cell::cell_payload(old(self).buffer@, 4096 + rel),
                ) && rec.valuekey.data@ == rec.valuekey.resolved_data(old(self).buffer@),
            !old(self).done && old(self).started && old(self).steps_left > 0
                && top_value_pending(old(self).node_stack@, old(self).buffer@) ==> r is Ok
                && r->Ok_0 is Some,
            !old(self).done && old(self).started && old(self).steps_left > 1
                && old(self).node_stack@.len() == 1 && frame_drained(
                old(self).node_stack@.last(),
                old(self).buffer@,
            ) ==> r is Ok && r->Ok_0 is None,
    {
        if self.done {
            return Ok(None);
        }
        if !self.started {
            self.started = true;
            let node = match self.get_root_node() {
                Ok(n) => n,
                Err(e) => {
                    self.done = true;
                    return Err(e);
                },
            };
            self.node_stack.push(node);
        }
        let ghost mut steps_taken: int = 0;
        loop
            invariant
                self.buffer == old(self).buffer,
                self.baseblock == old(self).baseblock,
                !old(self).done,
                !self.done,
                self.started,
                steps_taken >= 0,
                steps_taken == 0 && old(self).started ==> self.node_stack == old(
                    self,
                ).node_stack,
                steps_taken >= 1 ==> !(old(self).started && old(self).steps_left > 0
                    && top_value_pending(old(self).node_stack@, old(self).buffer@)),
                steps_taken == 0 ==> self.steps_left == old(self).steps_left,
                old(self).started && old(self).steps_left > 1 && old(self).node_stack@.len()
                    == 1 && frame_drained(old(self).node_stack@.last(), old(self).buffer@)
                    && steps_taken == 1 ==> self.node_stack@.len() == 0 && self.steps_left
                    > 0,
                steps_taken >= 2 ==> !(old(self).started && old(self).steps_left > 1 && old(
                    self,
                ).node_stack@.len() == 1 && frame_drained(
                    old(self).node_stack@.last(),
                    old(self).buffer@,
                )),
            decreases self.steps_left,
        {
            if self.steps_left == 0 {
                self.done = true;
                return Err(
                    RegError::validation_error(
                        "traversal step budget exhausted: the hive's offsets form a cycle".to_owned(),
                    ),
                );
            }
            self.steps_left = self.steps_left - 1;
            match self.advance() {
                Err(e) => {
                    self.done = true;
                    return Err(e);
                },
                Ok(Step::Emit(record)) => {
                    return Ok(Some(record));
                },
                Ok(Step::Drained) => {
                    self.done = true;
                    return Ok(None);
                },
                Ok(Step::Advanced) => {},
            }
            proof {
                steps_taken = steps_taken + 1;
            }
        }
    }
}

} // verus!
