//! The `sk` security key: the envelope around a stored Windows security
//! descriptor, shared by reference among node keys.

use vstd::prelude::*;
use vstd::string::StringExecFns;
use crate::errors::ErrorKind;
use crate::errors::RegError;
use crate::utils;
use crate::utils::le_u16_spec;
use crate::utils::le_u32_spec;
use winstructs::security::SecurityDescriptor;

verus! {

#[verifier::external_type_specification]
#[verifier::external_body]
pub struct ExSecurityDescriptor(SecurityDescriptor);

/// Relies on winstructs' derived Clone for SecurityDescriptor: a clone of
/// this plain-data struct equals the original.
pub assume_specification[ <SecurityDescriptor as Clone>::clone ](
    d: &SecurityDescriptor,
) -> (r: SecurityDescriptor)
    ensures
        r == *d,
;

/// Whether winstructs' security-descriptor parser accepts these bytes.
/// Named, not spelled out: the result is a function of the bytes alone.
pub uninterp spec fn sec_desc_parses(b: Seq<u8>) -> bool;

/// Whether walking `n` ACEs from `pos` reaches one whose stored size is
/// below 4. The outside parser subtracts 4 from that size unchecked, so
/// such bytes must never reach it; the walk otherwise mirrors the parser:
/// it stops at the end of the bytes or at an unknown ACE type code.
pub open spec fn ace_walk_panics(b: Seq<u8>, pos: int, n: int) -> bool
    decreases n,
{
    if n <= 0 {
        false
    } else if pos < 0 || pos + 1 > b.len() {
        false
    } else if b[pos] > 0x15 {
        false
    } else if pos + 4 > b.len() {
        false
    } else if le_u16_spec(b, pos + 2) < 4 {
        true
    } else if pos + le_u16_spec(b, pos + 2) > b.len() {
        false
    } else {
        ace_walk_panics(b, pos + le_u16_spec(b, pos + 2), n - 1)
    }
}

/// Whether walking `n` ACEs from `pos` reads all of them in full: every
/// type code known, every stored size at least 4, every record inside the
/// bytes.
pub open spec fn ace_walk_completes(b: Seq<u8>, pos: int, n: int) -> bool
    decreases n,
{
    if n <= 0 {
        true
    } else if pos < 0 || pos + 1 > b.len() {
        false
    } else if b[pos] > 0x15 {
        false
    } else if pos + 4 > b.len() {
        false
    } else if le_u16_spec(b, pos + 2) < 4 {
        false
    } else if pos + le_u16_spec(b, pos + 2) > b.len() {
        false
    } else {
        ace_walk_completes(b, pos + le_u16_spec(b, pos + 2), n - 1)
    }
}

/// Whether the ACL at `off` reaches an undersized ACE. An unreadable ACL
/// header stops the parser with an error before any ACE is touched.
pub open spec fn acl_panics(b: Seq<u8>, off: int) -> bool {
    if off < 0 || off + 8 > b.len() {
        false
    } else {
        ace_walk_panics(b, off + 8, le_u16_spec(b, off + 4) as int)
    }
}

/// Whether the ACL at `off` parses in full.
pub open spec fn acl_completes(b: Seq<u8>, off: int) -> bool {
    &&& 0 <= off
    &&& off + 8 <= b.len()
    &&& ace_walk_completes(b, off + 8, le_u16_spec(b, off + 4) as int)
}

/// Whether the outside descriptor parser stays clear of its unchecked
/// ACE-size arithmetic on these bytes. The walk mirrors the parser: the
/// DACL is parsed first when its offset is non-zero, and the SACL only
/// when the DACL was absent or parsed in full.
pub open spec fn desc_walk_safe(b: Seq<u8>) -> bool {
    if b.len() < 20 {
        true
    } else {
        let sacl = le_u32_spec(b, 12) as int;
        let dacl = le_u32_spec(b, 16) as int;
        &&& (dacl > 0 ==> !acl_panics(b, dacl))
        &&& ((dacl == 0 || acl_completes(b, dacl)) && sacl > 0 ==> !acl_panics(b, sacl))
    }
}

/// Walk up to `n` ACEs from `start`, reporting whether the walk reaches an
/// undersized ACE and whether it reads every ACE in full.
fn ace_walk_check(b: &[u8], start: usize, n: u16) -> (r: (bool, bool))
    requires
        start <= b@.len(),
    ensures
        r.0 == ace_walk_panics(b@, start as int, n as int),
        r.1 == ace_walk_completes(b@, start as int, n as int),
{
    let len: usize = b.len();
    let mut pos: usize = start;
    let mut k: u16 = n;
    loop
        invariant
            len == b@.len(),
            pos <= len,
            ace_walk_panics(b@, start as int, n as int) == ace_walk_panics(
                b@,
                pos as int,
                k as int,
            ),
            ace_walk_completes(b@, start as int, n as int) == ace_walk_completes(
                b@,
                pos as int,
                k as int,
            ),
        decreases k,
    {
        if k == 0 {
            return (false, true);
        }
        if pos >= len {
            return (false, false);
        }
        if *vstd::slice::slice_index_get(b, pos) > 0x15 {
            return (false, false);
        }
        if len - pos < 4 {
            return (false, false);
        }
        let size: u16 = utils::read_u16_le(b, pos + 2);
        if size < 4 {
            return (true, false);
        }
        if (size as u64) > (len as u64) - (pos as u64) {
            return (false, false);
        }
        pos = pos + size as usize;
        k = k - 1;
    }
}

/// Whether the ACL at relative offset `off` reaches an undersized ACE, and
/// whether it parses in full.
fn acl_check(b: &[u8], off: u32) -> (r: (bool, bool))
    ensures
        r.0 == acl_panics(b@, off as int),
        r.1 == acl_completes(b@, off as int),
{
    let len: usize = b.len();
    if (off as u64) + 8 > (len as u64) {
        return (false, false);
    }
    let count: u16 = utils::read_u16_le(b, off as usize + 4);
    ace_walk_check(b, off as usize + 8, count)
}

/// Whether these descriptor bytes may be handed to the outside parser.
fn check_desc_walk_safe(b: &[u8]) -> (r: bool)
    ensures
        r == desc_walk_safe(b@),
{
    let len: usize = b.len();
    if len < 20 {
        return true;
    }
    let sacl: u32 = utils::read_u32_le(b, 12);
    let dacl: u32 = utils::read_u32_le(b, 16);
    let mut dacl_completes = false;
    if dacl > 0 {
        let (dacl_panics, completes) = acl_check(b, dacl);
        if dacl_panics {
            return false;
        }
        dacl_completes = completes;
    }
    if (dacl == 0 || dacl_completes) && sacl > 0 {
        let (sacl_panics, _sacl_completes) = acl_check(b, sacl);
        if sacl_panics {
            return false;
        }
    }
    true
}

/// Relies on winstructs' SecurityDescriptor::from_stream: parses a Windows
/// security descriptor (owner and group SIDs, SACL, DACL) from the bytes.
/// The result depends on the bytes alone; the two error variants are the
/// parser's I/O-shaped truncation errors and its unknown-ACE-type error.
/// The parser subtracts 4 from each ACE's stored size without a check, so
/// bytes whose ACE walk reaches a size below 4 are kept out by `requires`.
#[verifier::external_body]
fn parse_security_descriptor(buffer: &[u8]) -> (r: Result<SecurityDescriptor, RegError>)
    requires
        desc_walk_safe(buffer@),
    ensures
        r is Ok <==> sec_desc_parses(buffer@),
        r matches Err(e) ==> e.kind == ErrorKind::SecDescParseError || e.kind
            == ErrorKind::UnknownAceType,
{
    let mut cursor = std::io::Cursor::new(buffer);
    match SecurityDescriptor::from_stream(&mut cursor) {
        Ok(d) => Ok(d),
        Err(winstructs::err::Error::UnknownAceType { ace_type }) => Err(
            RegError::unknown_ace_type_error(format!("Unknown AceType: {}", ace_type)),
        ),
        Err(e) => Err(RegError::sec_desc_error(format!("{:?}", e))),
    }
}

/// Whether a security key's envelope and descriptor parse from `b`.
pub open spec fn sk_parses(b: Seq<u8>) -> bool {
    &&& desc_walk_safe(b.skip(20))
    &&& b.len() >= 20
    &&& sec_desc_parses(b.skip(20))
}

/// Whether the cell at hive-relative offset `rel` frames, carries the `sk`
/// signature, and holds at least the 20-byte envelope.
pub open spec fn sk_envelope_ok(h: Seq<u8>, rel: u32) -> bool {
    &&& crate::cell::cell_framing_ok(h, 4096 + rel)
    &&& le_u16_spec(crate::cell::cell_payload(h, 4096 + rel), 0) == 27507
    &&& crate::cell::cell_payload(h, 4096 + rel).len() >= 20
}

/// Whether the cell at hive-relative offset `rel` frames and its payload
/// parses as a security key, descriptor included.
pub open spec fn sk_cell_ok(h: Seq<u8>, rel: u32) -> bool {
    &&& sk_envelope_ok(h, rel)
    &&& sk_parses(crate::cell::cell_payload(h, 4096 + rel))
}

/// Whether `sk` is the parse of the security-key cell at hive-relative
/// offset `rel`.
pub open spec fn sk_from_cell(h: Seq<u8>, rel: u32, sk: SecurityKey) -> bool {
    &&& sk_cell_ok(h, rel)
    &&& sk.matches(crate::cell::cell_payload(h, 4096 + rel))
}

/// A security key record: the envelope fields and the parsed descriptor.
#[derive(Debug)]
pub struct SecurityKey {
    pub _offset: u64,
    pub signature: u16,
    pub unknown1: u16,
    pub previous_sec_key_offset: u32,
    pub next_sec_key_offset: u32,
    pub reference_count: u32,
    pub descriptor_size: u32,
    pub descriptor: SecurityDescriptor,
}

impl SecurityKey {
    /// Whether the parsed envelope fields are the decoding of `b`.
    pub open spec fn matches(&self, b: Seq<u8>) -> bool {
        &&& self.signature == le_u16_spec(b, 0)
        &&& self.unknown1 == le_u16_spec(b, 2)
        &&& self.previous_sec_key_offset == le_u32_spec(b, 4)
        &&& self.next_sec_key_offset == le_u32_spec(b, 8)
        &&& self.reference_count == le_u32_spec(b, 12)
        &&& self.descriptor_size == le_u32_spec(b, 16)
    }

    pub fn new(buffer: &[u8], offset: u64) -> (r: Result<SecurityKey, RegError>)
        ensures
            r is Ok <==> sk_parses(buffer@),
            r matches Ok(x) ==> x.matches(buffer@) && x._offset == offset,
            r matches Err(e) ==> if buffer@.len() < 20 {
                e.kind == ErrorKind::ValidationError
            } else {
                e.kind == ErrorKind::SecDescParseError || e.kind == ErrorKind::UnknownAceType
            },
    {
        let len: usize = buffer.len();
        if len < 20 {
            return Err(RegError::validation_error("security key header out of range".to_owned()));
        }
        let signature = utils::read_u16_le(buffer, 0);
        let unknown1 = utils::read_u16_le(buffer, 2);
        let previous_sec_key_offset = utils::read_u32_le(buffer, 4);
        let next_sec_key_offset = utils::read_u32_le(buffer, 8);
        let reference_count = utils::read_u32_le(buffer, 12);
        let descriptor_size = utils::read_u32_le(buffer, 16);
        let descriptor_bytes = vstd::slice::slice_subrange(buffer, 20, len);
        if !check_desc_walk_safe(descriptor_bytes) {
            return Err(
                RegError::sec_desc_error(
                    "descriptor holds an ACE with a stored size below 4".to_owned(),
                ),
            );
        }
        let descriptor = parse_security_descriptor(descriptor_bytes)?;
        Ok(
            SecurityKey {
                _offset: offset,
                signature,
                unknown1,
                previous_sec_key_offset,
                next_sec_key_offset,
                reference_count,
                descriptor_size,
                descriptor,
            },
        )
    }

    pub fn get_descriptor(&self) -> (r: &SecurityDescriptor)
        ensures
            *r == self.descriptor,
    {
        &self.descriptor
    }
}

} // verus!
