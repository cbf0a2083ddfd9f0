//! The base block: the fixed 4096-byte file header of a hive.

use vstd::prelude::*;
use vstd::slice::slice_subrange;
use vstd::string::StringExecFns;
use crate::errors::ErrorKind;
use crate::errors::RegError;
use crate::utils;
use crate::utils::le_u32_spec;
use crate::utils::le_u64_spec;
use crate::utils::null_pair_scan;
use crate::utils::utf16le_lossy;

verus! {

/// The `regf` signature every base block must carry.
pub const REGF_SIGNATURE: u32 = 0x66676572;

/// The internal file name stored in the base block: the UTF-16LE bytes at
/// 48..112, up to their first paired-null terminator.
pub open spec fn bb_file_name(b: Seq<u8>) -> Seq<char> {
    utf16le_lossy(b.subrange(48, 112).take(null_pair_scan(b.subrange(48, 112), 0)))
}

/// The fixed file header, parsed once at open and immutable thereafter.
#[derive(Debug)]
pub struct BaseBlock {
    pub _offset: u64,
    pub signature: u32,
    pub primary_seq_num: u32,
    pub secondary_seq_num: u32,
    pub last_written: u64,
    pub major_version: u32,
    pub minor_version: u32,
    pub file_type: u32,
    pub file_format: u32,
    pub root_cell_offset: u32,
    pub hive_bins_data_size: u32,
    pub clustering_factor: u32,
    pub file_name: String,
    pub reserved1: Vec<u8>,
    pub checksum: u32,
    pub reserved2: Vec<u8>,
    pub boot_type: u32,
    pub boot_recover: u32,
}

impl BaseBlock {
    /// Whether the parsed fields are the decoding of the 4096-byte buffer.
    pub open spec fn matches(&self, b: Seq<u8>) -> bool {
        &&& self.signature == le_u32_spec(b, 0)
        &&& self.primary_seq_num == le_u32_spec(b, 4)
        &&& self.secondary_seq_num == le_u32_spec(b, 8)
        &&& self.last_written == le_u64_spec(b, 12)
        &&& self.major_version == le_u32_spec(b, 20)
        &&& self.minor_version == le_u32_spec(b, 24)
        &&& self.file_type == le_u32_spec(b, 28)
        &&& self.file_format == le_u32_spec(b, 32)
        &&& self.root_cell_offset == le_u32_spec(b, 36)
        &&& self.hive_bins_data_size == le_u32_spec(b, 40)
        &&& self.clustering_factor == le_u32_spec(b, 44)
        &&& self.file_name@ == bb_file_name(b)
        &&& self.reserved1@ == b.subrange(112, 508)
        &&& self.checksum == le_u32_spec(b, 508)
        &&& self.reserved2@ == b.subrange(512, 4088)
        &&& self.boot_type == le_u32_spec(b, 4088)
        &&& self.boot_recover == le_u32_spec(b, 4092)
    }

    /// Parse and validate the fixed header. Fails with a validation error
    /// exactly when the `regf` signature is absent.
    pub fn new(buffer: &[u8], offset: u64) -> (r: Result<BaseBlock, RegError>)
        requires
            buffer@.len() == 4096,
        ensures
            r is Ok <==> le_u32_spec(buffer@, 0) == REGF_SIGNATURE,
            r matches Ok(x) ==> x.matches(buffer@) && x._offset == offset,
            r matches Err(e) ==> e.kind == ErrorKind::ValidationError,
    {
        let signature = utils::read_u32_le(buffer, 0);
        if signature != REGF_SIGNATURE {
            return Err(RegError::validation_error("base block signature mismatch".to_owned()));
        }
        let primary_seq_num = utils::read_u32_le(buffer, 4);
        let secondary_seq_num = utils::read_u32_le(buffer, 8);
        let last_written = utils::read_u64_le(buffer, 12);
        let major_version = utils::read_u32_le(buffer, 20);
        let minor_version = utils::read_u32_le(buffer, 24);
        let file_type = utils::read_u32_le(buffer, 28);
        let file_format = utils::read_u32_le(buffer, 32);
        let root_cell_offset = utils::read_u32_le(buffer, 36);
        let hive_bins_data_size = utils::read_u32_le(buffer, 40);
        let clustering_factor = utils::read_u32_le(buffer, 44);
        let file_name = utils::read_string_u16_till_null(slice_subrange(buffer, 48, 112))?;
        let reserved1 = utils::copy_range(buffer, 112, 508);
        let checksum = utils::read_u32_le(buffer, 508);
        let reserved2 = utils::copy_range(buffer, 512, 4088);
        let boot_type = utils::read_u32_le(buffer, 4088);
        let boot_recover = utils::read_u32_le(buffer, 4092);
        Ok(
            BaseBlock {
                _offset: offset,
                signature,
                primary_seq_num,
                secondary_seq_num,
                last_written,
                major_version,
                minor_version,
                file_type,
                file_format,
                root_cell_offset,
                hive_bins_data_size,
                clustering_factor,
                file_name,
                reserved1,
                checksum,
                reserved2,
                boot_type,
                boot_recover,
            },
        )
    }

    pub fn root_cell_offset(&self) -> (r: u32)
        ensures
            r == self.root_cell_offset,
    {
        self.root_cell_offset
    }
}

/// Law: every successfully parsed base block carries the `regf` signature.
/// The premises are exactly what `BaseBlock::new` guarantees of an accepted
/// buffer.
pub proof fn lemma_baseblock_signature(bb: BaseBlock, b: Seq<u8>)
    requires
        bb.matches(b),
        le_u32_spec(b, 0) == REGF_SIGNATURE,
    ensures
        bb.signature == REGF_SIGNATURE,
{
}

/// Law: parsing is a function of the buffer bytes alone, so parsing a base
/// block and re-reading the same raw bytes yields identical fields.
pub proof fn lemma_baseblock_parse_deterministic(b: Seq<u8>, x1: BaseBlock, x2: BaseBlock)
    requires
        x1.matches(b),
        x2.matches(b),
    ensures
        x1.signature == x2.signature,
        x1.primary_seq_num == x2.primary_seq_num,
        x1.secondary_seq_num == x2.secondary_seq_num,
        x1.last_written == x2.last_written,
        x1.major_version == x2.major_version,
        x1.minor_version == x2.minor_version,
        x1.file_type == x2.file_type,
        x1.file_format == x2.file_format,
        x1.root_cell_offset == x2.root_cell_offset,
        x1.hive_bins_data_size == x2.hive_bins_data_size,
        x1.clustering_factor == x2.clustering_factor,
        x1.file_name@ == x2.file_name@,
        x1.reserved1@ == x2.reserved1@,
        x1.checksum == x2.checksum,
        x1.reserved2@ == x2.reserved2@,
        x1.boot_type == x2.boot_type,
        x1.boot_recover == x2.boot_recover,
{
}

} // verus!
