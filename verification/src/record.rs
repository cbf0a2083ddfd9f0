//! The traversal output: one record per value, carrying the full path, the
//! owning key's timestamp, the decoded value and the key's security
//! descriptor.

use vstd::prelude::*;
use vstd::string::StringExecFns;
use crate::nk::NodeKey;
use crate::vk::ValueKey;
use winstructs::security::SecurityDescriptor;

verus! {

/// One emitted value: the back-slash separated, root-inclusive path, the
/// node's last-written filetime, the value key, and the node's security
/// descriptor if it has one.
#[derive(Debug)]
pub struct Record {
    pub fullpath: String,
    pub nk_last_written: u64,
    pub valuekey: ValueKey,
    pub security: Option<SecurityDescriptor>,
}

impl Record {
    /// Build the record for value `vk` of node `nk` reached at `path`.
    pub fn new(path: &str, nk: &NodeKey, vk: ValueKey) -> (r: Record)
        ensures
            r.fullpath@ == path@ + seq!['\\'] + vk.value_name@,
            r.nk_last_written == nk.last_written,
            r.valuekey == vk,
            nk.security_key matches Some(sk) ==> (r.security matches Some(d) && d
                == sk.descriptor),
            nk.security_key is None ==> r.security is None,
    {
        let mut fullpath = path.to_owned();
        fullpath.push('\\');
        fullpath.append(vk.get_name());
        let security = match nk.get_security_key() {
            Option::Some(sk) => Option::Some(sk.get_descriptor().clone()),
            Option::None => Option::None,
        };
        Record { fullpath, nk_last_written: nk.get_last_written(), valuekey: vk, security }
    }
}

} // verus!
