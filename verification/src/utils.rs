//! Addresses of 9P servers.

use vstd::prelude::*;
use vstd::string::{StrSliceExecFns, StringExecFns};
use crate::text::{lemma_first_cut, split, split_at, Separator};

verus! {

/// What an address of the form `proto!addr!port` names: the protocol, and
/// the address with a colon and the port behind it. An address of fewer
/// than three parts names nothing; parts beyond the third are not looked
/// at.
pub open spec fn proto_of(arg: Seq<char>) -> Option<(Seq<char>, Seq<char>)> {
    let parts = split(arg, Separator::Char('!'));
    if parts.len() < 3 {
        None
    } else {
        Some((parts[0], parts[1] + ":"@ + parts[2]))
    }
}

/// Reads an address of the form `proto!addr!port`.
pub fn parse_proto(arg: &str) -> (res: Option<(&str, String)>)
    ensures
        match (res, proto_of(arg@)) {
            (Some((proto, addr)), Some(v)) => proto@ == v.0 && addr@ == v.1,
            (None, None) => true,
            _ => false,
        },
{
    let parts = split_at(arg, Separator::Char('!'));
    if parts.len() < 3 {
        return None;
    }
    let len = parts[0].as_str().unicode_len();
    proof {
        lemma_first_cut(arg@, Separator::Char('!'));
        assert(parts[0]@ == parts.deep_view()[0]);
        assert(parts[1]@ == parts.deep_view()[1]);
        assert(parts[2]@ == parts.deep_view()[2]);
        assert(arg@.subrange(0, len as int) =~= parts[0]@);
    }
    let proto = arg.substring_char(0, len);
    let mut addr = parts[1].clone();
    addr.append(":");
    addr.append(parts[2].as_str());
    Some((proto, addr))
}

} // verus!
