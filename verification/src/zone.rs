//! Validation of the zone argument handed in by the caller.

use vstd::prelude::*;
use vstd::string::StrSliceExecFns;

verus! {

/// A zone name is accepted exactly when it is fully qualified, that is,
/// non-empty and ending in the separator `'.'`.
pub open spec fn zone_arg_ok(zone: Seq<char>) -> bool {
    zone.len() > 0 && zone.last() == '.'
}

/// Accepts a fully-qualified zone name and rejects any other argument
/// with an explanatory message.
pub fn validate_zone_arg(zone: String) -> (r: Result<(), String>)
    ensures
        r is Ok <==> zone_arg_ok(zone@),
        r is Err ==> r->Err_0@ == "Zone must be fully-qualified and end in a period ('.')."@,
{
    let n = zone.as_str().unicode_len();
    if n > 0 && zone.as_str().get_char(n - 1) == '.' {
        Ok(())
    } else {
        Err(String::from_str("Zone must be fully-qualified and end in a period ('.')."))
    }
}

} // verus!
