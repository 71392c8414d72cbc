//! Helpers shared by generated asynchronous services and clients.

use vstd::prelude::*;
use vstd::string::*;

verus! {

/// The routing path of a method: `/service/method`.
pub open spec fn path_of(service: Seq<char>, method: Seq<char>) -> Seq<char> {
    "/"@ + service + "/"@ + method
}

/// The routing path of a method: `/service/method`.
pub fn get_path(service: &str, method: &str) -> (p: String)
    ensures
        p@ == path_of(service@, method@),
{
    let mut p = String::from_str("/");
    p.append(service);
    p.append("/");
    p.append(method);
    p
}

} // verus!
