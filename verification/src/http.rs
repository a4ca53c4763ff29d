use vstd::prelude::*;
use vstd::string::*;

verus! {

/// The product/version identifier carried in the `User-Agent` header of
/// every request this agent makes. The version is supplied by the build:
/// the crate version for a release, `dev` otherwise.
pub fn user_agent(version: &str) -> (agent: String)
    ensures
        agent@ == "tracer/"@ + version@,
{
    String::from_str("tracer/").concat(version)
}

} // verus!
