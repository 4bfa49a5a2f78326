//! Address families and the endpoints that depend on them.

use vstd::prelude::*;

verus! {

/// The two address families a run manages: one DNS record type each.
#[derive(Clone, Copy, PartialEq, Eq, Structural, Debug)]
pub enum Family {
    V4,
    V6,
}

impl Family {
    /// The provider's record-type tag for this family.
    pub open spec fn tag_spec(self) -> Seq<char> {
        match self {
            Family::V4 => "A"@,
            Family::V6 => "AAAA"@,
        }
    }

    /// The record-type tag ("A" for IPv4, "AAAA" for IPv6).
    pub fn tag(&self) -> (r: &'static str)
        ensures
            r@ == self.tag_spec(),
    {
        match self {
            Family::V4 => "A",
            Family::V6 => "AAAA",
        }
    }

    /// The public IP-echo endpoint answering for this family.
    pub open spec fn echo_url_spec(self) -> Seq<char> {
        match self {
            Family::V4 => "https://api.ipify.org?format=json"@,
            Family::V6 => "https://api6.ipify.org?format=json"@,
        }
    }

    /// The discovery URL: a family-specific host returning `{"ip": ...}`.
    pub fn echo_url(&self) -> (r: &'static str)
        ensures
            r@ == self.echo_url_spec(),
    {
        match self {
            Family::V4 => "https://api.ipify.org?format=json",
            Family::V6 => "https://api6.ipify.org?format=json",
        }
    }
}

} // verus!
