//! What goes on the wire: endpoint URLs and the write request body.

use vstd::prelude::*;
use vstd::string::StringSliceAdditionalSpecFns;

verus! {

/// Relies on `String::push_str` of std: appends the slice's characters to
/// the string.
pub assume_specification[ String::push_str ](s: &mut String, other: &str)
    ensures
        final(s)@ == old(s)@ + other@,
;

/// The provider's API base.
pub open spec fn base_url_spec() -> Seq<char> {
    "https://api.gandi.net/v5/livedns/"@
}

/// The endpoint addressing one rrset:
/// `{base}domains/{domain}/records/{name}/{tag}`.
pub open spec fn record_url_spec(domain: Seq<char>, name: Seq<char>, tag: Seq<char>) -> Seq<char> {
    base_url_spec() + "domains/"@ + domain + "/records/"@ + name + "/"@ + tag
}

/// Builds the URL under which one (domain, record, type) rrset is read and
/// replaced.
pub fn record_url(domain: &str, name: &str, tag: &str) -> (r: String)
    ensures
        r@ == record_url_spec(domain@, name@, tag@),
{
    let mut r = String::new();
    r.push_str("https://api.gandi.net/v5/livedns/");
    r.push_str("domains/");
    r.push_str(domain);
    r.push_str("/records/");
    r.push_str(name);
    r.push_str("/");
    r.push_str(tag);
    proof {
        assert(r@ =~= record_url_spec(domain@, name@, tag@));
    }
    r
}

/// The fixed TTL, in seconds, sent with every write.
pub const RRSET_TTL: u64 = 1800;

/// Bytes that may stand verbatim inside a JSON string literal: no quote,
/// no backslash, no control byte.  UTF-8 continuation bytes are all 128 or
/// above, so checking bytes covers every character of the string.
pub open spec fn json_plain_spec(bs: Seq<u8>) -> bool {
    forall|i: int| 0 <= i < bs.len() ==> bs[i] != 34 && bs[i] != 92 && bs[i] >= 32
}

/// Decides whether `s` may be framed verbatim as a JSON string literal.
pub fn is_json_plain(s: &str) -> (b: bool)
    ensures
        b == json_plain_spec(s.spec_bytes()),
{
    let bs = s.as_bytes();
    let mut i: usize = 0;
    while i < bs.len()
        invariant
            i <= bs@.len(),
            bs@ == s.spec_bytes(),
            forall|j: int| 0 <= j < i ==> bs@[j] != 34 && bs@[j] != 92 && bs@[j] >= 32,
        decreases bs@.len() - i,
    {
        let c = bs[i];
        if c == 34 || c == 92 || c < 32 {
            return false;
        }
        i = i + 1;
    }
    true
}

/// The PUT body replacing an rrset with the single value `ip` at the fixed
/// TTL: `{"rrset_ttl":1800,"rrset_values":["<ip>"]}`.
pub open spec fn write_payload_spec(ip: Seq<char>) -> Seq<char> {
    "{\"rrset_ttl\":1800,\"rrset_values\":[\""@ + ip + "\"]}"@
}

/// Builds the write request body.  The value is framed verbatim as a JSON
/// string literal, so it must hold no byte that JSON would have to escape;
/// `is_json_plain` decides that, and every IP address passes it.
pub fn write_payload(ip: &str) -> (r: String)
    requires
        json_plain_spec(ip.spec_bytes()),
    ensures
        r@ == write_payload_spec(ip@),
{
    let mut r = String::new();
    r.push_str("{\"rrset_ttl\":1800,\"rrset_values\":[\"");
    r.push_str(ip);
    r.push_str("\"]}");
    proof {
        assert(r@ =~= write_payload_spec(ip@));
    }
    r
}

} // verus!
