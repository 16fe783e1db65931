//! What the cockpit needs of HTTP: endpoint addresses and status codes.

use crate::text::{
    begins, chars_of, decimal, join, law_begins, law_strip_end, string_of, strip_end, trim_end_of,
};
use vstd::prelude::*;

verus! {

/// The reason phrase that stands behind a status code in its text form: the
/// canonical one, or `<unknown status code>`.
pub uninterp spec fn reason(status: u16) -> Seq<char>;

/// Whether `status` is a code that HTTP messages can carry.
pub open spec fn is_status(status: u16) -> bool {
    100 <= status <= 999
}

/// The text form of a status code: the number, a space, the reason phrase.
pub open spec fn status_text(status: u16) -> Seq<char> {
    decimal(status as nat) + " "@ + reason(status)
}

/// Calls `reqwest::StatusCode::is_success`: the codes from 200 up to 299 tell of
/// success. `StatusCode::from_u16` accepts the codes from 100 up to 999.
#[verifier::external_body]
fn code_is_success(status: u16) -> (r: bool)
    requires
        is_status(status),
    ensures
        r == (200 <= status <= 299),
{
    reqwest::StatusCode::from_u16(status).unwrap().is_success()
}

/// Calls `Display` of `reqwest::StatusCode`, which writes the number in decimal,
/// a space, and the reason phrase. What the phrase of a given code is, is left
/// unsaid; it depends on the code alone.
#[verifier::external_body]
pub(crate) fn code_text(status: u16) -> (r: String)
    requires
        is_status(status),
    ensures
        r@ == decimal(status as nat) + " "@ + reason(status),
{
    reqwest::StatusCode::from_u16(status).unwrap().to_string()
}

/// Tests whether a status tells of success.
pub fn is_success(status: u16) -> (r: bool)
    ensures
        r == (200 <= status <= 299),
{
    if 100 <= status && status <= 999 {
        code_is_success(status)
    } else {
        false
    }
}

/// The address of `path` on a server: the base address without the slashes at
/// its end, then the path.
pub open spec fn address(base: Seq<char>, path: Seq<char>) -> Seq<char> {
    strip_end(base, '/') + path
}

/// Forms the address of `path` on the server at `base`.
pub fn endpoint(base: &str, path: &str) -> (r: String)
    ensures
        r@ == address(base@, path@),
{
    let root: Vec<char> = trim_end_of(&chars_of(base), '/');
    join(string_of(root.as_slice()).as_str(), path)
}

/// The address at which a server lists its models.
pub fn models_url(base: &str) -> (r: String)
    ensures
        r@ == address(base@, "/v1/models"@),
{
    endpoint(base, "/v1/models")
}

/// The address at which a server reports its metrics.
pub fn metrics_url(base: &str) -> (r: String)
    ensures
        r@ == address(base@, "/metrics"@),
{
    endpoint(base, "/metrics")
}

/// The address to which chat completions are posted.
pub fn completions_url(base: &str) -> (r: String)
    ensures
        r@ == address(base@, "/v1/chat/completions"@),
{
    endpoint(base, "/v1/chat/completions")
}

/// Slashes at the end of a base address do not matter.
pub proof fn law_trailing_slash(base: Seq<char>, path: Seq<char>)
    ensures
        address(base.push('/'), path) == address(base, path),
{
    assert(base.push('/').drop_last() =~= base);
}

/// An address is the base address, less the slashes at its end, however many, and the
/// path.
pub proof fn law_address_joins(base: Seq<char>, slashes: Seq<char>, path: Seq<char>)
    requires
        base.len() > 0 ==> base.last() != '/',
        forall|i: int| 0 <= i < slashes.len() ==> #[trigger] slashes[i] == '/',
    ensures
        address(base + slashes, path) == base + path,
{
    law_strip_end(base, '/', slashes);
}

/// The text form of a status starts with its number and a space.
pub proof fn law_status_text(status: u16)
    ensures
        begins(status_text(status), decimal(status as nat) + " "@),
        status_text(status).skip((decimal(status as nat) + " "@).len() as int) == reason(status),
        is_status(status) <==> status >= 100 && status < 1000,
{
    let head = decimal(status as nat) + " "@;
    law_begins(head, reason(status), status_text(status));
    assert(status_text(status).skip(head.len() as int) =~= reason(status));
}

} // verus!
