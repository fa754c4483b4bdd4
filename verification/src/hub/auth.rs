//! The shared key that agents and clients present to the hub.
use vstd::prelude::*;
use crate::error::{ApiError, ErrorKind};
use crate::text::copy_str;

verus! {

/// The request header that carries the key.
pub const AUTH_HEADER: &'static str = "x-api-key";

/// The key a request presents: the header's text, or the empty text when
/// the header is missing or not readable as text.
pub open spec fn presented_key(header: Option<String>) -> Seq<char> {
    match header {
        Some(h) => h@,
        None => Seq::empty(),
    }
}

/// Accepts a request whose presented key is `expected`; refuses any other.
pub fn check_api_key(header: &Option<String>, expected: &str) -> (r: Result<(), ApiError>)
    ensures
        r is Ok <==> presented_key(*header) == expected@,
        r matches Err(e) ==> e.kind == ErrorKind::Unauthorized && e.message@ == "invalid api key"@,
{
    let want = copy_str(expected);
    let ok = match header {
        Some(h) => *h == want,
        None => {
            let empty = String::new();
            empty == want
        },
    };
    if !ok {
        return Err(ApiError::new(ErrorKind::Unauthorized, "invalid api key"));
    }
    Ok(())
}

/// A request passes the check exactly when it presents the expected key;
/// a request without the header passes only an empty key.
pub proof fn law_key_check(header: Option<String>, expected: Seq<char>)
    ensures
        header is None ==> (presented_key(header) == expected <==> expected.len() == 0),
{
    if header is None && expected.len() == 0 {
        assert(presented_key(header) =~= expected);
    }
}

} // verus!
