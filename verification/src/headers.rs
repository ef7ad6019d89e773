//! HTTP headers, which the `http` crate holds.

use vstd::prelude::*;
use vstd::string::*;

verus! {

/// `http::HeaderMap`: header names with their values. What it holds is seen
/// here only through [`header_entries`].
#[verifier::external_type_specification]
#[verifier::external_body]
#[verifier::reject_recursive_types(T)]
pub struct ExHeaderMap<T>(http::HeaderMap<T>);

/// `http::HeaderValue`: the bytes of one header value, seen here only through
/// [`header_value_bytes`].
#[verifier::external_type_specification]
#[verifier::external_body]
pub struct ExHeaderValue(http::HeaderValue);

/// `http::header::InvalidHeaderValue`: why a text is no header value.
#[verifier::external_type_specification]
#[verifier::external_body]
pub struct ExInvalidHeaderValue(http::header::InvalidHeaderValue);

/// `http::header::MaxSizeReached`: a map has no room for another header.
#[verifier::external_type_specification]
#[verifier::external_body]
pub struct ExMaxSizeReached(http::header::MaxSizeReached);

/// The values of each header name in the map, in order. Names are in lower
/// case.
pub uninterp spec fn header_entries(headers: http::HeaderMap<http::HeaderValue>) -> Map<
    Seq<char>,
    Seq<Seq<u8>>,
>;

/// The bytes of a header value.
pub uninterp spec fn header_value_bytes(value: http::HeaderValue) -> Seq<u8>;

/// The most header names a map may hold for an insertion that cannot fail,
/// whatever was done with the map before. Most maps have room for more.
pub const MAX_HEADER_NAMES: usize = 6553;

/// The byte may stand in a header value.
pub open spec fn header_value_byte(b: u8) -> bool {
    b == 9 || b >= 32 && b != 127
}

/// The bytes may be a header value.
pub open spec fn is_header_value(bytes: Seq<u8>) -> bool {
    forall|i: int| 0 <= i < bytes.len() ==> header_value_byte(#[trigger] bytes[i])
}

/// The text is made of lower-case ASCII letters, digits and hyphens, and short
/// enough to be a header name.
pub open spec fn is_plain_header_name(name: Seq<char>) -> bool {
    &&& 0 < name.len() <= 64
    &&& forall|i: int|
        0 <= i < name.len() ==> ('a' <= #[trigger] name[i] <= 'z' || '0' <= name[i] <= '9'
            || name[i] == '-')
}

/// No header names.
pub open spec fn no_headers() -> Map<Seq<char>, Seq<Seq<u8>>> {
    Map::empty()
}

/// There are `count` header names or fewer.
pub open spec fn at_most_names(entries: Map<Seq<char>, Seq<Seq<u8>>>, count: nat) -> bool {
    entries.dom().finite() && entries.dom().len() <= count
}

/// Calls `HeaderMap::new`: a map without headers.
#[verifier::external_body]
pub(crate) fn header_map_new() -> (headers: http::HeaderMap<http::HeaderValue>)
    ensures
        header_entries(headers) == no_headers(),
{
    http::HeaderMap::new()
}

/// `previous` is the first value that `name` has, if it has any.
pub open spec fn is_first_value(
    entries: Map<Seq<char>, Seq<Seq<u8>>>,
    name: Seq<char>,
    previous: Option<http::HeaderValue>,
) -> bool {
    match previous {
        Some(previous) => entries.contains_key(name) && entries[name].len() > 0
            && header_value_bytes(previous) == entries[name][0],
        None => !entries.contains_key(name),
    }
}

/// Calls `HeaderMap::try_insert` with a static name: the name's values are now
/// `value` alone, other names keep theirs, and the first value that the name had
/// before comes back, if it had any. Where the map has no room, which does not
/// happen with few names in it, it keeps what it holds. How many names it has
/// room for beyond those depends on what was done with it before.
#[verifier::external_body]
pub(crate) fn header_insert(
    headers: &mut http::HeaderMap<http::HeaderValue>,
    name: &'static str,
    value: http::HeaderValue,
) -> (inserted: Result<Option<http::HeaderValue>, http::header::MaxSizeReached>)
    requires
        is_plain_header_name(name@),
    ensures
        match inserted {
            Ok(previous) => header_entries(*final(headers)) == header_entries(*old(headers)).insert(
                name@,
                seq![header_value_bytes(value)],
            ) && is_first_value(header_entries(*old(headers)), name@, previous),
            Err(_) => header_entries(*final(headers)) == header_entries(*old(headers))
                && !at_most_names(header_entries(*old(headers)), MAX_HEADER_NAMES as nat),
        },
{
    headers.try_insert(name, value)
}

/// Calls `HeaderValue::from_str`: the bytes of the text as a header value, where
/// each of them may stand in one.
#[verifier::external_body]
pub(crate) fn header_value_from_str(text: &str) -> (value: Result<
    http::HeaderValue,
    http::header::InvalidHeaderValue,
>)
    ensures
        value is Ok <==> is_header_value(text.spec_bytes()),
        value matches Ok(value) ==> header_value_bytes(value) == text.spec_bytes(),
{
    http::HeaderValue::from_str(text)
}

/// Calls `HeaderValue::from_static`: the bytes of the text, which are visible
/// ASCII characters, as a header value.
#[verifier::external_body]
pub(crate) fn header_value_from_static(text: &'static str) -> (value: http::HeaderValue)
    requires
        forall|i: int| 0 <= i < text@.len() ==> ' ' <= #[trigger] text@[i] <= '~',
    ensures
        header_value_bytes(value) == text.spec_bytes(),
{
    http::HeaderValue::from_static(text)
}

} // verus!
