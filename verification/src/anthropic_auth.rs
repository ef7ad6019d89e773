//! Authentication for the Anthropic Messages API.

use vstd::prelude::*;
use vstd::string::*;
use vstd::utf8::encode_utf8;

use crate::headers::{
    at_most_names, header_entries, header_insert, header_value_byte, header_value_from_str,
    is_header_value, MAX_HEADER_NAMES,
};

verus! {

/// Anthropic API key auth provider that attaches `x-api-key` and
/// `anthropic-version` headers to requests.
///
/// Unlike Bearer-based auth that uses `Authorization: Bearer <token>`,
/// Anthropic's Messages API uses `x-api-key: <key>` for authentication.
pub struct AnthropicApiKeyAuthProvider {
    pub api_key: Option<String>,
}

impl Clone for AnthropicApiKeyAuthProvider {
    fn clone(&self) -> (auth: Self)
        ensures
            auth.api_key == self.api_key,
    {
        AnthropicApiKeyAuthProvider { api_key: self.api_key.clone() }
    }
}

impl Default for AnthropicApiKeyAuthProvider {
    /// A provider without a key.
    fn default() -> (auth: Self)
        ensures
            auth.api_key is None,
    {
        AnthropicApiKeyAuthProvider { api_key: None }
    }
}

/// The headers of a request with the key, where there is one that can be a
/// header value.
pub open spec fn with_key(
    entries: Map<Seq<char>, Seq<Seq<u8>>>,
    api_key: Option<Seq<char>>,
) -> Map<Seq<char>, Seq<Seq<u8>>> {
    match api_key {
        Some(key) if is_header_value(encode_utf8(key)) => entries.insert(
            "x-api-key"@,
            seq![encode_utf8(key)],
        ),
        _ => entries,
    }
}

/// The headers with which a request goes out: the key, where there is one that
/// can be a header value, and the API version. Headers of other names stay.
pub open spec fn with_auth_headers(
    entries: Map<Seq<char>, Seq<Seq<u8>>>,
    api_key: Option<Seq<char>>,
) -> Map<Seq<char>, Seq<Seq<u8>>> {
    with_key(entries, api_key).insert("anthropic-version"@, seq![encode_utf8("2023-06-01"@)])
}

/// What attaching the headers to a request may come to: they are attached, or
/// the request had no room, for both of them or for the version, which does not
/// happen with few names in it.
pub open spec fn is_auth_attempt(
    before: Map<Seq<char>, Seq<Seq<u8>>>,
    api_key: Option<Seq<char>>,
    added: bool,
    after: Map<Seq<char>, Seq<Seq<u8>>>,
) -> bool {
    if added {
        after == with_auth_headers(before, api_key)
    } else {
        &&& !at_most_names(before, (MAX_HEADER_NAMES - 1) as nat)
        &&& after == before || after == with_key(before, api_key)
    }
}

impl AnthropicApiKeyAuthProvider {
    /// A provider that authenticates with `api_key`.
    pub fn new(api_key: String) -> (auth: Self)
        ensures
            auth.api_key == Some(api_key),
    {
        AnthropicApiKeyAuthProvider { api_key: Some(api_key) }
    }

    /// Attaches the headers to a request that has few enough of them to have
    /// room for sure.
    pub fn add_auth_headers(&self, headers: &mut http::HeaderMap<http::HeaderValue>)
        requires
            at_most_names(header_entries(*old(headers)), (MAX_HEADER_NAMES - 1) as nat),
        ensures
            header_entries(*final(headers)) == with_auth_headers(
                header_entries(*old(headers)),
                self.api_key.deep_view(),
            ),
    {
        let _ = self.try_add_auth_headers(headers);
    }

    /// Attaches the headers to any request that has room for them. Returns
    /// whether it had.
    pub fn try_add_auth_headers(&self, headers: &mut http::HeaderMap<http::HeaderValue>) -> (added:
        bool)
        ensures
            is_auth_attempt(
                header_entries(*old(headers)),
                self.api_key.deep_view(),
                added,
                header_entries(*final(headers)),
            ),
    {
        proof {
            reveal_strlit("x-api-key");
            reveal_strlit("anthropic-version");
            reveal_strlit("2023-06-01");
        }
        if let Some(api_key) = &self.api_key {
            if let Ok(header) = header_value_from_str(api_key.as_str()) {
                if header_insert(headers, "x-api-key", header).is_err() {
                    return false;
                }
            }
        }
        proof {
            assert("2023-06-01".is_ascii());
            is_ascii_spec_bytes("2023-06-01");
        }
        match header_value_from_str("2023-06-01") {
            Ok(header) => header_insert(headers, "anthropic-version", header).is_ok(),
            Err(_) => true,
        }
    }
}

/// Headers of other names, `authorization` among them, stay as they are.
pub proof fn auth_leaves_other_headers(
    entries: Map<Seq<char>, Seq<Seq<u8>>>,
    api_key: Option<Seq<char>>,
    name: Seq<char>,
)
    requires
        name != "x-api-key"@,
        name != "anthropic-version"@,
    ensures
        with_auth_headers(entries, api_key).contains_key(name) == entries.contains_key(name),
        entries.contains_key(name) ==> with_auth_headers(entries, api_key)[name] == entries[name],
{
}

/// A request never gets an `authorization` header.
pub proof fn auth_adds_no_authorization(
    entries: Map<Seq<char>, Seq<Seq<u8>>>,
    api_key: Option<Seq<char>>,
)
    requires
        !entries.contains_key("authorization"@),
    ensures
        !with_auth_headers(entries, api_key).contains_key("authorization"@),
{
    reveal_strlit("x-api-key");
    reveal_strlit("anthropic-version");
    reveal_strlit("authorization");
    assert("authorization"@.len() != "x-api-key"@.len());
    assert("authorization"@.len() != "anthropic-version"@.len());
    auth_leaves_other_headers(entries, api_key, "authorization"@);
}

/// A request has one API version, and one key where there is one that can be a
/// header value; values that it had before are gone.
pub proof fn auth_headers_have_one_value(
    entries: Map<Seq<char>, Seq<Seq<u8>>>,
    api_key: Option<Seq<char>>,
)
    ensures
        ({
            let attached = with_auth_headers(entries, api_key);
            &&& attached.contains_key("anthropic-version"@)
            &&& attached["anthropic-version"@] == seq![encode_utf8("2023-06-01"@)]
            &&& api_key matches Some(key) ==> is_header_value(encode_utf8(key)) ==> {
                &&& attached.contains_key("x-api-key"@)
                &&& attached["x-api-key"@] == seq![encode_utf8(key)]
            }
        }),
{
    reveal_strlit("x-api-key");
    reveal_strlit("anthropic-version");
    assert("x-api-key"@.len() != "anthropic-version"@.len());
}

/// Attaching the headers twice is attaching them once.
pub proof fn auth_is_idempotent(
    entries: Map<Seq<char>, Seq<Seq<u8>>>,
    api_key: Option<Seq<char>>,
)
    ensures
        with_auth_headers(with_auth_headers(entries, api_key), api_key) == with_auth_headers(
            entries,
            api_key,
        ),
{
    assert(with_auth_headers(with_auth_headers(entries, api_key), api_key) =~= with_auth_headers(
        entries,
        api_key,
    ));
}

/// Whatever comes of attaching the headers, to whatever request: headers of
/// other names stay as they are, so that no `authorization` header comes in.
pub proof fn auth_attempts_leave_other_headers(
    before: Map<Seq<char>, Seq<Seq<u8>>>,
    api_key: Option<Seq<char>>,
    added: bool,
    after: Map<Seq<char>, Seq<Seq<u8>>>,
    name: Seq<char>,
)
    requires
        is_auth_attempt(before, api_key, added, after),
        name != "x-api-key"@,
        name != "anthropic-version"@,
    ensures
        after.contains_key(name) == before.contains_key(name),
        before.contains_key(name) ==> after[name] == before[name],
{
    auth_leaves_other_headers(before, api_key, name);
}

/// Attaching the headers once more leaves any request as it is, whatever comes
/// of it.
pub proof fn auth_attempts_are_idempotent(
    before: Map<Seq<char>, Seq<Seq<u8>>>,
    api_key: Option<Seq<char>>,
    once: Map<Seq<char>, Seq<Seq<u8>>>,
    added_again: bool,
    twice: Map<Seq<char>, Seq<Seq<u8>>>,
)
    requires
        is_auth_attempt(before, api_key, true, once),
        is_auth_attempt(once, api_key, added_again, twice),
    ensures
        twice == once,
{
    auth_is_idempotent(before, api_key);
    auth_headers_have_one_value(before, api_key);
    assert(with_key(once, api_key) =~= once);
}

/// Without a key that can be a header value the request keeps the key that it
/// had, or has none.
pub proof fn auth_without_key_adds_none(
    entries: Map<Seq<char>, Seq<Seq<u8>>>,
    api_key: Option<Seq<char>>,
)
    requires
        api_key matches Some(key) ==> exists|i: int|
            0 <= i < encode_utf8(key).len() && !may_stand_in_a_header(
                #[trigger] encode_utf8(key)[i],
            ),
    ensures
        ({
            let attached = with_auth_headers(entries, api_key);
            &&& attached.contains_key("x-api-key"@) == entries.contains_key("x-api-key"@)
            &&& entries.contains_key("x-api-key"@) ==> attached["x-api-key"@]
                == entries["x-api-key"@]
        }),
{
    reveal_strlit("x-api-key");
    reveal_strlit("anthropic-version");
    assert("x-api-key"@.len() != "anthropic-version"@.len());
    if let Some(key) = api_key {
        let bytes = encode_utf8(key);
        let i = choose|i: int|
            0 <= i < bytes.len() && !may_stand_in_a_header(#[trigger] bytes[i]);
        assert(!header_value_byte(bytes[i]));
    }
}

/// A byte that may stand in a header value: a tab, or any other but the control
/// characters.
pub open spec fn may_stand_in_a_header(b: u8) -> bool {
    b == 9 || (b > 31 && b != 127)
}

/// A key that may be a header value is the value of its header, alone, and one
/// API version is there.
pub proof fn auth_attaches_legal_keys(entries: Map<Seq<char>, Seq<Seq<u8>>>, key: Seq<char>)
    requires
        forall|i: int|
            0 <= i < encode_utf8(key).len() ==> may_stand_in_a_header(
                #[trigger] encode_utf8(key)[i],
            ),
    ensures
        ({
            let attached = with_auth_headers(entries, Some(key));
            &&& attached.contains_key("x-api-key"@)
            &&& attached["x-api-key"@] == seq![encode_utf8(key)]
            &&& attached.contains_key("anthropic-version"@)
            &&& attached["anthropic-version"@] == seq![encode_utf8("2023-06-01"@)]
        }),
{
    assert(is_header_value(encode_utf8(key))) by {
        assert forall|i: int| 0 <= i < encode_utf8(key).len() implies header_value_byte(
            #[trigger] encode_utf8(key)[i],
        ) by {
            assert(may_stand_in_a_header(encode_utf8(key)[i]));
        }
    }
    auth_headers_have_one_value(entries, Some(key));
}

/// An attempt that succeeds attaches the key, where it can be a header value, and
/// the version; one that does not attaches no version that was not there. Few
/// names always leave room.
pub proof fn auth_attempts_attach(
    before: Map<Seq<char>, Seq<Seq<u8>>>,
    api_key: Option<Seq<char>>,
    added: bool,
    after: Map<Seq<char>, Seq<Seq<u8>>>,
)
    requires
        is_auth_attempt(before, api_key, added, after),
    ensures
        before.dom().finite() && before.dom().len() < 6553 ==> added,
        added ==> after.contains_key("anthropic-version"@) && after["anthropic-version"@]
            == seq![encode_utf8("2023-06-01"@)],
        added ==> (api_key matches Some(key) ==> is_header_value(encode_utf8(key)) ==> {
            &&& after.contains_key("x-api-key"@)
            &&& after["x-api-key"@] == seq![encode_utf8(key)]
        }),
        !added ==> after.contains_key("anthropic-version"@) == before.contains_key(
            "anthropic-version"@,
        ),
{
    reveal_strlit("x-api-key");
    reveal_strlit("anthropic-version");
    assert("x-api-key"@.len() != "anthropic-version"@.len());
    auth_headers_have_one_value(before, api_key);
}

} // verus!
