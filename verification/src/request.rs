//! The outbound request to the model API, as plain values: method, route,
//! header fields and body. Turning it into a request on the wire is left to
//! whoever sends it.

use crate::config::{request_topics, ModelSettings};
use crate::headers::fields_of;
use crate::json::{
    json_list, json_object_text, json_text, list_value, members_of, object_text, text_value,
};
use crate::redaction::collect_private;
use vstd::prelude::*;
use vstd::string::{StrSliceExecFns, StringExecFns};
use vstd::utf8::{encode_utf8, is_ascii_chars, is_ascii_chars_encode_utf8};

verus! {

/// The method of a request.
#[derive(Clone, Copy, Debug, PartialEq, Eq, Structural)]
pub enum HttpMethod {
    Get,
    Post,
}

/// A request to the model API, as plain values. Header names are in lower
/// case, as they are sent.
#[derive(Debug)]
pub struct RequestPlan {
    pub method: HttpMethod,
    pub uri: String,
    pub headers: Vec<(String, Vec<u8>)>,
    pub body: String,
}

/// Why no request was built.
#[derive(Clone, Copy, Debug, PartialEq, Eq, Structural)]
pub enum RequestError {
    /// The server's name holds a byte that no header value may hold.
    InvalidHost,
    /// The API key holds a byte that no header value may hold.
    InvalidAuthorization,
}

impl RequestError {
    /// The cause of the failure, in words.
    pub open spec fn message_of(self) -> Seq<char> {
        "Error building the request"@
    }

    /// The cause of the failure, in words.
    pub fn message(&self) -> (message: &'static str)
        ensures
            message@ == self.message_of(),
    {
        "Error building the request"
    }
}

/// A header can hold the value: each byte is a tab, or is neither a control
/// byte nor the delete byte.
pub open spec fn header_value_ok(value: Seq<u8>) -> bool {
    forall|i: int|
        0 <= i < value.len() ==> ((#[trigger] value[i]) >= 32 && value[i] != 127) || value[i] == 9
}

/// The value of the authorization header for an API key.
pub open spec fn bearer(api_key: Seq<char>) -> Seq<u8> {
    encode_utf8("Bearer "@ + api_key)
}

/// The header fields of a request to the model API, in the order in which
/// they are set.
pub open spec fn request_fields(server_domain: Seq<char>, api_key: Seq<char>) -> Seq<
    (Seq<char>, Seq<u8>),
> {
    seq![
        ("host"@, encode_utf8(server_domain)),
        ("accept-encoding"@, encode_utf8("identity"@)),
        ("connection"@, encode_utf8("close"@)),
        ("content-type"@, encode_utf8("application/json"@)),
        ("authorization"@, bearer(api_key)),
    ]
}

/// The body of a chat completion request: the text of the JSON object with
/// the member `model`, the model's name, and the member `messages`, the
/// messages in their order.
pub open spec fn chat_body(model_id: Seq<char>, messages: Seq<serde_json::Value>) -> Seq<char> {
    object_text(seq![("model"@, text_value(model_id)), ("messages"@, list_value(messages))])
}

/// Whether a header can hold the value.
pub fn is_header_value(value: &[u8]) -> (ok: bool)
    ensures
        ok == header_value_ok(value@),
{
    let mut i: usize = 0;
    while i < value.len()
        invariant
            i <= value@.len(),
            forall|k: int|
                0 <= k < i ==> ((#[trigger] value@[k]) >= 32 && value@[k] != 127) || value@[k]
                    == 9,
        decreases value@.len() - i,
    {
        let byte: u8 = value[i];
        if !((byte >= 32 && byte != 127) || byte == 9) {
            return false;
        }
        i += 1;
    }
    true
}

/// One header field.
fn field(name: &str, value: &str) -> (field: (String, Vec<u8>))
    ensures
        field.0@ == name@,
        field.1@ == encode_utf8(value@),
{
    (String::from_str(name), value.as_bytes_vec())
}

/// A header can hold a text of letters, digits and other visible characters
/// of ASCII.
proof fn lemma_visible_text_ok(text: Seq<char>)
    requires
        forall|i: int| 0 <= i < text.len() ==> ' ' <= #[trigger] text[i] <= '~',
    ensures
        header_value_ok(encode_utf8(text)),
{
    assert(is_ascii_chars(text));
    is_ascii_chars_encode_utf8(text);
    assert forall|i: int| 0 <= i < encode_utf8(text).len() implies (#[trigger] encode_utf8(
        text,
    )[i]) >= 32 && encode_utf8(text)[i] != 127 by {
        assert(' ' <= text[i] <= '~');
        assert(text[i] as u8 == encode_utf8(text)[i]);
    }
}

/// The header values that do not depend on the settings are values that a
/// header can hold.
pub proof fn lemma_fixed_values_ok()
    ensures
        header_value_ok(encode_utf8("identity"@)),
        header_value_ok(encode_utf8("close"@)),
        header_value_ok(encode_utf8("application/json"@)),
{
    reveal_strlit("identity");
    reveal_strlit("close");
    reveal_strlit("application/json");
    lemma_visible_text_ok("identity"@);
    lemma_visible_text_ok("close"@);
    lemma_visible_text_ok("application/json"@);
}

/// From the header fields of a request to the model API the censor list for
/// requests keeps one value private: that of the authorization header.
pub proof fn lemma_request_private_data(server_domain: Seq<char>, api_key: Seq<char>)
    ensures
        collect_private(Seq::empty(), request_fields(server_domain, api_key), request_topics())
            == seq![bearer(api_key)],
{
    reveal_strlit("host");
    reveal_strlit("accept-encoding");
    reveal_strlit("connection");
    reveal_strlit("content-type");
    reveal_strlit("authorization");
    let fields = request_fields(server_domain, api_key);
    let topics = request_topics();
    let none = Seq::<Seq<u8>>::empty();
    assert(topics[0] == "authorization"@);
    assert forall|name: Seq<char>| topics.contains(name) <==> name == "authorization"@ by {}
    let f1 = fields.take(1);
    let f2 = fields.take(2);
    let f3 = fields.take(3);
    let f4 = fields.take(4);
    assert(f1.drop_last() =~= fields.take(0));
    assert(f2.drop_last() =~= f1);
    assert(f3.drop_last() =~= f2);
    assert(f4.drop_last() =~= f3);
    assert(fields.drop_last() =~= f4);
    assert(collect_private(none, fields.take(0), topics) == none);
    assert(collect_private(none, f1, topics) == none);
    assert(collect_private(none, f2, topics) == none);
    assert(collect_private(none, f3, topics) == none);
    assert(collect_private(none, f4, topics) == none);
    assert(none.push(bearer(api_key)) =~= seq![bearer(api_key)]);
}

/// The request that asks the model API for a completion: a `POST` to the
/// inference route, addressed to the server of the settings, uncompressed,
/// on a connection that is closed afterwards, authorized by the API key, with
/// the model's name and the messages as its body.
///
/// No request is built where the server's name or the API key holds a byte
/// that no header value may hold, a line feed for instance; the server's
/// name is looked at first. Every header value of a request that is built is
/// one that a header can hold, and of its header fields the censor list for
/// requests keeps exactly the authorization value private. Whether the route
/// of the settings is one that a request can be sent to is not looked at.
pub fn generate_request(messages: Vec<serde_json::Value>, model_settings: &ModelSettings) -> (request:
    Result<RequestPlan, RequestError>)
    ensures
        request is Ok <==> header_value_ok(encode_utf8(model_settings.api_settings.server_domain@))
            && header_value_ok(bearer(model_settings.api_settings.api_key@)),
        request matches Err(error) ==> error == if header_value_ok(
            encode_utf8(model_settings.api_settings.server_domain@),
        ) {
            RequestError::InvalidAuthorization
        } else {
            RequestError::InvalidHost
        },
        request matches Ok(plan) ==> {
            &&& plan.method == HttpMethod::Post
            &&& plan.uri@ == model_settings.api_settings.inference_route@
            &&& fields_of(plan.headers@) == request_fields(
                model_settings.api_settings.server_domain@,
                model_settings.api_settings.api_key@,
            )
            &&& forall|i: int|
                0 <= i < plan.headers@.len() ==> header_value_ok(
                    #[trigger] fields_of(plan.headers@)[i].1,
                )
            &&& plan.body@ == chat_body(model_settings.id@, messages@)
            &&& collect_private(Seq::empty(), fields_of(plan.headers@), request_topics()) == seq![
                bearer(model_settings.api_settings.api_key@),
            ]
        },
{
    let api = &model_settings.api_settings;
    let host = field("host", api.server_domain);
    if !is_header_value(host.1.as_slice()) {
        return Err(RequestError::InvalidHost);
    }
    let authorization = String::from_str("Bearer ").concat(api.api_key.as_str());
    let authorization = field("authorization", authorization.as_str());
    if !is_header_value(authorization.1.as_slice()) {
        return Err(RequestError::InvalidAuthorization);
    }
    let mut members: Vec<(String, serde_json::Value)> = Vec::new();
    members.push((String::from_str("model"), json_text(model_settings.id.as_str())));
    members.push((String::from_str("messages"), json_list(messages)));
    assert(members_of(members@) =~= seq![
        ("model"@, text_value(model_settings.id@)),
        ("messages"@, list_value(messages@)),
    ]);
    let body = json_object_text(members);

    let mut headers: Vec<(String, Vec<u8>)> = Vec::new();
    headers.push(host);
    headers.push(field("accept-encoding", "identity"));
    headers.push(field("connection", "close"));
    headers.push(field("content-type", "application/json"));
    headers.push(authorization);
    proof {
        assert(fields_of(headers@) =~= request_fields(api.server_domain@, api.api_key@));
        lemma_request_private_data(api.server_domain@, api.api_key@);
        lemma_fixed_values_ok();
    }
    Ok(
        RequestPlan {
            method: HttpMethod::Post,
            uri: String::from_str(api.inference_route),
            headers,
            body,
        },
    )
}

} // verus!
