//! Requests to the messaging service, described but not sent.

use vstd::prelude::*;
use vstd::utf8::encode_utf8;

use crate::json::{Json, JsonValue};

verus! {

/// Where the messaging service takes its calls.
pub const BASE_URL: &'static str = "https://api.line.me/v2/bot";

/// Where the messaging service hands out content.
pub const BASEDATA_URL: &'static str = "https://api-data.line.me/v2/bot";

/// The method of a request.
#[derive(Debug, Clone, Copy, PartialEq, Eq, Structural)]
pub enum Method {
    Get,
    Post,
    Put,
    Delete,
}

/// A request, ready to be sent: where it goes, and what it carries.
#[derive(Debug, PartialEq, Eq)]
pub struct HttpRequest {
    pub method: Method,
    pub url: String,
    pub query: Vec<(String, String)>,
    pub headers: Vec<(String, String)>,
    pub body: Json,
}

/// The mathematical value of an [`HttpRequest`].
pub struct HttpRequestView {
    pub method: Method,
    pub url: Seq<char>,
    pub query: Seq<(Seq<char>, Seq<char>)>,
    pub headers: Seq<(Seq<char>, Seq<char>)>,
    pub body: JsonValue,
}

/// The values of a run of pairs of texts.
pub open spec fn pair_views(pairs: Seq<(String, String)>) -> Seq<(Seq<char>, Seq<char>)> {
    Seq::new(pairs.len(), |i: int| (pairs[i].0@, pairs[i].1@))
}

/// The values of a run of pairs of borrowed texts.
pub open spec fn str_pair_views(pairs: Seq<(&str, &str)>) -> Seq<(Seq<char>, Seq<char>)> {
    Seq::new(pairs.len(), |i: int| (pairs[i].0@, pairs[i].1@))
}

impl View for HttpRequest {
    type V = HttpRequestView;

    open spec fn view(&self) -> HttpRequestView {
        HttpRequestView {
            method: self.method,
            url: self.url@,
            query: pair_views(self.query@),
            headers: pair_views(self.headers@),
            body: self.body@,
        }
    }
}

/// A byte that may stand in the value of a header: a tab, or anything from
/// the space on but the delete character.
pub open spec fn header_byte_valid(b: u8) -> bool {
    (b >= 32 && b != 127) || b == 9
}

/// A text that may be the value of a header: each byte of it may stand there.
pub open spec fn header_value_valid(value: Seq<char>) -> bool {
    forall|i: int|
        0 <= i < encode_utf8(value).len() ==> header_byte_valid(#[trigger] encode_utf8(value)[i])
}

/// Tells whether `value` may be the value of a header.
pub fn is_header_value(value: &str) -> (valid: bool)
    ensures
        valid == header_value_valid(value@),
{
    let bytes = value.as_bytes();
    let n = bytes.len();
    let mut i: usize = 0;
    while i < n
        invariant
            n == bytes@.len(),
            bytes@ == encode_utf8(value@),
            i <= n,
            forall|j: int| 0 <= j < i ==> header_byte_valid(#[trigger] bytes@[j]),
        decreases n - i,
    {
        let b = bytes[i];
        if !((b >= 32 && b != 127) || b == 9) {
            return false;
        }
        i += 1;
    }
    true
}

/// The headers that authorize a call with `channel_token`: a bearer
/// authorization, left out where the token cannot stand in a header.
pub open spec fn authorization(channel_token: Seq<char>) -> Seq<(Seq<char>, Seq<char>)> {
    if header_value_valid("Bearer "@ + channel_token) {
        seq![("authorization"@, "Bearer "@ + channel_token)]
    } else {
        seq![]
    }
}

/// The mathematical value of an [`HttpClient`].
pub struct HttpClientView {
    pub headers: Seq<(Seq<char>, Seq<char>)>,
    pub endpoint_base: Seq<char>,
    pub endpoint_base_data: Seq<char>,
}

/// The headers of a call that is signed with `token` and carries JSON.
pub open spec fn signed_headers(token: Seq<char>) -> Seq<(Seq<char>, Seq<char>)> {
    authorization(token) + seq![("content-type"@, "application/json"@)]
}

/// The client that `HttpClient::new` makes for a token.
pub open spec fn client_for(channel_token: Seq<char>) -> HttpClientView {
    HttpClientView {
        headers: signed_headers(channel_token),
        endpoint_base: BASE_URL@,
        endpoint_base_data: BASEDATA_URL@,
    }
}

/// Shapes the requests to the messaging service.
#[derive(Debug, PartialEq, Eq)]
pub struct HttpClient {
    headers: Vec<(String, String)>,
    endpoint_base: String,
    endpoint_base_data: String,
}

impl View for HttpClient {
    type V = HttpClientView;

    closed spec fn view(&self) -> HttpClientView {
        HttpClientView {
            headers: pair_views(self.headers@),
            endpoint_base: self.endpoint_base@,
            endpoint_base_data: self.endpoint_base_data@,
        }
    }
}

fn owned_pairs(pairs: &Vec<(String, String)>) -> (copy: Vec<(String, String)>)
    ensures
        pair_views(copy@) == pair_views(pairs@),
{
    let n = pairs.len();
    let mut copy: Vec<(String, String)> = Vec::new();
    let mut i: usize = 0;
    while i < n
        invariant
            n == pairs@.len(),
            i <= n,
            copy@.len() == i,
            forall|j: int|
                0 <= j < i ==> (#[trigger] copy@[j]).0@ == pairs@[j].0@ && copy@[j].1@
                    == pairs@[j].1@,
        decreases n - i,
    {
        copy.push((pairs[i].0.clone(), pairs[i].1.clone()));
        i += 1;
    }
    assert(pair_views(copy@) =~= pair_views(pairs@));
    copy
}

fn owned_str_pairs(pairs: &Vec<(&str, &str)>) -> (copy: Vec<(String, String)>)
    ensures
        pair_views(copy@) == str_pair_views(pairs@),
{
    let n = pairs.len();
    let mut copy: Vec<(String, String)> = Vec::new();
    let mut i: usize = 0;
    while i < n
        invariant
            n == pairs@.len(),
            i <= n,
            copy@.len() == i,
            forall|j: int|
                0 <= j < i ==> (#[trigger] copy@[j]).0@ == pairs@[j].0@ && copy@[j].1@
                    == pairs@[j].1@,
        decreases n - i,
    {
        copy.push((pairs[i].0.to_owned(), pairs[i].1.to_owned()));
        i += 1;
    }
    assert(pair_views(copy@) =~= str_pair_views(pairs@));
    copy
}

/// The headers of a call that is signed with `token` and carries JSON.
pub fn signed_headers_for(token: &str) -> (headers: Vec<(String, String)>)
    ensures
        pair_views(headers@) == signed_headers(token@),
{
    let mut headers: Vec<(String, String)> = Vec::new();
    let mut bearer = "Bearer ".to_owned();
    bearer.append(token);
    if is_header_value(bearer.as_str()) {
        headers.push(("authorization".to_owned(), bearer));
    }
    headers.push(("content-type".to_owned(), "application/json".to_owned()));
    assert(pair_views(headers@) =~= signed_headers(token@));
    headers
}

impl HttpClient {
    /// A client that signs its requests with `channel_token`.
    pub fn new(channel_token: &str) -> (client: HttpClient)
        ensures
            client@ == client_for(channel_token@),
    {
        HttpClient {
            headers: signed_headers_for(channel_token),
            endpoint_base: BASE_URL.to_owned(),
            endpoint_base_data: BASEDATA_URL.to_owned(),
        }
    }

    fn request(
        &self,
        method: Method,
        base: &str,
        endpoint: &str,
        query: Vec<(String, String)>,
        data: Json,
    ) -> (request: HttpRequest)
        ensures
            request@ == (HttpRequestView {
                method,
                url: base@ + endpoint@,
                query: pair_views(query@),
                headers: self@.headers,
                body: data@,
            }),
    {
        let mut url = base.to_owned();
        url.append(endpoint);
        HttpRequest { method, url, query, headers: owned_pairs(&self.headers), body: data }
    }

    /// A `GET` request to `endpoint` of the service.
    pub fn get(&self, endpoint: &str, query: Vec<(&str, &str)>, data: Json) -> (request:
        HttpRequest)
        ensures
            request@ == (HttpRequestView {
                method: Method::Get,
                url: self@.endpoint_base + endpoint@,
                query: str_pair_views(query@),
                headers: self@.headers,
                body: data@,
            }),
    {
        self.request(
            Method::Get,
            self.endpoint_base.as_str(),
            endpoint,
            owned_str_pairs(&query),
            data,
        )
    }

    /// A `GET` request to `endpoint` of the content service.
    pub fn get_data(&self, endpoint: &str, query: Vec<(&str, &str)>, data: Json) -> (request:
        HttpRequest)
        ensures
            request@ == (HttpRequestView {
                method: Method::Get,
                url: self@.endpoint_base_data + endpoint@,
                query: str_pair_views(query@),
                headers: self@.headers,
                body: data@,
            }),
    {
        self.request(
            Method::Get,
            self.endpoint_base_data.as_str(),
            endpoint,
            owned_str_pairs(&query),
            data,
        )
    }

    /// A `POST` request to `endpoint` of the service.
    pub fn post(&self, endpoint: &str, data: Json) -> (request: HttpRequest)
        ensures
            request@ == (HttpRequestView {
                method: Method::Post,
                url: self@.endpoint_base + endpoint@,
                query: Seq::empty(),
                headers: self@.headers,
                body: data@,
            }),
    {
        let query: Vec<(String, String)> = Vec::new();
        assert(pair_views(query@) =~= Seq::empty());
        self.request(Method::Post, self.endpoint_base.as_str(), endpoint, query, data)
    }

    /// A `PUT` request to `endpoint` of the service.
    pub fn put(&self, endpoint: &str, data: Json) -> (request: HttpRequest)
        ensures
            request@ == (HttpRequestView {
                method: Method::Put,
                url: self@.endpoint_base + endpoint@,
                query: Seq::empty(),
                headers: self@.headers,
                body: data@,
            }),
    {
        let query: Vec<(String, String)> = Vec::new();
        assert(pair_views(query@) =~= Seq::empty());
        self.request(Method::Put, self.endpoint_base.as_str(), endpoint, query, data)
    }

    /// A `DELETE` request to `endpoint` of the service.
    pub fn delete(&self, endpoint: &str, data: Json) -> (request: HttpRequest)
        ensures
            request@ == (HttpRequestView {
                method: Method::Delete,
                url: self@.endpoint_base + endpoint@,
                query: Seq::empty(),
                headers: self@.headers,
                body: data@,
            }),
    {
        let query: Vec<(String, String)> = Vec::new();
        assert(pair_views(query@) =~= Seq::empty());
        self.request(Method::Delete, self.endpoint_base.as_str(), endpoint, query, data)
    }
}

} // verus!
