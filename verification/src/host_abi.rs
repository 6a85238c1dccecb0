//! The host ABI: packed pointers and lengths, and HTTP fetches that the host makes.
//!
//! A wasm guest has no sockets of its own. It asks the host to fetch, with options
//! in JSON, and gets back the address of a JSON reply:
//! `{"status":u16,"headers":[[k,v],..],"body":"<base64>"}`, or
//! `{"error":"<message>"}` on failure.

use vstd::prelude::*;
use vstd::utf8::{decode_utf8, valid_utf8};

use crate::base64_codec::{
    base64_bytes, base64_len, base64_text, decode_base64, encode_base64,
};
use crate::json::{
    entry_map, lemma_trees, no_entries, text_json, trees, with_entry, Json, JsonNumber, JsonTree,
};
use crate::json_codec::{
    json_parse, json_text, parse_json, reads_back, write_json, MAX_READ_DEPTH,
};
use crate::text::{decode_lossy, lossy_text};

verus! {

/// Where a run of bytes lies in the guest's memory.
#[derive(Clone, Copy, Debug, PartialEq, Eq, Structural)]
pub struct Span {
    pub ptr: u32,
    pub len: u32,
}

/// A pointer in the lower half of a word and a length in the upper half.
pub open spec fn packed(ptr: int, len: int) -> int {
    ptr + len * 0x1_0000_0000
}

/// Packs a pointer and a length, each of which must fit in 32 bits.
pub fn pack_ptr_len(ptr: usize, len: usize) -> (r: u64)
    requires
        ptr <= 0xffff_ffff,
        len <= 0xffff_ffff,
    ensures
        r == packed(ptr as int, len as int),
        r & 0xffff_ffff == ptr as u64,
        r >> 32 == len as u64,
{
    let p = ptr as u64;
    let l = len as u64;
    assert(((p & 0xffff_ffff) | (l << 32)) & 0xffff_ffff == p) by (bit_vector)
        requires
            p <= 0xffff_ffff,
    ;
    assert(((p & 0xffff_ffff) | (l << 32)) >> 32 == l) by (bit_vector)
        requires
            l <= 0xffff_ffff,
    ;
    assert((p & 0xffff_ffff) | (l << 32) == p + l * 0x1_0000_0000) by (bit_vector)
        requires
            p <= 0xffff_ffff,
            l <= 0xffff_ffff,
    ;
    (p & 0xffff_ffff) | (l << 32)
}

/// Packing is part of the ABI, also where a module only unpacks.
pub fn _abi_contract_uses_pack(ptr: usize, len: usize) -> (r: u64)
    requires
        ptr <= 0xffff_ffff,
        len <= 0xffff_ffff,
    ensures
        r == packed(ptr as int, len as int),
{
    pack_ptr_len(ptr, len)
}

/// The bytes that a pointer and a length stand for: none where either is zero.
pub open spec fn span_at(ptr: u32, len: u32) -> Option<Span> {
    if ptr == 0 || len == 0 {
        None
    } else {
        Some(Span { ptr, len })
    }
}

/// The pointer that a word packs.
pub open spec fn packed_ptr(word: u64) -> u32 {
    (word % 0x1_0000_0000) as u32
}

/// The length that a word packs.
pub open spec fn packed_len(word: u64) -> u32 {
    (word / 0x1_0000_0000) as u32
}

/// The pointer and the length that a word packs.
pub fn unpack_ptr_len(word: u64) -> (r: Span)
    ensures
        r.ptr == packed_ptr(word),
        r.len == packed_len(word),
        r.ptr as u64 == word & 0xffff_ffff,
        r.len as u64 == word >> 32,
{
    assert((word & 0xffff_ffff) == word % 0x1_0000_0000) by (bit_vector);
    assert((word >> 32) == word / 0x1_0000_0000) by (bit_vector);
    assert((word & 0xffff_ffff) <= 0xffff_ffff && (word >> 32) <= 0xffff_ffff) by (bit_vector);
    Span { ptr: (word & 0xffff_ffff) as u32, len: (word >> 32) as u32 }
}

/// The bytes that a pointer and a length stand for.
pub fn argument_span(ptr: u32, len: u32) -> (r: Option<Span>)
    ensures
        r == span_at(ptr, len),
        r is None <==> ptr == 0 || len == 0,
        r matches Some(span) ==> span.ptr == ptr && span.len == len,
{
    if ptr == 0 || len == 0 {
        return None;
    }
    Some(Span { ptr, len })
}

/// The bytes that a packed word stands for.
pub fn packed_span(word: u64) -> (r: Option<Span>)
    ensures
        r == span_at(packed_ptr(word), packed_len(word)),
        r is None <==> word & 0xffff_ffff == 0 || word >> 32 == 0,
        r matches Some(span) ==> span.ptr as u64 == word & 0xffff_ffff && span.len as u64 == word
            >> 32,
{
    let span = unpack_ptr_len(word);
    argument_span(span.ptr, span.len)
}

/// Unpacking undoes packing: every pointer and every length come back out of the
/// word, which can hold them.
pub proof fn law_unpacking_undoes_packing(ptr: u32, len: u32)
    ensures
        0 <= packed(ptr as int, len as int) <= u64::MAX,
        packed_ptr(packed(ptr as int, len as int) as u64) == ptr,
        packed_len(packed(ptr as int, len as int) as u64) == len,
{
}

/// Packing undoes unpacking: each word packs one pointer and one length.
pub proof fn law_packing_undoes_unpacking(word: u64)
    ensures
        packed(packed_ptr(word) as int, packed_len(word) as int) == word,
{
}

/// The text of bytes that the host handed over, if it handed over any.
pub fn unpack_to_string(bytes: Option<&[u8]>) -> (r: Option<String>)
    ensures
        match bytes {
            Some(b) => r matches Some(s) && s@ == lossy_text(b@) && (valid_utf8(b@) ==> s@
                == decode_utf8(b@)),
            None => r is None,
        },
{
    match bytes {
        Some(b) => Some(decode_lossy(b)),
        None => None,
    }
}

/// What a text stands for: the value that was read out of it, or else the text.
pub open spec fn value_or_text(text: Seq<char>, parsed: Option<JsonTree>) -> JsonTree {
    match parsed {
        Some(tree) => tree,
        None => JsonTree::Text(text),
    }
}

/// The value of a reply: null where there is none.
pub open spec fn reply_value(bytes: Option<Seq<u8>>) -> JsonTree {
    match bytes {
        Some(b) => value_or_text(lossy_text(b), json_parse(lossy_text(b))),
        None => JsonTree::Null,
    }
}

/// What a text stands for, given what was read out of it.
pub fn parsed_or_text(text: String, parsed: Option<Json>) -> (r: Json)
    ensures
        r.tree() == value_or_text(
            text@,
            match parsed {
                Some(json) => Some(json.tree()),
                None => None,
            },
        ),
{
    match parsed {
        Some(json) => json,
        None => Json::Text(text),
    }
}

/// The bytes of an argument, as a sequence.
pub open spec fn some_bytes(bytes: Option<&[u8]>) -> Option<Seq<u8>> {
    match bytes {
        Some(b) => Some(b@),
        None => None,
    }
}

/// The value of bytes that the host handed over: what their text is the JSON of, the
/// text itself where it is not JSON, and null where there are no bytes.
pub fn unpack_to_value(bytes: Option<&[u8]>) -> (r: Json)
    ensures
        r.tree() == reply_value(some_bytes(bytes)),
        bytes matches Some(b) ==> valid_utf8(b@) ==> r.tree() == value_or_text(
            decode_utf8(b@),
            json_parse(decode_utf8(b@)),
        ),
{
    match unpack_to_string(bytes) {
        Some(s) => {
            let parsed = parse_json(s.as_str());
            parsed_or_text(s, parsed)
        },
        None => Json::Null,
    }
}

/// A response that the host fetched.
#[derive(Debug, PartialEq, Eq)]
pub struct HostFetchResponse {
    pub status: u16,
    pub headers: Vec<(String, String)>,
    pub body: Vec<u8>,
}

/// A reply of the host, with the body still in base64.
#[derive(Debug, PartialEq, Eq)]
pub struct FetchEnvelope {
    pub status: u16,
    pub headers: Vec<(String, String)>,
    pub body: Option<String>,
}

/// What a response is, apart from how it is stored.
#[verifier::ext_equal]
pub struct Fetched {
    pub status: u16,
    pub headers: Seq<(Seq<char>, Seq<char>)>,
    pub body: Seq<u8>,
}

/// The names and values of headers.
pub open spec fn header_texts(headers: Seq<(String, String)>) -> Seq<(Seq<char>, Seq<char>)> {
    Seq::new(headers.len(), |i: int| (headers[i].0@, headers[i].1@))
}

impl HostFetchResponse {
    /// What this response is.
    pub open spec fn fetched(self) -> Fetched {
        Fetched {
            status: self.status,
            headers: header_texts(self.headers@),
            body: self.body@,
        }
    }
}

/// The status that a reply tells, in 16 bits; zero where it tells none.
pub open spec fn reply_status(v: JsonTree) -> int {
    match v.member("status"@) {
        Some(status) => match status.unsigned() {
            Some(u) => (u % 0x1_0000) as int,
            None => 0,
        },
        None => 0,
    }
}

/// The header that an item of a header list tells: a list that starts with two texts.
pub open spec fn header_of(item: JsonTree) -> Option<(Seq<char>, Seq<char>)> {
    match item.items() {
        Some(pair) => if pair.len() >= 2 && pair[0].text() is Some && pair[1].text() is Some {
            Some((pair[0].text()->0, pair[1].text()->0))
        } else {
            None
        },
        None => None,
    }
}

/// The headers that a list tells; items that tell none are passed over.
pub open spec fn headers_of(items: Seq<JsonTree>) -> Seq<(Seq<char>, Seq<char>)>
    decreases items.len(),
{
    if items.len() == 0 {
        Seq::empty()
    } else {
        match header_of(items.last()) {
            Some(header) => headers_of(items.drop_last()).push(header),
            None => headers_of(items.drop_last()),
        }
    }
}

/// The headers that a reply tells.
pub open spec fn reply_headers(v: JsonTree) -> Seq<(Seq<char>, Seq<char>)> {
    match v.member("headers"@) {
        Some(headers) => match headers.items() {
            Some(items) => headers_of(items),
            None => Seq::empty(),
        },
        None => Seq::empty(),
    }
}

/// The body that a base64 text stands for; empty where there is none or it is not base64.
pub open spec fn body_of(text: Option<Seq<char>>) -> Seq<u8> {
    match text {
        Some(t) => match base64_bytes(t) {
            Some(bytes) => bytes,
            None => Seq::empty(),
        },
        None => Seq::empty(),
    }
}

/// What a reply of the host means: its error message, or else a response.
pub open spec fn fetch_outcome(v: JsonTree) -> Result<Fetched, Seq<char>> {
    match v.text_member("error"@) {
        Some(message) => Err(message),
        None => Ok(
            Fetched {
                status: reply_status(v) as u16,
                headers: reply_headers(v),
                body: body_of(v.text_member("body"@)),
            },
        ),
    }
}

fn read_status(v: &Json) -> (r: u16)
    ensures
        r == reply_status(v.tree()),
{
    match v.get("status") {
        Some(status) => match status.as_u64() {
            Some(u) => {
                assert(u as u16 == u % 0x1_0000) by (bit_vector);
                u as u16
            },
            None => 0,
        },
        None => 0,
    }
}

/// The header that an item of a header list tells.
fn read_header(item: &Json) -> (r: Option<(String, String)>)
    ensures
        match r {
            Some(header) => header_of(item.tree()) == Some((header.0@, header.1@)),
            None => header_of(item.tree()) is None,
        },
{
    match item.as_array() {
        Some(pair) => {
            proof {
                lemma_trees(pair@);
            }
            if pair.len() < 2 {
                return None;
            }
            match (pair[0].as_str(), pair[1].as_str()) {
                (Some(name), Some(value)) => Some((name.to_string(), value.to_string())),
                _ => None,
            }
        },
        None => None,
    }
}

fn read_headers(v: &Json) -> (r: Vec<(String, String)>)
    ensures
        header_texts(r@) == reply_headers(v.tree()),
{
    let mut headers: Vec<(String, String)> = Vec::new();
    assert(header_texts(headers@) == Seq::<(Seq<char>, Seq<char>)>::empty());
    match v.get("headers") {
        Some(list) => match list.as_array() {
            Some(items) => {
                proof {
                    lemma_trees(items@);
                }
                assert(trees(items@).take(0) == Seq::<JsonTree>::empty());
                for i in 0..items.len()
                    invariant
                        trees(items@).len() == items@.len(),
                        forall|j: int|
                            0 <= j < items@.len() ==> #[trigger] trees(items@)[j]
                                == items@[j].tree(),
                        header_texts(headers@) == headers_of(trees(items@).take(i as int)),
                {
                    let ghost before = headers@;
                    assert(trees(items@).take(i + 1).drop_last() == trees(items@).take(i as int));
                    assert(trees(items@).take(i + 1).last() == items@[i as int].tree());
                    match read_header(&items[i]) {
                        Some(header) => {
                            headers.push(header);
                            assert(header_texts(headers@) == header_texts(before).push(
                                (header.0@, header.1@),
                            ));
                        },
                        None => {},
                    }
                }
                assert(trees(items@).take(items@.len() as int) == trees(items@));
            },
            None => {},
        },
        None => {},
    }
    headers
}

/// Reads a reply of the host, up to the base64 of the body.
pub fn open_envelope(v: &Json) -> (r: Result<FetchEnvelope, String>)
    ensures
        match r {
            Err(message) => v.tree().text_member("error"@) == Some(message@),
            Ok(envelope) => {
                &&& v.tree().text_member("error"@) is None
                &&& envelope.status == reply_status(v.tree())
                &&& header_texts(envelope.headers@) == reply_headers(v.tree())
                &&& match envelope.body {
                    Some(body) => v.tree().text_member("body"@) == Some(body@),
                    None => v.tree().text_member("body"@) is None,
                }
            },
        },
{
    if let Some(message) = v.get_str("error") {
        return Err(message.to_string());
    }
    let body = match v.get_str("body") {
        Some(text) => Some(text.to_string()),
        None => None,
    };
    Ok(FetchEnvelope { status: read_status(v), headers: read_headers(v), body })
}

/// A response out of a reply and the bytes that its body decoded to: the body is empty
/// where there were none.
pub fn response_of(envelope: FetchEnvelope, decoded: Option<Vec<u8>>) -> (r: HostFetchResponse)
    ensures
        r.status == envelope.status,
        r.headers == envelope.headers,
        r.body@ == match decoded {
            Some(bytes) => bytes@,
            None => Seq::empty(),
        },
{
    let body = match decoded {
        Some(bytes) => bytes,
        None => Vec::new(),
    };
    HostFetchResponse { status: envelope.status, headers: envelope.headers, body }
}

/// Reads a reply of the host: an error message, or a response.
pub fn read_fetch_reply(v: &Json) -> (r: Result<HostFetchResponse, String>)
    ensures
        match r {
            Err(message) => fetch_outcome(v.tree()) == Err::<Fetched, Seq<char>>(message@),
            Ok(response) => fetch_outcome(v.tree()) == Ok::<Fetched, Seq<char>>(
                response.fetched(),
            ),
        },
        r is Err <==> v.tree().text_member("error"@) is Some,
        r matches Err(message) ==> v.tree().text_member("error"@) == Some(message@),
        r matches Ok(response) ==> {
            &&& response.status == reply_status(v.tree())
            &&& header_texts(response.headers@) == reply_headers(v.tree())
            &&& response.body@ == body_of(v.tree().text_member("body"@))
        },
{
    match open_envelope(v) {
        Err(message) => Err(message),
        Ok(envelope) => {
            let decoded = match &envelope.body {
                Some(text) => decode_base64(text.as_str()),
                None => None,
            };
            Ok(response_of(envelope, decoded))
        },
    }
}

/// Reads the bytes that the host answered a fetch with.
pub fn host_fetch_response(bytes: Option<&[u8]>) -> (r: Result<HostFetchResponse, String>)
    ensures
        match r {
            Err(message) => fetch_outcome(reply_value(some_bytes(bytes))) == Err::<
                Fetched,
                Seq<char>,
            >(message@),
            Ok(response) => fetch_outcome(reply_value(some_bytes(bytes))) == Ok::<
                Fetched,
                Seq<char>,
            >(response.fetched()),
        },
        bytes matches Some(b) ==> valid_utf8(b@) ==> fetch_outcome(
            value_or_text(decode_utf8(b@), json_parse(decode_utf8(b@))),
        ) == match r {
            Err(message) => Err::<Fetched, Seq<char>>(message@),
            Ok(response) => Ok::<Fetched, Seq<char>>(response.fetched()),
        },
{
    let v = unpack_to_value(bytes);
    read_fetch_reply(&v)
}

/// What headers map each name to: the last header of a name counts.
pub open spec fn header_map(headers: Seq<(Seq<char>, Seq<char>)>) -> Map<Seq<char>, JsonTree>
    decreases headers.len(),
{
    if headers.len() == 0 {
        Map::empty()
    } else {
        header_map(headers.drop_last()).insert(
            headers.last().0,
            JsonTree::Text(headers.last().1),
        )
    }
}

/// The options of a fetch, with the body in base64, or null where there is none.
pub open spec fn options_tree(
    method: Seq<char>,
    headers: Seq<(Seq<char>, Seq<char>)>,
    body: Option<Seq<char>>,
) -> JsonTree {
    JsonTree::Object(
        map![
            "method"@ => JsonTree::Text(method),
            "headers"@ => JsonTree::Object(header_map(headers)),
            "body"@ => match body {
                Some(text) => JsonTree::Text(text),
                None => JsonTree::Null,
            },
        ],
    )
}

/// The options of a fetch whose body is in base64 already.
pub fn fetch_options(method: &str, headers: &[(String, String)], body: Option<&str>) -> (r: Json)
    ensures
        r.tree() == options_tree(
            method@,
            header_texts(headers@),
            match body {
                Some(text) => Some(text@),
                None => None,
            },
        ),
        r.tree().text_member("method"@) == Some(method@),
        r.tree().member("headers"@) == Some(JsonTree::Object(header_map(header_texts(headers@)))),
        r.tree().member("body"@) == Some(
            match body {
                Some(text) => JsonTree::Text(text@),
                None => JsonTree::Null,
            },
        ),
{
    proof {
        lemma_option_members_differ();
    }
    let mut fields = no_entries();
    assert(header_texts(headers@).take(0) == Seq::<(Seq<char>, Seq<char>)>::empty());
    for i in 0..headers.len()
        invariant
            entry_map(fields@) == header_map(header_texts(headers@).take(i as int)),
    {
        let ghost so_far = header_texts(headers@).take(i + 1);
        assert(so_far.drop_last() == header_texts(headers@).take(i as int));
        assert(so_far.last() == (headers@[i as int].0@, headers@[i as int].1@));
        fields = with_entry(fields, headers[i].0.as_str(), text_json(headers[i].1.as_str()));
    }
    assert(header_texts(headers@).take(headers@.len() as int) == header_texts(headers@));
    let body = match body {
        Some(text) => text_json(text),
        None => Json::Null,
    };
    let entries = with_entry(no_entries(), "method", text_json(method));
    let entries = with_entry(entries, "headers", Json::Object(fields));
    let entries = with_entry(entries, "body", body);
    Json::Object(entries)
}

/// The base64 of a body, if there is one.
pub open spec fn body_text(body: Option<Seq<u8>>) -> Option<Seq<char>> {
    match body {
        Some(bytes) => Some(base64_text(bytes)),
        None => None,
    }
}

/// The options of a fetch, as the JSON text that the host is given.
pub fn host_fetch_options(method: &str, headers: &[(String, String)], body: Option<&[u8]>) -> (r:
    String)
    requires
        body matches Some(bytes) ==> base64_len(bytes@.len()) <= isize::MAX,
    ensures
        r@ == json_text(
            options_tree(method@, header_texts(headers@), body_text(some_bytes(body))),
        ),
        json_parse(r@) == Some(
            options_tree(method@, header_texts(headers@), body_text(some_bytes(body))),
        ),
        body matches Some(bytes) ==> base64_bytes(base64_text(bytes@)) == Some(bytes@),
        r@.len() > 0,
{
    let encoded = match body {
        Some(bytes) => Some(encode_base64(bytes)),
        None => None,
    };
    let text: Option<&str> = match &encoded {
        Some(s) => Some(s.as_str()),
        None => None,
    };
    let options = fetch_options(method, headers, text);
    proof {
        lemma_options_read_back(
            method@,
            header_texts(headers@),
            body_text(some_bytes(body)),
        );
    }
    write_json(&options)
}

proof fn lemma_header_map(headers: Seq<(Seq<char>, Seq<char>)>)
    ensures
        header_map(headers).dom().finite(),
        forall|name: Seq<char>| #[trigger]
            header_map(headers).dom().contains(name) ==> header_map(headers)[name] is Text,
    decreases headers.len(),
{
    if headers.len() > 0 {
        lemma_header_map(headers.drop_last());
    }
}

proof fn lemma_options_read_back(
    method: Seq<char>,
    headers: Seq<(Seq<char>, Seq<char>)>,
    body: Option<Seq<char>>,
)
    ensures
        reads_back(options_tree(method, headers, body), MAX_READ_DEPTH as nat),
{
    reveal_with_fuel(reads_back, 3);
    lemma_header_map(headers);
    let fields = JsonTree::Object(header_map(headers));
    assert(reads_back(fields, 126));
    let options = options_tree(method, headers, body);
    let members = options->Object_0;
    assert forall|key: Seq<char>| members.dom().contains(key) implies reads_back(
        #[trigger] members[key],
        126,
    ) by {
    }
}

/// The reply to a fetch that succeeded, as the ABI writes it down.
pub open spec fn success_reply(
    status: u16,
    headers: Seq<(Seq<char>, Seq<char>)>,
    body: Seq<char>,
) -> JsonTree {
    JsonTree::Object(
        map![
            "status"@ => JsonTree::Number(JsonNumber::Unsigned(status as u64)),
            "headers"@ => JsonTree::Array(
                Seq::new(
                    headers.len(),
                    |i: int|
                        JsonTree::Array(
                            seq![JsonTree::Text(headers[i].0), JsonTree::Text(headers[i].1)],
                        ),
                ),
            ),
            "body"@ => JsonTree::Text(body),
        ],
    )
}

/// The reply to a fetch that failed, as the ABI writes it down.
pub open spec fn failure_reply(message: Seq<char>) -> JsonTree {
    JsonTree::Object(map!["error"@ => JsonTree::Text(message)])
}

proof fn lemma_reply_members_differ()
    ensures
        "status"@ != "headers"@,
        "status"@ != "body"@,
        "status"@ != "error"@,
        "headers"@ != "body"@,
        "headers"@ != "error"@,
        "body"@ != "error"@,
{
    reveal_strlit("status");
    reveal_strlit("headers");
    reveal_strlit("body");
    reveal_strlit("error");
    assert("status"@[0] == 's' && "headers"@[0] == 'h' && "body"@[0] == 'b' && "error"@[0] == 'e');
}

proof fn lemma_headers_of_pairs(items: Seq<JsonTree>, headers: Seq<(Seq<char>, Seq<char>)>)
    requires
        items.len() == headers.len(),
        forall|i: int|
            0 <= i < items.len() ==> header_of(#[trigger] items[i]) == Some(headers[i]),
    ensures
        headers_of(items) == headers,
    decreases items.len(),
{
    if items.len() > 0 {
        assert forall|i: int| 0 <= i < items.drop_last().len() implies header_of(
            #[trigger] items.drop_last()[i],
        ) == Some(headers.drop_last()[i]) by {
            assert(items.drop_last()[i] == items[i]);
        }
        lemma_headers_of_pairs(items.drop_last(), headers.drop_last());
        assert(header_of(items[items.len() - 1]) == Some(headers.last()));
        assert(headers.drop_last().push(headers.last()) =~= headers);
    } else {
        assert(headers =~= Seq::empty());
    }
}

/// A reply to a fetch that succeeded is read as the status, the headers and the body
/// that it was made of.
pub proof fn law_success_reply_is_read(
    status: u16,
    headers: Seq<(Seq<char>, Seq<char>)>,
    body: Seq<char>,
    bytes: Seq<u8>,
)
    requires
        base64_bytes(body) == Some(bytes),
    ensures
        fetch_outcome(success_reply(status, headers, body)) == Ok::<Fetched, Seq<char>>(
            Fetched { status, headers, body: bytes },
        ),
{
    let v = success_reply(status, headers, body);
    lemma_reply_members_differ();
    let items = v.member("headers"@)->0->Array_0;
    assert forall|i: int| 0 <= i < items.len() implies header_of(#[trigger] items[i]) == Some(
        headers[i],
    ) by {
    }
    lemma_headers_of_pairs(items, headers);
}

/// A reply to a fetch that failed is read as its message.
pub proof fn law_failure_reply_is_read(message: Seq<char>)
    ensures
        fetch_outcome(failure_reply(message)) == Err::<Fetched, Seq<char>>(message),
{
}

/// A host that hands over nothing is read as an empty response with the status zero.
pub proof fn law_no_reply_is_an_empty_response()
    ensures
        fetch_outcome(reply_value(None)) == Ok::<Fetched, Seq<char>>(
            Fetched { status: 0, headers: Seq::empty(), body: Seq::empty() },
        ),
{
}

/// Of the headers of a fetch each name reaches the host, with the value of the last
/// header of that name.
pub proof fn law_last_header_of_a_name_counts(headers: Seq<(Seq<char>, Seq<char>)>, i: int)
    requires
        0 <= i < headers.len(),
        forall|j: int| i < j < headers.len() ==> (#[trigger] headers[j]).0 != headers[i].0,
    ensures
        header_map(headers).dom().contains(headers[i].0),
        header_map(headers)[headers[i].0] == JsonTree::Text(headers[i].1),
    decreases headers.len(),
{
    if i < headers.len() - 1 {
        let init = headers.drop_last();
        assert forall|j: int| i < j < init.len() implies (#[trigger] init[j]).0 != init[i].0 by {
            assert(init[j] == headers[j]);
        }
        law_last_header_of_a_name_counts(init, i);
        assert(headers[headers.len() - 1].0 != headers[i].0);
    }
}

/// No header reaches the host that was not given.
pub proof fn law_no_header_is_made_up(headers: Seq<(Seq<char>, Seq<char>)>, name: Seq<char>)
    requires
        header_map(headers).dom().contains(name),
    ensures
        exists|i: int| 0 <= i < headers.len() && (#[trigger] headers[i]).0 == name,
    decreases headers.len(),
{
    if headers.len() > 0 {
        if name == headers.last().0 {
            assert(headers[headers.len() - 1].0 == name);
        } else {
            let init = headers.drop_last();
            law_no_header_is_made_up(init, name);
            let i = choose|i: int| 0 <= i < init.len() && (#[trigger] init[i]).0 == name;
            assert(headers[i].0 == name);
        }
    }
}

/// A packed word has the pointer in its lower 32 bits and the length in its upper 32
/// bits.
pub proof fn law_pointer_is_below_the_length(ptr: u32, len: u32)
    ensures
        packed(ptr as int, len as int) as u64 & 0xffff_ffff == ptr as u64,
        packed(ptr as int, len as int) as u64 >> 32 == len as u64,
{
    let word = packed(ptr as int, len as int) as u64;
    law_halves_of_a_word(word);
    law_unpacking_undoes_packing(ptr, len);
}

/// Of every word the lower 32 bits are the pointer and the upper 32 bits the length.
pub proof fn law_halves_of_a_word(word: u64)
    ensures
        packed_ptr(word) as u64 == word & 0xffff_ffff,
        packed_len(word) as u64 == word >> 32,
{
    assert((word & 0xffff_ffff) == word % 0x1_0000_0000) by (bit_vector);
    assert((word >> 32) == word / 0x1_0000_0000) by (bit_vector);
}

/// A pointer and a length stand for the bytes that they tell, unless one of them is
/// zero.
pub proof fn law_null_and_empty_stand_for_nothing(ptr: u32, len: u32)
    ensures
        span_at(ptr, len) is None <==> ptr == 0 || len == 0,
        span_at(ptr, len) matches Some(span) ==> span.ptr == ptr && span.len == len,
{
}

/// Bytes that are passed are passed as they are.
pub proof fn law_bytes_are_passed_on(bytes: &[u8])
    ensures
        some_bytes(Some(bytes)) == Some(bytes@),
        some_bytes(None) is None,
{
}

/// A reply whose text is JSON is the value of that text, any other reply is its text,
/// and no reply is null.
pub proof fn law_reply_is_its_value_or_its_text(bytes: Seq<u8>, tree: JsonTree)
    ensures
        json_parse(lossy_text(bytes)) == Some(tree) ==> reply_value(Some(bytes)) == tree,
        json_parse(lossy_text(bytes)) is None ==> reply_value(Some(bytes)) == JsonTree::Text(
            lossy_text(bytes),
        ),
        reply_value(None) == JsonTree::Null,
{
}

/// Where a text can be read the value counts, whatever the text; where it cannot, the
/// text.
pub proof fn law_value_goes_before_the_text(text: Seq<char>, tree: JsonTree)
    ensures
        value_or_text(text, Some(tree)) == tree,
        value_or_text(text, None).text() == Some(text),
{
}

/// A fetch failed exactly where the reply has a text as its `error`, and that text is
/// the message, whatever else the reply tells.
pub proof fn law_error_text_decides(v: JsonTree, message: Seq<char>)
    ensures
        fetch_outcome(v) == Err::<Fetched, Seq<char>>(message) <==> v.member("error"@) == Some(
            JsonTree::Text(message),
        ),
{
}

/// The status of a response is the number that the reply tells, as far as it fits in
/// 16 bits, and zero where the reply tells no whole number that is not negative.
pub proof fn law_status_is_read(v: JsonTree, status: u64)
    requires
        v.text_member("error"@) is None,
    ensures
        fetch_outcome(v) is Ok,
        v.member("status"@) == Some(JsonTree::Number(JsonNumber::Unsigned(status))) ==> {
            &&& fetch_outcome(v)->Ok_0.status as int == status as int % 0x1_0000
            &&& status <= u16::MAX ==> fetch_outcome(v)->Ok_0.status == status
        },
        !(v.member("status"@) matches Some(JsonTree::Number(JsonNumber::Unsigned(_))))
            ==> fetch_outcome(v)->Ok_0.status == 0,
{
}

/// The body of a response is what the text that the reply tells decodes to, and empty
/// where the reply tells no text or one that does not decode.
pub proof fn law_body_is_decoded(v: JsonTree, text: Seq<char>, bytes: Seq<u8>)
    requires
        v.text_member("error"@) is None,
    ensures
        fetch_outcome(v) is Ok,
        v.member("body"@) == Some(JsonTree::Text(text)) && base64_bytes(text) == Some(bytes)
            ==> fetch_outcome(v)->Ok_0.body == bytes,
        v.member("body"@) == Some(JsonTree::Text(text)) && base64_bytes(text) is None
            ==> fetch_outcome(v)->Ok_0.body.len() == 0,
        v.text_member("body"@) is None ==> fetch_outcome(v)->Ok_0.body.len() == 0,
{
}

/// The headers of a response are those that the list in the reply tells; a reply without
/// such a list has none.
pub proof fn law_headers_are_read(v: JsonTree, items: Seq<JsonTree>)
    requires
        v.text_member("error"@) is None,
    ensures
        fetch_outcome(v) is Ok,
        v.member("headers"@) == Some(JsonTree::Array(items)) ==> fetch_outcome(v)->Ok_0.headers
            == headers_of(items),
        !(v.member("headers"@) matches Some(JsonTree::Array(_)))
            ==> fetch_outcome(v)->Ok_0.headers.len() == 0,
{
}

/// The headers of a list are those of its first part, followed by those of the rest.
pub proof fn law_headers_are_read_in_order(front: Seq<JsonTree>, back: Seq<JsonTree>)
    ensures
        headers_of(front + back) == headers_of(front) + headers_of(back),
    decreases back.len(),
{
    if back.len() == 0 {
        assert(front + back =~= front);
    } else {
        law_headers_are_read_in_order(front, back.drop_last());
        assert((front + back).drop_last() =~= front + back.drop_last());
        assert((front + back).last() == back.last());
    }
}

/// An item of a header list that starts with two texts is one header, the first text its
/// name and the second its value, whatever follows them.
pub proof fn law_two_texts_are_a_header(
    name: Seq<char>,
    value: Seq<char>,
    more: Seq<JsonTree>,
)
    ensures
        headers_of(
            seq![JsonTree::Array(seq![JsonTree::Text(name), JsonTree::Text(value)] + more)],
        ) == seq![(name, value)],
{
    let pair = seq![JsonTree::Text(name), JsonTree::Text(value)] + more;
    let items = seq![JsonTree::Array(pair)];
    assert(pair[0] == JsonTree::Text(name) && pair[1] == JsonTree::Text(value));
    assert(header_of(items[0]) == Some((name, value)));
    lemma_headers_of_pairs(items, seq![(name, value)]);
}

/// An item of a header list that does not start with two texts is passed over.
pub proof fn law_other_items_are_no_headers(item: JsonTree)
    requires
        item matches JsonTree::Array(pair) ==> pair.len() < 2 || !(pair[0] is Text) || !(
        pair[1] is Text),
    ensures
        headers_of(seq![item]).len() == 0,
{
    let items = seq![item];
    assert(items.last() == item);
    assert(items.drop_last() =~= Seq::empty());
    assert(headers_of(items.drop_last()).len() == 0);
}

/// A response is read with its own status, headers and body, each header with its name
/// and its value.
pub proof fn law_response_is_what_it_holds(response: HostFetchResponse)
    ensures
        response.fetched().status == response.status,
        response.fetched().body == response.body@,
        response.fetched().headers.len() == response.headers@.len(),
        forall|i: int|
            0 <= i < response.headers@.len() ==> {
                &&& (#[trigger] response.fetched().headers[i]).0 == response.headers@[i].0@
                &&& response.fetched().headers[i].1 == response.headers@[i].1@
            },
{
}

/// All headers that are given are sent, each with its name and its value.
pub proof fn law_all_headers_are_given_on(headers: Seq<(String, String)>)
    ensures
        header_texts(headers).len() == headers.len(),
        forall|i: int|
            0 <= i < headers.len() ==> {
                &&& (#[trigger] header_texts(headers)[i]).0 == headers[i].0@
                &&& header_texts(headers)[i].1 == headers[i].1@
            },
{
}

proof fn lemma_option_members_differ()
    ensures
        "method"@.len() == 6,
        "headers"@.len() == 7,
        "body"@.len() == 4,
{
    reveal_strlit("method");
    reveal_strlit("headers");
    reveal_strlit("body");
}

/// The options of a fetch tell its method, whether or not there is a body.
pub proof fn law_options_tell_the_method(
    method: Seq<char>,
    headers: Seq<(Seq<char>, Seq<char>)>,
    body: Option<Seq<char>>,
)
    ensures
        options_tree(method, headers, body).text_member("method"@) == Some(method),
{
    lemma_option_members_differ();
}

/// The options of a fetch tell its body, and null exactly where there is none.
pub proof fn law_options_tell_the_body(
    method: Seq<char>,
    headers: Seq<(Seq<char>, Seq<char>)>,
    body: Option<Seq<char>>,
    text: Seq<char>,
)
    ensures
        options_tree(method, headers, body).member("body"@) == Some(JsonTree::Text(text))
            <==> body == Some(text),
        options_tree(method, headers, body).member("body"@) == Some(JsonTree::Null)
            <==> body is None,
{
    lemma_option_members_differ();
}

/// The options of a fetch tell its headers: each name with the value of its last header,
/// and no name that was not given, whatever the method and the body.
pub proof fn law_options_tell_the_headers(
    method: Seq<char>,
    headers: Seq<(Seq<char>, Seq<char>)>,
    body: Option<Seq<char>>,
)
    ensures
        options_tree(method, headers, body).member("headers"@) == Some(
            JsonTree::Object(header_map(headers)),
        ),
        options_tree(method, headers, body).member("headers"@) matches Some(fields) && {
            &&& forall|i: int|
                0 <= i < headers.len() && (forall|j: int|
                    i < j < headers.len() ==> (#[trigger] headers[j]).0 != headers[i].0)
                    ==> fields.text_member((#[trigger] headers[i]).0) == Some(headers[i].1)
            &&& forall|name: Seq<char>| #[trigger]
                fields.member(name) is Some ==> exists|i: int|
                    0 <= i < headers.len() && (#[trigger] headers[i]).0 == name
        },
{
    lemma_option_members_differ();
    let fields = JsonTree::Object(header_map(headers));
    assert forall|i: int|
        0 <= i < headers.len() && (forall|j: int|
            i < j < headers.len() ==> (#[trigger] headers[j]).0
                != headers[i].0) implies fields.text_member((#[trigger] headers[i]).0) == Some(
        headers[i].1,
    ) by {
        law_last_header_of_a_name_counts(headers, i);
    }
    assert forall|name: Seq<char>| #[trigger] fields.member(name) is Some implies exists|i: int|
        0 <= i < headers.len() && (#[trigger] headers[i]).0 == name by {
        law_no_header_is_made_up(headers, name);
    }
}

/// The options of a fetch tell the method, the headers and the body, and nothing else.
pub proof fn law_options_tell_nothing_else(
    method: Seq<char>,
    headers: Seq<(Seq<char>, Seq<char>)>,
    body: Option<Seq<char>>,
    key: Seq<char>,
)
    ensures
        options_tree(method, headers, body).member(key) is Some <==> key == "method"@ || key
            == "headers"@ || key == "body"@,
{
}

/// A body is sent as its base64 text; where there is no body, none is sent. An empty body
/// is one.
pub proof fn law_body_is_sent_as_base64(
    method: Seq<char>,
    headers: Seq<(Seq<char>, Seq<char>)>,
    bytes: Seq<u8>,
)
    ensures
        options_tree(method, headers, body_text(Some(bytes))).text_member("body"@) == Some(
            base64_text(bytes),
        ),
        options_tree(method, headers, body_text(None)).member("body"@) == Some(JsonTree::Null),
{
    lemma_option_members_differ();
}

} // verus!
