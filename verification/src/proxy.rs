//! The rules of the proxy: which headers are forwarded upstream and back,
//! how the upstream URL is formed, and the step function that drives one
//! proxied request from its arrival to the reply.
//!
//! Headers are lists of `HeaderField` (lowercase name, raw value bytes) in the
//! order a header map yields them. A request header map keeps one value per
//! name (`map_insert`: a later value for a name replaces the earlier one in
//! place; `map_remove`: the last entry moves into the removed one's place);
//! response headers keep every value in order.
use crate::text::{
    chars_of, concat2, contains, contains_bytes, owned, str_eq, usize_to_decimal, decimal,
};
use vstd::prelude::*;

verus! {

/// One HTTP header: its lowercase name and its raw value.
pub struct HeaderField {
    pub name: String,
    pub value: Vec<u8>,
}

impl View for HeaderField {
    type V = (Seq<char>, Seq<u8>);

    open spec fn view(&self) -> (Seq<char>, Seq<u8>) {
        (self.name@, self.value@)
    }
}

/// The value of a header list.
pub open spec fn headers_view(hs: Seq<HeaderField>) -> Seq<(Seq<char>, Seq<u8>)> {
    hs.map_values(|h: HeaderField| h@)
}

/// A copy of one header.
pub fn copy_header(h: &HeaderField) -> (r: HeaderField)
    ensures
        r@ == h@,
{
    HeaderField { name: h.name.clone(), value: h.value.clone() }
}

/// The first position of a header named `name`, if any.
pub open spec fn name_index<V>(m: Seq<(Seq<char>, V)>, name: Seq<char>) -> Option<int>
    decreases m.len(),
{
    if m.len() == 0 {
        None
    } else {
        match name_index(m.drop_last(), name) {
            Some(i) => Some(i),
            None => if m.last().0 == name {
                Some(m.len() - 1)
            } else {
                None
            },
        }
    }
}

/// `name_index` is the first position holding `name`.
pub proof fn lemma_name_index<V>(m: Seq<(Seq<char>, V)>, name: Seq<char>)
    ensures
        match name_index(m, name) {
            Some(i) => 0 <= i < m.len() && m[i].0 == name && forall|j: int|
                0 <= j < i ==> m[j].0 != name,
            None => forall|j: int| 0 <= j < m.len() ==> m[j].0 != name,
        },
    decreases m.len(),
{
    if m.len() > 0 {
        let d = m.drop_last();
        lemma_name_index(d, name);
        assert forall|j: int| 0 <= j < d.len() implies d[j] == m[j] by {}
    }
}

/// Sets `name` to `value` in a map-like header list: replaces the entry in
/// place when the name is present, appends it otherwise.
pub open spec fn map_insert<V>(m: Seq<(Seq<char>, V)>, name: Seq<char>, value: V) -> Seq<
    (Seq<char>, V),
> {
    match name_index(m, name) {
        Some(i) => m.update(i, (name, value)),
        None => m.push((name, value)),
    }
}

/// Removes the entry for `name` from a map-like header list the way a header
/// map does: the last entry takes the place of the removed one.
pub open spec fn map_remove<V>(m: Seq<(Seq<char>, V)>, name: Seq<char>) -> Seq<(Seq<char>, V)> {
    match name_index(m, name) {
        Some(i) => m.update(i, m.last()).drop_last(),
        None => m,
    }
}

/// The first position in `hs` of a header named `name`.
pub fn find_name(hs: &Vec<HeaderField>, name: &str) -> (r: Option<usize>)
    ensures
        match r {
            Some(i) => name_index(headers_view(hs@), name@) == Some(i as int),
            None => name_index(headers_view(hs@), name@) is None,
        },
{
    proof {
        lemma_name_index(headers_view(hs@), name@);
    }
    let mut i: usize = 0;
    while i < hs.len()
        invariant
            i <= hs.len(),
            forall|j: int| 0 <= j < i ==> hs@[j].name@ != name@,
            match name_index(headers_view(hs@), name@) {
                Some(k) => 0 <= k < hs@.len() && headers_view(hs@)[k].0 == name@ && forall|j: int|
                    0 <= j < k ==> headers_view(hs@)[j].0 != name@,
                None => forall|j: int|
                    0 <= j < hs@.len() ==> headers_view(hs@)[j].0 != name@,
            },
        decreases hs.len() - i,
    {
        if str_eq(hs[i].name.as_str(), name) {
            assert(headers_view(hs@)[i as int].0 == name@);
            return Some(i);
        }
        assert(headers_view(hs@)[i as int].0 != name@);
        i = i + 1;
    }
    None
}

/// Sets header `name` to `value` in `hs` with `map_insert` semantics.
pub fn insert_header(hs: &mut Vec<HeaderField>, name: String, value: Vec<u8>)
    ensures
        headers_view(final(hs)@) == map_insert(headers_view(old(hs)@), name@, value@),
{
    let ghost before = headers_view(hs@);
    proof {
        lemma_name_index(before, name@);
    }
    let ghost nv = name@;
    let ghost vv = value@;
    match find_name(hs, name.as_str()) {
        Some(i) => {
            hs.set(i, HeaderField { name, value });
            assert(headers_view(hs@) =~= before.update(i as int, (nv, vv)));
        },
        None => {
            hs.push(HeaderField { name, value });
            assert(headers_view(hs@) =~= before.push((nv, vv)));
        },
    }
}

/// Removes header `name` from `hs` with `map_remove` semantics.
pub fn remove_header(hs: &mut Vec<HeaderField>, name: &str)
    ensures
        headers_view(final(hs)@) == map_remove(headers_view(old(hs)@), name@),
{
    let ghost before = headers_view(hs@);
    proof {
        lemma_name_index(before, name@);
    }
    match find_name(hs, name) {
        Some(i) => {
            hs.swap_remove(i);
            assert(headers_view(hs@) =~= before.update(i as int, before.last()).drop_last());
        },
        None => {},
    }
}

/// Hop-by-hop headers, and `host`: never copied from one side of the proxy to
/// the other.
pub open spec fn is_hop_by_hop(name: Seq<char>) -> bool {
    ||| name == "host"@
    ||| name == "connection"@
    ||| name == "proxy-authenticate"@
    ||| name == "proxy-authorization"@
    ||| name == "te"@
    ||| name == "trailer"@
    ||| name == "transfer-encoding"@
    ||| name == "upgrade"@
}

/// Whether `name` is a hop-by-hop header or `host`.
pub fn hop_by_hop(name: &str) -> (r: bool)
    ensures
        r == is_hop_by_hop(name@),
{
    str_eq(name, "host") || str_eq(name, "connection") || str_eq(name, "proxy-authenticate")
        || str_eq(name, "proxy-authorization") || str_eq(name, "te") || str_eq(name, "trailer")
        || str_eq(name, "transfer-encoding") || str_eq(name, "upgrade")
}

/// The request headers copied upstream: every non-hop-by-hop header, inserted
/// one after the other into an empty map (the last value of a name wins).
pub open spec fn forwarded_base(hs: Seq<(Seq<char>, Seq<u8>)>) -> Seq<(Seq<char>, Seq<u8>)>
    decreases hs.len(),
{
    if hs.len() == 0 {
        Seq::empty()
    } else {
        let acc = forwarded_base(hs.drop_last());
        let h = hs.last();
        if is_hop_by_hop(h.0) {
            acc
        } else {
            map_insert(acc, h.0, h.1)
        }
    }
}

/// A byte that a header value may hold: tab, or any byte from space up
/// except DEL.
pub open spec fn valid_header_byte(b: u8) -> bool {
    b == 9 || (b >= 32 && b != 127)
}

/// Bytes that form a valid header value.
pub open spec fn valid_header_value(b: Seq<u8>) -> bool {
    forall|i: int| 0 <= i < b.len() ==> valid_header_byte(#[trigger] b[i])
}

/// The header value made from a string (`HeaderValue::from_str`): `Some` with
/// the string's UTF-8 bytes exactly when every byte is valid in a header value.
#[verifier::external_body]
fn header_value_from_str(s: &str) -> (r: Option<Vec<u8>>)
    ensures
        r is Some <==> valid_header_value(vstd::utf8::encode_utf8(s@)),
        r matches Some(v) ==> v@ == vstd::utf8::encode_utf8(s@),
{
    match hyper::header::HeaderValue::from_str(s) {
        Ok(v) => Some(v.as_bytes().to_vec()),
        Err(_) => None,
    }
}

/// The headers sent upstream: the copied request headers, then `host` set to
/// the target host (when the host is a valid header value), then `x-api-key`
/// set to the API key and `authorization` removed. `None` when the API key is
/// not a valid header value.
pub open spec fn spec_forward_headers(
    hs: Seq<(Seq<char>, Seq<u8>)>,
    host: Option<Seq<char>>,
    api_key: Seq<char>,
) -> Option<Seq<(Seq<char>, Seq<u8>)>> {
    let base = forwarded_base(hs);
    let with_host = match host {
        Some(h) => if valid_header_value(vstd::utf8::encode_utf8(h)) {
            map_insert(base, "host"@, vstd::utf8::encode_utf8(h))
        } else {
            base
        },
        None => base,
    };
    if valid_header_value(vstd::utf8::encode_utf8(api_key)) {
        Some(
            map_remove(
                map_insert(with_host, "x-api-key"@, vstd::utf8::encode_utf8(api_key)),
                "authorization"@,
            ),
        )
    } else {
        None
    }
}

/// The request headers copied upstream (see `forwarded_base`).
pub fn copy_request_headers(hs: &Vec<HeaderField>) -> (r: Vec<HeaderField>)
    ensures
        headers_view(r@) == forwarded_base(headers_view(hs@)),
{
    let mut out: Vec<HeaderField> = Vec::new();
    let mut i: usize = 0;
    while i < hs.len()
        invariant
            i <= hs.len(),
            headers_view(out@) == forwarded_base(headers_view(hs@).subrange(0, i as int)),
        decreases hs.len() - i,
    {
        let ghost prefix = headers_view(hs@).subrange(0, i + 1);
        assert(prefix.drop_last() =~= headers_view(hs@).subrange(0, i as int));
        assert(prefix.last() == hs@[i as int]@);
        if !hop_by_hop(hs[i].name.as_str()) {
            let h = copy_header(&hs[i]);
            insert_header(&mut out, h.name, h.value);
        }
        i = i + 1;
    }
    assert(headers_view(hs@).subrange(0, hs.len() as int) =~= headers_view(hs@));
    out
}

/// The headers sent upstream for a request with headers `hs`, a target with
/// host `host` and the API key `api_key` (see `spec_forward_headers`).
pub fn forward_request_headers(hs: &Vec<HeaderField>, host: Option<&str>, api_key: &str) -> (r:
    Option<Vec<HeaderField>>)
    ensures
        match r {
            Some(out) => spec_forward_headers(
                headers_view(hs@),
                match host {
                    Some(h) => Some(h@),
                    None => None,
                },
                api_key@,
            ) == Some(headers_view(out@)),
            None => spec_forward_headers(
                headers_view(hs@),
                match host {
                    Some(h) => Some(h@),
                    None => None,
                },
                api_key@,
            ) is None,
        },
{
    let mut out = copy_request_headers(hs);
    match host {
        Some(h) => match header_value_from_str(h) {
            Some(v) => insert_header(&mut out, owned("host"), v),
            None => {},
        },
        None => {},
    }
    match header_value_from_str(api_key) {
        Some(v) => {
            insert_header(&mut out, owned("x-api-key"), v);
            remove_header(&mut out, "authorization");
            Some(out)
        },
        None => None,
    }
}

/// A byte that `HeaderValue::to_str` accepts: visible ASCII or tab.
pub open spec fn is_visible_ascii(b: u8) -> bool {
    (b >= 32 && b < 127) || b == 9
}

/// The ASCII bytes of `text/event-stream`.
pub open spec fn event_stream_bytes() -> Seq<u8> {
    seq![116u8, 101, 120, 116, 47, 101, 118, 101, 110, 116, 45, 115, 116, 114, 101, 97, 109]
}

fn event_stream_value() -> (r: Vec<u8>)
    ensures
        r@ == event_stream_bytes(),
{
    let r: Vec<u8> = vec![116u8, 101, 120, 116, 47, 101, 118, 101, 110, 116, 45, 115, 116, 114, 101, 97, 109];
    assert(r@ =~= event_stream_bytes());
    r
}

/// A response is a server-sent event stream when its first `content-type`
/// value is visible ASCII and contains `text/event-stream`.
pub open spec fn is_event_stream(hs: Seq<(Seq<char>, Seq<u8>)>) -> bool {
    match name_index(hs, "content-type"@) {
        Some(i) => (forall|k: int| 0 <= k < hs[i].1.len() ==> is_visible_ascii(#[trigger] hs[i].1[k]))
            && contains(hs[i].1, event_stream_bytes()),
        None => false,
    }
}

/// Whether every byte of `v` is visible ASCII or tab.
fn all_visible_ascii(v: &Vec<u8>) -> (r: bool)
    ensures
        r == forall|k: int| 0 <= k < v@.len() ==> is_visible_ascii(#[trigger] v@[k]),
{
    let mut i: usize = 0;
    while i < v.len()
        invariant
            i <= v.len(),
            forall|k: int| 0 <= k < i ==> is_visible_ascii(#[trigger] v@[k]),
        decreases v.len() - i,
    {
        let b = v[i];
        if !((b >= 32 && b < 127) || b == 9) {
            return false;
        }
        i = i + 1;
    }
    true
}

/// Whether a response with headers `hs` is streamed (see `is_event_stream`).
pub fn response_is_event_stream(hs: &Vec<HeaderField>) -> (r: bool)
    ensures
        r == is_event_stream(headers_view(hs@)),
{
    proof {
        lemma_name_index(headers_view(hs@), "content-type"@);
    }
    match find_name(hs, "content-type") {
        Some(i) => {
            let v = &hs[i].value;
            assert(headers_view(hs@)[i as int].1 == v@);
            all_visible_ascii(v) && contains_bytes(v, &event_stream_value())
        },
        None => false,
    }
}

/// The response headers passed back to the client: every header but the
/// hop-by-hop ones and `host`, and for a streamed response also without
/// `content-length`; every value is kept, in order.
pub open spec fn kept_response_headers(hs: Seq<(Seq<char>, Seq<u8>)>, streaming: bool) -> Seq<
    (Seq<char>, Seq<u8>),
>
    decreases hs.len(),
{
    if hs.len() == 0 {
        Seq::empty()
    } else {
        let acc = kept_response_headers(hs.drop_last(), streaming);
        let h = hs.last();
        if is_hop_by_hop(h.0) || (streaming && h.0 == "content-length"@) {
            acc
        } else {
            acc.push(h)
        }
    }
}

/// The headers of a streamed response: the kept headers, plus
/// `content-type: text/event-stream` when the upstream response had no
/// `content-type`.
pub open spec fn streaming_response_headers(hs: Seq<(Seq<char>, Seq<u8>)>) -> Seq<
    (Seq<char>, Seq<u8>),
> {
    let kept = kept_response_headers(hs, true);
    if name_index(hs, "content-type"@) is None {
        kept.push(("content-type"@, event_stream_bytes()))
    } else {
        kept
    }
}

/// The ASCII bytes of the decimal rendering of `n`.
pub open spec fn decimal_bytes(n: nat) -> Seq<u8> {
    decimal(n).map_values(|c: char| c as u8)
}

/// The headers of a buffered response with a body of `len` bytes: the kept
/// headers followed by `content-length: len`.
pub open spec fn buffered_response_headers(hs: Seq<(Seq<char>, Seq<u8>)>, len: nat) -> Seq<
    (Seq<char>, Seq<u8>),
> {
    kept_response_headers(hs, false).push(("content-length"@, decimal_bytes(len)))
}

/// The response headers kept for the client (see `kept_response_headers`).
pub fn keep_response_headers(hs: &Vec<HeaderField>, streaming: bool) -> (r: Vec<HeaderField>)
    ensures
        headers_view(r@) == kept_response_headers(headers_view(hs@), streaming),
{
    let mut out: Vec<HeaderField> = Vec::new();
    let mut i: usize = 0;
    while i < hs.len()
        invariant
            i <= hs.len(),
            headers_view(out@) == kept_response_headers(
                headers_view(hs@).subrange(0, i as int),
                streaming,
            ),
        decreases hs.len() - i,
    {
        let ghost prefix = headers_view(hs@).subrange(0, i + 1);
        assert(prefix.drop_last() =~= headers_view(hs@).subrange(0, i as int));
        assert(prefix.last() == hs@[i as int]@);
        let name = hs[i].name.as_str();
        if !(hop_by_hop(name) || (streaming && str_eq(name, "content-length"))) {
            let ghost before = headers_view(out@);
            let h = copy_header(&hs[i]);
            out.push(h);
            assert(headers_view(out@) =~= before.push(hs@[i as int]@));
        }
        i = i + 1;
    }
    assert(headers_view(hs@).subrange(0, hs.len() as int) =~= headers_view(hs@));
    out
}

/// The headers of a streamed response (see `streaming_response_headers`).
pub fn stream_headers(hs: &Vec<HeaderField>) -> (r: Vec<HeaderField>)
    ensures
        headers_view(r@) == streaming_response_headers(headers_view(hs@)),
{
    let mut out = keep_response_headers(hs, true);
    match find_name(hs, "content-type") {
        Some(_) => {},
        None => {
            let ghost before = headers_view(out@);
            out.push(HeaderField { name: owned("content-type"), value: event_stream_value() });
            assert(headers_view(out@) =~= before.push(("content-type"@, event_stream_bytes())));
        },
    }
    out
}

/// The ASCII bytes of the decimal rendering of `n`.
pub fn decimal_value(n: usize) -> (r: Vec<u8>)
    ensures
        r@ == decimal_bytes(n as nat),
{
    let text = usize_to_decimal(n);
    let cs = chars_of(text.as_str());
    let mut out: Vec<u8> = Vec::new();
    let mut i: usize = 0;
    while i < cs.len()
        invariant
            cs@ == decimal(n as nat),
            i <= cs.len(),
            out@ == cs@.subrange(0, i as int).map_values(|c: char| c as u8),
        decreases cs.len() - i,
    {
        out.push(cs[i] as u8);
        i = i + 1;
        assert(out@ =~= cs@.subrange(0, i as int).map_values(|c: char| c as u8));
    }
    assert(cs@.subrange(0, cs.len() as int) =~= cs@);
    out
}

/// The headers of a buffered response (see `buffered_response_headers`).
pub fn buffered_headers(hs: &Vec<HeaderField>, len: usize) -> (r: Vec<HeaderField>)
    ensures
        headers_view(r@) == buffered_response_headers(headers_view(hs@), len as nat),
{
    let mut out = keep_response_headers(hs, false);
    let ghost before = headers_view(out@);
    out.push(HeaderField { name: owned("content-length"), value: decimal_value(len) });
    assert(headers_view(out@) =~= before.push(("content-length"@, decimal_bytes(len as nat))));
    out
}

/// HTTP status: the request could not be read.
pub const STATUS_BAD_REQUEST: u16 = 400;

/// HTTP status: the proxy failed on its own side.
pub const STATUS_INTERNAL_SERVER_ERROR: u16 = 500;

/// HTTP status: the upstream API could not be reached or read.
pub const STATUS_BAD_GATEWAY: u16 = 502;

/// The text of the upstream URL: the base URL followed by the request's path
/// and query, or by `/` when the request has none.
pub open spec fn target_text(base: Seq<char>, path_and_query: Option<Seq<char>>) -> Seq<char> {
    base + match path_and_query {
        Some(pq) => pq,
        None => "/"@,
    }
}

/// What parsing a URI (`hyper::Uri`) gives for `text`: its canonical text and
/// its host, or `None` when `text` is not a URI.
pub uninterp spec fn parsed_uri(text: Seq<char>) -> Option<(Seq<char>, Option<Seq<char>>)>;

/// Parses `text` as a URI (`str::parse::<hyper::Uri>`), giving the URI's
/// text (`Uri::to_string`) and host (`Uri::host`). The contract names the
/// result `parsed_uri(text)` and says nothing more of it.
#[verifier::external_body]
fn parse_uri(text: &str) -> (r: Option<(String, Option<String>)>)
    ensures
        match r {
            Some((t, h)) => parsed_uri(text@) == Some((t@, crate::config::opt_view(h))),
            None => parsed_uri(text@) is None,
        },
{
    match text.parse::<hyper::Uri>() {
        Ok(u) => Some((u.to_string(), u.host().map(str::to_string))),
        Err(_) => None,
    }
}

/// The progress of one proxied request.
pub enum ProxyState {
    /// The request has arrived.
    Received,
    /// The upstream URL is known; the request body is being read.
    AwaitingBody { url: String, host: Option<String> },
    /// The request was sent upstream.
    AwaitingUpstream,
    /// A buffered upstream response: its body is being read.
    AwaitingResponseBody { status: u16, headers: Vec<HeaderField> },
    /// A reply was produced.
    Finished,
}

/// What the outside world reports to the proxy.
pub enum ProxyEvent {
    /// The request arrived with this path and query.
    Arrived { path_and_query: Option<String> },
    /// The request body was read.
    BodyRead,
    /// The request body could not be read.
    BodyFailed,
    /// The upstream API answered.
    UpstreamReplied { status: u16, headers: Vec<HeaderField> },
    /// The upstream API could not be reached.
    UpstreamFailed,
    /// The upstream response body was read; it has `len` bytes.
    ResponseBodyRead { len: usize },
    /// The upstream response body could not be read.
    ResponseBodyFailed,
}

/// What the proxy asks the outside world to do next.
pub enum ProxyAction {
    /// Read the request body.
    ReadRequestBody,
    /// Send the request, with its body, to `url` with `headers`.
    Forward { url: String, headers: Vec<HeaderField> },
    /// Reply with `status` and `headers`, streaming the upstream body through.
    Stream { status: u16, headers: Vec<HeaderField> },
    /// Read the upstream response body.
    ReadResponseBody,
    /// Reply with `status`, `headers` and the upstream body.
    Respond { status: u16, headers: Vec<HeaderField> },
    /// Reply with the error status `status` and no body.
    Reject { status: u16 },
}

/// The events each state expects.
pub open spec fn step_accepts(state: ProxyState, event: ProxyEvent) -> bool {
    match state {
        ProxyState::Received => event is Arrived,
        ProxyState::AwaitingBody { .. } => event is BodyRead || event is BodyFailed,
        ProxyState::AwaitingUpstream => event is UpstreamReplied || event is UpstreamFailed,
        ProxyState::AwaitingResponseBody { .. } => event is ResponseBodyRead
            || event is ResponseBodyFailed,
        ProxyState::Finished => false,
    }
}

/// Whether `state` expects `event` (see `step_accepts`).
pub fn accepts_event(state: &ProxyState, event: &ProxyEvent) -> (r: bool)
    ensures
        r == step_accepts(*state, *event),
{
    match state {
        ProxyState::Received => matches!(event, ProxyEvent::Arrived { .. }),
        ProxyState::AwaitingBody { .. } => matches!(event, ProxyEvent::BodyRead)
            || matches!(event, ProxyEvent::BodyFailed),
        ProxyState::AwaitingUpstream => matches!(event, ProxyEvent::UpstreamReplied { .. })
            || matches!(event, ProxyEvent::UpstreamFailed),
        ProxyState::AwaitingResponseBody { .. } => matches!(
            event,
            ProxyEvent::ResponseBodyRead { .. }
        ) || matches!(event, ProxyEvent::ResponseBodyFailed),
        ProxyState::Finished => false,
    }
}

/// `action` rejects the request with `status`.
pub open spec fn rejects(action: ProxyAction, status: u16) -> bool {
    action matches ProxyAction::Reject { status: s } && s == status
}

/// One step of a proxied request: the next state and action for `event` in
/// `state`, for a proxy forwarding to `config.anthropic_target_url` with
/// `config.anthropic_api_key` a request that came with `request_headers`.
pub open spec fn spec_proxy_step(
    config: crate::config::Config,
    request_headers: Seq<(Seq<char>, Seq<u8>)>,
    state: ProxyState,
    event: ProxyEvent,
    next: ProxyState,
    action: ProxyAction,
) -> bool {
    match state {
        ProxyState::Received => match event {
            ProxyEvent::Arrived { path_and_query } => match parsed_uri(
                target_text(config.anthropic_target_url@, crate::config::opt_view(path_and_query)),
            ) {
                None => next is Finished && rejects(action, STATUS_INTERNAL_SERVER_ERROR),
                Some((url, host)) => {
                    &&& action is ReadRequestBody
                    &&& next matches ProxyState::AwaitingBody { url: u, host: h } && u@ == url
                        && crate::config::opt_view(h) == host
                },
            },
            _ => false,
        },
        ProxyState::AwaitingBody { url, host } => match event {
            ProxyEvent::BodyFailed => next is Finished && rejects(action, STATUS_BAD_REQUEST),
            ProxyEvent::BodyRead => match spec_forward_headers(
                request_headers,
                crate::config::opt_view(host),
                config.anthropic_api_key@,
            ) {
                None => next is Finished && rejects(action, STATUS_INTERNAL_SERVER_ERROR),
                Some(hs) => {
                    &&& next is AwaitingUpstream
                    &&& action matches ProxyAction::Forward { url: u, headers } && u@ == url@
                        && headers_view(headers@) == hs
                },
            },
            _ => false,
        },
        ProxyState::AwaitingUpstream => match event {
            ProxyEvent::UpstreamFailed => next is Finished && rejects(action, STATUS_BAD_GATEWAY),
            ProxyEvent::UpstreamReplied { status, headers } => if is_event_stream(
                headers_view(headers@),
            ) {
                &&& next is Finished
                &&& action matches ProxyAction::Stream { status: s, headers: out } && s == status
                    && headers_view(out@) == streaming_response_headers(headers_view(headers@))
            } else {
                &&& action is ReadResponseBody
                &&& next matches ProxyState::AwaitingResponseBody { status: s, headers: kept }
                    && s == status && headers_view(kept@) == headers_view(headers@)
            },
            _ => false,
        },
        ProxyState::AwaitingResponseBody { status, headers } => match event {
            ProxyEvent::ResponseBodyFailed => next is Finished && rejects(
                action,
                STATUS_BAD_GATEWAY,
            ),
            ProxyEvent::ResponseBodyRead { len } => {
                &&& next is Finished
                &&& action matches ProxyAction::Respond { status: s, headers: out } && s == status
                    && headers_view(out@) == buffered_response_headers(
                    headers_view(headers@),
                    len as nat,
                )
            },
            _ => false,
        },
        ProxyState::Finished => false,
    }
}

/// Advances a proxied request by one event (see `spec_proxy_step`): a target
/// URL that does not parse or an API key that is not a valid header value is
/// answered 500, a request body that cannot be read 400, and an upstream that
/// cannot be reached or read 502; otherwise the request is forwarded and the
/// upstream response streamed or buffered back.
pub fn proxy_step(
    config: &crate::config::Config,
    request_headers: &Vec<HeaderField>,
    state: ProxyState,
    event: ProxyEvent,
) -> (r: (ProxyState, ProxyAction))
    requires
        step_accepts(state, event),
    ensures
        spec_proxy_step(*config, headers_view(request_headers@), state, event, r.0, r.1),
{
    match state {
        ProxyState::Received => match event {
            ProxyEvent::Arrived { path_and_query } => {
                let text = match path_and_query {
                    Some(pq) => concat2(config.anthropic_target_url.as_str(), pq.as_str()),
                    None => concat2(config.anthropic_target_url.as_str(), "/"),
                };
                match parse_uri(text.as_str()) {
                    None => (
                        ProxyState::Finished,
                        ProxyAction::Reject { status: STATUS_INTERNAL_SERVER_ERROR },
                    ),
                    Some((url, host)) => (
                        ProxyState::AwaitingBody { url, host },
                        ProxyAction::ReadRequestBody,
                    ),
                }
            },
            _ => (ProxyState::Finished, ProxyAction::Reject { status: STATUS_INTERNAL_SERVER_ERROR }),
        },
        ProxyState::AwaitingBody { url, host } => match event {
            ProxyEvent::BodyFailed => (
                ProxyState::Finished,
                ProxyAction::Reject { status: STATUS_BAD_REQUEST },
            ),
            _ => {
                let host_ref: Option<&str> = match &host {
                    Some(h) => Some(h.as_str()),
                    None => None,
                };
                match forward_request_headers(
                    request_headers,
                    host_ref,
                    config.anthropic_api_key.as_str(),
                ) {
                    None => (
                        ProxyState::Finished,
                        ProxyAction::Reject { status: STATUS_INTERNAL_SERVER_ERROR },
                    ),
                    Some(headers) => (
                        ProxyState::AwaitingUpstream,
                        ProxyAction::Forward { url, headers },
                    ),
                }
            },
        },
        ProxyState::AwaitingUpstream => match event {
            ProxyEvent::UpstreamReplied { status, headers } => {
                if response_is_event_stream(&headers) {
                    let out = stream_headers(&headers);
                    (ProxyState::Finished, ProxyAction::Stream { status, headers: out })
                } else {
                    (
                        ProxyState::AwaitingResponseBody { status, headers },
                        ProxyAction::ReadResponseBody,
                    )
                }
            },
            _ => (ProxyState::Finished, ProxyAction::Reject { status: STATUS_BAD_GATEWAY }),
        },
        ProxyState::AwaitingResponseBody { status, headers } => match event {
            ProxyEvent::ResponseBodyRead { len } => {
                let out = buffered_headers(&headers, len);
                (ProxyState::Finished, ProxyAction::Respond { status, headers: out })
            },
            _ => (ProxyState::Finished, ProxyAction::Reject { status: STATUS_BAD_GATEWAY }),
        },
        ProxyState::Finished => (
            ProxyState::Finished,
            ProxyAction::Reject { status: STATUS_INTERNAL_SERVER_ERROR },
        ),
    }
}

/// The action answers the client: a streamed or buffered reply, or a rejection.
pub open spec fn is_reply(action: ProxyAction) -> bool {
    action is Stream || action is Respond || action is Reject
}

/// Every proxied request is answered exactly once: a step ends the request
/// (`Finished`) exactly when its action answers the client, and a streamed
/// or buffered reply carries the status the upstream API answered with.
pub proof fn lemma_proxy_step_replies_once(
    config: crate::config::Config,
    request_headers: Seq<(Seq<char>, Seq<u8>)>,
    state: ProxyState,
    event: ProxyEvent,
    next: ProxyState,
    action: ProxyAction,
)
    requires
        spec_proxy_step(config, request_headers, state, event, next, action),
    ensures
        state !is Finished,
        next is Finished <==> is_reply(action),
        action matches ProxyAction::Stream { status, .. } ==> event matches ProxyEvent::UpstreamReplied {
            status: s,
            ..
        } && s == status,
        action matches ProxyAction::Respond { status, .. } ==> state matches ProxyState::AwaitingResponseBody {
            status: s,
            ..
        } && s == status,
{
}

/// The client always gets the status the upstream API answered with, error
/// statuses included: when the upstream reply with status `status` is
/// streamed, the stream carries `status`; when it is buffered, the state that
/// waits for its body keeps `status` and its upstream headers, and the reply
/// that follows the body carries `status`. A failure to read the body is
/// answered 502 instead.
pub proof fn lemma_upstream_status_reaches_client(
    config: crate::config::Config,
    request_headers: Seq<(Seq<char>, Seq<u8>)>,
    status: u16,
    headers: Vec<HeaderField>,
    next: ProxyState,
    action: ProxyAction,
    body_event: ProxyEvent,
    last: ProxyState,
    reply: ProxyAction,
)
    requires
        spec_proxy_step(
            config,
            request_headers,
            ProxyState::AwaitingUpstream,
            ProxyEvent::UpstreamReplied { status, headers },
            next,
            action,
        ),
    ensures
        action is Stream || action is ReadResponseBody,
        action matches ProxyAction::Stream { status: s, .. } ==> s == status,
        action is ReadResponseBody ==> (next matches ProxyState::AwaitingResponseBody {
            status: s,
            headers: kept,
        } && s == status && headers_view(kept@) == headers_view(headers@)),
        action is ReadResponseBody && spec_proxy_step(
            config,
            request_headers,
            next,
            body_event,
            last,
            reply,
        ) ==> match body_event {
            ProxyEvent::ResponseBodyRead { .. } => reply matches ProxyAction::Respond {
                status: s,
                ..
            } && s == status,
            _ => reply matches ProxyAction::Reject { status: s } && s == 502,
        },
{
}

/// Headers whose values are never written to the logs.
pub open spec fn is_sensitive(name: Seq<char>) -> bool {
    name == "authorization"@ || name == "x-api-key"@
}

/// What `String::from_utf8_lossy` makes of `bytes`.
pub uninterp spec fn utf8_lossy(bytes: Seq<u8>) -> Seq<char>;

/// The text of `bytes` with invalid UTF-8 replaced (`String::from_utf8_lossy`):
/// named `utf8_lossy(bytes)`; valid UTF-8 is decoded unchanged.
#[verifier::external_body]
fn lossy_text(bytes: &[u8]) -> (r: String)
    ensures
        r@ == utf8_lossy(bytes@),
        vstd::utf8::valid_utf8(bytes@) ==> r@ == vstd::utf8::decode_utf8(bytes@),
{
    String::from_utf8_lossy(bytes).into_owned()
}

/// One header as it is logged: its name and the text of its value.
pub struct LoggedHeader {
    pub name: String,
    pub text: String,
}

impl View for LoggedHeader {
    type V = (Seq<char>, Seq<char>);

    open spec fn view(&self) -> (Seq<char>, Seq<char>) {
        (self.name@, self.text@)
    }
}

/// The value of a list of logged headers.
pub open spec fn logged_view(ls: Seq<LoggedHeader>) -> Seq<(Seq<char>, Seq<char>)> {
    ls.map_values(|l: LoggedHeader| l@)
}

/// The text logged for a header value: `[REDACTED]` for `authorization` and
/// `x-api-key`, the value decoded as UTF-8 (lossily) otherwise.
pub open spec fn logged_text(name: Seq<char>, value: Seq<u8>) -> Seq<char> {
    if is_sensitive(name) {
        "[REDACTED]"@
    } else {
        utf8_lossy(value)
    }
}

/// The headers as logged: a map from name to logged text, filled in header
/// order (the last value of a name wins).
pub open spec fn spec_logged_headers(hs: Seq<(Seq<char>, Seq<u8>)>) -> Seq<(Seq<char>, Seq<char>)>
    decreases hs.len(),
{
    if hs.len() == 0 {
        Seq::empty()
    } else {
        let h = hs.last();
        map_insert(spec_logged_headers(hs.drop_last()), h.0, logged_text(h.0, h.1))
    }
}

fn find_logged(ls: &Vec<LoggedHeader>, name: &str) -> (r: Option<usize>)
    ensures
        match r {
            Some(i) => name_index(logged_view(ls@), name@) == Some(i as int),
            None => name_index(logged_view(ls@), name@) is None,
        },
{
    proof {
        lemma_name_index(logged_view(ls@), name@);
    }
    let mut i: usize = 0;
    while i < ls.len()
        invariant
            i <= ls.len(),
            forall|j: int| 0 <= j < i ==> ls@[j].name@ != name@,
            match name_index(logged_view(ls@), name@) {
                Some(k) => 0 <= k < ls@.len() && logged_view(ls@)[k].0 == name@ && forall|j: int|
                    0 <= j < k ==> logged_view(ls@)[j].0 != name@,
                None => forall|j: int|
                    0 <= j < ls@.len() ==> logged_view(ls@)[j].0 != name@,
            },
        decreases ls.len() - i,
    {
        if str_eq(ls[i].name.as_str(), name) {
            assert(logged_view(ls@)[i as int].0 == name@);
            return Some(i);
        }
        assert(logged_view(ls@)[i as int].0 != name@);
        i = i + 1;
    }
    None
}

/// The headers as they are logged (see `spec_logged_headers`).
pub fn headers_for_log(hs: &Vec<HeaderField>) -> (r: Vec<LoggedHeader>)
    ensures
        logged_view(r@) == spec_logged_headers(headers_view(hs@)),
{
    let mut out: Vec<LoggedHeader> = Vec::new();
    let mut i: usize = 0;
    while i < hs.len()
        invariant
            i <= hs.len(),
            logged_view(out@) == spec_logged_headers(headers_view(hs@).subrange(0, i as int)),
        decreases hs.len() - i,
    {
        let ghost prefix = headers_view(hs@).subrange(0, i + 1);
        assert(prefix.drop_last() =~= headers_view(hs@).subrange(0, i as int));
        assert(prefix.last() == hs@[i as int]@);
        let name = hs[i].name.as_str();
        let text = if str_eq(name, "authorization") || str_eq(name, "x-api-key") {
            owned("[REDACTED]")
        } else {
            lossy_text(hs[i].value.as_slice())
        };
        let ghost before = logged_view(out@);
        proof {
            lemma_name_index(before, name@);
        }
        match find_logged(&out, name) {
            Some(k) => {
                out.set(k, LoggedHeader { name: owned(name), text });
                assert(logged_view(out@) =~= before.update(k as int, (name@, text@)));
            },
            None => {
                out.push(LoggedHeader { name: owned(name), text });
                assert(logged_view(out@) =~= before.push((name@, text@)));
            },
        }
        i = i + 1;
    }
    assert(headers_view(hs@).subrange(0, hs.len() as int) =~= headers_view(hs@));
    out
}

/// How a request or response body is logged.
pub enum BodyLog {
    /// The body is empty.
    Empty,
    /// Body logging is disabled: only the size, `size` bytes, is logged.
    NotLogged { size: usize },
    /// The body is logged as `text`; it has `size` bytes.
    Content { text: String, size: usize },
    /// The body is larger than the limit: only its size is logged.
    TooLarge { size: usize },
}

/// What pretty-printing `body` as JSON gives (`serde_json::from_slice` into a
/// `Value`, then `serde_json::to_string_pretty`), or `None` when it fails.
pub uninterp spec fn json_pretty(body: Seq<u8>) -> Option<Seq<char>>;

/// Pretty-prints `body` as JSON (`serde_json::from_slice::<Value>` then
/// `serde_json::to_string_pretty`); the result is named `json_pretty(body)`.
#[verifier::external_body]
fn pretty_json(body: &[u8]) -> (r: Option<String>)
    ensures
        match r {
            Some(t) => json_pretty(body@) == Some(t@),
            None => json_pretty(body@) is None,
        },
{
    match serde_json::from_slice::<serde_json::Value>(body) {
        Ok(v) => match serde_json::to_string_pretty(&v) {
            Ok(t) => Some(t),
            Err(_) => None,
        },
        Err(_) => None,
    }
}

/// The text logged for a body: its pretty-printed JSON when it is JSON, its
/// UTF-8 text (lossily) otherwise.
pub open spec fn body_text(body: Seq<u8>) -> Seq<char> {
    match json_pretty(body) {
        Some(t) => t,
        None => utf8_lossy(body),
    }
}

/// How `body` is logged when body logging is `log_bodies` and bodies up to
/// `max_body_size` bytes are logged in full: an empty body as empty; with
/// body logging disabled, by its size alone; up to the limit (inclusive), in
/// full as `body_text`; above it, by its size alone.
pub fn body_for_log(body: &[u8], log_bodies: bool, max_body_size: usize) -> (r: BodyLog)
    ensures
        body@.len() == 0 ==> r is Empty,
        body@.len() > 0 && !log_bodies ==> (r matches BodyLog::NotLogged { size } && size
            == body@.len()),
        0 < body@.len() <= max_body_size && log_bodies ==> (r matches BodyLog::Content {
            text,
            size,
        } && text@ == body_text(body@) && size == body@.len()),
        body@.len() > max_body_size && body@.len() > 0 && log_bodies ==> (
        r matches BodyLog::TooLarge { size } && size == body@.len()),
{
    let len = body.len();
    if len == 0 {
        BodyLog::Empty
    } else if !log_bodies {
        BodyLog::NotLogged { size: len }
    } else if len <= max_body_size {
        let text = match pretty_json(body) {
            Some(t) => t,
            None => lossy_text(body),
        };
        BodyLog::Content { text, size: len }
    } else {
        BodyLog::TooLarge { size: len }
    }
}

/// Some entry of `m` is named `n`.
pub open spec fn has_name<V>(m: Seq<(Seq<char>, V)>, n: Seq<char>) -> bool {
    exists|i: int| 0 <= i < m.len() && #[trigger] m[i].0 == n
}

/// No two entries of `m` share a name.
pub open spec fn distinct_names<V>(m: Seq<(Seq<char>, V)>) -> bool {
    forall|i: int, j: int| 0 <= i < m.len() && 0 <= j < m.len() && i != j ==> m[i].0 != m[j].0
}

/// The value of the first entry named `n` (meaningful when `has_name(m, n)`).
pub open spec fn value_of<V>(m: Seq<(Seq<char>, V)>, n: Seq<char>) -> V {
    m[name_index(m, n).unwrap()].1
}

/// After `map_insert(m, n, v)`: the names are those of `m` and `n`, still
/// distinct; `n` has value `v`; every other name keeps its value.
pub proof fn lemma_map_insert<V>(m: Seq<(Seq<char>, V)>, n: Seq<char>, v: V)
    requires
        distinct_names(m),
    ensures
        distinct_names(map_insert(m, n, v)),
        forall|x: Seq<char>| #[trigger]
            has_name(map_insert(m, n, v), x) <==> (has_name(m, x) || x == n),
        has_name(map_insert(m, n, v), n),
        value_of(map_insert(m, n, v), n) == v,
        forall|x: Seq<char>|
            x != n && has_name(m, x) ==> #[trigger] value_of(map_insert(m, n, v), x) == value_of(m, x),
        forall|k: int|
            0 <= k < map_insert(m, n, v).len() ==> #[trigger] map_insert(m, n, v)[k] == (n, v) || (
            map_insert(m, n, v)[k].0 != n && exists|j: int|
                0 <= j < m.len() && m[j] == map_insert(m, n, v)[k]),
{
    let r = map_insert(m, n, v);
    lemma_name_index(m, n);
    lemma_name_index(r, n);
    assert forall|x: Seq<char>| #[trigger] has_name(r, x) <==> (has_name(m, x) || x == n) by {
        if has_name(m, x) {
            let i = choose|i: int| 0 <= i < m.len() && #[trigger] m[i].0 == x;
            if x != n {
                assert(r[i].0 == x);
            }
        }
        if x == n {
            match name_index(m, n) {
                Some(i) => assert(r[i].0 == n),
                None => assert(r[m.len() as int].0 == n),
            }
        }
        if has_name(r, x) {
            let i = choose|i: int| 0 <= i < r.len() && #[trigger] r[i].0 == x;
            if x != n {
                assert(m[i].0 == x);
            }
        }
    }
    assert forall|x: Seq<char>| x != n && has_name(m, x) implies #[trigger] value_of(r, x) == value_of(
        m,
        x,
    ) by {
        lemma_name_index(m, x);
        lemma_name_index(r, x);
        let i = name_index(m, x).unwrap();
        let k = name_index(r, x).unwrap();
        assert(r[i].0 == x);
        if k < i {
            assert(m[k].0 == x);
        }
        assert(k == i);
    }
    assert forall|k: int| 0 <= k < r.len() implies #[trigger] r[k] == (n, v) || (r[k].0 != n
        && exists|j: int| 0 <= j < m.len() && m[j] == r[k]) by {
        if r[k] != (n, v) {
            assert(m[k] == r[k]);
        }
    }
    assert(has_name(r, n));
}

/// After removing `n` from a map with distinct names, `n` is absent, every
/// other name is kept with its value, and the names stay distinct.
pub proof fn lemma_map_remove<V>(m: Seq<(Seq<char>, V)>, n: Seq<char>)
    requires
        distinct_names(m),
    ensures
        distinct_names(map_remove(m, n)),
        !has_name(map_remove(m, n), n),
        forall|x: Seq<char>| x != n ==> (#[trigger] has_name(map_remove(m, n), x) <==> has_name(m, x)),
        forall|x: Seq<char>|
            x != n && has_name(m, x) ==> #[trigger] value_of(map_remove(m, n), x) == value_of(m, x),
        forall|k: int|
            0 <= k < map_remove(m, n).len() ==> exists|j: int|
                0 <= j < m.len() && m[j] == #[trigger] map_remove(m, n)[k],
{
    let r = map_remove(m, n);
    lemma_name_index(m, n);
    match name_index(m, n) {
        None => {
        },
        Some(i) => {
            let last = m.len() - 1;
            assert forall|k: int| 0 <= k < r.len() implies r[k] == (if k == i {
                m[last]
            } else {
                m[k]
            }) by {}
            assert forall|k: int| 0 <= k < r.len() implies exists|j: int|
                0 <= j < m.len() && m[j] == #[trigger] r[k] by {
                if k == i {
                    assert(m[last] == r[k]);
                } else {
                    assert(m[k] == r[k]);
                }
            }
            assert forall|a: int, b: int|
                0 <= a < r.len() && 0 <= b < r.len() && a != b implies r[a].0 != r[b].0 by {
                let sa = if a == i {
                    last
                } else {
                    a
                };
                let sb = if b == i {
                    last
                } else {
                    b
                };
                assert(r[a] == m[sa] && r[b] == m[sb]);
            }
            assert forall|x: Seq<char>| x != n implies (#[trigger] has_name(r, x) <==> has_name(
                m,
                x,
            )) by {
                if has_name(m, x) {
                    let j = choose|j: int| 0 <= j < m.len() && #[trigger] m[j].0 == x;
                    if j == last {
                        assert(r[i].0 == x);
                    } else {
                        assert(r[j].0 == x);
                    }
                }
                if has_name(r, x) {
                    let j = choose|j: int| 0 <= j < r.len() && #[trigger] r[j].0 == x;
                    if j == i {
                        assert(m[last].0 == x);
                    } else {
                        assert(m[j].0 == x);
                    }
                }
            }
            assert forall|x: Seq<char>| x != n && has_name(m, x) implies #[trigger] value_of(
                r,
                x,
            ) == value_of(m, x) by {
                assert(has_name(r, x));
                lemma_name_index(m, x);
                lemma_name_index(r, x);
                let a = name_index(m, x).unwrap();
                let b = name_index(r, x).unwrap();
                let sb = if b == i {
                    last
                } else {
                    b
                };
                assert(r[b] == m[sb]);
                assert(m[sb].0 == x);
                assert(sb == a);
            }
            if has_name(r, n) {
                let j = choose|j: int| 0 <= j < r.len() && #[trigger] r[j].0 == n;
                if j == i {
                    assert(m[last].0 == n);
                } else {
                    assert(m[j].0 == n);
                }
            }
        },
    }
}

/// The copied request headers have distinct names, none hop-by-hop, and a
/// name is present exactly when some non-hop-by-hop request header has it.
pub proof fn lemma_forwarded_base(hs: Seq<(Seq<char>, Seq<u8>)>)
    ensures
        distinct_names(forwarded_base(hs)),
        forall|k: int|
            0 <= k < forwarded_base(hs).len() ==> !is_hop_by_hop(#[trigger] forwarded_base(hs)[k].0),
        forall|x: Seq<char>| #[trigger]
            has_name(forwarded_base(hs), x) <==> (!is_hop_by_hop(x) && has_name(hs, x)),
    decreases hs.len(),
{
    if hs.len() > 0 {
        let d = hs.drop_last();
        lemma_forwarded_base(d);
        let acc = forwarded_base(d);
        let h = hs.last();
        assert forall|x: Seq<char>| has_name(hs, x) <==> (has_name(d, x) || x == h.0) by {
            if has_name(d, x) {
                let i = choose|i: int| 0 <= i < d.len() && #[trigger] d[i].0 == x;
                assert(hs[i].0 == x);
            }
            if x == h.0 {
                assert(hs[hs.len() - 1].0 == x);
            }
            if has_name(hs, x) {
                let i = choose|i: int| 0 <= i < hs.len() && #[trigger] hs[i].0 == x;
                if i < d.len() {
                    assert(d[i].0 == x);
                }
            }
        }
        if !is_hop_by_hop(h.0) {
            lemma_map_insert(acc, h.0, h.1);
            let r = map_insert(acc, h.0, h.1);
            assert forall|k: int| 0 <= k < r.len() implies !is_hop_by_hop(#[trigger] r[k].0) by {
                if r[k] != (h.0, h.1) {
                    let j = choose|j: int| 0 <= j < acc.len() && acc[j] == r[k];
                    assert(!is_hop_by_hop(acc[j].0));
                }
            }
        }
    }
}

/// What the proxy sends upstream, whenever it forwards a request:
/// - no header name appears twice;
/// - `authorization` is never sent;
/// - `x-api-key` is always sent, with the configured API key;
/// - `host` is sent with the target's host when that host is a valid header
///   value, and not at all otherwise;
/// - no other hop-by-hop header is sent;
/// - every other request header is sent, with its last value.
pub proof fn lemma_forwarded_request_headers(
    hs: Seq<(Seq<char>, Seq<u8>)>,
    host: Option<Seq<char>>,
    api_key: Seq<char>,
)
    requires
        spec_forward_headers(hs, host, api_key) is Some,
    ensures
        ({
            let out = spec_forward_headers(hs, host, api_key).unwrap();
            &&& distinct_names(out)
            &&& !has_name(out, "authorization"@)
            &&& has_name(out, "x-api-key"@)
            &&& value_of(out, "x-api-key"@) == vstd::utf8::encode_utf8(api_key)
            &&& (host is Some && valid_header_value(vstd::utf8::encode_utf8(host.unwrap()))) ==> (
            has_name(out, "host"@) && value_of(out, "host"@) == vstd::utf8::encode_utf8(
                host.unwrap(),
            ))
            &&& !(host is Some && valid_header_value(vstd::utf8::encode_utf8(host.unwrap())))
                ==> !has_name(out, "host"@)
            &&& forall|k: int|
                0 <= k < out.len() ==> (#[trigger] out[k].0 == "host"@ || !is_hop_by_hop(out[k].0))
            &&& forall|x: Seq<char>|
                has_name(hs, x) && !is_hop_by_hop(x) && x != "authorization"@ && x != "x-api-key"@
                    ==> #[trigger] has_name(out, x) && value_of(out, x) == value_of(
                    forwarded_base(hs),
                    x,
                )
        }),
{
    reveal_strlit("host");
    reveal_strlit("authorization");
    reveal_strlit("x-api-key");
    reveal_strlit("connection");
    reveal_strlit("proxy-authenticate");
    reveal_strlit("proxy-authorization");
    reveal_strlit("te");
    reveal_strlit("trailer");
    reveal_strlit("transfer-encoding");
    reveal_strlit("upgrade");
    assert("x-api-key"@.len() == 9);
    assert("authorization"@.len() == 13);
    assert("host"@.len() == 4);
    assert("connection"@.len() == 10);
    assert("proxy-authenticate"@.len() == 18);
    assert("proxy-authorization"@.len() == 19);
    assert("te"@.len() == 2);
    assert("trailer"@.len() == 7);
    assert("transfer-encoding"@.len() == 17);
    assert("upgrade"@.len() == 7);
    assert(!is_hop_by_hop("x-api-key"@));
    assert("x-api-key"@ != "authorization"@);
    let base = forwarded_base(hs);
    lemma_forwarded_base(hs);
    let with_host = match host {
        Some(h) => if valid_header_value(vstd::utf8::encode_utf8(h)) {
            map_insert(base, "host"@, vstd::utf8::encode_utf8(h))
        } else {
            base
        },
        None => base,
    };
    let host_ok = host is Some && valid_header_value(vstd::utf8::encode_utf8(host.unwrap()));
    if host_ok {
        lemma_map_insert(base, "host"@, vstd::utf8::encode_utf8(host.unwrap()));
    }
    assert(is_hop_by_hop("host"@));
    assert(!has_name(base, "host"@));
    assert(distinct_names(with_host));
    assert forall|k: int| 0 <= k < with_host.len() implies (#[trigger] with_host[k].0 == "host"@
        || !is_hop_by_hop(with_host[k].0)) by {
        if host_ok && with_host[k] != ("host"@, vstd::utf8::encode_utf8(host.unwrap())) {
            let j = choose|j: int| 0 <= j < base.len() && base[j] == with_host[k];
            assert(!is_hop_by_hop(base[j].0));
        }
    }
    let key_bytes = vstd::utf8::encode_utf8(api_key);
    let with_key = map_insert(with_host, "x-api-key"@, key_bytes);
    lemma_map_insert(with_host, "x-api-key"@, key_bytes);
    let out = map_remove(with_key, "authorization"@);
    lemma_map_remove(with_key, "authorization"@);
    assert forall|k: int| 0 <= k < with_key.len() implies (#[trigger] with_key[k].0 == "host"@
        || !is_hop_by_hop(with_key[k].0)) by {
        if with_key[k] != ("x-api-key"@, key_bytes) {
            let j = choose|j: int| 0 <= j < with_host.len() && with_host[j] == with_key[k];
            assert(with_host[j].0 == "host"@ || !is_hop_by_hop(with_host[j].0));
        }
    }
    assert forall|k: int| 0 <= k < out.len() implies (#[trigger] out[k].0 == "host"@
        || !is_hop_by_hop(out[k].0)) by {
        let j = choose|j: int| 0 <= j < with_key.len() && with_key[j] == out[k];
        assert(with_key[j].0 == "host"@ || !is_hop_by_hop(with_key[j].0));
    }
    assert forall|x: Seq<char>|
        has_name(hs, x) && !is_hop_by_hop(x) && x != "authorization"@ && x != "x-api-key"@
            implies #[trigger] has_name(out, x) && value_of(out, x) == value_of(base, x) by {
        assert(has_name(base, x));
        assert(x != "host"@);
        assert(has_name(with_host, x));
        assert(has_name(with_key, x));
    }
}

/// The headers passed back to the client come from the upstream response, in
/// order, and never include a hop-by-hop header or `host`; a streamed
/// response never includes `content-length`.
pub proof fn lemma_kept_response_headers(hs: Seq<(Seq<char>, Seq<u8>)>, streaming: bool)
    ensures
        forall|k: int|
            0 <= k < kept_response_headers(hs, streaming).len() ==> !is_hop_by_hop(
                #[trigger] kept_response_headers(hs, streaming)[k].0,
            ) && !(streaming && kept_response_headers(hs, streaming)[k].0 == "content-length"@),
        forall|k: int|
            0 <= k < kept_response_headers(hs, streaming).len() ==> exists|j: int|
                0 <= j < hs.len() && hs[j] == #[trigger] kept_response_headers(hs, streaming)[k],
    decreases hs.len(),
{
    if hs.len() > 0 {
        let d = hs.drop_last();
        lemma_kept_response_headers(d, streaming);
        let acc = kept_response_headers(d, streaming);
        let r = kept_response_headers(hs, streaming);
        assert forall|k: int| 0 <= k < r.len() implies exists|j: int|
            0 <= j < hs.len() && hs[j] == #[trigger] r[k] by {
            if k < acc.len() {
                let j = choose|j: int| 0 <= j < d.len() && d[j] == acc[k];
                assert(hs[j] == r[k]);
            } else {
                assert(hs[hs.len() - 1] == r[k]);
            }
        }
    }
}

/// The headers passed back to the client are exactly the upstream headers,
/// in order, less those named `host`, `connection`, `proxy-authenticate`,
/// `proxy-authorization`, `te`, `trailer`, `transfer-encoding` and
/// `upgrade`, and, for a streamed reply, less `content-length`. Every other
/// header, such as `content-encoding` or `set-cookie`, is kept.
pub proof fn lemma_response_headers_complete(hs: Seq<(Seq<char>, Seq<u8>)>, streaming: bool)
    ensures
        kept_response_headers(hs, streaming) == hs.filter(
            |h: (Seq<char>, Seq<u8>)|
                !(h.0 == "host"@ || h.0 == "connection"@ || h.0 == "proxy-authenticate"@ || h.0
                    == "proxy-authorization"@ || h.0 == "te"@ || h.0 == "trailer"@ || h.0
                    == "transfer-encoding"@ || h.0 == "upgrade"@) && !(streaming && h.0
                    == "content-length"@),
        ),
    decreases hs.len(),
{
    reveal(Seq::filter);
    if hs.len() > 0 {
        lemma_response_headers_complete(hs.drop_last(), streaming);
    }
}

/// A buffered response's headers end with `content-length` giving the body's
/// length in decimal; a streamed response always carries a `content-type`.
pub proof fn lemma_response_framing(hs: Seq<(Seq<char>, Seq<u8>)>, len: nat)
    ensures
        buffered_response_headers(hs, len).last() == ("content-length"@, decimal_bytes(len)),
        has_name(streaming_response_headers(hs), "content-type"@),
{
    let kept = kept_response_headers(hs, true);
    let out = streaming_response_headers(hs);
    lemma_name_index(hs, "content-type"@);
    if name_index(hs, "content-type"@) is None {
        assert(out[kept.len() as int].0 == "content-type"@);
    } else {
        reveal_strlit("content-type");
        reveal_strlit("content-length");
        reveal_strlit("host");
        reveal_strlit("connection");
        reveal_strlit("proxy-authenticate");
        reveal_strlit("proxy-authorization");
        reveal_strlit("te");
        reveal_strlit("trailer");
        reveal_strlit("transfer-encoding");
        reveal_strlit("upgrade");
        assert("content-type"@.len() == 12);
        assert("content-length"@.len() == 14);
        assert("host"@.len() == 4);
        assert("connection"@.len() == 10);
        assert("proxy-authenticate"@.len() == 18);
        assert("proxy-authorization"@.len() == 19);
        assert("te"@.len() == 2);
        assert("trailer"@.len() == 7);
        assert("transfer-encoding"@.len() == 17);
        assert("upgrade"@.len() == 7);
        lemma_content_type_kept(hs);
    }
}

/// An upstream `content-type` header survives into a streamed response.
proof fn lemma_content_type_kept(hs: Seq<(Seq<char>, Seq<u8>)>)
    requires
        has_name(hs, "content-type"@),
        !is_hop_by_hop("content-type"@),
        "content-type"@ != "content-length"@,
    ensures
        has_name(kept_response_headers(hs, true), "content-type"@),
    decreases hs.len(),
{
    let d = hs.drop_last();
    let acc = kept_response_headers(d, true);
    let r = kept_response_headers(hs, true);
    if hs.last().0 == "content-type"@ {
        assert(r[acc.len() as int].0 == "content-type"@);
    } else {
        let i = choose|i: int| 0 <= i < hs.len() && #[trigger] hs[i].0 == "content-type"@;
        assert(d[i].0 == "content-type"@);
        lemma_content_type_kept(d);
        let k = choose|k: int| 0 <= k < acc.len() && #[trigger] acc[k].0 == "content-type"@;
        assert(r[k].0 == "content-type"@);
    }
}

/// The logged headers never show the value of `authorization` or
/// `x-api-key`: their logged text is always `[REDACTED]`.
pub proof fn lemma_sensitive_headers_redacted(hs: Seq<(Seq<char>, Seq<u8>)>)
    ensures
        forall|k: int|
            0 <= k < spec_logged_headers(hs).len() && is_sensitive(
                #[trigger] spec_logged_headers(hs)[k].0,
            ) ==> spec_logged_headers(hs)[k].1 == "[REDACTED]"@,
    decreases hs.len(),
{
    if hs.len() > 0 {
        let d = hs.drop_last();
        lemma_sensitive_headers_redacted(d);
        let acc = spec_logged_headers(d);
        let h = hs.last();
        let r = spec_logged_headers(hs);
        lemma_name_index(acc, h.0);
        assert forall|k: int|
            0 <= k < r.len() && is_sensitive(#[trigger] r[k].0) implies r[k].1 == "[REDACTED]"@ by {
            if r[k] != (h.0, logged_text(h.0, h.1)) {
                assert(r[k] == acc[k]);
            }
        }
    }
}

} // verus!
