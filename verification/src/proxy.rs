//! The local proxy: where a request goes, with which token and which headers, and what the proxy
//! answers by itself.
use crate::account::{copy_opt, Account, AccountStore, DiskAuth};
use crate::json::quote;
use crate::text::{
    concat2, concat3, contains, eq_str, replace_once, show_u64, starts_with, strip_prefix,
    to_ascii_lowercase, to_lowercase,
};
use vstd::prelude::*;

verus! {

// ---------------------------------------------------------------------------
// Counting
// ---------------------------------------------------------------------------

/// What the proxy counts.
#[derive(Debug, Clone, Copy)]
pub struct ProxyStats {
    pub total_requests: u64,
    pub auto_switches: u64,
}

impl Default for ProxyStats {
    fn default() -> (stats: ProxyStats)
        ensures
            stats.total_requests == 0,
            stats.auto_switches == 0,
    {
        ProxyStats { total_requests: 0, auto_switches: 0 }
    }
}

/// One more than `n`, and zero again after the largest count.
pub open spec fn counted(n: u64) -> u64 {
    if n == u64::MAX {
        0
    } else {
        (n + 1) as u64
    }
}

/// One more than `n`, and zero again after the largest count.
pub fn count_on(n: u64) -> (next: u64)
    ensures
        next == counted(n),
{
    if n == u64::MAX {
        0
    } else {
        n + 1
    }
}

// ---------------------------------------------------------------------------
// Where the proxy listens
// ---------------------------------------------------------------------------

/// The IPv4 address that the proxy listens on: every interface where the local network may use it,
/// else the machine itself only.
pub fn listen_address(allow_lan: bool) -> (ip: [u8; 4])
    ensures
        ip@ == if allow_lan {
            seq![0u8, 0, 0, 0]
        } else {
            seq![127u8, 0, 0, 1]
        },
{
    if allow_lan {
        [0, 0, 0, 0]
    } else {
        [127, 0, 0, 1]
    }
}

// ---------------------------------------------------------------------------
// The token of the active account
// ---------------------------------------------------------------------------

/// The token is one of a ChatGPT login, not an API key.
pub open spec fn chatgpt_token(token: Seq<char>) -> bool {
    crate::text::begins(token, "eyJ"@)
}

/// Whether the token is one of a ChatGPT login, not an API key.
pub fn is_chatgpt_token(token: &str) -> (b: bool)
    ensures
        b == chatgpt_token(token@),
{
    starts_with(token, "eyJ")
}

/// The token of the active account, and whether it is one of a ChatGPT login.
pub open spec fn current_token(store: AccountStore) -> Result<(Seq<char>, bool), Seq<char>> {
    match store.current {
        None => Err("No active account"@),
        Some(_) => match store.current_account() {
            None => Err("Current account does not exist"@),
            Some(a) => match crate::account::access_token_in(a.auth_json@) {
                None => Err("Current account missing access_token"@),
                Some(token) => Ok((token, chatgpt_token(token))),
            },
        },
    }
}

/// The content of a token or of the message for want of one.
pub open spec fn token_view(r: Result<(String, bool), String>) -> Result<
    (Seq<char>, bool),
    Seq<char>,
> {
    match r {
        Ok(t) => Ok((t.0@, t.1)),
        Err(e) => Err(e@),
    }
}

/// The login document on disk belongs to the active account.
pub open spec fn disk_is_current(store: AccountStore, disk: Option<DiskAuth>) -> bool {
    match (store.current_account(), disk) {
        (Some(a), Some(d)) => crate::account::one_identity(a.auth_json@, d.auth@),
        _ => false,
    }
}

/// The active account has taken over the login document on disk, where it is its own.
pub open spec fn disk_taken(before: AccountStore, after: AccountStore, disk: Option<DiskAuth>) -> bool {
    if disk_is_current(before, disk) {
        crate::account::current_changed(
            before,
            after,
            |a: Account, b: Account| crate::account::auth_taken(a, b, disk->0),
        )
    } else {
        crate::account::unchanged(before, after)
    }
}

/// The token of the active account, after the login document on disk was taken over where it is
/// its own; then the store is to be written to disk, on best effort.
pub fn get_current_token(store: &mut AccountStore, disk: &Option<DiskAuth>) -> (r: (
    Result<(String, bool), String>,
    bool,
))
    ensures
        disk_taken(*old(store), *final(store), *disk),
        r.1 == disk_is_current(*old(store), *disk),
        token_view(r.0) == current_token(*final(store)),
{
    let id: String = match &store.current {
        Some(id) => id.clone(),
        None => return (Err("No active account".to_owned()), false),
    };
    let mut save: bool = false;
    if let Some(d) = disk {
        save = store.sync_account_from_auth_json(id.as_str(), d);
    }
    let token: Option<String> = match store.find(id.as_str()) {
        Some(i) => AccountStore::extract_access_token(&store.accounts[i].auth_json),
        None => return (Err("Current account does not exist".to_owned()), save),
    };
    match token {
        Some(t) => {
            let chatgpt: bool = is_chatgpt_token(t.as_str());
            (Ok((t, chatgpt)), save)
        },
        None => (Err("Current account missing access_token".to_owned()), save),
    }
}

// ---------------------------------------------------------------------------
// Upstream
// ---------------------------------------------------------------------------

/// The address upstream of a path, and the host it belongs to.
pub open spec fn upstream(is_chatgpt: bool, path: Seq<char>) -> (Seq<char>, Seq<char>) {
    if is_chatgpt {
        let rest = if crate::text::begins(path, "/v1"@) {
            path.skip("/v1"@.len() as int)
        } else {
            path
        };
        ("https://chatgpt.com/backend-api/codex"@ + rest, "chatgpt.com"@)
    } else {
        ("https://api.openai.com"@ + path, "api.openai.com"@)
    }
}

/// The address upstream of a path, and the host it belongs to.
pub fn get_upstream(is_chatgpt: bool, path_and_query: &str) -> (r: (String, String))
    ensures
        (r.0@, r.1@) == upstream(is_chatgpt, path_and_query@),
{
    if is_chatgpt {
        let url: String = match strip_prefix(path_and_query, "/v1") {
            Some(rest) => concat2("https://chatgpt.com/backend-api/codex", rest.as_str()),
            None => concat2("https://chatgpt.com/backend-api/codex", path_and_query),
        };
        (url, "chatgpt.com".to_owned())
    } else {
        (concat2("https://api.openai.com", path_and_query), "api.openai.com".to_owned())
    }
}

/// The address of the same place for a WebSocket.
pub open spec fn websocket_address(url: Seq<char>) -> Seq<char> {
    crate::text::replaced_once(
        crate::text::replaced_once(url, "https://"@, "wss://"@),
        "http://"@,
        "ws://"@,
    )
}

/// The address upstream of a path for a WebSocket.
pub fn websocket_url(is_chatgpt: bool, path_and_query: &str) -> (url: String)
    ensures
        url@ == websocket_address(upstream(is_chatgpt, path_and_query@).0),
{
    let http: (String, String) = get_upstream(is_chatgpt, path_and_query);
    let first: String = replace_once(http.0.as_str(), "https://", "wss://");
    replace_once(first.as_str(), "http://", "ws://")
}

// ---------------------------------------------------------------------------
// Headers
// ---------------------------------------------------------------------------

/// A header: its name, in lower case, and its value.
pub type Header = (String, Vec<u8>);

/// On which way headers are handed on.
#[derive(Debug, Clone, Copy, PartialEq, Eq, Structural)]
pub enum HeaderWay {
    /// From a request to the server upstream.
    Request,
    /// From an answer to the client.
    Answer,
    /// From a WebSocket request to the server upstream.
    SocketRequest,
    /// From the answer to a WebSocket request to the client.
    SocketAnswer,
}

/// The headers that are not handed on, by their name in lower case.
pub open spec fn held_back(way: HeaderWay, name: Seq<char>) -> bool {
    match way {
        HeaderWay::Request => name == "authorization"@ || name == "host"@,
        HeaderWay::Answer => name == "content-length"@ || name == "transfer-encoding"@ || name
            == "connection"@ || name == "trailer"@ || name == "upgrade"@,
        HeaderWay::SocketRequest => name == "authorization"@ || name == "host"@ || name
            == "upgrade"@ || name == "connection"@ || name == "sec-websocket-key"@ || name
            == "sec-websocket-version"@ || name == "sec-websocket-extensions"@,
        HeaderWay::SocketAnswer => name == "upgrade"@ || name == "connection"@ || name
            == "sec-websocket-accept"@ || name == "sec-websocket-extensions"@ || name
            == "content-length"@ || name == "transfer-encoding"@,
    }
}

/// What a header says.
pub type HeaderView = (Seq<char>, Seq<u8>);

/// The headers that are handed on, in their order.
pub open spec fn handed_on(way: HeaderWay, headers: Seq<HeaderView>) -> Seq<HeaderView>
    decreases headers.len(),
{
    if headers.len() == 0 {
        Seq::empty()
    } else {
        let rest = handed_on(way, headers.drop_last());
        let h = headers.last();
        if held_back(way, crate::text::ascii_lowered(h.0)) {
            rest
        } else {
            rest.push(h)
        }
    }
}

/// The headers but for those with the name `name`.
pub open spec fn without_header(headers: Seq<HeaderView>, name: Seq<char>) -> Seq<HeaderView>
    decreases headers.len(),
{
    if headers.len() == 0 {
        Seq::empty()
    } else {
        let rest = without_header(headers.drop_last(), name);
        if headers.last().0 == name {
            rest
        } else {
            rest.push(headers.last())
        }
    }
}

/// The headers with the one value `value` for the name `name`.
pub open spec fn with_header(
    headers: Seq<HeaderView>,
    name: Seq<char>,
    value: Seq<u8>,
) -> Seq<HeaderView> {
    without_header(headers, name).push((name, value))
}

/// The headers with each of `more` set in turn, so that of one name the last value counts.
pub open spec fn with_headers(headers: Seq<HeaderView>, more: Seq<HeaderView>) -> Seq<HeaderView>
    decreases more.len(),
{
    if more.len() == 0 {
        headers
    } else {
        with_header(with_headers(headers, more.drop_last()), more.last().0, more.last().1)
    }
}

/// The bytes of a text.
pub open spec fn bytes_of(text: Seq<char>) -> Seq<u8> {
    vstd::utf8::encode_utf8(text)
}

/// A character that may stand in the value of a header.
pub open spec fn header_char(c: char) -> bool {
    c == '\t' || (c >= ' ' && c != '\u{7f}')
}

/// A text that may be the value of a header.
pub open spec fn header_text(text: Seq<char>) -> bool {
    forall|i: int| 0 <= i < text.len() ==> header_char(#[trigger] text[i])
}

/// `HeaderValue::from_str` of `http`, as `hyper` hands it on: a text is accepted as the value of a
/// header where it holds no control character but tabs.
#[verifier::external_body]
pub(crate) fn is_header_text(text: &str) -> (b: bool)
    ensures
        b == header_text(text@),
{
    hyper::header::HeaderValue::from_str(text).is_ok()
}

/// The headers with the token as authorization, where it may stand in a header.
pub open spec fn authorized(headers: Seq<HeaderView>, token: Seq<char>) -> Seq<HeaderView> {
    if header_text("Bearer "@ + token) {
        with_header(headers, "authorization"@, bytes_of("Bearer "@ + token))
    } else {
        headers
    }
}

/// What a list of headers says.
pub open spec fn header_list(headers: Seq<Header>) -> Seq<HeaderView> {
    headers.map_values(|h: Header| (h.0@, h.1@))
}

/// A copy of the bytes.
pub fn copy_bytes(bytes: &Vec<u8>) -> (same: Vec<u8>)
    ensures
        same@ == bytes@,
{
    let mut same: Vec<u8> = Vec::new();
    let mut i: usize = 0;
    while i < bytes.len()
        invariant
            i <= bytes@.len(),
            same@ == bytes@.take(i as int),
        decreases bytes@.len() - i,
    {
        same.push(bytes[i]);
        assert(bytes@.take(i as int).push(bytes@[i as int]) =~= bytes@.take(i + 1));
        i += 1;
    }
    assert(bytes@.take(bytes@.len() as int) =~= bytes@);
    same
}

/// Whether a header, by its name in lower case, is not handed on.
pub fn is_held_back(way: HeaderWay, name: &str) -> (b: bool)
    ensures
        b == held_back(way, name@),
{
    match way {
        HeaderWay::Request => eq_str(name, "authorization") || eq_str(name, "host"),
        HeaderWay::Answer => eq_str(name, "content-length") || eq_str(name, "transfer-encoding")
            || eq_str(name, "connection") || eq_str(name, "trailer") || eq_str(name, "upgrade"),
        HeaderWay::SocketRequest => eq_str(name, "authorization") || eq_str(name, "host") || eq_str(
            name,
            "upgrade",
        ) || eq_str(name, "connection") || eq_str(name, "sec-websocket-key") || eq_str(
            name,
            "sec-websocket-version",
        ) || eq_str(name, "sec-websocket-extensions"),
        HeaderWay::SocketAnswer => eq_str(name, "upgrade") || eq_str(name, "connection") || eq_str(
            name,
            "sec-websocket-accept",
        ) || eq_str(name, "sec-websocket-extensions") || eq_str(name, "content-length") || eq_str(
            name,
            "transfer-encoding",
        ),
    }
}

/// The headers that are handed on.
pub fn hand_on(way: HeaderWay, headers: &Vec<Header>) -> (out: Vec<Header>)
    ensures
        header_list(out@) == handed_on(way, header_list(headers@)),
{
    let mut out: Vec<Header> = Vec::new();
    let ghost all = header_list(headers@);
    let mut i: usize = 0;
    assert(header_list(out@) =~= handed_on(way, all.take(0)));
    while i < headers.len()
        invariant
            i <= headers@.len(),
            all == header_list(headers@),
            header_list(out@) == handed_on(way, all.take(i as int)),
        decreases headers@.len() - i,
    {
        assert(all.take(i + 1).drop_last() =~= all.take(i as int));
        assert(all.take(i + 1).last() == (headers@[i as int].0@, headers@[i as int].1@));
        let lower: String = to_ascii_lowercase(headers[i].0.as_str());
        if !is_held_back(way, lower.as_str()) {
            let ghost before = out@;
            out.push((headers[i].0.clone(), copy_bytes(&headers[i].1)));
            assert(header_list(out@) =~= header_list(before).push(all.take(i + 1).last()));
        }
        i += 1;
    }
    assert(all.take(all.len() as int) =~= all);
    out
}

/// The headers with the one value `value` for the name `name`.
pub fn set_header(headers: &Vec<Header>, name: &str, value: &Vec<u8>) -> (out: Vec<Header>)
    ensures
        header_list(out@) == with_header(header_list(headers@), name@, value@),
{
    let mut out: Vec<Header> = Vec::new();
    let ghost all = header_list(headers@);
    let mut i: usize = 0;
    assert(header_list(out@) =~= without_header(all.take(0), name@));
    while i < headers.len()
        invariant
            i <= headers@.len(),
            all == header_list(headers@),
            header_list(out@) == without_header(all.take(i as int), name@),
        decreases headers@.len() - i,
    {
        assert(all.take(i + 1).drop_last() =~= all.take(i as int));
        assert(all.take(i + 1).last() == (headers@[i as int].0@, headers@[i as int].1@));
        if !eq_str(headers[i].0.as_str(), name) {
            let ghost before = out@;
            out.push((headers[i].0.clone(), copy_bytes(&headers[i].1)));
            assert(header_list(out@) =~= header_list(before).push(all.take(i + 1).last()));
        }
        i += 1;
    }
    assert(all.take(all.len() as int) =~= all);
    let ghost before = out@;
    out.push((name.to_owned(), copy_bytes(value)));
    assert(header_list(out@) =~= header_list(before).push((name@, value@)));
    out
}

/// The headers with each of `more` set in turn.
pub fn set_headers(headers: Vec<Header>, more: &Vec<Header>) -> (out: Vec<Header>)
    ensures
        header_list(out@) == with_headers(header_list(headers@), header_list(more@)),
{
    let ghost start = header_list(headers@);
    let ghost all = header_list(more@);
    let mut out: Vec<Header> = headers;
    let mut i: usize = 0;
    assert(all.take(0) =~= Seq::empty());
    while i < more.len()
        invariant
            i <= more@.len(),
            all == header_list(more@),
            header_list(out@) == with_headers(start, all.take(i as int)),
        decreases more@.len() - i,
    {
        assert(all.take(i + 1).drop_last() =~= all.take(i as int));
        assert(all.take(i + 1).last() == (more@[i as int].0@, more@[i as int].1@));
        out = set_header(&out, more[i].0.as_str(), &more[i].1);
        i += 1;
    }
    assert(all.take(all.len() as int) =~= all);
    out
}

/// A copy of the headers.
pub fn copy_headers(headers: &Vec<Header>) -> (out: Vec<Header>)
    ensures
        header_list(out@) == header_list(headers@),
{
    let mut out: Vec<Header> = Vec::new();
    let ghost all = header_list(headers@);
    let mut i: usize = 0;
    while i < headers.len()
        invariant
            i <= headers@.len(),
            all == header_list(headers@),
            header_list(out@) =~= all.take(i as int),
        decreases headers@.len() - i,
    {
        let ghost before = out@;
        out.push((headers[i].0.clone(), copy_bytes(&headers[i].1)));
        assert(header_list(out@) =~= header_list(before).push(all[i as int]));
        i += 1;
    }
    assert(all.take(all.len() as int) =~= all);
    out
}

/// The headers with which a request goes to `host`.
pub fn upstream_headers(headers: &Vec<Header>, host: &str) -> (out: Vec<Header>)
    ensures
        header_list(out@) == with_header(
            handed_on(HeaderWay::Request, header_list(headers@)),
            "host"@,
            bytes_of(host@),
        ),
{
    let base: Vec<Header> = hand_on(HeaderWay::Request, headers);
    let value: Vec<u8> = host.as_bytes_vec();
    set_header(&base, "host", &value)
}

/// The headers with the token as authorization, where it may stand in a header.
pub fn forward_with_token(headers: &Vec<Header>, token: &str) -> (out: Vec<Header>)
    ensures
        header_list(out@) == authorized(header_list(headers@), token@),
{
    let bearer: String = concat2("Bearer ", token);
    if is_header_text(bearer.as_str()) {
        let value: Vec<u8> = bearer.as_str().as_bytes_vec();
        set_header(headers, "authorization", &value)
    } else {
        copy_headers(headers)
    }
}

/// No request carries the authorization that the client sent: what goes upstream under that name
/// is the token of the account.
pub proof fn clients_never_authorize(headers: Seq<HeaderView>, host: Seq<char>, token: Seq<char>)
    requires
        forall|i: int|
            0 <= i < headers.len() ==> (#[trigger] headers[i]).0 == crate::text::ascii_lowered(
                headers[i].0,
            ),
    ensures
        ({
            let sent = authorized(
                with_header(handed_on(HeaderWay::Request, headers), "host"@, bytes_of(host)),
                token,
            );
            forall|i: int|
                0 <= i < sent.len() && (#[trigger] sent[i]).0 == "authorization"@ ==> sent[i].1
                    == bytes_of("Bearer "@ + token)
        }),
{
    let kept = handed_on(HeaderWay::Request, headers);
    lemma_handed_on(HeaderWay::Request, headers);
    let base = with_header(kept, "host"@, bytes_of(host));
    lemma_without_header(kept, "host"@);
    reveal_strlit("host");
    reveal_strlit("authorization");
    assert("host"@.len() != "authorization"@.len());
    assert forall|i: int| 0 <= i < base.len() implies (#[trigger] base[i]).0 != "authorization"@ by {
        let rest = without_header(kept, "host"@);
        if i < rest.len() {
            assert(base[i] == rest[i]);
            let k = choose|k: int| 0 <= k < kept.len() && kept[k] == rest[i];
            assert(!held_back(HeaderWay::Request, crate::text::ascii_lowered(kept[k].0)));
            let j = choose|j: int| 0 <= j < headers.len() && headers[j] == kept[k];
            assert(headers[j].0 == crate::text::ascii_lowered(headers[j].0));
        }
    }
    lemma_without_header(base, "authorization"@);
    let sent = authorized(base, token);
    assert forall|i: int|
        0 <= i < sent.len() && (#[trigger] sent[i]).0 == "authorization"@ implies sent[i].1
        == bytes_of("Bearer "@ + token) by {
        if header_text("Bearer "@ + token) {
            let rest = without_header(base, "authorization"@);
            if i < rest.len() {
                assert(sent[i] == rest[i]);
            }
        }
    }
}

pub(crate) proof fn lemma_handed_on(way: HeaderWay, headers: Seq<HeaderView>)
    ensures
        forall|i: int|
            0 <= i < handed_on(way, headers).len() ==> !held_back(
                way,
                crate::text::ascii_lowered((#[trigger] handed_on(way, headers)[i]).0),
            ),
        forall|i: int|
            0 <= i < handed_on(way, headers).len() ==> exists|j: int|
                0 <= j < headers.len() && headers[j] == #[trigger] handed_on(way, headers)[i],
    decreases headers.len(),
{
    if headers.len() > 0 {
        lemma_handed_on(way, headers.drop_last());
        let rest = handed_on(way, headers.drop_last());
        let all = handed_on(way, headers);
        assert forall|i: int| 0 <= i < all.len() implies exists|j: int|
            0 <= j < headers.len() && headers[j] == #[trigger] all[i] by {
            if i < rest.len() {
                assert(all[i] == rest[i]);
                let j = choose|j: int|
                    0 <= j < headers.drop_last().len() && headers.drop_last()[j] == rest[i];
                assert(headers[j] == all[i]);
            } else {
                assert(headers[headers.len() - 1] == all[i]);
            }
        }
        assert forall|i: int| 0 <= i < all.len() implies !held_back(
            way,
            crate::text::ascii_lowered((#[trigger] all[i]).0),
        ) by {
            if i < rest.len() {
                assert(all[i] == rest[i]);
            }
        }
    }
}

pub(crate) proof fn lemma_without_header(headers: Seq<HeaderView>, name: Seq<char>)
    ensures
        forall|i: int|
            0 <= i < without_header(headers, name).len() ==> (#[trigger] without_header(
                headers,
                name,
            )[i]).0 != name,
        forall|i: int|
            0 <= i < without_header(headers, name).len() ==> exists|j: int|
                0 <= j < headers.len() && headers[j] == #[trigger] without_header(headers, name)[i],
    decreases headers.len(),
{
    if headers.len() > 0 {
        lemma_without_header(headers.drop_last(), name);
        let rest = without_header(headers.drop_last(), name);
        let all = without_header(headers, name);
        assert forall|i: int| 0 <= i < all.len() implies exists|j: int|
            0 <= j < headers.len() && headers[j] == #[trigger] all[i] by {
            if i < rest.len() {
                assert(all[i] == rest[i]);
                let j = choose|j: int|
                    0 <= j < headers.drop_last().len() && headers.drop_last()[j] == rest[i];
                assert(headers[j] == all[i]);
            } else {
                assert(headers[headers.len() - 1] == all[i]);
            }
        }
        assert forall|i: int| 0 <= i < all.len() implies (#[trigger] all[i]).0 != name by {
            if i < rest.len() {
                assert(all[i] == rest[i]);
            }
        }
    }
}

pub(crate) proof fn lemma_name_stays_away(
    headers: Seq<HeaderView>,
    more: Seq<HeaderView>,
    name: Seq<char>,
)
    requires
        forall|i: int| 0 <= i < headers.len() ==> (#[trigger] headers[i]).0 != name,
        forall|i: int| 0 <= i < more.len() ==> (#[trigger] more[i]).0 != name,
    ensures
        forall|i: int|
            0 <= i < with_headers(headers, more).len() ==> (#[trigger] with_headers(
                headers,
                more,
            )[i]).0 != name,
    decreases more.len(),
{
    if more.len() > 0 {
        assert forall|i: int| 0 <= i < more.drop_last().len() implies (
        #[trigger] more.drop_last()[i]).0 != name by {
            assert(more.drop_last()[i] == more[i]);
        }
        lemma_name_stays_away(headers, more.drop_last(), name);
        let before = with_headers(headers, more.drop_last());
        lemma_without_header(before, more.last().0);
        let left = without_header(before, more.last().0);
        let all = with_headers(headers, more);
        assert forall|i: int| 0 <= i < all.len() implies (#[trigger] all[i]).0 != name by {
            if i < left.len() {
                assert(all[i] == left[i]);
                let j = choose|j: int| 0 <= j < before.len() && before[j] == left[i];
                assert(before[j].0 != name);
            } else {
                assert(all[i].0 == more[more.len() - 1].0);
            }
        }
    }
}

// ---------------------------------------------------------------------------
// What the proxy answers by itself
// ---------------------------------------------------------------------------

/// An answer of the proxy itself: a status and a JSON body.
#[derive(Debug)]
pub struct PlainReply {
    pub status: u16,
    pub body: String,
}

/// The body of an error of the proxy.
pub open spec fn error_body(status: u16, message: Seq<char>) -> Seq<char> {
    "{\"error\":{\"code\":"@ + crate::text::decimal(status as nat) + ",\"message\":"@
        + crate::json::json_quoted(message) + ",\"type\":\"proxy_error\"}}"@
}

/// The answer is an error of the proxy.
pub open spec fn is_error(reply: PlainReply, status: u16, message: Seq<char>) -> bool {
    reply.status == status && reply.body@ == error_body(status, message)
}

/// An error of the proxy.
pub fn error_response(status: u16, message: &str) -> (reply: PlainReply)
    ensures
        is_error(reply, status, message@),
{
    let mut body: String = concat3(
        "{\"error\":{\"code\":",
        show_u64(status as u64).as_str(),
        ",\"message\":",
    );
    body.append(quote(message).as_str());
    body.append(",\"type\":\"proxy_error\"}}");
    PlainReply { status, body }
}

/// The body of the answer to a question for the health of the proxy.
pub open spec fn health_body(stats: ProxyStats) -> Seq<char> {
    "{\"auto_switches\":"@ + crate::text::decimal(stats.auto_switches as nat)
        + ",\"status\":\"ok\",\"total_requests\":"@ + crate::text::decimal(
        stats.total_requests as nat,
    ) + "}"@
}

/// The answer to a question for the health of the proxy.
pub fn health_response(stats: &ProxyStats) -> (reply: PlainReply)
    ensures
        reply.status == 200,
        reply.body@ == health_body(*stats),
{
    let mut body: String = concat3(
        "{\"auto_switches\":",
        show_u64(stats.auto_switches).as_str(),
        ",\"status\":\"ok\",\"total_requests\":",
    );
    body.append(show_u64(stats.total_requests).as_str());
    body.append("}");
    PlainReply { status: 200, body }
}

/// An upgrade header, in lower case, asks for a WebSocket.
pub open spec fn asks_for_socket(lower: Seq<char>) -> bool {
    crate::text::occurs(lower, "websocket"@)
}

/// Whether a request asks for a WebSocket, by its upgrade header.
pub fn is_websocket_upgrade(upgrade: Option<&str>) -> (b: bool)
    ensures
        b == match upgrade {
            Some(v) => asks_for_socket(crate::text::lowered(v@)),
            None => false,
        },
{
    match upgrade {
        Some(v) => {
            let lower: String = to_lowercase(v);
            contains(lower.as_str(), "websocket")
        },
        None => false,
    }
}

/// What is done with a request.
#[derive(Debug)]
pub enum Route {
    /// It asks for the health of the proxy.
    Health(PlainReply),
    /// It asks for a WebSocket.
    Socket,
    /// It is handed on.
    Relay,
}

/// Counts a request and decides what is done with it.
pub fn route_request(
    stats: &mut ProxyStats,
    method: &str,
    path: &str,
    upgrade: Option<&str>,
) -> (route: Route)
    ensures
        final(stats).total_requests == counted(old(stats).total_requests),
        final(stats).auto_switches == old(stats).auto_switches,
        if method@ == "GET"@ && path@ == "/health"@ {
            route matches Route::Health(r) && r.status == 200 && r.body@ == health_body(
                *final(stats),
            )
        } else if upgrade matches Some(v) && asks_for_socket(crate::text::lowered(v@)) {
            route is Socket
        } else {
            route is Relay
        },
{
    stats.total_requests = count_on(stats.total_requests);
    if eq_str(method, "GET") && eq_str(path, "/health") {
        return Route::Health(health_response(stats));
    }
    if is_websocket_upgrade(upgrade) {
        Route::Socket
    } else {
        Route::Relay
    }
}

/// The message for when no account has any quota left. `clock` is the local time of the earliest
/// reset, where there is one.
pub fn exhausted_message(clock: Option<&str>) -> (message: String)
    ensures
        message@ == match clock {
            Some(t) => "All account quotas exhausted, earliest recovery: "@ + t@,
            None => "All account quotas exhausted"@,
        },
{
    match clock {
        Some(t) => concat2("All account quotas exhausted, earliest recovery: ", t),
        None => "All account quotas exhausted".to_owned(),
    }
}

// ---------------------------------------------------------------------------
// Marks on accounts
// ---------------------------------------------------------------------------

/// An account was found to be banned: its name, and whether the user is to be notified.
#[derive(Debug)]
pub struct BanNotice {
    pub name: String,
    pub notify: bool,
}

/// The store in which the active account is marked as banned, and the notice of it. The store is
/// to be written to disk where there is a notice.
pub open spec fn ban_noted(
    before: AccountStore,
    after: AccountStore,
    notice: Option<BanNotice>,
) -> bool {
    &&& crate::account::current_changed(
        before,
        after,
        |a: Account, b: Account| b == a.flagged(Some(true), None, None),
    )
    &&& match before.current_account() {
        Some(a) => notice matches Some(n) && n.name == a.name && n.notify
            == before.settings.notify_on_switch,
        None => notice is None,
    }
}

/// Marks the active account as banned.
pub fn mark_current_banned(store: &mut AccountStore) -> (notice: Option<BanNotice>)
    ensures
        ban_noted(*old(store), *final(store), notice),
{
    match store.find_current() {
        Some(i) => {
            store.accounts[i].is_banned = true;
            Some(
                BanNotice {
                    name: store.accounts[i].name.clone(),
                    notify: store.settings.notify_on_switch,
                },
            )
        },
        None => None,
    }
}

/// Empties the five hour window of the account `id`. Whether there is such an account; then the
/// store is to be written to disk.
pub fn mark_account_quota_depleted(store: &mut AccountStore, id: &str) -> (found: bool)
    ensures
        found == (crate::account::place(old(store).accounts@, id@) is Some),
        crate::account::account_changed(
            *old(store),
            *final(store),
            id@,
            |a: Account, b: Account| b == a.depleted(),
        ),
{
    match store.find(id) {
        Some(i) => {
            if let Some(q) = &mut store.accounts[i].cached_quota {
                q.five_hour_left = 0;
            }
            true
        },
        None => false,
    }
}

/// Empties the five hour window of the active account. Whether there is one; then the store is to
/// be written to disk.
pub fn mark_current_quota_depleted(store: &mut AccountStore) -> (found: bool)
    ensures
        found == (old(store).current_account() is Some),
        crate::account::current_changed(
            *old(store),
            *final(store),
            |a: Account, b: Account| b == a.depleted(),
        ),
{
    match copy_opt(&store.current) {
        Some(id) => mark_account_quota_depleted(store, id.as_str()),
        None => false,
    }
}

/// Marks the active account as logged out. Whether there is one; then the store is to be written
/// to disk.
pub fn mark_current_logged_out(store: &mut AccountStore) -> (found: bool)
    ensures
        found == (old(store).current_account() is Some),
        crate::account::current_changed(
            *old(store),
            *final(store),
            |a: Account, b: Account| b == a.flagged(None, None, Some(true)),
        ),
{
    match copy_opt(&store.current) {
        Some(id) => store.flag(id.as_str(), None, None, Some(true)),
        None => false,
    }
}

// ---------------------------------------------------------------------------
// What holds of what is sent
// ---------------------------------------------------------------------------

/// Of the headers of a request, all but `authorization` and `host` are handed on, with their values
/// and in their order.
pub proof fn requests_keep_their_headers(headers: Seq<HeaderView>)
    ensures
        handed_on(HeaderWay::Request, headers) == headers.filter(
            |h: HeaderView|
                crate::text::ascii_lowered(h.0) != "authorization"@ && crate::text::ascii_lowered(
                    h.0,
                ) != "host"@,
        ),
    decreases headers.len(),
{
    reveal(Seq::filter);
    if headers.len() > 0 {
        requests_keep_their_headers(headers.drop_last());
    }
}

/// Of the headers of an answer, all are handed on but those that belong to its connection.
pub proof fn answers_keep_their_headers(headers: Seq<HeaderView>)
    ensures
        handed_on(HeaderWay::Answer, headers) == headers.filter(
            |h: HeaderView|
                {
                    let name = crate::text::ascii_lowered(h.0);
                    &&& name != "content-length"@
                    &&& name != "transfer-encoding"@
                    &&& name != "connection"@
                    &&& name != "trailer"@
                    &&& name != "upgrade"@
                },
        ),
    decreases headers.len(),
{
    reveal(Seq::filter);
    if headers.len() > 0 {
        answers_keep_their_headers(headers.drop_last());
    }
}

/// Of the headers of a WebSocket request, all are handed on but `authorization`, `host` and those
/// of the handshake.
pub proof fn socket_requests_keep_their_headers(headers: Seq<HeaderView>)
    ensures
        handed_on(HeaderWay::SocketRequest, headers) == headers.filter(
            |h: HeaderView|
                {
                    let name = crate::text::ascii_lowered(h.0);
                    &&& name != "authorization"@
                    &&& name != "host"@
                    &&& name != "upgrade"@
                    &&& name != "connection"@
                    &&& name != "sec-websocket-key"@
                    &&& name != "sec-websocket-version"@
                    &&& name != "sec-websocket-extensions"@
                },
        ),
    decreases headers.len(),
{
    reveal(Seq::filter);
    if headers.len() > 0 {
        socket_requests_keep_their_headers(headers.drop_last());
    }
}

/// Of the headers of the answer to a WebSocket request, all are handed on but those of the
/// handshake and of the length of a body.
pub proof fn socket_answers_keep_their_headers(headers: Seq<HeaderView>)
    ensures
        handed_on(HeaderWay::SocketAnswer, headers) == headers.filter(
            |h: HeaderView|
                {
                    let name = crate::text::ascii_lowered(h.0);
                    &&& name != "upgrade"@
                    &&& name != "connection"@
                    &&& name != "sec-websocket-accept"@
                    &&& name != "sec-websocket-extensions"@
                    &&& name != "content-length"@
                    &&& name != "transfer-encoding"@
                },
        ),
    decreases headers.len(),
{
    reveal(Seq::filter);
    if headers.len() > 0 {
        socket_answers_keep_their_headers(headers.drop_last());
    }
}

/// A header that is set stands at the end with its value, it alone has its name, and all others stay
/// in their order.
pub proof fn setting_a_header_keeps_the_others(
    headers: Seq<HeaderView>,
    name: Seq<char>,
    value: Seq<u8>,
)
    ensures
        with_header(headers, name, value) == headers.filter(|h: HeaderView| h.0 != name).push(
            (name, value),
        ),
    decreases headers.len(),
{
    reveal(Seq::filter);
    if headers.len() > 0 {
        let rest = headers.drop_last();
        setting_a_header_keeps_the_others(rest, name, value);
        let left = without_header(rest, name);
        let kept = rest.filter(|h: HeaderView| h.0 != name);
        assert(left =~= left.push((name, value)).drop_last());
        assert(kept =~= kept.push((name, value)).drop_last());
    }
}

proof fn lemma_filter_after_setting(
    headers: Seq<HeaderView>,
    name: Seq<char>,
    value: Seq<u8>,
    keep: spec_fn(HeaderView) -> bool,
)
    requires
        forall|h: HeaderView| h.0 == name ==> !#[trigger] keep(h),
    ensures
        with_header(headers, name, value).filter(keep) == headers.filter(keep),
{
    lemma_filter_without(headers, name, keep);
    reveal(Seq::filter);
    let left = without_header(headers, name);
    assert(left.push((name, value)).drop_last() =~= left);
    assert(!keep((name, value)));
}

proof fn lemma_filter_without(
    headers: Seq<HeaderView>,
    name: Seq<char>,
    keep: spec_fn(HeaderView) -> bool,
)
    requires
        forall|h: HeaderView| h.0 == name ==> !#[trigger] keep(h),
    ensures
        without_header(headers, name).filter(keep) == headers.filter(keep),
    decreases headers.len(),
{
    reveal(Seq::filter);
    if headers.len() > 0 {
        let rest = headers.drop_last();
        lemma_filter_without(rest, name, keep);
        let left = without_header(rest, name);
        assert(left.push(headers.last()).drop_last() =~= left);
    }
}

proof fn lemma_filter_twice(
    headers: Seq<HeaderView>,
    keep: spec_fn(HeaderView) -> bool,
)
    ensures
        headers.filter(keep).filter(keep) == headers.filter(keep),
    decreases headers.len(),
{
    reveal(Seq::filter);
    if headers.len() > 0 {
        let rest = headers.drop_last();
        lemma_filter_twice(rest, keep);
        let left = rest.filter(keep);
        assert(left.push(headers.last()).drop_last() =~= left);
    }
}

proof fn lemma_names_in_lower_case()
    ensures
        crate::text::ascii_lowered("host"@) == "host"@,
        crate::text::ascii_lowered("authorization"@) == "authorization"@,
        "host"@ != "authorization"@,
{
    reveal_strlit("host");
    reveal_strlit("authorization");
    assert(crate::text::ascii_lowered("host"@) =~= "host"@);
    assert(crate::text::ascii_lowered("authorization"@) =~= "authorization"@);
    assert("host"@.len() != "authorization"@.len());
}

/// What goes upstream holds every header of the client but `authorization` and `host`, as it was and
/// in its order, and besides them one host, that of the server, and one authorization, the token of
/// the account where it may stand in a header.
pub proof fn what_a_request_carries(headers: Seq<HeaderView>, host: Seq<char>, token: Seq<char>)
    ensures
        ({
            let sent = authorized(
                with_header(handed_on(HeaderWay::Request, headers), "host"@, bytes_of(host)),
                token,
            );
            let theirs = |h: HeaderView|
                crate::text::ascii_lowered(h.0) != "authorization"@ && crate::text::ascii_lowered(
                    h.0,
                ) != "host"@;
            &&& sent.filter(theirs) == headers.filter(theirs)
            &&& sent.contains(("host"@, bytes_of(host)))
            &&& header_text("Bearer "@ + token) ==> sent.last() == (
                "authorization"@,
                bytes_of("Bearer "@ + token),
            )
        }),
{
    let theirs = |h: HeaderView|
        crate::text::ascii_lowered(h.0) != "authorization"@ && crate::text::ascii_lowered(h.0)
            != "host"@;
    lemma_names_in_lower_case();
    let kept = handed_on(HeaderWay::Request, headers);
    requests_keep_their_headers(headers);
    assert(kept == headers.filter(theirs));
    lemma_filter_twice(headers, theirs);
    let base = with_header(kept, "host"@, bytes_of(host));
    lemma_filter_after_setting(kept, "host"@, bytes_of(host), theirs);
    lemma_filter_after_setting(base, "authorization"@, bytes_of("Bearer "@ + token), theirs);
    let sent = authorized(base, token);
    assert(base.last() == ("host"@, bytes_of(host)));
    assert(base[base.len() - 1] == ("host"@, bytes_of(host)));
    lemma_others_stay(base, "authorization"@, base.len() - 1);
    if header_text("Bearer "@ + token) {
        let left = without_header(base, "authorization"@);
        let k = choose|k: int| 0 <= k < left.len() && left[k] == ("host"@, bytes_of(host));
        assert(sent[k] == ("host"@, bytes_of(host)));
    } else {
        assert(sent[base.len() - 1] == ("host"@, bytes_of(host)));
    }
}

proof fn lemma_others_stay(headers: Seq<HeaderView>, name: Seq<char>, i: int)
    requires
        0 <= i < headers.len(),
        headers[i].0 != name,
    ensures
        without_header(headers, name).contains(headers[i]),
    decreases headers.len(),
{
    let all = without_header(headers, name);
    if i == headers.len() - 1 {
        assert(all.last() == headers[i]);
    } else {
        let rest = headers.drop_last();
        lemma_others_stay(rest, name, i);
        let left = without_header(rest, name);
        let k = choose|k: int| 0 <= k < left.len() && left[k] == rest[i];
        assert(all[k] == headers[i]);
    }
}

/// A token is one of a ChatGPT login exactly where it begins with `eyJ`.
pub proof fn chatgpt_tokens_begin_alike(token: Seq<char>)
    ensures
        chatgpt_token(token) <==> token.len() >= 3 && token[0] == 'e' && token[1] == 'y' && token[2]
            == 'J',
{
    reveal_strlit("eyJ");
    if token.len() >= 3 {
        assert(token.subrange(0, 3)[0] == token[0]);
        assert(token.subrange(0, 3)[1] == token[1]);
        assert(token.subrange(0, 3)[2] == token[2]);
        if token[0] == 'e' && token[1] == 'y' && token[2] == 'J' {
            assert(token.subrange(0, 3) =~= "eyJ"@);
        }
    }
}

/// A token is handed out exactly where there is an active account and its document holds one; it is
/// that one, and it tells which server it is for.
pub proof fn the_token_is_that_of_the_active_account(store: AccountStore)
    ensures
        current_token(store) matches Ok(t) ==> {
            &&& store.current_account() matches Some(a) && crate::account::access_token_in(
                a.auth_json@,
            ) == Some(t.0)
            &&& t.1 == crate::text::begins(t.0, "eyJ"@)
        },
        (store.current_account() matches Some(a) && crate::account::access_token_in(
            a.auth_json@,
        ) is Some) ==> current_token(store) is Ok,
        store.current is None ==> current_token(store) == Err::<(Seq<char>, bool), Seq<char>>(
            "No active account"@,
        ),
{
}

/// With a ChatGPT login a path goes to its place at ChatGPT, without the version it begins with;
/// with an API key it goes to the API as it is. The host is that of the address.
pub proof fn where_paths_go(path: Seq<char>)
    ensures
        upstream(true, "/v1"@ + path) == (
            "https://chatgpt.com/backend-api/codex"@ + path,
            "chatgpt.com"@,
        ),
        !crate::text::begins(path, "/v1"@) ==> upstream(true, path) == (
            "https://chatgpt.com/backend-api/codex"@ + path,
            "chatgpt.com"@,
        ),
        upstream(false, path) == ("https://api.openai.com"@ + path, "api.openai.com"@),
{
    let full = "/v1"@ + path;
    assert(full.subrange(0, "/v1"@.len() as int) =~= "/v1"@);
    assert(crate::text::begins(full, "/v1"@));
    assert(full.skip("/v1"@.len() as int) =~= path);
}

/// A WebSocket goes to the same place as a request, by the scheme of its own.
pub proof fn sockets_go_to_the_same_place(rest: Seq<char>)
    requires
        !crate::text::occurs("wss://"@ + rest, "http://"@),
    ensures
        websocket_address("https://"@ + rest) == "wss://"@ + rest,
{
    let url = "https://"@ + rest;
    reveal_strlit("https://");
    assert(url.subrange(0, 8) =~= "https://"@);
    assert(crate::text::stands_at(url, "https://"@, 0));
    assert(url.take(0) + "wss://"@ + url.skip(8) =~= "wss://"@ + rest);
    crate::text::lemma_found_from("wss://"@ + rest, "http://"@, 0);
}

/// A request takes what is asked for: the health of the proxy by its path, a WebSocket by its
/// upgrade header; the header is told by the word in it.
pub proof fn sockets_are_asked_for_by_name(lower: Seq<char>)
    ensures
        asks_for_socket(lower) <==> exists|at: int|
            #[trigger] crate::text::stands_at(lower, "websocket"@, at),
{
}

/// A ban marks the active account and nobody else, and leaves all else of it; there is a notice of
/// it exactly where there is an active account.
pub proof fn bans_mark_the_active_account(
    before: AccountStore,
    after: AccountStore,
    notice: Option<BanNotice>,
    i: int,
)
    requires
        ban_noted(before, after, notice),
        crate::account::distinct_ids(before.accounts@),
        0 <= i < before.accounts@.len(),
    ensures
        after.accounts@.len() == before.accounts@.len(),
        after.current == before.current,
        (before.current matches Some(c) && c@ == before.accounts@[i].id@) ==> {
            &&& after.accounts@[i] == Account { is_banned: true, ..before.accounts@[i] }
            &&& notice matches Some(n) && n.name == before.accounts@[i].name && n.notify
                == before.settings.notify_on_switch
        },
        !(before.current matches Some(c) && c@ == before.accounts@[i].id@) ==> after.accounts@[i]
            == before.accounts@[i],
{
    if let Some(c) = before.current {
        crate::account::lemma_place_from(before.accounts@, c@, 0);
        let p = crate::account::place_from(before.accounts@, c@, 0);
        if p < i {
            assert(before.accounts@[p].id@ != before.accounts@[i].id@);
        }
    }
}

/// The body of an error is a document of the form that clients know, with the status and the
/// message in it.
pub proof fn errors_tell_status_and_message(status: u16, message: Seq<char>)
    ensures
        crate::text::begins(error_body(status, message), "{\"error\":{\"code\":"@),
        crate::text::occurs(error_body(status, message), crate::text::decimal(status as nat)),
        crate::text::occurs(error_body(status, message), crate::json::json_quoted(message)),
{
    let head = "{\"error\":{\"code\":"@;
    let code = crate::text::decimal(status as nat);
    let middle = ",\"message\":"@;
    let said = crate::json::json_quoted(message);
    let body = error_body(status, message);
    assert(body.subrange(0, head.len() as int) =~= head);
    assert(body.subrange(head.len() as int, (head.len() + code.len()) as int) =~= code);
    assert(crate::text::stands_at(body, code, head.len() as int));
    let at = (head.len() + code.len() + middle.len()) as int;
    assert(body.subrange(at, at + said.len()) =~= said);
    assert(crate::text::stands_at(body, said, at));
}

/// Counting goes up by one, and begins again only after the largest count.
pub proof fn counts_go_up_by_one(n: u64)
    ensures
        n < u64::MAX ==> counted(n) == n + 1,
        n == u64::MAX ==> counted(n) == 0,
{
}

pub(crate) proof fn lemma_request_headers(headers: Seq<HeaderView>, host: Seq<char>)
    ensures
        ({
            let theirs = |h: HeaderView|
                crate::text::ascii_lowered(h.0) != "authorization"@ && crate::text::ascii_lowered(
                    h.0,
                ) != "host"@;
            let base = with_header(handed_on(HeaderWay::Request, headers), "host"@, bytes_of(host));
            base.filter(theirs) == headers.filter(theirs) && base.last() == (
                "host"@,
                bytes_of(host),
            )
        }),
{
    let theirs = |h: HeaderView|
        crate::text::ascii_lowered(h.0) != "authorization"@ && crate::text::ascii_lowered(h.0)
            != "host"@;
    lemma_names_in_lower_case();
    let kept = handed_on(HeaderWay::Request, headers);
    requests_keep_their_headers(headers);
    assert(kept == headers.filter(theirs));
    lemma_filter_twice(headers, theirs);
    lemma_filter_after_setting(kept, "host"@, bytes_of(host), theirs);
}


/// The characters that the value of a header may hold, by their numbers: the tab, and from the
/// blank on all but the one for deletion.
pub proof fn header_characters_have_their_numbers(c: char)
    ensures
        header_char(c) <==> c as u32 == 9 || (32 <= c as u32 && c as u32 != 127),
{
}

/// A WebSocket is opened at the same place with its own scheme: the safe one for the safe one, and
/// the plain one for the plain one, as long as the rest of the address holds no scheme.
pub proof fn sockets_have_their_own_schemes(rest: Seq<char>)
    requires
        !crate::text::occurs("wss://"@ + rest, "http://"@),
        !crate::text::occurs("http://"@ + rest, "https://"@),
    ensures
        websocket_address("https://"@ + rest) == "wss://"@ + rest,
        websocket_address("http://"@ + rest) == "ws://"@ + rest,
{
    let none = Seq::<char>::empty();
    assert(none + "https://"@ + rest =~= "https://"@ + rest);
    assert(none + "wss://"@ + rest =~= "wss://"@ + rest);
    crate::text::replacing_keeps_the_rest(none, "https://"@, rest, "wss://"@);
    crate::text::lemma_found_from("wss://"@ + rest, "http://"@, 0);
    assert(none + "http://"@ + rest =~= "http://"@ + rest);
    assert(none + "ws://"@ + rest =~= "ws://"@ + rest);
    crate::text::replacing_keeps_the_rest(none, "http://"@, rest, "ws://"@);
    crate::text::lemma_found_from("http://"@ + rest, "https://"@, 0);
}

} // verus!
