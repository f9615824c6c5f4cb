//! Signing in through the browser: the address that is opened, and the request that comes back.
use crate::account::{Account, KeepaliveState, TokenResponse};
use crate::clock::{rfc3339, shift, Timestamp};
use crate::json::{Json, JsonView};
use crate::text::{concat2, concat3, eq_str, from_utf8_lossy, lines, show_u64, split_whitespace};
use vstd::prelude::*;

verus! {

/// The port that the browser is sent back to.
pub const DEFAULT_PORT: u16 = 1455;

/// For how many seconds the browser is waited for.
pub const CALLBACK_SECS: u64 = 180;

// ---------------------------------------------------------------------------
// The address that is opened
// ---------------------------------------------------------------------------

/// What `base64` makes of 32 bytes with its engine `URL_SAFE_NO_PAD`.
pub uninterp spec fn base64_url(bytes: Seq<u8>) -> Seq<char>;

/// A character of the URL-safe alphabet of Base64.
pub open spec fn url_safe(c: char) -> bool {
    'A' <= c <= 'Z' || 'a' <= c <= 'z' || '0' <= c <= '9' || c == '-' || c == '_'
}

/// `base64::Engine::encode` with the engine `URL_SAFE_NO_PAD`: a text that depends on the bytes
/// alone, of 43 characters for 32 bytes, each of the URL-safe alphabet.
#[verifier::external_body]
fn encode_base64(bytes: &[u8; 32]) -> (text: String)
    ensures
        text@ == base64_url(bytes@),
        text@.len() == 43,
        forall|i: int| 0 <= i < 43 ==> url_safe(#[trigger] text@[i]),
{
    base64::Engine::encode(&base64::engine::general_purpose::URL_SAFE_NO_PAD, bytes)
}

/// `rand::RngCore::fill_bytes` of `rand::rng`: some 32 bytes.
#[verifier::external_body]
fn random_bytes() -> (bytes: [u8; 32]) {
    let mut bytes = [0u8; 32];
    rand::RngCore::fill_bytes(&mut rand::rng(), &mut bytes);
    bytes
}

/// A text by which the request that comes back is known again: 32 random bytes in Base64.
pub fn generate_state() -> (state: String)
    ensures
        exists|bytes: Seq<u8>| bytes.len() == 32 && state@ == #[trigger] base64_url(bytes),
        state@.len() == 43,
        forall|i: int| 0 <= i < 43 ==> url_safe(#[trigger] state@[i]),
{
    let bytes: [u8; 32] = random_bytes();
    encode_base64(&bytes)
}

/// The address that the browser is sent back to.
pub open spec fn redirect_of(port: u16) -> Seq<char> {
    "http://localhost:"@ + crate::text::decimal(port as nat) + "/auth/callback"@
}

/// The address that the browser is sent back to.
pub fn redirect_uri(port: u16) -> (uri: String)
    ensures
        uri@ == redirect_of(port),
{
    concat3("http://localhost:", show_u64(port as u64).as_str(), "/auth/callback")
}

/// The address that the browser opens: `base` is that of the sign-in page.
pub open spec fn sign_in_address(
    base: Seq<char>,
    client_id: Seq<char>,
    redirect: Seq<char>,
    challenge: Seq<char>,
    state: Seq<char>,
) -> Seq<char> {
    base + "?response_type=code&client_id="@ + client_id + "&redirect_uri="@ + redirect
        + "&scope=openid profile email offline_access&code_challenge="@ + challenge
        + "&code_challenge_method=S256&id_token_add_organizations=true&codex_cli_simplified_flow=true&state="@
        + state + "&originator=codex_vscode"@
}

/// The address that the browser opens.
pub fn auth_url(base: &str, client_id: &str, redirect: &str, challenge: &str, state: &str) -> (url:
    String)
    ensures
        url@ == sign_in_address(base@, client_id@, redirect@, challenge@, state@),
{
    let mut url: String = concat3(base, "?response_type=code&client_id=", client_id);
    url.append("&redirect_uri=");
    url.append(redirect);
    url.append("&scope=openid profile email offline_access&code_challenge=");
    url.append(challenge);
    url.append(
        "&code_challenge_method=S256&id_token_add_organizations=true&codex_cli_simplified_flow=true&state=",
    );
    url.append(state);
    url.append("&originator=codex_vscode");
    url
}

/// The message for when the port is taken.
pub fn bind_failed(error: &str) -> (message: String)
    ensures
        message@ == "Cannot bind to local port "@ + crate::text::decimal(DEFAULT_PORT as nat)
            + ": "@ + error@ + ". Close the process using this port and retry."@,
{
    let mut message: String = concat3(
        "Cannot bind to local port ",
        show_u64(DEFAULT_PORT as u64).as_str(),
        ": ",
    );
    message.append(error);
    message.append(". Close the process using this port and retry.");
    message
}

// ---------------------------------------------------------------------------
// The sign-in that is under way
// ---------------------------------------------------------------------------

/// A sign-in that is under way: what proves that the code is ours, and where the browser is sent
/// back to.
#[derive(Debug)]
pub struct PendingLogin {
    pub code_verifier: String,
    pub port: u16,
}

/// The sign-in that is under way, where there is one.
#[derive(Debug)]
pub struct LoginFlow {
    pub pending: Option<PendingLogin>,
}

impl LoginFlow {
    /// Begins a sign-in, in place of any other.
    pub fn start_oauth_login(&mut self, code_verifier: String, port: u16)
        ensures
            final(self).pending == Some(PendingLogin { code_verifier, port }),
    {
        self.pending = Some(PendingLogin { code_verifier, port });
    }

    /// Ends the sign-in that is under way: what the code is exchanged with, and the address that
    /// the browser was sent back to.
    pub fn complete_oauth_login(&mut self) -> (exchange: Result<(String, String), String>)
        ensures
            final(self).pending is None,
            match old(self).pending {
                Some(p) => exchange matches Ok(x) && x.0 == p.code_verifier && x.1@ == redirect_of(
                    p.port,
                ),
                None => exchange matches Err(e) && e@ == "Login flow expired or not started"@,
            },
    {
        match self.pending.take() {
            Some(p) => Ok((p.code_verifier, redirect_uri(p.port))),
            None => Err("Login flow expired or not started".to_owned()),
        }
    }
}

// ---------------------------------------------------------------------------
// The request that comes back
// ---------------------------------------------------------------------------

/// What the pairs of a query say.
pub open spec fn pair_list(pairs: Seq<(String, String)>) -> Seq<(Seq<char>, Seq<char>)> {
    pairs.map_values(|p: (String, String)| (p.0@, p.1@))
}

/// What `url` reads out of the query of an address.
pub uninterp spec fn query_of(address: Seq<char>) -> Option<Seq<(Seq<char>, Seq<char>)>>;

/// `url::Url::parse`, then `url::Url::query_pairs`: the names and values of the query of an
/// address, in their order, or nothing where the address is none. They depend on the address alone.
#[verifier::external_body]
fn read_query(address: &str) -> (pairs: Option<Vec<(String, String)>>)
    ensures
        query_of(address@) == match pairs {
            Some(p) => Some(pair_list(p@)),
            None => None,
        },
{
    url::Url::parse(address).ok().map(|u| u.query_pairs().into_owned().collect())
}

/// The value of a name; of several, the last one counts.
pub open spec fn last_value(pairs: Seq<(Seq<char>, Seq<char>)>, name: Seq<char>) -> Option<Seq<char>>
    decreases pairs.len(),
{
    if pairs.len() == 0 {
        None
    } else if pairs.last().0 == name {
        Some(pairs.last().1)
    } else {
        last_value(pairs.drop_last(), name)
    }
}

/// The code of a query that is known again by its state.
pub open spec fn code_in(pairs: Seq<(Seq<char>, Seq<char>)>, state: Seq<char>) -> Option<Seq<char>> {
    if last_value(pairs, "state"@) == Some(state) {
        last_value(pairs, "code"@)
    } else {
        None
    }
}

/// The target of a request, from its first line.
pub open spec fn request_target(request: Seq<char>) -> Option<Seq<char>> {
    let list = crate::text::line_list(request);
    let words = crate::text::word_list(
        if list.len() > 0 {
            list[0]
        } else {
            Seq::empty()
        },
    );
    if words.len() > 1 {
        Some(words[1])
    } else {
        None
    }
}

/// The code of a request that is known again by its state.
pub open spec fn code_of_request(request: Seq<char>, state: Seq<char>) -> Option<Seq<char>> {
    match request_target(request) {
        None => None,
        Some(target) => match query_of("http://localhost"@ + target) {
            None => None,
            Some(pairs) => code_in(pairs, state),
        },
    }
}

fn find_last(pairs: &Vec<(String, String)>, name: &str) -> (value: Option<String>)
    ensures
        crate::json::opt_text(value) == last_value(pair_list(pairs@), name@),
{
    let ghost all = pair_list(pairs@);
    let mut n: usize = pairs.len();
    assert(all.take(n as int) =~= all);
    while n > 0
        invariant
            n <= pairs@.len(),
            all == pair_list(pairs@),
            last_value(all, name@) == last_value(all.take(n as int), name@),
        decreases n,
    {
        assert(all.take(n as int).drop_last() =~= all.take(n - 1));
        assert(all.take(n as int).last() == (pairs@[n - 1].0@, pairs@[n - 1].1@));
        if eq_str(pairs[n - 1].0.as_str(), name) {
            return Some(pairs[n - 1].1.clone());
        }
        n -= 1;
    }
    None
}

/// The code of a query that is known again by its state.
pub fn code_from_pairs(pairs: &Vec<(String, String)>, expected_state: &str) -> (code: Option<String>)
    ensures
        crate::json::opt_text(code) == code_in(pair_list(pairs@), expected_state@),
{
    match (find_last(pairs, "code"), find_last(pairs, "state")) {
        (Some(code), Some(state)) => if eq_str(state.as_str(), expected_state) {
            Some(code)
        } else {
            None
        },
        _ => None,
    }
}

/// The target of a request, from its first line.
pub fn target_of(request: &str) -> (target: Option<String>)
    ensures
        crate::json::opt_text(target) == request_target(request@),
{
    let list: Vec<String> = lines(request);
    let ghost all = crate::text::line_list(request@);
    assert(all.len() == list@.len());
    proof {
        reveal_strlit("");
    }
    assert(""@ =~= Seq::<char>::empty());
    let first: String = if list.len() > 0 {
        assert(all[0] == list@[0]@);
        list[0].clone()
    } else {
        "".to_owned()
    };
    let words: Vec<String> = split_whitespace(first.as_str());
    let ghost said = crate::text::word_list(first@);
    assert(said.len() == words@.len());
    if words.len() > 1 {
        assert(said[1] == words@[1]@);
        Some(words[1].clone())
    } else {
        None
    }
}

/// The code of a request that is known again by its state.
pub fn extract_oauth_code_from_request(request: &str, expected_state: &str) -> (code: Option<
    String,
>)
    ensures
        crate::json::opt_text(code) == code_of_request(request@, expected_state@),
{
    match target_of(request) {
        None => None,
        Some(target) => {
            let address: String = concat2("http://localhost", target.as_str());
            match read_query(address.as_str()) {
                None => None,
                Some(pairs) => code_from_pairs(&pairs, expected_state),
            }
        },
    }
}

/// What is done about a request: nothing where it is empty, else it is answered; with a code, the
/// sign-in goes on and no more requests are waited for.
#[derive(Debug)]
pub struct CallbackStep {
    pub response: Option<String>,
    pub code: Option<String>,
}

/// What is done about a request.
pub open spec fn callback_done(request: Seq<u8>, state: Seq<char>, step: CallbackStep) -> bool {
    if request.len() == 0 {
        step.response is None && step.code is None
    } else {
        let code = code_of_request(crate::text::lossy_text(request), state);
        &&& crate::json::opt_text(step.code) == code
        &&& crate::json::opt_text(step.response) == Some(
            if code is Some {
                "HTTP/1.1 200 OK\r\nContent-Type: text/html; charset=utf-8\r\n\r\n<html><body><h1>Authorization Successful</h1><p>Connected to OpenAI successfully. You may close this window and return to the app.</p><script>setTimeout(() => window.close(), 3000)</script></body></html>"@
            } else {
                "HTTP/1.1 400 Bad Request\r\n\r\nAuthorization failed: State verification failed or missing parameters"@
            },
        )
    }
}

/// What is done about a request.
pub fn handle_callback(request: &[u8], expected_state: &str) -> (step: CallbackStep)
    ensures
        callback_done(request@, expected_state@, step),
{
    if request.len() == 0 {
        return CallbackStep { response: None, code: None };
    }
    let text: String = from_utf8_lossy(request);
    match extract_oauth_code_from_request(text.as_str(), expected_state) {
        Some(code) => CallbackStep {
            response: Some(
                "HTTP/1.1 200 OK\r\nContent-Type: text/html; charset=utf-8\r\n\r\n<html><body><h1>Authorization Successful</h1><p>Connected to OpenAI successfully. You may close this window and return to the app.</p><script>setTimeout(() => window.close(), 3000)</script></body></html>".to_owned(),
            ),
            code: Some(code),
        },
        None => CallbackStep {
            response: Some(
                "HTTP/1.1 400 Bad Request\r\n\r\nAuthorization failed: State verification failed or missing parameters".to_owned(),
            ),
            code: None,
        },
    }
}

/// A code is taken only from a query that carries the expected state.
pub proof fn codes_need_the_state(pairs: Seq<(Seq<char>, Seq<char>)>, state: Seq<char>)
    requires
        code_in(pairs, state) is Some,
    ensures
        last_value(pairs, "state"@) == Some(state),
        last_value(pairs, "code"@) is Some,
{
}

// ---------------------------------------------------------------------------
// The new account
// ---------------------------------------------------------------------------

/// Who has signed in.
#[derive(Debug)]
pub struct UserInfo {
    pub email: String,
    pub account_id: Option<String>,
}

/// A string, or null where there is none.
pub open spec fn text_or_null(text: Option<Seq<char>>) -> JsonView {
    match text {
        Some(t) => JsonView::Str(t),
        None => JsonView::Null,
    }
}

/// When the access token ends, as text.
pub open spec fn expiry_text(tokens: TokenResponse, now: Timestamp) -> Option<Seq<char>> {
    match crate::account::expiry(tokens, now) {
        Some(t) => Some(crate::clock::rfc3339_text(t.secs, t.nanos)),
        None => None,
    }
}

/// The login document of a sign-in.
pub open spec fn document_of(
    tokens: TokenResponse,
    account_id: Option<Seq<char>>,
    now: Timestamp,
) -> JsonView {
    let none = JsonView::Object(Map::empty());
    let a = crate::json::with_field(none, "access_token"@, JsonView::Str(tokens.access_token@));
    let b = crate::json::with_field(
        a,
        "refresh_token"@,
        text_or_null(crate::json::opt_text(tokens.refresh_token)),
    );
    let c = crate::json::with_field(
        b,
        "id_token"@,
        text_or_null(crate::json::opt_text(tokens.id_token)),
    );
    let d = crate::json::with_field(c, "account_id"@, text_or_null(account_id));
    let e = crate::json::with_field(d, "expires_at"@, text_or_null(expiry_text(tokens, now)));
    crate::json::with_field(
        crate::json::with_field(none, "tokens"@, e),
        "last_refresh"@,
        JsonView::Str(crate::clock::rfc3339_text(now.secs, now.nanos)),
    )
}

fn json_text(text: &Option<String>) -> (json: Json)
    ensures
        json@ == text_or_null(crate::json::opt_text(*text)),
{
    match text {
        Some(t) => Json::Str(t.clone()),
        None => Json::Null,
    }
}

/// The login document of a sign-in.
pub fn login_document(tokens: &TokenResponse, account_id: &Option<String>, now: Timestamp) -> (
    document: Json)
    requires
        now.in_calendar(),
    ensures
        document@ == document_of(*tokens, crate::json::opt_text(*account_id), now),
{
    let expires_at: Option<String> = match tokens.expires_in {
        Some(secs) => match shift(now, secs) {
            Some(t) => Some(rfc3339(t)),
            None => None,
        },
        None => None,
    };
    let mut inner: Json = Json::Object(Vec::new());
    inner.insert("access_token", Json::Str(tokens.access_token.clone()));
    inner.insert("refresh_token", json_text(&tokens.refresh_token));
    inner.insert("id_token", json_text(&tokens.id_token));
    inner.insert("account_id", json_text(account_id));
    inner.insert("expires_at", json_text(&expires_at));
    let mut document: Json = Json::Object(Vec::new());
    document.insert("tokens", inner);
    document.insert("last_refresh", Json::Str(rfc3339(now)));
    document
}

/// The account of a sign-in, under the id `id` and with the keepalive that new accounts begin
/// with; none where it could not be kept alive or nobody is named.
pub fn finalize_oauth_login(
    tokens: &TokenResponse,
    user: &Option<UserInfo>,
    id: &str,
    keepalive: KeepaliveState,
    now: Timestamp,
) -> (account: Result<Account, String>)
    requires
        now.in_calendar(),
    ensures
        match (tokens.refresh_token, *user) {
            (None, _) => account matches Err(e) && e@
                == "OAuth did not return refresh_token, cannot auto-renew"@,
            (Some(_), None) => account matches Err(e) && e@
                == "Failed to parse user info from authorization response (Missing ID Token)"@,
            (Some(rt), Some(u)) => account matches Ok(a) && a.id@ == id@ && a.name == u.email
                && a.email == Some(u.email) && a.auth_json@ == document_of(
                *tokens,
                crate::json::opt_text(u.account_id),
                now,
            ) && a.refresh_token == Some(rt) && a.created_at == now && a.last_used is None
                && crate::json::opt_text(a.notes) == Some("OpenAI OAuth Login"@)
                && a.cached_quota is None && a.keepalive == keepalive && a.usable(),
        },
{
    let refresh_token: String = match &tokens.refresh_token {
        Some(rt) => rt.clone(),
        None => {
            return Err("OAuth did not return refresh_token, cannot auto-renew".to_owned());
        },
    };
    match user {
        None => Err(
            "Failed to parse user info from authorization response (Missing ID Token)".to_owned(),
        ),
        Some(u) => Ok(
            Account {
                id: id.to_owned(),
                name: u.email.clone(),
                auth_json: login_document(tokens, &u.account_id, now),
                email: Some(u.email.clone()),
                refresh_token: Some(refresh_token),
                created_at: now,
                last_used: None,
                notes: Some("OpenAI OAuth Login".to_owned()),
                cached_quota: None,
                keepalive,
                is_banned: false,
                is_token_invalid: false,
                is_logged_out: false,
            },
        ),
    }
}

/// The account of a sign-in can be used at once: its document holds the tokens that the sign-in
/// brought, and its identity.
pub proof fn sign_in_documents_are_complete(
    tokens: TokenResponse,
    account_id: Option<Seq<char>>,
    now: Timestamp,
)
    ensures
        crate::account::access_token_in(document_of(tokens, account_id, now)) == Some(
            tokens.access_token@,
        ),
        crate::account::refresh_token_in(document_of(tokens, account_id, now))
            == crate::json::opt_text(tokens.refresh_token),
        crate::account::account_id_in(document_of(tokens, account_id, now)) == account_id,
{
    reveal_strlit("access_token");
    reveal_strlit("refresh_token");
    reveal_strlit("id_token");
    reveal_strlit("account_id");
    reveal_strlit("expires_at");
    reveal_strlit("tokens");
    reveal_strlit("last_refresh");
    assert("access_token"@[0] != "refresh_token"@[0]);
    assert("id_token"@.len() == 8 && "account_id"@.len() == 10 && "expires_at"@.len() == 10);
    assert("access_token"@.len() == 12 && "refresh_token"@.len() == 13);
    assert("account_id"@[0] != "expires_at"@[0]);
    assert("tokens"@.len() == 6 && "last_refresh"@.len() == 12);
}


/// Of several values of a name the last one counts; without one there is none.
pub proof fn the_last_value_counts(pairs: Seq<(Seq<char>, Seq<char>)>, name: Seq<char>)
    ensures
        last_value(pairs, name) is None <==> forall|i: int|
            0 <= i < pairs.len() ==> (#[trigger] pairs[i]).0 != name,
        last_value(pairs, name) matches Some(v) ==> exists|i: int|
            {
                &&& 0 <= i < pairs.len()
                &&& #[trigger] pairs[i] == (name, v)
                &&& forall|k: int| i < k < pairs.len() ==> (#[trigger] pairs[k]).0 != name
            },
    decreases pairs.len(),
{
    if pairs.len() > 0 {
        let rest = pairs.drop_last();
        let last = pairs.len() - 1;
        assert(pairs[last] == pairs.last());
        the_last_value_counts(rest, name);
        if pairs.last().0 != name {
            if let Some(v) = last_value(rest, name) {
                let i = choose|i: int|
                    {
                        &&& 0 <= i < rest.len()
                        &&& #[trigger] rest[i] == (name, v)
                        &&& forall|k: int| i < k < rest.len() ==> (#[trigger] rest[k]).0 != name
                    };
                assert(pairs[i] == rest[i]);
                assert forall|k: int| i < k < pairs.len() implies (#[trigger] pairs[k]).0
                    != name by {
                    if k < last {
                        assert(pairs[k] == rest[k]);
                    }
                }
            } else {
                assert forall|k: int| 0 <= k < pairs.len() implies (#[trigger] pairs[k]).0
                    != name by {
                    if k < last {
                        assert(pairs[k] == rest[k]);
                    }
                }
            }
        } else {
            assert(pairs[last] == (name, pairs.last().1));
        }
    }
}

/// A query that ends with a code and the state that is waited for gives that code; with any other
/// state it gives none, and neither does one without a state.
pub proof fn codes_go_with_their_state(
    pairs: Seq<(Seq<char>, Seq<char>)>,
    code: Seq<char>,
    state: Seq<char>,
    waited: Seq<char>,
)
    ensures
        code_in(pairs.push(("code"@, code)).push(("state"@, state)), state) == Some(code),
        code_in(pairs.push(("state"@, state)).push(("code"@, code)), state) == Some(code),
        state != waited ==> code_in(
            pairs.push(("code"@, code)).push(("state"@, state)),
            waited,
        ) is None,
        (forall|i: int| 0 <= i < pairs.len() ==> (#[trigger] pairs[i]).0 != "state"@) ==> code_in(
            pairs,
            waited,
        ) is None,
        (forall|i: int| 0 <= i < pairs.len() ==> (#[trigger] pairs[i]).0 != "code"@) ==> code_in(
            pairs,
            waited,
        ) is None,
{
    reveal_strlit("code");
    reveal_strlit("state");
    assert("code"@.len() == 4 && "state"@.len() == 5);
    reveal_with_fuel(last_value, 3);
    let c = pairs.push(("code"@, code));
    let s = pairs.push(("state"@, state));
    assert(c.push(("state"@, state)).drop_last() =~= c);
    assert(s.push(("code"@, code)).drop_last() =~= s);
    the_last_value_counts(pairs, "state"@);
    the_last_value_counts(pairs, "code"@);
}

/// The target of a request is what stands between the first two blanks of its first line.
pub proof fn targets_stand_behind_the_method(method: Seq<char>, target: Seq<char>, tail: Seq<char>)
    requires
        method.len() > 0,
        target.len() > 0,
        forall|i: int| 0 <= i < method.len() ==> !crate::text::white(#[trigger] method[i]),
        forall|i: int| 0 <= i < target.len() ==> !crate::text::white(#[trigger] target[i]),
    ensures
        request_target(method + seq![' '] + target + seq![' '] + tail) == Some(target),
{
    let head = method + seq![' '] + target + seq![' '];
    let s = head + tail;
    crate::text::lemma_next_of(tail, '\n', 0);
    let e = crate::text::next_of(tail, '\n', 0);
    let part = tail.take(e);
    let line = head + part;
    assert(crate::text::one_line(line)) by {
        assert forall|i: int| 0 <= i < line.len() implies #[trigger] line[i] != '\n' by {
            if i < method.len() {
                assert(line[i] == method[i]);
            } else if method.len() < i < method.len() + 1 + target.len() {
                assert(line[i] == target[i - method.len() - 1]);
            } else if i >= head.len() {
                assert(line[i] == tail[i - head.len()]);
            }
        }
    }
    let rest = if part.len() > 0 && part.last() == '\r' {
        part.drop_last()
    } else {
        part
    };
    let first = crate::text::line_list(s)[0];
    if e < tail.len() {
        assert(s =~= line + seq!['\n'] + tail.skip(e + 1));
        crate::text::lemma_first_line(line, tail.skip(e + 1));
        assert(head.last() == ' ');
        if part.len() > 0 {
            assert(line.last() == part.last());
        } else {
            assert(line =~= head);
        }
        assert(first =~= head + rest);
    } else {
        assert(part =~= tail);
        assert(line =~= s);
        crate::text::lemma_next_of(s, '\n', 0);
        let end = crate::text::next_of(s, '\n', 0);
        if end < s.len() {
            assert(line[end] != '\n');
        }
        assert(crate::text::line_list(s) =~= seq![s.subrange(0, s.len() as int)]);
        assert(s.subrange(0, s.len() as int) =~= s);
        assert(first =~= head + tail);
    }
    let behind = if e < tail.len() {
        rest
    } else {
        tail
    };
    assert(first == head + behind);
    assert(head + behind =~= method + seq![' '] + (target + seq![' '] + behind));
    crate::text::words_stand_between_white_space(method, ' ', target + seq![' '] + behind);
    crate::text::words_stand_between_white_space(target, ' ', behind);
    assert(crate::text::word_list(first) =~= seq![method] + (seq![target]
        + crate::text::word_list(behind)));
}

/// A request is answered unless it is empty. The sign-in goes on just where the request holds a
/// code, and only then is the browser told that all went well.
pub proof fn what_the_browser_is_told(request: Seq<u8>, state: Seq<char>, step: CallbackStep)
    requires
        callback_done(request, state, step),
    ensures
        request.len() == 0 ==> step.response is None && step.code is None,
        request.len() > 0 ==> step.response is Some,
        step.code matches Some(c) ==> code_of_request(crate::text::lossy_text(request), state)
            == Some(c@) && crate::text::begins(step.response->0@, "HTTP/1.1 200 "@),
        request.len() > 0 && step.code is None ==> code_of_request(
            crate::text::lossy_text(request),
            state,
        ) is None && crate::text::begins(step.response->0@, "HTTP/1.1 400 "@),
{
    reveal_strlit("HTTP/1.1 200 ");
    reveal_strlit("HTTP/1.1 400 ");
    reveal_strlit(
        "HTTP/1.1 200 OK\r\nContent-Type: text/html; charset=utf-8\r\n\r\n<html><body><h1>Authorization Successful</h1><p>Connected to OpenAI successfully. You may close this window and return to the app.</p><script>setTimeout(() => window.close(), 3000)</script></body></html>",
    );
    reveal_strlit(
        "HTTP/1.1 400 Bad Request\r\n\r\nAuthorization failed: State verification failed or missing parameters",
    );
    if step.code is Some {
        let r = step.response->0@;
        assert(r.subrange(0, 0 + "HTTP/1.1 200 "@.len() as int) =~= "HTTP/1.1 200 "@);
    } else if request.len() > 0 {
        let r = step.response->0@;
        assert(r.subrange(0, 0 + "HTTP/1.1 400 "@.len() as int) =~= "HTTP/1.1 400 "@);
    }
}

/// The code of a request is that of the query of its target at this machine.
pub proof fn codes_are_those_of_the_target(request: Seq<char>, state: Seq<char>)
    ensures
        request_target(request) is None ==> code_of_request(request, state) is None,
        request_target(request) matches Some(t) ==> {
            &&& query_of("http://localhost"@ + t) is None ==> code_of_request(request, state) is None
            &&& query_of("http://localhost"@ + t) matches Some(pairs) ==> {
                &&& last_value(pairs, "state"@) != Some(state) ==> code_of_request(
                    request,
                    state,
                ) is None
                &&& last_value(pairs, "state"@) == Some(state) ==> code_of_request(request, state)
                    == last_value(pairs, "code"@)
            }
        },
{
}

/// The address that the browser opens carries the client, the address to come back to, the
/// challenge and the state, each under its own name.
pub proof fn sign_in_addresses_carry_everything(
    base: Seq<char>,
    client_id: Seq<char>,
    redirect: Seq<char>,
    challenge: Seq<char>,
    state: Seq<char>,
)
    ensures
        ({
            let url = sign_in_address(base, client_id, redirect, challenge, state);
            &&& crate::text::begins(url, base + "?"@)
            &&& crate::text::occurs(url, "&client_id="@ + client_id + "&redirect_uri="@)
            &&& crate::text::occurs(url, "&redirect_uri="@ + redirect + "&scope="@)
            &&& crate::text::occurs(
                url,
                "&code_challenge="@ + challenge + "&code_challenge_method=S256&"@,
            )
            &&& crate::text::occurs(url, "&state="@ + state + "&originator="@)
        }),
{
    let url = sign_in_address(base, client_id, redirect, challenge, state);
    let l1 = "?response_type=code&client_id="@;
    let l2 = "&redirect_uri="@;
    let l3 = "&scope=openid profile email offline_access&code_challenge="@;
    let l4 =
        "&code_challenge_method=S256&id_token_add_organizations=true&codex_cli_simplified_flow=true&state="@;
    let l5 = "&originator=codex_vscode"@;
    reveal_strlit("?response_type=code&client_id=");
    reveal_strlit("&redirect_uri=");
    reveal_strlit("&scope=openid profile email offline_access&code_challenge=");
    reveal_strlit(
        "&code_challenge_method=S256&id_token_add_organizations=true&codex_cli_simplified_flow=true&state=",
    );
    reveal_strlit("&originator=codex_vscode");
    reveal_strlit("?");
    reveal_strlit("&client_id=");
    reveal_strlit("&scope=");
    reveal_strlit("&code_challenge=");
    reveal_strlit("&code_challenge_method=S256&");
    reveal_strlit("&state=");
    reveal_strlit("&originator=");
    // where each part stands
    let p1 = base.len() + 19;
    let p2 = base.len() + l1.len() + client_id.len();
    let p3 = p2 + l2.len() + redirect.len() + 42;
    let p4 = p2 + l2.len() + redirect.len() + l3.len() + challenge.len() + (l4.len() - 7);
    let s1 = "&client_id="@ + client_id + "&redirect_uri="@;
    let s2 = "&redirect_uri="@ + redirect + "&scope="@;
    let s3 = "&code_challenge="@ + challenge + "&code_challenge_method=S256&"@;
    let s4 = "&state="@ + state + "&originator="@;
    assert(url.subrange(0, 0 + (base + "?"@).len() as int) =~= base + "?"@);
    assert(url.subrange(p1 as int, p1 as int + s1.len()) =~= s1);
    assert(crate::text::stands_at(url, s1, p1 as int));
    assert(url.subrange(p2 as int, p2 as int + s2.len()) =~= s2);
    assert(crate::text::stands_at(url, s2, p2 as int));
    assert(url.subrange(p3 as int, p3 as int + s3.len()) =~= s3);
    assert(crate::text::stands_at(url, s3, p3 as int));
    assert(url.subrange(p4 as int, p4 as int + s4.len()) =~= s4);
    assert(crate::text::stands_at(url, s4, p4 as int));
}

/// The browser is sent back to this machine, at the port that is listened at.
pub proof fn browsers_come_back_to_the_port(port: u16)
    ensures
        crate::text::begins(redirect_of(port), "http://localhost:"@),
        redirect_of(port).skip("http://localhost:"@.len() as int) == crate::text::decimal(
            port as nat,
        ) + "/auth/callback"@,
{
    let r = redirect_of(port);
    assert(r.subrange(0, 0 + "http://localhost:"@.len() as int) =~= "http://localhost:"@);
    assert(r.skip("http://localhost:"@.len() as int) =~= crate::text::decimal(port as nat)
        + "/auth/callback"@);
}

/// The login document of a sign-in holds under its names what the sign-in brought: the tokens, with
/// null for what is missing, when the access token ends, and when all this was.
pub proof fn sign_in_documents_hold_what_came(
    tokens: TokenResponse,
    account_id: Option<Seq<char>>,
    now: Timestamp,
)
    ensures
        ({
            let document = document_of(tokens, account_id, now);
            let inner = crate::json::field(document, "tokens"@)->0;
            &&& crate::json::field(document, "last_refresh"@) == Some(
                JsonView::Str(crate::clock::rfc3339_text(now.secs, now.nanos)),
            )
            &&& crate::json::field(document, "tokens"@) is Some
            &&& crate::json::field(inner, "access_token"@) == Some(
                JsonView::Str(tokens.access_token@),
            )
            &&& tokens.refresh_token is None ==> crate::json::field(inner, "refresh_token"@)
                == Some(JsonView::Null)
            &&& tokens.refresh_token is Some ==> crate::json::field(inner, "refresh_token"@)
                == Some(JsonView::Str(tokens.refresh_token->0@))
            &&& tokens.id_token is None ==> crate::json::field(inner, "id_token"@) == Some(
                JsonView::Null,
            )
            &&& tokens.id_token is Some ==> crate::json::field(inner, "id_token"@) == Some(
                JsonView::Str(tokens.id_token->0@),
            )
            &&& account_id is None ==> crate::json::field(inner, "account_id"@) == Some(
                JsonView::Null,
            )
            &&& account_id is Some ==> crate::json::field(inner, "account_id"@) == Some(
                JsonView::Str(account_id->0),
            )
            &&& tokens.expires_in is None ==> crate::json::field(inner, "expires_at"@) == Some(
                JsonView::Null,
            )
            &&& tokens.expires_in is Some && -8_334_601_228_800 <= now.secs + tokens.expires_in->0
                <= 8_210_266_876_799 ==> crate::json::field(inner, "expires_at"@) == Some(
                JsonView::Str(
                    crate::clock::rfc3339_text(
                        (now.secs + tokens.expires_in->0) as i64,
                        now.nanos,
                    ),
                ),
            )
        }),
{
    reveal_strlit("access_token");
    reveal_strlit("refresh_token");
    reveal_strlit("id_token");
    reveal_strlit("account_id");
    reveal_strlit("expires_at");
    reveal_strlit("tokens");
    reveal_strlit("last_refresh");
    assert("access_token"@[0] != "refresh_token"@[0]);
    assert("id_token"@.len() == 8 && "account_id"@.len() == 10 && "expires_at"@.len() == 10);
    assert("access_token"@.len() == 12 && "refresh_token"@.len() == 13);
    assert("account_id"@[0] != "expires_at"@[0]);
    assert("tokens"@.len() == 6 && "last_refresh"@.len() == 12);
}


/// The characters of the URL-safe alphabet, by their numbers: the capitals, the small letters, the
/// digits, the hyphen and the underscore.
pub proof fn safe_characters_have_their_numbers(c: char)
    ensures
        url_safe(c) <==> 65 <= c as u32 <= 90 || 97 <= c as u32 <= 122 || 48 <= c as u32 <= 57
            || c as u32 == 45 || c as u32 == 95,
{
}

} // verus!
