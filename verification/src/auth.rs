//! The credential lifecycle: expiry tracking, refresh buffering, and the
//! stale-but-usable fallback.
//!
//! The manager wraps an in-memory credential store holding at most one
//! bundle at a time. Time is handed in by the caller as an epoch second;
//! the interactive and headless login flows are external collaborators
//! whose outcome is handed back in as a plain value, so every decision
//! here is specified and proved for each possible outcome. Reading claims
//! out of a token crosses the base64 and JSON boundaries through trusted
//! steps whose results carry names ([`b64_of`], [`utf8_of`],
//! [`claims_of`]), so the whole extraction is pinned, success included, by
//! [`spec_parse_claims`].

use vstd::prelude::*;
use crate::errors::{AuthenticationError, CoreError};
use crate::models::{TeamsTokens, TokensView};
use crate::ordered::{
    count_key, find_pred, key_pos, lemma_count_concat, lemma_key_pos, lemma_key_pos_at,
    lemma_pred_pos, lemma_pred_pos_at, pred_pos,
};
use crate::text::{char_eq, lower_of, seq_has, str_has, to_lower};
use base64::Engine;

verus! {

/// How far before expiry a bundle stops being safely usable for new
/// long-running work: five minutes.
pub const REFRESH_BUFFER_SECS: i64 = 300;

/// The state of the credential bundle at a point in time.
#[derive(Debug, Clone, Copy, PartialEq, Eq, Structural)]
pub enum CredentialState {
    /// No bundle is stored.
    Absent,
    /// The bundle expires comfortably after the buffer window.
    Valid,
    /// The bundle is unexpired but inside the buffer window.
    ExpiringSoon,
    /// The bundle's expiry has passed.
    Expired,
}

/// Classify a bundle against a point in time.
pub open spec fn classify(bundle: Option<TokensView>, now: int) -> CredentialState {
    match bundle {
        Option::None => CredentialState::Absent,
        Option::Some(b) => {
            if b.expires_at - now > REFRESH_BUFFER_SECS as int {
                CredentialState::Valid
            } else if b.expires_at - now > 0 {
                CredentialState::ExpiringSoon
            } else {
                CredentialState::Expired
            }
        },
    }
}

/// In-memory storage for the credential bundle: at most one bundle at a
/// time, replaced whole. Durable persistence is the caller's concern.
#[derive(Debug)]
pub struct TokenStorage {
    current: Option<TeamsTokens>,
}

impl TokenStorage {
    /// The stored bundle, if any.
    pub closed spec fn bundle(&self) -> Option<TokensView> {
        match self.current {
            Option::Some(t) => Option::Some(t@),
            Option::None => Option::None,
        }
    }

    /// Create an empty store.
    pub fn new() -> (r: Self)
        ensures
            r.bundle() is None,
    {
        TokenStorage { current: Option::None }
    }

    /// Store a bundle, fully replacing any previous one.
    pub fn store_tokens(&mut self, tokens: &TeamsTokens)
        ensures
            final(self).bundle() == Option::Some(tokens@),
    {
        self.current = Option::Some(tokens.clone());
    }

    /// Load the stored bundle; a missing bundle is a secret-not-found
    /// error.
    pub fn load_tokens(&self) -> (r: Result<TeamsTokens, CoreError>)
        ensures
            match self.bundle() {
                Option::Some(b) => r is Ok && r.unwrap()@ == b,
                Option::None => r matches Err(CoreError::SecretNotFound(_)),
            },
    {
        match &self.current {
            Option::Some(t) => Result::Ok(t.clone()),
            Option::None => Result::Err(
                CoreError::SecretNotFound(
                    String::from_str("no stored tokens. Run the login flow first."),
                ),
            ),
        }
    }

    /// Whether a bundle is stored and its expiry has not passed. The buffer
    /// window is not applied here.
    pub fn has_valid_tokens(&self, now: i64) -> (r: bool)
        ensures
            r == (match self.bundle() {
                Option::Some(b) => b.expires_at > now as int,
                Option::None => false,
            }),
    {
        match &self.current {
            Option::Some(t) => t.expires_at > now,
            Option::None => false,
        }
    }

    /// Delete the stored bundle; clearing an empty store is not an error.
    pub fn clear_tokens(&mut self)
        ensures
            final(self).bundle() is None,
    {
        self.current = Option::None;
    }
}

/// What `refresh_plan` decides.
#[derive(Debug)]
pub enum RefreshPlan {
    /// The cached bundle is safely usable; no refresh is needed.
    UseCached(TeamsTokens),
    /// The bundle is expiring or expired: attempt a silent refresh.
    NeedsRefresh,
    /// No bundle exists: only an interactive login can help.
    NeedsLogin,
}

/// What applying a refresh outcome yields.
pub ghost enum RefreshOutcome {
    /// The refresh produced a fresh bundle; it replaces the old one.
    Fresh(TokensView),
    /// The refresh failed but the old bundle is still literally unexpired:
    /// it is returned with a warning rather than failing the caller.
    StaleOk(TokensView),
    /// The refresh failed and the old bundle has expired: only an
    /// interactive login can help.
    Failed,
}

/// Apply a refresh outcome to the previously stored bundle.
pub open spec fn spec_apply_refresh(
    b: TokensView,
    now: int,
    outcome: Option<TokensView>,
) -> RefreshOutcome {
    match outcome {
        Option::Some(f) => RefreshOutcome::Fresh(f),
        Option::None => {
            if b.expires_at > now {
                RefreshOutcome::StaleOk(b)
            } else {
                RefreshOutcome::Failed
            }
        },
    }
}

/// Identity and expiry claims read out of a token.
#[derive(Debug, Clone)]
pub struct ClaimInfo {
    /// Issuing tenant id, from the `tid` claim.
    pub tenant_id: String,
    /// Subject id, from the `oid` claim.
    pub user_id: String,
    /// Principal name, from `upn` or `unique_name`, else `unknown`.
    pub user_principal_name: String,
    /// Expiry epoch second, from the `exp` claim.
    pub expires_at: i64,
}

/// Mathematical view of a claim record.
pub ghost struct ClaimInfoView {
    pub tenant_id: Seq<char>,
    pub user_id: Seq<char>,
    pub user_principal_name: Seq<char>,
    pub expires_at: int,
}

impl View for ClaimInfo {
    type V = ClaimInfoView;

    open spec fn view(&self) -> ClaimInfoView {
        ClaimInfoView {
            tenant_id: self.tenant_id@,
            user_id: self.user_id@,
            user_principal_name: self.user_principal_name@,
            expires_at: self.expires_at as int,
        }
    }
}

/// What standard-alphabet base64 decoding returns for a text, or nothing
/// when the text is not canonical base64; a function of the text alone.
pub uninterp spec fn b64_of(s: Seq<char>) -> Option<Seq<u8>>;

/// Relies on `base64::Engine::decode` with the standard alphabet: the
/// decoded bytes, or nothing when the input is not canonical base64.
#[verifier::external_body]
fn b64_decode(s: &str) -> (r: Option<Vec<u8>>)
    ensures
        match r {
            Option::Some(v) => b64_of(s@) == Option::Some(v@),
            Option::None => b64_of(s@) is None,
        },
{
    base64::engine::general_purpose::STANDARD.decode(s).ok()
}

/// What reading bytes as text returns, or nothing when they are not valid
/// UTF-8; a function of the bytes alone.
pub uninterp spec fn utf8_of(v: Seq<u8>) -> Option<Seq<char>>;

/// Relies on `String::from_utf8`: the bytes as text, or nothing when they
/// are not valid UTF-8.
#[verifier::external_body]
fn utf8_string(v: Vec<u8>) -> (r: Option<String>)
    ensures
        match r {
            Option::Some(t) => utf8_of(v@) == Option::Some(t@),
            Option::None => utf8_of(v@) is None,
        },
{
    String::from_utf8(v).ok()
}

/// The view of an optional string.
pub open spec fn opt_str_view(o: Option<String>) -> Option<Seq<char>> {
    match o {
        Option::Some(t) => Option::Some(t@),
        Option::None => Option::None,
    }
}

/// The view of an optional integer.
pub open spec fn opt_i64_view(o: Option<i64>) -> Option<int> {
    match o {
        Option::Some(x) => Option::Some(x as int),
        Option::None => Option::None,
    }
}

/// What the claim set embedded in a payload text holds — the `tid`,
/// `oid`, `upn`, `unique_name` and `exp` members — or nothing when the
/// text is not a JSON record; a function of the text alone.
pub uninterp spec fn claims_of(s: Seq<char>) -> Option<
    (Option<Seq<char>>, Option<Seq<char>>, Option<Seq<char>>, Option<Seq<char>>, Option<int>),
>;

/// Relies on `serde_json::from_str` and the `Value` accessors `get`,
/// `as_str` and `as_i64`, reading the fixed claim set out of the payload
/// text; the result is a function of the text alone.
#[verifier::external_body]
fn read_claims(payload: &str) -> (r: Option<
    (Option<String>, Option<String>, Option<String>, Option<String>, Option<i64>),
>)
    ensures
        match r {
            Option::Some(c) => claims_of(payload@) == Option::Some(
                (
                    opt_str_view(c.0),
                    opt_str_view(c.1),
                    opt_str_view(c.2),
                    opt_str_view(c.3),
                    opt_i64_view(c.4),
                ),
            ),
            Option::None => claims_of(payload@) is None,
        },
{
    let v: serde_json::Value = match serde_json::from_str(payload) {
        Ok(v) => v,
        Err(_) => return None,
    };
    Some((
        v.get("tid").and_then(|x| x.as_str()).map(|t| t.to_string()),
        v.get("oid").and_then(|x| x.as_str()).map(|t| t.to_string()),
        v.get("upn").and_then(|x| x.as_str()).map(|t| t.to_string()),
        v.get("unique_name").and_then(|x| x.as_str()).map(|t| t.to_string()),
        v.get("exp").and_then(|x| x.as_i64()),
    ))
}

/// What the session claim set embedded in a payload text holds — the
/// `skypeid`, `iat` and `exp` members — or nothing when the text is not a
/// JSON record; a function of the text alone.
pub uninterp spec fn session_claims_of(s: Seq<char>) -> Option<
    (Option<Seq<char>>, Option<int>, Option<int>),
>;

/// Relies on `serde_json::from_str` and the `Value` accessors `get`,
/// `as_str` and `as_i64`, reading the fixed session claim set out of the
/// payload text; the result is a function of the text alone.
#[verifier::external_body]
fn read_session_claims(payload: &str) -> (r: Option<
    (Option<String>, Option<i64>, Option<i64>),
>)
    ensures
        match r {
            Option::Some(c) => session_claims_of(payload@) == Option::Some(
                (opt_str_view(c.0), opt_i64_view(c.1), opt_i64_view(c.2)),
            ),
            Option::None => session_claims_of(payload@) is None,
        },
{
    let v: serde_json::Value = match serde_json::from_str(payload) {
        Ok(v) => v,
        Err(_) => return None,
    };
    Some((
        v.get("skypeid").and_then(|x| x.as_str()).map(|t| t.to_string()),
        v.get("iat").and_then(|x| x.as_i64()),
        v.get("exp").and_then(|x| x.as_i64()),
    ))
}

/// What the `secret` member of a stored token record holds, or nothing
/// when the text is not a JSON record carrying one; a function of the
/// text alone.
pub uninterp spec fn secret_of(s: Seq<char>) -> Option<Seq<char>>;

/// Relies on `serde_json::from_str` and the `Value` accessors `get` and
/// `as_str`, reading the `secret` member of a stored token record; the
/// result is a function of the text alone.
#[verifier::external_body]
fn read_secret(token_json: &str) -> (r: Option<String>)
    ensures
        match r {
            Option::Some(t) => secret_of(token_json@) == Option::Some(t@),
            Option::None => secret_of(token_json@) is None,
        },
{
    let v: serde_json::Value = match serde_json::from_str(token_json) {
        Ok(v) => v,
        Err(_) => return None,
    };
    v.get("secret").and_then(|x| x.as_str()).map(|t| t.to_string())
}

/// A spec-level character, for counting and locating separators.
pub open spec fn ident_char() -> spec_fn(char) -> char {
    |c: char| c
}

/// How many times `c` occurs in `s`.
pub open spec fn count_char(s: Seq<char>, c: char) -> int {
    count_key(s, c, ident_char())
}

/// The middle segment of a dot-separated three-part token: the characters
/// between the first and the second dot.
pub open spec fn spec_jwt_payload(s: Seq<char>) -> Seq<char> {
    let d1 = key_pos(s, '.', ident_char());
    let d2 = d1 + 1 + key_pos(s.skip(d1 + 1), '.', ident_char());
    s.subrange(d1 + 1, d2)
}

/// Extract the payload segment of a three-part dot-separated token.
/// Returns nothing exactly when the token does not have three parts.
fn jwt_payload(token: &str) -> (r: Option<String>)
    ensures
        match r {
            Option::Some(p) => count_char(token@, '.') == 2 && p@ == spec_jwt_payload(token@),
            Option::None => count_char(token@, '.') != 2,
        },
{
    let ghost tv = token@;
    let ghost ik = ident_char();
    let n = token.unicode_len();
    let mut cnt: usize = 0;
    let mut d1: usize = n;
    let mut d2: usize = n;
    let mut i: usize = 0;
    proof {
        assert(tv.take(0) =~= Seq::<char>::empty());
        assert(count_key(Seq::<char>::empty(), '.', ik) == 0);
    }
    while i < n
        invariant
            i <= n,
            n == tv.len(),
            cnt <= i,
            cnt == count_char(tv.take(i as int), '.'),
            cnt == 0 ==> d1 == n && d2 == n && (forall|j: int| 0 <= j < i ==> tv[j] != '.'),
            cnt >= 1 ==> d1 < i && tv[d1 as int] == '.' && (forall|j: int|
                0 <= j < d1 ==> tv[j] != '.'),
            cnt == 1 ==> d2 == n && (forall|j: int| d1 < j < i ==> tv[j] != '.'),
            cnt >= 2 ==> d1 < d2 < i && tv[d2 as int] == '.' && (forall|j: int|
                d1 < j < d2 ==> tv[j] != '.'),
        decreases n - i,
    {
        proof {
            assert(tv.take(i + 1) =~= tv.take(i as int).push(tv[i as int]));
            lemma_count_concat(tv.take(i as int), seq![tv[i as int]], '.', ik);
            assert(tv.take(i + 1) =~= tv.take(i as int) + seq![tv[i as int]]);
            assert(count_key(seq![tv[i as int]], '.', ik) == (if tv[i as int] == '.' {
                1int
            } else {
                0int
            })) by {
                assert(seq![tv[i as int]].drop_first() =~= Seq::<char>::empty());
            }
        }
        if char_eq(token.get_char(i), '.') {
            if cnt == 0 {
                d1 = i;
            } else if cnt == 1 {
                d2 = i;
            }
            cnt = cnt + 1;
        }
        i = i + 1;
    }
    proof {
        assert(tv.take(n as int) =~= tv);
    }
    if cnt != 2 {
        return Option::None;
    }
    proof {
        lemma_key_pos_at(tv, '.', ik, d1 as int);
        let sk = tv.skip(d1 + 1);
        assert(sk[d2 - d1 - 1] == tv[d2 as int]);
        assert forall|j: int| 0 <= j < d2 - d1 - 1 implies ik(sk[j]) != '.' by {
            assert(sk[j] == tv[j + d1 + 1]);
        }
        lemma_key_pos_at(sk, '.', ik, d2 - d1 - 1);
    }
    let payload = token.substring_char(d1 + 1, d2);
    Option::Some(String::from_str(payload))
}

/// What building the claim record from the five extracted claims yields:
/// the missing required claim's message, else the record, with the
/// principal name falling back from `upn` to `unique_name` to `unknown`.
pub open spec fn spec_claims_to_info(
    tid: Option<Seq<char>>,
    oid: Option<Seq<char>>,
    upn: Option<Seq<char>>,
    unique_name: Option<Seq<char>>,
    exp: Option<int>,
) -> Result<ClaimInfoView, Seq<char>> {
    if tid is None {
        Result::Err("missing tid claim"@)
    } else if oid is None {
        Result::Err("missing oid claim"@)
    } else if exp is None {
        Result::Err("missing exp claim"@)
    } else {
        Result::Ok(
            (ClaimInfoView {
                tenant_id: tid.unwrap(),
                user_id: oid.unwrap(),
                user_principal_name: (match upn {
                    Option::Some(u) => u,
                    Option::None => match unique_name {
                        Option::Some(u) => u,
                        Option::None => "unknown"@,
                    },
                }),
                expires_at: exp.unwrap(),
            }),
        )
    }
}

/// Build the claim record from the individually extracted claims: `tid`,
/// `oid` and `exp` are required and their absence is reported by name; the
/// principal name falls back from `upn` to `unique_name` to `unknown`.
pub fn claims_to_info(
    tid: Option<String>,
    oid: Option<String>,
    upn: Option<String>,
    unique_name: Option<String>,
    exp: Option<i64>,
) -> (r: Result<ClaimInfo, AuthenticationError>)
    ensures
        ({
            let s = spec_claims_to_info(
                opt_str_view(tid),
                opt_str_view(oid),
                opt_str_view(upn),
                opt_str_view(unique_name),
                opt_i64_view(exp),
            );
            match r {
                Result::Ok(ci) => s is Ok && ci@ == s->Ok_0,
                Result::Err(e) => s is Err && (e matches AuthenticationError::JwtError(m) && m@
                    == s->Err_0),
            }
        }),
{
    let tenant_id = match tid {
        Option::Some(t) => t,
        Option::None => {
            return Result::Err(
                AuthenticationError::JwtError(String::from_str("missing tid claim")),
            );
        },
    };
    let user_id = match oid {
        Option::Some(o) => o,
        Option::None => {
            return Result::Err(
                AuthenticationError::JwtError(String::from_str("missing oid claim")),
            );
        },
    };
    let user_principal_name = match upn {
        Option::Some(u) => u,
        Option::None => match unique_name {
            Option::Some(u) => u,
            Option::None => String::from_str("unknown"),
        },
    };
    let expires_at = match exp {
        Option::Some(e) => e,
        Option::None => {
            return Result::Err(
                AuthenticationError::JwtError(String::from_str("missing exp claim")),
            );
        },
    };
    Result::Ok(ClaimInfo { tenant_id, user_id, user_principal_name, expires_at })
}

/// A base64 segment padded to a multiple of four characters.
pub open spec fn spec_pad(s: Seq<char>) -> Seq<char> {
    s + (if s.len() % 4 == 0 {
        Seq::<char>::empty()
    } else if s.len() % 4 == 1 {
        "==="@
    } else if s.len() % 4 == 2 {
        "=="@
    } else {
        "="@
    })
}

/// Pad a base64 segment to a multiple of four characters.
fn pad_base64(s: &str) -> (r: String)
    ensures
        r@ == spec_pad(s@),
{
    let n = s.unicode_len();
    let rem = n % 4;
    let base = String::from_str(s);
    if rem == 0 {
        proof {
            assert(base@ =~= s@ + Seq::<char>::empty());
        }
        base
    } else if rem == 1 {
        base.concat("===")
    } else if rem == 2 {
        base.concat("==")
    } else {
        base.concat("=")
    }
}

/// What claim extraction returns for a token, end to end: the error
/// message when the segment count, the base64 decoding, the UTF-8
/// reading, the JSON reading or a required claim fails, else the claim
/// record — stated over the named results of the boundary steps.
pub open spec fn spec_parse_claims(token: Seq<char>) -> Result<ClaimInfoView, Seq<char>> {
    if count_char(token, '.') != 2 {
        Result::Err("invalid JWT format - expected 3 parts"@)
    } else {
        match b64_of(spec_pad(spec_jwt_payload(token))) {
            Option::None => Result::Err("base64 decode"@),
            Option::Some(bytes) => match utf8_of(bytes) {
                Option::None => Result::Err("invalid UTF-8 in token payload"@),
                Option::Some(text) => match claims_of(text) {
                    Option::None => Result::Err("parsing claims"@),
                    Option::Some(c) => spec_claims_to_info(c.0, c.1, c.2, c.3, c.4),
                },
            },
        }
    }
}

/// Parse the identity and expiry claims embedded in a token.
///
/// The token must consist of three dot-separated segments; anything else
/// is a parse error. The payload segment is base64-decoded and read as a
/// JSON claim set; a missing required claim is reported by name. The
/// outcome — success included — is exactly [`spec_parse_claims`] of the
/// token.
pub fn parse_token_claims(token: &str) -> (r: Result<ClaimInfo, AuthenticationError>)
    ensures
        ({
            let s = spec_parse_claims(token@);
            match r {
                Result::Ok(ci) => s is Ok && ci@ == s->Ok_0,
                Result::Err(e) => s is Err && (e matches AuthenticationError::JwtError(m) && m@
                    == s->Err_0),
            }
        }),
{
    let payload_b64 = match jwt_payload(token) {
        Option::Some(p) => p,
        Option::None => {
            return Result::Err(
                AuthenticationError::JwtError(
                    String::from_str("invalid JWT format - expected 3 parts"),
                ),
            );
        },
    };
    let padded = pad_base64(payload_b64.as_str());
    let bytes = match b64_decode(padded.as_str()) {
        Option::Some(b) => b,
        Option::None => {
            return Result::Err(AuthenticationError::JwtError(String::from_str("base64 decode")));
        },
    };
    let payload = match utf8_string(bytes) {
        Option::Some(p) => p,
        Option::None => {
            return Result::Err(
                AuthenticationError::JwtError(String::from_str("invalid UTF-8 in token payload")),
            );
        },
    };
    let claims = match read_claims(payload.as_str()) {
        Option::Some(c) => c,
        Option::None => {
            return Result::Err(AuthenticationError::JwtError(String::from_str("parsing claims")));
        },
    };
    claims_to_info(claims.0, claims.1, claims.2, claims.3, claims.4)
}

/// What decoding a session token yields, end to end: the error message
/// when a boundary step fails, else the subject, issue time and expiry
/// with defaults substituted for absent claims.
pub open spec fn spec_decode_session(token: Seq<char>) -> Result<(Seq<char>, int, int), Seq<char>> {
    if count_char(token, '.') != 2 {
        Result::Err("invalid session token format"@)
    } else {
        match b64_of(spec_pad(spec_jwt_payload(token))) {
            Option::None => Result::Err("base64 decode session token"@),
            Option::Some(bytes) => match utf8_of(bytes) {
                Option::None => Result::Err("invalid UTF-8 in session token"@),
                Option::Some(text) => match session_claims_of(text) {
                    Option::None => Result::Err("parsing session token claims"@),
                    Option::Some(c) => Result::Ok(
                        (
                            (match c.0 {
                                Option::Some(sid) => sid,
                                Option::None => "unknown"@,
                            }),
                            (match c.1 {
                                Option::Some(x) => x,
                                Option::None => 0int,
                            }),
                            (match c.2 {
                                Option::Some(x) => x,
                                Option::None => 0int,
                            }),
                        ),
                    ),
                },
            },
        }
    }
}

/// Decode a session token's subject, issue time and expiry, substituting
/// defaults for absent claims. The outcome — success included — is
/// exactly [`spec_decode_session`] of the token.
pub fn decode_skype_token(token: &str) -> (r: Result<(String, i64, i64), CoreError>)
    ensures
        ({
            let s = spec_decode_session(token@);
            match r {
                Result::Ok(t) => s is Ok && (t.0@, t.1 as int, t.2 as int) == s->Ok_0,
                Result::Err(e) => s is Err && (e matches CoreError::Auth(m) && m@
                    == s->Err_0),
            }
        }),
{
    // Three-part tokens carry the payload in the middle segment; reuse the
    // same extraction and reject anything without exactly two dots, which
    // is what every real session token has.
    let payload_b64 = match jwt_payload(token) {
        Option::Some(p) => p,
        Option::None => {
            return Result::Err(CoreError::Auth(String::from_str("invalid session token format")));
        },
    };
    let padded = pad_base64(payload_b64.as_str());
    let bytes = match b64_decode(padded.as_str()) {
        Option::Some(b) => b,
        Option::None => {
            return Result::Err(CoreError::Auth(String::from_str("base64 decode session token")));
        },
    };
    let payload = match utf8_string(bytes) {
        Option::Some(p) => p,
        Option::None => {
            return Result::Err(CoreError::Auth(String::from_str("invalid UTF-8 in session token")));
        },
    };
    let claims = match read_session_claims(payload.as_str()) {
        Option::Some(c) => c,
        Option::None => {
            return Result::Err(CoreError::Auth(String::from_str("parsing session token claims")));
        },
    };
    let skype_id = match claims.0 {
        Option::Some(sid) => sid,
        Option::None => String::from_str("unknown"),
    };
    let iat = match claims.1 {
        Option::Some(x) => x,
        Option::None => 0,
    };
    let exp = match claims.2 {
        Option::Some(x) => x,
        Option::None => 0,
    };
    Result::Ok((skype_id, iat, exp))
}

/// What storing the four raw tokens yields: the claim-extraction error
/// message for the first token, else the bundle built from the tokens and
/// the claims read out of the first one.
pub open spec fn spec_store_tokens(
    skype_token: Seq<char>,
    chat_token: Seq<char>,
    graph_token: Seq<char>,
    presence_token: Seq<char>,
) -> Result<TokensView, Seq<char>> {
    match spec_parse_claims(skype_token) {
        Result::Err(m) => Result::Err(m),
        Result::Ok(ci) => Result::Ok(
            (TokensView {
                skype_token,
                chat_token,
                graph_token,
                presence_token,
                tenant_id: ci.tenant_id,
                user_id: ci.user_id,
                user_principal_name: ci.user_principal_name,
                expires_at: ci.expires_at,
            }),
        ),
    }
}

/// How storing from a login flow's storage dump can fail.
pub ghost enum AuthFailure {
    /// A token was not found or its record could not be read.
    Extraction(Seq<char>),
    /// Claim extraction from the first token failed.
    Jwt(Seq<char>),
}

/// The executable error agrees with the specification-level one.
pub open spec fn auth_err_matches(e: AuthenticationError, f: AuthFailure) -> bool {
    match f {
        AuthFailure::Extraction(m) => e matches AuthenticationError::TokenExtractionError(t) && t@
            == m,
        AuthFailure::Jwt(m) => e matches AuthenticationError::JwtError(t) && t@ == m,
    }
}

/// What locating one resource's token record yields: the first entry
/// whose key fits, or the error naming the resource.
pub open spec fn spec_find_token(
    entries: Seq<(Seq<char>, Seq<char>)>,
    resource: Seq<char>,
) -> Result<Seq<char>, Seq<char>> {
    match find_pred(entries, token_entry_pred(resource)) {
        Option::Some(p) => Result::Ok(p.1),
        Option::None => Result::Err("no token found for resource"@ + ": "@ + resource),
    }
}

/// What storing from a login flow's storage dump yields, end to end: the
/// four records are located first, then their secrets read, then the
/// bundle built and stored from the secrets — each step's failure in that
/// order.
pub open spec fn spec_browser_store(entries: Seq<(Seq<char>, Seq<char>)>) -> Result<
    TokensView,
    AuthFailure,
> {
    match spec_find_token(entries, "api.spaces.skype.com"@) {
        Result::Err(m) => Result::Err(AuthFailure::Extraction(m)),
        Result::Ok(skype_json) => match spec_find_token(entries, "chatsvcagg.teams.microsoft.com"@) {
            Result::Err(m) => Result::Err(AuthFailure::Extraction(m)),
            Result::Ok(chat_json) => match spec_find_token(entries, "graph.microsoft.com"@) {
                Result::Err(m) => Result::Err(AuthFailure::Extraction(m)),
                Result::Ok(graph_json) => match spec_find_token(
                    entries,
                    "presence.teams.microsoft.com"@,
                ) {
                    Result::Err(m) => Result::Err(AuthFailure::Extraction(m)),
                    Result::Ok(presence_json) => match secret_of(skype_json) {
                        Option::None => Result::Err(
                            AuthFailure::Extraction("parsing skype token"@),
                        ),
                        Option::Some(sk) => match secret_of(chat_json) {
                            Option::None => Result::Err(
                                AuthFailure::Extraction("parsing chat token"@),
                            ),
                            Option::Some(ch) => match secret_of(graph_json) {
                                Option::None => Result::Err(
                                    AuthFailure::Extraction("parsing graph token"@),
                                ),
                                Option::Some(gr) => match secret_of(presence_json) {
                                    Option::None => Result::Err(
                                        AuthFailure::Extraction("parsing presence token"@),
                                    ),
                                    Option::Some(pr) => match spec_store_tokens(sk, ch, gr, pr) {
                                        Result::Err(m) => Result::Err(AuthFailure::Jwt(m)),
                                        Result::Ok(t) => Result::Ok(t),
                                    },
                                },
                            },
                        },
                    },
                },
            },
        },
    }
}

/// An entry of the login flow's storage dump that carries the access token
/// for `resource`: its key names the token kind, the login host, and —
/// under full lower-casing — the resource.
pub open spec fn token_entry_pred(resource: Seq<char>) -> spec_fn((Seq<char>, Seq<char>)) -> bool {
    |p: (Seq<char>, Seq<char>)|
        seq_has(p.0, "accesstoken"@) && seq_has(p.0, "login.windows.net"@) && seq_has(
            lower_of(p.0),
            lower_of(resource),
        )
}

/// Handles authentication and token management.
#[derive(Debug)]
pub struct AuthManager {
    storage: TokenStorage,
}

impl AuthManager {
    /// The stored bundle, if any.
    pub closed spec fn bundle(&self) -> Option<TokensView> {
        self.storage.bundle()
    }

    /// Create a new authentication manager with an empty store.
    pub fn new() -> (r: Result<AuthManager, AuthenticationError>)
        ensures
            r is Ok && r.unwrap().bundle() is None,
    {
        Result::Ok(AuthManager { storage: TokenStorage::new() })
    }

    /// Hand a previously persisted bundle back to the store.
    pub fn restore(&mut self, tokens: &TeamsTokens)
        ensures
            final(self).bundle() == Option::Some(tokens@),
    {
        self.storage.store_tokens(tokens);
    }

    /// The bundle's state at `now`.
    pub fn state(&self, now: i64) -> (r: CredentialState)
        ensures
            r == classify(self.bundle(), now as int),
    {
        match self.storage.load_tokens() {
            Result::Ok(t) => {
                let delta: i128 = (t.expires_at as i128) - (now as i128);
                if delta > REFRESH_BUFFER_SECS as i128 {
                    CredentialState::Valid
                } else if delta > 0 {
                    CredentialState::ExpiringSoon
                } else {
                    CredentialState::Expired
                }
            },
            Result::Err(_) => CredentialState::Absent,
        }
    }

    /// Whether a bundle exists and has not yet expired.
    pub fn is_authenticated(&self, now: i64) -> (r: Result<bool, AuthenticationError>)
        ensures
            r is Ok && r.unwrap() == (match self.bundle() {
                Option::Some(b) => b.expires_at > now as int,
                Option::None => false,
            }),
    {
        Result::Ok(self.storage.has_valid_tokens(now))
    }

    /// Non-refreshing read of the bundle. Fails when no bundle is stored
    /// or its expiry has passed; the buffer window is not applied.
    pub fn get_tokens(&self, now: i64) -> (r: Result<TeamsTokens, AuthenticationError>)
        ensures
            match self.bundle() {
                Option::None => (r matches Err(AuthenticationError::StorageError(
                    CoreError::SecretNotFound(_),
                ))),
                Option::Some(b) => {
                    if b.expires_at <= now as int {
                        (r matches Err(AuthenticationError::TokenExtractionError(m)) && m@
                            == "tokens expired. Run the login flow to refresh them."@)
                    } else {
                        r is Ok && r.unwrap()@ == b
                    }
                },
            },
    {
        let tokens = match self.storage.load_tokens() {
            Result::Ok(t) => t,
            Result::Err(e) => {
                return Result::Err(AuthenticationError::StorageError(e));
            },
        };
        if tokens.expires_at <= now {
            return Result::Err(
                AuthenticationError::TokenExtractionError(
                    String::from_str("tokens expired. Run the login flow to refresh them."),
                ),
            );
        }
        Result::Ok(tokens)
    }

    /// Decide whether the cached bundle is safely usable, a silent refresh
    /// should be attempted, or only an interactive login can help.
    pub fn refresh_plan(&self, now: i64) -> (r: RefreshPlan)
        ensures
            match r {
                RefreshPlan::UseCached(t) => self.bundle() == Option::Some(t@) && classify(
                    self.bundle(),
                    now as int,
                ) == CredentialState::Valid,
                RefreshPlan::NeedsRefresh => self.bundle() is Some && (classify(
                    self.bundle(),
                    now as int,
                ) == CredentialState::ExpiringSoon || classify(self.bundle(), now as int)
                    == CredentialState::Expired),
                RefreshPlan::NeedsLogin => self.bundle() is None,
            },
    {
        match self.storage.load_tokens() {
            Result::Ok(t) => {
                let delta: i128 = (t.expires_at as i128) - (now as i128);
                if delta > REFRESH_BUFFER_SECS as i128 {
                    RefreshPlan::UseCached(t)
                } else {
                    RefreshPlan::NeedsRefresh
                }
            },
            Result::Err(_) => RefreshPlan::NeedsLogin,
        }
    }

    /// Apply the outcome of a silent refresh attempt. A fresh bundle is
    /// persisted whole and returned; on failure the old bundle is returned
    /// as long as it is literally unexpired, and only a bundle past its
    /// expiry fails the caller, naming the interactive login as the
    /// remedy.
    pub fn finish_refresh(&mut self, now: i64, outcome: Option<TeamsTokens>) -> (r: Result<
        TeamsTokens,
        AuthenticationError,
    >)
        requires
            old(self).bundle() is Some,
        ensures
            ({
                let b = old(self).bundle().unwrap();
                match spec_apply_refresh(b, now as int, match outcome {
                    Option::Some(f) => Option::Some(f@),
                    Option::None => Option::None,
                }) {
                    RefreshOutcome::Fresh(f) => r is Ok && r.unwrap()@ == f && final(self).bundle()
                        == Option::Some(f),
                    RefreshOutcome::StaleOk(s) => r is Ok && r.unwrap()@ == s
                        && final(self).bundle() == old(self).bundle(),
                    RefreshOutcome::Failed => (r matches Err(
                        AuthenticationError::TokenExtractionError(m),
                    ) && m@ == "tokens expired and silent refresh failed. Run the login flow."@)
                        && final(self).bundle() == old(self).bundle(),
                }
            }),
    {
        match outcome {
            Option::Some(fresh) => {
                self.storage.store_tokens(&fresh);
                Result::Ok(fresh)
            },
            Option::None => {
                let old_tokens = match self.storage.load_tokens() {
                    Result::Ok(t) => t,
                    Result::Err(e) => {
                        return Result::Err(AuthenticationError::StorageError(e));
                    },
                };
                if old_tokens.expires_at > now {
                    Result::Ok(old_tokens)
                } else {
                    Result::Err(
                        AuthenticationError::TokenExtractionError(
                            String::from_str(
                                "tokens expired and silent refresh failed. Run the login flow.",
                            ),
                        ),
                    )
                }
            },
        }
    }

    /// Store a bundle from the four raw scoped tokens. The claims are read
    /// from the first token; a malformed token or missing claim fails
    /// clearly and leaves the store unchanged. Success is owed exactly
    /// when claim extraction succeeds, and the stored bundle is pinned by
    /// [`spec_store_tokens`].
    pub fn store_tokens(
        &mut self,
        skype_token: &str,
        chat_token: &str,
        graph_token: &str,
        presence_token: &str,
    ) -> (r: Result<TeamsTokens, AuthenticationError>)
        ensures
            ({
                let s = spec_store_tokens(skype_token@, chat_token@, graph_token@, presence_token@);
                match r {
                    Result::Ok(t) => s is Ok && t@ == s->Ok_0 && final(self).bundle()
                        == Option::Some(t@),
                    Result::Err(e) => s is Err && (e matches AuthenticationError::JwtError(m) && m@
                        == s->Err_0) && final(self).bundle() == old(self).bundle(),
                }
            }),
    {
        let claims = match parse_token_claims(skype_token) {
            Result::Ok(c) => c,
            Result::Err(e) => {
                return Result::Err(e);
            },
        };
        let tokens = TeamsTokens {
            skype_token: String::from_str(skype_token),
            chat_token: String::from_str(chat_token),
            graph_token: String::from_str(graph_token),
            presence_token: String::from_str(presence_token),
            tenant_id: claims.tenant_id,
            user_id: claims.user_id,
            user_principal_name: claims.user_principal_name,
            expires_at: claims.expires_at,
        };
        self.storage.store_tokens(&tokens);
        Result::Ok(tokens)
    }

    /// Store a bundle from a login flow's storage dump, handed in as plain
    /// key/value pairs: the four scoped tokens are located by resource
    /// name, their secrets read, and the bundle stored. The outcome —
    /// success included — is exactly [`spec_browser_store`] of the dump.
    pub fn store_tokens_from_browser(&mut self, local_storage: &Vec<(String, String)>) -> (r:
        Result<TeamsTokens, AuthenticationError>)
        ensures
            ({
                let s = spec_browser_store(crate::config::people_views(local_storage@));
                match r {
                    Result::Ok(t) => s is Ok && t@ == s->Ok_0 && final(self).bundle()
                        == Option::Some(t@),
                    Result::Err(e) => s is Err && auth_err_matches(e, s->Err_0) && final(self).bundle() == old(self).bundle(),
                }
            }),
    {
        let skype_json = match Self::find_token(local_storage, "api.spaces.skype.com") {
            Result::Ok(v) => v,
            Result::Err(e) => {
                return Result::Err(e);
            },
        };
        let chat_json = match Self::find_token(local_storage, "chatsvcagg.teams.microsoft.com") {
            Result::Ok(v) => v,
            Result::Err(e) => {
                return Result::Err(e);
            },
        };
        let graph_json = match Self::find_token(local_storage, "graph.microsoft.com") {
            Result::Ok(v) => v,
            Result::Err(e) => {
                return Result::Err(e);
            },
        };
        let presence_json = match Self::find_token(local_storage, "presence.teams.microsoft.com") {
            Result::Ok(v) => v,
            Result::Err(e) => {
                return Result::Err(e);
            },
        };
        let skype_secret = match read_secret(skype_json.as_str()) {
            Option::Some(s) => s,
            Option::None => {
                return Result::Err(
                    AuthenticationError::TokenExtractionError(
                        String::from_str("parsing skype token"),
                    ),
                );
            },
        };
        let chat_secret = match read_secret(chat_json.as_str()) {
            Option::Some(s) => s,
            Option::None => {
                return Result::Err(
                    AuthenticationError::TokenExtractionError(
                        String::from_str("parsing chat token"),
                    ),
                );
            },
        };
        let graph_secret = match read_secret(graph_json.as_str()) {
            Option::Some(s) => s,
            Option::None => {
                return Result::Err(
                    AuthenticationError::TokenExtractionError(
                        String::from_str("parsing graph token"),
                    ),
                );
            },
        };
        let presence_secret = match read_secret(presence_json.as_str()) {
            Option::Some(s) => s,
            Option::None => {
                return Result::Err(
                    AuthenticationError::TokenExtractionError(
                        String::from_str("parsing presence token"),
                    ),
                );
            },
        };
        self.store_tokens(
            skype_secret.as_str(),
            chat_secret.as_str(),
            graph_secret.as_str(),
            presence_secret.as_str(),
        )
    }

    /// Logout: clear the stored bundle. Idempotent.
    pub fn logout(&mut self) -> (r: Result<(), AuthenticationError>)
        ensures
            r is Ok,
            final(self).bundle() is None,
    {
        self.storage.clear_tokens();
        Result::Ok(())
    }

    /// The first storage entry carrying the access token for `resource`:
    /// its key names the token kind, the login host, and — under full
    /// lower-casing — the resource. A miss is an error naming the
    /// resource.
    pub fn find_token(local_storage: &Vec<(String, String)>, resource: &str) -> (r: Result<
        String,
        AuthenticationError,
    >)
        ensures
            ({
                let s = spec_find_token(crate::config::people_views(local_storage@), resource@);
                match r {
                    Result::Ok(v) => s is Ok && v@ == s->Ok_0,
                    Result::Err(e) => s is Err && (e matches
                        AuthenticationError::TokenExtractionError(m) && m@ == s->Err_0),
                }
            }),
    {
        let ghost entries = crate::config::people_views(local_storage@);
        let ghost pred = token_entry_pred(resource@);
        let folded_resource = to_lower(resource);
        let n = local_storage.len();
        let mut i: usize = 0;
        while i < n
            invariant
                i <= n,
                n == local_storage@.len(),
                folded_resource@ == lower_of(resource@),
                forall|j: int| 0 <= j < i ==> !pred(entries[j]),
            decreases n - i,
        {
            let k = local_storage[i].0.as_str();
            let folded_key = to_lower(k);
            let hit = str_has(k, "accesstoken") && str_has(k, "login.windows.net") && str_has(
                folded_key.as_str(),
                folded_resource.as_str(),
            );
            proof {
                assert(entries[i as int] == (local_storage@[i as int].0@, local_storage@[
                    i as int].1@));
                assert(pred(entries[i as int]) == hit);
            }
            if hit {
                proof {
                    lemma_pred_pos_at(entries, pred, i as int);
                }
                return Result::Ok(local_storage[i].1.clone());
            }
            i = i + 1;
        }
        proof {
            lemma_pred_pos(entries, pred);
            if pred_pos(entries, pred) >= 0 {
                assert(!pred(entries[pred_pos(entries, pred)]));
            }
        }
        Result::Err(
            AuthenticationError::TokenExtractionError(
                String::from_str("no token found for resource").concat(": ").concat(resource),
            ),
        )
    }
}

/// Law: the buffer boundary. A bundle whose expiry lies strictly beyond
/// the buffer window is `Valid` and needs no refresh; one unexpired but
/// inside the window is `ExpiringSoon`; one at or past its expiry is
/// `Expired`; and exactly the latter two make the plan a refresh attempt.
pub proof fn lemma_credential_buffer_boundary(b: TokensView, now: int)
    ensures
        b.expires_at - now > REFRESH_BUFFER_SECS as int ==> classify(Option::Some(b), now)
            == CredentialState::Valid,
        0 < b.expires_at - now <= REFRESH_BUFFER_SECS as int ==> classify(Option::Some(b), now)
            == CredentialState::ExpiringSoon,
        b.expires_at <= now ==> classify(Option::Some(b), now) == CredentialState::Expired,
        (classify(Option::Some(b), now) == CredentialState::ExpiringSoon || classify(
            Option::Some(b),
            now,
        ) == CredentialState::Expired) <==> b.expires_at - now <= REFRESH_BUFFER_SECS as int,
{
}

/// Law: graceful degradation. When the refresh collaborator fails but the
/// old bundle is still literally unexpired — even inside the buffer
/// window — the old bundle is returned rather than failing the caller;
/// only a literally expired bundle fails.
pub proof fn lemma_graceful_degradation(b: TokensView, now: int)
    ensures
        b.expires_at > now ==> spec_apply_refresh(b, now, Option::None)
            == RefreshOutcome::StaleOk(b),
        b.expires_at <= now ==> spec_apply_refresh(b, now, Option::None) == RefreshOutcome::Failed,
        forall|f: TokensView|
            spec_apply_refresh(b, now, Option::Some(f)) == RefreshOutcome::Fresh(f),
{
}

} // verus!
