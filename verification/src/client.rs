//! The API client: configuration, credential state, and the canonical
//! request signer every call passes through.

use vstd::prelude::*;

use crate::auth::{GrantPlan, TokenResponse, TokenState};
use crate::clock::get_time;
use crate::crypto::{hmac_sha256_hex, hmac_sha256_upper_hex, sha256_hex, sha256_lower_hex};
use crate::error::TuyaError;
use crate::model::{pairs_view, Headers, PreparedRequest};
use crate::query::{
    build_canonical_url, lemma_sorted_is_sort_by, qp_leq, sort_query_params, spec_canonical_url,
};
use crate::strings::{dec_str, push_char, u128_to_string, u32_to_string};

verus! {

/// The client: connection configuration and the credential state the
/// token lifecycle manager owns.
pub struct TuyaClient {
    pub(crate) host: String,
    pub(crate) client_id: String,
    pub(crate) client_secret: String,
    pub(crate) access_token: Option<String>,
    pub(crate) refresh_token: Option<String>,
    pub(crate) expiration_time: Option<u128>,
}

/// The canonical string-to-sign: method, hex content digest, the (empty)
/// signed-headers block, and the canonical URL, each line-separated.
pub open spec fn spec_string_to_sign(method: Seq<char>, content: Seq<char>, url: Seq<char>) -> Seq<
    char,
> {
    method + seq!['\n'] + sha256_lower_hex(content) + seq!['\n'] + seq!['\n'] + url
}

/// The sign source: client id, the access token on business calls,
/// timestamp, nonce, then the string-to-sign.
pub open spec fn spec_sign_source(
    client_id: Seq<char>,
    token: Option<Seq<char>>,
    t: nat,
    nonce: nat,
    sts: Seq<char>,
) -> Seq<char> {
    client_id + (match token {
        Some(tk) => tk,
        None => Seq::empty(),
    }) + dec_str(t) + dec_str(nonce) + sts
}

/// The signature of a request: HMAC-SHA256 of the sign source under the
/// client secret, uppercase hex.
pub open spec fn spec_signature(
    secret: Seq<char>,
    client_id: Seq<char>,
    token: Option<Seq<char>>,
    t: nat,
    nonce: nat,
    method: Seq<char>,
    content: Seq<char>,
    url: Seq<char>,
) -> Seq<char> {
    hmac_sha256_upper_hex(
        secret,
        spec_sign_source(client_id, token, t, nonce, spec_string_to_sign(method, content, url)),
    )
}

/// The headers of a signed request, in insertion order: the access token
/// on business calls, then client id, sign method, timestamp, nonce, and
/// the signature last.
pub open spec fn spec_signed_headers(
    client_id: Seq<char>,
    token: Option<Seq<char>>,
    t: nat,
    nonce: nat,
    sig: Seq<char>,
) -> Seq<(Seq<char>, Seq<char>)> {
    (match token {
        Some(tk) => seq![("access_token"@, tk)],
        None => Seq::empty(),
    }) + seq![
        ("client_id"@, client_id),
        ("sign_method"@, "HMAC-SHA256"@),
        ("t"@, dec_str(t)),
        ("nonce"@, dec_str(nonce)),
        ("sign"@, sig),
    ]
}

/// The parameter pairs a caller supplied, as character sequences; no
/// parameters reads as none at all.
pub open spec fn spec_params_view(params: Option<Vec<(String, String)>>) -> Seq<
    (Seq<char>, Seq<char>),
> {
    match params {
        Some(p) => pairs_view(p@),
        None => Seq::empty(),
    }
}

/// Whether url's `Url::parse` accepts the text; its verdict is a
/// function of the text alone.
pub uninterp spec fn url_parse_ok(s: Seq<char>) -> bool;

/// Relies on url's `Url::parse`: nothing exactly when the text is a
/// valid URL, else the parser's diagnostic.
#[verifier::external_body]
fn url_parse_error(s: &str) -> (r: Option<String>)
    ensures
        r is None <==> url_parse_ok(s@),
{
    match url::Url::parse(s) {
        Ok(_) => None,
        Err(e) => Some(e.to_string()),
    }
}

impl TuyaClient {
    pub closed spec fn spec_host(self) -> Seq<char> {
        self.host@
    }

    pub closed spec fn spec_client_id(self) -> Seq<char> {
        self.client_id@
    }

    pub closed spec fn spec_client_secret(self) -> Seq<char> {
        self.client_secret@
    }

    pub closed spec fn spec_access_token(self) -> Option<Seq<char>> {
        match self.access_token {
            Some(t) => Some(t@),
            None => None,
        }
    }

    pub closed spec fn spec_refresh_token(self) -> Option<Seq<char>> {
        match self.refresh_token {
            Some(t) => Some(t@),
            None => None,
        }
    }

    pub closed spec fn spec_expiration_time(self) -> Option<int> {
        match self.expiration_time {
            Some(t) => Some(t as int),
            None => None,
        }
    }

    /// The platform requires a non-empty host, client id and secret, and
    /// the credential holds an access token exactly as long as it holds
    /// its expiry.
    #[verifier::type_invariant]
    pub open spec fn wf(self) -> bool {
        self.spec_host().len() > 0 && self.spec_client_id().len() > 0
            && self.spec_client_secret().len() > 0 && (self.spec_access_token() is Some
            <==> self.spec_expiration_time() is Some)
    }

    /// Builds a client with an empty credential. The platform requires
    /// the whole configuration non-empty, so empty values are rejected
    /// here, not at sign time.
    pub fn new(host: &str, client_id: &str, client_secret: &str) -> (r: TuyaClient)
        requires
            host@.len() > 0,
            client_id@.len() > 0,
            client_secret@.len() > 0,
        ensures
            r.spec_host() == host@,
            r.spec_client_id() == client_id@,
            r.spec_client_secret() == client_secret@,
            r.spec_access_token() is None,
            r.spec_refresh_token() is None,
            r.spec_expiration_time() is None,
    {
        TuyaClient {
            host: host.to_owned(),
            client_id: client_id.to_owned(),
            client_secret: client_secret.to_owned(),
            access_token: None,
            refresh_token: None,
            expiration_time: None,
        }
    }

    /// The access token currently held, if any.
    pub fn current_access_token(&self) -> (r: Option<&String>)
        ensures
            r is Some <==> self.spec_access_token() is Some,
            r is Some ==> r->Some_0@ == self.spec_access_token()->Some_0,
    {
        self.access_token.as_ref()
    }

    /// Builds the canonical string-to-sign. No header signing is in use,
    /// so the signed-headers block is empty.
    pub fn string_to_sign(&self, method: &str, content: &str, url: &str) -> (r: String)
        ensures
            r@ == spec_string_to_sign(method@, content@, url@),
    {
        let digest = sha256_hex(content);
        let mut s = String::new();
        s.append(method);
        push_char(&mut s, '\n');
        s.append(digest.as_str());
        push_char(&mut s, '\n');
        push_char(&mut s, '\n');
        s.append(url);
        proof {
            assert(s@ =~= spec_string_to_sign(method@, content@, url@));
        }
        s
    }

    /// Signs a request: HMAC-SHA256 of the sign source under the client
    /// secret, uppercase hex. A business call folds the access token into
    /// the signed material, so one must be present.
    pub fn sign(&self, t: &u128, string_to_sign: &str, nonce: &u32, business: bool) -> (r: String)
        requires
            business ==> self.spec_access_token() is Some,
        ensures
            r@ == hmac_sha256_upper_hex(
                self.spec_client_secret(),
                spec_sign_source(
                    self.spec_client_id(),
                    if business {
                        self.spec_access_token()
                    } else {
                        None
                    },
                    *t as nat,
                    *nonce as nat,
                    string_to_sign@,
                ),
            ),
            r@.len() == 64,
            forall|i: int|
                0 <= i < r@.len() ==> crate::crypto::is_upper_hex_digit(#[trigger] r@[i]),
    {
        let mut src = String::new();
        src.append(self.client_id.as_str());
        if business {
            let tok = self.access_token.as_ref().unwrap();
            src.append(tok.as_str());
        }
        let ts = u128_to_string(*t);
        src.append(ts.as_str());
        let ns = u32_to_string(*nonce);
        src.append(ns.as_str());
        src.append(string_to_sign);
        proof {
            assert(src@ =~= spec_sign_source(
                self.spec_client_id(),
                if business {
                    self.spec_access_token()
                } else {
                    None
                },
                *t as nat,
                *nonce as nat,
                string_to_sign@,
            ));
        }
        hmac_sha256_hex(self.client_secret.as_str(), src.as_str())
    }

    /// Builds the signed header list for a request: the required headers
    /// in order, with the signature computed over everything else and
    /// inserted last.
    pub fn create_headers(
        &self,
        t: &u128,
        method: &str,
        url: &str,
        body_content: &str,
        business: bool,
        nonce: u32,
    ) -> (h: Headers)
        requires
            business ==> self.spec_access_token() is Some,
        ensures
            h.spec_pairs() == spec_signed_headers(
                self.spec_client_id(),
                if business {
                    self.spec_access_token()
                } else {
                    None
                },
                *t as nat,
                nonce as nat,
                spec_signature(
                    self.spec_client_secret(),
                    self.spec_client_id(),
                    if business {
                        self.spec_access_token()
                    } else {
                        None
                    },
                    *t as nat,
                    nonce as nat,
                    method@,
                    body_content@,
                    url@,
                ),
            ),
    {
        let mut v: Vec<(String, String)> = Vec::new();
        if business {
            if let Some(tok) = &self.access_token {
                v.push((String::from_str("access_token"), tok.clone()));
            }
        }
        v.push((String::from_str("client_id"), self.client_id.clone()));
        v.push((String::from_str("sign_method"), String::from_str("HMAC-SHA256")));
        v.push((String::from_str("t"), u128_to_string(*t)));
        v.push((String::from_str("nonce"), u32_to_string(nonce)));
        let sts = self.string_to_sign(method, body_content, url);
        let sig = self.sign(t, sts.as_str(), &nonce, business);
        v.push((String::from_str("sign"), sig));
        let h = Headers(v);
        proof {
            assert(h.spec_pairs() =~= spec_signed_headers(
                self.spec_client_id(),
                if business {
                    self.spec_access_token()
                } else {
                    None
                },
                *t as nat,
                nonce as nat,
                spec_signature(
                    self.spec_client_secret(),
                    self.spec_client_id(),
                    if business {
                        self.spec_access_token()
                    } else {
                        None
                    },
                    *t as nat,
                    nonce as nat,
                    method@,
                    body_content@,
                    url@,
                ),
            ));
        }
        h
    }

    /// Builds a complete signed request at a given timestamp and nonce:
    /// parameters canonicalized, the URL formed from the host and the
    /// canonical path, and the headers signed over exactly that URL.
    pub fn prepare_request_at(
        &self,
        method: &str,
        endpoint: &str,
        params: Option<Vec<(String, String)>>,
        business: bool,
        t: u128,
        nonce: u32,
    ) -> (r: Result<PreparedRequest, TuyaError>)
        requires
            business ==> self.spec_access_token() is Some,
        ensures
            r is Ok ==> r->Ok_0.method@ == method@,
            r is Ok ==> r->Ok_0.url@ == self.spec_host() + spec_canonical_url(
                endpoint@,
                spec_params_view(params).sort_by(qp_leq()),
            ),
            r is Ok ==> r->Ok_0.headers.spec_pairs() == spec_signed_headers(
                self.spec_client_id(),
                if business {
                    self.spec_access_token()
                } else {
                    None
                },
                t as nat,
                nonce as nat,
                spec_signature(
                    self.spec_client_secret(),
                    self.spec_client_id(),
                    if business {
                        self.spec_access_token()
                    } else {
                        None
                    },
                    t as nat,
                    nonce as nat,
                    method@,
                    ""@,
                    spec_canonical_url(endpoint@, spec_params_view(params).sort_by(qp_leq())),
                ),
            ),
            r is Ok <==> url_parse_ok(
                self.spec_host() + spec_canonical_url(
                    endpoint@,
                    spec_params_view(params).sort_by(qp_leq()),
                ),
            ),
            r is Err ==> r->Err_0 is HostUrlParse,
    {
        let ghost given = spec_params_view(params);
        let sorted = match params {
            Some(p) => sort_query_params(p),
            None => Vec::new(),
        };
        proof {
            if sorted@.len() == 0 && given.len() == 0 {
                assert(pairs_view(sorted@) =~= given);
            }
            lemma_sorted_is_sort_by(given, pairs_view(sorted@));
        }
        let canonical = build_canonical_url(endpoint, &sorted);
        let mut full = String::new();
        full.append(self.host.as_str());
        full.append(canonical.as_str());
        proof {
            assert(full@ =~= self.spec_host() + spec_canonical_url(
                endpoint@,
                given.sort_by(qp_leq()),
            ));
        }
        if let Some(msg) = url_parse_error(full.as_str()) {
            return Err(TuyaError::HostUrlParse(msg));
        }
        let headers = self.create_headers(&t, method, canonical.as_str(), "", business, nonce);
        Ok(PreparedRequest { method: method.to_owned(), url: full, headers })
    }

    /// Builds a signed business request with a fresh timestamp and a
    /// fresh random nonce. The access token must be current: the caller
    /// ensures validity first.
    pub fn prepare_business_request(
        &self,
        method: &str,
        endpoint: &str,
        params: Option<Vec<(String, String)>>,
    ) -> (r: Result<PreparedRequest, TuyaError>)
        requires
            self.spec_access_token() is Some,
        ensures
            r is Ok ==> r->Ok_0.method@ == method@,
            r is Ok ==> r->Ok_0.url@ == self.spec_host() + spec_canonical_url(
                endpoint@,
                spec_params_view(params).sort_by(qp_leq()),
            ),
            r is Ok ==> exists|t: nat, nonce: nat|
                r->Ok_0.headers.spec_pairs() == #[trigger] spec_signed_headers(
                    self.spec_client_id(),
                    self.spec_access_token(),
                    t,
                    nonce,
                    spec_signature(
                        self.spec_client_secret(),
                        self.spec_client_id(),
                        self.spec_access_token(),
                        t,
                        nonce,
                        method@,
                        ""@,
                        spec_canonical_url(endpoint@, spec_params_view(params).sort_by(qp_leq())),
                    ),
                ),
            r is Ok <==> url_parse_ok(
                self.spec_host() + spec_canonical_url(
                    endpoint@,
                    spec_params_view(params).sort_by(qp_leq()),
                ),
            ),
            r is Err ==> r->Err_0 is HostUrlParse,
    {
        let ghost pv = spec_params_view(params);
        let t = get_time();
        let nonce = rand::random::<u32>();
        let r = self.prepare_request_at(method, endpoint, params, true, t, nonce);
        proof {
            if r is Ok {
                assert(r->Ok_0.headers.spec_pairs() == spec_signed_headers(
                    self.spec_client_id(),
                    self.spec_access_token(),
                    t as nat,
                    nonce as nat,
                    spec_signature(
                        self.spec_client_secret(),
                        self.spec_client_id(),
                        self.spec_access_token(),
                        t as nat,
                        nonce as nat,
                        method@,
                        ""@,
                        spec_canonical_url(endpoint@, pv.sort_by(qp_leq())),
                    ),
                ));
            }
        }
        r
    }

    /// Builds a signed token-endpoint request (no access token in the
    /// signed material) with a fresh timestamp and nonce.
    pub fn prepare_token_request(
        &self,
        method: &str,
        endpoint: &str,
        params: Option<Vec<(String, String)>>,
    ) -> (r: Result<PreparedRequest, TuyaError>)
        ensures
            r is Ok ==> r->Ok_0.method@ == method@,
            r is Ok ==> r->Ok_0.url@ == self.spec_host() + spec_canonical_url(
                endpoint@,
                spec_params_view(params).sort_by(qp_leq()),
            ),
            r is Ok ==> exists|t: nat, nonce: nat|
                r->Ok_0.headers.spec_pairs() == #[trigger] spec_signed_headers(
                    self.spec_client_id(),
                    None,
                    t,
                    nonce,
                    spec_signature(
                        self.spec_client_secret(),
                        self.spec_client_id(),
                        None,
                        t,
                        nonce,
                        method@,
                        ""@,
                        spec_canonical_url(endpoint@, spec_params_view(params).sort_by(qp_leq())),
                    ),
                ),
            r is Ok <==> url_parse_ok(
                self.spec_host() + spec_canonical_url(
                    endpoint@,
                    spec_params_view(params).sort_by(qp_leq()),
                ),
            ),
            r is Err ==> r->Err_0 is HostUrlParse,
    {
        let ghost pv = spec_params_view(params);
        let t = get_time();
        let nonce = rand::random::<u32>();
        let r = self.prepare_request_at(method, endpoint, params, false, t, nonce);
        proof {
            if r is Ok {
                assert(r->Ok_0.headers.spec_pairs() == spec_signed_headers(
                    self.spec_client_id(),
                    None,
                    t as nat,
                    nonce as nat,
                    spec_signature(
                        self.spec_client_secret(),
                        self.spec_client_id(),
                        None,
                        t as nat,
                        nonce as nat,
                        method@,
                        ""@,
                        spec_canonical_url(endpoint@, pv.sort_by(qp_leq())),
                    ),
                ));
            }
        }
        r
    }

    /// The credential's state when the clock reads `now`.
    pub open spec fn spec_token_state(self, now: int) -> TokenState {
        if self.spec_access_token() is None {
            TokenState::Empty
        } else if self.spec_expiration_time() is Some && now < self.spec_expiration_time()->Some_0 {
            TokenState::Valid
        } else {
            TokenState::Expired
        }
    }

    /// Executable reading of the credential state.
    pub fn token_state(&self, now: u128) -> (r: TokenState)
        ensures
            r == self.spec_token_state(now as int),
    {
        proof {
            use_type_invariant(self);
        }
        match (&self.access_token, &self.expiration_time) {
            (Some(_), Some(expire)) => {
                if now < *expire {
                    TokenState::Valid
                } else {
                    TokenState::Expired
                }
            },
            _ => TokenState::Empty,
        }
    }

    /// Decides whether a grant is needed at time `now`. A still-valid
    /// token yields no plan (the cache hit); otherwise the plan is an
    /// initial grant, or a refresh through the stored refresh token.
    pub fn plan_token_request(&self, now: u128) -> (r: Option<GrantPlan>)
        ensures
            r is None <==> self.spec_token_state(now as int) == TokenState::Valid,
            r is Some ==> pairs_view(r->Some_0.params@) == seq![("grant_type"@, "1"@)],
            r is Some && self.spec_refresh_token() is Some ==> r->Some_0.path@ == "/v1.0/token/"@
                + self.spec_refresh_token()->Some_0,
            r is Some && self.spec_refresh_token() is None ==> r->Some_0.path@ == "/v1.0/token"@,
    {
        let state = self.token_state(now);
        if let TokenState::Valid = state {
            return None;
        }
        let mut params: Vec<(String, String)> = Vec::new();
        params.push((String::from_str("grant_type"), String::from_str("1")));
        proof {
            assert(pairs_view(params@) =~= seq![("grant_type"@, "1"@)]);
        }
        let path = match &self.refresh_token {
            Some(token) => {
                let mut p = String::new();
                p.append("/v1.0/token/");
                p.append(token.as_str());
                proof {
                    assert(p@ =~= "/v1.0/token/"@ + self.spec_refresh_token()->Some_0);
                }
                p
            },
            None => String::from_str("/v1.0/token"),
        };
        Some(GrantPlan { path, params })
    }

    /// Applies a successful grant: the whole credential is replaced
    /// atomically, with the new expiry anchored at the `now` captured
    /// when the grant began.
    pub fn apply_token_response(&mut self, now: u128, res: TokenResponse)
        requires
            res.expire_time <= u128::MAX - now,
        ensures
            final(self).spec_access_token() == Some(res.access_token@),
            final(self).spec_refresh_token() == Some(res.refresh_token@),
            final(self).spec_expiration_time() == Some(now as int + res.expire_time as int),
            final(self).spec_host() == old(self).spec_host(),
            final(self).spec_client_id() == old(self).spec_client_id(),
            final(self).spec_client_secret() == old(self).spec_client_secret(),
    {
        proof {
            use_type_invariant(&*self);
        }
        *self = TuyaClient {
            host: self.host.clone(),
            client_id: self.client_id.clone(),
            client_secret: self.client_secret.clone(),
            access_token: Some(res.access_token),
            refresh_token: Some(res.refresh_token),
            expiration_time: Some(now + res.expire_time),
        };
    }

    /// Signing is pure: two clients sharing the same configuration and
    /// credential sign any one request identically, whenever and
    /// wherever the signature is computed.
    pub proof fn lemma_signature_deterministic(
        a: TuyaClient,
        b: TuyaClient,
        token: Option<Seq<char>>,
        t: nat,
        nonce: nat,
        method: Seq<char>,
        content: Seq<char>,
        url: Seq<char>,
    )
        requires
            a.spec_client_secret() == b.spec_client_secret(),
            a.spec_client_id() == b.spec_client_id(),
        ensures
            spec_signature(
                a.spec_client_secret(),
                a.spec_client_id(),
                token,
                t,
                nonce,
                method,
                content,
                url,
            ) == spec_signature(
                b.spec_client_secret(),
                b.spec_client_id(),
                token,
                t,
                nonce,
                method,
                content,
                url,
            ),
    {
    }

    /// The token cache: once a grant taken at `grant_now` with duration
    /// `expire_time` is applied, every later reading of the clock inside
    /// the window finds the credential `Valid` — so `plan_token_request`
    /// yields no request — and every reading at or past the window's end
    /// finds it `Expired`, so exactly a refresh is planned.
    pub proof fn lemma_token_caching(c: TuyaClient, grant_now: int, expire_time: int, now2: int)
        requires
            c.spec_access_token() is Some,
            c.spec_expiration_time() == Some(grant_now + expire_time),
        ensures
            now2 < grant_now + expire_time ==> c.spec_token_state(now2) == TokenState::Valid,
            now2 >= grant_now + expire_time ==> c.spec_token_state(now2) == TokenState::Expired,
    {
    }
}

} // verus!
