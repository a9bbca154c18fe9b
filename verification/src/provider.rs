//! A provider of models, and how a request to it is configured and authorised.

use crate::config::{LlmConfig, LlmConfigV};
use crate::endpoint::{rooted, without_slashes, Endpoint};
use crate::json::Json;
use crate::openai_chat::{chat_body, OpenAIChatProtocol, Protocol};
use crate::request::CanonicalRequest;
use crate::text::{owned, to_chars};
use crate::transport::PreparedRequest;
use vstd::prelude::*;

verus! {

/// Authorisation by a token.
#[derive(Debug)]
pub struct BearerAuth {
    pub token: String,
}

/// No authorisation.
#[derive(Clone, Copy, Debug)]
pub struct NoneAuth;

/// What authorises a request.
pub trait Auth {
    /// The header that a request carries, where it carries one.
    spec fn header_of(&self) -> Option<(Seq<char>, Seq<char>)>;

    fn header(&self) -> (r: Option<(String, String)>)
        ensures
            match r {
                Some((k, v)) => self.header_of() == Some((k@, v@)),
                None => self.header_of() is None,
            },
    ;
}

impl Auth for BearerAuth {
    open spec fn header_of(&self) -> Option<(Seq<char>, Seq<char>)> {
        Some(("Authorization"@, "Bearer "@ + self.token@))
    }

    fn header(&self) -> (r: Option<(String, String)>) {
        let mut v = owned("Bearer ");
        v.append(self.token.as_str());
        Some((owned("Authorization"), v))
    }
}

impl Auth for NoneAuth {
    open spec fn header_of(&self) -> Option<(Seq<char>, Seq<char>)> {
        None
    }

    fn header(&self) -> (r: Option<(String, String)>) {
        None
    }
}

/// A provider, and what it takes to reach it.
#[derive(Debug)]
pub struct ProviderConfig {
    pub id: String,
    pub base_url: String,
    pub api_key: String,
}

impl ProviderConfig {
    pub fn new(id: &str, base_url: &str, api_key: &str) -> (r: ProviderConfig)
        ensures
            r.id@ == id@,
            r.base_url@ == base_url@,
            r.api_key@ == api_key@,
    {
        ProviderConfig { id: owned(id), base_url: owned(base_url), api_key: owned(api_key) }
    }

    /// The way to the provider's chat completions.
    pub fn openai_chat_route(&self) -> (r: Route)
        ensures
            r.id@ == "openai-chat"@,
            r.provider@ == self.id@,
            r.endpoint.base_url@ == without_slashes(self.base_url@),
            r.endpoint.path@ == rooted("/chat/completions"@),
            r.auth.token@ == self.api_key@,
    {
        Route::new(
            "openai-chat",
            self.id.as_str(),
            Endpoint::new(self.base_url.as_str(), "/chat/completions"),
            BearerAuth { token: self.api_key.clone() },
        )
    }
}

/// The way of a request to a provider.
#[derive(Debug)]
pub struct Route {
    pub id: String,
    pub provider: String,
    pub protocol: OpenAIChatProtocol,
    pub endpoint: Endpoint,
    pub auth: BearerAuth,
}

impl Route {
    pub fn new(id: &str, provider: &str, endpoint: Endpoint, auth: BearerAuth) -> (r: Route)
        ensures
            r.id@ == id@,
            r.provider@ == provider@,
            r.endpoint == endpoint,
            r.auth == auth,
    {
        Route {
            id: owned(id),
            provider: owned(provider),
            protocol: OpenAIChatProtocol,
            endpoint,
            auth,
        }
    }

    /// The body of a request.
    pub fn build_body(&self, request: &CanonicalRequest) -> (r: Json)
        ensures
            r@ == chat_body(request@),
    {
        self.protocol.build_body(request)
    }

    /// The request as it is sent: to the endpoint, as JSON, with what authorises it.
    pub fn prepare(&self, request: &CanonicalRequest) -> (r: PreparedRequest)
        ensures
            r.url@ == self.endpoint.base_url@ + self.endpoint.path@,
            r.body@ == chat_body(request@),
            headers(r.headers@) == seq![
                ("Content-Type"@, "application/json"@),
                ("Authorization"@, "Bearer "@ + self.auth.token@),
            ],
    {
        let mut hs: Vec<(String, String)> = Vec::new();
        hs.push((owned("Content-Type"), owned("application/json")));
        if let Some(h) = self.auth.header() {
            hs.push(h);
        }
        assert(headers(hs@) =~= seq![
            ("Content-Type"@, "application/json"@),
            ("Authorization"@, "Bearer "@ + self.auth.token@),
        ]);
        PreparedRequest { url: self.endpoint.url(), body: self.build_body(request), headers: hs }
    }
}

/// Headers as sequences of characters.
pub open spec fn headers(s: Seq<(String, String)>) -> Seq<(Seq<char>, Seq<char>)> {
    s.map_values(|h: (String, String)| (h.0@, h.1@))
}

/// The first text, or the second where the first is empty.
pub open spec fn text_or(a: Seq<char>, b: Seq<char>) -> Seq<char> {
    if a.len() == 0 {
        b
    } else {
        a
    }
}

/// The configuration of a request: what the request sets, over the base. Empty texts and
/// zeros set nothing; a temperature is always set.
pub open spec fn merged(base: LlmConfigV, req: LlmConfigV) -> LlmConfigV {
    LlmConfigV {
        model: text_or(req.model, base.model),
        base_url: text_or(req.base_url, base.base_url),
        api_key: text_or(req.api_key, base.api_key),
        temperature: req.temperature,
        max_tokens: if req.max_tokens == 0 {
            base.max_tokens
        } else {
            req.max_tokens
        },
        request_timeout_secs: if req.request_timeout_secs == 0 {
            base.request_timeout_secs
        } else {
            req.request_timeout_secs
        },
        stream_timeout_secs: if req.stream_timeout_secs == 0 {
            base.stream_timeout_secs
        } else {
            req.stream_timeout_secs
        },
        max_retries: if req.max_retries == 0 {
            base.max_retries
        } else {
            req.max_retries
        },
        retry_base_delay_ms: if req.retry_base_delay_ms == 0 {
            base.retry_base_delay_ms
        } else {
            req.retry_base_delay_ms
        },
        context_window: match req.context_window {
            Some(w) => Some(w),
            None => base.context_window,
        },
        loop_cycle_window: if req.loop_cycle_window == 0 {
            base.loop_cycle_window
        } else {
            req.loop_cycle_window
        },
        loop_max_total_chars: if req.loop_max_total_chars == 0 {
            base.loop_max_total_chars
        } else {
            req.loop_max_total_chars
        },
    }
}

/// The configuration for a request that may bring its own.
pub open spec fn effective_config(base: LlmConfigV, req: Option<LlmConfigV>) -> LlmConfigV {
    match req {
        Some(r) => merged(base, r),
        None => base,
    }
}

fn pick_text(a: &String, b: &String) -> (r: String)
    ensures
        r@ == text_or(a@, b@),
{
    if to_chars(a.as_str()).len() == 0 {
        b.clone()
    } else {
        a.clone()
    }
}

fn pick_u64(a: u64, b: u64) -> (r: u64)
    ensures
        r == if a == 0 {
            b
        } else {
            a
        },
{
    if a == 0 {
        b
    } else {
        a
    }
}

fn pick_usize(a: usize, b: usize) -> (r: usize)
    ensures
        r == if a == 0 {
            b
        } else {
            a
        },
{
    if a == 0 {
        b
    } else {
        a
    }
}

/// The configuration for a request that may bring its own.
pub fn merge_config(base: &LlmConfig, request_config: Option<&LlmConfig>) -> (r: LlmConfig)
    ensures
        r@ == effective_config(
            base@,
            match request_config {
                Some(c) => Some(c@),
                None => None,
            },
        ),
{
    match request_config {
        Some(req) => LlmConfig {
            model: pick_text(&req.model, &base.model),
            base_url: pick_text(&req.base_url, &base.base_url),
            api_key: pick_text(&req.api_key, &base.api_key),
            temperature: req.temperature.clone(),
            max_tokens: if req.max_tokens == 0 {
                base.max_tokens
            } else {
                req.max_tokens
            },
            request_timeout_secs: pick_u64(req.request_timeout_secs, base.request_timeout_secs),
            stream_timeout_secs: pick_u64(req.stream_timeout_secs, base.stream_timeout_secs),
            max_retries: if req.max_retries == 0 {
                base.max_retries
            } else {
                req.max_retries
            },
            retry_base_delay_ms: pick_u64(req.retry_base_delay_ms, base.retry_base_delay_ms),
            context_window: match req.context_window {
                Some(w) => Some(w),
                None => base.context_window,
            },
            loop_cycle_window: pick_usize(req.loop_cycle_window, base.loop_cycle_window),
            loop_max_total_chars: pick_usize(req.loop_max_total_chars, base.loop_max_total_chars),
        },
        None => base.clone(),
    }
}

/// To merge a configuration with itself changes nothing, and a merge does not depend on
/// whether the base was merged already.
pub proof fn lemma_merge_is_idempotent(base: LlmConfigV, req: LlmConfigV)
    ensures
        merged(base, base) == base,
        merged(merged(base, req), req) == merged(base, req),
{
}

} // verus!
