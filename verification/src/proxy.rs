//! How a request is served: which providers are tried in which order, what
//! they are sent, and what becomes of their answers.
//!
//! Whoever serves a request opens it, and then sends what `dispatch` says until
//! a provider delivers or none is left.

use vstd::prelude::*;

use axum::http::{HeaderMap, HeaderValue};
use reqwest::Url;
use serde_json::Value;

use crate::config::{target_views, TargetView, VirtualModelTarget};
use crate::headers::{
    bytes_of, extract_retry_after, extract_traceparent, fields, get, is_name, retry_delay,
    trace_parts,
};
use crate::json::{
    as_natural, as_text, as_truth, contents, empty_object, error_message, member, parse, parsed,
    render, rendered, set_member, text_value, Json,
};
use crate::reply::{TextReply, TextView};
use crate::router::{
    first_available, is_open_to, law_first_available_is_preferred, law_retry_after_is_kept,
    pool_chosen, AdaptivePriorityStrategy, Report, Selected,
};
use crate::state::{
    find_provider, lemma_find_provider, lemma_same_pool_found, pool, position, same_pool,
    set_health, set_usage, with_health, with_usage, AppState, Health, ProviderState, ProviderView,
    StateView, Usage,
};
use crate::telemetry::{copy_text, text_or_none, Transaction, TransactionView};
use crate::text::{decimal, push_decimal};

verus! {

/// What a client asks for.
#[derive(Debug, Clone, Copy, PartialEq, Eq, Structural)]
pub enum Operation {
    Chat,
    Embeddings,
}

impl Operation {
    /// Where a provider serves it, below the provider's base URL.
    pub open spec fn path(self) -> Seq<char> {
        match self {
            Operation::Chat => "chat/completions"@,
            Operation::Embeddings => "embeddings"@,
        }
    }

    /// What it is recorded as.
    pub open spec fn label(self) -> Seq<char> {
        match self {
            Operation::Chat => "chat"@,
            Operation::Embeddings => "embeddings"@,
        }
    }

    /// What a client is told when no provider is left.
    pub open spec fn exhausted(self) -> TextView {
        TextView {
            status: 502,
            text: match self {
                Operation::Chat =>
                    "All upstream chat completions providers failed or are rate-limited"@,
                Operation::Embeddings =>
                    "All upstream embeddings providers failed or are rate-limited"@,
            },
        }
    }

    fn path_text(&self) -> (s: &'static str)
        ensures
            s@ == self.path(),
    {
        match self {
            Operation::Chat => "chat/completions",
            Operation::Embeddings => "embeddings",
        }
    }

    fn label_text(&self) -> (s: &'static str)
        ensures
            s@ == self.label(),
    {
        match self {
            Operation::Chat => "chat",
            Operation::Embeddings => "embeddings",
        }
    }

    fn exhausted_reply(&self) -> (r: TextReply)
        ensures
            r@ == self.exhausted(),
    {
        let text = match self {
            Operation::Chat =>
                "All upstream chat completions providers failed or are rate-limited",
            Operation::Embeddings => "All upstream embeddings providers failed or are rate-limited",
        };
        TextReply { status: 502, text: text.to_owned() }
    }
}

/// A request that is being served.
#[derive(Debug)]
pub struct ProxyRequest {
    operation: Operation,
    payload: Value,
    candidates: Vec<VirtualModelTarget>,
    next: usize,
    attempts: usize,
    streaming: bool,
    trace_id: Option<String>,
    parent_span_id: Option<String>,
    traceparent: Option<Vec<u8>>,
    tracestate: Option<Vec<u8>>,
    started: u64,
    first_failure: Option<String>,
}

/// What a `ProxyRequest` holds.
pub struct RequestView {
    pub operation: Operation,
    /// What the client sent, asking for the model that was last tried.
    pub payload: Json,
    /// What can serve it, in order of preference.
    pub candidates: Seq<TargetView>,
    /// The first candidate that was not considered yet.
    pub next: int,
    /// How many candidates were tried.
    pub attempts: int,
    pub streaming: bool,
    pub trace_id: Option<Seq<char>>,
    pub parent_span_id: Option<Seq<char>>,
    pub traceparent: Option<Seq<u8>>,
    pub tracestate: Option<Seq<u8>>,
    pub started: u64,
    /// Why the first attempt that failed did.
    pub first_failure: Option<Seq<char>>,
}

/// What optional bytes are.
pub open spec fn bytes_or_none(b: Option<Vec<u8>>) -> Option<Seq<u8>> {
    match b {
        Some(v) => Some(v@),
        None => None,
    }
}

impl View for ProxyRequest {
    type V = RequestView;

    closed spec fn view(&self) -> RequestView {
        RequestView {
            operation: self.operation,
            payload: contents(self.payload),
            candidates: target_views(self.candidates@),
            next: self.next as int,
            attempts: self.attempts as int,
            streaming: self.streaming,
            trace_id: text_or_none(self.trace_id),
            parent_span_id: text_or_none(self.parent_span_id),
            traceparent: bytes_or_none(self.traceparent),
            tracestate: bytes_or_none(self.tracestate),
            started: self.started,
            first_failure: text_or_none(self.first_failure),
        }
    }
}

impl RequestView {
    /// What holds of every request that is being served: no candidate is tried
    /// twice, and what the client sent is an object.
    pub open spec fn sound(self) -> bool {
        &&& 0 <= self.attempts <= self.next <= self.candidates.len()
        &&& self.payload is Object
    }

    /// The request once an attempt failed, for the reason that is given.
    pub open spec fn noting(self, why: Seq<char>) -> RequestView {
        RequestView {
            first_failure: match self.first_failure {
                Some(first) => Some(first),
                None => Some(why),
            },
            ..self
        }
    }
}

/// Why an attempt failed that was answered with a status other than success.
pub open spec fn status_reason(status: u16) -> Seq<char> {
    if status == 429 {
        "429_tokens_exhausted"@
    } else {
        decimal(status as nat) + "_upstream_error"@
    }
}

/// Why an attempt failed whose answer broke off in its body.
pub open spec fn body_reason(status: u16) -> Seq<char> {
    decimal(status as nat) + "_body_failed"@
}

/// The model that a document asks for.
pub open spec fn asked_model(doc: Json) -> Option<Seq<char>> {
    match doc.member("model"@) {
        Some(m) => m.text(),
        None => None,
    }
}

/// Whether a document asks for its answer piece by piece.
pub open spec fn asks_for_stream(doc: Json) -> bool {
    match doc.member("stream"@) {
        Some(s) => s.truth() == Some(true),
        None => false,
    }
}

/// The first value of the header `name`, if it has one.
pub open spec fn first_value(headers: Map<Seq<char>, Seq<Seq<u8>>>, name: Seq<char>) -> Option<
    Seq<u8>,
> {
    if headers.contains_key(name) {
        Some(headers[name][0])
    } else {
        None
    }
}

fn header_bytes(headers: &HeaderMap<HeaderValue>, name: &str) -> (b: Option<Vec<u8>>)
    requires
        is_name(name@),
    ensures
        bytes_or_none(b) == first_value(fields(*headers), name@),
{
    match get(headers, name) {
        Some(v) => Some(vstd::slice::slice_to_vec(bytes_of(v))),
        None => None,
    }
}

fn copy_bytes(b: &Option<Vec<u8>>) -> (c: Option<Vec<u8>>)
    ensures
        bytes_or_none(c) == bytes_or_none(*b),
{
    match b {
        Some(v) => Some(vstd::slice::slice_to_vec(v.as_slice())),
        None => None,
    }
}

/// The request that a client's document opens, or what the client is told.
pub open spec fn opened(
    operation: Operation,
    state: StateView,
    doc: Json,
    headers: Map<Seq<char>, Seq<Seq<u8>>>,
    now: u64,
) -> Result<RequestView, TextView> {
    match asked_model(doc) {
        None => Err(TextView { status: 400, text: "Missing required 'model' field"@ }),
        Some(model) => if state.candidates(model).len() == 0 {
            Err(TextView { status: 400, text: "Invalid or unmapped virtual model: "@ + model })
        } else {
            Ok(
                RequestView {
                    operation,
                    payload: doc,
                    candidates: state.candidates(model),
                    next: 0,
                    attempts: 0,
                    streaming: operation is Chat && asks_for_stream(doc),
                    trace_id: match trace_parts(headers) {
                        Some((trace, _)) => Some(trace),
                        None => None,
                    },
                    parent_span_id: match trace_parts(headers) {
                        Some((_, span)) => Some(span),
                        None => None,
                    },
                    traceparent: first_value(headers, "traceparent"@),
                    tracestate: first_value(headers, "tracestate"@),
                    started: now,
                    first_failure: None,
                },
            )
        },
    }
}

/// The request that a client's body opens, or what the client is told.
pub open spec fn received(
    operation: Operation,
    state: StateView,
    body: Seq<u8>,
    headers: Map<Seq<char>, Seq<Seq<u8>>>,
    now: u64,
) -> Result<RequestView, TextView> {
    match parsed(body) {
        Err(why) => Err(TextView { status: 400, text: "Invalid JSON payload: "@ + why }),
        Ok(doc) => opened(operation, state, doc, headers, now),
    }
}

impl ProxyRequest {
    #[verifier::type_invariant]
    spec fn well_formed(self) -> bool {
        self@.sound()
    }

    /// Opens a request with the document that a client sent.
    pub fn open(
        operation: Operation,
        state: &AppState,
        payload: Value,
        headers: &HeaderMap<HeaderValue>,
        now: u64,
    ) -> (r: Result<ProxyRequest, TextReply>)
        ensures
            match r {
                Ok(request) => request@.sound() && opened(
                    operation,
                    state@,
                    contents(payload),
                    fields(*headers),
                    now,
                ) == Ok::<RequestView, TextView>(request@),
                Err(reply) => opened(operation, state@, contents(payload), fields(*headers), now)
                    == Err::<RequestView, TextView>(reply@),
            },
    {
        let model = match member(&payload, "model") {
            Some(m) => as_text(m),
            None => None,
        };
        let model = match model {
            Some(m) => m,
            None => {
                return Err(
                    TextReply { status: 400, text: "Missing required 'model' field".to_owned() },
                );
            },
        };
        let candidates = state.resolve_candidates(model);
        if candidates.len() == 0 {
            assert(target_views(candidates@).len() == 0);
            return Err(
                TextReply {
                    status: 400,
                    text: "Invalid or unmapped virtual model: ".to_owned().concat(model),
                },
            );
        }
        assert(target_views(candidates@).len() > 0);
        let streaming = match operation {
            Operation::Chat => match member(&payload, "stream") {
                Some(s) => match as_truth(s) {
                    Some(b) => b,
                    None => false,
                },
                None => false,
            },
            Operation::Embeddings => false,
        };
        let (trace_id, parent_span_id) = extract_traceparent(headers);
        proof {
            reveal_strlit("traceparent");
            reveal_strlit("tracestate");
        }
        let traceparent = header_bytes(headers, "traceparent");
        let tracestate = header_bytes(headers, "tracestate");
        Ok(
            ProxyRequest {
                operation,
                payload,
                candidates,
                next: 0,
                attempts: 0,
                streaming,
                trace_id,
                parent_span_id,
                traceparent,
                tracestate,
                started: now,
                first_failure: None,
            },
        )
    }

    fn receive(
        operation: Operation,
        state: &AppState,
        headers: &HeaderMap<HeaderValue>,
        body: &[u8],
        now: u64,
    ) -> (r: Result<ProxyRequest, TextReply>)
        ensures
            match r {
                Ok(request) => request@.sound() && received(
                    operation,
                    state@,
                    body@,
                    fields(*headers),
                    now,
                ) == Ok::<RequestView, TextView>(request@),
                Err(reply) => received(operation, state@, body@, fields(*headers), now) == Err::<
                    RequestView,
                    TextView,
                >(reply@),
            },
    {
        match parse(body) {
            Ok(payload) => ProxyRequest::open(operation, state, payload, headers, now),
            Err(e) => {
                let why = error_message(&e);
                Err(
                    TextReply {
                        status: 400,
                        text: "Invalid JSON payload: ".to_owned().concat(why.as_str()),
                    },
                )
            },
        }
    }
}

/// Opens a request for embeddings, `POST /v1/embeddings`.
pub fn create_embeddings(
    state: &AppState,
    headers: &HeaderMap<HeaderValue>,
    body: &[u8],
    now: u64,
) -> (r: Result<ProxyRequest, TextReply>)
    ensures
        match r {
            Ok(request) => request@.sound() && received(
                Operation::Embeddings,
                state@,
                body@,
                fields(*headers),
                now,
            ) == Ok::<RequestView, TextView>(request@),
            Err(reply) => received(Operation::Embeddings, state@, body@, fields(*headers), now)
                == Err::<RequestView, TextView>(reply@),
        },
{
    ProxyRequest::receive(Operation::Embeddings, state, headers, body, now)
}

/// Opens a request for a chat completion, `POST /v1/chat/completions`.
pub fn create_chat_completions(
    state: &AppState,
    headers: &HeaderMap<HeaderValue>,
    body: &[u8],
    now: u64,
) -> (r: Result<ProxyRequest, TextReply>)
    ensures
        match r {
            Ok(request) => request@.sound() && received(
                Operation::Chat,
                state@,
                body@,
                fields(*headers),
                now,
            ) == Ok::<RequestView, TextView>(request@),
            Err(reply) => received(Operation::Chat, state@, body@, fields(*headers), now) == Err::<
                RequestView,
                TextView,
            >(reply@),
        },
{
    ProxyRequest::receive(Operation::Chat, state, headers, body, now)
}

/// What `reqwest::Url::join` makes of a URL and a path, written out, unless it
/// fails.
pub uninterp spec fn url_joined(base: Url, path: Seq<char>) -> Option<Seq<char>>;

/// Calls `reqwest::Url::join`, and turns the URL into a text. Both depend on
/// the two arguments alone.
#[verifier::external_body]
fn join_url(base: &Url, path: &str) -> (url: Option<String>)
    ensures
        match url {
            Some(s) => url_joined(*base, path@) == Some(s@),
            None => url_joined(*base, path@) is None,
        },
{
    base.join(path).ok().map(String::from)
}

/// What a provider is sent: a `POST` with a JSON body.
#[derive(Debug)]
pub struct UpstreamRequest {
    /// The provider.
    pub provider: String,
    /// Its model.
    pub model: String,
    /// Whether the attempt probes the provider.
    pub is_probe: bool,
    pub url: String,
    /// The header `Authorization`.
    pub authorization: String,
    /// The header `Content-Type`.
    pub content_type: String,
    /// The header `traceparent`, if the client sent one.
    pub traceparent: Option<Vec<u8>>,
    /// The header `tracestate`, if the client sent one.
    pub tracestate: Option<Vec<u8>>,
    pub body: Vec<u8>,
    /// For how many seconds the headers of the answer are waited for.
    pub timeout_secs: u64,
}

/// What an `UpstreamRequest` says.
pub struct UpstreamView {
    pub provider: Seq<char>,
    pub model: Seq<char>,
    pub is_probe: bool,
    pub url: Seq<char>,
    pub authorization: Seq<char>,
    pub content_type: Seq<char>,
    pub traceparent: Option<Seq<u8>>,
    pub tracestate: Option<Seq<u8>>,
    pub body: Seq<u8>,
    pub timeout_secs: u64,
}

impl View for UpstreamRequest {
    type V = UpstreamView;

    open spec fn view(&self) -> UpstreamView {
        UpstreamView {
            provider: self.provider@,
            model: self.model@,
            is_probe: self.is_probe,
            url: self.url@,
            authorization: self.authorization@,
            content_type: self.content_type@,
            traceparent: bytes_or_none(self.traceparent),
            tracestate: bytes_or_none(self.tracestate),
            body: self.body@,
            timeout_secs: self.timeout_secs,
        }
    }
}

/// The model of the first candidate, from `from` on, at the provider.
pub open spec fn model_at(candidates: Seq<TargetView>, provider: Seq<char>, from: int) -> Seq<char>
    decreases candidates.len() - from,
{
    if from < 0 || from >= candidates.len() {
        Seq::empty()
    } else if candidates[from].provider == provider {
        candidates[from].model
    } else {
        model_at(candidates, provider, from + 1)
    }
}

/// A document that asks for another model, the same in everything else.
pub open spec fn asking_for(doc: Json, model: Seq<char>) -> Json {
    Json::Object(doc.members().insert("model"@, Json::Text(model)))
}

/// The counters once more was counted.
pub open spec fn counted(u: Usage, more: Usage) -> Usage {
    Usage {
        requests: u.requests.wrapping_add(more.requests),
        successes: u.successes.wrapping_add(more.successes),
        tokens_input: u.tokens_input.wrapping_add(more.tokens_input),
        tokens_output: u.tokens_output.wrapping_add(more.tokens_output),
    }
}

fn count(u: Usage, more: Usage) -> (r: Usage)
    ensures
        r == counted(u, more),
{
    Usage {
        requests: u.requests.wrapping_add(more.requests),
        successes: u.successes.wrapping_add(more.successes),
        tokens_input: u.tokens_input.wrapping_add(more.tokens_input),
        tokens_output: u.tokens_output.wrapping_add(more.tokens_output),
    }
}

/// One request.
pub open spec fn one_request() -> Usage {
    Usage { requests: 1, successes: 0, tokens_input: 0, tokens_output: 0 }
}

/// One success, and the tokens that it took.
pub open spec fn one_success(tokens: (u64, u64)) -> Usage {
    Usage { requests: 0, successes: 1, tokens_input: tokens.0, tokens_output: tokens.1 }
}

/// A request and the state that it is served from, once a candidate was tried:
/// what is sent, unless nothing can be.
pub struct Attempt {
    pub request: RequestView,
    pub state: StateView,
    pub sent: Option<UpstreamView>,
}

/// What comes of trying a candidate, whose provider is in the pool, at a URL.
pub open spec fn attempted(
    r: RequestView,
    s: StateView,
    candidate: int,
    provider: int,
    is_probe: bool,
    url: Option<Seq<char>>,
) -> Attempt {
    let name = r.candidates[candidate].provider;
    let model = model_at(r.candidates, name, 0);
    let request = RequestView { next: candidate + 1, attempts: r.attempts + 1, ..r };
    match url {
        None => Attempt { request: request.noting("invalid_base_url"@), state: s, sent: None },
        Some(url) => Attempt {
            request: RequestView { payload: asking_for(r.payload, model), ..request },
            state: s.with_providers(
                with_usage(
                    s.providers,
                    provider,
                    counted(s.providers[provider].usage, one_request()),
                ),
            ),
            sent: Some(
                UpstreamView {
                    provider: name,
                    model,
                    is_probe,
                    url,
                    authorization: "Bearer "@ + s.providers[provider].api_key,
                    content_type: "application/json"@,
                    traceparent: r.traceparent,
                    tracestate: r.tracestate,
                    body: rendered(asking_for(r.payload, model)),
                    timeout_secs: s.upstream_timeout_secs,
                },
            ),
        },
    }
}

/// What comes of choosing the candidate at `i` at `now`, and of trying it where
/// its provider's URL leads.
pub open spec fn tried(r: RequestView, s: StateView, i: int, now: u64) -> Attempt {
    let c = r.candidates[i];
    let p = find_provider(s.providers, c.provider, 0)->0;
    attempted(
        r,
        s.with_providers(pool_chosen(s.providers, c, now)),
        i,
        p,
        !(s.providers[p].health.circuit is Closed),
        url_joined(s.providers[p].base_url, r.operation.path()),
    )
}

/// What comes of trying the candidates that were not considered yet, in order
/// and each where it may be chosen, until one can be sent something.
pub open spec fn dispatched(r: RequestView, s: StateView, now: u64) -> Attempt
    decreases r.candidates.len() - r.next,
{
    match first_available(s.providers, r.candidates, r.next, now) {
        None => Attempt { request: r, state: s, sent: None },
        Some(i) => {
            let a = tried(r, s, i, now);
            if a.sent is Some || i < r.next || i >= r.candidates.len() {
                a
            } else {
                dispatched(a.request, a.state, now)
            }
        },
    }
}

fn model_of<'a>(candidates: &'a Vec<VirtualModelTarget>, provider: &str) -> (m: Option<&'a String>)
    ensures
        match m {
            Some(s) => s@ == model_at(target_views(candidates@), provider@, 0),
            None => forall|i: int|
                0 <= i < candidates@.len() ==> (#[trigger] candidates@[i]).provider@ != provider@,
        },
{
    let mut i: usize = 0;
    while i < candidates.len()
        invariant
            i <= candidates@.len(),
            model_at(target_views(candidates@), provider@, 0) == model_at(
                target_views(candidates@),
                provider@,
                i as int,
            ),
            forall|j: int| 0 <= j < i ==> (#[trigger] candidates@[j]).provider@ != provider@,
        decreases candidates@.len() - i,
    {
        assert(target_views(candidates@)[i as int] == candidates@[i as int]@);
        if *candidates[i].provider.as_str() == *provider {
            return Some(&candidates[i].model);
        }
        i += 1;
    }
    None
}

impl ProxyRequest {
    fn note(&mut self, why: String)
        ensures
            final(self)@ == old(self)@.noting(why@),
    {
        proof {
            use_type_invariant(&*self);
        }
        if self.first_failure.is_none() {
            self.first_failure = Some(why);
        }
    }

    /// Tries the candidate that was selected, at a URL, unless there is none.
    pub fn attempt(
        &mut self,
        state: &mut AppState,
        selected: Selected,
        url: Option<String>,
    ) -> (sent: Option<UpstreamRequest>)
        requires
            old(self)@.next <= selected.candidate < old(self)@.candidates.len(),
            selected.provider < old(state)@.providers.len(),
        ensures
            ({
                let a = attempted(
                    old(self)@,
                    old(state)@,
                    selected.candidate as int,
                    selected.provider as int,
                    selected.is_probe,
                    text_or_none(url),
                );
                &&& final(self)@ == a.request
                &&& final(self)@.sound()
                &&& final(state)@ == a.state
                &&& match sent {
                    Some(u) => a.sent == Some(u@),
                    None => a.sent is None,
                }
            }),
    {
        proof {
            use_type_invariant(&*self);
            assert(target_views(self.candidates@)[selected.candidate as int]
                == self.candidates@[selected.candidate as int]@);
            assert(pool(state.providers@)[selected.provider as int]
                == state.providers@[selected.provider as int]@);
        }
        let total: usize = self.candidates.len();
        assert(selected.candidate < total);
        let provider = self.candidates[selected.candidate].provider.clone();
        let model = match model_of(&self.candidates, provider.as_str()) {
            Some(m) => m.clone(),
            None => String::new(),
        };
        self.next = selected.candidate + 1;
        self.attempts = self.attempts + 1;
        match url {
            None => {
                self.note("invalid_base_url".to_owned());
                None
            },
            Some(url) => {
                let mut payload = empty_object();
                std::mem::swap(&mut payload, &mut self.payload);
                set_member(&mut payload, "model", text_value(model.clone()));
                let body = render(&payload);
                self.payload = payload;
                let usage = count(
                    state.providers[selected.provider].usage,
                    Usage { requests: 1, successes: 0, tokens_input: 0, tokens_output: 0 },
                );
                let authorization = "Bearer ".to_owned().concat(
                    state.providers[selected.provider].api_key.as_str(),
                );
                set_usage(&mut state.providers, selected.provider, usage);
                Some(
                    UpstreamRequest {
                        provider,
                        model,
                        is_probe: selected.is_probe,
                        url,
                        authorization,
                        content_type: "application/json".to_owned(),
                        traceparent: copy_bytes(&self.traceparent),
                        tracestate: copy_bytes(&self.tracestate),
                        body,
                        timeout_secs: state.upstream_timeout_secs,
                    },
                )
            },
        }
    }

    /// What to send next, and to whom; or what to tell the client where no
    /// candidate is left that may be chosen.
    pub fn dispatch(
        &mut self,
        state: &mut AppState,
        strategy: &AdaptivePriorityStrategy,
        now: u64,
    ) -> (r: Result<UpstreamRequest, TextReply>)
        ensures
            ({
                let a = dispatched(old(self)@, old(state)@, now);
                &&& final(self)@ == a.request
                &&& final(self)@.sound()
                &&& final(state)@ == a.state
                &&& match r {
                    Ok(u) => a.sent == Some(u@),
                    Err(reply) => a.sent is None && reply@ == old(self)@.operation.exhausted(),
                }
            }),
    {
        let ghost start = dispatched(self@, state@, now);
        loop
            invariant
                start == dispatched(old(self)@, old(state)@, now),
                start == dispatched(self@, state@, now),
                self@.operation == old(self)@.operation,
            decreases self@.candidates.len() - self@.next,
        {
            proof {
                use_type_invariant(&*self);
            }
            let ghost s = state@;
            match strategy.select(&mut state.providers, &self.candidates, self.next, now) {
                None => {
                    return Err(self.operation.exhausted_reply());
                },
                Some(selected) => {
                    assert(pool(state.providers@)[selected.provider as int]
                        == state.providers@[selected.provider as int]@);
                    assert(s.providers[selected.provider as int].base_url
                        == state.providers@[selected.provider as int].base_url);
                    let url = join_url(
                        &state.providers[selected.provider].base_url,
                        self.operation.path_text(),
                    );
                    match self.attempt(state, selected, url) {
                        Some(u) => {
                            return Ok(u);
                        },
                        None => {},
                    }
                },
            }
        }
    }
}

/// The pool once an attempt at the provider `name` was reported.
pub open spec fn pool_learned(
    strategy: AdaptivePriorityStrategy,
    providers: Seq<ProviderView>,
    name: Seq<char>,
    report: Report,
    now: u64,
) -> Seq<ProviderView> {
    match find_provider(providers, name, 0) {
        Some(p) => with_health(
            providers,
            p,
            strategy.learned(providers[p].health, report, now),
        ),
        None => providers,
    }
}

/// The pool once a provider could not be reached, or did not answer in time.
pub open spec fn pool_unanswered(
    strategy: AdaptivePriorityStrategy,
    providers: Seq<ProviderView>,
    sent: UpstreamView,
    now: u64,
) -> Seq<ProviderView> {
    pool_learned(
        strategy,
        providers,
        sent.provider,
        Report { success: false, is_probe: sent.is_probe, status: None, retry_after: None },
        now,
    )
}

/// The pool once the body of a provider's answer could not be read.
pub open spec fn pool_body_lost(
    strategy: AdaptivePriorityStrategy,
    providers: Seq<ProviderView>,
    sent: UpstreamView,
    status: u16,
    now: u64,
) -> Seq<ProviderView> {
    pool_learned(
        strategy,
        providers,
        sent.provider,
        Report { success: false, is_probe: sent.is_probe, status: Some(status), retry_after: None },
        now,
    )
}

/// The pool once more was counted for the provider `name`.
pub open spec fn pool_counted(providers: Seq<ProviderView>, name: Seq<char>, more: Usage) -> Seq<
    ProviderView,
> {
    match find_provider(providers, name, 0) {
        Some(p) => with_usage(providers, p, counted(providers[p].usage, more)),
        None => providers,
    }
}

fn report_to(
    strategy: &AdaptivePriorityStrategy,
    providers: &mut Vec<ProviderState>,
    name: &str,
    report: Report,
    now: u64,
)
    ensures
        pool(final(providers)@) == pool_learned(
            *strategy,
            pool(old(providers)@),
            name@,
            report,
            now,
        ),
{
    match position(providers, name) {
        Some(p) => {
            assert(pool(providers@)[p as int] == providers@[p as int]@);
            let health = strategy.feedback(providers[p].health, report, now);
            set_health(providers, p, health);
        },
        None => {},
    }
}

fn count_for(providers: &mut Vec<ProviderState>, name: &str, more: Usage)
    ensures
        pool(final(providers)@) == pool_counted(pool(old(providers)@), name@, more),
{
    match position(providers, name) {
        Some(p) => {
            assert(pool(providers@)[p as int] == providers@[p as int]@);
            let usage = count(providers[p].usage, more);
            set_usage(providers, p, usage);
        },
        None => {},
    }
}

/// What a document says of the tokens that were used: those of the prompt, and
/// those of the completion.
pub open spec fn tokens_in(doc: Json) -> (u64, u64) {
    (tokens_named(doc, "prompt_tokens"@), tokens_named(doc, "completion_tokens"@))
}

/// What a document says of the tokens that were used for `what`: nothing is
/// none.
pub open spec fn tokens_named(doc: Json, what: Seq<char>) -> u64 {
    match doc.member("usage"@) {
        Some(usage) => match usage.member(what) {
            Some(n) => match n.natural() {
                Some(k) => k,
                None => 0,
            },
            None => 0,
        },
        None => 0,
    }
}

/// What the body of an answer says of the tokens that were used.
pub open spec fn tokens_used(body: Seq<u8>) -> (u64, u64) {
    match parsed(body) {
        Ok(doc) => tokens_in(doc),
        Err(_) => (0, 0),
    }
}

fn token_count(usage: Option<&Value>, what: &str) -> (n: u64)
    ensures
        n == match usage {
            Some(u) => match contents(*u).member(what@) {
                Some(m) => match m.natural() {
                    Some(k) => k,
                    None => 0,
                },
                None => 0,
            },
            None => 0,
        },
{
    match usage {
        Some(u) => match member(u, what) {
            Some(m) => match as_natural(m) {
                Some(k) => k,
                None => 0,
            },
            None => 0,
        },
        None => 0,
    }
}

/// Reads out of an answer how many tokens were used.
pub fn token_counts(doc: &Value) -> (n: (u64, u64))
    ensures
        n == tokens_in(contents(*doc)),
{
    let usage = member(doc, "usage");
    (token_count(usage, "prompt_tokens"), token_count(usage, "completion_tokens"))
}

/// What the client is answered, beside the body.
#[derive(Debug)]
pub struct Delivery {
    pub status: u16,
    /// What is recorded of it.
    pub record: Transaction,
}

/// What to do about an answer of which the headers came.
#[derive(Debug)]
pub enum Answer {
    /// Nothing: dispatch the request again.
    TryNext,
    /// Read the body.
    ReadBody,
    /// Pass the body on as it comes.
    Stream(Delivery),
}

/// What is to be done about an answer.
pub enum AnswerView {
    TryNext,
    ReadBody,
    Stream(u16, TransactionView),
}

impl View for Answer {
    type V = AnswerView;

    open spec fn view(&self) -> AnswerView {
        match self {
            Answer::TryNext => AnswerView::TryNext,
            Answer::ReadBody => AnswerView::ReadBody,
            Answer::Stream(d) => AnswerView::Stream(d.status, d.record@),
        }
    }
}

/// Whether a status tells of success.
pub open spec fn is_success(status: u16) -> bool {
    200 <= status <= 299
}

impl RequestView {
    /// The request once an answer's status is known.
    pub open spec fn after_status(self, status: u16) -> RequestView {
        if is_success(status) {
            self
        } else {
            self.noting(status_reason(status))
        }
    }

    /// The request once a provider could not be reached.
    pub open spec fn after_no_answer(self) -> RequestView {
        self.noting("connection_failed"@)
    }

    /// The request once the body of an answer could not be read.
    pub open spec fn after_lost_body(self, status: u16) -> RequestView {
        self.noting(body_reason(status))
    }

    /// What is recorded of a request that was served at `now`.
    pub open spec fn recorded(self, sent: UpstreamView, tokens: (u64, u64), now: u64) -> TransactionView {
        TransactionView {
            operation: self.operation.label(),
            provider: sent.provider,
            model: sent.model,
            input_tokens: tokens.0,
            output_tokens: tokens.1,
            duration: if now >= self.started {
                (now - self.started) as u64
            } else {
                0
            },
            attempts: self.attempts,
            failure_reason: self.first_failure,
            trace_id: self.trace_id,
            parent_span_id: self.parent_span_id,
        }
    }

    /// The providers once an answer's headers came, and what to do about it.
    pub open spec fn answered(
        self,
        strategy: AdaptivePriorityStrategy,
        providers: Seq<ProviderView>,
        sent: UpstreamView,
        status: u16,
        retry_after: Option<u64>,
        now: u64,
    ) -> (Seq<ProviderView>, AnswerView) {
        if !is_success(status) {
            (
                pool_learned(
                    strategy,
                    providers,
                    sent.provider,
                    Report {
                        success: false,
                        is_probe: sent.is_probe,
                        status: Some(status),
                        retry_after,
                    },
                    now,
                ),
                AnswerView::TryNext,
            )
        } else {
            match self.operation {
                Operation::Embeddings => (providers, AnswerView::ReadBody),
                Operation::Chat => (
                    pool_counted(
                        pool_learned(
                            strategy,
                            providers,
                            sent.provider,
                            Report {
                                success: true,
                                is_probe: sent.is_probe,
                                status: Some(status),
                                retry_after: None,
                            },
                            now,
                        ),
                        sent.provider,
                        one_success((0, 0)),
                    ),
                    if self.streaming {
                        AnswerView::Stream(200, self.recorded(sent, (0, 0), now))
                    } else {
                        AnswerView::ReadBody
                    },
                ),
            }
        }
    }

    /// The providers once the body of an answer came.
    pub open spec fn completed(
        self,
        strategy: AdaptivePriorityStrategy,
        providers: Seq<ProviderView>,
        sent: UpstreamView,
        status: u16,
        tokens: (u64, u64),
        now: u64,
    ) -> Seq<ProviderView> {
        let told = match self.operation {
            Operation::Chat => providers,
            Operation::Embeddings => pool_learned(
                strategy,
                providers,
                sent.provider,
                Report {
                    success: true,
                    is_probe: sent.is_probe,
                    status: Some(status),
                    retry_after: None,
                },
                now,
            ),
        };
        pool_counted(told, sent.provider, one_success(tokens))
    }
}

impl ProxyRequest {
    fn record(&self, sent: &UpstreamRequest, tokens: (u64, u64), now: u64) -> (t: Transaction)
        ensures
            t@ == self@.recorded(sent@, tokens, now),
    {
        Transaction {
            operation: self.operation.label_text().to_owned(),
            provider: sent.provider.clone(),
            model: sent.model.clone(),
            input_tokens: tokens.0,
            output_tokens: tokens.1,
            duration: if now >= self.started { now - self.started } else { 0 },
            attempts: self.attempts,
            failure_reason: copy_text(&self.first_failure),
            trace_id: copy_text(&self.trace_id),
            parent_span_id: copy_text(&self.parent_span_id),
        }
    }

    /// Takes note that a provider could not be reached, or did not answer in
    /// time. The request is then dispatched again.
    pub fn connection_failed(
        &mut self,
        state: &mut AppState,
        strategy: &AdaptivePriorityStrategy,
        sent: &UpstreamRequest,
        now: u64,
    )
        ensures
            final(self)@ == old(self)@.after_no_answer(),
            final(self)@.sound(),
            final(state)@ == old(state)@.with_providers(
                pool_unanswered(*strategy, old(state)@.providers, sent@, now),
            ),
    {
        report_to(
            strategy,
            &mut state.providers,
            sent.provider.as_str(),
            Report { success: false, is_probe: sent.is_probe, status: None, retry_after: None },
            now,
        );
        self.note("connection_failed".to_owned());
        proof {
            use_type_invariant(&*self);
        }
    }

    /// Takes note of an answer's status, and of how long the provider asked to
    /// be left alone.
    pub fn status_received(
        &mut self,
        state: &mut AppState,
        strategy: &AdaptivePriorityStrategy,
        sent: &UpstreamRequest,
        status: u16,
        retry_after: Option<u64>,
        now: u64,
    ) -> (r: Answer)
        ensures
            ({
                let a = old(self)@.answered(
                    *strategy,
                    old(state)@.providers,
                    sent@,
                    status,
                    retry_after,
                    now,
                );
                &&& final(self)@ == old(self)@.after_status(status)
                &&& final(self)@.sound()
                &&& final(state)@ == old(state)@.with_providers(a.0)
                &&& r@ == a.1
            }),
    {
        let success = 200 <= status && status <= 299;
        let report = Report {
            success,
            is_probe: sent.is_probe,
            status: Some(status),
            retry_after: if success { None } else { retry_after },
        };
        let name = sent.provider.as_str();
        proof {
            use_type_invariant(&*self);
        }
        if !success {
            report_to(strategy, &mut state.providers, name, report, now);
            let mut why = String::new();
            if status == 429 {
                why.append("429_tokens_exhausted");
            } else {
                push_decimal(&mut why, status as u128);
                why.append("_upstream_error");
            }
            assert(why@ =~= status_reason(status));
            self.note(why);
            proof {
                use_type_invariant(&*self);
            }
            return Answer::TryNext;
        }
        match self.operation {
            Operation::Embeddings => Answer::ReadBody,
            Operation::Chat => {
                report_to(strategy, &mut state.providers, name, report, now);
                count_for(
                    &mut state.providers,
                    name,
                    Usage { requests: 0, successes: 1, tokens_input: 0, tokens_output: 0 },
                );
                if self.streaming {
                    Answer::Stream(Delivery { status: 200, record: self.record(sent, (0, 0), now) })
                } else {
                    Answer::ReadBody
                }
            },
        }
    }

    /// Takes note of an answer's headers.
    ///
    /// Where they do not tell of success, the next candidate is tried. A chat
    /// completion counts as a success from here on.
    pub fn headers_received(
        &mut self,
        state: &mut AppState,
        strategy: &AdaptivePriorityStrategy,
        sent: &UpstreamRequest,
        status: u16,
        headers: &HeaderMap<HeaderValue>,
        now: u64,
    ) -> (r: Answer)
        ensures
            ({
                let a = old(self)@.answered(
                    *strategy,
                    old(state)@.providers,
                    sent@,
                    status,
                    retry_delay(fields(*headers)),
                    now,
                );
                &&& final(self)@ == old(self)@.after_status(status)
                &&& final(self)@.sound()
                &&& final(state)@ == old(state)@.with_providers(a.0)
                &&& r@ == a.1
            }),
    {
        let retry_after = extract_retry_after(headers);
        self.status_received(state, strategy, sent, status, retry_after, now)
    }

    /// Takes note that the body of an answer could not be read. The request is
    /// then dispatched again.
    pub fn body_failed(
        &mut self,
        state: &mut AppState,
        strategy: &AdaptivePriorityStrategy,
        sent: &UpstreamRequest,
        status: u16,
        now: u64,
    )
        ensures
            final(self)@ == old(self)@.after_lost_body(status),
            final(self)@.sound(),
            final(state)@ == old(state)@.with_providers(
                pool_body_lost(*strategy, old(state)@.providers, sent@, status, now),
            ),
    {
        report_to(
            strategy,
            &mut state.providers,
            sent.provider.as_str(),
            Report {
                success: false,
                is_probe: sent.is_probe,
                status: Some(status),
                retry_after: None,
            },
            now,
        );
        let mut why = String::new();
        push_decimal(&mut why, status as u128);
        why.append("_body_failed");
        assert(why@ =~= body_reason(status));
        self.note(why);
        proof {
            use_type_invariant(&*self);
        }
    }

    /// Takes note of the tokens that an answer used, and says what the client
    /// is answered.
    pub fn complete(
        &self,
        state: &mut AppState,
        strategy: &AdaptivePriorityStrategy,
        sent: &UpstreamRequest,
        status: u16,
        tokens: (u64, u64),
        now: u64,
    ) -> (d: Delivery)
        ensures
            final(state)@ == old(state)@.with_providers(
                self@.completed(*strategy, old(state)@.providers, sent@, status, tokens, now),
            ),
            d.status == 200,
            d.record@ == self@.recorded(sent@, tokens, now),
    {
        let name = sent.provider.as_str();
        match self.operation {
            Operation::Chat => {},
            Operation::Embeddings => {
                report_to(
                    strategy,
                    &mut state.providers,
                    name,
                    Report {
                        success: true,
                        is_probe: sent.is_probe,
                        status: Some(status),
                        retry_after: None,
                    },
                    now,
                );
            },
        }
        count_for(
            &mut state.providers,
            name,
            Usage {
                requests: 0,
                successes: 1,
                tokens_input: tokens.0,
                tokens_output: tokens.1,
            },
        );
        Delivery { status: 200, record: self.record(sent, tokens, now) }
    }

    /// Takes note of the body of an answer, and says what the client is
    /// answered beside it.
    pub fn body_received(
        &self,
        state: &mut AppState,
        strategy: &AdaptivePriorityStrategy,
        sent: &UpstreamRequest,
        status: u16,
        body: &[u8],
        now: u64,
    ) -> (d: Delivery)
        ensures
            final(state)@ == old(state)@.with_providers(
                self@.completed(
                    *strategy,
                    old(state)@.providers,
                    sent@,
                    status,
                    tokens_used(body@),
                    now,
                ),
            ),
            d.status == 200,
            d.record@ == self@.recorded(sent@, tokens_used(body@), now),
    {
        let tokens = match parse(body) {
            Ok(doc) => token_counts(&doc),
            Err(_) => (0, 0),
        };
        self.complete(state, strategy, sent, status, tokens, now)
    }
}

/// The pool once the provider `name` broke off in the middle of an answer.
pub open spec fn pool_penalized(providers: Seq<ProviderView>, name: Seq<char>) -> Seq<ProviderView> {
    match find_provider(providers, name, 0) {
        Some(p) => {
            let h = providers[p].health;
            let failures: u32 = if h.consecutive_failures == u32::MAX {
                u32::MAX
            } else {
                (h.consecutive_failures + 1) as u32
            };
            with_health(providers, p, Health { consecutive_failures: failures, ..h })
        },
        None => providers,
    }
}

/// Takes note that a provider broke off in the middle of an answer that was
/// being passed on. No other is tried: the client has part of the answer.
pub fn stream_failed(state: &mut AppState, provider: &str)
    ensures
        final(state)@ == old(state)@.with_providers(
            pool_penalized(old(state)@.providers, provider@),
        ),
{
    match position(&state.providers, provider) {
        Some(p) => {
            assert(pool(state.providers@)[p as int] == state.providers@[p as int]@);
            let mut health = state.providers[p].health;
            if health.consecutive_failures < u32::MAX {
                health.consecutive_failures += 1;
            }
            set_health(&mut state.providers, p, health);
        },
        None => {},
    }
}

/// What one step of `dispatched` comes to.
pub proof fn lemma_one_attempt(r: RequestView, s: StateView, now: u64)
    requires
        r.sound(),
        first_available(s.providers, r.candidates, r.next, now) is Some,
    ensures
        ({
            let i = first_available(s.providers, r.candidates, r.next, now)->0;
            let c = r.candidates[i];
            let found = find_provider(s.providers, c.provider, 0);
            let p = found->0;
            let a = tried(r, s, i, now);
            &&& r.next <= i < r.candidates.len()
            &&& is_open_to(s.providers, c, now)
            &&& found is Some
            &&& 0 <= p < s.providers.len()
            &&& a.request.sound()
            &&& a.request.next == i + 1
            &&& a.request.candidates == r.candidates
            &&& a.request.operation == r.operation
            &&& a.request.payload.members().remove("model"@) =~= r.payload.members().remove("model"@)
            &&& same_pool(a.state.providers, s.providers)
            &&& a.state == s.with_providers(a.state.providers)
            &&& forall|q: int|
                0 <= q < s.providers.len() && #[trigger] a.state.providers[q].health.available(now)
                    ==> s.providers[q].health.available(now) && s.providers[q].health.circuit
                    == a.state.providers[q].health.circuit
        }),
{
    law_first_available_is_preferred(s.providers, r.candidates, r.next, now);
    let i = first_available(s.providers, r.candidates, r.next, now)->0;
    lemma_find_provider(s.providers, r.candidates[i].provider, 0);
}

/// A dispatch goes on from where the last one stopped: a candidate that was
/// tried is not tried again, and what is left of the request is as it was.
pub proof fn law_dispatch_advances(r: RequestView, s: StateView, now: u64)
    requires
        r.sound(),
    ensures
        ({
            let a = dispatched(r, s, now);
            &&& a.request.sound()
            &&& r.next <= a.request.next
            &&& a.sent is Some ==> r.next < a.request.next
            &&& r.first_failure is Some ==> a.request.first_failure == r.first_failure
            &&& a.request.candidates == r.candidates
            &&& a.request.operation == r.operation
        }),
    decreases r.candidates.len() - r.next,
{
    if let Some(i) = first_available(s.providers, r.candidates, r.next, now) {
        lemma_one_attempt(r, s, now);
        let a = tried(r, s, i, now);
        if a.sent is None {
            law_dispatch_advances(a.request, a.state, now);
        }
    }
}

/// What is recorded of a request that was served names the first failure, and
/// none if there was none.
pub proof fn law_first_failure_is_recorded(
    r: RequestView,
    first: Seq<char>,
    second: Seq<char>,
    sent: UpstreamView,
    tokens: (u64, u64),
    now: u64,
)
    requires
        r.first_failure is None,
    ensures
        r.recorded(sent, tokens, now).failure_reason is None,
        r.noting(first).recorded(sent, tokens, now).failure_reason == Some(first),
        r.noting(first).noting(second).recorded(sent, tokens, now).failure_reason == Some(first),
{
}

/// How many providers are sent something when a request is dispatched again and
/// again, in whatever states it finds the providers.
pub open spec fn sends(r: RequestView, found: Seq<(StateView, u64)>) -> nat
    decreases found.len(),
{
    if found.len() == 0 {
        0
    } else {
        let a = dispatched(r, found[0].0, found[0].1);
        (if a.sent is Some {
            1nat
        } else {
            0nat
        }) + sends(a.request, found.drop_first())
    }
}

/// However often a request is dispatched, and whatever happens to the providers
/// meanwhile, no more providers are sent something than there are candidates.
pub proof fn law_sends_are_bounded(r: RequestView, found: Seq<(StateView, u64)>)
    requires
        r.sound(),
    ensures
        sends(r, found) <= r.candidates.len() - r.next,
    decreases found.len(),
{
    if found.len() > 0 {
        law_dispatch_advances(r, found[0].0, found[0].1);
        law_sends_are_bounded(
            dispatched(r, found[0].0, found[0].1).request,
            found.drop_first(),
        );
    }
}

/// A provider is sent what the client sent, but for the model, with the trace
/// that the client sent; what it is sent asks for the model of the first
/// candidate at that provider.
pub proof fn law_payload_is_passed_on(r: RequestView, s: StateView, now: u64)
    requires
        r.sound(),
    ensures
        ({
            let a = dispatched(r, s, now);
            &&& a.request.payload.members().remove("model"@) =~= r.payload.members().remove("model"@)
            &&& a.sent is Some ==> {
                &&& a.sent->0.body == rendered(a.request.payload)
                &&& asked_model(a.request.payload) == Some(a.sent->0.model)
                &&& a.request.payload.members()["model"@] == Json::Text(a.sent->0.model)
                &&& a.sent->0.model == model_at(r.candidates, a.sent->0.provider, 0)
                &&& a.sent->0.traceparent == r.traceparent
                &&& a.sent->0.tracestate == r.tracestate
            }
        }),
    decreases r.candidates.len() - r.next,
{
    if let Some(i) = first_available(s.providers, r.candidates, r.next, now) {
        lemma_one_attempt(r, s, now);
        let a = tried(r, s, i, now);
        if a.sent is None {
            law_payload_is_passed_on(a.request, a.state, now);
        }
    }
}

/// Only a candidate that may be chosen is sent anything, and it is sent it with
/// its provider's key.
pub proof fn law_only_available_are_sent(r: RequestView, s: StateView, now: u64)
    requires
        r.sound(),
        dispatched(r, s, now).sent is Some,
    ensures
        ({
            let a = dispatched(r, s, now);
            let c = r.candidates[a.request.next - 1];
            let p = find_provider(s.providers, c.provider, 0)->0;
            &&& is_open_to(s.providers, c, now)
            &&& a.sent->0.provider == c.provider
            &&& a.sent->0.authorization == "Bearer "@ + s.providers[p].api_key
            &&& Some(a.sent->0.url) == url_joined(s.providers[p].base_url, r.operation.path())
            &&& a.sent->0.timeout_secs == s.upstream_timeout_secs
            &&& a.sent->0.content_type == "application/json"@
            &&& a.sent->0.is_probe <==> !(s.providers[p].health.circuit is Closed)
        }),
    decreases r.candidates.len() - r.next,
{
    lemma_one_attempt(r, s, now);
    let i = first_available(s.providers, r.candidates, r.next, now)->0;
    let a = tried(r, s, i, now);
    if a.sent is None {
        law_only_available_are_sent(a.request, a.state, now);
        law_dispatch_advances(a.request, a.state, now);
        let d = dispatched(r, s, now);
        let e = r.candidates[d.request.next - 1];
        lemma_same_pool_found(a.state.providers, s.providers, e.provider, 0);
        lemma_find_provider(s.providers, e.provider, 0);
    }
}

/// The client is refused only where no candidate that was not tried may be
/// chosen any more.
pub proof fn law_refused_only_without_candidates(r: RequestView, s: StateView, now: u64)
    requires
        r.sound(),
        dispatched(r, s, now).sent is None,
    ensures
        ({
            let a = dispatched(r, s, now);
            forall|j: int|
                a.request.next <= j < r.candidates.len() ==> !is_open_to(
                    a.state.providers,
                    #[trigger] r.candidates[j],
                    now,
                )
        }),
    decreases r.candidates.len() - r.next,
{
    law_first_available_is_preferred(s.providers, r.candidates, r.next, now);
    if let Some(i) = first_available(s.providers, r.candidates, r.next, now) {
        lemma_one_attempt(r, s, now);
        let a = tried(r, s, i, now);
        law_refused_only_without_candidates(a.request, a.state, now);
    }
}

/// A candidate that may be chosen, and that nothing preferred may be, is the
/// one that is sent something, if its provider's URL can be joined.
pub proof fn law_preferred_is_sent(r: RequestView, s: StateView, now: u64, i: int)
    requires
        r.sound(),
        r.next <= i < r.candidates.len(),
        is_open_to(s.providers, r.candidates[i], now),
        forall|j: int|
            r.next <= j < i ==> !is_open_to(s.providers, #[trigger] r.candidates[j], now),
        url_joined(
            s.providers[find_provider(s.providers, r.candidates[i].provider, 0)->0].base_url,
            r.operation.path(),
        ) is Some,
    ensures
        dispatched(r, s, now).sent is Some,
        dispatched(r, s, now).sent->0.provider == r.candidates[i].provider,
        dispatched(r, s, now).request.next == i + 1,
        dispatched(r, s, now).request.attempts == r.attempts + 1,
{
    law_first_available_is_preferred(s.providers, r.candidates, r.next, now);
    let f = first_available(s.providers, r.candidates, r.next, now);
    assert(f is Some);
    if f->0 < i {
        assert(!is_open_to(s.providers, r.candidates[f->0], now));
    }
    if i < f->0 {
        assert(!is_open_to(s.providers, r.candidates[i], now));
    }
}

/// Serving requests changes nothing of the providers but their health and
/// what they were used for.
pub proof fn law_pool_stays(
    r: RequestView,
    s: StateView,
    strategy: AdaptivePriorityStrategy,
    name: Seq<char>,
    report: Report,
    more: Usage,
    now: u64,
)
    requires
        r.sound(),
    ensures
        same_pool(dispatched(r, s, now).state.providers, s.providers),
        dispatched(r, s, now).state == s.with_providers(dispatched(r, s, now).state.providers),
        same_pool(pool_learned(strategy, s.providers, name, report, now), s.providers),
        same_pool(pool_counted(s.providers, name, more), s.providers),
        same_pool(pool_penalized(s.providers, name), s.providers),
    decreases r.candidates.len() - r.next,
{
    lemma_find_provider(s.providers, name, 0);
    if let Some(i) = first_available(s.providers, r.candidates, r.next, now) {
        lemma_one_attempt(r, s, now);
        let a = tried(r, s, i, now);
        if a.sent is None {
            law_pool_stays(a.request, a.state, strategy, name, report, more, now);
        }
    }
}

/// A provider that answers with 429 or a server error and asks to be left alone
/// is bypassed by every request for as long, and the request goes on to the
/// next candidate.
pub proof fn law_overloaded_is_bypassed(
    r: RequestView,
    strategy: AdaptivePriorityStrategy,
    providers: Seq<ProviderView>,
    sent: UpstreamView,
    status: u16,
    seconds: u64,
    now: u64,
    t: u64,
)
    requires
        status == 429 || 500 <= status <= 599,
        find_provider(providers, sent.provider, 0) is Some,
        t < now + seconds * 1_000_000_000,
    ensures
        ({
            let a = r.answered(strategy, providers, sent, status, Some(seconds), now);
            &&& a.1 is TryNext
            &&& forall|c: TargetView|
                #![trigger is_open_to(a.0, c, t)]
                c.provider == sent.provider ==> !is_open_to(a.0, c, t)
        }),
{
    let p = find_provider(providers, sent.provider, 0)->0;
    let report = Report {
        success: false,
        is_probe: sent.is_probe,
        status: Some(status),
        retry_after: Some(seconds),
    };
    let after = r.answered(strategy, providers, sent, status, Some(seconds), now).0;
    lemma_find_provider(providers, sent.provider, 0);
    law_retry_after_is_kept(strategy, providers[p].health, report, now, t);
    assert(same_pool(after, providers));
    lemma_same_pool_found(after, providers, sent.provider, 0);
}

/// Whether the URL of a candidate's provider can be joined.
pub open spec fn has_joinable_url(
    providers: Seq<ProviderView>,
    candidate: TargetView,
    operation: Operation,
) -> bool {
    match find_provider(providers, candidate.provider, 0) {
        Some(p) => url_joined(providers[p].base_url, operation.path()) is Some,
        None => false,
    }
}

/// Where the first of two candidates at different providers fails, whatever is
/// reported of it, the request goes on to the second, if that may be chosen by
/// then.
pub proof fn law_failover_goes_on(
    r: RequestView,
    s: StateView,
    strategy: AdaptivePriorityStrategy,
    report: Report,
    now: u64,
    t: u64,
)
    requires
        r.sound(),
        r.next + 1 < r.candidates.len(),
        r.candidates[r.next].provider != r.candidates[r.next + 1].provider,
        is_open_to(s.providers, r.candidates[r.next], now),
        has_joinable_url(s.providers, r.candidates[r.next], r.operation),
        is_open_to(s.providers, r.candidates[r.next + 1], t),
        has_joinable_url(s.providers, r.candidates[r.next + 1], r.operation),
    ensures
        ({
            let a = dispatched(r, s, now);
            let told = a.state.with_providers(
                pool_learned(
                    strategy,
                    a.state.providers,
                    r.candidates[r.next].provider,
                    report,
                    t,
                ),
            );
            let b = dispatched(a.request, told, t);
            &&& a.sent is Some
            &&& a.sent->0.provider == r.candidates[r.next].provider
            &&& b.sent is Some
            &&& b.sent->0.provider == r.candidates[r.next + 1].provider
            &&& b.request.attempts == r.attempts + 2
        }),
{
    let c0 = r.candidates[r.next];
    let c1 = r.candidates[r.next + 1];
    law_preferred_is_sent(r, s, now, r.next);
    let a = dispatched(r, s, now);
    law_dispatch_advances(r, s, now);
    law_pool_stays(r, s, strategy, c0.provider, report, one_request(), now);
    law_pool_stays(a.request, a.state, strategy, c0.provider, report, one_request(), t);
    let told = a.state.with_providers(
        pool_learned(strategy, a.state.providers, c0.provider, report, t),
    );
    lemma_same_pool_found(a.state.providers, s.providers, c0.provider, 0);
    lemma_same_pool_found(a.state.providers, s.providers, c1.provider, 0);
    lemma_same_pool_found(told.providers, a.state.providers, c1.provider, 0);
    lemma_find_provider(s.providers, c0.provider, 0);
    lemma_find_provider(s.providers, c1.provider, 0);
    let p0 = find_provider(s.providers, c0.provider, 0)->0;
    let p1 = find_provider(s.providers, c1.provider, 0)->0;
    assert(p0 != p1);
    law_first_available_is_preferred(s.providers, r.candidates, r.next, now);
    assert(a.state.providers[p1] == s.providers[p1]);
    assert(told.providers[p1] == s.providers[p1]);
    law_preferred_is_sent(a.request, told, t, r.next + 1);
}

} // verus!
