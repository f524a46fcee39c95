//! What holds of every request that is served.

use vstd::prelude::*;

use crate::config::TargetView;
use crate::headers::trace_parts;
use crate::json::{parsed, Json, JsonNumber};
use crate::proxy::{
    body_reason, counted, dispatched, has_joinable_url, law_preferred_is_sent, lemma_one_attempt,
    model_at, opened, pool_body_lost, pool_learned, pool_penalized, pool_unanswered, received,
    status_reason, tokens_in, tokens_used, tried, Operation, RequestView, UpstreamView,
};
use crate::reply::TextView;
use crate::router::{
    first_available, is_open_to, law_failure_changes_little, law_first_available_is_preferred,
    law_probe_failure_reopens, law_retry_after_is_exact, AdaptivePriorityStrategy, Report,
};
use crate::state::{
    find_provider, lemma_find_provider, lemma_same_pool_found, Health, ProviderView, StateView,
    Usage,
};
use crate::text::decimal;

verus! {

/// Whether the first provider called `name` is at `p`.
pub open spec fn is_at(providers: Seq<ProviderView>, name: Seq<char>, p: int) -> bool {
    &&& 0 <= p < providers.len()
    &&& providers[p].name == name
    &&& forall|q: int| 0 <= q < p ==> (#[trigger] providers[q]).name != name
}

/// Whether two pools differ at most in the provider at `p`, and there in health
/// and use alone.
pub open spec fn differ_at(a: Seq<ProviderView>, b: Seq<ProviderView>, p: int) -> bool {
    &&& a.len() == b.len()
    &&& forall|q: int| 0 <= q < a.len() && q != p ==> (#[trigger] a[q]) == b[q]
    &&& 0 <= p < a.len() ==> a[p] == (ProviderView {
        health: a[p].health,
        usage: a[p].usage,
        ..b[p]
    })
}

proof fn lemma_is_at(providers: Seq<ProviderView>, name: Seq<char>, p: int)
    requires
        is_at(providers, name, p),
    ensures
        find_provider(providers, name, 0) == Some(p),
{
    lemma_find_provider(providers, name, 0);
    let f = find_provider(providers, name, 0);
    assert(f is Some);
    if f->0 < p {
        assert(providers[f->0].name != name);
    }
    if p < f->0 {
        assert(providers[p].name != name);
    }
}

/// One more than a number of failures, which stops growing where no more can be
/// counted.
pub open spec fn one_more(failures: u32) -> int {
    if failures == u32::MAX {
        failures as int
    } else {
        failures + 1
    }
}

/// Whether a provider in health `h` is in health `g` after an attempt that failed
/// at `now`, but for its rate limit: there is one more failure; a probe opens the
/// circuit for two minutes and is over, the third failure in a row opens it for one
/// minute, and any other leaves it as it was.
pub open spec fn is_failure_of(h: Health, g: Health, is_probe: bool, now: u64) -> bool {
    &&& g.consecutive_failures == one_more(h.consecutive_failures)
    &&& g.manual_disabled == h.manual_disabled
    &&& g.last_attempt_time == h.last_attempt_time
    &&& is_probe ==> !g.probe_in_flight && g.circuit is Open && g.circuit->until == now
        + 120_000_000_000
    &&& !is_probe ==> g.probe_in_flight == h.probe_in_flight
    &&& !is_probe && h.consecutive_failures < 2 ==> g.circuit == h.circuit
    &&& !is_probe && h.consecutive_failures >= 2 ==> g.circuit is Open && g.circuit->until == now
        + 60_000_000_000
}

proof fn lemma_failure(strategy: AdaptivePriorityStrategy, h: Health, report: Report, now: u64)
    requires
        !report.success,
    ensures
        is_failure_of(h, strategy.learned(h, report, now), report.is_probe, now),
{
    law_failure_changes_little(strategy, h, report, now, now);
    if report.is_probe {
        law_probe_failure_reopens(strategy, h, report, now, now);
    }
}

/// An answer whose status is not within 200 to 299 is a failed attempt, whatever
/// was asked for: the next candidate is tried, the provider's run of failures
/// grows by one, and nothing is counted for it. It is left alone for exactly as
/// long as it asked, if it is overloaded, and its circuit opens if the attempt was
/// the probe or the third failure in a row.
pub proof fn law_failed_status_tries_next(
    r: RequestView,
    strategy: AdaptivePriorityStrategy,
    providers: Seq<ProviderView>,
    sent: UpstreamView,
    status: u16,
    retry_after: Option<u64>,
    now: u64,
    p: int,
)
    requires
        status < 200 || status > 299,
    ensures
        ({
            let a = r.answered(strategy, providers, sent, status, retry_after, now);
            &&& a.1 is TryNext
            &&& is_at(providers, sent.provider, p) ==> {
                &&& differ_at(a.0, providers, p)
                &&& a.0[p].usage == providers[p].usage
                &&& a.0[p].health.consecutive_failures == one_more(
                    providers[p].health.consecutive_failures,
                )
                &&& is_failure_of(providers[p].health, a.0[p].health, sent.is_probe, now)
                &&& (status == 429 || 500 <= status <= 599) && retry_after is Some ==> {
                    &&& a.0[p].health.rate_limited_until is Some
                    &&& a.0[p].health.rate_limited_until->0 == now + retry_after->0 * 1_000_000_000
                }
                &&& !((status == 429 || 500 <= status <= 599) && retry_after is Some)
                    ==> a.0[p].health.rate_limited_until == providers[p].health.rate_limited_until
            }
        }),
{
    if is_at(providers, sent.provider, p) {
        lemma_is_at(providers, sent.provider, p);
        let h = providers[p].health;
        let report = Report {
            success: false,
            is_probe: sent.is_probe,
            status: Some(status),
            retry_after,
        };
        lemma_failure(strategy, h, report, now);
        if retry_after is Some && (status == 429 || 500 <= status <= 599) {
            law_retry_after_is_exact(strategy, h, report, now);
        }
    }
}

/// An answer whose status is within 200 to 299 is never passed over: embeddings
/// are read, a chat completion is read or, where that was asked for, streamed to
/// the client with status 200.
pub proof fn law_good_status_is_taken(
    r: RequestView,
    strategy: AdaptivePriorityStrategy,
    providers: Seq<ProviderView>,
    sent: UpstreamView,
    status: u16,
    retry_after: Option<u64>,
    now: u64,
)
    requires
        200 <= status <= 299,
    ensures
        ({
            let a = r.answered(strategy, providers, sent, status, retry_after, now);
            &&& !(a.1 is TryNext)
            &&& a.1 is Stream <==> r.operation is Chat && r.streaming
            &&& a.1 is Stream ==> a.1->Stream_0 == 200 && a.1->Stream_1 == r.recorded(
                sent,
                (0, 0),
                now,
            )
            &&& r.operation is Embeddings ==> a.0 == providers
        }),
{
}

/// With the headers of a good answer a chat completion is a success: the run of
/// failures ends, a probe closes the circuit, one success is counted, and nothing
/// else changes, neither a rate limit nor another provider.
pub proof fn law_chat_succeeds_with_headers(
    r: RequestView,
    strategy: AdaptivePriorityStrategy,
    providers: Seq<ProviderView>,
    sent: UpstreamView,
    status: u16,
    retry_after: Option<u64>,
    now: u64,
    p: int,
)
    requires
        200 <= status <= 299,
        r.operation is Chat,
        is_at(providers, sent.provider, p),
    ensures
        ({
            let a = r.answered(strategy, providers, sent, status, retry_after, now).0;
            let (h, g) = (providers[p].health, a[p].health);
            let (u, v) = (providers[p].usage, a[p].usage);
            &&& differ_at(a, providers, p)
            &&& g.consecutive_failures == 0
            &&& g.rate_limited_until == h.rate_limited_until
            &&& g.manual_disabled == h.manual_disabled
            &&& g.last_attempt_time == h.last_attempt_time
            &&& sent.is_probe ==> g.circuit is Closed && !g.probe_in_flight
            &&& !sent.is_probe ==> g.circuit == h.circuit && g.probe_in_flight == h.probe_in_flight
            &&& v.successes as int == (u.successes + 1) % 0x1_0000_0000_0000_0000
            &&& v.requests == u.requests
            &&& v.tokens_input == u.tokens_input
            &&& v.tokens_output == u.tokens_output
        }),
{
    lemma_is_at(providers, sent.provider, p);
    let report = Report {
        success: true,
        is_probe: sent.is_probe,
        status: Some(status),
        retry_after: None,
    };
    let told = pool_learned(strategy, providers, sent.provider, report, now);
    assert(is_at(told, sent.provider, p));
    lemma_is_at(told, sent.provider, p);
}

/// Once its body came, an answer counts one success and its tokens, and nothing
/// else; an answer with embeddings is a success only then: the run of failures
/// ends, and a probe closes the circuit.
pub proof fn law_body_completes(
    r: RequestView,
    strategy: AdaptivePriorityStrategy,
    providers: Seq<ProviderView>,
    sent: UpstreamView,
    status: u16,
    tokens: (u64, u64),
    now: u64,
    p: int,
)
    requires
        is_at(providers, sent.provider, p),
    ensures
        ({
            let a = r.completed(strategy, providers, sent, status, tokens, now);
            let (h, g) = (providers[p].health, a[p].health);
            let (u, v) = (providers[p].usage, a[p].usage);
            &&& differ_at(a, providers, p)
            &&& v.successes as int == (u.successes + 1) % 0x1_0000_0000_0000_0000
            &&& v.requests == u.requests
            &&& v.tokens_input as int == (u.tokens_input + tokens.0) % 0x1_0000_0000_0000_0000
            &&& v.tokens_output as int == (u.tokens_output + tokens.1) % 0x1_0000_0000_0000_0000
            &&& r.operation is Chat ==> g == h
            &&& r.operation is Embeddings ==> {
                &&& g.consecutive_failures == 0
                &&& g.rate_limited_until == h.rate_limited_until
                &&& g.manual_disabled == h.manual_disabled
                &&& g.last_attempt_time == h.last_attempt_time
                &&& sent.is_probe ==> g.circuit is Closed && !g.probe_in_flight
                &&& !sent.is_probe ==> g.circuit == h.circuit && g.probe_in_flight
                    == h.probe_in_flight
                &&& h.circuit is Closed ==> g.circuit is Closed
            }
        }),
{
    lemma_is_at(providers, sent.provider, p);
    let report = Report {
        success: true,
        is_probe: sent.is_probe,
        status: Some(status),
        retry_after: None,
    };
    let told = pool_learned(strategy, providers, sent.provider, report, now);
    assert(is_at(told, sent.provider, p));
    lemma_is_at(told, sent.provider, p);
}

/// A provider that cannot be reached, or whose body cannot be read, failed: its
/// run of failures grows by one, its rate limit stays, nothing is counted, and no
/// other provider changes.
pub proof fn law_broken_attempt_is_a_failure(
    strategy: AdaptivePriorityStrategy,
    providers: Seq<ProviderView>,
    sent: UpstreamView,
    status: u16,
    now: u64,
    p: int,
)
    requires
        is_at(providers, sent.provider, p),
    ensures
        ({
            let a = pool_unanswered(strategy, providers, sent, now);
            let b = pool_body_lost(strategy, providers, sent, status, now);
            let h = providers[p].health;
            &&& differ_at(a, providers, p)
            &&& differ_at(b, providers, p)
            &&& a[p].usage == providers[p].usage
            &&& b[p].usage == providers[p].usage
            &&& is_failure_of(h, a[p].health, sent.is_probe, now)
            &&& is_failure_of(h, b[p].health, sent.is_probe, now)
            &&& a[p].health.rate_limited_until == h.rate_limited_until
            &&& b[p].health.rate_limited_until == h.rate_limited_until
        }),
{
    lemma_is_at(providers, sent.provider, p);
    let h = providers[p].health;
    lemma_failure(
        strategy,
        h,
        Report { success: false, is_probe: sent.is_probe, status: None, retry_after: None },
        now,
    );
    lemma_failure(
        strategy,
        h,
        Report { success: false, is_probe: sent.is_probe, status: Some(status), retry_after: None },
        now,
    );
}

/// A provider that breaks off in the middle of an answer has one more failure, and
/// nothing else changes.
pub proof fn law_broken_stream_is_one_failure(
    providers: Seq<ProviderView>,
    name: Seq<char>,
    p: int,
)
    requires
        is_at(providers, name, p),
    ensures
        ({
            let a = pool_penalized(providers, name);
            &&& differ_at(a, providers, p)
            &&& a[p].usage == providers[p].usage
            &&& a[p].health.consecutive_failures == one_more(
                providers[p].health.consecutive_failures,
            )
            &&& a[p].health == (Health {
                consecutive_failures: a[p].health.consecutive_failures,
                ..providers[p].health
            })
        }),
{
    lemma_is_at(providers, name, p);
}

/// What is reported of a provider that is not in the pool changes nothing.
pub proof fn law_unknown_changes_nothing(
    r: RequestView,
    strategy: AdaptivePriorityStrategy,
    providers: Seq<ProviderView>,
    sent: UpstreamView,
    status: u16,
    retry_after: Option<u64>,
    tokens: (u64, u64),
    now: u64,
)
    requires
        forall|q: int| 0 <= q < providers.len() ==> (#[trigger] providers[q]).name != sent.provider,
    ensures
        r.answered(strategy, providers, sent, status, retry_after, now).0 == providers,
        r.completed(strategy, providers, sent, status, tokens, now) == providers,
        pool_unanswered(strategy, providers, sent, now) == providers,
        pool_body_lost(strategy, providers, sent, status, now) == providers,
        pool_penalized(providers, sent.provider) == providers,
{
    lemma_find_provider(providers, sent.provider, 0);
}

/// Counters are added up, modulo their size.
pub proof fn law_counters_add_up(u: Usage, more: Usage)
    ensures
        counted(u, more).requests as int == (u.requests + more.requests) % 0x1_0000_0000_0000_0000,
        counted(u, more).successes as int == (u.successes + more.successes)
            % 0x1_0000_0000_0000_0000,
        counted(u, more).tokens_input as int == (u.tokens_input + more.tokens_input)
            % 0x1_0000_0000_0000_0000,
        counted(u, more).tokens_output as int == (u.tokens_output + more.tokens_output)
            % 0x1_0000_0000_0000_0000,
{
}

/// The tokens of an answer are the natural numbers that it gives under `usage`;
/// what it does not give, or gives otherwise, is zero.
pub proof fn law_tokens_are_those_given(usage: Map<Seq<char>, Json>, doc: Map<Seq<char>, Json>, n: u64)
    requires
        doc.contains_key("usage"@),
        doc["usage"@] == Json::Object(usage),
    ensures
        ({
            let t = tokens_in(Json::Object(doc));
            let given = Json::Number(JsonNumber::Natural(n));
            &&& usage.contains_key("prompt_tokens"@) && usage["prompt_tokens"@] == given ==> t.0
                == n
            &&& usage.contains_key("completion_tokens"@) && usage["completion_tokens"@] == given
                ==> t.1 == n
            &&& !usage.contains_key("prompt_tokens"@) ==> t.0 == 0
            &&& !usage.contains_key("completion_tokens"@) ==> t.1 == 0
            &&& !(usage["prompt_tokens"@] is Number && usage["prompt_tokens"@]->Number_0 is Natural)
                ==> t.0 == 0
            &&& !(usage["completion_tokens"@] is Number
                && usage["completion_tokens"@]->Number_0 is Natural) ==> t.1 == 0
        }),
{
}

/// Without usage there are no tokens; what is no document has none.
pub proof fn law_no_usage_no_tokens(doc: Json, body: Seq<u8>)
    ensures
        doc.member("usage"@) is None ==> tokens_in(doc) == (0u64, 0u64),
        doc is Object && !(doc.members()["usage"@] is Object) ==> tokens_in(doc) == (0u64, 0u64),
        parsed(body) is Err ==> tokens_used(body) == (0u64, 0u64),
        parsed(body) == Ok::<Json, Seq<char>>(doc) ==> tokens_used(body) == tokens_in(doc),
{
}

/// What is recorded of a request is who served it with which model, what it used,
/// how long it took since it was opened, how many attempts it took, and its trace.
pub proof fn law_record_tells_of_the_request(
    r: RequestView,
    sent: UpstreamView,
    tokens: (u64, u64),
    now: u64,
)
    ensures
        ({
            let t = r.recorded(sent, tokens, now);
            &&& r.operation is Chat ==> t.operation == "chat"@
            &&& r.operation is Embeddings ==> t.operation == "embeddings"@
            &&& t.provider == sent.provider
            &&& t.model == sent.model
            &&& t.input_tokens == tokens.0
            &&& t.output_tokens == tokens.1
            &&& now >= r.started ==> t.duration == now - r.started
            &&& now < r.started ==> t.duration == 0
            &&& t.attempts == r.attempts
            &&& t.trace_id == r.trace_id
            &&& t.parent_span_id == r.parent_span_id
            &&& t.failure_reason == r.first_failure
        }),
{
}

/// Where a provider serves what is asked for, and what a client is told when no
/// provider is left.
pub proof fn law_operations()
    ensures
        Operation::Chat.path() == "chat/completions"@,
        Operation::Embeddings.path() == "embeddings"@,
        forall|o: Operation| (#[trigger] o.exhausted()).status == 502,
        Operation::Chat.exhausted().text
            == "All upstream chat completions providers failed or are rate-limited"@,
        Operation::Embeddings.exhausted().text
            == "All upstream embeddings providers failed or are rate-limited"@,
{
}

/// Why an attempt failed is told by its status.
pub proof fn law_reasons(status: u16)
    ensures
        status == 429 ==> status_reason(status) == "429_tokens_exhausted"@,
        status != 429 ==> status_reason(status) == decimal(status as nat) + "_upstream_error"@,
        body_reason(status) == decimal(status as nat) + "_body_failed"@,
{
}

/// A request is opened by every object that names, as a text, a model that
/// something serves; nothing was tried yet, and all that can serve it are its
/// candidates.
pub proof fn law_served_model_opens(
    operation: Operation,
    state: StateView,
    doc: Map<Seq<char>, Json>,
    headers: Map<Seq<char>, Seq<Seq<u8>>>,
    model: Seq<char>,
    now: u64,
)
    requires
        doc.contains_key("model"@),
        doc["model"@] == Json::Text(model),
    ensures
        ({
            let o = opened(operation, state, Json::Object(doc), headers, now);
            &&& state.candidates(model).len() > 0 ==> {
                let r = o->Ok_0;
                &&& o is Ok
                &&& r.operation == operation
                &&& r.payload == Json::Object(doc)
                &&& r.candidates == state.candidates(model)
                &&& r.next == 0
                &&& r.attempts == 0
                &&& r.first_failure is None
                &&& r.started == now
                &&& r.streaming <==> operation is Chat && doc.contains_key("stream"@)
                    && doc["stream"@] == Json::Bool(true)
                &&& headers.contains_key("traceparent"@) ==> r.traceparent == Some(
                    headers["traceparent"@][0],
                )
                &&& headers.contains_key("tracestate"@) ==> r.tracestate == Some(
                    headers["tracestate"@][0],
                )
                &&& !headers.contains_key("traceparent"@) ==> r.traceparent is None
                &&& !headers.contains_key("tracestate"@) ==> r.tracestate is None
                &&& trace_parts(headers) is None ==> r.trace_id is None && r.parent_span_id is None
                &&& trace_parts(headers) matches Some((trace, span)) ==> r.trace_id == Some(trace)
                    && r.parent_span_id == Some(span)
            }
            &&& state.candidates(model).len() == 0 ==> o == Err::<RequestView, TextView>(
                TextView { status: 400, text: "Invalid or unmapped virtual model: "@ + model },
            )
        }),
{
    assert(Json::Object(doc).member("model"@) == Some(Json::Text(model)));
}

/// What names no model opens nothing, nor does what is no document.
pub proof fn law_without_model_nothing_opens(
    operation: Operation,
    state: StateView,
    doc: Json,
    body: Seq<u8>,
    headers: Map<Seq<char>, Seq<Seq<u8>>>,
    now: u64,
)
    ensures
        !(doc is Object) || !doc.members().contains_key("model"@) || !(
        doc.members()["model"@] is Text) ==> opened(operation, state, doc, headers, now) == Err::<
            RequestView,
            TextView,
        >(TextView { status: 400, text: "Missing required 'model' field"@ }),
        parsed(body) is Err ==> received(operation, state, body, headers, now) == Err::<
            RequestView,
            TextView,
        >(TextView { status: 400, text: "Invalid JSON payload: "@ + parsed(body)->Err_0 }),
        parsed(body) == Ok::<Json, Seq<char>>(doc) ==> received(
            operation,
            state,
            body,
            headers,
            now,
        ) == opened(operation, state, doc, headers, now),
{
}

/// The model that a provider is asked for is that of the first candidate there.
pub proof fn law_model_of_the_first(candidates: Seq<TargetView>, provider: Seq<char>, i: int)
    requires
        0 <= i < candidates.len(),
        candidates[i].provider == provider,
        forall|j: int| 0 <= j < i ==> (#[trigger] candidates[j]).provider != provider,
    ensures
        model_at(candidates, provider, 0) == candidates[i].model,
{
    lemma_model_from(candidates, provider, 0, i);
}

proof fn lemma_model_from(candidates: Seq<TargetView>, provider: Seq<char>, from: int, i: int)
    requires
        0 <= from <= i < candidates.len(),
        candidates[i].provider == provider,
        forall|j: int| from <= j < i ==> (#[trigger] candidates[j]).provider != provider,
    ensures
        model_at(candidates, provider, from) == candidates[i].model,
    decreases i - from,
{
    if from < i {
        lemma_model_from(candidates, provider, from + 1, i);
    }
}

/// A dispatch counts one request for the provider that is sent something, and
/// none for any other; where nothing is sent, nothing is counted.
pub proof fn law_requests_are_counted(r: RequestView, s: StateView, now: u64, q: int)
    requires
        r.sound(),
        0 <= q < s.providers.len(),
    ensures
        ({
            let a = dispatched(r, s, now);
            let (u, v) = (s.providers[q].usage, a.state.providers[q].usage);
            &&& v.successes == u.successes
            &&& v.tokens_input == u.tokens_input
            &&& v.tokens_output == u.tokens_output
            &&& a.sent is Some && is_at(s.providers, a.sent->0.provider, q) ==> v.requests as int
                == (u.requests + 1) % 0x1_0000_0000_0000_0000
            &&& a.sent is None || !is_at(s.providers, a.sent->0.provider, q) ==> v.requests
                == u.requests
        }),
    decreases r.candidates.len() - r.next,
{
    if let Some(i) = first_available(s.providers, r.candidates, r.next, now) {
        lemma_one_attempt(r, s, now);
        let a = tried(r, s, i, now);
        let c = r.candidates[i];
        let p = find_provider(s.providers, c.provider, 0)->0;
        lemma_find_provider(s.providers, c.provider, 0);
        assert(is_at(s.providers, c.provider, p));
        if a.sent is None {
            law_requests_are_counted(a.request, a.state, now, q);
            let d = dispatched(r, s, now);
            if d.sent is Some {
                let name = d.sent->0.provider;
                assert(is_at(s.providers, name, q) <==> is_at(a.state.providers, name, q)) by {
                    assert forall|k: int| 0 <= k < s.providers.len() implies (
                    #[trigger] s.providers[k]).name == a.state.providers[k].name by {
                        assert(a.state.providers[k].name == s.providers[k].name);
                    }
                    assert forall|k: int| 0 <= k < s.providers.len() implies (
                    #[trigger] a.state.providers[k]).name == s.providers[k].name by {}
                }
            }
        } else if is_at(s.providers, c.provider, q) {
            lemma_is_at(s.providers, c.provider, q);
        }
    }
}

/// A dispatch changes no provider that is not a candidate's, and of the others
/// nothing that keeps them from being chosen later but a probe.
pub proof fn law_dispatch_touches_candidates(r: RequestView, s: StateView, now: u64, q: int)
    requires
        r.sound(),
        0 <= q < s.providers.len(),
    ensures
        ({
            let a = dispatched(r, s, now);
            let (h, g) = (s.providers[q].health, a.state.providers[q].health);
            &&& (forall|i: int|
                0 <= i < r.candidates.len() ==> (#[trigger] r.candidates[i]).provider
                    != s.providers[q].name) ==> g == h
            &&& g.rate_limited_until == h.rate_limited_until
            &&& g.consecutive_failures == h.consecutive_failures
            &&& g.manual_disabled == h.manual_disabled
            &&& h.circuit is Closed ==> g.circuit is Closed
            &&& h.probe_in_flight ==> g.probe_in_flight
            &&& !(h.circuit is Closed) ==> g.circuit == h.circuit || (g.circuit is HalfOpen
                && g.probe_in_flight)
        }),
    decreases r.candidates.len() - r.next,
{
    if let Some(i) = first_available(s.providers, r.candidates, r.next, now) {
        lemma_one_attempt(r, s, now);
        let a = tried(r, s, i, now);
        lemma_find_provider(s.providers, r.candidates[i].provider, 0);
        if a.sent is None {
            law_dispatch_touches_candidates(a.request, a.state, now, q);
        }
    }
}

/// Where the URL of the preferred candidate cannot be joined, the one after it is
/// sent something, if it is at another provider and may be chosen.
pub proof fn law_unjoinable_is_passed_over(r: RequestView, s: StateView, now: u64)
    requires
        r.sound(),
        r.next + 1 < r.candidates.len(),
        r.candidates[r.next].provider != r.candidates[r.next + 1].provider,
        is_open_to(s.providers, r.candidates[r.next], now),
        !has_joinable_url(s.providers, r.candidates[r.next], r.operation),
        is_open_to(s.providers, r.candidates[r.next + 1], now),
        has_joinable_url(s.providers, r.candidates[r.next + 1], r.operation),
    ensures
        dispatched(r, s, now).sent is Some,
        dispatched(r, s, now).sent->0.provider == r.candidates[r.next + 1].provider,
        dispatched(r, s, now).request.attempts == r.attempts + 2,
        r.first_failure is None ==> dispatched(r, s, now).request.first_failure == Some(
            "invalid_base_url"@,
        ),
{
    lemma_one_attempt(r, s, now);
    let c0 = r.candidates[r.next];
    let c1 = r.candidates[r.next + 1];
    assert(first_available(s.providers, r.candidates, r.next, now) == Some(r.next));
    let a = tried(r, s, r.next, now);
    assert(a.sent is None);
    lemma_find_provider(s.providers, c0.provider, 0);
    lemma_find_provider(s.providers, c1.provider, 0);
    lemma_same_pool_found(a.state.providers, s.providers, c1.provider, 0);
    let p0 = find_provider(s.providers, c0.provider, 0)->0;
    let p1 = find_provider(s.providers, c1.provider, 0)->0;
    assert(p0 != p1);
    assert(a.state.providers[p1] == s.providers[p1]);
    assert(first_available(a.state.providers, r.candidates, r.next + 1, now) == Some(r.next + 1));
    assert(dispatched(r, s, now) == dispatched(a.request, a.state, now));
}

/// To note why an attempt failed changes nothing else of the request, and nothing
/// at all after the first.
pub proof fn law_a_failure_is_noted(r: RequestView, why: Seq<char>)
    ensures
        r.first_failure is None ==> r.noting(why) == (RequestView {
            first_failure: Some(why),
            ..r
        }),
        r.first_failure is Some ==> r.noting(why) == r,
{
}

/// A dispatch changes nothing of a request but the model that it asks for, how far
/// its candidates were considered, how many were tried, and the first failure; it
/// tries no more than it considers, and where nothing is sent the document stays as
/// it was.
pub proof fn law_dispatch_keeps_the_request(r: RequestView, s: StateView, now: u64)
    requires
        r.sound(),
    ensures
        ({
            let d = dispatched(r, s, now).request;
            &&& d == (RequestView {
                payload: d.payload,
                next: d.next,
                attempts: d.attempts,
                first_failure: d.first_failure,
                ..r
            })
            &&& r.attempts <= d.attempts
            &&& d.attempts - r.attempts <= d.next - r.next
            &&& dispatched(r, s, now).sent is Some ==> r.attempts < d.attempts
            &&& dispatched(r, s, now).sent is None ==> d.payload == r.payload
            &&& d.first_failure == r.first_failure || (r.first_failure is None && d.first_failure
                == Some("invalid_base_url"@))
        }),
    decreases r.candidates.len() - r.next,
{
    if let Some(i) = first_available(s.providers, r.candidates, r.next, now) {
        lemma_one_attempt(r, s, now);
        let a = tried(r, s, i, now);
        if a.sent is None {
            law_dispatch_keeps_the_request(a.request, a.state, now);
        }
    }
}

/// Where the preferred of the candidates that may be chosen can be sent something,
/// its provider is chosen and one request counted for it, and no other provider
/// changes, nor is any failure noted.
pub proof fn law_only_the_sent_changes(r: RequestView, s: StateView, now: u64, i: int, p: int)
    requires
        r.sound(),
        r.next <= i < r.candidates.len(),
        is_open_to(s.providers, r.candidates[i], now),
        forall|j: int|
            r.next <= j < i ==> !is_open_to(s.providers, #[trigger] r.candidates[j], now),
        has_joinable_url(s.providers, r.candidates[i], r.operation),
        is_at(s.providers, r.candidates[i].provider, p),
    ensures
        ({
            let a = dispatched(r, s, now);
            let (h, g) = (s.providers[p].health, a.state.providers[p].health);
            &&& differ_at(a.state.providers, s.providers, p)
            &&& a.request.first_failure == r.first_failure
            &&& a.state == s.with_providers(a.state.providers)
            &&& g.last_attempt_time == Some(now)
            &&& h.circuit is Closed ==> g.circuit is Closed && g.probe_in_flight
                == h.probe_in_flight && !a.sent->0.is_probe
            &&& !(h.circuit is Closed) ==> g.circuit is HalfOpen && g.probe_in_flight
                && a.sent->0.is_probe
            &&& g.rate_limited_until == h.rate_limited_until
            &&& g.consecutive_failures == h.consecutive_failures
            &&& g.manual_disabled == h.manual_disabled
            &&& a.state.providers[p].usage.requests as int == (s.providers[p].usage.requests + 1)
                % 0x1_0000_0000_0000_0000
        }),
{
    lemma_is_at(s.providers, r.candidates[i].provider, p);
    law_preferred_is_sent(r, s, now, i);
    law_first_available_is_preferred(s.providers, r.candidates, r.next, now);
    lemma_one_attempt(r, s, now);
    let f = first_available(s.providers, r.candidates, r.next, now)->0;
    if f < i {
        assert(!is_open_to(s.providers, r.candidates[f], now));
    }
    if i < f {
        assert(!is_open_to(s.providers, r.candidates[i], now));
    }
}

/// A good status leaves a request as it is. Any other is noted as the reason why an
/// attempt failed, and so is that a provider could not be reached, or that a body
/// could not be read, unless an attempt failed before; nothing else changes.
pub proof fn law_why_an_attempt_failed(r: RequestView, status: u16)
    ensures
        200 <= status <= 299 ==> r.after_status(status) == r,
        r.first_failure is Some ==> {
            &&& r.after_status(status) == r
            &&& r.after_no_answer() == r
            &&& r.after_lost_body(status) == r
        },
        r.first_failure is None ==> {
            &&& status == 429 ==> r.after_status(status) == (RequestView {
                first_failure: Some("429_tokens_exhausted"@),
                ..r
            })
            &&& status != 429 && (status < 200 || status > 299) ==> r.after_status(status) == (
            RequestView {
                first_failure: Some(decimal(status as nat) + "_upstream_error"@),
                ..r
            })
            &&& r.after_no_answer() == (RequestView {
                first_failure: Some("connection_failed"@),
                ..r
            })
            &&& r.after_lost_body(status) == (RequestView {
                first_failure: Some(decimal(status as nat) + "_body_failed"@),
                ..r
            })
        },
{
}

} // verus!
