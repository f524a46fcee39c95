//! What is recorded of the requests that were served.

use vstd::prelude::*;

use crate::json::{
    contents, empty_object, number_value, render, rendered, set_member, text_value, Json, JsonNumber,
};
use crate::request_id::some_number;
use crate::state::{pool, AppState, Health, ProviderState, ProviderView};
use crate::text::{chars_of, hex, lemma_hex, lemma_hex_differs, push_hex, text_of};

verus! {

/// A request that was served.
#[derive(Debug)]
pub struct Transaction {
    pub operation: String,
    pub provider: String,
    pub model: String,
    pub input_tokens: u64,
    pub output_tokens: u64,
    /// How long it took, in nanoseconds.
    pub duration: u64,
    /// How many providers were tried.
    pub attempts: usize,
    pub failure_reason: Option<String>,
    pub trace_id: Option<String>,
    pub parent_span_id: Option<String>,
}

/// What a `Transaction` says.
pub struct TransactionView {
    pub operation: Seq<char>,
    pub provider: Seq<char>,
    pub model: Seq<char>,
    pub input_tokens: u64,
    pub output_tokens: u64,
    pub duration: u64,
    pub attempts: int,
    pub failure_reason: Option<Seq<char>>,
    pub trace_id: Option<Seq<char>>,
    pub parent_span_id: Option<Seq<char>>,
}

/// What an optional text says.
pub open spec fn text_or_none(s: Option<String>) -> Option<Seq<char>> {
    match s {
        Some(t) => Some(t@),
        None => None,
    }
}

impl View for Transaction {
    type V = TransactionView;

    open spec fn view(&self) -> TransactionView {
        TransactionView {
            operation: self.operation@,
            provider: self.provider@,
            model: self.model@,
            input_tokens: self.input_tokens,
            output_tokens: self.output_tokens,
            duration: self.duration,
            attempts: self.attempts as int,
            failure_reason: text_or_none(self.failure_reason),
            trace_id: text_or_none(self.trace_id),
            parent_span_id: text_or_none(self.parent_span_id),
        }
    }
}

/// Copies an optional text.
pub(crate) fn copy_text(s: &Option<String>) -> (t: Option<String>)
    ensures
        text_or_none(t) == text_or_none(*s),
{
    match s {
        Some(x) => Some(x.clone()),
        None => None,
    }
}

/// How many records may wait to be sent on. Where there is no room, a record is
/// dropped.
pub const CHANNEL_CAPACITY: usize = 1024;

/// Where a span stands in its trace.
#[derive(Debug)]
pub struct TraceContext {
    pub trace_id: String,
    pub span_id: String,
    /// The span that it belongs to, if there is one.
    pub parent_span_id: Option<String>,
}

/// Whether `c` is a hexadecimal digit.
pub open spec fn is_hex_digit(c: char) -> bool {
    ||| '0' <= c <= '9'
    ||| 'a' <= c <= 'f'
    ||| 'A' <= c <= 'F'
}

/// Whether `s` consists of `width` hexadecimal digits.
pub open spec fn is_hex_id(s: Seq<char>, width: nat) -> bool {
    &&& s.len() == width
    &&& forall|i: int| 0 <= i < s.len() ==> is_hex_digit(#[trigger] s[i])
}

fn hex_id(s: &str, width: usize) -> (yes: bool)
    ensures
        yes == is_hex_id(s@, width as nat),
{
    let chars = chars_of(s);
    if chars.len() != width {
        return false;
    }
    let mut i: usize = 0;
    while i < chars.len()
        invariant
            i <= chars@.len(),
            chars@ == s@,
            forall|j: int| 0 <= j < i ==> is_hex_digit(#[trigger] chars@[j]),
        decreases chars@.len() - i,
    {
        let c = chars[i];
        let digit = ('0' <= c && c <= '9') || ('a' <= c && c <= 'f') || ('A' <= c && c <= 'F');
        if !digit {
            return false;
        }
        i += 1;
    }
    true
}

/// Whether the client named a trace: one whose identifier is sixteen bytes in
/// hexadecimal.
pub open spec fn names_trace(given: Option<Seq<char>>) -> bool {
    given is Some && is_hex_id(given->0, 32)
}

/// The identifier that a number makes: sixteen hexadecimal digits, not all of
/// them zero.
pub open spec fn span_text(n: u64) -> Seq<char> {
    hex(
        if n == 0 {
            1
        } else {
            n as nat
        },
        16,
    )
}

/// The trace that a request belongs to: the one that the client named, or a new
/// one, made of two numbers, whose identifier is thirty-two hexadecimal digits,
/// not all of them zero.
pub open spec fn trace_text(given: Option<Seq<char>>, high: u64, low: u64) -> Seq<char> {
    if names_trace(given) {
        given->0
    } else {
        hex(high as nat, 16) + if high == 0 {
            span_text(low)
        } else {
            hex(low as nat, 16)
        }
    }
}

/// The span that a request's span belongs to: the one that the client named, if
/// its identifier is eight bytes in hexadecimal and the trace is the client's.
pub open spec fn parent_text(trace: Option<Seq<char>>, parent: Option<Seq<char>>) -> Option<
    Seq<char>,
> {
    if names_trace(trace) && parent is Some && is_hex_id(parent->0, 16) {
        parent
    } else {
        None
    }
}

fn push_span(out: &mut String, n: u64)
    ensures
        final(out)@ == old(out)@ + span_text(n),
{
    push_hex(out, if n == 0 { 1 } else { n }, 16);
}

/// Finds the place of a request's span, given three numbers to make identifiers
/// of.
pub fn trace_context(t: &Transaction, high: u64, low: u64, span: u64) -> (c: TraceContext)
    ensures
        c.trace_id@ == trace_text(t@.trace_id, high, low),
        c.span_id@ == span_text(span),
        text_or_none(c.parent_span_id) == parent_text(t@.trace_id, t@.parent_span_id),
{
    let named = match &t.trace_id {
        Some(id) => hex_id(id.as_str(), 32),
        None => false,
    };
    let mut trace_id = String::new();
    let mut parent_span_id: Option<String> = None;
    if named {
        match &t.trace_id {
            Some(id) => {
                trace_id.append(id.as_str());
            },
            None => {},
        }
        match &t.parent_span_id {
            Some(id) => {
                if hex_id(id.as_str(), 16) {
                    parent_span_id = Some(id.clone());
                }
            },
            None => {},
        }
    } else {
        push_hex(&mut trace_id, high, 16);
        if high == 0 {
            push_span(&mut trace_id, low);
        } else {
            push_hex(&mut trace_id, low, 16);
        }
    }
    assert(trace_id@ =~= trace_text(t@.trace_id, high, low));
    let mut span_id = String::new();
    push_span(&mut span_id, span);
    assert(span_id@ =~= span_text(span));
    TraceContext { trace_id, span_id, parent_span_id }
}

/// Finds the place of a request's span, and makes up what the client did not
/// say.
pub fn new_trace_context(t: &Transaction) -> (c: TraceContext)
    ensures
        exists|high: u64, low: u64, span: u64|
            c.trace_id@ == #[trigger] trace_text(t@.trace_id, high, low) && c.span_id@
                == #[trigger] span_text(span),
        text_or_none(c.parent_span_id) == parent_text(t@.trace_id, t@.parent_span_id),
{
    let high: u64 = some_number();
    let low: u64 = some_number();
    let span: u64 = some_number();
    trace_context(t, high, low, span)
}

/// A natural number, as JSON.
pub open spec fn count_json(n: u64) -> Json {
    Json::Number(JsonNumber::Natural(n))
}

impl TransactionView {
    /// What the span of a request is called.
    pub open spec fn span_name(self) -> Seq<char> {
        if self.operation == "chat"@ {
            "oxllm.chat.completions"@
        } else {
            "oxllm."@ + self.operation
        }
    }

    /// What is told of a request.
    pub open spec fn attributes(self) -> Map<Seq<char>, Json> {
        let always = Map::<Seq<char>, Json>::empty().insert(
            "gen_ai.operation.name"@,
            Json::Text(self.operation),
        ).insert("gen_ai.provider.name"@, Json::Text(self.provider)).insert(
            "gen_ai.request.model"@,
            Json::Text(self.model),
        ).insert("gen_ai.usage.input_tokens"@, count_json(self.input_tokens)).insert(
            "gen_ai.usage.output_tokens"@,
            count_json(self.output_tokens),
        ).insert("proxy.attempts_required"@, count_json(self.attempts as u64));
        match self.failure_reason {
            Some(why) => always.insert("proxy.initial_failure_reason"@, Json::Text(why)),
            None => always,
        }
    }

    /// The span of a request at a place in a trace.
    pub open spec fn span(
        self,
        trace_id: Seq<char>,
        span_id: Seq<char>,
        parent_span_id: Option<Seq<char>>,
    ) -> Json {
        let root = Map::<Seq<char>, Json>::empty().insert("trace_id"@, Json::Text(trace_id)).insert(
            "span_id"@,
            Json::Text(span_id),
        ).insert("name"@, Json::Text(self.span_name())).insert(
            "attributes"@,
            Json::Object(self.attributes()),
        );
        match parent_span_id {
            Some(parent) => Json::Object(root.insert("parent_span_id"@, Json::Text(parent))),
            None => Json::Object(root),
        }
    }
}

/// Writes the span of a request at a place in a trace.
pub fn span_document(t: &Transaction, context: &TraceContext) -> (body: Vec<u8>)
    ensures
        body@ == rendered(
            t@.span(context.trace_id@, context.span_id@, text_or_none(context.parent_span_id)),
        ),
{
    let mut attributes = empty_object();
    set_member(&mut attributes, "gen_ai.operation.name", text_value(t.operation.clone()));
    set_member(&mut attributes, "gen_ai.provider.name", text_value(t.provider.clone()));
    set_member(&mut attributes, "gen_ai.request.model", text_value(t.model.clone()));
    set_member(&mut attributes, "gen_ai.usage.input_tokens", number_value(t.input_tokens));
    set_member(&mut attributes, "gen_ai.usage.output_tokens", number_value(t.output_tokens));
    set_member(&mut attributes, "proxy.attempts_required", number_value(t.attempts as u64));
    match &t.failure_reason {
        Some(why) => {
            set_member(
                &mut attributes,
                "proxy.initial_failure_reason",
                text_value(why.clone()),
            );
        },
        None => {},
    }
    let name = if *t.operation.as_str() == *"chat" {
        "oxllm.chat.completions".to_owned()
    } else {
        "oxllm.".to_owned().concat(t.operation.as_str())
    };
    let mut span = empty_object();
    set_member(&mut span, "trace_id", text_value(context.trace_id.clone()));
    set_member(&mut span, "span_id", text_value(context.span_id.clone()));
    set_member(&mut span, "name", text_value(name));
    set_member(&mut span, "attributes", attributes);
    match &context.parent_span_id {
        Some(parent) => {
            set_member(&mut span, "parent_span_id", text_value(parent.clone()));
        },
        None => {},
    }
    render(&span)
}

/// A trace that the client named is continued; otherwise there is a new one,
/// whose span has no parent. Every trace has an identifier of thirty-two digits,
/// and every span one of sixteen; those that are made up are not all zero.
pub proof fn law_trace_is_valid(
    given: Option<Seq<char>>,
    parent: Option<Seq<char>>,
    high: u64,
    low: u64,
    span: u64,
)
    ensures
        names_trace(given) ==> trace_text(given, high, low) == given->0,
        !names_trace(given) ==> parent_text(given, parent) is None,
        is_hex_id(trace_text(given, high, low), 32),
        !names_trace(given) ==> trace_text(given, high, low) != hex(0, 16) + hex(0, 16),
        is_hex_id(span_text(span), 16),
        span_text(span) != hex(0, 16),
{
    lemma_hex(high as nat, 16);
    lemma_hex(low as nat, 16);
    lemma_hex(1, 16);
    lemma_hex(0, 16);
    lemma_hex(span as nat, 16);
    if span_text(span) == hex(0, 16) {
        lemma_hex_differs(if span == 0 { 1 } else { span }, 0);
    }
    if !names_trace(given) && trace_text(given, high, low) == hex(0, 16) + hex(0, 16) {
        let id = trace_text(given, high, low);
        assert(id.take(16) =~= hex(high as nat, 16));
        assert(id.take(16) =~= hex(0, 16));
        lemma_hex_differs(high, 0);
        assert(id.skip(16) =~= span_text(low));
        assert(id.skip(16) =~= hex(0, 16));
        lemma_hex_differs(if low == 0 { 1 } else { low }, 0);
    }
}

impl Health {
    /// How a provider's state is measured at `now`: zero where it is healthy, one
    /// where it is rate limited, two where its circuit is open.
    pub open spec fn code(self, now: u64) -> u64 {
        if self.tripped(now) {
            2
        } else if self.limited(now) {
            1
        } else {
            0
        }
    }

    /// Measures a provider's state at `now`.
    pub fn status_code(&self, now: u64) -> (code: u64)
        ensures
            code == self.code(now),
    {
        if self.is_tripped(now) {
            2
        } else if self.is_limited(now) {
            1
        } else {
            0
        }
    }
}

/// A provider that may be chosen measures zero; one that measures otherwise may
/// not be chosen.
pub proof fn law_available_measures_zero(h: Health, now: u64)
    ensures
        h.available(now) ==> h.code(now) == 0,
        h.code(now) == 0 <==> !h.tripped(now) && !h.limited(now),
{
}

/// Something that was measured.
#[derive(Debug)]
pub struct Metric {
    pub name: String,
    pub value: u64,
    pub attributes: Vec<Attribute>,
}

/// What tells a measurement from others of its name.
#[derive(Debug)]
pub struct Attribute {
    pub key: String,
    pub value: String,
}

/// What a `Metric` says.
pub struct MetricView {
    pub name: Seq<char>,
    pub value: u64,
    pub attributes: Seq<(Seq<char>, Seq<char>)>,
}

/// What a list of attributes says.
pub open spec fn attribute_views(attributes: Seq<Attribute>) -> Seq<(Seq<char>, Seq<char>)> {
    attributes.map_values(|a: Attribute| (a.key@, a.value@))
}

impl View for Metric {
    type V = MetricView;

    open spec fn view(&self) -> MetricView {
        MetricView {
            name: self.name@,
            value: self.value,
            attributes: attribute_views(self.attributes@),
        }
    }
}

/// The state of a provider, measured at `now`.
pub open spec fn status_metric(p: ProviderView, now: u64) -> MetricView {
    MetricView {
        name: "llm_proxy.provider.status"@,
        value: p.health.code(now),
        attributes: seq![("provider.name"@, p.name)],
    }
}

fn attribute(key: &str, value: &str) -> (a: Attribute)
    ensures
        a.key@ == key@,
        a.value@ == value@,
{
    Attribute { key: key.to_owned(), value: value.to_owned() }
}

fn provider_metric(p: &ProviderState, now: u64) -> (m: Metric)
    ensures
        m@ == status_metric(p@, now),
{
    let mut attributes: Vec<Attribute> = Vec::new();
    attributes.push(attribute("provider.name", p.name.as_str()));
    assert(attribute_views(attributes@) =~= status_metric(p@, now).attributes);
    Metric {
        name: "llm_proxy.provider.status".to_owned(),
        value: p.health.status_code(now),
        attributes,
    }
}

/// The states of the providers, measured at `now`.
pub open spec fn pool_metrics(providers: Seq<ProviderView>, now: u64) -> Seq<MetricView> {
    providers.map_values(|p: ProviderView| status_metric(p, now))
}

/// Measures the state of every provider at `now`.
pub fn status_metrics(state: &AppState, now: u64) -> (r: Vec<Metric>)
    ensures
        r@.map_values(|m: Metric| m@) == pool_metrics(state@.providers, now),
{
    let mut r: Vec<Metric> = Vec::new();
    let mut i: usize = 0;
    while i < state.providers.len()
        invariant
            i == r@.len(),
            i <= state.providers@.len(),
            forall|j: int|
                0 <= j < i ==> (#[trigger] r@[j])@ == status_metric(
                    pool(state.providers@)[j],
                    now,
                ),
        decreases state.providers@.len() - i,
    {
        assert(pool(state.providers@)[i as int] == state.providers@[i as int]@);
        r.push(provider_metric(&state.providers[i], now));
        i += 1;
    }
    assert(r@.map_values(|m: Metric| m@) =~= pool_metrics(state@.providers, now));
    r
}

impl TransactionView {
    /// Where the client asked.
    pub open spec fn endpoint(self) -> Seq<char> {
        if self.operation == "chat"@ {
            "/v1/chat/completions"@
        } else {
            "/v1/"@ + self.operation
        }
    }

    /// How long a request took, in nanoseconds.
    pub open spec fn duration_metric(self) -> MetricView {
        MetricView {
            name: "llm_proxy.request.duration"@,
            value: self.duration,
            attributes: seq![
                ("provider.name"@, self.provider),
                ("client.endpoint"@, self.endpoint()),
            ],
        }
    }

    /// What a request adds to the tokens of a type.
    pub open spec fn tokens_metric(self, kind: Seq<char>, tokens: u64) -> MetricView {
        MetricView {
            name: "llm_proxy.tokens.consumed"@,
            value: tokens,
            attributes: seq![
                ("provider.name"@, self.provider),
                ("model.name"@, self.model),
                ("type"@, kind),
            ],
        }
    }
}

fn duration_metric(t: &Transaction) -> (m: Metric)
    ensures
        m@ == t@.duration_metric(),
{
    let endpoint = if *t.operation.as_str() == *"chat" {
        "/v1/chat/completions".to_owned()
    } else {
        "/v1/".to_owned().concat(t.operation.as_str())
    };
    let mut attributes: Vec<Attribute> = Vec::new();
    attributes.push(attribute("provider.name", t.provider.as_str()));
    attributes.push(attribute("client.endpoint", endpoint.as_str()));
    assert(attribute_views(attributes@) =~= t@.duration_metric().attributes);
    Metric { name: "llm_proxy.request.duration".to_owned(), value: t.duration, attributes }
}

fn tokens_metric(t: &Transaction, kind: &str, tokens: u64) -> (m: Metric)
    ensures
        m@ == t@.tokens_metric(kind@, tokens),
{
    let mut attributes: Vec<Attribute> = Vec::new();
    attributes.push(attribute("provider.name", t.provider.as_str()));
    attributes.push(attribute("model.name", t.model.as_str()));
    attributes.push(attribute("type", kind));
    assert(attribute_views(attributes@) =~= t@.tokens_metric(kind@, tokens).attributes);
    Metric { name: "llm_proxy.tokens.consumed".to_owned(), value: tokens, attributes }
}

impl TransactionView {
    /// All that is measured of a request.
    pub open spec fn metrics(self) -> Seq<MetricView> {
        seq![
            self.duration_metric(),
            self.tokens_metric("input"@, self.input_tokens),
            self.tokens_metric("output"@, self.output_tokens),
        ]
    }
}

/// Measures a request: how long it took, and the tokens that it took in and gave
/// out.
pub fn transaction_metrics(t: &Transaction) -> (r: Vec<Metric>)
    ensures
        r@.map_values(|m: Metric| m@) == t@.metrics(),
{
    let mut r: Vec<Metric> = Vec::new();
    r.push(duration_metric(t));
    r.push(tokens_metric(t, "input", t.input_tokens));
    r.push(tokens_metric(t, "output", t.output_tokens));
    assert(r@.map_values(|m: Metric| m@) =~= t@.metrics());
    r
}

/// Attributes as the members of an object. Of two that have one key, the later
/// counts.
pub open spec fn attribute_members(attributes: Seq<(Seq<char>, Seq<char>)>) -> Map<Seq<char>, Json>
    decreases attributes.len(),
{
    if attributes.len() == 0 {
        Map::empty()
    } else {
        attribute_members(attributes.drop_last()).insert(
            attributes.last().0,
            Json::Text(attributes.last().1),
        )
    }
}

impl MetricView {
    /// A measurement, as JSON.
    pub open spec fn json(self) -> Json {
        Json::Object(
            Map::<Seq<char>, Json>::empty().insert("name"@, Json::Text(self.name)).insert(
                "value"@,
                count_json(self.value),
            ).insert("attributes"@, Json::Object(attribute_members(self.attributes))),
        )
    }
}

/// Writes a measurement.
pub fn metric_document(m: &Metric) -> (body: Vec<u8>)
    ensures
        body@ == rendered(m@.json()),
{
    let ghost all = m@.attributes;
    let mut attributes = empty_object();
    let mut i: usize = 0;
    while i < m.attributes.len()
        invariant
            i <= m.attributes@.len(),
            all == m@.attributes,
            contents(attributes) == Json::Object(attribute_members(all.take(i as int))),
        decreases m.attributes@.len() - i,
    {
        assert(all.take(i + 1).drop_last() =~= all.take(i as int));
        set_member(
            &mut attributes,
            m.attributes[i].key.as_str(),
            text_value(m.attributes[i].value.clone()),
        );
        i += 1;
    }
    assert(all.take(i as int) =~= all);
    let mut doc = empty_object();
    set_member(&mut doc, "name", text_value(m.name.clone()));
    set_member(&mut doc, "value", number_value(m.value));
    set_member(&mut doc, "attributes", attributes);
    render(&doc)
}

/// A text without the slashes at its end.
pub open spec fn without_slashes(s: Seq<char>) -> Seq<char>
    decreases s.len(),
{
    if s.len() > 0 && s.last() == '/' {
        without_slashes(s.drop_last())
    } else {
        s
    }
}

/// Where a collector takes what is told of it.
pub open spec fn signal_url(endpoint: Seq<char>, signal: Seq<char>) -> Seq<char> {
    without_slashes(endpoint) + "/v1/"@ + signal
}

/// Says where a collector takes what is told of it: its endpoint, and below that
/// `traces` or `metrics`.
pub fn collector_url(endpoint: &str, signal: &str) -> (url: String)
    ensures
        url@ == signal_url(endpoint@, signal@),
{
    let chars = chars_of(endpoint);
    let mut n: usize = chars.len();
    assert(chars@.take(n as int) =~= endpoint@);
    while n > 0 && chars[n - 1] == '/'
        invariant
            n <= chars@.len(),
            without_slashes(endpoint@) == without_slashes(chars@.take(n as int)),
        decreases n,
    {
        assert(chars@.take(n as int).drop_last() =~= chars@.take(n - 1));
        n -= 1;
    }
    let mut url = text_of(&chars, 0, n);
    assert(url@ =~= chars@.take(n as int));
    url.append("/v1/");
    url.append(signal);
    url
}

/// A provider measures two exactly while its circuit is open, one while it is not
/// but the provider asked to be left alone, and zero otherwise.
pub proof fn law_what_is_measured(p: ProviderView, now: u64)
    ensures
        ({
            let h = p.health;
            let open = h.circuit is Open && now < h.circuit->until;
            let limited = h.rate_limited_until is Some && now < h.rate_limited_until->0;
            &&& h.code(now) == 2 <==> open
            &&& h.code(now) == 1 <==> !open && limited
            &&& h.code(now) == 0 <==> !open && !limited
            &&& status_metric(p, now).name == "llm_proxy.provider.status"@
            &&& status_metric(p, now).value == h.code(now)
            &&& status_metric(p, now).attributes == seq![("provider.name"@, p.name)]
        }),
{
}

/// A request is measured by how long it took and by its tokens, under the provider
/// that served it.
pub proof fn law_what_is_measured_of_a_request(t: TransactionView, kind: Seq<char>, n: u64)
    ensures
        ({
            let d = t.duration_metric();
            let k = t.tokens_metric(kind, n);
            &&& d.name == "llm_proxy.request.duration"@
            &&& d.value == t.duration
            &&& t.operation == "chat"@ ==> d.attributes == seq![
                ("provider.name"@, t.provider),
                ("client.endpoint"@, "/v1/chat/completions"@),
            ]
            &&& t.operation != "chat"@ ==> d.attributes == seq![
                ("provider.name"@, t.provider),
                ("client.endpoint"@, "/v1/"@ + t.operation),
            ]
            &&& k.name == "llm_proxy.tokens.consumed"@
            &&& k.value == n
            &&& k.attributes == seq![
                ("provider.name"@, t.provider),
                ("model.name"@, t.model),
                ("type"@, kind),
            ]
        }),
{
}

/// A measurement is written with its name, its value and all its attributes.
pub proof fn law_metric_is_written(
    m: MetricView,
    attributes: Seq<(Seq<char>, Seq<char>)>,
    more: (Seq<char>, Seq<char>),
)
    ensures
        m.json() is Object,
        m.json().members().dom() =~= set!["name"@, "value"@, "attributes"@],
        m.json().member("name"@) == Some(Json::Text(m.name)),
        m.json().member("value"@) == Some(Json::Number(JsonNumber::Natural(m.value))),
        m.json().member("attributes"@) == Some(Json::Object(attribute_members(m.attributes))),
        attribute_members(Seq::empty()) == Map::<Seq<char>, Json>::empty(),
        attribute_members(attributes.push(more)) == attribute_members(attributes).insert(
            more.0,
            Json::Text(more.1),
        ),
{
    reveal_strlit("name");
    reveal_strlit("value");
    reveal_strlit("attributes");
    assert("name"@.len() == 4 && "value"@.len() == 5 && "attributes"@.len() == 10);
    assert(attributes.push(more).drop_last() =~= attributes);
}

/// The slashes at the end of an endpoint do not matter, however many there are.
pub proof fn law_slashes_do_not_matter(endpoint: Seq<char>, slashes: nat)
    requires
        endpoint.len() > 0 ==> endpoint.last() != '/',
    ensures
        without_slashes(endpoint + Seq::new(slashes, |i: int| '/')) == endpoint,
    decreases slashes,
{
    let s = endpoint + Seq::new(slashes, |i: int| '/');
    if slashes == 0 {
        assert(s =~= endpoint);
    } else {
        law_slashes_do_not_matter(endpoint, (slashes - 1) as nat);
        assert(s.drop_last() =~= endpoint + Seq::new((slashes - 1) as nat, |i: int| '/'));
    }
}

/// A trace is the client's if its identifier is thirty-two hexadecimal digits; then
/// a span of sixteen is the parent.
pub proof fn law_whose_trace_it_is(
    trace: Seq<char>,
    parent: Seq<char>,
    high: u64,
    low: u64,
)
    requires
        trace.len() == 32,
        forall|i: int|
            0 <= i < 32 ==> '0' <= (#[trigger] trace[i]) <= '9' || 'a' <= trace[i] <= 'f' || 'A'
                <= trace[i] <= 'F',
    ensures
        trace_text(Some(trace), high, low) == trace,
        parent.len() == 16 && (forall|i: int|
            0 <= i < 16 ==> '0' <= (#[trigger] parent[i]) <= '9' || 'a' <= parent[i] <= 'f' || 'A'
                <= parent[i] <= 'F') ==> parent_text(Some(trace), Some(parent)) == Some(parent),
        parent_text(Some(trace), None) is None,
{
}

/// What is not such an identifier is not continued, and has no parent: where the
/// length is another, or some character is no hexadecimal digit.
pub proof fn law_whose_trace_it_is_not(
    trace: Option<Seq<char>>,
    parent: Option<Seq<char>>,
    high: u64,
    low: u64,
    i: int,
)
    requires
        trace is None || trace->0.len() != 32 || (0 <= i < 32 && !('0' <= trace->0[i] <= '9') && !(
        'a' <= trace->0[i] <= 'f') && !('A' <= trace->0[i] <= 'F')),
    ensures
        high > 0 ==> trace_text(trace, high, low) == hex(high as nat, 16) + hex(low as nat, 16),
        high == 0 && low > 0 ==> trace_text(trace, high, low) == hex(0, 16) + hex(low as nat, 16),
        parent_text(trace, parent) is None,
{
    if trace is Some && trace->0.len() == 32 {
        assert(!is_hex_digit(trace->0[i]));
    }
}

/// A number other than zero makes the identifier of a span.
pub proof fn law_span_is_its_number(n: u64)
    requires
        n > 0,
    ensures
        span_text(n) == hex(n as nat, 16),
{
}

/// The span of a request tells where it stands in its trace, what it is called,
/// who served it with which model, what it used, how many attempts it took, and,
/// if one failed, why the first did.
pub proof fn law_span_tells_of_the_request(
    t: TransactionView,
    trace_id: Seq<char>,
    span_id: Seq<char>,
    parent: Option<Seq<char>>,
)
    requires
        0 <= t.attempts <= u64::MAX,
    ensures
        ({
            let s = t.span(trace_id, span_id, parent);
            let a = t.attributes();
            &&& s is Object
            &&& s.members().dom().remove("parent_span_id"@) =~= set![
                "trace_id"@,
                "span_id"@,
                "name"@,
                "attributes"@,
            ]
            &&& a.dom().remove("proxy.initial_failure_reason"@) =~= set![
                "gen_ai.operation.name"@,
                "gen_ai.provider.name"@,
                "gen_ai.request.model"@,
                "gen_ai.usage.input_tokens"@,
                "gen_ai.usage.output_tokens"@,
                "proxy.attempts_required"@,
            ]
            &&& s.member("trace_id"@) == Some(Json::Text(trace_id))
            &&& s.member("span_id"@) == Some(Json::Text(span_id))
            &&& s.member("attributes"@) == Some(Json::Object(a))
            &&& t.operation == "chat"@ ==> s.member("name"@) == Some(
                Json::Text("oxllm.chat.completions"@),
            )
            &&& t.operation != "chat"@ ==> s.member("name"@) == Some(
                Json::Text("oxllm."@ + t.operation),
            )
            &&& parent is Some ==> s.member("parent_span_id"@) == Some(Json::Text(parent->0))
            &&& parent is None ==> s.member("parent_span_id"@) is None
            &&& a.contains_key("gen_ai.operation.name"@) && a["gen_ai.operation.name"@]
                == Json::Text(t.operation)
            &&& a.contains_key("gen_ai.provider.name"@) && a["gen_ai.provider.name"@] == Json::Text(
                t.provider,
            )
            &&& a.contains_key("gen_ai.request.model"@) && a["gen_ai.request.model"@] == Json::Text(
                t.model,
            )
            &&& a.contains_key("gen_ai.usage.input_tokens"@) && a["gen_ai.usage.input_tokens"@]
                == Json::Number(JsonNumber::Natural(t.input_tokens))
            &&& a.contains_key("gen_ai.usage.output_tokens"@) && a["gen_ai.usage.output_tokens"@]
                == Json::Number(JsonNumber::Natural(t.output_tokens))
            &&& a.contains_key("proxy.attempts_required"@) && a["proxy.attempts_required"@]
                == Json::Number(JsonNumber::Natural(t.attempts as u64))
            &&& t.failure_reason is Some ==> a.contains_key("proxy.initial_failure_reason"@)
                && a["proxy.initial_failure_reason"@] == Json::Text(t.failure_reason->0)
            &&& t.failure_reason is None ==> !a.contains_key("proxy.initial_failure_reason"@)
        }),
{
    reveal_strlit("trace_id");
    reveal_strlit("span_id");
    reveal_strlit("name");
    reveal_strlit("attributes");
    reveal_strlit("parent_span_id");
    assert("trace_id"@.len() == 8 && "span_id"@.len() == 7 && "name"@.len() == 4
        && "attributes"@.len() == 10 && "parent_span_id"@.len() == 14);
    reveal_strlit("gen_ai.operation.name");
    reveal_strlit("gen_ai.provider.name");
    reveal_strlit("gen_ai.request.model");
    reveal_strlit("gen_ai.usage.input_tokens");
    reveal_strlit("gen_ai.usage.output_tokens");
    reveal_strlit("proxy.attempts_required");
    reveal_strlit("proxy.initial_failure_reason");
    assert("gen_ai.operation.name"@.len() == 21 && "gen_ai.provider.name"@.len() == 20
        && "gen_ai.request.model"@.len() == 20 && "gen_ai.usage.input_tokens"@.len() == 25
        && "gen_ai.usage.output_tokens"@.len() == 26 && "proxy.attempts_required"@.len() == 23
        && "proxy.initial_failure_reason"@.len() == 28);
    assert("gen_ai.provider.name"@[7] == 'p' && "gen_ai.request.model"@[7] == 'r');
}

/// A parent whose identifier is not sixteen hexadecimal digits is none.
pub proof fn law_no_such_parent(trace: Option<Seq<char>>, parent: Seq<char>, i: int)
    requires
        parent.len() != 16 || (0 <= i < 16 && !('0' <= parent[i] <= '9') && !('a' <= parent[i]
            <= 'f') && !('A' <= parent[i] <= 'F')),
    ensures
        parent_text(trace, Some(parent)) is None,
{
    if parent.len() == 16 {
        assert(!is_hex_digit(parent[i]));
    }
}

/// Every provider is measured, in order, and every request by its duration and by
/// its tokens, those that it took in and those that it gave out.
pub proof fn law_everything_is_measured(
    providers: Seq<ProviderView>,
    now: u64,
    t: TransactionView,
)
    ensures
        pool_metrics(providers, now).len() == providers.len(),
        forall|i: int|
            0 <= i < providers.len() ==> (#[trigger] pool_metrics(providers, now)[i])
                == status_metric(providers[i], now),
        t.metrics().len() == 3,
        t.metrics()[0].name == "llm_proxy.request.duration"@ && t.metrics()[0].value == t.duration,
        forall|i: int|
            1 <= i < 3 ==> (#[trigger] t.metrics()[i]).name == "llm_proxy.tokens.consumed"@,
        t.metrics()[1].value == t.input_tokens,
        t.metrics()[1].attributes.last() == ("type"@, "input"@),
        t.metrics()[2].value == t.output_tokens,
        t.metrics()[2].attributes.last() == ("type"@, "output"@),
{
}

/// A collector takes a signal below its endpoint, whether the endpoint ends in
/// slashes or not.
pub proof fn law_signals_go_below_the_endpoint(
    endpoint: Seq<char>,
    slashes: nat,
    signal: Seq<char>,
)
    requires
        endpoint.len() > 0 ==> endpoint.last() != '/',
    ensures
        signal_url(endpoint + Seq::new(slashes, |i: int| '/'), signal) == endpoint + "/v1/"@
            + signal,
{
    law_slashes_do_not_matter(endpoint, slashes);
}

} // verus!
