//! What the command line shows, and what it asks of a running gateway.

use vstd::prelude::*;

use crate::routes::{
    ModelRoutes, ModelRoutesView, ProviderStatus, ProviderStatusView, RouteEntry, RouteView,
};
use crate::telemetry::text_or_none;
use crate::text::{
    decimal, is_whitespace, join, joined, law_decimal_is_read_back, number, padded, parse_u32,
    push_decimal, push_padded, trim, trimmed, views,
};

verus! {

/// The address that the gateway listens on.
pub open spec fn address_text(host: Seq<char>, port: u16) -> Seq<char> {
    host + ":"@ + decimal(port as nat)
}

/// Writes the address that the gateway listens on.
pub fn bind_address(host: &str, port: u16) -> (s: String)
    ensures
        s@ == address_text(host@, port),
{
    let mut s = host.to_owned();
    s.append(":");
    push_decimal(&mut s, port as u128);
    s
}

/// Writes where a gateway on this machine tells how it is doing.
pub fn status_url(port: u16) -> (s: String)
    ensures
        s@ == "http://127.0.0.1:"@ + decimal(port as nat) + "/status"@,
{
    let mut s = "http://127.0.0.1:".to_owned();
    push_decimal(&mut s, port as u128);
    s.append("/status");
    s
}

/// The process that the text of a PID file names.
pub open spec fn pid_in(content: Seq<char>) -> Option<u32> {
    match number(trimmed(content)) {
        Some(v) => if v <= u32::MAX {
            Some(v as u32)
        } else {
            None
        },
        None => None,
    }
}

/// Which process to signal, or why none can be.
pub open spec fn process_of(given: Option<u32>, pid_file: Option<Seq<char>>) -> Result<
    u32,
    Seq<char>,
> {
    match given {
        Some(pid) => Ok(pid),
        None => match pid_file {
            None => Err("Failed to read PID from /tmp/oxllm.pid. Is the gateway running?"@),
            Some(content) => match pid_in(content) {
                Some(pid) => Ok(pid),
                None => Err("Invalid PID in /tmp/oxllm.pid"@),
            },
        },
    }
}

/// The process that is given is signalled, whatever the file says; without one,
/// the process that the file names.
pub proof fn law_given_process_goes_first(pid: u32, pid_file: Option<Seq<char>>)
    ensures
        process_of(Some(pid), pid_file) == Ok::<u32, Seq<char>>(pid),
        process_of(None, None) == Err::<u32, Seq<char>>(
            "Failed to read PID from /tmp/oxllm.pid. Is the gateway running?"@,
        ),
        pid_file is Some && pid_in(pid_file->0) == Some(pid) ==> process_of(None, pid_file) == Ok::<
            u32,
            Seq<char>,
        >(pid),
        pid_file is Some && pid_in(pid_file->0) is None ==> process_of(None, pid_file) == Err::<
            u32,
            Seq<char>,
        >("Invalid PID in /tmp/oxllm.pid"@),
{
}

/// Says which process to signal: the one that was given, or else the one that
/// the PID file names, if it could be read.
pub fn run_reload(given: Option<u32>, pid_file: Option<String>) -> (r: Result<u32, String>)
    ensures
        match r {
            Ok(pid) => process_of(given, text_or_none(pid_file)) == Ok::<u32, Seq<char>>(pid),
            Err(m) => process_of(given, text_or_none(pid_file)) == Err::<u32, Seq<char>>(m@),
        },
{
    match given {
        Some(pid) => Ok(pid),
        None => match pid_file {
            None => Err(
                "Failed to read PID from /tmp/oxllm.pid. Is the gateway running?".to_owned(),
            ),
            Some(content) => match parse_u32(trim(content.as_str()).as_str()) {
                Some(pid) => Ok(pid),
                None => Err("Invalid PID in /tmp/oxllm.pid".to_owned()),
            },
        },
    }
}

/// Says whether every provider of a configuration could be reached, given the
/// names of those that could not.
pub fn reachability(unreached: &Vec<String>) -> (r: Result<(), String>)
    ensures
        match r {
            Ok(_) => unreached@.len() == 0,
            Err(m) => unreached@.len() > 0 && m@ == "Providers that cannot be reached: "@ + joined(
                views(unreached@),
                ", "@,
            ),
        },
{
    if unreached.len() == 0 {
        Ok(())
    } else {
        let names = join(unreached, ", ");
        Err("Providers that cannot be reached: ".to_owned().concat(names.as_str()))
    }
}

/// A cell of the table, and what parts it from the next.
pub open spec fn cell(text: Seq<char>, width: nat) -> Seq<char> {
    padded(text, width) + " | "@
}

/// The row of a provider.
pub open spec fn provider_row(p: ProviderStatusView) -> Seq<char> {
    "| "@ + cell(p.name, 18) + cell(p.circuit, 30) + cell(decimal(p.failures as nat), 8) + cell(
        if p.rate_limited {
            "Yes"@
        } else {
            "No"@
        },
        13,
    ) + cell(decimal(p.requests as nat), 8) + cell(decimal(p.successes as nat), 9) + cell(
        decimal(p.tokens_input as nat),
        12,
    ) + padded(decimal(p.tokens_output as nat), 13) + " |\n"@
}

/// The rows of the providers.
pub open spec fn provider_rows(rows: Seq<ProviderStatusView>) -> Seq<char>
    decreases rows.len(),
{
    if rows.len() == 0 {
        Seq::empty()
    } else {
        provider_rows(rows.drop_last()) + provider_row(rows.last())
    }
}

/// The line between the parts of the table.
pub open spec fn rule() -> Seq<char> {
    "+--------------------+--------------------------------+----------+---------------+----------+-----------+--------------+---------------+\n"@
}

/// The line that names the columns of the table.
pub open spec fn heading() -> Seq<char> {
    "| Provider Name      | Circuit Breaker State          | Failures | Rate Limited? | Requests | Successes | Tokens Input | Tokens Output |\n"@
}

/// What is shown of the providers of a gateway.
pub open spec fn table(uptime_secs: u64, total: u64, rows: Seq<ProviderStatusView>) -> Seq<char> {
    "Uptime: "@ + decimal(uptime_secs as nat) + "s | Total requests: "@ + decimal(total as nat)
        + "\n\n"@ + rule() + heading() + rule() + provider_rows(rows) + rule() + "\n"@
}

fn push_cell(out: &mut String, text: &str, width: usize)
    ensures
        final(out)@ == old(out)@ + cell(text@, width as nat),
{
    let ghost before = out@;
    push_padded(out, text, width);
    out.append(" | ");
    assert(out@ =~= before + cell(text@, width as nat));
}

fn number_text(n: u64) -> (s: String)
    ensures
        s@ == decimal(n as nat),
{
    let mut s = String::new();
    push_decimal(&mut s, n as u128);
    assert(s@ =~= decimal(n as nat));
    s
}

fn row_text(p: &ProviderStatus) -> (s: String)
    ensures
        s@ == provider_row(p@),
{
    let mut s = "| ".to_owned();
    push_cell(&mut s, p.name.as_str(), 18);
    push_cell(&mut s, p.circuit.as_str(), 30);
    push_cell(&mut s, number_text(p.failures as u64).as_str(), 8);
    push_cell(&mut s, if p.rate_limited { "Yes" } else { "No" }, 13);
    push_cell(&mut s, number_text(p.requests).as_str(), 8);
    push_cell(&mut s, number_text(p.successes).as_str(), 9);
    push_cell(&mut s, number_text(p.tokens_input).as_str(), 12);
    push_padded(&mut s, number_text(p.tokens_output).as_str(), 13);
    s.append(" |\n");
    s
}

fn provider_table(uptime_secs: u64, total: u64, rows: &Vec<ProviderStatus>) -> (s: String)
    ensures
        s@ == table(uptime_secs, total, rows@.map_values(|p: ProviderStatus| p@)),
{
    let ghost all = rows@.map_values(|p: ProviderStatus| p@);
    let mut s = "Uptime: ".to_owned();
    push_decimal(&mut s, uptime_secs as u128);
    s.append("s | Total requests: ");
    push_decimal(&mut s, total as u128);
    s.append("\n\n");
    let line = "+--------------------+--------------------------------+----------+---------------+----------+-----------+--------------+---------------+\n";
    s.append(line);
    s.append(
        "| Provider Name      | Circuit Breaker State          | Failures | Rate Limited? | Requests | Successes | Tokens Input | Tokens Output |\n",
    );
    s.append(line);
    let ghost top = s@;
    let mut i: usize = 0;
    assert(top + provider_rows(all.take(0)) =~= top);
    while i < rows.len()
        invariant
            i <= rows@.len(),
            all == rows@.map_values(|p: ProviderStatus| p@),
            s@ == top + provider_rows(all.take(i as int)),
        decreases rows@.len() - i,
    {
        s.append(row_text(&rows[i]).as_str());
        proof {
            assert(all.take(i + 1).drop_last() =~= all.take(i as int));
            assert(s@ =~= top + provider_rows(all.take(i + 1)));
        }
        i += 1;
    }
    assert(all.take(i as int) =~= all);
    s.append(line);
    s.append("\n");
    s
}

/// The line of a target of a virtual model.
pub open spec fn route_line(r: RouteView) -> Seq<char> {
    "  "@ + r.provider + " / "@ + r.model + ": "@ + r.circuit + ", "@ + decimal(r.requests as nat)
        + " requests, "@ + decimal(r.successes as nat) + " successes\n"@
}

/// The lines of the targets of a virtual model.
pub open spec fn route_lines(routes: Seq<RouteView>) -> Seq<char>
    decreases routes.len(),
{
    if routes.len() == 0 {
        Seq::empty()
    } else {
        route_lines(routes.drop_last()) + route_line(routes.last())
    }
}

/// What is shown of a virtual model.
pub open spec fn model_lines(m: ModelRoutesView) -> Seq<char> {
    m.name + "\n"@ + route_lines(m.routes)
}

/// Draws where the requests for a virtual model go.
pub fn show_routes(m: &ModelRoutes) -> (s: String)
    ensures
        s@ == model_lines(m@),
{
    let ghost all = m@.routes;
    let mut s = m.name.clone();
    s.append("\n");
    let ghost top = s@;
    let mut i: usize = 0;
    assert(top + route_lines(all.take(0)) =~= top);
    while i < m.routes.len()
        invariant
            i <= m.routes@.len(),
            all == m@.routes,
            s@ == top + route_lines(all.take(i as int)),
        decreases m.routes@.len() - i,
    {
        let r: &RouteEntry = &m.routes[i];
        let mut line = "  ".to_owned();
        line.append(r.provider.as_str());
        line.append(" / ");
        line.append(r.model.as_str());
        line.append(": ");
        line.append(r.circuit.as_str());
        line.append(", ");
        push_decimal(&mut line, r.requests as u128);
        line.append(" requests, ");
        push_decimal(&mut line, r.successes as u128);
        line.append(" successes\n");
        assert(line@ == route_line(all[i as int]));
        s.append(line.as_str());
        proof {
            assert(all.take(i + 1).drop_last() =~= all.take(i as int));
            assert(s@ =~= top + route_lines(all.take(i + 1)));
        }
        i += 1;
    }
    assert(all.take(i as int) =~= all);
    s
}

/// What is shown of the virtual models, one after the other.
pub open spec fn routing_table(models: Seq<ModelRoutesView>) -> Seq<char>
    decreases models.len(),
{
    if models.len() == 0 {
        Seq::empty()
    } else {
        routing_table(models.drop_last()) + model_lines(models.last())
    }
}

/// Draws how a gateway is doing: the table of its providers, and where the
/// requests for each virtual model go.
pub fn run_status(
    uptime_secs: u64,
    total: u64,
    rows: &Vec<ProviderStatus>,
    models: &Vec<ModelRoutes>,
) -> (s: String)
    ensures
        s@ == table(uptime_secs, total, rows@.map_values(|p: ProviderStatus| p@)) + routing_table(
            models@.map_values(|m: ModelRoutes| m@),
        ),
{
    let ghost all = models@.map_values(|m: ModelRoutes| m@);
    let mut s = provider_table(uptime_secs, total, rows);
    let ghost top = s@;
    let mut i: usize = 0;
    assert(top + routing_table(all.take(0)) =~= top);
    while i < models.len()
        invariant
            i <= models@.len(),
            all == models@.map_values(|m: ModelRoutes| m@),
            s@ == top + routing_table(all.take(i as int)),
        decreases models@.len() - i,
    {
        s.append(show_routes(&models[i]).as_str());
        proof {
            assert(all.take(i + 1).drop_last() =~= all.take(i as int));
            assert(s@ =~= top + routing_table(all.take(i + 1)));
        }
        i += 1;
    }
    assert(all.take(i as int) =~= all);
    s
}

proof fn lemma_trimmed_between(before: Seq<char>, s: Seq<char>, behind: Seq<char>)
    requires
        s.len() > 0,
        !is_whitespace(s[0]),
        !is_whitespace(s.last()),
        forall|i: int| 0 <= i < before.len() ==> is_whitespace(#[trigger] before[i]),
        forall|i: int| 0 <= i < behind.len() ==> is_whitespace(#[trigger] behind[i]),
    ensures
        trimmed(before + s + behind) == s,
    decreases before.len() + behind.len(),
{
    let whole = before + s + behind;
    if before.len() > 0 {
        assert(whole[0] == before[0]);
        assert(whole.drop_first() =~= before.drop_first() + s + behind);
        assert forall|i: int| 0 <= i < before.drop_first().len() implies is_whitespace(
            #[trigger] before.drop_first()[i],
        ) by {
            assert(is_whitespace(before[i + 1]));
        }
        lemma_trimmed_between(before.drop_first(), s, behind);
    } else if behind.len() > 0 {
        assert(whole[0] == s[0]);
        assert(whole.last() == behind.last());
        assert(is_whitespace(behind[behind.len() - 1]));
        assert(whole.drop_last() =~= before + s + behind.drop_last());
        assert forall|i: int| 0 <= i < behind.drop_last().len() implies is_whitespace(
            #[trigger] behind.drop_last()[i],
        ) by {
            assert(is_whitespace(behind[i]));
        }
        lemma_trimmed_between(before, s, behind.drop_last());
    } else {
        assert(whole =~= s);
    }
}

/// The process that is written in decimal in a PID file is found, whatever white
/// space stands around it; a number that is too great names none.
pub proof fn law_pid_is_found(before: Seq<char>, n: nat, behind: Seq<char>)
    requires
        forall|i: int| 0 <= i < before.len() ==> is_whitespace(#[trigger] before[i]),
        forall|i: int| 0 <= i < behind.len() ==> is_whitespace(#[trigger] behind[i]),
    ensures
        n <= u32::MAX ==> pid_in(before + decimal(n) + behind) == Some(n as u32),
        n > u32::MAX ==> pid_in(before + decimal(n) + behind) is None,
{
    law_decimal_is_read_back(n);
    let d = decimal(n);
    assert('0' <= d[d.len() - 1] <= '9');
    lemma_trimmed_between(before, d, behind);
}

/// The row of a provider shows all that is told of it, each in a column of its
/// own; where nothing is too long, a row is as long as the lines around it.
pub proof fn law_row_is_aligned(p: ProviderStatusView)
    ensures
        p.rate_limited ==> provider_row(p) == "| "@ + padded(p.name, 18) + " | "@ + padded(
            p.circuit,
            30,
        ) + " | "@ + padded(decimal(p.failures as nat), 8) + " | "@ + padded("Yes"@, 13) + " | "@
            + padded(decimal(p.requests as nat), 8) + " | "@ + padded(
            decimal(p.successes as nat),
            9,
        ) + " | "@ + padded(decimal(p.tokens_input as nat), 12) + " | "@ + padded(
            decimal(p.tokens_output as nat),
            13,
        ) + " |\n"@,
        !p.rate_limited ==> provider_row(p) == "| "@ + padded(p.name, 18) + " | "@ + padded(
            p.circuit,
            30,
        ) + " | "@ + padded(decimal(p.failures as nat), 8) + " | "@ + padded("No"@, 13) + " | "@
            + padded(decimal(p.requests as nat), 8) + " | "@ + padded(
            decimal(p.successes as nat),
            9,
        ) + " | "@ + padded(decimal(p.tokens_input as nat), 12) + " | "@ + padded(
            decimal(p.tokens_output as nat),
            13,
        ) + " |\n"@,
        p.name.len() <= 18 && p.circuit.len() <= 30 && decimal(p.failures as nat).len() <= 8
            && decimal(p.requests as nat).len() <= 8 && decimal(p.successes as nat).len() <= 9
            && decimal(p.tokens_input as nat).len() <= 12 && decimal(p.tokens_output as nat).len()
            <= 13 ==> provider_row(p).len() == rule().len() && provider_row(p).len()
            == heading().len(),
{
    reveal_strlit("| ");
    reveal_strlit(" | ");
    reveal_strlit(" |\n");
    reveal_strlit("Yes");
    reveal_strlit("No");
    reveal_strlit(
        "+--------------------+--------------------------------+----------+---------------+----------+-----------+--------------+---------------+\n",
    );
    reveal_strlit(
        "| Provider Name      | Circuit Breaker State          | Failures | Rate Limited? | Requests | Successes | Tokens Input | Tokens Output |\n",
    );
    let limited = if p.rate_limited {
        "Yes"@
    } else {
        "No"@
    };
    assert(provider_row(p) =~= "| "@ + padded(p.name, 18) + " | "@ + padded(p.circuit, 30) + " | "@
        + padded(decimal(p.failures as nat), 8) + " | "@ + padded(limited, 13) + " | "@ + padded(
        decimal(p.requests as nat),
        8,
    ) + " | "@ + padded(decimal(p.successes as nat), 9) + " | "@ + padded(
        decimal(p.tokens_input as nat),
        12,
    ) + " | "@ + padded(decimal(p.tokens_output as nat), 13) + " |\n"@);
}

/// Every provider has a row, in order, between the heading and the last line.
pub proof fn law_every_provider_has_a_row(
    uptime_secs: u64,
    total: u64,
    rows: Seq<ProviderStatusView>,
    p: ProviderStatusView,
)
    ensures
        provider_rows(Seq::empty()).len() == 0,
        provider_rows(rows.push(p)) == provider_rows(rows) + provider_row(p),
        rule()
            == "+--------------------+--------------------------------+----------+---------------+----------+-----------+--------------+---------------+\n"@,
        heading()
            == "| Provider Name      | Circuit Breaker State          | Failures | Rate Limited? | Requests | Successes | Tokens Input | Tokens Output |\n"@,
        table(uptime_secs, total, rows) == "Uptime: "@ + decimal(uptime_secs as nat)
            + "s | Total requests: "@ + decimal(total as nat) + "\n\n"@ + rule() + heading() + rule()
            + provider_rows(rows) + rule() + "\n"@,
{
    assert(rows.push(p).drop_last() =~= rows);
}

/// Every virtual model is shown, in order, and under it every target, in order,
/// with its provider, its model, its circuit and what was counted.
pub proof fn law_every_route_is_shown(
    models: Seq<ModelRoutesView>,
    m: ModelRoutesView,
    routes: Seq<RouteView>,
    r: RouteView,
)
    ensures
        routing_table(Seq::empty()).len() == 0,
        routing_table(models.push(m)) == routing_table(models) + m.name + "\n"@ + route_lines(
            m.routes,
        ),
        route_lines(Seq::empty()).len() == 0,
        route_lines(routes.push(r)) == route_lines(routes) + ("  "@ + r.provider + " / "@ + r.model
            + ": "@ + r.circuit + ", "@ + decimal(r.requests as nat) + " requests, "@ + decimal(
            r.successes as nat,
        ) + " successes\n"@),
{
    assert(models.push(m).drop_last() =~= models);
    assert(routes.push(r).drop_last() =~= routes);
    assert(routing_table(models) + (m.name + "\n"@ + route_lines(m.routes)) =~= routing_table(models)
        + m.name + "\n"@ + route_lines(m.routes));
}

/// An address is the host and the port.
pub proof fn law_address(host: Seq<char>, port: u16)
    ensures
        address_text(host, port) == host + ":"@ + decimal(port as nat),
{
}

/// What is no number, or too great a one, once the white space around it is taken
/// away, names no process.
pub proof fn law_no_number_no_process(content: Seq<char>, n: nat)
    ensures
        number(trimmed(content)) is None ==> pid_in(content) is None,
        number(trimmed(content)) == Some(n) && n > 0xffff_ffff ==> pid_in(content) is None,
        number(trimmed(content)) == Some(n) && n <= 0xffff_ffff ==> pid_in(content) is Some
            && pid_in(content)->0 == n,
{
}

} // verus!
