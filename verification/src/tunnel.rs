//! Safe networking through a relay agent that runs in its own container.
//!
//! The agent only connects outward to the relay, so no port opens on the
//! host's router and players see the relay's address, never the host's.
//! The first run needs a one-time claim of the agent at a link it prints;
//! that link, and later the relay address, are read out of its logs.

use vstd::prelude::*;
use vstd::string::*;

use crate::docker::{
    answered_true, container_running_args, outcome, outcome_of, running_query, says_true, CmdOutput,
    Model, Next, Step,
};
use crate::text;

verus! {

/// Name of the relay agent's container.
pub const TUNNEL_NAME: &'static str = "palbox-tunnel";

/// Image the relay agent runs.
pub const TUNNEL_IMAGE: &'static str = "ghcr.io/playit-cloud/playit-agent:latest";

/// What the dashboard shows of the tunnel.
#[derive(Clone, Debug)]
pub struct TunnelStatus {
    pub running: bool,
    /// One-time setup link, present until the agent is claimed.
    pub claim_url: String,
    /// Public relay address to share once the tunnel is live.
    pub address: String,
    pub message: String,
}

#[verifier::ext_equal]
pub struct TunnelStatusModel {
    pub running: bool,
    pub claim_url: Seq<char>,
    pub address: Seq<char>,
    pub message: Seq<char>,
}

impl Model for TunnelStatus {
    type M = TunnelStatusModel;

    open spec fn model(&self) -> TunnelStatusModel {
        TunnelStatusModel {
            running: self.running,
            claim_url: self.claim_url@,
            address: self.address@,
            message: self.message@,
        }
    }
}

impl Default for TunnelStatus {
    fn default() -> (r: Self)
        ensures
            !r.running,
            r.claim_url@ == Seq::<char>::empty(),
            r.address@ == Seq::<char>::empty(),
            r.message@ == Seq::<char>::empty(),
    {
        TunnelStatus {
            running: false,
            claim_url: String::new(),
            address: String::new(),
            message: String::new(),
        }
    }
}

// ---------------------------------------------------------------------------
// Starting and stopping the agent
// ---------------------------------------------------------------------------

pub open spec fn remove_tunnel_args() -> Seq<Seq<char>> {
    seq!["rm"@, "-f"@, TUNNEL_NAME@]
}

/// The agent reaches the game server published on the host through
/// host.docker.internal; its configuration lives under the data directory
/// and its secret key links it to the user's relay account.
pub open spec fn tunnel_run_args(data_dir: Seq<char>, secret: Seq<char>) -> Seq<Seq<char>> {
    seq![
        "run"@,
        "-d"@,
        "--name"@,
        TUNNEL_NAME@,
        "--restart"@,
        "unless-stopped"@,
        "--add-host"@,
        "host.docker.internal:host-gateway"@,
        "-v"@,
        data_dir + "/playit:/etc/playit"@,
        "-e"@,
        "SECRET_KEY="@ + secret,
        TUNNEL_IMAGE@,
    ]
}

/// The refusal to start the tunnel while the game server is not running.
pub open spec fn server_first_message() -> Seq<char> {
    "Start your server first"@
}

/// Ask whether the game server runs; if it does not, refuse. Otherwise
/// remove any old agent container, then run a new one with the secret key;
/// the result is that of the run.
pub open spec fn start_plan(data_dir: Seq<char>, secret: Seq<char>, outs: Seq<CmdOutput>) -> Next<
    Result<(), Seq<char>>,
> {
    if outs.len() == 0 {
        Next::Run(container_running_args())
    } else if !says_true(outs[0]) {
        Next::Done(Err(server_first_message()))
    } else if outs.len() == 1 {
        Next::Run(remove_tunnel_args())
    } else if outs.len() == 2 {
        Next::Run(tunnel_run_args(data_dir, secret))
    } else {
        Next::Done(outcome(outs[2]))
    }
}

/// Starts the relay agent with the secret key `secret`, its configuration
/// under `data_dir`, once the game server runs.
pub fn start(data_dir: &str, secret: &str, outs: &Vec<CmdOutput>) -> (r: Step<Result<(), String>>)
    ensures
        r.model() == start_plan(data_dir@, secret@, outs@),
{
    if outs.len() == 0 {
        return Step::Run(running_query());
    }
    if !answered_true(&outs[0]) {
        return Step::Done(Err(text::owned("Start your server first")));
    }
    if outs.len() == 1 {
        Step::Run(vec![text::owned("rm"), text::owned("-f"), text::owned(TUNNEL_NAME)])
    } else if outs.len() == 2 {
        let cfg = text::concat(data_dir, "/playit:/etc/playit");
        let key = text::concat("SECRET_KEY=", secret);
        let args = vec![
            text::owned("run"),
            text::owned("-d"),
            text::owned("--name"),
            text::owned(TUNNEL_NAME),
            text::owned("--restart"),
            text::owned("unless-stopped"),
            text::owned("--add-host"),
            text::owned("host.docker.internal:host-gateway"),
            text::owned("-v"),
            cfg,
            text::owned("-e"),
            key,
            text::owned(TUNNEL_IMAGE),
        ];
        assert(args.deep_view() =~= tunnel_run_args(data_dir@, secret@));
        Step::Run(args)
    } else {
        Step::Done(outcome_of(&outs[2]))
    }
}

/// Law: the tunnel starts only once the game server runs. Its first command
/// asks whether the game server container runs; when that does not answer
/// "true", starting ends with "Start your server first" and no agent
/// container is removed or run. When it runs, the old agent is removed
/// before the new one is run, and the new one carries the secret key.
pub proof fn lemma_tunnel_needs_server(data_dir: Seq<char>, secret: Seq<char>, outs: Seq<CmdOutput>)
    ensures
        start_plan(data_dir, secret, seq![]) == Next::<Result<(), Seq<char>>>::Run(
            container_running_args(),
        ),
        outs.len() >= 1 && !says_true(outs[0]) ==> start_plan(data_dir, secret, outs) == Next::<
            Result<(), Seq<char>>,
        >::Done(Err(server_first_message())),
        outs.len() == 1 && says_true(outs[0]) ==> start_plan(data_dir, secret, outs) == Next::<
            Result<(), Seq<char>>,
        >::Run(remove_tunnel_args()),
        outs.len() == 2 && says_true(outs[0]) ==> start_plan(data_dir, secret, outs) == Next::<
            Result<(), Seq<char>>,
        >::Run(tunnel_run_args(data_dir, secret)),
        tunnel_run_args(data_dir, secret).contains("SECRET_KEY="@ + secret),
        outs.len() >= 3 ==> start_plan(data_dir, secret, outs) is Done,
{
    assert(tunnel_run_args(data_dir, secret)[11] == "SECRET_KEY="@ + secret);
}

pub open spec fn stop_plan(outs: Seq<CmdOutput>) -> Next<Result<(), Seq<char>>> {
    if outs.len() == 0 {
        Next::Run(remove_tunnel_args())
    } else {
        Next::Done(outcome(outs[0]))
    }
}

/// Stops and removes the relay agent.
pub fn stop(outs: &Vec<CmdOutput>) -> (r: Step<Result<(), String>>)
    ensures
        r.model() == stop_plan(outs@),
{
    if outs.len() == 0 {
        Step::Run(vec![text::owned("rm"), text::owned("-f"), text::owned(TUNNEL_NAME)])
    } else {
        Step::Done(outcome_of(&outs[0]))
    }
}

pub open spec fn inspect_tunnel_args() -> Seq<Seq<char>> {
    seq!["inspect"@, "-f"@, "{{.State.Running}}"@, TUNNEL_NAME@]
}

pub open spec fn running_plan(outs: Seq<CmdOutput>) -> Next<bool> {
    if outs.len() == 0 {
        Next::Run(inspect_tunnel_args())
    } else {
        Next::Done(says_true(outs[0]))
    }
}

fn inspect_tunnel() -> (r: Vec<String>)
    ensures
        r.deep_view() == inspect_tunnel_args(),
{
    let r = vec![
        text::owned("inspect"),
        text::owned("-f"),
        text::owned("{{.State.Running}}"),
        text::owned(TUNNEL_NAME),
    ];
    assert(r.deep_view() =~= inspect_tunnel_args());
    r
}

/// Whether the agent's container runs.
pub fn running(outs: &Vec<CmdOutput>) -> (r: Step<bool>)
    ensures
        r.model() == running_plan(outs@),
{
    if outs.len() == 0 {
        Step::Run(inspect_tunnel())
    } else {
        Step::Done(answered_true(&outs[0]))
    }
}

// ---------------------------------------------------------------------------
// Reading the agent's logs
// ---------------------------------------------------------------------------

/// A word that holds the one-time claim link.
pub open spec fn is_claim_word(w: Seq<char>) -> bool {
    text::contains(w, "playit.gg/claim"@)
}

/// A word that holds a relay address, like `something.gl.at.ply.gg`.
pub open spec fn is_address_word(w: Seq<char>) -> bool {
    text::contains(w, ".ply.gg"@) || text::contains(w, ".playit.gg:"@)
}

/// The first of `ws` for which `p` holds.
pub open spec fn first_word(ws: Seq<Seq<char>>, p: spec_fn(Seq<char>) -> bool) -> Option<Seq<char>>
    decreases ws.len(),
{
    if ws.len() == 0 {
        None
    } else if p(ws[0]) {
        Some(ws[0])
    } else {
        first_word(ws.drop_first(), p)
    }
}

/// The claim link in the logs: the first word that holds one, without the
/// characters at its ends that are not printable ASCII; empty when none.
pub open spec fn claim_url_in(logs: Seq<char>) -> Seq<char> {
    match first_word(text::words(logs), |w: Seq<char>| is_claim_word(w)) {
        Some(w) => text::trim_by(w, text::Edge::NonGraphic),
        None => seq![],
    }
}

/// The relay address in the logs: the first word that holds one, without
/// the characters at its ends that are not ASCII letters, digits, '.' or
/// ':'; empty when none.
pub open spec fn address_in(logs: Seq<char>) -> Seq<char> {
    match first_word(text::words(logs), |w: Seq<char>| is_address_word(w)) {
        Some(w) => text::trim_by(w, text::Edge::NonAddress),
        None => seq![],
    }
}

pub open spec fn claim_message() -> Seq<char> {
    "Tunnel needs a one-time setup \u{2014} open the link to claim it (free)."@
}

pub open spec fn live_message() -> Seq<char> {
    "Tunnel is live. Share the relay address with your friends."@
}

pub open spec fn starting_message() -> Seq<char> {
    "Tunnel is starting\u{2026}"@
}

pub open spec fn off_message() -> Seq<char> {
    "Tunnel is off."@
}

/// The status of a running agent whose logs read `logs`: a pending claim
/// comes first, then a live address.
pub open spec fn status_from_logs(logs: Seq<char>) -> TunnelStatusModel {
    let claim_url = claim_url_in(logs);
    let address = address_in(logs);
    TunnelStatusModel {
        running: true,
        claim_url,
        address,
        message: if claim_url.len() > 0 {
            claim_message()
        } else if address.len() > 0 {
            live_message()
        } else {
            starting_message()
        },
    }
}

/// Which kind of word a search looks for.
#[derive(Clone, Copy, PartialEq, Eq, Debug)]
pub enum Wanted {
    Claim,
    Address,
}

pub open spec fn wanted(k: Wanted, w: Seq<char>) -> bool {
    match k {
        Wanted::Claim => is_claim_word(w),
        Wanted::Address => is_address_word(w),
    }
}

/// The first word of the logs of the kind wanted, trimmed, as a string;
/// empty when there is none.
fn find_word(
    logs: &str,
    v: &Vec<char>,
    spans: &Vec<(usize, usize)>,
    k: Wanted,
    e: text::Edge,
) -> (r: String)
    requires
        v@ == logs@,
        text::spans_pick(v@, spans@, text::words(v@)),
    ensures
        r@ == match first_word(text::words(logs@), |w: Seq<char>| wanted(k, w)) {
            Some(w) => text::trim_by(w, e),
            None => seq![],
        },
{
    let ghost ws = text::words(v@);
    let ghost p = |w: Seq<char>| wanted(k, w);
    let p1 = text::chars_of("playit.gg/claim");
    let p2 = text::chars_of(".ply.gg");
    let p3 = text::chars_of(".playit.gg:");
    let mut i: usize = 0;
    assert(ws.skip(0) =~= ws);
    while i < spans.len()
        invariant
            i <= spans@.len(),
            v@ == logs@,
            ws == text::words(v@),
            text::spans_pick(v@, spans@, ws),
            p == (|w: Seq<char>| wanted(k, w)),
            p1@ == "playit.gg/claim"@,
            p2@ == ".ply.gg"@,
            p3@ == ".playit.gg:"@,
            first_word(ws, p) == first_word(ws.skip(i as int), p),
        decreases spans@.len() - i,
    {
        let (lo, hi) = spans[i];
        assert(ws[i as int] == v@.subrange(lo as int, hi as int));
        let hit = match k {
            Wanted::Claim => text::span_contains(v, lo, hi, &p1),
            Wanted::Address => text::span_contains(v, lo, hi, &p2) || text::span_contains(
                v,
                lo,
                hi,
                &p3,
            ),
        };
        assert(ws.skip(i as int)[0] == ws[i as int]);
        if hit {
            let (a, b) = text::trim_span(v, lo, hi, e);
            return text::span_string(logs, v, a, b);
        }
        assert(ws.skip(i as int).drop_first() =~= ws.skip(i + 1));
        i = i + 1;
    }
    assert(ws.skip(i as int) =~= Seq::<Seq<char>>::empty());
    String::new()
}

/// Reads the claim link and the relay address out of the agent's logs.
pub fn status_of_logs(logs: &str) -> (r: TunnelStatus)
    ensures
        r.model() == status_from_logs(logs@),
{
    let v = text::chars_of(logs);
    let spans = text::word_spans(&v);
    let claim_url = find_word(logs, &v, &spans, Wanted::Claim, text::Edge::NonGraphic);
    let address = find_word(logs, &v, &spans, Wanted::Address, text::Edge::NonAddress);
    proof {
        assert((|w: Seq<char>| wanted(Wanted::Claim, w)) =~= (|w: Seq<char>| is_claim_word(w)));
        assert((|w: Seq<char>| wanted(Wanted::Address, w)) =~= (|w: Seq<char>| is_address_word(
            w,
        )));
    }
    let message = if claim_url.as_str().unicode_len() > 0 {
        text::owned("Tunnel needs a one-time setup \u{2014} open the link to claim it (free).")
    } else if address.as_str().unicode_len() > 0 {
        text::owned("Tunnel is live. Share the relay address with your friends.")
    } else {
        text::owned("Tunnel is starting\u{2026}")
    };
    TunnelStatus { running: true, claim_url, address, message }
}

pub open spec fn tunnel_logs_args() -> Seq<Seq<char>> {
    seq!["logs"@, "--tail"@, "200"@, TUNNEL_NAME@]
}

/// The text of a `docker logs`: standard output, a newline, standard error.
pub open spec fn log_text(o: CmdOutput) -> Seq<char> {
    o.stdout@ + "\n"@ + o.stderr@
}

/// A stopped agent is reported off; a running one by its last 200 log lines.
pub open spec fn status_plan(outs: Seq<CmdOutput>) -> Next<TunnelStatusModel> {
    if outs.len() == 0 {
        Next::Run(inspect_tunnel_args())
    } else if !says_true(outs[0]) {
        Next::Done(
            TunnelStatusModel {
                running: false,
                claim_url: seq![],
                address: seq![],
                message: off_message(),
            },
        )
    } else if outs.len() == 1 {
        Next::Run(tunnel_logs_args())
    } else {
        Next::Done(status_from_logs(log_text(outs[1])))
    }
}

/// The tunnel's state for the dashboard.
pub fn status(outs: &Vec<CmdOutput>) -> (r: Step<TunnelStatus>)
    ensures
        r.model() == status_plan(outs@),
{
    if outs.len() == 0 {
        return Step::Run(inspect_tunnel());
    }
    if !answered_true(&outs[0]) {
        return Step::Done(
            TunnelStatus {
                running: false,
                claim_url: String::new(),
                address: String::new(),
                message: text::owned("Tunnel is off."),
            },
        );
    }
    if outs.len() == 1 {
        let args = vec![
            text::owned("logs"),
            text::owned("--tail"),
            text::owned("200"),
            text::owned(TUNNEL_NAME),
        ];
        assert(args.deep_view() =~= tunnel_logs_args());
        return Step::Run(args);
    }
    let o = &outs[1];
    let mut logs = text::concat(o.stdout.as_str(), "\n");
    logs.append(o.stderr.as_str());
    Step::Done(status_of_logs(logs.as_str()))
}

/// The word `first_word` picks is one of the words, and `p` holds of it.
pub proof fn lemma_first_word(ws: Seq<Seq<char>>, p: spec_fn(Seq<char>) -> bool)
    ensures
        first_word(ws, p) matches Some(w) ==> p(w) && ws.contains(w),
        first_word(ws, p) is None ==> forall|i: int| 0 <= i < ws.len() ==> !p(#[trigger] ws[i]),
    decreases ws.len(),
{
    if ws.len() > 0 && !p(ws[0]) {
        let t = ws.drop_first();
        lemma_first_word(t, p);
        if let Some(w) = first_word(t, p) {
            let j = choose|j: int| 0 <= j < t.len() && t[j] == w;
            assert(ws[j + 1] == w);
        } else {
            assert forall|i: int| 0 <= i < ws.len() implies !p(#[trigger] ws[i]) by {
                if i > 0 {
                    assert(ws[i] == t[i - 1]);
                }
            }
        }
    } else if ws.len() > 0 {
        assert(ws[0] == ws[0]);
    }
}

/// Law: the dashboard only ever shows a claim link that holds
/// "playit.gg/claim" and a relay address that holds ".ply.gg" or
/// ".playit.gg:"; when the logs have such a word the link or address is
/// shown, and when they have none it stays empty. A pending claim takes the
/// message; a stopped agent shows neither.
pub proof fn lemma_status_shows_found_links(logs: Seq<char>, outs: Seq<CmdOutput>)
    ensures
        (exists|i: int| 0 <= i < text::words(logs).len() && is_claim_word(#[trigger] text::words(logs)[i]))
            ==> is_claim_word(claim_url_in(logs)),
        (forall|i: int| 0 <= i < text::words(logs).len() ==> !is_claim_word(#[trigger] text::words(logs)[i]))
            ==> claim_url_in(logs).len() == 0,
        (exists|i: int| 0 <= i < text::words(logs).len() && is_address_word(#[trigger] text::words(logs)[i]))
            ==> is_address_word(address_in(logs)),
        (forall|i: int| 0 <= i < text::words(logs).len() ==> !is_address_word(#[trigger] text::words(logs)[i]))
            ==> address_in(logs).len() == 0,
        claim_url_in(logs).len() > 0 ==> status_from_logs(logs).message == claim_message(),
        outs.len() >= 1 && !says_true(outs[0]) ==> status_plan(outs) == Next::Done(
            TunnelStatusModel {
                running: false,
                claim_url: seq![],
                address: seq![],
                message: off_message(),
            },
        ),
{
    let ws = text::words(logs);
    let pc = |w: Seq<char>| is_claim_word(w);
    let pa = |w: Seq<char>| is_address_word(w);
    lemma_first_word(ws, pc);
    lemma_first_word(ws, pa);
    reveal_strlit("playit.gg/claim");
    reveal_strlit(".ply.gg");
    reveal_strlit(".playit.gg:");
    if let Some(w) = first_word(ws, pc) {
        text::lemma_trim_keeps(w, "playit.gg/claim"@, text::Edge::NonGraphic);
    }
    if let Some(w) = first_word(ws, pa) {
        if text::contains(w, ".ply.gg"@) {
            text::lemma_trim_keeps(w, ".ply.gg"@, text::Edge::NonAddress);
        } else {
            text::lemma_trim_keeps(w, ".playit.gg:"@, text::Edge::NonAddress);
        }
    }
}

/// A claim word among `ws`.
pub open spec fn has_claim_word(ws: Seq<Seq<char>>) -> bool {
    exists|i: int| 0 <= i < ws.len() && is_claim_word(#[trigger] ws[i])
}

/// An address word among `ws`.
pub open spec fn has_address_word(ws: Seq<Seq<char>>) -> bool {
    exists|i: int| 0 <= i < ws.len() && is_address_word(#[trigger] ws[i])
}

proof fn lemma_has_word_joined(a: Seq<Seq<char>>, b: Seq<Seq<char>>)
    ensures
        has_claim_word(a + b) == (has_claim_word(a) || has_claim_word(b)),
        has_address_word(a + b) == (has_address_word(a) || has_address_word(b)),
{
    let ab = a + b;
    if has_claim_word(a) {
        let i = choose|i: int| 0 <= i < a.len() && is_claim_word(#[trigger] a[i]);
        assert(ab[i] == a[i]);
    }
    if has_claim_word(b) {
        let i = choose|i: int| 0 <= i < b.len() && is_claim_word(#[trigger] b[i]);
        assert(ab[a.len() + i] == b[i]);
    }
    if has_claim_word(ab) {
        let i = choose|i: int| 0 <= i < ab.len() && is_claim_word(#[trigger] ab[i]);
        if i < a.len() {
            assert(ab[i] == a[i]);
        } else {
            assert(ab[i] == b[i - a.len()]);
        }
    }
    if has_address_word(a) {
        let i = choose|i: int| 0 <= i < a.len() && is_address_word(#[trigger] a[i]);
        assert(ab[i] == a[i]);
    }
    if has_address_word(b) {
        let i = choose|i: int| 0 <= i < b.len() && is_address_word(#[trigger] b[i]);
        assert(ab[a.len() + i] == b[i]);
    }
    if has_address_word(ab) {
        let i = choose|i: int| 0 <= i < ab.len() && is_address_word(#[trigger] ab[i]);
        if i < a.len() {
            assert(ab[i] == a[i]);
        } else {
            assert(ab[i] == b[i - a.len()]);
        }
    }
}

/// Law: for a running agent, the status is read from both of its log
/// streams. A claim link or relay address that appears on standard output
/// or on standard error is reported (a claim link also takes the message);
/// when neither stream has one, none is reported.
pub proof fn lemma_status_reads_both_streams(outs: Seq<CmdOutput>)
    requires
        outs.len() >= 2,
        outs[0].success && outs[0].stdout@ == "true"@,
    ensures
        ({
            let out = text::words(outs[1].stdout@);
            let err = text::words(outs[1].stderr@);
            &&& status_plan(outs) is Done
            &&& status_plan(outs)->Done_0.running
            &&& has_claim_word(out) || has_claim_word(err) ==> is_claim_word(
                status_plan(outs)->Done_0.claim_url,
            ) && status_plan(outs)->Done_0.message == claim_message()
            &&& !has_claim_word(out) && !has_claim_word(err) ==> status_plan(
                outs,
            )->Done_0.claim_url.len() == 0
            &&& has_address_word(out) || has_address_word(err) ==> is_address_word(
                status_plan(outs)->Done_0.address,
            )
            &&& !has_address_word(out) && !has_address_word(err) ==> status_plan(
                outs,
            )->Done_0.address.len() == 0
        }),
{
    let o = outs[1];
    reveal_strlit("\n");
    reveal_strlit("playit.gg/claim");
    let logs = o.stdout@ + seq!['\n'] + o.stderr@;
    assert(log_text(o) =~= logs);
    text::lemma_words_joined(o.stdout@, o.stderr@);
    lemma_has_word_joined(text::words(o.stdout@), text::words(o.stderr@));
    lemma_status_shows_found_links(logs, outs);
    let c = claim_url_in(logs);
    if is_claim_word(c) {
        let i = choose|i: int| text::occurs_at(c, "playit.gg/claim"@, i);
        assert(c.len() > 0);
    }
}

/// Law: stopping the tunnel removes the agent's container with
/// `docker rm -f palbox-tunnel`, and finishes with Ok exactly when that
/// succeeds, else with its standard error.
pub proof fn lemma_stop_reports_removal(outs: Seq<CmdOutput>)
    ensures
        outs.len() == 0 ==> stop_plan(outs) == Next::<Result<(), Seq<char>>>::Run(
            seq!["rm"@, "-f"@, "palbox-tunnel"@],
        ),
        outs.len() >= 1 && outs[0].success ==> stop_plan(outs) == Next::<Result<(), Seq<char>>>::Done(
            Ok(()),
        ),
        outs.len() >= 1 && !outs[0].success ==> stop_plan(outs) == Next::<
            Result<(), Seq<char>>,
        >::Done(Err(outs[0].stderr@)),
{
}

/// Law: the agent runs exactly when inspecting its container succeeds and
/// answers "true".
pub proof fn lemma_running_answer(outs: Seq<CmdOutput>)
    ensures
        outs.len() == 0 ==> running_plan(outs) == Next::<bool>::Run(
            seq!["inspect"@, "-f"@, "{{.State.Running}}"@, "palbox-tunnel"@],
        ),
        outs.len() >= 1 ==> running_plan(outs) == Next::<bool>::Done(
            outs[0].success && outs[0].stdout@ == "true"@,
        ),
{
}

/// Law: once the game server runs and the old agent is removed, starting
/// finishes with the outcome of the agent's `docker run`: Ok exactly when it
/// succeeds, else its standard error. The removal's own outcome does not
/// matter.
pub proof fn lemma_start_reports_run(data_dir: Seq<char>, secret: Seq<char>, outs: Seq<CmdOutput>)
    requires
        outs.len() >= 3,
        outs[0].success && outs[0].stdout@ == "true"@,
    ensures
        outs[2].success ==> start_plan(data_dir, secret, outs) == Next::<
            Result<(), Seq<char>>,
        >::Done(Ok(())),
        !outs[2].success ==> start_plan(data_dir, secret, outs) == Next::<
            Result<(), Seq<char>>,
        >::Done(Err(outs[2].stderr@)),
{
}

} // verus!
