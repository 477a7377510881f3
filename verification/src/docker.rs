//! The `docker` commands that manage the game server container, and what
//! their outputs mean.
//!
//! Running a command is left to the caller. Each operation is a function of
//! the outputs of the commands it has run so far: it answers either with the
//! next command to run ([`Step::Run`]) or with its result ([`Step::Done`]).
//! A caller starts with no outputs, runs each command it is given, appends
//! its output, and asks again.

use vstd::prelude::*;
use vstd::string::*;

use crate::config::{CONTAINER_NAME, IMAGE};
use crate::text;

verus! {

/// What one `docker` invocation gave back: whether it exited with success,
/// and its standard output and standard error, each trimmed.
#[derive(Clone, Debug)]
pub struct CmdOutput {
    pub success: bool,
    pub stdout: String,
    pub stderr: String,
}

/// The output of a command as the operations read it: each stream decoded
/// as UTF-8 (invalid sequences replaced) and trimmed of white space.
pub fn cmd_output(success: bool, stdout: &[u8], stderr: &[u8]) -> (o: CmdOutput)
    ensures
        o.success == success,
        o.stdout@ == text::trim(text::utf8_lossy(stdout@)),
        o.stderr@ == text::trim(text::utf8_lossy(stderr@)),
{
    let out = text::from_utf8_lossy(stdout);
    let err = text::from_utf8_lossy(stderr);
    CmdOutput { success, stdout: text::trimmed(out.as_str()), stderr: text::trimmed(err.as_str()) }
}

/// The answer of an operation: run these arguments of `docker` next, or the
/// operation is over with this result.
#[derive(Debug)]
pub enum Step<T> {
    Run(Vec<String>),
    Done(T),
}

/// The mathematical value of a result.
pub trait Model {
    type M;

    spec fn model(&self) -> Self::M;
}

impl Model for bool {
    type M = bool;

    open spec fn model(&self) -> bool {
        *self
    }
}

impl Model for String {
    type M = Seq<char>;

    open spec fn model(&self) -> Seq<char> {
        self@
    }
}

impl Model for Option<String> {
    type M = Option<Seq<char>>;

    open spec fn model(&self) -> Option<Seq<char>> {
        match self {
            Some(s) => Some(s@),
            None => None,
        }
    }
}

impl Model for Result<(), String> {
    type M = Result<(), Seq<char>>;

    open spec fn model(&self) -> Result<(), Seq<char>> {
        match self {
            Ok(()) => Ok(()),
            Err(e) => Err(e@),
        }
    }
}

/// The value of a [`Step`].
#[verifier::ext_equal]
pub enum Next<V> {
    Run(Seq<Seq<char>>),
    Done(V),
}

impl<T: Model> Model for Step<T> {
    type M = Next<T::M>;

    open spec fn model(&self) -> Next<T::M> {
        match self {
            Step::Run(args) => Next::Run(args.deep_view()),
            Step::Done(v) => Next::Done(v.model()),
        }
    }
}

/// What a command that succeeds or fails means to the operations that only
/// report it: success, or its standard error.
pub open spec fn outcome(o: CmdOutput) -> Result<(), Seq<char>> {
    if o.success {
        Ok(())
    } else {
        Err(o.stderr@)
    }
}

pub fn outcome_of(o: &CmdOutput) -> (r: Result<(), String>)
    ensures
        r.model() == outcome(*o),
{
    if o.success {
        Ok(())
    } else {
        Err(o.stderr.clone())
    }
}

// ---------------------------------------------------------------------------
// Is docker there?
// ---------------------------------------------------------------------------

/// Whether docker is installed and its daemon running, with a message for
/// the user.
#[derive(Clone, Debug)]
pub struct DockerStatus {
    pub installed: bool,
    pub running: bool,
    pub version: String,
    pub message: String,
}

#[verifier::ext_equal]
pub struct DockerStatusModel {
    pub installed: bool,
    pub running: bool,
    pub version: Seq<char>,
    pub message: Seq<char>,
}

impl Model for DockerStatus {
    type M = DockerStatusModel;

    open spec fn model(&self) -> DockerStatusModel {
        DockerStatusModel {
            installed: self.installed,
            running: self.running,
            version: self.version@,
            message: self.message@,
        }
    }
}

/// What `String::to_lowercase` makes of a string.
pub uninterp spec fn lowercase(s: Seq<char>) -> Seq<char>;

/// Every character is ASCII.
pub open spec fn is_ascii_text(s: Seq<char>) -> bool {
    forall|i: int| 0 <= i < s.len() ==> (#[trigger] s[i] as u32) < 128
}

/// 'A'..='Z' become 'a'..='z'; every other character stays.
pub open spec fn ascii_lower_char(c: char) -> char {
    if 0x41 <= (c as u32) <= 0x5a {
        ((c as u32) + 32) as char
    } else {
        c
    }
}

pub open spec fn ascii_lowercase(s: Seq<char>) -> Seq<char> {
    s.map_values(|c: char| ascii_lower_char(c))
}

/// `str::to_lowercase`. The contract names its result, and states that on
/// ASCII text it lowers 'A'..='Z' and keeps every other character (ASCII
/// letters map to their ASCII lowercase under Unicode's mapping, and no
/// other ASCII character changes). The mapping of the rest of Unicode is
/// left unsaid.
#[verifier::external_body]
fn to_lowercase(s: &str) -> (r: String)
    ensures
        r@ == lowercase(s@),
        is_ascii_text(s@) ==> r@ == ascii_lowercase(s@),
{
    s.to_lowercase()
}

pub open spec fn not_running_hint() -> Seq<char> {
    "Docker is installed but not running. Start Docker Desktop and wait for the whale icon."@
}

pub open spec fn no_answer_hint() -> Seq<char> {
    "Docker is installed but the daemon did not respond."@
}

/// The message for a daemon that did not answer, from its error `err` and
/// the lowercase form `lower` of that error: errors that speak of the pipe,
/// of a failed connection or of the daemon mean it is not started; any other
/// error is shown as it is.
pub open spec fn hint(err: Seq<char>, lower: Seq<char>) -> Seq<char> {
    if text::contains(lower, "pipe"@) || text::contains(lower, "cannot connect"@)
        || text::contains(lower, "daemon"@) {
        not_running_hint()
    } else if err.len() > 0 {
        err
    } else {
        no_answer_hint()
    }
}

/// The message for a daemon that did not answer with error `err`, where
/// `lower` is `err` in lowercase.
pub fn daemon_hint(err: &str, lower: &str) -> (r: String)
    ensures
        r@ == hint(err@, lower@),
{
    let v = text::chars_of(lower);
    let n = v.len();
    let pipe = text::chars_of("pipe");
    let connect = text::chars_of("cannot connect");
    let daemon = text::chars_of("daemon");
    assert(v@.subrange(0, n as int) =~= v@);
    if text::span_contains(&v, 0, n, &pipe) || text::span_contains(&v, 0, n, &connect)
        || text::span_contains(&v, 0, n, &daemon) {
        text::owned(
            "Docker is installed but not running. Start Docker Desktop and wait for the whale icon.",
        )
    } else if err.unicode_len() > 0 {
        text::owned(err)
    } else {
        text::owned("Docker is installed but the daemon did not respond.")
    }
}

pub open spec fn version_args() -> Seq<Seq<char>> {
    seq!["--version"@]
}

pub open spec fn daemon_args() -> Seq<Seq<char>> {
    seq!["version"@, "--format"@, "{{.Server.Version}}"@]
}

/// `docker --version` works even when the daemon is down; then asking the
/// daemon for its version confirms that it runs.
pub open spec fn check_plan(outs: Seq<CmdOutput>) -> Next<DockerStatusModel> {
    if outs.len() == 0 {
        Next::Run(version_args())
    } else if !outs[0].success {
        Next::Done(
            DockerStatusModel {
                installed: false,
                running: false,
                version: seq![],
                message: "Docker is not installed. Install Docker Desktop and try again."@,
            },
        )
    } else if outs.len() == 1 {
        Next::Run(daemon_args())
    } else if outs[1].success && outs[1].stdout@.len() > 0 {
        Next::Done(
            DockerStatusModel {
                installed: true,
                running: true,
                version: outs[1].stdout@,
                message: "Docker is ready."@,
            },
        )
    } else {
        Next::Done(
            DockerStatusModel {
                installed: true,
                running: false,
                version: outs[0].stdout@,
                message: hint(outs[1].stderr@, lowercase(outs[1].stderr@)),
            },
        )
    }
}

/// Checks that docker is installed and that its daemon runs.
pub fn check(outs: &Vec<CmdOutput>) -> (r: Step<DockerStatus>)
    ensures
        r.model() == check_plan(outs@),
        outs@.len() >= 2 && outs@[0].success && !(outs@[1].success && outs@[1].stdout@.len() > 0)
            && is_ascii_text(outs@[1].stderr@) ==> r is Done && r->Done_0.message@ == hint(
            outs@[1].stderr@,
            ascii_lowercase(outs@[1].stderr@),
        ),
{
    if outs.len() == 0 {
        return Step::Run(vec![text::owned("--version")]);
    }
    let cli = &outs[0];
    if !cli.success {
        return Step::Done(
            DockerStatus {
                installed: false,
                running: false,
                version: String::new(),
                message: text::owned(
                    "Docker is not installed. Install Docker Desktop and try again.",
                ),
            },
        );
    }
    if outs.len() == 1 {
        return Step::Run(vec![text::owned("version"), text::owned("--format"), text::owned("{{.Server.Version}}")]);
    }
    let daemon = &outs[1];
    if daemon.success && daemon.stdout.as_str().unicode_len() > 0 {
        Step::Done(
            DockerStatus {
                installed: true,
                running: true,
                version: daemon.stdout.clone(),
                message: text::owned("Docker is ready."),
            },
        )
    } else {
        let lower = to_lowercase(daemon.stderr.as_str());
        let message = daemon_hint(daemon.stderr.as_str(), lower.as_str());
        Step::Done(
            DockerStatus { installed: true, running: false, version: cli.stdout.clone(), message },
        )
    }
}

/// Lowering an ASCII text keeps every occurrence of a lowercase word.
pub proof fn lemma_ascii_lowercase_keeps(err: Seq<char>, word: Seq<char>)
    requires
        text::contains(err, word),
        forall|k: int| 0 <= k < word.len() ==> !(0x41 <= (#[trigger] word[k] as u32) <= 0x5a),
    ensures
        text::contains(ascii_lowercase(err), word),
{
    let i = choose|i: int| text::occurs_at(err, word, i);
    let l = ascii_lowercase(err);
    assert(l.subrange(i, i + word.len()) =~= word) by {
        assert forall|k: int| 0 <= k < word.len() implies l.subrange(i, i + word.len())[k]
            == word[k] by {
            assert(err[i + k] == err.subrange(i, i + word.len())[k]);
        }
    }
    assert(text::occurs_at(l, word, i));
}

/// Law: an ASCII error from the daemon that mentions the pipe, a failed
/// connection or the daemon gets the not-running hint, whatever the letter
/// case of that mention.
pub proof fn lemma_ascii_daemon_hint(err: Seq<char>, word: Seq<char>)
    requires
        is_ascii_text(err),
        word == "pipe"@ || word == "cannot connect"@ || word == "daemon"@,
        text::contains(err, word) || text::contains(ascii_lowercase(err), word),
    ensures
        hint(err, ascii_lowercase(err)) == not_running_hint(),
{
    reveal_strlit("pipe");
    reveal_strlit("cannot connect");
    reveal_strlit("daemon");
    if text::contains(err, word) {
        lemma_ascii_lowercase_keeps(err, word);
    }
}

/// Law: a finished check never reports a running daemon that is not
/// installed, and a running daemon always comes with a version.
pub proof fn lemma_check_consistent(outs: Seq<CmdOutput>)
    ensures
        check_plan(outs) is Done ==> {
            let s = check_plan(outs)->Done_0;
            &&& s.running ==> s.installed
            &&& s.running ==> s.version.len() > 0
            &&& !s.installed ==> !s.running && s.version.len() == 0
        },
        outs.len() >= 2 ==> check_plan(outs) is Done,
{
}

// ---------------------------------------------------------------------------
// Image and container queries
// ---------------------------------------------------------------------------

pub open spec fn image_present_args() -> Seq<Seq<char>> {
    seq!["images"@, "-q"@, IMAGE@]
}

/// The image is present when `docker images -q` lists an id for it.
pub open spec fn image_present_plan(outs: Seq<CmdOutput>) -> Next<bool> {
    if outs.len() == 0 {
        Next::Run(image_present_args())
    } else {
        Next::Done(outs[0].success && outs[0].stdout@.len() > 0)
    }
}

pub fn image_present(outs: &Vec<CmdOutput>) -> (r: Step<bool>)
    ensures
        r.model() == image_present_plan(outs@),
{
    if outs.len() == 0 {
        Step::Run(vec![text::owned("images"), text::owned("-q"), text::owned(IMAGE)])
    } else {
        Step::Done(outs[0].success && outs[0].stdout.as_str().unicode_len() > 0)
    }
}

pub open spec fn pull_image_args() -> Seq<Seq<char>> {
    seq!["pull"@, IMAGE@]
}

pub open spec fn pull_image_plan(outs: Seq<CmdOutput>) -> Next<Result<(), Seq<char>>> {
    if outs.len() == 0 {
        Next::Run(pull_image_args())
    } else {
        Next::Done(outcome(outs[0]))
    }
}

/// Downloads the game server image.
pub fn pull_image(outs: &Vec<CmdOutput>) -> (r: Step<Result<(), String>>)
    ensures
        r.model() == pull_image_plan(outs@),
{
    if outs.len() == 0 {
        Step::Run(vec![text::owned("pull"), text::owned(IMAGE)])
    } else {
        Step::Done(outcome_of(&outs[0]))
    }
}

/// The filter that matches the container's name exactly.
pub open spec fn name_filter() -> Seq<char> {
    "name=^"@ + CONTAINER_NAME@ + "$"@
}

pub open spec fn container_exists_args() -> Seq<Seq<char>> {
    seq!["ps"@, "-a"@, "--filter"@, name_filter(), "--format"@, "{{.Names}}"@]
}

/// The container exists when one line of the listing is its name.
pub open spec fn listed(o: CmdOutput) -> bool {
    o.success && text::lines(o.stdout@).contains(CONTAINER_NAME@)
}

pub open spec fn container_exists_plan(outs: Seq<CmdOutput>) -> Next<bool> {
    if outs.len() == 0 {
        Next::Run(container_exists_args())
    } else {
        Next::Done(listed(outs[0]))
    }
}

fn name_listed(o: &CmdOutput) -> (b: bool)
    ensures
        b == listed(*o),
{
    if !o.success {
        return false;
    }
    let v = text::chars_of(o.stdout.as_str());
    let name = text::chars_of(CONTAINER_NAME);
    let spans = text::line_spans(&v);
    let ghost ls = text::lines(v@);
    let mut k: usize = 0;
    while k < spans.len()
        invariant
            k <= spans@.len(),
            o.success,
            v@ == o.stdout@,
            name@ == CONTAINER_NAME@,
            text::spans_pick(v@, spans@, ls),
            ls == text::lines(o.stdout@),
            forall|j: int| 0 <= j < k ==> ls[j] != name@,
        decreases spans@.len() - k,
    {
        let (lo, hi) = spans[k];
        assert(ls[k as int] == v@.subrange(lo as int, hi as int));
        if hi - lo == name.len() && text::matches_at(&v, lo, &name) {
            assert(v@.subrange(lo as int, lo + name@.len()) == name@);
            assert(v@.subrange(lo as int, hi as int) == name@);
            assert(ls[k as int] == name@);
            assert(ls.contains(name@));
            return true;
        }
        k = k + 1;
    }
    assert(!ls.contains(name@)) by {
        if ls.contains(name@) {
            let j = choose|j: int| 0 <= j < ls.len() && ls[j] == name@;
            assert(ls[j] != name@);
        }
    }
    false
}

fn exists_query() -> (r: Vec<String>)
    ensures
        r.deep_view() == container_exists_args(),
{
    let mut filter = text::concat("name=^", CONTAINER_NAME);
    filter.append("$");
    let mut args = vec![text::owned("ps"), text::owned("-a"), text::owned("--filter")];
    args.push(filter);
    args.push(text::owned("--format"));
    args.push(text::owned("{{.Names}}"));
    assert(args.deep_view() =~= container_exists_args());
    args
}

pub fn container_exists(outs: &Vec<CmdOutput>) -> (r: Step<bool>)
    ensures
        r.model() == container_exists_plan(outs@),
{
    if outs.len() == 0 {
        Step::Run(exists_query())
    } else {
        Step::Done(name_listed(&outs[0]))
    }
}

pub open spec fn container_running_args() -> Seq<Seq<char>> {
    seq!["inspect"@, "-f"@, "{{.State.Running}}"@, CONTAINER_NAME@]
}

pub open spec fn says_true(o: CmdOutput) -> bool {
    o.success && o.stdout@ == "true"@
}

pub open spec fn container_running_plan(outs: Seq<CmdOutput>) -> Next<bool> {
    if outs.len() == 0 {
        Next::Run(container_running_args())
    } else {
        Next::Done(says_true(outs[0]))
    }
}

/// Whether an inspection answered "true".
pub fn answered_true(o: &CmdOutput) -> (b: bool)
    ensures
        b == says_true(*o),
{
    o.success && o.stdout == text::owned("true")
}

/// The question whether the game server container runs.
pub fn running_query() -> (r: Vec<String>)
    ensures
        r.deep_view() == container_running_args(),
{
    let r = vec![
        text::owned("inspect"),
        text::owned("-f"),
        text::owned("{{.State.Running}}"),
        text::owned(CONTAINER_NAME),
    ];
    assert(r.deep_view() =~= container_running_args());
    r
}

pub fn container_running(outs: &Vec<CmdOutput>) -> (r: Step<bool>)
    ensures
        r.model() == container_running_plan(outs@),
{
    if outs.len() == 0 {
        Step::Run(running_query())
    } else {
        Step::Done(answered_true(&outs[0]))
    }
}

// ---------------------------------------------------------------------------
// Creating the container
// ---------------------------------------------------------------------------

/// The game port, published for UDP on every interface: "P:P/udp".
pub open spec fn game_port_map(port: u16) -> Seq<char> {
    text::dec(port as nat) + ":"@ + text::dec(port as nat) + "/udp"@
}

/// The RCON port, published for TCP on the loopback interface only:
/// "127.0.0.1:R:R/tcp".
pub open spec fn rcon_port_map(rcon_port: u16) -> Seq<char> {
    "127.0.0.1:"@ + text::dec(rcon_port as nat) + ":"@ + text::dec(rcon_port as nat) + "/tcp"@
}

/// The arguments of the `docker run` that creates and starts the container.
pub open spec fn run_args(
    env_args: Seq<Seq<char>>,
    data_dir: Seq<char>,
    port: u16,
    rcon_port: u16,
) -> Seq<Seq<char>> {
    run_prefix(data_dir, port, rcon_port) + env_args + seq![IMAGE@]
}

/// The arguments of `docker run` before the settings.
pub open spec fn run_prefix(data_dir: Seq<char>, port: u16, rcon_port: u16) -> Seq<Seq<char>> {
    seq![
        "run"@,
        "-d"@,
        "--name"@,
        CONTAINER_NAME@,
        "--restart"@,
        "unless-stopped"@,
        "-p"@,
        game_port_map(port),
        "-p"@,
        rcon_port_map(rcon_port),
        "-v"@,
        data_dir + ":/palworld"@,
    ]
}

pub open spec fn remove_args() -> Seq<Seq<char>> {
    seq!["rm"@, "-f"@, CONTAINER_NAME@]
}

/// (Re)create: ask whether the container exists, remove it if it does, then
/// run a new one; the result is that of the run.
pub open spec fn create_and_run_plan(
    env_args: Seq<Seq<char>>,
    data_dir: Seq<char>,
    port: u16,
    rcon_port: u16,
    outs: Seq<CmdOutput>,
) -> Next<Result<(), Seq<char>>> {
    if outs.len() == 0 {
        Next::Run(container_exists_args())
    } else if listed(outs[0]) {
        if outs.len() == 1 {
            Next::Run(remove_args())
        } else if outs.len() == 2 {
            Next::Run(run_args(env_args, data_dir, port, rcon_port))
        } else {
            Next::Done(outcome(outs[2]))
        }
    } else {
        if outs.len() == 1 {
            Next::Run(run_args(env_args, data_dir, port, rcon_port))
        } else {
            Next::Done(outcome(outs[1]))
        }
    }
}

fn port_map(port: u16, prefix: &str, suffix: &str) -> (r: String)
    ensures
        r@ == prefix@ + text::dec(port as nat) + ":"@ + text::dec(port as nat) + suffix@,
{
    let mut r = text::owned(prefix);
    text::push_dec(&mut r, port as u128);
    r.append(":");
    text::push_dec(&mut r, port as u128);
    r.append(suffix);
    r
}

/// The arguments of the `docker run` that creates the container; `data_dir`
/// is mounted as the server's data directory.
pub fn create_args(env_args: &Vec<String>, data_dir: &str, port: u16, rcon_port: u16) -> (r: Vec<
    String,
>)
    ensures
        r.deep_view() == run_args(env_args.deep_view(), data_dir@, port, rcon_port),
{
    let mut args = vec![text::owned("run"), text::owned("-d"), text::owned("--name"), text::owned(CONTAINER_NAME), text::owned("--restart"), text::owned("unless-stopped"), text::owned("-p")];
    args.push(port_map(port, "", "/udp"));
    args.push(text::owned("-p"));
    // RCON is bound to localhost only: it must never be reachable from outside.
    args.push(port_map(rcon_port, "127.0.0.1:", "/tcp"));
    args.push(text::owned("-v"));
    args.push(text::concat(data_dir, ":/palworld"));
    proof {
        reveal_strlit("");
        assert(""@ + text::dec(port as nat) =~= text::dec(port as nat));
        let a = args.deep_view();
        assert(a[7] =~= game_port_map(port));
        assert(a[9] =~= rcon_port_map(rcon_port));
        assert(a =~= run_prefix(data_dir@, port, rcon_port));
    }
    let ghost head = args.deep_view();
    let mut i: usize = 0;
    while i < env_args.len()
        invariant
            i <= env_args@.len(),
            head == run_prefix(data_dir@, port, rcon_port),
            args.deep_view() == head + env_args.deep_view().take(i as int),
        decreases env_args@.len() - i,
    {
        args.push(env_args[i].clone());
        assert(head + env_args.deep_view().take(i + 1) =~= (head + env_args.deep_view().take(
            i as int,
        )).push(env_args.deep_view()[i as int]));
        i = i + 1;
    }
    assert(env_args.deep_view().take(env_args@.len() as int) =~= env_args.deep_view());
    args.push(text::owned(IMAGE));
    assert(args.deep_view() =~= run_args(env_args.deep_view(), data_dir@, port, rcon_port));
    args
}

/// (Re)creates and starts the game server container.
pub fn create_and_run(
    env_args: &Vec<String>,
    data_dir: &str,
    port: u16,
    rcon_port: u16,
    outs: &Vec<CmdOutput>,
) -> (r: Step<Result<(), String>>)
    ensures
        r.model() == create_and_run_plan(env_args.deep_view(), data_dir@, port, rcon_port, outs@),
{
    if outs.len() == 0 {
        return Step::Run(exists_query());
    }
    if name_listed(&outs[0]) {
        if outs.len() == 1 {
            Step::Run(vec![text::owned("rm"), text::owned("-f"), text::owned(CONTAINER_NAME)])
        } else if outs.len() == 2 {
            Step::Run(create_args(env_args, data_dir, port, rcon_port))
        } else {
            Step::Done(outcome_of(&outs[2]))
        }
    } else {
        if outs.len() == 1 {
            Step::Run(create_args(env_args, data_dir, port, rcon_port))
        } else {
            Step::Done(outcome_of(&outs[1]))
        }
    }
}

/// Law: the container publishes exactly two ports: the game port over UDP,
/// and RCON over TCP on the loopback interface only. The data directory is
/// mounted, the settings follow in order, and the image comes last.
pub proof fn lemma_rcon_stays_local(
    env_args: Seq<Seq<char>>,
    data_dir: Seq<char>,
    port: u16,
    rcon_port: u16,
)
    ensures
        ({
            let a = run_args(env_args, data_dir, port, rcon_port);
            &&& a.len() == 13 + env_args.len()
            &&& a[6] == "-p"@ && a[7] == game_port_map(port)
            &&& a[8] == "-p"@ && a[9] == rcon_port_map(rcon_port)
            &&& text::starts_with(a[9], "127.0.0.1:"@)
            &&& a[11] == data_dir + ":/palworld"@
            &&& a.subrange(12, (12 + env_args.len()) as int) == env_args
            &&& a.last() == IMAGE@
        }),
{
    let a = run_args(env_args, data_dir, port, rcon_port);
    assert(a.subrange(12, (12 + env_args.len()) as int) =~= env_args);
    reveal_strlit("127.0.0.1:");
    let m = rcon_port_map(rcon_port);
    assert(m.subrange(0, 10) =~= "127.0.0.1:"@);
}

/// Law: a container that exists is removed before the new one is run, and
/// the new one is always run; recreating takes at most three commands.
pub proof fn lemma_recreate_order(
    env_args: Seq<Seq<char>>,
    data_dir: Seq<char>,
    port: u16,
    rcon_port: u16,
    outs: Seq<CmdOutput>,
)
    requires
        outs.len() >= 1,
    ensures
        listed(outs[0]) ==> create_and_run_plan(env_args, data_dir, port, rcon_port, outs.take(1))
            == Next::<Result<(), Seq<char>>>::Run(remove_args()),
        listed(outs[0]) && outs.len() >= 2 ==> create_and_run_plan(
            env_args,
            data_dir,
            port,
            rcon_port,
            outs.take(2),
        ) == Next::<Result<(), Seq<char>>>::Run(run_args(env_args, data_dir, port, rcon_port)),
        !listed(outs[0]) ==> create_and_run_plan(env_args, data_dir, port, rcon_port, outs.take(1))
            == Next::<Result<(), Seq<char>>>::Run(run_args(env_args, data_dir, port, rcon_port)),
        outs.len() >= 3 ==> create_and_run_plan(env_args, data_dir, port, rcon_port, outs) is Done,
{
}

// ---------------------------------------------------------------------------
// Lifecycle
// ---------------------------------------------------------------------------

pub open spec fn lifecycle_plan(args: Seq<Seq<char>>, outs: Seq<CmdOutput>) -> Next<
    Result<(), Seq<char>>,
> {
    if outs.len() == 0 {
        Next::Run(args)
    } else {
        Next::Done(outcome(outs[0]))
    }
}

pub open spec fn start_args() -> Seq<Seq<char>> {
    seq!["start"@, CONTAINER_NAME@]
}

pub open spec fn stop_args() -> Seq<Seq<char>> {
    seq!["stop"@, CONTAINER_NAME@]
}

pub open spec fn restart_args() -> Seq<Seq<char>> {
    seq!["restart"@, CONTAINER_NAME@]
}

pub fn start(outs: &Vec<CmdOutput>) -> (r: Step<Result<(), String>>)
    ensures
        r.model() == lifecycle_plan(start_args(), outs@),
{
    if outs.len() == 0 {
        Step::Run(vec![text::owned("start"), text::owned(CONTAINER_NAME)])
    } else {
        Step::Done(outcome_of(&outs[0]))
    }
}

pub fn stop(outs: &Vec<CmdOutput>) -> (r: Step<Result<(), String>>)
    ensures
        r.model() == lifecycle_plan(stop_args(), outs@),
{
    if outs.len() == 0 {
        Step::Run(vec![text::owned("stop"), text::owned(CONTAINER_NAME)])
    } else {
        Step::Done(outcome_of(&outs[0]))
    }
}

pub fn restart(outs: &Vec<CmdOutput>) -> (r: Step<Result<(), String>>)
    ensures
        r.model() == lifecycle_plan(restart_args(), outs@),
{
    if outs.len() == 0 {
        Step::Run(vec![text::owned("restart"), text::owned(CONTAINER_NAME)])
    } else {
        Step::Done(outcome_of(&outs[0]))
    }
}

/// Removes the container, stopping it first if it runs.
pub fn remove(outs: &Vec<CmdOutput>) -> (r: Step<Result<(), String>>)
    ensures
        r.model() == lifecycle_plan(remove_args(), outs@),
{
    if outs.len() == 0 {
        Step::Run(vec![text::owned("rm"), text::owned("-f"), text::owned(CONTAINER_NAME)])
    } else {
        Step::Done(outcome_of(&outs[0]))
    }
}

// ---------------------------------------------------------------------------
// Logs and memory
// ---------------------------------------------------------------------------

pub open spec fn logs_args(lines: u32) -> Seq<Seq<char>> {
    seq!["logs"@, "--tail"@, text::dec(lines as nat), CONTAINER_NAME@]
}

/// docker writes the container's output to both streams for `logs`; both
/// are kept, standard output first.
pub open spec fn merged(o: CmdOutput) -> Seq<char> {
    if o.stdout@.len() == 0 {
        o.stderr@
    } else if o.stderr@.len() == 0 {
        o.stdout@
    } else {
        o.stdout@ + "\n"@ + o.stderr@
    }
}

pub open spec fn logs_plan(lines: u32, outs: Seq<CmdOutput>) -> Next<Seq<char>> {
    if outs.len() == 0 {
        Next::Run(logs_args(lines))
    } else {
        Next::Done(merged(outs[0]))
    }
}

/// The last `lines` lines the container printed.
pub fn logs(lines: u32, outs: &Vec<CmdOutput>) -> (r: Step<String>)
    ensures
        r.model() == logs_plan(lines, outs@),
{
    if outs.len() == 0 {
        let mut args = vec![text::owned("logs"), text::owned("--tail")];
        args.push(text::dec_string(lines as u128));
        args.push(text::owned(CONTAINER_NAME));
        assert(args.deep_view() =~= logs_args(lines));
        return Step::Run(args);
    }
    let o = &outs[0];
    if o.stdout.as_str().unicode_len() == 0 {
        Step::Done(o.stderr.clone())
    } else if o.stderr.as_str().unicode_len() == 0 {
        Step::Done(o.stdout.clone())
    } else {
        let mut r = text::concat(o.stdout.as_str(), "\n");
        r.append(o.stderr.as_str());
        Step::Done(r)
    }
}

/// Law: when both streams have text, the logs hold both, standard output
/// first; nothing the container printed is dropped.
pub proof fn lemma_logs_keep_both(o: CmdOutput)
    ensures
        merged(o).len() >= o.stdout@.len() + o.stderr@.len(),
        o.stdout@.len() > 0 ==> text::starts_with(merged(o), o.stdout@),
        merged(o).subrange(merged(o).len() - o.stderr@.len(), merged(o).len() as int)
            == o.stderr@,
{
    let m = merged(o);
    if o.stdout@.len() > 0 {
        assert(m.subrange(0, o.stdout@.len() as int) =~= o.stdout@);
    }
    assert(m.subrange(m.len() - o.stderr@.len(), m.len() as int) =~= o.stderr@);
}

pub open spec fn mem_usage_args() -> Seq<Seq<char>> {
    seq!["stats"@, "--no-stream"@, "--format"@, "{{.MemUsage}}"@, CONTAINER_NAME@]
}

pub open spec fn mem_usage_plan(outs: Seq<CmdOutput>) -> Next<Option<Seq<char>>> {
    if outs.len() == 0 {
        Next::Run(mem_usage_args())
    } else if outs[0].success && outs[0].stdout@.len() > 0 {
        Next::Done(Some(outs[0].stdout@))
    } else {
        Next::Done(None)
    }
}

/// Container memory usage as reported by `docker stats`, e.g.
/// "3.2GiB / 15GiB".
pub fn mem_usage(outs: &Vec<CmdOutput>) -> (r: Step<Option<String>>)
    ensures
        r.model() == mem_usage_plan(outs@),
{
    if outs.len() == 0 {
        Step::Run(vec![text::owned("stats"), text::owned("--no-stream"), text::owned("--format"), text::owned("{{.MemUsage}}"), text::owned(CONTAINER_NAME)])
    } else if outs[0].success && outs[0].stdout.as_str().unicode_len() > 0 {
        Step::Done(Some(outs[0].stdout.clone()))
    } else {
        Step::Done(None)
    }
}

/// Law: recreating finishes with the outcome of the `docker run`, never of
/// the query or the removal: Ok exactly when the run succeeded, else the
/// run's standard error. The run is the second command when no container
/// named palbox-palworld was listed, the third when one was.
pub proof fn lemma_create_reports_run(
    env_args: Seq<Seq<char>>,
    data_dir: Seq<char>,
    port: u16,
    rcon_port: u16,
    outs: Seq<CmdOutput>,
)
    requires
        outs.len() >= 2,
    ensures
        ({
            let found = outs[0].success && text::lines(outs[0].stdout@).contains(
                "palbox-palworld"@,
            );
            let run = if found {
                2int
            } else {
                1int
            };
            outs.len() > run ==> create_and_run_plan(env_args, data_dir, port, rcon_port, outs)
                == Next::<Result<(), Seq<char>>>::Done(
                if outs[run].success {
                    Ok(())
                } else {
                    Err(outs[run].stderr@)
                },
            )
        }),
{
}

/// Law: each one-command operation reads its answer from that command's
/// output alone: pulling, starting, stopping, restarting and removing
/// finish with Ok exactly when the command succeeded, else its standard
/// error; the image is present when the listing succeeded with an id; the
/// container exists when a line of the listing is its name; it runs when
/// the inspection succeeded and answered "true"; the memory is the
/// non-empty output of a successful `docker stats`; the logs hold both
/// streams, standard output first, joined by a newline when both have text.
pub proof fn lemma_one_command_results(lines: u32, outs: Seq<CmdOutput>)
    requires
        outs.len() >= 1,
    ensures
        ({
            let o = outs[0];
            let res = if o.success {
                Ok(())
            } else {
                Err(o.stderr@)
            };
            &&& pull_image_plan(outs) == Next::<Result<(), Seq<char>>>::Done(res)
            &&& lifecycle_plan(start_args(), outs) == Next::<Result<(), Seq<char>>>::Done(res)
            &&& lifecycle_plan(stop_args(), outs) == Next::<Result<(), Seq<char>>>::Done(res)
            &&& lifecycle_plan(restart_args(), outs) == Next::<Result<(), Seq<char>>>::Done(res)
            &&& lifecycle_plan(remove_args(), outs) == Next::<Result<(), Seq<char>>>::Done(res)
            &&& image_present_plan(outs) == Next::<bool>::Done(o.success && o.stdout@.len() > 0)
            &&& container_exists_plan(outs) == Next::<bool>::Done(
                o.success && text::lines(o.stdout@).contains("palbox-palworld"@),
            )
            &&& container_running_plan(outs) == Next::<bool>::Done(
                o.success && o.stdout@ == "true"@,
            )
            &&& mem_usage_plan(outs) == Next::<Option<Seq<char>>>::Done(
                if o.success && o.stdout@.len() > 0 {
                    Some(o.stdout@)
                } else {
                    None
                },
            )
            &&& logs_plan(lines, outs) == Next::<Seq<char>>::Done(
                if o.stdout@.len() > 0 && o.stderr@.len() > 0 {
                    o.stdout@ + seq!['\n'] + o.stderr@
                } else {
                    o.stdout@ + o.stderr@
                },
            )
        }),
{
    reveal_strlit("\n");
    let o = outs[0];
    if o.stdout@.len() == 0 {
        assert(o.stdout@ + o.stderr@ =~= o.stderr@);
    } else if o.stderr@.len() == 0 {
        assert(o.stdout@ + o.stderr@ =~= o.stdout@);
    } else {
        assert(merged(o) =~= o.stdout@ + seq!['\n'] + o.stderr@);
    }
}

/// Law: the check reports docker missing exactly when `docker --version`
/// failed; once the daemon was asked, it reports it running exactly when
/// that answer succeeded with a version, which is then the version shown;
/// otherwise the client's version is shown.
pub proof fn lemma_check_results(outs: Seq<CmdOutput>)
    requires
        outs.len() >= 1,
    ensures
        !outs[0].success ==> check_plan(outs) is Done && !check_plan(outs)->Done_0.installed
            && !check_plan(outs)->Done_0.running && check_plan(outs)->Done_0.version.len() == 0,
        outs[0].success && outs.len() == 1 ==> check_plan(outs) is Run,
        outs[0].success && outs.len() >= 2 ==> {
            let d = outs[1];
            let s = check_plan(outs)->Done_0;
            &&& check_plan(outs) is Done
            &&& s.installed
            &&& s.running == (d.success && d.stdout@.len() > 0)
            &&& s.running ==> s.version == d.stdout@
            &&& !s.running ==> s.version == outs[0].stdout@ && s.message == hint(
                d.stderr@,
                lowercase(d.stderr@),
            )
        },
{
}

} // verus!
