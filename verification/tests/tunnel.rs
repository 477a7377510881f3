use palbox::docker::{CmdOutput, Step};
use palbox::tunnel::{running, start, status, status_of_logs, stop, TunnelStatus};

fn out(success: bool, stdout: &str, stderr: &str) -> CmdOutput {
    CmdOutput { success, stdout: stdout.to_string(), stderr: stderr.to_string() }
}

fn run_args<T: std::fmt::Debug>(s: Step<T>) -> Vec<String> {
    match s {
        Step::Run(a) => a,
        Step::Done(v) => panic!("expected a command, got {v:?}"),
    }
}

fn done<T>(s: Step<T>) -> T {
    match s {
        Step::Done(v) => v,
        Step::Run(a) => panic!("expected a result, got {a:?}"),
    }
}

#[test]
fn start_asks_whether_the_server_runs() {
    assert_eq!(
        run_args(start("/d", "key", &vec![])),
        vec!["inspect", "-f", "{{.State.Running}}", "palbox-palworld"]
    );
}

#[test]
fn start_refuses_while_the_server_is_stopped() {
    assert_eq!(
        done(start("/d", "key", &vec![out(true, "false", "")])),
        Err("Start your server first".to_string())
    );
    assert_eq!(
        done(start("/d", "key", &vec![out(false, "", "No such object: palbox-palworld")])),
        Err("Start your server first".to_string())
    );
}

#[test]
fn start_replaces_the_agent_with_the_key() {
    let up = out(true, "true", "");
    assert_eq!(run_args(start("/d", "key", &vec![up.clone()])), vec!["rm", "-f", "palbox-tunnel"]);
    assert_eq!(
        run_args(start("/d", "s3cr3t", &vec![up.clone(), out(false, "", "no such container")])),
        vec![
            "run",
            "-d",
            "--name",
            "palbox-tunnel",
            "--restart",
            "unless-stopped",
            "--add-host",
            "host.docker.internal:host-gateway",
            "-v",
            "/d/playit:/etc/playit",
            "-e",
            "SECRET_KEY=s3cr3t",
            "ghcr.io/playit-cloud/playit-agent:latest",
        ]
    );
    assert_eq!(
        done(start("/d", "k", &vec![up.clone(), out(true, "", ""), out(true, "id", "")])),
        Ok(())
    );
    assert_eq!(
        done(start("/d", "k", &vec![up, out(true, "", ""), out(false, "", "pull denied")])),
        Err("pull denied".to_string())
    );
}

#[test]
fn stop_and_running() {
    assert_eq!(run_args(stop(&vec![])), vec!["rm", "-f", "palbox-tunnel"]);
    assert_eq!(done(stop(&vec![out(true, "", "")])), Ok(()));
    assert_eq!(
        run_args(running(&vec![])),
        vec!["inspect", "-f", "{{.State.Running}}", "palbox-tunnel"]
    );
    assert!(done(running(&vec![out(true, "true", "")])));
    assert!(!done(running(&vec![out(true, "false", "")])));
}

#[test]
fn status_of_a_stopped_agent() {
    let s = done(status(&vec![out(true, "false", "")]));
    assert!(!s.running);
    assert_eq!(s.claim_url, "");
    assert_eq!(s.address, "");
    assert_eq!(s.message, "Tunnel is off.");
    let s = done(status(&vec![out(false, "", "No such object")]));
    assert_eq!(s.message, "Tunnel is off.");
}

#[test]
fn status_reads_the_logs() {
    assert_eq!(
        run_args(status(&vec![out(true, "true", "")])),
        vec!["logs", "--tail", "200", "palbox-tunnel"]
    );
    let s = done(status(&vec![
        out(true, "true", ""),
        out(true, "starting agent", "Visit https://playit.gg/claim/abc123\u{1b}[0m to claim"),
    ]));
    assert!(s.running);
    assert_eq!(s.claim_url, "https://playit.gg/claim/abc123\u{1b}[0m");
    assert_eq!(s.message, "Tunnel needs a one-time setup \u{2014} open the link to claim it (free).");
}

#[test]
fn claim_link_loses_non_printable_ends() {
    let s = status_of_logs("go to \u{1b}https://playit.gg/claim/xyz\u{a0}now");
    assert_eq!(s.claim_url, "https://playit.gg/claim/xyz");
}

#[test]
fn live_address() {
    let s = status_of_logs("tunnel ready: (fun-cat.gl.at.ply.gg:12345), enjoy");
    assert_eq!(s.claim_url, "");
    assert_eq!(s.address, "fun-cat.gl.at.ply.gg:12345");
    assert_eq!(s.message, "Tunnel is live. Share the relay address with your friends.");
    let s = status_of_logs("addr=\"x.playit.gg:4242\"");
    assert_eq!(s.address, "addr=\"x.playit.gg:4242");
}

#[test]
fn claim_takes_precedence() {
    let s = status_of_logs("a.ply.gg:1\nhttps://playit.gg/claim/q");
    assert_eq!(s.address, "a.ply.gg:1");
    assert_eq!(s.claim_url, "https://playit.gg/claim/q");
    assert_eq!(s.message, "Tunnel needs a one-time setup \u{2014} open the link to claim it (free).");
}

#[test]
fn first_matching_word_wins() {
    let s = status_of_logs("one.ply.gg two.ply.gg");
    assert_eq!(s.address, "one.ply.gg");
}

#[test]
fn nothing_yet() {
    let s = status_of_logs("\nconnecting...\n");
    assert_eq!(s.claim_url, "");
    assert_eq!(s.address, "");
    assert_eq!(s.message, "Tunnel is starting\u{2026}");
}

#[test]
fn default_status_is_empty() {
    let s = TunnelStatus::default();
    assert!(!s.running);
    assert_eq!(s.claim_url, "");
    assert_eq!(s.address, "");
    assert_eq!(s.message, "");
}
