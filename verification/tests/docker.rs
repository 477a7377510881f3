use palbox::docker::{
    cmd_output, check, container_exists, container_running, create_and_run, create_args, daemon_hint,
    image_present, logs, mem_usage, pull_image, remove, restart, start, stop, CmdOutput,
    DockerStatus, Step,
};

fn out(success: bool, stdout: &str, stderr: &str) -> CmdOutput {
    CmdOutput { success, stdout: stdout.to_string(), stderr: stderr.to_string() }
}

fn run_args<T: std::fmt::Debug>(s: Step<T>) -> Vec<String> {
    match s {
        Step::Run(a) => a,
        Step::Done(v) => panic!("expected a command, got {v:?}"),
    }
}

fn done<T>(s: Step<T>) -> T {
    match s {
        Step::Done(v) => v,
        Step::Run(a) => panic!("expected a result, got {a:?}"),
    }
}

#[test]
fn check_asks_for_the_client_first() {
    assert_eq!(run_args(check(&vec![])), vec!["--version"]);
}

#[test]
fn check_without_client() {
    let s: DockerStatus = done(check(&vec![out(false, "", "not found")]));
    assert!(!s.installed && !s.running);
    assert_eq!(s.version, "");
    assert_eq!(s.message, "Docker is not installed. Install Docker Desktop and try again.");
}

#[test]
fn check_asks_the_daemon_next() {
    let outs = vec![out(true, "Docker version 27.0.1", "")];
    assert_eq!(run_args(check(&outs)), vec!["version", "--format", "{{.Server.Version}}"]);
}

#[test]
fn check_ready() {
    let outs = vec![out(true, "Docker version 27.0.1", ""), out(true, "27.0.1", "")];
    let s = done(check(&outs));
    assert!(s.installed && s.running);
    assert_eq!(s.version, "27.0.1");
    assert_eq!(s.message, "Docker is ready.");
}

#[test]
fn check_daemon_down_hint_ignores_case() {
    let outs = vec![
        out(true, "Docker version 27.0.1", ""),
        out(false, "", "error during connect: Cannot Connect to the Docker DAEMON"),
    ];
    let s = done(check(&outs));
    assert!(s.installed && !s.running);
    assert_eq!(s.version, "Docker version 27.0.1");
    assert_eq!(
        s.message,
        "Docker is installed but not running. Start Docker Desktop and wait for the whale icon."
    );
}

#[test]
fn check_daemon_other_error_is_shown() {
    let outs = vec![out(true, "v", ""), out(false, "", "permission denied")];
    assert_eq!(done(check(&outs)).message, "permission denied");
}

#[test]
fn check_daemon_silent() {
    let outs = vec![out(true, "v", ""), out(true, "", "")];
    let s = done(check(&outs));
    assert!(!s.running);
    assert_eq!(s.message, "Docker is installed but the daemon did not respond.");
}

#[test]
fn hint_words() {
    let nr = "Docker is installed but not running. Start Docker Desktop and wait for the whale icon.";
    assert_eq!(daemon_hint("open //./pipe/docker_engine", "open //./pipe/docker_engine"), nr);
    assert_eq!(daemon_hint("X", "daemon"), nr);
    assert_eq!(daemon_hint("Boom", "boom"), "Boom");
    assert_eq!(daemon_hint("", ""), "Docker is installed but the daemon did not respond.");
}

#[test]
fn image_queries() {
    assert_eq!(
        run_args(image_present(&vec![])),
        vec!["images", "-q", "thijsvanloef/palworld-server-docker:latest"]
    );
    assert!(done(image_present(&vec![out(true, "abc123", "")])));
    assert!(!done(image_present(&vec![out(true, "", "")])));
    assert!(!done(image_present(&vec![out(false, "abc123", "")])));
}

#[test]
fn pull() {
    assert_eq!(
        run_args(pull_image(&vec![])),
        vec!["pull", "thijsvanloef/palworld-server-docker:latest"]
    );
    assert_eq!(done(pull_image(&vec![out(true, "", "")])), Ok(()));
    assert_eq!(done(pull_image(&vec![out(false, "", "denied")])), Err("denied".to_string()));
}

#[test]
fn exists_query_and_answer() {
    assert_eq!(
        run_args(container_exists(&vec![])),
        vec!["ps", "-a", "--filter", "name=^palbox-palworld$", "--format", "{{.Names}}"]
    );
    assert!(done(container_exists(&vec![out(true, "palbox-palworld", "")])));
    assert!(done(container_exists(&vec![out(true, "other\r\npalbox-palworld\r\nmore", "")])));
    assert!(!done(container_exists(&vec![out(true, "palbox-palworld2", "")])));
    assert!(!done(container_exists(&vec![out(true, "", "")])));
    assert!(!done(container_exists(&vec![out(false, "palbox-palworld", "")])));
}

#[test]
fn running_query_and_answer() {
    assert_eq!(
        run_args(container_running(&vec![])),
        vec!["inspect", "-f", "{{.State.Running}}", "palbox-palworld"]
    );
    assert!(done(container_running(&vec![out(true, "true", "")])));
    assert!(!done(container_running(&vec![out(true, "false", "")])));
    assert!(!done(container_running(&vec![out(false, "true", "")])));
}

fn env() -> Vec<String> {
    vec!["-e".to_string(), "PORT=8211".to_string()]
}

fn expected_run() -> Vec<String> {
    [
        "run",
        "-d",
        "--name",
        "palbox-palworld",
        "--restart",
        "unless-stopped",
        "-p",
        "8211:8211/udp",
        "-p",
        "127.0.0.1:25575:25575/tcp",
        "-v",
        "/data/server:/palworld",
        "-e",
        "PORT=8211",
        "thijsvanloef/palworld-server-docker:latest",
    ]
    .iter()
    .map(|s| s.to_string())
    .collect()
}

#[test]
fn run_arguments() {
    assert_eq!(create_args(&env(), "/data/server", 8211, 25575), expected_run());
}

#[test]
fn recreate_removes_the_old_container_first() {
    let e = env();
    let mut outs = vec![];
    let first = run_args(create_and_run(&e, "/data/server", 8211, 25575, &outs));
    assert_eq!(first[0], "ps");
    outs.push(out(true, "palbox-palworld", ""));
    assert_eq!(
        run_args(create_and_run(&e, "/data/server", 8211, 25575, &outs)),
        vec!["rm", "-f", "palbox-palworld"]
    );
    outs.push(out(true, "", ""));
    assert_eq!(run_args(create_and_run(&e, "/data/server", 8211, 25575, &outs)), expected_run());
    outs.push(out(false, "", "port in use"));
    assert_eq!(
        done(create_and_run(&e, "/data/server", 8211, 25575, &outs)),
        Err("port in use".to_string())
    );
}

#[test]
fn create_runs_directly_when_absent() {
    let e = env();
    let mut outs = vec![out(true, "", "")];
    assert_eq!(run_args(create_and_run(&e, "/data/server", 8211, 25575, &outs)), expected_run());
    outs.push(out(true, "id", ""));
    assert_eq!(done(create_and_run(&e, "/data/server", 8211, 25575, &outs)), Ok(()));
}

#[test]
fn lifecycle() {
    assert_eq!(run_args(start(&vec![])), vec!["start", "palbox-palworld"]);
    assert_eq!(run_args(stop(&vec![])), vec!["stop", "palbox-palworld"]);
    assert_eq!(run_args(restart(&vec![])), vec!["restart", "palbox-palworld"]);
    assert_eq!(run_args(remove(&vec![])), vec!["rm", "-f", "palbox-palworld"]);
    assert_eq!(done(start(&vec![out(true, "x", "")])), Ok(()));
    assert_eq!(done(stop(&vec![out(false, "", "no such")])), Err("no such".to_string()));
    assert_eq!(done(restart(&vec![out(true, "", "")])), Ok(()));
    assert_eq!(done(remove(&vec![out(false, "", "e")])), Err("e".to_string()));
}

#[test]
fn logs_query_and_merge() {
    assert_eq!(run_args(logs(150, &vec![])), vec!["logs", "--tail", "150", "palbox-palworld"]);
    assert_eq!(run_args(logs(0, &vec![])), vec!["logs", "--tail", "0", "palbox-palworld"]);
    assert_eq!(done(logs(1, &vec![out(true, "a", "b")])), "a\nb");
    assert_eq!(done(logs(1, &vec![out(true, "", "b")])), "b");
    assert_eq!(done(logs(1, &vec![out(false, "a", "")])), "a");
    assert_eq!(done(logs(1, &vec![out(true, "", "")])), "");
}

#[test]
fn memory() {
    assert_eq!(
        run_args(mem_usage(&vec![])),
        vec!["stats", "--no-stream", "--format", "{{.MemUsage}}", "palbox-palworld"]
    );
    assert_eq!(
        done(mem_usage(&vec![out(true, "3.2GiB / 15GiB", "")])),
        Some("3.2GiB / 15GiB".to_string())
    );
    assert_eq!(done(mem_usage(&vec![out(true, "", "")])), None);
    assert_eq!(done(mem_usage(&vec![out(false, "x", "")])), None);
}

#[test]
fn command_output_is_decoded_and_trimmed() {
    let o = cmd_output(true, b"  true\n", b"\t warn \xff\r\n");
    assert!(o.success);
    assert_eq!(o.stdout, "true");
    assert_eq!(o.stderr, "warn \u{fffd}");
    assert!(done(container_running(&vec![cmd_output(true, b"true\n", b"")])));
    let o = cmd_output(false, b"", b"");
    assert!(!o.success);
    assert_eq!(o.stdout, "");
}
