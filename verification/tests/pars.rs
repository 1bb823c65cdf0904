use coursework::executor::{resolve_json_results, Action, Executor, Outcome};
use coursework::pars_options::{parse_options, ArgIssue};
use coursework::remote::{parse_remote, parse_remotes, remote_invocation, ssh_arguments, Remote, RemoteError};

fn args(v: &[&str]) -> Vec<String> {
    v.iter().map(|s| s.to_string()).collect()
}

#[test]
fn reads_all_options() {
    let o = parse_options(&args(&["pars", "-J", "4", "-r", "host:22/3", "--halt", "lazy"]));
    assert_eq!(o.threads_limit, 4);
    assert_eq!(o.remotes, vec!["host:22/3".to_string()]);
    assert_eq!(o.termination, 1);
    assert!(o.issues.is_empty());
}

#[test]
fn defaults_and_issues() {
    let o = parse_options(&args(&["pars"]));
    assert_eq!((o.threads_limit, o.termination), (2, 0));
    let o = parse_options(&args(&["pars", "-J", "x", "-e", "sometimes", "-e", "eager", "-s"]));
    assert_eq!(o.threads_limit, 2);
    assert_eq!(o.termination, 2);
    assert_eq!(o.issues, vec![ArgIssue::InvalidHalt, ArgIssue::MissingSecondary]);
    let o = parse_options(&args(&["pars", "--remote"]));
    assert_eq!(o.issues, vec![ArgIssue::MissingRemote]);
    assert!(o.remotes.is_empty());
}

#[test]
fn values_are_looked_at_too() {
    // "-e" takes "-J" as its (invalid) value, and "-J" then takes "3"
    let o = parse_options(&args(&["pars", "-e", "-J", "3"]));
    assert_eq!(o.threads_limit, 3);
    assert_eq!(o.issues, vec![ArgIssue::InvalidHalt]);
}

#[test]
fn reads_remote_specifications() {
    let (r, t) = parse_remote("example.com:2222/4").ok().unwrap();
    assert_eq!(r, Remote { addr: "example.com".to_string(), port: 2222 });
    assert_eq!(t, 4);
    assert_eq!(parse_remote("example.com").err(), Some(RemoteError::MissingSeparator));
    assert_eq!(parse_remote("a/b:c").err(), Some(RemoteError::SlashBeforeColon));
    assert_eq!(parse_remote("a:99999/1").err(), Some(RemoteError::InvalidPort));
    assert_eq!(parse_remote("a:22/x").err(), Some(RemoteError::InvalidThreads));
}

#[test]
fn the_last_remote_sets_the_threads() {
    let (rs, t) = parse_remotes(&args(&["a:1/5", "b:2/7"]), 2).ok().unwrap();
    assert_eq!(rs.len(), 2);
    assert_eq!(rs[1], Remote { addr: "b".to_string(), port: 2 });
    assert_eq!(t, 7);
    assert_eq!(parse_remotes(&args(&[]), 9).ok().unwrap().1, 9);
    assert_eq!(parse_remotes(&args(&["a:1/5", "bad"]), 2).err(), Some(RemoteError::MissingSeparator));
}

#[test]
fn remote_command_lines() {
    assert_eq!(remote_invocation(1, 3), "pars -e lazy -J 3\n");
    assert_eq!(remote_invocation(2, 10), "pars -e eager -J 10\n");
    assert_eq!(remote_invocation(0, 2), "pars -e never -J 2\n");
    let r = Remote { addr: "host".to_string(), port: 22 };
    assert_eq!(
        ssh_arguments(&r, Some("/id".to_string()), "ls", &args(&["-l"])),
        args(&["-p", "22", "host", "-i", "/id", "--", "ls", "-l"])
    );
    assert_eq!(ssh_arguments(&r, None, "echo", &args(&[])), args(&["-p", "22", "host", "--", "echo"]));
}

fn ok(out: &str) -> Outcome {
    Outcome::Exited { code: 0, stdout: out.to_string(), stderr: String::new() }
}

#[test]
fn runs_until_a_failure() {
    let mut ex = Executor::new(3, 2);
    assert_eq!(ex.next_action(true), Action::Run(0));
    assert!(!ex.record(ok("one")));
    assert_eq!(ex.next_action(true), Action::Run(1));
    let stop_others = ex.record(Outcome::Exited { code: 3, stdout: String::new(), stderr: "bad".to_string() });
    assert!(stop_others);
    assert_eq!(ex.next_action(true), Action::Finish);
    assert!(ex.stop);
    let msgs: Vec<(usize, i32, String)> = ex.messages.iter().map(|m| (m.id, m.status, m.msg.clone())).collect();
    assert_eq!(msgs, vec![(0, 0, "one".to_string()), (1, 3, "bad".to_string())]);
    assert!(!ex.halts_input());
}

#[test]
fn missing_programs_and_cleared_flags() {
    let mut ex = Executor::new(2, 1);
    assert_eq!(ex.next_action(true), Action::Run(0));
    assert!(!ex.record(Outcome::NotStarted));
    assert_eq!(ex.messages[0].msg, "Error: Command not found");
    assert_eq!(ex.messages[0].status, 1);
    assert!(ex.halts_input());

    let mut ex = Executor::new(2, 0);
    assert_eq!(ex.next_action(false), Action::Finish);
    assert!(ex.messages.is_empty());
    assert!(!ex.stop);

    let mut ex = Executor::new(1, 0);
    assert_eq!(ex.next_action(true), Action::Run(0));
    ex.record(ok(""));
    assert_eq!(ex.next_action(true), Action::Finish);
}

#[test]
fn only_successful_results_are_shown() {
    let r = resolve_json_results(Some(vec![(0, "Hello".to_string()), (1, "World".to_string()), (0, "!".to_string())]));
    assert_eq!(r, vec!["Hello".to_string(), "!".to_string()]);
    assert!(resolve_json_results(None).is_empty());
}
