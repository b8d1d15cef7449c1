use arxos::arxonion::ruleset;
use arxos::confine::{
    confine, down, exec_in_ns, is_root, ns_exists, pick_shell, release, setup, sh, shell_marks, start_task, status, teardown_quiet,
    wish, write_ns_resolv, IsoAct, IsoReply, Settings, Task, Wish,
};
use arxos::plan::{Command, Need, Op, Step};

fn line(c: &Command) -> String {
    let mut s = c.bin.clone();
    for a in &c.args {
        s.push(' ');
        s.push_str(a);
    }
    s
}

fn show(step: &Step) -> String {
    let op = match &step.op {
        Op::Run(c) => format!("run {}", line(c)),
        Op::Quiet(c) => format!("quiet {}", line(c)),
        Op::Feed(f) => format!("feed {} <<{}>> {}", line(&f.command), f.input, f.rejected),
        Op::Write(p, t) => format!("write {p} <<{t}>>"),
        Op::Remove(p) => format!("remove {p}"),
        Op::MakeDirs(p) => format!("mkdir {p}"),
        Op::Pause(ms) => format!("pause {ms}"),
        Op::Warn(t) => format!("warn {t}"),
    };
    match &step.need {
        Need::Optional => format!("? {op}"),
        Need::Required => format!("! {op}"),
        Need::Under(c) => format!("! {op} [{c}]"),
    }
}

fn shown(v: &[Step]) -> Vec<String> {
    v.iter().map(show).collect()
}

const RULES: &str = "table ip arxonion {\n\
\tchain input {\n\
\t\ttype filter hook input priority -150; policy accept;\n\
\t\tip saddr 10.99.71.0/24 ip daddr != 127.0.0.0/8 drop\n\
\t}\n\
\tchain forward {\n\
\t\ttype filter hook forward priority -150; policy accept;\n\
\t\tip saddr 10.99.71.0/24 drop\n\
\t}\n\
\tchain prerouting {\n\
\t\ttype nat hook prerouting priority -100; policy accept;\n\
\t\tip saddr 10.99.71.0/24 udp dport 53 dnat to 127.0.0.1:5353\n\
\t\tip saddr 10.99.71.0/24 tcp dport 53 dnat to 127.0.0.1:5353\n\
\t\tip saddr 10.99.71.0/24 ip daddr != { 10.0.0.0/8, 172.16.0.0/12, 192.168.0.0/16, 169.254.0.0/16, 100.64.0.0/10 } tcp dport != 53 dnat to 127.0.0.1:9040\n\
\t}\n\
\tchain postrouting {\n\
\t\ttype nat hook postrouting priority 100; policy accept;\n\
\t\tip saddr 10.99.71.0/24 ip daddr 127.0.0.0/8 masquerade\n\
\t}\n\
}\n";

const ROOT: &str = "Name:\tarxonion\nUid:\t0\t0\t0\t0\n";

fn strings(v: &[&str]) -> Vec<String> {
    v.iter().map(|s| s.to_string()).collect()
}

#[test]
fn the_confinement_is_written_out() {
    assert_eq!(ruleset(), RULES);
}

#[test]
fn the_namespace_is_built_from_nothing() {
    assert_eq!(
        shown(&setup()),
        vec![
            "? quiet nft delete table ip arxonion".to_string(),
            "? quiet ip netns del arxonion".to_string(),
            "? quiet ip link del arxonion0".to_string(),
            "! run ip netns add arxonion".to_string(),
            "! run ip netns exec arxonion ip link set lo up".to_string(),
            "! run ip link add arxonion0 type veth peer name arxonion1".to_string(),
            "! run ip link set arxonion1 netns arxonion".to_string(),
            "! run ip addr add 10.99.71.1/24 dev arxonion0".to_string(),
            "! run ip link set arxonion0 up".to_string(),
            "! run ip netns exec arxonion ip addr add 10.99.71.2/24 dev arxonion1".to_string(),
            "! run ip netns exec arxonion ip link set arxonion1 up".to_string(),
            "! run ip netns exec arxonion ip route add default via 10.99.71.1".to_string(),
            "! run sysctl -qw net.ipv4.conf.all.route_localnet=1".to_string(),
            "! run sysctl -qw net.ipv4.conf.arxonion0.route_localnet=1".to_string(),
            "! run sysctl -qw net.ipv4.conf.arxonion0.rp_filter=0".to_string(),
            "? quiet sysctl -qw net.ipv4.conf.all.rp_filter=0".to_string(),
            "! run sysctl -qw net.ipv4.ip_forward=1".to_string(),
            format!("! feed nft -f - <<{RULES}>> nft rejected the arxonion ruleset"),
        ]
    );
    assert_eq!(shown(&teardown_quiet()), shown(&setup())[..3]);
    assert_eq!(
        shown(&write_ns_resolv()),
        vec!["? mkdir /etc/netns/arxonion", "? write /etc/netns/arxonion/resolv.conf <<nameserver 10.99.71.1\n>>"]
    );
}

fn settings(localnet: &str, filter: &str, forward: &str) -> Settings {
    let some = |t: &str| if t.is_empty() { None } else { Some(t.to_string()) };
    Settings { localnet: some(localnet), filter: some(filter), forward: some(forward) }
}

#[test]
fn everything_made_for_the_namespace_is_taken_back() {
    let v = shown(&release(&settings("0", "2", "1")));
    assert_eq!(v[..3], shown(&teardown_quiet()));
    assert_eq!(
        v[3..],
        [
            "? remove /etc/netns/arxonion/resolv.conf".to_string(),
            "? quiet rmdir /etc/netns/arxonion".to_string(),
            "? quiet sysctl -qw net.ipv4.conf.all.route_localnet=0".to_string(),
            "? quiet sysctl -qw net.ipv4.conf.all.rp_filter=2".to_string(),
            "? quiet sysctl -qw net.ipv4.ip_forward=1".to_string(),
        ]
    );
    assert_eq!(shown(&release(&settings("", "", "")))[..], v[..5]);
}

#[test]
fn a_failing_command_is_quoted() {
    let args = ["netns", "add", "arxonion"];
    assert_eq!(sh("ip", &args, Ok(None)), Ok(()));
    assert_eq!(
        sh("ip", &args, Ok(Some("exit status: 1".to_string()))),
        Err("ip [\"netns\", \"add\", \"arxonion\"] exited exit status: 1".to_string())
    );
    assert_eq!(
        sh("ip", &args, Err("gone".to_string())),
        Err("run ip [\"netns\", \"add\", \"arxonion\"]: gone".to_string())
    );
    assert_eq!(
        sh("ip", &["a\"b", "c\n"], Err("gone".to_string())),
        Err("run ip [\"a\\\"b\", \"c\\n\"]: gone".to_string())
    );
    assert_eq!(sh("sync", &[], Err("gone".to_string())), Err("run sync []: gone".to_string()));
}

#[test]
fn root_is_told_by_the_status() {
    assert!(is_root(ROOT));
    assert!(!is_root("Uid:\t1000\t0\t0\t0\n"));
    assert!(!is_root("Uid:\n"));
    assert!(!is_root(""));
}

#[test]
fn the_namespace_is_found_by_its_whole_name() {
    assert!(ns_exists("other\narxonion (id: 0)\n"));
    assert!(!ns_exists("arxonion2\n"));
    assert!(!ns_exists(""));
    assert_eq!(
        status("arxonion2\n", false),
        vec!["arxonion namespace: active", "Tor available: no (arxonion would refuse to run)"]
    );
    assert_eq!(status("", true), vec!["arxonion namespace: not set up", "Tor available: yes"]);
}

#[test]
fn the_first_word_gives_the_wish() {
    let of = |w: &[&str]| wish(&strings(w));
    assert_eq!(of(&["run", "curl"]), Wish::Run);
    assert_eq!(of(&["on"]), Wish::Up);
    assert_eq!(of(&["shell"]), Wish::Shell);
    assert_eq!(of(&["clean"]), Wish::Down);
    assert_eq!(of(&["status"]), Wish::Status);
    assert_eq!(of(&["help"]), Wish::Usage);
    assert_eq!(of(&[]), Wish::Usage);
}

#[test]
fn only_root_takes_the_isolation_down() {
    let r = down(true);
    assert_eq!((r.line, r.to_stderr, r.code), ("arxonion: isolation torn down.", false, 0));
    assert_eq!(shown(&r.plan), shown(&release(&settings("", "", ""))));
    let r = down(false);
    assert_eq!((r.line, r.to_stderr, r.code), ("arxonion down needs root", true, 1));
    assert!(r.plan.is_empty());
}

#[test]
fn a_shell_is_picked() {
    let s = |t: &str| Some(t.to_string());
    assert_eq!(pick_shell(s("/bin/fish"), s("/bin/bash")), "/bin/fish");
    assert_eq!(pick_shell(None, s("/bin/bash")), "/bin/bash");
    assert_eq!(pick_shell(None, None), "/usr/bin/zsh");
    assert_eq!(shell_marks()[0], ("ARXONION", "1"));
    assert!(shell_marks()[1..].iter().all(|(_, prompt)| prompt.contains("🧅 arxonion")));
    assert_eq!(line(&exec_in_ns(&strings(&["curl", "-s"]))), "ip netns exec arxonion curl -s");
}

/// What a task does on a host.
struct Seen {
    trace: Vec<String>,
    said: Vec<String>,
    warned: Vec<String>,
    end: Result<i32, String>,
}

fn perform(
    task: Task,
    command: &[&str],
    tor: bool,
    list: &str,
    built: Result<(), String>,
    code: Result<Option<i32>, String>,
) -> Seen {
    let (mut s, mut t) = start_task(task, strings(command));
    let mut seen = Seen { trace: Vec::new(), said: Vec::new(), warned: Vec::new(), end: Ok(0) };
    for _ in 0..50 {
        seen.said.append(&mut t.say);
        seen.warned.append(&mut t.warn);
        let reply = match t.act {
            IsoAct::Status => IsoReply::Text(ROOT.to_string()),
            IsoAct::Tor => IsoReply::Flag(tor),
            IsoAct::List => IsoReply::Text(list.to_string()),
            IsoAct::Out(c) => IsoReply::Text(match line(&c).as_str() {
                "sysctl -n net.ipv4.conf.all.route_localnet" => "0\n".to_string(),
                "sysctl -n net.ipv4.conf.all.rp_filter" => "2\n".to_string(),
                "sysctl -n net.ipv4.ip_forward" => "0\n".to_string(),
                other => panic!("{other}"),
            }),
            IsoAct::Plan(v) => {
                let text = shown(&v).join("; ");
                let built = if text.contains("netns add") { built.clone() } else { Ok(()) };
                seen.trace.push(if text.contains("netns add") {
                    "setup".to_string()
                } else if text.contains("netns del") {
                    assert_eq!(text, shown(&release(&settings("0", "2", "0"))).join("; "));
                    "teardown".to_string()
                } else {
                    "resolv".to_string()
                });
                IsoReply::Done(built)
            }
            IsoAct::Exec(c) => {
                seen.trace.push(line(&c));
                IsoReply::Code(code.clone())
            }
            IsoAct::End(r) => {
                seen.end = r;
                return seen;
            }
            IsoAct::Nothing => panic!("the task does not end"),
        };
        t = confine(&mut s, reply);
    }
    panic!("the task does not end");
}

#[test]
fn a_command_runs_in_a_namespace_of_its_own() {
    let s = perform(Task::Run, &["curl", "-s"], true, "", Ok(()), Ok(Some(7)));
    assert_eq!(s.trace, vec!["setup", "resolv", "ip netns exec arxonion curl -s", "teardown"]);
    assert_eq!(s.end, Ok(7));
    assert_eq!(
        s.warned,
        vec!["arxonion: 'curl' is confined to a Tor-only namespace (real interface not present here)."]
    );
    let s = perform(Task::Run, &["curl"], true, "", Ok(()), Ok(None));
    assert_eq!(s.end, Ok(-1));
    let s = perform(Task::Run, &["curl"], true, "", Ok(()), Err("gone".to_string()));
    assert_eq!(s.end, Err("exec command in the namespace: gone".to_string()));
    assert_eq!(s.trace.last().map(String::as_str), Some("teardown"));
}

#[test]
fn a_namespace_that_was_there_outlives_the_command() {
    let s = perform(Task::Run, &["curl"], true, "arxonion\n", Ok(()), Ok(Some(0)));
    assert_eq!(s.trace, vec!["resolv", "ip netns exec arxonion curl"]);
}

#[test]
fn nothing_runs_without_tor() {
    let s = perform(Task::Run, &["curl"], false, "", Ok(()), Ok(Some(0)));
    assert!(s.trace.is_empty());
    assert_eq!(
        s.end,
        Err("Tor is not running (no TransPort on 9040 / SOCKS on 9050). Start it first: `anond up`.\n\
             arxonion FAILS CLOSED — it will not run an app clear-net, so it refuses rather than leak."
            .to_string())
    );
    let s = perform(Task::Up, &[], false, "", Ok(()), Ok(None));
    assert_eq!(
        s.end,
        Err("Tor is not running. Start it first (`anond up`). arxonion FAILS CLOSED — it will not\n\
             route apps clear-net, so it refuses to arm without Tor."
            .to_string())
    );
    let s = perform(Task::Run, &[], true, "", Ok(()), Ok(None));
    assert_eq!(s.end, Err("usage: arxonion run <command> [args...]".to_string()));
}

#[test]
fn a_namespace_that_was_not_built_is_removed_and_nothing_runs() {
    let s = perform(Task::Run, &["curl"], true, "", Err("nft rejected the arxonion ruleset".to_string()), Ok(Some(0)));
    assert_eq!(s.trace, vec!["setup", "teardown"]);
    assert_eq!(
        s.end,
        Err("building the Tor-only namespace: nft rejected the arxonion ruleset".to_string())
    );
    let s = perform(Task::Up, &[], true, "", Err("x".to_string()), Ok(None));
    assert_eq!(s.end, Err("bringing the Tor-only namespace up: x".to_string()));
}

#[test]
fn the_isolation_is_kept_up() {
    let s = perform(Task::Up, &[], true, "", Ok(()), Ok(None));
    assert_eq!(s.trace, vec!["setup", "resolv"]);
    assert_eq!(s.end, Ok(0));
    assert_eq!(
        s.said,
        vec![
            "arxonion: isolation UP. Apps launched with `arxonion run <cmd>` (or `arxonion shell`)\n\
             are confined to Tor; the real interface is not reachable to them. `arxonion down` to stop."
        ]
    );
    let s = perform(Task::Up, &[], true, "arxonion\n", Ok(()), Ok(None));
    assert!(s.trace.is_empty());
    assert_eq!(s.said, vec!["arxonion: isolation is already up."]);
}

#[test]
fn a_shell_is_confined() {
    let s = perform(Task::Shell, &["/usr/bin/zsh"], true, "", Ok(()), Ok(Some(3)));
    assert_eq!(s.trace, vec!["setup", "resolv", "resolv", "ip netns exec arxonion /usr/bin/zsh", "teardown"]);
    assert_eq!(s.end, Ok(3));
    assert_eq!(
        s.warned,
        vec![
            "arxonion: isolated shell — every command here routes through Tor (real IP unreachable).",
            "          type `exit` to leave the isolated shell.",
        ]
    );
    let s = perform(Task::Shell, &["zsh"], true, "arxonion\n", Ok(()), Ok(Some(0)));
    assert_eq!(s.trace, vec!["resolv", "ip netns exec arxonion zsh"]);
    let s = perform(Task::Shell, &["zsh"], true, "", Ok(()), Err("gone".to_string()));
    assert_eq!(s.end, Err("start isolated shell: gone".to_string()));
    assert_eq!(s.trace.last().map(String::as_str), Some("teardown"));
    let s = perform(Task::Shell, &["zsh"], true, "", Err("x".to_string()), Ok(Some(0)));
    assert_eq!(s.trace, vec!["setup", "teardown"]);
    assert_eq!(s.end, Err("bringing the Tor-only namespace up: x".to_string()));
    let s = perform(Task::Shell, &["zsh"], true, "arxonion\n", Ok(()), Err("gone".to_string()));
    assert_eq!(s.trace, vec!["resolv", "ip netns exec arxonion zsh"]);
}

#[test]
fn each_task_asks_for_root() {
    for (task, want) in [
        (Task::Up, "arxonion up needs root: sudo arxonion up"),
        (Task::Shell, "arxonion shell needs root: sudo arxonion shell"),
        (
            Task::Run,
            "arxonion run needs root (it creates a network namespace + nft rules): sudo arxonion run <cmd>",
        ),
    ] {
        let (mut s, _) = start_task(task, strings(&["zsh"]));
        match confine(&mut s, IsoReply::Text("Uid:\t1000\n".to_string())).act {
            IsoAct::End(r) => assert_eq!(r, Err(want.to_string())),
            _ => panic!("the task goes on"),
        }
    }
}
