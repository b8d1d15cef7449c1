use arxos::bring_up::{Act, Reply};
use arxos::killswitch;
use arxos::plan::{Command, Need, Op, Step};
use arxos::state::Session;
use arxos::take_down::{down, start_down};

fn line(c: &Command) -> String {
    let mut s = c.bin.clone();
    for a in &c.args {
        s.push(' ');
        s.push_str(a);
    }
    s
}

fn show(step: &Step) -> String {
    let op = match &step.op {
        Op::Run(c) => format!("run {}", line(c)),
        Op::Quiet(c) => format!("quiet {}", line(c)),
        Op::Feed(f) => format!("feed {} <<{}>> {}", line(&f.command), f.input, f.rejected),
        Op::Write(p, t) => format!("write {p} <<{t}>>"),
        Op::Remove(p) => format!("remove {p}"),
        Op::MakeDirs(p) => format!("mkdir {p}"),
        Op::Pause(ms) => format!("pause {ms}"),
        Op::Warn(t) => format!("warn {t}"),
    };
    match &step.need {
        Need::Optional => format!("? {op}"),
        Need::Required => format!("! {op}"),
        Need::Under(c) => format!("! {op} [{c}]"),
    }
}

fn shown(v: &[Step]) -> Vec<String> {
    v.iter().map(show).collect()
}

fn shown_act(a: &Act) -> String {
    match a {
        Act::Euid => "euid".to_string(),
        Act::Facts => "facts".to_string(),
        Act::I2pRunning => "i2p running".to_string(),
        Act::Id(u) => format!("id {u}"),
        Act::Clock => "clock".to_string(),
        Act::Out(c) => format!("out {}", line(c)),
        Act::Run(c) => format!("run {}", line(c)),
        Act::Quiet(c) => format!("quiet {}", line(c)),
        Act::Plan(v) => format!("plan {}", shown(v).join("; ")),
        Act::Harden(_) => "harden".to_string(),
        Act::Resolv => "resolv".to_string(),
        Act::Save => "save".to_string(),
        Act::Load => "load".to_string(),
        Act::AwaitTor => "await tor".to_string(),
        Act::LookTor(ms) => format!("look tor {ms}"),
        Act::TorPid => "tor pid".to_string(),
        Act::I2pPid => "i2p pid".to_string(),
        Act::AwaitProxy => "await proxy".to_string(),
        Act::LookProxy(ms) => format!("look proxy {ms}"),
        Act::Probe => "probe".to_string(),
        Act::Publish(s, ip) => format!("publish {s} {ip}"),
        Act::End(Ok(())) => "end".to_string(),
        Act::End(Err(e)) => format!("end {e}"),
        Act::Nothing => "nothing".to_string(),
    }
}

/// Takes a session down on a host, and tells what was done and said.
fn take_down(sess: Option<Session>, i2p: bool, resolved: bool) -> (Vec<String>, Vec<String>) {
    let (mut d, mut t) = start_down();
    let mut sess = sess;
    let mut trace = Vec::new();
    let mut said = Vec::new();
    for _ in 0..100 {
        said.append(&mut t.say);
        trace.push(shown_act(&t.act));
        let reply = match &t.act {
            Act::End(_) => return (trace, said),
            Act::Euid => Reply::Euid(0),
            Act::Load => Reply::Loaded(sess.take()),
            Act::I2pRunning => Reply::Flag(i2p),
            Act::TorPid => Reply::File(Some("812\n".to_string())),
            Act::I2pPid => Reply::File(None),
            Act::Run(_) => Reply::Ran(Ok(resolved)),
            Act::Out(_) => Reply::Text("default via 10.0.0.1 dev eth0".to_string()),
            Act::Plan(_) => Reply::Done(Ok(())),
            _ => Reply::Nothing,
        };
        t = down(&mut d, reply);
    }
    panic!("taking the session down does not end");
}

#[test]
fn the_kill_switch_comes_down_last() {
    let mut s = Session::new(43, None);
    s.resolv_backup = Some("nameserver 10.0.0.1\n".to_string());
    s.swap_was_on = true;
    s.timestamps_backup = Some("2".to_string());
    s.i2p = true;
    let (trace, said) = take_down(Some(s), false, false);
    assert_eq!(
        trace,
        vec![
            "euid".to_string(),
            "load".to_string(),
            "i2p pid".to_string(),
            "plan ? run pkill -u i2pd; ? pause 2000; ? run pkill -9 -u i2pd; ? remove /var/lib/anond/i2pd/i2pd.pid"
                .to_string(),
            "tor pid".to_string(),
            "plan ? run kill 812; ? run pkill -f /run/anond/torrc; ? remove /run/anond/tor.pid".to_string(),
            "plan ? run chattr -i /etc/resolv.conf; ! write /etc/resolv.conf <<nameserver 10.0.0.1\n>> \
             [restore resolv.conf]"
                .to_string(),
            "plan ? run sysctl -qw net.ipv4.tcp_timestamps=2; ? run swapon -a".to_string(),
            format!("plan {}", shown(&killswitch::down()).join("; ")),
            "plan ? remove /var/lib/anond/session.json".to_string(),
            "plan ? run sync; ? write /proc/sys/vm/drop_caches <<3>>".to_string(),
            "publish Down ".to_string(),
            "end".to_string(),
        ]
    );
    assert_eq!(
        said,
        vec!["anond DOWN — Tor stopped, DNS/host restored, kill-switch removed last; RAM caches flushed."]
    );
}

#[test]
fn without_a_record_a_resolver_is_made_up() {
    let (trace, _) = take_down(None, true, false);
    assert_eq!(trace[2], "i2p running");
    assert_eq!(trace[3], "i2p pid");
    assert_eq!(trace[7], "plan ? run chattr -i /etc/resolv.conf");
    assert_eq!(trace[8], "run systemctl is-active --quiet systemd-resolved");
    assert_eq!(trace[9], "out ip -o route show default");
    assert!(trace[10].contains("nameserver 10.0.0.1"));
    assert_eq!(trace[11], format!("plan {}", shown(&killswitch::down()).join("; ")));
    let (resolved, _) = take_down(None, false, true);
    assert!(resolved.iter().any(|a| a.contains("nameserver 127.0.0.53")));
}

#[test]
fn only_root_takes_a_session_down() {
    let (mut d, _) = start_down();
    let t = down(&mut d, Reply::Euid(7));
    assert_eq!(shown_act(&t.act), "end anond must run as root (it manages nftables and Tor)");
    assert_eq!(shown_act(&down(&mut d, Reply::Nothing).act), "nothing");
}

#[test]
fn a_kill_switch_that_stays_keeps_the_record() {
    let (mut d, mut t) = start_down();
    let mut trace = Vec::new();
    for _ in 0..100 {
        trace.push(shown_act(&t.act));
        let reply = match &t.act {
            Act::End(_) => break,
            Act::Euid => Reply::Euid(0),
            Act::Plan(v) if shown(v)[0].contains("nft delete") => Reply::Done(Err("busy".to_string())),
            Act::Plan(_) => Reply::Done(Ok(())),
            _ => Reply::Nothing,
        };
        t = down(&mut d, reply);
    }
    assert_eq!(trace.last().map(String::as_str), Some("end busy"));
    assert!(!trace.iter().any(|a| a.contains("session.json")));
}
