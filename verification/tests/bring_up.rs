use arxos::anond::{write_pub, Layers};
use arxos::bring_up::{judge, publication, start_up, up, Act, Probes, Reply, Up};
use arxos::harden::Seen;
use arxos::killswitch;
use arxos::plan::{Command, Need, Op, Step};
use arxos::state::{Session, State};
use arxos::tor;
use arxos::verify::Verify;

fn line(c: &Command) -> String {
    let mut s = c.bin.clone();
    for a in &c.args {
        s.push(' ');
        s.push_str(a);
    }
    s
}

fn show(step: &Step) -> String {
    let op = match &step.op {
        Op::Run(c) => format!("run {}", line(c)),
        Op::Quiet(c) => format!("quiet {}", line(c)),
        Op::Feed(f) => format!("feed {} <<{}>> {}", line(&f.command), f.input, f.rejected),
        Op::Write(p, t) => format!("write {p} <<{t}>>"),
        Op::Remove(p) => format!("remove {p}"),
        Op::MakeDirs(p) => format!("mkdir {p}"),
        Op::Pause(ms) => format!("pause {ms}"),
        Op::Warn(t) => format!("warn {t}"),
    };
    match &step.need {
        Need::Optional => format!("? {op}"),
        Need::Required => format!("! {op}"),
        Need::Under(c) => format!("! {op} [{c}]"),
    }
}

fn shown(v: &[Step]) -> Vec<String> {
    v.iter().map(show).collect()
}

fn shown_act(a: &Act) -> String {
    match a {
        Act::Euid => "euid".to_string(),
        Act::Facts => "facts".to_string(),
        Act::I2pRunning => "i2p running".to_string(),
        Act::Id(u) => format!("id {u}"),
        Act::Clock => "clock".to_string(),
        Act::Out(c) => format!("out {}", line(c)),
        Act::Run(c) => format!("run {}", line(c)),
        Act::Quiet(c) => format!("quiet {}", line(c)),
        Act::Plan(v) => format!("plan {}", shown(v).join("; ")),
        Act::Harden(_) => "harden".to_string(),
        Act::Resolv => "resolv".to_string(),
        Act::Save => "save".to_string(),
        Act::Load => "load".to_string(),
        Act::AwaitTor => "await tor".to_string(),
        Act::LookTor(ms) => format!("look tor {ms}"),
        Act::TorPid => "tor pid".to_string(),
        Act::I2pPid => "i2p pid".to_string(),
        Act::AwaitProxy => "await proxy".to_string(),
        Act::LookProxy(ms) => format!("look proxy {ms}"),
        Act::Probe => "probe".to_string(),
        Act::Publish(s, ip) => format!("publish {s} {ip}"),
        Act::End(Ok(())) => "end".to_string(),
        Act::End(Err(e)) => format!("end {e}"),
        Act::Nothing => "nothing".to_string(),
    }
}

const SECOND: u128 = 1_000_000_000;

const TOR_BODY: &str = "{\"IsTor\":true,\"IP\":\"5.6.7.8\"}";

/// A host on which a bring-up is tried out.
struct Host {
    facts: (Option<State>, bool, bool),
    arm: Result<(), String>,
    pin: Result<(), String>,
    looks: Vec<(&'static str, bool, u128)>,
    body: &'static str,
    launch: Result<bool, String>,
    proxy: (bool, u128),
    i2p_runs: bool,
    loaded: Option<Session>,
    no_user: &'static str,
    kept: Vec<State>,
    trace: Vec<String>,
    said: Vec<String>,
    progress: Vec<u8>,
}

fn host() -> Host {
    Host {
        facts: (None, false, false),
        arm: Ok(()),
        pin: Ok(()),
        looks: vec![("", true, 0), ("Bootstrapped 45%", true, SECOND), ("Bootstrapped 100%", true, 2 * SECOND)],
        body: TOR_BODY,
        launch: Ok(true),
        proxy: (true, 0),
        i2p_runs: false,
        loaded: None,
        no_user: "",
        kept: Vec::new(),
        trace: Vec::new(),
        said: Vec::new(),
        progress: Vec::new(),
    }
}

fn answer(h: &mut Host, u: &Up, a: &Act) -> Reply {
    match a {
        Act::Euid => Reply::Euid(0),
        Act::Facts => Reply::Facts(h.facts.0, h.facts.1, h.facts.2),
        Act::I2pRunning => Reply::Flag(h.i2p_runs),
        Act::Id(name) if name == h.no_user => Reply::Id(Ok((false, String::new()))),
        Act::Id(name) => Reply::Id(Ok((true, if name == "tor" { "43\n" } else { "115\n" }.to_string()))),
        Act::Clock => Reply::Clock(Some(1700000000)),
        Act::Out(c) if c.bin == "curl" => Reply::Text(h.body.to_string()),
        Act::Out(_) => Reply::Text("1.1.1.1 via 10.0.0.1 dev eth0".to_string()),
        Act::Run(_) => {
            h.i2p_runs = h.launch == Ok(true);
            Reply::Ran(h.launch.clone())
        }
        Act::Quiet(_) => Reply::Ran(Ok(true)),
        Act::Plan(v) => {
            let text = shown(v).join("; ");
            if text.contains("feed nft") {
                Reply::Done(h.arm.clone())
            } else if text.contains("chattr") {
                Reply::Done(h.pin.clone())
            } else {
                Reply::Done(Ok(()))
            }
        }
        Act::Harden(_) => Reply::Seen(Seen::Text("localhost".to_string()), 0),
        Act::Resolv => Reply::Text("nameserver 10.0.0.1\n".to_string()),
        Act::Save => {
            h.kept.push(u.sess.state);
            Reply::Done(Ok(()))
        }
        Act::Load => Reply::Loaded(h.loaded.take()),
        Act::AwaitTor | Act::LookTor(_) => {
            let (log, running, elapsed) = h.looks.remove(0);
            Reply::Tor(log.to_string(), running, elapsed)
        }
        Act::TorPid | Act::I2pPid => Reply::File(Some("812\n".to_string())),
        Act::AwaitProxy | Act::LookProxy(_) => Reply::Proxy(h.proxy.0, h.proxy.1),
        Act::Probe => Reply::Probes(Probes {
            killswitch_up: true,
            dns_pinned: true,
            ipv6_table: true,
            body: h.body.to_string(),
            overlay: None,
        }),
        Act::Publish(..) | Act::End(_) | Act::Nothing => Reply::Nothing,
    }
}

/// Runs a bring-up to its end.
fn bring_up(args: &[&str], h: &mut Host) -> (Up, Result<(), String>) {
    let words: Vec<String> = args.iter().map(|s| s.to_string()).collect();
    let (mut u, mut t) = start_up(&words);
    for _ in 0..200 {
        if let Some(pct) = t.progress {
            h.progress.push(pct);
        }
        h.said.append(&mut t.say);
        h.trace.push(shown_act(&t.act));
        if let Act::End(r) = t.act {
            return (u, r);
        }
        let reply = answer(h, &u, &t.act);
        t = up(&mut u, reply);
    }
    panic!("the bring-up does not end");
}

fn place(h: &Host, what: &str) -> usize {
    h.trace.iter().position(|a| a.contains(what)).expect(what)
}

#[test]
fn a_bring_up_locks_first_and_ends_active() {
    let mut h = host();
    let (u, r) = bring_up(&["--no-advice"], &mut h);
    assert_eq!(r, Ok(()));
    assert_eq!(h.trace[..4], ["euid".to_string(), "facts".to_string(), "id tor".to_string(), "clock".to_string()]);
    assert_eq!(h.trace[4], format!("plan {}", shown(&killswitch::up(&[43])).join("; ")));
    assert_eq!(h.trace[5], "quiet conntrack -F");
    assert_eq!(h.kept, vec![State::Locked, State::Locked, State::Locked, State::Bootstrapping, State::Active]);
    assert_eq!(h.progress, vec![0, 45, 100]);
    assert!(place(&h, "feed nft") < place(&h, "run tor -f"));
    assert!(place(&h, "probe") < place(&h, "publish Active 5.6.7.8"));
    assert_eq!(u.sess.resolv_backup.as_deref(), Some("nameserver 10.0.0.1\n"));
    assert_eq!(
        h.said,
        vec![
            "[1/5] arming the kill-switch (traffic blocked until verified)…",
            "[2/5] hardening the host (swap off, sysctl)…",
            "[3/5] pinning DNS to Tor…",
            "[4/5] starting Tor (this can take a few minutes on a slow connection)…",
            "",
            "[5/5] verifying (no path to Active until every probe passes)…",
            "kill-switch : pass",
            "DNS pinned  : pass",
            "IPv6 blocked: pass",
            "Tor exit    : pass (5.6.7.8)",
            "verdict     : ACTIVE (anonymous)",
            "\nanond ACTIVE — you exit via Tor at 5.6.7.8. DNS pinned, IPv6 blocked, kill-switch armed.",
        ]
    );
}

#[test]
fn a_user_who_is_not_root_is_turned_away() {
    let (mut u, t) = start_up(&[]);
    assert_eq!(shown_act(&t.act), "euid");
    let t = up(&mut u, Reply::Euid(1000));
    assert_eq!(shown_act(&t.act), "end anond must run as root (it manages nftables and Tor)");
    assert_eq!(shown_act(&up(&mut u, Reply::Nothing).act), "nothing");
}

#[test]
fn a_live_session_is_left_alone() {
    let mut h = host();
    h.facts = (Some(State::Active), true, true);
    assert_eq!(bring_up(&[], &mut h).1, Ok(()));
    assert_eq!(h.said, vec!["anond is already active"]);
    h.said.clear();
    h.i2p_runs = true;
    assert_eq!(bring_up(&["--i2p"], &mut h).1, Ok(()));
    assert_eq!(h.said, vec!["anond is already active"]);
}

#[test]
fn a_session_whose_tor_died_is_brought_up_again() {
    let mut h = host();
    h.facts = (Some(State::Active), false, true);
    assert_eq!(bring_up(&["--no-advice"], &mut h).1, Ok(()));
    assert!(h.trace.iter().any(|a| a.contains("feed nft")));
}

#[test]
fn a_missing_tunnel_is_pointed_out() {
    let mut h = host();
    assert_eq!(bring_up(&[], &mut h).1, Ok(()));
    assert_eq!(h.trace[2], "out ip -o route get 1.1.1.1");
    assert!(h.trace[3].contains("? warn \n  ADVISORY: no VPN layer detected in front of Tor."));
    assert!(h.trace[3].ends_with("? pause 3000"));
}

#[test]
fn a_kill_switch_that_is_rejected_ends_it_before_anything_else() {
    let mut h = host();
    h.arm = Err("kill-switch ruleset was rejected by nft".to_string());
    let (_, r) = bring_up(&["--no-advice"], &mut h);
    assert_eq!(r, Err("kill-switch ruleset was rejected by nft".to_string()));
    assert!(h.kept.is_empty());
    assert!(!h.trace.iter().any(|a| a.contains("quiet nft delete")));
}

#[test]
fn a_failure_behind_the_kill_switch_stays_locked() {
    let mut h = host();
    h.pin = Err("make resolv.conf immutable: chattr +i /etc/resolv.conf failed".to_string());
    let (_, r) = bring_up(&["--no-advice"], &mut h);
    assert_eq!(
        r,
        Err("bring-up failed (make resolv.conf immutable: chattr +i /etc/resolv.conf failed) — staying \
             LOCKED (all traffic blocked). Run `anond down` to release."
            .to_string())
    );
    assert_eq!(h.kept.last(), Some(&State::Locked));
    assert_eq!(h.trace[h.trace.len() - 2], "publish Locked ");
    assert!(!h.trace.iter().any(|a| a.contains("quiet nft delete")));
}

#[test]
fn a_publication_never_claims_a_leak() {
    let up = Layers { tor: false, killswitch: true, dns: true, i2p: false };
    let locked = Act::Publish("Locked".to_string(), String::new());
    assert_eq!(shown(&publication(&locked, up)), shown(&write_pub("Locked", "", false, up)));
    assert!(shown(&publication(&locked, up)).join("").contains("\"leaking\":false"));
    assert!(publication(&Act::Save, up).is_empty());
}

#[test]
fn an_exit_that_is_not_tor_stays_locked() {
    let mut h = host();
    h.body = "{\"IsTor\":false,\"IP\":\"9.9.9.9\"}";
    let (_, r) = bring_up(&["--no-advice"], &mut h);
    assert_eq!(
        r,
        Err("verification failed — staying LOCKED (all traffic blocked). Run `anond verify` for detail, or \
             `anond down` to release."
            .to_string())
    );
    assert_eq!(h.kept.last(), Some(&State::Locked));
    assert!(!h.trace.iter().any(|a| a.starts_with("publish Active")));
}

#[test]
fn a_crashed_tor_is_restarted_behind_the_kill_switch() {
    let mut h = host();
    h.looks = vec![("died: Caught signal 11", false, SECOND), ("Bootstrapped 100%", true, 9 * SECOND)];
    assert_eq!(bring_up(&["--no-advice"], &mut h).1, Ok(()));
    let restart = format!("plan {}", shown(&tor::restart(Some("812\n"))).join("; "));
    assert!(h.trace.contains(&restart));
    let mut g = host();
    g.looks = vec![("[err] bad", true, 0)];
    let (_, r) = bring_up(&["--no-advice"], &mut g);
    assert!(r.unwrap_err().contains("tor reported an error during bootstrap (see /var/lib/anond/tor.log)"));
}

#[test]
fn the_overlay_joins_a_new_session() {
    let mut h = host();
    let (u, r) = bring_up(&["--no-advice", "--i2p"], &mut h);
    assert_eq!(r, Ok(()));
    assert!(u.sess.i2p);
    assert!(h.trace.contains(&format!("plan {}", shown(&killswitch::up(&[43, 115])).join("; "))));
    assert!(h.said.contains(&"      + starting i2pd (i2p overlay)…".to_string()));
    let mut g = host();
    g.launch = Ok(false);
    assert_eq!(bring_up(&["--no-advice", "--i2p"], &mut g).1, Ok(()));
    assert!(g.said.contains(&"      note: i2p unavailable (i2pd failed to start); continuing on Tor only".to_string()));
    let mut k = host();
    k.proxy = (false, 76 * SECOND);
    assert_eq!(bring_up(&["--no-advice", "--i2p"], &mut k).1, Ok(()));
    assert!(k
        .said
        .contains(&"      note: i2pd still initialising (tunnels build in the background)".to_string()));
}

#[test]
fn the_overlay_is_attached_to_a_live_session() {
    let mut h = host();
    h.facts = (Some(State::Active), true, true);
    h.loaded = Some(Session::new(43, None));
    let (u, r) = bring_up(&["--i2p"], &mut h);
    assert_eq!(r, Ok(()));
    assert!(u.sess.i2p);
    assert_eq!(h.kept.len(), 1);
    assert!(h.trace.contains(&format!("plan {}", shown(&killswitch::rearm(&[43, 115])).join("; "))));
    assert_eq!(
        h.said,
        vec!["attaching the i2p overlay to the live session…", "i2p overlay attached (Tor session intact)"]
    );
}

#[test]
fn an_overlay_that_does_not_start_leaves_the_kill_switch_tight() {
    let mut h = host();
    h.facts = (Some(State::Active), true, true);
    h.launch = Err("No such file".to_string());
    assert_eq!(bring_up(&["--i2p"], &mut h).1, Ok(()));
    assert!(h.trace.contains(&format!("plan {}", shown(&killswitch::rearm(&[43])).join("; "))));
    assert_eq!(
        h.said[1..],
        [
            "note: i2p unavailable (start i2pd (is i2pd installed?): No such file); staying on Tor only".to_string(),
            "i2p overlay not attached (Tor session intact)".to_string(),
        ]
    );
}

#[test]
fn a_missing_user_ends_it() {
    let mut h = host();
    h.no_user = "tor";
    assert_eq!(
        bring_up(&["--no-advice"], &mut h).1,
        Err("no such user 'tor' (is tor installed?)".to_string())
    );
}

#[test]
fn the_probes_are_judged_together() {
    let found = |tor_ok: bool| Verify {
        tor_ok,
        dns_ok: true,
        killswitch_ok: true,
        ipv6_ok: true,
        exit_ip: "5.6.7.8".to_string(),
    };
    let (mut u, _) = start_up(&[]);
    let t = judge(&mut u, found(true), None);
    assert_eq!(shown_act(&t.act), "save");
    assert_eq!((u.sess.state, u.exit_ip.as_str()), (State::Active, "5.6.7.8"));
    let (mut u, _) = start_up(&[]);
    judge(&mut u, found(false), None);
    assert_eq!(u.sess.state, State::Locked);
}
