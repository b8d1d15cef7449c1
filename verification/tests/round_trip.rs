use arxos::bring_up::{start_up, up, Act, Probes, Reply};
use arxos::harden::{Ask, Seen};
use arxos::plan::{Command, Op, Step};
use arxos::state::Session;
use arxos::take_down::{down, start_down};

/// A host by the settings that a session touches.
struct Host {
    swap: bool,
    hostname: String,
    mac: String,
    timestamps: String,
    broadcasts: String,
    resolv: String,
    armed: bool,
    record: Option<Session>,
}

fn words(c: &Command) -> Vec<&str> {
    let mut v = vec![c.bin.as_str()];
    v.extend(c.args.iter().map(String::as_str));
    v
}

fn execute(h: &mut Host, c: &Command) {
    match words(c)[..] {
        ["swapoff", "-a"] => h.swap = false,
        ["swapon", "-a"] => h.swap = true,
        ["sysctl", "-qw", setting] => match setting.split_once('=') {
            Some(("net.ipv4.tcp_timestamps", v)) => h.timestamps = v.to_string(),
            Some(("net.ipv4.icmp_echo_ignore_broadcasts", v)) => h.broadcasts = v.to_string(),
            _ => {}
        },
        ["hostname", name] => h.hostname = name.to_string(),
        ["ip", "link", "set", "eth0", "address", mac] => h.mac = mac.to_string(),
        ["nft", "delete", "table", "inet", "anond"] => h.armed = false,
        _ => {}
    }
}

fn carry_out(h: &mut Host, plan: &[Step]) {
    for s in plan {
        match &s.op {
            Op::Run(c) | Op::Quiet(c) => execute(h, c),
            Op::Feed(_) => h.armed = true,
            Op::Write(path, text) if path == "/etc/resolv.conf" => h.resolv = text.clone(),
            Op::Remove(path) if path == "/var/lib/anond/session.json" => h.record = None,
            _ => {}
        }
    }
}

fn copy(s: &Session) -> Session {
    Session {
        state: s.state,
        tor_uid: s.tor_uid,
        since: s.since.clone(),
        resolv_backup: s.resolv_backup.clone(),
        mac_backup: s.mac_backup.clone(),
        swap_was_on: s.swap_was_on,
        i2p: s.i2p,
        hostname_backup: s.hostname_backup.clone(),
        hostname_mount: s.hostname_mount,
        machine_id_spoofed: s.machine_id_spoofed,
        timestamps_backup: s.timestamps_backup.clone(),
        broadcasts_backup: s.broadcasts_backup.clone(),
    }
}

fn seen(h: &mut Host, a: &Ask) -> Seen {
    match a {
        Ask::Out(c) => Seen::Text(match words(c)[..] {
            ["swapon", "--show", "--noheadings"] if h.swap => "/swapfile".to_string(),
            ["hostname"] => h.hostname.clone(),
            ["sysctl", "-n", "net.ipv4.tcp_timestamps"] => h.timestamps.clone(),
            ["sysctl", "-n", "net.ipv4.icmp_echo_ignore_broadcasts"] => h.broadcasts.clone(),
            ["cat", "/sys/class/net/eth0/address"] => h.mac.clone(),
            _ => String::new(),
        }),
        Ask::Run(c) => {
            execute(h, c);
            Seen::Ran(true)
        }
        Ask::Ifaces => Seen::Names(vec!["eth0".to_string()]),
        Ask::Nothing => Seen::Nothing,
    }
}

fn answer(h: &mut Host, a: &Act, sess: Option<&Session>, body: &str) -> Reply {
    match a {
        Act::Euid => Reply::Euid(0),
        Act::Facts => Reply::Facts(None, false, false),
        Act::Id(_) => Reply::Id(Ok((true, "43".to_string()))),
        Act::Clock => Reply::Clock(Some(1)),
        Act::Run(_) | Act::Quiet(_) => Reply::Ran(Ok(true)),
        Act::Plan(v) => {
            carry_out(h, v);
            Reply::Done(Ok(()))
        }
        Act::Harden(q) => Reply::Seen(seen(h, q), 7),
        Act::Resolv => Reply::Text(h.resolv.clone()),
        Act::Save => {
            h.record = sess.map(copy);
            Reply::Done(Ok(()))
        }
        Act::Load => Reply::Loaded(h.record.as_ref().map(copy)),
        Act::AwaitTor | Act::LookTor(_) => Reply::Tor("Bootstrapped 100%".to_string(), true, 0),
        Act::Probe => Reply::Probes(Probes {
            killswitch_up: h.armed,
            dns_pinned: h.resolv.contains("127.0.0.1"),
            ipv6_table: h.armed,
            body: body.to_string(),
            overlay: None,
        }),
        _ => Reply::Nothing,
    }
}

/// Brings a session up and takes it down again on a host, and tells how bringing it up ended.
fn there_and_back(h: &mut Host, body: &str) -> bool {
    let (mut u, mut t) = start_up(&["--mac".to_string(), "--no-advice".to_string()]);
    let ended = loop {
        if let Act::End(r) = &t.act {
            break r.is_ok();
        }
        let reply = answer(h, &t.act, Some(&u.sess), body);
        t = up(&mut u, reply);
    };
    assert!(h.armed);
    assert_eq!((h.timestamps.as_str(), h.broadcasts.as_str()), ("0", "1"));
    assert!(!h.swap && h.hostname == "localhost" && h.mac.starts_with("02:"));
    assert!(h.resolv.contains("nameserver 127.0.0.1"));
    let (mut d, mut t) = start_down();
    loop {
        if let Act::End(r) = &t.act {
            assert_eq!(*r, Ok(()));
            return ended;
        }
        let reply = answer(h, &t.act, None, body);
        t = down(&mut d, reply);
    }
}

fn fresh(timestamps: &str, broadcasts: &str) -> Host {
    Host {
        swap: true,
        hostname: "arxos".to_string(),
        mac: "aa:bb:cc:dd:ee:ff".to_string(),
        timestamps: timestamps.to_string(),
        broadcasts: broadcasts.to_string(),
        resolv: "nameserver 192.168.1.1\n".to_string(),
        armed: false,
        record: None,
    }
}

fn is_as_before(h: &Host) {
    assert!(h.swap && !h.armed && h.record.is_none());
    assert_eq!(h.hostname, "arxos");
    assert_eq!(h.mac, "aa:bb:cc:dd:ee:ff");
    assert_eq!(h.resolv, "nameserver 192.168.1.1\n");
}

#[test]
fn what_was_brought_up_is_taken_down() {
    for (timestamps, broadcasts) in [("1", "1"), ("0", "0"), ("2", "0"), ("0", "1")] {
        let mut h = fresh(timestamps, broadcasts);
        assert!(there_and_back(&mut h, "{\"IsTor\":true,\"IP\":\"5.6.7.8\"}"));
        is_as_before(&h);
        assert_eq!((h.timestamps.as_str(), h.broadcasts.as_str()), (timestamps, broadcasts));
    }
}

#[test]
fn a_session_that_failed_is_taken_down_too() {
    let mut h = fresh("1", "0");
    assert!(!there_and_back(&mut h, "{\"IsTor\":false}"));
    is_as_before(&h);
    assert_eq!((h.timestamps.as_str(), h.broadcasts.as_str()), ("1", "0"));
}
