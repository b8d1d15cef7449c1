use arxos::anond::{
    asks_exit, bar, exit_line, health, order, progress_line, status, status_exit, status_published, status_snapshot, vpn_layer_present, write_pub, write_pub_bootstrapping,
    Health, Layers, Order,
};
use arxos::plan::{Command, Need, Op, Step};
use arxos::state::State;
use arxos::sysinfo::anond_status;
use arxos::verify::{exit_check, exit_ip, exit_probe, exit_report, ipv6_probe, report, run, Overlay, Verify};

fn line(c: &Command) -> String {
    let mut s = c.bin.clone();
    for a in &c.args {
        s.push(' ');
        s.push_str(a);
    }
    s
}

fn show(step: &Step) -> String {
    let op = match &step.op {
        Op::Run(c) => format!("run {}", line(c)),
        Op::Quiet(c) => format!("quiet {}", line(c)),
        Op::Feed(f) => format!("feed {} <<{}>> {}", line(&f.command), f.input, f.rejected),
        Op::Write(p, t) => format!("write {p} <<{t}>>"),
        Op::Remove(p) => format!("remove {p}"),
        Op::MakeDirs(p) => format!("mkdir {p}"),
        Op::Pause(ms) => format!("pause {ms}"),
        Op::Warn(t) => format!("warn {t}"),
    };
    match &step.need {
        Need::Optional => format!("? {op}"),
        Need::Required => format!("! {op}"),
        Need::Under(c) => format!("! {op} [{c}]"),
    }
}

fn shown(v: &[Step]) -> Vec<String> {
    v.iter().map(show).collect()
}

const NONE: Layers = Layers { tor: false, killswitch: false, dns: false, i2p: false };

const ALL: Layers = Layers { tor: true, killswitch: true, dns: true, i2p: true };

#[test]
fn a_dead_session_is_not_active() {
    let active = Some(State::Active);
    assert_eq!(health(active, true, false), Health { effective: State::Active, leaking: false });
    assert_eq!(health(active, false, true), Health { effective: State::Locked, leaking: false });
    assert_eq!(health(active, false, false), Health { effective: State::Down, leaking: true });
    assert_eq!(health(Some(State::Locked), false, false), Health { effective: State::Locked, leaking: false });
    assert_eq!(health(None, true, true), Health { effective: State::Down, leaking: false });
}

#[test]
fn the_snapshot_is_published_for_everyone() {
    assert_eq!(
        shown(&write_pub("Active", "1.2.3.4", false, ALL)),
        vec![
            "? mkdir /var/lib/anond",
            "? mkdir /run/anond",
            "! write /run/anond/pub.json <<{\"state\":\"Active\",\"exit_ip\":\"1.2.3.4\",\"tor\":\"running\",\
             \"killswitch\":\"armed\",\"dns\":\"pinned\",\"i2p\":\"running\",\"leaking\":false,\
             \"bootstrap_pct\":0}>>",
            "? run chmod 644 /run/anond/pub.json",
        ]
    );
    assert_eq!(
        shown(&write_pub("Down", "", true, NONE))[2],
        "! write /run/anond/pub.json <<{\"state\":\"Down\",\"exit_ip\":\"\",\"tor\":\"stopped\",\
         \"killswitch\":\"down\",\"dns\":\"open\",\"i2p\":\"off\",\"leaking\":true,\"bootstrap_pct\":0}>>"
    );
}

#[test]
fn the_panel_reads_the_snapshot() {
    let v = write_pub_bootstrapping(56, Layers { i2p: false, ..ALL });
    let text = match &v[2].op {
        Op::Write(_, t) => t.clone(),
        _ => unreachable!(),
    };
    let s = anond_status(&text, "eth0", "aa:bb\n", "# x\nnameserver  127.0.0.1 \nnameserver 9.9.9.9\n");
    assert_eq!((s.state.as_str(), s.exit_ip.as_str(), s.bootstrap_pct), ("Bootstrapping", "", 56));
    assert_eq!((s.tor.as_str(), s.killswitch.as_str()), ("running", "armed"));
    assert_eq!((s.dns.as_str(), s.i2p.as_str()), ("pinned", "off"));
    assert_eq!((s.iface.as_str(), s.mac.as_str(), s.resolver.as_str()), ("eth0", "aa:bb", "127.0.0.1"));
}

#[test]
fn progress_is_drawn_in_twenty_segments() {
    assert_eq!(bar(0), "▱▱▱▱▱▱▱▱▱▱▱▱▱▱▱▱▱▱▱▱");
    assert_eq!(bar(56), "▰▰▰▰▰▰▰▰▰▰▰▱▱▱▱▱▱▱▱▱");
    assert_eq!(bar(100), "▰▰▰▰▰▰▰▰▰▰▰▰▰▰▰▰▰▰▰▰");
    assert_eq!(bar(255), bar(100));
    for pct in [0u8, 7, 56, 100] {
        assert_eq!(progress_line(pct), format!("\r  {}  bootstrapping Tor {pct:>3}%   ", bar(pct)));
    }
}

#[test]
fn a_tunnel_is_told_by_its_device() {
    assert!(vpn_layer_present("1.1.1.1 dev wg0 src 10.2.0.2 uid 0"));
    assert!(vpn_layer_present("1.1.1.1 via 10.0.0.1 dev tun0 src 10.8.0.2"));
    assert!(vpn_layer_present("1.1.1.1 dev proton0"));
    assert!(vpn_layer_present("1.1.1.1 dev mullvad-x"));
    assert!(vpn_layer_present("1.1.1.1 dev nordlynx"));
    assert!(vpn_layer_present("1.1.1.1 dev tap0"));
    assert!(!vpn_layer_present("1.1.1.1 via 192.168.1.1 dev eth0 src 192.168.1.9"));
    assert!(!vpn_layer_present(""));
}

#[test]
fn the_status_says_what_dropped() {
    assert_eq!(
        status(Some(State::Active), ALL),
        vec!["state\tActive", "tor\trunning", "killswitch\tarmed", "dns\tpinned", "i2p\trunning"]
    );
    assert_eq!(
        status(Some(State::Active), NONE),
        vec![
            "state\tDown",
            "\t↳ was Active, but Tor is not running — anonymity has DROPPED.",
            "tor\tstopped",
            "killswitch\tdown",
            "dns\topen",
            "i2p\toff",
            "\n*** LEAK: this session was Active, Tor is DEAD, and the kill-switch is DOWN.",
            "*** Traffic is egressing in the clear. Run `anond down` then `anond up` to restore,",
            "*** or `anond down` to stop and clean up.",
        ]
    );
    assert_eq!(status(None, NONE)[0], "state\tDown");
    assert_eq!(status_exit("{\"IsTor\":true,\"IP\":\"5.6.7.8\"}").as_deref(), Some("exit_ip\t5.6.7.8"));
    assert_eq!(status_exit("nothing"), None);
    assert_eq!(exit_line("5.6.7.8").as_deref(), Some("exit_ip\t5.6.7.8"));
    assert_eq!(exit_line(""), None);
}

#[test]
fn the_status_publishes_what_it_found() {
    assert!(asks_exit(Some(State::Active), ALL));
    assert!(!asks_exit(Some(State::Active), NONE));
    assert!(!asks_exit(Some(State::Locked), ALL));
    let body = "{\"IsTor\":true,\"IP\":\"192.0.2.7\"}";
    assert_eq!(
        shown(&status_published(Some(State::Active), NONE, body, NONE)),
        shown(&write_pub("Down", "", true, NONE))
    );
    assert_eq!(
        shown(&status_published(None, ALL, body, ALL)),
        shown(&write_pub("Down", "", false, ALL))
    );
    assert_eq!(
        shown(&status_published(Some(State::Active), ALL, body, ALL)),
        shown(&write_pub("Active", "192.0.2.7", false, ALL))
    );
    assert_eq!(
        shown(&status_snapshot(Some(State::Locked), ALL, "192.0.2.7", ALL)),
        shown(&write_pub("Locked", "", false, ALL))
    );
}

#[test]
fn the_first_word_gives_the_order() {
    let of = |w: &[&str]| order(&w.iter().map(|s| s.to_string()).collect::<Vec<_>>());
    assert_eq!(of(&[]), Order::Status);
    assert_eq!(of(&["on", "--mac"]), Order::Up);
    assert_eq!(of(&["-k"]), Order::Down);
    assert_eq!(of(&["--safe"]), Order::Verify);
    assert_eq!(of(&["newnym"]), Order::NewIdentity);
    assert_eq!(of(&["-V"]), Order::Version);
    assert_eq!(of(&["status"]), Order::Status);
    assert_eq!(of(&["help"]), Order::Usage);
}

#[test]
fn the_exit_is_read_out_of_the_answer() {
    assert_eq!(exit_check("{\"IsTor\":true,\"IP\":\"5.6.7.8\"}"), (true, "5.6.7.8".to_string()));
    assert_eq!(exit_check("{\"IsTor\":false,\"IP\":\"9.9.9.9\"}"), (false, "9.9.9.9".to_string()));
    assert_eq!(exit_check("{\"IsTor\":\"yes\",\"IP\":7}"), (false, String::new()));
    assert_eq!(exit_check(""), (false, String::new()));
    assert_eq!(exit_check("{\"IP\":\"a\\\"\\u00e9\"}"), (false, "a\"é".to_string()));
    assert_eq!(exit_report(None, None), (false, String::new()));
    assert_eq!(exit_ip("{\"IP\":\"5.6.7.8\"}"), Ok("5.6.7.8".to_string()));
    assert_eq!(exit_ip("{}"), Err("no exit IP (Tor path not answering)".to_string()));
    assert_eq!(
        line(&exit_probe()),
        "curl -s --max-time 30 --socks5-hostname 127.0.0.1:9050 https://check.torproject.org/api/ip"
    );
    assert_eq!(line(&ipv6_probe()), "nft list table ip6 anond6");
}

#[test]
fn only_all_probes_together_make_a_session_active() {
    let tor = "{\"IsTor\":true,\"IP\":\"5.6.7.8\"}";
    assert!(run(true, true, true, tor).active());
    assert!(!run(false, true, true, tor).active());
    assert!(!run(true, false, true, tor).active());
    assert!(!run(true, true, false, tor).active());
    assert!(!run(true, true, true, "{\"IsTor\":false,\"IP\":\"5.6.7.8\"}").active());
    assert!(!Verify::default().active());
}

#[test]
fn the_verdict_is_printed() {
    let v = run(true, true, false, "{\"IsTor\":true,\"IP\":\"5.6.7.8\"}");
    assert_eq!(
        report(&v, None),
        vec![
            "kill-switch : pass",
            "DNS pinned  : pass",
            "IPv6 blocked: FAIL",
            "Tor exit    : pass (5.6.7.8)",
            "verdict     : DEGRADED (not fully anonymous)",
        ]
    );
    let w = run(true, true, true, "{\"IsTor\":true}");
    assert_eq!(
        report(&w, Some(Overlay { proxy: true, eepsite: false })),
        vec![
            "kill-switch : pass",
            "DNS pinned  : pass",
            "IPv6 blocked: pass",
            "Tor exit    : pass",
            "i2p proxy   : pass",
            "i2p eepsite : building (tunnels take a few min)",
            "verdict     : ACTIVE (anonymous)",
        ]
    );
    assert_eq!(report(&w, Some(Overlay { proxy: true, eepsite: true }))[5], "i2p eepsite : pass");
}
