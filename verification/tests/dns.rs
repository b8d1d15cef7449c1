use arxos::dns::{is_locked, is_pinned, lock_probe, pin, reconstruct_resolver, restore, PIN};
use arxos::plan::{Command, Need, Op, Step};
use arxos::state::{clear, session_path, Session, State};

fn line(c: &Command) -> String {
    let mut s = c.bin.clone();
    for a in &c.args {
        s.push(' ');
        s.push_str(a);
    }
    s
}

fn show(step: &Step) -> String {
    let op = match &step.op {
        Op::Run(c) => format!("run {}", line(c)),
        Op::Quiet(c) => format!("quiet {}", line(c)),
        Op::Feed(f) => format!("feed {} <<{}>> {}", line(&f.command), f.input, f.rejected),
        Op::Write(p, t) => format!("write {p} <<{t}>>"),
        Op::Remove(p) => format!("remove {p}"),
        Op::MakeDirs(p) => format!("mkdir {p}"),
        Op::Pause(ms) => format!("pause {ms}"),
        Op::Warn(t) => format!("warn {t}"),
    };
    match &step.need {
        Need::Optional => format!("? {op}"),
        Need::Required => format!("! {op}"),
        Need::Under(c) => format!("! {op} [{c}]"),
    }
}

fn shown(v: &[Step]) -> Vec<String> {
    v.iter().map(show).collect()
}

const FOUND: &str = "# made by dhcp\nnameserver 192.168.1.1\n";

#[test]
fn a_new_session_records_nothing() {
    let s = Session::new(43, Some(1700000000));
    assert_eq!(s.state, State::Down);
    assert_eq!(s.tor_uid, 43);
    assert_eq!(s.since, "1700000000");
    assert!(s.resolv_backup.is_none() && s.mac_backup.is_empty() && !s.swap_was_on && !s.i2p);
    assert!(s.hostname_backup.is_none() && !s.hostname_mount && !s.machine_id_spoofed);
    assert_eq!(Session::new(0, None).since, "");
    assert_eq!(session_path(), "/var/lib/anond/session.json");
    assert_eq!(shown(&clear()), vec!["? remove /var/lib/anond/session.json"]);
    assert_eq!(State::Bootstrapping.name(), "Bootstrapping");
    assert_eq!(State::Draining.name(), "Draining");
}

#[test]
fn pinning_keeps_what_was_there() {
    let mut s = Session::new(43, None);
    let plan = pin(&mut s, FOUND);
    assert_eq!(s.resolv_backup.as_deref(), Some(FOUND));
    assert_eq!(
        shown(&plan),
        vec![
            "? run chattr -i /etc/resolv.conf".to_string(),
            format!("! write /etc/resolv.conf <<{PIN}>> [write resolv.conf]"),
            "! run chattr +i /etc/resolv.conf [make resolv.conf immutable]".to_string(),
        ]
    );
}

#[test]
fn the_pin_is_never_kept_as_a_backup() {
    let mut s = Session::new(43, None);
    pin(&mut s, FOUND);
    pin(&mut s, PIN);
    pin(&mut s, " \n");
    assert_eq!(s.resolv_backup.as_deref(), Some(FOUND));
    let mut t = Session::new(43, None);
    pin(&mut t, PIN);
    assert_eq!(t.resolv_backup, None);
}

#[test]
fn restoring_writes_the_very_text() {
    let mut s = Session::new(43, None);
    pin(&mut s, FOUND);
    let r = restore(Some(&s));
    assert!(!r.reconstruct);
    assert_eq!(
        shown(&r.steps),
        vec![
            "? run chattr -i /etc/resolv.conf".to_string(),
            format!("! write /etc/resolv.conf <<{FOUND}>> [restore resolv.conf]"),
        ]
    );
}

#[test]
fn without_a_backup_a_configuration_is_made_up() {
    assert!(restore(None).reconstruct);
    let mut s = Session::new(43, None);
    assert!(restore(Some(&s)).reconstruct);
    s.resolv_backup = Some(PIN.to_string());
    let r = restore(Some(&s));
    assert!(r.reconstruct);
    assert_eq!(shown(&r.steps), vec!["? run chattr -i /etc/resolv.conf"]);
    assert_eq!(
        shown(&reconstruct_resolver(true, "")),
        vec![
            "? write /etc/resolv.conf <<# anond: no pre-session backup; pointed at systemd-resolved stub\n\
             nameserver 127.0.0.53\noptions edns0 trust-ad\n>>"
        ]
    );
    assert_eq!(
        shown(&reconstruct_resolver(false, "default via 10.0.2.2 dev eth0")),
        vec![
            "? write /etc/resolv.conf <<# anond: no pre-session backup; pointed at the default gateway\n\
             nameserver 10.0.2.2\n>>"
        ]
    );
    assert_eq!(
        shown(&reconstruct_resolver(false, "default dev ppp0")),
        vec![
            "? write /etc/resolv.conf <<# anond: no pre-session backup; public resolver fallback\n\
             nameserver 1.1.1.1\n>>"
        ]
    );
}

#[test]
fn pinned_means_loopback_only_and_locked() {
    assert!(is_pinned(PIN, true));
    assert!(!is_pinned(PIN, false));
    assert!(!is_pinned(FOUND, true));
    assert!(!is_pinned("nameserver 127.0.0.1\nnameserver 8.8.8.8\n", true));
    assert!(is_pinned("  nameserver 127.0.0.53\n", true));
    assert!(!is_pinned("options edns0\n", true));
}

#[test]
fn the_lock_is_an_attribute() {
    assert_eq!(line(&lock_probe()), "lsattr /etc/resolv.conf");
    assert!(is_locked("----i---------e------- /etc/resolv.conf\n"));
    assert!(!is_locked("--------------e------- /etc/resolv.conf.i\n"));
    assert!(!is_locked(""));
}
