use arxos::harden::{apply, begin, phys_ifaces, random_mac, restore, Ask, Seen, Stage};
use arxos::plan::{Command, Need, Op, Step};
use arxos::state::Session;

fn line(c: &Command) -> String {
    let mut s = c.bin.clone();
    for a in &c.args {
        s.push(' ');
        s.push_str(a);
    }
    s
}

fn show(step: &Step) -> String {
    let op = match &step.op {
        Op::Run(c) => format!("run {}", line(c)),
        Op::Quiet(c) => format!("quiet {}", line(c)),
        Op::Feed(f) => format!("feed {} <<{}>> {}", line(&f.command), f.input, f.rejected),
        Op::Write(p, t) => format!("write {p} <<{t}>>"),
        Op::Remove(p) => format!("remove {p}"),
        Op::MakeDirs(p) => format!("mkdir {p}"),
        Op::Pause(ms) => format!("pause {ms}"),
        Op::Warn(t) => format!("warn {t}"),
    };
    match &step.need {
        Need::Optional => format!("? {op}"),
        Need::Required => format!("! {op}"),
        Need::Under(c) => format!("! {op} [{c}]"),
    }
}

fn shown(v: &[Step]) -> Vec<String> {
    v.iter().map(show).collect()
}

fn ask(a: &Ask) -> String {
    match a {
        Ask::Out(c) => format!("out {}", line(c)),
        Ask::Run(c) => format!("run {}", line(c)),
        Ask::Ifaces => "ifaces".to_string(),
        Ask::Nothing => "nothing".to_string(),
    }
}

#[test]
fn an_address_is_local_and_unicast() {
    assert_eq!(random_mac(0), "02:00:00:00:5a:a5");
    assert_eq!(random_mac(0x1234_5678), "02:78:56:34:48:dd");
}

#[test]
fn only_interfaces_with_a_device_are_physical() {
    let found = vec![
        ("lo".to_string(), true),
        ("eth0".to_string(), true),
        ("docker0".to_string(), false),
        ("wlan0".to_string(), true),
    ];
    assert_eq!(phys_ifaces(&found), vec!["eth0".to_string(), "wlan0".to_string()]);
}

#[test]
fn hardening_records_what_it_changes() {
    let mut h = begin(true);
    let mut s = Session::new(43, None);
    let text = |t: &str| Seen::Text(t.to_string());
    let replies = vec![
        Seen::Nothing,
        text("/swapfile"),
        Seen::Ran(true),
        text("0"),
        text("1"),
        Seen::Ran(true),
        Seen::Ran(false),
        text("arxos"),
        Seen::Ran(true),
        Seen::Names(vec!["eth0".to_string(), "eth1".to_string(), "wlan0".to_string()]),
        text("aa:aa:aa:aa:aa:aa"),
        Seen::Ran(true),
        Seen::Ran(true),
        Seen::Ran(true),
        text(""),
        text("bb:bb:bb:bb:bb:bb"),
        Seen::Ran(true),
        Seen::Ran(false),
        Seen::Ran(true),
    ];
    let asked: Vec<String> = replies.into_iter().map(|r| ask(&apply(&mut h, &mut s, r, 0))).collect();
    assert_eq!(
        asked,
        vec![
            "out swapon --show --noheadings",
            "run swapoff -a",
            "out sysctl -n net.ipv4.tcp_timestamps",
            "out sysctl -n net.ipv4.icmp_echo_ignore_broadcasts",
            "run sysctl -qw net.ipv4.tcp_timestamps=0",
            "run sysctl -qw net.ipv4.icmp_echo_ignore_broadcasts=1",
            "out hostname",
            "run hostname localhost",
            "ifaces",
            "out cat /sys/class/net/eth0/address",
            "run ip link set eth0 down",
            "run ip link set eth0 address 02:00:00:00:5a:a5",
            "run ip link set eth0 up",
            "out cat /sys/class/net/eth1/address",
            "out cat /sys/class/net/wlan0/address",
            "run ip link set wlan0 down",
            "run ip link set wlan0 address 02:00:00:00:5a:a5",
            "run ip link set wlan0 up",
            "nothing",
        ]
    );
    assert!(h.stage == Stage::Done);
    assert!(s.swap_was_on);
    assert_eq!(s.hostname_backup.as_deref(), Some("arxos"));
    assert_eq!(s.mac_backup, vec![("eth0".to_string(), "aa:aa:aa:aa:aa:aa".to_string())]);
    assert_eq!(
        shown(&restore(&s)),
        vec![
            "? run hostname arxos",
            "? run ip link set eth0 down",
            "? run ip link set eth0 address aa:aa:aa:aa:aa:aa",
            "? run ip link set eth0 up",
            "? run sysctl -qw net.ipv4.tcp_timestamps=0",
            "? run sysctl -qw net.ipv4.icmp_echo_ignore_broadcasts=1",
            "? run swapon -a",
        ]
    );
}

#[test]
fn a_host_that_needs_little_is_left_alone() {
    let mut h = begin(false);
    let mut s = Session::new(43, None);
    let text = |t: &str| Seen::Text(t.to_string());
    let replies =
        vec![Seen::Nothing, text(""), text("1"), text("0"), Seen::Ran(true), Seen::Ran(true), text("localhost\n")];
    let asked: Vec<String> = replies.into_iter().map(|r| ask(&apply(&mut h, &mut s, r, 0))).collect();
    assert_eq!(asked[1], "out sysctl -n net.ipv4.tcp_timestamps");
    assert_eq!(asked[3], "run sysctl -qw net.ipv4.tcp_timestamps=0");
    assert_eq!(asked[6], "nothing");
    assert!(!s.swap_was_on && s.hostname_backup.is_none());
    assert_eq!(
        shown(&restore(&s)),
        vec![
            "? run sysctl -qw net.ipv4.tcp_timestamps=1",
            "? run sysctl -qw net.ipv4.icmp_echo_ignore_broadcasts=0"
        ]
    );
}

#[test]
fn a_setting_that_cannot_be_read_is_not_recorded() {
    let mut h = begin(false);
    let mut s = Session::new(43, None);
    let text = |t: &str| Seen::Text(t.to_string());
    for r in [Seen::Nothing, text(""), text(""), Seen::Nothing, Seen::Ran(false), Seen::Ran(false), text("")] {
        apply(&mut h, &mut s, r, 0);
    }
    assert!(h.stage == Stage::Done);
    assert!(s.timestamps_backup.is_none() && s.broadcasts_backup.is_none());
    assert!(restore(&s).is_empty());
}

#[test]
fn a_host_name_that_could_not_be_changed_is_not_recorded() {
    let mut h = begin(false);
    let mut s = Session::new(43, None);
    let text = |t: &str| Seen::Text(t.to_string());
    for r in [Seen::Nothing, text(""), text("1"), text("1"), Seen::Ran(true), Seen::Ran(true)] {
        apply(&mut h, &mut s, r, 0);
    }
    assert_eq!(ask(&apply(&mut h, &mut s, Seen::Text("arxos".to_string()), 0)), "run hostname localhost");
    assert_eq!(ask(&apply(&mut h, &mut s, Seen::Ran(false), 0)), "nothing");
    assert_eq!(s.hostname_backup, None);
}

#[test]
fn recorded_mounts_are_taken_away() {
    let mut s = Session::new(43, None);
    s.hostname_mount = true;
    s.machine_id_spoofed = true;
    assert_eq!(
        shown(&restore(&s))[..2],
        ["? run umount /etc/hostname".to_string(), "? run umount /etc/machine-id".to_string()]
    );
}
