use arxos::killswitch::{down, flush_command, flush_conntrack, is_up, rearm, ruleset, up, up_probe};
use arxos::plan::{Command, Need, Op, Step};

fn line(c: &Command) -> String {
    let mut s = c.bin.clone();
    for a in &c.args {
        s.push(' ');
        s.push_str(a);
    }
    s
}

fn show(step: &Step) -> String {
    let op = match &step.op {
        Op::Run(c) => format!("run {}", line(c)),
        Op::Quiet(c) => format!("quiet {}", line(c)),
        Op::Feed(f) => format!("feed {} <<{}>> {}", line(&f.command), f.input, f.rejected),
        Op::Write(p, t) => format!("write {p} <<{t}>>"),
        Op::Remove(p) => format!("remove {p}"),
        Op::MakeDirs(p) => format!("mkdir {p}"),
        Op::Pause(ms) => format!("pause {ms}"),
        Op::Warn(t) => format!("warn {t}"),
    };
    match &step.need {
        Need::Optional => format!("? {op}"),
        Need::Required => format!("! {op}"),
        Need::Under(c) => format!("! {op} [{c}]"),
    }
}

fn shown(v: &[Step]) -> Vec<String> {
    v.iter().map(show).collect()
}

const RULES: &str = "table inet anond {\n\
\tchain output_nat {\n\
\t\ttype nat hook output priority -100; policy accept;\n\
\t\t# Tor's OWN traffic (and i2pd's) is returned FIRST, before any redirect — otherwise\n\
\t\t# Tor's DNS lookups to its own DNSPort, and connections to its AutomapHostsOnResolve\n\
\t\t# virtual range, get redirected back into its TransPort. A redirected connection whose\n\
\t\t# original dest is that virtual/private address makes Tor 0.4.9.11 reject it ('private\n\
\t\t# address on a TransPort ... Possible loop in your NAT rules?') and SIGSEGV. Exempting\n\
\t\t# the tor uid up front breaks that loop.\n\
\t\tmeta skuid { 43, 115 } return\n\
\t\t# private/LAN/loopback AND Tor's automap virtual range are never redirected to Tor:\n\
\t\t# they are LAN or Tor-internal, never Tor's job, and a private original-dest crashes\n\
\t\t# Tor's TransPort handler.\n\
\t\tip daddr { 127.0.0.0/8, 10.0.0.0/8, 172.16.0.0/12, 192.168.0.0/16, 169.254.0.0/16, 100.64.0.0/10, 10.192.0.0/10 } return\n\
\t\tudp dport 53 redirect to :5353\n\
\t\ttcp dport 53 redirect to :5353\n\
\t\ttcp flags & (fin|syn|rst|ack) == syn redirect to :9040\n\
\t}\n\
\tchain output {\n\
\t\ttype filter hook output priority 0; policy drop;\n\
\t\toif \"lo\" accept\n\
\t\tmeta skuid { 43, 115 } accept\n\
\t\tct state established,related accept\n\
\t\tip daddr { 127.0.0.0/8, 10.0.0.0/8, 172.16.0.0/12, 192.168.0.0/16, 169.254.0.0/16, 100.64.0.0/10 } accept\n\
\t\tudp dport 5353 accept\n\
\t\ttcp dport { 9040, 5353 } accept\n\
\t}\n\
}\n\
table ip6 anond6 {\n\
\tchain output6 {\n\
\t\ttype filter hook output priority 0; policy drop;\n\
\t\toif \"lo\" accept\n\
\t}\n\
}\n";

#[test]
fn the_kill_switch_is_written_out() {
    assert_eq!(ruleset(&[43, 115]), RULES);
    assert_eq!(ruleset(&[43]), RULES.replace("43, 115", "43"));
}

const HEAD: &str = "add table inet anond\ndelete table inet anond\nadd table ip6 anond6\ndelete table ip6 anond6\n";

#[test]
fn arming_replaces_a_stale_copy_in_one_transaction() {
    assert_eq!(
        shown(&up(&[43, 115])),
        vec![format!("! feed nft -f - <<{HEAD}{RULES}>> kill-switch ruleset was rejected by nft")]
    );
}

#[test]
fn rearming_is_one_transaction() {
    assert_eq!(
        shown(&rearm(&[43, 115])),
        vec![format!("! feed nft -f - <<{HEAD}{RULES}>> kill-switch re-arm was rejected by nft")]
    );
}

#[test]
fn removing_the_kill_switch_forgives_a_missing_table() {
    assert_eq!(
        shown(&down()),
        vec!["? quiet nft delete table inet anond", "? quiet nft delete table ip6 anond6"]
    );
}

#[test]
fn a_flush_that_fails_is_reported() {
    assert_eq!(line(&flush_command()), "conntrack -F");
    assert!(flush_conntrack(true).is_empty());
    let v = shown(&flush_conntrack(false));
    assert_eq!(v[0], "? write /proc/sys/net/netfilter/nf_conntrack_count <<0>>");
    assert_eq!(
        v[1],
        "? warn anond: WARNING — could not flush conntrack (install conntrack-tools). Connections open \
         BEFORE this session may continue in the clear until they close. Close your browser/apps and \
         reopen them after `anond up`."
    );
    assert_eq!(v.len(), 2);
}

#[test]
fn the_kill_switch_is_up_where_it_can_be_listed() {
    assert_eq!(line(&up_probe()), "nft list table inet anond");
    assert!(is_up(Some(true)));
    assert!(!is_up(Some(false)));
    assert!(!is_up(None));
}
