use arxos::i2p;
use arxos::plan::{Command, Need, Op, Step};
use arxos::tor;
use arxos::tor::Wait;

fn line(c: &Command) -> String {
    let mut s = c.bin.clone();
    for a in &c.args {
        s.push(' ');
        s.push_str(a);
    }
    s
}

fn show(step: &Step) -> String {
    let op = match &step.op {
        Op::Run(c) => format!("run {}", line(c)),
        Op::Quiet(c) => format!("quiet {}", line(c)),
        Op::Feed(f) => format!("feed {} <<{}>> {}", line(&f.command), f.input, f.rejected),
        Op::Write(p, t) => format!("write {p} <<{t}>>"),
        Op::Remove(p) => format!("remove {p}"),
        Op::MakeDirs(p) => format!("mkdir {p}"),
        Op::Pause(ms) => format!("pause {ms}"),
        Op::Warn(t) => format!("warn {t}"),
    };
    match &step.need {
        Need::Optional => format!("? {op}"),
        Need::Required => format!("! {op}"),
        Need::Under(c) => format!("! {op} [{c}]"),
    }
}

fn shown(v: &[Step]) -> Vec<String> {
    v.iter().map(show).collect()
}

const SECOND: u128 = 1_000_000_000;

fn wait(w: &Wait) -> String {
    match w {
        Wait::Ready => "ready".to_string(),
        Wait::Failed(e) => e.clone(),
        Wait::Restart => "restart".to_string(),
        Wait::Poll => "poll".to_string(),
    }
}

fn look(restarts: u32, log: &str, running: bool, elapsed: u128) -> (u32, u8, String) {
    let mut n = restarts;
    let (pct, w) = tor::wait_bootstrap_with(&mut n, log, running, elapsed, 300 * SECOND);
    (n, pct, wait(&w))
}

#[test]
fn tor_is_configured() {
    assert_eq!(
        tor::torrc(),
        "User tor\nDataDirectory /var/lib/anond/tor\nPidFile /run/anond/tor.pid\n\
         Log notice file /var/lib/anond/tor.log\nRunAsDaemon 1\n\
         SocksPort 9050 IsolateDestAddr IsolateDestPort\nTransPort 9040\nDNSPort 5353\n\
         ControlPort 9051\nCookieAuthentication 1\nAutomapHostsOnResolve 1\n\
         VirtualAddrNetworkIPv4 10.192.0.0/10\nClientUseIPv6 0\nClientPreferIPv6ORPort 0\n\
         AvoidDiskWrites 1\n"
    );
}

#[test]
fn tor_is_started_on_an_empty_log() {
    let v = shown(&tor::start());
    assert_eq!(
        v[..7],
        [
            "? mkdir /var/lib/anond".to_string(),
            "? mkdir /run/anond".to_string(),
            "? mkdir /var/lib/anond/tor".to_string(),
            "? run chown -R tor:tor /var/lib/anond/tor".to_string(),
            "? run chown tor:tor /run/anond".to_string(),
            "? write /var/lib/anond/tor.log <<>>".to_string(),
            "? run chown tor:tor /var/lib/anond/tor.log".to_string(),
        ]
    );
    assert_eq!(v[7], format!("! write /run/anond/torrc <<{}>> [write torrc]", tor::torrc()));
    assert_eq!(
        v[8..],
        [
            "? write /var/lib/anond/tor.log <<>>".to_string(),
            "? write /var/lib/anond/tor.log <<>>".to_string(),
            "! run tor -f /run/anond/torrc [start tor (is tor installed?)]".to_string(),
        ]
    );
}

#[test]
fn the_last_percentage_counts() {
    assert_eq!(tor::bootstrap_pct("x Bootstrapped 5% (conn)\ny Bootstrapped 56% (loading)\n"), 56);
    assert_eq!(tor::bootstrap_pct(""), 0);
    assert_eq!(tor::bootstrap_pct("Bootstrapped 300%"), 0);
    assert_eq!(tor::bootstrap_pct("Bootstrapped 10% Bootstrapped x%"), 0);
    assert_eq!(tor::bootstrap_pct("Bootstrapped  7"), 7);
}

#[test]
fn waiting_ends_with_a_full_bootstrap() {
    assert_eq!(look(0, "Bootstrapped 100% (done)", false, 900 * SECOND), (0, 100, "ready".to_string()));
    assert_eq!(look(0, "Bootstrapped 45%", true, SECOND), (0, 45, "poll".to_string()));
}

#[test]
fn waiting_fails_on_an_error_and_on_time() {
    assert_eq!(
        look(0, "[err] no", true, 0).2,
        "tor reported an error during bootstrap (see /var/lib/anond/tor.log)"
    );
    assert_eq!(look(0, "", true, 300 * SECOND).2, "poll");
    assert_eq!(
        look(0, "Bootstrapped 50%", true, 300 * SECOND + 1),
        (0, 50, "tor bootstrap timed out after 300s (staying blocked)".to_string())
    );
}

#[test]
fn a_dead_tor_is_restarted_a_few_times() {
    assert_eq!(look(0, "", false, 3 * SECOND), (0, 0, "poll".to_string()));
    assert_eq!(look(0, "", false, 3 * SECOND + 1), (1, 0, "restart".to_string()));
    assert_eq!(look(3, "died: Caught signal 11", true, 0), (4, 0, "restart".to_string()));
    assert_eq!(
        look(4, "died: Caught signal 11", true, 0),
        (4, 0, "tor died repeatedly during bootstrap (4 restarts; see /var/lib/anond/tor.log). Staying blocked.".to_string())
    );
    let mut n: u32 = 0;
    let mut restarts = 0;
    for _ in 0..20 {
        if let Wait::Restart = tor::wait_bootstrap(&mut n, "", false, 10 * SECOND, 300 * SECOND) {
            restarts += 1;
        }
    }
    assert_eq!(restarts, 4);
}

#[test]
fn tor_is_stopped_and_restarted() {
    assert_eq!(
        shown(&tor::stop(Some(" 812\n"))),
        vec!["? run kill 812", "? run pkill -f /run/anond/torrc", "? remove /run/anond/tor.pid"]
    );
    assert_eq!(shown(&tor::stop(Some("\n"))).len(), 2);
    assert_eq!(
        shown(&tor::restart(None)),
        vec![
            "? run pkill -f /run/anond/torrc",
            "? remove /run/anond/tor.pid",
            "? pause 500",
            "? write /var/lib/anond/tor.log <<>>",
            "! run tor -f /run/anond/torrc [start tor (is tor installed?)]",
            "? pause 2000",
        ]
    );
}

#[test]
fn a_fresh_circuit_is_asked_for() {
    assert_eq!(tor::cookie_path(), "/var/lib/anond/tor/control_auth_cookie");
    assert_eq!(tor::newnym_request(&[0xab, 0x01]), "AUTHENTICATE ab01\r\nSIGNAL NEWNYM\r\nQUIT\r\n");
    assert_eq!(tor::new_identity("250 OK\r\n250 OK\r\n"), Ok(()));
    assert_eq!(
        tor::new_identity("515 Authentication failed\r\nmore"),
        Err("tor refused NEWNYM: 515 Authentication failed".to_string())
    );
    assert_eq!(tor::new_identity(""), Err("tor refused NEWNYM: ".to_string()));
}

#[test]
fn tor_runs_where_its_process_is_called_tor() {
    assert_eq!(tor::comm_path(Some("812\n")).as_deref(), Some("/proc/812/comm"));
    assert_eq!(tor::comm_path(None), None);
    assert!(tor::running(Some("812"), Some("tor\n")));
    assert!(!tor::running(Some("812"), Some("torsocks\n")));
    assert!(!tor::running(Some(" "), Some("tor\n")));
    assert!(!tor::running(Some("812"), None));
}

#[test]
fn the_overlay_is_launched_under_its_own_user() {
    let l = i2p::start();
    assert_eq!(
        shown(&l.prepare),
        vec!["? mkdir /var/lib/anond/i2pd", "? run chown -R i2pd:i2pd /var/lib/anond/i2pd"]
    );
    assert_eq!(
        line(&l.command),
        "runuser -u i2pd -- i2pd --datadir=/var/lib/anond/i2pd --pidfile=/var/lib/anond/i2pd/i2pd.pid \
         --log=file --logfile=/var/lib/anond/i2pd/i2pd.log --loglevel=warn --daemon \
         --http.address=127.0.0.1 --http.port=7070 --httpproxy.address=127.0.0.1 --httpproxy.port=4444 \
         --socksproxy.address=127.0.0.1 --socksproxy.port=4447 --sam.enabled=false"
    );
    assert_eq!(i2p::started(Ok(true)), Ok(()));
    assert_eq!(i2p::started(Ok(false)), Err("i2pd failed to start".to_string()));
    assert_eq!(i2p::started(Err("gone".to_string())), Err("start i2pd (is i2pd installed?): gone".to_string()));
}

#[test]
fn the_overlay_is_waited_for_and_stopped() {
    assert_eq!(wait(&i2p::wait_ready(true, 0, 75 * SECOND)), "ready");
    assert_eq!(wait(&i2p::wait_ready(false, 75 * SECOND, 75 * SECOND)), "poll");
    assert_eq!(wait(&i2p::wait_ready(true, 76 * SECOND, 75 * SECOND)), "i2pd did not open its proxy within 75s");
    assert_eq!(
        shown(&i2p::stop(Some("99"))),
        vec![
            "? run kill 99",
            "? run pkill -u i2pd",
            "? pause 2000",
            "? run pkill -9 -u i2pd",
            "? remove /var/lib/anond/i2pd/i2pd.pid",
        ]
    );
    assert_eq!(i2p::proc_path(Some("0099\n")).as_deref(), Some("/proc/99"));
    assert_eq!(i2p::proc_path(Some("x")), None);
    assert!(i2p::running(Some("99"), true));
    assert!(!i2p::running(Some("99"), false));
    assert!(!i2p::running(None, true));
}

#[test]
fn a_site_of_the_overlay_loads_or_redirects() {
    assert!(i2p::eepsite_ok("200"));
    assert!(i2p::eepsite_ok("302"));
    assert!(!i2p::eepsite_ok("000"));
    assert!(!i2p::eepsite_ok("503"));
    assert!(!i2p::eepsite_ok(""));
    assert_eq!(
        line(&i2p::eepsite_probe()),
        "curl -s -o /dev/null -w %{http_code} --max-time 60 -x http://127.0.0.1:4444 http://i2p-projekt.i2p/"
    );
}
