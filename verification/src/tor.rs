//! Tor supervision: its configuration, starting and stopping it, and waiting for a real bootstrap
//! before a session may count as active. A stalled Tor ends in an error, never in a leak.
use vstd::prelude::*;
use vstd::string::StringExecFns;

use crate::killswitch::{DNS_PORT, TRANS_PORT};
use crate::number::{dec, decimal, hex, hex_text, parse_unsigned, unsigned_value};
use crate::plan::{
    Op, OpView, Step, StepView, attempt, cmd, must_under, need_op_under, run_op, steps, try_op,
};
use crate::reading::{blank, lacks, law_lines, law_rest_after_last, law_trimmed};
use crate::text::{
    Text, after_last, before, carries, contains, index_of, lemma_index_of, line_texts, lines,
    occurs_at, opt_text, rest_after_last, same, split_char, texts, trim, trimmed,
};
use crate::util::{RUN_DIR, STATE_DIR, dirs_plan, ensure_dirs};

verus! {

pub open spec fn torrc_file() -> Text {
    RUN_DIR@ + "/torrc"@
}

pub open spec fn log_file() -> Text {
    STATE_DIR@ + "/tor.log"@
}

pub open spec fn pid_file() -> Text {
    RUN_DIR@ + "/tor.pid"@
}

pub open spec fn data_directory() -> Text {
    STATE_DIR@ + "/tor"@
}

pub fn torrc_path() -> (s: String)
    ensures
        s@ == torrc_file(),
{
    RUN_DIR.to_owned().concat("/torrc")
}

pub fn log_path() -> (s: String)
    ensures
        s@ == log_file(),
{
    STATE_DIR.to_owned().concat("/tor.log")
}

pub fn pid_path() -> (s: String)
    ensures
        s@ == pid_file(),
{
    RUN_DIR.to_owned().concat("/tor.pid")
}

pub fn data_dir() -> (s: String)
    ensures
        s@ == data_directory(),
{
    STATE_DIR.to_owned().concat("/tor")
}

/// Where Tor leaves the cookie that the control port asks for.
pub fn cookie_path() -> (s: String)
    ensures
        s@ == data_directory() + "/control_auth_cookie"@,
{
    data_dir().concat("/control_auth_cookie")
}

/// The configuration of Tor: its own user, transparent, DNS and SOCKS ports, isolated streams, and
/// no IPv6.
pub open spec fn torrc_text() -> Text {
    "User tor\nDataDirectory "@ + data_directory() + "\nPidFile "@ + pid_file()
        + "\nLog notice file "@ + log_file()
        + "\nRunAsDaemon 1\nSocksPort 9050 IsolateDestAddr IsolateDestPort\nTransPort "@ + decimal(
        TRANS_PORT as nat,
    ) + "\nDNSPort "@ + decimal(DNS_PORT as nat)
        + "\nControlPort 9051\nCookieAuthentication 1\nAutomapHostsOnResolve 1\nVirtualAddrNetworkIPv4 10.192.0.0/10\nClientUseIPv6 0\nClientPreferIPv6ORPort 0\nAvoidDiskWrites 1\n"@
}

/// The configuration of Tor.
pub fn torrc() -> (s: String)
    ensures
        s@ == torrc_text(),
{
    "User tor\nDataDirectory ".to_owned().concat(data_dir().as_str()).concat("\nPidFile ").concat(
        pid_path().as_str(),
    ).concat("\nLog notice file ").concat(log_path().as_str()).concat(
        "\nRunAsDaemon 1\nSocksPort 9050 IsolateDestAddr IsolateDestPort\nTransPort ",
    ).concat(dec(TRANS_PORT as u64).as_str()).concat("\nDNSPort ").concat(
        dec(DNS_PORT as u64).as_str(),
    ).concat(
        "\nControlPort 9051\nCookieAuthentication 1\nAutomapHostsOnResolve 1\nVirtualAddrNetworkIPv4 10.192.0.0/10\nClientUseIPv6 0\nClientPreferIPv6ORPort 0\nAvoidDiskWrites 1\n",
    )
}

/// The plan that writes Tor's configuration and gives Tor's user what Tor writes to.
pub open spec fn torrc_plan() -> Seq<StepView> {
    dirs_plan() + seq![
        attempt(OpView::MakeDirs(data_directory())),
        attempt(OpView::Run(cmd("chown"@, seq!["-R"@, "tor:tor"@, data_directory()]))),
        attempt(OpView::Run(cmd("chown"@, seq!["tor:tor"@, RUN_DIR@]))),
        attempt(OpView::Write(log_file(), ""@)),
        attempt(OpView::Run(cmd("chown"@, seq!["tor:tor"@, log_file()]))),
        must_under(OpView::Write(torrc_file(), torrc_text()), "write torrc"@),
    ]
}

/// Writes Tor's configuration.
pub fn write_torrc() -> (v: Vec<Step>)
    ensures
        steps(v@) == torrc_plan(),
{
    let mut v = ensure_dirs();
    let ghost before = v@;
    let data = data_dir();
    let log = log_path();
    v.push(try_op(Op::MakeDirs(data_dir())));
    v.push(try_op(run_op("chown", &["-R", "tor:tor", data.as_str()])));
    v.push(try_op(run_op("chown", &["tor:tor", RUN_DIR])));
    v.push(try_op(Op::Write(log_path(), "".to_owned())));
    v.push(try_op(run_op("chown", &["tor:tor", log.as_str()])));
    v.push(need_op_under(Op::Write(torrc_path(), torrc()), "write torrc"));
    assert(forall|i: int| 0 <= i < before.len() ==> steps(v@)[i] == steps(before)[i]);
    assert(steps(v@) =~~= torrc_plan());
    v
}

/// The plan that launches Tor with the configuration that is there, on an empty log.
pub open spec fn launch_plan() -> Seq<StepView> {
    seq![
        attempt(OpView::Write(log_file(), ""@)),
        must_under(
            OpView::Run(cmd("tor"@, seq!["-f"@, torrc_file()])),
            "start tor (is tor installed?)"@,
        ),
    ]
}

/// Launches Tor with the configuration that is there. The log is emptied first, so that what is
/// read of it belongs to this attempt.
pub fn start_inner() -> (v: Vec<Step>)
    ensures
        steps(v@) == launch_plan(),
{
    let rc = torrc_path();
    let mut v: Vec<Step> = Vec::new();
    v.push(try_op(Op::Write(log_path(), "".to_owned())));
    v.push(need_op_under(run_op("tor", &["-f", rc.as_str()]), "start tor (is tor installed?)"));
    assert(steps(v@) =~~= launch_plan());
    v
}

/// One plan after another.
pub fn followed_by(a: Vec<Step>, b: Vec<Step>) -> (v: Vec<Step>)
    ensures
        steps(v@) == steps(a@) + steps(b@),
{
    let mut v = a;
    let mut w = b;
    v.append(&mut w);
    assert(v@ =~= a@ + b@);
    assert(steps(v@) =~= steps(a@) + steps(b@));
    v
}

/// Starts Tor.
pub fn start() -> (v: Vec<Step>)
    ensures
        steps(v@) == torrc_plan() + seq![attempt(OpView::Write(log_file(), ""@))] + launch_plan(),
{
    let mut v = write_torrc();
    let ghost before = v@;
    v.push(try_op(Op::Write(log_path(), "".to_owned())));
    assert(steps(v@) =~= steps(before) + seq![attempt(OpView::Write(log_file(), ""@))]);
    followed_by(v, start_inner())
}

/// The percentage that a log gives last; zero where it gives none.
pub open spec fn pct_of(log: Text) -> u8 {
    match rest_after_last(log, "Bootstrapped "@) {
        Some(rest) => match unsigned_value(
            trimmed(rest.take(index_of(rest, '%') as int)),
            u8::MAX as nat,
        ) {
            Some(n) => n as u8,
            None => 0,
        },
        None => 0,
    }
}

/// The latest bootstrap percentage in Tor's log.
pub fn bootstrap_pct(log: &str) -> (pct: u8)
    ensures
        pct == pct_of(log@),
{
    match after_last(log, "Bootstrapped ") {
        Some(rest) => {
            let parts = split_char(rest.as_str(), '%');
            assert(texts(parts@)[0] == parts@[0]@);
            proof {
                lemma_index_of(rest@, '%');
                assert(rest@.take(rest@.len() as int) =~= rest@);
            }
            match parse_unsigned(trim(parts[0].as_str()).as_str(), u8::MAX as u64) {
                Some(n) => n as u8,
                None => 0,
            }
        },
        None => 0,
    }
}

/// The most restarts of a Tor that dies while it bootstraps.
pub const MAX_RESTARTS: u32 = 4;

/// How long a Tor that was just started may look dead, in nanoseconds.
pub const GRACE: u128 = 3_000_000_000;

pub const SECOND: u128 = 1_000_000_000;

/// What to do while Tor bootstraps.
pub enum Wait {
    /// Tor is bootstrapped.
    Ready,
    /// Give up, and stay blocked.
    Failed(String),
    /// Stop Tor and launch it again.
    Restart,
    /// Look again a little later.
    Poll,
}

/// The model of a [`Wait`].
#[verifier::ext_equal]
pub enum WaitView {
    Ready,
    Failed(Text),
    Restart,
    Poll,
}

impl View for Wait {
    type V = WaitView;

    open spec fn view(&self) -> WaitView {
        match self {
            Wait::Ready => WaitView::Ready,
            Wait::Failed(e) => WaitView::Failed(e@),
            Wait::Restart => WaitView::Restart,
            Wait::Poll => WaitView::Poll,
        }
    }
}

/// What a look at Tor says: its log, whether it runs, how long it has been waited for and how
/// often it was restarted.
pub open spec fn wait_decision(
    restarts: u32,
    log: Text,
    running: bool,
    elapsed: u128,
    timeout: u128,
) -> WaitView {
    if carries(log, "Bootstrapped 100%"@) {
        WaitView::Ready
    } else if carries(log, "[err]"@) {
        WaitView::Failed("tor reported an error during bootstrap (see "@ + log_file() + ")"@)
    } else if carries(log, "Caught signal"@) || (!running && elapsed > GRACE) {
        if restarts >= MAX_RESTARTS {
            WaitView::Failed(
                "tor died repeatedly during bootstrap ("@ + decimal(restarts as nat)
                    + " restarts; see "@ + log_file() + "). Staying blocked."@,
            )
        } else {
            WaitView::Restart
        }
    } else if elapsed > timeout {
        WaitView::Failed(
            "tor bootstrap timed out after "@ + decimal(timeout as nat / SECOND as nat)
                + "s (staying blocked)"@,
        )
    } else {
        WaitView::Poll
    }
}

/// How often Tor has been restarted after a look.
pub open spec fn restarts_after(restarts: u32, d: WaitView) -> u32 {
    if d is Restart {
        (restarts + 1) as u32
    } else {
        restarts
    }
}

/// Looks at a Tor that bootstraps: the percentage to show, and what to do next. Times are in
/// nanoseconds; `restarts` counts the restarts so far.
pub fn wait_bootstrap_with(
    restarts: &mut u32,
    log: &str,
    running: bool,
    elapsed: u128,
    timeout: u128,
) -> (r: (u8, Wait))
    requires
        timeout / SECOND <= u64::MAX,
    ensures
        r.0 == pct_of(log@),
        r.1@ == wait_decision(*old(restarts), log@, running, elapsed, timeout),
        *final(restarts) == restarts_after(*old(restarts), r.1@),
{
    (bootstrap_pct(log), wait_bootstrap(restarts, log, running, elapsed, timeout))
}

/// Looks at a Tor that bootstraps, where no progress is to be shown.
pub fn wait_bootstrap(
    restarts: &mut u32,
    log: &str,
    running: bool,
    elapsed: u128,
    timeout: u128,
) -> (r: Wait)
    requires
        timeout / SECOND <= u64::MAX,
    ensures
        r@ == wait_decision(*old(restarts), log@, running, elapsed, timeout),
        *final(restarts) == restarts_after(*old(restarts), r@),
        running && elapsed <= timeout && !carries(log@, "[err]"@) && !carries(
            log@,
            "Caught signal"@,
        ) ==> !(r is Failed),
{
    proof {
        law_what_ends_the_wait(*old(restarts), log@, running, elapsed, timeout);
        reveal_strlit("Bootstrapped 100%");
        reveal_strlit("[err]");
        reveal_strlit("Caught signal");
    }
    if contains(log, "Bootstrapped 100%") {
        return Wait::Ready;
    }
    if contains(log, "[err]") {
        return Wait::Failed(
            "tor reported an error during bootstrap (see ".to_owned().concat(
                log_path().as_str(),
            ).concat(")"),
        );
    }
    let signaled = contains(log, "Caught signal");
    let dead = !running && elapsed > GRACE;
    if signaled || dead {
        if *restarts >= MAX_RESTARTS {
            return Wait::Failed(
                "tor died repeatedly during bootstrap (".to_owned().concat(
                    dec(*restarts as u64).as_str(),
                ).concat(" restarts; see ").concat(log_path().as_str()).concat(
                    "). Staying blocked.",
                ),
            );
        }
        *restarts = *restarts + 1;
        return Wait::Restart;
    }
    if elapsed > timeout {
        let secs: u64 = (timeout / SECOND) as u64;
        return Wait::Failed(
            "tor bootstrap timed out after ".to_owned().concat(dec(secs).as_str()).concat(
                "s (staying blocked)",
            ),
        );
    }
    Wait::Poll
}

/// One look at Tor.
pub struct Look {
    pub log: Text,
    pub running: bool,
    pub elapsed: u128,
}

/// The decisions that a series of looks leads to, and the restarts that it ends with.
pub open spec fn decisions(restarts: u32, looks: Seq<Look>, timeout: u128) -> (Seq<WaitView>, u32)
    decreases looks.len(),
{
    if looks.len() == 0 {
        (seq![], restarts)
    } else {
        let (before, count) = decisions(restarts, looks.drop_last(), timeout);
        let l = looks.last();
        let d = wait_decision(count, l.log, l.running, l.elapsed, timeout);
        (before.push(d), restarts_after(count, d))
    }
}

/// How many of a series of decisions are restarts.
pub open spec fn restart_count(v: Seq<WaitView>) -> nat
    decreases v.len(),
{
    if v.len() == 0 {
        0
    } else if v.last() is Restart {
        restart_count(v.drop_last()) + 1
    } else {
        restart_count(v.drop_last())
    }
}

/// Restarting is bounded: whatever is seen of Tor, and however often, a wait restarts it no more
/// than the bound allows.
pub proof fn law_restarts_are_bounded(looks: Seq<Look>, timeout: u128)
    ensures
        restart_count(decisions(0, looks, timeout).0) <= MAX_RESTARTS,
        restart_count(decisions(0, looks, timeout).0) == decisions(0, looks, timeout).1,
    decreases looks.len(),
{
    if looks.len() > 0 {
        law_restarts_are_bounded(looks.drop_last(), timeout);
        let (before, count) = decisions(0, looks.drop_last(), timeout);
        let l = looks.last();
        let d = wait_decision(count, l.log, l.running, l.elapsed, timeout);
        assert(before.push(d).drop_last() =~= before);
    } else {
        assert(restart_count(seq![]) == 0);
    }
}

/// Waiting fails closed: it ends well only on a full bootstrap, and past the timeout it does not go
/// on but for a restart that is left.
pub proof fn law_waiting_fails_closed(
    restarts: u32,
    log: Text,
    running: bool,
    elapsed: u128,
    timeout: u128,
)
    ensures
        ({
            let d = wait_decision(restarts, log, running, elapsed, timeout);
            &&& d is Ready <==> carries(log, "Bootstrapped 100%"@)
            &&& d is Poll ==> elapsed <= timeout
            &&& elapsed > timeout && restarts >= MAX_RESTARTS ==> d is Ready || d is Failed
        }),
{
}

/// What a process id file holds, where it holds something.
pub open spec fn pid_in(contents: Option<Text>) -> Option<Text> {
    match contents {
        Some(t) => if trimmed(t).len() > 0 {
            Some(trimmed(t))
        } else {
            None
        },
        None => None,
    }
}

pub open spec fn opt_str(o: Option<&str>) -> Option<Text> {
    match o {
        Some(s) => Some(s@),
        None => None,
    }
}

/// Reads a process id file.
pub fn read_pid(contents: Option<&str>) -> (r: Option<String>)
    ensures
        opt_text(r) == pid_in(opt_str(contents)),
{
    match contents {
        Some(t) => {
            let p = trim(t);
            if p.as_str().is_empty() {
                None
            } else {
                Some(p)
            }
        },
        None => None,
    }
}

/// The plan that stops Tor, given what its process id file holds.
pub open spec fn stop_plan(contents: Option<Text>) -> Seq<StepView> {
    let kill = match pid_in(contents) {
        Some(pid) => seq![attempt(OpView::Run(cmd("kill"@, seq![pid])))],
        None => seq![],
    };
    kill + seq![
        attempt(OpView::Run(cmd("pkill"@, seq!["-f"@, torrc_file()]))),
        attempt(OpView::Remove(pid_file())),
    ]
}

/// Stops Tor.
pub fn stop(contents: Option<&str>) -> (v: Vec<Step>)
    ensures
        steps(v@) == stop_plan(opt_str(contents)),
{
    let rc = torrc_path();
    let mut v: Vec<Step> = Vec::new();
    match read_pid(contents) {
        Some(pid) => {
            v.push(try_op(run_op("kill", &[pid.as_str()])));
        },
        None => {},
    }
    v.push(try_op(run_op("pkill", &["-f", rc.as_str()])));
    v.push(try_op(Op::Remove(pid_path())));
    assert(steps(v@) =~~= stop_plan(opt_str(contents)));
    v
}

/// The plan that replaces a Tor that died: stop what is left of it, wait, launch it again, and
/// give it time before it is looked at.
pub open spec fn restart_plan(contents: Option<Text>) -> Seq<StepView> {
    stop_plan(contents) + seq![attempt(OpView::Pause(500))] + launch_plan() + seq![
        attempt(OpView::Pause(2000)),
    ]
}

/// Replaces a Tor that died.
pub fn restart(contents: Option<&str>) -> (v: Vec<Step>)
    ensures
        steps(v@) == restart_plan(opt_str(contents)),
{
    let mut a = stop(contents);
    let ghost a0 = a@;
    a.push(try_op(Op::Pause(500)));
    assert(steps(a@) =~= steps(a0) + seq![attempt(OpView::Pause(500))]);
    let mut b = followed_by(a, start_inner());
    let ghost b0 = b@;
    b.push(try_op(Op::Pause(2000)));
    assert(steps(b@) =~= steps(b0) + seq![attempt(OpView::Pause(2000))]);
    b
}

/// What is sent to the control port to ask for a fresh circuit.
pub fn newnym_request(cookie: &[u8]) -> (s: String)
    ensures
        s@ == "AUTHENTICATE "@ + hex_text(cookie@) + "\r\nSIGNAL NEWNYM\r\nQUIT\r\n"@,
{
    "AUTHENTICATE ".to_owned().concat(hex(cookie).as_str()).concat(
        "\r\nSIGNAL NEWNYM\r\nQUIT\r\n",
    )
}

/// The first line of a text, without the white space around it; nothing where there is no line.
pub open spec fn first_line(s: Text) -> Text {
    if line_texts(s).len() > 0 {
        trimmed(line_texts(s)[0])
    } else {
        trimmed(""@)
    }
}

/// What the control port made of the request for a fresh circuit.
pub fn new_identity(response: &str) -> (r: Result<(), String>)
    ensures
        (r is Ok) == carries(response@, "250 OK"@),
        r matches Err(e) ==> e@ == "tor refused NEWNYM: "@ + first_line(response@),
{
    proof {
        reveal_strlit("250 OK");
    }
    if contains(response, "250 OK") {
        Ok(())
    } else {
        let all = lines(response);
        assert(texts(all@).len() == all@.len());
        let line = if all.len() > 0 {
            assert(texts(all@)[0] == all@[0]@);
            trim(all[0].as_str())
        } else {
            trim("")
        };
        Err("tor refused NEWNYM: ".to_owned().concat(line.as_str()))
    }
}

/// The file that names the program of the process in Tor's process id file.
pub fn comm_path(contents: Option<&str>) -> (r: Option<String>)
    ensures
        opt_text(r) == match pid_in(opt_str(contents)) {
            Some(pid) => Some("/proc/"@ + pid + "/comm"@),
            None => None,
        },
{
    match read_pid(contents) {
        Some(pid) => Some("/proc/".to_owned().concat(pid.as_str()).concat("/comm")),
        None => None,
    }
}

/// Whether Tor runs: its process id file names a process, and that process is called `tor`.
pub fn running(contents: Option<&str>, comm: Option<&str>) -> (r: bool)
    ensures
        r == (pid_in(opt_str(contents)) is Some && (opt_str(comm) matches Some(c) && trimmed(c)
            == "tor"@)),
{
    match read_pid(contents) {
        Some(_) => match comm {
            Some(c) => same(trim(c).as_str(), "tor"),
            None => false,
        },
        None => false,
    }
}

/// What a look leads to, for every log, state of the process and time. A full bootstrap is the only
/// success. Short of it the wait is given up only where the log carries an error, where Tor has died
/// and no restart is left, or where the time is up; a Tor that died with a restart left is
/// restarted; and in every other case the wait goes on, whatever else the log says.
pub proof fn law_what_ends_the_wait(
    restarts: u32,
    log: Text,
    running: bool,
    elapsed: u128,
    timeout: u128,
)
    ensures
        ({
            let d = wait_decision(restarts, log, running, elapsed, timeout);
            let full = carries(log, "Bootstrapped 100%"@);
            let error = carries(log, "[err]"@);
            let died = carries(log, "Caught signal"@) || !running && elapsed > 3_000_000_000;
            &&& d is Ready <==> full
            &&& d is Failed <==> !full && (error || died && restarts >= 4 || !died && elapsed
                > timeout)
            &&& d is Restart <==> !full && !error && died && restarts < 4
            &&& d is Poll <==> !full && !error && !died && elapsed <= timeout
            &&& running && elapsed <= timeout && !full && !error && !carries(log, "Caught signal"@)
                ==> d is Poll
        }),
{
}

/// Why a wait was given up, in words: the error in the log, the deaths, or the time that passed.
pub proof fn law_why_the_wait_ended(
    restarts: u32,
    log: Text,
    running: bool,
    elapsed: u128,
    timeout: u128,
)
    ensures
        wait_decision(restarts, log, running, elapsed, timeout) matches WaitView::Failed(e) ==> {
            let died = carries(log, "Caught signal"@) || !running && elapsed > 3_000_000_000;
            if carries(log, "[err]"@) {
                e == "tor reported an error during bootstrap (see "@ + ("/var/lib/anond"@
                    + "/tor.log"@) + ")"@
            } else if died {
                e == "tor died repeatedly during bootstrap ("@ + decimal(restarts as nat)
                    + " restarts; see "@ + ("/var/lib/anond"@ + "/tor.log"@)
                    + "). Staying blocked."@
            } else {
                e == "tor bootstrap timed out after "@ + decimal(timeout as nat / 1_000_000_000)
                    + "s (staying blocked)"@
            }
        },
{
}

/// The percentage is the number between the last mention of the bootstrap and the percent sign
/// behind it.
pub proof fn law_the_last_percentage_counts(a: Text, x: Text, b: Text)
    requires
        lacks(x, '%'),
        forall|j: int|
            a.len() < j ==> !#[trigger] occurs_at(
                a + "Bootstrapped "@ + (x + seq!['%'] + b),
                "Bootstrapped "@,
                j,
            ),
    ensures
        pct_of(a + "Bootstrapped "@ + (x + seq!['%'] + b)) as int == match unsigned_value(
            trimmed(x),
            255,
        ) {
            Some(n) => n as int,
            None => 0,
        },
{
    let m = "Bootstrapped "@;
    let rest = x + seq!['%'] + b;
    let log = a + m + rest;
    assert(log.subrange(a.len() as int, (a.len() + m.len()) as int) =~= m);
    assert(occurs_at(log, m, a.len() as int));
    law_rest_after_last(log, m, a.len() as int);
    assert(log.skip((a.len() + m.len()) as int) =~= rest);
    lemma_index_of(rest, '%');
    let k = index_of(rest, '%') as int;
    assert(rest[x.len() as int] == '%');
    if k < x.len() {
        assert(rest[k] == x[k]);
    }
    assert(rest.take(k) =~= x);
}

/// A log that does not mention the bootstrap stands at zero.
pub proof fn law_no_percentage_is_zero(log: Text)
    requires
        !carries(log, "Bootstrapped "@),
    ensures
        pct_of(log) == 0,
{
    law_rest_after_last(log, "Bootstrapped "@, 0);
}

/// A process id file names a process exactly where it is there and not blank, and the name is what
/// stands between the white space.
pub proof fn law_pid_in(contents: Option<Text>)
    ensures
        pid_in(contents) is Some <==> contents is Some && !blank(contents->0),
        pid_in(contents) matches Some(p) ==> p == trimmed(contents->0),
{
    if contents is Some {
        law_trimmed(contents->0);
    }
}

/// Stopping Tor ends the process that the process id file names, where it names one, and in any
/// case everything that runs with its configuration; the file is removed last.
pub proof fn law_stopping_is_thorough(contents: Option<Text>)
    ensures
        ({
            let v = stop_plan(contents);
            let n = v.len() as int;
            let sweep = cmd("pkill"@, seq!["-f"@, "/run/anond"@ + "/torrc"@]);
            &&& n == if contents is Some && !blank(contents->0) {
                3int
            } else {
                2
            }
            &&& contents is Some && !blank(contents->0) ==> v[0].op == OpView::Run(
                cmd("kill"@, seq![trimmed(contents->0)]),
            )
            &&& v[n - 2].op == OpView::Run(sweep)
            &&& v[n - 1].op == OpView::Remove("/run/anond"@ + "/tor.pid"@)
        }),
{
    law_pid_in(contents);
}

/// The first line of a text is what stands before its first line feed, without the white space
/// around it, even where that is nothing; a text without a line feed is its own first line.
pub proof fn law_first_line(a: Text, b: Text)
    requires
        lacks(a, '\n'),
    ensures
        first_line(a) == trimmed(a),
        first_line(a + seq!['\n'] + b) == if a.len() > 0 && a.last() == '\r' {
            trimmed(a.drop_last())
        } else {
            trimmed(a)
        },
{
    law_lines(a, b);
    if a.len() == 0 {
        reveal_strlit("");
        assert(a =~= ""@);
    }
}

/// Where the percent sign is missing, the percentage is the number that the log ends with.
pub proof fn law_a_percentage_without_its_sign(a: Text, x: Text)
    requires
        lacks(x, '%'),
        forall|j: int|
            a.len() < j ==> !#[trigger] occurs_at(a + "Bootstrapped "@ + x, "Bootstrapped "@, j),
    ensures
        pct_of(a + "Bootstrapped "@ + x) as int == match unsigned_value(trimmed(x), 255) {
            Some(n) => n as int,
            None => 0,
        },
{
    let m = "Bootstrapped "@;
    let log = a + m + x;
    assert(log.subrange(a.len() as int, (a.len() + m.len()) as int) =~= m);
    assert(occurs_at(log, m, a.len() as int));
    law_rest_after_last(log, m, a.len() as int);
    assert(log.skip((a.len() + m.len()) as int) =~= x);
    lemma_index_of(x, '%');
    assert(x.take(x.len() as int) =~= x);
}

/// Replacing a Tor that died stops what is left of it first, then launches it on an empty log, with
/// half a second between the two and two seconds before it is looked at.
pub proof fn law_replacing_tor(contents: Option<Text>)
    ensures
        ({
            let v = restart_plan(contents);
            let n = stop_plan(contents).len() as int;
            &&& v.len() == n + 4
            &&& forall|i: int| 0 <= i < n ==> #[trigger] v[i] == stop_plan(contents)[i]
            &&& v[n].op == OpView::Pause(500)
            &&& v[n + 1].op == OpView::Write("/var/lib/anond"@ + "/tor.log"@, ""@)
            &&& v[n + 2].op == OpView::Run(cmd("tor"@, seq!["-f"@, "/run/anond"@ + "/torrc"@]))
            &&& v[n + 2].need is Under
            &&& v[n + 3].op == OpView::Pause(2000)
        }),
{
}

} // verus!
