//! The i2p overlay. It has no transparent port, so it is reached through the proxies of `i2pd`,
//! which egresses under its own user; the kill-switch exempts that user as it does Tor's.
use vstd::prelude::*;
use vstd::string::StringExecFns;

use crate::number::{
    dec, decimal, law_decimal_reads_back, lemma_decimal, parse_unsigned, unsigned_value,
};
use crate::plan::{
    Command, CommandView, Op, OpView, Step, StepView, attempt, cmd, command, run_op, steps,
    try_op, under, with_context,
};
use crate::reading::{blank, law_trim_finds_the_inside};
use crate::text::{Text, chars_of, is_digit, opt_text, trim, trimmed};
use crate::tor::{SECOND, Wait, WaitView, law_pid_in, opt_str, pid_in, read_pid};
use crate::util::STATE_DIR;

verus! {

pub const HTTP_PROXY: u16 = 4444;

pub const SOCKS_PROXY: u16 = 4447;

pub const CONSOLE: u16 = 7070;

pub open spec fn i2pd_directory() -> Text {
    STATE_DIR@ + "/i2pd"@
}

pub open spec fn i2pd_pid_file() -> Text {
    i2pd_directory() + "/i2pd.pid"@
}

pub open spec fn i2pd_log_file() -> Text {
    i2pd_directory() + "/i2pd.log"@
}

pub fn data_dir() -> (s: String)
    ensures
        s@ == i2pd_directory(),
{
    STATE_DIR.to_owned().concat("/i2pd")
}

pub fn pid_path() -> (s: String)
    ensures
        s@ == i2pd_pid_file(),
{
    self::data_dir().concat("/i2pd.pid")
}

pub fn log_path() -> (s: String)
    ensures
        s@ == i2pd_log_file(),
{
    self::data_dir().concat("/i2pd.log")
}

/// How `i2pd` is launched: as its own user, with every listener on loopback.
pub open spec fn i2pd_command() -> CommandView {
    cmd(
        "runuser"@,
        seq![
            "-u"@,
            "i2pd"@,
            "--"@,
            "i2pd"@,
            "--datadir="@ + i2pd_directory(),
            "--pidfile="@ + i2pd_pid_file(),
            "--log=file"@,
            "--logfile="@ + i2pd_log_file(),
            "--loglevel=warn"@,
            "--daemon"@,
            "--http.address=127.0.0.1"@,
            "--http.port="@ + decimal(CONSOLE as nat),
            "--httpproxy.address=127.0.0.1"@,
            "--httpproxy.port="@ + decimal(HTTP_PROXY as nat),
            "--socksproxy.address=127.0.0.1"@,
            "--socksproxy.port="@ + decimal(SOCKS_PROXY as nat),
            "--sam.enabled=false"@,
        ],
    )
}

/// What starting the overlay takes: steps that prepare it, and the command that launches it.
pub struct Launch {
    pub prepare: Vec<Step>,
    pub command: Command,
}

/// Starts the overlay. [`started`] tells what launching came to.
pub fn start() -> (r: Launch)
    ensures
        steps(r.prepare@) == seq![
            attempt(OpView::MakeDirs(i2pd_directory())),
            attempt(OpView::Run(cmd("chown"@, seq!["-R"@, "i2pd:i2pd"@, i2pd_directory()]))),
        ],
        r.command@ == i2pd_command(),
{
    let dir = self::data_dir();
    let mut prepare: Vec<Step> = Vec::new();
    prepare.push(try_op(Op::MakeDirs(self::data_dir())));
    prepare.push(try_op(run_op("chown", &["-R", "i2pd:i2pd", dir.as_str()])));
    assert(steps(prepare@) =~~= seq![
        attempt(OpView::MakeDirs(i2pd_directory())),
        attempt(OpView::Run(cmd("chown"@, seq!["-R"@, "i2pd:i2pd"@, i2pd_directory()]))),
    ]);
    let datadir = "--datadir=".to_owned().concat(dir.as_str());
    let pidfile = "--pidfile=".to_owned().concat(self::pid_path().as_str());
    let logfile = "--logfile=".to_owned().concat(self::log_path().as_str());
    let console = "--http.port=".to_owned().concat(dec(CONSOLE as u64).as_str());
    let http = "--httpproxy.port=".to_owned().concat(dec(HTTP_PROXY as u64).as_str());
    let socks = "--socksproxy.port=".to_owned().concat(dec(SOCKS_PROXY as u64).as_str());
    let command = command(
        "runuser",
        &[
            "-u",
            "i2pd",
            "--",
            "i2pd",
            datadir.as_str(),
            pidfile.as_str(),
            "--log=file",
            logfile.as_str(),
            "--loglevel=warn",
            "--daemon",
            "--http.address=127.0.0.1",
            console.as_str(),
            "--httpproxy.address=127.0.0.1",
            http.as_str(),
            "--socksproxy.address=127.0.0.1",
            socks.as_str(),
            "--sam.enabled=false",
        ],
    );
    assert(command@.args =~= i2pd_command().args);
    Launch { prepare, command }
}

/// What launching the overlay came to.
pub fn started(ran: Result<bool, String>) -> (r: Result<(), String>)
    ensures
        match ran {
            Err(cause) => r matches Err(e) && e@ == under(
                "start i2pd (is i2pd installed?)"@,
                cause@,
            ),
            Ok(true) => r is Ok,
            Ok(false) => r matches Err(e) && e@ == "i2pd failed to start"@,
        },
{
    match ran {
        Err(cause) => Err(with_context("start i2pd (is i2pd installed?)", cause.as_str())),
        Ok(success) => if success {
            Ok(())
        } else {
            Err("i2pd failed to start".to_owned())
        },
    }
}

/// What a look at an overlay that starts says: it is ready where its proxy accepts connections
/// within the time allowed.
pub open spec fn ready_decision(proxy_up: bool, elapsed: u128, timeout: u128) -> WaitView {
    if elapsed > timeout {
        WaitView::Failed(
            "i2pd did not open its proxy within "@ + decimal(timeout as nat / SECOND as nat) + "s"@,
        )
    } else if proxy_up {
        WaitView::Ready
    } else {
        WaitView::Poll
    }
}

/// Looks at an overlay that starts, given whether its proxy accepts connections. Times are in
/// nanoseconds.
pub fn wait_ready(proxy_up: bool, elapsed: u128, timeout: u128) -> (r: Wait)
    requires
        timeout / SECOND <= u64::MAX,
    ensures
        r@ == ready_decision(proxy_up, elapsed, timeout),
{
    if elapsed > timeout {
        let secs: u64 = (timeout / SECOND) as u64;
        Wait::Failed(
            "i2pd did not open its proxy within ".to_owned().concat(dec(secs).as_str()).concat("s"),
        )
    } else if proxy_up {
        Wait::Ready
    } else {
        Wait::Poll
    }
}

/// The plan that stops the overlay, given what its process id file holds: ask it to end, give it
/// time, and end what is left.
pub open spec fn stop_plan(contents: Option<Text>) -> Seq<StepView> {
    let kill = match pid_in(contents) {
        Some(pid) => seq![attempt(OpView::Run(cmd("kill"@, seq![pid])))],
        None => seq![],
    };
    kill + seq![
        attempt(OpView::Run(cmd("pkill"@, seq!["-u"@, "i2pd"@]))),
        attempt(OpView::Pause(2000)),
        attempt(OpView::Run(cmd("pkill"@, seq!["-9"@, "-u"@, "i2pd"@]))),
        attempt(OpView::Remove(i2pd_pid_file())),
    ]
}

/// Stops the overlay.
pub fn stop(contents: Option<&str>) -> (v: Vec<Step>)
    ensures
        steps(v@) == self::stop_plan(opt_str(contents)),
{
    let mut v: Vec<Step> = Vec::new();
    match read_pid(contents) {
        Some(pid) => {
            v.push(try_op(run_op("kill", &[pid.as_str()])));
        },
        None => {},
    }
    v.push(try_op(run_op("pkill", &["-u", "i2pd"])));
    v.push(try_op(Op::Pause(2000)));
    v.push(try_op(run_op("pkill", &["-9", "-u", "i2pd"])));
    v.push(try_op(Op::Remove(self::pid_path())));
    assert(steps(v@) =~~= self::stop_plan(opt_str(contents)));
    v
}

/// The process that a process id file names, as a number.
pub open spec fn pid_number(contents: Option<Text>) -> Option<nat> {
    match contents {
        Some(t) => unsigned_value(trimmed(t), u32::MAX as nat),
        None => None,
    }
}

/// The directory that the kernel keeps for the process in the overlay's process id file.
pub fn proc_path(contents: Option<&str>) -> (r: Option<String>)
    ensures
        opt_text(r) == match pid_number(opt_str(contents)) {
            Some(n) => Some("/proc/"@ + decimal(n)),
            None => None,
        },
{
    match contents {
        Some(t) => match parse_unsigned(trim(t).as_str(), u32::MAX as u64) {
            Some(n) => Some("/proc/".to_owned().concat(dec(n).as_str())),
            None => None,
        },
        None => None,
    }
}

/// Whether the overlay runs, given whether the directory of its process exists.
pub fn running(contents: Option<&str>, proc_exists: bool) -> (r: bool)
    ensures
        r == (pid_number(opt_str(contents)) is Some && proc_exists),
{
    proc_path(contents).is_some() && proc_exists
}

/// The command that loads a site of the overlay through the proxy and prints the status code.
pub fn eepsite_probe() -> (c: Command)
    ensures
        c@ == cmd(
            "curl"@,
            seq![
                "-s"@,
                "-o"@,
                "/dev/null"@,
                "-w"@,
                "%{http_code}"@,
                "--max-time"@,
                "60"@,
                "-x"@,
                "http://127.0.0.1:"@ + decimal(HTTP_PROXY as nat),
                "http://i2p-projekt.i2p/"@,
            ],
        ),
{
    let proxy = "http://127.0.0.1:".to_owned().concat(dec(HTTP_PROXY as u64).as_str());
    let c = command(
        "curl",
        &[
            "-s",
            "-o",
            "/dev/null",
            "-w",
            "%{http_code}",
            "--max-time",
            "60",
            "-x",
            proxy.as_str(),
            "http://i2p-projekt.i2p/",
        ],
    );
    assert(c@.args =~= seq![
        "-s"@,
        "-o"@,
        "/dev/null"@,
        "-w"@,
        "%{http_code}"@,
        "--max-time"@,
        "60"@,
        "-x"@,
        "http://127.0.0.1:"@ + decimal(HTTP_PROXY as nat),
        "http://i2p-projekt.i2p/"@,
    ]);
    c
}

/// Whether a status code says that the site loaded, or that it redirects.
pub fn eepsite_ok(code: &str) -> (r: bool)
    ensures
        r == (code@.len() > 0 && (code@[0] == '2' || code@[0] == '3')),
{
    let v = chars_of(code);
    v.len() > 0 && (v[0] == '2' || v[0] == '3')
}

/// The overlay is ready exactly where its proxy is up within the time; it has failed exactly where
/// the time is up, whatever the proxy does; and otherwise it is waited for.
pub proof fn law_the_overlay_is_waited_for(proxy_up: bool, elapsed: u128, timeout: u128)
    ensures
        ({
            let d = ready_decision(proxy_up, elapsed, timeout);
            &&& d is Ready <==> elapsed <= timeout && proxy_up
            &&& d is Poll <==> elapsed <= timeout && !proxy_up
            &&& d is Failed <==> elapsed > timeout
            &&& d matches WaitView::Failed(e) ==> e == "i2pd did not open its proxy within "@
                + decimal(timeout as nat / 1_000_000_000) + "s"@
        }),
{
}

/// Stopping the overlay asks the process that the file names, where it names one, and in any case
/// everything of its user; what is left two seconds later is ended, and the file goes last.
pub proof fn law_stopping_the_overlay_is_thorough(contents: Option<Text>)
    ensures
        ({
            let v = self::stop_plan(contents);
            let n = v.len() as int;
            let named = contents is Some && !blank(contents->0);
            &&& n == if named {
                5int
            } else {
                4
            }
            &&& named ==> v[0].op == OpView::Run(cmd("kill"@, seq![trimmed(contents->0)]))
            &&& v[n - 4].op == OpView::Run(cmd("pkill"@, seq!["-u"@, "i2pd"@]))
            &&& v[n - 3].op == OpView::Pause(2000)
            &&& v[n - 2].op == OpView::Run(cmd("pkill"@, seq!["-9"@, "-u"@, "i2pd"@]))
            &&& v[n - 1].op is Remove
        }),
{
    law_pid_in(contents);
}

/// A process id file names a process by the number in it, with or without white space around it.
pub proof fn law_the_pid_is_the_number(a: Text, n: u32, b: Text)
    requires
        blank(a),
        blank(b),
    ensures
        pid_number(Some(a + decimal(n as nat) + b)) == Some(n as nat),
        pid_number(None) is None,
{
    lemma_decimal(n as nat);
    let d = decimal(n as nat);
    assert(is_digit(d[0]) && is_digit(d[d.len() - 1]));
    law_trim_finds_the_inside(a, d, b);
    law_decimal_reads_back(n as nat, u32::MAX as nat);
}

} // verus!
