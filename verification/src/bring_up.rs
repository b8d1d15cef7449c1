//! Bringing a session up, one action on the host at a time. Nothing may leave before the session is
//! proven anonymous, so the kill-switch is armed before anything else is done, and no failure after
//! that takes it down.
//!
//! [`Up`] is how far a bring-up has got. [`up`] takes the reply to the last action and gives the
//! next one. A reply that is no answer to the last action counts as a failure of it.
use vstd::prelude::*;
use vstd::string::StringExecFns;

use crate::{dns, harden, i2p, killswitch, tor, verify};

use crate::anond::{
    Health, Layers, condition, health, is_tunnel, listed, lists, publish_plan, vpn_layer_present,
    write_pub,
};
use crate::dns::{is_genuine, pin_plan};
use crate::harden::{
    Ask, AskView, Hardening, HardeningView, Seen, SeenView, apply_step, begin, begin_view,
    well_formed,
};
use crate::i2p::{i2pd_command, i2pd_directory, ready_decision, started, wait_ready};
use crate::killswitch::{flush_warning, rearm_plan, up_plan};
use crate::plan::{
    Command, CommandView, Op, OpView, Step, StepView, attempt, cmd, command,
    result_text, steps, try_op, under,
};
use crate::state::{Session, SessionView, State, fresh_session};
use crate::text::{Text, opt_text, texts, word_after, words};
use crate::tor::{
    Wait, WaitView, launch_plan, log_file, pct_of, restart_plan, restarts_after, torrc_plan,
    wait_bootstrap_with, wait_decision,
};
use crate::util::{caught, require_root, uid_of, uid_text, uid_value};
use crate::verify::{
    Overlay, Verify, VerifyView, all_pass, exit_check, exit_probe, report, report_lines, says_ip,
    says_tor,
};

verus! {

/// How long Tor may take to bootstrap, in nanoseconds.
pub const TOR_TIMEOUT: u128 = 300_000_000_000;

/// How long the overlay may take to open its proxy, in nanoseconds.
pub const I2P_TIMEOUT: u128 = 75_000_000_000;

/// Between two looks at what starts, in milliseconds.
pub const LOOK_PAUSE: u64 = 500;

/// What a bring-up waits for.
#[derive(Clone, Copy, PartialEq, Eq, Structural)]
pub enum UpStage {
    Root,
    Facts,
    // a session that is active already
    Overlay,
    AttachTor,
    AttachI2p,
    Rearm,
    AttachPrepare,
    AttachLaunch,
    AttachWait,
    Tighten,
    AttachCheck,
    AttachLoad,
    AttachSave,
    AttachProbe,
    AttachPublish,
    // a new session, before the kill-switch is armed
    Route,
    Advise,
    TorUid,
    Clock,
    I2pUid,
    Arm,
    // a new session, behind the kill-switch
    Flush,
    Flushed,
    SaveLocked,
    Harden,
    SaveHardened,
    Resolv,
    Pin,
    SavePinned,
    SaveBootstrapping,
    StartTor,
    Await,
    RestartPid,
    Restart,
    I2pPrepare,
    I2pLaunch,
    I2pWait,
    Probe,
    SaveActive,
    PublishActive,
    SaveFailed,
    PublishFailed,
    Done,
}

/// How far a bring-up has got.
pub struct Up {
    pub stage: UpStage,
    /// Hardware addresses are to be changed.
    pub mac: bool,
    /// The i2p overlay is wanted.
    pub want_i2p: bool,
    /// A missing layer in front of Tor is to be pointed out.
    pub advise: bool,
    pub tor_uid: u32,
    pub i2pd_uid: u32,
    /// The session, once the user of Tor is known.
    pub sess: Session,
    pub hardening: Hardening,
    /// How often Tor was restarted.
    pub restarts: u32,
    /// The percentage that was shown last.
    pub last_pct: u8,
    /// The overlay ran after it was attached.
    pub attached: bool,
    /// The error that the bring-up ends with.
    pub failure: String,
    pub exit_ip: String,
}

/// The model of an [`Up`].
#[verifier::ext_equal]
pub struct UpView {
    pub stage: UpStage,
    pub mac: bool,
    pub want_i2p: bool,
    pub advise: bool,
    pub tor_uid: u32,
    pub i2pd_uid: u32,
    pub sess: SessionView,
    pub hardening: HardeningView,
    pub restarts: u32,
    pub last_pct: u8,
    pub attached: bool,
    pub failure: Text,
    pub exit_ip: Text,
}

impl View for Up {
    type V = UpView;

    open spec fn view(&self) -> UpView {
        UpView {
            stage: self.stage,
            mac: self.mac,
            want_i2p: self.want_i2p,
            advise: self.advise,
            tor_uid: self.tor_uid,
            i2pd_uid: self.i2pd_uid,
            sess: self.sess@,
            hardening: self.hardening@,
            restarts: self.restarts,
            last_pct: self.last_pct,
            attached: self.attached,
            failure: self.failure@,
            exit_ip: self.exit_ip@,
        }
    }
}

/// An action on the host.
pub enum Act {
    /// Tell the effective user.
    Euid,
    /// Tell what the record of the session claims, whether Tor runs and whether the kill-switch is
    /// installed.
    Facts,
    /// Tell whether the overlay runs.
    I2pRunning,
    /// Tell what `id -u` says of a user.
    Id(String),
    /// Tell the seconds since the epoch.
    Clock,
    /// Tell what a command prints, without the white space around it.
    Out(Command),
    /// Run a command.
    Run(Command),
    /// Run a command with its output discarded.
    Quiet(Command),
    /// Carry out a plan.
    Plan(Vec<Step>),
    /// Put a question of hardening to the host.
    Harden(Ask),
    /// Tell what the resolver configuration holds.
    Resolv,
    /// Keep the session on disk.
    Save,
    /// Read the session that is kept on disk.
    Load,
    /// Start to count the time, and look at Tor.
    AwaitTor,
    /// Wait for a number of milliseconds, and look at Tor.
    LookTor(u64),
    /// Tell what Tor's process id file holds.
    TorPid,
    /// Tell what the overlay's process id file holds.
    I2pPid,
    /// Start to count the time, and try the overlay's proxy.
    AwaitProxy,
    /// Wait for a number of milliseconds, and try the overlay's proxy.
    LookProxy(u64),
    /// Run the probes.
    Probe,
    /// Publish a state and an exit address.
    Publish(String, String),
    /// The bring-up has ended.
    End(Result<(), String>),
    /// There is nothing left to do.
    Nothing,
}

/// The model of an [`Act`].
#[verifier::ext_equal]
pub enum ActView {
    Euid,
    Facts,
    I2pRunning,
    Id(Text),
    Clock,
    Out(CommandView),
    Run(CommandView),
    Quiet(CommandView),
    Plan(Seq<StepView>),
    Harden(AskView),
    Resolv,
    Save,
    Load,
    AwaitTor,
    LookTor(u64),
    TorPid,
    I2pPid,
    AwaitProxy,
    LookProxy(u64),
    Probe,
    Publish(Text, Text),
    End(Result<(), Text>),
    Nothing,
}

impl View for Act {
    type V = ActView;

    open spec fn view(&self) -> ActView {
        match self {
            Act::Euid => ActView::Euid,
            Act::Facts => ActView::Facts,
            Act::I2pRunning => ActView::I2pRunning,
            Act::Id(user) => ActView::Id(user@),
            Act::Clock => ActView::Clock,
            Act::Out(c) => ActView::Out(c@),
            Act::Run(c) => ActView::Run(c@),
            Act::Quiet(c) => ActView::Quiet(c@),
            Act::Plan(v) => ActView::Plan(steps(v@)),
            Act::Harden(a) => ActView::Harden(a@),
            Act::Resolv => ActView::Resolv,
            Act::Save => ActView::Save,
            Act::Load => ActView::Load,
            Act::AwaitTor => ActView::AwaitTor,
            Act::LookTor(ms) => ActView::LookTor(*ms),
            Act::TorPid => ActView::TorPid,
            Act::I2pPid => ActView::I2pPid,
            Act::AwaitProxy => ActView::AwaitProxy,
            Act::LookProxy(ms) => ActView::LookProxy(*ms),
            Act::Probe => ActView::Probe,
            Act::Publish(state, ip) => ActView::Publish(state@, ip@),
            Act::End(r) => ActView::End(result_text(*r)),
            Act::Nothing => ActView::Nothing,
        }
    }
}

/// The plan that publishes what an action says: the state and the exit address, of a session that
/// does not leak.
pub open spec fn publication_plan(act: ActView, up: Layers) -> Seq<StepView> {
    match act {
        ActView::Publish(state, ip) => publish_plan(state, ip, false, 0, up),
        _ => seq![],
    }
}

/// Publishes what an action says.
pub fn publication(act: &Act, up: Layers) -> (v: Vec<Step>)
    ensures
        steps(v@) == publication_plan(act@, up),
{
    match act {
        Act::Publish(state, ip) => write_pub(state.as_str(), ip.as_str(), false, up),
        _ => {
            let v: Vec<Step> = Vec::new();
            assert(steps(v@) =~= seq![]);
            v
        },
    }
}

/// One turn of a bring-up. First the progress is shown and published, then the lines are printed,
/// then the action is taken.
pub struct Turn {
    pub progress: Option<u8>,
    pub say: Vec<String>,
    pub act: Act,
}

/// The model of a [`Turn`].
#[verifier::ext_equal]
pub struct TurnView {
    pub progress: Option<u8>,
    pub say: Seq<Text>,
    pub act: ActView,
}

impl View for Turn {
    type V = TurnView;

    open spec fn view(&self) -> TurnView {
        TurnView { progress: self.progress, say: texts(self.say@), act: self.act@ }
    }
}

/// What the probes found.
pub struct Probes {
    pub killswitch_up: bool,
    pub dns_pinned: bool,
    pub ipv6_table: bool,
    /// The answer of the exit probe.
    pub body: String,
    /// The overlay, where it runs.
    pub overlay: Option<Overlay>,
}

/// The model of [`Probes`].
#[verifier::ext_equal]
pub struct ProbesView {
    pub killswitch_up: bool,
    pub dns_pinned: bool,
    pub ipv6_table: bool,
    pub body: Text,
    pub overlay: Option<Overlay>,
}

/// What the host replied to an action.
pub enum Reply {
    Nothing,
    Euid(u32),
    Facts(Option<State>, bool, bool),
    Flag(bool),
    Id(Result<(bool, String), String>),
    Clock(Option<u64>),
    Text(String),
    File(Option<String>),
    Ran(Result<bool, String>),
    Done(Result<(), String>),
    /// The answer to a question of hardening, and the nanoseconds of the clock.
    Seen(Seen, u32),
    Loaded(Option<Session>),
    /// Tor's log, whether Tor runs, and the time waited, in nanoseconds.
    Tor(String, bool, u128),
    /// Whether the proxy accepts connections, and the time waited, in nanoseconds.
    Proxy(bool, u128),
    Probes(Probes),
}

/// The model of a [`Reply`].
#[verifier::ext_equal]
pub enum ReplyView {
    Nothing,
    Euid(u32),
    Facts(Option<State>, bool, bool),
    Flag(bool),
    Id(Result<(bool, Text), Text>),
    Clock(Option<u64>),
    Text(Text),
    File(Option<Text>),
    Ran(Result<bool, Text>),
    Done(Result<(), Text>),
    Seen(SeenView, u32),
    Loaded(Option<SessionView>),
    Tor(Text, bool, u128),
    Proxy(bool, u128),
    Probes(ProbesView),
}

pub open spec fn ran_text(r: Result<bool, String>) -> Result<bool, Text> {
    match r {
        Ok(b) => Ok(b),
        Err(e) => Err(e@),
    }
}

impl View for Reply {
    type V = ReplyView;

    open spec fn view(&self) -> ReplyView {
        match self {
            Reply::Nothing => ReplyView::Nothing,
            Reply::Euid(n) => ReplyView::Euid(*n),
            Reply::Facts(s, tor, armed) => ReplyView::Facts(*s, *tor, *armed),
            Reply::Flag(b) => ReplyView::Flag(*b),
            Reply::Id(r) => ReplyView::Id(caught(*r)),
            Reply::Clock(c) => ReplyView::Clock(*c),
            Reply::Text(t) => ReplyView::Text(t@),
            Reply::File(f) => ReplyView::File(opt_text(*f)),
            Reply::Ran(r) => ReplyView::Ran(ran_text(*r)),
            Reply::Done(r) => ReplyView::Done(result_text(*r)),
            Reply::Seen(s, nanos) => ReplyView::Seen(s@, *nanos),
            Reply::Loaded(s) => ReplyView::Loaded(
                match s {
                    Some(s) => Some(s@),
                    None => None,
                },
            ),
            Reply::Tor(log, running, elapsed) => ReplyView::Tor(log@, *running, *elapsed),
            Reply::Proxy(up, elapsed) => ReplyView::Proxy(*up, *elapsed),
            Reply::Probes(p) => ReplyView::Probes(
                ProbesView {
                    killswitch_up: p.killswitch_up,
                    dns_pinned: p.dns_pinned,
                    ipv6_table: p.ipv6_table,
                    body: p.body@,
                    overlay: p.overlay,
                },
            ),
        }
    }
}

// ---------- reading a reply ----------
pub open spec fn no_answer() -> Text {
    "the host gave no answer"@
}

pub open spec fn got_root(r: ReplyView) -> bool {
    r == ReplyView::Euid(0)
}

pub open spec fn got_health(r: ReplyView) -> Health {
    match r {
        ReplyView::Facts(s, tor, armed) => condition(s, tor, armed),
        _ => condition(None, false, false),
    }
}

pub open spec fn got_flag(r: ReplyView) -> bool {
    r == ReplyView::Flag(true)
}

pub open spec fn got_uid(user: Text, r: ReplyView) -> Result<u32, Text> {
    match r {
        ReplyView::Id(ran) => uid_value(user, ran),
        _ => Err(no_answer()),
    }
}

pub open spec fn got_clock(r: ReplyView) -> Option<u64> {
    match r {
        ReplyView::Clock(c) => c,
        _ => None,
    }
}

pub open spec fn got_text(r: ReplyView) -> Text {
    match r {
        ReplyView::Text(t) => t,
        _ => seq![],
    }
}

pub open spec fn got_file(r: ReplyView) -> Option<Text> {
    match r {
        ReplyView::File(f) => f,
        _ => None,
    }
}

pub open spec fn got_done(r: ReplyView) -> Result<(), Text> {
    match r {
        ReplyView::Done(d) => d,
        _ => Err(no_answer()),
    }
}

pub open spec fn got_success(r: ReplyView) -> bool {
    match r {
        ReplyView::Ran(Ok(b)) => b,
        _ => false,
    }
}

/// What launching the overlay came to.
pub open spec fn got_launched(r: ReplyView) -> Result<(), Text> {
    match r {
        ReplyView::Ran(Ok(true)) => Ok(()),
        ReplyView::Ran(Ok(false)) => Err("i2pd failed to start"@),
        ReplyView::Ran(Err(cause)) => Err(under("start i2pd (is i2pd installed?)"@, cause)),
        _ => Err(no_answer()),
    }
}

pub open spec fn got_loaded(r: ReplyView) -> Option<SessionView> {
    match r {
        ReplyView::Loaded(s) => s,
        _ => None,
    }
}

pub open spec fn got_verify(p: ProbesView) -> VerifyView {
    VerifyView {
        tor_ok: says_tor(p.body),
        dns_ok: p.dns_pinned,
        killswitch_ok: p.killswitch_up,
        ipv6_ok: p.ipv6_table,
        exit_ip: says_ip(p.body),
    }
}

pub(crate) fn read_done(r: Reply) -> (d: Result<(), String>)
    ensures
        result_text(d) == got_done(r@),
{
    match r {
        Reply::Done(d) => d,
        _ => Err("the host gave no answer".to_owned()),
    }
}

fn read_uid(user: &str, r: Reply) -> (n: Result<u32, String>)
    ensures
        uid_text(n) == got_uid(user@, r@),
{
    match r {
        Reply::Id(ran) => uid_of(user, ran),
        _ => Err("the host gave no answer".to_owned()),
    }
}

fn read_text(r: Reply) -> (t: String)
    ensures
        t@ == got_text(r@),
{
    match r {
        Reply::Text(t) => t,
        _ => String::new(),
    }
}

pub(crate) fn read_flag(r: &Reply) -> (b: bool)
    ensures
        b == got_flag(r@),
{
    match r {
        Reply::Flag(b) => *b,
        _ => false,
    }
}

pub(crate) fn read_success(r: &Reply) -> (b: bool)
    ensures
        b == got_success(r@),
{
    match r {
        Reply::Ran(Ok(b)) => *b,
        _ => false,
    }
}

fn read_launched(r: Reply) -> (d: Result<(), String>)
    ensures
        result_text(d) == got_launched(r@),
{
    match r {
        Reply::Ran(ran) => started(ran),
        _ => Err("the host gave no answer".to_owned()),
    }
}

// ---------- turns ----------
pub open spec fn quietly(act: ActView) -> TurnView {
    TurnView { progress: None, say: seq![], act }
}

pub open spec fn saying(say: Seq<Text>, act: ActView) -> TurnView {
    TurnView { progress: None, say, act }
}

pub(crate) fn turn(act: Act) -> (t: Turn)
    ensures
        t@ == quietly(act@),
{
    let t = Turn { progress: None, say: Vec::new(), act };
    assert(t@.say =~= seq![]);
    t
}

pub(crate) fn turn_saying(line: String, act: Act) -> (t: Turn)
    ensures
        t@ == saying(seq![line@], act@),
{
    let t = Turn { progress: None, say: vec![line], act };
    assert(t@.say =~= seq![line@]);
    t
}

/// The end of a bring-up.
pub open spec fn ended(u: UpView, say: Seq<Text>, r: Result<(), Text>) -> (UpView, TurnView) {
    (UpView { stage: UpStage::Done, ..u }, saying(say, ActView::End(r)))
}

/// On to a stage with an action.
pub open spec fn go(u: UpView, stage: UpStage, act: ActView) -> (UpView, TurnView) {
    (UpView { stage, ..u }, quietly(act))
}

/// On to a stage with a line and an action.
pub open spec fn go_saying(u: UpView, stage: UpStage, line: Text, act: ActView) -> (
    UpView,
    TurnView,
) {
    (UpView { stage, ..u }, saying(seq![line], act))
}

/// The error of a bring-up that failed behind the kill-switch.
pub open spec fn failed_behind(e: Text) -> Text {
    "bring-up failed ("@ + e
        + ") — staying LOCKED (all traffic blocked). Run `anond down` to release."@
}

pub open spec fn not_verified() -> Text {
    "verification failed — staying LOCKED (all traffic blocked). Run `anond verify` for detail, or `anond down` to release."@
}

/// A failure behind the kill-switch: the session is kept as locked, and the error is reported once
/// that has been published.
pub open spec fn to_failed(u: UpView, failure: Text) -> UpView {
    UpView {
        stage: UpStage::SaveFailed,
        failure,
        sess: SessionView { state: State::Locked, ..u.sess },
        ..u
    }
}

pub open spec fn fail(u: UpView, e: Text) -> (UpView, TurnView) {
    (to_failed(u, failed_behind(e)), quietly(ActView::Save))
}

/// The users that the kill-switch exempts.
pub open spec fn exempt_users(u: UpView) -> Seq<u32> {
    if u.want_i2p {
        seq![u.tor_uid, u.i2pd_uid]
    } else {
        seq![u.tor_uid]
    }
}

pub open spec fn prepare_plan() -> Seq<StepView> {
    seq![
        attempt(OpView::MakeDirs(i2pd_directory())),
        attempt(OpView::Run(cmd("chown"@, seq!["-R"@, "i2pd:i2pd"@, i2pd_directory()]))),
    ]
}

pub open spec fn start_plan() -> Seq<StepView> {
    torrc_plan() + seq![attempt(OpView::Write(log_file(), ""@))] + launch_plan()
}

pub open spec fn flush_plan(flushed: bool) -> Seq<StepView> {
    if flushed {
        seq![]
    } else {
        seq![
            attempt(OpView::Write("/proc/sys/net/netfilter/nf_conntrack_count"@, "0"@)),
            attempt(OpView::Warn(flush_warning())),
        ]
    }
}

/// The advice to put a tunnel in front of Tor, and time to follow it.
pub open spec fn advice_plan() -> Seq<StepView> {
    seq![
        attempt(OpView::Warn("\n  ADVISORY: no VPN layer detected in front of Tor."@)),
        attempt(
            OpView::Warn(
                "  Your ISP can see that you are USING Tor (not what you do). To hide even that,"@,
            ),
        ),
        attempt(
            OpView::Warn(
                "  connect a VPN FIRST so the ISP sees only encrypted VPN traffic, then re-run"@,
            ),
        ),
        attempt(
            OpView::Warn(
                "  `anond up`. Use the VPN provider's own client with ITS kill-switch on, and a"@,
            ),
        ),
        attempt(
            OpView::Warn(
                "  no-logs, anonymous-payment provider — Mullvad is the reference (cash/crypto,"@,
            ),
        ),
        attempt(
            OpView::Warn(
                "  account-number only, audited, RAM-only). (Native VPN chaining is planned.)"@,
            ),
        ),
        attempt(
            OpView::Warn(
                "  Continuing WITHOUT a VPN layer in 3s (Ctrl-C to stop, or pass --no-advice)…\n"@,
            ),
        ),
        attempt(OpView::Pause(3000)),
    ]
}

pub open spec fn route_command() -> CommandView {
    cmd("ip"@, seq!["-o"@, "route"@, "get"@, "1.1.1.1"@])
}

pub open spec fn exit_command() -> CommandView {
    cmd(
        "curl"@,
        seq![
            "-s"@,
            "--max-time"@,
            "30"@,
            "--socks5-hostname"@,
            "127.0.0.1:9050"@,
            "https://check.torproject.org/api/ip"@,
        ],
    )
}

/// On to arming the kill-switch.
pub open spec fn to_arm(u: UpView) -> (UpView, TurnView) {
    go_saying(
        u,
        UpStage::Arm,
        "[1/5] arming the kill-switch (traffic blocked until verified)…"@,
        ActView::Plan(up_plan(exempt_users(u))),
    )
}

/// On to the probes, after some lines.
pub open spec fn to_probe(u: UpView, say: Seq<Text>) -> (UpView, TurnView) {
    (
        UpView { stage: UpStage::Probe, ..u },
        saying(
            say.push("[5/5] verifying (no path to Active until every probe passes)…"@),
            ActView::Probe,
        ),
    )
}

/// On with hardening, as its own step says.
pub open spec fn harden_on(u: UpView, seen: SeenView, nanos: u32) -> (UpView, ActView) {
    let (h, s, ask) = apply_step(u.hardening, u.sess, seen, nanos);
    if ask is Nothing {
        (UpView { stage: UpStage::SaveHardened, hardening: h, sess: s, ..u }, ActView::Save)
    } else {
        (UpView { stage: UpStage::Harden, hardening: h, sess: s, ..u }, ActView::Harden(ask))
    }
}

/// What a look at the overlay's proxy says.
pub open spec fn got_proxy(r: ReplyView) -> WaitView {
    match r {
        ReplyView::Proxy(up, elapsed) => ready_decision(up, elapsed, I2P_TIMEOUT),
        _ => WaitView::Failed(no_answer()),
    }
}

/// After a look at Tor.
pub open spec fn after_look(u: UpView, log: Text, running: bool, elapsed: u128) -> (
    UpView,
    TurnView,
) {
    let pct = pct_of(log);
    let progress = if pct != u.last_pct {
        Some(pct)
    } else {
        None
    };
    let d = wait_decision(u.restarts, log, running, elapsed, TOR_TIMEOUT);
    let u = UpView { last_pct: pct, restarts: restarts_after(u.restarts, d), ..u };
    let (next, t) = match d {
        WaitView::Ready => if u.want_i2p {
            (
                UpView { stage: UpStage::I2pPrepare, ..u },
                saying(
                    seq![""@, "      + starting i2pd (i2p overlay)…"@],
                    ActView::Plan(prepare_plan()),
                ),
            )
        } else {
            to_probe(u, seq![""@])
        },
        WaitView::Failed(e) => fail(u, e),
        WaitView::Restart => go(u, UpStage::RestartPid, ActView::TorPid),
        WaitView::Poll => go(u, UpStage::Await, ActView::LookTor(LOOK_PAUSE)),
    };
    (next, TurnView { progress, ..t })
}

/// The turns of a session that is active already: the overlay is attached to it where it is wanted
/// and does not run yet. Nothing of that can disturb the session.
pub open spec fn attach_step(u: UpView, r: ReplyView) -> (UpView, TurnView) {
    match u.stage {
        UpStage::Overlay => if got_flag(r) {
            ended(u, seq!["anond is already active"@], Ok(()))
        } else {
            go(u, UpStage::AttachTor, ActView::Id("tor"@))
        },
        UpStage::AttachTor => match got_uid("tor"@, r) {
            Ok(n) => go(UpView { tor_uid: n, ..u }, UpStage::AttachI2p, ActView::Id("i2pd"@)),
            Err(e) => ended(u, seq![], Err(e)),
        },
        UpStage::AttachI2p => match got_uid("i2pd"@, r) {
            Ok(n) => go_saying(
                UpView { i2pd_uid: n, ..u },
                UpStage::Rearm,
                "attaching the i2p overlay to the live session…"@,
                ActView::Plan(rearm_plan(seq![u.tor_uid, n])),
            ),
            Err(e) => ended(u, seq![], Err(e)),
        },
        UpStage::Rearm => match got_done(r) {
            Ok(()) => go(u, UpStage::AttachPrepare, ActView::Plan(prepare_plan())),
            Err(e) => ended(u, seq![], Err(e)),
        },
        UpStage::AttachPrepare => go(u, UpStage::AttachLaunch, ActView::Run(i2pd_command())),
        UpStage::AttachLaunch => match got_launched(r) {
            Ok(()) => go(u, UpStage::AttachWait, ActView::AwaitProxy),
            Err(e) => go(
                UpView { failure: e, ..u },
                UpStage::Tighten,
                ActView::Plan(rearm_plan(seq![u.tor_uid])),
            ),
        },
        UpStage::AttachWait => match got_proxy(r) {
            WaitView::Poll => go(u, UpStage::AttachWait, ActView::LookProxy(LOOK_PAUSE)),
            WaitView::Ready => go(u, UpStage::AttachCheck, ActView::I2pRunning),
            _ => go_saying(
                u,
                UpStage::AttachCheck,
                "note: i2pd still initialising (tunnels build in the background)"@,
                ActView::I2pRunning,
            ),
        },
        UpStage::Tighten => go_saying(
            u,
            UpStage::AttachCheck,
            "note: i2p unavailable ("@ + u.failure + "); staying on Tor only"@,
            ActView::I2pRunning,
        ),
        UpStage::AttachCheck => go(
            UpView { attached: got_flag(r), ..u },
            UpStage::AttachLoad,
            ActView::Load,
        ),
        UpStage::AttachLoad => match got_loaded(r) {
            Some(s) => go(
                UpView { sess: SessionView { i2p: u.attached, ..s }, ..u },
                UpStage::AttachSave,
                ActView::Save,
            ),
            None => go(u, UpStage::AttachProbe, ActView::Out(exit_command())),
        },
        UpStage::AttachSave => go(u, UpStage::AttachProbe, ActView::Out(exit_command())),
        UpStage::AttachProbe => go(
            u,
            UpStage::AttachPublish,
            ActView::Publish("Active"@, says_ip(got_text(r))),
        ),
        _ => ended(
            u,
            seq![
                "i2p overlay "@ + (if u.attached {
                    "attached (Tor session intact)"@
                } else {
                    "not attached (Tor session intact)"@
                }),
            ],
            Ok(()),
        ),
    }
}

/// The turns before the kill-switch is armed.
pub open spec fn open_step(u: UpView, r: ReplyView) -> (UpView, TurnView) {
    match u.stage {
        UpStage::Root => if got_root(r) {
            go(u, UpStage::Facts, ActView::Facts)
        } else {
            ended(u, seq![], Err("anond must run as root (it manages nftables and Tor)"@))
        },
        UpStage::Facts => if got_health(r).effective == State::Active {
            if u.want_i2p {
                go(u, UpStage::Overlay, ActView::I2pRunning)
            } else {
                ended(u, seq!["anond is already active"@], Ok(()))
            }
        } else if u.advise {
            go(u, UpStage::Route, ActView::Out(route_command()))
        } else {
            go(u, UpStage::TorUid, ActView::Id("tor"@))
        },
        UpStage::Route => if is_tunnel(word_after(words(got_text(r)), "dev"@)) {
            go(u, UpStage::TorUid, ActView::Id("tor"@))
        } else {
            go(u, UpStage::Advise, ActView::Plan(advice_plan()))
        },
        UpStage::Advise => go(u, UpStage::TorUid, ActView::Id("tor"@)),
        UpStage::TorUid => match got_uid("tor"@, r) {
            Ok(n) => go(UpView { tor_uid: n, ..u }, UpStage::Clock, ActView::Clock),
            Err(e) => ended(u, seq![], Err(e)),
        },
        UpStage::Clock => {
            let u = UpView {
                sess: SessionView { i2p: u.want_i2p, ..fresh_session(u.tor_uid, got_clock(r)) },
                ..u
            };
            if u.want_i2p {
                go(u, UpStage::I2pUid, ActView::Id("i2pd"@))
            } else {
                to_arm(u)
            }
        },
        UpStage::I2pUid => match got_uid("i2pd"@, r) {
            Ok(n) => to_arm(UpView { i2pd_uid: n, ..u }),
            Err(e) => ended(u, seq![], Err(e)),
        },
        // Arm
        _ => match got_done(r) {
            Ok(()) => go(u, UpStage::Flush, ActView::Quiet(cmd("conntrack"@, seq!["-F"@]))),
            Err(e) => ended(u, seq![], Err(e)),
        },
    }
}

/// The turns that harden the host.
pub open spec fn harden_step(u: UpView, r: ReplyView) -> (UpView, TurnView) {
    match u.stage {
        UpStage::SaveLocked => match got_done(r) {
            Ok(()) => {
                let (next, act) = harden_on(
                    UpView { hardening: begin_view(u.mac), ..u },
                    SeenView::Nothing,
                    0,
                );
                (
                    next,
                    saying(
                        seq![
                            "[2/5] hardening the host (swap off, sysctl"@ + (if u.mac {
                                ", MAC spoof"@
                            } else {
                                ""@
                            }) + ")…"@,
                        ],
                        act,
                    ),
                )
            },
            Err(e) => ended(u, seq![], Err(e)),
        },
        // Harden
        _ => {
            let (next, act) = match r {
                ReplyView::Seen(seen, nanos) => harden_on(u, seen, nanos),
                _ => harden_on(u, SeenView::Nothing, 0),
            };
            (next, quietly(act))
        },
    }
}

/// The turns that prepare the host behind the kill-switch.
pub open spec fn shut_step(u: UpView, r: ReplyView) -> (UpView, TurnView) {
    match u.stage {
        UpStage::Flush => go(u, UpStage::Flushed, ActView::Plan(flush_plan(got_success(r)))),
        UpStage::Flushed => go(
            UpView { sess: SessionView { state: State::Locked, ..u.sess }, ..u },
            UpStage::SaveLocked,
            ActView::Save,
        ),
        UpStage::SaveHardened => match got_done(r) {
            Ok(()) => go_saying(
                u,
                UpStage::Resolv,
                "[3/5] pinning DNS to Tor…"@,
                ActView::Resolv,
            ),
            Err(e) => fail(u, e),
        },
        UpStage::Resolv => {
            let current = got_text(r);
            let sess = SessionView {
                resolv_backup: if is_genuine(current) {
                    Some(current)
                } else {
                    u.sess.resolv_backup
                },
                ..u.sess
            };
            go(UpView { sess, ..u }, UpStage::Pin, ActView::Plan(pin_plan()))
        },
        UpStage::Pin => match got_done(r) {
            Ok(()) => go(u, UpStage::SavePinned, ActView::Save),
            Err(e) => fail(u, e),
        },
        UpStage::SavePinned => match got_done(r) {
            Ok(()) => go_saying(
                UpView { sess: SessionView { state: State::Bootstrapping, ..u.sess }, ..u },
                UpStage::SaveBootstrapping,
                "[4/5] starting Tor (this can take a few minutes on a slow connection)…"@,
                ActView::Save,
            ),
            Err(e) => fail(u, e),
        },
        // SaveBootstrapping
        _ => match got_done(r) {
            Ok(()) => go(u, UpStage::StartTor, ActView::Plan(start_plan())),
            Err(e) => fail(u, e),
        },
    }
}

/// The turns that start Tor and the overlay behind the kill-switch.
pub open spec fn start_step(u: UpView, r: ReplyView) -> (UpView, TurnView) {
    match u.stage {
        UpStage::StartTor => match got_done(r) {
            Ok(()) => go(
                UpView { restarts: 0, last_pct: 255, ..u },
                UpStage::Await,
                ActView::AwaitTor,
            ),
            Err(e) => fail(u, e),
        },
        UpStage::Await => match r {
            ReplyView::Tor(log, running, elapsed) => after_look(u, log, running, elapsed),
            _ => fail(u, no_answer()),
        },
        UpStage::RestartPid => go(u, UpStage::Restart, ActView::Plan(restart_plan(got_file(r)))),
        UpStage::Restart => match got_done(r) {
            Ok(()) => go(u, UpStage::Await, ActView::LookTor(0)),
            Err(e) => fail(u, e),
        },
        UpStage::I2pPrepare => go(u, UpStage::I2pLaunch, ActView::Run(i2pd_command())),
        UpStage::I2pLaunch => match got_launched(r) {
            Ok(()) => go(u, UpStage::I2pWait, ActView::AwaitProxy),
            Err(e) => to_probe(
                u,
                seq!["      note: i2p unavailable ("@ + e + "); continuing on Tor only"@],
            ),
        },
        // I2pWait
        _ => match got_proxy(r) {
            WaitView::Poll => go(u, UpStage::I2pWait, ActView::LookProxy(LOOK_PAUSE)),
            WaitView::Ready => to_probe(u, seq![]),
            _ => to_probe(
                u,
                seq!["      note: i2pd still initialising (tunnels build in the background)"@],
            ),
        },
    }
}

/// The turn after the probes: the session is active where every one of them passed, else it stays
/// locked. What they found is reported either way.
pub open spec fn judged(u: UpView, v: VerifyView, overlay: Option<Overlay>) -> (UpView, TurnView) {
    let say = report_lines(v, overlay);
    if all_pass(v) {
        (
            UpView {
                stage: UpStage::SaveActive,
                exit_ip: v.exit_ip,
                sess: SessionView { state: State::Active, ..u.sess },
                ..u
            },
            saying(say, ActView::Save),
        )
    } else {
        (to_failed(u, not_verified()), saying(say, ActView::Save))
    }
}

/// The turns from the probes to the end.
pub open spec fn proof_step(u: UpView, r: ReplyView) -> (UpView, TurnView) {
    match u.stage {
        UpStage::Probe => match r {
            ReplyView::Probes(p) => judged(u, got_verify(p), p.overlay),
            _ => fail(u, no_answer()),
        },
        UpStage::SaveActive => match got_done(r) {
            Ok(()) => go(u, UpStage::PublishActive, ActView::Publish("Active"@, u.exit_ip)),
            Err(e) => ended(u, seq![], Err(e)),
        },
        UpStage::PublishActive => ended(
            u,
            seq![
                "\nanond ACTIVE — you exit via Tor at "@ + u.exit_ip
                    + ". DNS pinned, IPv6 blocked, kill-switch armed."@,
            ],
            Ok(()),
        ),
        UpStage::SaveFailed => match got_done(r) {
            Ok(()) => go(u, UpStage::PublishFailed, ActView::Publish("Locked"@, ""@)),
            Err(e) => ended(u, seq![], Err(e)),
        },
        // PublishFailed
        _ => ended(u, seq![], Err(u.failure)),
    }
}

/// The stages in which an active session is worked on.
pub open spec fn attaching(s: UpStage) -> bool {
    s == UpStage::Overlay || s == UpStage::AttachTor || s == UpStage::AttachI2p || s
        == UpStage::Rearm || s == UpStage::AttachPrepare || s == UpStage::AttachLaunch || s
        == UpStage::AttachWait || s == UpStage::Tighten || s == UpStage::AttachCheck || s
        == UpStage::AttachLoad || s == UpStage::AttachSave || s == UpStage::AttachProbe || s
        == UpStage::AttachPublish
}

/// The stages of a new session before the kill-switch is armed.
pub open spec fn unarmed(s: UpStage) -> bool {
    s == UpStage::Root || s == UpStage::Facts || s == UpStage::Route || s == UpStage::Advise || s
        == UpStage::TorUid || s == UpStage::Clock || s == UpStage::I2pUid || s == UpStage::Arm
}

/// The stages of a new session from the probes on.
pub open spec fn proving(s: UpStage) -> bool {
    s == UpStage::Probe || s == UpStage::SaveActive || s == UpStage::PublishActive || s
        == UpStage::SaveFailed || s == UpStage::PublishFailed
}

/// The stages of a new session in which Tor and the overlay start.
pub open spec fn starting(s: UpStage) -> bool {
    s == UpStage::StartTor || s == UpStage::Await || s == UpStage::RestartPid || s
        == UpStage::Restart || s == UpStage::I2pPrepare || s == UpStage::I2pLaunch || s
        == UpStage::I2pWait
}

/// The next turn of a bring-up, out of the reply to the last one.
pub open spec fn up_step(u: UpView, r: ReplyView) -> (UpView, TurnView) {
    if u.stage == UpStage::Done {
        (u, quietly(ActView::Nothing))
    } else if attaching(u.stage) {
        attach_step(u, r)
    } else if unarmed(u.stage) {
        open_step(u, r)
    } else if proving(u.stage) {
        proof_step(u, r)
    } else if starting(u.stage) {
        start_step(u, r)
    } else if u.stage == UpStage::SaveLocked || u.stage == UpStage::Harden {
        harden_step(u, r)
    } else {
        shut_step(u, r)
    }
}

/// A bring-up before its first action.
pub open spec fn begin_up(args: Seq<Text>) -> UpView {
    UpView {
        stage: UpStage::Root,
        mac: lists(args, "--mac"@),
        want_i2p: lists(args, "--i2p"@),
        advise: !lists(args, "--no-advice"@),
        tor_uid: 0,
        i2pd_uid: 0,
        sess: fresh_session(0, None),
        hardening: begin_view(lists(args, "--mac"@)),
        restarts: 0,
        last_pct: 255,
        attached: false,
        failure: seq![],
        exit_ip: seq![],
    }
}

/// A bring-up before its first action, which is to tell the effective user.
pub fn start_up(args: &[String]) -> (r: (Up, Turn))
    ensures
        r.0@ == begin_up(texts(args@)),
        r.1@ == quietly(ActView::Euid),
        fit(r.0@),
{
    let mac = listed(args, "--mac");
    (
        Up {
            stage: UpStage::Root,
            mac,
            want_i2p: listed(args, "--i2p"),
            advise: !listed(args, "--no-advice"),
            tor_uid: 0,
            i2pd_uid: 0,
            sess: Session::new(0, None),
            hardening: begin(mac),
            restarts: 0,
            last_pct: 255,
            attached: false,
            failure: String::new(),
            exit_ip: String::new(),
        },
        turn(Act::Euid),
    )
}

fn read_proxy(r: &Reply) -> (d: Wait)
    ensures
        d@ == got_proxy(r@),
{
    match r {
        Reply::Proxy(up, elapsed) => wait_ready(*up, *elapsed, I2P_TIMEOUT),
        _ => Wait::Failed("the host gave no answer".to_owned()),
    }
}

fn exec_ended(u: &mut Up, line: Option<String>, r: Result<(), String>) -> (t: Turn)
    ensures
        (final(u)@, t@) == ended(
            old(u)@,
            match line {
                Some(l) => seq![l@],
                None => seq![],
            },
            result_text(r),
        ),
{
    u.stage = UpStage::Done;
    match line {
        Some(l) => turn_saying(l, Act::End(r)),
        None => turn(Act::End(r)),
    }
}

fn exec_go(u: &mut Up, stage: UpStage, act: Act) -> (t: Turn)
    ensures
        (final(u)@, t@) == go(old(u)@, stage, act@),
{
    u.stage = stage;
    turn(act)
}

fn exec_go_saying(u: &mut Up, stage: UpStage, line: &str, act: Act) -> (t: Turn)
    ensures
        (final(u)@, t@) == go_saying(old(u)@, stage, line@, act@),
{
    u.stage = stage;
    turn_saying(line.to_owned(), act)
}

fn exec_fail(u: &mut Up, e: String) -> (t: Turn)
    ensures
        (final(u)@, t@) == fail(old(u)@, e@),
{
    u.stage = UpStage::SaveFailed;
    u.failure = "bring-up failed (".to_owned().concat(e.as_str()).concat(
        ") — staying LOCKED (all traffic blocked). Run `anond down` to release.",
    );
    u.sess.state = State::Locked;
    turn(Act::Save)
}

fn exec_to_arm(u: &mut Up) -> (t: Turn)
    ensures
        (final(u)@, t@) == to_arm(old(u)@),
{
    let uids: Vec<u32> = if u.want_i2p {
        vec![u.tor_uid, u.i2pd_uid]
    } else {
        vec![u.tor_uid]
    };
    assert(uids@ =~= exempt_users(u@));
    let plan = killswitch::up(uids.as_slice());
    exec_go_saying(
        u,
        UpStage::Arm,
        "[1/5] arming the kill-switch (traffic blocked until verified)…",
        Act::Plan(plan),
    )
}

fn exec_to_probe(u: &mut Up, line: Option<String>) -> (t: Turn)
    ensures
        (final(u)@, t@) == to_probe(
            old(u)@,
            match line {
                Some(l) => seq![l@],
                None => seq![],
            },
        ),
{
    u.stage = UpStage::Probe;
    let mut say: Vec<String> = Vec::new();
    match line {
        Some(l) => {
            say.push(l);
        },
        None => {},
    }
    say.push("[5/5] verifying (no path to Active until every probe passes)…".to_owned());
    let t = Turn { progress: None, say, act: Act::Probe };
    assert(t@.say =~= to_probe(
        old(u)@,
        match line {
            Some(l) => seq![l@],
            None => seq![],
        },
    ).1.say);
    t
}

fn exec_harden_on(u: &mut Up, seen: Seen, nanos: u32) -> (a: Act)
    requires
        fit(old(u)@),
    ensures
        (final(u)@, a@) == harden_on(old(u)@, seen@, nanos),
        fit(final(u)@),
{
    let ask = harden::apply(&mut u.hardening, &mut u.sess, seen, nanos);
    match ask {
        Ask::Nothing => {
            u.stage = UpStage::SaveHardened;
            Act::Save
        },
        ask => {
            u.stage = UpStage::Harden;
            Act::Harden(ask)
        },
    }
}

fn exit_out() -> (a: Act)
    ensures
        a@ == ActView::Out(exit_command()),
{
    Act::Out(exit_probe())
}

fn exec_advice() -> (v: Vec<Step>)
    ensures
        steps(v@) == advice_plan(),
{
    let mut v: Vec<Step> = Vec::new();
    v.push(try_op(Op::Warn("\n  ADVISORY: no VPN layer detected in front of Tor.".to_owned())));
    v.push(
        try_op(
            Op::Warn(
                "  Your ISP can see that you are USING Tor (not what you do). To hide even that,".to_owned(),
            ),
        ),
    );
    v.push(
        try_op(
            Op::Warn(
                "  connect a VPN FIRST so the ISP sees only encrypted VPN traffic, then re-run".to_owned(),
            ),
        ),
    );
    v.push(
        try_op(
            Op::Warn(
                "  `anond up`. Use the VPN provider's own client with ITS kill-switch on, and a".to_owned(),
            ),
        ),
    );
    v.push(
        try_op(
            Op::Warn(
                "  no-logs, anonymous-payment provider — Mullvad is the reference (cash/crypto,".to_owned(),
            ),
        ),
    );
    v.push(
        try_op(
            Op::Warn(
                "  account-number only, audited, RAM-only). (Native VPN chaining is planned.)".to_owned(),
            ),
        ),
    );
    v.push(
        try_op(
            Op::Warn(
                "  Continuing WITHOUT a VPN layer in 3s (Ctrl-C to stop, or pass --no-advice)…\n".to_owned(),
            ),
        ),
    );
    v.push(try_op(Op::Pause(3000)));
    assert(steps(v@) =~~= advice_plan());
    v
}

#[verifier::spinoff_prover]
#[verifier::rlimit(60)]
fn exec_attach(u: &mut Up, r: Reply) -> (t: Turn)
    requires
        attaching(old(u)@.stage),
    ensures
        (final(u)@, t@) == attach_step(old(u)@, r@),
        final(u)@.hardening == old(u)@.hardening,
{
    match u.stage {
        UpStage::Overlay => if read_flag(&r) {
            exec_ended(u, Some("anond is already active".to_owned()), Ok(()))
        } else {
            exec_go(u, UpStage::AttachTor, Act::Id("tor".to_owned()))
        },
        UpStage::AttachTor => match read_uid("tor", r) {
            Ok(n) => {
                u.tor_uid = n;
                exec_go(u, UpStage::AttachI2p, Act::Id("i2pd".to_owned()))
            },
            Err(e) => exec_ended(u, None, Err(e)),
        },
        UpStage::AttachI2p => match read_uid("i2pd", r) {
            Ok(n) => {
                u.i2pd_uid = n;
                let uids: Vec<u32> = vec![u.tor_uid, n];
                assert(uids@ =~= seq![old(u)@.tor_uid, n]);
                let plan = killswitch::rearm(uids.as_slice());
                exec_go_saying(
                    u,
                    UpStage::Rearm,
                    "attaching the i2p overlay to the live session…",
                    Act::Plan(plan),
                )
            },
            Err(e) => exec_ended(u, None, Err(e)),
        },
        UpStage::Rearm => match read_done(r) {
            Ok(()) => exec_go(u, UpStage::AttachPrepare, Act::Plan(i2p::start().prepare)),
            Err(e) => exec_ended(u, None, Err(e)),
        },
        UpStage::AttachPrepare => exec_go(u, UpStage::AttachLaunch, Act::Run(i2p::start().command)),
        UpStage::AttachLaunch => match read_launched(r) {
            Ok(()) => exec_go(u, UpStage::AttachWait, Act::AwaitProxy),
            Err(e) => {
                u.failure = e;
                let uids: Vec<u32> = vec![u.tor_uid];
                assert(uids@ =~= seq![old(u)@.tor_uid]);
                let plan = killswitch::rearm(uids.as_slice());
                exec_go(u, UpStage::Tighten, Act::Plan(plan))
            },
        },
        UpStage::AttachWait => match read_proxy(&r) {
            Wait::Poll => exec_go(u, UpStage::AttachWait, Act::LookProxy(LOOK_PAUSE)),
            Wait::Ready => exec_go(u, UpStage::AttachCheck, Act::I2pRunning),
            _ => exec_go_saying(
                u,
                UpStage::AttachCheck,
                "note: i2pd still initialising (tunnels build in the background)",
                Act::I2pRunning,
            ),
        },
        UpStage::Tighten => {
            let line = "note: i2p unavailable (".to_owned().concat(u.failure.as_str()).concat(
                "); staying on Tor only",
            );
            exec_go_saying(u, UpStage::AttachCheck, line.as_str(), Act::I2pRunning)
        },
        UpStage::AttachCheck => {
            u.attached = read_flag(&r);
            exec_go(u, UpStage::AttachLoad, Act::Load)
        },
        UpStage::AttachLoad => match r {
            Reply::Loaded(Some(s)) => {
                u.sess = s;
                u.sess.i2p = u.attached;
                exec_go(u, UpStage::AttachSave, Act::Save)
            },
            _ => exec_go(u, UpStage::AttachProbe, exit_out()),
        },
        UpStage::AttachSave => exec_go(u, UpStage::AttachProbe, exit_out()),
        UpStage::AttachProbe => {
            let body = read_text(r);
            let (_, ip) = exit_check(body.as_str());
            exec_go(u, UpStage::AttachPublish, Act::Publish("Active".to_owned(), ip))
        },
        _ => {
            let word = if u.attached {
                "attached (Tor session intact)"
            } else {
                "not attached (Tor session intact)"
            };
            exec_ended(u, Some("i2p overlay ".to_owned().concat(word)), Ok(()))
        },
    }
}

#[verifier::spinoff_prover]
#[verifier::rlimit(60)]
fn exec_open(u: &mut Up, r: Reply) -> (t: Turn)
    requires
        unarmed(old(u)@.stage),
    ensures
        (final(u)@, t@) == open_step(old(u)@, r@),
        final(u)@.hardening == old(u)@.hardening,
{
    match u.stage {
        UpStage::Root => {
            let euid: u32 = match &r {
                Reply::Euid(n) => *n,
                _ => 1,
            };
            match require_root(euid) {
                Ok(()) => exec_go(u, UpStage::Facts, Act::Facts),
                Err(e) => exec_ended(u, None, Err(e)),
            }
        },
        UpStage::Facts => {
            let h = match &r {
                Reply::Facts(s, tor, armed) => health(*s, *tor, *armed),
                _ => health(None, false, false),
            };
            if h.effective == State::Active {
                if u.want_i2p {
                    exec_go(u, UpStage::Overlay, Act::I2pRunning)
                } else {
                    exec_ended(u, Some("anond is already active".to_owned()), Ok(()))
                }
            } else if u.advise {
                let c = command("ip", &["-o", "route", "get", "1.1.1.1"]);
                assert(c@ =~~= route_command());
                exec_go(u, UpStage::Route, Act::Out(c))
            } else {
                exec_go(u, UpStage::TorUid, Act::Id("tor".to_owned()))
            }
        },
        UpStage::Route => {
            let route = read_text(r);
            if vpn_layer_present(route.as_str()) {
                exec_go(u, UpStage::TorUid, Act::Id("tor".to_owned()))
            } else {
                exec_go(u, UpStage::Advise, Act::Plan(exec_advice()))
            }
        },
        UpStage::Advise => exec_go(u, UpStage::TorUid, Act::Id("tor".to_owned())),
        UpStage::TorUid => match read_uid("tor", r) {
            Ok(n) => {
                u.tor_uid = n;
                exec_go(u, UpStage::Clock, Act::Clock)
            },
            Err(e) => exec_ended(u, None, Err(e)),
        },
        UpStage::Clock => {
            let clock = match &r {
                Reply::Clock(c) => *c,
                _ => None,
            };
            u.sess = Session::new(u.tor_uid, clock);
            u.sess.i2p = u.want_i2p;
            if u.want_i2p {
                exec_go(u, UpStage::I2pUid, Act::Id("i2pd".to_owned()))
            } else {
                exec_to_arm(u)
            }
        },
        UpStage::I2pUid => match read_uid("i2pd", r) {
            Ok(n) => {
                u.i2pd_uid = n;
                exec_to_arm(u)
            },
            Err(e) => exec_ended(u, None, Err(e)),
        },
        _ => match read_done(r) {
            Ok(()) => exec_go(u, UpStage::Flush, Act::Quiet(killswitch::flush_command())),
            Err(e) => exec_ended(u, None, Err(e)),
        },
    }
}

fn exec_look(u: &mut Up, log: &str, running: bool, elapsed: u128) -> (t: Turn)
    ensures
        (final(u)@, t@) == after_look(old(u)@, log@, running, elapsed),
        final(u)@.hardening == old(u)@.hardening,
{
    let (pct, d) = wait_bootstrap_with(&mut u.restarts, log, running, elapsed, TOR_TIMEOUT);
    let progress = if pct != u.last_pct {
        Some(pct)
    } else {
        None
    };
    u.last_pct = pct;
    let mut t = match d {
        Wait::Ready => if u.want_i2p {
            u.stage = UpStage::I2pPrepare;
            let say: Vec<String> = vec![
                "".to_owned(),
                "      + starting i2pd (i2p overlay)…".to_owned(),
            ];
            let t = Turn { progress: None, say, act: Act::Plan(i2p::start().prepare) };
            assert(t@.say =~= seq![""@, "      + starting i2pd (i2p overlay)…"@]);
            t
        } else {
            exec_to_probe(u, Some("".to_owned()))
        },
        Wait::Failed(e) => exec_fail(u, e),
        Wait::Restart => exec_go(u, UpStage::RestartPid, Act::TorPid),
        Wait::Poll => exec_go(u, UpStage::Await, Act::LookTor(LOOK_PAUSE)),
    };
    t.progress = progress;
    t
}

fn exec_hardening(u: &mut Up, r: Reply) -> (t: Turn)
    requires
        fit(old(u)@),
        old(u)@.stage == UpStage::SaveLocked || old(u)@.stage == UpStage::Harden,
    ensures
        (final(u)@, t@) == harden_step(old(u)@, r@),
        fit(final(u)@),
{
    match u.stage {
        UpStage::SaveLocked => match read_done(r) {
            Ok(()) => {
                let mac = if u.mac {
                    ", MAC spoof"
                } else {
                    ""
                };
                let line = "[2/5] hardening the host (swap off, sysctl".to_owned().concat(
                    mac,
                ).concat(")…");
                u.hardening = begin(u.mac);
                let act = exec_harden_on(u, Seen::Nothing, 0);
                turn_saying(line, act)
            },
            Err(e) => exec_ended(u, None, Err(e)),
        },
        _ => {
            let act = match r {
                Reply::Seen(seen, nanos) => exec_harden_on(u, seen, nanos),
                _ => exec_harden_on(u, Seen::Nothing, 0),
            };
            turn(act)
        },
    }
}

#[verifier::spinoff_prover]
#[verifier::rlimit(60)]
fn exec_shut(u: &mut Up, r: Reply) -> (t: Turn)
    requires
        old(u)@.stage != UpStage::Done,
        old(u)@.stage != UpStage::SaveLocked,
        old(u)@.stage != UpStage::Harden,
        !attaching(old(u)@.stage),
        !unarmed(old(u)@.stage),
        !proving(old(u)@.stage),
        !starting(old(u)@.stage),
    ensures
        (final(u)@, t@) == shut_step(old(u)@, r@),
        final(u)@.hardening == old(u)@.hardening,
{
    match u.stage {
        UpStage::Flush => {
            let plan = killswitch::flush_conntrack(read_success(&r));
            exec_go(u, UpStage::Flushed, Act::Plan(plan))
        },
        UpStage::Flushed => {
            u.sess.state = State::Locked;
            exec_go(u, UpStage::SaveLocked, Act::Save)
        },
        UpStage::SaveHardened => match read_done(r) {
            Ok(()) => exec_go_saying(
                u,
                UpStage::Resolv,
                "[3/5] pinning DNS to Tor…",
                Act::Resolv,
            ),
            Err(e) => exec_fail(u, e),
        },
        UpStage::Resolv => {
            let current = read_text(r);
            let plan = dns::pin(&mut u.sess, current.as_str());
            exec_go(u, UpStage::Pin, Act::Plan(plan))
        },
        UpStage::Pin => match read_done(r) {
            Ok(()) => exec_go(u, UpStage::SavePinned, Act::Save),
            Err(e) => exec_fail(u, e),
        },
        UpStage::SavePinned => match read_done(r) {
            Ok(()) => {
                u.sess.state = State::Bootstrapping;
                exec_go_saying(
                    u,
                    UpStage::SaveBootstrapping,
                    "[4/5] starting Tor (this can take a few minutes on a slow connection)…",
                    Act::Save,
                )
            },
            Err(e) => exec_fail(u, e),
        },
        _ => match read_done(r) {
            Ok(()) => exec_go(u, UpStage::StartTor, Act::Plan(tor::start())),
            Err(e) => exec_fail(u, e),
        },
    }
}

#[verifier::spinoff_prover]
#[verifier::rlimit(60)]
fn exec_start(u: &mut Up, r: Reply) -> (t: Turn)
    requires
        starting(old(u)@.stage),
    ensures
        (final(u)@, t@) == start_step(old(u)@, r@),
        final(u)@.hardening == old(u)@.hardening,
{
    match u.stage {
        UpStage::StartTor => match read_done(r) {
            Ok(()) => {
                u.restarts = 0;
                u.last_pct = 255;
                exec_go(u, UpStage::Await, Act::AwaitTor)
            },
            Err(e) => exec_fail(u, e),
        },
        UpStage::Await => match &r {
            Reply::Tor(log, running, elapsed) => exec_look(u, log.as_str(), *running, *elapsed),
            _ => exec_fail(u, "the host gave no answer".to_owned()),
        },
        UpStage::RestartPid => {
            let plan = match &r {
                Reply::File(Some(f)) => tor::restart(Some(f.as_str())),
                _ => tor::restart(None),
            };
            exec_go(u, UpStage::Restart, Act::Plan(plan))
        },
        UpStage::Restart => match read_done(r) {
            Ok(()) => exec_go(u, UpStage::Await, Act::LookTor(0)),
            Err(e) => exec_fail(u, e),
        },
        UpStage::I2pPrepare => exec_go(u, UpStage::I2pLaunch, Act::Run(i2p::start().command)),
        UpStage::I2pLaunch => match read_launched(r) {
            Ok(()) => exec_go(u, UpStage::I2pWait, Act::AwaitProxy),
            Err(e) => {
                let line = "      note: i2p unavailable (".to_owned().concat(e.as_str()).concat(
                    "); continuing on Tor only",
                );
                exec_to_probe(u, Some(line))
            },
        },
        _ => match read_proxy(&r) {
            Wait::Poll => exec_go(u, UpStage::I2pWait, Act::LookProxy(LOOK_PAUSE)),
            Wait::Ready => exec_to_probe(u, None),
            _ => exec_to_probe(
                u,
                Some(
                    "      note: i2pd still initialising (tunnels build in the background)".to_owned(),
                ),
            ),
        },
    }
}

/// Takes what the probes found and gives the next turn: the session is active where every one of
/// them passed, else it stays locked.
pub fn judge(u: &mut Up, v: Verify, overlay: Option<Overlay>) -> (t: Turn)
    ensures
        (final(u)@, t@) == judged(old(u)@, v@, overlay),
{
    let say = report(&v, overlay);
    if v.active() {
        u.stage = UpStage::SaveActive;
        u.exit_ip = v.exit_ip;
        u.sess.state = State::Active;
    } else {
        u.stage = UpStage::SaveFailed;
        u.failure =
        "verification failed — staying LOCKED (all traffic blocked). Run `anond verify` for detail, or `anond down` to release.".to_owned();
        u.sess.state = State::Locked;
    }
    Turn { progress: None, say, act: Act::Save }
}

fn exec_prove(u: &mut Up, r: Reply) -> (t: Turn)
    requires
        proving(old(u)@.stage),
    ensures
        (final(u)@, t@) == proof_step(old(u)@, r@),
        final(u)@.hardening == old(u)@.hardening,
{
    match u.stage {
        UpStage::Probe => match r {
            Reply::Probes(p) => {
                let v = verify::run(
                    p.killswitch_up,
                    p.dns_pinned,
                    p.ipv6_table,
                    p.body.as_str(),
                );
                judge(u, v, p.overlay)
            },
            _ => exec_fail(u, "the host gave no answer".to_owned()),
        },
        UpStage::SaveActive => match read_done(r) {
            Ok(()) => {
                let ip = u.exit_ip.clone();
                exec_go(u, UpStage::PublishActive, Act::Publish("Active".to_owned(), ip))
            },
            Err(e) => exec_ended(u, None, Err(e)),
        },
        UpStage::PublishActive => {
            let line = "\nanond ACTIVE — you exit via Tor at ".to_owned().concat(
                u.exit_ip.as_str(),
            ).concat(". DNS pinned, IPv6 blocked, kill-switch armed.");
            exec_ended(u, Some(line), Ok(()))
        },
        UpStage::SaveFailed => match read_done(r) {
            Ok(()) => exec_go(
                u,
                UpStage::PublishFailed,
                Act::Publish("Locked".to_owned(), "".to_owned()),
            ),
            Err(e) => exec_ended(u, None, Err(e)),
        },
        _ => {
            let failure = u.failure.clone();
            exec_ended(u, None, Err(failure))
        },
    }
}

/// Takes the reply to the last action and gives the next turn.
pub fn up(u: &mut Up, r: Reply) -> (t: Turn)
    requires
        fit(old(u)@),
    ensures
        (final(u)@, t@) == up_step(old(u)@, r@),
        fit(final(u)@),
{
    match u.stage {
        UpStage::Done => turn(Act::Nothing),
        UpStage::Overlay
        | UpStage::AttachTor
        | UpStage::AttachI2p
        | UpStage::Rearm
        | UpStage::AttachPrepare
        | UpStage::AttachLaunch
        | UpStage::AttachWait
        | UpStage::Tighten
        | UpStage::AttachCheck
        | UpStage::AttachLoad
        | UpStage::AttachSave
        | UpStage::AttachProbe
        | UpStage::AttachPublish => exec_attach(u, r),
        UpStage::Root
        | UpStage::Facts
        | UpStage::Route
        | UpStage::Advise
        | UpStage::TorUid
        | UpStage::Clock
        | UpStage::I2pUid
        | UpStage::Arm => exec_open(u, r),
        UpStage::Probe
        | UpStage::SaveActive
        | UpStage::PublishActive
        | UpStage::SaveFailed
        | UpStage::PublishFailed => exec_prove(u, r),
        UpStage::StartTor
        | UpStage::Await
        | UpStage::RestartPid
        | UpStage::Restart
        | UpStage::I2pPrepare
        | UpStage::I2pLaunch
        | UpStage::I2pWait => exec_start(u, r),
        UpStage::SaveLocked | UpStage::Harden => exec_hardening(u, r),
        _ => exec_shut(u, r),
    }
}

/// Hardening is where its own steps can lead it.
pub open spec fn fit(u: UpView) -> bool {
    well_formed(u.hardening)
}

} // verus!
