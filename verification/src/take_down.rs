//! Taking a session down, one action on the host at a time: everything is stopped and put back
//! behind the kill-switch, which comes down last.
use vstd::prelude::*;
use vstd::string::StringExecFns;

use crate::{dns, harden, i2p, killswitch, state, tor};

use crate::bring_up::{
    Act, ActView, Reply, ReplyView, Turn, TurnView, got_done, got_file, got_flag, got_loaded,
    got_root, got_success, got_text, quietly, read_done, read_flag, read_success, saying,
    turn, turn_saying,
};
use crate::dns::{RESOLV, made_up, reconstruct_resolver, unlock, usable_backup};
use crate::fail_closed::{armed_after, calm, lemma_act, takes_down};
use crate::harden::{mac_steps, restore_plan};
use crate::killswitch::{down_plan, up_plan};
use crate::plan::{
    CommandView, Op, OpView, Step, StepView, attempt, cmd, command, must_under, result_text, run_op,
    steps, try_op,
};
use crate::state::{Session, SessionView, session_file};
use crate::text::Text;
use crate::tor::torrc_file;
use crate::util::require_root;

verus! {

/// What taking a session down waits for.
#[derive(Clone, Copy, PartialEq, Eq, Structural)]
pub enum DownStage {
    Root,
    Load,
    I2p,
    I2pPid,
    I2pStop,
    TorPid,
    TorStop,
    Dns,
    Resolved,
    Route,
    Reconstruct,
    Harden,
    Disarm,
    Clear,
    Caches,
    Publish,
    Done,
}

/// How far taking a session down has got.
pub struct Down {
    pub stage: DownStage,
    /// The session that was kept on disk.
    pub sess: Option<Session>,
}

/// The model of a [`Down`].
#[verifier::ext_equal]
pub struct DownView {
    pub stage: DownStage,
    pub sess: Option<SessionView>,
}

impl View for Down {
    type V = DownView;

    open spec fn view(&self) -> DownView {
        DownView {
            stage: self.stage,
            sess: match self.sess {
                Some(s) => Some(s@),
                None => None,
            },
        }
    }
}

/// On to a stage with an action.
pub open spec fn on_to(d: DownView, stage: DownStage, act: ActView) -> (DownView, TurnView) {
    (DownView { stage, ..d }, quietly(act))
}

pub open spec fn finished(d: DownView, say: Seq<Text>, r: Result<(), Text>) -> (
    DownView,
    TurnView,
) {
    (DownView { stage: DownStage::Done, ..d }, saying(say, ActView::End(r)))
}

/// The plan that puts the resolver configuration back, or only unlocks it where it has to be made
/// up.
pub open spec fn unpin_plan(sess: Option<SessionView>) -> Seq<StepView> {
    match usable_backup(sess) {
        Some(b) => seq![
            unlock(),
            must_under(OpView::Write(RESOLV@, b), "restore resolv.conf"@),
        ],
        None => seq![unlock()],
    }
}

pub open spec fn remake_plan(resolved_active: bool, route: Text) -> Seq<StepView> {
    seq![attempt(OpView::Write(RESOLV@, made_up(resolved_active, route)))]
}

pub open spec fn resolved_command() -> CommandView {
    cmd("systemctl"@, seq!["is-active"@, "--quiet"@, "systemd-resolved"@])
}

pub open spec fn default_route_command() -> CommandView {
    cmd("ip"@, seq!["-o"@, "route"@, "show"@, "default"@])
}

/// The plan that leaves nothing of the session in the caches.
pub open spec fn caches_plan() -> Seq<StepView> {
    seq![
        attempt(OpView::Run(cmd("sync"@, seq![]))),
        attempt(OpView::Write("/proc/sys/vm/drop_caches"@, "3"@)),
    ]
}

pub open spec fn clear_plan() -> Seq<StepView> {
    seq![attempt(OpView::Remove(session_file()))]
}

/// On to the host, where a session says what to put back; else on to the kill-switch.
pub open spec fn to_host(d: DownView) -> (DownView, TurnView) {
    match d.sess {
        Some(s) => on_to(d, DownStage::Harden, ActView::Plan(restore_plan(s))),
        None => on_to(d, DownStage::Disarm, ActView::Plan(down_plan())),
    }
}

/// The next turn of taking a session down, out of the reply to the last one.
pub open spec fn down_step(d: DownView, r: ReplyView) -> (DownView, TurnView) {
    match d.stage {
        DownStage::Root => if got_root(r) {
            on_to(d, DownStage::Load, ActView::Load)
        } else {
            finished(d, seq![], Err("anond must run as root (it manages nftables and Tor)"@))
        },
        DownStage::Load => {
            let d = DownView { sess: got_loaded(r), ..d };
            if d.sess matches Some(s) && s.i2p {
                on_to(d, DownStage::I2pPid, ActView::I2pPid)
            } else {
                on_to(d, DownStage::I2p, ActView::I2pRunning)
            }
        },
        DownStage::I2p => if got_flag(r) {
            on_to(d, DownStage::I2pPid, ActView::I2pPid)
        } else {
            on_to(d, DownStage::TorPid, ActView::TorPid)
        },
        DownStage::I2pPid => on_to(
            d,
            DownStage::I2pStop,
            ActView::Plan(i2p::stop_plan(got_file(r))),
        ),
        DownStage::I2pStop => on_to(d, DownStage::TorPid, ActView::TorPid),
        DownStage::TorPid => on_to(
            d,
            DownStage::TorStop,
            ActView::Plan(tor::stop_plan(got_file(r))),
        ),
        DownStage::TorStop => on_to(d, DownStage::Dns, ActView::Plan(unpin_plan(d.sess))),
        DownStage::Dns => if usable_backup(d.sess) is Some {
            to_host(d)
        } else {
            on_to(d, DownStage::Resolved, ActView::Run(resolved_command()))
        },
        DownStage::Resolved => if got_success(r) {
            on_to(d, DownStage::Reconstruct, ActView::Plan(remake_plan(true, ""@)))
        } else {
            on_to(d, DownStage::Route, ActView::Out(default_route_command()))
        },
        DownStage::Route => on_to(
            d,
            DownStage::Reconstruct,
            ActView::Plan(remake_plan(false, got_text(r))),
        ),
        DownStage::Reconstruct => to_host(d),
        DownStage::Harden => on_to(d, DownStage::Disarm, ActView::Plan(down_plan())),
        DownStage::Disarm => match got_done(r) {
            Ok(()) => on_to(d, DownStage::Clear, ActView::Plan(clear_plan())),
            Err(e) => finished(d, seq![], Err(e)),
        },
        DownStage::Clear => match got_done(r) {
            Ok(()) => on_to(d, DownStage::Caches, ActView::Plan(caches_plan())),
            Err(e) => finished(d, seq![], Err(e)),
        },
        DownStage::Caches => on_to(d, DownStage::Publish, ActView::Publish("Down"@, ""@)),
        DownStage::Publish => finished(
            d,
            seq![
                "anond DOWN — Tor stopped, DNS/host restored, kill-switch removed last; RAM caches flushed."@,
            ],
            Ok(()),
        ),
        DownStage::Done => (d, quietly(ActView::Nothing)),
    }
}

/// Taking a session down, before its first action, which is to tell the effective user.
pub fn start_down() -> (r: (Down, Turn))
    ensures
        r.0@ == (DownView { stage: DownStage::Root, sess: None }),
        r.1@ == quietly(ActView::Euid),
{
    (Down { stage: DownStage::Root, sess: None }, turn(Act::Euid))
}

fn exec_on_to(d: &mut Down, stage: DownStage, act: Act) -> (t: Turn)
    ensures
        (final(d)@, t@) == on_to(old(d)@, stage, act@),
{
    d.stage = stage;
    turn(act)
}

fn exec_finished(d: &mut Down, line: Option<String>, r: Result<(), String>) -> (t: Turn)
    ensures
        (final(d)@, t@) == finished(
            old(d)@,
            match line {
                Some(l) => seq![l@],
                None => seq![],
            },
            result_text(r),
        ),
{
    d.stage = DownStage::Done;
    match line {
        Some(l) => turn_saying(l, Act::End(r)),
        None => turn(Act::End(r)),
    }
}

fn exec_to_host(d: &mut Down) -> (t: Turn)
    ensures
        (final(d)@, t@) == to_host(old(d)@),
{
    let plan = match &d.sess {
        Some(s) => Some(harden::restore(s)),
        None => None,
    };
    match plan {
        Some(v) => exec_on_to(d, DownStage::Harden, Act::Plan(v)),
        None => exec_on_to(d, DownStage::Disarm, Act::Plan(killswitch::down())),
    }
}

fn exec_caches() -> (v: Vec<Step>)
    ensures
        steps(v@) == caches_plan(),
{
    let mut v: Vec<Step> = Vec::new();
    v.push(try_op(run_op("sync", &[])));
    v.push(try_op(Op::Write("/proc/sys/vm/drop_caches".to_owned(), "3".to_owned())));
    assert(steps(v@) =~~= caches_plan());
    v
}

fn exec_unpin(sess: &Option<Session>) -> (r: (Vec<Step>, bool))
    ensures
        ({
            let s = match *sess {
                Some(s) => Some(s@),
                None => None,
            };
            &&& steps(r.0@) == unpin_plan(s)
            &&& r.1 == usable_backup(s) is Some
        }),
{
    let restore = match sess {
        Some(s) => dns::restore(Some(s)),
        None => dns::restore(None),
    };
    (restore.steps, !restore.reconstruct)
}

/// Takes the reply to the last action and gives the next turn.
pub fn down(d: &mut Down, r: Reply) -> (t: Turn)
    ensures
        (final(d)@, t@) == down_step(old(d)@, r@),
{
    match d.stage {
        DownStage::Root => {
            let euid: u32 = match &r {
                Reply::Euid(n) => *n,
                _ => 1,
            };
            match require_root(euid) {
                Ok(()) => exec_on_to(d, DownStage::Load, Act::Load),
                Err(e) => exec_finished(d, None, Err(e)),
            }
        },
        DownStage::Load => {
            d.sess = match r {
                Reply::Loaded(s) => s,
                _ => None,
            };
            let overlay = match &d.sess {
                Some(s) => s.i2p,
                None => false,
            };
            if overlay {
                exec_on_to(d, DownStage::I2pPid, Act::I2pPid)
            } else {
                exec_on_to(d, DownStage::I2p, Act::I2pRunning)
            }
        },
        DownStage::I2p => if read_flag(&r) {
            exec_on_to(d, DownStage::I2pPid, Act::I2pPid)
        } else {
            exec_on_to(d, DownStage::TorPid, Act::TorPid)
        },
        DownStage::I2pPid => {
            let plan = match &r {
                Reply::File(Some(f)) => i2p::stop(Some(f.as_str())),
                _ => i2p::stop(None),
            };
            exec_on_to(d, DownStage::I2pStop, Act::Plan(plan))
        },
        DownStage::I2pStop => exec_on_to(d, DownStage::TorPid, Act::TorPid),
        DownStage::TorPid => {
            let plan = match &r {
                Reply::File(Some(f)) => tor::stop(Some(f.as_str())),
                _ => tor::stop(None),
            };
            exec_on_to(d, DownStage::TorStop, Act::Plan(plan))
        },
        DownStage::TorStop => {
            let (plan, _) = exec_unpin(&d.sess);
            exec_on_to(d, DownStage::Dns, Act::Plan(plan))
        },
        DownStage::Dns => {
            let (_, usable) = exec_unpin(&d.sess);
            if usable {
                exec_to_host(d)
            } else {
                let c = command("systemctl", &["is-active", "--quiet", "systemd-resolved"]);
                assert(c@ =~~= resolved_command());
                exec_on_to(d, DownStage::Resolved, Act::Run(c))
            }
        },
        DownStage::Resolved => if read_success(&r) {
            exec_on_to(d, DownStage::Reconstruct, Act::Plan(reconstruct_resolver(true, "")))
        } else {
            let c = command("ip", &["-o", "route", "show", "default"]);
            assert(c@ =~~= default_route_command());
            exec_on_to(d, DownStage::Route, Act::Out(c))
        },
        DownStage::Route => {
            let plan = match &r {
                Reply::Text(route) => reconstruct_resolver(false, route.as_str()),
                _ => {
                    proof {
                        reveal_strlit("");
                        assert(""@ =~= seq![]);
                    }
                    reconstruct_resolver(false, "")
                },
            };
            exec_on_to(d, DownStage::Reconstruct, Act::Plan(plan))
        },
        DownStage::Reconstruct => exec_to_host(d),
        DownStage::Harden => exec_on_to(d, DownStage::Disarm, Act::Plan(killswitch::down())),
        DownStage::Disarm => match read_done(r) {
            Ok(()) => exec_on_to(d, DownStage::Clear, Act::Plan(state::clear())),
            Err(e) => exec_finished(d, None, Err(e)),
        },
        DownStage::Clear => match read_done(r) {
            Ok(()) => exec_on_to(d, DownStage::Caches, Act::Plan(exec_caches())),
            Err(e) => exec_finished(d, None, Err(e)),
        },
        DownStage::Caches => exec_on_to(
            d,
            DownStage::Publish,
            Act::Publish("Down".to_owned(), "".to_owned()),
        ),
        DownStage::Publish => exec_finished(
            d,
            Some(
                "anond DOWN — Tor stopped, DNS/host restored, kill-switch removed last; RAM caches flushed.".to_owned(),
            ),
            Ok(()),
        ),
        DownStage::Done => turn(Act::Nothing),
    }
}

// ---------- the kill-switch comes down last ----------
/// Taking a session down, the action that is under way, and what has come of it so far.
pub struct Draining {
    pub down: DownView,
    pub act: ActView,
    /// The kill-switch is installed.
    pub armed: bool,
    /// Tor has been told to stop.
    pub tor_stopped: bool,
    /// The resolver configuration has been put back or made up.
    pub dns_restored: bool,
    /// What the session records has been put back.
    pub host_restored: bool,
    /// Both tables of the kill-switch have been deleted.
    pub released: bool,
}

/// Whether an action tells every process of Tor that runs with the daemon's configuration to stop.
pub open spec fn stops_tor(act: ActView) -> bool {
    act matches ActView::Plan(p) && exists|i: int|
        0 <= i < p.len() && (#[trigger] p[i]).op == OpView::Run(
            cmd("pkill"@, seq!["-f"@, torrc_file()]),
        )
}

/// Whether an operation writes the resolver configuration: the one from before, where there is one
/// worth putting back.
pub open spec fn writes_resolver(sess: Option<SessionView>, op: OpView) -> bool {
    op matches OpView::Write(path, text) && path == RESOLV@ && (usable_backup(sess) matches Some(b)
        ==> text == b)
}

pub open spec fn restores_dns(d: DownView, act: ActView) -> bool {
    act matches ActView::Plan(p) && exists|i: int|
        0 <= i < p.len() && writes_resolver(d.sess, #[trigger] p[i].op)
}

pub open spec fn restores_host(d: DownView, act: ActView) -> bool {
    d.sess matches Some(s) && act == ActView::Plan(restore_plan(s))
}

/// Whether an action deletes both tables of the kill-switch.
pub open spec fn deletes_both(act: ActView) -> bool {
    act matches ActView::Plan(p) && {
        &&& exists|i: int|
            0 <= i < p.len() && (#[trigger] p[i]).op == OpView::Quiet(
                cmd("nft"@, seq!["delete"@, "table"@, "inet"@, "anond"@]),
            )
        &&& exists|i: int|
            0 <= i < p.len() && (#[trigger] p[i]).op == OpView::Quiet(
                cmd("nft"@, seq!["delete"@, "table"@, "ip6"@, "anond6"@]),
            )
    }
}

/// The host replies to the action, and the next turn is taken.
pub open spec fn drain(w: Draining, r: ReplyView) -> Draining {
    Draining {
        down: down_step(w.down, r).0,
        act: down_step(w.down, r).1.act,
        armed: armed_after(w.armed, w.act, r),
        tor_stopped: w.tor_stopped || stops_tor(w.act),
        dns_restored: w.dns_restored || restores_dns(w.down, w.act),
        host_restored: w.host_restored || restores_host(w.down, w.act),
        released: w.released || deletes_both(w.act),
    }
}

/// What comes of a series of replies.
pub open spec fn drained(w: Draining, replies: Seq<ReplyView>) -> Draining
    decreases replies.len(),
{
    if replies.len() == 0 {
        w
    } else {
        drain(drained(w, replies.drop_last()), replies.last())
    }
}

pub open spec fn before_draining(armed: bool) -> Draining {
    Draining {
        down: DownView { stage: DownStage::Root, sess: None },
        act: ActView::Euid,
        armed,
        tor_stopped: false,
        dns_restored: false,
        host_restored: false,
        released: false,
    }
}

/// How far along a stage is.
pub open spec fn rank(s: DownStage) -> int {
    match s {
        DownStage::Root => 0,
        DownStage::Load => 1,
        DownStage::I2p => 2,
        DownStage::I2pPid => 3,
        DownStage::I2pStop => 4,
        DownStage::TorPid => 5,
        DownStage::TorStop => 6,
        DownStage::Dns => 7,
        DownStage::Resolved => 8,
        DownStage::Route => 9,
        DownStage::Reconstruct => 10,
        DownStage::Harden => 11,
        DownStage::Disarm => 12,
        DownStage::Clear => 13,
        DownStage::Caches => 14,
        DownStage::Publish => 15,
        DownStage::Done => 16,
    }
}

/// What may follow the removal of the kill-switch: forgetting the session, the caches, the
/// snapshot, and the end.
pub open spec fn afterwards(act: ActView) -> bool {
    match act {
        ActView::Plan(p) => p == clear_plan() || p == caches_plan(),
        ActView::Publish(_, _) => true,
        ActView::End(_) => true,
        ActView::Nothing => true,
        _ => false,
    }
}

/// Ending before the kill-switch is touched happens only to a user that may do nothing.
spec fn orderly(w: Draining, armed: bool) -> bool {
    let s = w.down.stage;
    &&& s == DownStage::Disarm <==> w.act == ActView::Plan(down_plan())
    &&& s != DownStage::Disarm ==> (w.act matches ActView::Plan(p) ==> calm(p))
    &&& s == DownStage::TorStop ==> stops_tor(w.act)
    &&& s == DownStage::Dns ==> w.act == ActView::Plan(unpin_plan(w.down.sess))
    &&& s == DownStage::Reconstruct ==> restores_dns(w.down, w.act) && usable_backup(w.down.sess) is
        None
    &&& s == DownStage::Resolved || s == DownStage::Route ==> usable_backup(w.down.sess) is None
    &&& s == DownStage::Harden ==> restores_host(w.down, w.act)
    &&& rank(s) <= rank(DownStage::Disarm) ==> w.armed == armed
    &&& rank(DownStage::TorStop) < rank(s) < rank(DownStage::Done) ==> w.tor_stopped
    &&& rank(DownStage::Reconstruct) < rank(s) < rank(DownStage::Done) ==> w.dns_restored
    &&& rank(DownStage::Harden) < rank(s) < rank(DownStage::Done) ==> w.host_restored
        || w.down.sess is None
    &&& rank(s) > rank(DownStage::Disarm) ==> afterwards(w.act)
    &&& rank(DownStage::Disarm) < rank(s) < rank(DownStage::Done) ==> !w.armed && w.released
    &&& w.act == ActView::End(Ok(())) ==> !w.armed && w.released
}

proof fn lemma_mac_steps_calm(v: Seq<(Text, Text)>)
    ensures
        calm(mac_steps(v)),
    decreases v.len(),
{
    reveal(calm);
    if v.len() > 0 {
        lemma_mac_steps_calm(v.drop_last());
    }
}

proof fn lemma_restore_calm(s: SessionView)
    ensures
        calm(restore_plan(s)),
{
    lemma_mac_steps_calm(s.mac_backup);
    reveal(calm);
}

proof fn lemma_drain_plans(d: DownView, r: ReplyView)
    ensures
        calm(i2p::stop_plan(got_file(r))),
        calm(tor::stop_plan(got_file(r))),
        calm(unpin_plan(d.sess)),
        forall|b: bool, route: Text| calm(#[trigger] remake_plan(b, route)),
        calm(clear_plan()),
        calm(caches_plan()),
        !calm(down_plan()),
{
    reveal(calm);
    assert(down_plan()[0].op is Quiet);
}

/// What the plans do that stop, put back and release.
proof fn lemma_drain_effects(d: DownView, r: ReplyView)
    ensures
        stops_tor(ActView::Plan(tor::stop_plan(got_file(r)))),
        usable_backup(d.sess) is Some ==> restores_dns(d, ActView::Plan(unpin_plan(d.sess))),
        usable_backup(d.sess) is None ==> forall|b: bool, route: Text|
            restores_dns(d, ActView::Plan(#[trigger] remake_plan(b, route))),
        deletes_both(ActView::Plan(down_plan())),
{
    let p = tor::stop_plan(got_file(r));
    assert(p[p.len() - 2].op == OpView::Run(cmd("pkill"@, seq!["-f"@, torrc_file()])));
    if usable_backup(d.sess) is Some {
        let u = unpin_plan(d.sess);
        assert(writes_resolver(d.sess, u[1].op));
    } else {
        assert forall|b: bool, route: Text|
            restores_dns(d, ActView::Plan(#[trigger] remake_plan(b, route))) by {
            let u = remake_plan(b, route);
            assert(writes_resolver(d.sess, u[0].op));
        }
    }
    let k = down_plan();
    assert(k[0].op is Quiet && k[1].op is Quiet);
}

proof fn lemma_orderly(w: Draining, r: ReplyView, armed: bool)
    requires
        orderly(w, armed),
    ensures
        orderly(drain(w, r), armed),
{
    lemma_drain_plans(w.down, r);
    lemma_drain_effects(w.down, r);
    if let Some(s) = w.down.sess {
        lemma_restore_calm(s);
    }
    if w.down.stage != DownStage::Disarm {
        lemma_act(w.armed, w.act, r);
    } else {
        lemma_disarmed(w.armed, r);
    }
}

/// Removing the kill-switch leaves it removed.
proof fn lemma_disarmed(armed: bool, r: ReplyView)
    ensures
        !armed_after(armed, ActView::Plan(down_plan()), r),
{
    reveal(armed_after);
    assert forall|uids: Seq<u32>| down_plan() != #[trigger] up_plan(uids) by {
        assert(up_plan(uids).len() == 1);
    }
    assert(takes_down(down_plan()[0].op));
}

proof fn lemma_drained(armed: bool, replies: Seq<ReplyView>)
    ensures
        orderly(drained(before_draining(armed), replies), armed),
    decreases replies.len(),
{
    if replies.len() > 0 {
        lemma_drained(armed, replies.drop_last());
        lemma_orderly(drained(before_draining(armed), replies.drop_last()), replies.last(), armed);
    }
}

/// The kill-switch comes down last: when it is about to be removed, it is still as it was, Tor has
/// been stopped, the resolver configuration is back, and so is what the session records.
pub proof fn law_kill_switch_comes_down_last(armed: bool, replies: Seq<ReplyView>)
    ensures
        ({
            let w = drained(before_draining(armed), replies);
            w.act == ActView::Plan(down_plan()) ==> w.armed == armed && w.tor_stopped
                && w.dns_restored && (w.down.sess is Some ==> w.host_restored)
        }),
{
    lemma_drained(armed, replies);
}

/// Nothing of the session is done without the kill-switch: while the kill-switch is not up although
/// it was before, only the record of the session, the caches and the snapshot are worked on.
pub proof fn law_nothing_after_the_kill_switch(replies: Seq<ReplyView>)
    ensures
        ({
            let w = drained(before_draining(true), replies);
            !w.armed ==> afterwards(w.act)
        }),
{
    lemma_drained(true, replies);
}

/// Taking a session down releases the network: where it ends well, both tables of the kill-switch
/// have been deleted, and it is not installed any more.
pub proof fn law_down_releases_the_network(armed: bool, replies: Seq<ReplyView>)
    ensures
        ({
            let w = drained(before_draining(armed), replies);
            w.act == ActView::End(Ok(())) ==> !w.armed && w.released
        }),
{
    lemma_drained(armed, replies);
}

} // verus!
