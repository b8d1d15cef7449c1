//! A bring-up fails closed. Whatever the host replies, nothing is started before the kill-switch is
//! armed, nothing takes the kill-switch down once it is armed, and a session is kept as active only
//! when every probe has passed.
use vstd::prelude::*;

use crate::anond::{Layers, publish_plan};
use crate::bring_up::{
    ActView, ReplyView, UpStage, UpView, advice_plan, after_look, attach_step, attaching,
    begin_up, exempt_users, flush_plan, got_done, got_file, got_launched, got_success, got_verify, harden_on,
    harden_step, open_step, prepare_plan, proof_step, proving, publication_plan, shut_step,
    start_plan, start_step, starting, unarmed, up_step,
};
use crate::dns::{RESOLV, law_genuine, pin_plan, usable_backup};
use crate::harden::{SeenView, begin_view};
use crate::killswitch::{arming_rejected, flush_warning, rearm_plan, up_plan};
use crate::plan::{OpView, StepView, attempt, cmd};
use crate::state::{SessionView, State};
use crate::text::{Text, carries, is_white};
use crate::tor::{launch_plan, log_file, restart_plan, stop_plan, torrc_plan};
use crate::util::dirs_plan;
use crate::verify::all_pass;

verus! {

/// A bring-up, the action that is under way, and what has come of it so far.
pub struct World {
    pub up: UpView,
    pub act: ActView,
    /// The kill-switch is known to be installed.
    pub armed: bool,
    /// This bring-up has armed the kill-switch.
    pub fresh: bool,
    /// The probes have run, and all of them passed.
    pub proven: bool,
    /// The state that this bring-up last kept on disk.
    pub kept: Option<State>,
    /// The session could not be kept on disk at some point.
    pub lost: bool,
    /// The state and the exit address that this bring-up last published.
    pub shown: Option<(Text, Text)>,
}

/// Whether an operation takes the kill-switch, or a part of it, down.
pub open spec fn takes_down(op: OpView) -> bool {
    op == OpView::Quiet(cmd("nft"@, seq!["delete"@, "table"@, "inet"@, "anond"@])) || op
        == OpView::Quiet(cmd("nft"@, seq!["delete"@, "table"@, "ip6"@, "anond6"@]))
}

/// Whether the kill-switch is known to be installed after an action: a plan that arms it does so
/// where it succeeds and else leaves it as it was, for it is one transaction; any other plan that
/// takes it down has taken it down.
#[verifier::opaque]
pub open spec fn armed_after(armed: bool, act: ActView, r: ReplyView) -> bool {
    match act {
        ActView::Plan(p) => if exists|uids: Seq<u32>| p == #[trigger] up_plan(uids) {
            armed || got_done(r) is Ok
        } else if exists|i: int| 0 <= i < p.len() && takes_down(#[trigger] p[i].op) {
            false
        } else {
            armed
        },
        _ => armed,
    }
}

#[verifier::opaque]
pub open spec fn arms(act: ActView) -> bool {
    act matches ActView::Plan(p) && exists|uids: Seq<u32>| p == #[trigger] up_plan(uids)
}

/// What comes of a reply to the action, where the bring-up goes on with a turn.
pub open spec fn becomes(w: World, r: ReplyView, u: UpView, act: ActView) -> World {
    World {
        up: u,
        act,
        armed: armed_after(w.armed, w.act, r),
        fresh: w.fresh || (arms(w.act) && got_done(r) is Ok),
        proven: w.proven || (w.act is Probe && (r matches ReplyView::Probes(p) && all_pass(
            got_verify(p),
        ))),
        kept: if w.act is Save && got_done(r) is Ok {
            Some(w.up.sess.state)
        } else {
            w.kept
        },
        lost: w.lost || (w.act is Save && got_done(r) is Err),
        shown: match w.act {
            ActView::Publish(state, exit_ip) => Some((state, exit_ip)),
            _ => w.shown,
        },
    }
}

/// The host replies to the action, and the bring-up takes its next turn.
pub open spec fn advance(w: World, r: ReplyView) -> World {
    becomes(w, r, up_step(w.up, r).0, up_step(w.up, r).1.act)
}

/// The world after a series of replies.
pub open spec fn run(w: World, replies: Seq<ReplyView>) -> World
    decreases replies.len(),
{
    if replies.len() == 0 {
        w
    } else {
        advance(run(w, replies.drop_last()), replies.last())
    }
}

/// The world before a bring-up.
pub open spec fn before(args: Seq<Text>, armed: bool) -> World {
    World {
        up: begin_up(args),
        act: ActView::Euid,
        armed,
        fresh: false,
        proven: false,
        kept: None,
        lost: false,
        shown: None,
    }
}

/// The stages of a new session behind the kill-switch.
pub open spec fn behind(s: UpStage) -> bool {
    s != UpStage::Done && !attaching(s) && !unarmed(s)
}

/// What only may be carried out behind the kill-switch: starting Tor, and writing the resolver
/// configuration.
pub open spec fn is_cover(op: OpView) -> bool {
    ||| op matches OpView::Run(c) && c.bin == "tor"@
    ||| op matches OpView::Write(path, _) && path == RESOLV@
}

/// The plans that only may be carried out behind the kill-switch.
#[verifier::opaque]
pub open spec fn cover_plan(p: Seq<StepView>) -> bool {
    exists|i: int| 0 <= i < p.len() && is_cover(#[trigger] p[i].op)
}

/// What only may be done behind the kill-switch: changing the host, pinning its resolver, starting
/// Tor and waiting for it, and probing.
pub open spec fn needs_cover(act: ActView) -> bool {
    match act {
        ActView::Harden(_) => true,
        ActView::Resolv => true,
        ActView::AwaitTor => true,
        ActView::LookTor(_) => true,
        ActView::TorPid => true,
        ActView::Probe => true,
        ActView::Plan(p) => cover_plan(p),
        _ => false,
    }
}

/// Whether an operation has nothing to do with arming or disarming: it is no command whose output is
/// discarded, and no script that arms.
pub open spec fn is_calm(op: OpView) -> bool {
    !(op is Quiet) && (op matches OpView::Feed(f) ==> f.rejected != arming_rejected())
}

/// A plan of such operations.
#[verifier::opaque]
pub open spec fn calm(p: Seq<StepView>) -> bool {
    forall|i: int| 0 <= i < p.len() ==> is_calm((#[trigger] p[i]).op)
}

proof fn lemma_calm_sum(a: Seq<StepView>, b: Seq<StepView>)
    requires
        calm(a),
        calm(b),
    ensures
        calm(a + b),
{
    reveal(calm);
    assert forall|i: int| 0 <= i < (a + b).len() implies is_calm((#[trigger] (a + b)[i]).op) by {
        if i < a.len() {
            assert((a + b)[i] == a[i]);
        } else {
            assert((a + b)[i] == b[i - a.len()]);
        }
    }
}

proof fn lemma_start_is_calm()
    ensures
        calm(start_plan()),
{
    reveal(calm);
    let tail = seq![attempt(OpView::Write(log_file(), ""@))];
    let rest = torrc_plan().skip(dirs_plan().len() as int);
    assert(torrc_plan() =~= dirs_plan() + rest);
    assert(calm(dirs_plan()));
    assert(calm(rest)) by {
        assert(torrc_plan().len() == 8);
    }
    lemma_calm_sum(dirs_plan(), rest);
    assert(calm(tail));
    assert(calm(launch_plan()));
    lemma_calm_sum(torrc_plan(), tail);
    lemma_calm_sum(torrc_plan() + tail, launch_plan());
}

proof fn lemma_restart_is_calm(contents: Option<Text>)
    ensures
        calm(restart_plan(contents)),
{
    reveal(calm);
    let a = seq![attempt(OpView::Pause(500))];
    let b = seq![attempt(OpView::Pause(2000))];
    assert(calm(stop_plan(contents)));
    assert(calm(a));
    assert(calm(b));
    assert(calm(launch_plan()));
    lemma_calm_sum(stop_plan(contents), a);
    lemma_calm_sum(stop_plan(contents) + a, launch_plan());
    lemma_calm_sum(stop_plan(contents) + a + launch_plan(), b);
}

/// A calm plan changes nothing of the kill-switch.
proof fn lemma_calm(armed: bool, p: Seq<StepView>, r: ReplyView)
    requires
        calm(p),
    ensures
        armed_after(armed, ActView::Plan(p), r) == armed,
        !arms(ActView::Plan(p)),
{
    reveal(calm);
    reveal(armed_after);
    reveal(arms);
    assert forall|uids: Seq<u32>| p != #[trigger] up_plan(uids) by {
        assert(!is_calm(up_plan(uids)[0].op));
    }
}

/// The stages in which the session is kept and published as active.
pub open spec fn activating(s: UpStage) -> bool {
    s == UpStage::SaveActive || s == UpStage::PublishActive
}

/// The stages in which something is published.
pub open spec fn publishing(s: UpStage) -> bool {
    s == UpStage::PublishActive || s == UpStage::PublishFailed || s == UpStage::AttachPublish
}

/// Whether what was published last, if anything, shows the session as active.
pub open spec fn shown_active(w: World) -> bool {
    w.shown matches Some((state, _)) && state == "Active"@
}

/// What holds in every world that a bring-up can reach.
pub open spec fn sound(w: World) -> bool {
    let s = w.up.stage;
    &&& s == UpStage::Arm ==> w.act == ActView::Plan(up_plan(exempt_users(w.up)))
    &&& s != UpStage::Arm ==> (w.act matches ActView::Plan(p) ==> calm(p))
    &&& behind(s) ==> w.fresh
    &&& w.fresh ==> w.armed
    &&& unarmed(s) ==> w.shown is None
    &&& w.fresh && shown_active(w) ==> w.proven
    &&& w.act is Publish ==> publishing(s)
    &&& unarmed(s) || attaching(s) ==> !w.fresh && !w.proven
    &&& unarmed(s) ==> w.kept is None && !(w.act is Save)
    &&& s == UpStage::I2pUid || s == UpStage::Arm ==> w.up.sess.state == State::Down
    &&& behind(s) && !activating(s) ==> !w.proven && w.up.sess.state != State::Active
    &&& activating(s) ==> w.proven && w.up.sess.state == State::Active
    &&& needs_cover(w.act) ==> behind(s)
    &&& s == UpStage::Probe <==> w.act is Probe
    &&& w.act is Save && behind(s) ==> s != UpStage::PublishActive
    &&& s == UpStage::SaveActive || s == UpStage::SaveLocked || s == UpStage::SaveFailed ==> w.act is
        Save
    &&& s == UpStage::SaveFailed ==> w.up.sess.state == State::Locked
    &&& s == UpStage::PublishFailed ==> w.kept == Some(State::Locked) && w.act == ActView::Publish(
        "Locked"@,
        ""@,
    )
    &&& w.fresh && !w.proven ==> w.kept != Some(State::Active)
    &&& s == UpStage::SaveActive ==> w.kept != Some(State::Active)
    &&& s == UpStage::PublishActive ==> w.kept == Some(State::Active)
    &&& w.act is End ==> s == UpStage::Done
    &&& w.act == ActView::End(Ok(())) && w.fresh ==> w.proven && w.kept == Some(State::Active)
    &&& w.act is End && w.act != ActView::End(Ok(())) && w.fresh ==> w.kept != Some(State::Active)
    &&& w.act is End && w.act != ActView::End(Ok(())) && w.fresh ==> w.lost || shown_locked(w)
    &&& s == UpStage::Done ==> w.act is End || w.act is Nothing
}

/// Whether the session is kept and published as locked, with no exit address.
pub open spec fn shown_locked(w: World) -> bool {
    w.kept == Some(State::Locked) && w.shown == Some(("Locked"@, ""@))
}

proof fn lemma_plans(r: ReplyView)
    ensures
        calm(start_plan()),
        calm(pin_plan()),
        calm(prepare_plan()),
        calm(advice_plan()),
        calm(restart_plan(got_file(r))),
        forall|b: bool| calm(#[trigger] flush_plan(b)),
        forall|uids: Seq<u32>| calm(#[trigger] rearm_plan(uids)),
        !cover_plan(prepare_plan()),
        !cover_plan(advice_plan()),
        forall|uids: Seq<u32>| !cover_plan(#[trigger] rearm_plan(uids)),
{
    reveal(cover_plan);
    reveal_strlit("chown");
    reveal_strlit("tor");
    assert("chown"@.len() == 5 && "tor"@.len() == 3);
    lemma_start_is_calm();
    lemma_restart_is_calm(got_file(r));
    reveal(calm);
    reveal_strlit("kill-switch ruleset was rejected by nft");
    reveal_strlit("kill-switch re-arm was rejected by nft");
    assert("kill-switch re-arm was rejected by nft"@.len() != arming_rejected().len());
}

/// What every turn keeps: an action goes with its stage, and a plan is calm but for arming.
spec fn tidy(n: UpView, act: ActView) -> bool {
    &&& n.stage == UpStage::Arm ==> act == ActView::Plan(up_plan(exempt_users(n)))
    &&& n.stage != UpStage::Arm ==> (act matches ActView::Plan(p) ==> calm(p))
    &&& n.stage == UpStage::Probe <==> act is Probe
    &&& act is Publish ==> publishing(n.stage)
    &&& act is End <==> n.stage == UpStage::Done
}

/// A turn of a session that is active already leads to another one, or ends.
spec fn attach_kept(n: UpView, act: ActView) -> bool {
    &&& tidy(n, act)
    &&& attaching(n.stage) || n.stage == UpStage::Done
    &&& !needs_cover(act)
}

proof fn lemma_attach_turn(u: UpView, r: ReplyView)
    requires
        attaching(u.stage),
    ensures
        attach_kept(attach_step(u, r).0, attach_step(u, r).1.act),
{
    lemma_plans(r);
}

proof fn lemma_attach(w: World, r: ReplyView, n: UpView, act: ActView)
    requires
        sound(w),
        attaching(w.up.stage),
        attach_kept(n, act),
    ensures
        sound(becomes(w, r, n, act)),
{
    lemma_act(w.armed, w.act, r);
}

/// A turn before the kill-switch is armed leads to another one, to a session that is active
/// already, behind the kill-switch where that has just been armed, or ends.
spec fn open_kept(u: UpView, r: ReplyView, n: UpView, act: ActView) -> bool {
    &&& tidy(n, act)
    &&& !needs_cover(act)
    &&& !(act is Save)
    &&& n.stage == UpStage::I2pUid || n.stage == UpStage::Arm ==> n.sess.state == State::Down
        || u.stage == UpStage::I2pUid && n.sess.state == u.sess.state
    &&& if u.stage == UpStage::Arm && got_done(r) is Ok {
        n.stage == UpStage::Flush && n.sess.state == u.sess.state
    } else {
        n.stage == UpStage::Done || attaching(n.stage) || unarmed(n.stage)
    }
    &&& n.stage == UpStage::Done && u.stage == UpStage::Arm ==> got_done(r) is Err
}

proof fn lemma_open_turn(u: UpView, r: ReplyView)
    requires
        unarmed(u.stage),
    ensures
        open_kept(u, r, open_step(u, r).0, open_step(u, r).1.act),
{
    lemma_plans(r);
    let n = open_step(u, r).0;
    lemma_arming(true, exempt_users(n), r);
}

proof fn lemma_open(w: World, r: ReplyView, n: UpView, act: ActView)
    requires
        sound(w),
        unarmed(w.up.stage),
        open_kept(w.up, r, n, act),
    ensures
        sound(becomes(w, r, n, act)),
{
    if w.up.stage != UpStage::Arm {
        lemma_act(w.armed, w.act, r);
    } else {
        lemma_arming(w.armed, exempt_users(w.up), r);
    }
}

/// Arming succeeds where its plan does, and is no other plan.
proof fn lemma_arming(armed: bool, uids: Seq<u32>, r: ReplyView)
    ensures
        !cover_plan(up_plan(uids)),
        armed_after(armed, ActView::Plan(up_plan(uids)), r) == (armed || got_done(r) is Ok),
        arms(ActView::Plan(up_plan(uids))),
{
    reveal(calm);
    reveal(armed_after);
    reveal(arms);
    reveal(cover_plan);
    lemma_start_is_calm();
    assert(!is_calm(up_plan(uids)[0].op));
}

/// An action other than arming changes nothing of the kill-switch.
pub proof fn lemma_act(armed: bool, act: ActView, r: ReplyView)
    requires
        act matches ActView::Plan(p) ==> calm(p),
    ensures
        armed_after(armed, act, r) == armed,
        !arms(act),
{
    reveal(armed_after);
    reveal(arms);
    if let ActView::Plan(p) = act {
        lemma_calm(armed, p, r);
    }
}

/// A turn behind the kill-switch leads to another one, with a session that is not active, or ends
/// in a failure.
spec fn shut_kept(u: UpView, r: ReplyView, n: UpView, act: ActView) -> bool {
    &&& tidy(n, act)
    &&& n.stage != UpStage::PublishFailed
    &&& n.stage == UpStage::SaveLocked || n.stage == UpStage::SaveFailed ==> act is Save
    &&& n.stage == UpStage::SaveFailed ==> n.sess.state == State::Locked
    &&& n.stage == UpStage::Done ==> u.stage == UpStage::SaveLocked && got_done(r) is Err
    &&& behind(n.stage) && !activating(n.stage) || n.stage == UpStage::Done && act != ActView::End(
        Ok(()),
    )
    &&& u.sess.state != State::Active ==> n.sess.state != State::Active
    &&& n.stage == UpStage::Done ==> !needs_cover(act)
}

proof fn lemma_hardening_turn(u: UpView, r: ReplyView)
    requires
        u.stage == UpStage::Harden || u.stage == UpStage::SaveLocked,
    ensures
        shut_kept(u, r, harden_step(u, r).0, harden_step(u, r).1.act),
{
    match r {
        ReplyView::Seen(seen, nanos) => lemma_harden_on(u, seen, nanos),
        _ => lemma_harden_on(u, SeenView::Nothing, 0),
    }
    lemma_harden_on(UpView { hardening: begin_view(u.mac), ..u }, SeenView::Nothing, 0);
}

/// Hardening leaves the state of the session alone.
proof fn lemma_harden_on(u: UpView, seen: SeenView, nanos: u32)
    ensures
        ({
            let (n, act) = harden_on(u, seen, nanos);
            &&& n.sess.state == u.sess.state
            &&& n.stage == UpStage::SaveHardened && act is Save || n.stage == UpStage::Harden
                && act is Harden
        }),
{
}

proof fn lemma_shut_turn(u: UpView, r: ReplyView)
    requires
        behind(u.stage),
        !proving(u.stage),
        !starting(u.stage),
        u.stage != UpStage::Harden,
        u.stage != UpStage::SaveLocked,
    ensures
        shut_kept(u, r, shut_step(u, r).0, shut_step(u, r).1.act),
{
    lemma_plans(r);
}

proof fn lemma_look(u: UpView, r: ReplyView, log: Text, running: bool, elapsed: u128)
    ensures
        shut_kept(
            u,
            r,
            after_look(u, log, running, elapsed).0,
            after_look(u, log, running, elapsed).1.act,
        ),
{
    lemma_plans(ReplyView::Nothing);
}

proof fn lemma_start_turn(u: UpView, r: ReplyView)
    requires
        starting(u.stage),
    ensures
        shut_kept(u, r, start_step(u, r).0, start_step(u, r).1.act),
{
    match r {
        ReplyView::Tor(log, running, elapsed) if u.stage == UpStage::Await => {
            lemma_look(u, r, log, running, elapsed);
        },
        _ => {
            lemma_plans(r);
        },
    }
}

proof fn lemma_shut(w: World, r: ReplyView, n: UpView, act: ActView)
    requires
        sound(w),
        behind(w.up.stage),
        !proving(w.up.stage),
        shut_kept(w.up, r, n, act),
    ensures
        sound(becomes(w, r, n, act)),
{
    lemma_act(w.armed, w.act, r);
}

proof fn lemma_prove(w: World, r: ReplyView)
    requires
        sound(w),
        proving(w.up.stage),
    ensures
        sound(advance(w, r)),
{
    lemma_act(w.armed, w.act, r);
    lemma_states_differ();
}

proof fn lemma_sound(w: World, r: ReplyView)
    requires
        sound(w),
    ensures
        sound(advance(w, r)),
{
    let (n, t) = up_step(w.up, r);
    lemma_states_differ();
    if w.up.stage == UpStage::Done {
        lemma_act(w.armed, w.act, r);
    } else if attaching(w.up.stage) {
        lemma_attach_turn(w.up, r);
        lemma_attach(w, r, n, t.act);
    } else if unarmed(w.up.stage) {
        lemma_open_turn(w.up, r);
        lemma_open(w, r, n, t.act);
    } else if proving(w.up.stage) {
        lemma_prove(w, r);
    } else {
        if starting(w.up.stage) {
            lemma_start_turn(w.up, r);
        } else if w.up.stage == UpStage::Harden || w.up.stage == UpStage::SaveLocked {
            lemma_hardening_turn(w.up, r);
        } else {
            lemma_shut_turn(w.up, r);
        }
        lemma_shut(w, r, n, t.act);
    }
}

proof fn lemma_run(w: World, replies: Seq<ReplyView>)
    requires
        sound(w),
    ensures
        sound(run(w, replies)),
    decreases replies.len(),
{
    if replies.len() > 0 {
        lemma_run(w, replies.drop_last());
        lemma_sound(run(w, replies.drop_last()), replies.last());
    }
}

/// The lock comes first: whatever the host replies, it is hardened, its resolver is pinned, Tor is
/// started and waited for, and the probes are run only while the kill-switch is armed.
pub proof fn law_locked_before_anything(args: Seq<Text>, armed: bool, replies: Seq<ReplyView>)
    ensures
        ({
            let w = run(before(args, armed), replies);
            needs_cover(w.act) ==> w.armed
        }),
{
    lemma_run(before(args, armed), replies);
}

/// Nothing from before survives: the first thing that is done behind the kill-switch is to empty the
/// connection-tracking table, and where that fails the user is warned of it.
pub proof fn law_old_connections_are_cut(u: UpView, r: ReplyView, flushed: ReplyView)
    requires
        u.stage == UpStage::Arm,
        got_done(r) is Ok,
    ensures
        ({
            let (n, t) = up_step(u, r);
            &&& t.act == ActView::Quiet(cmd("conntrack"@, seq!["-F"@]))
            &&& !got_success(flushed) ==> (up_step(n, flushed).1.act matches ActView::Plan(p)
                && p.contains(attempt(OpView::Warn(flush_warning()))))
        }),
{
    let n = up_step(u, r).0;
    if !got_success(flushed) {
        if let ActView::Plan(p) = up_step(n, flushed).1.act {
            assert(p[1] == attempt(OpView::Warn(flush_warning())));
        }
    }
}

/// Arming opens nothing: where the kill-switch is installed already, it still is after arming,
/// whatever the host replies; a ruleset that is rejected leaves the one from before.
pub proof fn law_arming_never_disarms(uids: Seq<u32>, r: ReplyView)
    ensures
        armed_after(true, ActView::Plan(up_plan(uids)), r),
        got_done(r) is Ok ==> armed_after(false, ActView::Plan(up_plan(uids)), r),
{
    lemma_arming(true, uids, r);
    lemma_arming(false, uids, r);
}

/// A turn takes nothing of the kill-switch away.
proof fn lemma_armed_stays(w: World, more: Seq<ReplyView>)
    requires
        sound(w),
        w.armed,
    ensures
        run(w, more).armed,
    decreases more.len(),
{
    if more.len() > 0 {
        lemma_armed_stays(w, more.drop_last());
        lemma_run(w, more.drop_last());
        let n = run(w, more.drop_last());
        if n.up.stage == UpStage::Arm {
            lemma_arming(n.armed, exempt_users(n.up), more.last());
        } else {
            lemma_act(n.armed, n.act, more.last());
        }
    }
}

/// The lock holds: once the kill-switch is armed, by a bring-up or before it, no reply of the host
/// makes the bring-up take the kill-switch down again.
pub proof fn law_lock_holds(
    args: Seq<Text>,
    armed: bool,
    replies: Seq<ReplyView>,
    more: Seq<ReplyView>,
)
    ensures
        ({
            let w = run(before(args, armed), replies);
            &&& armed || w.fresh ==> w.armed && run(w, more).armed
            &&& w.fresh ==> run(w, more).fresh
        }),
{
    let w = run(before(args, armed), replies);
    lemma_run(before(args, armed), replies);
    if armed {
        lemma_armed_stays(before(args, armed), replies);
    }
    if w.armed {
        lemma_armed_stays(w, more);
    }
    if w.fresh {
        lemma_fresh_stays(w, more);
    }
}

proof fn lemma_fresh_stays(w: World, more: Seq<ReplyView>)
    requires
        w.fresh,
    ensures
        run(w, more).fresh,
    decreases more.len(),
{
    if more.len() > 0 {
        lemma_fresh_stays(w, more.drop_last());
    }
}

/// There is no path to an active session but through the probes: a new session is kept on disk as
/// active, and published as active, only when every probe has passed, and a bring-up that has armed
/// the kill-switch ends well only with such a session.
pub proof fn law_active_only_when_proven(args: Seq<Text>, armed: bool, replies: Seq<ReplyView>)
    ensures
        ({
            let w = run(before(args, armed), replies);
            &&& w.fresh && w.kept == Some(State::Active) ==> w.proven
            &&& w.fresh && w.act == ActView::End(Ok(())) ==> w.proven && w.kept == Some(
                State::Active,
            )
            &&& w.fresh && shown_active(w) ==> w.proven
            &&& !attaching(w.up.stage) && (w.act matches ActView::Publish(state, _) && state
                == "Active"@) ==> w.proven
        }),
{
    lemma_run(before(args, armed), replies);
    lemma_states_differ();
}

/// The states that are published differ.
proof fn lemma_states_differ()
    ensures
        "Locked"@ != "Active"@,
{
    reveal_strlit("Locked");
    reveal_strlit("Active");
    assert("Locked"@[0] == 'L' && "Active"@[0] == 'A');
}

/// Failure is closed: a bring-up that fails after it has armed the kill-switch leaves the
/// kill-switch armed and no session on disk that claims to be active. Where the session could be
/// kept on disk, it is kept as locked, and published as locked, without an exit address and as one
/// that does not leak.
pub proof fn law_failure_stays_locked(args: Seq<Text>, armed: bool, replies: Seq<ReplyView>)
    ensures
        ({
            let w = run(before(args, armed), replies);
            w.fresh && w.act is End && w.act != ActView::End(Ok(())) ==> {
                &&& w.armed
                &&& w.kept != Some(State::Active)
                &&& !w.lost ==> shown_locked(w)
            }
        }),
        forall|up: Layers|
            #[trigger] publication_plan(ActView::Publish("Locked"@, ""@), up) == publish_plan(
                "Locked"@,
                ""@,
                false,
                0,
                up,
            ),
{
    lemma_run(before(args, armed), replies);
}

/// Attaching the overlay disturbs nothing: from the moment that a session is found active, an armed
/// kill-switch stays armed whatever the host replies.
pub proof fn law_attaching_keeps_the_lock(w: World, replies: Seq<ReplyView>)
    requires
        attaching(w.up.stage),
        w.act is I2pRunning,
        w.armed,
    ensures
        run(w, replies).armed,
{
    lemma_attached(w, replies);
}

proof fn lemma_attached(w: World, replies: Seq<ReplyView>)
    requires
        attaching(w.up.stage),
        w.act is I2pRunning,
        w.armed,
    ensures
        ({
            let n = run(w, replies);
            &&& n.armed
            &&& attaching(n.up.stage) || n.up.stage == UpStage::Done
            &&& n.act matches ActView::Plan(p) ==> calm(p)
        }),
    decreases replies.len(),
{
    if replies.len() > 0 {
        let before = run(w, replies.drop_last());
        let r = replies.last();
        lemma_attached(w, replies.drop_last());
        lemma_act(before.armed, before.act, r);
        if before.up.stage != UpStage::Done {
            lemma_attach_turn(before.up, r);
        }
    }
}

/// The overlay is additive: once Tor is up, nothing that goes wrong with the overlay keeps a new
/// session from its probes.
pub proof fn law_overlay_never_fails_the_session(u: UpView, r: ReplyView)
    requires
        u.stage == UpStage::I2pPrepare || u.stage == UpStage::I2pLaunch || u.stage
            == UpStage::I2pWait,
    ensures
        ({
            let n = up_step(u, r).0;
            &&& n.stage == UpStage::I2pLaunch || n.stage == UpStage::I2pWait || n.stage
                == UpStage::Probe
            &&& n.sess == u.sess
        }),
{
}

/// Attaching is additive: once the overlay's user is exempt, the bring-up ends well whatever comes
/// of the overlay; and where the overlay cannot be launched, its user is taken out again, so that
/// Tor's is the only one left.
pub proof fn law_attaching_ends_well(u: UpView, r: ReplyView)
    requires
        attaching(u.stage),
        u.stage != UpStage::AttachTor,
        u.stage != UpStage::AttachI2p,
        u.stage != UpStage::Rearm,
    ensures
        up_step(u, r).1.act matches ActView::End(e) ==> e is Ok,
        u.stage == UpStage::AttachLaunch && got_launched(r) is Err ==> up_step(u, r).1.act
            == ActView::Plan(rearm_plan(seq![u.tor_uid])),
{
}

/// The stages after the resolver configuration has been read.
pub open spec fn recorded(s: UpStage) -> bool {
    starting(s) || proving(s) || s == UpStage::Pin || s == UpStage::SavePinned || s
        == UpStage::SaveBootstrapping
}

/// A turn that changes nothing of what the session records but its state.
pub open spec fn keeps_record(u: UpView, n: UpView) -> bool {
    n.sess == (SessionView { state: n.sess.state, ..u.sess })
}

proof fn lemma_look_keeps(u: UpView, log: Text, running: bool, elapsed: u128)
    ensures
        keeps_record(u, after_look(u, log, running, elapsed).0),
        recorded(after_look(u, log, running, elapsed).0.stage),
{
}

proof fn lemma_start_keeps(u: UpView, r: ReplyView)
    requires
        starting(u.stage),
    ensures
        keeps_record(u, start_step(u, r).0),
        recorded(start_step(u, r).0.stage),
{
    match r {
        ReplyView::Tor(log, running, elapsed) if u.stage == UpStage::Await => {
            lemma_look_keeps(u, log, running, elapsed);
        },
        _ => {},
    }
}

proof fn lemma_prove_keeps(u: UpView, r: ReplyView)
    requires
        proving(u.stage),
    ensures
        keeps_record(u, proof_step(u, r).0),
        recorded(proof_step(u, r).0.stage) || proof_step(u, r).0.stage == UpStage::Done,
{
}

proof fn lemma_shut_keeps(u: UpView, r: ReplyView)
    requires
        u.stage == UpStage::Pin || u.stage == UpStage::SavePinned || u.stage
            == UpStage::SaveBootstrapping,
    ensures
        keeps_record(u, shut_step(u, r).0),
        recorded(shut_step(u, r).0.stage),
{
}

/// The record is kept: once the resolver configuration has been read, nothing that the session
/// records changes any more but its state, so that taking it down finds what bringing it up found.
pub proof fn law_the_record_is_kept(u: UpView, r: ReplyView)
    requires
        recorded(u.stage),
    ensures
        keeps_record(u, up_step(u, r).0),
        recorded(up_step(u, r).0.stage) || up_step(u, r).0.stage == UpStage::Done,
{
    if proving(u.stage) {
        lemma_prove_keeps(u, r);
    } else if starting(u.stage) {
        lemma_start_keeps(u, r);
    } else {
        lemma_shut_keeps(u, r);
    }
}

/// The configuration that was found is the one that is put back: what a bring-up reads of the
/// resolver configuration, where it is not blank and not the daemon's own, is what taking its
/// session down writes.
pub proof fn law_the_resolver_is_put_back(u: UpView, current: Text)
    requires
        u.stage == UpStage::Resolv,
        !carries(current, "# anond:"@),
        exists|i: int| 0 <= i < current.len() && !is_white(#[trigger] current[i]),
    ensures
        usable_backup(Some(up_step(u, ReplyView::Text(current)).0.sess)) == Some(current),
{
    law_genuine(current);
}

} // verus!
