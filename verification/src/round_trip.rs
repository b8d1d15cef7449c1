//! What bringing a session up changes, taking it down puts back. The host is modelled by the
//! settings that hardening touches, its resolver configuration and the record of the session; it
//! answers truthfully and can keep the record. Whether a command that changes a setting succeeds on
//! the way up is left open.
use vstd::prelude::*;

use crate::{i2p, tor};

use crate::bring_up::{
    ActView, ReplyView, UpStage, UpView, advice_plan, after_look, attach_step, attaching,
    begin_up, flush_plan, got_done, got_file, harden_step, open_step, prepare_plan, proof_step,
    proving, shut_step, start_plan, start_step, starting, unarmed, up_step,
};
use crate::dns::{RESOLV, is_genuine, law_genuine, pin_plan, usable_backup};
use crate::fail_closed::{behind, recorded};
use crate::harden::{
    BROADCASTS, SeenView, TIMESTAMPS, mac_steps, restore_plan, set_hostname, setting_steps, swap_on, try_run, unmount_steps,
};
use crate::i2p::i2pd_command;
use crate::killswitch::{down_plan, up_plan};
use crate::plan::{CommandView, OpView, StepView, attempt};
use crate::reversal::{
    Host, World, after, answers, before_hardening, blank, carried_out, effect, has_entry, kept,
    lemma_kept_on, lemma_kept_start, lemma_put_back, put_back, restorable, same_mac, sane,
};
use crate::state::{SessionView, session_file};
use crate::take_down::{DownStage, DownView, caches_plan, clear_plan, down_step, unpin_plan};
use crate::text::{Text, carries, is_white};
use crate::tor::{launch_plan, log_file, restart_plan, torrc_plan};
use crate::util::dirs_plan;

verus! {

// ---------- commands that leave the settings alone ----------
/// A program that none of the settings depends on.
pub open spec fn foreign(bin: Text) -> bool {
    bin != "swapoff"@ && bin != "swapon"@ && bin != "sysctl"@ && bin != "hostname"@ && bin != "ip"@
}

/// A plan that runs only programs that none of the settings depends on.
#[verifier::opaque]
pub open spec fn harmless(p: Seq<StepView>) -> bool {
    forall|i: int| 0 <= i < p.len() ==> ((#[trigger] p[i]).op matches OpView::Run(c) ==> foreign(c.bin))
}

proof fn lemma_foreign()
    ensures
        foreign("chattr"@),
        foreign("chown"@),
        foreign("tor"@),
        foreign("kill"@),
        foreign("pkill"@),
        foreign("sync"@),
        foreign("runuser"@),
{
    reveal_strlit("swapoff");
    reveal_strlit("swapon");
    reveal_strlit("sysctl");
    reveal_strlit("hostname");
    reveal_strlit("ip");
    reveal_strlit("chattr");
    reveal_strlit("chown");
    reveal_strlit("tor");
    reveal_strlit("kill");
    reveal_strlit("pkill");
    reveal_strlit("sync");
    reveal_strlit("runuser");
    assert("swapoff"@.len() == 7 && "swapon"@.len() == 6 && "sysctl"@.len() == 6);
    assert("hostname"@.len() == 8 && "ip"@.len() == 2 && "chattr"@.len() == 6);
    assert("chown"@.len() == 5 && "tor"@.len() == 3 && "kill"@.len() == 4 && "pkill"@.len() == 5);
    assert("sync"@.len() == 4 && "runuser"@.len() == 7);
    assert("chattr"@[0] == 'c' && "swapon"@[0] == 's' && "sysctl"@[0] == 's');
    assert("runuser"@[0] == 'r' && "swapoff"@[0] == 's');
}

proof fn lemma_effect(c: CommandView, h: Host)
    requires
        foreign(c.bin),
    ensures
        effect(c, h) == h,
{
}

proof fn lemma_harmless(h: Host, p: Seq<StepView>)
    requires
        harmless(p),
    ensures
        carried_out(h, p) == h,
    decreases p.len(),
{
    reveal(harmless);
    if p.len() > 0 {
        let q = p.drop_last();
        assert forall|i: int| 0 <= i < q.len() implies ((#[trigger] q[i]).op matches OpView::Run(c)
            ==> foreign(c.bin)) by {
            assert(q[i] == p[i]);
        }
        lemma_harmless(h, q);
        assert(p.last() == p[p.len() - 1]);
    }
}

proof fn lemma_harmless_sum(a: Seq<StepView>, b: Seq<StepView>)
    requires
        harmless(a),
        harmless(b),
    ensures
        harmless(a + b),
{
    reveal(harmless);
    assert forall|i: int| 0 <= i < (a + b).len() implies ((#[trigger] (a + b)[i]).op matches OpView::Run(
        c,
    ) ==> foreign(c.bin)) by {
        if i < a.len() {
            assert((a + b)[i] == a[i]);
        } else {
            assert((a + b)[i] == b[i - a.len()]);
        }
    }
}

/// The plans of a bring-up leave the settings alone.
proof fn lemma_up_plans(r: ReplyView)
    ensures
        harmless(start_plan()),
        harmless(pin_plan()),
        harmless(prepare_plan()),
        harmless(advice_plan()),
        harmless(restart_plan(got_file(r))),
        forall|b: bool| harmless(#[trigger] flush_plan(b)),
        forall|uids: Seq<u32>| harmless(#[trigger] up_plan(uids)),
        foreign(i2pd_command().bin),
{
    lemma_foreign();
    reveal(harmless);
    let tail = seq![attempt(OpView::Write(log_file(), ""@))];
    let rest = torrc_plan().skip(dirs_plan().len() as int);
    assert(torrc_plan() =~= dirs_plan() + rest);
    assert(harmless(dirs_plan()));
    assert(harmless(rest)) by {
        assert(torrc_plan().len() == 8);
    }
    lemma_harmless_sum(dirs_plan(), rest);
    lemma_harmless_sum(torrc_plan(), tail);
    assert(harmless(launch_plan()));
    lemma_harmless_sum(torrc_plan() + tail, launch_plan());
    let contents = got_file(r);
    let a = seq![attempt(OpView::Pause(500))];
    let b = seq![attempt(OpView::Pause(2000))];
    lemma_stop_plans(r);
    lemma_harmless_sum(tor::stop_plan(contents), a);
    lemma_harmless_sum(tor::stop_plan(contents) + a, launch_plan());
    lemma_harmless_sum(tor::stop_plan(contents) + a + launch_plan(), b);
}

/// The plans that stop what runs leave the settings alone.
proof fn lemma_stop_plans(r: ReplyView)
    ensures
        harmless(tor::stop_plan(got_file(r))),
        harmless(i2p::stop_plan(got_file(r))),
{
    lemma_foreign();
    reveal(harmless);
}

// ---------- the way up ----------
/// A bring-up, the action that is under way, the settings of the host, and the record on disk.
pub struct Rising {
    pub up: UpView,
    pub act: ActView,
    pub host: Host,
    pub record: Option<SessionView>,
    /// The bring-up has been behind the kill-switch.
    pub fresh: bool,
}

/// Whether a reply is one that a host gives which holds a resolver configuration.
pub open spec fn fair(host: Host, resolv: Text, act: ActView, r: ReplyView) -> bool {
    match act {
        ActView::Harden(ask) => r matches ReplyView::Seen(seen, _) && answers(host, ask, seen),
        ActView::Resolv => r == ReplyView::Text(resolv),
        ActView::Save => got_done(r) is Ok,
        _ => true,
    }
}

/// A host after an action that it has replied to.
pub open spec fn host_after(host: Host, act: ActView, r: ReplyView) -> Host {
    match act {
        ActView::Harden(ask) => match r {
            ReplyView::Seen(seen, _) => after(host, ask, seen),
            _ => host,
        },
        ActView::Plan(p) => carried_out(host, p),
        ActView::Run(c) => effect(c, host),
        _ => host,
    }
}

/// The host replies to the action, and the bring-up takes its next turn.
pub open spec fn rise(w: Rising, r: ReplyView) -> Rising {
    let (n, t) = up_step(w.up, r);
    Rising {
        up: n,
        act: t.act,
        host: host_after(w.host, w.act, r),
        record: if w.act is Save {
            Some(w.up.sess)
        } else {
            w.record
        },
        fresh: w.fresh || behind(n.stage),
    }
}

/// A bring-up after a series of replies.
pub open spec fn risen(w: Rising, replies: Seq<ReplyView>) -> Rising
    decreases replies.len(),
{
    if replies.len() == 0 {
        w
    } else {
        rise(risen(w, replies.drop_last()), replies.last())
    }
}

/// Whether every reply is one that the host gives at that moment.
pub open spec fn fairly(w: Rising, resolv: Text, replies: Seq<ReplyView>) -> bool
    decreases replies.len(),
{
    replies.len() == 0 || {
        let before = risen(w, replies.drop_last());
        fairly(w, resolv, replies.drop_last()) && fair(
            before.host,
            resolv,
            before.act,
            replies.last(),
        )
    }
}

pub open spec fn before_rising(args: Seq<Text>, host: Host, record: Option<SessionView>) -> Rising {
    Rising { up: begin_up(args), act: ActView::Euid, host, record, fresh: false }
}

/// The session says how to put everything back.
pub open spec fn accounted(s: SessionView, host: Host, h0: Host, resolv: Text) -> bool {
    restorable(s, host, h0) && s.resolv_backup == Some(resolv)
}

/// The stages between arming the kill-switch and hardening.
spec fn arming(s: UpStage) -> bool {
    s == UpStage::Flush || s == UpStage::Flushed || s == UpStage::SaveLocked
}

/// An action that leaves the settings alone.
spec fn idle(act: ActView) -> bool {
    match act {
        ActView::Harden(_) => false,
        ActView::Plan(p) => harmless(p),
        ActView::Run(c) => foreign(c.bin),
        _ => true,
    }
}

/// What holds of every bring-up that a host can reach.
spec fn steady(w: Rising, h0: Host, resolv: Text) -> bool {
    let s = w.up.stage;
    &&& w.act is End ==> s == UpStage::Done
    &&& unarmed(s) ==> !w.fresh && w.host == h0 && idle(w.act)
    &&& s == UpStage::I2pUid || s == UpStage::Arm || arming(s) ==> blank(w.up.sess)
    &&& attaching(s) ==> !w.fresh
    &&& arming(s) ==> w.host == h0 && idle(w.act)
    &&& s == UpStage::Harden ==> (w.act matches ActView::Harden(ask) && kept(
        World { hardening: w.up.hardening, session: w.up.sess, ask, host: w.host },
        h0,
    )) && !w.up.sess.hostname_mount && !w.up.sess.machine_id_spoofed
    &&& s == UpStage::SaveHardened || s == UpStage::Resolv ==> idle(w.act) && restorable(
        w.up.sess,
        w.host,
        h0,
    )
    &&& s == UpStage::Resolv ==> w.act is Resolv
    &&& s == UpStage::SaveLocked || s == UpStage::SaveHardened || s == UpStage::SaveActive || s
        == UpStage::SaveFailed ==> w.act is Save
    &&& recorded(s) ==> idle(w.act) && accounted(w.up.sess, w.host, h0, resolv)
    &&& s == UpStage::PublishActive || s == UpStage::PublishFailed || (s == UpStage::Done
        && w.fresh) ==> w.record == Some(w.up.sess)
    &&& s == UpStage::Done && w.fresh ==> accounted(w.up.sess, w.host, h0, resolv) && idle(w.act)
        && !(w.act is Save)
}

proof fn lemma_idle(host: Host, act: ActView, r: ReplyView)
    requires
        idle(act),
    ensures
        host_after(host, act, r) == host,
{
    match act {
        ActView::Plan(p) => lemma_harmless(host, p),
        ActView::Run(c) => lemma_effect(c, host),
        _ => {},
    }
}

/// What a session accounts for does not depend on its state.
proof fn lemma_same_record(s: SessionView, n: SessionView, host: Host, h0: Host)
    requires
        restorable(s, host, h0),
        n == (SessionView { state: n.state, resolv_backup: n.resolv_backup, ..s }),
    ensures
        restorable(n, host, h0),
{
    assert forall|x: Text|
        #![trigger same_mac(host, h0, x)]
        !has_entry(n, x) implies same_mac(host, h0, x) by {
        if has_entry(s, x) {
            let k = choose|k: int|
                0 <= k < s.mac_backup.len() && (#[trigger] s.mac_backup[k]).0 == x;
            assert(n.mac_backup[k].0 == x);
        }
    }
}

proof fn lemma_rise_open(w: Rising, h0: Host, resolv: Text, r: ReplyView)
    requires
        steady(w, h0, resolv),
        unarmed(w.up.stage),
    ensures
        steady(rise(w, r), h0, resolv),
{
    lemma_up_plans(r);
    lemma_idle(w.host, w.act, r);
    assert(up_step(w.up, r) == open_step(w.up, r));
}

proof fn lemma_rise_attach(w: Rising, h0: Host, resolv: Text, r: ReplyView)
    requires
        steady(w, h0, resolv),
        attaching(w.up.stage),
    ensures
        steady(rise(w, r), h0, resolv),
{
    assert(up_step(w.up, r) == attach_step(w.up, r));
}

proof fn lemma_rise_harden(w: Rising, h0: Host, resolv: Text, r: ReplyView)
    requires
        steady(w, h0, resolv),
        w.up.stage == UpStage::SaveLocked || w.up.stage == UpStage::Harden,
        fair(w.host, resolv, w.act, r),
        sane(h0),
    ensures
        steady(rise(w, r), h0, resolv),
{
    let u = w.up;
    assert(up_step(u, r) == harden_step(u, r));
    if u.stage == UpStage::SaveLocked {
        lemma_idle(w.host, w.act, r);
        lemma_kept_start(u.mac, u.sess, h0);
        lemma_kept_on(before_hardening(u.mac, u.sess, h0), h0, SeenView::Nothing, 0);
    } else if let ActView::Harden(ask) = w.act {
        if let ReplyView::Seen(seen, nanos) = r {
            let b = World { hardening: u.hardening, session: u.sess, ask, host: w.host };
            lemma_kept_on(b, h0, seen, nanos);
        }
    }
}

proof fn lemma_rise_shut(w: Rising, h0: Host, resolv: Text, r: ReplyView)
    requires
        steady(w, h0, resolv),
        behind(w.up.stage),
        !proving(w.up.stage),
        !starting(w.up.stage),
        w.up.stage != UpStage::SaveLocked,
        w.up.stage != UpStage::Harden,
        fair(w.host, resolv, w.act, r),
        is_genuine(resolv),
    ensures
        steady(rise(w, r), h0, resolv),
{
    lemma_up_plans(r);
    lemma_idle(w.host, w.act, r);
    assert(up_step(w.up, r) == shut_step(w.up, r));
    let n = up_step(w.up, r).0.sess;
    if restorable(w.up.sess, w.host, h0) && n == (SessionView {
        state: n.state,
        resolv_backup: n.resolv_backup,
        ..w.up.sess
    }) {
        lemma_same_record(w.up.sess, n, w.host, h0);
    }
}

/// A turn that changes nothing that the session records but its state, and ends nothing.
spec fn goes_on(u: UpView, n: UpView, act: ActView) -> bool {
    &&& recorded(n.stage)
    &&& n.stage != UpStage::PublishActive && n.stage != UpStage::PublishFailed
    &&& n.stage == UpStage::SaveActive || n.stage == UpStage::SaveFailed ==> act is Save
    &&& n.sess == (SessionView { state: n.sess.state, ..u.sess })
    &&& idle(act)
    &&& !(act is End)
}

proof fn lemma_look_goes_on(u: UpView, log: Text, running: bool, elapsed: u128)
    ensures
        goes_on(
            u,
            after_look(u, log, running, elapsed).0,
            after_look(u, log, running, elapsed).1.act,
        ),
{
    lemma_up_plans(ReplyView::Nothing);
}

proof fn lemma_start_goes_on(u: UpView, r: ReplyView)
    requires
        starting(u.stage),
    ensures
        goes_on(u, start_step(u, r).0, start_step(u, r).1.act),
{
    lemma_up_plans(r);
    match r {
        ReplyView::Tor(log, running, elapsed) if u.stage == UpStage::Await => {
            lemma_look_goes_on(u, log, running, elapsed);
        },
        _ => {},
    }
}

proof fn lemma_rise_on(w: Rising, h0: Host, resolv: Text, r: ReplyView, n: Rising)
    requires
        steady(w, h0, resolv),
        starting(w.up.stage),
        goes_on(w.up, n.up, n.act),
        n.host == host_after(w.host, w.act, r),
    ensures
        steady(n, h0, resolv),
{
    lemma_idle(w.host, w.act, r);
    lemma_same_record(w.up.sess, n.up.sess, w.host, h0);
}

proof fn lemma_rise_start(w: Rising, h0: Host, resolv: Text, r: ReplyView)
    requires
        steady(w, h0, resolv),
        starting(w.up.stage),
    ensures
        steady(rise(w, r), h0, resolv),
{
    lemma_start_goes_on(w.up, r);
    lemma_rise_on(w, h0, resolv, r, rise(w, r));
}

proof fn lemma_rise_prove(w: Rising, h0: Host, resolv: Text, r: ReplyView)
    requires
        steady(w, h0, resolv),
        proving(w.up.stage),
        fair(w.host, resolv, w.act, r),
    ensures
        steady(rise(w, r), h0, resolv),
{
    lemma_idle(w.host, w.act, r);
    assert(up_step(w.up, r) == proof_step(w.up, r));
    let n = up_step(w.up, r).0.sess;
    if restorable(w.up.sess, w.host, h0) && n == (SessionView {
        state: n.state,
        resolv_backup: n.resolv_backup,
        ..w.up.sess
    }) {
        lemma_same_record(w.up.sess, n, w.host, h0);
    }
}

proof fn lemma_rise(w: Rising, h0: Host, resolv: Text, r: ReplyView)
    requires
        steady(w, h0, resolv),
        fair(w.host, resolv, w.act, r),
        sane(h0),
        is_genuine(resolv),
    ensures
        steady(rise(w, r), h0, resolv),
{
    let s = w.up.stage;
    if s == UpStage::Done {
        if w.fresh {
            lemma_idle(w.host, w.act, r);
        }
    } else if attaching(s) {
        lemma_rise_attach(w, h0, resolv, r);
    } else if unarmed(s) {
        lemma_rise_open(w, h0, resolv, r);
    } else if proving(s) {
        lemma_rise_prove(w, h0, resolv, r);
    } else if starting(s) {
        lemma_rise_start(w, h0, resolv, r);
    } else if s == UpStage::SaveLocked || s == UpStage::Harden {
        lemma_rise_harden(w, h0, resolv, r);
    } else {
        lemma_rise_shut(w, h0, resolv, r);
    }
}

proof fn lemma_risen(
    args: Seq<Text>,
    h0: Host,
    record: Option<SessionView>,
    resolv: Text,
    replies: Seq<ReplyView>,
)
    requires
        sane(h0),
        is_genuine(resolv),
        fairly(before_rising(args, h0, record), resolv, replies),
    ensures
        steady(risen(before_rising(args, h0, record), replies), h0, resolv),
    decreases replies.len(),
{
    let w0 = before_rising(args, h0, record);
    if replies.len() > 0 {
        lemma_risen(args, h0, record, resolv, replies.drop_last());
        lemma_rise(risen(w0, replies.drop_last()), h0, resolv, replies.last());
    }
}

/// The record accounts for everything: when a bring-up that has been behind the kill-switch ends,
/// well or not, the session on disk says how to put back the resolver configuration that was found
/// and all that was changed of the host.
pub proof fn law_the_record_accounts_for_everything(
    args: Seq<Text>,
    host: Host,
    record: Option<SessionView>,
    resolv: Text,
    replies: Seq<ReplyView>,
)
    requires
        sane(host),
        !carries(resolv, "# anond:"@),
        exists|i: int| 0 <= i < resolv.len() && !is_white(#[trigger] resolv[i]),
        fairly(before_rising(args, host, record), resolv, replies),
        risen(before_rising(args, host, record), replies).fresh,
        risen(before_rising(args, host, record), replies).act is End,
    ensures
        ({
            let w = risen(before_rising(args, host, record), replies);
            w.record matches Some(s) && accounted(s, w.host, host, resolv)
        }),
{
    law_genuine(resolv);
    lemma_risen(args, host, record, resolv, replies);
}

// ---------- the way down ----------
/// Taking a session down, the action that is under way, the settings of the host, its resolver
/// configuration, and the record on disk.
pub struct Falling {
    pub down: DownView,
    pub act: ActView,
    pub host: Host,
    pub resolv: Text,
    pub record: Option<SessionView>,
}

/// The resolver configuration after a plan.
pub open spec fn resolv_after(resolv: Text, p: Seq<StepView>) -> Text
    decreases p.len(),
{
    if p.len() == 0 {
        resolv
    } else {
        match p.last().op {
            OpView::Write(path, text) if path == RESOLV@ => text,
            _ => resolv_after(resolv, p.drop_last()),
        }
    }
}

/// The record on disk after a plan.
pub open spec fn record_after(record: Option<SessionView>, p: Seq<StepView>) -> Option<SessionView>
    decreases p.len(),
{
    if p.len() == 0 {
        record
    } else {
        match p.last().op {
            OpView::Remove(path) if path == session_file() => None,
            _ => record_after(record, p.drop_last()),
        }
    }
}

/// Whether a reply is one that a host gives on which every plan is carried out.
pub open spec fn obliging(w: Falling, r: ReplyView) -> bool {
    match w.act {
        ActView::Load => r == ReplyView::Loaded(w.record),
        ActView::Plan(_) => got_done(r) is Ok,
        _ => true,
    }
}

/// The host replies to the action, and the next turn is taken.
pub open spec fn fall(w: Falling, r: ReplyView) -> Falling {
    let (d, t) = down_step(w.down, r);
    Falling {
        down: d,
        act: t.act,
        host: host_after(w.host, w.act, r),
        resolv: match w.act {
            ActView::Plan(p) => resolv_after(w.resolv, p),
            _ => w.resolv,
        },
        record: match w.act {
            ActView::Plan(p) => record_after(w.record, p),
            _ => w.record,
        },
    }
}

/// What comes of a series of replies.
pub open spec fn fallen(w: Falling, replies: Seq<ReplyView>) -> Falling
    decreases replies.len(),
{
    if replies.len() == 0 {
        w
    } else {
        fall(fallen(w, replies.drop_last()), replies.last())
    }
}

/// Whether every reply is one that the host gives at that moment.
pub open spec fn obligingly(w: Falling, replies: Seq<ReplyView>) -> bool
    decreases replies.len(),
{
    replies.len() == 0 || {
        obligingly(w, replies.drop_last()) && obliging(
            fallen(w, replies.drop_last()),
            replies.last(),
        )
    }
}

pub open spec fn before_falling(host: Host, resolv: Text, record: Option<SessionView>) -> Falling {
    Falling {
        down: DownView { stage: DownStage::Root, sess: None },
        act: ActView::Euid,
        host,
        resolv,
        record,
    }
}

/// The stages in which what runs is stopped.
spec fn stopping(s: DownStage) -> bool {
    s == DownStage::I2p || s == DownStage::I2pPid || s == DownStage::I2pStop || s
        == DownStage::TorPid || s == DownStage::TorStop
}

/// The stages after the host has been put back.
spec fn finishing(s: DownStage) -> bool {
    s == DownStage::Disarm || s == DownStage::Clear || s == DownStage::Caches || s
        == DownStage::Publish
}

/// What holds while a session is taken down that accounts for everything.
spec fn easing(w: Falling, s: SessionView, h0: Host, resolv: Text) -> bool {
    let st = w.down.stage;
    &&& st == DownStage::Root ==> w.act is Euid
    &&& st == DownStage::Load ==> w.act is Load
    &&& st == DownStage::Root || st == DownStage::Load ==> w.record == Some(s)
    &&& st == DownStage::Root || st == DownStage::Load || stopping(st) || st == DownStage::Dns
        ==> accounted(s, w.host, h0, resolv)
    &&& stopping(st) ==> w.down.sess == Some(s) && idle(w.act)
    &&& st == DownStage::Dns ==> w.down.sess == Some(s) && w.act == ActView::Plan(
        unpin_plan(Some(s)),
    )
    &&& st != DownStage::Resolved && st != DownStage::Route && st != DownStage::Reconstruct
    &&& st == DownStage::Harden ==> w.act == ActView::Plan(restore_plan(s)) && restorable(
        s,
        w.host,
        h0,
    ) && w.resolv == resolv
    &&& finishing(st) ==> put_back(w.host, h0) && w.resolv == resolv
    &&& st == DownStage::Disarm ==> w.act == ActView::Plan(down_plan())
    &&& st == DownStage::Clear ==> w.act == ActView::Plan(clear_plan())
    &&& st == DownStage::Caches ==> w.act == ActView::Plan(caches_plan())
    &&& st == DownStage::Publish ==> w.act is Publish
    &&& st == DownStage::Caches || st == DownStage::Publish ==> w.record is None
    &&& w.act is End ==> st == DownStage::Done
    &&& st == DownStage::Done && w.act == ActView::End(Ok(())) ==> put_back(w.host, h0) && w.resolv
        == resolv && w.record is None
}

/// A plan of commands alone.
spec fn commands_only(p: Seq<StepView>) -> bool {
    forall|i: int| 0 <= i < p.len() ==> (#[trigger] p[i]).op is Run
}

proof fn lemma_commands_sum(a: Seq<StepView>, b: Seq<StepView>)
    requires
        commands_only(a),
        commands_only(b),
    ensures
        commands_only(a + b),
{
    assert forall|i: int| 0 <= i < (a + b).len() implies (#[trigger] (a + b)[i]).op is Run by {
        if i < a.len() {
            assert((a + b)[i] == a[i]);
        } else {
            assert((a + b)[i] == b[i - a.len()]);
        }
    }
}

proof fn lemma_mac_commands(v: Seq<(Text, Text)>)
    ensures
        commands_only(mac_steps(v)),
    decreases v.len(),
{
    if v.len() > 0 {
        lemma_mac_commands(v.drop_last());
        let last = mac_steps(v).skip(mac_steps(v.drop_last()).len() as int);
        assert(mac_steps(v) =~= mac_steps(v.drop_last()) + last);
        assert(commands_only(last));
        lemma_commands_sum(mac_steps(v.drop_last()), last);
    }
}

/// The plan that puts the host back consists of commands.
proof fn lemma_restore_commands(s: SessionView)
    ensures
        commands_only(restore_plan(s)),
{
    let head = unmount_steps(s) + match s.hostname_backup {
        Some(name) => seq![try_run(set_hostname(name))],
        None => seq![],
    };
    let ts = setting_steps(TIMESTAMPS@, s.timestamps_backup);
    let bs = setting_steps(BROADCASTS@, s.broadcasts_backup);
    let swap = if s.swap_was_on {
        seq![try_run(swap_on())]
    } else {
        seq![]
    };
    assert(commands_only(unmount_steps(s)));
    assert(commands_only(head));
    assert(commands_only(ts));
    assert(commands_only(bs));
    assert(commands_only(swap));
    lemma_mac_commands(s.mac_backup);
    lemma_commands_sum(head, mac_steps(s.mac_backup));
    lemma_commands_sum(head + mac_steps(s.mac_backup), ts);
    lemma_commands_sum(head + mac_steps(s.mac_backup) + ts, bs);
    lemma_commands_sum(head + mac_steps(s.mac_backup) + ts + bs, swap);
}

proof fn lemma_commands_write_nothing(resolv: Text, p: Seq<StepView>)
    requires
        commands_only(p),
    ensures
        resolv_after(resolv, p) == resolv,
    decreases p.len(),
{
    if p.len() > 0 {
        let q = p.drop_last();
        assert forall|i: int| 0 <= i < q.len() implies (#[trigger] q[i]).op is Run by {
            assert(q[i] == p[i]);
        }
        lemma_commands_write_nothing(resolv, q);
        assert(p.last() == p[p.len() - 1]);
    }
}

/// What the last plans do to the resolver configuration and the record.
proof fn lemma_last_plans(resolv: Text, record: Option<SessionView>, s: SessionView, b: Text)
    requires
        usable_backup(Some(s)) == Some(b),
    ensures
        resolv_after(resolv, unpin_plan(Some(s))) == b,
        resolv_after(resolv, down_plan()) == resolv,
        resolv_after(resolv, clear_plan()) == resolv,
        resolv_after(resolv, caches_plan()) == resolv,
        record_after(record, clear_plan()) is None,
        record_after(None, caches_plan()) is None,
        harmless(unpin_plan(Some(s))),
        harmless(down_plan()),
        harmless(clear_plan()),
        harmless(caches_plan()),
{
    lemma_foreign();
    reveal(harmless);
    reveal_with_fuel(resolv_after, 3);
    reveal_with_fuel(record_after, 3);
    reveal_strlit("/proc/sys/vm/drop_caches");
    reveal_strlit("/etc/resolv.conf");
    assert("/proc/sys/vm/drop_caches"@.len() != RESOLV@.len());
    assert(unpin_plan(Some(s)).len() == 2);
    assert(down_plan().drop_last().len() == 1);
    assert(caches_plan().drop_last().len() == 1);
    assert(clear_plan().len() == 1);
}

proof fn lemma_fall(w: Falling, s: SessionView, h0: Host, resolv: Text, r: ReplyView)
    requires
        easing(w, s, h0, resolv),
        obliging(w, r),
        is_genuine(resolv),
    ensures
        easing(fall(w, r), s, h0, resolv),
{
    let st = w.down.stage;
    lemma_stop_plans(r);
    if st == DownStage::Done {
    } else if stopping(st) || st == DownStage::Root || st == DownStage::Load {
        lemma_idle(w.host, w.act, r);
    } else {
        assert(st == DownStage::Dns || st == DownStage::Harden || finishing(st));
        if st == DownStage::Harden {
            lemma_put_back(s, w.host, h0);
            lemma_restore_commands(s);
            lemma_commands_write_nothing(w.resolv, restore_plan(s));
        } else {
            lemma_after(w, s, h0, resolv, r);
        }
    }
}

proof fn lemma_after(w: Falling, s: SessionView, h0: Host, resolv: Text, r: ReplyView)
    requires
        easing(w, s, h0, resolv),
        obliging(w, r),
        is_genuine(resolv),
        w.down.stage == DownStage::Dns || finishing(w.down.stage),
    ensures
        easing(fall(w, r), s, h0, resolv),
{
    lemma_last_plans(
        w.resolv,
        w.record,
        SessionView { resolv_backup: Some(resolv), ..s },
        resolv,
    );
    lemma_idle(w.host, w.act, r);
}

proof fn lemma_fallen(
    w: Falling,
    s: SessionView,
    h0: Host,
    resolv: Text,
    replies: Seq<ReplyView>,
)
    requires
        easing(w, s, h0, resolv),
        obligingly(w, replies),
        is_genuine(resolv),
    ensures
        easing(fallen(w, replies), s, h0, resolv),
    decreases replies.len(),
{
    if replies.len() > 0 {
        lemma_fallen(w, s, h0, resolv, replies.drop_last());
        lemma_fall(fallen(w, replies.drop_last()), s, h0, resolv, replies.last());
    }
}

/// What was brought up is taken down: a bring-up that has been behind the kill-switch and ended,
/// well or not, is undone by taking its session down. The host then has the swap, the host name,
/// the hardware addresses, the kernel settings and the resolver configuration that it had before,
/// and no record is left. The resolver configuration must be neither blank nor the daemon's own, the host
/// name must stand without white space around it, and the plans of taking the session down must be
/// carried out; what the resolver configuration holds by then does not matter.
pub proof fn law_down_undoes_up(
    args: Seq<Text>,
    host: Host,
    record: Option<SessionView>,
    resolv: Text,
    ups: Seq<ReplyView>,
    found: Text,
    downs: Seq<ReplyView>,
)
    requires
        sane(host),
        !carries(resolv, "# anond:"@),
        exists|i: int| 0 <= i < resolv.len() && !is_white(#[trigger] resolv[i]),
        fairly(before_rising(args, host, record), resolv, ups),
        risen(before_rising(args, host, record), ups).fresh,
        risen(before_rising(args, host, record), ups).act is End,
        ({
            let w = risen(before_rising(args, host, record), ups);
            let f = before_falling(w.host, found, w.record);
            obligingly(f, downs) && fallen(f, downs).act == ActView::End(Ok(()))
        }),
    ensures
        ({
            let w = risen(before_rising(args, host, record), ups);
            let end = fallen(before_falling(w.host, found, w.record), downs);
            &&& put_back(end.host, host)
            &&& end.resolv == resolv
            &&& end.record is None
        }),
{
    law_genuine(resolv);
    law_the_record_accounts_for_everything(args, host, record, resolv, ups);
    let w = risen(before_rising(args, host, record), ups);
    let f = before_falling(w.host, found, w.record);
    lemma_fallen(f, w.record->0, host, resolv, downs);
}

} // verus!
