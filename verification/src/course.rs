//! The course of a session: where each turn of bringing it up and of taking it down leads, for every
//! reply of the host. A turn that succeeds leads on, and only what is named here ends the course.
use vstd::prelude::*;

use crate::{i2p, tor};

use crate::anond::{Layers, is_tunnel, law_the_true_condition, publish_plan};
use crate::bring_up::{
    ActView, ReplyView, UpStage, UpView, advice_plan, begin_up, exempt_users, fail,
    flush_plan, judged, prepare_plan, publication_plan, start_plan, up_step,
};
use crate::dns::{law_genuine, made_up, pin_plan, usable_backup};
use crate::harden::{SeenView, apply_step, restore_plan};
use crate::i2p::{i2pd_command, law_the_overlay_is_waited_for};
use crate::killswitch::{down_plan, rearm_plan, up_plan};
use crate::plan::{OpView, attempt, cmd};
use crate::state::{SessionView, State, moment};
use crate::take_down::{DownStage, DownView, caches_plan, clear_plan, down_step, unpin_plan};
use crate::text::{Text, carries, is_white, word_after, words};
use crate::tor::{law_what_ends_the_wait, pct_of, restart_plan};
use crate::util::uid_value;
use crate::verify::{
    Overlay, VerifyView, law_the_last_line_is_the_verdict, report_lines, says_ip, says_tor,
};

verus! {

// ---------- the way up ----------
/// A bring-up does what its words say, wherever they stand: `--mac` changes the hardware addresses,
/// `--i2p` adds the overlay, and `--no-advice` leaves the advice out; without them it does not.
pub proof fn law_the_words_of_a_bring_up(args: Seq<Text>)
    ensures
        begin_up(args).stage == UpStage::Root,
        begin_up(args).mac <==> args.contains("--mac"@),
        begin_up(args).hardening.mac <==> args.contains("--mac"@),
        begin_up(args).want_i2p <==> args.contains("--i2p"@),
        begin_up(args).advise <==> !args.contains("--no-advice"@),
{
}

/// The kill-switch exempts Tor's user, the overlay's where it is wanted, and no other.
pub proof fn law_who_is_exempt(u: UpView, n: u32)
    ensures
        exempt_users(u).contains(n) <==> n == u.tor_uid || u.want_i2p && n == u.i2pd_uid,
{
    if u.want_i2p {
        assert(exempt_users(u)[0] == u.tor_uid && exempt_users(u)[1] == u.i2pd_uid);
    } else {
        assert(exempt_users(u)[0] == u.tor_uid);
    }
}

/// Before the kill-switch: only root goes on. A session that is active already is left alone, or has
/// the overlay attached where it is wanted. Otherwise the advice is given unless it was declined or a
/// tunnel is there, the users are looked up, and the kill-switch is armed for them.
pub proof fn law_the_course_to_the_kill_switch(u: UpView, r: ReplyView)
    ensures
        ({
            let (n, t) = up_step(u, r);
            &&& u.stage == UpStage::Root ==> if r == ReplyView::Euid(0) {
                n.stage == UpStage::Facts && t.act is Facts
            } else {
                t.act == ActView::End(
                    Err("anond must run as root (it manages nftables and Tor)"@),
                )
            }
            &&& u.stage == UpStage::Facts ==> {
                let active = r matches ReplyView::Facts(Some(State::Active), true, _);
                &&& active && u.want_i2p ==> n.stage == UpStage::Overlay && t.act is I2pRunning
                &&& active && !u.want_i2p ==> t.act == ActView::End(Ok(()))
                &&& !active && u.advise ==> n.stage == UpStage::Route
                &&& !active && !u.advise ==> n.stage == UpStage::TorUid && t.act == ActView::Id(
                    "tor"@,
                )
            }
            &&& u.stage == UpStage::Route ==> (r matches ReplyView::Text(route) ==> if is_tunnel(
                word_after(words(route), "dev"@),
            ) {
                n.stage == UpStage::TorUid && t.act == ActView::Id("tor"@)
            } else {
                n.stage == UpStage::Advise && t.act == ActView::Plan(advice_plan())
            })
            &&& u.stage == UpStage::Advise ==> n.stage == UpStage::TorUid && t.act == ActView::Id(
                "tor"@,
            )
        }),
{
    if u.stage == UpStage::Facts {
        if let ReplyView::Facts(s, tor, armed) = r {
            law_the_true_condition(s, tor, armed);
        }
    }
}

/// The users: each id that was found is the one that is exempted, the overlay's is looked up exactly
/// where it is wanted, and one that is not found ends the bring-up before anything was changed.
pub proof fn law_the_users_are_looked_up(
    u: UpView,
    r: ReplyView,
    printed: Result<(bool, Text), Text>,
)
    ensures
        ({
            let (n, t) = up_step(u, r);
            &&& u.stage == UpStage::TorUid && r == ReplyView::Id(printed) ==> match uid_value(
                "tor"@,
                printed,
            ) {
                Ok(id) => n.stage == UpStage::Clock && n.tor_uid == id,
                Err(e) => t.act == ActView::End(Err(e)),
            }
            &&& u.stage == UpStage::Clock ==> {
                &&& r matches ReplyView::Clock(c) ==> n.sess.since == moment(c)
                &&& n.sess.tor_uid == u.tor_uid
                &&& n.sess.state == State::Down
                &&& n.sess.i2p == u.want_i2p
                &&& n.sess.resolv_backup is None && n.sess.hostname_backup is None
                &&& n.sess.mac_backup.len() == 0 && !n.sess.swap_was_on
                &&& u.want_i2p ==> n.stage == UpStage::I2pUid && t.act == ActView::Id("i2pd"@)
                &&& !u.want_i2p ==> n.stage == UpStage::Arm && t.act == ActView::Plan(
                    up_plan(seq![u.tor_uid]),
                )
            }
            &&& u.stage == UpStage::I2pUid && r == ReplyView::Id(printed) && u.want_i2p
                ==> match uid_value("i2pd"@, printed) {
                Ok(id) => n.stage == UpStage::Arm && t.act == ActView::Plan(
                    up_plan(seq![u.tor_uid, id]),
                ),
                Err(e) => t.act == ActView::End(Err(e)),
            }
            &&& u.stage == UpStage::Arm ==> if (r matches ReplyView::Done(Ok(_))) {
                n.stage == UpStage::Flush && t.act == ActView::Quiet(
                    cmd("conntrack"@, seq!["-F"@]),
                )
            } else {
                t.act matches ActView::End(Err(_))
            }
        }),
{
}

/// Behind the kill-switch the host is prepared: old connections are cut, the record is kept, the host
/// is hardened, the resolver configuration is read, recorded and pinned, and Tor is started; each
/// turn that succeeds leads to the next, and one that does not ends in the locked state.
pub proof fn law_the_course_to_tor(u: UpView, r: ReplyView)
    ensures
        ({
            let (n, t) = up_step(u, r);
            let done = r matches ReplyView::Done(Ok(_));
            &&& u.stage == UpStage::Flush ==> n.stage == UpStage::Flushed && t.act == ActView::Plan(
                flush_plan(r == ReplyView::Ran(Ok(true))),
            )
            &&& u.stage == UpStage::Flushed ==> n.stage == UpStage::SaveLocked && t.act is Save
                && n.sess == (SessionView { state: State::Locked, ..u.sess })
            &&& u.stage == UpStage::SaveLocked && done ==> n.stage == UpStage::Harden
                && n.hardening.mac == u.mac
            &&& u.stage == UpStage::SaveLocked && !done ==> (t.act matches ActView::End(Err(_)))
            &&& u.stage == UpStage::SaveHardened && done ==> n.stage == UpStage::Resolv
                && t.act is Resolv
            &&& u.stage == UpStage::Pin && done ==> n.stage == UpStage::SavePinned && t.act is Save
            &&& u.stage == UpStage::SavePinned && done ==> n.stage == UpStage::SaveBootstrapping
                && t.act is Save && n.sess.state == State::Bootstrapping
            &&& u.stage == UpStage::SaveBootstrapping && done ==> n.stage == UpStage::StartTor
                && t.act == ActView::Plan(start_plan())
            &&& u.stage == UpStage::StartTor && done ==> n.stage == UpStage::Await
                && t.act is AwaitTor && n.restarts == 0
            &&& !done && (u.stage == UpStage::SaveHardened || u.stage == UpStage::Pin || u.stage
                == UpStage::SavePinned || u.stage == UpStage::SaveBootstrapping || u.stage
                == UpStage::StartTor) ==> n.stage == UpStage::SaveFailed && t.act is Save
                && n.sess.state == State::Locked
        }),
{
}

/// What is found of the resolver configuration is recorded where it does not carry the daemon's mark
/// and is not blank, and the pin follows in any case; a configuration that is not worth recording
/// leaves the record as it is.
pub proof fn law_the_resolver_is_recorded(u: UpView, current: Text)
    requires
        u.stage == UpStage::Resolv,
    ensures
        ({
            let (n, t) = up_step(u, ReplyView::Text(current));
            let genuine = !carries(current, "# anond:"@) && exists|i: int|
                0 <= i < current.len() && !is_white(#[trigger] current[i]);
            &&& n.stage == UpStage::Pin && t.act == ActView::Plan(pin_plan())
            &&& genuine ==> n.sess.resolv_backup == Some(current)
            &&& !genuine ==> n.sess.resolv_backup == u.sess.resolv_backup
            &&& n.sess == (SessionView { resolv_backup: n.sess.resolv_backup, ..u.sess })
        }),
{
    law_genuine(current);
}

/// The wait for Tor, for every look: a full bootstrap leads to the overlay where it is wanted, and to
/// the probes where it is not; an error, a death too many or the end of five minutes leads to the
/// locked state; a death with a restart left leads to that restart; and anything else to the next
/// look half a second later. The progress is shown exactly where it changed.
pub proof fn law_the_wait_for_tor(u: UpView, log: Text, running: bool, elapsed: u128)
    requires
        u.stage == UpStage::Await,
        u.restarts < 0xffff_ffff,
    ensures
        ({
            let (n, t) = up_step(u, ReplyView::Tor(log, running, elapsed));
            let full = carries(log, "Bootstrapped 100%"@);
            let error = carries(log, "[err]"@);
            let died = carries(log, "Caught signal"@) || !running && elapsed > 3_000_000_000;
            let late = elapsed > 300_000_000_000;
            &&& full && u.want_i2p ==> n.stage == UpStage::I2pPrepare && t.act == ActView::Plan(
                prepare_plan(),
            )
            &&& full && !u.want_i2p ==> n.stage == UpStage::Probe && t.act is Probe
            &&& !full && (error || died && u.restarts >= 4 || !died && late) ==> n.stage
                == UpStage::SaveFailed && n.sess.state == State::Locked && t.act is Save
            &&& !full && !error && died && u.restarts < 4 ==> n.stage == UpStage::RestartPid
                && t.act is TorPid && n.restarts == u.restarts + 1
            &&& !full && !error && !died && !late ==> n.stage == UpStage::Await && t.act
                == ActView::LookTor(500) && n.restarts == u.restarts
            &&& n.last_pct == pct_of(log)
            &&& pct_of(log) != u.last_pct ==> t.progress == Some(pct_of(log))
            &&& pct_of(log) == u.last_pct ==> t.progress is None
        }),
{
    law_what_ends_the_wait(u.restarts, log, running, elapsed, 300_000_000_000);
}

/// A restart stops what is left of Tor and launches it again, and the wait goes on.
pub proof fn law_a_restart_goes_on(u: UpView, contents: Option<Text>, r: ReplyView)
    ensures
        u.stage == UpStage::RestartPid ==> up_step(u, ReplyView::File(contents)).0.stage
            == UpStage::Restart && up_step(u, ReplyView::File(contents)).1.act == ActView::Plan(
            restart_plan(contents),
        ),
        u.stage == UpStage::Restart && (r matches ReplyView::Done(Ok(_))) ==> up_step(u, r).0.stage
            == UpStage::Await && up_step(u, r).1.act == ActView::LookTor(0),
        u.stage == UpStage::Restart && !(r matches ReplyView::Done(Ok(_))) ==> up_step(u, r).0.stage
            == UpStage::SaveFailed,
{
}

/// The overlay is launched and waited for, for at most seventy-five seconds, and whatever comes of it
/// the probes follow.
pub proof fn law_the_overlay_leads_to_the_probes(u: UpView, r: ReplyView)
    ensures
        ({
            let (n, t) = up_step(u, r);
            &&& u.stage == UpStage::I2pPrepare ==> n.stage == UpStage::I2pLaunch && t.act
                == ActView::Run(i2pd_command())
            &&& u.stage == UpStage::I2pLaunch ==> if r == ReplyView::Ran(Ok(true)) {
                n.stage == UpStage::I2pWait && t.act is AwaitProxy
            } else {
                n.stage == UpStage::Probe && t.act is Probe
            }
            &&& u.stage == UpStage::I2pWait ==> {
                let waits = r matches ReplyView::Proxy(false, elapsed) && elapsed
                    <= 75_000_000_000;
                &&& waits ==> n.stage == UpStage::I2pWait && t.act == ActView::LookProxy(500)
                &&& !waits ==> n.stage == UpStage::Probe && t.act is Probe
            }
        }),
{
    if let ReplyView::Proxy(up, elapsed) = r {
        law_the_overlay_is_waited_for(up, elapsed, 75_000_000_000);
    }
}

/// What the probes decide: a session becomes active exactly where the kill-switch, the resolver, IPv6
/// and the exit were all found as they should be; otherwise it stays locked. What was found is
/// reported, and the exit that was found is the one that is published.
pub proof fn law_the_verdict(u: UpView, v: VerifyView, overlay: Option<Overlay>)
    ensures
        ({
            let (n, t) = judged(u, v, overlay);
            let passed = v.killswitch_ok && v.dns_ok && v.ipv6_ok && v.tor_ok;
            &&& passed ==> n.stage == UpStage::SaveActive && n.sess.state == State::Active
                && n.exit_ip == v.exit_ip
            &&& !passed ==> n.stage == UpStage::SaveFailed && n.sess.state == State::Locked
            &&& t.act is Save
            &&& t.say == report_lines(v, overlay)
        }),
{
    law_the_last_line_is_the_verdict(v, overlay);
}

/// The probes are judged by what they found, each under its own name.
pub proof fn law_the_probes_are_judged(u: UpView, r: ReplyView)
    requires
        u.stage == UpStage::Probe,
    ensures
        r matches ReplyView::Probes(p) ==> {
            let passed = p.killswitch_up && p.dns_pinned && p.ipv6_table && says_tor(p.body);
            let n = up_step(u, r).0;
            &&& passed ==> n.stage == UpStage::SaveActive && n.exit_ip == says_ip(p.body)
            &&& !passed ==> n.stage == UpStage::SaveFailed
            &&& up_step(u, r).1.say == report_lines(
                VerifyView {
                    tor_ok: says_tor(p.body),
                    dns_ok: p.dns_pinned,
                    killswitch_ok: p.killswitch_up,
                    ipv6_ok: p.ipv6_table,
                    exit_ip: says_ip(p.body),
                },
                p.overlay,
            )
        },
        !(r is Probes) ==> up_step(u, r).0.stage == UpStage::SaveFailed,
{
    if let ReplyView::Probes(p) = r {
        law_the_last_line_is_the_verdict(
            VerifyView {
                tor_ok: says_tor(p.body),
                dns_ok: p.dns_pinned,
                killswitch_ok: p.killswitch_up,
                ipv6_ok: p.ipv6_table,
                exit_ip: says_ip(p.body),
            },
            p.overlay,
        );
    }
}

/// The end: an active session that was kept is published with its exit, and the bring-up ends well;
/// a locked one that was kept is published as such, and the bring-up ends with the error that locked
/// it.
pub proof fn law_the_end_of_a_bring_up(u: UpView, r: ReplyView)
    ensures
        ({
            let (n, t) = up_step(u, r);
            let done = r matches ReplyView::Done(Ok(_));
            &&& u.stage == UpStage::SaveActive && done ==> n.stage == UpStage::PublishActive && t.act
                == ActView::Publish("Active"@, u.exit_ip)
            &&& u.stage == UpStage::SaveActive && !done ==> (t.act matches ActView::End(Err(_)))
            &&& u.stage == UpStage::PublishActive ==> t.act == ActView::End(Ok(()))
            &&& u.stage == UpStage::SaveFailed && done ==> n.stage == UpStage::PublishFailed && t.act
                == ActView::Publish("Locked"@, ""@)
            &&& u.stage == UpStage::SaveFailed && !done ==> (t.act matches ActView::End(Err(_)))
            &&& u.stage == UpStage::PublishFailed ==> t.act == ActView::End(Err(u.failure))
            &&& u.stage == UpStage::Done ==> n == u && t.act is Nothing
        }),
{
}

/// Attaching the overlay to a session that is active: an overlay that runs is left alone; otherwise
/// the kill-switch is widened by its user, it is launched and waited for, and where it does not
/// launch the kill-switch is narrowed again. The record then says whether it runs.
pub proof fn law_the_course_of_attaching(u: UpView, r: ReplyView)
    ensures
        ({
            let (n, t) = up_step(u, r);
            let done = r matches ReplyView::Done(Ok(_));
            &&& u.stage == UpStage::Overlay ==> if r == ReplyView::Flag(true) {
                t.act == ActView::End(Ok(()))
            } else {
                n.stage == UpStage::AttachTor && t.act == ActView::Id("tor"@)
            }
            &&& u.stage == UpStage::Rearm ==> if done {
                n.stage == UpStage::AttachPrepare && t.act == ActView::Plan(prepare_plan())
            } else {
                t.act matches ActView::End(Err(_))
            }
            &&& u.stage == UpStage::AttachPrepare ==> n.stage == UpStage::AttachLaunch && t.act
                == ActView::Run(i2pd_command())
            &&& u.stage == UpStage::AttachLaunch ==> if r == ReplyView::Ran(Ok(true)) {
                n.stage == UpStage::AttachWait && t.act is AwaitProxy
            } else {
                n.stage == UpStage::Tighten && t.act == ActView::Plan(rearm_plan(seq![u.tor_uid]))
            }
            &&& u.stage == UpStage::Tighten ==> n.stage == UpStage::AttachCheck
                && t.act is I2pRunning
            &&& u.stage == UpStage::AttachCheck ==> n.stage == UpStage::AttachLoad && t.act is Load
                && (n.attached <==> r == ReplyView::Flag(true))
            &&& u.stage == UpStage::AttachLoad ==> match r {
                ReplyView::Loaded(Some(s)) => n.stage == UpStage::AttachSave && t.act is Save
                    && n.sess == (SessionView { i2p: u.attached, ..s }),
                _ => n.stage == UpStage::AttachProbe && t.act is Out,
            }
            &&& u.stage == UpStage::AttachSave ==> n.stage == UpStage::AttachProbe && t.act is Out
            &&& u.stage == UpStage::AttachProbe ==> (r matches ReplyView::Text(body) ==> n.stage
                == UpStage::AttachPublish && t.act == ActView::Publish("Active"@, says_ip(body)))
            &&& u.stage == UpStage::AttachPublish ==> t.act == ActView::End(Ok(()))
        }),
{
}

/// The users of attaching: Tor's id is kept, and the kill-switch is widened by exactly the id that was
/// found for the overlay.
pub proof fn law_attaching_widens_by_the_overlay(
    u: UpView,
    printed: Result<(bool, Text), Text>,
)
    ensures
        ({
            let (n, t) = up_step(u, ReplyView::Id(printed));
            &&& u.stage == UpStage::AttachTor ==> match uid_value("tor"@, printed) {
                Ok(id) => n.stage == UpStage::AttachI2p && n.tor_uid == id && t.act == ActView::Id(
                    "i2pd"@,
                ),
                Err(e) => t.act == ActView::End(Err(e)),
            }
            &&& u.stage == UpStage::AttachI2p ==> match uid_value("i2pd"@, printed) {
                Ok(id) => n.stage == UpStage::Rearm && t.act == ActView::Plan(
                    rearm_plan(seq![u.tor_uid, id]),
                ),
                Err(e) => t.act == ActView::End(Err(e)),
            }
        }),
{
}

/// The wait for the overlay that is attached lasts at most seventy-five seconds, and the check
/// follows whatever comes of it.
pub proof fn law_attaching_waits(u: UpView, r: ReplyView)
    requires
        u.stage == UpStage::AttachWait,
    ensures
        ({
            let (n, t) = up_step(u, r);
            let waits = r matches ReplyView::Proxy(false, elapsed) && elapsed <= 75_000_000_000;
            &&& waits ==> n.stage == UpStage::AttachWait && t.act == ActView::LookProxy(500)
            &&& !waits ==> n.stage == UpStage::AttachCheck && t.act is I2pRunning
        }),
{
    if let ReplyView::Proxy(up, elapsed) = r {
        law_the_overlay_is_waited_for(up, elapsed, 75_000_000_000);
    }
}

/// A failure behind the kill-switch says what failed, and that all traffic stays blocked.
pub proof fn law_a_failure_says_why(u: UpView, e: Text)
    ensures
        fail(u, e).0.failure == "bring-up failed ("@ + e
            + ") — staying LOCKED (all traffic blocked). Run `anond down` to release."@,
        fail(u, e).0.sess == (SessionView { state: State::Locked, ..u.sess }),
        fail(u, e).1.act is Save,
{
}

// ---------- the way down ----------
/// Taking a session down, for every reply: only root goes on; the overlay is stopped where the record
/// names it or it runs; Tor is stopped; the resolver configuration and the host are put back; the
/// kill-switch is removed, the record forgotten, the caches dropped and the end published. Nothing
/// but a failure to remove the kill-switch or the record ends it early.
pub proof fn law_the_course_down(d: DownView, r: ReplyView)
    ensures
        ({
            let (n, t) = down_step(d, r);
            let done = r matches ReplyView::Done(Ok(_));
            &&& d.stage == DownStage::Root ==> if r == ReplyView::Euid(0) {
                n.stage == DownStage::Load && t.act is Load
            } else {
                t.act == ActView::End(
                    Err("anond must run as root (it manages nftables and Tor)"@),
                )
            }
            &&& d.stage == DownStage::Load ==> {
                &&& r matches ReplyView::Loaded(s) ==> n.sess == s
                &&& (r matches ReplyView::Loaded(Some(s)) && s.i2p) ==> n.stage == DownStage::I2pPid
                    && t.act is I2pPid
                &&& !(r matches ReplyView::Loaded(Some(s)) && s.i2p) ==> n.stage == DownStage::I2p
                    && t.act is I2pRunning
            }
            &&& d.stage == DownStage::I2p ==> if r == ReplyView::Flag(true) {
                n.stage == DownStage::I2pPid && t.act is I2pPid
            } else {
                n.stage == DownStage::TorPid && t.act is TorPid
            }
            &&& d.stage == DownStage::I2pPid ==> (r matches ReplyView::File(f) ==> n.stage
                == DownStage::I2pStop && t.act == ActView::Plan(i2p::stop_plan(f)))
            &&& d.stage == DownStage::I2pStop ==> n.stage == DownStage::TorPid && t.act is TorPid
            &&& d.stage == DownStage::TorPid ==> (r matches ReplyView::File(f) ==> n.stage
                == DownStage::TorStop && t.act == ActView::Plan(tor::stop_plan(f)))
            &&& d.stage == DownStage::TorStop ==> n.stage == DownStage::Dns && t.act
                == ActView::Plan(unpin_plan(d.sess))
            &&& d.stage == DownStage::Harden ==> n.stage == DownStage::Disarm && t.act
                == ActView::Plan(down_plan())
            &&& d.stage == DownStage::Disarm && done ==> n.stage == DownStage::Clear && t.act
                == ActView::Plan(clear_plan())
            &&& d.stage == DownStage::Clear && done ==> n.stage == DownStage::Caches && t.act
                == ActView::Plan(caches_plan())
            &&& (d.stage == DownStage::Disarm || d.stage == DownStage::Clear) && !done ==> (
            t.act matches ActView::End(Err(_)))
            &&& d.stage == DownStage::Caches ==> n.stage == DownStage::Publish && t.act
                == ActView::Publish("Down"@, ""@)
            &&& d.stage == DownStage::Publish ==> t.act == ActView::End(Ok(()))
            &&& d.stage != DownStage::Load ==> n.sess == d.sess
            &&& t.act matches ActView::End(Err(_)) ==> d.stage == DownStage::Root || d.stage
                == DownStage::Disarm || d.stage == DownStage::Clear
        }),
{
}

/// The resolver configuration on the way down: one that was recorded and is worth it is put back;
/// otherwise one is made up, out of whether systemd-resolved runs and, where it does not, the default
/// route. The host follows, where a record says what to put back.
pub proof fn law_the_resolver_on_the_way_down(d: DownView, r: ReplyView)
    ensures
        ({
            let (n, t) = down_step(d, r);
            let host = if d.sess is Some {
                n.stage == DownStage::Harden && t.act == ActView::Plan(restore_plan(d.sess->0))
            } else {
                n.stage == DownStage::Disarm && t.act == ActView::Plan(down_plan())
            };
            &&& d.stage == DownStage::Dns && usable_backup(d.sess) is Some ==> host
            &&& d.stage == DownStage::Dns && usable_backup(d.sess) is None ==> n.stage
                == DownStage::Resolved && t.act == ActView::Run(
                cmd("systemctl"@, seq!["is-active"@, "--quiet"@, "systemd-resolved"@]),
            )
            &&& d.stage == DownStage::Resolved ==> if r == ReplyView::Ran(Ok(true)) {
                n.stage == DownStage::Reconstruct && t.act == ActView::Plan(
                    seq![
                        attempt(OpView::Write("/etc/resolv.conf"@, made_up(true, ""@))),
                    ],
                )
            } else {
                n.stage == DownStage::Route && t.act == ActView::Out(
                    cmd("ip"@, seq!["-o"@, "route"@, "show"@, "default"@]),
                )
            }
            &&& d.stage == DownStage::Route ==> (r matches ReplyView::Text(route) ==> n.stage
                == DownStage::Reconstruct && t.act == ActView::Plan(
                seq![
                    attempt(OpView::Write("/etc/resolv.conf"@, made_up(false, route))),
                ],
            ))
            &&& d.stage == DownStage::Reconstruct ==> host
        }),
{
}

/// The course of hardening: each answer of the host goes into hardening's own step, what that step
/// records is the session's, and the bring-up goes on once hardening asks for nothing more.
pub proof fn law_the_course_of_hardening(u: UpView, seen: SeenView, nanos: u32)
    requires
        u.stage == UpStage::Harden,
    ensures
        ({
            let (n, t) = up_step(u, ReplyView::Seen(seen, nanos));
            let (h, s, ask) = apply_step(u.hardening, u.sess, seen, nanos);
            &&& n.hardening == h && n.sess == s
            &&& ask is Nothing ==> n.stage == UpStage::SaveHardened && t.act is Save
            &&& !(ask is Nothing) ==> n.stage == UpStage::Harden && t.act == ActView::Harden(ask)
        }),
{
}

/// Where the table of connections could not be emptied, that is tried in another way and the user is
/// warned; where it could, nothing more is done.
pub proof fn law_a_failed_flush_is_told()
    ensures
        flush_plan(true).len() == 0,
        flush_plan(false).len() == 2,
        flush_plan(false)[1].op is Warn,
        flush_plan(false)[0].op == OpView::Write(
            "/proc/sys/net/netfilter/nf_conntrack_count"@,
            "0"@,
        ),
{
}

/// What is published of a session that comes up or goes down is its state and its exit, of a session
/// that does not leak, with what is up by then.
pub proof fn law_what_is_published(state: Text, ip: Text, up: Layers)
    ensures
        publication_plan(ActView::Publish(state, ip), up) == publish_plan(state, ip, false, 0, up),
{
}

/// What is said on the way names what it is about: the exit of a session that is active, why the
/// overlay is missing, whether it was attached, and whether the hardware addresses are changed.
pub proof fn law_what_is_said_on_the_way(u: UpView, r: ReplyView, cause: Text)
    ensures
        ({
            let t = up_step(u, r).1;
            &&& u.stage == UpStage::PublishActive ==> t.say == seq![
                "\nanond ACTIVE — you exit via Tor at "@ + u.exit_ip
                    + ". DNS pinned, IPv6 blocked, kill-switch armed."@,
            ]
            &&& u.stage == UpStage::I2pLaunch && r == ReplyView::Ran(Ok(false)) ==> t.say.len() == 2
                && t.say[0] == "      note: i2p unavailable ("@ + "i2pd failed to start"@
                + "); continuing on Tor only"@
            &&& u.stage == UpStage::I2pLaunch && r == ReplyView::Ran(Err(cause)) ==> t.say.len() == 2
                && t.say[0] == "      note: i2p unavailable ("@ + (
            "start i2pd (is i2pd installed?)"@ + ": "@ + cause) + "); continuing on Tor only"@
            &&& u.stage == UpStage::Tighten ==> t.say == seq![
                "note: i2p unavailable ("@ + u.failure + "); staying on Tor only"@,
            ]
            &&& u.stage == UpStage::AttachLaunch && r == ReplyView::Ran(Err(cause)) ==> up_step(
                u,
                r,
            ).0.failure == "start i2pd (is i2pd installed?)"@ + ": "@ + cause
            &&& u.stage == UpStage::AttachPublish ==> t.say == seq![
                "i2p overlay "@ + (if u.attached {
                    "attached (Tor session intact)"@
                } else {
                    "not attached (Tor session intact)"@
                }),
            ]
            &&& u.stage == UpStage::SaveLocked && (r matches ReplyView::Done(Ok(_))) ==> t.say
                == seq![
                "[2/5] hardening the host (swap off, sysctl"@ + (if u.mac {
                    ", MAC spoof"@
                } else {
                    ""@
                }) + ")…"@,
            ]
        }),
{
}

/// What fails behind the kill-switch is what the session is locked for, whichever turn it was.
pub proof fn law_the_cause_is_kept(u: UpView, cause: Text)
    requires
        u.stage == UpStage::SaveHardened || u.stage == UpStage::Pin || u.stage
            == UpStage::SavePinned || u.stage == UpStage::SaveBootstrapping || u.stage
            == UpStage::StartTor || u.stage == UpStage::Restart,
    ensures
        up_step(u, ReplyView::Done(Err(cause))).0.failure == "bring-up failed ("@ + cause
            + ") — staying LOCKED (all traffic blocked). Run `anond down` to release."@,
{
}

} // verus!
