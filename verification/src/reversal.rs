//! Hardening is undone: what a host is after hardening and restoring. The host is modelled by the
//! settings that hardening touches, and answers every question truthfully; whether a command that
//! changes a setting succeeds is left open.
use vstd::prelude::*;

use crate::harden::{
    AskView, BROADCASTS, GENERIC_HOSTNAME, HardeningView, SeenView, Stage, TIMESTAMPS, apply_step, begin_view, change_setting, link,
    mac_steps, mac_text, restore_plan, seen_names, seen_ran, seen_text, set_address,
    set_hostname, show_address, show_hostname, show_setting, show_swap, swap_off, swap_on, try_run,
    unmount_steps, well_formed,
};
use crate::plan::{CommandView, OpView, StepView};
use crate::state::SessionView;
use crate::text::{Text, begins, trimmed};

verus! {

/// The settings of a host that hardening touches.
#[verifier::ext_equal]
pub struct Host {
    pub swap: bool,
    pub hostname: Text,
    /// The hardware address of each interface that has one.
    pub macs: Map<Text, Text>,
    /// The kernel's setting for TCP timestamps.
    pub timestamps: Text,
    /// The kernel's setting for ICMP broadcasts.
    pub broadcasts: Text,
}

/// Whether the kernel's settings have a value, and the host name stands without white space around
/// it.
pub open spec fn sane(h: Host) -> bool {
    &&& trimmed(h.hostname) == h.hostname
    &&& h.timestamps.len() > 0
    &&& h.broadcasts.len() > 0
}

/// Whether a command gives a setting of the kernel a value.
pub open spec fn changes(c: CommandView, name: Text) -> bool {
    c.bin == "sysctl"@ && c.args.len() == 2 && c.args[0] == "-qw"@ && begins(
        c.args[1],
        name + "="@,
    )
}

/// The value that such a command gives.
pub open spec fn new_value(c: CommandView, name: Text) -> Text {
    c.args[1].skip((name + "="@).len() as int)
}

/// A host after a command has succeeded on it.
pub open spec fn effect(c: CommandView, h: Host) -> Host {
    if c == swap_off() {
        Host { swap: false, ..h }
    } else if c == swap_on() {
        Host { swap: true, ..h }
    } else if changes(c, TIMESTAMPS@) {
        Host { timestamps: new_value(c, TIMESTAMPS@), ..h }
    } else if changes(c, BROADCASTS@) {
        Host { broadcasts: new_value(c, BROADCASTS@), ..h }
    } else if c.bin == "hostname"@ && c.args.len() == 1 {
        Host { hostname: c.args[0], ..h }
    } else if c.bin == "ip"@ && c.args.len() == 5 {
        Host { macs: h.macs.insert(c.args[2], c.args[4]), ..h }
    } else {
        h
    }
}

/// Whether an answer is one that a host gives to a question.
pub open spec fn answers(h: Host, ask: AskView, seen: SeenView) -> bool {
    match ask {
        AskView::Out(c) => {
            &&& seen is Text
            &&& c == show_swap() ==> (seen_text(seen).len() > 0) == h.swap
            &&& c == show_hostname() ==> seen_text(seen) == h.hostname
            &&& c == show_setting(TIMESTAMPS@) ==> seen_text(seen) == h.timestamps
            &&& c == show_setting(BROADCASTS@) ==> seen_text(seen) == h.broadcasts
            &&& forall|iface: Text|
                c == #[trigger] show_address(iface) ==> if h.macs.contains_key(iface) {
                    seen_text(seen) == h.macs[iface]
                } else {
                    seen_text(seen).len() == 0
                }
        },
        AskView::Run(_) => seen is Ran,
        AskView::Ifaces => seen is Names && seen_names(seen).no_duplicates(),
        AskView::Nothing => seen is Nothing,
    }
}

/// A host after it has answered a question.
pub open spec fn after(h: Host, ask: AskView, seen: SeenView) -> Host {
    match ask {
        AskView::Run(c) => if seen_ran(seen) {
            effect(c, h)
        } else {
            h
        },
        _ => h,
    }
}

/// Hardening in progress on a host, with the question that waits for its answer.
#[verifier::ext_equal]
pub struct World {
    pub hardening: HardeningView,
    pub session: SessionView,
    pub ask: AskView,
    pub host: Host,
}

/// Hardening about to begin.
pub open spec fn before_hardening(mac: bool, session: SessionView, host: Host) -> World {
    World { hardening: begin_view(mac), session, ask: AskView::Nothing, host }
}

/// One answer of the host, and what hardening makes of it.
pub open spec fn advance(w: World, seen: SeenView, nanos: u32) -> World {
    let (hardening, session, ask) = apply_step(w.hardening, w.session, seen, nanos);
    World { hardening, session, ask, host: after(w.host, w.ask, seen) }
}

/// Hardening after a number of answers.
pub open spec fn hardened(w: World, replies: Seq<(SeenView, u32)>) -> World
    decreases replies.len(),
{
    if replies.len() == 0 {
        w
    } else {
        let r = replies.last();
        advance(hardened(w, replies.drop_last()), r.0, r.1)
    }
}

/// Whether every answer is one that the host gives at that moment.
pub open spec fn truthful(w: World, replies: Seq<(SeenView, u32)>) -> bool
    decreases replies.len(),
{
    replies.len() == 0 || {
        let before = hardened(w, replies.drop_last());
        truthful(w, replies.drop_last()) && answers(before.host, before.ask, replies.last().0)
    }
}

/// A host after every step of a plan has succeeded on it.
pub open spec fn carried_out(h: Host, plan: Seq<StepView>) -> Host
    decreases plan.len(),
{
    if plan.len() == 0 {
        h
    } else {
        let before = carried_out(h, plan.drop_last());
        match plan.last().op {
            OpView::Run(c) => effect(c, before),
            _ => before,
        }
    }
}

/// Whether an interface has its original address recorded.
pub open spec fn has_entry(s: SessionView, iface: Text) -> bool {
    exists|k: int| 0 <= k < s.mac_backup.len() && (#[trigger] s.mac_backup[k]).0 == iface
}

pub open spec fn same_mac(a: Host, b: Host, iface: Text) -> bool {
    a.macs.contains_key(iface) == b.macs.contains_key(iface) && (a.macs.contains_key(iface)
        ==> a.macs[iface] == b.macs[iface])
}

/// What holds of the host name: either it is what it was, or what it was is recorded.
spec fn hostname_kept(w: World, h0: Host) -> bool {
    match w.session.hostname_backup {
        Some(name) => name == h0.hostname,
        None => w.host.hostname == h0.hostname,
    }
}

/// What holds of swap: either it is what it was, or what it was is recorded.
spec fn swap_kept(w: World, h0: Host) -> bool {
    if w.hardening.stage == Stage::Start || w.hardening.stage == Stage::Swap {
        w.host.swap == h0.swap
    } else {
        w.session.swap_was_on == h0.swap && (!h0.swap ==> !w.host.swap)
    }
}

/// What holds of the kernel's settings: what they were is recorded before they are changed.
spec fn settings_kept(w: World, h0: Host) -> bool {
    let st = w.hardening.stage;
    let early = st == Stage::Start || st == Stage::Swap || st == Stage::SwapOff || st
        == Stage::ShowTimestamps;
    &&& if early {
        w.session.timestamps_backup is None && w.host.timestamps == h0.timestamps
    } else {
        w.session.timestamps_backup == Some(h0.timestamps)
    }
    &&& if early || st == Stage::ShowBroadcasts {
        w.session.broadcasts_backup is None && w.host.broadcasts == h0.broadcasts
    } else {
        w.session.broadcasts_backup == Some(h0.broadcasts)
    }
}

spec fn working(st: Stage) -> bool {
    st == Stage::Address || st == Stage::LinkDown || st == Stage::LinkSet || st == Stage::LinkUp
}

spec fn with_names(st: Stage) -> bool {
    working(st) || st == Stage::Done
}

/// What is recorded of an interface is what was, and the interface is one of those done with.
spec fn entry_kept(h: HardeningView, h0: Host, e: (Text, Text)) -> bool {
    &&& h0.macs.contains_key(e.0)
    &&& h0.macs[e.0] == e.1
    &&& exists|j: int| 0 <= j < h.at && j < h.ifaces.len() && #[trigger] h.ifaces[j] == e.0
}

/// What holds of the hardware addresses: what is recorded is what was, and what is not recorded is
/// as it was, but for the interface whose address has just been changed.
spec fn macs_kept(w: World, h0: Host) -> bool {
    let h = w.hardening;
    let s = w.session;
    &&& well_formed(h)
    &&& !with_names(h.stage) ==> s.mac_backup.len() == 0 && h.ifaces.len() == 0 && h.at == 0
    &&& with_names(h.stage) ==> h.ifaces.no_duplicates() && h.at >= 0
    &&& forall|k: int| 0 <= k < s.mac_backup.len() ==> entry_kept(h, h0, #[trigger] s.mac_backup[k])
    &&& forall|x: Text|
        #![trigger same_mac(w.host, h0, x)]
        !has_entry(s, x) && !(h.stage == Stage::LinkUp && h.changed && x == h.ifaces[h.at])
            ==> same_mac(w.host, h0, x)
    &&& (h.stage == Stage::LinkDown || h.stage == Stage::LinkSet || h.stage == Stage::LinkUp)
        ==> h0.macs.contains_key(h.ifaces[h.at]) && h0.macs[h.ifaces[h.at]] == h.original
}

/// The question that waits for its answer is the one of the stage.
spec fn ask_fits(w: World) -> bool {
    let h = w.hardening;
    match h.stage {
        Stage::Start => w.ask == AskView::Nothing,
        Stage::Swap => w.ask == AskView::Out(show_swap()),
        Stage::SwapOff => w.ask == AskView::Run(swap_off()),
        Stage::ShowTimestamps => w.ask == AskView::Out(show_setting(TIMESTAMPS@)),
        Stage::ShowBroadcasts => w.ask == AskView::Out(show_setting(BROADCASTS@)),
        Stage::Timestamps => w.ask == AskView::Run(change_setting(TIMESTAMPS@, "0"@)),
        Stage::Broadcasts => w.ask == AskView::Run(change_setting(BROADCASTS@, "1"@)),
        Stage::Hostname => w.ask == AskView::Out(show_hostname()),
        Stage::Rename => w.ask == AskView::Run(set_hostname(GENERIC_HOSTNAME@)),
        Stage::Ifaces => w.ask == AskView::Ifaces,
        Stage::Address => w.ask == AskView::Out(show_address(h.ifaces[h.at])),
        Stage::LinkDown => w.ask == AskView::Run(link(h.ifaces[h.at], "down"@)),
        Stage::LinkSet => exists|mac: Text|
            w.ask == AskView::Run(#[trigger] set_address(h.ifaces[h.at], mac)),
        Stage::LinkUp => w.ask == AskView::Run(link(h.ifaces[h.at], "up"@)),
        Stage::Done => w.ask == AskView::Nothing,
    }
}

spec fn before_rename(st: Stage) -> bool {
    st == Stage::Start || st == Stage::Swap || st == Stage::SwapOff || st == Stage::ShowTimestamps
        || st == Stage::ShowBroadcasts || st == Stage::Timestamps || st == Stage::Broadcasts || st
        == Stage::Hostname || st == Stage::Rename
}

/// What holds of a host while it is hardened: whatever has been changed of it is recorded.
pub closed spec fn kept(w: World, h0: Host) -> bool {
    &&& ask_fits(w)
    &&& hostname_kept(w, h0)
    &&& before_rename(w.hardening.stage) ==> w.session.hostname_backup is None
    &&& w.hardening.stage == Stage::Rename ==> w.hardening.original == h0.hostname
    &&& swap_kept(w, h0)
    &&& settings_kept(w, h0)
    &&& macs_kept(w, h0)
}

/// The commands differ from each other.
proof fn lemma_commands()
    ensures
        swap_off() != swap_on(),
        "sysctl"@ != "swapoff"@,
        "sysctl"@ != "swapon"@,
        "sysctl"@ != "hostname"@,
        "sysctl"@ != "ip"@,
        "swapoff"@ != "hostname"@,
        "swapon"@ != "hostname"@,
        "ip"@ != "hostname"@,
        "ip"@ != "sysctl"@,
        "ip"@ != "swapoff"@,
        "ip"@ != "swapon"@,
        TIMESTAMPS@.len() > 9 && BROADCASTS@.len() > 9 && TIMESTAMPS@[9] != BROADCASTS@[9],
        show_setting(TIMESTAMPS@) != show_setting(BROADCASTS@),
        show_setting(TIMESTAMPS@) != show_swap(),
        show_setting(BROADCASTS@) != show_swap(),
{
    reveal_strlit("swapoff");
    reveal_strlit("swapon");
    reveal_strlit("sysctl");
    reveal_strlit("hostname");
    reveal_strlit("ip");
    reveal_strlit("net.ipv4.tcp_timestamps");
    reveal_strlit("net.ipv4.icmp_echo_ignore_broadcasts");
    assert("swapoff"@.len() == 7);
    assert("ip"@.len() == 2);
    assert("hostname"@.len() == 8);
    assert("swapon"@[1] == 'w');
    assert("sysctl"@[1] == 'y');
    assert(TIMESTAMPS@[9] == 't' && BROADCASTS@[9] == 'i');
    assert(show_setting(TIMESTAMPS@).args[1] == TIMESTAMPS@);
    assert(show_setting(BROADCASTS@).args[1] == BROADCASTS@);
}

/// What giving a setting a value does.
proof fn lemma_settings(h: Host, value: Text)
    ensures
        effect(change_setting(TIMESTAMPS@, value), h) == (Host { timestamps: value, ..h }),
        effect(change_setting(BROADCASTS@, value), h) == (Host { broadcasts: value, ..h }),
{
    lemma_commands();
    let t = change_setting(TIMESTAMPS@, value);
    let b = change_setting(BROADCASTS@, value);
    let tn = TIMESTAMPS@ + "="@;
    let bn = BROADCASTS@ + "="@;
    assert(t.args[1] == tn + value && b.args[1] == bn + value);
    assert((tn + value).skip(tn.len() as int) =~= value);
    assert((bn + value).skip(bn.len() as int) =~= value);
    assert((tn + value).take(tn.len() as int) =~= tn);
    assert((bn + value).take(bn.len() as int) =~= bn);
    assert(!begins(bn + value, tn)) by {
        assert((bn + value)[9] == BROADCASTS@[9]);
        assert(tn[9] == TIMESTAMPS@[9]);
    }
}

proof fn lemma_effects(h: Host, iface: Text, mac: Text, name: Text)
    ensures
        effect(swap_off(), h) == (Host { swap: false, ..h }),
        effect(swap_on(), h) == (Host { swap: true, ..h }),
        effect(set_hostname(name), h) == (Host { hostname: name, ..h }),
        effect(set_address(iface, mac), h) == (Host { macs: h.macs.insert(iface, mac), ..h }),
        effect(link(iface, "down"@), h) == h,
        effect(link(iface, "up"@), h) == h,
{
    lemma_commands();
    assert(set_address(iface, mac).args.len() == 5);
    assert(link(iface, "up"@).args.len() == 4);
    assert(link(iface, "down"@).args.len() == 4);
}

proof fn lemma_entry(h: HardeningView, n: HardeningView, h0: Host, e: (Text, Text))
    requires
        entry_kept(h, h0, e),
        n.ifaces == h.ifaces,
        n.at >= h.at,
    ensures
        entry_kept(n, h0, e),
{
    let j = choose|j: int| 0 <= j < h.at && j < h.ifaces.len() && #[trigger] h.ifaces[j] == e.0;
    assert(n.ifaces[j] == e.0);
}

proof fn lemma_kept_step(w: World, h0: Host, seen: SeenView, nanos: u32)
    requires
        kept(w, h0),
        answers(w.host, w.ask, seen),
        sane(h0),
    ensures
        kept(advance(w, seen, nanos), h0),
{
    let h = w.hardening;
    let n = advance(w, seen, nanos);
    let iface = h.ifaces[h.at];
    lemma_commands();
    lemma_effects(w.host, iface, mac_text(nanos), GENERIC_HOSTNAME@);
    lemma_settings(w.host, "0"@);
    lemma_settings(w.host, "1"@);
    match h.stage {
        Stage::Address => {
            lemma_macs_address(w, h0, seen, nanos);
        },
        Stage::LinkSet => {
            lemma_macs_set(w, h0, seen, nanos);
        },
        Stage::LinkUp => {
            lemma_macs_up(w, h0, seen, nanos);
        },
        Stage::Ifaces => {
            assert(forall|x: Text| !has_entry(n.session, x));
        },
        _ => {
            assert(n.session.mac_backup == w.session.mac_backup);
            assert(forall|x: Text| has_entry(n.session, x) == has_entry(w.session, x));
            assert(n.host.macs == w.host.macs);
            assert forall|x: Text|
                #![trigger same_mac(n.host, h0, x)]
                !has_entry(n.session, x) implies same_mac(n.host, h0, x) by {
                assert(same_mac(w.host, h0, x));
            }
            if h.stage == Stage::LinkDown {
                let m = n.hardening;
                assert(n.ask == AskView::Run(set_address(m.ifaces[m.at], mac_text(nanos))));
                assert forall|k: int| 0 <= k < n.session.mac_backup.len() implies entry_kept(
                    m,
                    h0,
                    #[trigger] n.session.mac_backup[k],
                ) by {
                    lemma_entry(h, m, h0, w.session.mac_backup[k]);
                }
            }
        },
    }
}

proof fn lemma_macs_address(w: World, h0: Host, seen: SeenView, nanos: u32)
    requires
        kept(w, h0),
        w.hardening.stage == Stage::Address,
        answers(w.host, w.ask, seen),
    ensures
        kept(advance(w, seen, nanos), h0),
{
    let h = w.hardening;
    let n = advance(w, seen, nanos);
    let iface = h.ifaces[h.at];
    assert(w.ask == AskView::Out(show_address(iface)));
    assert(!has_entry(w.session, iface)) by {
        if has_entry(w.session, iface) {
            let k = choose|k: int|
                0 <= k < w.session.mac_backup.len() && (#[trigger] w.session.mac_backup[k]).0
                    == iface;
            let e = w.session.mac_backup[k];
            let j = choose|j: int| 0 <= j < h.at && j < h.ifaces.len() && #[trigger] h.ifaces[j] == e.0;
            assert(h.ifaces[j] == h.ifaces[h.at]);
        }
    }
    assert(same_mac(w.host, h0, iface));
    assert forall|x: Text|
        #![trigger same_mac(n.host, h0, x)]
        !has_entry(n.session, x) implies same_mac(n.host, h0, x) by {
        assert(!has_entry(w.session, x));
        assert(same_mac(w.host, h0, x));
    }
    assert forall|k: int| 0 <= k < n.session.mac_backup.len() implies entry_kept(
        n.hardening,
        h0,
        #[trigger] n.session.mac_backup[k],
    ) by {
        lemma_entry(h, n.hardening, h0, w.session.mac_backup[k]);
    }
}

proof fn lemma_macs_set(w: World, h0: Host, seen: SeenView, nanos: u32)
    requires
        kept(w, h0),
        w.hardening.stage == Stage::LinkSet,
        answers(w.host, w.ask, seen),
    ensures
        kept(advance(w, seen, nanos), h0),
{
    let h = w.hardening;
    let n = advance(w, seen, nanos);
    let iface = h.ifaces[h.at];
    let mac = choose|mac: Text| w.ask == AskView::Run(#[trigger] set_address(iface, mac));
    lemma_effects(w.host, iface, mac, GENERIC_HOSTNAME@);
    assert(n.hardening.changed == seen_ran(seen));
    assert(n.hardening.ifaces[n.hardening.at] == iface);
    assert forall|x: Text|
        #![trigger same_mac(n.host, h0, x)]
        !has_entry(n.session, x) && !(n.hardening.changed && x == iface) implies same_mac(
        n.host,
        h0,
        x,
    ) by {
        assert(!has_entry(w.session, x));
        assert(same_mac(w.host, h0, x));
    }
}

proof fn lemma_macs_up(w: World, h0: Host, seen: SeenView, nanos: u32)
    requires
        kept(w, h0),
        w.hardening.stage == Stage::LinkUp,
        answers(w.host, w.ask, seen),
    ensures
        kept(advance(w, seen, nanos), h0),
{
    let h = w.hardening;
    let n = advance(w, seen, nanos);
    let iface = h.ifaces[h.at];
    lemma_effects(w.host, iface, iface, GENERIC_HOSTNAME@);
    assert(n.host == w.host);
    assert forall|x: Text|
        #![trigger same_mac(n.host, h0, x)]
        !has_entry(n.session, x) implies same_mac(n.host, h0, x) by {
        if has_entry(w.session, x) {
            let k = choose|k: int|
                0 <= k < w.session.mac_backup.len() && (#[trigger] w.session.mac_backup[k]).0 == x;
            assert(n.session.mac_backup[k].0 == x);
        }
        if h.changed {
            assert(n.session.mac_backup[w.session.mac_backup.len() as int].0 == iface);
        }
        assert(same_mac(w.host, h0, x));
    }
    assert forall|k: int| 0 <= k < n.session.mac_backup.len() implies entry_kept(
        n.hardening,
        h0,
        #[trigger] n.session.mac_backup[k],
    ) by {
        if k < w.session.mac_backup.len() {
            lemma_entry(h, n.hardening, h0, w.session.mac_backup[k]);
        } else {
            assert(n.hardening.ifaces[h.at] == iface);
        }
    }
}

proof fn lemma_carried_add(h: Host, a: Seq<StepView>, b: Seq<StepView>)
    ensures
        carried_out(h, a + b) == carried_out(carried_out(h, a), b),
    decreases b.len(),
{
    if b.len() == 0 {
        assert(a + b =~= a);
    } else {
        lemma_carried_add(h, a, b.drop_last());
        assert((a + b).drop_last() =~= a + b.drop_last());
        assert((a + b).last() == b.last());
    }
}

proof fn lemma_carried_one(h: Host, c: CommandView)
    ensures
        carried_out(h, seq![try_run(c)]) == effect(c, h),
{
    assert(seq![try_run(c)].drop_last() =~= seq![]);
    assert(carried_out(h, seq![]) == h);
}

/// The steps for the hardware addresses give every recorded interface its address and touch
/// nothing else.
proof fn lemma_macs_back(h: Host, h0: Host, v: Seq<(Text, Text)>)
    requires
        forall|k: int|
            0 <= k < v.len() ==> h0.macs.contains_key((#[trigger] v[k]).0) && h0.macs[v[k].0]
                == v[k].1,
    ensures
        ({
            let r = carried_out(h, mac_steps(v));
            &&& r.swap == h.swap
            &&& r.hostname == h.hostname
            &&& r.timestamps == h.timestamps
            &&& r.broadcasts == h.broadcasts
            &&& forall|x: Text|
                #![trigger same_mac(r, h0, x)]
                same_mac(h, h0, x) || (exists|k: int| 0 <= k < v.len() && (#[trigger] v[k]).0 == x)
                    ==> same_mac(r, h0, x)
        }),
    decreases v.len(),
{
    if v.len() == 0 {
    } else {
        let p = v.drop_last();
        lemma_macs_back(h, h0, p);
        let (iface, mac) = v.last();
        let m = carried_out(h, mac_steps(p));
        let a = link(iface, "down"@);
        let b = set_address(iface, mac);
        let c = link(iface, "up"@);
        let tail = seq![try_run(a), try_run(b), try_run(c)];
        lemma_carried_add(h, mac_steps(p), tail);
        assert(tail =~= seq![try_run(a)] + seq![try_run(b)] + seq![try_run(c)]);
        lemma_carried_add(m, seq![try_run(a)] + seq![try_run(b)], seq![try_run(c)]);
        lemma_carried_add(m, seq![try_run(a)], seq![try_run(b)]);
        lemma_carried_one(m, a);
        lemma_effects(m, iface, mac, mac);
        lemma_carried_one(m, b);
        let m2 = effect(b, m);
        lemma_carried_one(m2, c);
        lemma_effects(m2, iface, mac, mac);
        let r = carried_out(h, mac_steps(v));
        assert(r == m2);
        assert forall|x: Text|
            #![trigger same_mac(r, h0, x)]
            same_mac(h, h0, x) || (exists|k: int| 0 <= k < v.len() && (#[trigger] v[k]).0
                == x) implies same_mac(r, h0, x) by {
            if x == iface {
                assert(h0.macs.contains_key(v[v.len() - 1].0));
            } else {
                if !same_mac(h, h0, x) {
                    let k = choose|k: int| 0 <= k < v.len() && (#[trigger] v[k]).0 == x;
                    assert(p[k].0 == x);
                }
                assert(same_mac(m, h0, x));
            }
        }
    }
}

/// Whether a session records all that a host has to get back to be as it was: what is recorded is
/// what was, and what is not recorded is as it was.
pub open spec fn restorable(s: SessionView, h: Host, h0: Host) -> bool {
    &&& match s.hostname_backup {
        Some(name) => name == h0.hostname,
        None => h.hostname == h0.hostname,
    }
    &&& s.swap_was_on == h0.swap
    &&& !h0.swap ==> !h.swap
    &&& s.timestamps_backup == Some(h0.timestamps)
    &&& s.broadcasts_backup == Some(h0.broadcasts)
    &&& forall|k: int|
        0 <= k < s.mac_backup.len() ==> h0.macs.contains_key((#[trigger] s.mac_backup[k]).0)
            && h0.macs[s.mac_backup[k].0] == s.mac_backup[k].1
    &&& forall|x: Text| #![trigger same_mac(h, h0, x)] !has_entry(s, x) ==> same_mac(h, h0, x)
    &&& !s.hostname_mount
    &&& !s.machine_id_spoofed
}

/// Whether a host has the swap, the host name, the hardware addresses and the kernel settings of
/// another one.
pub open spec fn put_back(end: Host, h0: Host) -> bool {
    &&& end.swap == h0.swap
    &&& end.hostname == h0.hostname
    &&& end.macs == h0.macs
    &&& end.timestamps == h0.timestamps
    &&& end.broadcasts == h0.broadcasts
}

/// A session that records nothing of the host.
pub open spec fn blank(s: SessionView) -> bool {
    &&& s.hostname_backup is None
    &&& s.mac_backup.len() == 0
    &&& !s.hostname_mount
    &&& !s.machine_id_spoofed
    &&& s.timestamps_backup is None
    &&& s.broadcasts_backup is None
}

/// Hardening begins with nothing changed.
pub proof fn lemma_kept_start(mac: bool, session: SessionView, h0: Host)
    requires
        blank(session),
    ensures
        kept(before_hardening(mac, session, h0), h0),
{
}

/// While the host answers truthfully, whatever hardening changes of it is recorded, and where
/// hardening has no question left, all of it is. It works on nothing else of the session.
pub proof fn lemma_kept_on(w: World, h0: Host, seen: SeenView, nanos: u32)
    requires
        kept(w, h0),
        answers(w.host, w.ask, seen),
        sane(h0),
        !w.session.hostname_mount,
        !w.session.machine_id_spoofed,
    ensures
        ({
            let n = advance(w, seen, nanos);
            &&& kept(n, h0)
            &&& n.ask is Nothing ==> restorable(n.session, n.host, h0)
            &&& n.session.resolv_backup == w.session.resolv_backup
            &&& !n.session.hostname_mount
            &&& !n.session.machine_id_spoofed
        }),
{
    lemma_kept_step(w, h0, seen, nanos);
    let n = advance(w, seen, nanos);
    if n.ask is Nothing {
        assert(n.hardening.stage == Stage::Done);
        let s = n.session;
        assert forall|k: int| 0 <= k < s.mac_backup.len() implies h0.macs.contains_key(
            (#[trigger] s.mac_backup[k]).0,
        ) && h0.macs[s.mac_backup[k].0] == s.mac_backup[k].1 by {
            assert(entry_kept(n.hardening, h0, s.mac_backup[k]));
        }
    }
}

/// The plan that a session gives puts everything back that the session records.
pub proof fn lemma_put_back(s: SessionView, h: Host, h0: Host)
    requires
        restorable(s, h, h0),
    ensures
        put_back(carried_out(h, restore_plan(s)), h0),
{
    let head = unmount_steps(s) + match s.hostname_backup {
        Some(name) => seq![try_run(set_hostname(name))],
        None => seq![],
    };
    let swap = if s.swap_was_on {
        seq![try_run(swap_on())]
    } else {
        seq![]
    };
    let ts = change_setting(TIMESTAMPS@, h0.timestamps);
    let bs = change_setting(BROADCASTS@, h0.broadcasts);
    let h1 = carried_out(h, head);
    match s.hostname_backup {
        Some(name) => {
            assert(head =~= seq![try_run(set_hostname(name))]);
            lemma_carried_one(h, set_hostname(name));
            lemma_effects(h, name, name, name);
        },
        None => {},
    }
    assert(h1.hostname == h0.hostname);
    assert(h1.macs == h.macs && h1.swap == h.swap);
    lemma_carried_add(h, head, mac_steps(s.mac_backup));
    lemma_macs_back(h1, h0, s.mac_backup);
    let h2 = carried_out(h1, mac_steps(s.mac_backup));
    assert forall|x: Text| #![trigger same_mac(h2, h0, x)] same_mac(h2, h0, x) by {
        if !has_entry(s, x) {
            assert(same_mac(h, h0, x));
            assert(same_mac(h1, h0, x));
        }
    }
    assert(h2.macs =~= h0.macs) by {
        assert forall|x: Text| h2.macs.contains_key(x) == h0.macs.contains_key(x) by {
            assert(same_mac(h2, h0, x));
        }
        assert forall|x: Text| h2.macs.contains_key(x) implies h2.macs[x] == h0.macs[x] by {
            assert(same_mac(h2, h0, x));
        }
    }
    let macs = head + mac_steps(s.mac_backup);
    lemma_carried_add(h, macs, seq![try_run(ts)]);
    lemma_carried_one(h2, ts);
    lemma_settings(h2, h0.timestamps);
    let h3 = effect(ts, h2);
    lemma_carried_add(h, macs + seq![try_run(ts)], seq![try_run(bs)]);
    lemma_carried_one(h3, bs);
    lemma_settings(h3, h0.broadcasts);
    let h4 = effect(bs, h3);
    lemma_carried_add(h, macs + seq![try_run(ts)] + seq![try_run(bs)], swap);
    if s.swap_was_on {
        lemma_carried_one(h4, swap_on());
        lemma_effects(h4, ts.bin, ts.bin, ts.bin);
    }
}

proof fn lemma_hardened(mac: bool, session: SessionView, h0: Host, replies: Seq<(SeenView, u32)>)
    requires
        blank(session),
        sane(h0),
        truthful(before_hardening(mac, session, h0), replies),
    ensures
        ({
            let w = hardened(before_hardening(mac, session, h0), replies);
            &&& kept(w, h0)
            &&& !w.session.hostname_mount
            &&& !w.session.machine_id_spoofed
            &&& w.hardening.stage == Stage::Done ==> restorable(w.session, w.host, h0)
        }),
    decreases replies.len(),
{
    let w0 = before_hardening(mac, session, h0);
    if replies.len() == 0 {
        lemma_kept_start(mac, session, h0);
    } else {
        lemma_hardened(mac, session, h0, replies.drop_last());
        let w = hardened(w0, replies.drop_last());
        lemma_kept_on(w, h0, replies.last().0, replies.last().1);
    }
}

/// Hardening is undone: whichever of its commands succeeded, once hardening is done and the plan
/// that the session gives has been carried out, the host has the swap, the host name, the hardware
/// addresses and the kernel settings that it had before. The session must be one that records
/// nothing yet, and the host name must stand without white space around it.
pub proof fn law_restore_undoes_hardening(
    mac: bool,
    session: SessionView,
    host: Host,
    replies: Seq<(SeenView, u32)>,
)
    requires
        blank(session),
        sane(host),
        truthful(before_hardening(mac, session, host), replies),
        hardened(before_hardening(mac, session, host), replies).hardening.stage == Stage::Done,
    ensures
        ({
            let w = hardened(before_hardening(mac, session, host), replies);
            put_back(carried_out(w.host, restore_plan(w.session)), host)
        }),
{
    lemma_hardened(mac, session, host, replies);
    let w = hardened(before_hardening(mac, session, host), replies);
    lemma_put_back(w.session, w.host, host);
}

// ---------- what hardening does ----------
/// Whether every command that changes a setting succeeds.
pub open spec fn all_succeed(w: World, replies: Seq<(SeenView, u32)>) -> bool
    decreases replies.len(),
{
    replies.len() == 0 || {
        let before = hardened(w, replies.drop_last());
        all_succeed(w, replies.drop_last()) && (before.ask is Run ==> seen_ran(replies.last().0))
    }
}

/// Whether an interface has an address that was made up, marked as locally administered.
pub open spec fn spoofed(h: Host, iface: Text) -> bool {
    h.macs.contains_key(iface) && begins(h.macs[iface], "02:"@)
}

/// Whether an interface has an address to begin with.
pub open spec fn addressed(h: Host, iface: Text) -> bool {
    h.macs.contains_key(iface) && h.macs[iface].len() > 0
}

spec fn before_timestamps(st: Stage) -> bool {
    st == Stage::Start || st == Stage::Swap || st == Stage::SwapOff || st == Stage::ShowTimestamps
        || st == Stage::ShowBroadcasts || st == Stage::Timestamps
}

/// What has taken hold of a host while it is hardened.
spec fn taken_hold(w: World, h0: Host) -> bool {
    let h = w.hardening;
    let st = h.stage;
    &&& st != Stage::Start && st != Stage::Swap && st != Stage::SwapOff ==> !w.host.swap
    &&& !before_timestamps(st) ==> w.host.timestamps == "0"@
    &&& !before_timestamps(st) && st != Stage::Broadcasts ==> w.host.broadcasts == "1"@
    &&& !before_rename(st) && h0.hostname.len() > 0 ==> w.host.hostname == "localhost"@
    &&& forall|j: int|
        0 <= j < h.at && j < h.ifaces.len() && addressed(h0, #[trigger] h.ifaces[j]) ==> spoofed(
            w.host,
            h.ifaces[j],
        )
    &&& st == Stage::LinkUp ==> spoofed(w.host, h.ifaces[h.at])
    &&& st == Stage::LinkSet ==> exists|n: u32|
        w.ask == AskView::Run(set_address(h.ifaces[h.at], #[trigger] mac_text(n)))
    &&& st == Stage::Done && h.mac ==> h.at >= h.ifaces.len()
}

proof fn lemma_made_up(nanos: u32)
    ensures
        begins(mac_text(nanos), "02:"@),
{
    reveal_strlit("02:");
    assert(mac_text(nanos).take(3) =~= "02:"@);
}

proof fn lemma_takes_hold(w: World, h0: Host, seen: SeenView, nanos: u32)
    requires
        kept(w, h0),
        taken_hold(w, h0),
        answers(w.host, w.ask, seen),
        w.ask is Run ==> seen_ran(seen),
        sane(h0),
    ensures
        taken_hold(advance(w, seen, nanos), h0),
        advance(w, seen, nanos).hardening.mac == w.hardening.mac,
{
    let h = w.hardening;
    let n = advance(w, seen, nanos);
    let iface = h.ifaces[h.at];
    lemma_commands();
    lemma_effects(w.host, iface, mac_text(nanos), GENERIC_HOSTNAME@);
    lemma_settings(w.host, "0"@);
    lemma_settings(w.host, "1"@);
    match h.stage {
        Stage::Address => {
            assert(!has_entry(w.session, iface)) by {
                if has_entry(w.session, iface) {
                    let k = choose|k: int|
                        0 <= k < w.session.mac_backup.len() && (
                        #[trigger] w.session.mac_backup[k]).0 == iface;
                    let e = w.session.mac_backup[k];
                    assert(entry_kept(h, h0, e));
                    let j = choose|j: int|
                        0 <= j < h.at && j < h.ifaces.len() && #[trigger] h.ifaces[j] == e.0;
                    assert(h.ifaces[j] == h.ifaces[h.at]);
                }
            }
            assert(same_mac(w.host, h0, iface));
        },
        Stage::LinkDown => {
            assert(n.ask == AskView::Run(set_address(iface, mac_text(nanos))));
        },
        Stage::LinkSet => {
            let m = choose|m: u32| w.ask == AskView::Run(set_address(iface, #[trigger] mac_text(m)));
            lemma_effects(w.host, iface, mac_text(m), GENERIC_HOSTNAME@);
            lemma_made_up(m);
            assert forall|j: int|
                0 <= j < h.at && j < h.ifaces.len() && addressed(
                    h0,
                    #[trigger] h.ifaces[j],
                ) implies spoofed(n.host, h.ifaces[j]) by {
                assert(spoofed(w.host, h.ifaces[j]));
            }
        },
        _ => {},
    }
}

proof fn lemma_hardened_takes_hold(
    mac: bool,
    session: SessionView,
    h0: Host,
    replies: Seq<(SeenView, u32)>,
)
    requires
        blank(session),
        sane(h0),
        truthful(before_hardening(mac, session, h0), replies),
        all_succeed(before_hardening(mac, session, h0), replies),
    ensures
        taken_hold(hardened(before_hardening(mac, session, h0), replies), h0),
        hardened(before_hardening(mac, session, h0), replies).hardening.mac == mac,
    decreases replies.len(),
{
    let w0 = before_hardening(mac, session, h0);
    if replies.len() > 0 {
        lemma_hardened_takes_hold(mac, session, h0, replies.drop_last());
        lemma_hardened(mac, session, h0, replies.drop_last());
        lemma_takes_hold(
            hardened(w0, replies.drop_last()),
            h0,
            replies.last().0,
            replies.last().1,
        );
    }
}

/// Hardening takes hold: once it is done, and all of its commands have succeeded, swap is off, TCP
/// has no timestamps, ICMP broadcasts are ignored, a host that had a name has the common one, and,
/// where that was asked for, every interface that was found with an address has one that was made
/// up.
pub proof fn law_hardening_takes_hold(
    mac: bool,
    session: SessionView,
    host: Host,
    replies: Seq<(SeenView, u32)>,
)
    requires
        blank(session),
        sane(host),
        truthful(before_hardening(mac, session, host), replies),
        all_succeed(before_hardening(mac, session, host), replies),
        hardened(before_hardening(mac, session, host), replies).hardening.stage == Stage::Done,
    ensures
        ({
            let w = hardened(before_hardening(mac, session, host), replies);
            &&& !w.host.swap
            &&& w.host.timestamps == "0"@
            &&& w.host.broadcasts == "1"@
            &&& host.hostname.len() > 0 ==> w.host.hostname == "localhost"@
            &&& mac ==> forall|j: int|
                0 <= j < w.hardening.ifaces.len() && addressed(
                    host,
                    #[trigger] w.hardening.ifaces[j],
                ) ==> spoofed(w.host, w.hardening.ifaces[j])
        }),
{
    lemma_hardened_takes_hold(mac, session, host, replies);
}

/// The interfaces that hardening works on are those that the host names, all of them, where that
/// was asked for; otherwise the host is not asked, and hardening is done.
pub proof fn law_hardening_works_on_what_is_named(
    h: HardeningView,
    s: SessionView,
    names: Seq<Text>,
    nanos: u32,
)
    ensures
        h.stage == Stage::Ifaces ==> apply_step(h, s, SeenView::Names(names), nanos).0.ifaces == names
            && apply_step(h, s, SeenView::Names(names), nanos).0.at == 0,
        h.stage == Stage::Rename ==> {
            let n = apply_step(h, s, SeenView::Ran(true), nanos);
            if h.mac {
                n.2 is Ifaces
            } else {
                n.2 is Nothing && n.0.stage == Stage::Done
            }
        },
{
}

} // verus!
