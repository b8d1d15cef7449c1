//! Hardening of the host for a session, all of it recorded in the session so that it can be put
//! back: swap off, a few kernel settings, a generic host name and, where asked for, random
//! hardware addresses.
use vstd::prelude::*;
use vstd::string::StringExecFns;

use crate::json::pair_texts;
use crate::number::{hex, hex_pair, hex_text};
use crate::plan::{
    Command, CommandView, OpView, Step, StepView, attempt, cmd, command, run_op, steps, try_op,
};
use crate::state::{Session, SessionView};
use crate::text::{Text, opt_text, same, strs, texts, trim, trimmed};

verus! {

/// The host name during a session, one that many machines share.
pub const GENERIC_HOSTNAME: &'static str = "localhost";

/// The kernel's setting for TCP timestamps, which give away how long the machine has been up.
pub const TIMESTAMPS: &'static str = "net.ipv4.tcp_timestamps";

/// The kernel's setting for ICMP echo requests to a broadcast address.
pub const BROADCASTS: &'static str = "net.ipv4.icmp_echo_ignore_broadcasts";

/// What hardening waits for: the answer to the question that the stage is named after.
#[derive(Clone, Copy, PartialEq, Eq, Structural)]
pub enum Stage {
    Start,
    Swap,
    SwapOff,
    ShowTimestamps,
    ShowBroadcasts,
    Timestamps,
    Broadcasts,
    Hostname,
    Rename,
    Ifaces,
    Address,
    LinkDown,
    LinkSet,
    LinkUp,
    Done,
}

/// How far hardening has got.
pub struct Hardening {
    /// Hardware addresses are to be changed.
    pub mac: bool,
    pub stage: Stage,
    /// The host name, or the hardware address, that is about to be replaced.
    pub original: String,
    pub ifaces: Vec<String>,
    /// The interface that is being worked on.
    pub at: usize,
    /// Its address has been changed.
    pub changed: bool,
}

/// The model of a [`Hardening`].
#[verifier::ext_equal]
pub struct HardeningView {
    pub mac: bool,
    pub stage: Stage,
    pub original: Text,
    pub ifaces: Seq<Text>,
    pub at: int,
    pub changed: bool,
}

impl View for Hardening {
    type V = HardeningView;

    open spec fn view(&self) -> HardeningView {
        HardeningView {
            mac: self.mac,
            stage: self.stage,
            original: self.original@,
            ifaces: texts(self.ifaces@),
            at: self.at as int,
            changed: self.changed,
        }
    }
}

/// What hardening asks of the host.
pub enum Ask {
    /// What a command prints, without the white space around it.
    Out(Command),
    /// Whether a command succeeds.
    Run(Command),
    /// The names of the physical interfaces.
    Ifaces,
    /// Nothing more: hardening is done.
    Nothing,
}

/// The model of an [`Ask`].
#[verifier::ext_equal]
pub enum AskView {
    Out(CommandView),
    Run(CommandView),
    Ifaces,
    Nothing,
}

impl View for Ask {
    type V = AskView;

    open spec fn view(&self) -> AskView {
        match self {
            Ask::Out(c) => AskView::Out(c@),
            Ask::Run(c) => AskView::Run(c@),
            Ask::Ifaces => AskView::Ifaces,
            Ask::Nothing => AskView::Nothing,
        }
    }
}

/// What the host answered.
pub enum Seen {
    Nothing,
    Text(String),
    Ran(bool),
    Names(Vec<String>),
}

/// The model of a [`Seen`].
#[verifier::ext_equal]
pub enum SeenView {
    Nothing,
    Text(Text),
    Ran(bool),
    Names(Seq<Text>),
}

impl View for Seen {
    type V = SeenView;

    open spec fn view(&self) -> SeenView {
        match self {
            Seen::Nothing => SeenView::Nothing,
            Seen::Text(t) => SeenView::Text(t@),
            Seen::Ran(b) => SeenView::Ran(*b),
            Seen::Names(v) => SeenView::Names(texts(v@)),
        }
    }
}

pub open spec fn seen_text(s: SeenView) -> Text {
    match s {
        SeenView::Text(t) => t,
        _ => seq![],
    }
}

pub open spec fn seen_ran(s: SeenView) -> bool {
    s == SeenView::Ran(true)
}

pub open spec fn seen_names(s: SeenView) -> Seq<Text> {
    match s {
        SeenView::Names(v) => v,
        _ => seq![],
    }
}

// ---------- the commands ----------
pub open spec fn show_swap() -> CommandView {
    cmd("swapon"@, seq!["--show"@, "--noheadings"@])
}

pub open spec fn swap_off() -> CommandView {
    cmd("swapoff"@, seq!["-a"@])
}

pub open spec fn swap_on() -> CommandView {
    cmd("swapon"@, seq!["-a"@])
}

pub open spec fn show_setting(name: Text) -> CommandView {
    cmd("sysctl"@, seq!["-n"@, name])
}

pub open spec fn change_setting(name: Text, value: Text) -> CommandView {
    cmd("sysctl"@, seq!["-qw"@, name + "="@ + value])
}

pub open spec fn show_hostname() -> CommandView {
    cmd("hostname"@, seq![])
}

pub open spec fn set_hostname(name: Text) -> CommandView {
    cmd("hostname"@, seq![name])
}

pub open spec fn show_address(iface: Text) -> CommandView {
    cmd("cat"@, seq!["/sys/class/net/"@ + iface + "/address"@])
}

pub open spec fn link(iface: Text, way: Text) -> CommandView {
    cmd("ip"@, seq!["link"@, "set"@, iface, way])
}

pub open spec fn set_address(iface: Text, mac: Text) -> CommandView {
    cmd("ip"@, seq!["link"@, "set"@, iface, "address"@, mac])
}

/// The little-endian bytes of a number.
pub open spec fn byte_of(n: u32, i: nat) -> u8 {
    if i == 0 {
        (n % 0x100) as u8
    } else if i == 1 {
        (n / 0x100 % 0x100) as u8
    } else if i == 2 {
        (n / 0x1_0000 % 0x100) as u8
    } else {
        (n / 0x100_0000) as u8
    }
}

/// A hardware address made of the nanoseconds of the clock. Its first byte marks it as locally
/// administered and unicast.
pub open spec fn mac_text(nanos: u32) -> Text {
    "02:"@ + hex_pair(byte_of(nanos, 0)) + ":"@ + hex_pair(byte_of(nanos, 1)) + ":"@ + hex_pair(
        byte_of(nanos, 2),
    ) + ":"@ + hex_pair(byte_of(nanos, 3) ^ 0x5a) + ":"@ + hex_pair(byte_of(nanos, 0) ^ 0xa5)
}

fn pair(b: u8) -> (s: String)
    ensures
        s@ == hex_pair(b),
{
    let one: Vec<u8> = vec![b];
    assert(one@ =~= seq![b]);
    assert(one@.drop_last() =~= seq![]);
    assert(hex_text(seq![]) =~= seq![]);
    assert(hex_text(one@) =~= hex_pair(b));
    hex(one.as_slice())
}

/// A hardware address made of the nanoseconds of the clock.
pub fn random_mac(nanos: u32) -> (s: String)
    ensures
        s@ == mac_text(nanos),
{
    let b0: u8 = (nanos % 0x100) as u8;
    let b1: u8 = (nanos / 0x100 % 0x100) as u8;
    let b2: u8 = (nanos / 0x1_0000 % 0x100) as u8;
    let b3: u8 = (nanos / 0x100_0000) as u8;
    "02:".to_owned().concat(pair(b0).as_str()).concat(":").concat(pair(b1).as_str()).concat(
        ":",
    ).concat(pair(b2).as_str()).concat(":").concat(pair(b3 ^ 0x5a).as_str()).concat(":").concat(
        pair(b0 ^ 0xa5).as_str(),
    )
}

/// The interfaces whose address can be changed: those that have a device behind them, but for
/// loopback.
pub open spec fn physical(found: Seq<(Text, bool)>) -> Seq<Text>
    decreases found.len(),
{
    if found.len() == 0 {
        seq![]
    } else {
        let rest = physical(found.drop_last());
        if found.last().0 != "lo"@ && found.last().1 {
            rest.push(found.last().0)
        } else {
            rest
        }
    }
}

pub open spec fn found_texts(v: Seq<(String, bool)>) -> Seq<(Text, bool)> {
    v.map_values(|p: (String, bool)| (p.0@, p.1))
}

/// Picks the physical interfaces out of all interfaces, each with whether it has a device.
pub fn phys_ifaces(found: &Vec<(String, bool)>) -> (r: Vec<String>)
    ensures
        texts(r@) == physical(found_texts(found@)),
{
    let mut r: Vec<String> = Vec::new();
    let ghost all = found_texts(found@);
    let mut i: usize = 0;
    assert(texts(r@) =~= physical(all.take(0)));
    while i < found.len()
        invariant
            i <= found@.len(),
            all == found_texts(found@),
            texts(r@) == physical(all.take(i as int)),
        decreases found@.len() - i,
    {
        assert(all.take(i + 1).drop_last() =~= all.take(i as int));
        let ghost before = r@;
        if !same(found[i].0.as_str(), "lo") && found[i].1 {
            let name = found[i].0.clone();
            r.push(name);
            assert(texts(r@) =~= texts(before).push(name@));
        }
        i += 1;
    }
    assert(all.take(found@.len() as int) =~= all);
    r
}

// ---------- applying ----------
/// Hardening before its first question.
pub open spec fn begin_view(mac: bool) -> HardeningView {
    HardeningView {
        mac,
        stage: Stage::Start,
        original: seq![],
        ifaces: seq![],
        at: 0,
        changed: false,
    }
}

/// Hardening before its first question.
pub fn begin(mac: bool) -> (h: Hardening)
    ensures
        h@ == begin_view(mac),
{
    let h = Hardening {
        mac,
        stage: Stage::Start,
        original: String::new(),
        ifaces: Vec::new(),
        at: 0,
        changed: false,
    };
    assert(h@.ifaces =~= seq![]);
    h
}

/// On to the interfaces, where their addresses are to be changed.
pub open spec fn to_ifaces(h: HardeningView) -> (HardeningView, AskView) {
    if h.mac {
        (HardeningView { stage: Stage::Ifaces, ..h }, AskView::Ifaces)
    } else {
        (HardeningView { stage: Stage::Done, ..h }, AskView::Nothing)
    }
}

/// On to the interface at `h.at`.
pub open spec fn to_iface(h: HardeningView) -> (HardeningView, AskView) {
    if 0 <= h.at < h.ifaces.len() {
        (
            HardeningView { stage: Stage::Address, ..h },
            AskView::Out(show_address(h.ifaces[h.at])),
        )
    } else {
        (HardeningView { stage: Stage::Done, ..h }, AskView::Nothing)
    }
}

/// What is recorded of a setting: what was read of it, where it could be read.
pub open spec fn found(t: Text) -> Option<Text> {
    if t.len() > 0 {
        Some(t)
    } else {
        None
    }
}

/// The next stage of hardening, what the session records, and the next question, out of the answer
/// to the last one and the nanoseconds of the clock.
pub open spec fn apply_step(
    h: HardeningView,
    s: SessionView,
    seen: SeenView,
    nanos: u32,
) -> (HardeningView, SessionView, AskView) {
    match h.stage {
        Stage::Start => (HardeningView { stage: Stage::Swap, ..h }, s, AskView::Out(show_swap())),
        Stage::Swap => {
            let on = seen_text(seen).len() > 0;
            let s2 = SessionView { swap_was_on: on, ..s };
            if on {
                (HardeningView { stage: Stage::SwapOff, ..h }, s2, AskView::Run(swap_off()))
            } else {
                (
                    HardeningView { stage: Stage::ShowTimestamps, ..h },
                    s2,
                    AskView::Out(show_setting(TIMESTAMPS@)),
                )
            }
        },
        Stage::SwapOff => (
            HardeningView { stage: Stage::ShowTimestamps, ..h },
            s,
            AskView::Out(show_setting(TIMESTAMPS@)),
        ),
        Stage::ShowTimestamps => (
            HardeningView { stage: Stage::ShowBroadcasts, ..h },
            SessionView { timestamps_backup: found(seen_text(seen)), ..s },
            AskView::Out(show_setting(BROADCASTS@)),
        ),
        Stage::ShowBroadcasts => (
            HardeningView { stage: Stage::Timestamps, ..h },
            SessionView { broadcasts_backup: found(seen_text(seen)), ..s },
            AskView::Run(change_setting(TIMESTAMPS@, "0"@)),
        ),
        Stage::Timestamps => (
            HardeningView { stage: Stage::Broadcasts, ..h },
            s,
            AskView::Run(change_setting(BROADCASTS@, "1"@)),
        ),
        Stage::Broadcasts => (
            HardeningView { stage: Stage::Hostname, ..h },
            s,
            AskView::Out(show_hostname()),
        ),
        Stage::Hostname => {
            let name = trimmed(seen_text(seen));
            if name.len() > 0 && name != GENERIC_HOSTNAME@ {
                (
                    HardeningView { stage: Stage::Rename, original: name, ..h },
                    s,
                    AskView::Run(set_hostname(GENERIC_HOSTNAME@)),
                )
            } else {
                (to_ifaces(h).0, s, to_ifaces(h).1)
            }
        },
        Stage::Rename => {
            let s2 = if seen_ran(seen) {
                SessionView { hostname_backup: Some(h.original), ..s }
            } else {
                s
            };
            (to_ifaces(h).0, s2, to_ifaces(h).1)
        },
        Stage::Ifaces => {
            let h2 = HardeningView { ifaces: seen_names(seen), at: 0, ..h };
            (to_iface(h2).0, s, to_iface(h2).1)
        },
        Stage::Address => if seen_text(seen).len() == 0 {
            let h2 = HardeningView { at: h.at + 1, ..h };
            (to_iface(h2).0, s, to_iface(h2).1)
        } else {
            (
                HardeningView { stage: Stage::LinkDown, original: seen_text(seen), ..h },
                s,
                AskView::Run(link(h.ifaces[h.at], "down"@)),
            )
        },
        Stage::LinkDown => (
            HardeningView { stage: Stage::LinkSet, ..h },
            s,
            AskView::Run(set_address(h.ifaces[h.at], mac_text(nanos))),
        ),
        Stage::LinkSet => (
            HardeningView { stage: Stage::LinkUp, changed: seen_ran(seen), ..h },
            s,
            AskView::Run(link(h.ifaces[h.at], "up"@)),
        ),
        Stage::LinkUp => {
            let s2 = if h.changed {
                SessionView {
                    mac_backup: s.mac_backup.push((h.ifaces[h.at], h.original)),
                    ..s
                }
            } else {
                s
            };
            let h2 = HardeningView { at: h.at + 1, ..h };
            (to_iface(h2).0, s2, to_iface(h2).1)
        },
        Stage::Done => (h, s, AskView::Nothing),
    }
}

/// While an interface is being worked on, it is one of those found.
pub open spec fn well_formed(h: HardeningView) -> bool {
    (h.stage == Stage::Address || h.stage == Stage::LinkDown || h.stage == Stage::LinkSet || h.stage
        == Stage::LinkUp) ==> 0 <= h.at < h.ifaces.len()
}

fn asked(bin: &str, args: &[&str]) -> (c: Command)
    ensures
        c@.bin == bin@,
        c@.args == strs(args@),
{
    command(bin, args)
}

fn ask_setting(name: &str) -> (a: Ask)
    ensures
        a@ == AskView::Out(show_setting(name@)),
{
    let c = asked("sysctl", &["-n", name]);
    assert(c@.args =~= seq!["-n"@, name@]);
    Ask::Out(c)
}

fn run_setting(name: &str, value: &str) -> (a: Ask)
    ensures
        a@ == AskView::Run(change_setting(name@, value@)),
{
    let text = name.to_owned().concat("=").concat(value);
    let c = asked("sysctl", &["-qw", text.as_str()]);
    assert(c@.args =~= seq!["-qw"@, name@ + "="@ + value@]);
    Ask::Run(c)
}

fn take_found(seen: Seen) -> (o: Option<String>)
    ensures
        opt_text(o) == found(seen_text(seen@)),
{
    match seen {
        Seen::Text(t) if !t.as_str().is_empty() => Some(t),
        _ => None,
    }
}

fn run_link(iface: &str, way: &str) -> (a: Ask)
    ensures
        a@ == AskView::Run(link(iface@, way@)),
{
    let c = asked("ip", &["link", "set", iface, way]);
    assert(c@.args =~= seq!["link"@, "set"@, iface@, way@]);
    Ask::Run(c)
}

fn go_to_ifaces(h: &mut Hardening) -> (a: Ask)
    ensures
        (final(h)@, a@) == to_ifaces(old(h)@),
{
    if h.mac {
        h.stage = Stage::Ifaces;
        Ask::Ifaces
    } else {
        h.stage = Stage::Done;
        Ask::Nothing
    }
}

fn go_to_iface(h: &mut Hardening) -> (a: Ask)
    ensures
        (final(h)@, a@) == to_iface(old(h)@),
{
    if h.at < h.ifaces.len() {
        h.stage = Stage::Address;
        let path = "/sys/class/net/".to_owned().concat(h.ifaces[h.at].as_str()).concat("/address");
        let c = asked("cat", &[path.as_str()]);
        assert(c@.args =~= show_address(old(h)@.ifaces[old(h)@.at]).args);
        Ask::Out(c)
    } else {
        h.stage = Stage::Done;
        Ask::Nothing
    }
}

/// Takes the answer to the last question, records in the session what has to be put back later,
/// and asks the next question.
pub fn apply(h: &mut Hardening, sess: &mut Session, seen: Seen, nanos: u32) -> (a: Ask)
    requires
        well_formed(old(h)@),
    ensures
        (final(h)@, final(sess)@, a@) == apply_step(old(h)@, old(sess)@, seen@, nanos),
        well_formed(final(h)@),
{
    let found: usize = h.ifaces.len();
    assert(found == h@.ifaces.len());
    match h.stage {
        Stage::Start => {
            h.stage = Stage::Swap;
            let c = asked("swapon", &["--show", "--noheadings"]);
            assert(c@.args =~= show_swap().args);
            Ask::Out(c)
        },
        Stage::Swap => {
            let on = match &seen {
                Seen::Text(t) => !t.as_str().is_empty(),
                _ => false,
            };
            sess.swap_was_on = on;
            if on {
                h.stage = Stage::SwapOff;
                let c = asked("swapoff", &["-a"]);
                assert(c@.args =~= swap_off().args);
                Ask::Run(c)
            } else {
                h.stage = Stage::ShowTimestamps;
                ask_setting(TIMESTAMPS)
            }
        },
        Stage::SwapOff => {
            h.stage = Stage::ShowTimestamps;
            ask_setting(TIMESTAMPS)
        },
        Stage::ShowTimestamps => {
            h.stage = Stage::ShowBroadcasts;
            sess.timestamps_backup = take_found(seen);
            ask_setting(BROADCASTS)
        },
        Stage::ShowBroadcasts => {
            h.stage = Stage::Timestamps;
            sess.broadcasts_backup = take_found(seen);
            run_setting(TIMESTAMPS, "0")
        },
        Stage::Timestamps => {
            h.stage = Stage::Broadcasts;
            run_setting(BROADCASTS, "1")
        },
        Stage::Broadcasts => {
            h.stage = Stage::Hostname;
            let c = asked("hostname", &[]);
            assert(c@.args =~= show_hostname().args);
            Ask::Out(c)
        },
        Stage::Hostname => {
            let name = match &seen {
                Seen::Text(t) => trim(t.as_str()),
                _ => trim(""),
            };
            assert(name@ == trimmed(seen_text(seen@))) by {
                reveal_strlit("");
                assert(""@ =~= seq![]);
            }
            if !name.as_str().is_empty() && !same(name.as_str(), GENERIC_HOSTNAME) {
                h.stage = Stage::Rename;
                h.original = name;
                let c = asked("hostname", &[GENERIC_HOSTNAME]);
                assert(c@.args =~= set_hostname(GENERIC_HOSTNAME@).args);
                Ask::Run(c)
            } else {
                go_to_ifaces(h)
            }
        },
        Stage::Rename => {
            match &seen {
                Seen::Ran(true) => {
                    sess.hostname_backup = Some(h.original.clone());
                },
                _ => {},
            }
            go_to_ifaces(h)
        },
        Stage::Ifaces => {
            h.ifaces = match seen {
                Seen::Names(v) => v,
                _ => Vec::new(),
            };
            h.at = 0;
            assert(h@.ifaces =~= seen_names(seen@));
            go_to_iface(h)
        },
        Stage::Address => match seen {
            Seen::Text(t) if !t.as_str().is_empty() => {
                h.stage = Stage::LinkDown;
                h.original = t;
                run_link(h.ifaces[h.at].as_str(), "down")
            },
            _ => {
                h.at = h.at + 1;
                go_to_iface(h)
            },
        },
        Stage::LinkDown => {
            h.stage = Stage::LinkSet;
            let mac = random_mac(nanos);
            let c = asked("ip", &["link", "set", h.ifaces[h.at].as_str(), "address", mac.as_str()]);
            assert(c@.args =~= set_address(old(h)@.ifaces[old(h)@.at], mac@).args);
            Ask::Run(c)
        },
        Stage::LinkSet => {
            h.stage = Stage::LinkUp;
            h.changed = match &seen {
                Seen::Ran(b) => *b,
                _ => false,
            };
            run_link(h.ifaces[h.at].as_str(), "up")
        },
        Stage::LinkUp => {
            if h.changed {
                let ghost before = sess.mac_backup@;
                let entry = (h.ifaces[h.at].clone(), h.original.clone());
                sess.mac_backup.push(entry);
                assert(pair_texts(sess.mac_backup@) =~= pair_texts(before).push(
                    (entry.0@, entry.1@),
                ));
            }
            h.at = h.at + 1;
            go_to_iface(h)
        },
        Stage::Done => Ask::Nothing,
    }
}

// ---------- restoring ----------
pub open spec fn try_run(c: CommandView) -> StepView {
    attempt(OpView::Run(c))
}

/// The steps that give each interface its original address back.
pub open spec fn mac_steps(v: Seq<(Text, Text)>) -> Seq<StepView>
    decreases v.len(),
{
    if v.len() == 0 {
        seq![]
    } else {
        mac_steps(v.drop_last()) + seq![
            try_run(link(v.last().0, "down"@)),
            try_run(set_address(v.last().0, v.last().1)),
            try_run(link(v.last().0, "up"@)),
        ]
    }
}

pub open spec fn unmount(path: Text) -> CommandView {
    cmd("umount"@, seq![path])
}

/// The steps that take away what a session mounted over files of the host.
pub open spec fn unmount_steps(s: SessionView) -> Seq<StepView> {
    (if s.hostname_mount {
        seq![try_run(unmount("/etc/hostname"@))]
    } else {
        seq![]
    }) + (if s.machine_id_spoofed {
        seq![try_run(unmount("/etc/machine-id"@))]
    } else {
        seq![]
    })
}

/// The step that gives a setting of the kernel the value that is recorded of it.
pub open spec fn setting_steps(name: Text, recorded: Option<Text>) -> Seq<StepView> {
    match recorded {
        Some(value) => seq![try_run(change_setting(name, value))],
        None => seq![],
    }
}

/// The plan that puts back everything a session records.
pub open spec fn restore_plan(s: SessionView) -> Seq<StepView> {
    let host = match s.hostname_backup {
        Some(name) => seq![try_run(set_hostname(name))],
        None => seq![],
    };
    let swap = if s.swap_was_on {
        seq![try_run(swap_on())]
    } else {
        seq![]
    };
    unmount_steps(s) + host + mac_steps(s.mac_backup) + setting_steps(
        TIMESTAMPS@,
        s.timestamps_backup,
    ) + setting_steps(BROADCASTS@, s.broadcasts_backup) + swap
}

fn try_command(bin: &str, args: &[&str]) -> (s: Step)
    ensures
        s@.op == OpView::Run(cmd(bin@, strs(args@))),
        s@ == attempt(s@.op),
{
    try_op(run_op(bin, args))
}

fn put_setting(v: &mut Vec<Step>, name: &str, recorded: &Option<String>)
    ensures
        steps(final(v)@) == steps(old(v)@) + setting_steps(name@, opt_text(*recorded)),
{
    match recorded {
        Some(value) => {
            let text = name.to_owned().concat("=").concat(value.as_str());
            let s = try_command("sysctl", &["-qw", text.as_str()]);
            assert(s@ =~~= try_run(change_setting(name@, value@)));
            v.push(s);
        },
        None => {},
    }
    assert(steps(v@) =~= steps(old(v)@) + setting_steps(name@, opt_text(*recorded)));
}

/// Puts back everything that a session records: mounts, host name, hardware addresses, kernel
/// settings and swap.
pub fn restore(sess: &Session) -> (v: Vec<Step>)
    ensures
        steps(v@) == restore_plan(sess@),
{
    let mut v: Vec<Step> = Vec::new();
    if sess.hostname_mount {
        let s = try_command("umount", &["/etc/hostname"]);
        assert(s@ =~~= try_run(unmount("/etc/hostname"@)));
        v.push(s);
    }
    if sess.machine_id_spoofed {
        let s = try_command("umount", &["/etc/machine-id"]);
        assert(s@ =~~= try_run(unmount("/etc/machine-id"@)));
        v.push(s);
    }
    assert(steps(v@) =~= unmount_steps(sess@));
    let ghost mounts = v@;
    match &sess.hostname_backup {
        Some(name) => {
            let s = try_command("hostname", &[name.as_str()]);
            assert(s@ =~~= try_run(set_hostname(name@)));
            v.push(s);
            assert(steps(v@) =~= steps(mounts).push(s@));
        },
        None => {},
    }
    let ghost head = steps(v@);
    assert(head =~= unmount_steps(sess@) + match sess@.hostname_backup {
        Some(name) => seq![try_run(set_hostname(name))],
        None => seq![],
    });
    let ghost macs = sess@.mac_backup;
    let mut i: usize = 0;
    assert(head + mac_steps(macs.take(0)) =~= head);
    while i < sess.mac_backup.len()
        invariant
            i <= sess.mac_backup@.len(),
            macs == pair_texts(sess.mac_backup@),
            steps(v@) == head + mac_steps(macs.take(i as int)),
        decreases sess.mac_backup@.len() - i,
    {
        let ifn = sess.mac_backup[i].0.as_str();
        let mac = sess.mac_backup[i].1.as_str();
        let a = try_command("ip", &["link", "set", ifn, "down"]);
        let b = try_command("ip", &["link", "set", ifn, "address", mac]);
        let c = try_command("ip", &["link", "set", ifn, "up"]);
        assert(a@ =~~= try_run(link(ifn@, "down"@)));
        assert(b@ =~~= try_run(set_address(ifn@, mac@)));
        assert(c@ =~~= try_run(link(ifn@, "up"@)));
        let ghost before = v@;
        v.push(a);
        v.push(b);
        v.push(c);
        assert(macs.take(i + 1).drop_last() =~= macs.take(i as int));
        assert(steps(v@) =~= steps(before) + seq![a@, b@, c@]);
        assert(steps(v@) =~= head + (mac_steps(macs.take(i as int)) + seq![a@, b@, c@]));
        i += 1;
    }
    assert(macs.take(macs.len() as int) =~= macs);
    put_setting(&mut v, TIMESTAMPS, &sess.timestamps_backup);
    put_setting(&mut v, BROADCASTS, &sess.broadcasts_backup);
    if sess.swap_was_on {
        let w = try_command("swapon", &["-a"]);
        assert(w@ =~~= try_run(swap_on()));
        v.push(w);
    }
    assert(steps(v@) =~= restore_plan(sess@));
    v
}

/// The interfaces that are worked on are those with a device behind them, but for loopback, in the
/// order in which they were found.
pub proof fn law_physical_interfaces(v: Seq<(Text, bool)>)
    ensures
        physical(v) == v.filter_map(
            |p: (Text, bool)|
                if p.0 != "lo"@ && p.1 {
                    Some(p.0)
                } else {
                    None
                },
        ),
    decreases v.len(),
{
    if v.len() > 0 {
        law_physical_interfaces(v.drop_last());
    }
}

/// An address that is made up has six bytes in hexadecimal, with a colon between two. The first is
/// `02`, which marks it as locally administered; the others come from the bytes of the clock, the
/// last two of them turned over.
pub proof fn law_made_up_addresses(nanos: u32, a: u8, b: u8, c: u8, d: u8)
    requires
        nanos == a + 0x100 * b + 0x1_0000 * c + 0x100_0000 * d,
    ensures
        mac_text(nanos) == "02:"@ + hex_pair(a) + ":"@ + hex_pair(b) + ":"@ + hex_pair(c) + ":"@
            + hex_pair(d ^ 0x5a) + ":"@ + hex_pair(a ^ 0xa5),
        mac_text(nanos).len() == 17,
        mac_text(nanos)[0] == '0' && mac_text(nanos)[1] == '2',
        mac_text(nanos)[2] == ':' && mac_text(nanos)[5] == ':' && mac_text(nanos)[8] == ':',
        mac_text(nanos)[11] == ':' && mac_text(nanos)[14] == ':',
{
    assert((nanos % 0x100) as u8 == a && (nanos / 0x100 % 0x100) as u8 == b && (nanos / 0x1_0000
        % 0x100) as u8 == c && (nanos / 0x100_0000) as u8 == d) by (bit_vector)
        requires
            nanos == a + 0x100 * b + 0x1_0000 * c + 0x100_0000 * d,
    ;
    reveal_strlit("02:");
    reveal_strlit(":");
}

/// What a session does not record is not touched when it is put back, and each thing that it does
/// record is put back by a command of its own; all of them are attempts.
pub proof fn law_each_record_is_put_back(s: SessionView, i: int)
    ensures
        ({
            let v = restore_plan(s);
            let count = |b: bool|
                if b {
                    1int
                } else {
                    0
                };
            v.len() == count(s.hostname_mount) + count(s.machine_id_spoofed) + count(
                s.hostname_backup is Some,
            ) + 3 * s.mac_backup.len() + count(s.timestamps_backup is Some) + count(
                s.broadcasts_backup is Some,
            ) + count(s.swap_was_on)
        }),
        0 <= i < s.mac_backup.len() ==> {
            let v = mac_steps(s.mac_backup);
            let (iface, mac) = s.mac_backup[i];
            &&& v[3 * i] == attempt(OpView::Run(cmd("ip"@, seq!["link"@, "set"@, iface, "down"@])))
            &&& v[3 * i + 1] == attempt(
                OpView::Run(cmd("ip"@, seq!["link"@, "set"@, iface, "address"@, mac])),
            )
            &&& v[3 * i + 2] == attempt(
                OpView::Run(cmd("ip"@, seq!["link"@, "set"@, iface, "up"@])),
            )
        },
{
    lemma_mac_steps(s.mac_backup, i);
}

proof fn lemma_mac_steps(v: Seq<(Text, Text)>, i: int)
    ensures
        mac_steps(v).len() == 3 * v.len(),
        0 <= i < v.len() ==> {
            &&& mac_steps(v)[3 * i] == try_run(link(v[i].0, "down"@))
            &&& mac_steps(v)[3 * i + 1] == try_run(set_address(v[i].0, v[i].1))
            &&& mac_steps(v)[3 * i + 2] == try_run(link(v[i].0, "up"@))
        },
    decreases v.len(),
{
    if v.len() > 0 {
        lemma_mac_steps(v.drop_last(), i);
    }
}

/// The questions and commands name what they are asked of: the interface, the setting, the value,
/// the address.
pub proof fn law_commands_name_their_object(iface: Text, way: Text, mac: Text, name: Text, value: Text)
    ensures
        show_address(iface) == cmd("cat"@, seq!["/sys/class/net/"@ + iface + "/address"@]),
        link(iface, way) == cmd("ip"@, seq!["link"@, "set"@, iface, way]),
        set_address(iface, mac) == cmd("ip"@, seq!["link"@, "set"@, iface, "address"@, mac]),
        show_setting(name) == cmd("sysctl"@, seq!["-n"@, name]),
        change_setting(name, value) == cmd("sysctl"@, seq!["-qw"@, name + "="@ + value]),
        set_hostname(name) == cmd("hostname"@, seq![name]),
{
}

/// What was mounted over a file of the host is taken away, each where it was mounted.
pub proof fn law_mounts_are_taken_away(s: SessionView)
    ensures
        ({
            let v = unmount_steps(s);
            let hostname = attempt(OpView::Run(cmd("umount"@, seq!["/etc/hostname"@])));
            let machine = attempt(OpView::Run(cmd("umount"@, seq!["/etc/machine-id"@])));
            &&& s.hostname_mount && s.machine_id_spoofed ==> v == seq![hostname, machine]
            &&& s.hostname_mount && !s.machine_id_spoofed ==> v == seq![hostname]
            &&& !s.hostname_mount && s.machine_id_spoofed ==> v == seq![machine]
            &&& !s.hostname_mount && !s.machine_id_spoofed ==> v.len() == 0
        }),
{
}

} // verus!
