//! What the anonymity daemon makes of the state of the host: the session's true condition, the
//! snapshot that everyone may read, the status report, and the words of the command line.
use vstd::prelude::*;
use vstd::string::StringExecFns;

use crate::json::{bool_text, is_flat, is_leaf, object_text, pair_texts, write_object};
use crate::number::{dec, decimal};
use crate::plan::{Op, OpView, Step, StepView, attempt, cmd, must, need_op, run_op, steps, try_op};
use crate::reading::law_begins_and_finishes;
use crate::state::{State, state_text};
use crate::text::{
    Text, begins, finishes, following, lemma_plain, opt_text, plain, plain_up_to, quote, quoted, same,
    starts_with, texts, word_after, words,
};
use crate::util::{RUN_DIR, dirs_plan, ensure_dirs};
use crate::verify::{exit_check, says_ip};

verus! {

// ---------- health ----------
/// The reconciled condition of a session, as against what its record claims.
#[derive(Clone, Copy, PartialEq, Eq, Structural, Debug)]
pub struct Health {
    pub effective: State,
    /// Traffic leaves in the clear although the session claims to be active.
    pub leaking: bool,
}

/// The condition of a session out of what its record claims, whether Tor runs, and whether the
/// kill-switch is installed. A claim to be active holds only while Tor runs: without Tor, traffic
/// is blocked where the kill-switch holds, and leaks where it does not.
pub open spec fn condition(persisted: Option<State>, tor_running: bool, armed: bool) -> Health {
    let claimed = match persisted {
        Some(s) => s,
        None => State::Down,
    };
    if claimed == State::Active && !tor_running {
        Health {
            effective: if armed {
                State::Locked
            } else {
                State::Down
            },
            leaking: !armed,
        }
    } else {
        Health { effective: claimed, leaking: false }
    }
}

/// The condition of a session.
pub fn health(persisted: Option<State>, tor_running: bool, armed: bool) -> (h: Health)
    ensures
        h == condition(persisted, tor_running, armed),
{
    let claimed = match persisted {
        Some(s) => s,
        None => State::Down,
    };
    if claimed == State::Active && !tor_running {
        Health {
            effective: if armed {
                State::Locked
            } else {
                State::Down
            },
            leaking: !armed,
        }
    } else {
        Health { effective: claimed, leaking: false }
    }
}

/// A dead session never passes for an active one: a session counts as active only while Tor runs,
/// and a leak is reported exactly where an active session has lost both Tor and the kill-switch.
pub proof fn law_dead_session_is_never_active(
    persisted: Option<State>,
    tor_running: bool,
    armed: bool,
)
    ensures
        condition(persisted, tor_running, armed).effective == State::Active <==> persisted == Some(
            State::Active,
        ) && tor_running,
        condition(persisted, tor_running, armed).leaking <==> persisted == Some(State::Active)
            && !tor_running && !armed,
        condition(persisted, tor_running, armed).leaking ==> condition(
            persisted,
            tor_running,
            armed,
        ).effective == State::Down,
{
}

// ---------- the public snapshot ----------
/// What is up on the host.
#[derive(Clone, Copy, PartialEq, Eq, Structural, Debug)]
pub struct Layers {
    pub tor: bool,
    pub killswitch: bool,
    pub dns: bool,
    pub i2p: bool,
}

pub open spec fn tor_word(b: bool) -> Text {
    if b {
        "running"@
    } else {
        "stopped"@
    }
}

pub open spec fn killswitch_word(b: bool) -> Text {
    if b {
        "armed"@
    } else {
        "down"@
    }
}

pub open spec fn dns_word(b: bool) -> Text {
    if b {
        "pinned"@
    } else {
        "open"@
    }
}

pub open spec fn i2p_word(b: bool) -> Text {
    if b {
        "running"@
    } else {
        "off"@
    }
}

fn either(b: bool, yes: &'static str, no: &'static str) -> (r: &'static str)
    ensures
        r@ == if b {
            yes@
        } else {
            no@
        },
{
    if b {
        yes
    } else {
        no
    }
}

/// The members of the snapshot, with the JSON texts of their values.
pub open spec fn snapshot_members(
    state: Text,
    exit_ip: Text,
    leaking: bool,
    pct: u8,
    up: Layers,
) -> Seq<(Text, Text)> {
    seq![
        ("state"@, quoted(state)),
        ("exit_ip"@, quoted(exit_ip)),
        ("tor"@, quoted(tor_word(up.tor))),
        ("killswitch"@, quoted(killswitch_word(up.killswitch))),
        ("dns"@, quoted(dns_word(up.dns))),
        ("i2p"@, quoted(i2p_word(up.i2p))),
        ("leaking"@, bool_text(leaking)),
        ("bootstrap_pct"@, decimal(pct as nat)),
    ]
}

/// The snapshot: one JSON object.
pub open spec fn snapshot_text(
    state: Text,
    exit_ip: Text,
    leaking: bool,
    pct: u8,
    up: Layers,
) -> Text {
    object_text(snapshot_members(state, exit_ip, leaking, pct, up))
}

/// The names and the words of the snapshot are plain.
pub proof fn lemma_snapshot_words()
    ensures
        plain("state"@),
        plain("exit_ip"@),
        plain("tor"@),
        plain("killswitch"@),
        plain("dns"@),
        plain("i2p"@),
        plain("leaking"@),
        plain("bootstrap_pct"@),
        forall|b: bool| plain(#[trigger] tor_word(b)),
        forall|b: bool| plain(#[trigger] killswitch_word(b)),
        forall|b: bool| plain(#[trigger] dns_word(b)),
        forall|b: bool| plain(#[trigger] i2p_word(b)),
{
    reveal_strlit("state");
    reveal_strlit("exit_ip");
    reveal_strlit("tor");
    reveal_strlit("killswitch");
    reveal_strlit("dns");
    reveal_strlit("i2p");
    reveal_strlit("leaking");
    reveal_strlit("bootstrap_pct");
    reveal_strlit("running");
    reveal_strlit("stopped");
    reveal_strlit("armed");
    reveal_strlit("down");
    reveal_strlit("pinned");
    reveal_strlit("open");
    reveal_strlit("off");
    reveal_with_fuel(plain_up_to, 14);
    lemma_plain("state"@, 5);
    lemma_plain("exit_ip"@, 7);
    lemma_plain("tor"@, 3);
    lemma_plain("killswitch"@, 10);
    lemma_plain("dns"@, 3);
    lemma_plain("i2p"@, 3);
    lemma_plain("leaking"@, 7);
    lemma_plain("bootstrap_pct"@, 13);
    lemma_plain("running"@, 7);
    lemma_plain("stopped"@, 7);
    lemma_plain("armed"@, 5);
    lemma_plain("down"@, 4);
    lemma_plain("pinned"@, 6);
    lemma_plain("open"@, 4);
    lemma_plain("off"@, 3);
}

/// The names of the members of the snapshot differ.
proof fn lemma_snapshot_names(state: Text, exit_ip: Text, leaking: bool, pct: u8, up: Layers)
    ensures
        ({
            let v = snapshot_members(state, exit_ip, leaking, pct, up);
            forall|i: int, j: int|
                0 <= i < j < v.len() ==> (#[trigger] v[i]).0 != (#[trigger] v[j]).0
        }),
{
    reveal_strlit("state");
    reveal_strlit("exit_ip");
    reveal_strlit("tor");
    reveal_strlit("killswitch");
    reveal_strlit("dns");
    reveal_strlit("i2p");
    reveal_strlit("leaking");
    reveal_strlit("bootstrap_pct");
    assert("state"@.len() == 5 && "exit_ip"@.len() == 7 && "tor"@.len() == 3);
    assert("killswitch"@.len() == 10 && "dns"@.len() == 3 && "i2p"@.len() == 3);
    assert("leaking"@.len() == 7 && "bootstrap_pct"@.len() == 13);
    assert("tor"@[0] == 't' && "dns"@[0] == 'd' && "i2p"@[0] == 'i');
    assert("exit_ip"@[0] == 'e' && "leaking"@[0] == 'l');
}

/// A snapshot of a plain state and a plain address is an object whose values come back as they were
/// written.
pub proof fn lemma_snapshot_is_flat(state: Text, exit_ip: Text, leaking: bool, pct: u8, up: Layers)
    requires
        plain(state),
        plain(exit_ip),
    ensures
        is_flat(snapshot_members(state, exit_ip, leaking, pct, up)),
{
    lemma_snapshot_words();
    lemma_snapshot_names(state, exit_ip, leaking, pct, up);
    let v = snapshot_members(state, exit_ip, leaking, pct, up);
    assert forall|i: int| 0 <= i < v.len() implies plain((#[trigger] v[i]).0) && is_leaf(
        v[i].1,
    ) by {
        if i == 7 {
            assert(v[7].1 == decimal(pct as u64 as nat));
        }
    }
}

/// Where the snapshot is kept.
pub open spec fn snapshot_file() -> Text {
    RUN_DIR@ + "/pub.json"@
}

/// The plan that publishes a snapshot. It becomes readable for everyone once it is written.
pub open spec fn publish_plan(
    state: Text,
    exit_ip: Text,
    leaking: bool,
    pct: u8,
    up: Layers,
) -> Seq<StepView> {
    dirs_plan() + seq![
        must(OpView::Write(snapshot_file(), snapshot_text(state, exit_ip, leaking, pct, up))),
        attempt(OpView::Run(cmd("chmod"@, seq!["644"@, snapshot_file()]))),
    ]
}

/// Publishes a snapshot with a bootstrap percentage. What the plan comes to is not reported.
pub fn write_pub_full(
    state: &str,
    exit_ip: &str,
    leaking: bool,
    bootstrap_pct: u8,
    up: Layers,
) -> (v: Vec<Step>)
    ensures
        steps(v@) == publish_plan(state@, exit_ip@, leaking, bootstrap_pct, up),
{
    let members: Vec<(String, String)> = vec![
        ("state".to_owned(), quote(state)),
        ("exit_ip".to_owned(), quote(exit_ip)),
        ("tor".to_owned(), quote(either(up.tor, "running", "stopped"))),
        ("killswitch".to_owned(), quote(either(up.killswitch, "armed", "down"))),
        ("dns".to_owned(), quote(either(up.dns, "pinned", "open"))),
        ("i2p".to_owned(), quote(either(up.i2p, "running", "off"))),
        ("leaking".to_owned(), either(leaking, "true", "false").to_owned()),
        ("bootstrap_pct".to_owned(), dec(bootstrap_pct as u64)),
    ];
    assert(pair_texts(members@) =~= snapshot_members(
        state@,
        exit_ip@,
        leaking,
        bootstrap_pct,
        up,
    ));
    let json = write_object(&members);
    let path = RUN_DIR.to_owned().concat("/pub.json");
    let chmod = run_op("chmod", &["644", path.as_str()]);
    let mut v = ensure_dirs();
    let ghost before = v@;
    v.push(need_op(Op::Write(path, json)));
    v.push(try_op(chmod));
    assert(forall|i: int| 0 <= i < before.len() ==> steps(v@)[i] == steps(before)[i]);
    assert(steps(v@) =~~= publish_plan(state@, exit_ip@, leaking, bootstrap_pct, up));
    v
}

/// Publishes a snapshot outside a bootstrap.
pub fn write_pub(state: &str, exit_ip: &str, leaking: bool, up: Layers) -> (v: Vec<Step>)
    ensures
        steps(v@) == publish_plan(state@, exit_ip@, leaking, 0, up),
{
    write_pub_full(state, exit_ip, leaking, 0, up)
}

/// Publishes how far a bootstrap has got.
pub fn write_pub_bootstrapping(pct: u8, up: Layers) -> (v: Vec<Step>)
    ensures
        steps(v@) == publish_plan("Bootstrapping"@, ""@, false, pct, up),
{
    write_pub_full("Bootstrapping", "", false, pct, up)
}

// ---------- the progress line ----------
/// The segments of the progress bar.
pub const SEGMENTS: usize = 20;

pub open spec fn repeated(c: char, n: nat) -> Text {
    Seq::new(n, |i: int| c)
}

/// How many segments are filled.
pub open spec fn filled_segments(pct: u8) -> nat {
    if pct >= 100 {
        20
    } else {
        (pct * 20 / 100) as nat
    }
}

/// The progress bar: as many filled segments as the percentage calls for, then empty ones.
pub open spec fn bar_text(pct: u8) -> Text {
    repeated('▰', filled_segments(pct)) + repeated('▱', (20 - filled_segments(pct)) as nat)
}

/// The progress bar.
pub fn bar(pct: u8) -> (s: String)
    ensures
        s@ == bar_text(pct),
{
    let share: usize = pct as usize * SEGMENTS / 100;
    let filled: usize = if share < SEGMENTS {
        share
    } else {
        SEGMENTS
    };
    let mut s = String::new();
    let mut i: usize = 0;
    while i < SEGMENTS
        invariant
            i <= SEGMENTS,
            filled <= SEGMENTS,
            s@ == if i <= filled {
                repeated('▰', i as nat)
            } else {
                repeated('▰', filled as nat) + repeated('▱', (i - filled) as nat)
            },
        decreases SEGMENTS - i,
    {
        let ghost before = s@;
        if i < filled {
            s.push('▰');
            assert(s@ =~= repeated('▰', (i + 1) as nat));
        } else {
            s.push('▱');
            assert(s@ =~= repeated('▰', filled as nat) + repeated('▱', (i + 1 - filled) as nat));
        }
        i += 1;
    }
    assert(s@ =~= bar_text(pct));
    s
}

/// A percentage, set flush right in three columns.
pub open spec fn flush_right(pct: u8) -> Text {
    (if pct < 10 {
        "  "@
    } else if pct < 100 {
        " "@
    } else {
        ""@
    }) + decimal(pct as nat)
}

/// The progress line, which overwrites the one before it.
pub open spec fn progress_text(pct: u8) -> Text {
    "\r  "@ + bar_text(pct) + "  bootstrapping Tor "@ + flush_right(pct) + "%   "@
}

/// The progress line.
pub fn progress_line(pct: u8) -> (s: String)
    ensures
        s@ == progress_text(pct),
{
    let pad = if pct < 10 {
        "  "
    } else if pct < 100 {
        " "
    } else {
        ""
    };
    let number = pad.to_owned().concat(dec(pct as u64).as_str());
    "\r  ".to_owned().concat(bar(pct).as_str()).concat("  bootstrapping Tor ").concat(
        number.as_str(),
    ).concat("%   ")
}

// ---------- the layer in front of Tor ----------
/// The device names that begin like those of a tunnel.
pub open spec fn is_tunnel(dev: Text) -> bool {
    begins(dev, "tun"@) || begins(dev, "wg"@) || begins(dev, "proton"@) || begins(dev, "mullvad"@)
        || begins(dev, "nordlynx"@) || begins(dev, "tap"@)
}

/// Whether the route to the outside, as `ip -o route get` prints it, leaves through a tunnel.
pub fn vpn_layer_present(route: &str) -> (r: bool)
    ensures
        r == is_tunnel(word_after(words(route@), "dev"@)),
{
    let dev = following(route, "dev");
    starts_with(dev.as_str(), "tun") || starts_with(dev.as_str(), "wg") || starts_with(
        dev.as_str(),
        "proton",
    ) || starts_with(dev.as_str(), "mullvad") || starts_with(dev.as_str(), "nordlynx")
        || starts_with(dev.as_str(), "tap")
}

// ---------- status ----------
/// What is reported of a session.
pub open spec fn status_lines(persisted: Option<State>, up: Layers) -> Seq<Text> {
    let h = condition(persisted, up.tor, up.killswitch);
    let head = seq!["state\t"@ + state_text(h.effective)];
    let dropped = if persisted == Some(State::Active) && h.effective != State::Active {
        seq!["\t↳ was Active, but Tor is not running — anonymity has DROPPED."@]
    } else {
        seq![]
    };
    let layers = seq![
        "tor\t"@ + tor_word(up.tor),
        "killswitch\t"@ + killswitch_word(up.killswitch),
        "dns\t"@ + dns_word(up.dns),
        "i2p\t"@ + i2p_word(up.i2p),
    ];
    let leak = if h.leaking {
        seq![
            "\n*** LEAK: this session was Active, Tor is DEAD, and the kill-switch is DOWN."@,
            "*** Traffic is egressing in the clear. Run `anond down` then `anond up` to restore,"@,
            "*** or `anond down` to stop and clean up."@,
        ]
    } else {
        seq![]
    };
    head + dropped + layers + leak
}

/// What is reported of a session: its true condition, that it has dropped where it has, each layer,
/// and a leak.
pub fn status(persisted: Option<State>, up: Layers) -> (v: Vec<String>)
    ensures
        texts(v@) == status_lines(persisted, up),
{
    let h = health(persisted, up.tor, up.killswitch);
    let mut v: Vec<String> = Vec::new();
    v.push("state\t".to_owned().concat(h.effective.name()));
    let claimed = match persisted {
        Some(s) => s == State::Active,
        None => false,
    };
    if claimed && h.effective != State::Active {
        v.push("\t↳ was Active, but Tor is not running — anonymity has DROPPED.".to_owned());
    }
    v.push("tor\t".to_owned().concat(either(up.tor, "running", "stopped")));
    v.push("killswitch\t".to_owned().concat(either(up.killswitch, "armed", "down")));
    v.push("dns\t".to_owned().concat(either(up.dns, "pinned", "open")));
    v.push("i2p\t".to_owned().concat(either(up.i2p, "running", "off")));
    if h.leaking {
        v.push(
            "\n*** LEAK: this session was Active, Tor is DEAD, and the kill-switch is DOWN.".to_owned(),
        );
        v.push(
            "*** Traffic is egressing in the clear. Run `anond down` then `anond up` to restore,".to_owned(),
        );
        v.push("*** or `anond down` to stop and clean up.".to_owned());
    }
    assert(texts(v@) =~~= status_lines(persisted, up));
    v
}

/// Whether the status asks for the exit: that of an active session.
pub fn asks_exit(persisted: Option<State>, up: Layers) -> (r: bool)
    ensures
        r == (condition(persisted, up.tor, up.killswitch).effective == State::Active),
{
    health(persisted, up.tor, up.killswitch).effective == State::Active
}

/// The line that reports the exit of an active session, out of the address that the exit probe gave.
/// Without an address there is no line.
pub fn exit_line(ip: &str) -> (r: Option<String>)
    ensures
        opt_text(r) == if ip@.len() > 0 {
            Some("exit_ip\t"@ + ip@)
        } else {
            None
        },
{
    if ip.is_empty() {
        None
    } else {
        Some("exit_ip\t".to_owned().concat(ip))
    }
}

/// The line that reports the exit of an active session, out of the answer of the exit probe.
pub fn status_exit(body: &str) -> (r: Option<String>)
    ensures
        opt_text(r) == if says_ip(body@).len() > 0 {
            Some("exit_ip\t"@ + says_ip(body@))
        } else {
            None
        },
{
    let (_, ip) = exit_check(body);
    exit_line(ip.as_str())
}

/// Publishes what the status found, with the address of the exit where the session is active, so
/// that nobody is shown a session as active that is not. The layers are looked at again.
pub fn status_snapshot(persisted: Option<State>, up: Layers, ip: &str, now: Layers) -> (v: Vec<Step>)
    ensures
        ({
            let h = condition(persisted, up.tor, up.killswitch);
            steps(v@) == publish_plan(
                state_text(h.effective),
                if h.effective == State::Active {
                    ip@
                } else {
                    ""@
                },
                h.leaking,
                0,
                now,
            )
        }),
{
    let h = health(persisted, up.tor, up.killswitch);
    let shown = if h.effective == State::Active {
        ip
    } else {
        ""
    };
    write_pub(h.effective.name(), shown, h.leaking, now)
}

/// Publishes what the status found, with the address that the answer of the exit probe gives where
/// the session is active.
pub fn status_published(persisted: Option<State>, up: Layers, body: &str, now: Layers) -> (v: Vec<
    Step,
>)
    ensures
        ({
            let h = condition(persisted, up.tor, up.killswitch);
            steps(v@) == publish_plan(
                state_text(h.effective),
                if h.effective == State::Active {
                    says_ip(body@)
                } else {
                    ""@
                },
                h.leaking,
                0,
                now,
            )
        }),
{
    let (_, ip) = exit_check(body);
    status_snapshot(persisted, up, ip.as_str(), now)
}

// ---------- the command line ----------
/// What the command line asks for.
#[derive(Clone, Copy, PartialEq, Eq, Structural, Debug)]
pub enum Order {
    Up,
    Down,
    Status,
    Verify,
    NewIdentity,
    Version,
    Usage,
}

/// What a word of the command line asks for.
pub open spec fn order_of(word: Text) -> Order {
    if word == "up"@ || word == "start"@ || word == "on"@ {
        Order::Up
    } else if word == "down"@ || word == "stop"@ || word == "off"@ || word == "-k"@ {
        Order::Down
    } else if word == "status"@ {
        Order::Status
    } else if word == "verify"@ || word == "safe"@ || word == "--safe"@ || word == "test"@ {
        Order::Verify
    } else if word == "new-identity"@ || word == "newid"@ || word == "newnym"@ {
        Order::NewIdentity
    } else if word == "version"@ || word == "--version"@ || word == "-V"@ {
        Order::Version
    } else {
        Order::Usage
    }
}

/// What a command line asks for: its first word decides, and none means the status.
pub fn order(args: &[String]) -> (r: Order)
    ensures
        r == if args@.len() == 0 {
            order_of("status"@)
        } else {
            order_of(args@[0]@)
        },
{
    let word = if args.len() == 0 {
        "status"
    } else {
        args[0].as_str()
    };
    if same(word, "up") || same(word, "start") || same(word, "on") {
        Order::Up
    } else if same(word, "down") || same(word, "stop") || same(word, "off") || same(word, "-k") {
        Order::Down
    } else if same(word, "status") {
        Order::Status
    } else if same(word, "verify") || same(word, "safe") || same(word, "--safe") || same(
        word,
        "test",
    ) {
        Order::Verify
    } else if same(word, "new-identity") || same(word, "newid") || same(word, "newnym") {
        Order::NewIdentity
    } else if same(word, "version") || same(word, "--version") || same(word, "-V") {
        Order::Version
    } else {
        Order::Usage
    }
}

/// How the daemon is used.
pub const USAGE: &'static str = "anond: up [--mac] | down | status | verify | new-identity";

/// Whether a list holds a text.
pub open spec fn lists(v: Seq<Text>, t: Text) -> bool {
    exists|i: int| 0 <= i < v.len() && #[trigger] v[i] == t
}

/// Whether a list holds a text.
pub fn listed(v: &[String], t: &str) -> (r: bool)
    ensures
        r == lists(texts(v@), t@),
{
    let mut i: usize = 0;
    while i < v.len()
        invariant
            i <= v@.len(),
            forall|k: int| 0 <= k < i ==> #[trigger] texts(v@)[k] != t@,
        decreases v@.len() - i,
    {
        if same(v[i].as_str(), t) {
            assert(texts(v@)[i as int] == t@);
            return true;
        }
        i += 1;
    }
    false
}

// ---------- what is reported, over all conditions ----------
/// The condition for every record: without one the session is down; a record that does not claim to
/// be active is believed, whatever runs; one that does is believed while Tor runs, and otherwise the
/// session is locked where the kill-switch holds and down where it does not.
pub proof fn law_the_true_condition(persisted: Option<State>, tor_running: bool, armed: bool)
    ensures
        ({
            let h = condition(persisted, tor_running, armed);
            &&& persisted is None ==> h.effective == State::Down && !h.leaking
            &&& persisted matches Some(s) ==> {
                &&& s != State::Active ==> h.effective == s && !h.leaking
                &&& s == State::Active && tor_running ==> h.effective == s && !h.leaking
                &&& s == State::Active && !tor_running && armed ==> h.effective == State::Locked
                    && !h.leaking
                &&& s == State::Active && !tor_running && !armed ==> h.effective == State::Down
                    && h.leaking
            }
        }),
{
}

/// Each member of the snapshot says what it is named after: the state and the exit as given, each
/// layer by its word, the leak as given, and the percentage in digits.
pub proof fn law_the_snapshot_says_what_is_up(
    state: Text,
    exit_ip: Text,
    leaking: bool,
    pct: u8,
    up: Layers,
)
    ensures
        ({
            let v = snapshot_members(state, exit_ip, leaking, pct, up);
            &&& v.len() == 8
            &&& v[0] == ("state"@, quoted(state))
            &&& v[1] == ("exit_ip"@, quoted(exit_ip))
            &&& v[2].0 == "tor"@
            &&& v[2].1 == quoted(
                if up.tor {
                    "running"@
                } else {
                    "stopped"@
                },
            )
            &&& v[3].0 == "killswitch"@
            &&& v[3].1 == quoted(
                if up.killswitch {
                    "armed"@
                } else {
                    "down"@
                },
            )
            &&& v[4].0 == "dns"@
            &&& v[4].1 == quoted(
                if up.dns {
                    "pinned"@
                } else {
                    "open"@
                },
            )
            &&& v[5].0 == "i2p"@
            &&& v[5].1 == quoted(
                if up.i2p {
                    "running"@
                } else {
                    "off"@
                },
            )
            &&& v[6].0 == "leaking"@
            &&& v[6].1 == if leaking {
                "true"@
            } else {
                "false"@
            }
            &&& v[7] == ("bootstrap_pct"@, decimal(pct as nat))
        }),
{
}

/// The bar has twenty segments, and a segment is filled exactly where the percentage has reached its
/// end: segment `i` at five times `i` and one.
pub proof fn law_the_bar_fills_by_fives(pct: u8, i: int)
    requires
        0 <= i < 20,
    ensures
        bar_text(pct).len() == 20,
        bar_text(pct)[i] == '▰' <==> pct >= 5 * (i + 1),
        bar_text(pct)[i] == '▱' <==> pct < 5 * (i + 1),
{
}

/// The percentage takes three columns, with blanks before its digits.
pub proof fn law_the_percentage_is_flush_right(pct: u8)
    ensures
        flush_right(pct).len() == 3,
        finishes(flush_right(pct), decimal(pct as nat)),
        forall|i: int|
            0 <= i < 3 - decimal(pct as nat).len() ==> #[trigger] flush_right(pct)[i] == ' ',
{
    reveal_strlit("  ");
    reveal_strlit(" ");
    reveal_strlit("");
    reveal_with_fuel(decimal, 3);
    let d = decimal(pct as nat);
    assert(flush_right(pct).skip(3 - d.len()) =~= d);
}

/// A device is taken for a tunnel exactly where its name begins like one of six kinds.
pub proof fn law_tunnels(dev: Text)
    ensures
        forall|rest: Text|
            #![trigger "tun"@ + rest]
            dev == "tun"@ + rest || dev == "tap"@ + rest || dev == "wg"@ + rest || dev == "proton"@
                + rest || dev == "mullvad"@ + rest || dev == "nordlynx"@ + rest ==> is_tunnel(dev),
        !begins(dev, "tun"@) && !begins(dev, "tap"@) && !begins(dev, "wg"@) && !begins(
            dev,
            "proton"@,
        ) && !begins(dev, "mullvad"@) && !begins(dev, "nordlynx"@) ==> !is_tunnel(dev),
{
    law_begins_and_finishes(dev, "tun"@);
    law_begins_and_finishes(dev, "tap"@);
    law_begins_and_finishes(dev, "wg"@);
    law_begins_and_finishes(dev, "proton"@);
    law_begins_and_finishes(dev, "mullvad"@);
    law_begins_and_finishes(dev, "nordlynx"@);
}

/// The report for every condition. The first line is the true state. A session that claims to be
/// active without Tor is told to have dropped, on the second line, and no other is. The four layers
/// follow, each by its word. A warning of a leak ends the report exactly where the session claims to
/// be active and neither Tor nor the kill-switch is up.
pub proof fn law_the_report_is_true(persisted: Option<State>, up: Layers)
    ensures
        ({
            let v = status_lines(persisted, up);
            let dropped = persisted == Some(State::Active) && !up.tor;
            let leaking = dropped && !up.killswitch;
            let at: int = if dropped {
                2
            } else {
                1
            };
            let shown = if dropped {
                if up.killswitch {
                    State::Locked
                } else {
                    State::Down
                }
            } else {
                match persisted {
                    Some(s) => s,
                    None => State::Down,
                }
            };
            &&& v.len() == at + 4 + if leaking {
                3int
            } else {
                0
            }
            &&& v[0] == "state\t"@ + state_text(shown)
            &&& dropped ==> v[1]
                == "\t↳ was Active, but Tor is not running — anonymity has DROPPED."@
            &&& v[at] == "tor\t"@ + (if up.tor {
                "running"@
            } else {
                "stopped"@
            })
            &&& v[at + 1] == "killswitch\t"@ + (if up.killswitch {
                "armed"@
            } else {
                "down"@
            })
            &&& v[at + 2] == "dns\t"@ + (if up.dns {
                "pinned"@
            } else {
                "open"@
            })
            &&& v[at + 3] == "i2p\t"@ + (if up.i2p {
                "running"@
            } else {
                "off"@
            })
            &&& leaking ==> v[6]
                == "\n*** LEAK: this session was Active, Tor is DEAD, and the kill-switch is DOWN."@ && v[7]
                == "*** Traffic is egressing in the clear. Run `anond down` then `anond up` to restore,"@
                && v[8] == "*** or `anond down` to stop and clean up."@
        }),
{
}

/// Every word of the command line that means something, and what it means; any other asks how the
/// program is used.
pub proof fn law_the_words_of_the_command_line(word: Text)
    ensures
        order_of(word) == Order::Up <==> seq!["up"@, "start"@, "on"@].contains(word),
        order_of(word) == Order::Down <==> seq!["down"@, "stop"@, "off"@, "-k"@].contains(word),
        order_of(word) == Order::Status <==> word == "status"@,
        order_of(word) == Order::Verify <==> seq!["verify"@, "safe"@, "--safe"@, "test"@].contains(
            word,
        ),
        order_of(word) == Order::NewIdentity <==> seq![
            "new-identity"@,
            "newid"@,
            "newnym"@,
        ].contains(word),
        order_of(word) == Order::Version <==> seq!["version"@, "--version"@, "-V"@].contains(word),
{
    lemma_words_differ();
    let a = seq!["up"@, "start"@, "on"@];
    let b = seq!["down"@, "stop"@, "off"@, "-k"@];
    let c = seq!["verify"@, "safe"@, "--safe"@, "test"@];
    let d = seq!["new-identity"@, "newid"@, "newnym"@];
    let e = seq!["version"@, "--version"@, "-V"@];
    assert(a[0] == "up"@ && a[1] == "start"@ && a[2] == "on"@);
    assert(b[0] == "down"@ && b[1] == "stop"@ && b[2] == "off"@ && b[3] == "-k"@);
    assert(c[0] == "verify"@ && c[1] == "safe"@ && c[2] == "--safe"@ && c[3] == "test"@);
    assert(d[0] == "new-identity"@ && d[1] == "newid"@ && d[2] == "newnym"@);
    assert(e[0] == "version"@ && e[1] == "--version"@ && e[2] == "-V"@);
}

/// The words of the command line differ in their length or in one of their first letters.
proof fn lemma_words_differ()
    ensures
        "up"@ != "on"@,
        "up"@ != "-k"@,
        "on"@ != "-k"@,
        "start"@ != "newid"@,
        "down"@ != "safe"@,
        "down"@ != "test"@,
        "stop"@ != "safe"@,
        "stop"@ != "test"@,
        "status"@ != "verify"@,
        "status"@ != "--safe"@,
        "status"@ != "newnym"@,
        "verify"@ != "newnym"@,
        "--safe"@ != "newnym"@,
        "-V"@ != "up"@,
        "-V"@ != "on"@,
        "-V"@ != "-k"@,
        "up"@.len() == 2,
        "start"@.len() == 5,
        "on"@.len() == 2,
        "down"@.len() == 4,
        "stop"@.len() == 4,
        "off"@.len() == 3,
        "-k"@.len() == 2,
        "status"@.len() == 6,
        "verify"@.len() == 6,
        "safe"@.len() == 4,
        "--safe"@.len() == 6,
        "test"@.len() == 4,
        "new-identity"@.len() == 12,
        "newid"@.len() == 5,
        "newnym"@.len() == 6,
        "version"@.len() == 7,
        "--version"@.len() == 9,
        "-V"@.len() == 2,
{
    reveal_strlit("up");
    reveal_strlit("start");
    reveal_strlit("on");
    reveal_strlit("down");
    reveal_strlit("stop");
    reveal_strlit("off");
    reveal_strlit("-k");
    reveal_strlit("status");
    reveal_strlit("verify");
    reveal_strlit("safe");
    reveal_strlit("--safe");
    reveal_strlit("test");
    reveal_strlit("new-identity");
    reveal_strlit("newid");
    reveal_strlit("newnym");
    reveal_strlit("version");
    reveal_strlit("--version");
    reveal_strlit("-V");
    assert("up"@[0] == 'u' && "on"@[0] == 'o' && "-k"@[0] == '-' && "-k"@[1] == 'k');
    assert("-V"@[0] == '-' && "-V"@[1] == 'V' && "start"@[0] == 's' && "newid"@[0] == 'n');
    assert("down"@[0] == 'd' && "safe"@[0] == 's' && "safe"@[1] == 'a' && "test"@[0] == 't');
    assert("stop"@[0] == 's' && "stop"@[1] == 't' && "status"@[0] == 's' && "verify"@[0] == 'v');
    assert("--safe"@[0] == '-' && "newnym"@[0] == 'n');
}

/// A list holds a text exactly where the text is one of its items.
pub proof fn law_lists(v: Seq<Text>, t: Text)
    ensures
        lists(v, t) <==> v.contains(t),
{
}

/// The progress line returns to its start, and holds the bar, the words and the percentage, in this
/// order, with room behind them to cover a longer line.
pub proof fn law_the_progress_line(pct: u8)
    ensures
        progress_text(pct) == "\r  "@ + bar_text(pct) + "  bootstrapping Tor "@ + flush_right(pct)
            + "%   "@,
{
}

/// Publishing writes one snapshot, of exactly what is to be said, where everyone looks for it, and
/// then lets everyone read it; only the writing has to succeed.
pub proof fn law_publishing(state: Text, exit_ip: Text, leaking: bool, pct: u8, up: Layers)
    ensures
        ({
            let v = publish_plan(state, exit_ip, leaking, pct, up);
            let file = "/run/anond"@ + "/pub.json"@;
            &&& v.len() == 4
            &&& v[2].op == OpView::Write(
                file,
                object_text(snapshot_members(state, exit_ip, leaking, pct, up)),
            )
            &&& v[2].need is Required
            &&& v[3] == attempt(OpView::Run(cmd("chmod"@, seq!["644"@, file])))
            &&& v[0].need is Optional && v[1].need is Optional
        }),
{
}

} // verus!
