//! The states of the daemon and the session that it keeps on disk: the one record of what is up,
//! so that taking it down puts back exactly what bringing it up changed.
use vstd::prelude::*;
use vstd::string::StringExecFns;

use crate::json::pair_texts;
use crate::number::{dec, decimal};
use crate::plan::{attempt, steps, try_op, Op, OpView, Step};
use crate::text::{lemma_plain, opt_text, plain, plain_up_to, Text};
use crate::util::STATE_DIR;

verus! {

/// Egress is blocked from `Locked` through `Draining`.
#[derive(Clone, Copy, PartialEq, Eq, Structural, Debug)]
pub enum State {
    Down,
    Locked,
    Bootstrapping,
    Active,
    Draining,
}

/// The name of a state, as it is reported.
pub open spec fn state_text(s: State) -> Text {
    match s {
        State::Down => "Down"@,
        State::Locked => "Locked"@,
        State::Bootstrapping => "Bootstrapping"@,
        State::Active => "Active"@,
        State::Draining => "Draining"@,
    }
}

/// The names of the states are plain: the snapshot of any state is read back as it was published.
pub proof fn law_state_names_are_plain(s: State)
    ensures
        plain(state_text(s)),
{
    reveal_strlit("Down");
    reveal_strlit("Locked");
    reveal_strlit("Bootstrapping");
    reveal_strlit("Active");
    reveal_strlit("Draining");
    reveal_with_fuel(plain_up_to, 14);
    lemma_plain("Down"@, 4);
    lemma_plain("Locked"@, 6);
    lemma_plain("Bootstrapping"@, 13);
    lemma_plain("Active"@, 6);
    lemma_plain("Draining"@, 8);
}

impl State {
    /// The name of the state, as it is reported.
    pub fn name(self) -> (r: &'static str)
        ensures
            r@ == state_text(self),
    {
        match self {
            State::Down => "Down",
            State::Locked => "Locked",
            State::Bootstrapping => "Bootstrapping",
            State::Active => "Active",
            State::Draining => "Draining",
        }
    }
}

/// What a session changed on the host, and how far it got.
pub struct Session {
    pub state: State,
    pub tor_uid: u32,
    /// Seconds since the epoch, in decimal.
    pub since: String,
    /// What `/etc/resolv.conf` held before.
    pub resolv_backup: Option<String>,
    /// Each interface whose hardware address was changed, with the original address.
    pub mac_backup: Vec<(String, String)>,
    /// Swap was on before.
    pub swap_was_on: bool,
    /// The i2p overlay belongs to this session.
    pub i2p: bool,
    /// The transient host name from before, where it was changed.
    pub hostname_backup: Option<String>,
    /// A generic `/etc/hostname` is mounted over the real one.
    pub hostname_mount: bool,
    /// A random machine id is mounted over the real one.
    pub machine_id_spoofed: bool,
    /// The kernel's setting for TCP timestamps from before.
    pub timestamps_backup: Option<String>,
    /// The kernel's setting for ICMP broadcasts from before.
    pub broadcasts_backup: Option<String>,
}

/// The model of a [`Session`].
#[verifier::ext_equal]
pub struct SessionView {
    pub state: State,
    pub tor_uid: u32,
    pub since: Text,
    pub resolv_backup: Option<Text>,
    pub mac_backup: Seq<(Text, Text)>,
    pub swap_was_on: bool,
    pub i2p: bool,
    pub hostname_backup: Option<Text>,
    pub hostname_mount: bool,
    pub machine_id_spoofed: bool,
    pub timestamps_backup: Option<Text>,
    pub broadcasts_backup: Option<Text>,
}

impl View for Session {
    type V = SessionView;

    open spec fn view(&self) -> SessionView {
        SessionView {
            state: self.state,
            tor_uid: self.tor_uid,
            since: self.since@,
            resolv_backup: opt_text(self.resolv_backup),
            mac_backup: pair_texts(self.mac_backup@),
            swap_was_on: self.swap_was_on,
            i2p: self.i2p,
            hostname_backup: opt_text(self.hostname_backup),
            hostname_mount: self.hostname_mount,
            machine_id_spoofed: self.machine_id_spoofed,
            timestamps_backup: opt_text(self.timestamps_backup),
            broadcasts_backup: opt_text(self.broadcasts_backup),
        }
    }
}

/// The moment of a session: seconds since the epoch, or nothing where the clock stands before it.
pub open spec fn moment(clock: Option<u64>) -> Text {
    match clock {
        Some(secs) => decimal(secs as nat),
        None => seq![],
    }
}

/// A session that has changed nothing yet.
pub open spec fn fresh_session(tor_uid: u32, clock: Option<u64>) -> SessionView {
    SessionView {
        state: State::Down,
        tor_uid,
        since: moment(clock),
        resolv_backup: None,
        mac_backup: seq![],
        swap_was_on: false,
        i2p: false,
        hostname_backup: None,
        hostname_mount: false,
        machine_id_spoofed: false,
        timestamps_backup: None,
        broadcasts_backup: None,
    }
}

/// Where the session is kept.
pub open spec fn session_file() -> Text {
    STATE_DIR@ + "/session.json"@
}

impl Session {
    /// A session that has changed nothing yet, at the given number of seconds since the epoch.
    pub fn new(tor_uid: u32, clock: Option<u64>) -> (s: Session)
        ensures
            s@ == fresh_session(tor_uid, clock),
    {
        let s = Session {
            state: State::Down,
            tor_uid,
            since: match clock {
                Some(secs) => dec(secs),
                None => String::new(),
            },
            resolv_backup: None,
            mac_backup: Vec::new(),
            swap_was_on: false,
            i2p: false,
            hostname_backup: None,
            hostname_mount: false,
            machine_id_spoofed: false,
            timestamps_backup: None,
            broadcasts_backup: None,
        };
        assert(s@.mac_backup =~= seq![]);
        s
    }
}

/// Where the session is kept.
pub fn session_path() -> (s: String)
    ensures
        s@ == session_file(),
{
    STATE_DIR.to_owned().concat("/session.json")
}

/// Forgets the session. One that is not there is no failure.
pub fn clear() -> (v: Vec<Step>)
    ensures
        steps(v@) == seq![attempt(OpView::Remove(session_file()))],
{
    let v: Vec<Step> = vec![try_op(Op::Remove(session_path()))];
    assert(steps(v@) =~= seq![attempt(OpView::Remove(session_file()))]);
    v
}

/// The states by name, and the moment of a session: the seconds in digits, and nothing where the
/// clock stands before the epoch.
pub proof fn law_states_and_moments(secs: u64)
    ensures
        state_text(State::Down) == "Down"@ && state_text(State::Locked) == "Locked"@,
        state_text(State::Bootstrapping) == "Bootstrapping"@,
        state_text(State::Active) == "Active"@ && state_text(State::Draining) == "Draining"@,
        moment(Some(secs)) == decimal(secs as nat),
        moment(None).len() == 0,
{
}

/// A session begins with nothing recorded: it is down, and whatever it is made with is its user and
/// its moment.
pub proof fn law_a_session_begins_empty(uid: u32, clock: Option<u64>)
    ensures
        ({
            let s = fresh_session(uid, clock);
            &&& s.state == State::Down && s.tor_uid == uid && s.since == moment(clock)
            &&& s.resolv_backup is None && s.hostname_backup is None
            &&& s.timestamps_backup is None && s.broadcasts_backup is None
            &&& s.mac_backup.len() == 0 && !s.swap_was_on && !s.i2p
            &&& !s.hostname_mount && !s.machine_id_spoofed
        }),
{
}

} // verus!
