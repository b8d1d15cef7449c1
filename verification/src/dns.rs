//! DNS leak prevention: the resolver configuration is pinned to loopback, where the kill-switch
//! turns it into Tor, and locked for the session. Taking the session down puts back what was there.
use vstd::prelude::*;
use vstd::string::StringExecFns;

use crate::plan::{
    Command, Op, OpView, Step, StepView, attempt, cmd, command, must_under, need_op_under,
    run_op, steps, try_op,
};
use crate::reading::{
    lacks, law_a_word_stands_alone, law_begins_and_finishes, law_trimmed, law_word_after,
    law_words_are_parted_by_white_space,
};
use crate::state::{Session, SessionView};
use crate::text::{
    Class, Text, after_prefix, begins, carries, chars_of, contains, following, index_of,
    is_white, line_texts, lines, occurs_at, split_words, starts_with, strip_prefix, strip_start,
    texts, trim, trimmed, word_after, words,
};

verus! {

pub const RESOLV: &'static str = "/etc/resolv.conf";

/// What the resolver configuration holds during a session.
pub const PIN: &'static str =
    "# anond: DNS pinned to Tor (do not edit)\nnameserver 127.0.0.1\noptions edns0\n";

/// What every configuration that the daemon writes carries.
pub const MARKER: &'static str = "# anond:";

/// Whether a configuration is one worth putting back: it is not the daemon's own, and not blank.
pub open spec fn is_genuine(s: Text) -> bool {
    !carries(s, MARKER@) && trimmed(s).len() > 0
}

fn genuine(s: &str) -> (r: bool)
    ensures
        r == is_genuine(s@),
{
    proof {
        reveal_strlit("# anond:");
    }
    !contains(s, MARKER) && !trim(s).as_str().is_empty()
}

/// The plan that pins the resolver configuration: unlock, write, lock.
pub open spec fn pin_plan() -> Seq<StepView> {
    seq![
        attempt(OpView::Run(cmd("chattr"@, seq!["-i"@, RESOLV@]))),
        must_under(OpView::Write(RESOLV@, PIN@), "write resolv.conf"@),
        must_under(
            OpView::Run(cmd("chattr"@, seq!["+i"@, RESOLV@])),
            "make resolv.conf immutable"@,
        ),
    ]
}

/// Pins the resolver configuration. What it holds now is kept in the session where it is worth
/// putting back; else the session's backup stays as it is.
pub fn pin(sess: &mut Session, current: &str) -> (v: Vec<Step>)
    ensures
        steps(v@) == pin_plan(),
        final(sess)@ == (SessionView {
            resolv_backup: if is_genuine(current@) {
                Some(current@)
            } else {
                old(sess)@.resolv_backup
            },
            ..old(sess)@
        }),
        !carries(current@, "# anond:"@) && (exists|i: int|
            0 <= i < current@.len() && !is_white(#[trigger] current@[i]))
            ==> final(sess)@.resolv_backup == Some(current@),
{
    proof {
        law_genuine(current@);
    }
    if genuine(current) {
        sess.resolv_backup = Some(current.to_owned());
    }
    let mut v: Vec<Step> = Vec::new();
    v.push(try_op(run_op("chattr", &["-i", RESOLV])));
    v.push(need_op_under(Op::Write(RESOLV.to_owned(), PIN.to_owned()), "write resolv.conf"));
    v.push(need_op_under(run_op("chattr", &["+i", RESOLV]), "make resolv.conf immutable"));
    assert(steps(v@) =~~= pin_plan());
    v
}

/// The backup of a session that is worth putting back.
pub open spec fn usable_backup(sess: Option<SessionView>) -> Option<Text> {
    match sess {
        Some(s) => match s.resolv_backup {
            Some(b) => if is_genuine(b) {
                Some(b)
            } else {
                None
            },
            None => None,
        },
        None => None,
    }
}

pub open spec fn unlock() -> StepView {
    attempt(OpView::Run(cmd("chattr"@, seq!["-i"@, RESOLV@])))
}

pub open spec fn opt_session(o: Option<&Session>) -> Option<SessionView> {
    match o {
        Some(s) => Some(s@),
        None => None,
    }
}

/// What restoring the resolver configuration takes.
pub struct Restore {
    pub steps: Vec<Step>,
    /// No backup can be put back: [`reconstruct_resolver`] follows the steps.
    pub reconstruct: bool,
}

/// Puts back what the resolver configuration held before the session, exactly, where that is known;
/// else the configuration is to be made up, for the pin must not stay behind.
pub fn restore(sess: Option<&Session>) -> (r: Restore)
    ensures
        match usable_backup(opt_session(sess)) {
            Some(b) => !r.reconstruct && steps(r.steps@) == seq![
                unlock(),
                must_under(OpView::Write(RESOLV@, b), "restore resolv.conf"@),
            ],
            None => r.reconstruct && steps(r.steps@) == seq![unlock()],
        },
        forall|b: Text|
            #![trigger carries(b, "# anond:"@)]
            opt_session(sess) is Some && opt_session(sess)->0.resolv_backup == Some(b) && !carries(
                b,
                "# anond:"@,
            ) && (exists|i: int| 0 <= i < b.len() && !is_white(#[trigger] b[i])) ==> steps(r.steps@)
                == seq![unlock(), must_under(OpView::Write(RESOLV@, b), "restore resolv.conf"@)],
{
    proof {
        assert forall|b: Text|
            #![trigger carries(b, "# anond:"@)]
            opt_session(sess) is Some && opt_session(sess)->0.resolv_backup == Some(b) && !carries(
                b,
                "# anond:"@,
            ) && (exists|i: int|
                0 <= i < b.len() && !is_white(#[trigger] b[i])) implies usable_backup(
            opt_session(sess),
        ) == Some(b) by {
            law_genuine(b);
        }
    }
    let mut v: Vec<Step> = Vec::new();
    v.push(try_op(run_op("chattr", &["-i", RESOLV])));
    assert(steps(v@) =~~= seq![unlock()]);
    match sess {
        Some(s) => match &s.resolv_backup {
            Some(b) => if genuine(b.as_str()) {
                v.push(
                    need_op_under(Op::Write(RESOLV.to_owned(), b.clone()), "restore resolv.conf"),
                );
                assert(steps(v@) =~~= seq![
                    unlock(),
                    must_under(OpView::Write(RESOLV@, b@), "restore resolv.conf"@),
                ]);
                return Restore { steps: v, reconstruct: false };
            },
            None => {},
        },
        None => {},
    }
    Restore { steps: v, reconstruct: true }
}

/// A configuration made up where none can be put back: the stub of systemd-resolved where that
/// runs, else the gateway of the default route, else a public resolver.
pub open spec fn made_up(resolved_active: bool, route: Text) -> Text {
    let gateway = word_after(words(route), "via"@);
    if resolved_active {
        "# anond: no pre-session backup; pointed at systemd-resolved stub\nnameserver 127.0.0.53\noptions edns0 trust-ad\n"@
    } else if gateway.len() > 0 {
        "# anond: no pre-session backup; pointed at the default gateway\nnameserver "@ + gateway
            + "\n"@
    } else {
        "# anond: no pre-session backup; public resolver fallback\nnameserver 1.1.1.1\n"@
    }
}

/// Makes up a working resolver configuration, given whether systemd-resolved runs and, where it
/// does not, the default route as `ip -o route show default` prints it.
pub fn reconstruct_resolver(resolved_active: bool, route: &str) -> (v: Vec<Step>)
    ensures
        steps(v@) == seq![attempt(OpView::Write(RESOLV@, made_up(resolved_active, route@)))],
{
    let gateway = following(route, "via");
    let body = if resolved_active {
        "# anond: no pre-session backup; pointed at systemd-resolved stub\nnameserver 127.0.0.53\noptions edns0 trust-ad\n".to_owned()
    } else if !gateway.as_str().is_empty() {
        "# anond: no pre-session backup; pointed at the default gateway\nnameserver ".to_owned().concat(
        gateway.as_str()).concat("\n")
    } else {
        "# anond: no pre-session backup; public resolver fallback\nnameserver 1.1.1.1\n".to_owned()
    };
    let v: Vec<Step> = vec![try_op(Op::Write(RESOLV.to_owned(), body))];
    assert(steps(v@) =~= seq![
        attempt(OpView::Write(RESOLV@, made_up(resolved_active, route@))),
    ]);
    v
}

/// The server that a line of a resolver configuration names.
pub open spec fn server_of(line: Text) -> Option<Text> {
    match after_prefix(trimmed(line), "nameserver"@) {
        Some(rest) => Some(trimmed(rest)),
        None => None,
    }
}

/// Whether a configuration names at least one server, and only servers on loopback.
pub open spec fn only_loopback(s: Text) -> bool {
    &&& exists|i: int| 0 <= i < line_texts(s).len() && server_of(#[trigger] line_texts(s)[i]) is Some
    &&& forall|i: int|
        0 <= i < line_texts(s).len() ==> (server_of(#[trigger] line_texts(s)[i]) matches Some(t)
            ==> begins(t, "127."@))
}

/// Whether the resolver configuration is pinned: it points at loopback only, and is locked.
pub fn is_pinned(contents: &str, locked: bool) -> (r: bool)
    ensures
        r == (only_loopback(contents@) && locked),
{
    let all = lines(contents);
    let ghost t = line_texts(contents@);
    let mut found = false;
    let mut i: usize = 0;
    while i < all.len()
        invariant
            i <= all@.len(),
            texts(all@) == t,
            t == line_texts(contents@),
            found == (exists|k: int| 0 <= k < i && server_of(#[trigger] t[k]) is Some),
            forall|k: int|
                0 <= k < i ==> (server_of(#[trigger] t[k]) matches Some(x) ==> begins(x, "127."@)),
        decreases all@.len() - i,
    {
        assert(t[i as int] == all@[i as int]@);
        match strip_prefix(trim(all[i].as_str()).as_str(), "nameserver") {
            Some(rest) => {
                let server = trim(rest.as_str());
                assert(server_of(t[i as int]) == Some(server@));
                if !starts_with(server.as_str(), "127.") {
                    return false;
                }
                found = true;
            },
            None => {},
        }
        i += 1;
    }
    found && locked
}

/// The command that tells the attributes of the resolver configuration.
pub fn lock_probe() -> (c: Command)
    ensures
        c@ == cmd("lsattr"@, seq![RESOLV@]),
{
    let c = command("lsattr", &[RESOLV]);
    assert(c@.args =~= seq![RESOLV@]);
    c
}

/// Whether `lsattr` lists a file as locked: its attributes, which stand first, hold the immutable
/// one.
pub open spec fn lists_lock(printed: Text) -> bool {
    words(printed).len() > 0 && words(printed)[0].contains('i')
}

/// Whether the resolver configuration is locked, as [`lock_probe`] prints it.
pub fn is_locked(printed: &str) -> (r: bool)
    ensures
        r == lists_lock(printed@),
{
    let w = split_words(printed);
    if w.len() == 0 {
        return false;
    }
    assert(texts(w@)[0] == w@[0]@);
    let c = chars_of(w[0].as_str());
    let mut i: usize = 0;
    while i < c.len()
        invariant
            i <= c@.len(),
            c@ == w@[0]@,
            w@.len() > 0,
            words(printed@) == texts(w@),
            texts(w@)[0] == w@[0]@,
            forall|k: int| 0 <= k < i ==> c@[k] != 'i',
        decreases c@.len() - i,
    {
        if c[i] == 'i' {
            assert(words(printed@)[0][i as int] == 'i');
            return true;
        }
        i += 1;
    }
    false
}

/// A configuration is worth putting back exactly where it does not carry the mark of the daemon and
/// some character of it is more than white space; nothing else that it says matters.
pub proof fn law_genuine(s: Text)
    ensures
        is_genuine(s) <==> !carries(s, "# anond:"@) && exists|i: int|
            0 <= i < s.len() && !is_white(#[trigger] s[i]),
{
    law_trimmed(s);
}

/// Restoring is exact: a configuration that does not carry the mark of the daemon and is not blank
/// is put back from the session that holds it, as that very text.
pub proof fn law_restore_is_exact(before: SessionView, current: Text)
    requires
        !carries(current, "# anond:"@),
        exists|i: int| 0 <= i < current.len() && !is_white(#[trigger] current[i]),
    ensures
        usable_backup(Some(SessionView { resolv_backup: Some(current), ..before })) == Some(current),
{
    law_genuine(current);
}

/// What is put back is never the daemon's own, and never blank.
pub proof fn law_nothing_else_is_put_back(sess: Option<SessionView>)
    ensures
        usable_backup(sess) matches Some(b) ==> {
            &&& sess is Some && sess->0.resolv_backup == Some(b)
            &&& !carries(b, "# anond:"@)
            &&& exists|i: int| 0 <= i < b.len() && !is_white(#[trigger] b[i])
        },
{
    if let Some(b) = usable_backup(sess) {
        law_genuine(b);
    }
}

/// The pin never stays behind: neither a backup that is put back nor a configuration that is made
/// up is the pin, whatever the session holds.
pub proof fn law_restore_never_leaves_the_pin(
    sess: Option<SessionView>,
    resolved_active: bool,
    route: Text,
)
    ensures
        usable_backup(sess) matches Some(b) ==> b != PIN@,
        made_up(resolved_active, route) != PIN@,
{
    reveal_strlit("# anond: DNS pinned to Tor (do not edit)\nnameserver 127.0.0.1\noptions edns0\n");
    reveal_strlit("# anond:");
    assert(PIN@.subrange(0, 8) =~= MARKER@);
    assert(occurs_at(PIN@, MARKER@, 0));
    reveal_strlit(
        "# anond: no pre-session backup; pointed at systemd-resolved stub\nnameserver 127.0.0.53\noptions edns0 trust-ad\n",
    );
    reveal_strlit("# anond: no pre-session backup; pointed at the default gateway\nnameserver ");
    reveal_strlit("# anond: no pre-session backup; public resolver fallback\nnameserver 1.1.1.1\n");
    assert(PIN@[9] == 'D');
    assert(made_up(resolved_active, route)[9] == 'n');
}

/// The lines that pinning writes.
proof fn lemma_pin_lines()
    ensures
        line_texts(PIN@) == seq![
            PIN@.take(40),
            PIN@.subrange(41, 61),
            PIN@.subrange(62, 75),
        ],
{
    reveal_strlit(
        "# anond: DNS pinned to Tor (do not edit)\nnameserver 127.0.0.1\noptions edns0\n",
    );
    let p = PIN@;
    let q = p.skip(41);
    let r = q.skip(21);
    assert(p.len() == 76);
    reveal_with_fuel(index_of, 45);
    assert(index_of(p, '\n') == 40);
    assert(index_of(q, '\n') == 20);
    assert(index_of(r, '\n') == 13);
    assert(r.skip(14).len() == 0);
    assert(q.take(20) =~= p.subrange(41, 61));
    assert(r.take(13) =~= p.subrange(62, 75));
    assert(line_texts(r.skip(14)) =~= seq![]);
    assert(line_texts(r) =~= seq![p.subrange(62, 75)]);
    assert(line_texts(q) =~= seq![p.subrange(41, 61), p.subrange(62, 75)]);
}

/// A text with no white space at its ends is its own trimmed form.
proof fn lemma_trimmed_already(s: Text)
    requires
        s.len() > 0,
        !is_white(s[0]),
        !is_white(s.last()),
    ensures
        trimmed(s) == s,
{
}

/// What is pinned passes for pinned: the probe recognises the configuration that pinning writes.
pub proof fn law_the_pin_is_recognised()
    ensures
        only_loopback(PIN@),
{
    lemma_pin_lines();
    reveal_strlit(
        "# anond: DNS pinned to Tor (do not edit)\nnameserver 127.0.0.1\noptions edns0\n",
    );
    reveal_strlit("nameserver");
    reveal_strlit("127.");
    let v = line_texts(PIN@);
    let (a, b, c) = (v[0], v[1], v[2]);
    lemma_trimmed_already(a);
    lemma_trimmed_already(b);
    lemma_trimmed_already(c);
    assert(a.take(10)[0] == '#' && "nameserver"@[0] == 'n' && c.take(10)[0] == 'o');
    assert(b.take(10) =~= "nameserver"@);
    let rest = b.skip(10);
    assert(rest[0] == ' ' && rest.skip(1)[0] == '1' && rest.last() == '1');
    assert(strip_start(Class::White, rest.skip(1)) == rest.skip(1));
    assert(strip_start(Class::White, rest) == rest.skip(1));
    assert(trimmed(rest) == rest.skip(1));
    assert(rest.skip(1).take(4) =~= "127."@);
    assert(server_of(b) == Some(rest.skip(1)));
}

/// What a line names as a server is what follows the word `nameserver` at its start, without the
/// white space around it; a line that does not start so names none.
pub proof fn law_server_of(line: Text)
    ensures
        forall|rest: Text|
            trimmed(line) == #[trigger] ("nameserver"@ + rest) ==> server_of(line) == Some(
                trimmed(rest),
            ),
        !begins(trimmed(line), "nameserver"@) ==> server_of(line) is None,
{
    law_begins_and_finishes(trimmed(line), "nameserver"@);
}

/// One server off loopback is one too many, wherever it stands; and a configuration without a server
/// is not pinned.
pub proof fn law_one_server_off_loopback_is_too_many(s: Text, i: int)
    requires
        0 <= i < line_texts(s).len(),
    ensures
        (exists|rest: Text|
            trimmed(line_texts(s)[i]) == #[trigger] ("nameserver"@ + rest) && !begins(
                trimmed(rest),
                "127."@,
            )) ==> !only_loopback(s),
        (forall|k: int|
            0 <= k < line_texts(s).len() ==> !begins(
                trimmed(#[trigger] line_texts(s)[k]),
                "nameserver"@,
            )) ==> !only_loopback(s),
{
    law_server_of(line_texts(s)[i]);
}

/// The same the other way: where some line names a server and every line that does names one on
/// loopback, the configuration is pinned.
pub proof fn law_servers_on_loopback_are_pinned(s: Text, i: int)
    requires
        0 <= i < line_texts(s).len(),
        begins(trimmed(line_texts(s)[i]), "nameserver"@),
        forall|k: int|
            0 <= k < line_texts(s).len() && begins(
                trimmed(#[trigger] line_texts(s)[k]),
                "nameserver"@,
            ) ==> begins(trimmed(trimmed(line_texts(s)[k]).skip(10)), "127."@),
    ensures
        only_loopback(s),
{
    reveal_strlit("nameserver");
    assert(server_of(line_texts(s)[i]) is Some);
    assert forall|k: int|
        0 <= k < line_texts(s).len() implies (server_of(#[trigger] line_texts(s)[k]) matches Some(t)
        ==> begins(t, "127."@)) by {
        assert(begins(trimmed(line_texts(s)[k]), "nameserver"@) || server_of(
            line_texts(s)[k],
        ) is None);
    }
}

/// A configuration that is made up points at the stub of systemd-resolved wherever that runs; else
/// at the word behind the first `via` of the route; else, where there is none, at the public
/// resolver.
pub proof fn law_what_is_made_up(route: Text, i: int)
    ensures
        made_up(true, route)
            == "# anond: no pre-session backup; pointed at systemd-resolved stub\nnameserver 127.0.0.53\noptions edns0 trust-ad\n"@,
        0 <= i && i + 1 < words(route).len() && words(route)[i] == "via"@ && words(route)[i
            + 1].len() > 0 && (forall|j: int| 0 <= j < i ==> #[trigger] words(route)[j] != "via"@)
            ==> made_up(false, route)
            == "# anond: no pre-session backup; pointed at the default gateway\nnameserver "@
            + words(route)[i + 1] + "\n"@,
        !words(route).contains("via"@) ==> made_up(false, route)
            == "# anond: no pre-session backup; public resolver fallback\nnameserver 1.1.1.1\n"@,
{
    law_word_after(words(route), "via"@, i);
}

/// A file is locked exactly where the attributes that stand first in what `lsattr` prints hold the
/// letter `i`; the name of the file behind them does not count.
pub proof fn law_the_attributes_tell_the_lock(attributes: Text, c: char, rest: Text)
    requires
        attributes.len() > 0,
        forall|i: int| 0 <= i < attributes.len() ==> !is_white(#[trigger] attributes[i]),
        is_white(c),
    ensures
        lists_lock(attributes + seq![c] + rest) <==> !lacks(attributes, 'i'),
{
    law_words_are_parted_by_white_space(attributes, c, rest);
    law_a_word_stands_alone(attributes);
    assert(words(attributes + seq![c] + rest)[0] == attributes);
    if !lacks(attributes, 'i') {
        let i = choose|i: int| 0 <= i < attributes.len() && #[trigger] attributes[i] == 'i';
        assert(attributes.contains('i'));
    }
}

/// A route that ends in `via` has no gateway: the public resolver stands in.
pub proof fn law_no_gateway_is_made_up(route: Text, i: int)
    requires
        0 <= i < words(route).len(),
        i + 1 == words(route).len(),
        words(route)[i] == "via"@,
        forall|j: int| 0 <= j < i ==> #[trigger] words(route)[j] != "via"@,
    ensures
        made_up(false, route)
            == "# anond: no pre-session backup; public resolver fallback\nnameserver 1.1.1.1\n"@,
{
    law_word_after(words(route), "via"@, i);
}

/// Attributes that stand alone tell the lock as well, and where nothing was printed there is none.
pub proof fn law_attributes_alone_tell_the_lock(attributes: Text)
    requires
        forall|i: int| 0 <= i < attributes.len() ==> !is_white(#[trigger] attributes[i]),
    ensures
        lists_lock(attributes) <==> attributes.len() > 0 && !lacks(attributes, 'i'),
{
    law_a_word_stands_alone(attributes);
    if !lacks(attributes, 'i') {
        let i = choose|i: int| 0 <= i < attributes.len() && #[trigger] attributes[i] == 'i';
        assert(attributes.contains('i'));
    }
}

} // verus!
