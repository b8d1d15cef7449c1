//! The kill-switch: a fail-closed packet filter. Egress is dropped unless a rule permits it, and
//! only loopback, the exempt users, tracked connections, the local network and the redirects into
//! Tor are permitted. IPv6 leaves through loopback alone.
//!
//! Clearnet TCP of any user that is not exempt is redirected to Tor's TransPort, and DNS to Tor's
//! DNSPort. A redirected packet is addressed to 127.0.0.1, which the filter accepts; Tor itself
//! then egresses under its own user, which is exempt.
use vstd::arithmetic::power2::{lemma2_to64, pow2};
use vstd::prelude::*;
use vstd::string::StringExecFns;

use crate::nft::{
    Act, Chain, ChainView, Cidr, Cond, CondView, Family, Hook, Kind, LOCALHOST, Line, LineView,
    Packet, Policy, Proto, Table, TableView, act_text, chain_text, chain_views, chains_text,
    cond_text, conds, conds_text, family_text, hook_text, in_net, in_nets, kind_text, lemma_first,
    lemma_in_net, lemma_none, lemma_one, lemma_single_port, line_text, line_views, lines_text,
    one_of, policy_text, signed_text, table_text, table_views, tables_text, translated, verdict,
    write_tables,
};
use crate::plan::{
    Command, Feed, FeedView, Need, NeedView, Op, OpView, Step, StepView, attempt, cmd, command,
    must, need_op, quiet_op, steps, try_op,
};
use crate::text::{Text, begins, finishes};

verus! {

pub const TRANS_PORT: u16 = 9040;

pub const DNS_PORT: u16 = 5353;

/// The private ranges: loopback, the local networks, link-local and carrier-grade NAT. What goes
/// there is never Tor's to carry.
pub open spec fn private_ranges() -> Seq<Cidr> {
    seq![
        (Cidr { net: 0x7f00_0000, bits: 8 }),
        (Cidr { net: 0x0a00_0000, bits: 8 }),
        (Cidr { net: 0xac10_0000, bits: 12 }),
        (Cidr { net: 0xc0a8_0000, bits: 16 }),
        (Cidr { net: 0xa9fe_0000, bits: 16 }),
        (Cidr { net: 0x6440_0000, bits: 10 }),
    ]
}

/// The addresses that Tor hands out for the names it resolves.
pub open spec fn automap_range() -> Cidr {
    Cidr { net: 0x0ac0_0000, bits: 10 }
}

pub open spec fn rule(c: Seq<CondView>, a: Act) -> LineView {
    LineView::Rule(c, a)
}

/// The chain that redirects: exempt users and private destinations go their way, DNS goes to Tor's
/// DNSPort, and every new TCP connection to Tor's TransPort.
pub open spec fn nat_chain(uids: Seq<u32>) -> ChainView {
    ChainView {
        name: "output_nat"@,
        kind: Kind::Nat,
        hook: Hook::Output,
        priority: -100,
        policy: Policy::Accept,
        lines: seq![
            LineView::Comment(
                "Tor's OWN traffic (and i2pd's) is returned FIRST, before any redirect — otherwise"@,
            ),
            LineView::Comment(
                "Tor's DNS lookups to its own DNSPort, and connections to its AutomapHostsOnResolve"@,
            ),
            LineView::Comment(
                "virtual range, get redirected back into its TransPort. A redirected connection whose"@,
            ),
            LineView::Comment(
                "original dest is that virtual/private address makes Tor 0.4.9.11 reject it ('private"@,
            ),
            LineView::Comment(
                "address on a TransPort ... Possible loop in your NAT rules?') and SIGSEGV. Exempting"@,
            ),
            LineView::Comment("the tor uid up front breaks that loop."@),
            rule(seq![CondView::Uid(uids)], Act::Return),
            LineView::Comment(
                "private/LAN/loopback AND Tor's automap virtual range are never redirected to Tor:"@,
            ),
            LineView::Comment(
                "they are LAN or Tor-internal, never Tor's job, and a private original-dest crashes"@,
            ),
            LineView::Comment("Tor's TransPort handler."@),
            rule(
                seq![CondView::Dest(false, private_ranges().push(automap_range()))],
                Act::Return,
            ),
            rule(seq![CondView::Port(Proto::Udp, false, seq![53u16])], Act::Redirect(DNS_PORT)),
            rule(seq![CondView::Port(Proto::Tcp, false, seq![53u16])], Act::Redirect(DNS_PORT)),
            rule(seq![CondView::FreshTcp], Act::Redirect(TRANS_PORT)),
        ],
    }
}

/// The chain that drops: what none of its rules accepts does not leave.
pub open spec fn filter_chain(uids: Seq<u32>) -> ChainView {
    ChainView {
        name: "output"@,
        kind: Kind::Filter,
        hook: Hook::Output,
        priority: 0,
        policy: Policy::Drop,
        lines: seq![
            rule(seq![CondView::OutLoopback], Act::Accept),
            rule(seq![CondView::Uid(uids)], Act::Accept),
            rule(seq![CondView::Established], Act::Accept),
            rule(seq![CondView::Dest(false, private_ranges())], Act::Accept),
            rule(seq![CondView::Port(Proto::Udp, false, seq![DNS_PORT])], Act::Accept),
            rule(seq![CondView::Port(Proto::Tcp, false, seq![TRANS_PORT, DNS_PORT])], Act::Accept),
        ],
    }
}

/// The chain that drops all of IPv6 but loopback.
pub open spec fn filter6_chain() -> ChainView {
    ChainView {
        name: "output6"@,
        kind: Kind::Filter,
        hook: Hook::Output,
        priority: 0,
        policy: Policy::Drop,
        lines: seq![rule(seq![CondView::OutLoopback], Act::Accept)],
    }
}

/// The kill-switch with a set of exempt users.
pub open spec fn kill_switch(uids: Seq<u32>) -> Seq<TableView> {
    seq![
        TableView {
            family: Family::Inet,
            name: "anond"@,
            chains: seq![nat_chain(uids), filter_chain(uids)],
        },
        TableView { family: Family::Ip6, name: "anond6"@, chains: seq![filter6_chain()] },
    ]
}

fn private_nets() -> (v: Vec<Cidr>)
    ensures
        v@ == private_ranges(),
{
    let v: Vec<Cidr> = vec![
        Cidr { net: 0x7f00_0000, bits: 8 },
        Cidr { net: 0x0a00_0000, bits: 8 },
        Cidr { net: 0xac10_0000, bits: 12 },
        Cidr { net: 0xc0a8_0000, bits: 16 },
        Cidr { net: 0xa9fe_0000, bits: 16 },
        Cidr { net: 0x6440_0000, bits: 10 },
    ];
    assert(v@ =~= private_ranges());
    v
}

fn copied(uids: &[u32]) -> (v: Vec<u32>)
    ensures
        v@ == uids@,
{
    let mut v: Vec<u32> = Vec::new();
    let mut i: usize = 0;
    while i < uids.len()
        invariant
            i <= uids@.len(),
            v@ == uids@.take(i as int),
        decreases uids@.len() - i,
    {
        v.push(uids[i]);
        assert(uids@.take(i + 1) =~= uids@.take(i as int).push(uids@[i as int]));
        i += 1;
    }
    assert(uids@.take(uids@.len() as int) =~= uids@);
    v
}

fn comment(s: &str) -> (l: Line)
    ensures
        l@ == LineView::Comment(s@),
{
    Line::Comment(s.to_owned())
}

fn one(c: Cond, a: Act) -> (l: Line)
    ensures
        l@ == rule(seq![c@], a),
{
    let v: Vec<Cond> = vec![c];
    assert(conds(v@) =~= seq![c@]);
    Line::Rule(v, a)
}

fn ports(a: u16) -> (v: Vec<u16>)
    ensures
        v@ == seq![a],
{
    let v: Vec<u16> = vec![a];
    assert(v@ =~= seq![a]);
    v
}

fn build_nat_chain(uids: &[u32]) -> (c: Chain)
    ensures
        c@ == nat_chain(uids@),
{
    let mut lines: Vec<Line> = Vec::new();
    lines.push(
        comment(
            "Tor's OWN traffic (and i2pd's) is returned FIRST, before any redirect — otherwise",
        ),
    );
    lines.push(
        comment(
            "Tor's DNS lookups to its own DNSPort, and connections to its AutomapHostsOnResolve",
        ),
    );
    lines.push(
        comment(
            "virtual range, get redirected back into its TransPort. A redirected connection whose",
        ),
    );
    lines.push(
        comment(
            "original dest is that virtual/private address makes Tor 0.4.9.11 reject it ('private",
        ),
    );
    lines.push(
        comment(
            "address on a TransPort ... Possible loop in your NAT rules?') and SIGSEGV. Exempting",
        ),
    );
    lines.push(comment("the tor uid up front breaks that loop."));
    lines.push(one(Cond::Uid(copied(uids)), Act::Return));
    lines.push(
        comment(
            "private/LAN/loopback AND Tor's automap virtual range are never redirected to Tor:",
        ),
    );
    lines.push(
        comment(
            "they are LAN or Tor-internal, never Tor's job, and a private original-dest crashes",
        ),
    );
    lines.push(comment("Tor's TransPort handler."));
    let mut exempt = private_nets();
    exempt.push(Cidr { net: 0x0ac0_0000, bits: 10 });
    lines.push(one(Cond::Dest(false, exempt), Act::Return));
    lines.push(one(Cond::Port(Proto::Udp, false, ports(53)), Act::Redirect(DNS_PORT)));
    lines.push(one(Cond::Port(Proto::Tcp, false, ports(53)), Act::Redirect(DNS_PORT)));
    lines.push(one(Cond::FreshTcp, Act::Redirect(TRANS_PORT)));
    assert(line_views(lines@) =~= nat_chain(uids@).lines);
    Chain {
        name: "output_nat".to_owned(),
        kind: Kind::Nat,
        hook: Hook::Output,
        priority: -100,
        policy: Policy::Accept,
        lines,
    }
}

fn build_filter_chain(uids: &[u32]) -> (c: Chain)
    ensures
        c@ == filter_chain(uids@),
{
    let mut lines: Vec<Line> = Vec::new();
    lines.push(one(Cond::OutLoopback, Act::Accept));
    lines.push(one(Cond::Uid(copied(uids)), Act::Accept));
    lines.push(one(Cond::Established, Act::Accept));
    lines.push(one(Cond::Dest(false, private_nets()), Act::Accept));
    lines.push(one(Cond::Port(Proto::Udp, false, ports(DNS_PORT)), Act::Accept));
    let both: Vec<u16> = vec![TRANS_PORT, DNS_PORT];
    assert(both@ =~= seq![TRANS_PORT, DNS_PORT]);
    lines.push(one(Cond::Port(Proto::Tcp, false, both), Act::Accept));
    assert(line_views(lines@) =~= filter_chain(uids@).lines);
    Chain {
        name: "output".to_owned(),
        kind: Kind::Filter,
        hook: Hook::Output,
        priority: 0,
        policy: Policy::Drop,
        lines,
    }
}

fn build_filter6_chain() -> (c: Chain)
    ensures
        c@ == filter6_chain(),
{
    let lines: Vec<Line> = vec![one(Cond::OutLoopback, Act::Accept)];
    assert(line_views(lines@) =~= filter6_chain().lines);
    Chain {
        name: "output6".to_owned(),
        kind: Kind::Filter,
        hook: Hook::Output,
        priority: 0,
        policy: Policy::Drop,
        lines,
    }
}

/// The kill-switch with a set of exempt users, as `nft` reads it.
pub fn ruleset(exempt_uids: &[u32]) -> (s: String)
    ensures
        s@ == tables_text(kill_switch(exempt_uids@)),
{
    let chains: Vec<Chain> = vec![build_nat_chain(exempt_uids), build_filter_chain(exempt_uids)];
    assert(chain_views(chains@) =~= seq![nat_chain(exempt_uids@), filter_chain(exempt_uids@)]);
    let chains6: Vec<Chain> = vec![build_filter6_chain()];
    assert(chain_views(chains6@) =~= seq![filter6_chain()]);
    let tables: Vec<Table> = vec![
        Table { family: Family::Inet, name: "anond".to_owned(), chains },
        Table { family: Family::Ip6, name: "anond6".to_owned(), chains: chains6 },
    ];
    assert(table_views(tables@) =~= kill_switch(exempt_uids@));
    write_tables(&tables)
}

/// The step that hands a script to `nft` in one transaction.
pub open spec fn nft_step(script: Text, rejected: Text) -> StepView {
    must(
        OpView::Feed(
            FeedView {
                command: cmd("nft"@, seq!["-f"@, "-"@]),
                input: script,
                on_spawn: "spawn nft (is nftables installed?)"@,
                on_wait: NeedView::Under("wait nft"@),
                rejected,
            },
        ),
    )
}

fn apply_script(script: String, rejected: &str) -> (s: Step)
    ensures
        s@ == nft_step(script@, rejected@),
{
    let command = command("nft", &["-f", "-"]);
    assert(command@ =~~= cmd("nft"@, seq!["-f"@, "-"@]));
    need_op(
        Op::Feed(
            Feed {
                command,
                input: script,
                on_spawn: "spawn nft (is nftables installed?)".to_owned(),
                on_wait: Need::Under("wait nft".to_owned()),
                rejected: rejected.to_owned(),
            },
        ),
    )
}

/// The plan that removes the kill-switch. A table that is not there is no failure.
pub open spec fn down_plan() -> Seq<StepView> {
    seq![
        attempt(OpView::Quiet(cmd("nft"@, seq!["delete"@, "table"@, "inet"@, "anond"@]))),
        attempt(OpView::Quiet(cmd("nft"@, seq!["delete"@, "table"@, "ip6"@, "anond6"@]))),
    ]
}

/// Removes the kill-switch.
pub fn down() -> (v: Vec<Step>)
    ensures
        steps(v@) == down_plan(),
{
    let mut v: Vec<Step> = Vec::new();
    v.push(try_op(quiet_op("nft", &["delete", "table", "inet", "anond"])));
    v.push(try_op(quiet_op("nft", &["delete", "table", "ip6", "anond6"])));
    assert(steps(v@) =~~= down_plan());
    v
}

/// The command that lists the kill-switch: it succeeds where the kill-switch is installed.
pub fn up_probe() -> (c: Command)
    ensures
        c@ == cmd("nft"@, seq!["list"@, "table"@, "inet"@, "anond"@]),
{
    let c = command("nft", &["list", "table", "inet", "anond"]);
    assert(c@.args =~= seq!["list"@, "table"@, "inet"@, "anond"@]);
    c
}

/// Whether the kill-switch is installed, given whether the probe succeeded; a probe that could not
/// be run says no.
pub fn is_up(listed: Option<bool>) -> (r: bool)
    ensures
        r == (listed == Some(true)),
{
    match listed {
        Some(b) => b,
        None => false,
    }
}

/// The script that puts the ruleset in the place of whatever is installed, in one transaction:
/// adding a table that is there changes nothing, so the deletions cannot fail, and the ruleset that
/// follows makes the tables anew. Where any of it is rejected, none of it happens.
pub open spec fn replace_script(uids: Seq<u32>) -> Text {
    "add table inet anond\ndelete table inet anond\nadd table ip6 anond6\ndelete table ip6 anond6\n"@
        + tables_text(kill_switch(uids))
}

fn replacement(exempt_uids: &[u32]) -> (s: String)
    ensures
        s@ == replace_script(exempt_uids@),
{
    "add table inet anond\ndelete table inet anond\nadd table ip6 anond6\ndelete table ip6 anond6\n".to_owned().concat(
    ruleset(exempt_uids).as_str())
}

/// What is reported where the ruleset is rejected on arming.
pub open spec fn arming_rejected() -> Text {
    "kill-switch ruleset was rejected by nft"@
}

/// The plan that installs the kill-switch: a stale copy goes, and the whole ruleset comes, at once,
/// so that a kill-switch that is up stays up whatever comes of the plan. [`flush_conntrack`]
/// follows it.
pub open spec fn up_plan(uids: Seq<u32>) -> Seq<StepView> {
    seq![nft_step(replace_script(uids), arming_rejected())]
}

/// Installs the kill-switch with a set of exempt users.
pub fn up(exempt_uids: &[u32]) -> (v: Vec<Step>)
    ensures
        steps(v@) == up_plan(exempt_uids@),
{
    let v: Vec<Step> = vec![
        apply_script(replacement(exempt_uids), "kill-switch ruleset was rejected by nft"),
    ];
    assert(steps(v@) =~= up_plan(exempt_uids@));
    v
}

/// The plan that replaces the ruleset of a kill-switch that is up.
pub open spec fn rearm_plan(uids: Seq<u32>) -> Seq<StepView> {
    seq![nft_step(replace_script(uids), "kill-switch re-arm was rejected by nft"@)]
}

/// Replaces the set of exempt users of a kill-switch that is up. The default drop is in force at
/// every moment, and tracked connections go on.
pub fn rearm(exempt_uids: &[u32]) -> (v: Vec<Step>)
    ensures
        steps(v@) == rearm_plan(exempt_uids@),
{
    let v: Vec<Step> = vec![
        apply_script(replacement(exempt_uids), "kill-switch re-arm was rejected by nft"),
    ];
    assert(steps(v@) =~= rearm_plan(exempt_uids@));
    v
}

/// The command that empties the connection-tracking table, so that no connection from before the
/// kill-switch survives it.
pub fn flush_command() -> (c: Command)
    ensures
        c@ == cmd("conntrack"@, seq!["-F"@]),
{
    let c = command("conntrack", &["-F"]);
    assert(c@ =~~= cmd("conntrack"@, seq!["-F"@]));
    c
}

pub open spec fn flush_warning() -> Text {
    "anond: WARNING — could not flush conntrack (install conntrack-tools). Connections open BEFORE this session may continue in the clear until they close. Close your browser/apps and reopen them after `anond up`."@
}

/// What follows an attempt to flush the connection-tracking table: nothing where it was flushed,
/// else a best-effort write and a warning.
pub fn flush_conntrack(flushed: bool) -> (v: Vec<Step>)
    ensures
        steps(v@) == if flushed {
            seq![]
        } else {
            seq![
                attempt(OpView::Write("/proc/sys/net/netfilter/nf_conntrack_count"@, "0"@)),
                attempt(OpView::Warn(flush_warning())),
            ]
        },
{
    let mut v: Vec<Step> = Vec::new();
    if !flushed {
        v.push(
            try_op(
                Op::Write(
                    "/proc/sys/net/netfilter/nf_conntrack_count".to_owned(),
                    "0".to_owned(),
                ),
            ),
        );
        v.push(
            try_op(
                Op::Warn(
                    "anond: WARNING — could not flush conntrack (install conntrack-tools). Connections open BEFORE this session may continue in the clear until they close. Close your browser/apps and reopen them after `anond up`.".to_owned(),
                ),
            ),
        );
    }
    assert(steps(v@) =~~= if flushed {
        seq![]
    } else {
        seq![
            attempt(OpView::Write("/proc/sys/net/netfilter/nf_conntrack_count"@, "0"@)),
            attempt(OpView::Warn(flush_warning())),
        ]
    });
    v
}

// ---------- what the kill-switch lets out ----------
/// Whether the user that sends a packet is exempt.
pub open spec fn exempt(uids: Seq<u32>, p: Packet) -> bool {
    exists|i: int| 0 <= i < uids.len() && uids[i] == p.uid
}

/// Whether an address lies in a private range.
pub open spec fn is_private(a: int) -> bool {
    in_nets(private_ranges(), a)
}

/// Whether an address is never redirected: it is private, or one that Tor handed out.
pub open spec fn is_local(a: int) -> bool {
    in_nets(private_ranges().push(automap_range()), a)
}

/// A packet as the filter sees it, after the redirects.
pub open spec fn redirected(uids: Seq<u32>, p: Packet) -> Packet {
    translated(p, verdict(nat_chain(uids), p))
}

/// Whether a packet leaves the machine, or reaches a local listener, under the kill-switch.
pub open spec fn leaves(uids: Seq<u32>, p: Packet) -> bool {
    let q = redirected(uids, p);
    verdict(filter_chain(uids), q) == Act::Accept && (p.net is V6 ==> verdict(filter6_chain(), q)
        == Act::Accept)
}

/// Whether a packet carries the port number of one of Tor's listeners.
pub open spec fn to_tor_port(p: Packet) -> bool {
    ||| p.transport is Udp && p.dport == DNS_PORT
    ||| p.transport is Tcp && (p.dport == TRANS_PORT || p.dport == DNS_PORT)
}

pub open spec fn is_dns(p: Packet) -> bool {
    (p.transport is Udp || p.transport is Tcp) && p.dport == 53
}

/// What the redirecting chain does with a packet.
pub open spec fn nat_decision(uids: Seq<u32>, p: Packet) -> Act {
    if exempt(uids, p) || (p.net is V4 && is_local(p.dst)) {
        Act::Accept
    } else if is_dns(p) {
        Act::Redirect(DNS_PORT)
    } else if p.transport is Tcp && p.syn {
        Act::Redirect(TRANS_PORT)
    } else {
        Act::Accept
    }
}

proof fn lemma_nat(uids: Seq<u32>, p: Packet)
    ensures
        verdict(nat_chain(uids), p) == nat_decision(uids, p),
{
    let lines = nat_chain(uids).lines;
    let local = private_ranges().push(automap_range());
    lemma_one(CondView::Uid(uids), p);
    lemma_one(CondView::Dest(false, local), p);
    lemma_one(CondView::Port(Proto::Udp, false, seq![53u16]), p);
    lemma_one(CondView::Port(Proto::Tcp, false, seq![53u16]), p);
    lemma_one(CondView::FreshTcp, p);
    lemma_single_port(Proto::Udp, false, 53u16, p);
    lemma_single_port(Proto::Tcp, false, 53u16, p);
    assert(lines.len() == 14);
    if exempt(uids, p) {
        lemma_first(lines, p, 6);
    } else if p.net is V4 && is_local(p.dst) {
        lemma_first(lines, p, 10);
    } else if p.transport is Udp && p.dport == 53 {
        lemma_first(lines, p, 11);
    } else if p.transport is Tcp && p.dport == 53 {
        lemma_first(lines, p, 12);
    } else if p.transport is Tcp && p.syn {
        lemma_first(lines, p, 13);
    } else {
        lemma_none(lines, p);
    }
}

/// What the filtering chain accepts.
pub open spec fn filter_accepts(uids: Seq<u32>, p: Packet) -> bool {
    ||| p.out_lo
    ||| exempt(uids, p)
    ||| p.established
    ||| p.net is V4 && is_private(p.dst)
    ||| to_tor_port(p)
}

proof fn lemma_filter(uids: Seq<u32>, p: Packet)
    ensures
        verdict(filter_chain(uids), p) == if filter_accepts(uids, p) {
            Act::Accept
        } else {
            Act::Drop
        },
{
    let lines = filter_chain(uids).lines;
    let both = seq![TRANS_PORT, DNS_PORT];
    lemma_one(CondView::OutLoopback, p);
    lemma_one(CondView::Uid(uids), p);
    lemma_one(CondView::Established, p);
    lemma_one(CondView::Dest(false, private_ranges()), p);
    lemma_one(CondView::Port(Proto::Udp, false, seq![DNS_PORT]), p);
    lemma_one(CondView::Port(Proto::Tcp, false, both), p);
    lemma_single_port(Proto::Udp, false, DNS_PORT, p);
    assert(one_of(both, p.dport) == (p.dport == TRANS_PORT || p.dport == DNS_PORT)) by {
        if p.dport == TRANS_PORT {
            assert(both[0] == p.dport);
        }
        if p.dport == DNS_PORT {
            assert(both[1] == p.dport);
        }
    }
    assert(lines.len() == 6);
    if p.out_lo {
        lemma_first(lines, p, 0);
    } else if exempt(uids, p) {
        lemma_first(lines, p, 1);
    } else if p.established {
        lemma_first(lines, p, 2);
    } else if p.net is V4 && is_private(p.dst) {
        lemma_first(lines, p, 3);
    } else if p.transport is Udp && p.dport == DNS_PORT {
        lemma_first(lines, p, 4);
    } else if p.transport is Tcp && (p.dport == TRANS_PORT || p.dport == DNS_PORT) {
        lemma_first(lines, p, 5);
    } else {
        lemma_none(lines, p);
    }
}

proof fn lemma_filter6(p: Packet)
    ensures
        verdict(filter6_chain(), p) == if p.out_lo {
            Act::Accept
        } else {
            Act::Drop
        },
{
    let lines = filter6_chain().lines;
    lemma_one(CondView::OutLoopback, p);
    if p.out_lo {
        lemma_first(lines, p, 0);
    } else {
        lemma_none(lines, p);
    }
}

/// Default drop: a packet leaves exactly where, after the redirects, it goes through loopback,
/// belongs to an exempt user or to a tracked connection, is addressed to a private range or
/// carries the port number of one of Tor's listeners. An IPv6 packet leaves through loopback alone.
pub proof fn law_default_drop(uids: Seq<u32>, p: Packet)
    ensures
        leaves(uids, p) <==> if p.net is V6 {
            p.out_lo
        } else {
            filter_accepts(uids, redirected(uids, p))
        },
{
    let q = redirected(uids, p);
    lemma_nat(uids, p);
    lemma_filter(uids, q);
    lemma_filter6(q);
}

/// IPv6 has no clear path.
pub proof fn law_ipv6_is_blocked(uids: Seq<u32>, p: Packet)
    requires
        p.net is V6,
        !p.out_lo,
    ensures
        !leaves(uids, p),
{
    law_default_drop(uids, p);
}

/// A new TCP connection of a user that is not exempt, to an address that is not local, goes into
/// Tor: to its DNSPort where it is DNS, else to its TransPort. So does DNS over UDP.
pub proof fn law_clearnet_goes_into_tor(uids: Seq<u32>, p: Packet)
    requires
        p.net is V4,
        !exempt(uids, p),
        !is_local(p.dst),
        (p.transport is Tcp && p.syn) || is_dns(p),
    ensures
        redirected(uids, p).dst == LOCALHOST,
        redirected(uids, p).dport == if is_dns(p) {
            DNS_PORT
        } else {
            TRANS_PORT
        },
        leaves(uids, p),
{
    lemma_nat(uids, p);
    lemma_localhost_is_private();
    law_default_drop(uids, p);
}

proof fn lemma_localhost_is_private()
    ensures
        is_private(LOCALHOST as int),
{
    lemma2_to64();
    lemma_in_net(private_ranges()[0], LOCALHOST as int, 0x100_0000);
    assert(0x7f00_0001int / 0x100_0000 == 0x7f00_0000int / 0x100_0000);
    assert(in_net(private_ranges()[0], LOCALHOST as int));
}

/// Nothing else escapes: what leaves towards a public address, beside the exempt users and the
/// connections that are already tracked, has been turned into Tor. Left out are packets that
/// carry the port number of one of Tor's listeners without being turned there themselves, which
/// the filter accepts whatever their destination.
pub proof fn law_nothing_else_escapes(uids: Seq<u32>, p: Packet)
    requires
        leaves(uids, p),
        !p.out_lo,
        !exempt(uids, p),
        !p.established,
        !is_private(p.dst),
        to_tor_port(p) ==> p.transport is Tcp && p.syn,
    ensures
        p.net is V4,
        redirected(uids, p).dst == LOCALHOST,
        redirected(uids, p).dport == DNS_PORT || redirected(uids, p).dport == TRANS_PORT,
{
    lemma_nat(uids, p);
    law_default_drop(uids, p);
    lemma_local_is_private(p.dst);
}

proof fn lemma_local_is_private(a: int)
    ensures
        is_local(a) ==> is_private(a),
{
    let local = private_ranges().push(automap_range());
    if is_local(a) {
        let i = choose|i: int| 0 <= i < local.len() && in_net(#[trigger] local[i], a);
        if i < private_ranges().len() {
            assert(in_net(private_ranges()[i], a));
        } else {
            lemma2_to64();
            assert(local[i] == automap_range());
            lemma_in_net(automap_range(), a, 0x40_0000);
            assert(a / 0x40_0000 == 0x0ac0_0000int / 0x40_0000);
            lemma_in_net(private_ranges()[1], a, 0x100_0000);
            assert(a / 0x100_0000 == 0x0a00_0000int / 0x100_0000);
            assert(in_net(private_ranges()[1], a));
        }
    }
}

/// Nothing loops back into Tor: what an exempt user sends, Tor's own traffic among it, and what goes
/// to a private address or one that Tor handed out, is never redirected.
pub proof fn law_nothing_loops_into_tor(uids: Seq<u32>, p: Packet)
    requires
        exempt(uids, p) || (p.net is V4 && is_local(p.dst)),
    ensures
        redirected(uids, p) == p,
{
    lemma_nat(uids, p);
}

/// The local network stays reachable: what goes to a private address leaves as it is.
pub proof fn law_the_local_network_stays_reachable(uids: Seq<u32>, p: Packet)
    requires
        p.net is V4,
        is_private(p.dst),
    ensures
        redirected(uids, p) == p,
        leaves(uids, p),
{
    let i = choose|i: int|
        0 <= i < private_ranges().len() && in_net(#[trigger] private_ranges()[i], p.dst);
    assert(in_net(private_ranges().push(automap_range())[i], p.dst));
    law_nothing_loops_into_tor(uids, p);
    law_default_drop(uids, p);
}

/// Connections from before the kill-switch die: once the connection-tracking table is empty, a
/// packet in the middle of a TCP connection to a public address does not leave. Left out are
/// packets to the ports of DNS, which are turned into Tor, and to those of Tor's listeners.
pub proof fn law_old_connections_die(uids: Seq<u32>, p: Packet)
    requires
        p.net is V4,
        p.transport is Tcp,
        !p.syn,
        !p.established,
        !p.out_lo,
        !exempt(uids, p),
        !is_private(p.dst),
        !is_dns(p),
        !to_tor_port(p),
    ensures
        !leaves(uids, p),
{
    lemma_nat(uids, p);
    law_default_drop(uids, p);
}

/// Adding a user to the exempt set lets out that user's packets and nothing else, and holds back
/// nothing of the others that went out before.
pub proof fn law_rearm_widens_by_one_user(uids: Seq<u32>, u: u32, p: Packet)
    requires
        p.uid != u,
    ensures
        leaves(uids.push(u), p) <==> leaves(uids, p),
{
    let wider = uids.push(u);
    assert(exempt(wider, p) == exempt(uids, p)) by {
        if exempt(uids, p) {
            let i = choose|i: int| 0 <= i < uids.len() && uids[i] == p.uid;
            assert(wider[i] == p.uid);
        }
        if exempt(wider, p) {
            let i = choose|i: int| 0 <= i < wider.len() && wider[i] == p.uid;
            assert(uids[i] == p.uid);
        }
    }
    lemma_nat(uids, p);
    lemma_nat(wider, p);
    law_default_drop(uids, p);
    law_default_drop(wider, p);
    assert(redirected(wider, p) == redirected(uids, p));
    assert(exempt(wider, redirected(uids, p)) == exempt(uids, redirected(uids, p)));
}

// ---------- where the exempt users stand ----------
/// Whether a line asks for the user that sends a packet.
pub open spec fn asks_user(l: LineView) -> bool {
    l matches LineView::Rule(c, _) && exists|k: int| 0 <= k < c.len() && (#[trigger] c[k]) is Uid
}

/// The users of a rule as they are written, with the blank behind them.
pub open spec fn users_text(uids: Seq<u32>) -> Text {
    cond_text(CondView::Uid(uids))
}

/// A chain as it is written, up to its first line.
pub open spec fn chain_head(c: ChainView) -> Text {
    "\tchain "@ + c.name + " {\n\t\ttype "@ + kind_text(c.kind) + " hook "@ + hook_text(c.hook)
        + " priority "@ + signed_text(c.priority) + "; policy "@ + policy_text(c.policy) + ";\n"@
}

/// A table as it is written, up to its first chain.
pub open spec fn table_head(t: TableView) -> Text {
    "table "@ + family_text(t.family) + " "@ + t.name + " {\n"@
}

/// What is written of a ruleset before the exempt users for the first time.
pub open spec fn before_users(k: Seq<TableView>) -> Text {
    let c = k[0].chains[0];
    table_head(k[0]) + (chain_head(c) + lines_text(c.lines.take(6)) + "\t\t"@)
}

/// What is written between the exempt users and the exempt users.
pub open spec fn between_users(k: Seq<TableView>) -> Text {
    let c = k[0].chains[0];
    let f = k[0].chains[1];
    (act_text(Act::Return) + "\n"@ + lines_text(c.lines.skip(7)) + "\t}\n"@) + (chain_head(f)
        + lines_text(f.lines.take(1)) + "\t\t"@)
}

/// What is written after the exempt users for the second time.
pub open spec fn after_users(k: Seq<TableView>) -> Text {
    let f = k[0].chains[1];
    (act_text(Act::Accept) + "\n"@ + lines_text(f.lines.skip(2)) + "\t}\n"@) + "}\n"@ + table_text(
        k[1],
    )
}

/// A ruleset as it is written, with its exempt users in their two places.
pub open spec fn text_around(k: Seq<TableView>, uids: Seq<u32>) -> Text {
    before_users(k) + users_text(uids) + between_users(k) + users_text(uids) + after_users(k)
}

proof fn lemma_lines_sum(a: Seq<LineView>, b: Seq<LineView>)
    ensures
        lines_text(a + b) == lines_text(a) + lines_text(b),
    decreases b.len(),
{
    if b.len() == 0 {
        assert(a + b =~= a);
        assert(lines_text(a) + lines_text(b) =~= lines_text(a));
    } else {
        lemma_lines_sum(a, b.drop_last());
        assert((a + b).drop_last() =~= a + b.drop_last());
        assert((a + b).last() == b.last());
        assert(lines_text(a) + (lines_text(b.drop_last()) + line_text(b.last())) =~= (lines_text(a)
            + lines_text(b.drop_last())) + line_text(b.last()));
    }
}

/// A chain as it is written, around one of its lines.
proof fn lemma_chain_around(c: ChainView, i: int)
    requires
        0 <= i < c.lines.len(),
    ensures
        chain_text(c) == chain_head(c) + lines_text(c.lines.take(i)) + line_text(c.lines[i])
            + lines_text(c.lines.skip(i + 1)) + "\t}\n"@,
{
    let one = seq![c.lines[i]];
    assert(c.lines =~= c.lines.take(i) + one + c.lines.skip(i + 1));
    lemma_lines_sum(c.lines.take(i) + one, c.lines.skip(i + 1));
    lemma_lines_sum(c.lines.take(i), one);
    assert(one.drop_last() =~= seq![]);
    reveal_with_fuel(lines_text, 2);
    assert(lines_text(one) =~= line_text(c.lines[i]));
    assert(chain_text(c) =~= chain_head(c) + lines_text(c.lines) + "\t}\n"@);
    assert(chain_head(c) + (lines_text(c.lines.take(i)) + line_text(c.lines[i]) + lines_text(
        c.lines.skip(i + 1),
    )) + "\t}\n"@ =~= chain_head(c) + lines_text(c.lines.take(i)) + line_text(c.lines[i])
        + lines_text(c.lines.skip(i + 1)) + "\t}\n"@);
}

proof fn lemma_user_rule(uids: Seq<u32>, a: Act)
    ensures
        line_text(rule(seq![CondView::Uid(uids)], a)) == "\t\t"@ + users_text(uids) + act_text(a)
            + "\n"@,
{
    let c = seq![CondView::Uid(uids)];
    assert(c.drop_last() =~= seq![]);
    reveal_with_fuel(conds_text, 2);
    assert(conds_text(c) =~= users_text(uids));
}

/// A chain as it is written, around the users of one of its lines.
proof fn lemma_chain_users(c: ChainView, i: int, uids: Seq<u32>, a: Act)
    requires
        0 <= i < c.lines.len(),
        c.lines[i] == rule(seq![CondView::Uid(uids)], a),
    ensures
        chain_text(c) == (chain_head(c) + lines_text(c.lines.take(i)) + "\t\t"@) + users_text(uids)
            + (act_text(a) + "\n"@ + lines_text(c.lines.skip(i + 1)) + "\t}\n"@),
{
    lemma_chain_around(c, i);
    lemma_user_rule(uids, a);
    lemma_regroup(
        chain_head(c) + lines_text(c.lines.take(i)),
        "\t\t"@,
        users_text(uids),
        act_text(a),
        "\n"@,
        lines_text(c.lines.skip(i + 1)),
        "\t}\n"@,
    );
}

proof fn lemma_regroup(h: Text, t: Text, u: Text, a: Text, n: Text, r: Text, e: Text)
    ensures
        h + (t + u + a + n) + r + e == (h + t) + u + (a + n + r + e),
{
    assert(h + (t + u + a + n) + r + e =~= (h + t) + u + (a + n + r + e));
}

proof fn lemma_two_chains(
    head: Text,
    n1: Text,
    n2: Text,
    f1: Text,
    f2: Text,
    u: Text,
    end: Text,
    six: Text,
)
    ensures
        head + ((n1 + u + n2) + (f1 + u + f2)) + end + six == (head + n1) + u + (n2 + f1) + u + (f2
            + end + six),
{
    assert(head + ((n1 + u + n2) + (f1 + u + f2)) + end + six =~= (head + n1) + u + (n2 + f1) + u
        + (f2 + end + six));
}

/// Two tables as they are written, the first with two chains.
proof fn lemma_tables(k: Seq<TableView>)
    requires
        k.len() == 2,
        k[0].chains.len() == 2,
    ensures
        tables_text(k) == table_head(k[0]) + (chain_text(k[0].chains[0]) + chain_text(
            k[0].chains[1],
        )) + "}\n"@ + table_text(k[1]),
{
    reveal_with_fuel(tables_text, 3);
    reveal_with_fuel(chains_text, 3);
    let c = k[0].chains;
    assert(k.drop_last().last() == k[0]);
    assert(k.drop_last().drop_last() =~= seq![]);
    assert(c.drop_last().last() == c[0]);
    assert(c.drop_last().drop_last() =~= seq![]);
    assert(chains_text(c) =~= chain_text(c[0]) + chain_text(c[1]));
    assert(tables_text(k) =~= table_text(k[0]) + table_text(k[1]));
}

/// Whether a ruleset is another one but for the users.
spec fn same_but_users(k: Seq<TableView>, k0: Seq<TableView>) -> bool {
    let n = k[0].chains[0];
    let f = k[0].chains[1];
    let n0 = k0[0].chains[0];
    let f0 = k0[0].chains[1];
    &&& k.len() == 2
    &&& k[0].chains.len() == 2
    &&& n.lines.len() > 6
    &&& f.lines.len() > 1
    &&& table_head(k[0]) == table_head(k0[0])
    &&& k[1] == k0[1]
    &&& chain_head(n) == chain_head(n0)
    &&& chain_head(f) == chain_head(f0)
    &&& n.lines.take(6) == n0.lines.take(6)
    &&& n.lines.skip(7) == n0.lines.skip(7)
    &&& f.lines.take(1) == f0.lines.take(1)
    &&& f.lines.skip(2) == f0.lines.skip(2)
}

proof fn lemma_text_around(k: Seq<TableView>, k0: Seq<TableView>, uids: Seq<u32>)
    requires
        same_but_users(k, k0),
        k[0].chains[0].lines[6] == rule(seq![CondView::Uid(uids)], Act::Return),
        k[0].chains[1].lines[1] == rule(seq![CondView::Uid(uids)], Act::Accept),
    ensures
        tables_text(k) == text_around(k0, uids),
{
    let n = k[0].chains[0];
    let f = k[0].chains[1];
    lemma_tables(k);
    lemma_chain_users(n, 6, uids, Act::Return);
    lemma_chain_users(f, 1, uids, Act::Accept);
    lemma_two_chains(
        table_head(k[0]),
        chain_head(n) + lines_text(n.lines.take(6)) + "\t\t"@,
        act_text(Act::Return) + "\n"@ + lines_text(n.lines.skip(7)) + "\t}\n"@,
        chain_head(f) + lines_text(f.lines.take(1)) + "\t\t"@,
        act_text(Act::Accept) + "\n"@ + lines_text(f.lines.skip(2)) + "\t}\n"@,
        users_text(uids),
        "}\n"@,
        table_text(k[1]),
    );
}

/// The ruleset as it is written, around its users.
proof fn lemma_users_text(uids: Seq<u32>)
    ensures
        tables_text(kill_switch(uids)) == text_around(kill_switch(seq![]), uids),
{
    let k = kill_switch(uids);
    let k0 = kill_switch(seq![]);
    assert(same_but_users(k, k0)) by {
        assert(k[0].chains[0].lines.take(6) =~= k0[0].chains[0].lines.take(6));
        assert(k[0].chains[0].lines.skip(7) =~= k0[0].chains[0].lines.skip(7));
        assert(k[0].chains[1].lines.take(1) =~= k0[0].chains[1].lines.take(1));
        assert(k[0].chains[1].lines.skip(2) =~= k0[0].chains[1].lines.skip(2));
    }
    lemma_text_around(k, k0, uids);
}

/// Which lines ask for the user.
proof fn lemma_user_lines(uids: Seq<u32>)
    ensures
        forall|i: int|
            0 <= i < nat_chain(uids).lines.len() ==> asks_user(#[trigger] nat_chain(uids).lines[i])
                == (i == 6),
        forall|i: int|
            0 <= i < filter_chain(uids).lines.len() ==> asks_user(
                #[trigger] filter_chain(uids).lines[i],
            ) == (i == 1),
        forall|i: int|
            0 <= i < filter6_chain().lines.len() ==> !asks_user(#[trigger] filter6_chain().lines[i]),
{
    assert(seq![CondView::Uid(uids)][0] is Uid);
    let n = nat_chain(uids).lines;
    let f = filter_chain(uids).lines;
    assert(n.len() == 14 && f.len() == 6);
    assert(asks_user(n[6]));
    assert(asks_user(f[1]));
}

/// The rules for two lists of users differ in two lines.
proof fn lemma_two_rules(a: Seq<u32>, b: Seq<u32>)
    ensures
        nat_chain(b).lines == nat_chain(a).lines.update(
            6,
            rule(seq![CondView::Uid(b)], Act::Return),
        ),
        filter_chain(b).lines == filter_chain(a).lines.update(
            1,
            rule(seq![CondView::Uid(b)], Act::Accept),
        ),
{
    assert(nat_chain(b).lines =~= nat_chain(a).lines.update(
        6,
        rule(seq![CondView::Uid(b)], Act::Return),
    ));
    assert(filter_chain(b).lines =~= filter_chain(a).lines.update(
        1,
        rule(seq![CondView::Uid(b)], Act::Accept),
    ));
}

/// The ruleset with another list of exempt users.
pub open spec fn with_users(k: Seq<TableView>, b: Seq<u32>) -> Seq<TableView> {
    let n = k[0].chains[0];
    let f = k[0].chains[1];
    seq![
        TableView {
            chains: seq![
                ChainView {
                    lines: n.lines.update(6, rule(seq![CondView::Uid(b)], Act::Return)),
                    ..n
                },
                ChainView {
                    lines: f.lines.update(1, rule(seq![CondView::Uid(b)], Act::Accept)),
                    ..f
                },
            ],
            ..k[0]
        },
        k[1],
    ]
}

proof fn lemma_with_users(a: Seq<u32>, b: Seq<u32>)
    ensures
        kill_switch(b) == with_users(kill_switch(a), b),
{
    lemma_two_rules(a, b);
    assert(kill_switch(b)[0].chains =~= with_users(kill_switch(a), b)[0].chains);
    assert(kill_switch(b) =~= with_users(kill_switch(a), b));
}

/// Another list of exempt users changes two rules, one that returns and one that accepts, and
/// nothing else of the ruleset. They are the only ones that ask for the user, and what is written
/// before, between and after the users does not depend on them.
pub proof fn law_users_stand_in_two_rules(a: Seq<u32>, b: Seq<u32>)
    ensures
        kill_switch(b) == with_users(kill_switch(a), b),
        forall|i: int|
            0 <= i < nat_chain(a).lines.len() ==> asks_user(#[trigger] nat_chain(a).lines[i]) == (i
                == 6),
        forall|i: int|
            0 <= i < filter_chain(a).lines.len() ==> asks_user(#[trigger] filter_chain(a).lines[i])
                == (i == 1),
        forall|i: int|
            0 <= i < filter6_chain().lines.len() ==> !asks_user(#[trigger] filter6_chain().lines[i]),
        tables_text(kill_switch(a)) == text_around(kill_switch(seq![]), a),
        tables_text(kill_switch(b)) == text_around(kill_switch(seq![]), b),
{
    lemma_users_text(a);
    lemma_users_text(b);
    lemma_user_lines(a);
    lemma_with_users(a, b);
}

// ---------- what leaves, in numbers ----------
/// The private addresses, as ranges: 127.0.0.0 to 127.255.255.255, 10.0.0.0 to 10.255.255.255,
/// 172.16.0.0 to 172.31.255.255, 192.168.0.0 to 192.168.255.255, 169.254.0.0 to 169.254.255.255 and
/// 100.64.0.0 to 100.127.255.255, and no other.
pub open spec fn in_private_range(a: int) -> bool {
    ||| 0x7f00_0000 <= a <= 0x7fff_ffff
    ||| 0x0a00_0000 <= a <= 0x0aff_ffff
    ||| 0xac10_0000 <= a <= 0xac1f_ffff
    ||| 0xc0a8_0000 <= a <= 0xc0a8_ffff
    ||| 0xa9fe_0000 <= a <= 0xa9fe_ffff
    ||| 0x6440_0000 <= a <= 0x647f_ffff
}

/// The kill-switch takes for private what lies in one of these ranges.
pub proof fn law_private_addresses(a: int)
    ensures
        is_private(a) <==> in_private_range(a),
        is_local(a) <==> in_private_range(a),
{
    lemma2_to64();
    let v = private_ranges();
    lemma_in_net(v[0], a, 0x100_0000);
    lemma_in_net(v[1], a, 0x100_0000);
    lemma_in_net(v[2], a, 0x10_0000);
    lemma_in_net(v[3], a, 0x1_0000);
    lemma_in_net(v[4], a, 0x1_0000);
    lemma_in_net(v[5], a, 0x40_0000);
    assert(in_net(v[0], a) <==> 0x7f00_0000 <= a <= 0x7fff_ffff);
    assert(in_net(v[1], a) <==> 0x0a00_0000 <= a <= 0x0aff_ffff);
    assert(in_net(v[2], a) <==> 0xac10_0000 <= a <= 0xac1f_ffff);
    assert(in_net(v[3], a) <==> 0xc0a8_0000 <= a <= 0xc0a8_ffff);
    assert(in_net(v[4], a) <==> 0xa9fe_0000 <= a <= 0xa9fe_ffff);
    assert(in_net(v[5], a) <==> 0x6440_0000 <= a <= 0x647f_ffff);
    lemma_local_is_private(a);
    if is_private(a) {
        let i = choose|i: int| 0 <= i < v.len() && in_net(#[trigger] v[i], a);
        assert(in_net(v.push(automap_range())[i], a));
    }
}

/// What leaves, for every packet of IPv4: what goes through loopback, what an exempt user sends, what
/// belongs to a tracked connection, what goes to a private address, every new TCP connection, and
/// what carries the port of DNS or of one of Tor's listeners; and nothing else.
pub proof fn law_what_leaves(uids: Seq<u32>, p: Packet)
    requires
        p.net is V4,
    ensures
        leaves(uids, p) <==> {
            ||| p.out_lo
            ||| p.established
            ||| exists|i: int| 0 <= i < uids.len() && #[trigger] uids[i] == p.uid
            ||| in_private_range(p.dst)
            ||| p.transport is Tcp && (p.syn || p.dport == 53 || p.dport == 5353 || p.dport == 9040)
            ||| p.transport is Udp && (p.dport == 53 || p.dport == 5353)
        },
{
    lemma_nat(uids, p);
    law_default_drop(uids, p);
    law_private_addresses(p.dst);
    law_private_addresses(0x7f00_0001);
}

/// Where it goes: DNS that is not exempt and not for a private address goes to port 5353 of
/// loopback, every other new TCP connection of that kind to port 9040, and all the rest where it was
/// addressed.
pub proof fn law_where_it_goes(uids: Seq<u32>, p: Packet)
    requires
        p.net is V4,
    ensures
        ({
            let q = redirected(uids, p);
            let spared = (exists|i: int| 0 <= i < uids.len() && #[trigger] uids[i] == p.uid)
                || in_private_range(p.dst);
            let dns = !(p.transport is Other) && p.dport == 53;
            &&& !spared && dns ==> q.dst == 0x7f00_0001 && q.dport == 5353
            &&& !spared && !dns && p.transport is Tcp && p.syn ==> q.dst == 0x7f00_0001 && q.dport
                == 9040
            &&& spared || !dns && !(p.transport is Tcp && p.syn) ==> q.dst == p.dst && q.dport
                == p.dport
        }),
{
    lemma_nat(uids, p);
    law_private_addresses(p.dst);
}

/// What is handed to `nft`, for every list of exempt users: one script, which first clears both
/// tables and then holds the whole ruleset with these users and no others, in the rule that spares
/// them the redirects and in the one that lets them out.
pub proof fn law_the_script_holds_the_users(uids: Seq<u32>)
    ensures
        up_plan(uids).len() == 1 && rearm_plan(uids).len() == 1,
        up_plan(uids)[0].op matches OpView::Feed(f) && f.input == replace_script(uids) && f.command
            == cmd("nft"@, seq!["-f"@, "-"@]),
        rearm_plan(uids)[0].op matches OpView::Feed(f) && f.input == replace_script(uids)
            && f.command == cmd("nft"@, seq!["-f"@, "-"@]),
        up_plan(uids)[0].need is Required && rearm_plan(uids)[0].need is Required,
        finishes(replace_script(uids), tables_text(kill_switch(uids))),
        begins(
            replace_script(uids),
            "add table inet anond\ndelete table inet anond\nadd table ip6 anond6\ndelete table ip6 anond6\n"@,
        ),
        nat_chain(uids).lines[6] == LineView::Rule(seq![CondView::Uid(uids)], Act::Return),
        filter_chain(uids).lines[1] == LineView::Rule(seq![CondView::Uid(uids)], Act::Accept),
{
    let a =
        "add table inet anond\ndelete table inet anond\nadd table ip6 anond6\ndelete table ip6 anond6\n"@;
    let b = tables_text(kill_switch(uids));
    assert((a + b).take(a.len() as int) =~= a);
    assert((a + b).skip(a.len() as int) =~= b);
}

} // verus!
