//! Running a command inside a network namespace whose only egress is Tor. The namespace holds
//! loopback and one end of a virtual link; the real interface is not in it. Whatever goes wrong,
//! a command in it cannot connect rather than connect in the clear.
use vstd::prelude::*;
use vstd::string::StringExecFns;

use crate::nft::{
    Act, Chain, ChainView, Cidr, Cond, CondView, Family, Hook, Kind, LOCALHOST, Line, Packet,
    Policy, Proto, Table, TableView, applies, chain_views, conds, in_net, in_nets, lemma_first,
    lemma_in_net, lemma_none, lemma_one, lemma_single_port, line_views, meets, meets_all,
    table_views, tables_text, translated, verdict, write_tables,
};
use crate::killswitch::{is_dns, rule};

verus! {

/// The namespace.
pub const NETNS: &'static str = "arxonion";

/// The host's end of the link.
pub const VETH_HOST: &'static str = "arxonion0";

/// The namespace's end of the link.
pub const VETH_NS: &'static str = "arxonion1";

/// The address of the host's end, the gateway of the namespace.
pub const HOST_IP: &'static str = "10.99.71.1";

/// The only address in the namespace.
pub const NS_IP: &'static str = "10.99.71.2";

pub const TOR_TRANS: u16 = 9040;

pub const TOR_DNS: u16 = 5353;

// ---------- the ruleset ----------
/// The addresses of the link.
pub open spec fn subnet() -> Cidr {
    Cidr { net: 0x0a63_4700, bits: 24 }
}

pub open spec fn loopback() -> Cidr {
    Cidr { net: 0x7f00_0000, bits: 8 }
}

/// The destinations that are never handed to Tor.
pub open spec fn unroutable() -> Seq<Cidr> {
    seq![
        (Cidr { net: 0x0a00_0000, bits: 8 }),
        (Cidr { net: 0xac10_0000, bits: 12 }),
        (Cidr { net: 0xc0a8_0000, bits: 16 }),
        (Cidr { net: 0xa9fe_0000, bits: 16 }),
        (Cidr { net: 0x6440_0000, bits: 10 }),
    ]
}

/// What the namespace may reach on the host: loopback, where the translation puts Tor.
pub open spec fn input_chain() -> ChainView {
    ChainView {
        name: "input"@,
        kind: Kind::Filter,
        hook: Hook::Input,
        priority: -150,
        policy: Policy::Accept,
        lines: seq![
            rule(
                seq![CondView::Source(subnet()), CondView::Dest(true, seq![loopback()])],
                Act::Drop,
            ),
        ],
    }
}

/// Nothing from the namespace is forwarded.
pub open spec fn forward_chain() -> ChainView {
    ChainView {
        name: "forward"@,
        kind: Kind::Filter,
        hook: Hook::Forward,
        priority: -150,
        policy: Policy::Accept,
        lines: seq![rule(seq![CondView::Source(subnet())], Act::Drop)],
    }
}

/// DNS from the namespace goes to Tor's DNSPort, and other TCP to a public destination to Tor's
/// TransPort.
pub open spec fn prerouting_chain() -> ChainView {
    ChainView {
        name: "prerouting"@,
        kind: Kind::Nat,
        hook: Hook::Prerouting,
        priority: -100,
        policy: Policy::Accept,
        lines: seq![
            rule(
                seq![
                    CondView::Source(subnet()),
                    CondView::Port(Proto::Udp, false, seq![53u16]),
                ],
                Act::Dnat(LOCALHOST, TOR_DNS),
            ),
            rule(
                seq![
                    CondView::Source(subnet()),
                    CondView::Port(Proto::Tcp, false, seq![53u16]),
                ],
                Act::Dnat(LOCALHOST, TOR_DNS),
            ),
            rule(
                seq![
                    CondView::Source(subnet()),
                    CondView::Dest(true, unroutable()),
                    CondView::Port(Proto::Tcp, true, seq![53u16]),
                ],
                Act::Dnat(LOCALHOST, TOR_TRANS),
            ),
        ],
    }
}

/// What was translated to loopback answers from there.
pub open spec fn postrouting_chain() -> ChainView {
    ChainView {
        name: "postrouting"@,
        kind: Kind::Nat,
        hook: Hook::Postrouting,
        priority: 100,
        policy: Policy::Accept,
        lines: seq![
            rule(
                seq![CondView::Source(subnet()), CondView::Dest(false, seq![loopback()])],
                Act::Masquerade,
            ),
        ],
    }
}

/// The rules of the namespace.
pub open spec fn confinement() -> Seq<TableView> {
    seq![
        TableView {
            family: Family::Ip,
            name: "arxonion"@,
            chains: seq![
                input_chain(),
                forward_chain(),
                prerouting_chain(),
                postrouting_chain(),
            ],
        },
    ]
}

fn rule_of(c: Vec<Cond>, a: Act) -> (l: Line)
    ensures
        l@ == rule(conds(c@), a),
{
    Line::Rule(c, a)
}

fn from_subnet() -> (c: Cond)
    ensures
        c@ == CondView::Source(subnet()),
{
    Cond::Source(Cidr { net: 0x0a63_4700, bits: 24 })
}

fn dest_loopback(negated: bool) -> (c: Cond)
    ensures
        c@ == CondView::Dest(negated, seq![loopback()]),
{
    let v: Vec<Cidr> = vec![Cidr { net: 0x7f00_0000, bits: 8 }];
    assert(v@ =~= seq![loopback()]);
    Cond::Dest(negated, v)
}

fn dns_port(p: Proto, negated: bool) -> (c: Cond)
    ensures
        c@ == CondView::Port(p, negated, seq![53u16]),
{
    let v: Vec<u16> = vec![53];
    assert(v@ =~= seq![53u16]);
    Cond::Port(p, negated, v)
}

fn chain(name: &str, kind: Kind, hook: Hook, priority: i32, lines: Vec<Line>) -> (c: Chain)
    ensures
        c@ == (ChainView {
            name: name@,
            kind,
            hook,
            priority: priority as int,
            policy: Policy::Accept,
            lines: line_views(lines@),
        }),
{
    Chain { name: name.to_owned(), kind, hook, priority, policy: Policy::Accept, lines }
}

fn build_filters() -> (r: (Chain, Chain))
    ensures
        r.0@ == input_chain(),
        r.1@ == forward_chain(),
{
    let c1: Vec<Cond> = vec![from_subnet(), dest_loopback(true)];
    assert(conds(c1@) =~= seq![
        CondView::Source(subnet()),
        CondView::Dest(true, seq![loopback()]),
    ]);
    let l1: Vec<Line> = vec![rule_of(c1, Act::Drop)];
    assert(line_views(l1@) =~= input_chain().lines);
    let c2: Vec<Cond> = vec![from_subnet()];
    assert(conds(c2@) =~= seq![CondView::Source(subnet())]);
    let l2: Vec<Line> = vec![rule_of(c2, Act::Drop)];
    assert(line_views(l2@) =~= forward_chain().lines);
    (
        chain("input", Kind::Filter, Hook::Input, -150, l1),
        chain("forward", Kind::Filter, Hook::Forward, -150, l2),
    )
}

fn build_nats() -> (r: (Chain, Chain))
    ensures
        r.0@ == prerouting_chain(),
        r.1@ == postrouting_chain(),
{
    let c1: Vec<Cond> = vec![from_subnet(), dns_port(Proto::Udp, false)];
    assert(conds(c1@) =~= seq![
        CondView::Source(subnet()),
        CondView::Port(Proto::Udp, false, seq![53u16]),
    ]);
    let c2: Vec<Cond> = vec![from_subnet(), dns_port(Proto::Tcp, false)];
    assert(conds(c2@) =~= seq![
        CondView::Source(subnet()),
        CondView::Port(Proto::Tcp, false, seq![53u16]),
    ]);
    let nets: Vec<Cidr> = vec![
        Cidr { net: 0x0a00_0000, bits: 8 },
        Cidr { net: 0xac10_0000, bits: 12 },
        Cidr { net: 0xc0a8_0000, bits: 16 },
        Cidr { net: 0xa9fe_0000, bits: 16 },
        Cidr { net: 0x6440_0000, bits: 10 },
    ];
    assert(nets@ =~= unroutable());
    let c3: Vec<Cond> = vec![from_subnet(), Cond::Dest(true, nets), dns_port(Proto::Tcp, true)];
    assert(conds(c3@) =~= seq![
        CondView::Source(subnet()),
        CondView::Dest(true, unroutable()),
        CondView::Port(Proto::Tcp, true, seq![53u16]),
    ]);
    let l1: Vec<Line> = vec![
        rule_of(c1, Act::Dnat(LOCALHOST, TOR_DNS)),
        rule_of(c2, Act::Dnat(LOCALHOST, TOR_DNS)),
        rule_of(c3, Act::Dnat(LOCALHOST, TOR_TRANS)),
    ];
    assert(line_views(l1@) =~= prerouting_chain().lines);
    let c4: Vec<Cond> = vec![from_subnet(), dest_loopback(false)];
    assert(conds(c4@) =~= seq![
        CondView::Source(subnet()),
        CondView::Dest(false, seq![loopback()]),
    ]);
    let l2: Vec<Line> = vec![rule_of(c4, Act::Masquerade)];
    assert(line_views(l2@) =~= postrouting_chain().lines);
    (
        chain("prerouting", Kind::Nat, Hook::Prerouting, -100, l1),
        chain("postrouting", Kind::Nat, Hook::Postrouting, 100, l2),
    )
}

/// The rules of the namespace, as `nft` reads them.
pub fn ruleset() -> (s: String)
    ensures
        s@ == tables_text(confinement()),
{
    let (input, forward) = build_filters();
    let (prerouting, postrouting) = build_nats();
    let chains: Vec<Chain> = vec![input, forward, prerouting, postrouting];
    assert(chain_views(chains@) =~= confinement()[0].chains);
    let tables: Vec<Table> = vec![
        Table { family: Family::Ip, name: "arxonion".to_owned(), chains },
    ];
    assert(table_views(tables@) =~= confinement());
    write_tables(&tables)
}

// ---------- what the ruleset lets through ----------
/// Whether a packet comes out of the namespace.
pub open spec fn from_namespace(p: Packet) -> bool {
    p.net is V4 && in_net(subnet(), p.src)
}

/// A packet after the translation that it meets on the host.
pub open spec fn arrived(p: Packet) -> Packet {
    translated(p, verdict(prerouting_chain(), p))
}

/// Whether a packet that is meant for the host is let in.
pub open spec fn let_in(p: Packet) -> bool {
    verdict(input_chain(), arrived(p)) == Act::Accept
}

/// Whether a packet that is meant for elsewhere is let through.
pub open spec fn let_through(p: Packet) -> bool {
    verdict(forward_chain(), arrived(p)) == Act::Accept
}

proof fn lemma_two(a: CondView, b: CondView, p: Packet)
    ensures
        meets_all(seq![a, b], p) == (meets(a, p) && meets(b, p)),
{
    assert(seq![a, b].skip(1) =~= seq![b]);
    lemma_one(b, p);
}

proof fn lemma_three(a: CondView, b: CondView, c: CondView, p: Packet)
    ensures
        meets_all(seq![a, b, c], p) == (meets(a, p) && meets(b, p) && meets(c, p)),
{
    assert(seq![a, b, c].skip(1) =~= seq![b, c]);
    lemma_two(b, c, p);
}

proof fn lemma_single_net(c: Cidr, a: int)
    ensures
        in_nets(seq![c], a) == in_net(c, a),
{
    if in_net(c, a) {
        assert(in_net(seq![c][0], a));
    }
}

proof fn lemma_rules(p: Packet)
    ensures
        ({
            let l = prerouting_chain().lines;
            &&& l.len() == 3
            &&& applies(l[0], p) == (from_namespace(p) && p.transport is Udp && p.dport == 53)
            &&& applies(l[1], p) == (from_namespace(p) && p.transport is Tcp && p.dport == 53)
            &&& applies(l[2], p) == (from_namespace(p) && p.transport is Tcp && p.dport != 53
                && !in_nets(unroutable(), p.dst))
        }),
{
    let l = prerouting_chain().lines;
    let source = CondView::Source(subnet());
    let udp = CondView::Port(Proto::Udp, false, seq![53u16]);
    let tcp = CondView::Port(Proto::Tcp, false, seq![53u16]);
    let public = CondView::Dest(true, unroutable());
    let other = CondView::Port(Proto::Tcp, true, seq![53u16]);
    assert(l[0] == rule(seq![source, udp], Act::Dnat(LOCALHOST, TOR_DNS)));
    assert(l[1] == rule(seq![source, tcp], Act::Dnat(LOCALHOST, TOR_DNS)));
    assert(l[2] == rule(seq![source, public, other], Act::Dnat(LOCALHOST, TOR_TRANS)));
    lemma_two(source, udp, p);
    lemma_two(source, tcp, p);
    lemma_three(source, public, other, p);
    lemma_single_port(Proto::Udp, false, 53u16, p);
    lemma_single_port(Proto::Tcp, false, 53u16, p);
    lemma_single_port(Proto::Tcp, true, 53u16, p);
}

/// The translation of a packet out of the namespace.
proof fn lemma_arrived(p: Packet)
    requires
        from_namespace(p),
    ensures
        verdict(prerouting_chain(), p) == if is_dns(p) {
            Act::Dnat(LOCALHOST, TOR_DNS)
        } else if p.transport is Tcp && !in_nets(unroutable(), p.dst) {
            Act::Dnat(LOCALHOST, TOR_TRANS)
        } else {
            Act::Accept
        },
{
    let l = prerouting_chain().lines;
    lemma_rules(p);
    if p.transport is Udp && p.dport == 53 {
        lemma_first(l, p, 0);
    } else if p.transport is Tcp && p.dport == 53 {
        lemma_first(l, p, 1);
    } else if p.transport is Tcp && !in_nets(unroutable(), p.dst) {
        lemma_first(l, p, 2);
    } else {
        lemma_none(l, p);
    }
}

/// Nothing out of the namespace is forwarded, whatever it is and wherever it goes.
pub proof fn law_nothing_is_forwarded(p: Packet)
    requires
        from_namespace(p),
    ensures
        !let_through(p),
{
    let q = arrived(p);
    let l = forward_chain().lines;
    lemma_one(CondView::Source(subnet()), q);
    lemma_first(l, q, 0);
}

/// The host is out of reach: what is let in out of the namespace goes to loopback, and what was not
/// addressed there has been turned into Tor.
pub proof fn law_only_tor_is_reached(p: Packet)
    requires
        from_namespace(p),
        let_in(p),
    ensures
        in_net(loopback(), arrived(p).dst),
        !in_net(loopback(), p.dst) ==> arrived(p).dst == LOCALHOST && (arrived(p).dport == TOR_DNS
            || arrived(p).dport == TOR_TRANS),
{
    let q = arrived(p);
    let l = input_chain().lines;
    lemma_arrived(p);
    lemma_two(CondView::Source(subnet()), CondView::Dest(true, seq![loopback()]), q);
    lemma_single_net(loopback(), q.dst);
    if !in_net(loopback(), q.dst) {
        lemma_first(l, q, 0);
    }
}

/// What Tor can carry is carried: DNS is turned to Tor's DNSPort, TCP to a public destination to
/// its TransPort, and both are let in.
pub proof fn law_tor_carries_it(p: Packet)
    requires
        from_namespace(p),
        is_dns(p) || (p.transport is Tcp && !in_nets(unroutable(), p.dst)),
    ensures
        let_in(p),
        arrived(p).dst == LOCALHOST,
        arrived(p).dport == if is_dns(p) {
            TOR_DNS
        } else {
            TOR_TRANS
        },
{
    let q = arrived(p);
    let l = input_chain().lines;
    lemma_arrived(p);
    lemma_two(CondView::Source(subnet()), CondView::Dest(true, seq![loopback()]), q);
    lemma_single_net(loopback(), q.dst);
    lemma_loopback();
    lemma_none(l, q);
}

proof fn lemma_loopback()
    ensures
        in_net(loopback(), LOCALHOST as int),
{
    vstd::arithmetic::power2::lemma2_to64();
    lemma_in_net(loopback(), LOCALHOST as int, 0x100_0000);
    assert(0x7f00_0001int / 0x100_0000 == 0x7f00_0000int / 0x100_0000);
}

/// Tor's TransPort never sees a private destination.
pub proof fn law_private_never_reaches_the_transport(p: Packet)
    requires
        from_namespace(p),
        in_nets(unroutable(), p.dst),
    ensures
        verdict(prerouting_chain(), p) != Act::Dnat(LOCALHOST, TOR_TRANS),
{
    lemma_arrived(p);
}

/// No packet is translated twice: of the translating rules, no more than one applies to it.
pub proof fn law_translated_at_most_once(p: Packet, i: int, j: int)
    requires
        0 <= i < j < prerouting_chain().lines.len(),
        applies(prerouting_chain().lines[i], p),
    ensures
        !applies(prerouting_chain().lines[j], p),
{
    lemma_rules(p);
}

} // verus!
