//! Packet-filter rulesets as typed data: how one is written out for `nft`, and what it decides
//! about a packet.
use vstd::arithmetic::power2::pow2;
use vstd::prelude::*;
use vstd::string::StringExecFns;

use crate::number::{dec, decimal};
use crate::text::{Text, joined};

verus! {

/// A block of IPv4 addresses: those that share their first `bits` bits with `net`.
#[derive(Clone, Copy, PartialEq, Eq, Structural)]
pub struct Cidr {
    pub net: u32,
    pub bits: u8,
}

#[derive(Clone, Copy, PartialEq, Eq, Structural)]
pub enum Proto {
    Tcp,
    Udp,
}

#[derive(Clone, Copy, PartialEq, Eq, Structural)]
pub enum Family {
    Inet,
    Ip,
    Ip6,
}

#[derive(Clone, Copy, PartialEq, Eq, Structural)]
pub enum Kind {
    Nat,
    Filter,
}

#[derive(Clone, Copy, PartialEq, Eq, Structural)]
pub enum Hook {
    Input,
    Forward,
    Output,
    Prerouting,
    Postrouting,
}

#[derive(Clone, Copy, PartialEq, Eq, Structural)]
pub enum Policy {
    Accept,
    Drop,
}

/// What a rule asks of a packet. The flag of `Dest` and `Port` negates the test.
pub enum Cond {
    Uid(Vec<u32>),
    Dest(bool, Vec<Cidr>),
    Source(Cidr),
    OutLoopback,
    Established,
    Port(Proto, bool, Vec<u16>),
    FreshTcp,
}

/// The model of a [`Cond`].
#[verifier::ext_equal]
pub enum CondView {
    Uid(Seq<u32>),
    Dest(bool, Seq<Cidr>),
    Source(Cidr),
    OutLoopback,
    Established,
    Port(Proto, bool, Seq<u16>),
    FreshTcp,
}

impl View for Cond {
    type V = CondView;

    open spec fn view(&self) -> CondView {
        match self {
            Cond::Uid(u) => CondView::Uid(u@),
            Cond::Dest(n, d) => CondView::Dest(*n, d@),
            Cond::Source(c) => CondView::Source(*c),
            Cond::OutLoopback => CondView::OutLoopback,
            Cond::Established => CondView::Established,
            Cond::Port(p, n, v) => CondView::Port(*p, *n, v@),
            Cond::FreshTcp => CondView::FreshTcp,
        }
    }
}

/// What a rule does with a packet that meets its conditions.
#[derive(Clone, Copy, PartialEq, Eq, Structural)]
pub enum Act {
    Return,
    Accept,
    Drop,
    Redirect(u16),
    Dnat(u32, u16),
    Masquerade,
}

/// A line of a chain.
pub enum Line {
    Comment(String),
    Rule(Vec<Cond>, Act),
}

/// The model of a [`Line`].
#[verifier::ext_equal]
pub enum LineView {
    Comment(Text),
    Rule(Seq<CondView>, Act),
}

pub open spec fn conds(v: Seq<Cond>) -> Seq<CondView> {
    v.map_values(|c: Cond| c@)
}

impl View for Line {
    type V = LineView;

    open spec fn view(&self) -> LineView {
        match self {
            Line::Comment(s) => LineView::Comment(s@),
            Line::Rule(c, a) => LineView::Rule(conds(c@), *a),
        }
    }
}

/// A base chain.
pub struct Chain {
    pub name: String,
    pub kind: Kind,
    pub hook: Hook,
    pub priority: i32,
    pub policy: Policy,
    pub lines: Vec<Line>,
}

/// The model of a [`Chain`].
#[verifier::ext_equal]
pub struct ChainView {
    pub name: Text,
    pub kind: Kind,
    pub hook: Hook,
    pub priority: int,
    pub policy: Policy,
    pub lines: Seq<LineView>,
}

pub open spec fn line_views(v: Seq<Line>) -> Seq<LineView> {
    v.map_values(|l: Line| l@)
}

impl View for Chain {
    type V = ChainView;

    open spec fn view(&self) -> ChainView {
        ChainView {
            name: self.name@,
            kind: self.kind,
            hook: self.hook,
            priority: self.priority as int,
            policy: self.policy,
            lines: line_views(self.lines@),
        }
    }
}

/// A table of chains.
pub struct Table {
    pub family: Family,
    pub name: String,
    pub chains: Vec<Chain>,
}

/// The model of a [`Table`].
#[verifier::ext_equal]
pub struct TableView {
    pub family: Family,
    pub name: Text,
    pub chains: Seq<ChainView>,
}

pub open spec fn chain_views(v: Seq<Chain>) -> Seq<ChainView> {
    v.map_values(|c: Chain| c@)
}

impl View for Table {
    type V = TableView;

    open spec fn view(&self) -> TableView {
        TableView { family: self.family, name: self.name@, chains: chain_views(self.chains@) }
    }
}

pub open spec fn table_views(v: Seq<Table>) -> Seq<TableView> {
    v.map_values(|t: Table| t@)
}

// ---------- what a ruleset decides ----------
/// The address family of a packet.
pub enum Net {
    V4,
    V6,
}

/// The transport of a packet.
pub enum Transport {
    Tcp,
    Udp,
    Other,
}

/// What the rules can tell of a packet.
pub struct Packet {
    pub net: Net,
    pub transport: Transport,
    pub src: int,
    pub dst: int,
    pub dport: int,
    /// The user that owns the sending socket.
    pub uid: int,
    /// The packet leaves through the loopback interface.
    pub out_lo: bool,
    /// The packet belongs to a connection that is being tracked.
    pub established: bool,
    /// Of the flags FIN, SYN, RST and ACK exactly SYN is set.
    pub syn: bool,
}

/// Whether an address lies in a block.
pub open spec fn in_net(c: Cidr, a: int) -> bool {
    a / (pow2((32 - c.bits) as nat) as int) == c.net as int / (pow2((32 - c.bits) as nat) as int)
}

/// Whether an address lies in one of the blocks.
pub open spec fn in_nets(nets: Seq<Cidr>, a: int) -> bool {
    exists|i: int| 0 <= i < nets.len() && in_net(#[trigger] nets[i], a)
}

pub open spec fn is_proto(p: Proto, t: Transport) -> bool {
    match p {
        Proto::Tcp => t is Tcp,
        Proto::Udp => t is Udp,
    }
}

/// Whether a port is one of a list.
pub open spec fn one_of(ports: Seq<u16>, port: int) -> bool {
    exists|i: int| 0 <= i < ports.len() && ports[i] == port
}

/// Whether a packet meets a condition.
pub open spec fn meets(c: CondView, p: Packet) -> bool {
    match c {
        CondView::Uid(uids) => exists|i: int| 0 <= i < uids.len() && uids[i] == p.uid,
        CondView::Dest(negated, nets) => p.net is V4 && (in_nets(nets, p.dst) != negated),
        CondView::Source(net) => p.net is V4 && in_net(net, p.src),
        CondView::OutLoopback => p.out_lo,
        CondView::Established => p.established,
        CondView::Port(proto, negated, ports) => is_proto(proto, p.transport) && (one_of(
            ports,
            p.dport,
        ) != negated),
        CondView::FreshTcp => p.transport is Tcp && p.syn,
    }
}

/// Whether a packet meets all the conditions of a rule.
pub open spec fn meets_all(c: Seq<CondView>, p: Packet) -> bool
    decreases c.len(),
{
    if c.len() == 0 {
        true
    } else {
        meets(c[0], p) && meets_all(c.skip(1), p)
    }
}

/// Whether a line is a rule that applies to a packet.
pub open spec fn applies(l: LineView, p: Packet) -> bool {
    match l {
        LineView::Comment(_) => false,
        LineView::Rule(c, _) => meets_all(c, p),
    }
}

/// What the first rule that applies does with a packet; `Return` where none does. Every action
/// ends the chain.
pub open spec fn decided(lines: Seq<LineView>, p: Packet) -> Act
    decreases lines.len(),
{
    if lines.len() == 0 {
        Act::Return
    } else if applies(lines[0], p) {
        lines[0]->Rule_1
    } else {
        decided(lines.skip(1), p)
    }
}

/// What a chain does with a packet: the policy stands in where the rules return.
pub open spec fn verdict(c: ChainView, p: Packet) -> Act {
    match decided(c.lines, p) {
        Act::Return => match c.policy {
            Policy::Accept => Act::Accept,
            Policy::Drop => Act::Drop,
        },
        a => a,
    }
}

/// The loopback address 127.0.0.1.
pub const LOCALHOST: u32 = 0x7f00_0001;

/// A packet after the address translation that a chain decided on.
pub open spec fn translated(p: Packet, a: Act) -> Packet {
    match a {
        Act::Redirect(port) => Packet { dst: LOCALHOST as int, dport: port as int, ..p },
        Act::Dnat(addr, port) => Packet { dst: addr as int, dport: port as int, ..p },
        _ => p,
    }
}

// ---------- reasoning about what a ruleset decides ----------
pub proof fn lemma_one(c: CondView, p: Packet)
    ensures
        meets_all(seq![c], p) == meets(c, p),
{
    assert(seq![c].skip(1) =~= seq![]);
    assert(meets_all(seq![], p));
}

pub proof fn lemma_decided_at(lines: Seq<LineView>, p: Packet, i: int)
    requires
        0 <= i <= lines.len(),
        forall|j: int| 0 <= j < i ==> !applies(#[trigger] lines[j], p),
    ensures
        decided(lines, p) == decided(lines.skip(i), p),
    decreases i,
{
    if i == 0 {
        assert(lines.skip(0) =~= lines);
    } else {
        lemma_decided_at(lines.skip(1), p, i - 1);
        assert(lines.skip(1).skip(i - 1) =~= lines.skip(i));
        assert(!applies(lines[0], p));
    }
}

/// The first rule that applies decides.
pub proof fn lemma_first(lines: Seq<LineView>, p: Packet, i: int)
    requires
        0 <= i < lines.len(),
        forall|j: int| 0 <= j < i ==> !applies(#[trigger] lines[j], p),
        applies(lines[i], p),
    ensures
        decided(lines, p) == lines[i]->Rule_1,
{
    lemma_decided_at(lines, p, i);
    assert(lines.skip(i)[0] == lines[i]);
}

/// No rule applies: the chain's policy decides.
pub proof fn lemma_none(lines: Seq<LineView>, p: Packet)
    requires
        forall|j: int| 0 <= j < lines.len() ==> !applies(#[trigger] lines[j], p),
    ensures
        decided(lines, p) == Act::Return,
{
    lemma_decided_at(lines, p, lines.len() as int);
}

/// A condition on a single port.
pub proof fn lemma_single_port(proto: Proto, negated: bool, a: u16, p: Packet)
    ensures
        meets(CondView::Port(proto, negated, seq![a]), p) == (is_proto(proto, p.transport)
            && ((p.dport == a) != negated)),
{
    let ports = seq![a];
    assert(ports[0] == a);
    assert(one_of(ports, p.dport) == (p.dport == a));
}

pub proof fn lemma_in_net(c: Cidr, a: int, size: int)
    requires
        size > 0,
        size == pow2((32 - c.bits) as nat),
    ensures
        in_net(c, a) == (a / size == c.net as int / size),
{
}

// ---------- how a ruleset is written ----------
pub open spec fn address_text(a: u32) -> Text {
    decimal(a as nat / 0x100_0000) + "."@ + decimal(a as nat / 0x1_0000 % 0x100) + "."@ + decimal(
        a as nat / 0x100 % 0x100,
    ) + "."@ + decimal(a as nat % 0x100)
}

pub open spec fn cidr_text(c: Cidr) -> Text {
    address_text(c.net) + "/"@ + decimal(c.bits as nat)
}

pub open spec fn cidr_list(v: Seq<Cidr>) -> Text
    decreases v.len(),
{
    if v.len() == 0 {
        seq![]
    } else if v.len() == 1 {
        cidr_text(v[0])
    } else {
        cidr_list(v.drop_last()) + ", "@ + cidr_text(v.last())
    }
}

pub open spec fn number_list(v: Seq<nat>) -> Text
    decreases v.len(),
{
    if v.len() == 0 {
        seq![]
    } else if v.len() == 1 {
        decimal(v[0])
    } else {
        number_list(v.drop_last()) + ", "@ + decimal(v.last())
    }
}

pub open spec fn nats_of_uids(v: Seq<u32>) -> Seq<nat> {
    v.map_values(|u: u32| u as nat)
}

pub open spec fn nats_of_ports(v: Seq<u16>) -> Seq<nat> {
    v.map_values(|u: u16| u as nat)
}

/// A list in braces.
pub open spec fn braced(t: Text) -> Text {
    "{ "@ + t + " }"@
}

pub open spec fn not_text(negated: bool) -> Text {
    if negated {
        "!= "@
    } else {
        ""@
    }
}

pub open spec fn proto_text(p: Proto) -> Text {
    match p {
        Proto::Tcp => "tcp"@,
        Proto::Udp => "udp"@,
    }
}

/// A condition as it is written, with the blank behind it. One block or port stands by itself, a
/// list of them in braces.
pub open spec fn cond_text(c: CondView) -> Text {
    match c {
        CondView::Uid(uids) => "meta skuid "@ + braced(number_list(nats_of_uids(uids))) + " "@,
        CondView::Dest(negated, nets) => "ip daddr "@ + not_text(negated) + (if nets.len() == 1 {
            cidr_list(nets)
        } else {
            braced(cidr_list(nets))
        }) + " "@,
        CondView::Source(net) => "ip saddr "@ + cidr_text(net) + " "@,
        CondView::OutLoopback => "oif \"lo\" "@,
        CondView::Established => "ct state established,related "@,
        CondView::Port(proto, negated, ports) => proto_text(proto) + " dport "@ + not_text(negated)
            + (if ports.len() == 1 {
            number_list(nats_of_ports(ports))
        } else {
            braced(number_list(nats_of_ports(ports)))
        }) + " "@,
        CondView::FreshTcp => "tcp flags & (fin|syn|rst|ack) == syn "@,
    }
}

pub open spec fn conds_text(c: Seq<CondView>) -> Text
    decreases c.len(),
{
    if c.len() == 0 {
        seq![]
    } else {
        conds_text(c.drop_last()) + cond_text(c.last())
    }
}

pub open spec fn act_text(a: Act) -> Text {
    match a {
        Act::Return => "return"@,
        Act::Accept => "accept"@,
        Act::Drop => "drop"@,
        Act::Redirect(port) => "redirect to :"@ + decimal(port as nat),
        Act::Dnat(addr, port) => "dnat to "@ + address_text(addr) + ":"@ + decimal(port as nat),
        Act::Masquerade => "masquerade"@,
    }
}

pub open spec fn line_text(l: LineView) -> Text {
    match l {
        LineView::Comment(s) => "\t\t# "@ + s + "\n"@,
        LineView::Rule(c, a) => "\t\t"@ + conds_text(c) + act_text(a) + "\n"@,
    }
}

pub open spec fn lines_text(v: Seq<LineView>) -> Text
    decreases v.len(),
{
    if v.len() == 0 {
        seq![]
    } else {
        lines_text(v.drop_last()) + line_text(v.last())
    }
}

pub open spec fn kind_text(k: Kind) -> Text {
    match k {
        Kind::Nat => "nat"@,
        Kind::Filter => "filter"@,
    }
}

pub open spec fn hook_text(h: Hook) -> Text {
    match h {
        Hook::Input => "input"@,
        Hook::Forward => "forward"@,
        Hook::Output => "output"@,
        Hook::Prerouting => "prerouting"@,
        Hook::Postrouting => "postrouting"@,
    }
}

pub open spec fn policy_text(p: Policy) -> Text {
    match p {
        Policy::Accept => "accept"@,
        Policy::Drop => "drop"@,
    }
}

pub open spec fn signed_text(n: int) -> Text {
    if n < 0 {
        "-"@ + decimal((-n) as nat)
    } else {
        decimal(n as nat)
    }
}

pub open spec fn chain_text(c: ChainView) -> Text {
    "\tchain "@ + c.name + " {\n\t\ttype "@ + kind_text(c.kind) + " hook "@ + hook_text(c.hook)
        + " priority "@ + signed_text(c.priority) + "; policy "@ + policy_text(c.policy) + ";\n"@
        + lines_text(c.lines) + "\t}\n"@
}

pub open spec fn chains_text(v: Seq<ChainView>) -> Text
    decreases v.len(),
{
    if v.len() == 0 {
        seq![]
    } else {
        chains_text(v.drop_last()) + chain_text(v.last())
    }
}

pub open spec fn family_text(f: Family) -> Text {
    match f {
        Family::Inet => "inet"@,
        Family::Ip => "ip"@,
        Family::Ip6 => "ip6"@,
    }
}

pub open spec fn table_text(t: TableView) -> Text {
    "table "@ + family_text(t.family) + " "@ + t.name + " {\n"@ + chains_text(t.chains) + "}\n"@
}

pub open spec fn tables_text(v: Seq<TableView>) -> Text
    decreases v.len(),
{
    if v.len() == 0 {
        seq![]
    } else {
        tables_text(v.drop_last()) + table_text(v.last())
    }
}

fn write_address(a: u32) -> (s: String)
    ensures
        s@ == address_text(a),
{
    dec((a / 0x100_0000) as u64).concat(".").concat(dec((a / 0x1_0000 % 0x100) as u64).as_str()).concat(
        ".",
    ).concat(dec((a / 0x100 % 0x100) as u64).as_str()).concat(".").concat(
        dec((a % 0x100) as u64).as_str(),
    )
}

fn write_cidr(c: Cidr) -> (s: String)
    ensures
        s@ == cidr_text(c),
{
    write_address(c.net).concat("/").concat(dec(c.bits as u64).as_str())
}

fn write_cidrs(v: &Vec<Cidr>) -> (s: String)
    ensures
        s@ == cidr_list(v@),
{
    let mut s = String::new();
    let mut i: usize = 0;
    while i < v.len()
        invariant
            i <= v@.len(),
            s@ == cidr_list(v@.take(i as int)),
        decreases v@.len() - i,
    {
        assert(v@.take(i + 1).drop_last() =~= v@.take(i as int));
        let ghost before = s@;
        if i > 0 {
            s.append(", ");
        }
        s.append(write_cidr(v[i]).as_str());
        assert(i == 0 ==> s@ =~= cidr_text(v@[0]));
        i += 1;
    }
    assert(v@.take(v@.len() as int) =~= v@);
    s
}

fn write_uids(v: &Vec<u32>) -> (s: String)
    ensures
        s@ == number_list(nats_of_uids(v@)),
{
    let mut s = String::new();
    let mut i: usize = 0;
    let ghost all = nats_of_uids(v@);
    while i < v.len()
        invariant
            i <= v@.len(),
            all == nats_of_uids(v@),
            s@ == number_list(all.take(i as int)),
        decreases v@.len() - i,
    {
        assert(all.take(i + 1).drop_last() =~= all.take(i as int));
        if i > 0 {
            s.append(", ");
        }
        s.append(dec(v[i] as u64).as_str());
        assert(i == 0 ==> s@ =~= decimal(all[0]));
        i += 1;
    }
    assert(all.take(v@.len() as int) =~= all);
    s
}

fn write_ports(v: &Vec<u16>) -> (s: String)
    ensures
        s@ == number_list(nats_of_ports(v@)),
{
    let mut s = String::new();
    let mut i: usize = 0;
    let ghost all = nats_of_ports(v@);
    while i < v.len()
        invariant
            i <= v@.len(),
            all == nats_of_ports(v@),
            s@ == number_list(all.take(i as int)),
        decreases v@.len() - i,
    {
        assert(all.take(i + 1).drop_last() =~= all.take(i as int));
        if i > 0 {
            s.append(", ");
        }
        s.append(dec(v[i] as u64).as_str());
        assert(i == 0 ==> s@ =~= decimal(all[0]));
        i += 1;
    }
    assert(all.take(v@.len() as int) =~= all);
    s
}

fn in_braces(t: String) -> (s: String)
    ensures
        s@ == braced(t@),
{
    "{ ".to_owned().concat(t.as_str()).concat(" }")
}

fn write_not(negated: bool) -> (s: &'static str)
    ensures
        s@ == not_text(negated),
{
    if negated {
        "!= "
    } else {
        ""
    }
}

fn write_cond(c: &Cond) -> (s: String)
    ensures
        s@ == cond_text(c@),
{
    match c {
        Cond::Uid(uids) => "meta skuid ".to_owned().concat(
            in_braces(write_uids(uids)).as_str(),
        ).concat(" "),
        Cond::Dest(negated, nets) => {
            let list = write_cidrs(nets);
            let list = if nets.len() == 1 {
                list
            } else {
                in_braces(list)
            };
            "ip daddr ".to_owned().concat(write_not(*negated)).concat(list.as_str()).concat(" ")
        },
        Cond::Source(net) => "ip saddr ".to_owned().concat(write_cidr(*net).as_str()).concat(" "),
        Cond::OutLoopback => "oif \"lo\" ".to_owned(),
        Cond::Established => "ct state established,related ".to_owned(),
        Cond::Port(proto, negated, ports) => {
            let list = write_ports(ports);
            let list = if ports.len() == 1 {
                list
            } else {
                in_braces(list)
            };
            let name = match proto {
                Proto::Tcp => "tcp",
                Proto::Udp => "udp",
            };
            name.to_owned().concat(" dport ").concat(write_not(*negated)).concat(
                list.as_str(),
            ).concat(" ")
        },
        Cond::FreshTcp => "tcp flags & (fin|syn|rst|ack) == syn ".to_owned(),
    }
}

fn write_conds(v: &Vec<Cond>) -> (s: String)
    ensures
        s@ == conds_text(conds(v@)),
{
    let mut s = String::new();
    let mut i: usize = 0;
    let ghost all = conds(v@);
    while i < v.len()
        invariant
            i <= v@.len(),
            all == conds(v@),
            s@ == conds_text(all.take(i as int)),
        decreases v@.len() - i,
    {
        assert(all.take(i + 1).drop_last() =~= all.take(i as int));
        s.append(write_cond(&v[i]).as_str());
        i += 1;
    }
    assert(all.take(v@.len() as int) =~= all);
    s
}

fn write_act(a: Act) -> (s: String)
    ensures
        s@ == act_text(a),
{
    match a {
        Act::Return => "return".to_owned(),
        Act::Accept => "accept".to_owned(),
        Act::Drop => "drop".to_owned(),
        Act::Redirect(port) => "redirect to :".to_owned().concat(dec(port as u64).as_str()),
        Act::Dnat(addr, port) => "dnat to ".to_owned().concat(
            write_address(addr).as_str(),
        ).concat(":").concat(dec(port as u64).as_str()),
        Act::Masquerade => "masquerade".to_owned(),
    }
}

fn write_line(l: &Line) -> (s: String)
    ensures
        s@ == line_text(l@),
{
    match l {
        Line::Comment(t) => "\t\t# ".to_owned().concat(t.as_str()).concat("\n"),
        Line::Rule(c, a) => "\t\t".to_owned().concat(write_conds(c).as_str()).concat(
            write_act(*a).as_str(),
        ).concat("\n"),
    }
}

fn write_lines(v: &Vec<Line>) -> (s: String)
    ensures
        s@ == lines_text(line_views(v@)),
{
    let mut s = String::new();
    let mut i: usize = 0;
    let ghost all = line_views(v@);
    while i < v.len()
        invariant
            i <= v@.len(),
            all == line_views(v@),
            s@ == lines_text(all.take(i as int)),
        decreases v@.len() - i,
    {
        assert(all.take(i + 1).drop_last() =~= all.take(i as int));
        s.append(write_line(&v[i]).as_str());
        i += 1;
    }
    assert(all.take(v@.len() as int) =~= all);
    s
}

fn write_signed(n: i32) -> (s: String)
    ensures
        s@ == signed_text(n as int),
{
    if n < 0 {
        "-".to_owned().concat(dec((-(n as i64)) as u64).as_str())
    } else {
        dec(n as u64)
    }
}

fn write_chain(c: &Chain) -> (s: String)
    ensures
        s@ == chain_text(c@),
{
    let kind = match c.kind {
        Kind::Nat => "nat",
        Kind::Filter => "filter",
    };
    let hook = match c.hook {
        Hook::Input => "input",
        Hook::Forward => "forward",
        Hook::Output => "output",
        Hook::Prerouting => "prerouting",
        Hook::Postrouting => "postrouting",
    };
    let policy = match c.policy {
        Policy::Accept => "accept",
        Policy::Drop => "drop",
    };
    "\tchain ".to_owned().concat(c.name.as_str()).concat(" {\n\t\ttype ").concat(kind).concat(
        " hook ",
    ).concat(hook).concat(" priority ").concat(write_signed(c.priority).as_str()).concat(
        "; policy ",
    ).concat(policy).concat(";\n").concat(write_lines(&c.lines).as_str()).concat("\t}\n")
}

fn write_chains(v: &Vec<Chain>) -> (s: String)
    ensures
        s@ == chains_text(chain_views(v@)),
{
    let mut s = String::new();
    let mut i: usize = 0;
    let ghost all = chain_views(v@);
    while i < v.len()
        invariant
            i <= v@.len(),
            all == chain_views(v@),
            s@ == chains_text(all.take(i as int)),
        decreases v@.len() - i,
    {
        assert(all.take(i + 1).drop_last() =~= all.take(i as int));
        s.append(write_chain(&v[i]).as_str());
        i += 1;
    }
    assert(all.take(v@.len() as int) =~= all);
    s
}

fn write_table(t: &Table) -> (s: String)
    ensures
        s@ == table_text(t@),
{
    let family = match t.family {
        Family::Inet => "inet",
        Family::Ip => "ip",
        Family::Ip6 => "ip6",
    };
    "table ".to_owned().concat(family).concat(" ").concat(t.name.as_str()).concat(" {\n").concat(
        write_chains(&t.chains).as_str(),
    ).concat("}\n")
}

/// Writes tables the way `nft -f` reads them.
pub fn write_tables(v: &Vec<Table>) -> (s: String)
    ensures
        s@ == tables_text(table_views(v@)),
{
    let mut s = String::new();
    let mut i: usize = 0;
    let ghost all = table_views(v@);
    while i < v.len()
        invariant
            i <= v@.len(),
            all == table_views(v@),
            s@ == tables_text(all.take(i as int)),
        decreases v@.len() - i,
    {
        assert(all.take(i + 1).drop_last() =~= all.take(i as int));
        s.append(write_table(&v[i]).as_str());
        i += 1;
    }
    assert(all.take(v@.len() as int) =~= all);
    s
}

// ---------- how rules are written, over all rules ----------
/// An address is written as its four bytes in decimal, from the highest, with a point between two.
pub proof fn law_addresses_are_dotted(addr: u32, a: u8, b: u8, c: u8, d: u8)
    requires
        addr == 0x100_0000 * a + 0x1_0000 * b + 0x100 * c + d,
    ensures
        address_text(addr) == decimal(a as nat) + "."@ + decimal(b as nat) + "."@ + decimal(c as nat)
            + "."@ + decimal(d as nat),
{
    assert(addr / 0x100_0000 == a && addr / 0x1_0000 % 0x100 == b && addr / 0x100 % 0x100 == c
        && addr % 0x100 == d) by (bit_vector)
        requires
            addr == 0x100_0000 * a + 0x1_0000 * b + 0x100 * c + d,
    ;
}

/// Numbers and blocks of a list are all written, in their order, with a comma between two.
pub proof fn law_lists_are_written_whole(numbers: Seq<nat>, nets: Seq<Cidr>)
    ensures
        number_list(numbers) == joined(numbers.map_values(|n: nat| decimal(n)), ", "@),
        cidr_list(nets) == joined(
            nets.map_values(|c: Cidr| address_text(c.net) + "/"@ + decimal(c.bits as nat)),
            ", "@,
        ),
{
    lemma_number_list(numbers);
    lemma_cidr_list(nets);
}

proof fn lemma_number_list(v: Seq<nat>)
    ensures
        number_list(v) == joined(v.map_values(|n: nat| decimal(n)), ", "@),
    decreases v.len(),
{
    let t = v.map_values(|n: nat| decimal(n));
    if v.len() > 1 {
        lemma_number_list(v.drop_last());
        assert(t.drop_last() =~= v.drop_last().map_values(|n: nat| decimal(n)));
    }
}

proof fn lemma_cidr_list(v: Seq<Cidr>)
    ensures
        cidr_list(v) == joined(
            v.map_values(|c: Cidr| address_text(c.net) + "/"@ + decimal(c.bits as nat)),
            ", "@,
        ),
    decreases v.len(),
{
    let t = v.map_values(|c: Cidr| address_text(c.net) + "/"@ + decimal(c.bits as nat));
    if v.len() > 1 {
        lemma_cidr_list(v.drop_last());
        assert(t.drop_last() =~= v.drop_last().map_values(
            |c: Cidr| address_text(c.net) + "/"@ + decimal(c.bits as nat),
        ));
    }
}

/// The users of a rule are all written, in braces.
pub proof fn law_every_user_is_written(uids: Seq<u32>)
    ensures
        cond_text(CondView::Uid(uids)) == "meta skuid "@ + ("{ "@ + joined(
            uids.map_values(|u: u32| decimal(u as nat)),
            ", "@,
        ) + " }"@) + " "@,
{
    let n = nats_of_uids(uids);
    law_lists_are_written_whole(n, seq![]);
    assert(n.map_values(|x: nat| decimal(x)) =~= uids.map_values(|u: u32| decimal(u as nat)));
}

/// A port or a block that stands alone is written without braces, several are written in them, and a
/// condition that is turned round says so.
pub proof fn law_conditions_are_written(
    negated: bool,
    proto: Proto,
    ports: Seq<u16>,
    nets: Seq<Cidr>,
    net: Cidr,
)
    ensures
        ({
            let no = if negated {
                "!= "@
            } else {
                ""@
            };
            let p = joined(ports.map_values(|n: u16| decimal(n as nat)), ", "@);
            let d = joined(
                nets.map_values(|c: Cidr| address_text(c.net) + "/"@ + decimal(c.bits as nat)),
                ", "@,
            );
            let name = if proto == Proto::Tcp {
                "tcp"@
            } else {
                "udp"@
            };
            &&& cond_text(CondView::Port(proto, negated, ports)) == name + " dport "@ + no + (
            if ports.len() == 1 {
                p
            } else {
                "{ "@ + p + " }"@
            }) + " "@
            &&& cond_text(CondView::Dest(negated, nets)) == "ip daddr "@ + no + (if nets.len()
                == 1 {
                d
            } else {
                "{ "@ + d + " }"@
            }) + " "@
            &&& cond_text(CondView::Source(net)) == "ip saddr "@ + (address_text(net.net) + "/"@
                + decimal(net.bits as nat)) + " "@
            &&& cond_text(CondView::OutLoopback) == "oif \"lo\" "@
            &&& cond_text(CondView::Established) == "ct state established,related "@
            &&& cond_text(CondView::FreshTcp) == "tcp flags & (fin|syn|rst|ack) == syn "@
        }),
{
    let n = nats_of_ports(ports);
    law_lists_are_written_whole(n, nets);
    assert(n.map_values(|x: nat| decimal(x)) =~= ports.map_values(|u: u16| decimal(u as nat)));
}

/// A rule is written with all its conditions, in their order, and then what it does, on a line of
/// its own; the lines, chains and tables of a ruleset are written one behind the other.
pub proof fn law_rules_are_written_whole(
    conds: Seq<CondView>,
    cond: CondView,
    act: Act,
    lines: Seq<LineView>,
    tables: Seq<TableView>,
    table: TableView,
)
    ensures
        conds_text(Seq::<CondView>::empty()).len() == 0,
        conds_text(conds.push(cond)) == conds_text(conds) + cond_text(cond),
        line_text(LineView::Rule(conds, act)) == "\t\t"@ + conds_text(conds) + act_text(act) + "\n"@,
        lines_text(Seq::<LineView>::empty()).len() == 0,
        lines_text(lines.push(LineView::Rule(conds, act))) == lines_text(lines) + line_text(
            LineView::Rule(conds, act),
        ),
        tables_text(Seq::<TableView>::empty()).len() == 0,
        tables_text(tables.push(table)) == tables_text(tables) + table_text(table),
{
    assert(conds.push(cond).drop_last() =~= conds);
    assert(lines.push(LineView::Rule(conds, act)).drop_last() =~= lines);
    assert(tables.push(table).drop_last() =~= tables);
}

/// What a rule does is written in one word, with the port or the address and the port where it
/// redirects.
pub proof fn law_acts_are_written(addr: u32, port: u16, n: int)
    ensures
        act_text(Act::Return) == "return"@,
        act_text(Act::Accept) == "accept"@,
        act_text(Act::Drop) == "drop"@,
        act_text(Act::Masquerade) == "masquerade"@,
        act_text(Act::Redirect(port)) == "redirect to :"@ + decimal(port as nat),
        act_text(Act::Dnat(addr, port)) == "dnat to "@ + address_text(addr) + ":"@ + decimal(
            port as nat,
        ),
        n >= 0 ==> signed_text(n) == decimal(n as nat),
        n < 0 ==> signed_text(n) == "-"@ + decimal((-n) as nat),
        policy_text(Policy::Accept) == "accept"@,
        policy_text(Policy::Drop) == "drop"@,
{
}

/// The first rule that applies decides, and a rule applies where all its conditions are met.
pub proof fn law_the_first_rule_decides(lines: Seq<LineView>, p: Packet, i: int)
    ensures
        (forall|j: int| 0 <= j < lines.len() ==> !applies(#[trigger] lines[j], p)) ==> decided(
            lines,
            p,
        ) == Act::Return,
        0 <= i < lines.len() && applies(lines[i], p) && (forall|j: int|
            0 <= j < i ==> !applies(#[trigger] lines[j], p)) ==> decided(lines, p)
            == lines[i]->Rule_1,
{
    if 0 <= i < lines.len() && applies(lines[i], p) && (forall|j: int|
        0 <= j < i ==> !applies(#[trigger] lines[j], p)) {
        lemma_decided_at(lines, p, i);
        assert(lines.skip(i)[0] == lines[i]);
    }
    if forall|j: int| 0 <= j < lines.len() ==> !applies(#[trigger] lines[j], p) {
        lemma_decided_at(lines, p, lines.len() as int);
    }
}

} // verus!
