//! The network panel: the interfaces with what they carry, and the sockets that listen.
use vstd::prelude::*;
use vstd::string::StringExecFns;

use crate::json::{lookup, or_text, pair_texts};
use crate::number::{
    dec, decimal, digit_run, digits_value, law_no_other_unsigned_numbers, law_unsigned_numbers, numeral, parse_signed,
    parse_unsigned, signed_value, unsigned_value,
};
use crate::panel::{is_inert, is_meta};
use crate::order::{Ranked, law_sorted, ordered, sort, sorted};
use crate::plan::{Command, cmd, command};
use crate::reading::{
    blank, lacks, law_parted, law_pieces, law_replaced_characters, law_text_pieces, law_trimmed,
};
use crate::text::{
    Class, Text, alnum, before, begins, carries, chars_of, digit, ends_with, finishes, is_alnum,
    is_digit, lemma_index_of, lemma_match_of, lemma_precedes_total, lemma_precedes_transitive, line_texts,
    lines, occurs_at, opt_pair, opt_text, parted, parted_last, pieces, precedes, replace, replaced,
    rsplit_once, same, slice, split_char, split_once, split_text, split_words, starts_with,
    strip_end, strip_start, text_pieces, texts, trim, trim_of, trimmed, words,
};

verus! {

// ---------- interfaces ----------
/// An interface. Rates are in bytes per second, totals in bytes since the start; the speed of the
/// link is in Mbit/s, and -1 where the kernel does not say.
pub struct Iface {
    pub name: String,
    pub ip: String,
    pub up: bool,
    pub rx_bps: u64,
    pub tx_bps: u64,
    pub rx_total: u64,
    pub tx_total: u64,
    pub link_mbps: i64,
    pub kind: String,
}

/// The model of an [`Iface`].
#[verifier::ext_equal]
pub struct IfaceView {
    pub name: Text,
    pub ip: Text,
    pub up: bool,
    pub rx_bps: u64,
    pub tx_bps: u64,
    pub rx_total: u64,
    pub tx_total: u64,
    pub link_mbps: i64,
    pub kind: Text,
}

impl View for Iface {
    type V = IfaceView;

    open spec fn view(&self) -> IfaceView {
        IfaceView {
            name: self.name@,
            ip: self.ip@,
            up: self.up,
            rx_bps: self.rx_bps,
            tx_bps: self.tx_bps,
            rx_total: self.rx_total,
            tx_total: self.tx_total,
            link_mbps: self.link_mbps,
            kind: self.kind@,
        }
    }
}

pub open spec fn iface_views(v: Seq<Iface>) -> Seq<IfaceView> {
    v.map_values(|i: Iface| i@)
}

impl Ranked for Iface {
    /// Connected interfaces come first, then those whose name comes first.
    open spec fn ranks(self, other: Self) -> bool {
        (self.up && !other.up) || (self.up == other.up && precedes(self.name@, other.name@))
    }

    proof fn weak_order(a: Self, b: Self, c: Self) {
        lemma_precedes_total(a.name@, b.name@);
        lemma_precedes_total(a.name@, c.name@);
        lemma_precedes_total(b.name@, c.name@);
        if precedes(a.name@, c.name@) && precedes(c.name@, b.name@) {
            lemma_precedes_transitive(a.name@, c.name@, b.name@);
        }
    }

    fn goes_before(&self, other: &Self) -> (r: bool) {
        (self.up && !other.up) || (self.up == other.up && before(
            self.name.as_str(),
            other.name.as_str(),
        ))
    }
}

/// Where a text first stands in a list; the length of the list where it does not.
pub open spec fn place_of(v: Seq<Text>, t: Text) -> nat
    decreases v.len(),
{
    if v.len() == 0 {
        0
    } else if v[0] == t {
        0
    } else {
        1 + place_of(v.skip(1), t)
    }
}

/// The interface and the address of a line of `ip -o -4 addr show`.
pub open spec fn address_of(line: Text) -> Option<(Text, Text)> {
    let f = words(line);
    let at = place_of(f, "inet"@);
    if at + 1 < f.len() {
        Some((f[1], pieces(f[at as int + 1], '/')[0]))
    } else {
        None
    }
}

/// The interfaces of the lines, in their order, each with its first address.
pub open spec fn addresses_of(v: Seq<Text>) -> Seq<(Text, Text)>
    decreases v.len(),
{
    if v.len() == 0 {
        seq![]
    } else {
        match address_of(v.last()) {
            Some(p) => if lookup(addresses_of(v.drop_last()), p.0) is None {
                addresses_of(v.drop_last()).push(p)
            } else {
                addresses_of(v.drop_last())
            },
            None => addresses_of(v.drop_last()),
        }
    }
}

fn read_address(line: &str) -> (r: Option<(String, String)>)
    ensures
        opt_pair(r) == address_of(line@),
{
    let w = split_words(line);
    let ghost f = words(line@);
    let n: usize = w.len();
    let mut i: usize = 0;
    assert(f.skip(0) =~= f);
    while i < n && !same(w[i].as_str(), "inet")
        invariant
            i <= n == w@.len(),
            f == texts(w@),
            f == words(line@),
            place_of(f, "inet"@) == i + place_of(f.skip(i as int), "inet"@),
        decreases n - i,
    {
        assert(f.skip(i as int)[0] == w@[i as int]@);
        assert(f.skip(i as int).skip(1) =~= f.skip(i + 1));
        i += 1;
    }
    assert(f.len() == n);
    if i < n {
        assert(f.skip(i as int)[0] == w@[i as int]@);
    } else {
        assert(f.skip(i as int).len() == 0);
    }
    assert(place_of(f, "inet"@) == i);
    if n - i > 1 {
        assert(f[1] == w@[1]@);
        assert(f[i + 1] == w@[i + 1]@);
        let parts = split_char(w[i + 1].as_str(), '/');
        proof {
            lemma_index_of(w@[i + 1]@, '/');
            assert(texts(parts@)[0] == parts@[0]@);
        }
        Some((w[1].clone(), parts[0].clone()))
    } else {
        None
    }
}

/// The interfaces that have an IPv4 address, each with its first one.
pub fn ipv4_map(out: &str) -> (r: Vec<(String, String)>)
    ensures
        pair_texts(r@) == addresses_of(line_texts(out@)),
{
    let all = lines(out);
    let ghost t = line_texts(out@);
    let mut r: Vec<(String, String)> = Vec::new();
    let mut i: usize = 0;
    assert(pair_texts(r@) =~= addresses_of(t.take(0)));
    while i < all.len()
        invariant
            i <= all@.len(),
            t == texts(all@),
            t == line_texts(out@),
            pair_texts(r@) == addresses_of(t.take(i as int)),
        decreases all@.len() - i,
    {
        assert(t.take(i + 1).drop_last() =~= t.take(i as int));
        assert(t.take(i + 1).last() == all@[i as int]@);
        let ghost before = r@;
        match read_address(all[i].as_str()) {
            Some(p) => {
                if find_address(&r, p.0.as_str()).is_none() {
                    r.push(p);
                    assert(pair_texts(r@) =~= pair_texts(before).push((p.0@, p.1@)));
                }
            },
            None => {},
        }
        i += 1;
    }
    assert(t.take(all@.len() as int) =~= t);
    r
}

fn find_address(v: &Vec<(String, String)>, name: &str) -> (r: Option<String>)
    ensures
        opt_text(r) == lookup(pair_texts(v@), name@),
{
    let ghost all = pair_texts(v@);
    let mut i: usize = 0;
    assert(all.skip(0) =~= all);
    while i < v.len()
        invariant
            i <= v@.len(),
            all == pair_texts(v@),
            lookup(all.skip(i as int), name@) == lookup(all, name@),
        decreases v@.len() - i,
    {
        assert(all.skip(i as int)[0] == all[i as int]);
        if same(v[i].0.as_str(), name) {
            return Some(v[i].1.clone());
        }
        assert(all.skip(i as int).skip(1) =~= all.skip(i + 1));
        i += 1;
    }
    assert(lookup(all.skip(i as int), name@) is None);
    None
}

pub open spec fn kind_text_of(wireless: bool, device: bool) -> Text {
    if wireless {
        "wireless"@
    } else if device {
        "ethernet"@
    } else {
        "virtual"@
    }
}

/// The kind of an interface: whether it has a wireless side, and whether it has a device.
pub fn kind_of(wireless: bool, device: bool) -> (s: String)
    ensures
        s@ == kind_text_of(wireless, device),
{
    if wireless {
        "wireless".to_owned()
    } else if device {
        "ethernet".to_owned()
    } else {
        "virtual".to_owned()
    }
}

/// What an interface has carried, in bytes.
pub struct Counter {
    pub name: String,
    pub rx: u64,
    pub tx: u64,
}

/// The model of a [`Counter`].
#[verifier::ext_equal]
pub struct CounterView {
    pub name: Text,
    pub rx: u64,
    pub tx: u64,
}

impl View for Counter {
    type V = CounterView;

    open spec fn view(&self) -> CounterView {
        CounterView { name: self.name@, rx: self.rx, tx: self.tx }
    }
}

pub open spec fn counter_views(v: Seq<Counter>) -> Seq<CounterView> {
    v.map_values(|c: Counter| c@)
}

pub open spec fn number_or_zero(t: Text) -> u64 {
    match unsigned_value(t, u64::MAX as nat) {
        Some(n) => n as u64,
        None => 0,
    }
}

/// The counters of a line of `/proc/net/dev`: behind the name and a colon, the bytes received stand
/// first and the bytes sent ninth. Loopback is left out.
pub open spec fn counter_of(line: Text) -> Option<CounterView> {
    match parted(trimmed(line), ':') {
        Some((head, rest)) => {
            let name = trimmed(head);
            let f = words(rest);
            if name.len() == 0 || name == "lo"@ || f.len() < 9 {
                None
            } else {
                Some(CounterView { name, rx: number_or_zero(f[0]), tx: number_or_zero(f[8]) })
            }
        },
        None => None,
    }
}

pub open spec fn counters_of(v: Seq<Text>) -> Seq<CounterView>
    decreases v.len(),
{
    if v.len() == 0 {
        seq![]
    } else {
        match counter_of(v.last()) {
            Some(c) => counters_of(v.drop_last()).push(c),
            None => counters_of(v.drop_last()),
        }
    }
}

fn read_number(t: &str) -> (n: u64)
    ensures
        n == number_or_zero(t@),
{
    match parse_unsigned(t, u64::MAX) {
        Some(n) => n,
        None => 0,
    }
}

fn read_counter(line: &str) -> (r: Option<Counter>)
    ensures
        (match r {
            Some(c) => Some(c@),
            None => None,
        }) == counter_of(line@),
{
    match split_once(trim(line).as_str(), ':') {
        Some((head, rest)) => {
            let name = trim(head.as_str());
            let w = split_words(rest.as_str());
            let ghost f = words(rest@);
            assert(f == texts(w@) && f.len() == w@.len());
            if name.as_str().is_empty() || same(name.as_str(), "lo") || w.len() < 9 {
                return None;
            }
            assert(f[0] == w@[0]@ && f[8] == w@[8]@);
            Some(Counter { name, rx: read_number(w[0].as_str()), tx: read_number(w[8].as_str()) })
        },
        None => None,
    }
}

/// The counters of the interfaces, out of `/proc/net/dev`.
pub fn counters(dev: &str) -> (r: Vec<Counter>)
    ensures
        counter_views(r@) == counters_of(line_texts(trimmed(dev@))),
{
    let all = lines(trim(dev).as_str());
    let ghost t = line_texts(trimmed(dev@));
    let mut r: Vec<Counter> = Vec::new();
    let mut i: usize = 0;
    assert(counter_views(r@) =~= counters_of(t.take(0)));
    while i < all.len()
        invariant
            i <= all@.len(),
            t == texts(all@),
            t == line_texts(trimmed(dev@)),
            counter_views(r@) == counters_of(t.take(i as int)),
        decreases all@.len() - i,
    {
        assert(t.take(i + 1).drop_last() =~= t.take(i as int));
        assert(t.take(i + 1).last() == all@[i as int]@);
        let ghost before = r@;
        match read_counter(all[i].as_str()) {
            Some(c) => {
                r.push(c);
                assert(counter_views(r@) =~= counter_views(before).push(c@));
            },
            None => {},
        }
        i += 1;
    }
    assert(t.take(all@.len() as int) =~= t);
    r
}

// ---------- rates ----------
/// What an interface had carried at a moment, in nanoseconds.
#[derive(Clone, Copy, PartialEq, Eq, Structural, Debug)]
pub struct Sample {
    pub rx: u64,
    pub tx: u64,
    pub at: u128,
}

/// What an interface has carried since the last look, and how long ago that was.
#[derive(Clone, Copy, PartialEq, Eq, Structural, Debug)]
pub struct Growth {
    pub rx: u64,
    pub tx: u64,
    pub nanos: u128,
}

/// The last sample of each interface.
pub struct Meter {
    pub samples: Vec<(String, Sample)>,
}

/// The sample of an interface, in a list of samples.
pub open spec fn sample_in(v: Seq<(String, Sample)>, name: Text) -> Option<Sample>
    decreases v.len(),
{
    if v.len() == 0 {
        None
    } else if v[0].0@ == name {
        Some(v[0].1)
    } else {
        sample_in(v.skip(1), name)
    }
}

/// The shortest time over which a rate is told, in nanoseconds.
pub const SHORTEST: u128 = 50_000_000;

pub open spec fn less(a: u64, b: u64) -> u64 {
    if a > b {
        (a - b) as u64
    } else {
        0
    }
}

/// What an interface has carried since its last sample, where that is long enough ago.
pub open spec fn growth_since(last: Option<Sample>, rx: u64, tx: u64, now: u128) -> Option<Growth> {
    match last {
        Some(p) => if now > p.at && now - p.at > SHORTEST {
            Some(Growth { rx: less(rx, p.rx), tx: less(tx, p.tx), nanos: (now - p.at) as u128 })
        } else {
            None
        },
        None => None,
    }
}

proof fn lemma_sample_before(v: Seq<(String, Sample)>, p: int, name: Text)
    requires
        0 <= p <= v.len(),
        forall|k: int| 0 <= k < p ==> (#[trigger] v[k]).0@ != name,
    ensures
        sample_in(v, name) == sample_in(v.skip(p), name),
    decreases p,
{
    if p == 0 {
        assert(v.skip(0) =~= v);
    } else {
        assert(v[0].0@ != name);
        lemma_sample_before(v.skip(1), p - 1, name);
        assert(v.skip(1).skip(p - 1) =~= v.skip(p));
    }
}

/// Of two lists that differ in one entry of another name, both give the same for a name.
proof fn lemma_sample_other(a: Seq<(String, Sample)>, b: Seq<(String, Sample)>, p: int, name: Text)
    requires
        0 <= p < a.len(),
        a.len() == b.len(),
        a[p].0@ == b[p].0@,
        a[p].0@ != name,
        forall|k: int| 0 <= k < a.len() && k != p ==> #[trigger] a[k] == b[k],
    ensures
        sample_in(a, name) == sample_in(b, name),
    decreases a.len(),
{
    if p == 0 {
        assert(a.skip(1) =~= b.skip(1));
    } else {
        assert(a[0] == b[0]);
        assert forall|k: int|
            0 <= k < a.skip(1).len() && k != p - 1 implies #[trigger] a.skip(1)[k] == b.skip(1)[k] by {
            assert(a[k + 1] == b[k + 1]);
        }
        lemma_sample_other(a.skip(1), b.skip(1), p - 1, name);
    }
}

proof fn lemma_sample_push(v: Seq<(String, Sample)>, e: (String, Sample), name: Text)
    ensures
        sample_in(v.push(e), name) == match sample_in(v, name) {
            Some(s) => Some(s),
            None => if e.0@ == name {
                Some(e.1)
            } else {
                None
            },
        },
    decreases v.len(),
{
    if v.len() == 0 {
        assert(v.push(e).skip(1) =~= v);
    } else {
        assert(v.push(e).skip(1) =~= v.skip(1).push(e));
        lemma_sample_push(v.skip(1), e, name);
    }
}

/// A meter that differs from another one in one interface.
proof fn lemma_held(m: Meter, before: Meter, name: Text, sample: Sample)
    requires
        sample_in(m.samples@, name) == Some(sample),
        forall|other: Text|
            other != name ==> #[trigger] sample_in(m.samples@, other) == sample_in(
                before.samples@,
                other,
            ),
    ensures
        m@ == before@.insert(name, sample),
{
    let inserted = before@.insert(name, sample);
    assert forall|x: Text| #[trigger] m@.contains_key(x) == inserted.contains_key(x) by {
        if x != name {
            assert(sample_in(m.samples@, x) == sample_in(before.samples@, x));
        }
    }
    assert forall|x: Text| m@.contains_key(x) implies #[trigger] m@[x] == inserted[x] by {
        if x != name {
            assert(sample_in(m.samples@, x) == sample_in(before.samples@, x));
        }
    }
    assert(m@ =~= inserted);
}

impl View for Meter {
    type V = Map<Text, Sample>;

    /// Each interface that was seen, with its last sample.
    open spec fn view(&self) -> Map<Text, Sample> {
        Map::new(
            |name: Text| sample_in(self.samples@, name) is Some,
            |name: Text| sample_in(self.samples@, name)->0,
        )
    }
}

/// The sample of an interface, where it was seen.
pub open spec fn held(m: Map<Text, Sample>, name: Text) -> Option<Sample> {
    if m.contains_key(name) {
        Some(m[name])
    } else {
        None
    }
}

impl Meter {
    /// A meter that has seen nothing.
    pub fn new() -> (m: Meter)
        ensures
            m@ == Map::<Text, Sample>::empty(),
    {
        Meter { samples: Vec::new() }
    }

    /// Takes a sample of an interface and tells what it has carried since the last one. Every other
    /// interface keeps its sample.
    pub fn measure(&mut self, name: &str, rx: u64, tx: u64, now: u128) -> (r: Option<Growth>)
        ensures
            r == growth_since(held(old(self)@, name@), rx, tx, now),
            final(self)@ == old(self)@.insert(name@, Sample { rx, tx, at: now }),
    {
        let ghost v = self.samples@;
        let n: usize = self.samples.len();
        let mut p: usize = 0;
        while p < n && !same(self.samples[p].0.as_str(), name)
            invariant
                p <= n == self.samples@.len(),
                self.samples@ == v,
                forall|k: int| 0 <= k < p ==> (#[trigger] v[k]).0@ != name@,
            decreases n - p,
        {
            p += 1;
        }
        proof {
            lemma_sample_before(v, p as int, name@);
        }
        let sample = Sample { rx, tx, at: now };
        if p < n {
            assert(v.skip(p as int)[0] == v[p as int]);
            let q = self.samples[p].1;
            self.samples[p] = (name.to_owned(), sample);
            proof {
                let w = self.samples@;
                assert forall|other: Text| other != name@ implies #[trigger] sample_in(w, other)
                    == sample_in(v, other) by {
                    lemma_sample_other(v, w, p as int, other);
                }
                lemma_sample_before(w, p as int, name@);
                assert(w.skip(p as int)[0] == w[p as int]);
                lemma_held(*self, *old(self), name@, sample);
            }
            if now > q.at && now - q.at > SHORTEST {
                Some(
                    Growth {
                        rx: if rx > q.rx {
                            rx - q.rx
                        } else {
                            0
                        },
                        tx: if tx > q.tx {
                            tx - q.tx
                        } else {
                            0
                        },
                        nanos: now - q.at,
                    },
                )
            } else {
                None
            }
        } else {
            assert(v.skip(p as int).len() == 0);
            let entry = (name.to_owned(), sample);
            self.samples.push(entry);
            proof {
                assert forall|other: Text| #[trigger] sample_in(self.samples@, other) == match sample_in(
                    v,
                    other,
                ) {
                    Some(s) => Some(s),
                    None => if name@ == other {
                        Some(sample)
                    } else {
                        None
                    },
                } by {
                    lemma_sample_push(v, entry, other);
                }
                lemma_held(*self, *old(self), name@, sample);
            }
            None
        }
    }
}

/// What one look at an interface gives: its counters, and what it has carried since the last look,
/// where that is long enough ago.
pub struct Reading {
    pub counter: Counter,
    pub growth: Option<Growth>,
}

/// What the last samples are after a look at some interfaces, one after the other.
pub open spec fn metered(m: Map<Text, Sample>, v: Seq<CounterView>, now: u128) -> Map<Text, Sample>
    decreases v.len(),
{
    if v.len() == 0 {
        m
    } else {
        let c = v.last();
        metered(m, v.drop_last(), now).insert(c.name, Sample { rx: c.rx, tx: c.tx, at: now })
    }
}

/// What each of some interfaces has carried since its last sample.
pub open spec fn growths(m: Map<Text, Sample>, v: Seq<CounterView>, now: u128) -> Seq<
    Option<Growth>,
>
    decreases v.len(),
{
    if v.len() == 0 {
        seq![]
    } else {
        let c = v.last();
        let before = metered(m, v.drop_last(), now);
        growths(m, v.drop_last(), now).push(
            growth_since(held(before, c.name), c.rx, c.tx, now),
        )
    }
}

pub open spec fn reading_counters(v: Seq<Reading>) -> Seq<CounterView> {
    v.map_values(|r: Reading| r.counter@)
}

pub open spec fn reading_growths(v: Seq<Reading>) -> Seq<Option<Growth>> {
    v.map_values(|r: Reading| r.growth)
}

/// Takes a sample of every interface of `/proc/net/dev`.
pub fn take_readings(meter: &mut Meter, dev: &str, now: u128) -> (r: Vec<Reading>)
    ensures
        ({
            let found = counters_of(line_texts(trimmed(dev@)));
            &&& reading_counters(r@) == found
            &&& reading_growths(r@) == growths(old(meter)@, found, now)
            &&& final(meter)@ == metered(old(meter)@, found, now)
        }),
{
    let ghost m0 = meter@;
    let mut left = counters(dev);
    let ghost all = counter_views(left@);
    let ghost mut done: int = 0;
    let mut r: Vec<Reading> = Vec::new();
    assert(all.take(0) =~= seq![]);
    assert(all.skip(0) =~= all);
    while left.len() > 0
        invariant
            0 <= done <= all.len(),
            counter_views(left@) == all.skip(done),
            reading_counters(r@) == all.take(done),
            reading_growths(r@) == growths(m0, all.take(done), now),
            meter@ == metered(m0, all.take(done), now),
        decreases left@.len(),
    {
        let ghost before_left = left@;
        let ghost before = r@;
        let c = left.remove(0);
        let growth = meter.measure(c.name.as_str(), c.rx, c.tx, now);
        proof {
            assert(counter_views(before_left).len() == before_left.len());
            assert(counter_views(before_left)[0] == before_left[0]@);
            assert(c@ == all[done]);
            assert forall|k: int| 0 <= k < left@.len() implies #[trigger] left@[k]@ == all[done + 1
                + k] by {
                assert(counter_views(before_left)[k + 1] == before_left[k + 1]@);
            }
            assert(counter_views(left@) =~= all.skip(done + 1));
            assert(all.take(done + 1).drop_last() =~= all.take(done));
            assert(all.take(done + 1).last() == c@);
            assert(all.take(done + 1) =~= all.take(done).push(c@));
            done = done + 1;
        }
        let ghost counter = c@;
        r.push(Reading { counter: c, growth });
        assert(reading_counters(r@) =~= reading_counters(before).push(counter));
        assert(reading_growths(r@) =~= reading_growths(before).push(growth));
    }
    assert(all.take(done) =~= all);
    r
}

/// One look at the interfaces: their counters, and the moment.
pub struct Look {
    pub found: Seq<CounterView>,
    pub at: u128,
}

/// The last samples after a number of looks.
pub open spec fn looked(m: Map<Text, Sample>, looks: Seq<Look>) -> Map<Text, Sample>
    decreases looks.len(),
{
    if looks.len() == 0 {
        m
    } else {
        metered(looked(m, looks.drop_last()), looks.last().found, looks.last().at)
    }
}

/// Whether a look saw an interface with certain counters, and no interface of that name behind it.
pub open spec fn saw(l: Look, name: Text, rx: u64, tx: u64) -> bool {
    exists|i: int|
        #![trigger l.found[i]]
        {
            &&& 0 <= i < l.found.len()
            &&& l.found[i] == (CounterView { name, rx, tx })
            &&& forall|j: int| i < j < l.found.len() ==> (#[trigger] l.found[j]).name != name
        }
}

/// Whether a look saw an interface.
pub open spec fn sees(l: Look, name: Text) -> bool {
    exists|i: int| 0 <= i < l.found.len() && (#[trigger] l.found[i]).name == name
}

/// Whether the names of some interfaces differ.
pub open spec fn names_differ(v: Seq<CounterView>) -> bool {
    forall|i: int, j: int| 0 <= i < j < v.len() ==> (#[trigger] v[i]).name != (#[trigger] v[j]).name
}

proof fn lemma_metered_other(m: Map<Text, Sample>, v: Seq<CounterView>, now: u128, name: Text)
    requires
        forall|i: int| 0 <= i < v.len() ==> (#[trigger] v[i]).name != name,
    ensures
        held(metered(m, v, now), name) == held(m, name),
    decreases v.len(),
{
    if v.len() > 0 {
        assert forall|i: int| 0 <= i < v.drop_last().len() implies (#[trigger] v.drop_last()[i]).name
            != name by {
            assert(v[i].name != name);
        }
        lemma_metered_other(m, v.drop_last(), now, name);
        assert(v[v.len() - 1].name != name);
    }
}

proof fn lemma_metered(m: Map<Text, Sample>, v: Seq<CounterView>, now: u128, i: int)
    requires
        0 <= i < v.len(),
        forall|j: int| i < j < v.len() ==> (#[trigger] v[j]).name != v[i].name,
    ensures
        held(metered(m, v, now), v[i].name) == Some(
            Sample { rx: v[i].rx, tx: v[i].tx, at: now },
        ),
    decreases v.len(),
{
    if i < v.len() - 1 {
        let head = v.drop_last();
        assert forall|j: int| i < j < head.len() implies (#[trigger] head[j]).name != head[i].name by {
            assert(v[j].name != v[i].name);
        }
        lemma_metered(m, head, now, i);
        assert(v[v.len() - 1].name != v[i].name);
    }
}

proof fn lemma_not_seen_since(m: Map<Text, Sample>, looks: Seq<Look>, k: int, name: Text)
    requires
        0 <= k <= looks.len(),
        forall|j: int| k <= j < looks.len() ==> !sees(#[trigger] looks[j], name),
    ensures
        held(looked(m, looks), name) == held(looked(m, looks.take(k)), name),
    decreases looks.len(),
{
    if k == looks.len() {
        assert(looks.take(k) =~= looks);
    } else {
        let head = looks.drop_last();
        assert forall|j: int| k <= j < head.len() implies !sees(#[trigger] head[j], name) by {
            assert(!sees(looks[j], name));
        }
        lemma_not_seen_since(m, head, k, name);
        assert(head.take(k) =~= looks.take(k));
        let l = looks.last();
        assert(!sees(looks[looks.len() - 1], name));
        lemma_metered_other(looked(m, head), l.found, l.at, name);
    }
}

proof fn lemma_growths(m: Map<Text, Sample>, v: Seq<CounterView>, now: u128, i: int)
    requires
        0 <= i < v.len(),
        names_differ(v),
    ensures
        growths(m, v, now).len() == v.len(),
        growths(m, v, now)[i] == growth_since(held(m, v[i].name), v[i].rx, v[i].tx, now),
    decreases v.len(),
{
    let head = v.drop_last();
    assert(names_differ(head)) by {
        assert forall|a: int, b: int| 0 <= a < b < head.len() implies (#[trigger] head[a]).name != (
        #[trigger] head[b]).name by {
            assert(v[a].name != v[b].name);
        }
    }
    if head.len() > 0 {
        lemma_growths(m, head, now, if i < head.len() { i } else { 0 });
    }
    if i == v.len() - 1 {
        assert forall|j: int| 0 <= j < head.len() implies (#[trigger] head[j]).name != v[i].name by {
            assert(v[j].name != v[i].name);
        }
        lemma_metered_other(m, head, now, v[i].name);
    }
}

/// Each look compares with the last one that saw the interface: whatever looks came before and
/// after that one, and whatever else they saw. The interfaces of one look have different names.
pub proof fn law_a_look_compares_with_the_last_one(
    looks: Seq<Look>,
    k: int,
    rx: u64,
    tx: u64,
    now: Look,
    i: int,
)
    requires
        0 <= i < now.found.len(),
        names_differ(now.found),
        0 <= k < looks.len(),
        saw(looks[k], now.found[i].name, rx, tx),
        forall|j: int| k < j < looks.len() ==> !sees(#[trigger] looks[j], now.found[i].name),
    ensures
        ({
            let m = looked(Map::<Text, Sample>::empty(), looks);
            growths(m, now.found, now.at)[i] == growth_since(
                Some(Sample { rx, tx, at: looks[k].at }),
                now.found[i].rx,
                now.found[i].tx,
                now.at,
            )
        }),
{
    let name = now.found[i].name;
    let m0 = Map::<Text, Sample>::empty();
    lemma_not_seen_since(m0, looks, k + 1, name);
    let l = looks[k];
    let p = choose|p: int|
        #![trigger l.found[p]]
        {
            &&& 0 <= p < l.found.len()
            &&& l.found[p] == (CounterView { name, rx, tx })
            &&& forall|j: int| p < j < l.found.len() ==> (#[trigger] l.found[j]).name != name
        };
    assert(looks.take(k + 1).drop_last() =~= looks.take(k));
    assert(looks.take(k + 1).last() == l);
    lemma_metered(looked(m0, looks.take(k)), l.found, l.at, p);
    lemma_growths(looked(m0, looks), now.found, now.at, i);
}

/// An interface that no look has seen before has no growth.
pub proof fn law_a_first_look_has_nothing_to_compare(looks: Seq<Look>, now: Look, i: int)
    requires
        0 <= i < now.found.len(),
        names_differ(now.found),
        forall|j: int| 0 <= j < looks.len() ==> !sees(#[trigger] looks[j], now.found[i].name),
    ensures
        growths(looked(Map::<Text, Sample>::empty(), looks), now.found, now.at)[i] is None,
{
    let m0 = Map::<Text, Sample>::empty();
    lemma_not_seen_since(m0, looks, 0, now.found[i].name);
    assert(looks.take(0) =~= seq![]);
    lemma_growths(looked(m0, looks), now.found, now.at, i);
}

/// What the kernel says of an interface beside its counters: what its files hold, and whether its
/// directory has a wireless side and a device.
pub struct Link {
    pub operstate: String,
    pub carrier: String,
    pub speed: String,
    pub wireless: bool,
    pub device: bool,
}

/// An interface with its counters, its rates, and what the kernel says of it.
pub struct Rated {
    pub counter: Counter,
    pub rx_bps: u64,
    pub tx_bps: u64,
    pub link: Link,
}

/// The rate of one direction: the quotient of what was carried and the time, and zero where nothing
/// was carried or nothing can be compared.
pub open spec fn rate_of(carried: Option<u64>, quotient: u64) -> u64 {
    match carried {
        Some(n) => if n == 0 {
            0
        } else {
            quotient
        },
        None => 0,
    }
}

pub open spec fn grown_rx(g: Option<Growth>) -> Option<u64> {
    match g {
        Some(g) => Some(g.rx),
        None => None,
    }
}

pub open spec fn grown_tx(g: Option<Growth>) -> Option<u64> {
    match g {
        Some(g) => Some(g.tx),
        None => None,
    }
}

/// A reading with its rates, given the quotients of what was carried in each direction and the time.
/// Where there is no growth, the quotients do not count.
pub fn rated(r: Reading, rx_quotient: u64, tx_quotient: u64, link: Link) -> (x: Rated)
    ensures
        x.counter == r.counter,
        x.link == link,
        x.rx_bps == rate_of(grown_rx(r.growth), rx_quotient),
        x.tx_bps == rate_of(grown_tx(r.growth), tx_quotient),
{
    let (rx_bps, tx_bps) = match r.growth {
        Some(g) => (
            if g.rx == 0 {
                0
            } else {
                rx_quotient
            },
            if g.tx == 0 {
                0
            } else {
                tx_quotient
            },
        ),
        None => (0, 0),
    };
    Rated { counter: r.counter, rx_bps, tx_bps, link }
}

/// The rates that are told: none for an interface that was not seen before or was seen too short a
/// time ago, zero for a counter that did not grow, and else the quotient of what was carried since
/// the last look and the time since then.
pub proof fn law_rates_need_growth(
    last: Option<Sample>,
    rx: u64,
    tx: u64,
    now: u128,
    rx_quotient: u64,
    tx_quotient: u64,
)
    ensures
        ({
            let g = growth_since(last, rx, tx, now);
            let rx_bps = rate_of(grown_rx(g), rx_quotient);
            let tx_bps = rate_of(grown_tx(g), tx_quotient);
            match last {
                Some(p) => if now - p.at > SHORTEST {
                    &&& rx <= p.rx ==> rx_bps == 0
                    &&& rx > p.rx ==> rx_bps == rx_quotient && g == Some(
                        Growth { rx: (rx - p.rx) as u64, ..g->0 },
                    )
                    &&& tx <= p.tx ==> tx_bps == 0
                    &&& tx > p.tx ==> tx_bps == tx_quotient && g == Some(
                        Growth { tx: (tx - p.tx) as u64, ..g->0 },
                    )
                    &&& (g->0).nanos == now - p.at
                } else {
                    rx_bps == 0 && tx_bps == 0
                },
                None => rx_bps == 0 && tx_bps == 0,
            }
        }),
{
}

/// What is shown of an interface, given the addresses.
pub open spec fn described(x: Rated, ips: Seq<(Text, Text)>) -> IfaceView {
    IfaceView {
        name: x.counter.name@,
        ip: or_text(lookup(ips, x.counter.name@), ""@),
        up: trimmed(x.link.operstate@) == "up"@ || trimmed(x.link.carrier@) == "1"@,
        rx_bps: x.rx_bps,
        tx_bps: x.tx_bps,
        rx_total: x.counter.rx,
        tx_total: x.counter.tx,
        link_mbps: match signed_value(trimmed(x.link.speed@), i64::MIN as int, i64::MAX as int) {
            Some(n) => n as i64,
            None => (-1) as i64,
        },
        kind: kind_text_of(x.link.wireless, x.link.device),
    }
}

/// What is shown of an interface, given the addresses.
pub fn iface(x: &Rated, ips: &Vec<(String, String)>) -> (i: Iface)
    ensures
        i@ == described(*x, pair_texts(ips@)),
{
    let link_mbps: i64 = match parse_signed(trim(x.link.speed.as_str()).as_str()) {
        Some(n) => n,
        None => -1,
    };
    let ip = match find_address(ips, x.counter.name.as_str()) {
        Some(a) => a,
        None => "".to_owned(),
    };
    let operstate = trim(x.link.operstate.as_str());
    let carrier = trim(x.link.carrier.as_str());
    Iface {
        name: x.counter.name.clone(),
        ip,
        up: same(operstate.as_str(), "up") || same(carrier.as_str(), "1"),
        rx_bps: x.rx_bps,
        tx_bps: x.tx_bps,
        rx_total: x.counter.rx,
        tx_total: x.counter.tx,
        link_mbps,
        kind: kind_of(x.link.wireless, x.link.device),
    }
}

/// The interfaces in the order in which they are shown: connected ones first, then by name. Their
/// addresses are told as `ip -o -4 addr show` prints them.
pub fn net_status(found: &Vec<Rated>, addrs: &str) -> (r: Vec<Iface>)
    ensures
        ({
            let ips = addresses_of(line_texts(addrs@));
            exists|v: Seq<Iface>|
                r@ == #[trigger] sorted(v) && iface_views(v) == found@.map_values(
                    |x: Rated| described(x, ips),
                )
        }),
        ordered(r@),
{
    let ips = ipv4_map(addrs);
    let ghost shown = found@.map_values(|x: Rated| described(x, pair_texts(ips@)));
    let mut v: Vec<Iface> = Vec::new();
    let mut i: usize = 0;
    assert(iface_views(v@) =~= shown.take(0));
    while i < found.len()
        invariant
            i <= found@.len(),
            shown == found@.map_values(|x: Rated| described(x, pair_texts(ips@))),
            iface_views(v@) == shown.take(i as int),
        decreases found@.len() - i,
    {
        let ghost before = v@;
        let x = iface(&found[i], &ips);
        v.push(x);
        assert(iface_views(v@) =~= iface_views(before).push(x@));
        assert(shown.take(i + 1) =~= shown.take(i as int).push(x@));
        i += 1;
    }
    assert(shown.take(found@.len() as int) =~= shown);
    proof {
        law_sorted(v@);
    }
    sort(v)
}

// ---------- sockets ----------
/// A socket that listens.
pub struct PortRow {
    pub proto: String,
    pub addr: String,
    pub port: u32,
    /// The process, or else what the port is commonly used for.
    pub service: String,
    pub process: String,
    /// Zero where the process is not known.
    pub pid: u32,
    /// The unit that owns the process, where there is one.
    pub unit: String,
    /// It can be reached from the network.
    pub exposed: bool,
}

impl Ranked for PortRow {
    /// What the network can reach comes first, then lower ports, then by protocol.
    open spec fn ranks(self, other: Self) -> bool {
        ||| self.exposed && !other.exposed
        ||| self.exposed == other.exposed && self.port < other.port
        ||| self.exposed == other.exposed && self.port == other.port && precedes(
            self.proto@,
            other.proto@,
        )
    }

    proof fn weak_order(a: Self, b: Self, c: Self) {
        lemma_precedes_total(a.proto@, b.proto@);
        lemma_precedes_total(a.proto@, c.proto@);
        lemma_precedes_total(b.proto@, c.proto@);
        if precedes(a.proto@, c.proto@) && precedes(c.proto@, b.proto@) {
            lemma_precedes_transitive(a.proto@, c.proto@, b.proto@);
        }
    }

    fn goes_before(&self, other: &Self) -> (r: bool) {
        (self.exposed && !other.exposed) || (self.exposed == other.exposed && self.port
            < other.port) || (self.exposed == other.exposed && self.port == other.port && before(
            self.proto.as_str(),
            other.proto.as_str(),
        ))
    }
}

/// The model of a [`PortRow`].
#[verifier::ext_equal]
pub struct PortView {
    pub proto: Text,
    pub addr: Text,
    pub port: u32,
    pub service: Text,
    pub process: Text,
    pub pid: u32,
    pub unit: Text,
    pub exposed: bool,
}

impl View for PortRow {
    type V = PortView;

    open spec fn view(&self) -> PortView {
        PortView {
            proto: self.proto@,
            addr: self.addr@,
            port: self.port,
            service: self.service@,
            process: self.process@,
            pid: self.pid,
            unit: self.unit@,
            exposed: self.exposed,
        }
    }
}

pub open spec fn port_views(v: Seq<PortRow>) -> Seq<PortView> {
    v.map_values(|p: PortRow| p@)
}

pub open spec fn nth_text(v: Seq<Text>, i: int) -> Text {
    if i < v.len() {
        v[i]
    } else {
        seq![]
    }
}

/// The digits at the start of a text.
pub open spec fn leading_digits(s: Text) -> Text {
    s.take(digit_run(s) as int)
}

/// The process and its id, out of a field such as `(("sshd",pid=812,fd=3))`.
pub open spec fn process_of(s: Text) -> (Text, u32) {
    let after = text_pieces(s, "pid="@);
    (
        nth_text(pieces(s, '"'), 1),
        if after.len() > 1 {
            match unsigned_value(leading_digits(after[1]), u32::MAX as nat) {
                Some(n) => n as u32,
                None => 0,
            }
        } else {
            0
        },
    )
}

proof fn lemma_run_of(s: Text, i: int)
    requires
        0 <= i <= s.len(),
        forall|k: int| 0 <= k < i ==> is_digit(#[trigger] s[k]),
        i < s.len() ==> !is_digit(s[i]),
    ensures
        digit_run(s) == i,
    decreases s.len(),
{
    if i > 0 {
        assert(is_digit(s[0]));
        assert forall|k: int| 0 <= k < i - 1 implies is_digit(#[trigger] s.skip(1)[k]) by {
            assert(is_digit(s[k + 1]));
        }
        lemma_run_of(s.skip(1), i - 1);
    }
}

fn read_digits(s: &str) -> (r: String)
    ensures
        r@ == leading_digits(s@),
{
    let v = chars_of(s);
    let mut i: usize = 0;
    while i < v.len() && digit(v[i])
        invariant
            i <= v@.len(),
            v@ == s@,
            forall|k: int| 0 <= k < i ==> is_digit(#[trigger] v@[k]),
        decreases v@.len() - i,
    {
        i += 1;
    }
    proof {
        lemma_run_of(s@, i as int);
        assert(v@.subrange(0, i as int) =~= s@.take(i as int));
    }
    slice(&v, 0, i)
}

/// The process and its id, out of a field such as `(("sshd",pid=812,fd=3))`.
pub fn parse_proc(s: &str) -> (r: (String, u32))
    ensures
        (r.0@, r.1) == process_of(s@),
{
    proof {
        reveal_strlit("pid=");
    }
    let q = split_char(s, '"');
    assert(texts(q@).len() == q@.len());
    let name = if q.len() > 1 {
        assert(texts(q@)[1] == q@[1]@);
        q[1].clone()
    } else {
        String::new()
    };
    let after = split_text(s, "pid=");
    assert(texts(after@).len() == after@.len());
    let pid: u32 = if after.len() > 1 {
        assert(texts(after@)[1] == after@[1]@);
        match parse_unsigned(read_digits(after[1].as_str()).as_str(), u32::MAX as u64) {
            Some(n) => n as u32,
            None => 0,
        }
    } else {
        0
    };
    (name, pid)
}

/// The first of the texts that ends in `.service`.
pub open spec fn first_unit(v: Seq<Text>) -> Text
    decreases v.len(),
{
    if v.len() == 0 {
        seq![]
    } else if finishes(v[0], ".service"@) {
        v[0]
    } else {
        first_unit(v.skip(1))
    }
}

/// The unit that owns a process, out of what its `cgroup` file holds.
pub open spec fn unit_in(cgroup: Text) -> Text {
    first_unit(pieces(replaced(cgroup, "\n"@, "/"@), '/'))
}

/// The unit that owns a process, out of what its `cgroup` file holds.
pub fn unit_of(cgroup: &str) -> (r: String)
    ensures
        r@ == unit_in(cgroup@),
{
    proof {
        reveal_strlit("\n");
    }
    let parts = split_char(replace(cgroup, "\n", "/").as_str(), '/');
    let ghost t = texts(parts@);
    let n: usize = parts.len();
    let mut i: usize = 0;
    assert(t.skip(0) =~= t);
    while i < n
        invariant
            i <= n == parts@.len(),
            t == texts(parts@),
            t == pieces(replaced(cgroup@, "\n"@, "/"@), '/'),
            first_unit(t.skip(i as int)) == first_unit(t),
        decreases n - i,
    {
        assert(t.skip(i as int)[0] == parts@[i as int]@);
        if ends_with(parts[i].as_str(), ".service") {
            return parts[i].clone();
        }
        assert(t.skip(i as int).skip(1) =~= t.skip(i + 1));
        i += 1;
    }
    assert(first_unit(t.skip(i as int)) =~= seq![]);
    String::new()
}

/// What a port is commonly used for.
pub open spec fn well_known(port: u32) -> Text {
    if port == 22 {
        "ssh"@
    } else if port == 80 {
        "http"@
    } else if port == 443 {
        "https"@
    } else if port == 53 {
        "dns"@
    } else if port == 21 {
        "ftp"@
    } else if port == 23 {
        "telnet"@
    } else if port == 25 {
        "smtp"@
    } else if port == 110 {
        "pop3"@
    } else if port == 143 {
        "imap"@
    } else if port == 3306 {
        "mysql"@
    } else if port == 5432 {
        "postgres"@
    } else if port == 6379 {
        "redis"@
    } else if port == 27017 {
        "mongodb"@
    } else if port == 631 {
        "cups"@
    } else if port == 139 || port == 445 {
        "smb"@
    } else if port == 111 {
        "rpcbind"@
    } else if port == 3389 {
        "rdp"@
    } else if port == 5900 {
        "vnc"@
    } else if port == 8080 {
        "http-alt"@
    } else if port == 9050 {
        "tor"@
    } else {
        ""@
    }
}

/// The name under which a socket is shown: its process, or else what its port is commonly used for.
pub fn service_label(port: u32, process: &str) -> (s: String)
    ensures
        s@ == if process@.len() > 0 {
            process@
        } else {
            well_known(port)
        },
{
    if !process.is_empty() {
        return process.to_owned();
    }
    let name = match port {
        22 => "ssh",
        80 => "http",
        443 => "https",
        53 => "dns",
        21 => "ftp",
        23 => "telnet",
        25 => "smtp",
        110 => "pop3",
        143 => "imap",
        3306 => "mysql",
        5432 => "postgres",
        6379 => "redis",
        27017 => "mongodb",
        631 => "cups",
        139 | 445 => "smb",
        111 => "rpcbind",
        3389 => "rdp",
        5900 => "vnc",
        8080 => "http-alt",
        9050 => "tor",
        _ => "",
    };
    name.to_owned()
}

/// Whether an address is one that only this machine can reach.
pub open spec fn is_loopback(addr: Text) -> bool {
    begins(addr, "127."@) || addr == "::1"@ || begins(addr, "::ffff:127"@)
}

/// The socket of a line of `ss -tulnpH`, but for its unit: the protocol, and fifth the address and
/// port; the process follows `users:`.
pub open spec fn port_of(line: Text) -> Option<PortView> {
    let f = words(line);
    if f.len() < 5 || (f[0] != "tcp"@ && f[0] != "udp"@) {
        None
    } else {
        match parted_last(f[4], ':') {
            Some((head, tail)) => match unsigned_value(tail, u32::MAX as nat) {
                Some(n) => {
                    let addr = strip_end(Class::Bracket, strip_start(Class::Bracket, head));
                    let (process, pid) = process_of(nth_text(text_pieces(line, "users:"@), 1));
                    Some(
                        PortView {
                            proto: f[0],
                            addr,
                            port: n as u32,
                            service: if process.len() > 0 {
                                process
                            } else {
                                well_known(n as u32)
                            },
                            process,
                            pid,
                            unit: seq![],
                            exposed: !is_loopback(addr),
                        },
                    )
                },
                None => None,
            },
            None => None,
        }
    }
}

pub open spec fn ports_of(v: Seq<Text>) -> Seq<PortView>
    decreases v.len(),
{
    if v.len() == 0 {
        seq![]
    } else {
        match port_of(v.last()) {
            Some(p) => ports_of(v.drop_last()).push(p),
            None => ports_of(v.drop_last()),
        }
    }
}

fn read_port(line: &str) -> (r: Option<PortRow>)
    ensures
        (match r {
            Some(p) => Some(p@),
            None => None,
        }) == port_of(line@),
{
    proof {
        reveal_strlit("users:");
    }
    let w = split_words(line);
    let ghost f = words(line@);
    assert(f == texts(w@) && f.len() == w@.len());
    if w.len() < 5 {
        return None;
    }
    assert(f[0] == w@[0]@ && f[4] == w@[4]@);
    if !same(w[0].as_str(), "tcp") && !same(w[0].as_str(), "udp") {
        return None;
    }
    match rsplit_once(w[4].as_str(), ':') {
        Some((head, tail)) => match parse_unsigned(tail.as_str(), u32::MAX as u64) {
            Some(n) => {
                let port: u32 = n as u32;
                let addr = trim_of(Class::Bracket, head.as_str());
                let parts = split_text(line, "users:");
                assert(texts(parts@).len() == parts@.len());
                let field = if parts.len() > 1 {
                    assert(texts(parts@)[1] == parts@[1]@);
                    parts[1].clone()
                } else {
                    String::new()
                };
                let (process, pid) = parse_proc(field.as_str());
                let exposed = !(starts_with(addr.as_str(), "127.") || same(addr.as_str(), "::1")
                    || starts_with(addr.as_str(), "::ffff:127"));
                Some(
                    PortRow {
                        proto: w[0].clone(),
                        addr,
                        port,
                        service: service_label(port, process.as_str()),
                        process,
                        pid,
                        unit: String::new(),
                        exposed,
                    },
                )
            },
            None => None,
        },
        None => None,
    }
}

/// The sockets that listen, but for their units, as `ss -tulnpH` prints them.
pub fn read_ports(out: &str) -> (r: Vec<PortRow>)
    ensures
        port_views(r@) == ports_of(line_texts(out@)),
        forall|i: int|
            #![trigger r@[i]]
            0 <= i < r@.len() ==> (!r@[i].exposed <==> begins(r@[i].addr@, "127."@) || r@[i].addr@
                == "::1"@ || begins(r@[i].addr@, "::ffff:127"@)),
{
    let all = lines(out);
    let ghost t = line_texts(out@);
    let mut r: Vec<PortRow> = Vec::new();
    let mut i: usize = 0;
    assert(port_views(r@) =~= ports_of(t.take(0)));
    while i < all.len()
        invariant
            i <= all@.len(),
            t == texts(all@),
            t == line_texts(out@),
            port_views(r@) == ports_of(t.take(i as int)),
        decreases all@.len() - i,
    {
        assert(t.take(i + 1).drop_last() =~= t.take(i as int));
        assert(t.take(i + 1).last() == all@[i as int]@);
        let ghost before = r@;
        match read_port(all[i].as_str()) {
            Some(p) => {
                r.push(p);
                assert(port_views(r@) =~= port_views(before).push(p@));
            },
            None => {},
        }
        i += 1;
    }
    assert(t.take(all@.len() as int) =~= t);
    proof {
        law_only_loopback_is_not_exposed(t);
        assert(port_views(r@).len() == r@.len());
        assert forall|i: int| #![trigger r@[i]] 0 <= i < r@.len() implies (!r@[i].exposed <==> begins(
            r@[i].addr@,
            "127."@,
        ) || r@[i].addr@ == "::1"@ || begins(r@[i].addr@, "::ffff:127"@)) by {
            assert(port_views(r@)[i] == r@[i]@);
            assert(ports_of(t)[i] == r@[i]@);
        }
    }
    r
}

/// Whether two rows show the same service, such as its sockets for both address families.
pub open spec fn alike(a: PortRow, b: PortRow) -> bool {
    a.port == b.port && a.proto@ == b.proto@ && a.process@ == b.process@
}

/// The rows without those that are alike the row before them.
pub open spec fn collapsed(v: Seq<PortRow>) -> Seq<PortRow>
    decreases v.len(),
{
    if v.len() == 0 {
        seq![]
    } else {
        let r = collapsed(v.drop_last());
        if r.len() > 0 && alike(v.last(), r.last()) {
            r
        } else {
            r.push(v.last())
        }
    }
}

fn collapse(v: Vec<PortRow>) -> (r: Vec<PortRow>)
    ensures
        r@ == collapsed(v@),
{
    let mut left = v;
    let ghost all = v@;
    let mut r: Vec<PortRow> = Vec::new();
    let ghost mut done: int = 0;
    assert(all.take(0) =~= seq![]);
    assert(all.skip(0) =~= all);
    while left.len() > 0
        invariant
            0 <= done <= all.len(),
            left@ == all.skip(done),
            r@ == collapsed(all.take(done)),
        decreases left@.len(),
    {
        let x = left.remove(0);
        proof {
            assert(x == all[done]);
            assert(all.take(done + 1).drop_last() =~= all.take(done));
            assert(all.skip(done).remove(0) =~= all.skip(done + 1));
            done = done + 1;
        }
        let n: usize = r.len();
        let known = n > 0 && x.port == r[n - 1].port && same(
            x.proto.as_str(),
            r[n - 1].proto.as_str(),
        ) && same(x.process.as_str(), r[n - 1].process.as_str());
        if !known {
            r.push(x);
        }
    }
    assert(all.take(done) =~= all);
    r
}

/// A row with the unit that owns its process, where the process is known, out of its control group.
pub open spec fn with_unit(p: PortView, cgroup: Text) -> PortView {
    PortView {
        unit: if p.pid > 0 {
            unit_in(cgroup)
        } else {
            seq![]
        },
        ..p
    }
}

/// Rows with their units, each out of the control group at its place.
pub open spec fn with_units(v: Seq<PortView>, cgroups: Seq<Text>) -> Seq<PortView> {
    Seq::new(v.len(), |i: int| with_unit(v[i], nth_text(cgroups, i)))
}

fn add_units(rows: Vec<PortRow>, cgroups: &Vec<String>) -> (r: Vec<PortRow>)
    ensures
        port_views(r@) == with_units(port_views(rows@), texts(cgroups@)),
{
    let ghost all = port_views(rows@);
    let ghost want = with_units(all, texts(cgroups@));
    let mut left = rows;
    let mut r: Vec<PortRow> = Vec::new();
    let mut i: usize = 0;
    let n: usize = left.len();
    assert(all.skip(0) =~= all);
    assert(port_views(r@) =~= want.take(0));
    while i < n
        invariant
            i <= n == all.len(),
            port_views(left@) == all.skip(i as int),
            want == with_units(all, texts(cgroups@)),
            port_views(r@) == want.take(i as int),
        decreases n - i,
    {
        let ghost before_left = left@;
        let ghost before = r@;
        assert(port_views(left@).len() == left@.len());
        let mut x = left.remove(0);
        assert(port_views(before_left)[0] == before_left[0]@);
        assert forall|k: int| 0 <= k < left@.len() implies #[trigger] left@[k]@ == all[i + 1 + k] by {
            assert(port_views(before_left)[k + 1] == before_left[k + 1]@);
        }
        assert(port_views(left@) =~= all.skip(i + 1));
        x.unit =
        if x.pid > 0 {
            if i < cgroups.len() {
                assert(texts(cgroups@)[i as int] == cgroups@[i as int]@);
                unit_of(cgroups[i].as_str())
            } else {
                unit_of("")
            }
        } else {
            "".to_owned()
        };
        proof {
            reveal_strlit("");
            assert(""@ =~= seq![]);
        }
        assert(x@ =~= want[i as int]);
        r.push(x);
        assert(port_views(r@) =~= port_views(before).push(x@));
        assert(want.take(i + 1) =~= want.take(i as int).push(x@));
        i += 1;
    }
    assert(want.take(n as int) =~= want);
    r
}

/// The sockets with their units, in the order in which they are shown: what the network can reach
/// first, then by port and protocol, and of rows next to each other that show the same service only
/// the first. Each row comes with the control group of its process.
pub fn net_ports(rows: Vec<PortRow>, cgroups: &Vec<String>) -> (r: Vec<PortRow>)
    ensures
        exists|v: Seq<PortRow>|
            r@ == collapsed(#[trigger] sorted(v)) && port_views(v) == with_units(
                port_views(rows@),
                texts(cgroups@),
            ),
{
    let v = add_units(rows, cgroups);
    collapse(sort(v))
}

/// Whether a row is alike one of a list.
pub open spec fn shown_in(r: Seq<PortRow>, x: PortRow) -> bool {
    exists|i: int| 0 <= i < r.len() && alike(x, #[trigger] r[i])
}

/// Whether a row is alike one of a list that the network can reach.
pub open spec fn exposed_in(r: Seq<PortRow>, x: PortRow) -> bool {
    exists|i: int| 0 <= i < r.len() && alike(x, #[trigger] r[i]) && r[i].exposed
}

/// What is shown of the sockets is in order, shows no service twice in a row, and shows every
/// socket by a row that is alike it; a socket that the network can reach is shown by a row that says
/// so.
pub proof fn law_ports_are_collapsed(rows: Seq<PortRow>)
    ensures
        ordered(collapsed(sorted(rows))),
        forall|i: int|
            0 < i < collapsed(sorted(rows)).len() ==> !alike(
                #[trigger] collapsed(sorted(rows))[i],
                collapsed(sorted(rows))[i - 1],
            ),
        forall|k: int| 0 <= k < rows.len() ==> shown_in(collapsed(sorted(rows)), #[trigger] rows[k]),
        forall|k: int|
            0 <= k < rows.len() && (#[trigger] rows[k]).exposed ==> exposed_in(
                collapsed(sorted(rows)),
                rows[k],
            ),
{
    broadcast use vstd::seq_lib::group_to_multiset_ensures;

    law_sorted(rows);
    let v = sorted(rows);
    lemma_collapsed_order(v);
    lemma_collapsed_apart(v);
    assert forall|k: int| 0 <= k < rows.len() implies shown_in(collapsed(v), #[trigger] rows[k]) by {
        assert(rows.contains(rows[k]));
        assert(rows.to_multiset().count(rows[k]) > 0);
        assert(v.contains(rows[k]));
        let m = choose|m: int| 0 <= m < v.len() && v[m] == rows[k];
        lemma_collapsed_shows(v, m);
    }
    assert forall|k: int| 0 <= k < rows.len() && (#[trigger] rows[k]).exposed implies exposed_in(
        collapsed(v),
        rows[k],
    ) by {
        assert(rows.contains(rows[k]));
        assert(rows.to_multiset().count(rows[k]) > 0);
        assert(v.contains(rows[k]));
        let m = choose|m: int| 0 <= m < v.len() && v[m] == rows[k];
        lemma_collapsed_exposed(v, m);
    }
}

/// Of rows in order, one that the network can reach is shown by one that is alike it and that the
/// network can reach.
proof fn lemma_collapsed_exposed(v: Seq<PortRow>, k: int)
    requires
        ordered(v),
        0 <= k < v.len(),
        v[k].exposed,
    ensures
        exposed_in(collapsed(v), v[k]),
    decreases v.len(),
{
    let head = v.drop_last();
    let r = collapsed(head);
    let s = collapsed(v);
    if k < v.len() - 1 {
        assert forall|i: int, j: int| 0 <= i < j < head.len() implies !(#[trigger] head[j]).ranks(
            #[trigger] head[i],
        ) by {
            assert(!v[j].ranks(v[i]));
        }
        assert(head[k] == v[k]);
        lemma_collapsed_exposed(head, k);
        let i = choose|i: int| 0 <= i < r.len() && alike(v[k], #[trigger] r[i]) && r[i].exposed;
        assert(s[i] == r[i]);
    } else if r.len() > 0 && alike(v.last(), r.last()) {
        lemma_collapsed_from(head, r.len() - 1);
        let m = choose|m: int| 0 <= m < head.len() && head[m] == r[r.len() - 1];
        assert(v[m] == r.last());
        assert(!v[k].ranks(v[m]));
        assert(alike(v[k], s[r.len() - 1]));
    } else {
        assert(s[r.len() as int] == v[k]);
    }
}

/// Every row is shown by one that is alike it.
proof fn lemma_collapsed_shows(v: Seq<PortRow>, k: int)
    requires
        0 <= k < v.len(),
    ensures
        shown_in(collapsed(v), v[k]),
    decreases v.len(),
{
    let r = collapsed(v.drop_last());
    let s = collapsed(v);
    if k < v.len() - 1 {
        lemma_collapsed_shows(v.drop_last(), k);
        let i = choose|i: int| 0 <= i < r.len() && alike(v[k], #[trigger] r[i]);
        assert(s[i] == r[i]);
    } else {
        assert(alike(v[k], s[s.len() - 1]));
    }
}

/// Every row that is left was there before.
proof fn lemma_collapsed_from(v: Seq<PortRow>, i: int)
    requires
        0 <= i < collapsed(v).len(),
    ensures
        v.contains(collapsed(v)[i]),
    decreases v.len(),
{
    if v.len() > 0 {
        let head = v.drop_last();
        let r = collapsed(head);
        if i < r.len() {
            lemma_collapsed_from(head, i);
            let k = choose|k: int| 0 <= k < head.len() && head[k] == r[i];
            assert(v[k] == collapsed(v)[i]);
        } else {
            assert(v[v.len() - 1] == collapsed(v)[i]);
        }
    }
}

proof fn lemma_collapsed_order(v: Seq<PortRow>)
    requires
        ordered(v),
    ensures
        ordered(collapsed(v)),
    decreases v.len(),
{
    if v.len() > 0 {
        let head = v.drop_last();
        let r = collapsed(head);
        let s = collapsed(v);
        assert forall|i: int, j: int| 0 <= i < j < head.len() implies !(#[trigger] head[j]).ranks(
            #[trigger] head[i],
        ) by {
            assert(!v[j].ranks(v[i]));
        }
        lemma_collapsed_order(head);
        assert forall|i: int, j: int| 0 <= i < j < s.len() implies !(#[trigger] s[j]).ranks(
            #[trigger] s[i],
        ) by {
            if j == r.len() {
                lemma_collapsed_from(head, i);
                let k = choose|k: int| 0 <= k < head.len() && head[k] == r[i];
                assert(!v[v.len() - 1].ranks(v[k]));
            } else {
                assert(!r[j].ranks(r[i]));
            }
        }
    }
}

/// Rows next to each other are not alike.
proof fn lemma_collapsed_apart(v: Seq<PortRow>)
    ensures
        forall|i: int|
            0 < i < collapsed(v).len() ==> !alike(#[trigger] collapsed(v)[i], collapsed(v)[i - 1]),
    decreases v.len(),
{
    if v.len() > 0 {
        lemma_collapsed_apart(v.drop_last());
        let r = collapsed(v.drop_last());
        let s = collapsed(v);
        assert forall|i: int| 0 < i < s.len() implies !alike(#[trigger] s[i], s[i - 1]) by {
            if i < r.len() {
                assert(!alike(r[i], r[i - 1]));
            }
        }
    }
}

// ---------- actions ----------
pub open spec fn unit_char(c: char) -> bool {
    is_alnum(c) || c == '-' || c == '_' || c == '.' || c == '@'
}

/// Whether a text is the name of a service unit.
pub open spec fn is_unit(u: Text) -> bool {
    u.len() <= 128 && finishes(u, ".service"@) && forall|i: int|
        0 <= i < u.len() ==> unit_char(#[trigger] u[i])
}

/// Whether a text is the name of a service unit.
pub fn safe_unit(u: &str) -> (r: bool)
    ensures
        r == is_unit(u@),
{
    let v = chars_of(u);
    if v.len() > 128 || !ends_with(u, ".service") {
        return false;
    }
    let mut i: usize = 0;
    while i < v.len()
        invariant
            i <= v@.len(),
            v@ == u@,
            forall|k: int| 0 <= k < i ==> unit_char(#[trigger] v@[k]),
        decreases v@.len() - i,
    {
        let c = v[i];
        if !(alnum(c) || c == '-' || c == '_' || c == '.' || c == '@') {
            assert(!unit_char(u@[i as int]));
            return false;
        }
        i += 1;
    }
    true
}

/// The command that stops a service and keeps it from starting.
pub fn net_disable_service(unit: &str) -> (r: Result<Command, String>)
    ensures
        (r is Ok) == is_unit(unit@),
        r matches Ok(c) ==> c@ == cmd(
            "pkexec"@,
            seq!["systemctl"@, "disable"@, "--now"@, unit@],
        ),
        r matches Err(e) ==> e@ == "invalid unit"@,
{
    if !safe_unit(unit) {
        return Err("invalid unit".to_owned());
    }
    let c = command("pkexec", &["systemctl", "disable", "--now", unit]);
    assert(c@.args =~= seq!["systemctl"@, "disable"@, "--now"@, unit@]);
    Ok(c)
}

/// What disabling a service came to.
pub fn disabled(unit: &str, success: bool) -> (r: Result<(), String>)
    ensures
        (r is Ok) == success,
        r matches Err(e) ==> e@ == "could not disable "@ + unit@,
{
    if success {
        Ok(())
    } else {
        Err("could not disable ".to_owned().concat(unit))
    }
}

/// Whether there is such a port.
pub open spec fn is_port(proto: Text, port: u32) -> bool {
    (proto == "tcp"@ || proto == "udp"@) && 0 < port <= 65535
}

/// The script that drops what comes in for a port, in a table of its own.
pub open spec fn block_script(proto: Text, port: u32) -> Text {
    "nft add table inet arxos_harden 2>/dev/null; nft 'add chain inet arxos_harden input { type filter hook input priority 0 ; policy accept ; }' 2>/dev/null; nft add rule inet arxos_harden input "@
        + proto + " dport "@ + decimal(port as nat) + " drop"@
}

/// The command that blocks a port.
pub fn net_block_port(proto: &str, port: u32) -> (r: Result<Command, String>)
    ensures
        (r is Ok) == is_port(proto@, port),
        r matches Ok(c) ==> c@ == cmd(
            "pkexec"@,
            seq!["bash"@, "-c"@, block_script(proto@, port)],
        ),
        r matches Err(e) ==> e@ == "invalid port"@,
{
    if (!same(proto, "tcp") && !same(proto, "udp")) || port == 0 || port > 65535 {
        return Err("invalid port".to_owned());
    }
    let script =
        "nft add table inet arxos_harden 2>/dev/null; nft 'add chain inet arxos_harden input { type filter hook input priority 0 ; policy accept ; }' 2>/dev/null; nft add rule inet arxos_harden input ".to_owned().concat(
    proto).concat(" dport ").concat(dec(port as u64).as_str()).concat(" drop");
    let c = command("pkexec", &["bash", "-c", script.as_str()]);
    assert(c@.args =~= seq!["bash"@, "-c"@, block_script(proto@, port)]);
    Ok(c)
}

/// What blocking a port came to.
pub fn blocked(proto: &str, port: u32, success: bool) -> (r: Result<(), String>)
    ensures
        (r is Ok) == success,
        r matches Err(e) ==> e@ == "could not block "@ + proto@ + "/"@ + decimal(port as nat),
{
    if success {
        Ok(())
    } else {
        Err(
            "could not block ".to_owned().concat(proto).concat("/").concat(
                dec(port as u64).as_str(),
            ),
        )
    }
}

/// A unit that may be disabled holds nothing that a shell would interpret.
pub proof fn law_units_are_inert(unit: Text)
    requires
        is_unit(unit),
    ensures
        is_inert(unit),
{
    assert forall|i: int| 0 <= i < unit.len() implies !is_meta(#[trigger] unit[i]) by {
        assert(unit_char(unit[i]));
    }
}

// ---------- what the rows say ----------
/// A socket is out of reach of the network only where its address begins with `127.`, is `::1`, or
/// begins with `::ffff:127`; every other address, such as `*` or one of the local network, is
/// exposed.
pub proof fn law_only_loopback_is_not_exposed(v: Seq<Text>)
    ensures
        forall|i: int|
            #![trigger ports_of(v)[i]]
            0 <= i < ports_of(v).len() ==> {
                let addr = ports_of(v)[i].addr;
                !ports_of(v)[i].exposed <==> begins(addr, "127."@) || addr == "::1"@ || begins(
                    addr,
                    "::ffff:127"@,
                )
            },
    decreases v.len(),
{
    if v.len() > 0 {
        law_only_loopback_is_not_exposed(v.drop_last());
        let before = ports_of(v.drop_last());
        assert forall|i: int|
            #![trigger ports_of(v)[i]]
            0 <= i < ports_of(v).len() implies {
            let addr = ports_of(v)[i].addr;
            !ports_of(v)[i].exposed <==> begins(addr, "127."@) || addr == "::1"@ || begins(
                addr,
                "::ffff:127"@,
            )
        } by {
            if i < before.len() {
                assert(ports_of(v)[i] == before[i]);
            }
        }
    }
}

/// The lines are read one by one: each gives its row or none, in order, and none depends on another.
pub proof fn law_lines_are_read_one_by_one(v: Seq<Text>)
    ensures
        ports_of(v) == v.filter_map(|line: Text| port_of(line)),
        counters_of(v) == v.filter_map(|line: Text| counter_of(line)),
    decreases v.len(),
{
    if v.len() > 0 {
        law_lines_are_read_one_by_one(v.drop_last());
    }
}

/// A line is a socket exactly where it has five words or more, the first is `tcp` or `udp`, and the
/// fifth ends in a colon and a number; the number is the port, what stands before the colon is the
/// address without its brackets, and the label is the process where it is known.
pub proof fn law_a_line_is_a_socket(line: Text, head: Text, tail: Text)
    requires
        lacks(tail, ':'),
    ensures
        words(line).len() < 5 || (words(line)[0] != "tcp"@ && words(line)[0] != "udp"@) ==> port_of(
            line,
        ) is None,
        words(line).len() >= 5 && lacks(words(line)[4], ':') ==> port_of(line) is None,
        words(line).len() >= 5 && (words(line)[0] == "tcp"@ || words(line)[0] == "udp"@) && words(
            line,
        )[4] == head + seq![':'] + tail ==> {
            let n = unsigned_value(tail, u32::MAX as nat);
            &&& port_of(line) is Some <==> n is Some
            &&& port_of(line) matches Some(p) ==> {
                &&& p.proto == words(line)[0]
                &&& p.port == n->0
                &&& p.addr == strip_end(Class::Bracket, strip_start(Class::Bracket, head))
                &&& p.process.len() > 0 ==> p.service == p.process
                &&& p.process.len() == 0 ==> p.service == well_known(p.port)
                &&& p.unit.len() == 0
                &&& !carries(line, "users:"@) ==> p.process.len() == 0 && p.pid == 0
            }
        },
{
    law_parted(head, ':', tail);
    if words(line).len() >= 5 && lacks(words(line)[4], ':') {
        law_parted(seq![], ':', words(line)[4]);
    }
    if !carries(line, "users:"@) {
        reveal_strlit("users:");
        reveal_strlit("pid=");
        law_text_pieces(line, "users:"@, 0);
        let none = Seq::<char>::empty();
        assert(nth_text(text_pieces(line, "users:"@), 1) =~= none);
        assert(!carries(none, "pid="@));
        law_text_pieces(none, "pid="@, 0);
        law_pieces(none, '"', none);
    }
}

/// The process of a socket is what stands between the first two quotation marks behind `users:`.
pub proof fn law_the_process_stands_in_quotes(a: Text, name: Text, b: Text)
    requires
        lacks(a, '"'),
        lacks(name, '"'),
    ensures
        process_of(a).0 == Seq::<char>::empty(),
        process_of(a + seq!['"'] + (name + seq!['"'] + b)).0 == name,
{
    law_pieces(a, '"', name + seq!['"'] + b);
    law_pieces(name, '"', b);
    let s = a + seq!['"'] + (name + seq!['"'] + b);
    assert(pieces(s, '"')[1] == name);
}

/// The id of a process is the number behind the first `pid=`; zero where there is none.
pub proof fn law_the_pid_follows_its_mark(s: Text, i: int, d: Text, c: char, b: Text)
    requires
        numeral(d),
        !('0' <= c <= '9'),
        c != 'p',
    ensures
        !carries(s, "pid="@) ==> process_of(s).1 == 0,
        occurs_at(s, "pid="@, i) && (forall|j: int| 0 <= j < i ==> !#[trigger] occurs_at(s, "pid="@, j))
            && s.skip(i + 4) == d + seq![c] + b ==> process_of(s).1 == if digits_value(d)
            <= u32::MAX {
            digits_value(d) as int
        } else {
            0
        },
{
    let mark = "pid="@;
    reveal_strlit("pid=");
    law_text_pieces(s, mark, i);
    let rest = s.skip(i + 4);
    if occurs_at(s, mark, i) && (forall|j: int| 0 <= j < i ==> !#[trigger] occurs_at(s, mark, j))
        && rest == d + seq![c] + b {
        let after = text_pieces(s, mark);
        assert(after == seq![s.take(i)] + text_pieces(rest, mark));
        lemma_first_piece(rest, mark);
        let first = text_pieces(rest, mark)[0];
        assert(after[1] == first);
        assert(rest.take(d.len() as int) =~= d);
        assert(rest[d.len() as int] == c);
        assert(first.len() > d.len()) by {
            let k = first.len() as int;
            if k <= d.len() && k < rest.len() {
                assert(occurs_at(rest, mark, k));
                assert(rest.subrange(k, k + 4)[0] == 'p');
                assert(rest[k] == 'p');
                if k < d.len() {
                    assert(rest[k] == d[k]);
                }
            }
        }
        assert forall|k: int| 0 <= k < d.len() implies is_digit(#[trigger] first[k]) by {
            assert(first[k] == rest[k] && rest[k] == d[k]);
        }
        assert(first[d.len() as int] == c);
        lemma_run_of(first, d.len() as int);
        assert(leading_digits(first) =~= d);
        law_unsigned_numbers(d, u32::MAX as nat);
    }
}

/// The first piece of a text is its front, up to the first occurrence of the separator.
proof fn lemma_first_piece(s: Text, p: Text)
    requires
        p.len() > 0,
    ensures
        text_pieces(s, p).len() > 0,
        text_pieces(s, p)[0].len() <= s.len(),
        text_pieces(s, p)[0] == s.take(text_pieces(s, p)[0].len() as int),
        text_pieces(s, p)[0].len() < s.len() ==> occurs_at(
            s,
            p,
            text_pieces(s, p)[0].len() as int,
        ),
{
    lemma_match_of(s, p);
    assert(s.take(s.len() as int) =~= s);
}

/// What a port is commonly used for, over all ports.
pub proof fn law_well_known_ports(port: u32)
    ensures
        port == 21 ==> well_known(port) == "ftp"@,
        port == 22 ==> well_known(port) == "ssh"@,
        port == 23 ==> well_known(port) == "telnet"@,
        port == 25 ==> well_known(port) == "smtp"@,
        port == 53 ==> well_known(port) == "dns"@,
        port == 80 ==> well_known(port) == "http"@,
        port == 110 ==> well_known(port) == "pop3"@,
        port == 111 ==> well_known(port) == "rpcbind"@,
        port == 139 || port == 445 ==> well_known(port) == "smb"@,
        port == 143 ==> well_known(port) == "imap"@,
        port == 443 ==> well_known(port) == "https"@,
        port == 631 ==> well_known(port) == "cups"@,
        port == 3306 ==> well_known(port) == "mysql"@,
        port == 3389 ==> well_known(port) == "rdp"@,
        port == 5432 ==> well_known(port) == "postgres"@,
        port == 5900 ==> well_known(port) == "vnc"@,
        port == 6379 ==> well_known(port) == "redis"@,
        port == 8080 ==> well_known(port) == "http-alt"@,
        port == 9050 ==> well_known(port) == "tor"@,
        port == 27017 ==> well_known(port) == "mongodb"@,
        well_known(port) != ""@ ==> seq![
            21u32,
            22,
            23,
            25,
            53,
            80,
            110,
            111,
            139,
            143,
            443,
            445,
            631,
            3306,
            3389,
            5432,
            5900,
            6379,
            8080,
            9050,
            27017,
        ].contains(port),
{
    let all = seq![
        21u32,
        22,
        23,
        25,
        53,
        80,
        110,
        111,
        139,
        143,
        443,
        445,
        631,
        3306,
        3389,
        5432,
        5900,
        6379,
        8080,
        9050,
        27017,
    ];
    assert(all[0] == 21 && all[1] == 22 && all[2] == 23 && all[3] == 25 && all[4] == 53);
    assert(all[5] == 80 && all[6] == 110 && all[7] == 111 && all[8] == 139 && all[9] == 143);
    assert(all[10] == 443 && all[11] == 445 && all[12] == 631 && all[13] == 3306);
    assert(all[14] == 3389 && all[15] == 5432 && all[16] == 5900 && all[17] == 6379);
    assert(all[18] == 8080 && all[19] == 9050 && all[20] == 27017);
}

/// The rows that are shown leave nothing out: for every socket a row of the same port, protocol and
/// process is shown, and no two rows next to each other agree in all three.
pub proof fn law_every_service_is_shown(rows: Seq<PortRow>, k: int)
    requires
        0 <= k < rows.len(),
    ensures
        ({
            let r = collapsed(sorted(rows));
            &&& exists|i: int|
                0 <= i < r.len() && (#[trigger] r[i]).port == rows[k].port && r[i].proto@
                    == rows[k].proto@ && r[i].process@ == rows[k].process@ && (rows[k].exposed
                    ==> r[i].exposed)
            &&& forall|i: int|
                0 < i < r.len() ==> !((#[trigger] r[i]).port == r[i - 1].port && r[i].proto@ == r[i
                    - 1].proto@ && r[i].process@ == r[i - 1].process@)
        }),
{
    law_ports_are_collapsed(rows);
    let r = collapsed(sorted(rows));
    assert(shown_in(r, rows[k]));
    if rows[k].exposed {
        assert(exposed_in(r, rows[k]));
        let i = choose|i: int| 0 <= i < r.len() && alike(rows[k], #[trigger] r[i]) && r[i].exposed;
        assert(r[i].port == rows[k].port);
    } else {
        let i = choose|i: int| 0 <= i < r.len() && alike(rows[k], #[trigger] r[i]);
        assert(r[i].port == rows[k].port);
    }
    assert forall|i: int| 0 < i < r.len() implies !((#[trigger] r[i]).port == r[i - 1].port
        && r[i].proto@ == r[i - 1].proto@ && r[i].process@ == r[i - 1].process@) by {
        assert(!alike(r[i], r[i - 1]));
    }
}

/// The order of the rows: none that the network cannot reach stands before one that it can, and
/// among the others lower ports stand first, then protocols by name.
pub proof fn law_the_order_of_rows(rows: Seq<PortRow>, i: int, j: int)
    requires
        0 <= i < j < collapsed(sorted(rows)).len(),
    ensures
        ({
            let (a, b) = (collapsed(sorted(rows))[i], collapsed(sorted(rows))[j]);
            &&& b.exposed ==> a.exposed
            &&& a.exposed == b.exposed ==> a.port <= b.port
            &&& a.exposed == b.exposed && a.port == b.port ==> !precedes(b.proto@, a.proto@)
        }),
{
    law_ports_are_collapsed(rows);
    assert(!collapsed(sorted(rows))[j].ranks(collapsed(sorted(rows))[i]));
}

/// The order of the interfaces: those that are connected stand first, and within each part they
/// stand by name.
pub proof fn law_the_order_of_interfaces(v: Seq<Iface>, i: int, j: int)
    requires
        0 <= i < j < sorted(v).len(),
    ensures
        ({
            let (a, b) = (sorted(v)[i], sorted(v)[j]);
            &&& b.up ==> a.up
            &&& a.up == b.up ==> !precedes(b.name@, a.name@)
        }),
{
    law_sorted(v);
    assert(!sorted(v)[j].ranks(sorted(v)[i]));
}

/// The unit is the first of the texts that ends in `.service`.
pub proof fn law_first_unit(v: Seq<Text>, i: int)
    ensures
        (forall|j: int| 0 <= j < v.len() ==> !finishes(#[trigger] v[j], ".service"@)) ==> first_unit(
            v,
        ).len() == 0,
        0 <= i < v.len() && finishes(v[i], ".service"@) && (forall|j: int|
            0 <= j < i ==> !finishes(#[trigger] v[j], ".service"@)) ==> first_unit(v) == v[i],
    decreases v.len(),
{
    if v.len() > 0 && !finishes(v[0], ".service"@) {
        let w = v.skip(1);
        law_first_unit(w, i - 1);
        if forall|j: int| 0 <= j < v.len() ==> !finishes(#[trigger] v[j], ".service"@) {
            assert forall|j: int| 0 <= j < w.len() implies !finishes(
                #[trigger] w[j],
                ".service"@,
            ) by {
                assert(w[j] == v[j + 1]);
            }
        }
        if 0 <= i < v.len() && finishes(v[i], ".service"@) && (forall|j: int|
            0 <= j < i ==> !finishes(#[trigger] v[j], ".service"@)) {
            assert(w[i - 1] == v[i]);
            assert forall|j: int| 0 <= j < i - 1 implies !finishes(
                #[trigger] w[j],
                ".service"@,
            ) by {
                assert(w[j] == v[j + 1]);
            }
        }
    } else if v.len() > 0 && 0 <= i && (forall|j: int|
        0 <= j < i ==> !finishes(#[trigger] v[j], ".service"@)) {
        assert(i == 0);
    }
}

/// A row has a unit only where its process is known, and the unit is that of the control group; the
/// rest of the row stays.
pub proof fn law_units_go_by_process(p: PortView, cgroup: Text)
    ensures
        ({
            let r = with_unit(p, cgroup);
            &&& p.pid == 0 ==> r.unit.len() == 0
            &&& p.pid > 0 ==> r.unit == unit_in(cgroup)
            &&& r.exposed == p.exposed && r.port == p.port && r.addr == p.addr
            &&& r.proto == p.proto && r.process == p.process && r.pid == p.pid
            &&& r.service == p.service
        }),
{
}

/// A name is taken for a service unit exactly where it is at most 128 characters long, ends in
/// `.service`, and is made of letters, digits and the marks `-`, `_`, `.` and `@`; and there is a
/// port exactly from 1 to 65535, of one of the two protocols.
pub proof fn law_what_is_accepted(u: Text, proto: Text, port: u32)
    ensures
        is_unit(u) <==> u.len() <= 128 && finishes(u, ".service"@) && forall|i: int|
            0 <= i < u.len() ==> {
                ||| '0' <= #[trigger] u[i] <= '9'
                ||| 'a' <= u[i] <= 'z'
                ||| 'A' <= u[i] <= 'Z'
                ||| u[i] == '-'
                ||| u[i] == '_'
                ||| u[i] == '.'
                ||| u[i] == '@'
            },
        is_port(proto, port) <==> (proto == "tcp"@ || proto == "udp"@) && 1 <= port <= 65535,
{
    assert forall|i: int| 0 <= i < u.len() implies (unit_char(#[trigger] u[i]) <==> {
        ||| '0' <= u[i] <= '9'
        ||| 'a' <= u[i] <= 'z'
        ||| 'A' <= u[i] <= 'Z'
        ||| u[i] == '-'
        ||| u[i] == '_'
        ||| u[i] == '.'
        ||| u[i] == '@'
    }) by {}
}

/// The script that closes a port names that port and that protocol, and drops.
pub proof fn law_the_script_drops_the_port(proto: Text, port: u32)
    ensures
        finishes(
            block_script(proto, port),
            proto + " dport "@ + decimal(port as nat) + " drop"@,
        ),
{
    let head =
        "nft add table inet arxos_harden 2>/dev/null; nft 'add chain inet arxos_harden input { type filter hook input priority 0 ; policy accept ; }' 2>/dev/null; nft add rule inet arxos_harden input "@;
    let tail = proto + " dport "@ + decimal(port as nat) + " drop"@;
    assert(block_script(proto, port) =~= head + tail);
    assert((head + tail).skip(head.len() as int) =~= tail);
}

// ---------- what is read of the interfaces ----------
/// The counters of a line: the name before the colon, the first number behind it and the ninth; a
/// line without a colon, of loopback, without a name or with fewer than nine numbers gives none.
pub proof fn law_counters(line: Text, head: Text, rest: Text)
    requires
        lacks(head, ':'),
    ensures
        lacks(trimmed(line), ':') ==> counter_of(line) is None,
        trimmed(line) == head + seq![':'] + rest ==> {
            &&& counter_of(line) is Some <==> !blank(head) && trimmed(head) != "lo"@ && words(
                rest,
            ).len() >= 9
            &&& counter_of(line) matches Some(c) ==> {
                &&& c.name == trimmed(head)
                &&& c.rx == match unsigned_value(words(rest)[0], u64::MAX as nat) {
                    Some(n) => n as int,
                    None => 0,
                }
                &&& c.tx == match unsigned_value(words(rest)[8], u64::MAX as nat) {
                    Some(n) => n as int,
                    None => 0,
                }
            }
        },
{
    law_parted(head, ':', rest);
    law_trimmed(head);
    if lacks(trimmed(line), ':') {
        law_parted(trimmed(line), ':', seq![]);
    }
}

/// The address of a line: the word behind the first `inet`, up to the stroke, of the interface that
/// is the second word.
pub proof fn law_address_of(line: Text, at: int, ip: Text, rest: Text)
    requires
        lacks(ip, '/'),
    ensures
        !words(line).contains("inet"@) ==> address_of(line) is None,
        0 <= at && at + 1 < words(line).len() && words(line)[at] == "inet"@ && (forall|j: int|
            0 <= j < at ==> #[trigger] words(line)[j] != "inet"@) && words(line)[at + 1] == ip + seq![
            '/',
        ] + rest ==> address_of(line) == Some((words(line)[1], ip)),
{
    lemma_place_of(words(line), "inet"@, at);
    law_pieces(ip, '/', rest);
}

proof fn lemma_place_of(v: Seq<Text>, t: Text, i: int)
    ensures
        !v.contains(t) ==> place_of(v, t) == v.len(),
        0 <= i < v.len() && v[i] == t && (forall|j: int| 0 <= j < i ==> #[trigger] v[j] != t)
            ==> place_of(v, t) == i,
    decreases v.len(),
{
    if v.len() > 0 && v[0] != t {
        let w = v.skip(1);
        lemma_place_of(w, t, i - 1);
        if !v.contains(t) {
            assert forall|j: int| 0 <= j < w.len() implies #[trigger] w[j] != t by {
                assert(w[j] == v[j + 1]);
            }
            assert(!w.contains(t));
        }
        if 0 <= i < v.len() && v[i] == t && (forall|j: int| 0 <= j < i ==> #[trigger] v[j] != t) {
            assert(w[i - 1] == v[i]);
            assert forall|j: int| 0 <= j < i - 1 implies #[trigger] w[j] != t by {
                assert(w[j] == v[j + 1]);
            }
        }
    } else if v.len() > 0 {
        assert(v.contains(t));
        if 0 <= i && (forall|j: int| 0 <= j < i ==> #[trigger] v[j] != t) {
            assert(i == 0);
        }
    }
}

/// An interface has its first address: that of the first line that names one for it; and none where
/// no line does.
pub proof fn law_the_first_address_counts(v: Seq<Text>, name: Text, i: int)
    ensures
        (forall|j: int|
            0 <= j < v.len() ==> !(address_of(#[trigger] v[j]) matches Some(p) && p.0 == name))
            ==> lookup(addresses_of(v), name) is None,
        0 <= i < v.len() && (address_of(v[i]) matches Some(p) && p.0 == name) && (forall|j: int|
            0 <= j < i ==> !(address_of(#[trigger] v[j]) matches Some(p) && p.0 == name)) ==> lookup(
            addresses_of(v),
            name,
        ) == Some((address_of(v[i])->0).1),
    decreases v.len(),
{
    if v.len() > 0 {
        let w = v.drop_last();
        assert forall|j: int| 0 <= j < w.len() implies w[j] == #[trigger] v[j] by {}
        law_the_first_address_counts(w, name, i);
        if let Some(p) = address_of(v.last()) {
            lemma_lookup_push(addresses_of(w), p, name);
        }
        if forall|j: int|
            0 <= j < v.len() ==> !(address_of(#[trigger] v[j]) matches Some(p) && p.0 == name) {
            assert forall|j: int| 0 <= j < w.len() implies !(address_of(#[trigger] w[j]) matches Some(
                p,
            ) && p.0 == name) by {
                assert(w[j] == v[j]);
            }
            assert(!(address_of(v[v.len() - 1]) matches Some(p) && p.0 == name));
        }
        if 0 <= i < v.len() && (address_of(v[i]) matches Some(p) && p.0 == name) && (forall|j: int|
            0 <= j < i ==> !(address_of(#[trigger] v[j]) matches Some(p) && p.0 == name)) {
            assert forall|j: int| 0 <= j < i implies !(address_of(#[trigger] w[j]) matches Some(p)
                && p.0 == name) by {
                assert(w[j] == v[j]);
            }
        }
    }
}

proof fn lemma_lookup_push(v: Seq<(Text, Text)>, p: (Text, Text), key: Text)
    ensures
        lookup(v.push(p), key) == match lookup(v, key) {
            Some(x) => Some(x),
            None => if p.0 == key {
                Some(p.1)
            } else {
                None
            },
        },
    decreases v.len(),
{
    let w = v.push(p);
    if v.len() == 0 {
        assert(w.skip(1).len() == 0);
    } else {
        assert(w.skip(1) =~= v.skip(1).push(p));
        lemma_lookup_push(v.skip(1), p, key);
    }
}

/// What an interface has carried is known only where the last sample is more than fifty milliseconds
/// old; it is then the growth of each counter, or nothing where a counter fell, and the time between.
pub proof fn law_growth(p: Sample, rx: u64, tx: u64, now: u128)
    ensures
        growth_since(None, rx, tx, now) is None,
        growth_since(Some(p), rx, tx, now) is Some <==> now > p.at + 50_000_000,
        growth_since(Some(p), rx, tx, now) matches Some(g) ==> {
            &&& g.nanos == now - p.at
            &&& g.rx == if rx >= p.rx {
                rx - p.rx
            } else {
                0
            }
            &&& g.tx == if tx >= p.tx {
                tx - p.tx
            } else {
                0
            }
        },
{
}

/// An interface is up exactly where the kernel calls it so or it has a carrier; its address is the
/// one that is listed for it; its totals are its counters; its speed is the number that the kernel
/// gives, and -1 where it gives none; and its kind is wireless before ethernet before virtual.
pub proof fn law_what_is_shown_of_an_interface(x: Rated, ips: Seq<(Text, Text)>)
    ensures
        ({
            let i = described(x, ips);
            &&& i.name == x.counter.name@
            &&& i.up <==> trimmed(x.link.operstate@) == "up"@ || trimmed(x.link.carrier@) == "1"@
            &&& lookup(ips, i.name) matches Some(a) ==> i.ip == a
            &&& lookup(ips, i.name) is None ==> i.ip == ""@
            &&& i.rx_total == x.counter.rx && i.tx_total == x.counter.tx
            &&& i.rx_bps == x.rx_bps && i.tx_bps == x.tx_bps
            &&& i.link_mbps == match signed_value(
                trimmed(x.link.speed@),
                -0x8000_0000_0000_0000,
                0x7fff_ffff_ffff_ffff,
            ) {
                Some(n) => n,
                None => -1,
            }
            &&& x.link.wireless ==> i.kind == "wireless"@
            &&& !x.link.wireless && x.link.device ==> i.kind == "ethernet"@
            &&& !x.link.wireless && !x.link.device ==> i.kind == "virtual"@
        }),
{
}

/// The unit that owns a process is the first part of its control group that ends in `.service`,
/// whatever line it stands on.
pub proof fn law_the_unit_of_a_control_group(cgroup: Text)
    ensures
        unit_in(cgroup) == first_unit(
            pieces(
                cgroup.map_values(
                    |c: char|
                        if c == '\n' {
                            '/'
                        } else {
                            c
                        },
                ),
                '/',
            ),
        ),
{
    reveal_strlit("\n");
    reveal_strlit("/");
    assert("\n"@ =~= seq!['\n']);
    assert("/"@ =~= seq!['/']);
    law_replaced_characters(cgroup, '\n', '/');
}

/// Each row has the unit of the control group at its own place.
pub proof fn law_each_row_has_its_own_unit(v: Seq<PortView>, cgroups: Seq<Text>, i: int)
    requires
        0 <= i < v.len(),
    ensures
        with_units(v, cgroups).len() == v.len(),
        i < cgroups.len() ==> with_units(v, cgroups)[i] == with_unit(v[i], cgroups[i]),
        i >= cgroups.len() ==> with_units(v, cgroups)[i] == with_unit(v[i], Seq::<char>::empty()),
{
}

/// The process of a socket is read out of what follows `users:` on its line.
pub proof fn law_the_process_follows_its_mark(line: Text, i: int)
    requires
        occurs_at(line, "users:"@, i),
        forall|j: int| j != i ==> !#[trigger] occurs_at(line, "users:"@, j),
    ensures
        port_of(line) matches Some(p) ==> (p.process, p.pid) == process_of(line.skip(i + 6)),
{
    let mark = "users:"@;
    reveal_strlit("users:");
    law_text_pieces(line, mark, i);
    let rest = line.skip(i + 6);
    assert(!carries(rest, mark)) by {
        if carries(rest, mark) {
            let k = choose|k: int| occurs_at(rest, mark, k);
            assert(rest.subrange(k, k + 6) =~= line.subrange(i + 6 + k, i + 12 + k));
            assert(occurs_at(line, mark, i + 6 + k));
        }
    }
    law_text_pieces(rest, mark, 0);
    assert(text_pieces(line, mark)[1] == rest);
}

/// Each interface stands in the list of addresses once, and what stands there is what some line
/// says.
pub proof fn law_each_interface_is_listed_once(v: Seq<Text>)
    ensures
        forall|i: int, j: int|
            0 <= i < j < addresses_of(v).len() ==> (#[trigger] addresses_of(v)[i]).0 != (
            #[trigger] addresses_of(v)[j]).0,
        forall|i: int|
            0 <= i < addresses_of(v).len() ==> exists|k: int|
                0 <= k < v.len() && address_of(#[trigger] v[k]) == Some(
                    #[trigger] addresses_of(v)[i],
                ),
    decreases v.len(),
{
    if v.len() > 0 {
        let w = v.drop_last();
        law_each_interface_is_listed_once(w);
        let a = addresses_of(w);
        assert forall|i: int| 0 <= i < addresses_of(v).len() implies exists|k: int|
            0 <= k < v.len() && address_of(#[trigger] v[k]) == Some(
                #[trigger] addresses_of(v)[i],
            ) by {
            if i < a.len() {
                assert(addresses_of(v)[i] == a[i]);
                let k = choose|k: int|
                    0 <= k < w.len() && address_of(#[trigger] w[k]) == Some(a[i]);
                assert(v[k] == w[k]);
            } else {
                assert(v[v.len() - 1] == v.last());
            }
        }
        if addresses_of(v).len() > a.len() {
            let p = address_of(v.last())->0;
            assert forall|i: int| 0 <= i < a.len() implies (#[trigger] a[i]).0 != p.0 by {
                if a[i].0 == p.0 {
                    lemma_lookup_some(a, i);
                }
            }
        }
    }
}

proof fn lemma_lookup_some(v: Seq<(Text, Text)>, i: int)
    requires
        0 <= i < v.len(),
    ensures
        lookup(v, v[i].0) is Some,
    decreases v.len(),
{
    if v[0].0 != v[i].0 {
        assert(v.skip(1)[i - 1] == v[i]);
        lemma_lookup_some(v.skip(1), i - 1);
    }
}

/// A socket's process and id at the ends of what is known: a name whose closing mark is missing is
/// taken as it is, an id may end the text, and one that does not begin with a digit is none.
pub proof fn law_processes_at_the_edge(a: Text, name: Text, s: Text, i: int, d: Text)
    requires
        lacks(a, '"'),
        lacks(name, '"'),
        occurs_at(s, "pid="@, i),
        forall|j: int| j != i ==> !#[trigger] occurs_at(s, "pid="@, j),
    ensures
        process_of(a + seq!['"'] + name).0 == name,
        s.skip(i + 4) == d && numeral(d) ==> process_of(s).1 == if digits_value(d) <= u32::MAX {
            digits_value(d) as int
        } else {
            0
        },
        s.skip(i + 4).len() > 0 && !('0' <= s.skip(i + 4)[0] <= '9') ==> process_of(s).1 == 0,
        s.skip(i + 4).len() == 0 ==> process_of(s).1 == 0,
{
    law_pieces(a, '"', name);
    law_pieces(name, '"', seq![]);
    assert(pieces(a + seq!['"'] + name, '"')[1] == name);
    let mark = "pid="@;
    reveal_strlit("pid=");
    law_text_pieces(s, mark, i);
    let rest = s.skip(i + 4);
    assert(!carries(rest, mark)) by {
        if carries(rest, mark) {
            let k = choose|k: int| occurs_at(rest, mark, k);
            assert(rest.subrange(k, k + 4) =~= s.subrange(i + 4 + k, i + 8 + k));
            assert(occurs_at(s, mark, i + 4 + k));
        }
    }
    law_text_pieces(rest, mark, 0);
    assert(text_pieces(s, mark)[1] == rest);
    if rest == d && numeral(d) {
        assert forall|k: int| 0 <= k < d.len() implies is_digit(#[trigger] rest[k]) by {
            assert('0' <= d[k] <= '9');
        }
        lemma_run_of(rest, d.len() as int);
        assert(leading_digits(rest) =~= d);
        law_unsigned_numbers(d, u32::MAX as nat);
    } else if rest.len() == 0 || !('0' <= rest[0] <= '9') {
        lemma_run_of(rest, 0);
        assert(leading_digits(rest).len() == 0);
        law_no_other_unsigned_numbers(leading_digits(rest), u32::MAX as nat);
    }
}

/// An address without a stroke is taken whole, and an `inet` that nothing follows names none.
pub proof fn law_addresses_at_the_edge(line: Text, at: int)
    requires
        0 <= at < words(line).len(),
        words(line)[at] == "inet"@,
        forall|j: int| 0 <= j < at ==> #[trigger] words(line)[j] != "inet"@,
    ensures
        at + 1 == words(line).len() ==> address_of(line) is None,
        at + 1 < words(line).len() && lacks(words(line)[at + 1], '/') ==> address_of(line) == Some(
            (words(line)[1], words(line)[at + 1]),
        ),
{
    lemma_place_of(words(line), "inet"@, at);
    if at + 1 < words(line).len() && lacks(words(line)[at + 1], '/') {
        law_pieces(words(line)[at + 1], '/', seq![]);
    }
}

} // verus!
