//! The performance panel: what the kernel tells of the processor, and the settings that it takes.
use vstd::prelude::*;
use vstd::string::StringExecFns;

use crate::anond::{listed, lists};
use crate::number::{
    law_no_other_unsigned_numbers, parse_signed, parse_unsigned, signed_value, unsigned_value,
};
use crate::plan::{Command, CommandView, cmd, command, commands};
use crate::sysinfo::{nth_or_zero, numbers_in};
use crate::text::{
    Text, begins, carries, chars_of, contains, digit, is_digit, line_texts, lines, opt_text,
    same, split_words, starts_with, strs, texts, trim, trimmed, words,
};

verus! {

/// Where the kernel keeps what it tells of the processors.
pub const CPU: &'static str = "/sys/devices/system/cpu";

/// The words of a file that lists choices.
pub fn list(s: &str) -> (v: Vec<String>)
    ensures
        texts(v@) == words(s@),
{
    split_words(s)
}

/// A core: its frequency in MHz and its load out of 100.
#[derive(Clone, Copy, PartialEq, Eq, Structural, Debug)]
pub struct Core {
    pub id: usize,
    pub mhz: u64,
    pub load: u8,
}

/// The state of the processor.
pub struct PerfStatus {
    pub driver: String,
    pub governor: String,
    pub governors: Vec<String>,
    pub epp: String,
    pub epps: Vec<String>,
    pub min_mhz: u64,
    pub max_mhz: u64,
    pub hw_max_mhz: u64,
    pub turbo: bool,
    pub turbo_supported: bool,
    pub temp_c: i32,
    pub cores: Vec<Core>,
}

/// The model of a [`PerfStatus`].
#[verifier::ext_equal]
pub struct PerfStatusView {
    pub driver: Text,
    pub governor: Text,
    pub governors: Seq<Text>,
    pub epp: Text,
    pub epps: Seq<Text>,
    pub min_mhz: u64,
    pub max_mhz: u64,
    pub hw_max_mhz: u64,
    pub turbo: bool,
    pub turbo_supported: bool,
    pub temp_c: i32,
    pub cores: Seq<Core>,
}

impl View for PerfStatus {
    type V = PerfStatusView;

    open spec fn view(&self) -> PerfStatusView {
        PerfStatusView {
            driver: self.driver@,
            governor: self.governor@,
            governors: texts(self.governors@),
            epp: self.epp@,
            epps: texts(self.epps@),
            min_mhz: self.min_mhz,
            max_mhz: self.max_mhz,
            hw_max_mhz: self.hw_max_mhz,
            turbo: self.turbo,
            turbo_supported: self.turbo_supported,
            temp_c: self.temp_c,
            cores: self.cores@,
        }
    }
}

// ---------- load ----------
/// The sum of numbers.
pub open spec fn sum_of(v: Seq<u64>) -> nat
    decreases v.len(),
{
    if v.len() == 0 {
        0
    } else {
        sum_of(v.drop_last()) + v.last() as nat
    }
}

/// The ticks of a core: how many it was idle, and how many there were.
pub struct Ticks {
    pub idle: u128,
    pub total: u128,
}

/// The model of [`Ticks`].
pub struct TicksView {
    pub idle: nat,
    pub total: nat,
}

impl View for Ticks {
    type V = TicksView;

    open spec fn view(&self) -> TicksView {
        TicksView { idle: self.idle as nat, total: self.total as nat }
    }
}

pub open spec fn ticks_views(v: Seq<Ticks>) -> Seq<TicksView> {
    v.map_values(|t: Ticks| t@)
}

/// All texts of a list but the first.
pub open spec fn rest_of(v: Seq<Text>) -> Seq<Text> {
    if v.len() > 0 {
        v.skip(1)
    } else {
        v
    }
}

/// The ticks of a line of `/proc/stat`, where it is that of one core. Of the numbers behind its
/// name the fourth and fifth count idle ticks.
pub open spec fn ticks_of(line: Text) -> Option<TicksView> {
    if begins(line, "cpu"@) && line.len() > 3 && is_digit(line[3]) {
        let v = numbers_in(rest_of(words(line)));
        Some(
            TicksView {
                idle: nth_or_zero(v, 3) as nat + nth_or_zero(v, 4) as nat,
                total: sum_of(v),
            },
        )
    } else {
        None
    }
}

pub open spec fn samples_of(v: Seq<Text>) -> Seq<TicksView>
    decreases v.len(),
{
    if v.len() == 0 {
        seq![]
    } else {
        match ticks_of(v.last()) {
            Some(t) => samples_of(v.drop_last()).push(t),
            None => samples_of(v.drop_last()),
        }
    }
}

proof fn lemma_sum_bound(v: Seq<u64>)
    ensures
        sum_of(v) <= v.len() * 0xffff_ffff_ffff_ffff,
    decreases v.len(),
{
    if v.len() > 0 {
        lemma_sum_bound(v.drop_last());
        assert(v.len() * 0xffff_ffff_ffff_ffff == (v.len() - 1) * 0xffff_ffff_ffff_ffff
            + 0xffff_ffff_ffff_ffff) by (nonlinear_arith);
    }
}

fn add_up(v: &Vec<u64>) -> (n: u128)
    ensures
        n == sum_of(v@),
{
    let mut n: u128 = 0;
    let mut i: usize = 0;
    assert(sum_of(v@.take(0)) == 0);
    while i < v.len()
        invariant
            i <= v@.len(),
            n == sum_of(v@.take(i as int)),
        decreases v@.len() - i,
    {
        assert(v@.take(i + 1).drop_last() =~= v@.take(i as int));
        proof {
            lemma_sum_bound(v@.take(i as int));
            assert(i * 0xffff_ffff_ffff_ffff <= 0xffff_ffff_ffff_ffff * 0xffff_ffff_ffff_ffff)
                by (nonlinear_arith)
                requires
                    0 <= i <= 0xffff_ffff_ffff_ffff,
            ;
        }
        n = n + v[i] as u128;
        i += 1;
    }
    assert(v@.take(v@.len() as int) =~= v@);
    n
}

fn tail_numbers(w: &Vec<String>) -> (r: Vec<u64>)
    ensures
        r@ == numbers_in(rest_of(texts(w@))),
{
    let ghost t = rest_of(texts(w@));
    let mut r: Vec<u64> = Vec::new();
    let mut i: usize = 1;
    assert(r@ =~= numbers_in(t.take(0)));
    if w.len() == 0 {
        assert(t.len() == 0);
        return r;
    }
    while i < w.len()
        invariant
            1 <= i <= w@.len(),
            t == rest_of(texts(w@)),
            r@ == numbers_in(t.take(i - 1)),
        decreases w@.len() - i,
    {
        assert(t.take(i as int).drop_last() =~= t.take(i - 1));
        assert(t.take(i as int).last() == w@[i as int]@);
        match parse_unsigned(w[i].as_str(), u64::MAX) {
            Some(n) => {
                r.push(n);
            },
            None => {},
        }
        i += 1;
    }
    assert(t.take(w@.len() - 1) =~= t);
    r
}

fn nth(v: &Vec<u64>, i: usize) -> (n: u64)
    ensures
        n == nth_or_zero(v@, i as int),
{
    if i < v.len() {
        v[i]
    } else {
        0
    }
}

fn read_ticks(line: &str) -> (r: Option<Ticks>)
    ensures
        (match r {
            Some(t) => Some(t@),
            None => None,
        }) == ticks_of(line@),
{
    let c = chars_of(line);
    if !starts_with(line, "cpu") || c.len() <= 3 || !digit(c[3]) {
        return None;
    }
    let w = split_words(line);
    let v = tail_numbers(&w);
    Some(Ticks { idle: nth(&v, 3) as u128 + nth(&v, 4) as u128, total: add_up(&v) })
}

/// The ticks of each core, out of `/proc/stat`.
pub fn stat_sample(stat: &str) -> (r: Vec<Ticks>)
    ensures
        ticks_views(r@) == samples_of(line_texts(stat@)),
{
    let all = lines(stat);
    let ghost t = line_texts(stat@);
    let mut r: Vec<Ticks> = Vec::new();
    let mut i: usize = 0;
    assert(ticks_views(r@) =~= samples_of(t.take(0)));
    while i < all.len()
        invariant
            i <= all@.len(),
            t == texts(all@),
            t == line_texts(stat@),
            ticks_views(r@) == samples_of(t.take(i as int)),
        decreases all@.len() - i,
    {
        assert(t.take(i + 1).drop_last() =~= t.take(i as int));
        assert(t.take(i + 1).last() == all@[i as int]@);
        let ghost before = r@;
        match read_ticks(all[i].as_str()) {
            Some(x) => {
                r.push(x);
                assert(ticks_views(r@) =~= ticks_views(before).push(x@));
            },
            None => {},
        }
        i += 1;
    }
    assert(t.take(all@.len() as int) =~= t);
    r
}

pub open spec fn minus(a: nat, b: nat) -> nat {
    if a > b {
        (a - b) as nat
    } else {
        0
    }
}

/// The load of a core between two samples, out of 100: what is left of the ticks that passed when
/// the idle ones are taken off.
pub open spec fn load_between(a: TicksView, b: TicksView) -> u8 {
    let passed = minus(b.total, a.total);
    let idle = minus(b.idle, a.idle);
    if passed == 0 {
        0
    } else if idle * 100 / passed >= 100 {
        0
    } else {
        (100 - idle * 100 / passed) as u8
    }
}

/// The load of a core between two samples, out of 100.
fn core_load(a: &Ticks, b: &Ticks) -> (n: u8)
    requires
        b.idle <= 0x1_ffff_ffff_ffff_ffff,
    ensures
        n == load_between(a@, b@),
        n <= 100,
{
    let passed: u128 = if b.total > a.total {
        b.total - a.total
    } else {
        0
    };
    let idle: u128 = if b.idle > a.idle {
        b.idle - a.idle
    } else {
        0
    };
    if passed == 0 {
        return 0;
    }
    let share: u128 = idle * 100 / passed;
    assert(share == (idle as nat) * 100 / (passed as nat));
    if share >= 100 {
        0
    } else {
        100 - share as u8
    }
}

// ---------- temperature ----------
/// A number of thousandths, without its fraction.
pub open spec fn whole_part(t: int) -> int {
    if t >= 0 {
        t / 1000
    } else {
        -((-t) / 1000)
    }
}

/// What a sensor tells: its kind, and its temperature in whole degrees where it can be read.
pub open spec fn degrees(temp: Option<Text>) -> Option<int> {
    match temp {
        Some(t) => match signed_value(trimmed(t), i32::MIN as int, i32::MAX as int) {
            Some(n) => Some(whole_part(n)),
            None => None,
        },
        None => None,
    }
}

pub open spec fn is_package(kind: Text) -> bool {
    carries(kind, "x86_pkg_temp"@) || carries(kind, "coretemp"@)
}

/// The first sensor of the package that can be read.
pub open spec fn package_temp(v: Seq<(Text, Option<Text>)>) -> Option<int>
    decreases v.len(),
{
    if v.len() == 0 {
        None
    } else if package_temp(v.drop_last()) is Some {
        package_temp(v.drop_last())
    } else if is_package(v.last().0) {
        degrees(v.last().1)
    } else {
        None
    }
}

/// The hottest sensor that can be read.
pub open spec fn hottest(v: Seq<(Text, Option<Text>)>) -> Option<int>
    decreases v.len(),
{
    if v.len() == 0 {
        None
    } else {
        match (hottest(v.drop_last()), degrees(v.last().1)) {
            (Some(a), Some(b)) => if b > a {
                Some(b)
            } else {
                Some(a)
            },
            (None, Some(b)) => Some(b),
            (a, None) => a,
        }
    }
}

/// The temperature of the processor: the sensor of the package, else the hottest one, else zero.
pub open spec fn temperature(v: Seq<(Text, Option<Text>)>) -> int {
    match package_temp(v) {
        Some(t) => t,
        None => match hottest(v) {
            Some(t) => t,
            None => 0,
        },
    }
}

pub open spec fn zone_texts(v: Seq<(String, Option<String>)>) -> Seq<(Text, Option<Text>)> {
    v.map_values(|z: (String, Option<String>)| (z.0@, opt_text(z.1)))
}

fn read_degrees(temp: &Option<String>) -> (r: Option<i32>)
    ensures
        (match r {
            Some(n) => Some(n as int),
            None => None,
        }) == degrees(opt_text(*temp)),
{
    match temp {
        Some(t) => {
            let s = trim(t.as_str());
            match parse_signed(s.as_str()) {
                Some(n) => {
                    if n < i32::MIN as i64 || n > i32::MAX as i64 {
                        return None;
                    }
                    if n >= 0 {
                        Some((n / 1000) as i32)
                    } else {
                        let m: i64 = -n;
                        Some(-((m / 1000) as i32))
                    }
                },
                None => None,
            }
        },
        None => None,
    }
}

/// The temperature of the processor, out of the sensors in the order in which they are found: the
/// kind of each, and what its temperature file holds, in thousandths of a degree.
pub fn cpu_temp_c(zones: &Vec<(String, Option<String>)>) -> (r: i32)
    ensures
        r == temperature(zone_texts(zones@)),
{
    proof {
        reveal_strlit("x86_pkg_temp");
        reveal_strlit("coretemp");
    }
    let ghost all = zone_texts(zones@);
    let mut best: Option<i32> = None;
    let mut i: usize = 0;
    assert(package_temp(all.take(0)) is None);
    assert(hottest(all.take(0)) is None);
    while i < zones.len()
        invariant
            i <= zones@.len(),
            all == zone_texts(zones@),
            "x86_pkg_temp"@.len() > 0,
            "coretemp"@.len() > 0,
            package_temp(all.take(i as int)) is None,
            (match best {
                Some(n) => Some(n as int),
                None => None,
            }) == hottest(all.take(i as int)),
        decreases zones@.len() - i,
    {
        assert(all.take(i + 1).drop_last() =~= all.take(i as int));
        assert(all.take(i + 1).last() == all[i as int]);
        let d = read_degrees(&zones[i].1);
        match d {
            Some(c) => {
                if contains(zones[i].0.as_str(), "x86_pkg_temp") || contains(
                    zones[i].0.as_str(),
                    "coretemp",
                ) {
                    assert(package_temp(all.take(i + 1)) == Some(c as int));
                    proof {
                        lemma_package_stays(all, i + 1);
                    }
                    return c;
                }
                best = match best {
                    Some(b) => if c > b {
                        Some(c)
                    } else {
                        Some(b)
                    },
                    None => Some(c),
                };
            },
            None => {},
        }
        i += 1;
    }
    assert(all.take(zones@.len() as int) =~= all);
    match best {
        Some(b) => b,
        None => 0,
    }
}

proof fn lemma_package_stays(v: Seq<(Text, Option<Text>)>, i: int)
    requires
        0 <= i <= v.len(),
        package_temp(v.take(i)) is Some,
    ensures
        package_temp(v) == package_temp(v.take(i)),
    decreases v.len() - i,
{
    if i < v.len() {
        assert(v.take(i + 1).drop_last() =~= v.take(i));
        lemma_package_stays(v, i + 1);
    } else {
        assert(v.take(i) =~= v);
    }
}

// ---------- status ----------
/// A frequency in MHz, out of a file in kHz.
pub open spec fn mhz_of(file: Text) -> u64 {
    match unsigned_value(trimmed(file), u64::MAX as nat) {
        Some(n) => (n / 1000) as u64,
        None => 0,
    }
}

/// A frequency in MHz, out of a file in kHz; zero where it does not tell.
pub fn khz(file: &str) -> (n: u64)
    ensures
        n == mhz_of(file@),
{
    match parse_unsigned(trim(file).as_str(), u64::MAX) {
        Some(n) => n / 1000,
        None => 0,
    }
}

/// What the state of the processor is read from: files by their names, two samples of `/proc/stat`
/// a little apart.
pub struct PerfSources<'a> {
    pub driver: &'a str,
    pub governor: &'a str,
    pub governors: &'a str,
    pub epp: &'a str,
    pub epps: &'a str,
    pub min_freq: &'a str,
    pub max_freq: &'a str,
    pub hw_max_freq: &'a str,
    pub no_turbo: Option<&'a str>,
    pub boost: Option<&'a str>,
    pub stat_before: &'a str,
    pub stat_after: &'a str,
}

/// Whether turbo is on, and whether it can be switched.
pub open spec fn turbo_of(no_turbo: Option<Text>, boost: Option<Text>) -> (bool, bool) {
    match no_turbo {
        Some(t) => (trimmed(t) == "0"@, true),
        None => match boost {
            Some(t) => (trimmed(t) == "1"@, true),
            None => (false, false),
        },
    }
}

pub open spec fn opt_borrowed(o: Option<&str>) -> Option<Text> {
    match o {
        Some(s) => Some(s@),
        None => None,
    }
}

/// The core of a number: its frequency, and its load where both samples have it.
pub open spec fn core_at(
    a: Seq<TicksView>,
    b: Seq<TicksView>,
    freqs: Seq<Text>,
    i: int,
) -> Core {
    Core {
        id: i as usize,
        mhz: if i < freqs.len() {
            mhz_of(freqs[i])
        } else {
            0
        },
        load: if i < a.len() && i < b.len() {
            load_between(a[i], b[i])
        } else {
            0
        },
    }
}

/// The state of the processor, out of these sources, the current frequency of each core, and the
/// sensors.
pub open spec fn perf_of(
    s: PerfSources,
    freqs: Seq<Text>,
    zones: Seq<(Text, Option<Text>)>,
) -> PerfStatusView {
    let a = samples_of(line_texts(s.stat_before@));
    let b = samples_of(line_texts(s.stat_after@));
    let (turbo, turbo_supported) = turbo_of(opt_borrowed(s.no_turbo), opt_borrowed(s.boost));
    PerfStatusView {
        driver: trimmed(s.driver@),
        governor: trimmed(s.governor@),
        governors: words(s.governors@),
        epp: trimmed(s.epp@),
        epps: words(s.epps@),
        min_mhz: mhz_of(s.min_freq@),
        max_mhz: mhz_of(s.max_freq@),
        hw_max_mhz: mhz_of(s.hw_max_freq@),
        turbo,
        turbo_supported,
        temp_c: temperature(zones) as i32,
        cores: Seq::new(b.len(), |i: int| core_at(a, b, freqs, i)),
    }
}

proof fn lemma_idle_bound(v: Seq<Text>)
    ensures
        forall|i: int|
            0 <= i < samples_of(v).len() ==> (#[trigger] samples_of(v)[i]).idle
                <= 0x1_ffff_ffff_ffff_ffff,
    decreases v.len(),
{
    if v.len() > 0 {
        lemma_idle_bound(v.drop_last());
        let r = samples_of(v.drop_last());
        assert forall|i: int| 0 <= i < samples_of(v).len() implies (#[trigger] samples_of(v)[i]).idle
            <= 0x1_ffff_ffff_ffff_ffff by {
            if i < r.len() {
                assert(samples_of(v)[i] == r[i]);
            }
        }
    }
}

fn read_turbo(no_turbo: Option<&str>, boost: Option<&str>) -> (r: (bool, bool))
    ensures
        r == turbo_of(opt_borrowed(no_turbo), opt_borrowed(boost)),
{
    match no_turbo {
        Some(t) => (same(trim(t).as_str(), "0"), true),
        None => match boost {
            Some(t) => (same(trim(t).as_str(), "1"), true),
            None => (false, false),
        },
    }
}

fn read_cores(before: &str, after: &str, freqs: &Vec<String>) -> (r: Vec<Core>)
    ensures
        ({
            let a = samples_of(line_texts(before@));
            let b = samples_of(line_texts(after@));
            r@ == Seq::new(b.len(), |i: int| core_at(a, b, texts(freqs@), i))
        }),
{
    let x = stat_sample(before);
    let y = stat_sample(after);
    let ghost a = samples_of(line_texts(before@));
    let ghost b = samples_of(line_texts(after@));
    proof {
        lemma_idle_bound(line_texts(after@));
        assert(ticks_views(y@).len() == y@.len());
        assert(ticks_views(x@).len() == x@.len());
    }
    let mut r: Vec<Core> = Vec::new();
    let mut i: usize = 0;
    while i < y.len()
        invariant
            i <= y@.len(),
            a == ticks_views(x@),
            b == ticks_views(y@),
            a.len() == x@.len(),
            b.len() == y@.len(),
            forall|k: int| 0 <= k < b.len() ==> (#[trigger] b[k]).idle <= 0x1_ffff_ffff_ffff_ffff,
            r@ == Seq::new(i as nat, |k: int| core_at(a, b, texts(freqs@), k)),
        decreases y@.len() - i,
    {
        assert(b[i as int] == y@[i as int]@);
        let load: u8 = if i < x.len() {
            assert(a[i as int] == x@[i as int]@);
            core_load(&x[i], &y[i])
        } else {
            0
        };
        let mhz: u64 = if i < freqs.len() {
            assert(texts(freqs@)[i as int] == freqs@[i as int]@);
            khz(freqs[i].as_str())
        } else {
            0
        };
        let ghost before = r@;
        r.push(Core { id: i, mhz, load });
        assert(r@ =~= Seq::new((i + 1) as nat, |k: int| core_at(a, b, texts(freqs@), k)));
        i += 1;
    }
    assert(r@ =~= Seq::new(b.len(), |k: int| core_at(a, b, texts(freqs@), k)));
    r
}

/// The state of the processor.
pub fn perf_status(
    s: &PerfSources,
    freqs: &Vec<String>,
    zones: &Vec<(String, Option<String>)>,
) -> (r: PerfStatus)
    ensures
        r@ == perf_of(*s, texts(freqs@), zone_texts(zones@)),
{
    let (turbo, turbo_supported) = read_turbo(s.no_turbo, s.boost);
    PerfStatus {
        driver: trim(s.driver),
        governor: trim(s.governor),
        governors: list(s.governors),
        epp: trim(s.epp),
        epps: list(s.epps),
        min_mhz: khz(s.min_freq),
        max_mhz: khz(s.max_freq),
        hw_max_mhz: khz(s.hw_max_freq),
        turbo,
        turbo_supported,
        temp_c: cpu_temp_c(zones),
        cores: read_cores(s.stat_before, s.stat_after, freqs),
    }
}

// ---------- settings ----------
/// The command that writes a value to an attribute of every core, as root.
pub open spec fn all_command(attr: Text, value: Text) -> CommandView {
    cmd(
        "pkexec"@,
        seq![
            "bash"@,
            "-c"@,
            "for f in "@ + CPU@ + "/cpu*/cpufreq/"@ + attr + "; do printf '%s' '"@ + value
                + "' > \"$f\" 2>/dev/null; done"@,
        ],
    )
}

/// The command that writes a value to a file, as root.
pub open spec fn root_command(path: Text, value: Text) -> CommandView {
    cmd("pkexec"@, seq!["bash"@, "-c"@, "printf '%s' '"@ + value + "' > '"@ + path + "'"@])
}

fn write_all(attr: &str, value: &str) -> (c: Command)
    ensures
        c@ == all_command(attr@, value@),
{
    let script = "for f in ".to_owned().concat(CPU).concat("/cpu*/cpufreq/").concat(attr).concat(
        "; do printf '%s' '",
    ).concat(value).concat("' > \"$f\" 2>/dev/null; done");
    let c = command("pkexec", &["bash", "-c", script.as_str()]);
    assert(c@.args =~= all_command(attr@, value@).args);
    c
}

fn write_root(path: &str, value: &str) -> (c: Command)
    ensures
        c@ == root_command(path@, value@),
{
    let script = "printf '%s' '".to_owned().concat(value).concat("' > '").concat(path).concat("'");
    let c = command("pkexec", &["bash", "-c", script.as_str()]);
    assert(c@.args =~= root_command(path@, value@).args);
    c
}

/// What applying a setting came to.
pub fn applied(success: bool) -> (r: Result<(), String>)
    ensures
        (r is Ok) == success,
        r matches Err(e) ==> e@ == "could not apply (authorization declined?)"@,
{
    if success {
        Ok(())
    } else {
        Err("could not apply (authorization declined?)".to_owned())
    }
}

/// The command that sets a governor. Only what the kernel lists is set.
pub fn perf_set_governor(governor: &str, available: &str) -> (r: Result<Command, String>)
    ensures
        (r is Ok) == lists(words(available@), governor@),
        r matches Ok(c) ==> c@ == all_command("scaling_governor"@, governor@),
        r matches Err(e) ==> e@ == "this CPU does not offer the '"@ + governor@ + "' governor"@,
{
    if !listed(list(available).as_slice(), governor) {
        return Err(
            "this CPU does not offer the '".to_owned().concat(governor).concat("' governor"),
        );
    }
    Ok(write_all("scaling_governor", governor))
}

/// The command that sets an energy preference. Only what the kernel lists is set.
pub fn perf_set_epp(epp: &str, available: &str) -> (r: Result<Command, String>)
    ensures
        (r is Ok) == lists(words(available@), epp@),
        r matches Ok(c) ==> c@ == all_command("energy_performance_preference"@, epp@),
        r matches Err(e) ==> e@ == "this CPU does not offer the '"@ + epp@ + "' preference"@,
{
    if !listed(list(available).as_slice(), epp) {
        return Err("this CPU does not offer the '".to_owned().concat(epp).concat("' preference"));
    }
    Ok(write_all("energy_performance_preference", epp))
}

/// The command that switches turbo, given which of the two switches the kernel has.
pub open spec fn turbo_command(on: bool, no_turbo: bool, boost: bool) -> Option<CommandView> {
    if no_turbo {
        Some(
            root_command(
                CPU@ + "/intel_pstate/no_turbo"@,
                if on {
                    "0"@
                } else {
                    "1"@
                },
            ),
        )
    } else if boost {
        Some(
            root_command(
                CPU@ + "/cpufreq/boost"@,
                if on {
                    "1"@
                } else {
                    "0"@
                },
            ),
        )
    } else {
        None
    }
}

/// The command that switches turbo.
pub fn perf_set_turbo(on: bool, no_turbo: bool, boost: bool) -> (r: Result<Command, String>)
    ensures
        match turbo_command(on, no_turbo, boost) {
            Some(c) => r matches Ok(x) && x@ == c,
            None => r matches Err(e) && e@ == "turbo/boost is not controllable on this CPU"@,
        },
{
    if no_turbo {
        let path = CPU.to_owned().concat("/intel_pstate/no_turbo");
        let value = if on {
            "0"
        } else {
            "1"
        };
        Ok(write_root(path.as_str(), value))
    } else if boost {
        let path = CPU.to_owned().concat("/cpufreq/boost");
        let value = if on {
            "1"
        } else {
            "0"
        };
        Ok(write_root(path.as_str(), value))
    } else {
        Err("turbo/boost is not controllable on this CPU".to_owned())
    }
}

/// The first of some candidates that a list holds.
pub open spec fn first_listed(candidates: Seq<Text>, v: Seq<Text>) -> Option<Text>
    decreases candidates.len(),
{
    if candidates.len() == 0 {
        None
    } else if lists(v, candidates[0]) {
        Some(candidates[0])
    } else {
        first_listed(candidates.skip(1), v)
    }
}

fn pick(candidates: &[&str], have: &Vec<String>) -> (r: Option<String>)
    ensures
        opt_text(r) == first_listed(strs(candidates@), texts(have@)),
{
    let ghost all = strs(candidates@);
    let n: usize = candidates.len();
    let mut i: usize = 0;
    assert(all.skip(0) =~= all);
    while i < n
        invariant
            i <= n == candidates@.len(),
            all == strs(candidates@),
            first_listed(all.skip(i as int), texts(have@)) == first_listed(all, texts(have@)),
        decreases n - i,
    {
        assert(all.skip(i as int)[0] == candidates@[i as int]@);
        if listed(have.as_slice(), candidates[i]) {
            return Some(candidates[i].to_owned());
        }
        assert(all.skip(i as int).skip(1) =~= all.skip(i + 1));
        i += 1;
    }
    None
}

/// A profile: the governors that suit it, the best first, the energy preference, and turbo.
pub struct Profile {
    pub governors: Seq<Text>,
    pub epp: Text,
    pub turbo: bool,
}

pub open spec fn profile_of(name: Text) -> Option<Profile> {
    if name == "performance"@ {
        Some(Profile { governors: seq!["performance"@], epp: "performance"@, turbo: true })
    } else if name == "balanced"@ {
        Some(
            Profile {
                governors: seq!["schedutil"@, "ondemand"@, "powersave"@],
                epp: "balance_performance"@,
                turbo: true,
            },
        )
    } else if name == "powersave"@ {
        Some(
            Profile {
                governors: seq!["powersave"@, "conservative"@, "schedutil"@],
                epp: "power"@,
                turbo: false,
            },
        )
    } else {
        None
    }
}

/// The commands that a profile takes, each of which has to succeed: the governor, where the kernel
/// has a suitable one, and the energy preference, where the kernel has that.
pub open spec fn profile_commands(p: Profile, governors: Seq<Text>, epps: Seq<Text>) -> Seq<
    CommandView,
> {
    (match first_listed(p.governors, governors) {
        Some(g) => seq![all_command("scaling_governor"@, g)],
        None => seq![],
    }) + (if lists(epps, p.epp) {
        seq![all_command("energy_performance_preference"@, p.epp)]
    } else {
        seq![]
    })
}

/// What applying a profile takes.
pub struct Applying {
    /// The commands that have to succeed, one after the other.
    pub required: Vec<Command>,
    /// The command that switches turbo, whose failure is passed over.
    pub turbo: Option<Command>,
}

/// What applying a profile takes, given what the kernel lists and which switches it has for turbo.
pub fn perf_apply_profile(
    profile: &str,
    governors: &str,
    epps: &str,
    no_turbo: bool,
    boost: bool,
) -> (r: Result<Applying, String>)
    ensures
        match profile_of(profile@) {
            Some(p) => r matches Ok(a) && commands(a.required@) == profile_commands(
                p,
                words(governors@),
                words(epps@),
            ) && (match a.turbo {
                Some(c) => Some(c@),
                None => None,
            }) == turbo_command(p.turbo, no_turbo, boost),
            None => r matches Err(e) && e@ == "unknown profile"@,
        },
{
    let have = list(governors);
    let prefs = list(epps);
    let ghost p = profile_of(profile@);
    let (governor, epp, turbo) = if same(profile, "performance") {
        let c = ["performance"];
        assert(strs(c@) =~= p->0.governors);
        (pick(&c, &have), "performance", true)
    } else if same(profile, "balanced") {
        let c = ["schedutil", "ondemand", "powersave"];
        assert(strs(c@) =~= p->0.governors);
        (pick(&c, &have), "balance_performance", true)
    } else if same(profile, "powersave") {
        let c = ["powersave", "conservative", "schedutil"];
        assert(strs(c@) =~= p->0.governors);
        (pick(&c, &have), "power", false)
    } else {
        return Err("unknown profile".to_owned());
    };
    let mut required: Vec<Command> = Vec::new();
    match governor {
        Some(g) => {
            required.push(write_all("scaling_governor", g.as_str()));
        },
        None => {},
    }
    if listed(prefs.as_slice(), epp) {
        required.push(write_all("energy_performance_preference", epp));
    }
    assert(commands(required@) =~= profile_commands(p->0, words(governors@), words(epps@)));
    let turbo = match perf_set_turbo(turbo, no_turbo, boost) {
        Ok(c) => Some(c),
        Err(_) => None,
    };
    Ok(Applying { required, turbo })
}

/// Whether a command sets a governor or an energy preference that the kernel lists.
pub open spec fn sets_what_is_offered(c: CommandView, governors: Seq<Text>, epps: Seq<Text>) -> bool {
    ||| exists|g: Text| lists(governors, g) && c == #[trigger] all_command("scaling_governor"@, g)
    ||| exists|e: Text|
        lists(epps, e) && c == #[trigger] all_command("energy_performance_preference"@, e)
}

/// Only what the kernel lists is ever written: every command that a profile takes sets a value that
/// the kernel offers for that setting.
pub proof fn law_profiles_set_only_what_is_offered(
    p: Profile,
    governors: Seq<Text>,
    epps: Seq<Text>,
    i: int,
)
    requires
        0 <= i < profile_commands(p, governors, epps).len(),
    ensures
        sets_what_is_offered(profile_commands(p, governors, epps)[i], governors, epps),
{
    lemma_first_listed(p.governors, governors);
}

proof fn lemma_first_listed(candidates: Seq<Text>, v: Seq<Text>)
    ensures
        first_listed(candidates, v) matches Some(g) ==> lists(v, g) && lists(candidates, g),
    decreases candidates.len(),
{
    if candidates.len() > 0 {
        if lists(v, candidates[0]) {
            assert(lists(candidates, candidates[0]));
        } else {
            lemma_first_listed(candidates.skip(1), v);
            if let Some(g) = first_listed(candidates, v) {
                let rest = candidates.skip(1);
                let i = choose|i: int| 0 <= i < rest.len() && #[trigger] rest[i] == g;
                assert(candidates[i + 1] == g);
            }
        }
    }
}

// ---------- what is read, over all inputs ----------
/// The load is the share of the ticks that were not idle, out of a hundred, with the idle share
/// rounded down; it is nothing where no tick passed.
pub proof fn law_load(a: TicksView, b: TicksView)
    ensures
        b.total <= a.total ==> load_between(a, b) == 0,
        load_between(a, b) <= 100,
        b.total > a.total && b.idle <= a.idle ==> load_between(a, b) == 100,
        b.total > a.total && b.idle > a.idle && b.idle - a.idle >= b.total - a.total
            ==> load_between(a, b) == 0,
        b.total > a.total && b.idle > a.idle && b.idle - a.idle < b.total - a.total ==> {
            let passed = b.total - a.total;
            let idle = b.idle - a.idle;
            let rest = 100 - load_between(a, b);
            rest * passed <= 100 * idle < (rest + 1) * passed
        },
{
    if b.total > a.total {
        let passed: int = b.total - a.total;
        let idle: int = minus(b.idle, a.idle) as int;
        let q: int = idle * 100 / passed;
        assert(q * passed <= 100 * idle < (q + 1) * passed) by (nonlinear_arith)
            requires
                q == idle * 100 / passed,
                passed > 0,
                idle >= 0,
        ;
        if idle == 0 {
            assert(q == 0) by (nonlinear_arith)
                requires
                    q == 0int * 100 / passed,
                    passed > 0,
            ;
        } else if idle >= passed {
            assert(q >= 100) by (nonlinear_arith)
                requires
                    100 * idle < (q + 1) * passed,
                    idle >= passed,
                    passed > 0,
            ;
        } else {
            assert(0 <= q < 100) by (nonlinear_arith)
                requires
                    q * passed <= 100 * idle,
                    100 * idle < (q + 1) * passed,
                    0 < idle < passed,
                    passed > 0,
            ;
        }
    }
}

/// A line is that of one core exactly where it begins with `cpu` and a digit. Of the numbers behind
/// the name the fourth and the fifth are idle, and all of them make the total.
pub proof fn law_ticks(line: Text)
    ensures
        ticks_of(line) is Some <==> begins(line, "cpu"@) && line.len() > 3 && '0' <= line[3] <= '9',
        words(line).len() > 0 ==> (ticks_of(line) matches Some(t) ==> {
            let v = numbers_in(words(line).skip(1));
            &&& t.total == sum_of(v)
            &&& v.len() >= 5 ==> t.idle == v[3] + v[4]
            &&& v.len() == 4 ==> t.idle == v[3]
            &&& v.len() < 4 ==> t.idle == 0
        }),
{
}

/// The sum of numbers is what is left when one of them is taken off, and that one.
pub proof fn law_sum(v: Seq<u64>, n: u64)
    ensures
        sum_of(Seq::<u64>::empty()) == 0,
        sum_of(v.push(n)) == sum_of(v) + n,
{
    assert(v.push(n).drop_last() =~= v);
}

/// The lines are read one by one: each gives the ticks of its core or none, in order.
pub proof fn law_samples_are_read_one_by_one(v: Seq<Text>)
    ensures
        samples_of(v) == v.filter_map(|line: Text| ticks_of(line)),
    decreases v.len(),
{
    if v.len() > 0 {
        law_samples_are_read_one_by_one(v.drop_last());
    }
}

/// Thousandths lose their fraction towards zero.
pub proof fn law_whole_part(t: int)
    ensures
        t >= 0 ==> 1000 * whole_part(t) <= t < 1000 * whole_part(t) + 1000,
        t <= 0 ==> 1000 * whole_part(t) - 1000 < t <= 1000 * whole_part(t),
{
}

/// A sensor tells a temperature exactly where it can be read and holds a number that fits.
pub proof fn law_degrees(t: Text)
    ensures
        degrees(None) is None,
        degrees(Some(t)) == match signed_value(trimmed(t), -0x8000_0000, 0x7fff_ffff) {
            Some(n) => Some(whole_part(n)),
            None => None,
        },
{
}

/// Whether a sensor is one of the package and can be read.
pub open spec fn tells_package(z: (Text, Option<Text>)) -> bool {
    (carries(z.0, "x86_pkg_temp"@) || carries(z.0, "coretemp"@)) && degrees(z.1) is Some
}

/// The temperature is that of the first sensor of the package that can be read. Where none can, it is
/// that of a sensor that no other exceeds; where no sensor can be read, it is zero.
pub proof fn law_temperature(v: Seq<(Text, Option<Text>)>, i: int)
    ensures
        0 <= i < v.len() && tells_package(v[i]) && (forall|j: int|
            0 <= j < i ==> !tells_package(#[trigger] v[j])) ==> temperature(v) == degrees(v[i].1)->0,
        (forall|j: int| 0 <= j < v.len() ==> !tells_package(#[trigger] v[j])) ==> {
            &&& forall|j: int|
                #![trigger v[j]]
                0 <= j < v.len() ==> (degrees(v[j].1) matches Some(d) ==> d <= temperature(v))
            &&& (exists|j: int|
                #![trigger v[j]]
                0 <= j < v.len() && degrees(v[j].1) == Some(temperature(v))) || temperature(v) == 0
            &&& (forall|j: int| #![trigger v[j]] 0 <= j < v.len() ==> degrees(v[j].1) is None)
                ==> temperature(v) == 0
        },
{
    lemma_package_temp(v, i);
    lemma_hottest(v);
}

proof fn lemma_package_temp(v: Seq<(Text, Option<Text>)>, i: int)
    ensures
        0 <= i < v.len() && tells_package(v[i]) && (forall|j: int|
            0 <= j < i ==> !tells_package(#[trigger] v[j])) ==> package_temp(v) == degrees(v[i].1),
        (forall|j: int| 0 <= j < v.len() ==> !tells_package(#[trigger] v[j])) ==> package_temp(
            v,
        ) is None,
    decreases v.len(),
{
    if v.len() > 0 {
        let w = v.drop_last();
        lemma_package_temp(w, i);
        if forall|j: int| 0 <= j < v.len() ==> !tells_package(#[trigger] v[j]) {
            assert forall|j: int| 0 <= j < w.len() implies !tells_package(#[trigger] w[j]) by {
                assert(w[j] == v[j]);
            }
            assert(!tells_package(v[v.len() - 1]));
        }
        if 0 <= i < v.len() && tells_package(v[i]) && (forall|j: int|
            0 <= j < i ==> !tells_package(#[trigger] v[j])) {
            assert forall|j: int| 0 <= j < i && j < w.len() implies !tells_package(
                #[trigger] w[j],
            ) by {
                assert(w[j] == v[j]);
            }
            if i < w.len() {
                assert(w[i] == v[i]);
            } else {
                assert forall|j: int| 0 <= j < w.len() implies !tells_package(#[trigger] w[j]) by {
                    assert(w[j] == v[j]);
                }
            }
        }
    }
}

proof fn lemma_hottest(v: Seq<(Text, Option<Text>)>)
    ensures
        forall|j: int|
            #![trigger v[j]]
            0 <= j < v.len() ==> (degrees(v[j].1) matches Some(d) ==> hottest(v) is Some && d
                <= hottest(v)->0),
        hottest(v) is Some ==> exists|j: int|
            #![trigger v[j]]
            0 <= j < v.len() && degrees(v[j].1) == hottest(v),
    decreases v.len(),
{
    if v.len() > 0 {
        let w = v.drop_last();
        lemma_hottest(w);
        assert forall|j: int| #![trigger v[j]] 0 <= j < v.len() implies (degrees(v[j].1) matches Some(
            d,
        ) ==> hottest(v) is Some && d <= hottest(v)->0) by {
            if j < w.len() {
                assert(w[j] == v[j]);
            }
        }
        if hottest(v) is Some {
            if hottest(v) == degrees(v.last().1) {
                assert(v[v.len() - 1] == v.last());
            } else {
                let j = choose|j: int|
                    #![trigger w[j]]
                    0 <= j < w.len() && degrees(w[j].1) == hottest(w);
                assert(v[j] == w[j]);
            }
        }
    }
}

/// A frequency in kHz is shown in whole MHz; a file that holds no number shows nothing.
pub proof fn law_frequencies(file: Text)
    ensures
        unsigned_value(trimmed(file), u64::MAX as nat) is None ==> mhz_of(file) == 0,
        unsigned_value(trimmed(file), u64::MAX as nat) matches Some(n) ==> 1000 * mhz_of(file) <= n
            && n < 1000 * mhz_of(file) + 1000,
{
    law_no_other_unsigned_numbers(trimmed(file), u64::MAX as nat);
}

/// Turbo is on where the switch that turns it off says `0`, or, where there is no such switch, the
/// one that turns it on says `1`; it can be switched wherever there is one of the two.
pub proof fn law_turbo(off: Option<Text>, on: Option<Text>)
    ensures
        off matches Some(t) ==> turbo_of(off, on) == (trimmed(t) == "0"@, true),
        off is None && on is Some ==> turbo_of(off, on) == (trimmed(on->0) == "1"@, true),
        off is None && on is None ==> turbo_of(off, on) == (false, false),
{
}

/// Switching turbo writes to the switch that there is: `0` for on to the one that turns it off, and
/// `1` for on to the other; where there is none nothing is written.
pub proof fn law_turbo_is_switched(on: bool, no_turbo: bool, boost: bool)
    ensures
        no_turbo ==> turbo_command(on, no_turbo, boost) == Some(
            root_command(
                "/sys/devices/system/cpu"@ + "/intel_pstate/no_turbo"@,
                if on {
                    "0"@
                } else {
                    "1"@
                },
            ),
        ),
        !no_turbo && boost ==> turbo_command(on, no_turbo, boost) == Some(
            root_command(
                "/sys/devices/system/cpu"@ + "/cpufreq/boost"@,
                if on {
                    "1"@
                } else {
                    "0"@
                },
            ),
        ),
        turbo_command(on, no_turbo, boost) is None <==> !no_turbo && !boost,
{
}

/// The state of the processor: each core that the second sample has, under its number, with its own
/// frequency, and with the load between the two samples where both have it.
pub proof fn law_each_core_is_shown(
    s: PerfSources,
    freqs: Seq<Text>,
    zones: Seq<(Text, Option<Text>)>,
    i: int,
)
    ensures
        ({
            let p = perf_of(s, freqs, zones);
            let a = samples_of(line_texts(s.stat_before@));
            let b = samples_of(line_texts(s.stat_after@));
            &&& p.cores.len() == b.len()
            &&& 0 <= i < b.len() && i <= usize::MAX ==> {
                &&& p.cores[i].id == i
                &&& i < freqs.len() ==> p.cores[i].mhz == mhz_of(freqs[i])
                &&& i >= freqs.len() ==> p.cores[i].mhz == 0
                &&& i < a.len() ==> p.cores[i].load == load_between(a[i], b[i])
                &&& i >= a.len() ==> p.cores[i].load == 0
            }
            &&& p.driver == trimmed(s.driver@) && p.governor == trimmed(s.governor@)
            &&& p.governors == words(s.governors@) && p.epps == words(s.epps@)
            &&& p.epp == trimmed(s.epp@)
            &&& p.min_mhz == mhz_of(s.min_freq@) && p.max_mhz == mhz_of(s.max_freq@)
            &&& p.hw_max_mhz == mhz_of(s.hw_max_freq@)
        }),
{
}

/// Of the candidates the first that the list holds is taken, and none where it holds none.
pub proof fn law_the_first_candidate_is_taken(candidates: Seq<Text>, v: Seq<Text>, i: int)
    ensures
        (forall|j: int| 0 <= j < candidates.len() ==> !v.contains(#[trigger] candidates[j]))
            ==> first_listed(candidates, v) is None,
        0 <= i < candidates.len() && v.contains(candidates[i]) && (forall|j: int|
            0 <= j < i ==> !v.contains(#[trigger] candidates[j])) ==> first_listed(candidates, v)
            == Some(candidates[i]),
    decreases candidates.len(),
{
    if candidates.len() > 0 && !lists(v, candidates[0]) {
        let w = candidates.skip(1);
        law_the_first_candidate_is_taken(w, v, i - 1);
        if forall|j: int| 0 <= j < candidates.len() ==> !v.contains(#[trigger] candidates[j]) {
            assert forall|j: int| 0 <= j < w.len() implies !v.contains(#[trigger] w[j]) by {
                assert(w[j] == candidates[j + 1]);
            }
        }
        if 0 <= i < candidates.len() && v.contains(candidates[i]) && (forall|j: int|
            0 <= j < i ==> !v.contains(#[trigger] candidates[j])) {
            assert(i > 0);
            assert(w[i - 1] == candidates[i]);
            assert forall|j: int| 0 <= j < i - 1 implies !v.contains(#[trigger] w[j]) by {
                assert(w[j] == candidates[j + 1]);
            }
        }
    } else if candidates.len() > 0 {
        assert(v.contains(candidates[0]));
        if 0 <= i && (forall|j: int| 0 <= j < i ==> !v.contains(#[trigger] candidates[j])) {
            assert(i == 0);
        }
    }
}

/// There are three profiles: the governors that each prefers, in order, its energy preference, and
/// whether it turns turbo on.
pub proof fn law_profiles(name: Text)
    ensures
        profile_of(name) is Some <==> name == "performance"@ || name == "balanced"@ || name
            == "powersave"@,
        name == "performance"@ ==> profile_of(name) == Some(
            Profile { governors: seq!["performance"@], epp: "performance"@, turbo: true },
        ),
        name == "balanced"@ ==> profile_of(name) == Some(
            Profile {
                governors: seq!["schedutil"@, "ondemand"@, "powersave"@],
                epp: "balance_performance"@,
                turbo: true,
            },
        ),
        name == "powersave"@ ==> profile_of(name) == Some(
            Profile {
                governors: seq!["powersave"@, "conservative"@, "schedutil"@],
                epp: "power"@,
                turbo: false,
            },
        ),
{
    reveal_strlit("performance");
    reveal_strlit("balanced");
    reveal_strlit("powersave");
    assert("performance"@.len() == 11 && "balanced"@.len() == 8 && "powersave"@.len() == 9);
}

/// A profile sets a governor exactly where the kernel has one that it prefers, and the energy
/// preference exactly where the kernel has it.
pub proof fn law_a_profile_sets_what_it_can(p: Profile, governors: Seq<Text>, epps: Seq<Text>)
    ensures
        ({
            let v = profile_commands(p, governors, epps);
            let g = first_listed(p.governors, governors);
            &&& v.len() == (if g is Some {
                1int
            } else {
                0
            }) + (if epps.contains(p.epp) {
                1int
            } else {
                0
            })
            &&& g is Some ==> v[0] == all_command("scaling_governor"@, g->0)
            &&& epps.contains(p.epp) ==> v.last() == all_command(
                "energy_performance_preference"@,
                p.epp,
            )
        }),
{
    if epps.contains(p.epp) {
        let i = choose|i: int| 0 <= i < epps.len() && epps[i] == p.epp;
        assert(epps[i] == p.epp);
    }
}

/// The commands write the value that was asked for: to that attribute of every core, or to that
/// file, as root.
pub proof fn law_values_are_written(attr: Text, path: Text, value: Text)
    ensures
        all_command(attr, value).bin == "pkexec"@ && all_command(attr, value).args.len() == 3,
        all_command(attr, value).args[2] == "for f in "@ + "/sys/devices/system/cpu"@
            + "/cpu*/cpufreq/"@ + attr + "; do printf '%s' '"@ + value
            + "' > \"$f\" 2>/dev/null; done"@,
        root_command(path, value) == cmd(
            "pkexec"@,
            seq!["bash"@, "-c"@, "printf '%s' '"@ + value + "' > '"@ + path + "'"@],
        ),
{
}

} // verus!
