//! What the Control Center shows of the system: read out of the files of the kernel, the output of
//! the system's tools, and the daemon's public snapshot.
use vstd::prelude::*;
use vstd::string::StringExecFns;

use crate::anond::{
    Layers, dns_word, i2p_word, killswitch_word, lemma_snapshot_is_flat, lemma_snapshot_words,
    snapshot_members, snapshot_text, tor_word,
};
use crate::json::{
    Node, NodeView, get_str, get_text, get_whole, inner, json_node, member_given, open_member,
    opt_node, or_text, pair_texts, read_node, str_member, text_or, whole_member,
};
use crate::number::{
    dec, decimal, law_decimal_reads_back, lemma_decimal, parse_unsigned, unsigned_value,
};
use crate::plan::{Command, cmd, command, owned};
use crate::reading::{blank, law_first_after, law_joined, law_replaced, law_trimmed};
use crate::text::{
    Class, Text, before, begins, carries, chars_of, contains, count_inked, find_after,
    first_after, following, hex_digit, inked, is_hex_digit, join, joined, lemma_precedes_total,
    lemma_precedes_transitive, line_texts, lines, lowered, opt_text, pieces, plain, precedes,
    replace, replaced, same, split_char, split_words, starts_with, strip_end, strip_start, strs,
    texts, to_lower, trim, trim_of, trim_start_of, trimmed, word_after, words,
};

verus! {

// ---------- the system ----------
/// The system at a glance. Memory is in kB.
pub struct SysInfo {
    pub host: String,
    pub distro: String,
    pub kernel: String,
    pub uptime: String,
    pub cpu: String,
    pub mem_used: u64,
    pub mem_total: u64,
    pub mem_type: String,
    pub load: String,
}

/// The model of a [`SysInfo`].
#[verifier::ext_equal]
pub struct SysInfoView {
    pub host: Text,
    pub distro: Text,
    pub kernel: Text,
    pub uptime: Text,
    pub cpu: Text,
    pub mem_used: u64,
    pub mem_total: u64,
    pub mem_type: Text,
    pub load: Text,
}

impl View for SysInfo {
    type V = SysInfoView;

    open spec fn view(&self) -> SysInfoView {
        SysInfoView {
            host: self.host@,
            distro: self.distro@,
            kernel: self.kernel@,
            uptime: self.uptime@,
            cpu: self.cpu@,
            mem_used: self.mem_used,
            mem_total: self.mem_total,
            mem_type: self.mem_type@,
            load: self.load@,
        }
    }
}

/// What `system_info` is read from: files by their names, the release that `uname -r` prints, and
/// the whole seconds since the start.
pub struct Sources<'a> {
    pub hostname: &'a str,
    pub os_release: &'a str,
    pub uname: &'a str,
    pub uptime: u64,
    pub cpuinfo: &'a str,
    pub meminfo: &'a str,
    pub hwinfo: &'a str,
    pub loadavg: &'a str,
}

/// Hours and minutes.
pub open spec fn uptime_text(secs: u64) -> Text {
    decimal((secs / 3600) as nat) + "h "@ + decimal((secs % 3600 / 60) as nat) + "m"@
}

pub open spec fn after_or(s: Text, p: Text, default: Text) -> Text {
    or_text(first_after(line_texts(s), p), default)
}

/// The number of a line of `meminfo`; zero where there is none.
pub open spec fn mem_value(meminfo: Text, key: Text) -> u64 {
    match first_after(line_texts(meminfo), key) {
        Some(rest) => if words(rest).len() > 0 {
            match unsigned_value(words(rest)[0], u64::MAX as nat) {
                Some(n) => n as u64,
                None => 0,
            }
        } else {
            0
        },
        None => 0,
    }
}

/// The kind of memory, and its speed where both are known.
pub open spec fn mem_kind(hwinfo: Text) -> Text {
    let kind = trimmed(after_or(hwinfo, "MEMTYPE="@, ""@));
    let speed = trimmed(after_or(hwinfo, "MEMSPEED="@, ""@));
    if kind.len() > 0 && speed.len() > 0 {
        kind + " · "@ + speed
    } else {
        kind
    }
}

/// The first words of a text, at most `n` of them.
pub open spec fn first_words(s: Text, n: nat) -> Seq<Text> {
    if words(s).len() <= n {
        words(s)
    } else {
        words(s).take(n as int)
    }
}

pub open spec fn info_of(s: Sources) -> SysInfoView {
    let total = mem_value(s.meminfo@, "MemTotal:"@);
    let available = mem_value(s.meminfo@, "MemAvailable:"@);
    SysInfoView {
        host: trimmed(s.hostname@),
        distro: match first_after(line_texts(s.os_release@), "PRETTY_NAME="@) {
            Some(v) => strip_end(Class::Quote, strip_start(Class::Quote, v)),
            None => "ArxOS"@,
        },
        kernel: trimmed(s.uname@),
        uptime: uptime_text(s.uptime),
        cpu: match first_after(line_texts(s.cpuinfo@), "model name"@) {
            Some(v) => strip_start(Class::ColonOrSpace, v),
            None => seq![],
        },
        mem_used: if total > available {
            (total - available) as u64
        } else {
            0
        },
        mem_total: total,
        mem_type: mem_kind(s.hwinfo@),
        load: joined(first_words(s.loadavg@, 3), " "@),
    }
}

fn find_or(s: &str, p: &str, default: &str) -> (r: String)
    ensures
        r@ == after_or(s@, p@, default@),
{
    match find_after(s, p) {
        Some(v) => v,
        None => default.to_owned(),
    }
}

fn read_mem(meminfo: &str, key: &str) -> (n: u64)
    ensures
        n == mem_value(meminfo@, key@),
{
    match find_after(meminfo, key) {
        Some(rest) => {
            let w = split_words(rest.as_str());
            assert(texts(w@).len() == w@.len());
            if w.len() > 0 {
                assert(texts(w@)[0] == w@[0]@);
                match parse_unsigned(w[0].as_str(), u64::MAX) {
                    Some(n) => n,
                    None => 0,
                }
            } else {
                0
            }
        },
        None => 0,
    }
}

fn read_mem_kind(hwinfo: &str) -> (s: String)
    ensures
        s@ == mem_kind(hwinfo@),
{
    let kind = trim(find_or(hwinfo, "MEMTYPE=", "").as_str());
    let speed = trim(find_or(hwinfo, "MEMSPEED=", "").as_str());
    if !kind.as_str().is_empty() && !speed.as_str().is_empty() {
        kind.concat(" · ").concat(speed.as_str())
    } else {
        kind
    }
}

/// The first words of a text, set apart by one blank each.
fn lead(s: &str, n: usize) -> (r: String)
    ensures
        r@ == joined(first_words(s@, n as nat), " "@),
{
    let mut w = split_words(s);
    let ghost all = w@;
    assert(texts(all).len() == all.len());
    if w.len() > n {
        w.truncate(n);
        assert(texts(w@) =~= texts(all).take(n as int));
    }
    join(w.as_slice(), " ")
}

/// The system at a glance.
pub fn system_info(s: &Sources) -> (r: SysInfo)
    ensures
        r@ == info_of(*s),
{
    let total = read_mem(s.meminfo, "MemTotal:");
    let available = read_mem(s.meminfo, "MemAvailable:");
    SysInfo {
        host: trim(s.hostname),
        distro: match find_after(s.os_release, "PRETTY_NAME=") {
            Some(v) => trim_of(Class::Quote, v.as_str()),
            None => "ArxOS".to_owned(),
        },
        kernel: trim(s.uname),
        uptime: dec(s.uptime / 3600).concat("h ").concat(
            dec(s.uptime % 3600 / 60).as_str(),
        ).concat("m"),
        cpu: match find_after(s.cpuinfo, "model name") {
            Some(v) => trim_start_of(Class::ColonOrSpace, v.as_str()),
            None => String::new(),
        },
        mem_used: if total > available {
            total - available
        } else {
            0
        },
        mem_total: total,
        mem_type: read_mem_kind(s.hwinfo),
        load: lead(s.loadavg, 3),
    }
}

// ---------- updates ----------
/// The number that the update ping left for the badge, where it left one.
pub fn cached_count(file: &str) -> (r: Option<u64>)
    ensures
        match unsigned_value(trimmed(file@), u64::MAX as nat) {
            Some(n) => r == Some(n as u64),
            None => r is None,
        },
{
    parse_unsigned(trim(file).as_str(), u64::MAX)
}

/// How many updates wait: what the ping left, else the lines of `arx outdated`.
pub fn updates_count(file: &str, outdated: &str) -> (n: u64)
    ensures
        n == match unsigned_value(trimmed(file@), u64::MAX as nat) {
            Some(k) => k,
            None => inked(line_texts(outdated@)),
        },
{
    match cached_count(file) {
        Some(n) => n,
        None => count_inked(outdated) as u64,
    }
}

/// The badge shows what the ping counted: the file that the ping leaves reads back as its number.
pub proof fn law_badge_shows_the_ping(updates: u64)
    ensures
        unsigned_value(trimmed(decimal(updates as nat)), u64::MAX as nat) == Some(updates as nat),
{
    let t = decimal(updates as nat);
    law_decimal_reads_back(updates as nat, u64::MAX as nat);
    lemma_decimal(updates as nat);
    assert(strip_start(Class::White, t) == t);
    assert(strip_end(Class::White, t) == t);
}

/// The breakdown of the updates by their source, given whether what `arx` printed is a document.
pub fn breakdown(is_document: bool, out: &str) -> (r: String)
    ensures
        r@ == if is_document {
            out@
        } else {
            "{\"pacman\":0,\"aur\":0,\"tools\":0,\"total\":0}"@
        },
{
    if is_document {
        out.to_owned()
    } else {
        "{\"pacman\":0,\"aur\":0,\"tools\":0,\"total\":0}".to_owned()
    }
}

/// The breakdown of the updates by their source: the JSON that `arx` prints, or one of zeros where
/// it prints none.
pub fn updates_breakdown(out: &str) -> (r: String)
    ensures
        r@ == if json_node(out@) is Some {
            out@
        } else {
            "{\"pacman\":0,\"aur\":0,\"tools\":0,\"total\":0}"@
        },
{
    breakdown(read_node(out).is_some(), out)
}

// ---------- kernels ----------
/// A kernel that is installed or can be.
pub struct Kernel {
    pub flavor: String,
    pub version: String,
    pub status: String,
    pub role: String,
    pub running: bool,
}

/// The model of a [`Kernel`].
#[verifier::ext_equal]
pub struct KernelView {
    pub flavor: Text,
    pub version: Text,
    pub status: Text,
    pub role: Text,
    pub running: bool,
}

impl View for Kernel {
    type V = KernelView;

    open spec fn view(&self) -> KernelView {
        KernelView {
            flavor: self.flavor@,
            version: self.version@,
            status: self.status@,
            role: self.role@,
            running: self.running,
        }
    }
}

pub open spec fn kernel_views(v: Seq<Kernel>) -> Seq<KernelView> {
    v.map_values(|k: Kernel| k@)
}

/// The kernel of a line: flavor, version, status and role, with a mark on the one that runs.
pub open spec fn kernel_of(line: Text) -> Option<KernelView> {
    let t = words(line);
    if t.len() < 3 || !begins(t[0], "linux-arxos"@) {
        None
    } else {
        Some(
            KernelView {
                flavor: t[0],
                version: t[1],
                status: t[2],
                role: trimmed(replaced(joined(t.skip(3), " "@), "*running"@, ""@)),
                running: carries(line, "*running"@),
            },
        )
    }
}

/// The kernels of a list of lines.
pub open spec fn kernels_of(v: Seq<Text>) -> Seq<KernelView>
    decreases v.len(),
{
    if v.len() == 0 {
        seq![]
    } else {
        match kernel_of(v.last()) {
            Some(k) => kernels_of(v.drop_last()).push(k),
            None => kernels_of(v.drop_last()),
        }
    }
}

fn read_kernel(line: &str) -> (r: Option<Kernel>)
    ensures
        (match r {
            Some(k) => Some(k@),
            None => None,
        }) == kernel_of(line@),
{
    let w = split_words(line);
    let ghost all = texts(w@);
    assert(all.len() == w@.len());
    if w.len() < 3 {
        return None;
    }
    assert(all[0] == w@[0]@ && all[1] == w@[1]@ && all[2] == w@[2]@);
    if !starts_with(w[0].as_str(), "linux-arxos") {
        return None;
    }
    proof {
        reveal_strlit("*running");
    }
    let mut tail: Vec<String> = Vec::new();
    let mut i: usize = 3;
    while i < w.len()
        invariant
            3 <= i <= w@.len(),
            all == texts(w@),
            texts(tail@) == all.subrange(3, i as int),
        decreases w@.len() - i,
    {
        let ghost before = tail@;
        let x = w[i].clone();
        tail.push(x);
        assert(texts(tail@) =~= texts(before).push(x@));
        assert(all.subrange(3, i + 1) =~= all.subrange(3, i as int).push(x@));
        i += 1;
    }
    assert(texts(tail@) =~= all.skip(3));
    let role = trim(replace(join(tail.as_slice(), " ").as_str(), "*running", "").as_str());
    Some(
        Kernel {
            flavor: w[0].clone(),
            version: w[1].clone(),
            status: w[2].clone(),
            role,
            running: contains(line, "*running"),
        },
    )
}

/// The kernels, as `arx kernels list` prints them.
pub fn kernels_list(out: &str) -> (r: Vec<Kernel>)
    ensures
        kernel_views(r@) == kernels_of(line_texts(out@)),
{
    let all = lines(out);
    let ghost t = line_texts(out@);
    let mut r: Vec<Kernel> = Vec::new();
    let mut i: usize = 0;
    assert(kernel_views(r@) =~= kernels_of(t.take(0)));
    while i < all.len()
        invariant
            i <= all@.len(),
            t == texts(all@),
            t == line_texts(out@),
            kernel_views(r@) == kernels_of(t.take(i as int)),
        decreases all@.len() - i,
    {
        assert(t.take(i + 1).drop_last() =~= t.take(i as int));
        assert(t.take(i + 1).last() == all@[i as int]@);
        let ghost before = r@;
        match read_kernel(all[i].as_str()) {
            Some(k) => {
                r.push(k);
                assert(kernel_views(r@) =~= kernel_views(before).push(k@));
            },
            None => {},
        }
        i += 1;
    }
    assert(t.take(all@.len() as int) =~= t);
    r
}

/// A flavor of the kernel.
pub struct KFlavor {
    pub name: String,
    pub role: String,
    pub base: String,
    pub current: String,
}

/// A tune that every kernel carries.
pub struct KTune {
    pub name: String,
    pub advantage: String,
}

/// A version of a kernel.
pub struct KHistory {
    pub flavor: String,
    pub version: String,
    pub upstream: String,
    pub date: String,
    pub status: String,
    pub changes: String,
}

/// The public history of the kernels.
pub struct KManifest {
    pub updated: String,
    pub flavors: Vec<KFlavor>,
    pub tunes: Vec<KTune>,
    pub history: Vec<KHistory>,
}

/// The members of a row, each a text.
pub open spec fn row(n: Option<NodeView>, keys: Seq<Text>) -> Seq<Text> {
    keys.map_values(|k: Text| or_text(str_member(n, k), ""@))
}

pub open spec fn flavor_keys() -> Seq<Text> {
    seq!["role"@, "base"@, "current"@]
}

pub open spec fn tune_keys() -> Seq<Text> {
    seq!["name"@, "advantage"@]
}

pub open spec fn history_keys() -> Seq<Text> {
    seq!["flavor"@, "version"@, "upstream"@, "date"@, "status"@, "changes"@]
}

pub open spec fn flavor_row(f: KFlavor) -> (Text, Seq<Text>) {
    (f.name@, seq![f.role@, f.base@, f.current@])
}

pub open spec fn tune_row(t: KTune) -> Seq<Text> {
    seq![t.name@, t.advantage@]
}

pub open spec fn history_row(h: KHistory) -> Seq<Text> {
    seq![h.flavor@, h.version@, h.upstream@, h.date@, h.status@, h.changes@]
}

/// The items of a member that is a list.
pub open spec fn items_of(n: Option<NodeView>, key: Text) -> Seq<Text> {
    match inner(n, key) {
        Some(NodeView::List(v)) => v,
        _ => seq![],
    }
}

/// The members of a member that is an object.
pub open spec fn members_of(n: Option<NodeView>, key: Text) -> Seq<(Text, Text)> {
    match inner(n, key) {
        Some(NodeView::Object(v)) => v,
        _ => seq![],
    }
}

pub open spec fn rows_of(items: Seq<Text>, keys: Seq<Text>) -> Seq<Seq<Text>> {
    items.map_values(|t: Text| row(json_node(t), keys))
}

pub open spec fn named_rows(items: Seq<(Text, Text)>, keys: Seq<Text>) -> Seq<(Text, Seq<Text>)> {
    items.map_values(|p: (Text, Text)| (p.0, row(json_node(p.1), keys)))
}

fn read_flavors(n: &Option<Node>) -> (r: Vec<KFlavor>)
    ensures
        r@.map_values(|f: KFlavor| flavor_row(f)) == named_rows(
            members_of(opt_node(*n), "flavors"@),
            flavor_keys(),
        ),
{
    let mut r: Vec<KFlavor> = Vec::new();
    let ghost items = members_of(opt_node(*n), "flavors"@);
    match open_member(n, "flavors") {
        Some(Node::Object(v)) => {
            let mut i: usize = 0;
            while i < v.len()
                invariant
                    i <= v@.len(),
                    items == pair_texts(v@),
                    r@.map_values(|f: KFlavor| flavor_row(f)) == named_rows(
                        items,
                        flavor_keys(),
                    ).take(i as int),
                decreases v@.len() - i,
            {
                let x = read_node(v[i].1.as_str());
                let f = KFlavor {
                    name: v[i].0.clone(),
                    role: get_str(&x, "role", ""),
                    base: get_str(&x, "base", ""),
                    current: get_str(&x, "current", ""),
                };
                assert(items[i as int] == (v@[i as int].0@, v@[i as int].1@));
                assert(flavor_row(f).1 =~= row(json_node(items[i as int].1), flavor_keys()));
                let ghost before = r@;
                r.push(f);
                assert(r@.map_values(|f: KFlavor| flavor_row(f)) =~= before.map_values(
                    |f: KFlavor| flavor_row(f),
                ).push(flavor_row(f)));
                assert(named_rows(items, flavor_keys()).take(i + 1) =~= named_rows(
                    items,
                    flavor_keys(),
                ).take(i as int).push(flavor_row(f)));
                i += 1;
            }
            assert(named_rows(items, flavor_keys()).take(v@.len() as int) =~= named_rows(
                items,
                flavor_keys(),
            ));
        },
        _ => {
            assert(r@.map_values(|f: KFlavor| flavor_row(f)) =~= named_rows(items, flavor_keys()));
        },
    }
    r
}

fn read_items(n: &Option<Node>, key: &str) -> (r: Vec<String>)
    ensures
        texts(r@) == items_of(opt_node(*n), key@),
{
    match open_member(n, key) {
        Some(Node::List(v)) => v,
        _ => {
            let r: Vec<String> = Vec::new();
            assert(texts(r@) =~= seq![]);
            r
        },
    }
}

fn read_tunes(n: &Option<Node>) -> (r: Vec<KTune>)
    ensures
        r@.map_values(|t: KTune| tune_row(t)) == rows_of(
            items_of(opt_node(*n), "tunes"@),
            tune_keys(),
        ),
{
    let v = read_items(n, "tunes");
    let ghost all = rows_of(items_of(opt_node(*n), "tunes"@), tune_keys());
    let mut r: Vec<KTune> = Vec::new();
    let mut i: usize = 0;
    assert(r@.map_values(|t: KTune| tune_row(t)) =~= all.take(0));
    while i < v.len()
        invariant
            i <= v@.len(),
            all == rows_of(texts(v@), tune_keys()),
            r@.map_values(|t: KTune| tune_row(t)) == all.take(i as int),
        decreases v@.len() - i,
    {
        let x = read_node(v[i].as_str());
        let t = KTune { name: get_str(&x, "name", ""), advantage: get_str(&x, "advantage", "") };
        assert(texts(v@)[i as int] == v@[i as int]@);
        assert(tune_row(t) =~= all[i as int]);
        let ghost before = r@;
        r.push(t);
        assert(r@.map_values(|t: KTune| tune_row(t)) =~= before.map_values(
            |t: KTune| tune_row(t),
        ).push(tune_row(t)));
        assert(all.take(i + 1) =~= all.take(i as int).push(tune_row(t)));
        i += 1;
    }
    assert(all.take(v@.len() as int) =~= all);
    r
}

fn read_history(n: &Option<Node>) -> (r: Vec<KHistory>)
    ensures
        r@.map_values(|h: KHistory| history_row(h)) == rows_of(
            items_of(opt_node(*n), "kernels"@),
            history_keys(),
        ),
{
    let v = read_items(n, "kernels");
    let ghost all = rows_of(items_of(opt_node(*n), "kernels"@), history_keys());
    let mut r: Vec<KHistory> = Vec::new();
    let mut i: usize = 0;
    assert(r@.map_values(|h: KHistory| history_row(h)) =~= all.take(0));
    while i < v.len()
        invariant
            i <= v@.len(),
            all == rows_of(texts(v@), history_keys()),
            r@.map_values(|h: KHistory| history_row(h)) == all.take(i as int),
        decreases v@.len() - i,
    {
        let x = read_node(v[i].as_str());
        let h = KHistory {
            flavor: get_str(&x, "flavor", ""),
            version: get_str(&x, "version", ""),
            upstream: get_str(&x, "upstream", ""),
            date: get_str(&x, "date", ""),
            status: get_str(&x, "status", ""),
            changes: get_str(&x, "changes", ""),
        };
        assert(texts(v@)[i as int] == v@[i as int]@);
        assert(history_row(h) =~= all[i as int]);
        let ghost before = r@;
        r.push(h);
        assert(r@.map_values(|h: KHistory| history_row(h)) =~= before.map_values(
            |h: KHistory| history_row(h),
        ).push(history_row(h)));
        assert(all.take(i + 1) =~= all.take(i as int).push(history_row(h)));
        i += 1;
    }
    assert(all.take(v@.len() as int) =~= all);
    r
}

/// The history of the kernels, out of a node of its document.
pub open spec fn is_manifest(m: KManifest, n: Option<NodeView>) -> bool {
    &&& m.updated@ == or_text(str_member(n, "updated"@), ""@)
    &&& m.flavors@.map_values(|f: KFlavor| flavor_row(f)) == named_rows(
        members_of(n, "flavors"@),
        flavor_keys(),
    )
    &&& m.tunes@.map_values(|t: KTune| tune_row(t)) == rows_of(items_of(n, "tunes"@), tune_keys())
    &&& m.history@.map_values(|h: KHistory| history_row(h)) == rows_of(
        items_of(n, "kernels"@),
        history_keys(),
    )
}

/// The history of the kernels, out of a node of its document.
pub fn manifest_of(n: &Option<Node>) -> (m: KManifest)
    ensures
        is_manifest(m, opt_node(*n)),
{
    KManifest {
        updated: get_str(n, "updated", ""),
        flavors: read_flavors(n),
        tunes: read_tunes(n),
        history: read_history(n),
    }
}

/// The history of the kernels, out of its document.
pub fn kernels_manifest(raw: &str) -> (m: KManifest)
    ensures
        is_manifest(m, json_node(raw@)),
{
    manifest_of(&read_node(raw))
}

// ---------- the arsenal ----------
/// How many tools the arsenal has.
#[derive(Clone, Copy, PartialEq, Eq, Structural, Debug)]
pub struct ArsenalTotals {
    pub curated: u64,
    pub total: u64,
    pub other: u64,
}

/// The whole numbers among words, in their order.
pub open spec fn numbers_in(v: Seq<Text>) -> Seq<u64>
    decreases v.len(),
{
    if v.len() == 0 {
        seq![]
    } else {
        match unsigned_value(v.last(), u64::MAX as nat) {
            Some(n) => numbers_in(v.drop_last()).push(n as u64),
            None => numbers_in(v.drop_last()),
        }
    }
}

pub open spec fn nth_or_zero(v: Seq<u64>, i: int) -> u64 {
    if i < v.len() {
        v[i]
    } else {
        0
    }
}

/// The whole numbers among the words of a text, in their order.
pub fn read_numbers(s: &str) -> (r: Vec<u64>)
    ensures
        r@ == numbers_in(words(s@)),
{
    let w = split_words(s);
    let ghost t = words(s@);
    let mut r: Vec<u64> = Vec::new();
    let mut i: usize = 0;
    assert(r@ =~= numbers_in(t.take(0)));
    while i < w.len()
        invariant
            i <= w@.len(),
            t == texts(w@),
            t == words(s@),
            r@ == numbers_in(t.take(i as int)),
        decreases w@.len() - i,
    {
        assert(t.take(i + 1).drop_last() =~= t.take(i as int));
        assert(t.take(i + 1).last() == w@[i as int]@);
        match parse_unsigned(w[i].as_str(), u64::MAX) {
            Some(n) => {
                r.push(n);
            },
            None => {},
        }
        i += 1;
    }
    assert(t.take(w@.len() as int) =~= t);
    r
}

/// The totals that `arx weapons totals` prints: curated, all and other; zero for what is missing.
pub fn parse_totals(out: &str) -> (r: ArsenalTotals)
    ensures
        ({
            let v = numbers_in(words(out@));
            r == ArsenalTotals {
                curated: nth_or_zero(v, 0),
                total: nth_or_zero(v, 1),
                other: nth_or_zero(v, 2),
            }
        }),
{
    let v = read_numbers(out);
    ArsenalTotals {
        curated: if v.len() > 0 {
            v[0]
        } else {
            0
        },
        total: if v.len() > 1 {
            v[1]
        } else {
            0
        },
        other: if v.len() > 2 {
            v[2]
        } else {
            0
        },
    }
}

/// The command that asks for the totals; a forced one passes over what is cached.
pub fn totals_command(force: bool) -> (c: Command)
    ensures
        c@ == cmd(
            "arx"@,
            if force {
                seq!["weapons"@, "totals"@, "--force"@]
            } else {
                seq!["weapons"@, "totals"@]
            },
        ),
{
    let c = if force {
        command("arx", &["weapons", "totals", "--force"])
    } else {
        command("arx", &["weapons", "totals"])
    };
    assert(c@.args =~= if force {
        seq!["weapons"@, "totals"@, "--force"@]
    } else {
        seq!["weapons"@, "totals"@]
    });
    c
}

/// A category of the arsenal and how many tools it has.
pub struct Category {
    pub name: String,
    pub count: usize,
}

pub open spec fn category_pairs(v: Seq<Category>) -> Seq<(Text, usize)> {
    v.map_values(|c: Category| (c.name@, c.count))
}

/// The category of a line of the tools' database: `name|MENU|SUB|cat|desc`. The fourth field names
/// it, or the third where that is blank.
pub open spec fn category_of(line: Text) -> Option<Text> {
    let l = trimmed(line);
    let f = pieces(l, '|');
    if l.len() == 0 || l[0] == '#' || f.len() < 4 {
        None
    } else {
        Some(
            lowered(
                if trimmed(f[3]).len() == 0 {
                    trimmed(f[2])
                } else {
                    trimmed(f[3])
                },
            ),
        )
    }
}

/// How many of the lines are of a category.
pub open spec fn tally(v: Seq<Text>, name: Text) -> nat
    decreases v.len(),
{
    if v.len() == 0 {
        0
    } else {
        tally(v.drop_last(), name) + if category_of(v.last()) == Some(name) {
            1nat
        } else {
            0nat
        }
    }
}

/// Whether a list names each category of the lines once, in alphabetical order, with the number of
/// its lines.
pub open spec fn is_grouping(r: Seq<(Text, usize)>, v: Seq<Text>) -> bool {
    &&& forall|i: int, j: int|
        0 <= i < j < r.len() ==> precedes((#[trigger] r[i]).0, (#[trigger] r[j]).0)
    &&& forall|i: int| 0 <= i < r.len() ==> (#[trigger] r[i]).1 == tally(v, r[i].0) && r[i].1 > 0
    &&& forall|k: int|
        0 <= k < v.len() ==> (category_of(#[trigger] v[k]) matches Some(name) ==> exists|i: int|
            0 <= i < r.len() && (#[trigger] r[i]).0 == name)
}

fn read_category(line: &str) -> (r: Option<String>)
    ensures
        opt_text(r) == category_of(line@),
{
    let l = trim(line);
    let c = chars_of(l.as_str());
    if c.len() == 0 || c[0] == '#' {
        return None;
    }
    let f = split_char(l.as_str(), '|');
    let ghost all = pieces(l@, '|');
    assert(all == texts(f@));
    assert(all.len() == f@.len());
    if f.len() < 4 {
        return None;
    }
    assert(all[2] == f@[2]@ && all[3] == f@[3]@);
    let named = trim(f[3].as_str());
    if named.as_str().is_empty() {
        Some(to_lower(trim(f[2].as_str()).as_str()))
    } else {
        Some(to_lower(named.as_str()))
    }
}

/// One more line: the tally of its category grows, and no other.
proof fn lemma_tally_push(v: Seq<Text>, line: Text, name: Text)
    ensures
        tally(v.push(line), name) == tally(v, name) + if category_of(line) == Some(name) {
            1nat
        } else {
            0nat
        },
{
    assert(v.push(line).drop_last() =~= v);
}

proof fn lemma_tally_bound(v: Seq<Text>, name: Text)
    ensures
        tally(v, name) <= v.len(),
    decreases v.len(),
{
    if v.len() > 0 {
        lemma_tally_bound(v.drop_last(), name);
    }
}

proof fn lemma_tally_none(v: Seq<Text>, name: Text)
    requires
        forall|k: int| 0 <= k < v.len() ==> category_of(#[trigger] v[k]) != Some(name),
    ensures
        tally(v, name) == 0,
    decreases v.len(),
{
    if v.len() > 0 {
        assert(category_of(v[v.len() - 1]) != Some(name));
        assert forall|k: int| 0 <= k < v.drop_last().len() implies category_of(
            #[trigger] v.drop_last()[k],
        ) != Some(name) by {
            assert(v.drop_last()[k] == v[k]);
        }
        lemma_tally_none(v.drop_last(), name);
    }
}

/// A line without a category changes nothing.
proof fn lemma_group_none(r: Seq<(Text, usize)>, v: Seq<Text>, line: Text)
    requires
        is_grouping(r, v),
        category_of(line) is None,
    ensures
        is_grouping(r, v.push(line)),
{
    assert forall|i: int| 0 <= i < r.len() implies (#[trigger] r[i]).1 == tally(v.push(line), r[i].0)
        && r[i].1 > 0 by {
        lemma_tally_push(v, line, r[i].0);
    }
    assert forall|k: int| 0 <= k < v.push(line).len() implies (category_of(
        #[trigger] v.push(line)[k],
    ) matches Some(name) ==> exists|i: int| 0 <= i < r.len() && (#[trigger] r[i]).0 == name) by {
        if k < v.len() {
            assert(v.push(line)[k] == v[k]);
        }
    }
}

/// A line of a category that is in the list already.
proof fn lemma_group_known(r: Seq<(Text, usize)>, v: Seq<Text>, line: Text, p: int)
    requires
        is_grouping(r, v),
        0 <= p < r.len(),
        category_of(line) == Some(r[p].0),
        v.len() < usize::MAX,
    ensures
        r[p].1 < usize::MAX,
        is_grouping(r.update(p, (r[p].0, (r[p].1 + 1) as usize)), v.push(line)),
{
    let s = r.update(p, (r[p].0, (r[p].1 + 1) as usize));
    lemma_tally_bound(v, r[p].0);
    assert(r[p].1 == tally(v, r[p].0));
    assert forall|i: int| 0 <= i < s.len() implies (#[trigger] s[i]).1 == tally(v.push(line), s[i].0)
        && s[i].1 > 0 by {
        lemma_tally_push(v, line, s[i].0);
        assert(s[i].0 == r[i].0);
        if i < p {
            assert(precedes(r[i].0, r[p].0));
            lemma_precedes_total(r[i].0, r[p].0);
        } else if i > p {
            assert(precedes(r[p].0, r[i].0));
            lemma_precedes_total(r[p].0, r[i].0);
        }
    }
    assert forall|i: int, j: int| 0 <= i < j < s.len() implies precedes(
        (#[trigger] s[i]).0,
        (#[trigger] s[j]).0,
    ) by {
        assert(precedes(r[i].0, r[j].0));
    }
    assert forall|k: int| 0 <= k < v.push(line).len() implies (category_of(
        #[trigger] v.push(line)[k],
    ) matches Some(name) ==> exists|i: int| 0 <= i < s.len() && (#[trigger] s[i]).0 == name) by {
        if let Some(name) = category_of(v.push(line)[k]) {
            if k < v.len() {
                assert(v.push(line)[k] == v[k]);
                let i = choose|i: int| 0 <= i < r.len() && (#[trigger] r[i]).0 == name;
                assert(s[i].0 == name);
            } else {
                assert(s[p].0 == name);
            }
        }
    }
}

/// A line of a category that is not in the list yet, which takes its place in the order.
proof fn lemma_group_new(r: Seq<(Text, usize)>, v: Seq<Text>, line: Text, name: Text, p: int)
    requires
        is_grouping(r, v),
        0 <= p <= r.len(),
        category_of(line) == Some(name),
        forall|i: int| 0 <= i < p ==> precedes((#[trigger] r[i]).0, name),
        p < r.len() ==> precedes(name, r[p].0),
    ensures
        is_grouping(r.insert(p, (name, 1usize)), v.push(line)),
{
    let s = r.insert(p, (name, 1usize));
    assert forall|i: int| p <= i < r.len() implies precedes(name, (#[trigger] r[i]).0) by {
        if i > p {
            assert(precedes(r[p].0, r[i].0));
            lemma_precedes_transitive(name, r[p].0, r[i].0);
        }
    }
    assert forall|k: int| 0 <= k < v.len() implies category_of(#[trigger] v[k]) != Some(name) by {
        if category_of(v[k]) == Some(name) {
            let i = choose|i: int| 0 <= i < r.len() && (#[trigger] r[i]).0 == name;
            lemma_precedes_total(name, name);
        }
    }
    lemma_tally_none(v, name);
    assert forall|i: int, j: int| 0 <= i < j < s.len() implies precedes(
        (#[trigger] s[i]).0,
        (#[trigger] s[j]).0,
    ) by {
        let a = if i < p { i } else { i - 1 };
        let b = if j < p { j } else { j - 1 };
        if i == p {
            assert(s[j] == r[j - 1]);
        } else if j == p {
            assert(s[i] == r[i]);
        } else {
            assert(s[i] == r[a] && s[j] == r[b]);
        }
    }
    assert forall|i: int| 0 <= i < s.len() implies (#[trigger] s[i]).1 == tally(v.push(line), s[i].0)
        && s[i].1 > 0 by {
        lemma_tally_push(v, line, s[i].0);
        if i != p {
            let a = if i < p { i } else { i - 1 };
            assert(s[i] == r[a]);
            lemma_precedes_total(r[a].0, name);
            lemma_precedes_total(name, r[a].0);
        }
    }
    assert forall|k: int| 0 <= k < v.push(line).len() implies (category_of(
        #[trigger] v.push(line)[k],
    ) matches Some(n) ==> exists|i: int| 0 <= i < s.len() && (#[trigger] s[i]).0 == n) by {
        if let Some(n) = category_of(v.push(line)[k]) {
            if k < v.len() {
                assert(v.push(line)[k] == v[k]);
                let i = choose|i: int| 0 <= i < r.len() && (#[trigger] r[i]).0 == n;
                let a = if i < p { i } else { i + 1 };
                assert(s[a] == r[i]);
            } else {
                assert(s[p].0 == n);
            }
        }
    }
}

fn count_category(r: &mut Vec<Category>, name: String, Ghost(v): Ghost<Seq<Text>>, Ghost(line): Ghost<Text>)
    requires
        is_grouping(category_pairs(old(r)@), v),
        category_of(line) == Some(name@),
        v.len() < usize::MAX,
    ensures
        is_grouping(category_pairs(final(r)@), v.push(line)),
{
    let ghost pairs = category_pairs(r@);
    let n: usize = r.len();
    let mut p: usize = 0;
    while p < n && before(r[p].name.as_str(), name.as_str())
        invariant
            p <= n == r@.len(),
            pairs == category_pairs(r@),
            forall|i: int| 0 <= i < p ==> precedes((#[trigger] pairs[i]).0, name@),
        decreases n - p,
    {
        p += 1;
    }
    if p < n && same(r[p].name.as_str(), name.as_str()) {
        proof {
            assert(pairs[p as int].0 == name@);
            lemma_group_known(pairs, v, line, p as int);
        }
        let count: usize = r[p].count + 1;
        r[p] = Category { name, count };
        assert(category_pairs(r@) =~= pairs.update(p as int, (name@, count)));
    } else {
        proof {
            if p < n {
                lemma_precedes_total(pairs[p as int].0, name@);
            }
            lemma_group_new(pairs, v, line, name@, p as int);
        }
        r.insert(p, Category { name, count: 1 });
        assert(category_pairs(r@) =~= pairs.insert(p as int, (name@, 1usize)));
    }
}

/// The categories of the tools' database, in alphabetical order.
pub fn weapons_categories(db: &str) -> (r: Vec<Category>)
    ensures
        is_grouping(category_pairs(r@), line_texts(db@)),
{
    let all = lines(db);
    let ghost t = line_texts(db@);
    let mut r: Vec<Category> = Vec::new();
    let mut i: usize = 0;
    while i < all.len()
        invariant
            i <= all@.len(),
            t == texts(all@),
            t == line_texts(db@),
            is_grouping(category_pairs(r@), t.take(i as int)),
        decreases all@.len() - i,
    {
        let ghost line = all@[i as int]@;
        assert(t.take(i + 1) =~= t.take(i as int).push(line));
        match read_category(all[i].as_str()) {
            Some(name) => {
                count_category(&mut r, name, Ghost(t.take(i as int)), Ghost(line));
            },
            None => {
                proof {
                    lemma_group_none(category_pairs(r@), t.take(i as int), line);
                }
            },
        }
        i += 1;
    }
    assert(t.take(all@.len() as int) =~= t);
    r
}

// ---------- services ----------
/// A service and whether it is active.
pub struct Service {
    pub name: String,
    pub active: bool,
}

/// The services that are shown.
pub open spec fn shown_services() -> Seq<Text> {
    seq!["NetworkManager"@, "tor-anonkit"@, "lightdm"@, "arxupd.timer"@, "sshd"@]
}

/// The services that are shown.
pub fn services() -> (v: Vec<String>)
    ensures
        texts(v@) == shown_services(),
{
    let v = owned(&["NetworkManager", "tor-anonkit", "lightdm", "arxupd.timer", "sshd"]);
    assert(texts(v@) =~= shown_services());
    v
}

/// A service, out of what `systemctl is-active` prints of it.
pub fn service_status(name: String, printed: &str) -> (s: Service)
    ensures
        s.name@ == name@,
        s.active == (trimmed(printed@) == "active"@),
{
    Service { name, active: same(trim(printed).as_str(), "active") }
}

// ---------- privacy ----------
/// The interface that carries the default route, out of what `ip -o route get` prints.
pub fn primary_iface(route: &str) -> (s: String)
    ensures
        s@ == word_after(words(route@), "dev"@),
{
    following(route, "dev")
}

/// The file with the hardware address of an interface.
pub fn mac_file(iface: &str) -> (s: String)
    ensures
        s@ == "/sys/class/net/"@ + iface@ + "/address"@,
{
    "/sys/class/net/".to_owned().concat(iface).concat("/address")
}

/// What is shown of the daemon and of what the network sees.
pub struct AnondStatus {
    pub state: String,
    pub exit_ip: String,
    /// How far Tor's bootstrap has got, out of 100.
    pub bootstrap_pct: u8,
    pub tor: String,
    pub killswitch: String,
    pub dns: String,
    pub i2p: String,
    pub mac: String,
    pub iface: String,
    pub resolver: String,
}

/// The model of an [`AnondStatus`].
#[verifier::ext_equal]
pub struct AnondStatusView {
    pub state: Text,
    pub exit_ip: Text,
    pub bootstrap_pct: u8,
    pub tor: Text,
    pub killswitch: Text,
    pub dns: Text,
    pub i2p: Text,
    pub mac: Text,
    pub iface: Text,
    pub resolver: Text,
}

impl View for AnondStatus {
    type V = AnondStatusView;

    open spec fn view(&self) -> AnondStatusView {
        AnondStatusView {
            state: self.state@,
            exit_ip: self.exit_ip@,
            bootstrap_pct: self.bootstrap_pct,
            tor: self.tor@,
            killswitch: self.killswitch@,
            dns: self.dns@,
            i2p: self.i2p@,
            mac: self.mac@,
            iface: self.iface@,
            resolver: self.resolver@,
        }
    }
}

/// What the daemon's snapshot says; where it says nothing of a layer, that is `None`.
pub struct Snapshot {
    pub state: Option<String>,
    pub exit_ip: Option<String>,
    pub bootstrap_pct: Option<u64>,
    pub tor: Option<String>,
    pub killswitch: Option<String>,
    pub dns: Option<String>,
    pub i2p: Option<String>,
}

/// The model of a [`Snapshot`].
#[verifier::ext_equal]
pub struct SnapshotView {
    pub state: Option<Text>,
    pub exit_ip: Option<Text>,
    pub bootstrap_pct: Option<u64>,
    pub tor: Option<Text>,
    pub killswitch: Option<Text>,
    pub dns: Option<Text>,
    pub i2p: Option<Text>,
}

impl View for Snapshot {
    type V = SnapshotView;

    open spec fn view(&self) -> SnapshotView {
        SnapshotView {
            state: opt_text(self.state),
            exit_ip: opt_text(self.exit_ip),
            bootstrap_pct: self.bootstrap_pct,
            tor: opt_text(self.tor),
            killswitch: opt_text(self.killswitch),
            dns: opt_text(self.dns),
            i2p: opt_text(self.i2p),
        }
    }
}

/// What a snapshot says, out of a node of it.
pub open spec fn snapshot_of(n: Option<NodeView>) -> SnapshotView {
    SnapshotView {
        state: str_member(n, "state"@),
        exit_ip: str_member(n, "exit_ip"@),
        bootstrap_pct: whole_member(n, "bootstrap_pct"@),
        tor: str_member(n, "tor"@),
        killswitch: str_member(n, "killswitch"@),
        dns: str_member(n, "dns"@),
        i2p: str_member(n, "i2p"@),
    }
}

/// What is shown, out of the daemon's snapshot, the interface with its address, and the resolver
/// configuration. What the snapshot does not speak of is down.
pub open spec fn anond_view(n: SnapshotView, iface: Text, mac: Text, resolv: Text) -> AnondStatusView {
    AnondStatusView {
        state: or_text(n.state, "Down"@),
        exit_ip: or_text(n.exit_ip, ""@),
        bootstrap_pct: match n.bootstrap_pct {
            Some(p) => if p <= 100 {
                p as u8
            } else {
                100
            },
            None => 0,
        },
        tor: or_text(n.tor, "stopped"@),
        killswitch: or_text(n.killswitch, "down"@),
        dns: or_text(n.dns, "open"@),
        i2p: or_text(n.i2p, "off"@),
        mac: trimmed(mac),
        iface,
        resolver: match first_after(line_texts(resolv), "nameserver "@) {
            Some(v) => trimmed(v),
            None => seq![],
        },
    }
}

/// What is shown of the daemon, out of what its snapshot says.
pub fn anond_shown(n: Snapshot, iface: &str, mac: &str, resolv: &str) -> (s: AnondStatus)
    ensures
        s@ == anond_view(n@, iface@, mac@, resolv@),
{
    let bootstrap_pct: u8 = match n.bootstrap_pct {
        Some(p) => if p <= 100 {
            p as u8
        } else {
            100
        },
        None => 0,
    };
    AnondStatus {
        state: text_or(n.state, "Down"),
        exit_ip: text_or(n.exit_ip, ""),
        bootstrap_pct,
        tor: text_or(n.tor, "stopped"),
        killswitch: text_or(n.killswitch, "down"),
        dns: text_or(n.dns, "open"),
        i2p: text_or(n.i2p, "off"),
        mac: trim(mac),
        iface: iface.to_owned(),
        resolver: match find_after(resolv, "nameserver ") {
            Some(v) => trim(v.as_str()),
            None => String::new(),
        },
    }
}

/// What a snapshot says that the daemon has published.
pub open spec fn published(state: Text, exit_ip: Text, pct: u8, up: Layers) -> SnapshotView {
    SnapshotView {
        state: Some(state),
        exit_ip: Some(exit_ip),
        bootstrap_pct: Some(pct as u64),
        tor: Some(tor_word(up.tor)),
        killswitch: Some(killswitch_word(up.killswitch)),
        dns: Some(dns_word(up.dns)),
        i2p: Some(i2p_word(up.i2p)),
    }
}

/// What is shown of the daemon, out of its snapshot. Of a snapshot that the daemon has published,
/// with a plain state and a plain address, every layer is shown as it was published.
pub fn anond_status(snapshot: &str, iface: &str, mac: &str, resolv: &str) -> (s: AnondStatus)
    ensures
        s@ == anond_view(snapshot_of(json_node(snapshot@)), iface@, mac@, resolv@),
        forall|state: Text, exit_ip: Text, leaking: bool, pct: u8, up: Layers|
            plain(state) && plain(exit_ip) && snapshot@ == #[trigger] snapshot_text(
                state,
                exit_ip,
                leaking,
                pct,
                up,
            ) ==> s@ == anond_view(
                published(state, exit_ip, pct, up),
                iface@,
                mac@,
                resolv@,
            ),
{
    let n = read_node(snapshot);
    let said = Snapshot {
        state: get_text(&n, "state"),
        exit_ip: get_text(&n, "exit_ip"),
        bootstrap_pct: get_whole(&n, "bootstrap_pct"),
        tor: get_text(&n, "tor"),
        killswitch: get_text(&n, "killswitch"),
        dns: get_text(&n, "dns"),
        i2p: get_text(&n, "i2p"),
    };
    proof {
        assert forall|state: Text, exit_ip: Text, leaking: bool, pct: u8, up: Layers|
            plain(state) && plain(exit_ip) && snapshot@ == #[trigger] snapshot_text(
                state,
                exit_ip,
                leaking,
                pct,
                up,
            ) implies said@ == published(state, exit_ip, pct, up) by {
            let v = snapshot_members(state, exit_ip, leaking, pct, up);
            lemma_snapshot_is_flat(state, exit_ip, leaking, pct, up);
            lemma_snapshot_words();
            assert(member_given(opt_node(n), v, 0));
            assert(member_given(opt_node(n), v, 1));
            assert(member_given(opt_node(n), v, 2));
            assert(member_given(opt_node(n), v, 3));
            assert(member_given(opt_node(n), v, 4));
            assert(member_given(opt_node(n), v, 5));
            assert(member_given(opt_node(n), v, 7));
            assert(v[7].1 == decimal(pct as u64 as nat));
        }
    }
    anond_shown(said, iface, mac, resolv)
}

pub open spec fn ip_char(c: char) -> bool {
    is_hex_digit(c) || c == '.' || c == ':'
}

/// Whether a text can be an address.
pub open spec fn is_address(ip: Text) -> bool {
    ip.len() > 0 && forall|i: int| 0 <= i < ip.len() ==> ip_char(#[trigger] ip[i])
}

/// The command that asks where an address is; none for what is no address.
pub fn location_command(ip: &str) -> (r: Option<Command>)
    ensures
        (r is Some) == is_address(ip@),
        r matches Some(c) ==> c@ == cmd(
            "curl"@,
            seq![
                "-s"@,
                "--max-time"@,
                "8"@,
                "https://ipinfo.io/"@ + ip@ + "/json"@,
            ],
        ),
{
    let v = chars_of(ip);
    if v.len() == 0 {
        return None;
    }
    let mut i: usize = 0;
    while i < v.len()
        invariant
            i <= v@.len(),
            v@ == ip@,
            forall|k: int| 0 <= k < i ==> ip_char(#[trigger] v@[k]),
        decreases v@.len() - i,
    {
        let c = v[i];
        if !(hex_digit(c) || c == '.' || c == ':') {
            assert(!ip_char(ip@[i as int]));
            return None;
        }
        i += 1;
    }
    let url = "https://ipinfo.io/".to_owned().concat(ip).concat("/json");
    let c = command("curl", &["-s", "--max-time", "8", url.as_str()]);
    assert(c@.args =~= seq!["-s"@, "--max-time"@, "8"@, "https://ipinfo.io/"@ + ip@ + "/json"@]);
    Some(c)
}

/// The texts of a list that are not empty.
pub open spec fn filled(v: Seq<Text>) -> Seq<Text>
    decreases v.len(),
{
    if v.len() == 0 {
        seq![]
    } else if v.last().len() > 0 {
        filled(v.drop_last()).push(v.last())
    } else {
        filled(v.drop_last())
    }
}

/// A place and who runs the network there; nothing where neither is known.
pub open spec fn place_text(city: Text, region: Text, country: Text, org: Text) -> Text {
    let place = filled(seq![city, region, country]);
    if place.len() == 0 && org.len() == 0 {
        seq![]
    } else if org.len() == 0 {
        joined(place, ", "@)
    } else {
        joined(place, ", "@) + " · "@ + org
    }
}

/// A place and who runs the network there.
pub fn location_text(city: &str, region: &str, country: &str, org: &str) -> (s: String)
    ensures
        s@ == place_text(city@, region@, country@, org@),
{
    let all = [city, region, country];
    let ghost parts = seq![city@, region@, country@];
    assert(strs(all@) =~= parts);
    let mut place: Vec<String> = Vec::new();
    let mut i: usize = 0;
    assert(texts(place@) =~= filled(parts.take(0)));
    while i < 3
        invariant
            i <= 3,
            parts == strs(all@),
            all@.len() == 3,
            texts(place@) == filled(parts.take(i as int)),
        decreases 3 - i,
    {
        assert(parts.take(i + 1).drop_last() =~= parts.take(i as int));
        assert(parts.take(i + 1).last() == all@[i as int]@);
        let ghost before = place@;
        if !all[i].is_empty() {
            let x = all[i].to_owned();
            place.push(x);
            assert(texts(place@) =~= texts(before).push(x@));
        }
        i += 1;
    }
    assert(parts.take(3) =~= parts);
    assert(texts(place@).len() == place@.len());
    if place.len() == 0 && org.is_empty() {
        return String::new();
    }
    let joined_place = join(place.as_slice(), ", ");
    if org.is_empty() {
        joined_place
    } else {
        joined_place.concat(" · ").concat(org)
    }
}

/// Where the exit is, out of the answer to [`location_command`].
pub fn anond_exit_location(out: &str) -> (s: String)
    ensures
        ({
            let n = json_node(out@);
            s@ == place_text(
                or_text(str_member(n, "city"@), ""@),
                or_text(str_member(n, "region"@), ""@),
                or_text(str_member(n, "country"@), ""@),
                or_text(str_member(n, "org"@), ""@),
            )
        }),
{
    let n = read_node(out);
    location_text(
        get_str(&n, "city", "").as_str(),
        get_str(&n, "region", "").as_str(),
        get_str(&n, "country", "").as_str(),
        get_str(&n, "org", "").as_str(),
    )
}

// ---------- isolation ----------
/// Whether the isolation is up, and whether Tor is there for it.
#[derive(Clone, Copy, PartialEq, Eq, Structural, Debug)]
pub struct OnionStatus {
    pub up: bool,
    pub tor_available: bool,
}

/// The state of the isolation, out of the list of namespaces and whether Tor answers.
pub fn arxonion_status(list: &str, tor_available: bool) -> (s: OnionStatus)
    ensures
        s.up == carries(list@, "arxonion"@),
        s.tor_available == tor_available,
{
    proof {
        reveal_strlit("arxonion");
    }
    OnionStatus { up: contains(list, "arxonion"), tor_available }
}

// ---------- what is shown, over all inputs ----------
/// The time that the system has been up, in whole hours and the whole minutes beyond them.
pub proof fn law_uptime(secs: u64, hours: u64, minutes: u64, rest: u64)
    requires
        secs == 3600 * hours + 60 * minutes + rest,
        minutes < 60,
        rest < 60,
    ensures
        uptime_text(secs) == decimal(hours as nat) + "h "@ + decimal(minutes as nat) + "m"@,
{
    assert(secs / 3600 == hours && secs % 3600 == 60 * minutes + rest) by (nonlinear_arith)
        requires
            secs == 3600 * hours + 60 * minutes + rest,
            minutes < 60,
            rest < 60,
    ;
    assert((60 * minutes + rest) / 60 == minutes);
}

/// The number of memory is the first word behind the key, on the first line that begins with it;
/// zero where no line does, or where that word is no number.
pub proof fn law_mem_value(meminfo: Text, key: Text, i: int)
    ensures
        ({
            let v = line_texts(meminfo);
            &&& (forall|j: int| 0 <= j < v.len() ==> !begins(#[trigger] v[j], key)) ==> mem_value(
                meminfo,
                key,
            ) == 0
            &&& 0 <= i < v.len() && begins(v[i], key) && (forall|j: int|
                0 <= j < i ==> !begins(#[trigger] v[j], key)) ==> {
                let w = words(v[i].skip(key.len() as int));
                &&& w.len() == 0 ==> mem_value(meminfo, key) == 0
                &&& w.len() > 0 ==> mem_value(meminfo, key) == match unsigned_value(
                    w[0],
                    u64::MAX as nat,
                ) {
                    Some(n) => n as int,
                    None => 0,
                }
            }
        }),
{
    law_first_after(line_texts(meminfo), key, i);
}

/// The memory in use is what is not available, and no less than nothing; the total is what the
/// kernel gives as such.
pub proof fn law_memory(s: Sources)
    ensures
        ({
            let total = mem_value(s.meminfo@, "MemTotal:"@);
            let available = mem_value(s.meminfo@, "MemAvailable:"@);
            &&& info_of(s).mem_total == total
            &&& available <= total ==> info_of(s).mem_used + available == total
            &&& available > total ==> info_of(s).mem_used == 0
        }),
{
}

/// The name of the system is the one that it gives itself, without the quotation marks around it,
/// and the name of the project where it gives none; the processor is what stands behind its first
/// mention; the load is the first three words, with a blank between them.
pub proof fn law_the_system(s: Sources)
    ensures
        ({
            let r = info_of(s);
            &&& r.host == trimmed(s.hostname@)
            &&& r.kernel == trimmed(s.uname@)
            &&& first_after(line_texts(s.os_release@), "PRETTY_NAME="@) matches Some(v)
                ==> r.distro == strip_end(Class::Quote, strip_start(Class::Quote, v))
            &&& first_after(line_texts(s.os_release@), "PRETTY_NAME="@) is None ==> r.distro
                == "ArxOS"@
            &&& first_after(line_texts(s.cpuinfo@), "model name"@) matches Some(v) ==> r.cpu
                == strip_start(Class::ColonOrSpace, v)
            &&& first_after(line_texts(s.cpuinfo@), "model name"@) is None ==> r.cpu.len() == 0
            &&& words(s.loadavg@).len() >= 3 ==> r.load == words(s.loadavg@)[0] + " "@ + (words(
                s.loadavg@,
            )[1] + " "@ + words(s.loadavg@)[2])
        }),
{
    let w = words(s.loadavg@);
    if w.len() >= 3 {
        let three = first_words(s.loadavg@, 3);
        assert(three =~= seq![w[0]] + seq![w[1], w[2]]);
        assert(seq![w[1], w[2]] =~= seq![w[1]] + seq![w[2]]);
        law_joined(w[0], seq![w[1], w[2]], " "@);
        law_joined(w[1], seq![w[2]], " "@);
        law_joined(w[2], seq![], " "@);
    }
}

/// The kind of memory stands alone unless its speed is known as well; a speed without a kind is not
/// shown.
pub proof fn law_mem_kind(hwinfo: Text)
    ensures
        ({
            let kind = trimmed(or_text(first_after(line_texts(hwinfo), "MEMTYPE="@), ""@));
            let speed = trimmed(or_text(first_after(line_texts(hwinfo), "MEMSPEED="@), ""@));
            &&& kind.len() == 0 ==> mem_kind(hwinfo).len() == 0
            &&& speed.len() == 0 ==> mem_kind(hwinfo) == kind
            &&& kind.len() > 0 && speed.len() > 0 ==> mem_kind(hwinfo) == kind + " · "@ + speed
        }),
{
}

/// A line is a kernel exactly where it has three words or more and the first begins with
/// `linux-arxos`; the first three are the flavor, the version and the status, the rest without the
/// mark is the role, and the mark tells the one that runs.
pub proof fn law_kernels(line: Text)
    ensures
        kernel_of(line) is Some <==> words(line).len() >= 3 && begins(words(line)[0], "linux-arxos"@),
        kernel_of(line) matches Some(k) ==> {
            &&& k.flavor == words(line)[0]
            &&& k.version == words(line)[1]
            &&& k.status == words(line)[2]
            &&& k.running <==> carries(line, "*running"@)
            &&& k.role == trimmed(
                replaced(
                    joined(words(line).subrange(3, words(line).len() as int), " "@),
                    "*running"@,
                    Seq::<char>::empty(),
                ),
            )
            &&& words(line).len() == 3 ==> k.role.len() == 0
            &&& words(line).len() == 4 && !carries(words(line)[3], "*running"@) ==> k.role
                == trimmed(words(line)[3])
        },
{
    let t = words(line);
    reveal_strlit("");
    assert(""@ =~= Seq::<char>::empty());
    if t.len() >= 3 {
        assert(t.skip(3) =~= t.subrange(3, t.len() as int));
    }
    if t.len() == 3 && begins(t[0], "linux-arxos"@) {
        reveal_strlit("*running");
        assert(t.skip(3) =~= Seq::<Text>::empty());
        law_joined(seq![], seq![], " "@);
        let none = Seq::<char>::empty();
        assert(!carries(none, "*running"@));
        law_replaced(none, "*running"@, ""@, 0);
        law_trimmed(none);
    }
    if t.len() == 4 && begins(t[0], "linux-arxos"@) && !carries(t[3], "*running"@) {
        reveal_strlit("*running");
        assert(t.skip(3) =~= seq![t[3]]);
        law_joined(t[3], seq![], " "@);
        law_replaced(t[3], "*running"@, ""@, 0);
    }
}

/// The lines are read one by one: each gives its kernel or none, and each word its number or none,
/// in order.
pub proof fn law_lists_are_read_one_by_one(v: Seq<Text>)
    ensures
        kernels_of(v) == v.filter_map(|line: Text| kernel_of(line)),
        numbers_in(v) == v.filter_map(
            |word: Text|
                match unsigned_value(word, u64::MAX as nat) {
                    Some(n) => Some(n as u64),
                    None => None,
                },
        ),
    decreases v.len(),
{
    if v.len() > 0 {
        law_lists_are_read_one_by_one(v.drop_last());
    }
}

/// The manifest has a flavor for each member of its flavors, a tune for each of its tunes and a row
/// of history for each of its kernels, and each field is the member of that name.
pub proof fn law_the_manifest(m: KManifest, n: Option<NodeView>, i: int)
    requires
        is_manifest(m, n),
    ensures
        m.flavors@.len() == members_of(n, "flavors"@).len(),
        m.tunes@.len() == items_of(n, "tunes"@).len(),
        m.history@.len() == items_of(n, "kernels"@).len(),
        0 <= i < m.flavors@.len() ==> {
            let (name, t) = members_of(n, "flavors"@)[i];
            &&& m.flavors@[i].name@ == name
            &&& m.flavors@[i].role@ == or_text(str_member(json_node(t), "role"@), ""@)
            &&& m.flavors@[i].base@ == or_text(str_member(json_node(t), "base"@), ""@)
            &&& m.flavors@[i].current@ == or_text(str_member(json_node(t), "current"@), ""@)
        },
        0 <= i < m.tunes@.len() ==> {
            let t = items_of(n, "tunes"@)[i];
            &&& m.tunes@[i].name@ == or_text(str_member(json_node(t), "name"@), ""@)
            &&& m.tunes@[i].advantage@ == or_text(str_member(json_node(t), "advantage"@), ""@)
        },
        0 <= i < m.history@.len() ==> {
            let t = items_of(n, "kernels"@)[i];
            let h = m.history@[i];
            &&& h.flavor@ == or_text(str_member(json_node(t), "flavor"@), ""@)
            &&& h.version@ == or_text(str_member(json_node(t), "version"@), ""@)
            &&& h.upstream@ == or_text(str_member(json_node(t), "upstream"@), ""@)
            &&& h.date@ == or_text(str_member(json_node(t), "date"@), ""@)
            &&& h.status@ == or_text(str_member(json_node(t), "status"@), ""@)
            &&& h.changes@ == or_text(str_member(json_node(t), "changes"@), ""@)
        },
{
    let f = m.flavors@.map_values(|f: KFlavor| flavor_row(f));
    let t = m.tunes@.map_values(|t: KTune| tune_row(t));
    let h = m.history@.map_values(|h: KHistory| history_row(h));
    assert(f.len() == m.flavors@.len() && t.len() == m.tunes@.len() && h.len()
        == m.history@.len());
    if 0 <= i < m.flavors@.len() {
        let (name, text) = members_of(n, "flavors"@)[i];
        assert(f[i] == flavor_row(m.flavors@[i]));
        let r = row(json_node(text), flavor_keys());
        assert(f[i] == (name, r));
        assert(flavor_row(m.flavors@[i]).1[0] == r[0]);
        assert(flavor_row(m.flavors@[i]).1[1] == r[1]);
        assert(flavor_row(m.flavors@[i]).1[2] == r[2]);
    }
    if 0 <= i < m.tunes@.len() {
        assert(t[i] == tune_row(m.tunes@[i]));
        let r = row(json_node(items_of(n, "tunes"@)[i]), tune_keys());
        assert(t[i] == r);
        assert(tune_row(m.tunes@[i])[0] == r[0]);
        assert(tune_row(m.tunes@[i])[1] == r[1]);
    }
    if 0 <= i < m.history@.len() {
        assert(h[i] == history_row(m.history@[i]));
        let r = row(json_node(items_of(n, "kernels"@)[i]), history_keys());
        assert(h[i] == r);
        let s = history_row(m.history@[i]);
        assert(s[0] == r[0] && s[1] == r[1] && s[2] == r[2]);
        assert(s[3] == r[3] && s[4] == r[4] && s[5] == r[5]);
    }
}

/// A line of the tools' database has a category exactly where it is not blank, is no comment and has
/// four fields or more; the category is the fourth, or the third where that is blank, without the
/// white space around it and in lower case.
pub proof fn law_categories(line: Text)
    ensures
        ({
            let l = trimmed(line);
            let f = pieces(l, '|');
            &&& category_of(line) is Some <==> !blank(line) && l[0] != '#' && f.len() >= 4
            &&& category_of(line) is Some && !blank(f[3]) ==> category_of(line) == Some(
                lowered(trimmed(f[3])),
            )
            &&& category_of(line) is Some && blank(f[3]) ==> category_of(line) == Some(
                lowered(trimmed(f[2])),
            )
        }),
{
    law_trimmed(line);
    if pieces(trimmed(line), '|').len() >= 4 {
        law_trimmed(pieces(trimmed(line), '|')[3]);
    }
}

/// The count of a category is the number of the lines that are of it.
pub proof fn law_the_count_of_a_category(v: Seq<Text>, name: Text)
    ensures
        tally(v, name) == v.filter(|line: Text| category_of(line) == Some(name)).len(),
    decreases v.len(),
{
    reveal(Seq::filter);
    if v.len() > 0 {
        law_the_count_of_a_category(v.drop_last(), name);
    }
}

/// What the snapshot says is shown; what it leaves out is shown as down, and a percentage beyond a
/// hundred as a hundred. The resolver is the server on the first line that names one.
pub proof fn law_what_is_left_out_is_down(n: SnapshotView, iface: Text, mac: Text, resolv: Text)
    ensures
        ({
            let r = anond_view(n, iface, mac, resolv);
            &&& r.state == (if n.state is Some {
                n.state->0
            } else {
                "Down"@
            })
            &&& r.exit_ip == (if n.exit_ip is Some {
                n.exit_ip->0
            } else {
                ""@
            })
            &&& r.tor == (if n.tor is Some {
                n.tor->0
            } else {
                "stopped"@
            })
            &&& r.killswitch == (if n.killswitch is Some {
                n.killswitch->0
            } else {
                "down"@
            })
            &&& r.dns == (if n.dns is Some {
                n.dns->0
            } else {
                "open"@
            })
            &&& r.i2p == (if n.i2p is Some {
                n.i2p->0
            } else {
                "off"@
            })
            &&& r.bootstrap_pct <= 100
            &&& n.bootstrap_pct matches Some(p) ==> r.bootstrap_pct == if p <= 100 {
                p as int
            } else {
                100
            }
            &&& n.bootstrap_pct is None ==> r.bootstrap_pct == 0
            &&& r.mac == trimmed(mac) && r.iface == iface
            &&& first_after(line_texts(resolv), "nameserver "@) matches Some(v) ==> r.resolver
                == trimmed(v)
            &&& first_after(line_texts(resolv), "nameserver "@) is None ==> r.resolver.len() == 0
        }),
{
}

/// The snapshot is read by the names that it is published under.
pub proof fn law_the_names_of_the_snapshot(n: Option<NodeView>)
    ensures
        ({
            let s = snapshot_of(n);
            &&& s.state == str_member(n, "state"@) && s.exit_ip == str_member(n, "exit_ip"@)
            &&& s.tor == str_member(n, "tor"@) && s.killswitch == str_member(n, "killswitch"@)
            &&& s.dns == str_member(n, "dns"@) && s.i2p == str_member(n, "i2p"@)
            &&& s.bootstrap_pct == whole_member(n, "bootstrap_pct"@)
        }),
{
}

/// A text can be an address exactly where it is not empty and made of digits of sixteen, points and
/// colons.
pub proof fn law_addresses(ip: Text)
    ensures
        is_address(ip) <==> ip.len() > 0 && forall|i: int|
            0 <= i < ip.len() ==> {
                ||| '0' <= #[trigger] ip[i] <= '9'
                ||| 'a' <= ip[i] <= 'f'
                ||| 'A' <= ip[i] <= 'F'
                ||| ip[i] == '.'
                ||| ip[i] == ':'
            },
{
    assert forall|i: int| 0 <= i < ip.len() implies (ip_char(#[trigger] ip[i]) <==> {
        ||| '0' <= ip[i] <= '9'
        ||| 'a' <= ip[i] <= 'f'
        ||| 'A' <= ip[i] <= 'F'
        ||| ip[i] == '.'
        ||| ip[i] == ':'
    }) by {}
}

/// A place is what is known of its city, region and country, in this order, with a comma between
/// two; who runs the network follows behind a dot where it is known, and nothing is said where
/// nothing is known.
pub proof fn law_places_are_named(city: Text, region: Text, country: Text, org: Text)
    ensures
        ({
            let known = seq![city, region, country].filter(|t: Text| t.len() > 0);
            &&& org.len() == 0 ==> place_text(city, region, country, org) == joined(known, ", "@)
            &&& org.len() > 0 ==> place_text(city, region, country, org) == joined(known, ", "@)
                + " · "@ + org
        }),
{
    lemma_filled(seq![city, region, country]);
}

proof fn lemma_filled(v: Seq<Text>)
    ensures
        filled(v) == v.filter(|t: Text| t.len() > 0),
    decreases v.len(),
{
    reveal(Seq::filter);
    if v.len() > 0 {
        lemma_filled(v.drop_last());
    }
}

/// A grouping names each category once, in alphabetical order, with the number of lines that are of
/// it, and leaves none out.
pub proof fn law_a_grouping_is_complete(r: Seq<(Text, usize)>, v: Seq<Text>, name: Text, i: int)
    requires
        is_grouping(r, v),
    ensures
        0 <= i && i + 1 < r.len() ==> precedes(r[i].0, r[i + 1].0),
        0 <= i < r.len() ==> r[i].1 == v.filter(
            |line: Text| category_of(line) == Some(r[i].0),
        ).len(),
        (exists|k: int| 0 <= k < v.len() && category_of(#[trigger] v[k]) == Some(name)) <==> exists|
            j: int,
        |
            0 <= j < r.len() && (#[trigger] r[j]).0 == name,
{
    if 0 <= i < r.len() {
        law_the_count_of_a_category(v, r[i].0);
    }
    if exists|j: int| 0 <= j < r.len() && (#[trigger] r[j]).0 == name {
        let j = choose|j: int| 0 <= j < r.len() && (#[trigger] r[j]).0 == name;
        assert(tally(v, name) > 0);
        lemma_counted(v, name);
    }
    if exists|k: int| 0 <= k < v.len() && category_of(#[trigger] v[k]) == Some(name) {
        let k = choose|k: int| 0 <= k < v.len() && category_of(#[trigger] v[k]) == Some(name);
        assert(category_of(v[k]) matches Some(x) && x == name);
    }
}

proof fn lemma_counted(v: Seq<Text>, name: Text)
    requires
        tally(v, name) > 0,
    ensures
        exists|k: int| 0 <= k < v.len() && category_of(#[trigger] v[k]) == Some(name),
    decreases v.len(),
{
    if category_of(v.last()) == Some(name) {
        assert(v[v.len() - 1] == v.last());
    } else {
        lemma_counted(v.drop_last(), name);
        let k = choose|k: int|
            0 <= k < v.drop_last().len() && category_of(#[trigger] v.drop_last()[k]) == Some(name);
        assert(v[k] == v.drop_last()[k]);
    }
}

/// The items of a member are all the items of its list, and its members all the members of its
/// object; a member that is no list, or no object, has none.
pub proof fn law_all_items_are_taken(
    n: Option<NodeView>,
    key: Text,
    items: Seq<Text>,
    members: Seq<(Text, Text)>,
)
    ensures
        inner(n, key) == Some(NodeView::List(items)) ==> items_of(n, key) == items && members_of(
            n,
            key,
        ).len() == 0,
        inner(n, key) == Some(NodeView::Object(members)) ==> members_of(n, key) == members
            && items_of(n, key).len() == 0,
        inner(n, key) is None ==> items_of(n, key).len() == 0 && members_of(n, key).len() == 0,
{
}

/// A load of fewer than three words is shown whole.
pub proof fn law_a_short_load_is_shown_whole(s: Sources)
    requires
        words(s.loadavg@).len() < 3,
    ensures
        info_of(s).load == joined(words(s.loadavg@), " "@),
{
}

} // verus!
