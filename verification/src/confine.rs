//! Building and taking down the Tor-only namespace, and running a command in it, one action on the
//! host at a time. A namespace that was built for one command goes when the command ends; one that
//! was there before stays.
use vstd::prelude::*;
use vstd::string::StringExecFns;

use crate::arxonion::{HOST_IP, NETNS, NS_IP, VETH_HOST, VETH_NS, confinement, ruleset};
use crate::harden::{change_setting, found, show_setting};
use crate::nft::tables_text;
use crate::plan::{
    Command, CommandView, Feed, FeedView, Need, NeedView, Op, OpView, Step, StepView, attempt,
    cmd, command, must, need_op, owned, quiet_op, result_text, run_op, steps, try_op, under,
    with_context,
};
use crate::reading::law_carries;
use crate::reversal::{changes, new_value};
use crate::text::{
    Text, begins, carries, contains, joined, line_texts, lines, opt_text, plain, quoted, same,
    split_words, starts_with, strs, texts, trim, trimmed, words,
};

verus! {

// ---------- how commands are reported ----------
pub open spec fn all_plain(v: Seq<Text>) -> bool {
    forall|i: int| 0 <= i < v.len() ==> plain(#[trigger] v[i])
}

/// A list of texts as it is reported: each in quotation marks, in brackets.
pub open spec fn quoted_list(v: Seq<Text>) -> Text {
    "["@ + joined(v.map_values(|t: Text| quoted(t)), ", "@) + "]"@
}

/// How std reports a list of texts: what `{:?}` writes of it.
pub uninterp spec fn debug_text(v: Seq<Seq<char>>) -> Seq<char>;

/// Reports a list of texts with `Debug` of std, as `{:?}` writes it. The result is a function of the
/// texts; where every character of them is written as it is, it is each text in quotation marks, all
/// in brackets. How std escapes the other characters is left unsaid.
#[verifier::external_body]
fn debug_list(args: &[&str]) -> (s: String)
    ensures
        s@ == debug_text(strs(args@)),
        all_plain(strs(args@)) ==> s@ == quoted_list(strs(args@)),
{
    format!("{args:?}")
}

/// What running a command came to, given how its arguments are reported.
pub open spec fn run_report(
    program: Text,
    args: Text,
    ran: Result<Option<String>, String>,
) -> Result<(), Text> {
    match ran {
        Err(cause) => Err(under("run "@ + program + " "@ + args, cause@)),
        Ok(None) => Ok(()),
        Ok(Some(status)) => Err(program + " "@ + args + " exited "@ + status@),
    }
}

/// What running a command came to: an error where it could not be started, or where it exited
/// without success, with its exit status in words.
pub fn sh(program: &str, args: &[&str], ran: Result<Option<String>, String>) -> (r: Result<
    (),
    String,
>)
    ensures
        result_text(r) == run_report(program@, debug_text(strs(args@)), ran),
        all_plain(strs(args@)) ==> result_text(r) == run_report(
            program@,
            quoted_list(strs(args@)),
            ran,
        ),
{
    match ran {
        Err(cause) => {
            let context = "run ".to_owned().concat(program).concat(" ").concat(
                debug_list(args).as_str(),
            );
            Err(with_context(context.as_str(), cause.as_str()))
        },
        Ok(None) => Ok(()),
        Ok(Some(status)) => Err(
            program.to_owned().concat(" ").concat(debug_list(args).as_str()).concat(" exited ").concat(
                status.as_str(),
            ),
        ),
    }
}

// ---------- reading the host ----------
/// The first line that begins with a text.
pub open spec fn line_with(v: Seq<Text>, p: Text) -> Option<Text>
    decreases v.len(),
{
    if v.len() == 0 {
        None
    } else if begins(v[0], p) {
        Some(v[0])
    } else {
        line_with(v.skip(1), p)
    }
}

/// Whether the status of a process says that its real user is root.
pub open spec fn says_root(status: Text) -> bool {
    match line_with(line_texts(status), "Uid:"@) {
        Some(l) => words(l).len() > 1 && words(l)[1] == "0"@,
        None => false,
    }
}

/// Whether the status of this process says that its user is root.
pub fn is_root(status: &str) -> (r: bool)
    ensures
        r == says_root(status@),
{
    let all = lines(status);
    let ghost t = line_texts(status@);
    let n: usize = all.len();
    let mut i: usize = 0;
    assert(t.skip(0) =~= t);
    while i < n
        invariant
            i <= n == all@.len(),
            t == texts(all@),
            t == line_texts(status@),
            line_with(t.skip(i as int), "Uid:"@) == line_with(t, "Uid:"@),
        decreases n - i,
    {
        assert(t.skip(i as int)[0] == all@[i as int]@);
        if starts_with(all[i].as_str(), "Uid:") {
            let w = split_words(all[i].as_str());
            assert(texts(w@).len() == w@.len());
            if w.len() > 1 {
                assert(texts(w@)[1] == w@[1]@);
                return same(w[1].as_str(), "0");
            }
            return false;
        }
        assert(t.skip(i as int).skip(1) =~= t.skip(i + 1));
        i += 1;
    }
    false
}

/// Whether a list of namespaces, as `ip netns list` prints it, holds the namespace: a line begins
/// with its name.
pub open spec fn lists_namespace(list: Text) -> bool {
    exists|i: int|
        0 <= i < line_texts(list).len() && words(#[trigger] line_texts(list)[i]).len() > 0
            && words(line_texts(list)[i])[0] == NETNS@
}

/// Whether the namespace is there.
pub fn ns_exists(list: &str) -> (r: bool)
    ensures
        r == lists_namespace(list@),
{
    let all = lines(list);
    let ghost t = line_texts(list@);
    let mut i: usize = 0;
    while i < all.len()
        invariant
            i <= all@.len(),
            t == texts(all@),
            t == line_texts(list@),
            forall|k: int|
                0 <= k < i ==> !(words(#[trigger] t[k]).len() > 0 && words(t[k])[0] == NETNS@),
        decreases all@.len() - i,
    {
        assert(t[i as int] == all@[i as int]@);
        let w = split_words(all[i].as_str());
        assert(texts(w@).len() == w@.len());
        if w.len() > 0 {
            assert(texts(w@)[0] == w@[0]@);
            if same(w[0].as_str(), NETNS) {
                return true;
            }
        }
        i += 1;
    }
    false
}

// ---------- plans ----------
/// The plan that removes the namespace, its link and its rules. What is not there is no failure.
pub open spec fn teardown_plan() -> Seq<StepView> {
    seq![
        attempt(OpView::Quiet(cmd("nft"@, seq!["delete"@, "table"@, "ip"@, "arxonion"@]))),
        attempt(OpView::Quiet(cmd("ip"@, seq!["netns"@, "del"@, NETNS@]))),
        attempt(OpView::Quiet(cmd("ip"@, seq!["link"@, "del"@, VETH_HOST@]))),
    ]
}

/// Removes the namespace.
pub fn teardown_quiet() -> (v: Vec<Step>)
    ensures
        steps(v@) == teardown_plan(),
{
    let mut v: Vec<Step> = Vec::new();
    v.push(try_op(quiet_op("nft", &["delete", "table", "ip", "arxonion"])));
    v.push(try_op(quiet_op("ip", &["netns", "del", NETNS])));
    v.push(try_op(quiet_op("ip", &["link", "del", VETH_HOST])));
    assert(steps(v@) =~~= teardown_plan());
    v
}

pub open spec fn must_run(bin: Text, args: Seq<Text>) -> StepView {
    must(OpView::Run(cmd(bin, args)))
}

/// The step that hands the rules to `nft`.
pub open spec fn rules_step() -> StepView {
    must(
        OpView::Feed(
            FeedView {
                command: cmd("nft"@, seq!["-f"@, "-"@]),
                input: tables_text(confinement()),
                on_spawn: "spawn nft"@,
                on_wait: NeedView::Required,
                rejected: "nft rejected the arxonion ruleset"@,
            },
        ),
    )
}

/// Hands the rules to `nft`.
pub fn apply_nft() -> (s: Step)
    ensures
        s@ == rules_step(),
{
    let command = command("nft", &["-f", "-"]);
    assert(command@ =~~= cmd("nft"@, seq!["-f"@, "-"@]));
    need_op(
        Op::Feed(
            Feed {
                command,
                input: ruleset(),
                on_spawn: "spawn nft".to_owned(),
                on_wait: Need::Required,
                rejected: "nft rejected the arxonion ruleset".to_owned(),
            },
        ),
    )
}

/// The plan that builds the namespace, on the place of any stale copy: the namespace, the link with
/// an address at both ends, the only route, what the kernel has to allow, and the rules.
pub open spec fn setup_plan() -> Seq<StepView> {
    teardown_plan() + seq![
        must_run("ip"@, seq!["netns"@, "add"@, NETNS@]),
        must_run(
            "ip"@,
            seq!["netns"@, "exec"@, NETNS@, "ip"@, "link"@, "set"@, "lo"@, "up"@],
        ),
        must_run(
            "ip"@,
            seq![
                "link"@,
                "add"@,
                VETH_HOST@,
                "type"@,
                "veth"@,
                "peer"@,
                "name"@,
                VETH_NS@,
            ],
        ),
        must_run("ip"@, seq!["link"@, "set"@, VETH_NS@, "netns"@, NETNS@]),
        must_run("ip"@, seq!["addr"@, "add"@, HOST_IP@ + "/24"@, "dev"@, VETH_HOST@]),
        must_run("ip"@, seq!["link"@, "set"@, VETH_HOST@, "up"@]),
        must_run(
            "ip"@,
            seq![
                "netns"@,
                "exec"@,
                NETNS@,
                "ip"@,
                "addr"@,
                "add"@,
                NS_IP@ + "/24"@,
                "dev"@,
                VETH_NS@,
            ],
        ),
        must_run(
            "ip"@,
            seq!["netns"@, "exec"@, NETNS@, "ip"@, "link"@, "set"@, VETH_NS@, "up"@],
        ),
        must_run(
            "ip"@,
            seq![
                "netns"@,
                "exec"@,
                NETNS@,
                "ip"@,
                "route"@,
                "add"@,
                "default"@,
                "via"@,
                HOST_IP@,
            ],
        ),
        must_run("sysctl"@, seq!["-qw"@, "net.ipv4.conf.all.route_localnet=1"@]),
        must_run(
            "sysctl"@,
            seq!["-qw"@, "net.ipv4.conf."@ + VETH_HOST@ + ".route_localnet=1"@],
        ),
        must_run("sysctl"@, seq!["-qw"@, "net.ipv4.conf."@ + VETH_HOST@ + ".rp_filter=0"@]),
        attempt(OpView::Quiet(cmd("sysctl"@, seq!["-qw"@, "net.ipv4.conf.all.rp_filter=0"@]))),
        must_run("sysctl"@, seq!["-qw"@, "net.ipv4.ip_forward=1"@]),
        rules_step(),
    ]
}

fn run_step(bin: &str, args: &[&str]) -> (s: Step)
    ensures
        s@ == must_run(bin@, strs(args@)),
{
    need_op(run_op(bin, args))
}

/// Builds the namespace.
pub fn setup() -> (v: Vec<Step>)
    ensures
        steps(v@) == setup_plan(),
{
    let host = HOST_IP.to_owned().concat("/24");
    let inside = NS_IP.to_owned().concat("/24");
    let localnet = "net.ipv4.conf.".to_owned().concat(VETH_HOST).concat(".route_localnet=1");
    let filter = "net.ipv4.conf.".to_owned().concat(VETH_HOST).concat(".rp_filter=0");
    let mut v: Vec<Step> = Vec::new();
    v.push(run_step("ip", &["netns", "add", NETNS]));
    v.push(run_step("ip", &["netns", "exec", NETNS, "ip", "link", "set", "lo", "up"]));
    v.push(
        run_step("ip", &["link", "add", VETH_HOST, "type", "veth", "peer", "name", VETH_NS]),
    );
    v.push(run_step("ip", &["link", "set", VETH_NS, "netns", NETNS]));
    v.push(run_step("ip", &["addr", "add", host.as_str(), "dev", VETH_HOST]));
    v.push(run_step("ip", &["link", "set", VETH_HOST, "up"]));
    v.push(
        run_step(
            "ip",
            &["netns", "exec", NETNS, "ip", "addr", "add", inside.as_str(), "dev", VETH_NS],
        ),
    );
    v.push(run_step("ip", &["netns", "exec", NETNS, "ip", "link", "set", VETH_NS, "up"]));
    v.push(
        run_step(
            "ip",
            &["netns", "exec", NETNS, "ip", "route", "add", "default", "via", HOST_IP],
        ),
    );
    v.push(run_step("sysctl", &["-qw", "net.ipv4.conf.all.route_localnet=1"]));
    v.push(run_step("sysctl", &["-qw", localnet.as_str()]));
    v.push(run_step("sysctl", &["-qw", filter.as_str()]));
    v.push(try_op(quiet_op("sysctl", &["-qw", "net.ipv4.conf.all.rp_filter=0"])));
    v.push(run_step("sysctl", &["-qw", "net.ipv4.ip_forward=1"]));
    v.push(apply_nft());
    let ghost tail = steps(v@);
    assert(teardown_plan() + tail =~~= setup_plan());
    let mut all = teardown_quiet();
    let ghost head = all@;
    let ghost rest = v@;
    all.append(&mut v);
    assert(all@ =~= head + rest);
    assert(steps(all@) =~= steps(head) + steps(rest));
    all
}

/// The directory of the files that the namespace has in place of the host's.
pub open spec fn ns_directory() -> Text {
    "/etc/netns/"@ + NETNS@
}

/// The resolver configuration of the namespace.
pub open spec fn ns_resolver() -> Text {
    "/etc/netns/"@ + NETNS@ + "/resolv.conf"@
}

/// The plan that points the namespace's resolver at its gateway.
pub open spec fn resolv_plan() -> Seq<StepView> {
    seq![
        attempt(OpView::MakeDirs(ns_directory())),
        attempt(OpView::Write(ns_resolver(), "nameserver "@ + HOST_IP@ + "\n"@)),
    ]
}

/// Points the namespace's resolver at its gateway.
pub fn write_ns_resolv() -> (v: Vec<Step>)
    ensures
        steps(v@) == resolv_plan(),
{
    let dir = "/etc/netns/".to_owned().concat(NETNS);
    let file = "/etc/netns/".to_owned().concat(NETNS).concat("/resolv.conf");
    let text = "nameserver ".to_owned().concat(HOST_IP).concat("\n");
    let mut v: Vec<Step> = Vec::new();
    v.push(try_op(Op::MakeDirs(dir)));
    v.push(try_op(Op::Write(file, text)));
    assert(steps(v@) =~~= resolv_plan());
    v
}

// ---------- what is put back ----------
/// The kernel's setting that lets packets from outside reach loopback addresses.
pub const ROUTE_LOCALNET: &'static str = "net.ipv4.conf.all.route_localnet";

/// The kernel's setting for the reverse-path filter.
pub const RP_FILTER: &'static str = "net.ipv4.conf.all.rp_filter";

/// The kernel's setting for forwarding.
pub const IP_FORWARD: &'static str = "net.ipv4.ip_forward";

/// The settings of the kernel that building the namespace changes for the whole host, as they were
/// found, where they could be read.
pub struct Settings {
    pub localnet: Option<String>,
    pub filter: Option<String>,
    pub forward: Option<String>,
}

/// The model of [`Settings`].
#[verifier::ext_equal]
pub struct SettingsView {
    pub localnet: Option<Text>,
    pub filter: Option<Text>,
    pub forward: Option<Text>,
}

impl View for Settings {
    type V = SettingsView;

    open spec fn view(&self) -> SettingsView {
        SettingsView {
            localnet: opt_text(self.localnet),
            filter: opt_text(self.filter),
            forward: opt_text(self.forward),
        }
    }
}

/// No setting has been read.
pub open spec fn unread() -> SettingsView {
    SettingsView { localnet: None, filter: None, forward: None }
}

fn no_settings() -> (f: Settings)
    ensures
        f@ == unread(),
{
    Settings { localnet: None, filter: None, forward: None }
}

/// The step that gives a setting of the kernel the value that was found.
pub open spec fn back_steps(name: Text, found: Option<Text>) -> Seq<StepView> {
    match found {
        Some(value) => seq![attempt(OpView::Quiet(change_setting(name, value)))],
        None => seq![],
    }
}

/// The steps that remove the files of the namespace.
pub open spec fn files_plan() -> Seq<StepView> {
    seq![
        attempt(OpView::Remove(ns_resolver())),
        attempt(OpView::Quiet(cmd("rmdir"@, seq![ns_directory()]))),
    ]
}

/// The plan that takes everything back that was made for the namespace: the namespace, its link and
/// its rules, its files, and the settings of the kernel that were found before.
pub open spec fn release_plan(f: SettingsView) -> Seq<StepView> {
    teardown_plan() + files_plan() + back_steps(ROUTE_LOCALNET@, f.localnet) + back_steps(
        RP_FILTER@,
        f.filter,
    ) + back_steps(IP_FORWARD@, f.forward)
}

fn put_setting_back(v: &mut Vec<Step>, name: &str, found: &Option<String>)
    ensures
        steps(final(v)@) == steps(old(v)@) + back_steps(name@, opt_text(*found)),
{
    match found {
        Some(value) => {
            let text = name.to_owned().concat("=").concat(value.as_str());
            let s = try_op(quiet_op("sysctl", &["-qw", text.as_str()]));
            assert(s@ =~~= attempt(OpView::Quiet(change_setting(name@, value@))));
            v.push(s);
        },
        None => {},
    }
    assert(steps(v@) =~= steps(old(v)@) + back_steps(name@, opt_text(*found)));
}

/// Takes everything back that was made for the namespace.
pub fn release(f: &Settings) -> (v: Vec<Step>)
    ensures
        steps(v@) == release_plan(f@),
{
    let dir = "/etc/netns/".to_owned().concat(NETNS);
    let file = "/etc/netns/".to_owned().concat(NETNS).concat("/resolv.conf");
    let mut v = teardown_quiet();
    let ghost before = v@;
    let a = try_op(Op::Remove(file));
    let b = try_op(quiet_op("rmdir", &[dir.as_str()]));
    assert(b@ =~~= files_plan()[1]);
    v.push(a);
    v.push(b);
    assert(steps(v@) =~= steps(before) + files_plan());
    put_setting_back(&mut v, ROUTE_LOCALNET, &f.localnet);
    put_setting_back(&mut v, RP_FILTER, &f.filter);
    put_setting_back(&mut v, IP_FORWARD, &f.forward);
    v
}

/// The command that runs a command in the namespace.
pub open spec fn inside_command(command: Seq<Text>) -> CommandView {
    cmd("ip"@, seq!["netns"@, "exec"@, NETNS@] + command)
}

/// The command that runs a command in the namespace.
pub fn exec_in_ns(command: &[String]) -> (c: Command)
    ensures
        c@ == inside_command(texts(command@)),
        c.args@.len() == 3 + command@.len(),
        forall|i: int|
            #![trigger command@[i]]
            0 <= i < command@.len() ==> c.args@[3 + i]@ == command@[i]@,
{
    let mut args: Vec<String> = owned(&["netns", "exec", NETNS]);
    let mut i: usize = 0;
    assert(texts(args@) =~= seq!["netns"@, "exec"@, NETNS@] + texts(command@).take(0));
    while i < command.len()
        invariant
            i <= command@.len(),
            texts(args@) == seq!["netns"@, "exec"@, NETNS@] + texts(command@).take(i as int),
        decreases command@.len() - i,
    {
        let ghost before = args@;
        let a = command[i].clone();
        args.push(a);
        assert(texts(args@) =~= texts(before).push(a@));
        assert(texts(command@).take(i + 1) =~= texts(command@).take(i as int).push(a@));
        i += 1;
    }
    assert(texts(command@).take(command@.len() as int) =~= texts(command@));
    proof {
        assert(texts(args@).len() == args@.len());
        assert forall|i: int| #![trigger command@[i]] 0 <= i < command@.len() implies args@[3
            + i]@ == command@[i]@ by {
            assert(texts(args@)[3 + i] == texts(command@)[i]);
        }
    }
    Command { bin: "ip".to_owned(), args }
}

/// The shell that an isolated shell runs: the one asked for, else the user's own, else zsh.
pub fn pick_shell(asked: Option<String>, own: Option<String>) -> (s: String)
    ensures
        s@ == match asked {
            Some(a) => a@,
            None => match own {
                Some(o) => o@,
                None => "/usr/bin/zsh"@,
            },
        },
{
    match asked {
        Some(a) => a,
        None => match own {
            Some(o) => o,
            None => "/usr/bin/zsh".to_owned(),
        },
    }
}

/// The variables that mark an isolated shell: one to ask for, and the prompts of zsh and bash.
pub fn shell_marks() -> (v: Vec<(&'static str, &'static str)>)
    ensures
        v@ == seq![
            ("ARXONION", "1"),
            ("PROMPT", "%F{208}🧅 arxonion%f %~ %# "),
            ("PS1", "\\[\\e[38;5;208m\\]🧅 arxonion\\[\\e[0m\\] \\w \\$ "),
        ],
{
    let v: Vec<(&'static str, &'static str)> = vec![
        ("ARXONION", "1"),
        ("PROMPT", "%F{208}🧅 arxonion%f %~ %# "),
        ("PS1", "\\[\\e[38;5;208m\\]🧅 arxonion\\[\\e[0m\\] \\w \\$ "),
    ];
    assert(v@ =~= seq![
        ("ARXONION", "1"),
        ("PROMPT", "%F{208}🧅 arxonion%f %~ %# "),
        ("PS1", "\\[\\e[38;5;208m\\]🧅 arxonion\\[\\e[0m\\] \\w \\$ "),
    ]);
    v
}

// ---------- the command line ----------
/// What the command line asks for.
#[derive(Clone, Copy, PartialEq, Eq, Structural, Debug)]
pub enum Wish {
    Run,
    Up,
    Shell,
    Down,
    Status,
    Usage,
}

pub open spec fn wish_of(word: Text) -> Wish {
    if word == "run"@ {
        Wish::Run
    } else if word == "up"@ || word == "on"@ {
        Wish::Up
    } else if word == "shell"@ {
        Wish::Shell
    } else if word == "down"@ || word == "clean"@ || word == "off"@ {
        Wish::Down
    } else if word == "status"@ {
        Wish::Status
    } else {
        Wish::Usage
    }
}

/// What a command line asks for: its first word decides.
pub fn wish(args: &[String]) -> (r: Wish)
    ensures
        r == if args@.len() == 0 {
            Wish::Usage
        } else {
            wish_of(args@[0]@)
        },
{
    if args.len() == 0 {
        return Wish::Usage;
    }
    let word = args[0].as_str();
    if same(word, "run") {
        Wish::Run
    } else if same(word, "up") || same(word, "on") {
        Wish::Up
    } else if same(word, "shell") {
        Wish::Shell
    } else if same(word, "down") || same(word, "clean") || same(word, "off") {
        Wish::Down
    } else if same(word, "status") {
        Wish::Status
    } else {
        Wish::Usage
    }
}

/// How the program is used.
pub const ISOLATION_USAGE: &'static str =
    "arxonion — run apps in a Tor-only network namespace (real IP unreachable to them)\nusage:\n\t  sudo arxonion run <command> [args...]   run one command Tor-isolated\n\t  sudo arxonion shell                     an isolated shell (all commands in it route via Tor)\n\t  sudo arxonion up                        keep isolation up (persistent, for the Privacy toggle)\n\t  sudo arxonion down                      tear isolation down\n\t       arxonion status                   is it up / is Tor available";

/// What taking the isolation down comes to: the plan, the line that is printed, whether that goes
/// to the error stream, and the exit code.
pub struct Release {
    pub plan: Vec<Step>,
    pub line: &'static str,
    pub to_stderr: bool,
    pub code: i32,
}

/// Takes the isolation down, for root: the namespace and its files. What the kernel's settings were
/// before is known to the task alone that built the namespace.
pub fn down(root: bool) -> (r: Release)
    ensures
        root ==> steps(r.plan@) == release_plan(unread()) && r.line@
            == "arxonion: isolation torn down."@ && !r.to_stderr && r.code == 0,
        !root ==> r.plan@.len() == 0 && r.line@ == "arxonion down needs root"@ && r.to_stderr
            && r.code == 1,
{
    if root {
        Release {
            plan: release(&no_settings()),
            line: "arxonion: isolation torn down.",
            to_stderr: false,
            code: 0,
        }
    } else {
        Release {
            plan: Vec::new(),
            line: "arxonion down needs root",
            to_stderr: true,
            code: 1,
        }
    }
}

/// What is reported of the isolation, given the list of namespaces and whether Tor answers.
pub fn status(list: &str, tor: bool) -> (v: Vec<String>)
    ensures
        texts(v@) == seq![
            "arxonion namespace: "@ + (if carries(list@, NETNS@) {
                "active"@
            } else {
                "not set up"@
            }),
            "Tor available: "@ + (if tor {
                "yes"@
            } else {
                "no (arxonion would refuse to run)"@
            }),
        ],
{
    proof {
        reveal_strlit("arxonion");
    }
    let up = if contains(list, NETNS) {
        "active"
    } else {
        "not set up"
    };
    let available = if tor {
        "yes"
    } else {
        "no (arxonion would refuse to run)"
    };
    let v: Vec<String> = vec![
        "arxonion namespace: ".to_owned().concat(up),
        "Tor available: ".to_owned().concat(available),
    ];
    assert(texts(v@) =~= seq![
        "arxonion namespace: "@ + (if carries(list@, NETNS@) {
            "active"@
        } else {
            "not set up"@
        }),
        "Tor available: "@ + (if tor {
            "yes"@
        } else {
            "no (arxonion would refuse to run)"@
        }),
    ]);
    v
}

// ---------- running a command ----------
#[derive(Clone, Copy, PartialEq, Eq, Structural, Debug)]
pub enum Task {
    /// Build the namespace and leave it.
    Up,
    /// Run a shell in the namespace.
    Shell,
    /// Run a command in the namespace.
    Run,
}

/// What a task waits for.
#[derive(Clone, Copy, PartialEq, Eq, Structural, Debug)]
pub enum IsoStage {
    Root,
    Tor,
    List,
    Again,
    Localnet,
    Filter,
    Forward,
    Setup,
    Built,
    Ready,
    Exec,
    Teardown,
    Done,
}

/// How far a task has got.
pub struct Iso {
    pub task: Task,
    pub stage: IsoStage,
    /// The command to run; of a shell, the shell alone.
    pub command: Vec<String>,
    /// The namespace was there before.
    pub persistent: bool,
    /// The settings of the kernel from before the namespace was built.
    pub found: Settings,
    /// What the task comes to, once it has been taken down.
    pub outcome: Result<i32, String>,
}

/// The model of an [`Iso`].
#[verifier::ext_equal]
pub struct IsoView {
    pub task: Task,
    pub stage: IsoStage,
    pub command: Seq<Text>,
    pub persistent: bool,
    pub found: SettingsView,
    pub outcome: Result<i32, Text>,
}

pub open spec fn code_text(r: Result<i32, String>) -> Result<i32, Text> {
    match r {
        Ok(n) => Ok(n),
        Err(e) => Err(e@),
    }
}

impl View for Iso {
    type V = IsoView;

    open spec fn view(&self) -> IsoView {
        IsoView {
            task: self.task,
            stage: self.stage,
            command: texts(self.command@),
            persistent: self.persistent,
            found: self.found@,
            outcome: code_text(self.outcome),
        }
    }
}

/// An action on the host.
pub enum IsoAct {
    /// Tell the status of this process.
    Status,
    /// Tell whether Tor answers on its SOCKS port.
    Tor,
    /// Tell which namespaces there are.
    List,
    /// Tell what a command prints.
    Out(Command),
    /// Carry out a plan.
    Plan(Vec<Step>),
    /// Run a command and tell its exit code.
    Exec(Command),
    /// The task has ended, with an exit code or an error.
    End(Result<i32, String>),
    /// There is nothing left to do.
    Nothing,
}

/// The model of an [`IsoAct`].
#[verifier::ext_equal]
pub enum IsoActView {
    Status,
    Tor,
    List,
    Out(CommandView),
    Plan(Seq<StepView>),
    Exec(CommandView),
    End(Result<i32, Text>),
    Nothing,
}

impl View for IsoAct {
    type V = IsoActView;

    open spec fn view(&self) -> IsoActView {
        match self {
            IsoAct::Status => IsoActView::Status,
            IsoAct::Tor => IsoActView::Tor,
            IsoAct::List => IsoActView::List,
            IsoAct::Out(c) => IsoActView::Out(c@),
            IsoAct::Plan(v) => IsoActView::Plan(steps(v@)),
            IsoAct::Exec(c) => IsoActView::Exec(c@),
            IsoAct::End(r) => IsoActView::End(code_text(*r)),
            IsoAct::Nothing => IsoActView::Nothing,
        }
    }
}

/// One turn of a task: what is printed, what is printed on the error stream, and the action.
pub struct IsoTurn {
    pub say: Vec<String>,
    pub warn: Vec<String>,
    pub act: IsoAct,
}

/// The model of an [`IsoTurn`].
#[verifier::ext_equal]
pub struct IsoTurnView {
    pub say: Seq<Text>,
    pub warn: Seq<Text>,
    pub act: IsoActView,
}

impl View for IsoTurn {
    type V = IsoTurnView;

    open spec fn view(&self) -> IsoTurnView {
        IsoTurnView { say: texts(self.say@), warn: texts(self.warn@), act: self.act@ }
    }
}

/// What the host replied. Anything but the answer to the last action counts as a failure of it.
pub enum IsoReply {
    Nothing,
    Text(String),
    Flag(bool),
    Done(Result<(), String>),
    Code(Result<Option<i32>, String>),
}

/// The model of an [`IsoReply`].
#[verifier::ext_equal]
pub enum IsoReplyView {
    Nothing,
    Text(Text),
    Flag(bool),
    Done(Result<(), Text>),
    Code(Result<Option<i32>, Text>),
}

impl View for IsoReply {
    type V = IsoReplyView;

    open spec fn view(&self) -> IsoReplyView {
        match self {
            IsoReply::Nothing => IsoReplyView::Nothing,
            IsoReply::Text(t) => IsoReplyView::Text(t@),
            IsoReply::Flag(b) => IsoReplyView::Flag(*b),
            IsoReply::Done(r) => IsoReplyView::Done(
                match r {
                    Ok(()) => Ok(()),
                    Err(e) => Err(e@),
                },
            ),
            IsoReply::Code(r) => IsoReplyView::Code(
                match r {
                    Ok(c) => Ok(*c),
                    Err(e) => Err(e@),
                },
            ),
        }
    }
}

pub open spec fn silence() -> Text {
    "the host gave no answer"@
}

pub open spec fn heard(r: IsoReplyView) -> Text {
    match r {
        IsoReplyView::Text(t) => t,
        _ => seq![],
    }
}

pub open spec fn carried_out(r: IsoReplyView) -> Result<(), Text> {
    match r {
        IsoReplyView::Done(d) => d,
        _ => Err(silence()),
    }
}

/// The exit code of a command; minus one where a signal ended it.
pub open spec fn exit_code(r: IsoReplyView, context: Text) -> Result<i32, Text> {
    match r {
        IsoReplyView::Code(Ok(Some(n))) => Ok(n),
        IsoReplyView::Code(Ok(None)) => Ok(-1i32),
        IsoReplyView::Code(Err(cause)) => Err(under(context, cause)),
        _ => Err(under(context, silence())),
    }
}

pub open spec fn needs_root(task: Task) -> Text {
    match task {
        Task::Up => "arxonion up needs root: sudo arxonion up"@,
        Task::Shell => "arxonion shell needs root: sudo arxonion shell"@,
        Task::Run =>
            "arxonion run needs root (it creates a network namespace + nft rules): sudo arxonion run <cmd>"@,
    }
}

pub open spec fn needs_tor(task: Task) -> Text {
    match task {
        Task::Run =>
            "Tor is not running (no TransPort on 9040 / SOCKS on 9050). Start it first: `anond up`.\narxonion FAILS CLOSED — it will not run an app clear-net, so it refuses rather than leak."@,
        _ =>
            "Tor is not running. Start it first (`anond up`). arxonion FAILS CLOSED — it will not\nroute apps clear-net, so it refuses to arm without Tor."@,
    }
}

pub open spec fn already_up() -> Text {
    "arxonion: isolation is already up."@
}

pub open spec fn now_up() -> Text {
    "arxonion: isolation UP. Apps launched with `arxonion run <cmd>` (or `arxonion shell`)\nare confined to Tor; the real interface is not reachable to them. `arxonion down` to stop."@
}

pub open spec fn iso_quietly(act: IsoActView) -> IsoTurnView {
    IsoTurnView { say: seq![], warn: seq![], act }
}

pub open spec fn iso_saying(line: Text, act: IsoActView) -> IsoTurnView {
    IsoTurnView { say: seq![line], warn: seq![], act }
}

pub open spec fn iso_go(s: IsoView, stage: IsoStage, act: IsoActView) -> (IsoView, IsoTurnView) {
    (IsoView { stage, ..s }, iso_quietly(act))
}

pub open spec fn iso_end(s: IsoView, r: Result<i32, Text>) -> (IsoView, IsoTurnView) {
    iso_go(s, IsoStage::Done, IsoActView::End(r))
}

/// What is said before the command runs.
pub open spec fn banner(s: IsoView) -> Seq<Text> {
    if s.task == Task::Run {
        seq![
            "arxonion: '"@ + s.command[0]
                + "' is confined to a Tor-only namespace (real interface not present here)."@,
        ]
    } else {
        seq![
            "arxonion: isolated shell — every command here routes through Tor (real IP unreachable)."@,
            "          type `exit` to leave the isolated shell."@,
        ]
    }
}

/// On to building a namespace that is taken down again: the settings are read first.
pub open spec fn to_build(s: IsoView) -> (IsoView, IsoTurnView) {
    iso_go(s, IsoStage::Localnet, IsoActView::Out(show_setting(ROUTE_LOCALNET@)))
}

/// On to taking down what was built for a task, which then comes to an outcome.
pub open spec fn to_release(s: IsoView, outcome: Result<i32, Text>) -> (IsoView, IsoTurnView) {
    iso_go(
        IsoView { outcome, ..s },
        IsoStage::Teardown,
        IsoActView::Plan(release_plan(s.found)),
    )
}

/// What a command that shows a setting printed.
pub open spec fn printed(r: IsoReplyView) -> Option<Text> {
    found(trimmed(heard(r)))
}

/// The next turn of a task, out of the reply to the last one.
pub open spec fn iso_step(s: IsoView, r: IsoReplyView) -> (IsoView, IsoTurnView) {
    match s.stage {
        IsoStage::Root => if !says_root(heard(r)) {
            iso_end(s, Err(needs_root(s.task)))
        } else if s.task == Task::Run && s.command.len() == 0 {
            iso_end(s, Err("usage: arxonion run <command> [args...]"@))
        } else if s.task == Task::Shell {
            iso_go(s, IsoStage::List, IsoActView::List)
        } else {
            iso_go(s, IsoStage::Tor, IsoActView::Tor)
        },
        IsoStage::Tor => if r != IsoReplyView::Flag(true) {
            iso_end(s, Err(needs_tor(s.task)))
        } else if s.task == Task::Shell {
            iso_go(s, IsoStage::Again, IsoActView::List)
        } else {
            iso_go(s, IsoStage::List, IsoActView::List)
        },
        IsoStage::List => {
            let found = lists_namespace(heard(r));
            if s.task == Task::Up {
                if found {
                    (
                        IsoView { stage: IsoStage::Done, ..s },
                        iso_saying(already_up(), IsoActView::End(Ok(0i32))),
                    )
                } else {
                    iso_go(s, IsoStage::Setup, IsoActView::Plan(setup_plan()))
                }
            } else {
                let s = IsoView { persistent: found, ..s };
                if found {
                    iso_go(s, IsoStage::Ready, IsoActView::Plan(resolv_plan()))
                } else if s.task == Task::Shell {
                    iso_go(s, IsoStage::Tor, IsoActView::Tor)
                } else {
                    to_build(s)
                }
            }
        },
        IsoStage::Again => if lists_namespace(heard(r)) {
            (
                IsoView { stage: IsoStage::Ready, ..s },
                iso_saying(already_up(), IsoActView::Plan(resolv_plan())),
            )
        } else {
            to_build(s)
        },
        IsoStage::Localnet => iso_go(
            IsoView { found: SettingsView { localnet: printed(r), ..s.found }, ..s },
            IsoStage::Filter,
            IsoActView::Out(show_setting(RP_FILTER@)),
        ),
        IsoStage::Filter => iso_go(
            IsoView { found: SettingsView { filter: printed(r), ..s.found }, ..s },
            IsoStage::Forward,
            IsoActView::Out(show_setting(IP_FORWARD@)),
        ),
        IsoStage::Forward => iso_go(
            IsoView { found: SettingsView { forward: printed(r), ..s.found }, ..s },
            IsoStage::Setup,
            IsoActView::Plan(setup_plan()),
        ),
        IsoStage::Setup => match carried_out(r) {
            Ok(()) => if s.task == Task::Run {
                iso_go(s, IsoStage::Ready, IsoActView::Plan(resolv_plan()))
            } else {
                iso_go(s, IsoStage::Built, IsoActView::Plan(resolv_plan()))
            },
            Err(e) => match s.task {
                Task::Run => to_release(s, Err(under("building the Tor-only namespace"@, e))),
                Task::Shell => to_release(s, Err(under("bringing the Tor-only namespace up"@, e))),
                Task::Up => iso_end(s, Err(under("bringing the Tor-only namespace up"@, e))),
            },
        },
        IsoStage::Built => if s.task == Task::Shell {
            (
                IsoView { stage: IsoStage::Ready, ..s },
                iso_saying(now_up(), IsoActView::Plan(resolv_plan())),
            )
        } else {
            (
                IsoView { stage: IsoStage::Done, ..s },
                iso_saying(now_up(), IsoActView::End(Ok(0i32))),
            )
        },
        IsoStage::Ready => (
            IsoView { stage: IsoStage::Exec, ..s },
            IsoTurnView {
                say: seq![],
                warn: banner(s),
                act: IsoActView::Exec(inside_command(s.command)),
            },
        ),
        IsoStage::Exec => {
            let outcome = exit_code(
                r,
                if s.task == Task::Run {
                    "exec command in the namespace"@
                } else {
                    "start isolated shell"@
                },
            );
            if s.persistent {
                iso_end(s, outcome)
            } else {
                to_release(s, outcome)
            }
        },
        IsoStage::Teardown => iso_end(s, s.outcome),
        IsoStage::Done => (s, iso_quietly(IsoActView::Nothing)),
    }
}

/// A command that is run has a name.
pub open spec fn named(s: IsoView) -> bool {
    s.task == Task::Run && s.stage != IsoStage::Root && s.stage != IsoStage::Done
        ==> s.command.len() > 0
}

/// A task before its first action.
pub open spec fn begin_iso(task: Task, command: Seq<Text>) -> IsoView {
    IsoView {
        task,
        stage: IsoStage::Root,
        command,
        persistent: false,
        found: unread(),
        outcome: Ok(0i32),
    }
}

fn iso_turn(act: IsoAct) -> (t: IsoTurn)
    ensures
        t@ == iso_quietly(act@),
{
    let t = IsoTurn { say: Vec::new(), warn: Vec::new(), act };
    assert(t@.say =~= seq![]);
    assert(t@.warn =~= seq![]);
    t
}

fn iso_turn_saying(line: &str, act: IsoAct) -> (t: IsoTurn)
    ensures
        t@ == iso_saying(line@, act@),
{
    let t = IsoTurn { say: vec![line.to_owned()], warn: Vec::new(), act };
    assert(t@.say =~= seq![line@]);
    assert(t@.warn =~= seq![]);
    t
}

/// A task before its first action, which is to tell the status of this process. Of a shell the
/// command is the shell.
pub fn start_task(task: Task, command: Vec<String>) -> (r: (Iso, IsoTurn))
    ensures
        r.0@ == begin_iso(task, texts(command@)),
        r.1@ == iso_quietly(IsoActView::Status),
        named(r.0@),
{
    (
        Iso {
            task,
            stage: IsoStage::Root,
            command,
            persistent: false,
            found: no_settings(),
            outcome: Ok(0),
        },
        iso_turn(IsoAct::Status),
    )
}

fn go_on(s: &mut Iso, stage: IsoStage, act: IsoAct) -> (t: IsoTurn)
    ensures
        (final(s)@, t@) == iso_go(old(s)@, stage, act@),
{
    s.stage = stage;
    iso_turn(act)
}

fn ask_setting(s: &mut Iso, stage: IsoStage, name: &str) -> (t: IsoTurn)
    ensures
        (final(s)@, t@) == iso_go(old(s)@, stage, IsoActView::Out(show_setting(name@))),
{
    let c = command("sysctl", &["-n", name]);
    assert(c@.args =~= seq!["-n"@, name@]);
    go_on(s, stage, IsoAct::Out(c))
}

fn release_with(s: &mut Iso, outcome: Result<i32, String>) -> (t: IsoTurn)
    ensures
        (final(s)@, t@) == to_release(old(s)@, code_text(outcome)),
{
    s.outcome = outcome;
    let plan = release(&s.found);
    go_on(s, IsoStage::Teardown, IsoAct::Plan(plan))
}

fn read_setting(r: &IsoReply) -> (o: Option<String>)
    ensures
        opt_text(o) == printed(r@),
{
    let t = match r {
        IsoReply::Text(t) => trim(t.as_str()),
        _ => trim(""),
    };
    assert(t@ == trimmed(heard(r@))) by {
        reveal_strlit("");
        assert(""@ =~= seq![]);
    }
    if t.as_str().is_empty() {
        None
    } else {
        Some(t)
    }
}

fn read_list(r: &IsoReply) -> (b: bool)
    ensures
        b == lists_namespace(heard(r@)),
{
    match r {
        IsoReply::Text(t) => ns_exists(t.as_str()),
        _ => {
            proof {
                reveal_strlit("");
                assert(""@ =~= seq![]);
            }
            ns_exists("")
        },
    }
}

fn read_root(r: &IsoReply) -> (b: bool)
    ensures
        b == says_root(heard(r@)),
{
    match r {
        IsoReply::Text(t) => is_root(t.as_str()),
        _ => {
            proof {
                reveal_strlit("");
                assert(""@ =~= seq![]);
            }
            is_root("")
        },
    }
}

fn read_code(r: IsoReply, context: &str) -> (c: Result<i32, String>)
    ensures
        code_text(c) == exit_code(r@, context@),
{
    match r {
        IsoReply::Code(Ok(Some(n))) => Ok(n),
        IsoReply::Code(Ok(None)) => Ok(-1),
        IsoReply::Code(Err(cause)) => Err(with_context(context, cause.as_str())),
        _ => Err(with_context(context, "the host gave no answer")),
    }
}

fn refuse_root(task: Task) -> (s: String)
    ensures
        s@ == needs_root(task),
{
    match task {
        Task::Up => "arxonion up needs root: sudo arxonion up".to_owned(),
        Task::Shell => "arxonion shell needs root: sudo arxonion shell".to_owned(),
        Task::Run =>
            "arxonion run needs root (it creates a network namespace + nft rules): sudo arxonion run <cmd>".to_owned(),
    }
}

fn refuse_tor(task: Task) -> (s: String)
    ensures
        s@ == needs_tor(task),
{
    match task {
        Task::Run =>
            "Tor is not running (no TransPort on 9040 / SOCKS on 9050). Start it first: `anond up`.\narxonion FAILS CLOSED — it will not run an app clear-net, so it refuses rather than leak.".to_owned(),
        _ =>
            "Tor is not running. Start it first (`anond up`). arxonion FAILS CLOSED — it will not\nroute apps clear-net, so it refuses to arm without Tor.".to_owned(),
    }
}

fn say_banner(s: &Iso) -> (v: Vec<String>)
    requires
        s.task == Task::Run ==> s.command@.len() > 0,
    ensures
        texts(v@) == banner(s@),
{
    let mut v: Vec<String> = Vec::new();
    if s.task == Task::Run {
        v.push(
            "arxonion: '".to_owned().concat(s.command[0].as_str()).concat(
                "' is confined to a Tor-only namespace (real interface not present here).",
            ),
        );
    } else {
        v.push(
            "arxonion: isolated shell — every command here routes through Tor (real IP unreachable).".to_owned(),
        );
        v.push("          type `exit` to leave the isolated shell.".to_owned());
    }
    assert(texts(v@) =~= banner(s@));
    v
}

/// Takes the reply to the last action and gives the next turn.
#[verifier::spinoff_prover]
#[verifier::rlimit(40)]
pub fn confine(s: &mut Iso, r: IsoReply) -> (t: IsoTurn)
    requires
        named(old(s)@),
    ensures
        (final(s)@, t@) == iso_step(old(s)@, r@),
        named(final(s)@),
{
    assert(s@.command.len() == s.command@.len());
    match s.stage {
        IsoStage::Root => if !read_root(&r) {
            let e = refuse_root(s.task);
            go_on(s, IsoStage::Done, IsoAct::End(Err(e)))
        } else if s.task == Task::Run && s.command.len() == 0 {
            go_on(
                s,
                IsoStage::Done,
                IsoAct::End(Err("usage: arxonion run <command> [args...]".to_owned())),
            )
        } else if s.task == Task::Shell {
            go_on(s, IsoStage::List, IsoAct::List)
        } else {
            go_on(s, IsoStage::Tor, IsoAct::Tor)
        },
        IsoStage::Tor => {
            let up = match &r {
                IsoReply::Flag(b) => *b,
                _ => false,
            };
            if !up {
                let e = refuse_tor(s.task);
                go_on(s, IsoStage::Done, IsoAct::End(Err(e)))
            } else if s.task == Task::Shell {
                go_on(s, IsoStage::Again, IsoAct::List)
            } else {
                go_on(s, IsoStage::List, IsoAct::List)
            }
        },
        IsoStage::List => {
            let found = read_list(&r);
            if s.task == Task::Up {
                if found {
                    s.stage = IsoStage::Done;
                    iso_turn_saying("arxonion: isolation is already up.", IsoAct::End(Ok(0)))
                } else {
                    go_on(s, IsoStage::Setup, IsoAct::Plan(setup()))
                }
            } else {
                s.persistent = found;
                if found {
                    go_on(s, IsoStage::Ready, IsoAct::Plan(write_ns_resolv()))
                } else if s.task == Task::Shell {
                    go_on(s, IsoStage::Tor, IsoAct::Tor)
                } else {
                    ask_setting(s, IsoStage::Localnet, ROUTE_LOCALNET)
                }
            }
        },
        IsoStage::Again => if read_list(&r) {
            s.stage = IsoStage::Ready;
            iso_turn_saying("arxonion: isolation is already up.", IsoAct::Plan(write_ns_resolv()))
        } else {
            ask_setting(s, IsoStage::Localnet, ROUTE_LOCALNET)
        },
        IsoStage::Localnet => {
            s.found.localnet = read_setting(&r);
            ask_setting(s, IsoStage::Filter, RP_FILTER)
        },
        IsoStage::Filter => {
            s.found.filter = read_setting(&r);
            ask_setting(s, IsoStage::Forward, IP_FORWARD)
        },
        IsoStage::Forward => {
            s.found.forward = read_setting(&r);
            go_on(s, IsoStage::Setup, IsoAct::Plan(setup()))
        },
        IsoStage::Setup => {
            let done = match r {
                IsoReply::Done(d) => d,
                _ => Err("the host gave no answer".to_owned()),
            };
            match done {
                Ok(()) => if s.task == Task::Run {
                    go_on(s, IsoStage::Ready, IsoAct::Plan(write_ns_resolv()))
                } else {
                    go_on(s, IsoStage::Built, IsoAct::Plan(write_ns_resolv()))
                },
                Err(e) => match s.task {
                    Task::Run => {
                        let e = with_context("building the Tor-only namespace", e.as_str());
                        release_with(s, Err(e))
                    },
                    Task::Shell => {
                        let e = with_context("bringing the Tor-only namespace up", e.as_str());
                        release_with(s, Err(e))
                    },
                    Task::Up => {
                        let e = with_context("bringing the Tor-only namespace up", e.as_str());
                        go_on(s, IsoStage::Done, IsoAct::End(Err(e)))
                    },
                },
            }
        },
        IsoStage::Built => if s.task == Task::Shell {
            s.stage = IsoStage::Ready;
            iso_turn_saying(
                "arxonion: isolation UP. Apps launched with `arxonion run <cmd>` (or `arxonion shell`)\nare confined to Tor; the real interface is not reachable to them. `arxonion down` to stop.",
                IsoAct::Plan(write_ns_resolv()),
            )
        } else {
            s.stage = IsoStage::Done;
            iso_turn_saying(
                "arxonion: isolation UP. Apps launched with `arxonion run <cmd>` (or `arxonion shell`)\nare confined to Tor; the real interface is not reachable to them. `arxonion down` to stop.",
                IsoAct::End(Ok(0)),
            )
        },
        IsoStage::Ready => {
            let warn = say_banner(s);
            let c = exec_in_ns(s.command.as_slice());
            s.stage = IsoStage::Exec;
            let t = IsoTurn { say: Vec::new(), warn, act: IsoAct::Exec(c) };
            assert(t@.say =~= seq![]);
            t
        },
        IsoStage::Exec => {
            let context = if s.task == Task::Run {
                "exec command in the namespace"
            } else {
                "start isolated shell"
            };
            let outcome = read_code(r, context);
            if s.persistent {
                go_on(s, IsoStage::Done, IsoAct::End(outcome))
            } else {
                release_with(s, outcome)
            }
        },
        IsoStage::Teardown => {
            let outcome = match &s.outcome {
                Ok(n) => Ok(*n),
                Err(e) => Err(e.clone()),
            };
            go_on(s, IsoStage::Done, IsoAct::End(outcome))
        },
        IsoStage::Done => iso_turn(IsoAct::Nothing),
    }
}

// ---------- what every task keeps ----------
/// What a task can change of the host.
#[verifier::ext_equal]
pub struct Ground {
    /// The rules are installed.
    pub table: bool,
    /// The namespace is there.
    pub namespace: bool,
    /// The host's end of the link is there.
    pub link: bool,
    /// The settings of the kernel.
    pub localnet: Text,
    pub filter: Text,
    pub forward: Text,
    /// The namespace has a resolver configuration.
    pub resolver: bool,
    /// The namespace has a directory of files.
    pub directory: bool,
}

/// The host after a command whose output is discarded has succeeded on it.
pub open spec fn ground_effect(c: CommandView, g: Ground) -> Ground {
    if changes(c, ROUTE_LOCALNET@) {
        Ground { localnet: new_value(c, ROUTE_LOCALNET@), ..g }
    } else if changes(c, RP_FILTER@) {
        Ground { filter: new_value(c, RP_FILTER@), ..g }
    } else if changes(c, IP_FORWARD@) {
        Ground { forward: new_value(c, IP_FORWARD@), ..g }
    } else if c == cmd("nft"@, seq!["delete"@, "table"@, "ip"@, "arxonion"@]) {
        Ground { table: false, ..g }
    } else if c == cmd("ip"@, seq!["netns"@, "del"@, NETNS@]) {
        Ground { namespace: false, ..g }
    } else if c == cmd("ip"@, seq!["link"@, "del"@, VETH_HOST@]) {
        Ground { link: false, ..g }
    } else if c == cmd("rmdir"@, seq![ns_directory()]) {
        Ground { directory: false, ..g }
    } else {
        g
    }
}

/// The host after a plan other than building has been carried out.
pub open spec fn ground_after(g: Ground, p: Seq<StepView>) -> Ground
    decreases p.len(),
{
    if p.len() == 0 {
        g
    } else {
        let before = ground_after(g, p.drop_last());
        match p.last().op {
            OpView::Quiet(c) => ground_effect(c, before),
            OpView::Write(path, _) if path == ns_resolver() => Ground { resolver: true, ..before },
            OpView::Remove(path) if path == ns_resolver() => Ground { resolver: false, ..before },
            OpView::MakeDirs(path) if path == ns_directory() => Ground { directory: true, ..before },
            _ => before,
        }
    }
}

/// Whether the settings are those of another moment.
pub open spec fn same_settings(a: Ground, b: Ground) -> bool {
    a.localnet == b.localnet && a.filter == b.filter && a.forward == b.forward
}

/// Whether the rules, the namespace and the link are those of another moment.
pub open spec fn same_parts(a: Ground, b: Ground) -> bool {
    a.table == b.table && a.namespace == b.namespace && a.link == b.link
}

/// Whether nothing is on the host that was not there at another moment: no rules, no namespace, no
/// link and no files.
pub open spec fn nothing_more(a: Ground, b: Ground) -> bool {
    &&& a.table ==> b.table
    &&& a.namespace ==> b.namespace
    &&& a.link ==> b.link
    &&& a.resolver ==> b.resolver
    &&& a.directory ==> b.directory
}

/// Whether every setting has a value.
pub open spec fn has_values(g: Ground) -> bool {
    g.localnet.len() > 0 && g.filter.len() > 0 && g.forward.len() > 0
}

/// A task, the action that is under way, and what has come of it so far.
pub struct Confined {
    pub iso: IsoView,
    pub act: IsoActView,
    /// The user is root.
    pub root: bool,
    /// Tor was found to answer.
    pub tor: bool,
    /// The namespace was found, or built without a failure.
    pub whole: bool,
    /// What the host is like.
    pub ground: Ground,
    /// What building the namespace, in whole or in part, makes of the host.
    pub built: Ground,
}

/// The host replies to the action, and the task takes its next turn. What building leaves on the
/// host is open, since it may fail on the way; any other plan does what its operations do.
pub open spec fn follow(w: Confined, r: IsoReplyView) -> Confined {
    Confined {
        iso: iso_step(w.iso, r).0,
        act: iso_step(w.iso, r).1.act,
        root: w.root || (w.act is Status && says_root(heard(r))),
        tor: w.tor || (w.act is Tor && r == IsoReplyView::Flag(true)),
        whole: w.whole || (w.act is List && lists_namespace(heard(r))) || (w.act
            == IsoActView::Plan(setup_plan()) && carried_out(r) is Ok),
        ground: match w.act {
            IsoActView::Plan(p) => if p == setup_plan() {
                w.built
            } else {
                ground_after(w.ground, p)
            },
            _ => w.ground,
        },
        built: w.built,
    }
}

/// What comes of a series of replies.
pub open spec fn followed(w: Confined, replies: Seq<IsoReplyView>) -> Confined
    decreases replies.len(),
{
    if replies.len() == 0 {
        w
    } else {
        follow(followed(w, replies.drop_last()), replies.last())
    }
}

/// Whether a reply tells the truth about the namespace and about the settings.
pub open spec fn true_reply(w: Confined, r: IsoReplyView) -> bool {
    match w.act {
        IsoActView::List => lists_namespace(heard(r)) == w.ground.namespace,
        IsoActView::Out(c) => {
            &&& c == show_setting(ROUTE_LOCALNET@) ==> trimmed(heard(r)) == w.ground.localnet
            &&& c == show_setting(RP_FILTER@) ==> trimmed(heard(r)) == w.ground.filter
            &&& c == show_setting(IP_FORWARD@) ==> trimmed(heard(r)) == w.ground.forward
        },
        _ => true,
    }
}

/// Whether the host tells the truth whenever it is asked.
pub open spec fn honest(w: Confined, replies: Seq<IsoReplyView>) -> bool
    decreases replies.len(),
{
    replies.len() == 0 || {
        honest(w, replies.drop_last()) && true_reply(
            followed(w, replies.drop_last()),
            replies.last(),
        )
    }
}

/// The host before a task, and what building the namespace would make of it.
pub struct Site {
    pub ground: Ground,
    pub built: Ground,
}

pub open spec fn before_task(task: Task, command: Seq<Text>, site: Site) -> Confined {
    Confined {
        iso: begin_iso(task, command),
        act: IsoActView::Status,
        root: false,
        tor: false,
        whole: false,
        ground: site.ground,
        built: site.built,
    }
}

/// The action that goes with each stage.
spec fn paired(w: Confined) -> bool {
    match w.iso.stage {
        IsoStage::Root => w.act is Status,
        IsoStage::Tor => w.act is Tor,
        IsoStage::List => w.act is List,
        IsoStage::Again => w.act is List,
        IsoStage::Localnet => w.act == IsoActView::Out(show_setting(ROUTE_LOCALNET@)),
        IsoStage::Filter => w.act == IsoActView::Out(show_setting(RP_FILTER@)),
        IsoStage::Forward => w.act == IsoActView::Out(show_setting(IP_FORWARD@)),
        IsoStage::Setup => w.act == IsoActView::Plan(setup_plan()),
        IsoStage::Built => w.act == IsoActView::Plan(resolv_plan()),
        IsoStage::Ready => w.act == IsoActView::Plan(resolv_plan()),
        IsoStage::Exec => w.act is Exec,
        IsoStage::Teardown => w.act == IsoActView::Plan(release_plan(w.iso.found)),
        IsoStage::Done => w.act is End || w.act is Nothing,
    }
}

/// The stages in which the settings are read.
spec fn reading(s: IsoStage) -> bool {
    s == IsoStage::Localnet || s == IsoStage::Filter || s == IsoStage::Forward
}

spec fn covered(w: Confined) -> bool {
    let s = w.iso.stage;
    &&& paired(w)
    &&& s != IsoStage::Root && s != IsoStage::Done ==> w.root
    &&& s == IsoStage::Ready || s == IsoStage::Exec || s == IsoStage::Built ==> w.whole
    &&& w.iso.task == Task::Run && s != IsoStage::Root && s != IsoStage::Tor && s != IsoStage::Done
        ==> w.tor
    &&& w.iso.task == Task::Up && s != IsoStage::Root && s != IsoStage::Tor && s != IsoStage::Done
        ==> w.tor
    &&& s == IsoStage::Setup || s == IsoStage::Again || reading(s) ==> w.tor
}

proof fn lemma_plans_differ(f: SettingsView)
    ensures
        setup_plan() != release_plan(f),
        setup_plan() != resolv_plan(),
        release_plan(f) != resolv_plan(),
{
    assert(setup_plan().len() == 18);
    assert(5 <= release_plan(f).len() <= 8);
    assert(resolv_plan().len() == 2);
}

proof fn lemma_cover_on(w: Confined, r: IsoReplyView)
    requires
        covered(w),
    ensures
        covered(follow(w, r)),
        follow(w, r).iso.task == w.iso.task,
        follow(w, r).iso.command == w.iso.command,
{
    lemma_plans_differ(w.iso.found);
}

proof fn lemma_covered(task: Task, command: Seq<Text>, site: Site, replies: Seq<IsoReplyView>)
    ensures
        covered(followed(before_task(task, command, site), replies)),
        followed(before_task(task, command, site), replies).iso.task == task,
        followed(before_task(task, command, site), replies).iso.command == command,
    decreases replies.len(),
{
    if replies.len() > 0 {
        lemma_covered(task, command, site, replies.drop_last());
        lemma_cover_on(
            followed(before_task(task, command, site), replies.drop_last()),
            replies.last(),
        );
    }
}

/// Only what is confined runs: a command is run only for root, through the namespace, and in a
/// namespace that was found or built whole. `run` and a namespace that has to be built ask for Tor
/// first.
pub proof fn law_only_confined_commands_run(
    task: Task,
    command: Seq<Text>,
    site: Site,
    replies: Seq<IsoReplyView>,
)
    ensures
        ({
            let w = followed(before_task(task, command, site), replies);
            &&& w.act is Exec ==> w.root && w.whole && (task == Task::Run ==> w.tor)
            &&& w.act == IsoActView::Plan(setup_plan()) ==> w.root && w.tor
        }),
{
    lemma_covered(task, command, site, replies);
    lemma_plans_differ(followed(before_task(task, command, site), replies).iso.found);
}

/// The command that runs is the one asked for, in the namespace.
pub proof fn law_the_command_is_confined(
    task: Task,
    command: Seq<Text>,
    site: Site,
    replies: Seq<IsoReplyView>,
)
    ensures
        ({
            let w = followed(before_task(task, command, site), replies);
            w.act matches IsoActView::Exec(c) ==> c == inside_command(command)
        }),
{
    lemma_covered(task, command, site, replies);
    if replies.len() > 0 {
        lemma_covered(task, command, site, replies.drop_last());
    }
}

proof fn lemma_ground_add(g: Ground, a: Seq<StepView>, b: Seq<StepView>)
    ensures
        ground_after(g, a + b) == ground_after(ground_after(g, a), b),
    decreases b.len(),
{
    if b.len() == 0 {
        assert(a + b =~= a);
    } else {
        lemma_ground_add(g, a, b.drop_last());
        assert((a + b).drop_last() =~= a + b.drop_last());
        assert((a + b).last() == b.last());
    }
}

/// The names of the settings, and the programs, differ.
proof fn lemma_names()
    ensures
        ROUTE_LOCALNET@.len() > 19 && RP_FILTER@.len() > 19 && IP_FORWARD@.len() > 9,
        ROUTE_LOCALNET@[19] != RP_FILTER@[19],
        ROUTE_LOCALNET@[9] != IP_FORWARD@[9],
        RP_FILTER@[9] != IP_FORWARD@[9],
        "nft"@ != "sysctl"@,
        "ip"@ != "sysctl"@,
        "rmdir"@ != "sysctl"@,
        "nft"@ != "rmdir"@,
        "ip"@ != "rmdir"@,
        "nft"@ != "ip"@,
        "netns"@ != "link"@,
{
    reveal_strlit("net.ipv4.conf.all.route_localnet");
    reveal_strlit("net.ipv4.conf.all.rp_filter");
    reveal_strlit("net.ipv4.ip_forward");
    reveal_strlit("nft");
    reveal_strlit("ip");
    reveal_strlit("sysctl");
    reveal_strlit("rmdir");
    reveal_strlit("netns");
    reveal_strlit("link");
    assert("netns"@.len() == 5 && "link"@.len() == 4);
    assert("nft"@.len() == 3 && "ip"@.len() == 2 && "sysctl"@.len() == 6 && "rmdir"@.len() == 5);
    assert(ROUTE_LOCALNET@[19] == 'o' && RP_FILTER@[19] == 'p');
    assert(ROUTE_LOCALNET@[9] == 'c' && RP_FILTER@[9] == 'c' && IP_FORWARD@[9] == 'i');
}

/// A command that gives a setting a value.
proof fn lemma_change(name: Text, value: Text)
    ensures
        changes(change_setting(name, value), name),
        new_value(change_setting(name, value), name) == value,
{
    let n = name + "="@;
    assert(change_setting(name, value).args[1] == n + value);
    assert((n + value).take(n.len() as int) =~= n);
    assert((n + value).skip(n.len() as int) =~= value);
}

/// It gives no other setting a value.
proof fn lemma_no_change(name: Text, value: Text, other: Text, i: int)
    requires
        0 <= i < name.len(),
        i < other.len(),
        name[i] != other[i],
    ensures
        !changes(change_setting(name, value), other),
{
    let n = name + "="@;
    let o = other + "="@;
    assert(change_setting(name, value).args[1] == n + value);
    if begins(n + value, o) {
        assert((n + value).take(o.len() as int)[i] == o[i]);
        assert((n + value)[i] == name[i]);
    }
}

proof fn lemma_setting_back(g: Ground, name: Text, value: Text)
    ensures
        ground_after(g, back_steps(name, Some(value))) == ground_effect(
            change_setting(name, value),
            g,
        ),
{
    let p = back_steps(name, Some(value));
    assert(p.drop_last() =~= seq![]);
    assert(ground_after(g, p.drop_last()) == g);
}

/// A host with nothing of the namespace on it.
spec fn emptied(g: Ground) -> Ground {
    Ground {
        table: false,
        namespace: false,
        link: false,
        resolver: false,
        directory: false,
        ..g
    }
}

proof fn lemma_ground_one(g: Ground, c: CommandView)
    ensures
        ground_after(g, seq![attempt(OpView::Quiet(c))]) == ground_effect(c, g),
{
    let p = seq![attempt(OpView::Quiet(c))];
    assert(p.drop_last() =~= seq![]);
    assert(ground_after(g, p.drop_last()) == g);
}

/// The deletions take the rules, the namespace and the link away.
proof fn lemma_torn_down(g: Ground)
    ensures
        ground_after(g, teardown_plan()) == (Ground {
            table: false,
            namespace: false,
            link: false,
            ..g
        }),
{
    lemma_names();
    let a = cmd("nft"@, seq!["delete"@, "table"@, "ip"@, "arxonion"@]);
    let b = cmd("ip"@, seq!["netns"@, "del"@, NETNS@]);
    let c = cmd("ip"@, seq!["link"@, "del"@, VETH_HOST@]);
    assert(b.args[0] == "netns"@ && c.args[0] == "link"@);
    let pa = seq![attempt(OpView::Quiet(a))];
    let pb = seq![attempt(OpView::Quiet(b))];
    let pc = seq![attempt(OpView::Quiet(c))];
    assert(teardown_plan() =~= pa + pb + pc);
    lemma_ground_add(g, pa + pb, pc);
    lemma_ground_add(g, pa, pb);
    lemma_ground_one(g, a);
    let g1 = Ground { table: false, ..g };
    lemma_ground_one(g1, b);
    let g2 = Ground { namespace: false, ..g1 };
    lemma_ground_one(g2, c);
}

/// The files of the namespace go.
proof fn lemma_files_gone(g: Ground)
    ensures
        ground_after(g, files_plan()) == (Ground { resolver: false, directory: false, ..g }),
{
    lemma_names();
    reveal_with_fuel(ground_after, 3);
    let p = files_plan();
    assert(p.drop_last().drop_last() =~= seq![]);
    assert(p.drop_last().last() == p[0]);
}

/// Taking everything back leaves the settings that were found, and nothing of the namespace.
proof fn lemma_released(g: Ground, g0: Ground)
    ensures
        ({
            let f = SettingsView {
                localnet: Some(g0.localnet),
                filter: Some(g0.filter),
                forward: Some(g0.forward),
            };
            ground_after(g, release_plan(f)) == emptied(g0)
        }),
{
    lemma_names();
    let a = back_steps(ROUTE_LOCALNET@, Some(g0.localnet));
    let b = back_steps(RP_FILTER@, Some(g0.filter));
    let c = back_steps(IP_FORWARD@, Some(g0.forward));
    let t = teardown_plan() + files_plan();
    lemma_ground_add(g, t + a + b, c);
    lemma_ground_add(g, t + a, b);
    lemma_ground_add(g, t, a);
    let g1 = ground_after(g, t);
    lemma_ground_add(g, teardown_plan(), files_plan());
    lemma_torn_down(g);
    lemma_files_gone(ground_after(g, teardown_plan()));
    assert(g1 == emptied(g));
    lemma_change(ROUTE_LOCALNET@, g0.localnet);
    lemma_setting_back(g1, ROUTE_LOCALNET@, g0.localnet);
    let g2 = Ground { localnet: g0.localnet, ..g1 };
    lemma_change(RP_FILTER@, g0.filter);
    lemma_no_change(RP_FILTER@, g0.filter, ROUTE_LOCALNET@, 19);
    lemma_setting_back(g2, RP_FILTER@, g0.filter);
    let g3 = Ground { filter: g0.filter, ..g2 };
    lemma_change(IP_FORWARD@, g0.forward);
    lemma_no_change(IP_FORWARD@, g0.forward, ROUTE_LOCALNET@, 9);
    lemma_no_change(IP_FORWARD@, g0.forward, RP_FILTER@, 9);
    lemma_setting_back(g3, IP_FORWARD@, g0.forward);
}

/// Pointing the namespace's resolver at its gateway changes nothing but files.
proof fn lemma_resolver(g: Ground)
    ensures
        same_settings(ground_after(g, resolv_plan()), g),
        same_parts(ground_after(g, resolv_plan()), g),
{
    reveal_with_fuel(ground_after, 3);
    assert(resolv_plan().len() == 2);
}

/// Whether nothing made for a task is left: the settings are what they were; a namespace that was
/// there before still is, with its link and its rules, and one that was not there before has left
/// nothing on the host.
pub open spec fn left_alone(w: Confined, site: Site) -> bool {
    &&& same_settings(w.ground, site.ground)
    &&& if site.ground.namespace {
        same_parts(w.ground, site.ground)
    } else {
        nothing_more(w.ground, site.ground)
    }
}

/// What is on the host while a task runs, against what was there before it.
spec fn accounted(w: Confined, site: Site) -> bool {
    let s = w.iso.stage;
    let g0 = site.ground;
    let f = w.iso.found;
    let there = g0.namespace;
    &&& w.built == site.built
    &&& s == IsoStage::Root || s == IsoStage::Tor || s == IsoStage::List || s == IsoStage::Again
        || reading(s) || s == IsoStage::Setup ==> w.ground == g0
    &&& s == IsoStage::Again || (s == IsoStage::Tor && w.iso.task == Task::Shell)
        ==> !there && !w.iso.persistent
    &&& s == IsoStage::Again ==> w.iso.task == Task::Shell
    &&& s == IsoStage::Built ==> w.iso.task != Task::Run
    &&& reading(s) ==> !there && !w.iso.persistent && w.iso.task != Task::Up
    &&& s == IsoStage::Setup || s == IsoStage::Built || s == IsoStage::Teardown ==> !there
        && !w.iso.persistent
    &&& s == IsoStage::Filter || s == IsoStage::Forward ==> f.localnet == Some(g0.localnet)
    &&& s == IsoStage::Forward ==> f.filter == Some(g0.filter)
    &&& w.iso.task != Task::Up && !there && (s == IsoStage::Setup || s == IsoStage::Built
        || s == IsoStage::Ready || s == IsoStage::Exec || s == IsoStage::Teardown) ==> f == (
    SettingsView {
        localnet: Some(g0.localnet),
        filter: Some(g0.filter),
        forward: Some(g0.forward),
    })
    &&& s == IsoStage::Ready || s == IsoStage::Exec ==> w.iso.persistent == there && w.iso.task
        != Task::Up
    &&& there && (s == IsoStage::Ready || s == IsoStage::Exec) ==> same_settings(w.ground, g0)
        && same_parts(w.ground, g0)
    &&& s == IsoStage::Teardown ==> w.iso.task != Task::Up
    &&& w.iso.task != Task::Up && s == IsoStage::Done ==> left_alone(w, site)
    &&& s == IsoStage::Root ==> !w.iso.persistent
    &&& w.iso.task != Task::Shell && (s == IsoStage::Tor || s == IsoStage::List)
        ==> !w.iso.persistent
}

proof fn lemma_accounted(task: Task, command: Seq<Text>, site: Site, replies: Seq<IsoReplyView>)
    requires
        has_values(site.ground),
        honest(before_task(task, command, site), replies),
    ensures
        accounted(followed(before_task(task, command, site), replies), site),
    decreases replies.len(),
{
    if replies.len() > 0 {
        lemma_covered(task, command, site, replies.drop_last());
        lemma_accounted(task, command, site, replies.drop_last());
        let w = followed(before_task(task, command, site), replies.drop_last());
        lemma_account_on(w, site, replies.last());
    }
}

proof fn lemma_account_on(w: Confined, site: Site, r: IsoReplyView)
    requires
        has_values(site.ground),
        covered(w),
        accounted(w, site),
        true_reply(w, r),
    ensures
        accounted(follow(w, r), site),
{
    lemma_plans_differ(w.iso.found);
    lemma_released(w.ground, site.ground);
    lemma_resolver(w.ground);
}

/// Nothing persists: when `run` or an isolated shell ends, well or not, the settings of the kernel are
/// what they were. A namespace that was there before still is, with its link and its rules; where it
/// was not there before, no rules, no namespace, no link and no files are left that were not there.
/// Building may have left the host in any way, and may have failed.
pub proof fn law_nothing_persists(
    task: Task,
    command: Seq<Text>,
    site: Site,
    replies: Seq<IsoReplyView>,
)
    requires
        task != Task::Up,
        has_values(site.ground),
        honest(before_task(task, command, site), replies),
    ensures
        ({
            let w = followed(before_task(task, command, site), replies);
            w.act is End ==> left_alone(w, site)
        }),
{
    lemma_covered(task, command, site, replies);
    lemma_accounted(task, command, site, replies);
}

/// What holds while the isolation is to be kept up that is up already.
spec fn unmoved(w: Confined, site: Site) -> bool {
    let s = w.iso.stage;
    &&& s == IsoStage::Root || s == IsoStage::Tor || s == IsoStage::List || s == IsoStage::Done
    &&& s == IsoStage::Root ==> !w.root
    &&& s == IsoStage::Root || s == IsoStage::Tor ==> !w.tor
    &&& w.ground == site.ground
    &&& w.act is End && w.root && w.tor ==> w.act == IsoActView::End(Ok(0))
}

proof fn lemma_unmoved(command: Seq<Text>, site: Site, replies: Seq<IsoReplyView>)
    requires
        site.ground.namespace,
        honest(before_task(Task::Up, command, site), replies),
    ensures
        unmoved(followed(before_task(Task::Up, command, site), replies), site),
    decreases replies.len(),
{
    if replies.len() > 0 {
        lemma_unmoved(command, site, replies.drop_last());
        lemma_covered(Task::Up, command, site, replies.drop_last());
    }
}

/// Keeping the isolation up is idempotent: where the namespace is there, it is neither built nor
/// taken down again, nothing of the host changes, and a user who may do it while Tor answers is told so without an error.
pub proof fn law_up_is_idempotent(command: Seq<Text>, site: Site, replies: Seq<IsoReplyView>)
    requires
        site.ground.namespace,
        honest(before_task(Task::Up, command, site), replies),
    ensures
        ({
            let w = followed(before_task(Task::Up, command, site), replies);
            &&& w.ground == site.ground
            &&& !(w.act is Plan)
            &&& w.act is End && w.root && w.tor ==> w.act == IsoActView::End(Ok(0))
        }),
{
    lemma_unmoved(command, site, replies);
    lemma_covered(Task::Up, command, site, replies);
}

/// A command is handed over whole: for every command, `ip` gets three words more than the command
/// has, the first three of them name the namespace, and word `i` of the command stands at place
/// three and `i`, for every `i`.
pub proof fn law_no_word_of_a_command_is_lost(command: Seq<Text>)
    ensures
        ({
            let c = inside_command(command);
            &&& c.bin == "ip"@
            &&& c.args.len() == 3 + command.len()
            &&& c.args[0] == "netns"@
            &&& c.args[1] == "exec"@
            &&& c.args[2] == "arxonion"@
            &&& forall|i: int| 0 <= i < command.len() ==> #[trigger] c.args[3 + i] == command[i]
        }),
{
}

/// A process is root's exactly where the first line of its status that begins with `Uid:` has `0`
/// for its second word.
pub proof fn law_who_is_root(status: Text, i: int)
    ensures
        ({
            let v = line_texts(status);
            &&& (forall|j: int| 0 <= j < v.len() ==> !begins(#[trigger] v[j], "Uid:"@))
                ==> !says_root(status)
            &&& 0 <= i < v.len() && begins(v[i], "Uid:"@) && (forall|j: int|
                0 <= j < i ==> !begins(#[trigger] v[j], "Uid:"@)) ==> (says_root(status) <==> words(
                v[i],
            ).len() > 1 && words(v[i])[1] == "0"@)
        }),
{
    lemma_line_with(line_texts(status), "Uid:"@, i);
}

proof fn lemma_line_with(v: Seq<Text>, p: Text, i: int)
    ensures
        (forall|j: int| 0 <= j < v.len() ==> !begins(#[trigger] v[j], p)) ==> line_with(v, p) is None,
        0 <= i < v.len() && begins(v[i], p) && (forall|j: int|
            0 <= j < i ==> !begins(#[trigger] v[j], p)) ==> line_with(v, p) == Some(v[i]),
    decreases v.len(),
{
    if v.len() > 0 && !begins(v[0], p) {
        let w = v.skip(1);
        lemma_line_with(w, p, i - 1);
        if forall|j: int| 0 <= j < v.len() ==> !begins(#[trigger] v[j], p) {
            assert forall|j: int| 0 <= j < w.len() implies !begins(#[trigger] w[j], p) by {
                assert(w[j] == v[j + 1]);
            }
        }
        if 0 <= i < v.len() && begins(v[i], p) && (forall|j: int|
            0 <= j < i ==> !begins(#[trigger] v[j], p)) {
            assert(w[i - 1] == v[i]);
            assert forall|j: int| 0 <= j < i - 1 implies !begins(#[trigger] w[j], p) by {
                assert(w[j] == v[j + 1]);
            }
        }
    } else if v.len() > 0 && 0 <= i && (forall|j: int| 0 <= j < i ==> !begins(#[trigger] v[j], p)) {
        assert(i == 0);
    }
}

/// The namespace is listed exactly where the first word of some line is its name, and the name
/// alone.
pub proof fn law_the_namespace_is_listed(list: Text)
    ensures
        lists_namespace(list) <==> exists|i: int|
            0 <= i < line_texts(list).len() && words(#[trigger] line_texts(list)[i]).len() > 0
                && words(line_texts(list)[i])[0] == "arxonion"@,
{
}

/// Every word of the command line that means something, and what it means.
pub proof fn law_the_wishes(word: Text)
    ensures
        wish_of(word) == Wish::Run <==> word == "run"@,
        wish_of(word) == Wish::Up <==> word == "up"@ || word == "on"@,
        wish_of(word) == Wish::Shell <==> word == "shell"@,
        wish_of(word) == Wish::Down <==> word == "down"@ || word == "clean"@ || word == "off"@,
        wish_of(word) == Wish::Status <==> word == "status"@,
{
    reveal_strlit("run");
    reveal_strlit("up");
    reveal_strlit("on");
    reveal_strlit("shell");
    reveal_strlit("down");
    reveal_strlit("clean");
    reveal_strlit("off");
    reveal_strlit("status");
    assert("run"@.len() == 3 && "up"@.len() == 2 && "on"@.len() == 2 && "shell"@.len() == 5);
    assert("down"@.len() == 4 && "clean"@.len() == 5 && "off"@.len() == 3);
    assert("status"@.len() == 6);
    assert("run"@[0] == 'r' && "off"@[0] == 'o' && "shell"@[0] == 's' && "clean"@[0] == 'c');
}

/// The code that a command exits with is the code of the task, for every code; a command that a
/// signal ended counts as minus one, and one that did not start is an error.
pub proof fn law_exit_codes(n: i32, cause: Text, context: Text)
    ensures
        exit_code(IsoReplyView::Code(Ok(Some(n))), context) == Ok::<i32, Text>(n),
        exit_code(IsoReplyView::Code(Ok(None)), context) == Ok::<i32, Text>(-1i32),
        exit_code(IsoReplyView::Code(Err(cause)), context) == Err::<i32, Text>(
            context + ": "@ + cause,
        ),
{
}

/// The code is passed on: a task whose command exited with a code ends with that code, at once where
/// the namespace stays, and otherwise once it has been taken down, whatever came of that.
pub proof fn law_the_exit_code_is_passed_on(s: IsoView, n: i32, r: IsoReplyView)
    requires
        s.stage == IsoStage::Exec,
    ensures
        ({
            let (t, turn) = iso_step(s, IsoReplyView::Code(Ok(Some(n))));
            &&& s.persistent ==> turn.act == IsoActView::End(Ok(n))
            &&& !s.persistent ==> turn.act is Plan && iso_step(t, r).1.act == IsoActView::End(Ok(n))
        }),
{
}

/// A task is refused only for a reason: the user is not root, no command was given, Tor does not
/// run, the namespace could not be built, or the command could not be started.
pub proof fn law_what_is_refused(s: IsoView, r: IsoReplyView)
    ensures
        iso_step(s, r).1.act matches IsoActView::End(Err(_)) ==> {
            ||| s.stage == IsoStage::Root && !says_root(heard(r))
            ||| s.stage == IsoStage::Root && s.task == Task::Run && s.command.len() == 0
            ||| s.stage == IsoStage::Tor && r != IsoReplyView::Flag(true)
            ||| s.stage == IsoStage::Setup && s.task == Task::Up && r != IsoReplyView::Done(Ok(()))
            ||| s.stage == IsoStage::Exec && s.persistent && !(r matches IsoReplyView::Code(Ok(_)))
            ||| s.stage == IsoStage::Teardown && s.outcome is Err
        },
        iso_step(s, r).1.act is End && s.stage != IsoStage::Done ==> iso_step(s, r).0.stage
            == IsoStage::Done,
        iso_step(s, r).0.stage == IsoStage::Teardown && s.stage != IsoStage::Teardown && iso_step(
            s,
            r,
        ).0.outcome is Err ==> {
            ||| s.stage == IsoStage::Setup && r != IsoReplyView::Done(Ok(()))
            ||| s.stage == IsoStage::Exec && !(r matches IsoReplyView::Code(Ok(_)))
        },
{
}

/// A task goes forward: root with a command is asked for Tor, with Tor for the namespace, and with a
/// namespace that is there the command runs, whatever its words.
pub proof fn law_a_task_goes_forward(s: IsoView, r: IsoReplyView)
    requires
        s.task == Task::Run,
        s.command.len() > 0,
    ensures
        s.stage == IsoStage::Root && says_root(heard(r)) ==> iso_step(s, r).1.act is Tor,
        s.stage == IsoStage::Tor && r == IsoReplyView::Flag(true) ==> iso_step(s, r).1.act is List,
        s.stage == IsoStage::List && lists_namespace(heard(r)) ==> iso_step(s, r).0.stage
            == IsoStage::Ready && iso_step(s, r).0.persistent,
        s.stage == IsoStage::List && !lists_namespace(heard(r)) ==> iso_step(s, r).0.stage
            == IsoStage::Localnet && !iso_step(s, r).0.persistent,
        s.stage == IsoStage::Forward ==> iso_step(s, r).1.act == IsoActView::Plan(setup_plan()),
        s.stage == IsoStage::Setup && r == IsoReplyView::Done(Ok(())) ==> iso_step(s, r).0.stage
            == IsoStage::Ready,
        s.stage == IsoStage::Ready ==> iso_step(s, r).1.act == IsoActView::Exec(
            inside_command(s.command),
        ) && iso_step(s, r).1.warn.len() == 1 && carries(
            iso_step(s, r).1.warn[0],
            "'"@ + s.command[0] + "'"@,
        ),
        iso_step(s, r).0.command == s.command && iso_step(s, r).0.task == s.task,
{
    if s.stage == IsoStage::Ready {
        let a = "arxonion: '"@;
        let z = "' is confined to a Tor-only namespace (real interface not present here)."@;
        let q = "'"@;
        reveal_strlit("arxonion: '");
        reveal_strlit("' is confined to a Tor-only namespace (real interface not present here).");
        reveal_strlit("'");
        assert(a =~= a.take(10) + q);
        assert(z =~= q + z.skip(1));
        let line = a + s.command[0] + z;
        assert(line =~= a.take(10) + (q + s.command[0] + q) + z.skip(1));
        law_carries(line, q + s.command[0] + q);
        assert(iso_step(s, r).1.warn[0] == line);
    }
}

/// Bringing isolation up ends well exactly where it is up already or has been built, and leaves
/// nothing to be taken down.
pub proof fn law_up_goes_forward(s: IsoView, r: IsoReplyView)
    requires
        s.task == Task::Up,
    ensures
        s.stage == IsoStage::List && lists_namespace(heard(r)) ==> iso_step(s, r).1.act
            == IsoActView::End(Ok(0i32)),
        s.stage == IsoStage::List && !lists_namespace(heard(r)) ==> iso_step(s, r).1.act
            == IsoActView::Plan(setup_plan()),
        s.stage == IsoStage::Setup && r == IsoReplyView::Done(Ok(())) ==> iso_step(s, r).0.stage
            == IsoStage::Built && iso_step(s, r).1.act == IsoActView::Plan(resolv_plan()),
        s.stage == IsoStage::Built ==> iso_step(s, r).1.act == IsoActView::End(Ok(0i32)),
        iso_step(s, r).0.stage == IsoStage::Teardown ==> s.stage == IsoStage::Teardown || s.stage
            == IsoStage::Exec,
{
}

/// A command that ran and exited with success is no failure; every other outcome is one, and its
/// report names the program, its arguments and why.
pub proof fn law_only_success_is_no_failure(
    program: Text,
    args: Text,
    ran: Result<Option<String>, String>,
)
    ensures
        run_report(program, args, ran) is Ok <==> ran == Ok::<Option<String>, String>(None),
        ran matches Ok(Some(status)) ==> run_report(program, args, ran) == Err::<(), Text>(
            program + " "@ + args + " exited "@ + status@,
        ),
        ran matches Err(cause) ==> run_report(program, args, ran) == Err::<(), Text>(
            "run "@ + program + " "@ + args + ": "@ + cause@,
        ),
{
}

/// A setting is put back exactly where it was found, and with the value that was found.
pub proof fn law_settings_go_back(name: Text, value: Text)
    ensures
        back_steps(name, None).len() == 0,
        back_steps(name, Some(value)) == seq![
            attempt(
                OpView::Quiet(cmd("sysctl"@, seq!["-qw"@, name + "="@ + value])),
            ),
        ],
{
}

/// A refusal says what is missing, by the task that was refused.
pub proof fn law_refusals_say_why(s: IsoView, r: IsoReplyView)
    ensures
        s.stage == IsoStage::Root && !says_root(heard(r)) ==> iso_step(s, r).1.act
            == IsoActView::End(
            Err(
                match s.task {
                    Task::Up => "arxonion up needs root: sudo arxonion up"@,
                    Task::Shell => "arxonion shell needs root: sudo arxonion shell"@,
                    Task::Run =>
                        "arxonion run needs root (it creates a network namespace + nft rules): sudo arxonion run <cmd>"@,
                },
            ),
        ),
        s.stage == IsoStage::Root && says_root(heard(r)) && s.task == Task::Run && s.command.len()
            == 0 ==> iso_step(s, r).1.act == IsoActView::End(
            Err("usage: arxonion run <command> [args...]"@),
        ),
        s.stage == IsoStage::Tor && r != IsoReplyView::Flag(true) ==> iso_step(s, r).1.act
            == IsoActView::End(Err(needs_tor(s.task))),
{
}

/// An isolated shell goes into a namespace that is there without asking for Tor; otherwise Tor is
/// asked for, the namespace is built unless it has come up meanwhile, and the shell runs in it.
pub proof fn law_a_shell_goes_forward(s: IsoView, r: IsoReplyView)
    requires
        s.task == Task::Shell,
    ensures
        ({
            let (n, t) = iso_step(s, r);
            &&& s.stage == IsoStage::Root && says_root(heard(r)) ==> n.stage == IsoStage::List
                && t.act is List
            &&& s.stage == IsoStage::List && lists_namespace(heard(r)) ==> n.stage
                == IsoStage::Ready && n.persistent && t.act == IsoActView::Plan(resolv_plan())
            &&& s.stage == IsoStage::List && !lists_namespace(heard(r)) ==> n.stage == IsoStage::Tor
                && !n.persistent && t.act is Tor
            &&& s.stage == IsoStage::Tor && r == IsoReplyView::Flag(true) ==> n.stage
                == IsoStage::Again && t.act is List
            &&& s.stage == IsoStage::Again && lists_namespace(heard(r)) ==> n.stage
                == IsoStage::Ready && t.act == IsoActView::Plan(resolv_plan())
            &&& s.stage == IsoStage::Again && !lists_namespace(heard(r)) ==> n.stage
                == IsoStage::Localnet
            &&& s.stage == IsoStage::Forward ==> n.stage == IsoStage::Setup && t.act
                == IsoActView::Plan(setup_plan())
            &&& s.stage == IsoStage::Setup && (r matches IsoReplyView::Done(Ok(_))) ==> n.stage
                == IsoStage::Built && t.act == IsoActView::Plan(resolv_plan())
            &&& s.stage == IsoStage::Built ==> n.stage == IsoStage::Ready && t.act
                == IsoActView::Plan(resolv_plan())
            &&& s.stage == IsoStage::Ready ==> t.act == IsoActView::Exec(inside_command(s.command))
            &&& n.command == s.command
        }),
{
}

/// A task begins with its command, and with nothing else known; what fails is reported under what
/// was being done.
pub proof fn law_failures_say_what_was_done(task: Task, command: Seq<Text>, s: IsoView, cause: Text)
    ensures
        ({
            let b = begin_iso(task, command);
            &&& b.task == task && b.command == command && b.stage == IsoStage::Root
            &&& !b.persistent && b.found.localnet is None && b.found.filter is None
            &&& b.found.forward is None
        }),
        s.stage == IsoStage::Setup ==> {
            let (n, t) = iso_step(s, IsoReplyView::Done(Err(cause)));
            &&& s.task == Task::Run ==> n.outcome == Err::<i32, Text>(
                "building the Tor-only namespace"@ + ": "@ + cause,
            ) && t.act == IsoActView::Plan(release_plan(s.found))
            &&& s.task == Task::Shell ==> n.outcome == Err::<i32, Text>(
                "bringing the Tor-only namespace up"@ + ": "@ + cause,
            ) && t.act == IsoActView::Plan(release_plan(s.found))
            &&& s.task == Task::Up ==> t.act == IsoActView::End(
                Err("bringing the Tor-only namespace up"@ + ": "@ + cause),
            )
        },
        s.stage == IsoStage::Exec && !s.persistent ==> iso_step(
            s,
            IsoReplyView::Code(Err(cause)),
        ).0.outcome == Err::<i32, Text>(
            (if s.task == Task::Run {
                "exec command in the namespace"@
            } else {
                "start isolated shell"@
            }) + ": "@ + cause,
        ),
{
}

} // verus!
