use arxos::plan::{fed, settle, Command, Fed, Feed, Need, Op, Step};
use arxos::util::{ensure_dirs, out, require_root, run, uid_of};

fn line(c: &Command) -> String {
    let mut s = c.bin.clone();
    for a in &c.args {
        s.push(' ');
        s.push_str(a);
    }
    s
}

fn show(step: &Step) -> String {
    let op = match &step.op {
        Op::Run(c) => format!("run {}", line(c)),
        Op::Quiet(c) => format!("quiet {}", line(c)),
        Op::Feed(f) => format!("feed {} <<{}>> {}", line(&f.command), f.input, f.rejected),
        Op::Write(p, t) => format!("write {p} <<{t}>>"),
        Op::Remove(p) => format!("remove {p}"),
        Op::MakeDirs(p) => format!("mkdir {p}"),
        Op::Pause(ms) => format!("pause {ms}"),
        Op::Warn(t) => format!("warn {t}"),
    };
    match &step.need {
        Need::Optional => format!("? {op}"),
        Need::Required => format!("! {op}"),
        Need::Under(c) => format!("! {op} [{c}]"),
    }
}

fn shown(v: &[Step]) -> Vec<String> {
    v.iter().map(show).collect()
}

#[test]
fn only_root_may_go_on() {
    assert_eq!(require_root(0), Ok(()));
    assert_eq!(require_root(1000), Err("anond must run as root (it manages nftables and Tor)".to_string()));
}

#[test]
fn the_id_of_a_user_is_read() {
    assert_eq!(uid_of("tor", Ok((true, "43\n".to_string()))), Ok(43));
    assert_eq!(uid_of("tor", Ok((false, String::new()))), Err("no such user 'tor' (is tor installed?)".to_string()));
    assert_eq!(uid_of("tor", Err("no such file".to_string())), Err("run id: no such file".to_string()));
    assert_eq!(
        uid_of("tor", Ok((true, "x\n".to_string()))),
        Err("parse uid: invalid digit found in string".to_string())
    );
    assert_eq!(
        uid_of("tor", Ok((true, "4294967296".to_string()))),
        Err("parse uid: number too large to fit in target type".to_string())
    );
    assert_eq!(
        uid_of("tor", Ok((true, "\n".to_string()))),
        Err("parse uid: cannot parse integer from empty string".to_string())
    );
}

#[test]
fn the_outcome_of_a_command_is_told() {
    assert_eq!(run("ip", &["link"], Ok(true)), Ok(()));
    assert_eq!(run("ip", &["link", "set"], Ok(false)), Err("ip link set failed".to_string()));
    assert_eq!(run("ip", &[], Err("gone".to_string())), Err("spawn ip: gone".to_string()));
    assert_eq!(out(Some(" a b\n".to_string())), "a b");
    assert_eq!(out(None), "");
}

#[test]
fn both_directories_are_made() {
    assert_eq!(shown(&ensure_dirs()), vec!["? mkdir /var/lib/anond", "? mkdir /run/anond"]);
}

#[test]
fn a_step_says_what_its_failure_means() {
    let op = || Op::Remove("/x".to_string());
    let optional = Step { op: op(), need: Need::Optional };
    let required = Step { op: op(), need: Need::Required };
    let under = Step { op: op(), need: Need::Under("remove it".to_string()) };
    let failed = || Err("busy".to_string());
    assert_eq!(settle(&optional, failed()), Ok(()));
    assert_eq!(settle(&required, failed()), Err("busy".to_string()));
    assert_eq!(settle(&under, failed()), Err("remove it: busy".to_string()));
    assert_eq!(settle(&under, Ok(())), Ok(()));
}

#[test]
fn feeding_a_command_fails_in_its_own_words() {
    let f = |on_wait: Need| Feed {
        command: Command { bin: "nft".to_string(), args: vec![] },
        input: String::new(),
        on_spawn: "spawn nft".to_string(),
        on_wait,
        rejected: "rejected".to_string(),
    };
    let w = f(Need::Under("wait nft".to_string()));
    assert_eq!(fed(&w, Fed::NotStarted("x".to_string())), Err("spawn nft: x".to_string()));
    assert_eq!(fed(&w, Fed::NoInput), Err("nft stdin".to_string()));
    assert_eq!(fed(&w, Fed::NotWritten("pipe".to_string())), Err("pipe".to_string()));
    assert_eq!(fed(&w, Fed::NotAwaited("x".to_string())), Err("wait nft: x".to_string()));
    assert_eq!(fed(&f(Need::Required), Fed::NotAwaited("x".to_string())), Err("x".to_string()));
    assert_eq!(fed(&w, Fed::Exited(false)), Err("rejected".to_string()));
    assert_eq!(fed(&w, Fed::Exited(true)), Ok(()));
}
