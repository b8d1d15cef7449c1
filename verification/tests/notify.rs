use arxos::host::{cache_root, candidates, path_in};
use arxos::notify::{
    announce, broadcast_in, cache_dir, check_line, count_file, fetch_command, list_command, news, notification, pending_updates, ping, read_channel,
    recall, remember, told_in, Broadcast, Told,
};
use arxos::plan::{Command, Op};
use arxos::sysinfo::updates_count;

fn line(c: &Command) -> String {
    let mut s = c.bin.clone();
    for a in &c.args {
        s.push(' ');
        s.push_str(a);
    }
    s
}

fn told(count: u64, broadcast: &str) -> Told {
    Told { count, broadcast: broadcast.to_string() }
}

fn broadcast(id: &str, title: &str, body: &str, severity: &str) -> Option<Broadcast> {
    Some(Broadcast {
        id: id.to_string(),
        title: title.to_string(),
        body: body.to_string(),
        severity: severity.to_string(),
    })
}

#[test]
fn places_are_named() {
    assert_eq!(path_in("/usr/bin", "arx"), "/usr/bin/arx");
    assert_eq!(path_in("/usr/bin/", "arx"), "/usr/bin/arx");
    assert_eq!(path_in("", "arx"), "arx");
    assert_eq!(candidates("/bin::/sbin", "arx"), vec!["/bin/arx", "arx", "/sbin/arx"]);
    assert_eq!(cache_root(Some("/c".to_string()), "/h"), "/c");
    assert_eq!(cache_root(None, "/h"), "/h/.cache");
    assert_eq!(cache_dir(None, None), "/tmp/.cache/arxos");
    assert_eq!(cache_dir(Some("/c".to_string()), None), "/c/arxos");
    assert_eq!(cache_dir(None, Some("/home/u".to_string())), "/home/u/.cache/arxos");
}

#[test]
fn updates_are_counted() {
    assert_eq!(line(&list_command(true)), "checkupdates");
    assert_eq!(line(&list_command(false)), "arx outdated");
    assert_eq!(pending_updates("a 1 -> 2\n\n  \nb 1 -> 3\n"), 2);
    assert_eq!(count_file(12), "12");
    assert_eq!(updates_count(&count_file(12), "x\n"), 12);
    assert_eq!(updates_count("", "x\ny\n\n"), 2);
    assert_eq!(line(&fetch_command()), "curl -fsSL --max-time 15 https://arxos.uk/update-channel.json");
}

#[test]
fn what_was_told_is_remembered() {
    for t in [told(0, ""), told(7, "2026-01"), told(u64::MAX, "a \"quoted\" \\ id\n\u{1f9c5}")] {
        let r = recall(Some(&remember(&t)));
        assert_eq!((r.count, r.broadcast), (t.count, t.broadcast));
    }
    assert_eq!(remember(&told(3, "x")), "{\"broadcast\":\"x\",\"count\":3}");
    let r = recall(None);
    assert_eq!((r.count, r.broadcast.as_str()), (0, ""));
    let r = recall(Some("not json"));
    assert_eq!((r.count, r.broadcast.as_str()), (0, ""));
    let r = recall(Some("{\"count\":-1,\"broadcast\":5}"));
    assert_eq!((r.count, r.broadcast.as_str()), (0, ""));
}

#[test]
fn the_channel_is_read() {
    let b = read_channel(Some("{\"broadcast\":{\"id\":\"a1\",\"title\":\"T\",\"severity\":\"security\"}}")).unwrap();
    assert_eq!((b.id.as_str(), b.title.as_str(), b.body.as_str(), b.severity.as_str()), ("a1", "T", "", "security"));
    let b = read_channel(Some("{\"broadcast\":{}}")).unwrap();
    assert_eq!((b.id.as_str(), b.title.as_str(), b.body.as_str(), b.severity.as_str()), ("", "ArxOS", "", "info"));
    assert!(read_channel(Some("{}")).is_none());
    assert!(read_channel(Some("")).is_none());
    assert!(read_channel(None).is_none());
}

#[test]
fn only_a_change_is_told() {
    let n = news(&told(0, ""), 1, &None);
    assert_eq!(n.lines, vec!["1 update ready. Open the Control Center or run: arx update"]);
    assert_eq!(n.told.count, 1);
    let n = news(&told(1, ""), 5, &None);
    assert_eq!(n.lines, vec!["5 updates ready. Open the Control Center or run: arx update"]);
    assert!(news(&told(5, ""), 5, &None).lines.is_empty());
    let n = news(&told(5, ""), 0, &None);
    assert!(n.lines.is_empty());
    assert_eq!(n.told.count, 0);
}

#[test]
fn a_broadcast_is_told_once() {
    let b = broadcast("a1", "New release", "see arxos.uk", "info");
    let n = news(&told(0, ""), 0, &b);
    assert_eq!(n.lines, vec!["New release — see arxos.uk"]);
    assert!(!n.urgent);
    assert!(news(&n.told, 0, &b).lines.is_empty());
    assert!(news(&n.told, 0, &None).lines.is_empty());
    assert_eq!(news(&n.told, 0, &None).told.broadcast, "a1");
    let n = news(&told(0, ""), 0, &broadcast("a2", "Patch now", "", "critical"));
    assert_eq!(n.lines, vec!["Patch now"]);
    assert!(n.urgent);
    assert!(news(&told(0, ""), 0, &broadcast("a3", "x", "", "security")).urgent);
    assert!(news(&told(0, ""), 0, &broadcast("", "x", "", "security")).lines.is_empty());
}

#[test]
fn one_notification_says_it_all() {
    let n = news(&told(0, ""), 2, &broadcast("a1", "T", "B", "info"));
    let c = notification(&n, false).unwrap();
    assert_eq!(
        line(&c),
        "notify-send -a ArxOS -i software-update-available -u normal ArxOS 2 updates ready. Open the Control \
         Center or run: arx update\nT — B"
    );
    assert!(notification(&n, true).is_none());
    let u = news(&told(0, ""), 0, &broadcast("a1", "T", "", "critical"));
    assert_eq!(
        line(&notification(&u, false).unwrap()),
        "notify-send -t 0 -a ArxOS -i security-high -u critical ArxOS T"
    );
    assert!(notification(&news(&told(0, ""), 0, &None), false).is_none());
    assert_eq!(check_line(&n), "updates=2 broadcast=a1 notified=2");
}

#[test]
fn what_a_document_leaves_out_has_a_default() {
    let t = told_in(None, None);
    assert_eq!((t.count, t.broadcast.as_str()), (0, ""));
    let t = told_in(Some(4), Some("a1".to_string()));
    assert_eq!((t.count, t.broadcast.as_str()), (4, "a1"));
    let b = broadcast_in(Some("a1".to_string()), None, None, None);
    assert_eq!((b.id.as_str(), b.title.as_str(), b.body.as_str(), b.severity.as_str()), ("a1", "ArxOS", "", "info"));
}

#[test]
fn a_ping_remembers_what_it_told() {
    let channel = "{\"broadcast\":{\"id\":\"a1\",\"title\":\"T\"}}";
    let first = ping("/c/arxos", None, "x\ny\n", Some(channel), false, true);
    assert!(first.notice.is_some());
    assert_eq!(first.line.as_deref(), Some("updates=2 broadcast=a1 notified=2"));
    let record = match &first.record.op {
        Op::Write(path, text) => {
            assert_eq!(path, "/c/arxos/notify-state.json");
            text.clone()
        }
        _ => unreachable!(),
    };
    let second = ping("/c/arxos", Some(&record), "x\ny\n", Some(channel), false, false);
    assert!(second.notice.is_none() && second.line.is_none());
    let silent = announce("/c/arxos", &told(0, ""), 3, &None, true, true);
    assert!(silent.notice.is_none());
    assert_eq!(silent.line.as_deref(), Some("updates=3 broadcast= notified=1"));
}
