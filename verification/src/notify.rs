//! The update ping: what there is to tell the user of waiting updates and of the worldwide
//! broadcast, and what is remembered of it so that nothing is told twice.
use vstd::prelude::*;
use vstd::string::StringExecFns;

use crate::json::{
    NodeView, find_member, get_text, get_whole, json_node, json_pair, member, or_text,
    read_node, str_member, text_or, whole_member, write_pair,
};
use crate::number::{dec, decimal};
use crate::host::{cache_base, cache_root, in_dir, law_a_path_ends_in_its_name, path_in};
use crate::plan::{Command, CommandView, Op, OpView, Step, attempt, cmd, command, try_op};
use crate::text::{
    Text, begins, count_inked, finishes, inked, join, joined, line_texts, opt_text, same, texts,
};

verus! {

/// Where the broadcast is read from.
pub const CHANNEL_URL: &'static str = "https://arxos.uk/update-channel.json";

/// Where the ping keeps its files: the cache, or one below `/tmp` for want of a home.
pub fn cache_dir(xdg: Option<String>, home: Option<String>) -> (s: String)
    ensures
        s@ == in_dir(cache_base(opt_text(xdg), or_text(opt_text(home), "/tmp"@)), "arxos"@),
{
    let home = match home {
        Some(h) => h,
        None => "/tmp".to_owned(),
    };
    path_in(cache_root(xdg, home.as_str()).as_str(), "arxos")
}

/// The command that lists the waiting updates: `checkupdates` where it is there, else `arx`.
pub fn list_command(checkupdates: bool) -> (c: Command)
    ensures
        c@ == if checkupdates {
            cmd("checkupdates"@, seq![])
        } else {
            cmd("arx"@, seq!["outdated"@])
        },
{
    if checkupdates {
        let c = command("checkupdates", &[]);
        assert(c@.args =~= seq![]);
        c
    } else {
        let c = command("arx", &["outdated"]);
        assert(c@.args =~= seq!["outdated"@]);
        c
    }
}

/// How many updates wait: the lines of the list.
pub fn pending_updates(list: &str) -> (n: u64)
    ensures
        n == inked(line_texts(list@)),
{
    count_inked(list) as u64
}

/// The command that fetches the broadcast.
pub fn fetch_command() -> (c: Command)
    ensures
        c@ == cmd("curl"@, seq!["-fsSL"@, "--max-time"@, "15"@, CHANNEL_URL@]),
{
    let c = command("curl", &["-fsSL", "--max-time", "15", CHANNEL_URL]);
    assert(c@.args =~= seq!["-fsSL"@, "--max-time"@, "15"@, CHANNEL_URL@]);
    c
}

/// What was told last: how many updates, and which broadcast.
pub struct Told {
    pub count: u64,
    pub broadcast: String,
}

/// The model of a [`Told`].
#[verifier::ext_equal]
pub struct ToldView {
    pub count: u64,
    pub broadcast: Text,
}

impl View for Told {
    type V = ToldView;

    open spec fn view(&self) -> ToldView {
        ToldView { count: self.count, broadcast: self.broadcast@ }
    }
}

/// What was told last, out of what a record says; where it says nothing, nothing was.
pub open spec fn told_from(count: Option<u64>, broadcast: Option<Text>) -> ToldView {
    ToldView {
        count: match count {
            Some(c) => c,
            None => 0,
        },
        broadcast: or_text(broadcast, ""@),
    }
}

/// What was told last, out of a node of the record.
pub open spec fn told_of(n: Option<NodeView>) -> ToldView {
    told_from(whole_member(n, "count"@), str_member(n, "broadcast"@))
}

/// What was told last, out of what a record says.
pub fn told_in(count: Option<u64>, broadcast: Option<String>) -> (t: Told)
    ensures
        t@ == told_from(count, opt_text(broadcast)),
{
    let count: u64 = match count {
        Some(c) => c,
        None => 0,
    };
    Told { count, broadcast: text_or(broadcast, "") }
}

/// Reads the record of what was told last; none says that nothing was.
pub fn recall(record: Option<&str>) -> (t: Told)
    ensures
        t@ == match record {
            Some(s) => told_of(json_node(s@)),
            None => told_of(None),
        },
{
    let doc = match record {
        Some(s) => read_node(s),
        None => None,
    };
    told_in(get_whole(&doc, "count"), get_text(&doc, "broadcast"))
}

/// Writes the record of what was told. Read again, it gives that back.
pub fn remember(told: &Told) -> (s: String)
    ensures
        s@ == json_pair("count"@, told.count, "broadcast"@, told.broadcast@),
        told_of(json_node(s@)) == told@,
{
    proof {
        reveal_strlit("count");
        reveal_strlit("broadcast");
        assert("count"@.len() != "broadcast"@.len());
    }
    write_pair("count", told.count, "broadcast", told.broadcast.as_str())
}

/// A broadcast.
pub struct Broadcast {
    pub id: String,
    pub title: String,
    pub body: String,
    pub severity: String,
}

/// The model of a [`Broadcast`].
#[verifier::ext_equal]
pub struct BroadcastView {
    pub id: Text,
    pub title: Text,
    pub body: Text,
    pub severity: Text,
}

impl View for Broadcast {
    type V = BroadcastView;

    open spec fn view(&self) -> BroadcastView {
        BroadcastView {
            id: self.id@,
            title: self.title@,
            body: self.body@,
            severity: self.severity@,
        }
    }
}

pub open spec fn opt_broadcast(o: Option<Broadcast>) -> Option<BroadcastView> {
    match o {
        Some(b) => Some(b@),
        None => None,
    }
}

/// A broadcast, out of what the channel says of it.
pub open spec fn broadcast_from(
    id: Option<Text>,
    title: Option<Text>,
    body: Option<Text>,
    severity: Option<Text>,
) -> BroadcastView {
    BroadcastView {
        id: or_text(id, ""@),
        title: or_text(title, "ArxOS"@),
        body: or_text(body, ""@),
        severity: or_text(severity, "info"@),
    }
}

/// The broadcast of a channel, out of a node of it.
pub open spec fn broadcast_of(n: Option<NodeView>) -> Option<BroadcastView> {
    match member(n, "broadcast"@) {
        Some(t) => {
            let b = json_node(t);
            Some(
                broadcast_from(
                    str_member(b, "id"@),
                    str_member(b, "title"@),
                    str_member(b, "body"@),
                    str_member(b, "severity"@),
                ),
            )
        },
        None => None,
    }
}

/// A broadcast, out of what the channel says of it.
pub fn broadcast_in(
    id: Option<String>,
    title: Option<String>,
    body: Option<String>,
    severity: Option<String>,
) -> (b: Broadcast)
    ensures
        b@ == broadcast_from(opt_text(id), opt_text(title), opt_text(body), opt_text(severity)),
{
    Broadcast {
        id: text_or(id, ""),
        title: text_or(title, "ArxOS"),
        body: text_or(body, ""),
        severity: text_or(severity, "info"),
    }
}

/// Reads the broadcast out of the channel, where the channel could be fetched.
pub fn read_channel(channel: Option<&str>) -> (r: Option<Broadcast>)
    ensures
        opt_broadcast(r) == match channel {
            Some(s) => broadcast_of(json_node(s@)),
            None => None,
        },
{
    match channel {
        Some(s) => match find_member(&read_node(s), "broadcast") {
            Some(t) => {
                let b = read_node(t.as_str());
                Some(
                    broadcast_in(
                        get_text(&b, "id"),
                        get_text(&b, "title"),
                        get_text(&b, "body"),
                        get_text(&b, "severity"),
                    ),
                )
            },
            None => None,
        },
        None => None,
    }
}

/// What there is to tell.
pub struct News {
    pub lines: Vec<String>,
    pub urgent: bool,
    /// What is remembered of it.
    pub told: Told,
}

/// The model of a [`News`].
#[verifier::ext_equal]
pub struct NewsView {
    pub lines: Seq<Text>,
    pub urgent: bool,
    pub told: ToldView,
}

impl View for News {
    type V = NewsView;

    open spec fn view(&self) -> NewsView {
        NewsView { lines: texts(self.lines@), urgent: self.urgent, told: self.told@ }
    }
}

pub open spec fn update_line(n: u64) -> Text {
    decimal(n as nat) + " update"@ + (if n == 1 {
        ""@
    } else {
        "s"@
    }) + " ready. Open the Control Center or run: arx update"@
}

pub open spec fn broadcast_line(b: BroadcastView) -> Text {
    if b.body.len() == 0 {
        b.title
    } else {
        b.title + " — "@ + b.body
    }
}

/// Whether a broadcast is one that was not told last.
pub open spec fn is_new(last: ToldView, b: Option<BroadcastView>) -> bool {
    b matches Some(x) && x.id.len() > 0 && x.id != last.broadcast
}

/// What there is to tell: the updates, where their number is another than was told last and not
/// zero, and the broadcast, where it is another than was told last.
pub open spec fn news_of(last: ToldView, updates: u64, b: Option<BroadcastView>) -> NewsView {
    let fresh = is_new(last, b);
    let x = b.unwrap();
    NewsView {
        lines: (if updates > 0 && updates != last.count {
            seq![update_line(updates)]
        } else {
            seq![]
        }) + (if fresh {
            seq![broadcast_line(x)]
        } else {
            seq![]
        }),
        urgent: fresh && (x.severity == "critical"@ || x.severity == "security"@),
        told: ToldView {
            count: updates,
            broadcast: if fresh {
                x.id
            } else {
                last.broadcast
            },
        },
    }
}

/// What there is to tell.
pub fn news(last: &Told, updates: u64, b: &Option<Broadcast>) -> (r: News)
    ensures
        r@ == news_of(last@, updates, opt_broadcast(*b)),
{
    let mut lines: Vec<String> = Vec::new();
    let mut urgent = false;
    let mut told = last.broadcast.clone();
    if updates > 0 && updates != last.count {
        let s = if updates == 1 {
            ""
        } else {
            "s"
        };
        lines.push(
            dec(updates).concat(" update").concat(s).concat(
                " ready. Open the Control Center or run: arx update",
            ),
        );
    }
    let ghost first = texts(lines@);
    assert(first =~= if updates > 0 && updates != last.count {
        seq![update_line(updates)]
    } else {
        seq![]
    });
    match b {
        Some(x) => {
            if !x.id.as_str().is_empty() && !same(x.id.as_str(), last.broadcast.as_str()) {
                urgent = same(x.severity.as_str(), "critical") || same(
                    x.severity.as_str(),
                    "security",
                );
                let ghost before = lines@;
                let line = if x.body.as_str().is_empty() {
                    x.title.clone()
                } else {
                    x.title.clone().concat(" — ").concat(x.body.as_str())
                };
                assert(line@ == broadcast_line(x@));
                lines.push(line);
                assert(texts(lines@) =~= first + seq![line@]);
                told = x.id.clone();
            }
        },
        None => {},
    }
    let r = News { lines, urgent, told: Told { count: updates, broadcast: told } };
    assert(r@.lines =~= news_of(last@, updates, opt_broadcast(*b)).lines);
    r
}

/// The arguments of a desktop notification: an urgent one stays until it is dismissed.
pub open spec fn notify_args(lines: Seq<Text>, urgent: bool) -> Seq<Text> {
    let stay = if urgent {
        seq!["-t"@, "0"@]
    } else {
        seq![]
    };
    stay + seq![
        "-a"@,
        "ArxOS"@,
        "-i"@,
        if urgent {
            "security-high"@
        } else {
            "software-update-available"@
        },
        "-u"@,
        if urgent {
            "critical"@
        } else {
            "normal"@
        },
        "ArxOS"@,
        joined(lines, "\n"@),
    ]
}

pub open spec fn opt_command(o: Option<Command>) -> Option<CommandView> {
    match o {
        Some(c) => Some(c@),
        None => None,
    }
}

/// The notification of what there is to tell. There is none where there is nothing to tell, or
/// where silence was asked for.
pub fn notification(n: &News, silent: bool) -> (r: Option<Command>)
    ensures
        opt_command(r) == if n@.lines.len() == 0 || silent {
            None
        } else {
            Some(cmd("notify-send"@, notify_args(n@.lines, n.urgent)))
        },
{
    if n.lines.len() == 0 || silent {
        return None;
    }
    let text = join(n.lines.as_slice(), "\n");
    let c = if n.urgent {
        command(
            "notify-send",
            &[
                "-t",
                "0",
                "-a",
                "ArxOS",
                "-i",
                "security-high",
                "-u",
                "critical",
                "ArxOS",
                text.as_str(),
            ],
        )
    } else {
        command(
            "notify-send",
            &[
                "-a",
                "ArxOS",
                "-i",
                "software-update-available",
                "-u",
                "normal",
                "ArxOS",
                text.as_str(),
            ],
        )
    };
    assert(c@.args =~= notify_args(n@.lines, n.urgent));
    Some(c)
}

/// The text of the file that the badge is read from.
pub fn count_file(updates: u64) -> (s: String)
    ensures
        s@ == decimal(updates as nat),
{
    dec(updates)
}

/// The line that a check prints.
pub fn check_line(n: &News) -> (s: String)
    ensures
        s@ == report_line(n@),
{
    "updates=".to_owned().concat(dec(n.told.count).as_str()).concat(" broadcast=").concat(
        n.told.broadcast.as_str(),
    ).concat(" notified=").concat(dec(n.lines.len() as u64).as_str())
}

/// What a ping does once it knows what there is to tell.
pub struct Announcement {
    /// The notification, where there is one.
    pub notice: Option<Command>,
    /// Keeps the record of what was told.
    pub record: Step,
    /// The line that reports the ping, where it was asked for.
    pub line: Option<String>,
}

/// Where the record is kept, in the cache.
pub open spec fn record_file(cache: Text) -> Text {
    in_dir(cache, "notify-state.json"@)
}

/// The line that reports a ping.
pub open spec fn report_line(n: NewsView) -> Text {
    "updates="@ + decimal(n.told.count as nat) + " broadcast="@ + n.told.broadcast + " notified="@
        + decimal(n.lines.len())
}

/// Whether an announcement is the one that there is to make of some news: it notifies of them unless
/// silence was asked for, keeps what was told, and reports where that was asked for.
pub open spec fn announces(
    a: Announcement,
    n: NewsView,
    cache: Text,
    silent: bool,
    check: bool,
) -> bool {
    &&& opt_command(a.notice) == if n.lines.len() == 0 || silent {
        None
    } else {
        Some(cmd("notify-send"@, notify_args(n.lines, n.urgent)))
    }
    &&& a.record@ == attempt(
        OpView::Write(
            record_file(cache),
            json_pair("count"@, n.told.count, "broadcast"@, n.told.broadcast),
        ),
    )
    &&& opt_text(a.line) == if check {
        Some(report_line(n))
    } else {
        None
    }
}

/// What a ping does, given what was told last, how many updates are waiting, and the broadcast.
pub fn announce(
    cache: &str,
    last: &Told,
    updates: u64,
    b: &Option<Broadcast>,
    silent: bool,
    check: bool,
) -> (a: Announcement)
    ensures
        announces(a, news_of(last@, updates, opt_broadcast(*b)), cache@, silent, check),
{
    let n = news(last, updates, b);
    assert(n@.lines.len() == n.lines@.len());
    let notice = notification(&n, silent);
    let record = try_op(Op::Write(path_in(cache, "notify-state.json"), remember(&n.told)));
    let line = if check {
        Some(check_line(&n))
    } else {
        None
    };
    Announcement { notice, record, line }
}

/// One ping: what it does, given the record of the last one, the updates that are listed, and the
/// channel, where that could be fetched.
pub fn ping(
    cache: &str,
    record: Option<&str>,
    list: &str,
    channel: Option<&str>,
    silent: bool,
    check: bool,
) -> (a: Announcement)
    ensures
        ({
            let last = match record {
                Some(s) => told_of(json_node(s@)),
                None => told_of(None),
            };
            let b = match channel {
                Some(s) => broadcast_of(json_node(s@)),
                None => None,
            };
            announces(
                a,
                news_of(last, inked(line_texts(list@)) as u64, b),
                cache@,
                silent,
                check,
            )
        }),
{
    let last = recall(record);
    let b = read_channel(channel);
    announce(cache, &last, pending_updates(list), &b, silent, check)
}

/// It never nags: a second ping that finds the same number of updates and the same broadcast has
/// nothing to tell, and remembers the same.
pub proof fn law_nothing_is_told_twice(last: ToldView, updates: u64, b: Option<BroadcastView>)
    ensures
        ({
            let once = news_of(last, updates, b);
            let twice = news_of(once.told, updates, b);
            twice.lines.len() == 0 && !twice.urgent && twice.told == once.told
        }),
{
}

/// A change is told: another number of updates than was told last, but for none, and another
/// broadcast than was told last, each by a line of its own.
pub proof fn law_what_changed_is_told(last: ToldView, updates: u64, b: Option<BroadcastView>)
    ensures
        updates > 0 && updates != last.count ==> news_of(last, updates, b).lines.contains(
            update_line(updates),
        ),
        is_new(last, b) ==> news_of(last, updates, b).lines.contains(broadcast_line(b->0)),
{
    let n = news_of(last, updates, b);
    if updates > 0 && updates != last.count {
        assert(n.lines[0] == update_line(updates));
    }
    if is_new(last, b) {
        assert(n.lines.last() == broadcast_line(b->0));
    }
}

/// One ping of a series: the updates that it finds, and the broadcast.
pub struct Ping {
    pub updates: u64,
    pub broadcast: Option<BroadcastView>,
}

/// What is remembered after a series of pings.
pub open spec fn after_pings(start: ToldView, pings: Seq<Ping>) -> ToldView
    decreases pings.len(),
{
    if pings.len() == 0 {
        start
    } else {
        let before = after_pings(start, pings.drop_last());
        news_of(before, pings.last().updates, pings.last().broadcast).told
    }
}

/// Once per message: after a broadcast was told, it is not told again by any later ping, as long as
/// the pings in between find that broadcast or none.
pub proof fn law_a_broadcast_is_told_once(
    last: ToldView,
    pings: Seq<Ping>,
    b: BroadcastView,
)
    requires
        last.broadcast == b.id,
        forall|i: int|
            0 <= i < pings.len() ==> ((#[trigger] pings[i]).broadcast matches Some(x) ==> x.id
                == b.id || x.id.len() == 0),
    ensures
        after_pings(last, pings).broadcast == b.id,
        !is_new(after_pings(last, pings), Some(b)),
    decreases pings.len(),
{
    if pings.len() > 0 {
        law_a_broadcast_is_told_once(last, pings.drop_last(), b);
        assert(pings.last() == pings[pings.len() - 1]);
    }
}

/// Exactly what changed is told, over all records, numbers and broadcasts: the updates have a line
/// where there are some and their number is not the one told last; the broadcast has one, behind it,
/// where it has an id that is not the one told last; nothing else is told. Only a broadcast that is
/// told can be urgent, and it is where it is critical or of security. The record then holds the
/// number, whatever it is, and the id that was told.
pub proof fn law_exactly_what_changed_is_told(
    last: ToldView,
    updates: u64,
    b: Option<BroadcastView>,
)
    ensures
        ({
            let n = news_of(last, updates, b);
            let more = updates > 0 && updates != last.count;
            let fresh = b is Some && (b->0).id.len() > 0 && (b->0).id != last.broadcast;
            &&& n.lines.len() == (if more {
                1int
            } else {
                0
            }) + (if fresh {
                1int
            } else {
                0
            })
            &&& more ==> n.lines[0] == update_line(updates)
            &&& fresh ==> n.lines.last() == broadcast_line(b->0)
            &&& n.urgent <==> fresh && ((b->0).severity == "critical"@ || (b->0).severity
                == "security"@)
            &&& n.told.count == updates
            &&& fresh ==> n.told.broadcast == (b->0).id
            &&& !fresh ==> n.told.broadcast == last.broadcast
        }),
{
}

/// The line of the updates: the number, the word in the singular for one alone, and what to do.
pub proof fn law_the_line_of_the_updates(n: u64)
    ensures
        n == 1 ==> update_line(n) == decimal(n as nat)
            + " update ready. Open the Control Center or run: arx update"@,
        n != 1 ==> update_line(n) == decimal(n as nat)
            + " updates ready. Open the Control Center or run: arx update"@,
{
    reveal_strlit(" update");
    reveal_strlit("");
    reveal_strlit("s");
    reveal_strlit(" ready. Open the Control Center or run: arx update");
    reveal_strlit(" update ready. Open the Control Center or run: arx update");
    reveal_strlit(" updates ready. Open the Control Center or run: arx update");
    let d = decimal(n as nat);
    if n == 1 {
        assert(update_line(n) =~= d + " update ready. Open the Control Center or run: arx update"@);
    } else {
        assert(update_line(n) =~= d + " updates ready. Open the Control Center or run: arx update"@);
    }
}

/// The line of a broadcast: its title, and its body behind a dash where it has one.
pub proof fn law_the_line_of_a_broadcast(b: BroadcastView)
    ensures
        b.body.len() == 0 ==> broadcast_line(b) == b.title,
        b.body.len() > 0 ==> broadcast_line(b) == b.title + " — "@ + b.body,
{
}

/// What the channel or the record leaves out is filled in: no id, the name of the system for a
/// title, no body, and an ordinary severity; no updates and no broadcast told.
pub proof fn law_what_is_left_out(
    count: Option<u64>,
    id: Option<Text>,
    title: Option<Text>,
    body: Option<Text>,
    severity: Option<Text>,
)
    ensures
        ({
            let b = broadcast_from(id, title, body, severity);
            &&& b.id == (if id is Some {
                id->0
            } else {
                ""@
            })
            &&& b.title == (if title is Some {
                title->0
            } else {
                "ArxOS"@
            })
            &&& b.body == (if body is Some {
                body->0
            } else {
                ""@
            })
            &&& b.severity == (if severity is Some {
                severity->0
            } else {
                "info"@
            })
            &&& told_from(count, id).count == (if count is Some {
                count->0
            } else {
                0
            })
            &&& told_from(count, id).broadcast == (if id is Some {
                id->0
            } else {
                ""@
            })
        }),
{
}

/// A notification carries the lines, one below the other; an urgent one is critical and stays until
/// it is dismissed, and any other is normal and goes by itself.
pub proof fn law_urgent_notifications_stay(lines: Seq<Text>, urgent: bool)
    ensures
        ({
            let v = notify_args(lines, urgent);
            let n = v.len() as int;
            &&& n == if urgent {
                10int
            } else {
                8
            }
            &&& urgent ==> v[0] == "-t"@ && v[1] == "0"@
            &&& v[n - 8] == "-a"@ && v[n - 7] == "ArxOS"@
            &&& v[n - 6] == "-i"@
            &&& v[n - 5] == (if urgent {
                "security-high"@
            } else {
                "software-update-available"@
            })
            &&& v[n - 4] == "-u"@
            &&& v[n - 3] == (if urgent {
                "critical"@
            } else {
                "normal"@
            })
            &&& v[n - 2] == "ArxOS"@
            &&& v[n - 1] == joined(lines, "\n"@)
        }),
{
}

/// There is a notification exactly where there is something to tell and silence was not asked for,
/// and a report exactly where it was; the record is written in any case.
pub proof fn law_silence_and_reports(
    a: Announcement,
    n: NewsView,
    cache: Text,
    silent: bool,
    check: bool,
)
    requires
        announces(a, n, cache, silent, check),
    ensures
        a.notice is Some <==> n.lines.len() > 0 && !silent,
        a.line is Some <==> check,
        check ==> a.line->0@ == "updates="@ + decimal(n.told.count as nat) + " broadcast="@
            + n.told.broadcast + " notified="@ + decimal(n.lines.len()),
        a.record@.need is Optional,
        a.record@.op matches OpView::Write(_, text) && text == json_pair(
            "count"@,
            n.told.count,
            "broadcast"@,
            n.told.broadcast,
        ),
{
}

/// The record and the channel are read by the names that they are written under.
pub proof fn law_the_names_of_the_channel(n: Option<NodeView>)
    ensures
        told_of(n) == told_from(whole_member(n, "count"@), str_member(n, "broadcast"@)),
        member(n, "broadcast"@) is None ==> broadcast_of(n) is None,
        member(n, "broadcast"@) matches Some(t) ==> broadcast_of(n) == Some(
            broadcast_from(
                str_member(json_node(t), "id"@),
                str_member(json_node(t), "title"@),
                str_member(json_node(t), "body"@),
                str_member(json_node(t), "severity"@),
            ),
        ),
{
}

/// The record is kept in the cache, under its own name.
pub proof fn law_the_record_is_in_the_cache(cache: Text)
    ensures
        finishes(record_file(cache), "notify-state.json"@),
        begins(record_file(cache), cache),
{
    law_a_path_ends_in_its_name(cache, "notify-state.json"@);
}

} // verus!
