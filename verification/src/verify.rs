//! Runtime proofs of anonymity. Each probe is a hard yes or no, and only all of them together make
//! a session active.
use vstd::prelude::*;
use vstd::string::StringExecFns;

use crate::json::{bool_member, get_bool, get_text, json_node, or_text, read_node, str_member};
use crate::plan::{Command, cmd, command};
use crate::text::{Text, begins, finishes, opt_text, texts};

verus! {

/// The outcome of the probes.
pub struct Verify {
    /// Clearnet egress leaves through a Tor node.
    pub tor_ok: bool,
    /// The resolver configuration is pinned to loopback.
    pub dns_ok: bool,
    /// The fail-closed table is installed.
    pub killswitch_ok: bool,
    /// IPv6 egress is dropped.
    pub ipv6_ok: bool,
    /// The address that the Tor exit shows.
    pub exit_ip: String,
}

/// The model of a [`Verify`].
#[verifier::ext_equal]
pub struct VerifyView {
    pub tor_ok: bool,
    pub dns_ok: bool,
    pub killswitch_ok: bool,
    pub ipv6_ok: bool,
    pub exit_ip: Text,
}

impl View for Verify {
    type V = VerifyView;

    open spec fn view(&self) -> VerifyView {
        VerifyView {
            tor_ok: self.tor_ok,
            dns_ok: self.dns_ok,
            killswitch_ok: self.killswitch_ok,
            ipv6_ok: self.ipv6_ok,
            exit_ip: self.exit_ip@,
        }
    }
}

/// Whether every probe passed.
pub open spec fn all_pass(v: VerifyView) -> bool {
    v.tor_ok && v.dns_ok && v.killswitch_ok && v.ipv6_ok
}

impl Verify {
    /// Whether every probe passed.
    pub fn active(&self) -> (r: bool)
        ensures
            r == all_pass(self@),
    {
        self.tor_ok && self.dns_ok && self.killswitch_ok && self.ipv6_ok
    }
}

impl Default for Verify {
    /// The outcome before any probe has run: none passed.
    fn default() -> (v: Verify)
        ensures
            v@ == (VerifyView {
                tor_ok: false,
                dns_ok: false,
                killswitch_ok: false,
                ipv6_ok: false,
                exit_ip: seq![],
            }),
    {
        Verify {
            tor_ok: false,
            dns_ok: false,
            killswitch_ok: false,
            ipv6_ok: false,
            exit_ip: String::new(),
        }
    }
}

/// The command that asks, through Tor's SOCKS port, which address the exit shows.
pub fn exit_probe() -> (c: Command)
    ensures
        c@ == cmd(
            "curl"@,
            seq![
                "-s"@,
                "--max-time"@,
                "30"@,
                "--socks5-hostname"@,
                "127.0.0.1:9050"@,
                "https://check.torproject.org/api/ip"@,
            ],
        ),
{
    let c = command(
        "curl",
        &[
            "-s",
            "--max-time",
            "30",
            "--socks5-hostname",
            "127.0.0.1:9050",
            "https://check.torproject.org/api/ip",
        ],
    );
    assert(c@.args =~= seq![
        "-s"@,
        "--max-time"@,
        "30"@,
        "--socks5-hostname"@,
        "127.0.0.1:9050"@,
        "https://check.torproject.org/api/ip"@,
    ]);
    c
}

/// What the two members of the answer say: whether this is a Tor exit, and its address. A member
/// that is missing says no, and nothing.
pub fn exit_report(is_tor: Option<bool>, ip: Option<String>) -> (r: (bool, String))
    ensures
        r.0 == (is_tor == Some(true)),
        r.1@ == or_text(opt_text(ip), ""@),
{
    (
        match is_tor {
            Some(b) => b,
            None => false,
        },
        match ip {
            Some(s) => s,
            None => "".to_owned(),
        },
    )
}

/// Whether the answer of the probe says that this is a Tor exit.
pub open spec fn says_tor(body: Text) -> bool {
    bool_member(json_node(body), "IsTor"@) == Some(true)
}

/// The address that the answer of the probe gives.
pub open spec fn says_ip(body: Text) -> Text {
    or_text(str_member(json_node(body), "IP"@), ""@)
}

/// Reads the answer of the probe.
pub fn exit_check(body: &str) -> (r: (bool, String))
    ensures
        r.0 == says_tor(body@),
        r.1@ == says_ip(body@),
{
    let doc = read_node(body);
    let is_tor = get_bool(&doc, "IsTor");
    exit_report(is_tor, get_text(&doc, "IP"))
}

/// The address that the answer of the probe gives; an error where it gives none.
pub fn exit_ip(body: &str) -> (r: Result<String, String>)
    ensures
        (r is Ok) == (says_ip(body@).len() > 0),
        r matches Ok(ip) ==> ip@ == says_ip(body@),
        r matches Err(e) ==> e@ == "no exit IP (Tor path not answering)"@,
{
    let (_, ip) = exit_check(body);
    if ip.as_str().is_empty() {
        Err("no exit IP (Tor path not answering)".to_owned())
    } else {
        Ok(ip)
    }
}

/// The command that lists the table which drops IPv6: it succeeds where the table is installed.
pub fn ipv6_probe() -> (c: Command)
    ensures
        c@ == cmd("nft"@, seq!["list"@, "table"@, "ip6"@, "anond6"@]),
{
    let c = command("nft", &["list", "table", "ip6", "anond6"]);
    assert(c@.args =~= seq!["list"@, "table"@, "ip6"@, "anond6"@]);
    c
}

/// Gathers what the probes found: whether the kill-switch table, the DNS pin and the IPv6 table
/// are there, and the answer of the exit probe.
pub fn run(killswitch_up: bool, dns_pinned: bool, ipv6_table: bool, body: &str) -> (v: Verify)
    ensures
        v@ == (VerifyView {
            tor_ok: says_tor(body@),
            dns_ok: dns_pinned,
            killswitch_ok: killswitch_up,
            ipv6_ok: ipv6_table,
            exit_ip: says_ip(body@),
        }),
{
    let (tor_ok, exit_ip) = exit_check(body);
    Verify { tor_ok, dns_ok: dns_pinned, killswitch_ok: killswitch_up, ipv6_ok: ipv6_table, exit_ip }
}

/// The word for a probe.
pub open spec fn pass_text(b: bool) -> Text {
    if b {
        "pass"@
    } else {
        "FAIL"@
    }
}

/// The word for a probe.
pub fn yn(b: bool) -> (r: &'static str)
    ensures
        r@ == pass_text(b),
{
    if b {
        "pass"
    } else {
        "FAIL"
    }
}

/// What is reported of the i2p overlay while it runs: whether its proxy answers, and whether a
/// site of the overlay loads through it.
pub struct Overlay {
    pub proxy: bool,
    pub eepsite: bool,
}

/// The verdict as it is printed. The overlay is reported where it runs, and decides nothing.
pub open spec fn report_lines(v: VerifyView, overlay: Option<Overlay>) -> Seq<Text> {
    let head = seq![
        "kill-switch : "@ + pass_text(v.killswitch_ok),
        "DNS pinned  : "@ + pass_text(v.dns_ok),
        "IPv6 blocked: "@ + pass_text(v.ipv6_ok),
        "Tor exit    : "@ + pass_text(v.tor_ok) + (if v.exit_ip.len() == 0 {
            seq![]
        } else {
            " ("@ + v.exit_ip + ")"@
        }),
    ];
    let middle = match overlay {
        Some(o) => seq![
            "i2p proxy   : "@ + pass_text(o.proxy),
            "i2p eepsite : "@ + (if o.proxy && o.eepsite {
                "pass"@
            } else {
                "building (tunnels take a few min)"@
            }),
        ],
        None => seq![],
    };
    head + middle + seq![
        "verdict     : "@ + (if all_pass(v) {
            "ACTIVE (anonymous)"@
        } else {
            "DEGRADED (not fully anonymous)"@
        }),
    ]
}

/// The verdict as it is printed.
pub fn report(v: &Verify, overlay: Option<Overlay>) -> (r: Vec<String>)
    ensures
        texts(r@) == report_lines(v@, overlay),
        r@.len() > 0,
        v.killswitch_ok && v.dns_ok && v.ipv6_ok && v.tor_ok ==> r@.last()@
            == "verdict     : ACTIVE (anonymous)"@,
        !(v.killswitch_ok && v.dns_ok && v.ipv6_ok && v.tor_ok) ==> r@.last()@
            == "verdict     : DEGRADED (not fully anonymous)"@,
{
    let mut r: Vec<String> = Vec::new();
    r.push("kill-switch : ".to_owned().concat(yn(v.killswitch_ok)));
    r.push("DNS pinned  : ".to_owned().concat(yn(v.dns_ok)));
    r.push("IPv6 blocked: ".to_owned().concat(yn(v.ipv6_ok)));
    let tail = if v.exit_ip.as_str().is_empty() {
        String::new()
    } else {
        " (".to_owned().concat(v.exit_ip.as_str()).concat(")")
    };
    r.push("Tor exit    : ".to_owned().concat(yn(v.tor_ok)).concat(tail.as_str()));
    match &overlay {
        Some(o) => {
            r.push("i2p proxy   : ".to_owned().concat(yn(o.proxy)));
            let site = if o.proxy && o.eepsite {
                "pass"
            } else {
                "building (tunnels take a few min)"
            };
            r.push("i2p eepsite : ".to_owned().concat(site));
        },
        None => {},
    }
    let word = if v.active() {
        "ACTIVE (anonymous)"
    } else {
        "DEGRADED (not fully anonymous)"
    };
    r.push("verdict     : ".to_owned().concat(word));
    assert(texts(r@) =~~= report_lines(v@, overlay));
    proof {
        law_the_last_line_is_the_verdict(v@, overlay);
        assert(texts(r@).last() == r@.last()@);
    }
    r
}

/// The last line says active exactly where all four probes passed, the kill-switch and the pinned
/// resolver among them, whatever is said of the overlay.
pub proof fn law_the_last_line_is_the_verdict(v: VerifyView, overlay: Option<Overlay>)
    ensures
        ({
            let lines = report_lines(v, overlay);
            let passed = v.killswitch_ok && v.dns_ok && v.ipv6_ok && v.tor_ok;
            &&& lines.len() > 0
            &&& passed ==> lines.last() == "verdict     : ACTIVE (anonymous)"@
            &&& !passed ==> lines.last() == "verdict     : DEGRADED (not fully anonymous)"@
            &&& all_pass(v) <==> passed
        }),
{
    reveal_strlit("verdict     : ");
    reveal_strlit("ACTIVE (anonymous)");
    reveal_strlit("DEGRADED (not fully anonymous)");
    reveal_strlit("verdict     : ACTIVE (anonymous)");
    reveal_strlit("verdict     : DEGRADED (not fully anonymous)");
    assert("verdict     : "@ + "ACTIVE (anonymous)"@ =~= "verdict     : ACTIVE (anonymous)"@);
    assert("verdict     : "@ + "DEGRADED (not fully anonymous)"@
        =~= "verdict     : DEGRADED (not fully anonymous)"@);
}

/// Each probe has a line of its own, which says `pass` exactly where the probe passed, and the
/// address of the exit stands behind the last of them where it is known. The overlay adds its two
/// lines between these and the verdict, and only where it runs.
pub proof fn law_each_probe_has_its_line(v: VerifyView, overlay: Option<Overlay>)
    ensures
        ({
            let lines = report_lines(v, overlay);
            &&& lines.len() == if overlay is Some {
                7int
            } else {
                5
            }
            &&& lines[0] == "kill-switch : "@ + (if v.killswitch_ok {
                "pass"@
            } else {
                "FAIL"@
            })
            &&& lines[1] == "DNS pinned  : "@ + (if v.dns_ok {
                "pass"@
            } else {
                "FAIL"@
            })
            &&& lines[2] == "IPv6 blocked: "@ + (if v.ipv6_ok {
                "pass"@
            } else {
                "FAIL"@
            })
            &&& begins(
                lines[3],
                "Tor exit    : "@ + (if v.tor_ok {
                    "pass"@
                } else {
                    "FAIL"@
                }),
            )
            &&& v.exit_ip.len() > 0 ==> finishes(lines[3], " ("@ + v.exit_ip + ")"@)
            &&& overlay matches Some(o) ==> {
                &&& lines[4] == "i2p proxy   : "@ + (if o.proxy {
                    "pass"@
                } else {
                    "FAIL"@
                })
                &&& lines[5] == "i2p eepsite : "@ + (if o.proxy && o.eepsite {
                    "pass"@
                } else {
                    "building (tunnels take a few min)"@
                })
            }
        }),
{
    let head = "Tor exit    : "@ + pass_text(v.tor_ok);
    let tail = if v.exit_ip.len() == 0 {
        Seq::<char>::empty()
    } else {
        " ("@ + v.exit_ip + ")"@
    };
    assert((head + tail).take(head.len() as int) =~= head);
    assert((head + tail).skip(head.len() as int) =~= tail);
}

/// A probe has found a Tor exit only where the answer says so in as many words, and the address is
/// the one in the answer; an answer that is missing or says anything else has not.
pub proof fn law_the_answer_decides(body: Text)
    ensures
        says_tor(body) <==> bool_member(json_node(body), "IsTor"@) == Some(true),
        str_member(json_node(body), "IP"@) matches Some(ip) ==> says_ip(body) == ip,
        str_member(json_node(body), "IP"@) is None ==> says_ip(body) == ""@,
{
}

} // verus!
