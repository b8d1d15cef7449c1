//! The actions of the Control Center. Each hands a script to a terminal, where the user watches it
//! and authenticates; what the user typed reaches a script only where it holds nothing that a shell
//! would interpret.
use vstd::prelude::*;
use vstd::string::StringExecFns;

use crate::plan::{Command, cmd, command, owned};
use crate::reading::law_carries;
use crate::text::{
    Text, alnum, begins, carries, chars_of, is_alnum, join, joined, same, split_words, strs, texts, trim,
    trimmed, words,
};

verus! {

// ---------- terminals ----------
/// A script that pauses on success and waits on failure, so that the window closes by itself.
pub open spec fn closing(script: Text) -> Text {
    script
        + "; __rc=$?; echo; if [ $__rc -eq 0 ]; then echo '  ✔ done — closing…'; sleep 3; else echo '  ✖ finished with errors'; read -r -t 120 -p '  press Enter to close… ' _; fi"@
}

/// A script that pauses on success and waits on failure, so that the window closes by itself.
pub fn wrap_close(script: &str) -> (s: String)
    ensures
        s@ == closing(script@),
{
    script.to_owned().concat(
        "; __rc=$?; echo; if [ $__rc -eq 0 ]; then echo '  ✔ done — closing…'; sleep 3; else echo '  ✖ finished with errors'; read -r -t 120 -p '  press Enter to close… ' _; fi",
    )
}

/// Which terminals there are.
#[derive(Clone, Copy, PartialEq, Eq, Structural, Debug)]
pub struct Terminals {
    pub konsole: bool,
    pub xterm: bool,
    pub any: bool,
}

pub open spec fn terminal_of(t: Terminals) -> Option<Text> {
    if t.konsole {
        Some("konsole"@)
    } else if t.xterm {
        Some("xterm"@)
    } else if t.any {
        Some("x-terminal-emulator"@)
    } else {
        None
    }
}

/// The command that opens the first terminal there is on a script.
pub fn spawn_terminal(t: Terminals, script: &str) -> (r: Result<Command, String>)
    ensures
        match terminal_of(t) {
            Some(bin) => r matches Ok(c) && c@ == cmd(
                bin,
                seq!["-e"@, "bash"@, "-c"@, script@],
            ),
            None => r matches Err(e) && e@ == "no terminal emulator found"@,
        },
{
    let bin = if t.konsole {
        "konsole"
    } else if t.xterm {
        "xterm"
    } else if t.any {
        "x-terminal-emulator"
    } else {
        return Err("no terminal emulator found".to_owned());
    };
    let c = command(bin, &["-e", "bash", "-c", script]);
    assert(c@.args =~= seq!["-e"@, "bash"@, "-c"@, script@]);
    Ok(c)
}

/// The script that runs `arx` with arguments.
pub open spec fn arx_script(args: Seq<Text>) -> Text {
    closing("arx "@ + joined(args, " "@))
}

/// The script that runs `arx` with arguments.
pub fn launch_arx(args: &[String]) -> (s: String)
    ensures
        s@ == arx_script(texts(args@)),
{
    wrap_close("arx ".to_owned().concat(join(args, " ").as_str()).as_str())
}

/// The script that runs a program with arguments as root.
pub open spec fn sudo_script(bin: Text, args: Seq<Text>) -> Text {
    closing("sudo "@ + bin + " "@ + joined(args, " "@))
}

/// The script that runs a program with arguments as root.
pub fn launch_priv(bin: &str, args: &[String]) -> (s: String)
    ensures
        s@ == sudo_script(bin@, texts(args@)),
{
    wrap_close(
        "sudo ".to_owned().concat(bin).concat(" ").concat(join(args, " ").as_str()).as_str(),
    )
}

// ---------- what may reach a script ----------
/// The characters that a shell, or `bash -c`, would interpret.
pub open spec fn is_meta(c: char) -> bool {
    c == ';' || c == '|' || c == '&' || c == '$' || c == '`' || c == '<' || c == '>' || c == '('
        || c == ')' || c == '{' || c == '}' || c == '[' || c == ']' || c == '~' || c == '*' || c
        == '?' || c == '!' || c == '#' || c == '%' || c == '^' || c == '\'' || c == '"' || c == '\\'
        || c == '\n' || c == '\r' || c == '\t'
}

/// A text that holds nothing that a shell would interpret.
pub open spec fn is_inert(s: Text) -> bool {
    forall|i: int| 0 <= i < s.len() ==> !is_meta(#[trigger] s[i])
}

pub open spec fn token_char(c: char) -> bool {
    is_alnum(c) || c == '-' || c == '_' || c == ' '
}

/// Whether a text is a short list of plain words.
pub open spec fn is_token(s: Text) -> bool {
    0 < s.len() <= 40 && forall|i: int| 0 <= i < s.len() ==> token_char(#[trigger] s[i])
}

/// Whether a text is a short list of plain words.
pub fn safe_token(s: &str) -> (r: bool)
    ensures
        r == is_token(s@),
{
    let v = chars_of(s);
    if v.len() == 0 || v.len() > 40 {
        return false;
    }
    let mut i: usize = 0;
    while i < v.len()
        invariant
            i <= v@.len(),
            v@ == s@,
            forall|k: int| 0 <= k < i ==> token_char(#[trigger] v@[k]),
        decreases v@.len() - i,
    {
        let c = v[i];
        if !(alnum(c) || c == '-' || c == '_' || c == ' ') {
            assert(!token_char(s@[i as int]));
            return false;
        }
        i += 1;
    }
    true
}

/// What passes for a token holds nothing that a shell would interpret.
pub proof fn law_tokens_are_inert(s: Text)
    requires
        is_token(s),
    ensures
        is_inert(s),
{
    assert forall|i: int| 0 <= i < s.len() implies !is_meta(#[trigger] s[i]) by {
        assert(token_char(s[i]));
    }
}

pub open spec fn app_char(c: char) -> bool {
    is_alnum(c) || c == ' ' || c == '.' || c == '_' || c == ':' || c == '/' || c == '=' || c == '@'
        || c == '+' || c == '-'
}

/// How many bytes the UTF-8 form of a character takes.
pub open spec fn char_bytes(c: char) -> nat {
    if '\u{7f}' >= c {
        1
    } else if '\u{7ff}' >= c {
        2
    } else if '\u{ffff}' >= c {
        3
    } else {
        4
    }
}

/// How many bytes the UTF-8 form of a text takes.
pub open spec fn text_bytes(s: Text) -> nat
    decreases s.len(),
{
    if s.len() == 0 {
        0
    } else {
        text_bytes(s.drop_last()) + char_bytes(s.last())
    }
}

proof fn lemma_prefix_bytes(s: Text, i: int)
    requires
        0 <= i <= s.len(),
    ensures
        text_bytes(s.take(i)) <= text_bytes(s),
    decreases s.len() - i,
{
    if i < s.len() {
        lemma_prefix_bytes(s, i + 1);
        assert(s.take(i + 1).drop_last() =~= s.take(i));
    } else {
        assert(s.take(i) =~= s);
    }
}

/// Whether the UTF-8 form of a text takes more bytes than a limit.
fn longer_than(s: &str, limit: usize) -> (r: bool)
    requires
        limit <= 1_000_000,
    ensures
        r == (text_bytes(s@) > limit),
{
    let v = chars_of(s);
    let mut n: usize = 0;
    let mut i: usize = 0;
    assert(text_bytes(s@.take(0)) == 0);
    while i < v.len()
        invariant
            i <= v@.len(),
            v@ == s@,
            n == text_bytes(s@.take(i as int)),
            n <= limit <= 1_000_000,
        decreases v@.len() - i,
    {
        let c = v[i];
        assert(s@.take(i + 1).drop_last() =~= s@.take(i as int));
        assert(s@.take(i + 1).last() == c);
        n = n + if '\u{7f}' >= c {
            1
        } else if '\u{7ff}' >= c {
            2
        } else if '\u{ffff}' >= c {
            3
        } else {
            4
        };
        i += 1;
        if n > limit {
            proof {
                lemma_prefix_bytes(s@, i as int);
            }
            return true;
        }
    }
    assert(s@.take(v@.len() as int) =~= s@);
    false
}

// ---------- actions ----------
/// The arguments that install or remove what a list of categories names.
pub open spec fn weapons_args(verb: Text, category: Text) -> Seq<Text> {
    seq!["weapons"@, verb] + words(category)
}

fn build_weapons_args(verb: &str, category: &str) -> (v: Vec<String>)
    ensures
        texts(v@) == weapons_args(verb@, category@),
{
    let mut v = owned(&["weapons", verb]);
    let mut w = split_words(category);
    let ghost a = v@;
    let ghost b = w@;
    v.append(&mut w);
    assert(v@ =~= a + b);
    assert(texts(v@) =~= texts(a) + texts(b));
    assert(texts(a) =~= seq!["weapons"@, verb@]);
    v
}

/// The script that installs categories of the arsenal.
pub fn weapons_install(category: &str) -> (r: Result<String, String>)
    ensures
        (r is Ok) == is_token(category@),
        r matches Ok(s) ==> s@ == arx_script(weapons_args("install"@, category@)),
        r matches Err(e) ==> e@ == "invalid category"@,
{
    if !safe_token(category) {
        return Err("invalid category".to_owned());
    }
    Ok(launch_arx(build_weapons_args("install", category).as_slice()))
}

/// The script that removes categories of the arsenal.
pub fn weapons_remove(category: &str) -> (r: Result<String, String>)
    ensures
        (r is Ok) == is_token(category@),
        r matches Ok(s) ==> s@ == arx_script(weapons_args("remove"@, category@)),
        r matches Err(e) ==> e@ == "invalid category"@,
{
    if !safe_token(category) {
        return Err("invalid category".to_owned());
    }
    Ok(launch_arx(build_weapons_args("remove", category).as_slice()))
}

/// The script that lists the arsenal.
pub fn weapons_browse() -> (s: String)
    ensures
        s@ == arx_script(seq!["weapons"@, "list-all"@]),
{
    let v = owned(&["weapons", "list-all"]);
    assert(texts(v@) =~= seq!["weapons"@, "list-all"@]);
    launch_arx(v.as_slice())
}

/// The script that rebuilds the menu of the arsenal.
pub fn weapons_menu_rebuild() -> (s: String)
    ensures
        s@ == closing("sudo arx weapons menu"@),
{
    wrap_close("sudo arx weapons menu")
}

/// The script that upgrades the system.
pub fn system_update() -> (s: String)
    ensures
        s@ == arx_script(seq!["upgrade"@]),
{
    let v = owned(&["upgrade"]);
    assert(texts(v@) =~= seq!["upgrade"@]);
    launch_arx(v.as_slice())
}

/// The script that fetches the package lists anew.
pub fn sync_databases() -> (s: String)
    ensures
        s@ == arx_script(seq!["refresh"@]),
{
    let v = owned(&["refresh"]);
    assert(texts(v@) =~= seq!["refresh"@]);
    launch_arx(v.as_slice())
}

/// The script that installs a kernel.
pub fn kernel_install(flavor: &str) -> (r: Result<String, String>)
    ensures
        (r is Ok) == is_token(flavor@),
        r matches Ok(s) ==> s@ == arx_script(seq!["kernel"@, "install"@, flavor@]),
        r matches Err(e) ==> e@ == "invalid flavor"@,
{
    if !safe_token(flavor) {
        return Err("invalid flavor".to_owned());
    }
    let v = owned(&["kernel", "install", flavor]);
    assert(texts(v@) =~= seq!["kernel"@, "install"@, flavor@]);
    Ok(launch_arx(v.as_slice()))
}

/// The script that removes a kernel.
pub fn kernel_remove(flavor: &str) -> (r: Result<String, String>)
    ensures
        (r is Ok) == is_token(flavor@),
        r matches Ok(s) ==> s@ == arx_script(seq!["kernel"@, "remove"@, flavor@]),
        r matches Err(e) ==> e@ == "invalid flavor"@,
{
    if !safe_token(flavor) {
        return Err("invalid flavor".to_owned());
    }
    let v = owned(&["kernel", "remove", flavor]);
    assert(texts(v@) =~= seq!["kernel"@, "remove"@, flavor@]);
    Ok(launch_arx(v.as_slice()))
}

/// The script that hardens the browsers anew.
pub fn browser_harden() -> (s: String)
    ensures
        s@ == closing("sudo /usr/lib/arxos/harden-browsers.sh"@),
{
    wrap_close("sudo /usr/lib/arxos/harden-browsers.sh")
}

/// The arguments of an action of the daemon, where it is one.
pub open spec fn anond_args(action: Text) -> Option<Seq<Text>> {
    if action == "up"@ || action == "down"@ || action == "verify"@ || action == "new-identity"@ {
        Some(seq![action])
    } else if action == "up-i2p"@ {
        Some(seq!["up"@, "--i2p"@])
    } else {
        None
    }
}

/// The arguments of an action of the daemon.
pub fn action_args(action: &str) -> (r: Result<Vec<String>, String>)
    ensures
        match anond_args(action@) {
            Some(args) => r matches Ok(v) && texts(v@) == args,
            None => r matches Err(e) && e@ == "invalid action"@,
        },
{
    if same(action, "up") || same(action, "down") || same(action, "verify") || same(
        action,
        "new-identity",
    ) {
        let v = owned(&[action]);
        assert(texts(v@) =~= seq![action@]);
        Ok(v)
    } else if same(action, "up-i2p") {
        let v = owned(&["up", "--i2p"]);
        assert(texts(v@) =~= seq!["up"@, "--i2p"@]);
        Ok(v)
    } else {
        Err("invalid action".to_owned())
    }
}

/// The script of an action of the daemon.
pub fn anond_action(action: &str) -> (r: Result<String, String>)
    ensures
        match anond_args(action@) {
            Some(args) => r matches Ok(s) && s@ == sudo_script("anond"@, args),
            None => r matches Err(e) && e@ == "invalid action"@,
        },
{
    match action_args(action) {
        Ok(v) => Ok(launch_priv("anond", v.as_slice())),
        Err(e) => Err(e),
    }
}

/// The command of an action of the daemon whose output is shown line by line.
pub fn anond_action_streamed(action: &str) -> (r: Result<Command, String>)
    ensures
        match anond_args(action@) {
            Some(args) => r matches Ok(c) && c@ == cmd("pkexec"@, seq!["anond"@] + args),
            None => r matches Err(e) && e@ == "invalid action"@,
        },
{
    match action_args(action) {
        Ok(v) => {
            let mut all = owned(&["anond"]);
            let mut rest = v;
            let ghost a = all@;
            let ghost b = rest@;
            all.append(&mut rest);
            assert(all@ =~= a + b);
            assert(texts(a) =~= seq!["anond"@]);
            assert(texts(all@) =~= texts(a) + texts(b));
            Ok(Command { bin: "pkexec".to_owned(), args: all })
        },
        Err(e) => Err(e),
    }
}

/// The result of an action whose output is shown line by line: its exit code, or minus one where
/// there is none, because a signal ended it or it did not start.
pub fn streamed_code(code: Option<i32>) -> (r: i32)
    ensures
        r == match code {
            Some(n) => n,
            None => -1i32,
        },
{
    match code {
        Some(n) => n,
        None => -1,
    }
}

/// The line that is shown where the action did not start.
pub fn not_started(cause: &str) -> (s: String)
    ensures
        s@ == "could not start anond: "@ + cause@,
{
    "could not start anond: ".to_owned().concat(cause)
}

/// The script that switches the isolation.
pub fn arxonion_toggle(on: bool) -> (s: String)
    ensures
        s@ == sudo_script(
            "arxonion"@,
            seq![
                if on {
                    "up"@
                } else {
                    "down"@
                },
            ],
        ),
{
    let word = if on {
        "up"
    } else {
        "down"
    };
    let v = owned(&[word]);
    assert(texts(v@) =~= seq![word@]);
    launch_priv("arxonion", v.as_slice())
}

/// The script that opens an isolated shell.
pub fn arxonion_shell() -> (s: String)
    ensures
        s@ == "pkexec arxonion shell"@,
{
    "pkexec arxonion shell".to_owned()
}

/// The program behind the name of a browser.
pub open spec fn launcher_of(browser: Text) -> Option<Text> {
    if browser == "Firefox"@ {
        Some("firefox"@)
    } else if browser == "Waterfox"@ {
        Some("waterfox"@)
    } else if browser == "Brave"@ {
        Some("brave"@)
    } else if browser == "LibreWolf"@ {
        Some("librewolf"@)
    } else if browser == "Mullvad Browser"@ {
        Some("mullvad-browser"@)
    } else if browser == "Chromium"@ {
        Some("chromium"@)
    } else if browser == "Tor Browser"@ {
        Some("torbrowser-launcher"@)
    } else {
        None
    }
}

/// The script that runs a browser in isolation. Only the browsers of a fixed list are run.
pub fn arxonion_launch_browser(browser: &str) -> (r: Result<String, String>)
    ensures
        match launcher_of(browser@) {
            Some(bin) => r matches Ok(s) && s@ == "pkexec arxonion run "@ + bin,
            None => r matches Err(e) && e@ == "unknown browser"@,
        },
{
    let bin = if same(browser, "Firefox") {
        "firefox"
    } else if same(browser, "Waterfox") {
        "waterfox"
    } else if same(browser, "Brave") {
        "brave"
    } else if same(browser, "LibreWolf") {
        "librewolf"
    } else if same(browser, "Mullvad Browser") {
        "mullvad-browser"
    } else if same(browser, "Chromium") {
        "chromium"
    } else if same(browser, "Tor Browser") {
        "torbrowser-launcher"
    } else {
        return Err("unknown browser".to_owned());
    };
    Ok("pkexec arxonion run ".to_owned().concat(bin))
}

/// Whether a text is a command that may be run in isolation.
pub open spec fn is_app(app: Text) -> bool {
    0 < text_bytes(app) <= 200 && forall|i: int| 0 <= i < app.len() ==> app_char(#[trigger] app[i])
}

/// The script that runs a command in isolation, and starts Tor first where it does not run.
pub open spec fn app_script(app: Text) -> Text {
    closing(
        "sudo --preserve-env=DISPLAY,XAUTHORITY bash -c \""@ + ("if ! ss -ltn 2>/dev/null | grep -q '127.0.0.1:9050'; then echo '  Tor is not running yet — starting it (isolation needs Tor):'; anond up --no-advice || exit 1; fi; arxonion run "@
            + app) + "\""@,
    )
}

/// Why a command may not be run in isolation.
pub open spec fn app_fault(app: Text) -> Text {
    if app.len() == 0 {
        "type an app or command to run in isolation"@
    } else if text_bytes(app) > 200 {
        "command too long"@
    } else {
        "only letters, digits, spaces and . _ - / : = @ + are allowed"@
    }
}

proof fn lemma_bytes(s: Text)
    ensures
        text_bytes(s) >= s.len(),
    decreases s.len(),
{
    if s.len() > 0 {
        lemma_bytes(s.drop_last());
    }
}

/// The script that runs a command in isolation.
pub fn arxonion_run_app(app: &str) -> (r: Result<String, String>)
    ensures
        (r is Ok) == is_app(trimmed(app@)),
        r matches Ok(s) ==> s@ == app_script(trimmed(app@)),
        r matches Err(e) ==> e@ == app_fault(trimmed(app@)),
{
    let typed = trim(app);
    proof {
        lemma_bytes(typed@);
    }
    if typed.as_str().is_empty() {
        return Err("type an app or command to run in isolation".to_owned());
    }
    if longer_than(typed.as_str(), 200) {
        return Err("command too long".to_owned());
    }
    let v = chars_of(typed.as_str());
    let mut i: usize = 0;
    while i < v.len()
        invariant
            i <= v@.len(),
            typed@ == trimmed(app@),
            v@ == typed@,
            0 < typed@.len(),
            0 < text_bytes(typed@) <= 200,
            forall|k: int| 0 <= k < i ==> app_char(#[trigger] v@[k]),
        decreases v@.len() - i,
    {
        let c = v[i];
        if !(alnum(c) || c == ' ' || c == '.' || c == '_' || c == ':' || c == '/' || c == '=' || c
            == '@' || c == '+' || c == '-') {
            assert(!app_char(typed@[i as int]));
            return Err("only letters, digits, spaces and . _ - / : = @ + are allowed".to_owned());
        }
        i += 1;
    }
    let script =
        "if ! ss -ltn 2>/dev/null | grep -q '127.0.0.1:9050'; then echo '  Tor is not running yet — starting it (isolation needs Tor):'; anond up --no-advice || exit 1; fi; arxonion run ".to_owned().concat(
    typed.as_str());
    Ok(
        wrap_close(
            "sudo --preserve-env=DISPLAY,XAUTHORITY bash -c \"".to_owned().concat(
                script.as_str(),
            ).concat("\"").as_str(),
        ),
    )
}

/// A command that may be run in isolation holds nothing that a shell would interpret.
pub proof fn law_apps_are_inert(app: Text)
    requires
        is_app(app),
    ensures
        is_inert(app),
{
    assert forall|i: int| 0 <= i < app.len() implies !is_meta(#[trigger] app[i]) by {
        assert(app_char(app[i]));
    }
}

// ---------- browsers ----------
/// Where a browser is looked for: programs on the search path, and directories.
pub struct Browser {
    pub name: &'static str,
    pub bins: Vec<&'static str>,
    pub roots: Vec<&'static str>,
}

/// The model of a [`Browser`].
#[verifier::ext_equal]
pub struct BrowserView {
    pub name: Text,
    pub bins: Seq<Text>,
    pub roots: Seq<Text>,
}

impl View for Browser {
    type V = BrowserView;

    open spec fn view(&self) -> BrowserView {
        BrowserView { name: self.name@, bins: strs(self.bins@), roots: strs(self.roots@) }
    }
}

pub open spec fn browser_views(v: Seq<Browser>) -> Seq<BrowserView> {
    v.map_values(|b: Browser| b@)
}

/// The browsers that are looked for.
pub open spec fn known_browsers() -> Seq<BrowserView> {
    seq![
        BrowserView {
            name: "Firefox"@,
            bins: seq!["firefox"@, "firefox-esr"@, "firefox-bin"@],
            roots: seq!["/usr/lib/firefox"@, "/usr/lib64/firefox"@, "/usr/share/firefox"@],
        },
        BrowserView {
            name: "Waterfox"@,
            bins: seq!["waterfox"@, "waterfox-bin"@],
            roots: seq!["/opt/waterfox"@, "/usr/lib/waterfox"@],
        },
        BrowserView {
            name: "Brave"@,
            bins: seq!["brave"@, "brave-browser"@, "brave-bin"@],
            roots: seq![
                "/etc/brave"@,
                "/opt/brave.com"@,
                "/usr/lib/brave-browser"@,
                "/usr/lib/brave-bin"@,
            ],
        },
        BrowserView {
            name: "LibreWolf"@,
            bins: seq!["librewolf"@],
            roots: seq!["/usr/lib/librewolf"@, "/opt/librewolf"@],
        },
        BrowserView {
            name: "Mullvad Browser"@,
            bins: seq!["mullvad-browser"@],
            roots: seq!["/opt/mullvad-browser"@, "/usr/lib/mullvad-browser"@],
        },
        BrowserView {
            name: "Chromium"@,
            bins: seq!["chromium"@, "chromium-browser"@],
            roots: seq!["/usr/lib/chromium"@, "/etc/chromium"@],
        },
        BrowserView {
            name: "Tor Browser"@,
            bins: seq!["torbrowser-launcher"@, "tor-browser"@],
            roots: seq!["/opt/tor-browser"@, "/usr/lib/torbrowser"@],
        },
    ]
}

/// The browsers that are looked for.
pub fn browsers() -> (v: Vec<Browser>)
    ensures
        browser_views(v@) == known_browsers(),
{
    let v: Vec<Browser> = vec![
        Browser {
            name: "Firefox",
            bins: vec!["firefox", "firefox-esr", "firefox-bin"],
            roots: vec!["/usr/lib/firefox", "/usr/lib64/firefox", "/usr/share/firefox"],
        },
        Browser {
            name: "Waterfox",
            bins: vec!["waterfox", "waterfox-bin"],
            roots: vec!["/opt/waterfox", "/usr/lib/waterfox"],
        },
        Browser {
            name: "Brave",
            bins: vec!["brave", "brave-browser", "brave-bin"],
            roots: vec![
                "/etc/brave",
                "/opt/brave.com",
                "/usr/lib/brave-browser",
                "/usr/lib/brave-bin",
            ],
        },
        Browser {
            name: "LibreWolf",
            bins: vec!["librewolf"],
            roots: vec!["/usr/lib/librewolf", "/opt/librewolf"],
        },
        Browser {
            name: "Mullvad Browser",
            bins: vec!["mullvad-browser"],
            roots: vec!["/opt/mullvad-browser", "/usr/lib/mullvad-browser"],
        },
        Browser {
            name: "Chromium",
            bins: vec!["chromium", "chromium-browser"],
            roots: vec!["/usr/lib/chromium", "/etc/chromium"],
        },
        Browser {
            name: "Tor Browser",
            bins: vec!["torbrowser-launcher", "tor-browser"],
            roots: vec!["/opt/tor-browser", "/usr/lib/torbrowser"],
        },
    ];
    assert(browser_views(v@) =~~= known_browsers());
    v
}

/// What was found of a browser: of each program whether it is on the search path, and of each
/// directory whether it is there.
pub struct Found {
    pub bins: Vec<bool>,
    pub roots: Vec<bool>,
}

pub open spec fn any_true(v: Seq<bool>) -> bool {
    exists|i: int| 0 <= i < v.len() && #[trigger] v[i]
}

/// The names of the browsers of which anything was found.
pub open spec fn found_names(known: Seq<BrowserView>, found: Seq<Found>) -> Seq<Text>
    decreases known.len(),
{
    if known.len() == 0 || found.len() != known.len() {
        seq![]
    } else {
        let rest = found_names(known.drop_last(), found.drop_last());
        if any_true(found.last().bins@) || any_true(found.last().roots@) {
            rest.push(known.last().name)
        } else {
            rest
        }
    }
}

fn any_of(v: &Vec<bool>) -> (r: bool)
    ensures
        r == any_true(v@),
{
    let mut i: usize = 0;
    while i < v.len()
        invariant
            i <= v@.len(),
            forall|k: int| 0 <= k < i ==> !#[trigger] v@[k],
        decreases v@.len() - i,
    {
        if v[i] {
            assert(v@[i as int]);
            return true;
        }
        i += 1;
    }
    false
}

/// The names of the browsers of which anything was found.
pub fn browser_status(found: &Vec<Found>) -> (r: Vec<String>)
    ensures
        texts(r@) == found_names(known_browsers(), found@),
{
    let known = browsers();
    let ghost all = known_browsers();
    assert(browser_views(known@).len() == known@.len());
    let mut r: Vec<String> = Vec::new();
    if found.len() != known.len() {
        assert(texts(r@) =~= seq![]);
        return r;
    }
    let mut i: usize = 0;
    assert(texts(r@) =~= found_names(all.take(0), found@.take(0)));
    while i < known.len()
        invariant
            i <= known@.len(),
            known@.len() == found@.len(),
            all == browser_views(known@),
            all.len() == known@.len(),
            texts(r@) == found_names(all.take(i as int), found@.take(i as int)),
        decreases known@.len() - i,
    {
        assert(all.take(i + 1).drop_last() =~= all.take(i as int));
        assert(found@.take(i + 1).drop_last() =~= found@.take(i as int));
        assert(all.take(i + 1).last() == known@[i as int]@);
        let ghost before = r@;
        if any_of(&found[i].bins) || any_of(&found[i].roots) {
            let name = known[i].name.to_owned();
            r.push(name);
            assert(texts(r@) =~= texts(before).push(name@));
        }
        i += 1;
    }
    assert(all.take(known@.len() as int) =~= all);
    assert(found@.take(known@.len() as int) =~= found@);
    r
}

// ---------- private fetches ----------
/// The command that fetches something that only this system would fetch: through Tor where Tor is
/// there.
pub fn run_private_curl(tor: bool, args: &[&str]) -> (c: Command)
    ensures
        c@ == cmd(
            "curl"@,
            (if tor {
                seq!["--socks5-hostname"@, "127.0.0.1:9050"@]
            } else {
                seq![]
            }) + strs(args@),
        ),
{
    let mut rest = owned(args);
    let mut all = if tor {
        owned(&["--socks5-hostname", "127.0.0.1:9050"])
    } else {
        owned(&[])
    };
    let ghost a = all@;
    let ghost b = rest@;
    assert(texts(a) =~= if tor {
        seq!["--socks5-hostname"@, "127.0.0.1:9050"@]
    } else {
        seq![]
    });
    all.append(&mut rest);
    assert(all@ =~= a + b);
    assert(texts(all@) =~= texts(a) + texts(b));
    Command { bin: "curl".to_owned(), args: all }
}

/// The command that fetches the history of the kernels.
pub fn manifest_command(tor: bool) -> (c: Command)
    ensures
        c@ == cmd(
            "curl"@,
            (if tor {
                seq!["--socks5-hostname"@, "127.0.0.1:9050"@]
            } else {
                seq![]
            }) + seq![
                "-fsSL"@,
                "--max-time"@,
                "30"@,
                "https://raw.githubusercontent.com/thearxos/arxos-kernels/main/kernels.json"@,
            ],
        ),
{
    let args = [
        "-fsSL",
        "--max-time",
        "30",
        "https://raw.githubusercontent.com/thearxos/arxos-kernels/main/kernels.json",
    ];
    assert(strs(args@) =~= seq![
        "-fsSL"@,
        "--max-time"@,
        "30"@,
        "https://raw.githubusercontent.com/thearxos/arxos-kernels/main/kernels.json"@,
    ]);
    run_private_curl(tor, &args)
}

// ---------- what is accepted, over all inputs ----------
/// The terminal is the first of three that is there, and there is none only where all are missing.
pub proof fn law_the_first_terminal_is_taken(t: Terminals)
    ensures
        t.konsole ==> terminal_of(t) == Some("konsole"@),
        !t.konsole && t.xterm ==> terminal_of(t) == Some("xterm"@),
        !t.konsole && !t.xterm && t.any ==> terminal_of(t) == Some("x-terminal-emulator"@),
        terminal_of(t) is None <==> !t.konsole && !t.xterm && !t.any,
{
}

/// A script is run as it stands, and only then the window is closed: what `arx` or a program as root
/// is handed stands first, all the arguments in their order with a blank between them.
pub proof fn law_scripts_run_what_they_are_given(bin: Text, args: Seq<Text>)
    ensures
        begins(arx_script(args), "arx "@ + joined(args, " "@)),
        begins(sudo_script(bin, args), "sudo "@ + bin + " "@ + joined(args, " "@)),
        begins(closing(bin), bin),
{
    let a = "arx "@ + joined(args, " "@);
    let b = "sudo "@ + bin + " "@ + joined(args, " "@);
    assert(closing(a).take(a.len() as int) =~= a);
    assert(closing(b).take(b.len() as int) =~= b);
    assert(closing(bin).take(bin.len() as int) =~= bin);
}

/// A token is one to forty characters, each a letter, a digit, a dash, an underscore or a blank; and
/// every such text is one.
pub proof fn law_tokens(s: Text)
    ensures
        is_token(s) <==> 1 <= s.len() <= 40 && forall|i: int|
            0 <= i < s.len() ==> {
                ||| '0' <= #[trigger] s[i] <= '9'
                ||| 'a' <= s[i] <= 'z'
                ||| 'A' <= s[i] <= 'Z'
                ||| s[i] == '-'
                ||| s[i] == '_'
                ||| s[i] == ' '
            },
{
    assert forall|i: int| 0 <= i < s.len() implies (token_char(#[trigger] s[i]) <==> {
        ||| '0' <= s[i] <= '9'
        ||| 'a' <= s[i] <= 'z'
        ||| 'A' <= s[i] <= 'Z'
        ||| s[i] == '-'
        ||| s[i] == '_'
        ||| s[i] == ' '
    }) by {}
}

/// The bytes of a text are those of its characters: one up to 7f, two up to 7ff, three up to ffff,
/// and four beyond.
pub proof fn law_text_bytes(s: Text, c: char)
    ensures
        text_bytes(Seq::<char>::empty()) == 0,
        text_bytes(s.push(c)) == text_bytes(s) + if c as u32 <= 0x7f {
            1int
        } else if c as u32 <= 0x7ff {
            2
        } else if c as u32 <= 0xffff {
            3
        } else {
            4
        },
{
    assert(s.push(c).drop_last() =~= s);
}

proof fn lemma_plain_bytes(s: Text)
    requires
        forall|i: int| 0 <= i < s.len() ==> app_char(#[trigger] s[i]),
    ensures
        text_bytes(s) == s.len(),
    decreases s.len(),
{
    if s.len() > 0 {
        assert forall|i: int| 0 <= i < s.drop_last().len() implies app_char(
            #[trigger] s.drop_last()[i],
        ) by {
            assert(app_char(s[i]));
        }
        lemma_plain_bytes(s.drop_last());
        assert(app_char(s[s.len() - 1]));
    }
}

/// A command that may be run in isolation is one to two hundred characters, each a letter, a digit,
/// a blank or one of eight marks; and every such text is one. Any other is told what is wrong with
/// it: that it is missing, that it is too long, or which characters are allowed.
pub proof fn law_apps(app: Text)
    ensures
        is_app(app) <==> 1 <= app.len() <= 200 && forall|i: int|
            0 <= i < app.len() ==> {
                ||| '0' <= #[trigger] app[i] <= '9'
                ||| 'a' <= app[i] <= 'z'
                ||| 'A' <= app[i] <= 'Z'
                ||| app[i] == ' ' || app[i] == '.' || app[i] == '_' || app[i] == '-'
                ||| app[i] == '/' || app[i] == ':' || app[i] == '=' || app[i] == '@' || app[i] == '+'
            },
        app.len() == 0 ==> app_fault(app) == "type an app or command to run in isolation"@,
        app.len() > 0 && text_bytes(app) > 200 ==> app_fault(app) == "command too long"@,
        app.len() > 0 && text_bytes(app) <= 200 ==> app_fault(app)
            == "only letters, digits, spaces and . _ - / : = @ + are allowed"@,
{
    assert forall|i: int| 0 <= i < app.len() implies (app_char(#[trigger] app[i]) <==> {
        ||| '0' <= app[i] <= '9'
        ||| 'a' <= app[i] <= 'z'
        ||| 'A' <= app[i] <= 'Z'
        ||| app[i] == ' ' || app[i] == '.' || app[i] == '_' || app[i] == '-'
        ||| app[i] == '/' || app[i] == ':' || app[i] == '=' || app[i] == '@' || app[i] == '+'
    }) by {}
    if forall|i: int| 0 <= i < app.len() ==> app_char(#[trigger] app[i]) {
        lemma_plain_bytes(app);
    }
}

/// The script that runs a command in isolation carries the command, right behind `arxonion run`.
pub proof fn law_the_app_is_run(app: Text)
    ensures
        carries(app_script(app), "arxonion run "@ + app + "\""@),
{
    let a = "sudo --preserve-env=DISPLAY,XAUTHORITY bash -c \""@;
    let b =
        "if ! ss -ltn 2>/dev/null | grep -q '127.0.0.1:9050'; then echo '  Tor is not running yet — starting it (isolation needs Tor):'; anond up --no-advice || exit 1; fi; arxonion run "@;
    let q = "\""@;
    let run = "arxonion run "@;
    reveal_strlit(
        "if ! ss -ltn 2>/dev/null | grep -q '127.0.0.1:9050'; then echo '  Tor is not running yet — starting it (isolation needs Tor):'; anond up --no-advice || exit 1; fi; arxonion run ",
    );
    reveal_strlit("arxonion run ");
    let cut = b.len() - run.len();
    assert(b.skip(cut) =~= run);
    let script = a + (b + app) + q;
    let tail = app_script(app).skip(script.len() as int);
    assert(app_script(app) =~= (a + b.take(cut)) + (run + app + q) + tail);
    law_carries(app_script(app), run + app + q);
}

/// What a list of categories names is handed over word by word, behind the verb.
pub proof fn law_each_category_is_handed_over(verb: Text, category: Text, i: int)
    ensures
        weapons_args(verb, category).len() == 2 + words(category).len(),
        weapons_args(verb, category)[0] == "weapons"@,
        weapons_args(verb, category)[1] == verb,
        0 <= i < words(category).len() ==> weapons_args(verb, category)[2 + i] == words(category)[i],
{
}

/// The daemon is asked for nothing but five actions, each under its own name but for the one that
/// brings the overlay up too.
pub proof fn law_the_actions_of_the_daemon(action: Text)
    ensures
        action == "up"@ || action == "down"@ || action == "verify"@ || action == "new-identity"@
            ==> anond_args(action) == Some(seq![action]),
        action == "up-i2p"@ ==> anond_args(action) == Some(seq!["up"@, "--i2p"@]),
        action != "up"@ && action != "down"@ && action != "verify"@ && action != "new-identity"@
            && action != "up-i2p"@ ==> anond_args(action) is None,
{
    reveal_strlit("up");
    reveal_strlit("down");
    reveal_strlit("verify");
    reveal_strlit("new-identity");
    reveal_strlit("up-i2p");
    assert("up-i2p"@[0] == 'u' && "verify"@[0] == 'v');
    assert("up-i2p"@.len() == 6 && "up"@.len() == 2 && "down"@.len() == 4);
    assert("new-identity"@.len() == 12);
}

/// A browser is launched by the program behind its name; a name that is none of the seven launches
/// nothing.
pub proof fn law_browsers_by_name(browser: Text)
    ensures
        browser == "Firefox"@ ==> launcher_of(browser) == Some("firefox"@),
        browser == "Waterfox"@ ==> launcher_of(browser) == Some("waterfox"@),
        browser == "Brave"@ ==> launcher_of(browser) == Some("brave"@),
        browser == "LibreWolf"@ ==> launcher_of(browser) == Some("librewolf"@),
        browser == "Mullvad Browser"@ ==> launcher_of(browser) == Some("mullvad-browser"@),
        browser == "Chromium"@ ==> launcher_of(browser) == Some("chromium"@),
        browser == "Tor Browser"@ ==> launcher_of(browser) == Some("torbrowser-launcher"@),
        launcher_of(browser) is Some ==> browser == "Firefox"@ || browser == "Waterfox"@ || browser
            == "Brave"@ || browser == "LibreWolf"@ || browser == "Mullvad Browser"@ || browser
            == "Chromium"@ || browser == "Tor Browser"@,
{
    reveal_strlit("Firefox");
    reveal_strlit("Waterfox");
    reveal_strlit("Brave");
    reveal_strlit("LibreWolf");
    reveal_strlit("Mullvad Browser");
    reveal_strlit("Chromium");
    reveal_strlit("Tor Browser");
    assert("Waterfox"@[0] == 'W' && "Chromium"@[0] == 'C');
    assert("Firefox"@.len() == 7 && "Waterfox"@.len() == 8 && "Brave"@.len() == 5);
    assert("LibreWolf"@.len() == 9 && "Mullvad Browser"@.len() == 15);
    assert("Chromium"@.len() == 8 && "Tor Browser"@.len() == 11);
}

/// Every browser that is looked for can be launched, by the first of the programs that it is looked
/// for by.
pub proof fn law_known_browsers_can_be_launched(i: int)
    requires
        0 <= i < 7,
    ensures
        known_browsers().len() == 7,
        launcher_of(known_browsers()[i].name) == Some(known_browsers()[i].bins[0]),
        known_browsers()[i].bins.len() == seq![3int, 2, 3, 1, 1, 2, 2][i],
        known_browsers()[i].roots.len() == seq![3int, 2, 4, 2, 2, 2, 2][i],
{
    law_browsers_by_name(known_browsers()[i].name);
}

/// A browser is named exactly where one of its programs or directories was found, and the names keep
/// their order: each more that is looked at adds its name or nothing.
pub proof fn law_what_is_found_is_named(
    known: Seq<BrowserView>,
    found: Seq<Found>,
    b: BrowserView,
    f: Found,
)
    requires
        known.len() == found.len(),
    ensures
        found_names(Seq::<BrowserView>::empty(), found).len() == 0,
        (exists|j: int| 0 <= j < f.bins@.len() && #[trigger] f.bins@[j]) || (exists|j: int|
            0 <= j < f.roots@.len() && #[trigger] f.roots@[j]) ==> found_names(
            known.push(b),
            found.push(f),
        ) == found_names(known, found).push(b.name),
        (forall|j: int| 0 <= j < f.bins@.len() ==> !#[trigger] f.bins@[j]) && (forall|j: int|
            0 <= j < f.roots@.len() ==> !#[trigger] f.roots@[j]) ==> found_names(
            known.push(b),
            found.push(f),
        ) == found_names(known, found),
{
    assert(known.push(b).drop_last() =~= known);
    assert(found.push(f).drop_last() =~= found);
}

/// Where each browser is looked for: by all the programs that it may go by, and in all the directories
/// that it may be installed in.
pub proof fn law_where_browsers_are_looked_for()
    ensures
        ({
            let v = known_browsers();
            &&& v[0].bins == seq!["firefox"@, "firefox-esr"@, "firefox-bin"@]
            &&& v[0].roots == seq![
                "/usr/lib/firefox"@,
                "/usr/lib64/firefox"@,
                "/usr/share/firefox"@,
            ]
            &&& v[1].bins == seq!["waterfox"@, "waterfox-bin"@]
            &&& v[1].roots == seq!["/opt/waterfox"@, "/usr/lib/waterfox"@]
            &&& v[2].bins == seq!["brave"@, "brave-browser"@, "brave-bin"@]
            &&& v[2].roots == seq![
                "/etc/brave"@,
                "/opt/brave.com"@,
                "/usr/lib/brave-browser"@,
                "/usr/lib/brave-bin"@,
            ]
            &&& v[3].bins == seq!["librewolf"@]
            &&& v[3].roots == seq!["/usr/lib/librewolf"@, "/opt/librewolf"@]
            &&& v[4].bins == seq!["mullvad-browser"@]
            &&& v[4].roots == seq!["/opt/mullvad-browser"@, "/usr/lib/mullvad-browser"@]
            &&& v[5].bins == seq!["chromium"@, "chromium-browser"@]
            &&& v[5].roots == seq!["/usr/lib/chromium"@, "/etc/chromium"@]
            &&& v[6].bins == seq!["torbrowser-launcher"@, "tor-browser"@]
            &&& v[6].roots == seq!["/opt/tor-browser"@, "/usr/lib/torbrowser"@]
        }),
{
}

} // verus!
