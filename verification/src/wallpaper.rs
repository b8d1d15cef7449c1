//! The wallpaper panel, a thin driver of the wallpaper engine: which engine, which arguments, and
//! what its outcome means.
use vstd::prelude::*;
use vstd::string::StringExecFns;

use crate::number::{dec, decimal};
use crate::plan::{Command, cmd, command};
use crate::text::{Text, same, texts, trim, trimmed};

verus! {

/// A wallpaper. Its size is zero where the header of the image could not be read.
pub struct Wallpaper {
    pub path: String,
    pub name: String,
    /// Which directory it came from: arxos, system or user.
    pub source: String,
    pub width: u32,
    pub height: u32,
}

/// The size of the screen.
#[derive(Clone, Copy, PartialEq, Eq, Structural, Debug)]
pub struct Screen {
    pub width: u32,
    pub height: u32,
}

/// The wallpapers, the styles that the desktop has for them, and the size of the desktop.
pub struct WallpaperCatalog {
    pub wallpapers: Vec<Wallpaper>,
    pub styles: Vec<String>,
    pub default_style: String,
    pub desktop: Screen,
}

/// What a download brought.
pub struct FetchResult {
    pub added: u32,
    pub limit: u32,
    pub found: u32,
    pub dest: String,
    pub files: Vec<String>,
    pub errors: Vec<String>,
}

/// How wallpapers follow each other.
#[derive(Clone, Copy, PartialEq, Eq, Structural, Debug)]
pub struct CycleStatus {
    pub enabled: bool,
    pub shuffle: bool,
    pub interval_secs: u32,
}

/// The engine at its place of installation.
pub const ENGINE_FILE: &'static str = "/usr/local/bin/arxos-wallpaper-engine";

/// The engine on the search path.
pub const ENGINE_NAME: &'static str = "arxos-wallpaper-engine";

pub open spec fn engine_of(installed: bool, on_path: bool) -> Option<Text> {
    if installed {
        Some(ENGINE_FILE@)
    } else if on_path {
        Some(ENGINE_NAME@)
    } else {
        None
    }
}

/// The engine, given whether its file is there and whether it is on the search path.
pub fn engine(installed: bool, on_path: bool) -> (r: Result<&'static str, String>)
    ensures
        match engine_of(installed, on_path) {
            Some(bin) => r matches Ok(b) && b@ == bin,
            None => r matches Err(e) && e@ == "arxos-wallpaper-engine is not installed"@,
        },
{
    if installed {
        Ok(ENGINE_FILE)
    } else if on_path {
        Ok(ENGINE_NAME)
    } else {
        Err("arxos-wallpaper-engine is not installed".to_owned())
    }
}

/// The command that lists the wallpapers.
pub fn wallpapers_list(bin: &str) -> (c: Command)
    ensures
        c@ == cmd(bin@, seq!["--list-json"@]),
{
    let c = command(bin, &["--list-json"]);
    assert(c@.args =~= seq!["--list-json"@]);
    c
}

/// What a command of the engine came to: its own words where it failed.
pub fn engine_outcome(success: bool, stderr: &str) -> (r: Result<(), String>)
    ensures
        (r is Ok) == success,
        r matches Err(e) ==> e@ == trimmed(stderr@),
{
    if success {
        Ok(())
    } else {
        Err(trim(stderr))
    }
}

/// The command that sets a wallpaper, in a style where one is asked for.
pub fn wallpaper_set(bin: &str, path: &str, style: Option<&str>) -> (c: Command)
    ensures
        c@ == cmd(
            bin@,
            match style {
                Some(s) => seq!["--set"@, path@, "--style"@, s@],
                None => seq!["--set"@, path@],
            },
        ),
{
    match style {
        Some(s) => {
            let c = command(bin, &["--set", path, "--style", s]);
            assert(c@.args =~= seq!["--set"@, path@, "--style"@, s@]);
            c
        },
        None => {
            let c = command(bin, &["--set", path]);
            assert(c@.args =~= seq!["--set"@, path@]);
            c
        },
    }
}

/// What setting a wallpaper came to.
pub fn wallpaper_was_set(success: bool) -> (r: Result<(), String>)
    ensures
        (r is Ok) == success,
        r matches Err(e) ==> e@ == "arxos-wallpaper --set failed"@,
{
    if success {
        Ok(())
    } else {
        Err("arxos-wallpaper --set failed".to_owned())
    }
}

/// Whether there is such a source of wallpapers.
pub open spec fn is_source(source: Text) -> bool {
    source == "curated"@ || source == "unsplash"@ || source == "both"@
}

/// The command that downloads wallpapers, at most `limit` of them.
pub fn wallpaper_fetch(bin: &str, limit: u32, source: &str) -> (r: Result<Command, String>)
    ensures
        (r is Ok) == is_source(source@),
        r matches Ok(c) ==> c@ == cmd(
            bin@,
            seq!["--fetch"@, "--limit"@, decimal(limit as nat), "--source"@, source@],
        ),
        r matches Err(e) ==> e@ == "source must be curated, unsplash, or both"@,
{
    if !same(source, "curated") && !same(source, "unsplash") && !same(source, "both") {
        return Err("source must be curated, unsplash, or both".to_owned());
    }
    let n = dec(limit as u64);
    let c = command(bin, &["--fetch", "--limit", n.as_str(), "--source", source]);
    assert(c@.args =~= seq![
        "--fetch"@,
        "--limit"@,
        decimal(limit as nat),
        "--source"@,
        source@,
    ]);
    Ok(c)
}

/// The command that tells how wallpapers follow each other.
pub fn wallpaper_cycle_status(bin: &str) -> (c: Command)
    ensures
        c@ == cmd(bin@, seq!["--cycle-status"@]),
{
    let c = command(bin, &["--cycle-status"]);
    assert(c@.args =~= seq!["--cycle-status"@]);
    c
}

/// The arguments that change how wallpapers follow each other. What is not asked for stays.
pub open spec fn cycle_args(enabled: Option<bool>, shuffle: Option<bool>) -> Seq<Text> {
    seq!["--cycle-set"@] + (match enabled {
        Some(true) => seq!["--on"@],
        Some(false) => seq!["--off"@],
        None => seq![],
    }) + (match shuffle {
        Some(true) => seq!["--shuffle-on"@],
        Some(false) => seq!["--shuffle-off"@],
        None => seq![],
    })
}

/// The command that changes how wallpapers follow each other.
pub fn wallpaper_cycle_set(bin: &str, enabled: Option<bool>, shuffle: Option<bool>) -> (c: Command)
    ensures
        c@ == cmd(bin@, cycle_args(enabled, shuffle)),
{
    let mut args: Vec<String> = vec!["--cycle-set".to_owned()];
    match enabled {
        Some(true) => {
            args.push("--on".to_owned());
        },
        Some(false) => {
            args.push("--off".to_owned());
        },
        None => {},
    }
    match shuffle {
        Some(true) => {
            args.push("--shuffle-on".to_owned());
        },
        Some(false) => {
            args.push("--shuffle-off".to_owned());
        },
        None => {},
    }
    assert(texts(args@) =~= cycle_args(enabled, shuffle));
    Command { bin: bin.to_owned(), args }
}

/// The engine is the one that is installed, else the one on the search path, else none.
pub proof fn law_the_engine(installed: bool, on_path: bool)
    ensures
        installed ==> engine_of(installed, on_path) == Some(ENGINE_FILE@),
        !installed && on_path ==> engine_of(installed, on_path) == Some(ENGINE_NAME@),
        !installed && !on_path ==> engine_of(installed, on_path) is None,
{
}

/// There are three sources, and no other is accepted.
pub proof fn law_sources(source: Text)
    ensures
        is_source("curated"@) && is_source("unsplash"@) && is_source("both"@),
        is_source(source) ==> source == "curated"@ || source == "unsplash"@ || source == "both"@,
{
}

/// What is asked for is switched, the cycle before the order, each on or off; what is not asked for
/// is not mentioned.
pub proof fn law_only_what_is_asked_for_changes(enabled: Option<bool>, shuffle: Option<bool>)
    ensures
        ({
            let v = cycle_args(enabled, shuffle);
            &&& v[0] == "--cycle-set"@
            &&& v.len() == 1 + (if enabled is Some {
                1int
            } else {
                0
            }) + (if shuffle is Some {
                1int
            } else {
                0
            })
            &&& enabled == Some(true) ==> v[1] == "--on"@
            &&& enabled == Some(false) ==> v[1] == "--off"@
            &&& shuffle == Some(true) ==> v.last() == "--shuffle-on"@
            &&& shuffle == Some(false) ==> v.last() == "--shuffle-off"@
        }),
{
}

} // verus!
