//! The opt-in to the community registry, whose packages nobody has vetted. It is off unless a flag
//! file says otherwise, and only root can write that file.
use vstd::prelude::*;
use vstd::string::StringExecFns;

use crate::plan::{Command, cmd, command};

verus! {

/// The file whose presence means that the registry is enabled.
pub const FLAG: &'static str = "/etc/arxos/community.enabled";

/// The command that enables or disables the registry.
pub fn community_set(enabled: bool) -> (c: Command)
    ensures
        c@ == cmd(
            "pkexec"@,
            seq![
                "bash"@,
                "-c"@,
                if enabled {
                    "mkdir -p /etc/arxos && : > /etc/arxos/community.enabled"@
                } else {
                    "rm -f /etc/arxos/community.enabled"@
                },
            ],
        ),
{
    let script = if enabled {
        "mkdir -p /etc/arxos && : > /etc/arxos/community.enabled"
    } else {
        "rm -f /etc/arxos/community.enabled"
    };
    let c = command("pkexec", &["bash", "-c", script]);
    assert(c@.args =~= seq!["bash"@, "-c"@, script@]);
    c
}

/// What came of it: whether the flag is there afterwards, or that nothing was changed.
pub fn community_changed(success: bool, flag: bool) -> (r: Result<bool, String>)
    ensures
        success ==> r == Ok::<bool, String>(flag),
        !success ==> (r matches Err(e) && e@
            == "could not change the community setting (elevation cancelled or failed)"@),
{
    if success {
        Ok(flag)
    } else {
        Err("could not change the community setting (elevation cancelled or failed)".to_owned())
    }
}

} // verus!
