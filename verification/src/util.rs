//! What every part of the anonymity daemon leans on: where it keeps its files, and how the
//! outcome of a command is read.
use vstd::prelude::*;
use vstd::string::StringExecFns;

use crate::number::{
    decimal, explain_unsigned, law_decimal_reads_back, lemma_decimal, parse_unsigned,
    unsigned_fault, unsigned_value,
};
use crate::plan::{owned, try_op, under, with_context, Op, OpView, Step, StepView};
use crate::plan::{attempt, steps};
use crate::reading::{blank, law_trim_finds_the_inside};
use crate::text::{is_digit, join, joined, strs, trim, trimmed, Text};

verus! {

pub const STATE_DIR: &'static str = "/var/lib/anond";

pub const RUN_DIR: &'static str = "/run/anond";

/// Refuses to go on for any effective user but root.
pub fn require_root(euid: u32) -> (r: Result<(), String>)
    ensures
        (r is Ok) == (euid == 0),
        r matches Err(e) ==> e@ == "anond must run as root (it manages nftables and Tor)"@,
{
    if euid != 0 {
        Err("anond must run as root (it manages nftables and Tor)".to_owned())
    } else {
        Ok(())
    }
}

/// The error of a user that `id` does not know.
pub open spec fn no_such_user(user: Text) -> Text {
    "no such user '"@ + user + "' (is tor installed?)"@
}

/// What running a command and catching its output came to: whether it exited with success and what
/// it printed, or why it could not be run.
pub open spec fn caught(r: Result<(bool, String), String>) -> Result<(bool, Text), Text> {
    match r {
        Ok((success, stdout)) => Ok((success, stdout@)),
        Err(cause) => Err(cause@),
    }
}

/// The numeric id of a user, or the error that stands in its way.
pub open spec fn uid_value(user: Text, ran: Result<(bool, Text), Text>) -> Result<u32, Text> {
    match ran {
        Err(cause) => Err(under("run id"@, cause)),
        Ok((success, stdout)) => if !success {
            Err(no_such_user(user))
        } else {
            match unsigned_value(trimmed(stdout), u32::MAX as nat) {
                Some(n) => Ok(n as u32),
                None => Err(
                    under("parse uid"@, unsigned_fault(trimmed(stdout), u32::MAX as nat)),
                ),
            }
        },
    }
}

pub open spec fn uid_text(r: Result<u32, String>) -> Result<u32, Text> {
    match r {
        Ok(n) => Ok(n),
        Err(e) => Err(e@),
    }
}

/// The numeric id of a user, out of what `id -u` did.
pub fn uid_of(user: &str, ran: Result<(bool, String), String>) -> (r: Result<u32, String>)
    ensures
        uid_text(r) == uid_value(user@, caught(ran)),
{
    match ran {
        Err(cause) => Err(with_context("run id", cause.as_str())),
        Ok((success, stdout)) => {
            if !success {
                return Err(
                    "no such user '".to_owned().concat(user).concat("' (is tor installed?)"),
                );
            }
            let t = trim(stdout.as_str());
            match parse_unsigned(t.as_str(), u32::MAX as u64) {
                Some(n) => Ok(n as u32),
                None => Err(
                    with_context("parse uid", explain_unsigned(t.as_str(), u32::MAX as u64)),
                ),
            }
        },
    }
}

/// The error of a command that exited without success.
pub open spec fn failed_text(bin: Text, args: Seq<Text>) -> Text {
    bin + " "@ + joined(args, " "@) + " failed"@
}

/// What running a command came to: an error where it could not be started, or where it exited
/// without success.
pub fn run(bin: &str, args: &[&str], ran: Result<bool, String>) -> (r: Result<(), String>)
    ensures
        match ran {
            Err(cause) => r matches Err(e) && e@ == under("spawn "@ + bin@, cause@),
            Ok(true) => r is Ok,
            Ok(false) => r matches Err(e) && e@ == failed_text(bin@, strs(args@)),
        },
{
    match ran {
        Err(cause) => {
            let context = "spawn ".to_owned().concat(bin);
            Err(with_context(context.as_str(), cause.as_str()))
        },
        Ok(success) => if success {
            Ok(())
        } else {
            let list = owned(args);
            Err(
                bin.to_owned().concat(" ").concat(join(list.as_slice(), " ").as_str()).concat(
                    " failed",
                ),
            )
        },
    }
}

/// What a command printed, without the white space around it; nothing where it could not be run.
pub fn out(ran: Option<String>) -> (r: String)
    ensures
        r@ == match ran {
            Some(stdout) => trimmed(stdout@),
            None => seq![],
        },
{
    match ran {
        Some(stdout) => trim(stdout.as_str()),
        None => String::new(),
    }
}

/// The plan that creates the daemon's two directories.
pub open spec fn dirs_plan() -> Seq<StepView> {
    seq![attempt(OpView::MakeDirs(STATE_DIR@)), attempt(OpView::MakeDirs(RUN_DIR@))]
}

/// Creates the daemon's two directories.
pub fn ensure_dirs() -> (v: Vec<Step>)
    ensures
        steps(v@) == dirs_plan(),
{
    let mut v: Vec<Step> = Vec::new();
    v.push(try_op(Op::MakeDirs(STATE_DIR.to_owned())));
    v.push(try_op(Op::MakeDirs(RUN_DIR.to_owned())));
    assert(steps(v@) =~~= dirs_plan());
    v
}

/// The id of a user is the number that `id` prints, with or without white space around it; a `id`
/// that fails knows no such user, whatever it printed, and one that does not run is reported as such.
pub proof fn law_the_id_is_what_was_printed(user: Text, a: Text, n: u32, b: Text, cause: Text)
    requires
        blank(a),
        blank(b),
    ensures
        uid_value(user, Ok((true, a + decimal(n as nat) + b))) == Ok::<u32, Text>(n),
        uid_value(user, Ok((false, a + decimal(n as nat) + b))) == Err::<u32, Text>(
            "no such user '"@ + user + "' (is tor installed?)"@,
        ),
        uid_value(user, Err(cause)) == Err::<u32, Text>("run id"@ + ": "@ + cause),
{
    lemma_decimal(n as nat);
    let d = decimal(n as nat);
    assert(is_digit(d[0]) && is_digit(d[d.len() - 1]));
    law_trim_finds_the_inside(a, d, b);
    law_decimal_reads_back(n as nat, u32::MAX as nat);
}

/// What was printed is an id only where it is a number that fits, and every other answer is an
/// error.
pub proof fn law_no_id_out_of_nothing(user: Text, success: bool, stdout: Text)
    ensures
        uid_value(user, Ok((success, stdout))) is Ok <==> success && unsigned_value(
            trimmed(stdout),
            0xffff_ffff,
        ) is Some,
{
}

/// A command that failed is reported with all of its arguments.
pub proof fn law_failures_name_the_command(bin: Text, args: Seq<Text>)
    ensures
        failed_text(bin, args) == bin + " "@ + joined(args, " "@) + " failed"@,
{
}

} // verus!
