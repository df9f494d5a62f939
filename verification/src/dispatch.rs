//! Front-end decisions around the commands: rewriting a help query, offering
//! command-name completions, and classifying a failed invocation into the
//! reply the actor sees and whether it escalates to the operational channel.

use crate::text::{starts_with_exact, str_eq};
use vstd::prelude::*;
use vstd::string::StringExecFns;

verus! {

/// What the dispatcher knows of one command when offering completions.
#[derive(Debug)]
pub struct CommandInfo {
    pub name: String,
    pub owners_only: bool,
    pub hide_in_help: bool,
}

/// The names offered for a partial query: every visible command whose
/// qualified name starts with the query, in registration order.
pub open spec fn offered_commands(cmds: Seq<CommandInfo>, q: Seq<char>) -> Seq<Seq<char>> {
    cmds.filter(
        |c: CommandInfo| !c.owners_only && !c.hide_in_help && q.is_prefix_of(c.name@),
    ).map_values(|c: CommandInfo| c.name@)
}

/// Offers command-name completions for a partial query.
pub fn autocomplete_commands(cmds: &Vec<CommandInfo>, searching: &str) -> (r: Vec<String>)
    ensures
        r.deep_view() == offered_commands(cmds@, searching@),
{
    let mut out: Vec<String> = Vec::new();
    let n = cmds.len();
    let mut i: usize = 0;
    proof {
        reveal(Seq::filter);
        assert(cmds@.subrange(0, 0) =~= Seq::<CommandInfo>::empty());
        assert(out.deep_view() =~= offered_commands(cmds@.subrange(0, 0), searching@));
    }
    while i < n
        invariant
            0 <= i <= n,
            n == cmds@.len(),
            out.deep_view() == offered_commands(cmds@.subrange(0, i as int), searching@),
        decreases n - i,
    {
        let ghost prefix = cmds@.subrange(0, i as int);
        let ghost prefix2 = cmds@.subrange(0, i as int + 1);
        proof {
            reveal(Seq::filter);
            assert(prefix2.drop_last() =~= prefix);
            assert(prefix2.last() == cmds@[i as int]);
        }
        let c = &cmds[i];
        if !c.owners_only && !c.hide_in_help && starts_with_exact(c.name.as_str(), searching) {
            let name = c.name.clone();
            out.push(name);
            assert(out.deep_view() =~= offered_commands(prefix, searching@).push(
                cmds@[i as int].name@,
            ));
        } else {
            assert(offered_commands(prefix2, searching@) =~= offered_commands(
                prefix,
                searching@,
            ));
        }
        i += 1;
    }
    assert(cmds@.subrange(0, n as int) =~= cmds@);
    out
}

/// The query the help screen is asked for. Invoked as a subcommand named
/// `help` of another command, the help request is rewritten so that
/// "`/fruit help apple`" asks for "`fruit apple`" and "`/fruit help`" asks
/// for "`fruit`"; invoked as plain `/help`, the query passes through.
pub fn help_query(invoked: &str, command: Option<String>) -> (r: Option<String>)
    ensures
        invoked@ == "help"@ ==> r.deep_view() == command.deep_view(),
        invoked@ != "help"@ ==> match command {
            Some(c) => r is Some && r->0@ == invoked@ + " "@ + c@,
            None => r is Some && r->0@ == invoked@,
        },
{
    if str_eq(invoked, "help") {
        command
    } else {
        match command {
            Some(c) => Some(String::from_str(invoked).concat(" ").concat(c.as_str())),
            None => Some(String::from_str(invoked)),
        }
    }
}

/// A failed invocation, as the dispatcher reports it.
#[derive(Debug)]
pub enum CommandFault {
    /// The pre-command check turned the actor away, perhaps with a reason.
    CheckFailed { reason: Option<String> },
    /// The command is on cooldown for this actor.
    CooldownHit { command: String, remaining_ms: u64 },
    /// The command may only run in an age-restricted channel.
    NsfwOnly { command: String },
    /// Anything else: unexpected, to be escalated.
    Unknown { command: Option<String> },
}

/// The reply a fault produces. The actor always gets a direct, ephemeral
/// notice; only an unknown fault additionally escalates a diagnostic record
/// to the operational error channel.
#[derive(Debug)]
pub struct FaultNotice {
    pub title: String,
    pub ephemeral: bool,
    pub show_support_link: bool,
    pub escalate: bool,
}

/// The title a fault's notice carries.
pub open spec fn fault_title(f: CommandFault) -> Seq<char> {
    match f {
        CommandFault::CheckFailed { reason } => match reason {
            Some(r) => r@,
            None => "Command Check Failed"@,
        },
        CommandFault::CooldownHit { command, .. } => "/"@ + command@ + " on cooldown"@,
        CommandFault::NsfwOnly { .. } => "NSFW Only Command"@,
        CommandFault::Unknown { command } => match command {
            Some(c) => "Unknown error occurred in /"@ + c@,
            None => "Unknown error occurred"@,
        },
    }
}

/// Classifies a fault: the expected ones — check refusal, cooldown, wrong
/// channel — answer the actor directly and go no further, while an unknown
/// fault answers generically and escalates.
pub fn notice_for(f: &CommandFault) -> (n: FaultNotice)
    ensures
        n.title@ == fault_title(*f),
        n.ephemeral,
        n.escalate == (f is Unknown),
        n.show_support_link == (f is CheckFailed),
{
    match f {
        CommandFault::CheckFailed { reason } => {
            let title = match reason {
                Some(r) => r.clone(),
                None => String::from_str("Command Check Failed"),
            };
            FaultNotice { title, ephemeral: true, show_support_link: true, escalate: false }
        },
        CommandFault::CooldownHit { command, .. } => {
            let title = String::from_str("/").concat(command.as_str()).concat(" on cooldown");
            FaultNotice { title, ephemeral: true, show_support_link: false, escalate: false }
        },
        CommandFault::NsfwOnly { .. } => {
            let title = String::from_str("NSFW Only Command");
            FaultNotice { title, ephemeral: true, show_support_link: false, escalate: false }
        },
        CommandFault::Unknown { command } => {
            let title = match command {
                Some(c) => String::from_str("Unknown error occurred in /").concat(c.as_str()),
                None => String::from_str("Unknown error occurred"),
            };
            FaultNotice { title, ephemeral: true, show_support_link: false, escalate: true }
        },
    }
}

} // verus!
