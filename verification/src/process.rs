//! How the service is ended.

use crate::paths::Platform;
use crate::text::decimal;
use vstd::prelude::*;

verus! {

/// How a process is ended together with those that it started.
pub enum KillPlan {
    /// Run `taskkill` with these arguments.
    Taskkill(Vec<String>),
    /// Kill the process itself.
    Kill,
}

/// How the process `pid` is ended. On Windows the processes that it started
/// outlive it, so the whole tree is ended there.
pub fn kill_tree(platform: Platform, pid: u32) -> (plan: KillPlan)
    ensures
        match plan {
            KillPlan::Taskkill(args) => platform == Platform::Windows && crate::text::views(args@)
                == seq!["/pid"@, crate::text::decimal_of(pid as nat), "/T"@, "/F"@],
            KillPlan::Kill => platform != Platform::Windows,
        },
{
    if platform == Platform::Windows {
        let mut args: Vec<String> = Vec::new();
        args.push("/pid".to_owned());
        args.push(decimal(pid as u64));
        args.push("/T".to_owned());
        args.push("/F".to_owned());
        KillPlan::Taskkill(args)
    } else {
        KillPlan::Kill
    }
}

/// On Windows the process is ended by its number together with all that it
/// started, by force; elsewhere it is killed itself.
pub proof fn whole_tree_is_ended_on_windows(platform: Platform, pid: u32, plan: KillPlan)
    requires
        call_ensures(kill_tree, (platform, pid), plan),
    ensures
        plan is Taskkill <==> platform == Platform::Windows,
        plan matches KillPlan::Taskkill(args) ==> {
            &&& args@.len() == 4
            &&& args@[0]@ == "/pid"@
            &&& crate::text::number_of(args@[1]@) == pid
            &&& args@[2]@ == "/T"@
            &&& args@[3]@ == "/F"@
        },
{
    crate::text::decimal_stands_for_the_number(pid as nat);
    if let KillPlan::Taskkill(args) = plan {
        let texts = crate::text::views(args@);
        assert(texts.len() == args@.len());
        assert(texts[0] == args@[0]@ && texts[1] == args@[1]@ && texts[2] == args@[2]@ && texts[3]
            == args@[3]@);
    }
}

} // verus!
