//! Commands to run: the program, its arguments, working directory and extra
//! environment, for the caller to execute.
use vstd::prelude::*;
use crate::envmap::EnvMap;
use crate::order::views;
use crate::state::opt_view;

verus! {

/// One command to run.
#[derive(Debug)]
pub struct CommandPlan {
    pub program: String,
    pub args: Vec<String>,
    pub cwd: Option<String>,
    pub env: Option<EnvMap>,
}

/// The mathematical value of a [`CommandPlan`].
pub struct CommandView {
    pub program: Seq<char>,
    pub args: Seq<Seq<char>>,
    pub cwd: Option<Seq<char>>,
    pub env: Option<Map<Seq<char>, Seq<char>>>,
}

impl View for CommandPlan {
    type V = CommandView;

    open spec fn view(&self) -> CommandView {
        CommandView {
            program: self.program@,
            args: views(self.args@),
            cwd: opt_view(self.cwd),
            env: match self.env {
                Some(e) => Some(e@),
                None => None,
            },
        }
    }
}

impl CommandPlan {
    /// The environment map, if any, is well formed.
    pub open spec fn wf(&self) -> bool {
        self.env matches Some(e) ==> e.wf()
    }
}

/// The view of a list of commands.
pub open spec fn command_views(v: Seq<CommandPlan>) -> Seq<CommandView> {
    v.map_values(|c: CommandPlan| c@)
}

} // verus!
