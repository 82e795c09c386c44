//! The commands of the tool's command line.
use vstd::prelude::*;

verus! {

/// The command line: a subcommand, or none for the interactive list.
pub struct Cli {
    pub command: Option<Commands>,
}

/// The subcommands.
pub enum Commands {
    /// Convert the repository to the worktree layout.
    Init,
    /// Print the shell integration snippet.
    ShellInit,
    /// Manage post-creation hooks.
    Hooks(HooksArgs),
}

/// The arguments of the hooks subcommand.
pub struct HooksArgs {
    pub command: HooksSubcommands,
}

/// The hooks subcommands.
pub enum HooksSubcommands {
    /// Record a hook command.
    Add { command: String },
    /// Run the hooks again in the current worktree.
    Rerun,
}

/// What the tool is to do for a command line.
pub enum Task {
    Init,
    ShellInit,
    AddHook { command: String },
    RerunHooks,
    Interactive,
}

/// Dispatches a command line to its task.
pub fn run(cli: Cli) -> (r: Task)
    ensures
        match cli.command {
            None => r is Interactive,
            Some(Commands::Init) => r is Init,
            Some(Commands::ShellInit) => r is ShellInit,
            Some(Commands::Hooks(a)) => match a.command {
                HooksSubcommands::Add { command } => r == (Task::AddHook { command }),
                HooksSubcommands::Rerun => r is RerunHooks,
            },
        },
{
    match cli.command {
        Some(Commands::Init) => Task::Init,
        Some(Commands::ShellInit) => Task::ShellInit,
        Some(Commands::Hooks(a)) => match a.command {
            HooksSubcommands::Add { command } => Task::AddHook { command },
            HooksSubcommands::Rerun => Task::RerunHooks,
        },
        None => Task::Interactive,
    }
}

} // verus!
