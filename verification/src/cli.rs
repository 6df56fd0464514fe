use vstd::prelude::*;

verus! {

/// The subcommands.
#[allow(inconsistent_fields)]
#[derive(Debug, PartialEq, Eq)]
pub enum Commands {
    /// Save the current project context
    Save { name: String },
    /// Switch to a saved project context
    Switch { name: String, force: bool },
    /// List all saved contexts
    List,
    /// Show status of the current context
    Status,
    /// Remove a saved context
    Remove { name: String },
    /// Initialize a .pylot.toml config in the current directory
    Init,
    /// Stop all services for a context
    Stop { name: Option<String> },
    /// Show the shell hook script to add to your shell profile
    ShellInit { shell: String },
}

/// The command line: a subcommand, or none for the dashboard.
pub struct Cli {
    pub command: Option<Commands>,
}

/// The work that a command line asks for.
#[derive(Debug, PartialEq, Eq)]
pub enum Task {
    /// Save the current directory under this name.
    Save(String),
    /// Switch to the named context; the flag skips the check for uncommitted changes.
    Switch(String, bool),
    /// List the saved contexts.
    List,
    /// Show the status of the current directory's context.
    Status,
    /// Remove the named context.
    Remove(String),
    /// Write a `.pylot.toml` template.
    Init,
    /// Stop the services of the named context, or of the current directory's.
    Stop(Option<String>),
    /// Print the hook script for this shell.
    ShellInit(String),
    /// Open the interactive dashboard.
    Dashboard,
}

/// The work that a command line asks for: its subcommand's, or the
/// dashboard where it names none.
pub open spec fn task_of(cli: Cli) -> Task {
    match cli.command {
        Some(Commands::Save { name }) => Task::Save(name),
        Some(Commands::Switch { name, force }) => Task::Switch(name, force),
        Some(Commands::List) => Task::List,
        Some(Commands::Status) => Task::Status,
        Some(Commands::Remove { name }) => Task::Remove(name),
        Some(Commands::Init) => Task::Init,
        Some(Commands::Stop { name }) => Task::Stop(name),
        Some(Commands::ShellInit { shell }) => Task::ShellInit(shell),
        None => Task::Dashboard,
    }
}

/// Decide what a command line runs.
pub fn run(cli: Cli) -> (t: Task)
    ensures
        t == task_of(cli),
{
    match cli.command {
        Some(Commands::Save { name }) => Task::Save(name),
        Some(Commands::Switch { name, force }) => Task::Switch(name, force),
        Some(Commands::List) => Task::List,
        Some(Commands::Status) => Task::Status,
        Some(Commands::Remove { name }) => Task::Remove(name),
        Some(Commands::Init) => Task::Init,
        Some(Commands::Stop { name }) => Task::Stop(name),
        Some(Commands::ShellInit { shell }) => Task::ShellInit(shell),
        None => Task::Dashboard,
    }
}

/// The first line of the hook for bash and zsh, before the shell's name.
pub const BASH_HOOK_HEAD: &'static str = "# Add this to your ~/.";

/// The hook for bash and zsh after the shell's name.
pub const BASH_HOOK_BODY: &'static str = r#"rc
pylot() {
    if [ "$1" = "switch" ] && [ -n "$2" ]; then
        local output
        output=$(command pylot switch "${@:2}" 2>&1)
        local exit_code=$?

        if [ $exit_code -ne 0 ]; then
            echo "$output" >&2
            return $exit_code
        fi

        echo "$output" | sed -n '/^__PYLOT_COMMANDS__$/q;p' >&2

        local commands
        commands=$(echo "$output" | sed -n '/^__PYLOT_COMMANDS__$/,$ { /^__PYLOT_COMMANDS__$/d; p; }')
        if [ -n "$commands" ]; then
            eval "$commands"
        fi
    else
        command pylot "$@"
    fi
}"#;

/// The hook for fish.
pub const FISH_HOOK: &'static str = r#"# Add this to your ~/.config/fish/config.fish
function pylot
    if test "$argv[1]" = "switch" -a -n "$argv[2]"
        set -l output (command pylot switch $argv[2..] 2>&1)
        set -l exit_code $status

        if test $exit_code -ne 0
            echo $output >&2
            return $exit_code
        end

        set -l found 0
        for line in $output
            if test "$line" = "__PYLOT_COMMANDS__"
                set found 1
                continue
            end
            if test $found -eq 1
                eval $line
            else
                echo $line >&2
            end
        end
    else
        command pylot $argv
    end
end"#;

/// The shell hook script for `shell`, or the message for a shell without one.
pub open spec fn shell_hook_spec(shell: Seq<char>) -> Result<Seq<char>, Seq<char>> {
    if shell == "bash"@ || shell == "zsh"@ {
        Ok(BASH_HOOK_HEAD@ + shell + BASH_HOOK_BODY@)
    } else if shell == "fish"@ {
        Ok(FISH_HOOK@)
    } else {
        Err("Unsupported shell: "@ + shell + ". Supported: bash, zsh, fish"@)
    }
}

/// The shell hook script to add to the profile of `shell`, or the message
/// for a shell that has none.
pub fn cmd_shell_init(shell: &str) -> (r: Result<String, String>)
    ensures
        match shell_hook_spec(shell@) {
            Ok(t) => r matches Ok(x) && x@ == t,
            Err(m) => r matches Err(x) && x@ == m,
        },
{
    let s = shell.to_owned();
    if s == "bash".to_owned() || s == "zsh".to_owned() {
        let mut t = BASH_HOOK_HEAD.to_owned();
        t.append(shell);
        t.append(BASH_HOOK_BODY);
        Ok(t)
    } else if s == "fish".to_owned() {
        Ok(FISH_HOOK.to_owned())
    } else {
        let mut m = "Unsupported shell: ".to_owned();
        m.append(shell);
        m.append(". Supported: bash, zsh, fish");
        Err(m)
    }
}

} // verus!
