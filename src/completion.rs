//! Shell completion scripts.

use vstd::prelude::*;
use crate::error::AetherError;
use crate::text::concat3;

verus! {

/// The message for a shell without a completion script.
pub open spec fn unsupported_shell_message(shell: Seq<char>) -> Seq<char> {
    "Unsupported shell: "@ + shell + ". Supported: bash, zsh, fish"@
}

/// The completion script for `bash`.
pub fn bash_script() -> (r: &'static str)
    ensures
        r@ == BASH@,
{
    BASH
}

/// The completion script for `zsh`.
pub fn zsh_script() -> (r: &'static str)
    ensures
        r@ == ZSH@,
{
    ZSH
}

/// The completion script for `fish`.
pub fn fish_script() -> (r: &'static str)
    ensures
        r@ == FISH@,
{
    FISH
}

/// The file name and the text of the completion script for `shell`
/// (`bash`, `zsh` or `fish`); any other shell is a configuration error.
pub fn completion_script(shell: &str) -> (r: Result<(String, String), AetherError>)
    ensures
        shell@ == "bash"@ ==> (r matches Ok((f, t)) && f@ == "ajj.bash"@ && t@ == BASH@),
        shell@ == "zsh"@ ==> (r matches Ok((f, t)) && f@ == "ajj.zsh"@ && t@ == ZSH@),
        shell@ == "fish"@ ==> (r matches Ok((f, t)) && f@ == "ajj.fish"@ && t@ == FISH@),
        (shell@ != "bash"@ && shell@ != "zsh"@ && shell@ != "fish"@) ==> (r matches Err(
            AetherError::Config(m),
        ) && m@ == unsupported_shell_message(shell@)),
{
    proof {
        reveal_strlit("bash");
        reveal_strlit("zsh");
        reveal_strlit("fish");
        assert("zsh"@.len() != "bash"@.len());
        assert("fish"@[0] != "bash"@[0]);
        assert("fish"@.len() != "zsh"@.len());
    }
    let s = String::from_str(shell);
    if s == String::from_str("bash") {
        Ok((String::from_str("ajj.bash"), String::from_str(BASH)))
    } else if s == String::from_str("zsh") {
        Ok((String::from_str("ajj.zsh"), String::from_str(ZSH)))
    } else if s == String::from_str("fish") {
        Ok((String::from_str("ajj.fish"), String::from_str(FISH)))
    } else {
        Err(AetherError::Config(concat3("Unsupported shell: ", shell, ". Supported: bash, zsh, fish")))
    }
}

/// The lines that tell how to enable the script of `shell`.
pub open spec fn instructions(shell: Seq<char>) -> Seq<Seq<char>> {
    seq!["\nTo enable completions:"@] + if shell == "bash"@ {
        seq!["  # Add to ~/.bashrc:"@, "  source ~/$(pwd)/ajj.bash"@]
    } else if shell == "zsh"@ {
        seq!["  # Add to ~/.zshrc:"@, "  fpath=(~/$(pwd) $fpath)"@, "  compinit"@]
    } else if shell == "fish"@ {
        seq![
            "  # Add to ~/.config/fish/completions/ajj.fish"@,
            "  cp ~/$(pwd)/ajj.fish ~/.config/fish/completions/"@,
        ]
    } else {
        Seq::empty()
    }
}

/// The lines that tell how to enable the script of `shell`.
pub fn completion_instructions(shell: &str) -> (r: Vec<String>)
    ensures
        r@.map_values(|l: String| l@) == instructions(shell@),
{
    let s = String::from_str(shell);
    let mut lines: Vec<String> = Vec::new();
    lines.push(String::from_str("\nTo enable completions:"));
    if s == String::from_str("bash") {
        lines.push(String::from_str("  # Add to ~/.bashrc:"));
        lines.push(String::from_str("  source ~/$(pwd)/ajj.bash"));
    } else if s == String::from_str("zsh") {
        lines.push(String::from_str("  # Add to ~/.zshrc:"));
        lines.push(String::from_str("  fpath=(~/$(pwd) $fpath)"));
        lines.push(String::from_str("  compinit"));
    } else if s == String::from_str("fish") {
        lines.push(String::from_str("  # Add to ~/.config/fish/completions/ajj.fish"));
        lines.push(String::from_str("  cp ~/$(pwd)/ajj.fish ~/.config/fish/completions/"));
    }
    assert(lines@.map_values(|l: String| l@) =~= instructions(shell@));
    lines
}

pub const BASH: &'static str = r#"_ajj_completion() {
    local cur prev words cword
    _init_completion || return

    case "${prev}" in
        -c|--config)
            _filedir
            return
            ;;
        -o|--output)
            COMPREPLY=($(compgen -W "human json" -- "${cur}"))
            return
            ;;
        workspace)
            COMPREPLY=($(compgen -W "add forget" -- "${cur}"))
            return
            ;;
        logs|restart|stop|start|exec)
            # Suggest service names from config
            COMPREPLY=($(compgen -W "postgres redis" -- "${cur}"))
            return
            ;;
        cleanup)
            COMPREPLY=($(compgen -W "--force" -- "${cur}"))
            return
            ;;
    esac

    if [[ ${cword} -eq 1 ]]; then
        COMPREPLY=($(compgen -W "workspace run status list cleanup logs restart stop start exec --help" -- "${cur}"))
    fi
}

complete -F _ajj_completion ajj
"#;

pub const ZSH: &'static str = r#"#compdef ajj

_ajj() {
    local -a commands subcommands

    commands=(
        'workspace:Workspace management'
        'run:Run command with workspace environment'
        'status:Show workspace status'
        'list:List all workspaces'
        'cleanup:Cleanup orphaned containers'
        'logs:Show logs from a service'
        'restart:Restart a service'
        'stop:Stop a service'
        'start:Start a service'
        'exec:Execute a command in a service container'
    )

    case $words[2] in
        workspace)
            subcommands=('add:Create new workspace' 'forget:Remove workspace')
            _describe 'command' subcommands
            ;;
        logs|restart|stop|start|exec)
            _services=('postgres' 'redis')
            _describe 'services' _services
            ;;
        *)
            _describe 'command' commands
            ;;
    esac
}

_ajj "$@"
"#;

pub const FISH: &'static str = r#"complete -c ajj -f

complete -c ajj -n __fish_use_subcommand -a workspace -d 'Workspace management'
complete -c ajj -n __fish_use_subcommand -a run -d 'Run command with workspace environment'
complete -c ajj -n __fish_use_subcommand -a status -d 'Show workspace status'
complete -c ajj -n __fish_use_subcommand -a list -d 'List all workspaces'
complete -c ajj -n __fish_use_subcommand -a cleanup -d 'Cleanup orphaned containers'
complete -c ajj -n __fish_use_subcommand -a logs -d 'Show logs from a service'
complete -c ajj -n __fish_use_subcommand -a restart -d 'Restart a service'
complete -c ajj -n __fish_use_subcommand -a stop -d 'Stop a service'
complete -c ajj -n __fish_use_subcommand -a start -d 'Start a service'
complete -c ajj -n __fish_use_subcommand -a exec -d 'Execute a command in a service container'

complete -c ajj -n '__fish_seen_subcommand_from workspace' -a add forget
complete -c ajj -n '__fish_seen_subcommand_from logs restart stop start exec' -a 'postgres redis'
complete -c ajj -n '__fish_seen_subcommand_from cleanup' -l force
complete -c ajj -s o -l output -x -a 'human json'
complete -c ajj -s c -l config -r
"#;

} // verus!
