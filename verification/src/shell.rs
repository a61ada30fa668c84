//! Shell integration: which shell is in use, which start-up file it reads,
//! the `sac` shell function that each shell gets, and how an existing
//! start-up file is brought up to date.
use vstd::prelude::*;
use crate::text::{
    chars_of, find_infix, has_infix, occurs_at, replace_all, replaced, string_of,
    lemma_infix_of_suffix, lemma_replace_absent,
};

verus! {

/// The supported shells.
#[derive(Debug, Clone, Copy, PartialEq, Eq, Structural)]
pub enum ShellType {
    Zsh,
    Bash,
    Fish,
}

/// The shell named by a `$SHELL` value: zsh when it mentions "zsh", fish
/// when it mentions "fish", bash otherwise.
pub open spec fn shell_named(shell_var: Seq<char>) -> ShellType {
    if has_infix(shell_var, "zsh"@) {
        ShellType::Zsh
    } else if has_infix(shell_var, "fish"@) {
        ShellType::Fish
    } else {
        ShellType::Bash
    }
}

/// The shell named by the value of `$SHELL` (empty when it is not set).
pub fn shell_from_var(shell_var: &str) -> (r: ShellType)
    ensures
        r == shell_named(shell_var@),
{
    let chars = chars_of(shell_var);
    let zsh = chars_of("zsh");
    let fish = chars_of("fish");
    if find_infix(chars.as_slice(), zsh.as_slice()) {
        ShellType::Zsh
    } else if find_infix(chars.as_slice(), fish.as_slice()) {
        ShellType::Fish
    } else {
        ShellType::Bash
    }
}

/// The path components, below the home directory, of the shell's start-up
/// file.
pub open spec fn rc_components(shell: ShellType) -> Seq<Seq<char>> {
    match shell {
        ShellType::Zsh => seq![".zshrc"@],
        ShellType::Bash => seq![".bashrc"@],
        ShellType::Fish => seq![".config"@, "fish"@, "config.fish"@],
    }
}

/// The path components, below the home directory, of the shell's start-up
/// file.
pub fn rc_relative_path(shell: &ShellType) -> (r: Vec<&'static str>)
    ensures
        r@.map_values(|c: &str| c@) == rc_components(*shell),
{
    let mut r: Vec<&'static str> = Vec::new();
    match shell {
        ShellType::Zsh => {
            r.push(".zshrc");
        },
        ShellType::Bash => {
            r.push(".bashrc");
        },
        ShellType::Fish => {
            r.push(".config");
            r.push("fish");
            r.push("config.fish");
        },
    }
    assert(r@.map_values(|c: &str| c@) =~= rc_components(*shell));
    r
}

/// The zsh integration: a `sac` function that runs the browser with its
/// output in a temporary file and puts the chosen command in the line editor.
pub const ZSH_INTEGRATION: &'static str = "\n# sac shell integration — do not edit this block\nfunction sac() {\n  if [[ $# -eq 0 ]]; then\n    local tmp result\n    tmp=$(mktemp) || return 1\n    command sac >\"$tmp\" 2>/dev/tty\n    { IFS='' read -r -d '' result; } < \"$tmp\"; result=${result%$'\\n'}\n    rm -f -- \"$tmp\"\n    [[ -z \"$result\" ]] && return\n    if zle; then\n      LBUFFER=$result\n      RBUFFER=''\n      zle reset-prompt\n    else\n      print -rz -- \"$result\"\n    fi\n  else\n    command sac \"$@\"\n  fi\n}\n# end sac shell integration\n";

/// The bash integration: like the zsh one, filling `READLINE_LINE`.
pub const BASH_INTEGRATION: &'static str = "\n# sac shell integration — do not edit this block\nfunction sac() {\n  if [[ $# -eq 0 ]]; then\n    local tmp result\n    tmp=$(mktemp) || return 1\n    command sac >\"$tmp\" 2>/dev/tty\n    { IFS='' read -r -d '' result; } < \"$tmp\"; result=${result%$'\\n'}\n    rm -f -- \"$tmp\"\n    [[ -z \"$result\" ]] && return\n    READLINE_LINE=$result\n    READLINE_POINT=${#READLINE_LINE}\n  else\n    command sac \"$@\"\n  fi\n}\n# end sac shell integration\n";

/// The fish integration: fills the command line with `commandline`.
pub const FISH_INTEGRATION: &'static str = "\n# sac shell integration — do not edit this block\nfunction sac\n  if test (count $argv) -eq 0\n    set tmp (mktemp); or return 1\n    command sac >$tmp 2>/dev/tty\n    set result (cat $tmp)\n    rm -f -- $tmp\n    test -z \"$result\"; and return\n    commandline -- $result\n    commandline -f repaint\n  else\n    command sac $argv\n  end\nend\n# end sac shell integration\n";

/// The zsh/bash integration of the first releases.
pub const OLD_ZSH_BASH_INTEGRATION: &'static str = "\n# sac shell integration\nfunction sac() { local result; result=$(command sac \"$@\" 2>/dev/tty); if [[ -n \"$result\" ]]; then BUFFER=\"$result\"; zle redisplay; fi }\n";

/// The zsh integration of release 0.1.5 (which loses backslashes).
pub const OLD_ZSH_V015_INTEGRATION: &'static str = "\n# sac shell integration — do not edit this block\nfunction sac() {\n  emulate -L zsh\n  if [[ $# -eq 0 ]]; then\n    local tmp\n    tmp=$(mktemp) || return 1\n    command sac >\"$tmp\" 2>/dev/tty\n    local result\n    result=$(<\"$tmp\")\n    rm -f -- \"$tmp\"\n    [[ -z \"$result\" ]] && return\n    if zle; then\n      BUFFER=$result\n      CURSOR=${#BUFFER}\n      zle redisplay\n    else\n      print -z -- \"$result\"\n    fi\n  else\n    command sac \"$@\"\n  fi\n}\n# end sac shell integration\n";

/// The fish integration of the first releases.
pub const OLD_FISH_INTEGRATION: &'static str = "\n# sac shell integration\nfunction sac\n    set result (command sac $argv 2>/dev/tty)\n    if test -n \"$result\"\n        commandline \"$result\"\n    end\nend\n";

/// Marks the end of the current integration block.
pub const END_MARKER: &'static str = "# end sac shell integration";

/// Found only in the current zsh and bash integrations.
pub const READ_MARKER: &'static str = "read -r -d ''";

/// Found in every version of the integration.
pub const INTEGRATION_MARKER: &'static str = "sac shell integration";

/// The current integration for the shell.
pub open spec fn snippet_of(shell: ShellType) -> Seq<char> {
    match shell {
        ShellType::Zsh => ZSH_INTEGRATION@,
        ShellType::Bash => BASH_INTEGRATION@,
        ShellType::Fish => FISH_INTEGRATION@,
    }
}

/// The current integration for the shell.
pub fn integration_snippet(shell: &ShellType) -> (r: &'static str)
    ensures
        r@ == snippet_of(*shell),
{
    match shell {
        ShellType::Zsh => ZSH_INTEGRATION,
        ShellType::Bash => BASH_INTEGRATION,
        ShellType::Fish => FISH_INTEGRATION,
    }
}

/// The text with every verbatim copy of an old integration removed.
pub open spec fn stripped(s: Seq<char>) -> Seq<char> {
    replaced(
        replaced(replaced(s, OLD_ZSH_BASH_INTEGRATION@, Seq::empty()), OLD_ZSH_V015_INTEGRATION@, Seq::empty()),
        OLD_FISH_INTEGRATION@,
        Seq::empty(),
    )
}

/// Removes every verbatim copy of an old integration from `content`;
/// anything else (such as an old block the user edited) stays.
pub fn strip_old_integration(content: &str) -> (r: String)
    ensures
        r@ == stripped(content@),
{
    let s0 = chars_of(content);
    let none: Vec<char> = Vec::new();
    let p1 = chars_of(OLD_ZSH_BASH_INTEGRATION);
    let p2 = chars_of(OLD_ZSH_V015_INTEGRATION);
    let p3 = chars_of(OLD_FISH_INTEGRATION);
    let s1 = replace_all(s0.as_slice(), p1.as_slice(), none.as_slice());
    let s2 = replace_all(s1.as_slice(), p2.as_slice(), none.as_slice());
    let s3 = replace_all(s2.as_slice(), p3.as_slice(), none.as_slice());
    assert(none@ =~= Seq::<char>::empty());
    string_of(s3.as_slice())
}

/// Removing old integrations leaves a text that holds none of them as it
/// is.
pub proof fn lemma_strip_keeps_clean_text(s: Seq<char>)
    requires
        !has_infix(s, OLD_ZSH_BASH_INTEGRATION@),
        !has_infix(s, OLD_ZSH_V015_INTEGRATION@),
        !has_infix(s, OLD_FISH_INTEGRATION@),
    ensures
        stripped(s) == s,
{
    lemma_replace_absent(s, OLD_ZSH_BASH_INTEGRATION@, Seq::empty(), 0);
    assert(s.subrange(0, s.len() as int) =~= s);
    lemma_replace_absent(s, OLD_ZSH_V015_INTEGRATION@, Seq::empty(), 0);
    lemma_replace_absent(s, OLD_FISH_INTEGRATION@, Seq::empty(), 0);
}

/// The current zsh integration holds none of the old ones.
proof fn lemma_zsh_clean()
    ensures
        !has_infix(ZSH_INTEGRATION@, OLD_ZSH_BASH_INTEGRATION@),
        !has_infix(ZSH_INTEGRATION@, OLD_ZSH_V015_INTEGRATION@),
        !has_infix(ZSH_INTEGRATION@, OLD_FISH_INTEGRATION@),
{
    reveal_strlit("\n# sac shell integration — do not edit this block\nfunction sac() {\n  if [[ $# -eq 0 ]]; then\n    local tmp result\n    tmp=$(mktemp) || return 1\n    command sac >\"$tmp\" 2>/dev/tty\n    { IFS='' read -r -d '' result; } < \"$tmp\"; result=${result%$'\\n'}\n    rm -f -- \"$tmp\"\n    [[ -z \"$result\" ]] && return\n    if zle; then\n      LBUFFER=$result\n      RBUFFER=''\n      zle reset-prompt\n    else\n      print -rz -- \"$result\"\n    fi\n  else\n    command sac \"$@\"\n  fi\n}\n# end sac shell integration\n");
    reveal_strlit("\n# sac shell integration\nfunction sac() { local result; result=$(command sac \"$@\" 2>/dev/tty); if [[ -n \"$result\" ]]; then BUFFER=\"$result\"; zle redisplay; fi }\n");
    reveal_strlit("\n# sac shell integration — do not edit this block\nfunction sac() {\n  emulate -L zsh\n  if [[ $# -eq 0 ]]; then\n    local tmp\n    tmp=$(mktemp) || return 1\n    command sac >\"$tmp\" 2>/dev/tty\n    local result\n    result=$(<\"$tmp\")\n    rm -f -- \"$tmp\"\n    [[ -z \"$result\" ]] && return\n    if zle; then\n      BUFFER=$result\n      CURSOR=${#BUFFER}\n      zle redisplay\n    else\n      print -z -- \"$result\"\n    fi\n  else\n    command sac \"$@\"\n  fi\n}\n# end sac shell integration\n");
    reveal_strlit("\n# sac shell integration\nfunction sac\n    set result (command sac $argv 2>/dev/tty)\n    if test -n \"$result\"\n        commandline \"$result\"\n    end\nend\n");
    assert forall|i: int| !occurs_at(ZSH_INTEGRATION@, OLD_ZSH_BASH_INTEGRATION@, i) by {
        if occurs_at(ZSH_INTEGRATION@, OLD_ZSH_BASH_INTEGRATION@, i) {
            let h = ZSH_INTEGRATION@;
            let n = OLD_ZSH_BASH_INTEGRATION@;
                assert(h.subrange(i, i + n.len())[1] == n[1]);
                assert(h.subrange(i, i + n.len())[24] == n[24]);
        }
    }
    assert forall|i: int| !occurs_at(ZSH_INTEGRATION@, OLD_ZSH_V015_INTEGRATION@, i) by {
        if occurs_at(ZSH_INTEGRATION@, OLD_ZSH_V015_INTEGRATION@, i) {
            let h = ZSH_INTEGRATION@;
            let n = OLD_ZSH_V015_INTEGRATION@;
                assert(h.subrange(i, i + n.len())[1] == n[1]);
                assert(h.subrange(i, i + n.len())[69] == n[69]);
        }
    }
    assert forall|i: int| !occurs_at(ZSH_INTEGRATION@, OLD_FISH_INTEGRATION@, i) by {
        if occurs_at(ZSH_INTEGRATION@, OLD_FISH_INTEGRATION@, i) {
            let h = ZSH_INTEGRATION@;
            let n = OLD_FISH_INTEGRATION@;
                assert(h.subrange(i, i + n.len())[1] == n[1]);
                assert(h.subrange(i, i + n.len())[24] == n[24]);
        }
    }
}

/// The current bash integration holds none of the old ones.
proof fn lemma_bash_clean()
    ensures
        !has_infix(BASH_INTEGRATION@, OLD_ZSH_BASH_INTEGRATION@),
        !has_infix(BASH_INTEGRATION@, OLD_ZSH_V015_INTEGRATION@),
        !has_infix(BASH_INTEGRATION@, OLD_FISH_INTEGRATION@),
{
    reveal_strlit("\n# sac shell integration — do not edit this block\nfunction sac() {\n  if [[ $# -eq 0 ]]; then\n    local tmp result\n    tmp=$(mktemp) || return 1\n    command sac >\"$tmp\" 2>/dev/tty\n    { IFS='' read -r -d '' result; } < \"$tmp\"; result=${result%$'\\n'}\n    rm -f -- \"$tmp\"\n    [[ -z \"$result\" ]] && return\n    READLINE_LINE=$result\n    READLINE_POINT=${#READLINE_LINE}\n  else\n    command sac \"$@\"\n  fi\n}\n# end sac shell integration\n");
    reveal_strlit("\n# sac shell integration\nfunction sac() { local result; result=$(command sac \"$@\" 2>/dev/tty); if [[ -n \"$result\" ]]; then BUFFER=\"$result\"; zle redisplay; fi }\n");
    reveal_strlit("\n# sac shell integration — do not edit this block\nfunction sac() {\n  emulate -L zsh\n  if [[ $# -eq 0 ]]; then\n    local tmp\n    tmp=$(mktemp) || return 1\n    command sac >\"$tmp\" 2>/dev/tty\n    local result\n    result=$(<\"$tmp\")\n    rm -f -- \"$tmp\"\n    [[ -z \"$result\" ]] && return\n    if zle; then\n      BUFFER=$result\n      CURSOR=${#BUFFER}\n      zle redisplay\n    else\n      print -z -- \"$result\"\n    fi\n  else\n    command sac \"$@\"\n  fi\n}\n# end sac shell integration\n");
    reveal_strlit("\n# sac shell integration\nfunction sac\n    set result (command sac $argv 2>/dev/tty)\n    if test -n \"$result\"\n        commandline \"$result\"\n    end\nend\n");
    assert forall|i: int| !occurs_at(BASH_INTEGRATION@, OLD_ZSH_BASH_INTEGRATION@, i) by {
        if occurs_at(BASH_INTEGRATION@, OLD_ZSH_BASH_INTEGRATION@, i) {
            let h = BASH_INTEGRATION@;
            let n = OLD_ZSH_BASH_INTEGRATION@;
                assert(h.subrange(i, i + n.len())[1] == n[1]);
                assert(h.subrange(i, i + n.len())[24] == n[24]);
        }
    }
    assert(!has_infix(BASH_INTEGRATION@, OLD_ZSH_V015_INTEGRATION@)) by {
        if has_infix(BASH_INTEGRATION@, OLD_ZSH_V015_INTEGRATION@) {
            let i = choose|i: int| occurs_at(BASH_INTEGRATION@, OLD_ZSH_V015_INTEGRATION@, i);
        }
    }
    assert forall|i: int| !occurs_at(BASH_INTEGRATION@, OLD_FISH_INTEGRATION@, i) by {
        if occurs_at(BASH_INTEGRATION@, OLD_FISH_INTEGRATION@, i) {
            let h = BASH_INTEGRATION@;
            let n = OLD_FISH_INTEGRATION@;
                assert(h.subrange(i, i + n.len())[1] == n[1]);
                assert(h.subrange(i, i + n.len())[24] == n[24]);
        }
    }
}

/// The current fish integration holds none of the old ones.
proof fn lemma_fish_clean()
    ensures
        !has_infix(FISH_INTEGRATION@, OLD_ZSH_BASH_INTEGRATION@),
        !has_infix(FISH_INTEGRATION@, OLD_ZSH_V015_INTEGRATION@),
        !has_infix(FISH_INTEGRATION@, OLD_FISH_INTEGRATION@),
{
    reveal_strlit("\n# sac shell integration — do not edit this block\nfunction sac\n  if test (count $argv) -eq 0\n    set tmp (mktemp); or return 1\n    command sac >$tmp 2>/dev/tty\n    set result (cat $tmp)\n    rm -f -- $tmp\n    test -z \"$result\"; and return\n    commandline -- $result\n    commandline -f repaint\n  else\n    command sac $argv\n  end\nend\n# end sac shell integration\n");
    reveal_strlit("\n# sac shell integration\nfunction sac() { local result; result=$(command sac \"$@\" 2>/dev/tty); if [[ -n \"$result\" ]]; then BUFFER=\"$result\"; zle redisplay; fi }\n");
    reveal_strlit("\n# sac shell integration — do not edit this block\nfunction sac() {\n  emulate -L zsh\n  if [[ $# -eq 0 ]]; then\n    local tmp\n    tmp=$(mktemp) || return 1\n    command sac >\"$tmp\" 2>/dev/tty\n    local result\n    result=$(<\"$tmp\")\n    rm -f -- \"$tmp\"\n    [[ -z \"$result\" ]] && return\n    if zle; then\n      BUFFER=$result\n      CURSOR=${#BUFFER}\n      zle redisplay\n    else\n      print -z -- \"$result\"\n    fi\n  else\n    command sac \"$@\"\n  fi\n}\n# end sac shell integration\n");
    reveal_strlit("\n# sac shell integration\nfunction sac\n    set result (command sac $argv 2>/dev/tty)\n    if test -n \"$result\"\n        commandline \"$result\"\n    end\nend\n");
    assert forall|i: int| !occurs_at(FISH_INTEGRATION@, OLD_ZSH_BASH_INTEGRATION@, i) by {
        if occurs_at(FISH_INTEGRATION@, OLD_ZSH_BASH_INTEGRATION@, i) {
            let h = FISH_INTEGRATION@;
            let n = OLD_ZSH_BASH_INTEGRATION@;
                assert(h.subrange(i, i + n.len())[1] == n[1]);
                assert(h.subrange(i, i + n.len())[24] == n[24]);
        }
    }
    assert(!has_infix(FISH_INTEGRATION@, OLD_ZSH_V015_INTEGRATION@)) by {
        if has_infix(FISH_INTEGRATION@, OLD_ZSH_V015_INTEGRATION@) {
            let i = choose|i: int| occurs_at(FISH_INTEGRATION@, OLD_ZSH_V015_INTEGRATION@, i);
        }
    }
    assert forall|i: int| !occurs_at(FISH_INTEGRATION@, OLD_FISH_INTEGRATION@, i) by {
        if occurs_at(FISH_INTEGRATION@, OLD_FISH_INTEGRATION@, i) {
            let h = FISH_INTEGRATION@;
            let n = OLD_FISH_INTEGRATION@;
                assert(h.subrange(i, i + n.len())[1] == n[1]);
                assert(h.subrange(i, i + n.len())[24] == n[24]);
        }
    }
}

/// Removing old integrations leaves every current integration as it is.
pub proof fn lemma_strip_keeps_current(shell: ShellType)
    ensures
        stripped(snippet_of(shell)) == snippet_of(shell),
{
    match shell {
        ShellType::Zsh => lemma_zsh_clean(),
        ShellType::Bash => lemma_bash_clean(),
        ShellType::Fish => lemma_fish_clean(),
    }
    lemma_strip_keeps_clean_text(snippet_of(shell));
}

/// The text counts as holding the current integration of `shell`: it holds
/// the end marker and either the read command of the current zsh and bash
/// integrations or the shell's current integration itself.
pub open spec fn installed(s: Seq<char>, shell: ShellType) -> bool {
    &&& has_infix(s, END_MARKER@)
    &&& has_infix(s, READ_MARKER@) || has_infix(s, snippet_of(shell))
}

/// What installing the integration does to a start-up file.
#[derive(Debug)]
pub enum IntegrationPlan {
    /// The current integration is there: nothing to write.
    AlreadyInstalled,
    /// An old integration is there but not verbatim: the user must remove it.
    ManualCleanup,
    /// Old integrations removed and the current one appended: the new text.
    Upgrade(String),
    /// The current integration appended: the new text.
    Append(String),
}

/// Decides how to install the shell's integration into a start-up file
/// holding `existing`: nothing when the current integration is there; an
/// upgrade when old integrations are there verbatim (they are removed and
/// the current one is appended); a request for manual cleanup when an old
/// integration is there but cannot be removed verbatim; else the current
/// integration is appended.
pub fn plan_integration(existing: &str, shell: &ShellType) -> (r: IntegrationPlan)
    ensures
        installed(existing@, *shell) ==> r is AlreadyInstalled,
        !installed(existing@, *shell) && has_infix(existing@, INTEGRATION_MARKER@) && has_infix(
            stripped(existing@),
            INTEGRATION_MARKER@,
        ) ==> r is ManualCleanup,
        !installed(existing@, *shell) && has_infix(existing@, INTEGRATION_MARKER@) && !has_infix(
            stripped(existing@),
            INTEGRATION_MARKER@,
        ) ==> (r matches IntegrationPlan::Upgrade(c) && c@ == stripped(existing@) + snippet_of(
            *shell,
        )),
        !installed(existing@, *shell) && !has_infix(existing@, INTEGRATION_MARKER@) ==> (r matches IntegrationPlan::Append(c) && c@
            == existing@ + snippet_of(*shell)),
{
    let text = chars_of(existing);
    let end = chars_of(END_MARKER);
    let read = chars_of(READ_MARKER);
    let marker = chars_of(INTEGRATION_MARKER);
    let current = chars_of(integration_snippet(shell));
    if find_infix(text.as_slice(), end.as_slice()) && (find_infix(text.as_slice(), read.as_slice())
        || find_infix(text.as_slice(), current.as_slice())) {
        return IntegrationPlan::AlreadyInstalled;
    }
    if find_infix(text.as_slice(), marker.as_slice()) {
        let mut cleaned = strip_old_integration(existing);
        let cleaned_chars = chars_of(cleaned.as_str());
        if find_infix(cleaned_chars.as_slice(), marker.as_slice()) {
            return IntegrationPlan::ManualCleanup;
        }
        cleaned.append(integration_snippet(shell));
        IntegrationPlan::Upgrade(cleaned)
    } else {
        let mut content = String::from_str(existing);
        content.append(integration_snippet(shell));
        IntegrationPlan::Append(content)
    }
}

/// Installing the integration: the shell is told by the `SHELL` variable
/// `shell_var`, and `existing` is the text of that shell's start-up file
/// (empty when there is none). Returns the shell and what to do with the
/// file (see `plan_integration`); the caller reads and writes the file.
pub fn install(shell_var: &str, existing: &str) -> (r: (ShellType, IntegrationPlan))
    ensures
        r.0 == shell_named(shell_var@),
        installed(existing@, r.0) ==> r.1 is AlreadyInstalled,
        !installed(existing@, r.0) && has_infix(existing@, INTEGRATION_MARKER@) && has_infix(
            stripped(existing@),
            INTEGRATION_MARKER@,
        ) ==> r.1 is ManualCleanup,
        !installed(existing@, r.0) && has_infix(existing@, INTEGRATION_MARKER@) && !has_infix(
            stripped(existing@),
            INTEGRATION_MARKER@,
        ) ==> (r.1 matches IntegrationPlan::Upgrade(c) && c@ == stripped(existing@) + snippet_of(
            r.0,
        )),
        !installed(existing@, r.0) && !has_infix(existing@, INTEGRATION_MARKER@) ==> (r.1 matches IntegrationPlan::Append(c) && c@
            == existing@ + snippet_of(r.0)),
{
    let shell = shell_from_var(shell_var);
    let plan = plan_integration(existing, &shell);
    (shell, plan)
}

/// The zsh integration holds both markers of the current integration.
proof fn lemma_zsh_markers()
    ensures
        has_infix(ZSH_INTEGRATION@, END_MARKER@),
        has_infix(ZSH_INTEGRATION@, READ_MARKER@),
{
    reveal_strlit("\n# sac shell integration — do not edit this block\nfunction sac() {\n  if [[ $# -eq 0 ]]; then\n    local tmp result\n    tmp=$(mktemp) || return 1\n    command sac >\"$tmp\" 2>/dev/tty\n    { IFS='' read -r -d '' result; } < \"$tmp\"; result=${result%$'\\n'}\n    rm -f -- \"$tmp\"\n    [[ -z \"$result\" ]] && return\n    if zle; then\n      LBUFFER=$result\n      RBUFFER=''\n      zle reset-prompt\n    else\n      print -rz -- \"$result\"\n    fi\n  else\n    command sac \"$@\"\n  fi\n}\n# end sac shell integration\n");
    reveal_strlit("# end sac shell integration");
    reveal_strlit("read -r -d ''");
    assert(ZSH_INTEGRATION@.subrange(461, 488) =~= END_MARKER@);
    assert(occurs_at(ZSH_INTEGRATION@, END_MARKER@, 461));
    assert(ZSH_INTEGRATION@.subrange(192, 205) =~= READ_MARKER@);
    assert(occurs_at(ZSH_INTEGRATION@, READ_MARKER@, 192));
}

/// The bash integration holds both markers of the current integration.
proof fn lemma_bash_markers()
    ensures
        has_infix(BASH_INTEGRATION@, END_MARKER@),
        has_infix(BASH_INTEGRATION@, READ_MARKER@),
{
    reveal_strlit("\n# sac shell integration — do not edit this block\nfunction sac() {\n  if [[ $# -eq 0 ]]; then\n    local tmp result\n    tmp=$(mktemp) || return 1\n    command sac >\"$tmp\" 2>/dev/tty\n    { IFS='' read -r -d '' result; } < \"$tmp\"; result=${result%$'\\n'}\n    rm -f -- \"$tmp\"\n    [[ -z \"$result\" ]] && return\n    READLINE_LINE=$result\n    READLINE_POINT=${#READLINE_LINE}\n  else\n    command sac \"$@\"\n  fi\n}\n# end sac shell integration\n");
    reveal_strlit("# end sac shell integration");
    reveal_strlit("read -r -d ''");
    assert(BASH_INTEGRATION@.subrange(400, 427) =~= END_MARKER@);
    assert(occurs_at(BASH_INTEGRATION@, END_MARKER@, 400));
    assert(BASH_INTEGRATION@.subrange(192, 205) =~= READ_MARKER@);
    assert(occurs_at(BASH_INTEGRATION@, READ_MARKER@, 192));
}

/// The fish integration holds the end marker.
proof fn lemma_fish_marker()
    ensures
        has_infix(FISH_INTEGRATION@, END_MARKER@),
{
    reveal_strlit("\n# sac shell integration — do not edit this block\nfunction sac\n  if test (count $argv) -eq 0\n    set tmp (mktemp); or return 1\n    command sac >$tmp 2>/dev/tty\n    set result (cat $tmp)\n    rm -f -- $tmp\n    test -z \"$result\"; and return\n    commandline -- $result\n    commandline -f repaint\n  else\n    command sac $argv\n  end\nend\n# end sac shell integration\n");
    reveal_strlit("# end sac shell integration");
    assert(FISH_INTEGRATION@.subrange(331, 358) =~= END_MARKER@);
    assert(occurs_at(FISH_INTEGRATION@, END_MARKER@, 331));
}

/// Installing the integration is idempotent: any text that ends with the
/// shell's integration (as the text of an `Append` or `Upgrade` plan does)
/// counts as installed, so planning again yields `AlreadyInstalled`.
pub proof fn lemma_install_idempotent(prefix: Seq<char>, shell: ShellType)
    ensures
        installed(prefix + snippet_of(shell), shell),
{
    match shell {
        ShellType::Zsh => lemma_zsh_markers(),
        ShellType::Bash => lemma_bash_markers(),
        ShellType::Fish => lemma_fish_marker(),
    }
    let snip = snippet_of(shell);
    assert(snip.subrange(0, snip.len() as int) =~= snip);
    assert(occurs_at(snip, snip, 0));
    lemma_infix_of_suffix(prefix, snip, END_MARKER@);
    lemma_infix_of_suffix(prefix, snip, snip);
}

} // verus!
