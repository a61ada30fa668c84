use sac::shell::{
    install, integration_snippet, plan_integration, rc_relative_path, shell_from_var,
    strip_old_integration, IntegrationPlan, ShellType, OLD_FISH_INTEGRATION,
    OLD_ZSH_BASH_INTEGRATION, OLD_ZSH_V015_INTEGRATION,
};

#[test]
fn test_shell_from_var() {
    assert_eq!(shell_from_var("/bin/zsh"), ShellType::Zsh);
    assert_eq!(shell_from_var("/usr/local/bin/fish"), ShellType::Fish);
    assert_eq!(shell_from_var("/bin/bash"), ShellType::Bash);
    assert_eq!(shell_from_var(""), ShellType::Bash);
}

#[test]
fn test_rc_relative_path() {
    assert_eq!(rc_relative_path(&ShellType::Zsh), vec![".zshrc"]);
    assert_eq!(rc_relative_path(&ShellType::Bash), vec![".bashrc"]);
    assert_eq!(rc_relative_path(&ShellType::Fish), vec![".config", "fish", "config.fish"]);
}

#[test]
fn test_plan_appends_to_fresh_file() {
    let existing = "export PATH=$PATH:/opt/bin\n";
    match plan_integration(existing, &ShellType::Zsh) {
        IntegrationPlan::Append(c) => {
            assert_eq!(c, format!("{}{}", existing, integration_snippet(&ShellType::Zsh)))
        }
        other => panic!("unexpected plan {:?}", other),
    }
}

#[test]
fn test_install_twice_is_idempotent_for_every_shell() {
    for shell in [ShellType::Zsh, ShellType::Bash, ShellType::Fish] {
        let first = match plan_integration("alias ll='ls -l'\n", &shell) {
            IntegrationPlan::Append(c) => c,
            other => panic!("unexpected plan {:?}", other),
        };
        assert!(matches!(plan_integration(&first, &shell), IntegrationPlan::AlreadyInstalled));
    }
}

#[test]
fn test_fish_file_with_current_integration_is_installed() {
    let existing = integration_snippet(&ShellType::Fish);
    assert!(matches!(plan_integration(existing, &ShellType::Fish), IntegrationPlan::AlreadyInstalled));
    let (shell, plan) = install("/usr/bin/fish", existing);
    assert_eq!(shell, ShellType::Fish);
    assert!(matches!(plan, IntegrationPlan::AlreadyInstalled));
}

#[test]
fn test_strip_leaves_current_integrations_alone() {
    for shell in [ShellType::Zsh, ShellType::Bash, ShellType::Fish] {
        let text = integration_snippet(&shell);
        assert_eq!(strip_old_integration(text), text);
    }
    assert_eq!(strip_old_integration("alias g=git\n"), "alias g=git\n");
}

#[test]
fn test_old_integrations_are_upgraded() {
    for old in [OLD_ZSH_BASH_INTEGRATION, OLD_ZSH_V015_INTEGRATION] {
        let existing = format!("alias g=git\n{}", old);
        match plan_integration(&existing, &ShellType::Zsh) {
            IntegrationPlan::Upgrade(c) => {
                assert_eq!(c, format!("alias g=git\n{}", integration_snippet(&ShellType::Zsh)))
            }
            other => panic!("unexpected plan {:?}", other),
        }
    }
    let existing = format!("set -x EDITOR vim\n{}", OLD_FISH_INTEGRATION);
    match plan_integration(&existing, &ShellType::Fish) {
        IntegrationPlan::Upgrade(c) => {
            assert_eq!(c, format!("set -x EDITOR vim\n{}", integration_snippet(&ShellType::Fish)))
        }
        other => panic!("unexpected plan {:?}", other),
    }
}

#[test]
fn test_edited_old_integration_needs_manual_cleanup() {
    let existing = "\n# sac shell integration\nfunction sac() { echo edited }\n";
    assert!(matches!(plan_integration(existing, &ShellType::Bash), IntegrationPlan::ManualCleanup));
}

#[test]
fn test_strip_old_integration() {
    let text = format!("a\n{}b\n{}c", OLD_ZSH_BASH_INTEGRATION, OLD_FISH_INTEGRATION);
    assert_eq!(strip_old_integration(&text), "a\nb\nc");
}

#[test]
fn test_install_picks_shell_and_plan() {
    let (shell, plan) = install("/usr/bin/bash", "");
    assert_eq!(shell, ShellType::Bash);
    match plan {
        IntegrationPlan::Append(c) => assert_eq!(c, integration_snippet(&ShellType::Bash)),
        other => panic!("unexpected plan {:?}", other),
    }
    let (shell, plan) = install("/bin/zsh", integration_snippet(&ShellType::Zsh));
    assert_eq!(shell, ShellType::Zsh);
    assert!(matches!(plan, IntegrationPlan::AlreadyInstalled));
}
