use fikuthy::setup::{
    install_command, mask_key, model_choice, models_for, progress_bar_text, provider_choice,
    providers, ModelChoice,
};

#[test]
fn mask_key_short_and_long() {
    assert_eq!(mask_key(""), "");
    assert_eq!(mask_key("abc"), "***");
    assert_eq!(mask_key("123456789012"), "************");
    assert_eq!(mask_key("sk-abcdefghijklmnop"), "sk-abc...mnop");
    // Keys are masked and cut by characters.
    assert_eq!(mask_key("\u{e9}\u{e9}"), "**");
    assert_eq!(mask_key("a\u{e9}\u{e9}\u{e9}\u{e9}\u{e9}\u{e9}\u{e9}\u{e9}"), "*********");
    assert_eq!(
        mask_key("\u{e9}b\u{e9}d\u{e9}f-0123456789-\u{e9}x\u{e9}z"),
        "\u{e9}b\u{e9}d\u{e9}f...\u{e9}x\u{e9}z"
    );
}

#[test]
fn provider_menu() {
    let p = providers();
    assert_eq!(p.len(), 10);
    assert_eq!(p[0].id, "openrouter");
    assert_eq!(p[8].id, "ollama");
    assert_eq!(p[8].key_var, "");
    assert_eq!(p[9].base_url, "");
    let n = p.len();
    assert_eq!(provider_choice("3\n", n), 3);
    assert_eq!(provider_choice("  42 ", n), 10);
    assert_eq!(provider_choice("0", n), 1);
    assert_eq!(provider_choice("abc", n), 1);
    assert_eq!(provider_choice("", n), 1);
}

#[test]
fn model_menu() {
    assert_eq!(models_for("openai"), vec!["gpt-4o", "gpt-4o-mini", "o3-mini"]);
    assert_eq!(models_for("custom"), vec!["default"]);
    assert_eq!(models_for("unknown"), vec!["default"]);
    assert_eq!(model_choice("2\n", 3), ModelChoice::Listed(1));
    assert_eq!(model_choice("4", 3), ModelChoice::Custom);
    assert_eq!(model_choice("5", 3), ModelChoice::Listed(0));
    assert_eq!(model_choice("0", 3), ModelChoice::Listed(0));
    assert_eq!(model_choice("x", 3), ModelChoice::Listed(0));
}

#[test]
fn progress_bar() {
    let b = progress_bar_text(50, 30);
    assert_eq!(b.chars().count(), 30);
    assert_eq!(b, format!("{}{}", "\u{2588}".repeat(15), "\u{2592}".repeat(15)));
    assert_eq!(progress_bar_text(0, 30), "\u{2592}".repeat(30));
    assert_eq!(progress_bar_text(100, 30), "\u{2588}".repeat(30));
    assert_eq!(progress_bar_text(7, 30).chars().filter(|c| *c == '\u{2588}').count(), 2);
}

#[test]
fn install_hint_split() {
    let (cmd, args) = install_command("  sudo apt-get install -y git ").unwrap();
    assert_eq!(cmd, "sudo");
    assert_eq!(args, vec!["apt-get", "install", "-y", "git"]);
    assert!(install_command("   ").is_none());
}

use fikuthy::setup::{check_key, needs_install, scan_tally, status_label, ComponentState, ComponentStatus, KeyCheck};

#[test]
fn key_checks() {
    assert_eq!(check_key("   "), KeyCheck::Empty);
    assert_eq!(check_key(""), KeyCheck::Empty);
    assert_eq!(check_key("short"), KeyCheck::TooShort);
    assert_eq!(check_key("0123456789"), KeyCheck::Received);
}

#[test]
fn scan_summary() {
    let c = |state, required| ComponentStatus { state, required };
    let cs = [
        c(ComponentState::Available, true),
        c(ComponentState::Available, false),
        c(ComponentState::Missing, true),
        c(ComponentState::Missing, false),
        c(ComponentState::Broken, false),
        c(ComponentState::Optional, false),
    ];
    assert_eq!(scan_tally(&cs), (2, 2));
    let labels: Vec<&str> = cs.iter().map(|x| status_label(*x)).collect();
    assert_eq!(labels, vec!["OK", "OK", "MISSING", "optional", "BROKEN", "optional"]);
    let install: Vec<bool> = cs.iter().map(|x| needs_install(*x)).collect();
    assert_eq!(install, vec![false, false, true, false, false, false]);
    assert!(needs_install(c(ComponentState::Broken, true)));
}

use fikuthy::setup::workspace_config;

#[test]
fn config_for_choice() {
    let c = workspace_config("groq", "llama-3.3-70b-versatile");
    assert_eq!(c.schema_version, 1);
    assert_eq!(c.mode, "full");
    assert_eq!(c.provider, "groq");
    assert_eq!(c.model, "llama-3.3-70b-versatile");
    assert_eq!(c.permission_mode, "safe");
    assert_eq!(c.tools, vec!["workspace_read", "git_inspection", "skills", "memory"]);
    assert!(c.ui.banner);
    assert_eq!(c.ui.banner_mode, "full");
    assert_eq!(c.ui.icons, "unicode");
}
