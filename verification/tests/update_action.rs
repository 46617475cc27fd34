use ecodex::update_action::{InstallMethod, UpdateAction};

#[test]
fn standalone_update_command_reruns_ecodex_installer() {
    assert_eq!(
        UpdateAction::StandaloneUnix.command_args(),
        (
            "sh",
            &["-c", "curl -fsSL https://raw.githubusercontent.com/EmpiricaAI/ecodex/main/scripts/install.sh | bash"][..],
        )
    );
}

#[test]
fn brew_update_command_targets_ecodex_tap() {
    assert_eq!(UpdateAction::BrewUpgrade.command_args(), ("brew", &["upgrade", "EmpiricaAI/tap/ecodex"][..]));
}

#[test]
fn command_str_joins_for_display() {
    assert_eq!(UpdateAction::BrewUpgrade.command_str(), "brew upgrade EmpiricaAI/tap/ecodex");
    assert_eq!(
        UpdateAction::StandaloneUnix.command_str(),
        "sh -c 'curl -fsSL https://raw.githubusercontent.com/EmpiricaAI/ecodex/main/scripts/install.sh | bash'"
    );
}
