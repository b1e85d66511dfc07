use nix_snow::paths::{build_command, config_path, document_path, expand_home, project_root};

#[test]
fn every_tilde_becomes_the_home_directory() {
    assert_eq!(expand_home("~/nix/home.nix", "/home/ada"), "/home/ada/nix/home.nix");
    assert_eq!(expand_home("/etc/~/~", "/h"), "/etc//h//h");
    assert_eq!(expand_home("/etc/nixos", "/home/ada"), "/etc/nixos");
    assert_eq!(expand_home("", "/home/ada"), "");
    assert_eq!(expand_home("~é~", ""), "é");
}

#[test]
fn document_path_is_the_configured_one_or_the_default() {
    assert_eq!(document_path(None, "/home/ada"), "/home/ada/nix-config/home/default.nix");
    assert_eq!(document_path(Some("~/pkgs.nix"), "/home/ada"), "/home/ada/pkgs.nix");
}

#[test]
fn config_path_is_the_given_one_or_the_default() {
    assert_eq!(config_path(None, "/home/ada"), "/home/ada/.config/nix-snow/config.toml");
    assert_eq!(config_path(Some("~/snow.toml"), "/home/ada"), "/home/ada/snow.toml");
}

#[test]
fn rebuild_command_lies_below_the_project_root() {
    assert_eq!(project_root("/home/ada"), "/home/ada/nix-config");
    assert_eq!(build_command("/home/ada"), "/home/ada/nix-config/bin/build");
}
