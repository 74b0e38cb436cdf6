//! Settings of the viewer.

use dial9::viewer::{dir_of_program, Cli, UiDir};

fn used(found: UiDir) -> String {
    match found {
        UiDir::Use(dir) => dir,
        UiDir::Probe(dir) => panic!("{dir} is not to be probed"),
    }
}

fn probed(found: UiDir) -> String {
    match found {
        UiDir::Probe(dir) => dir,
        UiDir::Use(dir) => panic!("{dir} is not to be used"),
    }
}

#[test]
fn settings_have_defaults() {
    let cli = Cli::default();
    assert_eq!(cli.port, 3000);
    assert_eq!(cli.bucket, None);
    assert_eq!(cli.prefix, None);
    assert_eq!(cli.ui_dir, "ui");
}

#[test]
fn existing_directory_is_used() {
    let cli = Cli::default();
    assert_eq!(used(cli.locate_ui_dir(true, Some("/opt/bin/viewer"))), "ui");
    assert_eq!(used(cli.locate_ui_dir(true, None)), "ui");
}

#[test]
fn missing_directory_is_looked_for_beside_the_program() {
    let cli = Cli::default();
    assert_eq!(probed(cli.locate_ui_dir(false, Some("/opt/bin/viewer"))), "/opt/bin/ui");
    assert_eq!(used(cli.locate_ui_dir(false, None)), "ui");
    assert_eq!(cli.resolve_ui_dir("/opt/bin/ui".to_string(), true), "/opt/bin/ui");
    assert_eq!(cli.resolve_ui_dir("/opt/bin/ui".to_string(), false), "ui");
}

#[test]
fn absolute_directory_is_the_same_beside_the_program() {
    let cli = Cli { ui_dir: "/srv/ui".to_string(), ..Cli::default() };
    assert_eq!(probed(cli.locate_ui_dir(false, Some("/opt/bin/viewer"))), "/srv/ui");
}

#[test]
fn program_without_parent_stands_for_its_directory() {
    assert_eq!(dir_of_program("/", None), "/");
    assert_eq!(dir_of_program("/a/b", Some("/a")), "/a");
    let cli = Cli::default();
    assert_eq!(probed(cli.locate_ui_dir(false, Some("/"))), "/ui");
}
