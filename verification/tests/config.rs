use yy::config::{config_dir_name, config_file_name, ConfigUpdate};
use yy::install_cargo_config;

const MUSL: &str = "x86_64-unknown-linux-musl";

const WITH_FLAGS: &str = "\n[target.x86_64-unknown-linux-musl]\nlinker = \"zig-x86_64-unknown-linux-musl\"\nar = \"zig-ar\"\nrustflags = [\"-C\", \"target-feature=+crt-static\"]\n";

const WITHOUT_FLAGS: &str = "\n[target.x86_64-unknown-linux-musl]\nlinker = \"zig-x86_64-unknown-linux-musl\"\nar = \"zig-ar\"\n";

const DIRECTIVE: &str = "rustflags = [\"-C\", \"target-feature=+crt-static\"]\n";

fn written(update: ConfigUpdate) -> String {
    match update {
        ConfigUpdate::Write(text) => text,
        ConfigUpdate::Unchanged => panic!("the file was left unchanged"),
    }
}

#[test]
fn install_into_absent_file_writes_one_section() {
    let text = written(install_cargo_config(MUSL, true, None));
    assert_eq!(text, WITH_FLAGS);
    assert_eq!(text.matches("[target.x86_64-unknown-linux-musl]").count(), 1);
}

#[test]
fn install_into_empty_file_is_like_absent() {
    assert_eq!(
        install_cargo_config(MUSL, false, Some("")),
        install_cargo_config(MUSL, false, None)
    );
    assert_eq!(written(install_cargo_config(MUSL, false, Some(""))), WITHOUT_FLAGS);
}

#[test]
fn install_appends_after_existing_text() {
    let existing = "[build]\njobs = 4\n";
    let text = written(install_cargo_config(MUSL, false, Some(existing)));
    assert_eq!(text, format!("{existing}{WITHOUT_FLAGS}"));
}

#[test]
fn install_keeps_other_targets() {
    let existing = "[target.aarch64-unknown-linux-musl]\nlinker = \"zig-aarch64-unknown-linux-musl\"\nar = \"zig-ar\"\n";
    let text = written(install_cargo_config(MUSL, true, Some(existing)));
    assert_eq!(text, format!("{existing}{WITH_FLAGS}"));
}

#[test]
fn install_is_a_noop_when_the_marker_is_there() {
    let existing = "# mine\n[target.x86_64-unknown-linux-musl]\nlinker = \"other\"\n";
    assert_eq!(install_cargo_config(MUSL, true, Some(existing)), ConfigUpdate::Unchanged);
    assert_eq!(install_cargo_config(MUSL, false, Some(existing)), ConfigUpdate::Unchanged);
}

#[test]
fn marker_match_is_literal_not_structural() {
    let in_a_comment = "# see [target.x86_64-unknown-linux-musl] below\n";
    assert_eq!(install_cargo_config(MUSL, true, Some(in_a_comment)), ConfigUpdate::Unchanged);

    let longer_name = "[target.x86_64-unknown-linux-musleabi]\n";
    assert_eq!(
        written(install_cargo_config(MUSL, false, Some(longer_name))),
        format!("{longer_name}{WITHOUT_FLAGS}")
    );
}

#[test]
fn install_twice_leaves_one_section() {
    let once = written(install_cargo_config(MUSL, true, None));
    assert_eq!(install_cargo_config(MUSL, true, Some(&once)), ConfigUpdate::Unchanged);
    assert_eq!(install_cargo_config(MUSL, false, Some(&once)), ConfigUpdate::Unchanged);
    assert_eq!(once.matches("[target.x86_64-unknown-linux-musl]").count(), 1);
}

#[test]
fn install_twice_after_other_content() {
    let once = written(install_cargo_config(MUSL, false, Some("[net]\noffline = true\n")));
    assert_eq!(install_cargo_config(MUSL, true, Some(&once)), ConfigUpdate::Unchanged);
}

#[test]
fn static_flags_follow_the_switch() {
    let with = written(install_cargo_config(MUSL, true, None));
    let without = written(install_cargo_config(MUSL, false, None));
    assert!(with.contains(DIRECTIVE));
    assert!(with.ends_with(DIRECTIVE));
    assert!(!without.contains("rustflags"));
    assert_eq!(with, format!("{without}{DIRECTIVE}"));
}

#[test]
fn linker_line_names_the_target_as_given() {
    let text = written(install_cargo_config("a:b", false, None));
    assert_eq!(text, "\n[target.a:b]\nlinker = \"zig-a:b\"\nar = \"zig-ar\"\n");
}

#[test]
fn marker_occurs_once_even_for_a_target_made_of_markers() {
    let target = "a]\n[target.a";
    let text = written(install_cargo_config(target, true, None));
    let marker = format!("[target.{target}]");
    let places: Vec<usize> = text.match_indices(&marker).map(|(at, _)| at).collect();
    assert_eq!(places, vec![1]);
    let mut overlapping = 0;
    for at in 0..text.len() {
        if text.is_char_boundary(at) && text[at..].starts_with(&marker) {
            overlapping += 1;
        }
    }
    assert_eq!(overlapping, 1);
}

#[test]
fn directive_absent_unless_the_target_spells_it() {
    let spelled = "rustflags = [\"-C\", \"target-feature=+crt-static\"";
    let text = written(install_cargo_config(spelled, false, None));
    assert!(text.contains(DIRECTIVE));

    let plain = written(install_cargo_config("rustflags", false, None));
    assert!(!plain.contains(DIRECTIVE));
}

#[test]
fn configuration_lives_in_dot_cargo() {
    assert_eq!(config_dir_name(), ".cargo");
    assert_eq!(config_file_name(), "config.toml");
}
