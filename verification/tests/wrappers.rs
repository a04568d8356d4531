use std::path::PathBuf;
use yy::generate_wrappers;
use yy::wrappers::{
    plan_wrappers, write_ar_wrapper, write_cmd_wrapper, write_ps_ar_wrapper, write_ps_wrapper,
    WrapperFile,
};

const MUSL: &str = "x86_64-unknown-linux-musl";

const WARNING: &str = "Warning: `zig` executable not found on PATH. Generated wrappers will call zig.exe and will fail until zig is available.";

fn file(dir: &str, name: &str, content: &str) -> WrapperFile {
    WrapperFile { dir: dir.to_string(), name: name.to_string(), content: content.to_string() }
}

#[test]
fn wrapper_generation_and_content() {
    let t = "x86_64-unknown-linux-musl";
    let tmpdir = "yy-test-wrappers-lib";

    let plan = generate_wrappers(t, Some(tmpdir), false);
    assert_eq!(plan.out_dir, tmpdir);

    let name = format!("zig-{}.cmd", t);
    let written = plan.files.iter().find(|f| f.dir == tmpdir && f.name == name).unwrap();
    let s = &written.content;
    assert!(s.contains(&format!("-target {t}")));
}

#[test]
fn cmd_wrapper_is_exact() {
    assert_eq!(
        write_cmd_wrapper("/out", MUSL),
        file(
            "/out",
            "zig-x86_64-unknown-linux-musl.cmd",
            "@echo off\r\nzig.exe cc -target x86_64-unknown-linux-musl -static %*\r\n",
        )
    );
}

#[test]
fn ar_wrapper_is_exact() {
    assert_eq!(
        write_ar_wrapper("/out"),
        file("/out", "zig-ar.cmd", "@echo off\r\nzig.exe ar %*\r\n")
    );
}

#[test]
fn ps_wrapper_is_exact() {
    assert_eq!(
        write_ps_wrapper("/out", MUSL),
        file(
            "/out",
            "zig-x86_64-unknown-linux-musl.ps1",
            "& \"zig.exe\" cc -target x86_64-unknown-linux-musl -static $args\r\n",
        )
    );
}

#[test]
fn ps_ar_wrapper_is_exact() {
    assert_eq!(
        write_ps_ar_wrapper("/out"),
        file("/out", "zig-ar.ps1", "& \"zig.exe\" ar $args\r\n")
    );
}

#[test]
fn scenario_two_batch_wrappers_in_out() {
    let plan = generate_wrappers(MUSL, Some("/out"), false);
    assert_eq!(plan.out_dir, "/out");
    assert_eq!(
        plan.files,
        vec![
            file(
                "/out",
                "zig-x86_64-unknown-linux-musl.cmd",
                "@echo off\r\nzig.exe cc -target x86_64-unknown-linux-musl -static %*\r\n",
            ),
            file("/out", "zig-ar.cmd", "@echo off\r\nzig.exe ar %*\r\n"),
        ]
    );
    assert!(plan.files[0].content.contains("-target x86_64-unknown-linux-musl -static"));
    assert!(plan.files[1].content.contains("zig.exe ar"));
}

#[test]
fn two_files_without_powershell_four_with() {
    let batch = generate_wrappers(MUSL, Some("d"), false);
    assert_eq!(batch.files.len(), 2);
    let both = generate_wrappers(MUSL, Some("d"), true);
    assert_eq!(both.files.len(), 4);
    let names: Vec<&str> = both.files.iter().map(|f| f.name.as_str()).collect();
    assert_eq!(
        names,
        vec![
            "zig-x86_64-unknown-linux-musl.cmd",
            "zig-ar.cmd",
            "zig-x86_64-unknown-linux-musl.ps1",
            "zig-ar.ps1",
        ]
    );
    for i in 0..names.len() {
        for j in (i + 1)..names.len() {
            assert_ne!(names[i], names[j]);
        }
    }
    assert!(both.files.iter().all(|f| f.dir == "d"));
}

#[test]
fn target_named_ar_collides_with_the_archiver_wrapper() {
    let plan = generate_wrappers("ar", Some("d"), true);
    assert_eq!(plan.files.len(), 4);
    assert_eq!(plan.files[0].name, plan.files[1].name);
    assert_eq!(plan.files[2].name, plan.files[3].name);
    assert_ne!(plan.files[0].content, plan.files[1].content);
}

#[test]
fn default_output_directory_is_the_current_one() {
    let plan = generate_wrappers(MUSL, None, false);
    assert_eq!(plan.out_dir, ".");
    assert!(plan.files.iter().all(|f| f.dir == "."));
}

#[test]
fn colons_leave_the_name_and_stay_in_the_text() {
    let cmd = write_cmd_wrapper("o", "a:b::c");
    assert_eq!(cmd.name, "zig-a-b--c.cmd");
    assert!(!cmd.name.contains(':'));
    assert_eq!(cmd.content, "@echo off\r\nzig.exe cc -target a:b::c -static %*\r\n");
    assert!(cmd.content.contains("-target a:b::c"));

    let ps = write_ps_wrapper("o", "a:b::c");
    assert_eq!(ps.name, "zig-a-b--c.ps1");
    assert!(!ps.name.contains(':'));
    assert_eq!(ps.content, "& \"zig.exe\" cc -target a:b::c -static $args\r\n");
}

#[test]
fn hyphens_and_other_characters_are_kept_in_names() {
    assert_eq!(write_cmd_wrapper("o", "a-b.c_d").name, "zig-a-b.c_d.cmd");
    assert_eq!(write_cmd_wrapper("o", "").name, "zig-.cmd");
    assert_eq!(write_cmd_wrapper("o", "").content, "@echo off\r\nzig.exe cc -target  -static %*\r\n");
    assert_eq!(write_ps_wrapper("o", "zi\u{e9}:g").name, "zig-zi\u{e9}-g.ps1");
}

#[test]
fn generation_is_repeatable() {
    let first = generate_wrappers("aarch64:linux", Some("w"), true);
    let again = generate_wrappers("aarch64:linux", Some("w"), true);
    assert_eq!(first.out_dir, again.out_dir);
    assert_eq!(first.files, again.files);
}

#[test]
fn warning_only_when_the_toolchain_is_missing() {
    let missing = plan_wrappers(MUSL, Some("d"), false, &None);
    assert_eq!(missing.warning.as_deref(), Some(WARNING));

    let found = plan_wrappers(MUSL, Some("d"), false, &Some(PathBuf::from("/usr/bin/zig")));
    assert_eq!(found.warning, None);

    assert_eq!(missing.out_dir, found.out_dir);
    assert_eq!(missing.files, found.files);
    assert_eq!(missing.files.len(), 2);
}

#[test]
fn generate_warns_or_not_and_always_plans() {
    let plan = generate_wrappers(MUSL, Some("d"), true);
    match plan.warning.as_deref() {
        None => {}
        Some(text) => assert_eq!(text, WARNING),
    }
    assert_eq!(plan.files, plan_wrappers(MUSL, Some("d"), true, &None).files);
}
