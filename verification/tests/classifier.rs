use stalkerd::classifier::{
    any_arg_contains, classify, classify_process, classify_with, rules, AppTag, ProcessInfo,
    Refinement, Rule,
};

fn process(name: &str, exe: &str, cmd: &[&str]) -> ProcessInfo {
    ProcessInfo {
        name: name.to_string(),
        exe: exe.to_string(),
        cmd: cmd.iter().map(|arg| arg.to_string()).collect(),
    }
}

fn named(name: &str) -> ProcessInfo {
    process(name, "", &[])
}

const VSCODE_EXE: &str = "/Applications/Visual Studio Code.app/Contents/MacOS/Electron";

#[test]
fn tags_have_their_canonical_names() {
    assert_eq!(AppTag::Ableton.name(), "ableton");
    assert_eq!(AppTag::Terminal.name(), "terminal");
    assert_eq!(AppTag::MuseScore.name(), "musescore");
    assert_eq!(AppTag::Max.name(), "max");
    assert_eq!(AppTag::Zoom.name(), "zoom");
    assert_eq!(AppTag::Figma.name(), "figma");
    assert_eq!(AppTag::AndroidStudio.name(), "android-studio");
    assert_eq!(AppTag::Celeste.name(), "celeste");
    assert_eq!(AppTag::Factorio.name(), "factorio");
    assert_eq!(AppTag::RimWorld.name(), "rimworld");
    assert_eq!(AppTag::Minecraft.name(), "minecraft");
    assert_eq!(AppTag::VsCode.name(), "vscode");
}

#[test]
fn the_rule_table_has_twelve_rules_with_distinct_names() {
    let table = rules();
    assert_eq!(table.len(), 12);
    for i in 0..table.len() {
        for j in (i + 1)..table.len() {
            assert_ne!(table[i].name, table[j].name);
        }
    }
    assert_eq!(table[0].name, "Live");
    assert_eq!(table[0].tag, AppTag::Ableton);
    assert_eq!(table[11].name, "Electron");
    assert_eq!(table[11].tag, AppTag::VsCode);
}

#[test]
fn a_plain_name_decides_alone() {
    assert_eq!(classify_process(&named("Live")), Some(AppTag::Ableton));
    assert_eq!(classify_process(&named("Terminal")), Some(AppTag::Terminal));
    assert_eq!(classify_process(&named("mscore")), Some(AppTag::MuseScore));
    assert_eq!(classify_process(&named("Max")), Some(AppTag::Max));
    assert_eq!(classify_process(&named("zoom.us")), Some(AppTag::Zoom));
    assert_eq!(classify_process(&named("Figma")), Some(AppTag::Figma));
    assert_eq!(classify_process(&named("studio")), Some(AppTag::AndroidStudio));
    assert_eq!(classify_process(&named("Celeste")), Some(AppTag::Celeste));
    assert_eq!(classify_process(&named("factorio")), Some(AppTag::Factorio));
    assert_eq!(
        classify_process(&named("RimWorld by Ludeon Studios")),
        Some(AppTag::RimWorld)
    );
}

#[test]
fn a_plain_name_ignores_path_and_arguments() {
    let p = process("Live", "/somewhere/else", &["--minecraft"]);
    assert_eq!(classify_process(&p), Some(AppTag::Ableton));
}

#[test]
fn names_match_exactly() {
    assert_eq!(classify_process(&named("live")), None);
    assert_eq!(classify_process(&named("Live ")), None);
    assert_eq!(classify_process(&named("Liv")), None);
    assert_eq!(classify_process(&named("Terminal.app")), None);
    assert_eq!(classify_process(&named("RimWorld")), None);
    assert_eq!(classify_process(&named("")), None);
}

#[test]
fn unknown_processes_have_no_tag() {
    assert_eq!(classify_process(&named("launchd")), None);
    assert_eq!(
        classify_process(&process("bash", "/bin/bash", &["bash", "-c", "minecraft"])),
        None
    );
    assert_eq!(classify_process(&process("Helper", VSCODE_EXE, &[])), None);
}

#[test]
fn java_is_minecraft_only_with_the_argument() {
    let server = process("java", "/usr/bin/java", &["java", "-jar", "minecraft_server.jar"]);
    assert_eq!(classify_process(&server), Some(AppTag::Minecraft));
    let last_arg = process("java", "/usr/bin/java", &["java", "-Xmx2G", "net.minecraft.Main"]);
    assert_eq!(classify_process(&last_arg), Some(AppTag::Minecraft));
    let other = process("java", "/usr/bin/java", &["java", "-jar", "gradle.jar"]);
    assert_eq!(classify_process(&other), None);
    let bare = process("java", "/usr/bin/java", &[]);
    assert_eq!(classify_process(&bare), None);
    let capital = process("java", "/usr/bin/java", &["java", "Minecraft"]);
    assert_eq!(classify_process(&capital), None);
    let in_path_only = process("java", "/opt/minecraft/bin/java", &["java"]);
    assert_eq!(classify_process(&in_path_only), None);
}

#[test]
fn electron_is_vscode_only_under_its_bundle() {
    assert_eq!(
        classify_process(&process("Electron", VSCODE_EXE, &[])),
        Some(AppTag::VsCode)
    );
    assert_eq!(
        classify_process(&process(
            "Electron",
            "Visual Studio Code.app/Contents/MacOS/Electron",
            &[]
        )),
        Some(AppTag::VsCode)
    );
    assert_eq!(
        classify_process(&process(
            "Electron",
            "/Applications/Slack.app/Contents/MacOS/Electron",
            &[]
        )),
        None
    );
    assert_eq!(
        classify_process(&process(
            "Electron",
            "/Applications/My Visual Studio Code.app/Contents/MacOS/Electron",
            &[]
        )),
        None
    );
    assert_eq!(classify_process(&process("Electron", "", &[])), None);
}

#[test]
fn electron_is_vscode_where_the_path_is_not_in_normal_form() {
    for exe in [
        "/Applications/Visual Studio Code.app/Contents/MacOS//Electron",
        "/Applications//Visual Studio Code.app/Contents/./MacOS/Electron",
        "/Applications/Visual Studio Code.app/Contents/MacOS/Electron/",
        "./Visual Studio Code.app/Contents/MacOS/Electron",
    ] {
        assert_eq!(classify_process(&process("Electron", exe, &[])), Some(AppTag::VsCode));
        assert_eq!(std::path::Path::new(exe).ends_with(
            "Visual Studio Code.app/Contents/MacOS/Electron"
        ), true);
    }
}

#[test]
fn any_arg_contains_looks_at_every_argument() {
    let cmd: Vec<String> = vec!["java".into(), "-jar".into(), "my-minecraft.jar".into()];
    assert!(any_arg_contains(&cmd, "minecraft"));
    assert!(any_arg_contains(&cmd, "java"));
    assert!(!any_arg_contains(&cmd, "java -jar"));
    assert!(!any_arg_contains(&Vec::new(), "minecraft"));
    assert!(!any_arg_contains(&Vec::new(), ""));
    assert!(any_arg_contains(&cmd, ""));
}

#[test]
fn refinements_and_rules_check_one_process() {
    let p = process("java", "/usr/bin/java", &["java", "minecraft"]);
    assert!(Refinement::Always.check(&p));
    assert!(Refinement::ArgContains("minecraft").check(&p));
    assert!(!Refinement::ArgContains("factorio").check(&p));
    assert!(Refinement::ExeEndsWith("bin/java").check(&p));
    assert!(Refinement::ExeEndsWith("bin//java/").check(&p));
    assert!(!Refinement::ExeEndsWith("n/java").check(&p));
    let rule = Rule { name: "java", refinement: Refinement::Always, tag: AppTag::Max };
    assert!(rule.recognises(&p));
    let other = Rule { name: "Java", refinement: Refinement::Always, tag: AppTag::Max };
    assert!(!other.recognises(&p));
}

#[test]
fn rules_are_tried_in_order() {
    let table = [
        Rule { name: "x", refinement: Refinement::ArgContains("a"), tag: AppTag::Max },
        Rule { name: "x", refinement: Refinement::Always, tag: AppTag::Zoom },
        Rule { name: "x", refinement: Refinement::Always, tag: AppTag::Figma },
    ];
    assert_eq!(classify_with(&table, &process("x", "", &["a"])), Some(AppTag::Max));
    assert_eq!(classify_with(&table, &process("x", "", &["b"])), Some(AppTag::Zoom));
    assert_eq!(classify_with(&table, &process("y", "", &["a"])), None);
    assert_eq!(classify_with(&[], &process("x", "", &["a"])), None);
}

#[test]
fn an_empty_snapshot_has_no_tags() {
    assert_eq!(classify(&[]), Vec::<AppTag>::new());
}

#[test]
fn a_snapshot_keeps_order_and_skips_the_unknown() {
    let snapshot = vec![
        named("launchd"),
        named("Terminal"),
        process("java", "/usr/bin/java", &["java", "gradle"]),
        named("Live"),
        named("WindowServer"),
        process("Electron", VSCODE_EXE, &[]),
    ];
    assert_eq!(
        classify(&snapshot),
        vec![AppTag::Terminal, AppTag::Ableton, AppTag::VsCode]
    );
}

#[test]
fn two_processes_of_one_application_give_the_tag_twice() {
    let snapshot = vec![named("Terminal"), named("Figma"), named("Terminal")];
    assert_eq!(
        classify(&snapshot),
        vec![AppTag::Terminal, AppTag::Figma, AppTag::Terminal]
    );
}

#[test]
fn classifying_twice_gives_the_same_tags() {
    let snapshot = vec![
        named("Terminal"),
        named("nothing"),
        process("java", "", &["minecraft"]),
        named("Terminal"),
    ];
    assert_eq!(classify(&snapshot), classify(&snapshot));
}

#[test]
fn the_order_of_the_snapshot_does_not_change_the_multiset() {
    let snapshot = vec![
        named("Terminal"),
        named("nothing"),
        process("java", "", &["minecraft"]),
        named("Terminal"),
        named("Live"),
    ];
    let mut reversed = snapshot.clone();
    reversed.reverse();
    let mut rotated = snapshot.clone();
    rotated.rotate_left(2);
    let sorted = |mut tags: Vec<AppTag>| {
        tags.sort_by_key(|tag| tag.name());
        tags
    };
    let expected = sorted(classify(&snapshot));
    assert_eq!(expected.len(), 4);
    assert_eq!(sorted(classify(&reversed)), expected);
    assert_eq!(sorted(classify(&rotated)), expected);
}
