use java_asm::cli::{
    archive_too_deep, class_output_components, descend_check, descriptor_to_internal, input_label,
    internal_path_segments, is_candidate_entry, is_class, is_dex, is_possible_input_entry, is_supported_magic,
    is_zip, join_internal_path, join_strings, no_match_error, normalize_class_name, qualified_name,
    safe_component, select_class, split_internal_path, CliError, ExportFormat,
};

#[test]
fn normalizes_java_class_names() {
    assert_eq!(normalize_class_name("com.example.Main"), "com/example/Main");
    assert_eq!(normalize_class_name("Lcom/example/Main;"), "com/example/Main");
}

#[test]
fn normalize_trims_white_space_and_keeps_lone_markers() {
    assert_eq!(normalize_class_name("  com.example.Main\t\n"), "com/example/Main");
    assert_eq!(normalize_class_name("\u{3000}Lcom.a;\u{a0}"), "com/a");
    assert_eq!(normalize_class_name("L"), "");
    assert_eq!(normalize_class_name(";"), "");
    assert_eq!(normalize_class_name("   "), "");
    assert_eq!(normalize_class_name("LL;;"), "L;");
}

#[test]
fn descriptors_give_internal_names() {
    assert_eq!(descriptor_to_internal("Lcom/example/Main;"), Some("com/example/Main".to_string()));
    assert_eq!(descriptor_to_internal("L;"), Some(String::new()));
    assert_eq!(descriptor_to_internal("L"), None);
    assert_eq!(descriptor_to_internal("I"), None);
    assert_eq!(descriptor_to_internal("com/example/Main;"), None);
}

#[test]
fn internal_paths_are_joined_with_bang() {
    assert_eq!(join_internal_path(None, "classes.dex"), "classes.dex");
    assert_eq!(join_internal_path(Some("base.apk"), "classes.dex"), "base.apk!classes.dex");
    assert_eq!(input_label("app.apks", None), "app.apks");
    assert_eq!(input_label("app.apks", Some("base.apk!classes2.dex")), "app.apks!base.apk!classes2.dex");
}

#[test]
fn qualified_names_use_dots() {
    assert_eq!(qualified_name("com/example/Main"), "com.example.Main");
    assert_eq!(qualified_name("Main"), "Main");
}

#[test]
fn magic_numbers_are_recognized() {
    assert!(is_dex(b"dex\n035\0"));
    assert!(!is_dex(b"dex"));
    assert!(is_class(&[0xCA, 0xFE, 0xBA, 0xBE, 0, 0]));
    assert!(!is_class(&[0xCA, 0xFE, 0xBA]));
    assert!(is_zip(b"PK\x03\x04rest"));
    assert!(is_zip(b"PK\x05\x06"));
    assert!(is_zip(b"PK\x07\x08"));
    assert!(!is_zip(b"PK\x01\x02"));
    assert!(is_supported_magic(b"dex\n"));
    assert!(!is_supported_magic(b"\x7fELF"));
}

#[test]
fn possible_input_entries_go_by_extension() {
    assert!(is_possible_input_entry("classes.dex"));
    assert!(is_possible_input_entry("Main.CLASS"));
    assert!(is_possible_input_entry("lib/base.Apk"));
    assert!(is_possible_input_entry("README"));
    assert!(is_possible_input_entry("a.b.jar"));
    assert!(!is_possible_input_entry("res/icon.png"));
    assert!(!is_possible_input_entry("AndroidManifest.xml"));
    assert!(!is_possible_input_entry("archive.dexx"));
}

#[test]
fn safe_components_replace_other_characters() {
    assert_eq!(safe_component("base.apk!classes14.dex"), "base.apk_classes14.dex");
    assert_eq!(safe_component("a b/c$d-e_f"), "a_b_c$d-e_f");
    assert_eq!(safe_component(""), "input");
    assert_eq!(safe_component("é"), "_");
}

#[test]
fn internal_paths_split_at_bang() {
    assert_eq!(split_internal_path("base.apk!classes2.dex"), vec!["base.apk", "classes2.dex"]);
    assert_eq!(split_internal_path("a!!b"), vec!["a", "", "b"]);
    assert_eq!(split_internal_path(""), vec![""]);
}

#[test]
fn output_components_of_exported_classes() {
    assert_eq!(
        class_output_components(true, Some("base.apk!classes14.dex"), "com/example/Main"),
        vec!["base.apk_classes14.dex", "com", "example", "Main"]
    );
    assert_eq!(
        class_output_components(false, Some("lib.jar!com/example/Main.class"), "com/example/Main"),
        vec!["lib.jar", "com", "example", "Main"]
    );
    assert_eq!(class_output_components(false, Some("Main.class"), "Main"), vec!["Main"]);
    assert_eq!(class_output_components(true, None, "a//b"), vec!["a", "input", "b"]);
}

#[test]
fn export_format_is_smali() {
    assert_eq!(ExportFormat::Smali.as_str(), "smali");
    assert_eq!(ExportFormat::Smali.extension(), "smali");
}

#[test]
fn cli_errors_are_shown_with_their_source() {
    let e = CliError::Io { path: "in.apk".to_string(), message: "not found".to_string() };
    assert_eq!(e.message(), "in.apk: not found");
    let e = CliError::Parse { source: "input.dex".to_string(), message: "bad".to_string() };
    assert_eq!(e.message(), "input.dex: bad");
    assert_eq!(CliError::NotFound("class not found: A".to_string()).message(), "class not found: A");
    assert_eq!(CliError::Ambiguous("many".to_string()).message(), "many");
    let e = CliError::Zip { path: "x".to_string(), message: "y".to_string() };
    assert_eq!(e.message(), "x: y");
}

#[test]
fn archive_nesting_of_eight_levels_is_too_deep() {
    assert_eq!(archive_too_deep(None, 7), None);
    assert_eq!(
        archive_too_deep(None, 8),
        Some(CliError::Parse { source: "input".to_string(), message: "archive nesting is too deep".to_string() })
    );
    assert_eq!(
        archive_too_deep(Some("a.apk!b.zip"), 9),
        Some(CliError::Parse { source: "a.apk!b.zip".to_string(), message: "archive nesting is too deep".to_string() })
    );
}

#[test]
fn candidate_entries_are_files_with_input_names_and_a_magic_number() {
    assert!(is_candidate_entry(false, "classes.dex", 100));
    assert!(is_candidate_entry(false, "README", 4));
    assert!(!is_candidate_entry(true, "dir.jar", 100));
    assert!(!is_candidate_entry(false, "notes.txt", 100));
    assert!(!is_candidate_entry(false, "Main.class", 3));
}

#[test]
fn join_puts_the_separator_between_pieces() {
    assert_eq!(join_strings(&vec![], "!"), "");
    assert_eq!(join_strings(&vec!["a".to_string()], "!"), "a");
    assert_eq!(join_strings(&vec!["a".to_string(), "b".to_string(), "c".to_string()], ", "), "a, b, c");
}

#[test]
fn internal_paths_are_split_at_each_bang() {
    assert_eq!(
        internal_path_segments("in.apks", ""),
        Err(CliError::Parse { source: "in.apks".to_string(), message: "internal_path cannot be empty".to_string() })
    );
    assert_eq!(
        internal_path_segments("in.apks", "base.apk!classes2.dex"),
        Ok(vec!["base.apk".to_string(), "classes2.dex".to_string()])
    );
}

#[test]
fn descending_needs_a_named_archive() {
    let zip = [0x50u8, 0x4B, 0x03, 0x04, 0x00];
    let dex = [0x64u8, 0x65, 0x78, 0x0A];
    let consumed = vec!["base.apk".to_string(), "inner.zip".to_string()];
    assert_eq!(descend_check("base.apk!!x", &consumed, "", &zip), Some(CliError::Parse {
        source: "base.apk!!x".to_string(),
        message: "internal_path contains an empty segment".to_string(),
    }));
    assert_eq!(descend_check("p", &consumed, "classes.dex", &dex), Some(CliError::Parse {
        source: "base.apk!inner.zip".to_string(),
        message: "cannot descend into non-archive entry classes.dex".to_string(),
    }));
    assert_eq!(descend_check("p", &consumed, "classes.dex", &zip), None);
}

#[test]
fn export_class_picks_the_one_class_of_that_name() {
    let entries = vec![
        ("com/example/Main".to_string(), Some("base.apk!classes.dex".to_string())),
        ("com/example/Other".to_string(), Some("base.apk!classes.dex".to_string())),
        ("com/example/Main".to_string(), Some("split.apk!classes2.dex".to_string())),
        ("com/example/Solo".to_string(), None),
    ];
    assert_eq!(select_class(&entries, "com.example.Other"), Ok(1));
    assert_eq!(select_class(&entries, "Lcom/example/Solo;"), Ok(3));
    assert_eq!(
        select_class(&entries, "com.example.Missing"),
        Err(CliError::NotFound("class not found: com.example.Missing".to_string()))
    );
    assert_eq!(
        select_class(&entries, "com.example.Main"),
        Err(CliError::Ambiguous(
            "class com.example.Main exists in multiple locations; pass --internal-path with one of: base.apk!classes.dex, split.apk!classes2.dex".to_string()
        ))
    );
}

#[test]
fn export_all_with_no_match_names_the_filter() {
    assert_eq!(no_match_error(0, "zzz"), Some(CliError::NotFound("no classes matched filter: zzz".to_string())));
    assert_eq!(no_match_error(3, "zzz"), None);
}

#[test]
fn joining_the_pieces_of_a_path_gives_the_path() {
    for path in ["base.apk!classes2.dex", "a!!b", "!", "", "single"] {
        assert_eq!(join_strings(&split_internal_path(path), "!"), path);
    }
}
