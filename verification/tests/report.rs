use cargo_version_sync::{
    removed_lines, Changeset, Config, Date, Diff, Error, FileInput, Manifest, Metadata, Package,
    Replacement, Replacer, Runner,
};

fn manifest(name: &str, version: &str, config: Option<Config>) -> Manifest {
    Manifest {
        package: Package {
            name: String::from(name),
            version: String::from(version),
            metadata: config.map(|c| Metadata { version_sync: Some(c) }),
        },
    }
}

#[test]
fn date_formats_zero_padded() {
    assert_eq!(Date::from_ymd(2021, 3, 7).unwrap().format_yyyy_mm_dd(), "2021-03-07");
    assert_eq!(Date::from_ymd(987, 12, 31).unwrap().format_yyyy_mm_dd(), "0987-12-31");
}

#[test]
fn date_rejects_out_of_range_parts() {
    assert!(Date::from_ymd(2021, 0, 7).is_none());
    assert!(Date::from_ymd(2021, 13, 7).is_none());
    assert!(Date::from_ymd(2021, 3, 32).is_none());
    assert!(Date::from_ymd(10000, 3, 7).is_none());
}

#[test]
fn today_is_well_formed() {
    let d = Date::today();
    assert!((1..=12).contains(&d.month));
    assert!((1..=31).contains(&d.day));
    assert!(d.year <= 9999);
}

#[test]
fn relative_file_path_strips_the_root() {
    let runner = Runner::new(manifest("foo", "0.2.0", None), String::from("/proj"));
    let diff = Diff {
        file: String::from("/proj/docs/guide.md"),
        content: String::new(),
        replaced: String::from("x"),
    };
    assert_eq!(runner.relative_file_path(&diff).unwrap(), "docs/guide.md");
    let outside = Diff {
        file: String::from("/elsewhere/guide.md"),
        content: String::new(),
        replaced: String::from("x"),
    };
    let err = runner.relative_file_path(&outside).unwrap_err();
    assert!(matches!(err, Error::PathNotFound(ref p) if p == "/elsewhere/guide.md"));
}

#[test]
fn changeset_render_lists_files() {
    let cs = Changeset {
        diffs: vec![
            Diff {
                file: String::from("/proj/README.md"),
                content: String::from("a"),
                replaced: String::from("b"),
            },
            Diff {
                file: String::from("/proj/src/lib.rs"),
                content: String::from("c"),
                replaced: String::from("d"),
            },
        ],
        manifest_dir: String::from("/proj"),
    };
    assert!(!cs.is_empty());
    assert_eq!(
        cs.render(),
        "The version number(s) are not synced in the following files:\n\n  - README.md\n  - src/lib.rs\n\n"
    );
}

#[test]
fn empty_changeset_renders_nothing() {
    let cs = Changeset { diffs: vec![], manifest_dir: String::from("/proj") };
    assert!(cs.is_empty());
    assert_eq!(cs.render(), "");
}

#[test]
fn collect_changeset_wraps_diffs_with_the_root() {
    let config = Config {
        use_preset: false,
        replacements: vec![Replacement {
            file: String::from("README.md"),
            replacers: vec![Replacer::builtin("markdown").unwrap()],
        }],
    };
    let runner = Runner::new(manifest("foo", "0.2.0", Some(config)), String::from("/proj"));
    let files = vec![FileInput {
        path: String::from("/proj/README.md"),
        content: String::from("foo = \"0.1.0\""),
    }];
    let cs = runner.collect_changeset(&files, &Date::from_ymd(2021, 3, 7).unwrap()).unwrap();
    assert_eq!(cs.diffs.len(), 1);
    assert_eq!(cs.manifest_dir, "/proj");
    assert_eq!(
        cs.render(),
        "The version number(s) are not synced in the following files:\n\n  - README.md\n\n"
    );
}

#[test]
fn removed_lines_reports_original_line_numbers() {
    let removed = removed_lines("a\nb\nc", "a\nx\nc");
    assert_eq!(removed, vec![(2, String::from("b"))]);
}

#[test]
fn removed_lines_counts_newlines_in_common_regions() {
    let removed = removed_lines("a\nb\nc\nd", "a\nb\nc\nx");
    assert_eq!(removed, vec![(4, String::from("d"))]);
}

#[test]
fn identical_texts_have_no_removed_lines() {
    assert!(removed_lines("a\nb", "a\nb").is_empty());
}

#[test]
fn error_messages_describe_each_kind() {
    assert_eq!(Error::ManifestMissing.message(), "missing Cargo manifest file");
    assert_eq!(Error::ManifestParse.message(), "malformed Cargo manifest file");
    assert_eq!(
        Error::ManifestRootNotFound.message(),
        "the cargo manifest file is not found"
    );
    assert_eq!(
        Error::InvalidBuiltinTarget(String::from("x")).message(),
        "invalid builtin target: x"
    );
    assert_eq!(
        Error::RegexCompile(String::from("(")).message(),
        "invalid search pattern: ("
    );
    assert_eq!(Error::Io(String::from("denied")).message(), "i/o error: denied");
    assert_eq!(
        Error::PathNotFound(String::from("/a/b")).message(),
        "path not found: /a/b"
    );
}
