use cargo_version_sync::{
    Config, Date, Error, FileInput, Manifest, Metadata, Package, Pattern, Replacement, Replacer,
    ReplacerContext, Runner,
};

fn manifest(name: &str, version: &str, config: Option<Config>) -> Manifest {
    Manifest {
        package: Package {
            name: String::from(name),
            version: String::from(version),
            metadata: config.map(|c| Metadata { version_sync: Some(c) }),
        },
    }
}

fn fixed_date() -> Date {
    Date::from_ymd(2021, 3, 7).unwrap()
}

#[test]
fn regex_no_match_leaves_text_unchanged() {
    let m = manifest("foo", "0.2.0", None);
    let text = "nothing here mentions the package";
    let mut cx = ReplacerContext::new(text, &m, fixed_date());
    let r = Replacer::regex("absent-pattern", "replacement");
    r.replace(&mut cx).unwrap();
    assert_eq!(cx.finish(), text);
}

#[test]
fn applying_sequence_twice_matches_once() {
    let m = manifest("foo", "0.2.0", None);
    let r = Replacer::builtin("markdown").unwrap();
    let mut cx = ReplacerContext::new("foo = \"0.1.0\"", &m, fixed_date());
    r.replace(&mut cx).unwrap();
    let once = cx.finish();
    let mut cx2 = ReplacerContext::new(once.as_str(), &m, fixed_date());
    r.replace(&mut cx2).unwrap();
    assert_eq!(cx2.finish(), once);
}

#[test]
fn second_run_emits_no_new_diff() {
    let config = Config {
        use_preset: false,
        replacements: vec![Replacement {
            file: String::from("README.md"),
            replacers: vec![Replacer::builtin("markdown").unwrap()],
        }],
    };
    let runner = Runner::new(manifest("foo", "0.2.0", Some(config)), String::from("/proj"));
    let date = fixed_date();
    let files = vec![FileInput {
        path: String::from("/proj/README.md"),
        content: String::from("foo = \"0.1.0\""),
    }];
    let diffs = runner.collect_diffs(&files, &date).unwrap();
    assert_eq!(diffs.len(), 1);
    let rewritten = vec![FileInput {
        path: String::from("/proj/README.md"),
        content: diffs[0].replaced.clone(),
    }];
    let again = runner.collect_diffs(&rewritten, &date).unwrap();
    assert!(again.is_empty());
}

#[test]
fn template_placeholders_compose() {
    let m = manifest("foo", "1.2.3", None);
    let mut cx = ReplacerContext::new("X", &m, fixed_date());
    let r = Replacer::regex("X", "{{name}} v{{version}} ({{date}})");
    r.replace(&mut cx).unwrap();
    assert_eq!(cx.finish(), "foo v1.2.3 (2021-03-07)");
}

#[test]
fn unrecognized_placeholders_stay_verbatim() {
    let m = manifest("foo", "0.2.0", None);
    let mut cx = ReplacerContext::new("X", &m, fixed_date());
    Replacer::regex("X", "{{unknown}} {{version}}").replace(&mut cx).unwrap();
    assert_eq!(cx.finish(), "{{unknown}} 0.2.0");
}

#[test]
fn builtin_markdown_rewrites_dependency_line() {
    let m = manifest("foo", "0.2.0", None);
    let mut cx = ReplacerContext::new("foo = \"0.1.0\"", &m, fixed_date());
    Replacer::builtin("markdown").unwrap().replace(&mut cx).unwrap();
    assert_eq!(cx.finish(), "foo = \"0.2.0\"");
}

#[test]
fn builtin_html_root_url_rewrites_docs_url() {
    let m = manifest("foo", "0.2.0", None);
    let mut cx = ReplacerContext::new("https://docs.rs/foo/0.1.0", &m, fixed_date());
    Replacer::builtin("html-root-url").unwrap().replace(&mut cx).unwrap();
    assert_eq!(cx.finish(), "https://docs.rs/foo/0.2.0");
}

#[test]
fn same_file_twice_concatenates_replacers() {
    let config = Config {
        use_preset: false,
        replacements: vec![
            Replacement {
                file: String::from("doc.txt"),
                replacers: vec![Replacer::regex("alpha", "beta")],
            },
            Replacement {
                file: String::from("doc.txt"),
                replacers: vec![Replacer::regex("beta", "gamma")],
            },
        ],
    };
    let runner = Runner::new(manifest("foo", "0.2.0", Some(config)), String::from("/proj"));
    let date = fixed_date();
    let files = vec![FileInput {
        path: String::from("/proj/doc.txt"),
        content: String::from("alpha"),
    }];
    let diffs = runner.collect_diffs(&files, &date).unwrap();
    assert_eq!(diffs.len(), 1);
    assert_eq!(diffs[0].file, "/proj/doc.txt");
    // The first declared list ran before the second: alpha -> beta -> gamma.
    assert_eq!(diffs[0].replaced, "gamma");
}

#[test]
fn missing_target_file_is_skipped() {
    let config = Config {
        use_preset: false,
        replacements: vec![Replacement {
            file: String::from("generated.txt"),
            replacers: vec![Replacer::builtin("markdown").unwrap()],
        }],
    };
    let runner = Runner::new(manifest("foo", "0.2.0", Some(config)), String::from("/proj"));
    let diffs = runner.collect_diffs(&vec![], &fixed_date()).unwrap();
    assert!(diffs.is_empty());
}

#[test]
fn unknown_builtin_target_is_rejected() {
    let err = Replacer::builtin("bogus").unwrap_err();
    assert!(matches!(err, Error::InvalidBuiltinTarget(ref t) if t == "bogus"));
    assert_eq!(err.message(), "invalid builtin target: bogus");
}

#[test]
fn bad_pattern_fails_with_regex_compile() {
    let m = manifest("foo", "0.2.0", None);
    let mut cx = ReplacerContext::new("text", &m, fixed_date());
    let err = Replacer::regex("[", "x").replace(&mut cx).unwrap_err();
    assert!(matches!(err, Error::RegexCompile(ref p) if p == "["));
}

#[test]
fn bad_pattern_aborts_whole_run() {
    let config = Config {
        use_preset: false,
        replacements: vec![Replacement {
            file: String::from("doc.txt"),
            replacers: vec![Replacer::regex("[", "x")],
        }],
    };
    let runner = Runner::new(manifest("foo", "0.2.0", Some(config)), String::from("/proj"));
    let files = vec![FileInput {
        path: String::from("/proj/doc.txt"),
        content: String::from("text"),
    }];
    let err = runner.collect_diffs(&files, &fixed_date()).unwrap_err();
    assert!(matches!(err, Error::RegexCompile(_)));
}

#[test]
fn preset_builds_readme_and_library_root_entries() {
    let config = Config { use_preset: true, replacements: vec![] };
    let runner = Runner::new(manifest("foo", "0.2.0", Some(config)), String::from("/proj"));
    let date = fixed_date();
    let files = vec![
        FileInput {
            path: String::from("/proj/README.md"),
            content: String::from(
                "foo = \"0.1.0\"\nbadge: https://deps.rs/crate/foo/0.1.0\n",
            ),
        },
        FileInput {
            path: String::from("/proj/src/lib.rs"),
            content: String::from("#![doc(html_root_url = \"https://docs.rs/foo/0.1.0\")]\n"),
        },
    ];
    let diffs = runner.collect_diffs(&files, &date).unwrap();
    assert_eq!(diffs.len(), 2);
    let readme = diffs.iter().find(|d| d.file == "/proj/README.md").unwrap();
    assert_eq!(
        readme.replaced,
        "foo = \"0.2.0\"\nbadge: https://deps.rs/crate/foo/0.2.0\n"
    );
    let libroot = diffs.iter().find(|d| d.file == "/proj/src/lib.rs").unwrap();
    assert_eq!(
        libroot.replaced,
        "#![doc(html_root_url = \"https://docs.rs/foo/0.2.0\")]\n"
    );
}

#[test]
fn unchanged_file_produces_no_diff() {
    let config = Config {
        use_preset: false,
        replacements: vec![Replacement {
            file: String::from("README.md"),
            replacers: vec![Replacer::builtin("markdown").unwrap()],
        }],
    };
    let runner = Runner::new(manifest("foo", "0.2.0", Some(config)), String::from("/proj"));
    let files = vec![FileInput {
        path: String::from("/proj/README.md"),
        content: String::from("foo = \"0.2.0\""),
    }];
    let diffs = runner.collect_diffs(&files, &fixed_date()).unwrap();
    assert!(diffs.is_empty());
}

#[test]
fn crate_version_reads_the_declared_version() {
    let m = manifest("foo", "3.1.4", None);
    assert_eq!(m.crate_version(), "3.1.4");
}

#[test]
fn pattern_builds_regex_and_expands_replacement() {
    let p = Pattern {
        search: String::from("v[0-9.]+"),
        replace: String::from("v{{version}} as of {{date}}"),
    };
    assert!(p.build_regex().is_ok());
    assert_eq!(
        p.replaced_text("2.0.0", &fixed_date()),
        "v2.0.0 as of 2021-03-07"
    );
    let bad = Pattern { search: String::from("("), replace: String::new() };
    assert!(matches!(bad.build_regex().unwrap_err(), Error::RegexCompile(_)));
}

#[test]
fn context_exposes_package_values() {
    let m = manifest("foo", "0.2.0", None);
    let cx = ReplacerContext::new("body", &m, fixed_date());
    assert_eq!(cx.package_name(), "foo");
    assert_eq!(cx.package_version(), "0.2.0");
    assert_eq!(cx.text(), "body");
    assert_eq!(cx.date(), fixed_date());
}

#[test]
fn runner_exposes_manifest_dir_and_config() {
    let config = Config { use_preset: false, replacements: vec![] };
    let runner = Runner::new(manifest("foo", "0.2.0", Some(config)), String::from("/proj"));
    assert_eq!(runner.manifest_dir(), "/proj");
    assert!(!runner.config().unwrap().use_preset);
    let bare = Runner::new(manifest("foo", "0.2.0", None), String::from("/proj"));
    assert!(bare.config().is_none());
}
