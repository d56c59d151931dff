use proc_debug::cli::Arguments;

fn strings(v: &[&str]) -> Vec<String> {
    v.iter().map(|s| s.to_string()).collect()
}

fn bare() -> Arguments {
    Arguments {
        manifest_path: None,
        package: vec![],
        lib: false,
        bins: false,
        bin: vec![],
        examples: false,
        example: vec![],
        tests: false,
        test: vec![],
        benches: false,
        bench: vec![],
        features: None,
        all_features: false,
        no_default_features: false,
        version: false,
        target: None,
        path: vec![],
        verbose: false,
        keywords: vec![],
    }
}

#[test]
fn bare_command_asks_for_everything() {
    assert_eq!(bare().get_env(), "-a");
    let mut args = vec!["check".to_string()];
    bare().extend_args(&mut args);
    assert_eq!(args, strings(&["check"]));
    assert!(!bare().needs_dev_units());
    assert_eq!(bare().proc_filter(), Vec::<String>::new());
}

#[test]
fn query_line_quotes_paths_and_keywords() {
    let mut a = bare();
    a.path = strings(&["::krate::m", "m::n"]);
    a.keywords = strings(&["two words", "x"]);
    assert_eq!(
        a.get_env(),
        "-a --path \"::krate::m\" --path \"m::n\" \"two words\" \"x\""
    );
    a.verbose = true;
    assert_eq!(
        a.get_env(),
        "-a --path \"::krate::m\" --path \"m::n\" -v \"two words\" \"x\""
    );
    a.path = vec![];
    a.keywords = vec![];
    assert_eq!(a.get_env(), "-a -v");
}

#[test]
fn build_options_are_forwarded_in_order() {
    let mut a = bare();
    a.manifest_path = Some("/w/Cargo.toml".to_string());
    a.package = strings(&["p1", "p2"]);
    a.lib = true;
    a.bins = true;
    a.bin = strings(&["b"]);
    a.example = strings(&["e1", "e2"]);
    a.tests = true;
    a.benches = true;
    a.examples = true;
    a.test = strings(&["t"]);
    a.bench = strings(&["n"]);
    a.features = Some("f g".to_string());
    a.all_features = true;
    a.no_default_features = true;
    a.version = true;
    a.target = Some("x86".to_string());
    a.path = strings(&["ignored"]);
    a.verbose = true;
    a.keywords = strings(&["ignored"]);
    let mut args = strings(&["check"]);
    a.extend_args(&mut args);
    assert_eq!(
        args,
        strings(&[
            "check",
            "--manifest-path",
            "/w/Cargo.toml",
            "--package",
            "p1",
            "--package",
            "p2",
            "--lib",
            "--bins",
            "--bin",
            "b",
            "--example",
            "e1",
            "--example",
            "e2",
            "--tests",
            "--benches",
            "--examples",
            "--test",
            "t",
            "--bench",
            "n",
            "--features",
            "f g",
            "--all-features",
            "--no-default-features",
            "--target",
            "x86",
        ])
    );
}

#[test]
fn development_units_are_needed_for_tests_examples_and_benches() {
    for i in 0..6 {
        let mut a = bare();
        match i {
            0 => a.tests = true,
            1 => a.examples = true,
            2 => a.benches = true,
            3 => a.test = strings(&["t"]),
            4 => a.example = strings(&["e"]),
            _ => a.bench = strings(&["b"]),
        }
        assert!(a.needs_dev_units(), "{}", i);
    }
    let mut a = bare();
    a.lib = true;
    a.bins = true;
    a.bin = strings(&["b"]);
    assert!(!a.needs_dev_units());
}

#[test]
fn rooted_paths_name_their_package() {
    let mut a = bare();
    a.path = strings(&["::krate::m::f", "m::f", "::solo", "::", ":::x", "::a:b", ":", ""]);
    assert_eq!(a.proc_filter(), strings(&["krate", "solo", "", "", "a"]));
}
