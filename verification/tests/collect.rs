use formsy_cli::collect::{
    is_eligible_path, language_for_extension, normalize_requested_extension, normalized_extension,
    parse_git_inventory, select_source_paths, source_file_payload, InventoryError,
};

fn strings(items: &[&str]) -> Vec<String> {
    items.iter().map(|s| s.to_string()).collect()
}

#[test]
fn auto_discovery_uses_git_inventory_and_supported_languages() {
    // What `git ls-files -z --cached --others --exclude-standard` reports for a work tree with
    // `.gitignore` = "node_modules/", src/main.js, src/extra.ts, tool.py, node_modules/vendor.js
    // and README.md.
    let reported = b".gitignore\0README.md\0src/main.js\0tool.py\0src/extra.ts\0";
    let inventory = parse_git_inventory(reported).expect("inventory");

    let paths = select_source_paths(&inventory, &Vec::new());
    let files: Vec<_> = paths.into_iter().map(|p| source_file_payload(p, String::new())).collect();
    let paths: Vec<_> = files.iter().map(|file| file.path.as_str()).collect();
    assert_eq!(paths, ["src/extra.ts", "src/main.js", "tool.py"]);
    assert_eq!(files[0].language, "typescript");
    assert_eq!(files[1].language, "javascript");
    assert_eq!(files[2].language, "python");
}

#[test]
fn explicit_extensions_restrict_and_can_override_auto_languages() {
    // What the gitignore-aware walk yields for a directory holding `.gitignore` = "ignored/",
    // README.md, main.js and ignored/notes.md.
    let inventory = strings(&["README.md", "main.js"]);

    let paths = select_source_paths(&inventory, &vec![".MD".to_string()]);
    let files: Vec<_> = paths.into_iter().map(|p| source_file_payload(p, "include me\n".to_string())).collect();
    assert_eq!(files.len(), 1);
    assert_eq!(files[0].path, "README.md");
    assert_eq!(files[0].language, "md");
}

#[test]
fn paths_sort_by_component_and_duplicates_go() {
    let inventory = strings(&["a.py", "a-b/x.py", "a/b.py", "a.py", "b/c.py", "a/b.py"]);
    let selected = select_source_paths(&inventory, &Vec::new());
    assert_eq!(selected, strings(&["a/b.py", "a-b/x.py", "a.py", "b/c.py"]));
}

#[test]
fn selecting_again_changes_nothing() {
    let inventory = strings(&["z.rs", "lib/y.go", "lib/x.GO", "notes.txt"]);
    let once = select_source_paths(&inventory, &Vec::new());
    assert_eq!(once, strings(&["lib/x.GO", "lib/y.go", "z.rs"]));
    assert_eq!(select_source_paths(&once, &Vec::new()), once);
}

#[test]
fn blank_extensions_mean_automatic_selection() {
    let inventory = strings(&["a.py", "b.md"]);
    assert_eq!(select_source_paths(&inventory, &strings(&["", " . "])), strings(&["a.py"]));
    assert_eq!(select_source_paths(&inventory, &strings(&[" ..Md ", ""])), strings(&["b.md"]));
}

#[test]
fn requested_extensions_are_normalized() {
    assert_eq!(normalize_requested_extension("  .PY "), "py");
    assert_eq!(normalize_requested_extension("..Ts"), "ts");
    assert_eq!(normalize_requested_extension(". py"), " py");
    assert!(is_eligible_path("x/y.Md", &strings(&["md"])));
    assert!(!is_eligible_path("x/y.md", &strings(&["py"])));
}

#[test]
fn extension_of_a_path() {
    assert_eq!(normalized_extension("src/Main.JS").as_deref(), Some("js"));
    assert_eq!(normalized_extension("dir.d/file").as_deref(), None);
    assert_eq!(normalized_extension("dir/.bashrc").as_deref(), None);
    assert_eq!(normalized_extension("dir/.eslintrc.json").as_deref(), Some("json"));
    assert_eq!(normalized_extension("archive.tar.gz").as_deref(), Some("gz"));
    assert_eq!(normalized_extension("name.").as_deref(), Some(""));
    assert_eq!(normalized_extension("a/..").as_deref(), None);
    assert_eq!(normalized_extension("").as_deref(), None);
}

#[test]
fn codegraph_languages() {
    assert_eq!(language_for_extension("py"), Some("python"));
    assert_eq!(language_for_extension("h"), Some("c"));
    assert_eq!(language_for_extension("cxx"), Some("cpp"));
    assert_eq!(language_for_extension("kts"), Some("kotlin"));
    assert_eq!(language_for_extension("dart"), Some("dart"));
    assert_eq!(language_for_extension("PY"), None);
    assert_eq!(language_for_extension("md"), None);
}

#[test]
fn git_inventory_is_split_at_nul_bytes() {
    let out = b"src/main.js\0tool.py\0\0src/extra.ts\0";
    assert_eq!(parse_git_inventory(out), Ok(strings(&["src/main.js", "tool.py", "src/extra.ts"])));
    assert_eq!(parse_git_inventory(b""), Ok(Vec::new()));
    assert_eq!(parse_git_inventory(b"last"), Ok(strings(&["last"])));
    assert_eq!(parse_git_inventory(b"a..b/c\0...\0x/..y"), Ok(strings(&["a..b/c", "...", "x/..y"])));
}

#[test]
fn git_inventory_refuses_paths_outside_the_root() {
    assert_eq!(
        parse_git_inventory(b"ok.py\0../secret.py\0"),
        Err(InventoryError::OutsideRoot { path: "../secret.py".to_string() })
    );
    assert_eq!(
        parse_git_inventory(b"/etc/passwd"),
        Err(InventoryError::OutsideRoot { path: "/etc/passwd".to_string() })
    );
    assert_eq!(
        parse_git_inventory(b"a/b/.."),
        Err(InventoryError::OutsideRoot { path: "a/b/..".to_string() })
    );
    assert_eq!(
        InventoryError::OutsideRoot { path: "../x".to_string() }.message(),
        "git reported path outside repo-root: \"../x\""
    );
}

#[test]
fn outside_root_message_quotes_the_path_as_a_path() {
    let message = InventoryError::OutsideRoot { path: "../it's".to_string() }.message();
    assert_eq!(
        message,
        format!("git reported path outside repo-root: {:?}", std::path::Path::new("../it's"))
    );
    assert_eq!(message, "git reported path outside repo-root: \"../it's\"");
}

#[test]
fn git_inventory_refuses_non_utf8_paths() {
    assert_eq!(parse_git_inventory(b"ok.py\0bad\xff.py\0../later"), Err(InventoryError::NotUtf8));
    assert_eq!(InventoryError::NotUtf8.message(), "git reported a path that is not valid UTF-8");
    assert_eq!(parse_git_inventory("caf\u{e9}.py".as_bytes()), Ok(strings(&["caf\u{e9}.py"])));
}
