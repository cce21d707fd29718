use ai_digest::{
    contains_null_byte, contains_substring, default_ignore_patterns, file_record, ignore_patterns, is_binary_content,
    is_ignored, normalize_content, parse_ignore_patterns, record_content, render_digest,
    render_section, select_files, WalkEntry,
};

fn strings(items: &[&str]) -> Vec<String> {
    items.iter().map(|s| s.to_string()).collect()
}

fn entry(path: &str, is_dir: bool) -> WalkEntry {
    WalkEntry { path: path.to_string(), is_dir }
}

fn listed_patterns() -> Vec<String> {
    strings(&[
        "target",
        "node_modules",
        ".git",
        "package-lock.json",
        "npm-debug.log",
        "yarn.lock",
        "yarn-error.log",
        "pnpm-lock.yaml",
        "bun.lockb",
        "deno.lock",
        "vendor",
        "composer.lock",
        "__pycache__",
        "*.pyc",
        "*.pyo",
        "*.pyd",
        ".Python",
        "pip-log.txt",
        "pip-delete-this-directory.txt",
        ".venv",
        "venv",
        "ENV",
        "env",
        ".godot",
        "*.import",
        "Gemfile.lock",
        ".bundle",
        "*.class",
        ".gradle",
        "build",
        "pom.xml.tag",
        "pom.xml.releaseBackup",
        "pom.xml.versionsBackup",
        "pom.xml.next",
        "bin",
        "obj",
        "*.suo",
        "*.user",
        "go.sum",
        "Cargo.lock",
        ".svn",
        ".hg",
        ".DS_Store",
        "Thumbs.db",
        ".env",
        ".env.local",
        ".env.development.local",
        ".env.test.local",
        ".env.production.local",
        "*.env",
        "*.env.*",
        ".svelte-kit",
        ".next",
        ".nuxt",
        ".vuepress",
        ".cache",
        "dist",
        "tmp",
        "codebase.md",
        ".turbo",
        ".vercel",
        ".netlify",
        "LICENSE",
    ])
}

#[test]
fn test_read_ignore_file() {
    let patterns = parse_ignore_patterns("target\nnode_modules\n.git\n");
    assert_eq!(patterns, vec!["target", "node_modules", ".git"]);
}

#[test]
fn test_is_binary() {
    let binary: Vec<u8> = vec![0, 159, 146, 150];
    assert!(is_binary_content(true, Some(&binary)));

    let text = "This is a text file.\n".as_bytes();
    assert!(!is_binary_content(true, Some(text)));
}

#[test]
fn leading_whitespace_removed_trailing_kept() {
    let source = "   Line 1\n   Line 2   \nLine 3   \n";

    let content = normalize_content(source, true);
    assert_eq!(content, "Line 1\nLine 2   \nLine 3   ");

    let content = normalize_content(source, false);
    assert_eq!(content, "   Line 1\n   Line 2   \nLine 3   \n");
}

#[test]
fn test_ignore_with_custom_exclude() {
    let from_file = parse_ignore_patterns("target\nnode_modules\n.git\n");
    assert_eq!(from_file, vec!["target", "node_modules", ".git"]);

    let patterns = listed_patterns();
    let entries: Vec<WalkEntry> = vec![entry("work/input", true)];
    let chosen = select_files(&entries, &patterns);
    assert!(chosen.is_empty());
    assert_eq!(render_digest(&[]), "");
}

#[test]
fn test_process_files_with_default_ignore() {
    let patterns = listed_patterns();
    let entries = vec![entry("work/input", true), entry("work/input/test.js", false)];
    let chosen = select_files(&entries, &patterns);
    assert_eq!(chosen, vec![1]);

    let record = file_record(
        entries[1].path.clone(),
        false,
        Some("console.log('Hello, World!');\n"),
        false,
    );
    let digest = render_digest(&[record]);
    assert!(digest.contains("test.js"));
    assert!(digest.contains("console.log('Hello, World!');"));
}

#[test]
fn test_process_files() {
    let entries = vec![entry("input", true), entry("input/test.txt", false)];
    let ignore_patterns: Vec<String> = vec![];
    let chosen = select_files(&entries, &ignore_patterns);
    assert_eq!(chosen, vec![1]);

    let record = file_record(entries[1].path.clone(), false, Some("Hello, world!\n"), false);
    let output_content = render_digest(&[record]);
    assert!(output_content.contains("test.txt"));
    assert!(output_content.contains("Hello, world!"));
}

#[test]
fn one_file_scenario_section_is_exact() {
    let record = file_record("root/test.txt".to_string(), false, Some("Hello, world!\n"), false);
    let digest = render_digest(&[record]);
    assert_eq!(digest, "## File: root/test.txt\n\n```\nHello, world!\n\n```\n\n");
}

#[test]
fn render_section_layout() {
    assert_eq!(render_section("a/b.rs", "fn main() {}"), "## File: a/b.rs\n\n```\nfn main() {}\n```\n\n");
    assert_eq!(render_section("", ""), "## File: \n\n```\n\n```\n\n");
}

#[test]
fn digest_keeps_record_order() {
    let first = file_record("x".to_string(), false, Some("1"), false);
    let second = file_record("y".to_string(), false, Some("2"), false);
    assert_eq!(
        render_digest(&[first, second]),
        "## File: x\n\n```\n1\n```\n\n## File: y\n\n```\n2\n```\n\n"
    );
}

#[test]
fn nested_node_modules_is_ignored() {
    let patterns = strings(&["node_modules"]);
    assert!(is_ignored("project/node_modules/x.js", &patterns));
    assert!(is_ignored("a/b/c/node_modules/d/e/f.js", &patterns));
    assert!(is_ignored("node_modules", &patterns));
    assert!(!is_ignored("project/node_module/x.js", &patterns));
}

#[test]
fn matching_is_literal_and_case_sensitive() {
    let patterns = strings(&["*.pyc"]);
    assert!(!is_ignored("src/app.pyc", &patterns));
    assert!(is_ignored("src/weird*.pyc", &patterns));
    assert!(!is_ignored("src/TARGET/x", &strings(&["target"])));
    assert!(is_ignored("anything", &strings(&[""])));
    assert!(!is_ignored("anything", &[]));
}

#[test]
fn contains_substring_edges() {
    assert!(contains_substring("abc", ""));
    assert!(contains_substring("", ""));
    assert!(!contains_substring("", "a"));
    assert!(contains_substring("abc", "abc"));
    assert!(!contains_substring("ab", "abc"));
    assert!(contains_substring("aaab", "aab"));
    assert!(contains_substring("héllo wörld", "ö"));
}

#[test]
fn selection_keeps_files_once_and_drops_ignored_and_directories() {
    let patterns = strings(&["node_modules", ".git"]);
    let entries = vec![
        entry("p", true),
        entry("p/a.rs", false),
        entry("p/node_modules/x.js", false),
        entry("p/.git/HEAD", false),
        entry("p/sub", true),
        entry("p/sub/b.rs", false),
    ];
    assert_eq!(select_files(&entries, &patterns), vec![1, 5]);
    assert_eq!(select_files(&[], &patterns), Vec::<usize>::new());
}

#[test]
fn selection_is_stable_across_walk_orders() {
    let patterns = strings(&["skip"]);
    let a = vec![entry("r/x", false), entry("r/skip/y", false), entry("r/z", false)];
    let b = vec![entry("r/z", false), entry("r/x", false), entry("r/skip/y", false)];
    let mut pa: Vec<String> =
        select_files(&a, &patterns).into_iter().map(|i| a[i].path.clone()).collect();
    let mut pb: Vec<String> =
        select_files(&b, &patterns).into_iter().map(|i| b[i].path.clone()).collect();
    pa.sort();
    pb.sort();
    assert_eq!(pa, pb);
    assert_eq!(pa, vec!["r/x", "r/z"]);
}

#[test]
fn null_byte_anywhere_means_binary() {
    assert!(contains_null_byte(&[0]));
    assert!(contains_null_byte(&[65, 66, 0]));
    assert!(contains_null_byte(&[65, 0, 66]));
    assert!(!contains_null_byte(&[]));
    assert!(!contains_null_byte(&[1, 2, 255]));
    assert!(!is_binary_content(false, Some(&[0])));
    assert!(!is_binary_content(true, None));
}

#[test]
fn binary_file_gets_omission_placeholder() {
    let data: Vec<u8> = vec![104, 105, 0, 33];
    let binary = is_binary_content(true, Some(&data));
    assert_eq!(record_content(binary, Some("hi\0!"), false), "[Binary file omitted]");
    assert_eq!(record_content(binary, None, true), "[Binary file omitted]");
}

#[test]
fn unreadable_file_gets_error_placeholder() {
    assert_eq!(record_content(false, None, false), "[Error reading file]");
    let record = file_record("bad.txt".to_string(), false, None, true);
    assert_eq!(record.path, "bad.txt");
    assert_eq!(record.content, "[Error reading file]");
}

#[test]
fn record_content_normalizes_text() {
    assert_eq!(record_content(false, Some("  a\n  b\n"), true), "a\nb");
    assert_eq!(record_content(false, Some("  a\n  b\n"), false), "  a\n  b\n");
}

#[test]
fn normalization_keeps_blank_lines_and_trailing_spaces() {
    assert_eq!(normalize_content("a  \n\n   \n\tb", true), "a  \n\n\nb");
    assert_eq!(normalize_content("", true), "");
    assert_eq!(normalize_content("\n", true), "");
    assert_eq!(normalize_content("\n\n", true), "\n");
    assert_eq!(normalize_content("x\r\n  y\r\n", true), "x\ny");
    assert_eq!(normalize_content("x\r", true), "x\r");
    assert_eq!(normalize_content("\u{3000}\u{a0} z", true), "z");
}

#[test]
fn normalization_off_is_identity() {
    for s in ["", "\n", "  a\r\n b \n", "no newline", "\t\tx\n\n"] {
        assert_eq!(normalize_content(s, false), s);
    }
}

#[test]
fn ignore_file_lines_are_trimmed_and_blank_ones_dropped() {
    assert_eq!(parse_ignore_patterns("  a  \n\n \t \nb\r\n c"), vec!["a", "b", "c"]);
    assert_eq!(parse_ignore_patterns(""), Vec::<String>::new());
    assert_eq!(parse_ignore_patterns("x\nx\n"), vec!["x", "x"]);
}

#[test]
fn defaults_come_first_then_file_patterns() {
    let defaults = default_ignore_patterns();
    assert_eq!(defaults.len(), 65);
    assert_eq!(defaults[0], "idea");
    assert_eq!(defaults[64], "LICENSE");
    assert!(defaults.contains(&"node_modules".to_string()));

    let from_file = strings(&["custom", "idea"]);
    let all = ignore_patterns(true, &from_file);
    assert_eq!(all.len(), 67);
    assert_eq!(all[..65].to_vec(), defaults);
    assert_eq!(all[65..].to_vec(), from_file);

    assert_eq!(ignore_patterns(false, &from_file), from_file);
}

#[test]
fn whitespace_set_matches_unicode() {
    for c in (0u32..=0x10FFFF).filter_map(char::from_u32) {
        assert_eq!(ai_digest::text::is_whitespace_char(c), c.is_whitespace(), "{:?}", c);
    }
}
