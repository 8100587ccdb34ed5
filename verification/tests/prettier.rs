use rtk_js::prettier::{
    checked_filter_prettier_output, filter_prettier_output, has_source_extension,
};

fn count_tokens(s: &str) -> usize {
    s.split_whitespace().count()
}

#[test]
fn test_filter_all_formatted() {
    let output = r#"
Checking formatting...
All matched files use Prettier code style!
        "#;
    let result = filter_prettier_output(output);
    assert!(result.contains("Prettier"));
    assert!(result.contains("All files formatted correctly"));
}

#[test]
fn test_filter_files_need_formatting() {
    let output = r#"
Checking formatting...
src/components/ui/button.tsx
src/lib/auth/session.ts
src/pages/dashboard.tsx
Code style issues found in the above file(s). Forgot to run Prettier?
        "#;
    let result = filter_prettier_output(output);
    assert!(result.contains("3 files need formatting"));
    assert!(result.contains("button.tsx"));
    assert!(result.contains("session.ts"));
}

#[test]
fn test_filter_many_files() {
    let mut output = String::from("Checking formatting...\n");
    for i in 0..15 {
        output.push_str(&format!("src/file{}.ts\n", i));
    }
    let result = filter_prettier_output(&output);
    assert!(result.contains("15 files need formatting"));
    assert!(result.contains("... +5 more files"));
}

#[test]
fn test_filter_empty_output() {
    let result = filter_prettier_output("");
    assert!(result.contains("Error"));
    assert!(!result.contains("All files formatted"));
}

#[test]
fn test_filter_whitespace_only_output() {
    let result = filter_prettier_output("   \n\n  ");
    assert!(result.contains("Error"));
    assert!(!result.contains("All files formatted"));
}

#[test]
fn test_filter_prettier3_warn_files_are_surfaced() {
    let output = r#"Checking formatting...
[warn] src/components/ui/button.tsx
[warn] src/lib/auth/session.ts
[warn] src/pages/dashboard.tsx
[warn] Code style issues found in 3 files. Run Prettier with --write to fix.
"#;
    let result = filter_prettier_output(output);
    assert!(
        result.contains("3 files need formatting"),
        "expected 3 failing files, got: {result}"
    );
    assert!(result.contains("button.tsx"));
    assert!(result.contains("session.ts"));
    assert!(result.contains("dashboard.tsx"));
    assert!(
        !result.contains("All files formatted"),
        "must not report success when Prettier 3 flagged issues"
    );
}

#[test]
fn test_filter_prettier3_summary_without_files() {
    let output = "[warn] Code style issues found in 2 files. Run Prettier with --write to fix.";
    let result = filter_prettier_output(output);
    assert!(!result.contains("All files formatted"));
    assert!(result.to_lowercase().contains("issues"));
}

#[test]
fn test_filter_prettier3_all_good() {
    let output = "Checking formatting...\nAll matched files use Prettier code style!";
    let result = filter_prettier_output(output);
    assert!(result.contains("All files formatted correctly"));
}

#[test]
fn test_prettier_savings_over_60_percent() {
    let mut input = String::from("Checking formatting...\n");
    for i in 0..40 {
        input.push_str(&format!("[warn] src/module{i}/component{i}.tsx\n"));
    }
    input.push_str("[warn] Code style issues found in 40 files. Run Prettier with --write to fix.\n");
    let output = filter_prettier_output(&input);
    let input_tokens = count_tokens(&input);
    let output_tokens = count_tokens(&output);
    let savings = 100.0 - (output_tokens as f64 / input_tokens as f64 * 100.0);
    assert!(
        savings >= 60.0,
        "Prettier filter: expected >=60% savings, got {savings:.1}%"
    );
}

#[test]
fn the_messages_are_exact() {
    assert_eq!(filter_prettier_output("\n"), "Error: prettier produced no output");
    assert_eq!(
        filter_prettier_output("All matched files use Prettier code style!"),
        "Prettier: All files formatted correctly"
    );
    assert_eq!(
        filter_prettier_output("[error] No parser could be inferred"),
        "Prettier: code style issues found (see raw output for details)"
    );
    assert_eq!(
        filter_prettier_output("nothing that names a file"),
        "Prettier: All files formatted correctly"
    );
    assert_eq!(
        filter_prettier_output("src/a.ts\nsrc/b.css\n2 files were formatted"),
        "Prettier: 2 files formatted"
    );
    assert_eq!(
        filter_prettier_output("[warn] Code style issues found\nfiles formatted"),
        "Prettier: code style issues found (see raw output for details)"
    );
}

#[test]
fn the_list_is_exact() {
    let mut output = String::new();
    for i in 0..11 {
        output.push_str(&format!("  [warn] f{}.md\r\n", i));
    }
    let mut expected = String::from("Prettier: 11 files need formatting\n");
    for i in 0..10 {
        expected.push_str(&format!("{}. f{}.md\n", i + 1, i));
    }
    expected.push_str("\n... +1 more files");
    assert_eq!(filter_prettier_output(&output), expected);
}

#[test]
fn files_already_in_order_are_counted() {
    assert_eq!(
        filter_prettier_output("5 All matched files use Prettier code style!\nsrc/a.ts\n"),
        "Prettier: 1 files need formatting\n1. src/a.ts\n\n4 files already formatted"
    );
    assert_eq!(
        filter_prettier_output("+1 All matched files use Prettier code style!\na.vue"),
        "Prettier: 1 files need formatting\n1. a.vue\n\n0 files already formatted"
    );
    // A count that does not fit is no count.
    assert_eq!(
        filter_prettier_output("99999999999999999999999 All matched files use Prettier\na.ts"),
        "Prettier: 1 files need formatting\n1. a.ts"
    );
}

#[test]
fn contradictory_counts_are_refused() {
    assert_eq!(
        checked_filter_prettier_output("1 All matched files use Prettier\na.ts\nb.ts"),
        None
    );
    assert_eq!(
        checked_filter_prettier_output("2 All matched files use Prettier\na.ts\nb.ts"),
        Some(String::from(
            "Prettier: 2 files need formatting\n1. a.ts\n2. b.ts\n\n0 files already formatted"
        ))
    );
}

#[test]
fn both_forms_of_a_path_are_recognised() {
    assert_eq!(filter_prettier_output("src/x.svelte"), filter_prettier_output("[warn] src/x.svelte"));
}

#[test]
fn lines_about_the_check_name_no_file() {
    assert_eq!(
        filter_prettier_output("Checking x.ts\nAll matched x.ts\nCode style x.ts\n[warn] Checking y.ts"),
        "Prettier: All files formatted correctly"
    );
}

#[test]
fn source_extensions() {
    for path in [
        "a.ts", "a.tsx", "a.js", "a.jsx", "a.mjs", "a.cjs", "a.json", "a.md", "a.mdx", "a.yml",
        "a.yaml", "a.html", "a.vue", "a.svelte", "a.css", "a.scss", "a.less", ".ts",
    ] {
        assert!(has_source_extension(path), "{path}");
    }
    for path in ["", "ts", "a.TS", "a.rs", "a.ts ", "a.tsx2"] {
        assert!(!has_source_extension(path), "{path}");
    }
}

#[test]
fn the_name_of_a_failing_file_does_not_hide_it() {
    assert_eq!(
        filter_prettier_output(
            "Checking formatting...\n[warn] src/formatted.ts\n[warn] Code style issues found in 1 file. Run Prettier with --write to fix."
        ),
        "Prettier: 1 files need formatting\n1. src/formatted.ts"
    );
    assert_eq!(
        filter_prettier_output("src/modified/a.ts\nsrc/b.ts"),
        "Prettier: 2 files need formatting\n1. src/modified/a.ts\n2. src/b.ts"
    );
    // An issue does not say that files were written either.
    assert_eq!(
        filter_prettier_output("[error] src/formatted.ts: SyntaxError\nsrc/a.ts"),
        "Prettier: 1 files need formatting\n1. src/a.ts"
    );
    // A line that is neither does.
    assert_eq!(
        filter_prettier_output("src/formatted.ts\nsrc/a.ts\n2 files modified"),
        "Prettier: 2 files formatted"
    );
}

#[test]
fn both_forms_of_a_list_give_one_report() {
    let paths = ["src/a.ts", "src/formatted.css", "Checking b.ts", "All matched c.ts", "d.rs"];
    let bare = paths.join("\n");
    let warned: Vec<String> = paths.iter().map(|p| format!("[warn] {p}")).collect();
    assert_eq!(
        filter_prettier_output(&bare),
        "Prettier: 2 files need formatting\n1. src/a.ts\n2. src/formatted.css"
    );
    assert_eq!(filter_prettier_output(&bare), filter_prettier_output(&warned.join("\n")));
}
