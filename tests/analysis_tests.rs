use workbench_core::analysis::{
    check_maintainability_issues, check_performance_issues, check_security_issues, check_style_issues,
    generate_recommendations, perform_static_analysis, split_lines,
};

fn lines(v: &[&str]) -> Vec<String> {
    v.iter().map(|s| s.to_string()).collect()
}

#[test]
fn lines_split_like_std() {
    assert_eq!(split_lines("foo\r\nbar\n\nbaz\r"), vec!["foo", "bar", "", "baz\r"]);
    assert_eq!(split_lines("a\n"), vec!["a"]);
    assert!(split_lines("").is_empty());
}

#[test]
fn security_findings() {
    let ls = lines(&[
        "const q = \"SELECT\" + query + x;",
        "db.Query(`x ${id}`)",
        "el.innerHTML = v;",
        "el.innerHTML = sanitize(v);",
        "let password = \"hunter2\";",
        "nothing here",
    ]);
    let r = check_security_issues(&ls, "a.js");
    let got: Vec<(String, Option<u32>)> = r.iter().map(|i| (i.severity.clone(), i.line)).collect();
    assert_eq!(
        got,
        vec![
            ("critical".to_string(), Some(1)),
            ("critical".to_string(), Some(2)),
            ("major".to_string(), Some(3)),
            ("critical".to_string(), Some(5)),
        ]
    );
    assert!(r.iter().all(|i| i.category == "security" && i.file_path == "a.js"));
}

#[test]
fn performance_and_style_findings() {
    let ls = lines(&["for (x of xs) { db.find(x) }", "fs.readFile(p)", "fs.readFileStream(p)", "// TODO tidy"]);
    let p = check_performance_issues(&ls, "b.js");
    assert_eq!(p.len(), 2);
    assert_eq!(p[0].line, Some(1));
    assert_eq!(p[1].severity, "minor");
    let long = "x".repeat(121);
    let s = check_style_issues(&lines(&[&long, "// FixMe", "fine"]), "c.rs");
    assert_eq!(s.len(), 2);
    assert_eq!(s[0].message, "行过长：121字符");
    assert_eq!(s[1].line, Some(2));
}

#[test]
fn long_functions_are_reported_at_their_start() {
    let mut src = vec!["// header".to_string(), "fn big() {".to_string()];
    for _ in 0..55 {
        src.push("    step();".to_string());
    }
    src.push("}".to_string());
    src.push("fn small() {".to_string());
    src.push("}".to_string());
    let r = check_maintainability_issues(&src, "d.rs");
    assert_eq!(r.len(), 1);
    assert_eq!(r[0].line, Some(2));
    assert_eq!(r[0].message, "函数过长：57行");
}

#[test]
fn analysis_respects_scope() {
    let text = "let token = 'abc';\n// todo: later\n";
    let all = perform_static_analysis(text, "e.ts", "all").unwrap();
    assert_eq!(all.len(), 2);
    assert_eq!(all[0].category, "security");
    assert_eq!(all[1].category, "style");
    let style = perform_static_analysis(text, "e.ts", "style").unwrap();
    assert_eq!(style.len(), 1);
    let none = perform_static_analysis(text, "e.ts", "performance").unwrap();
    assert!(none.is_empty());
    let recs = generate_recommendations(&all, "all");
    assert_eq!(recs, vec!["🚨 立即修复1个严重安全问题", "🔒 建议进行安全培训和代码安全审查流程"]);
    assert_eq!(generate_recommendations(&none, "all"), vec!["✅ 代码质量良好，继续保持"]);
}
