use cargo_quad_apk::preprocessor::parse_inject_template;
use cargo_quad_apk::preprocessor::try_parse_inject_template;
use cargo_quad_apk::preprocessor::TemplateError;

#[test]
fn parse_inject_template0() {
    let file = r##"
// some comment
//

//% IMPORTS

import a.a.a;

import a.a.b;

//% END

//% MAIN_ACTIVITY_BODY

public int a;

//% END

//% MAIN_ACTIVITY_ON_CREATE

test();

//% END

"##;

    let injects = parse_inject_template(&file);
    assert_eq!(injects.imports, "import a.a.a;\nimport a.a.b;\n");
    assert_eq!(injects.main_activity.body, "public int a;\n");
    assert_eq!(injects.main_activity.on_create, "test();\n");
}

#[test]
fn template_rejects_nested_section() {
    let file = "//% IMPORTS\nimport a;\n//% MAIN_ACTIVITY_BODY\n//% END\n";
    assert_eq!(
        try_parse_inject_template(file).err(),
        Some(TemplateError::SectionAlreadyOpen)
    );
}

#[test]
fn template_rejects_close_without_open() {
    let file = "text\n//% END\n";
    assert_eq!(
        try_parse_inject_template(file).err(),
        Some(TemplateError::NoSectionOpen)
    );
}

use cargo_quad_apk::preprocessor::merge_inject_templates;
use cargo_quad_apk::preprocessor::preprocess_main_activity;
use cargo_quad_apk::preprocessor::substitute_injects;
use cargo_quad_apk::preprocessor::Inject;

#[test]
fn template_keeps_carriage_return_free_lines_and_unclosed_section() {
    let injects = parse_inject_template("//% MAIN_ACTIVITY_ON_PAUSE\r\nstop();\r\nrest");
    assert_eq!(injects.main_activity.on_pause, "stop();\nrest\n");
    assert_eq!(injects.imports, "");
}

#[test]
fn template_ignores_text_outside_sections_and_unknown_markers() {
    let injects = parse_inject_template("outside\n//% MAIN_ACTIVITY_ON_RESUME\n//% OTHER\ngo();\n//% END\nafter\n");
    assert_eq!(injects.main_activity.on_resume, "//% OTHER\ngo();\n");
    assert_eq!(injects.main_activity.body, "");
}

#[test]
fn template_marker_order_decides_ambiguous_lines() {
    // a line naming both the body and the imports opens the imports
    let injects = parse_inject_template("//% MAIN_ACTIVITY_BODY IMPORTS\nx\n//% END\n");
    assert_eq!(injects.imports, "x\n");
    assert_eq!(injects.main_activity.body, "");
    // a marker must start the line
    let injects = parse_inject_template(" //% IMPORTS\nx\n");
    assert_eq!(injects.imports, "");
}

#[test]
fn merge_appends_sections_in_fragment_order() {
    let a = "//% IMPORTS\nimport a;\n//% END\n//% MAIN_ACTIVITY_BODY\nint a;\n//% END\n".to_string();
    let b = "//% IMPORTS\nimport b;\n//% END\n//% MAIN_ACTIVITY_ON_CREATE\nb();\n//% END\n".to_string();
    let merged = merge_inject_templates(&vec![a.clone(), b.clone()]).unwrap();
    assert_eq!(merged.imports, "import a;\nimport b;\n");
    assert_eq!(merged.main_activity.body, "int a;\n");
    assert_eq!(merged.main_activity.on_create, "b();\n");

    let mut by_hand = parse_inject_template(&a);
    by_hand.add(parse_inject_template(&b));
    assert_eq!(by_hand.imports, merged.imports);
    assert_eq!(by_hand.main_activity.body, merged.main_activity.body);
    assert_eq!(by_hand.main_activity.on_create, merged.main_activity.on_create);
    assert_eq!(by_hand.main_activity.on_resume, merged.main_activity.on_resume);
    assert_eq!(by_hand.main_activity.on_pause, merged.main_activity.on_pause);
}

#[test]
fn merge_is_associative_on_values() {
    let part = |s: &str| parse_inject_template(&format!("//% IMPORTS\n{}\n//% END\n", s));
    let mut left = part("a");
    left.add(part("b"));
    left.add(part("c"));
    let mut tail = part("b");
    tail.add(part("c"));
    let mut right = part("a");
    right.add(tail);
    assert_eq!(left.imports, "a\nb\nc\n");
    assert_eq!(left.imports, right.imports);
}

#[test]
fn merge_reports_first_malformed_fragment() {
    let good = "//% IMPORTS\nx\n//% END\n".to_string();
    let close = "//% END\n".to_string();
    let nested = "//% IMPORTS\n//% IMPORTS\n".to_string();
    assert_eq!(
        merge_inject_templates(&vec![good.clone(), close.clone(), nested.clone()]).err(),
        Some(TemplateError::NoSectionOpen)
    );
    assert_eq!(
        merge_inject_templates(&vec![good, nested, close]).err(),
        Some(TemplateError::SectionAlreadyOpen)
    );
    assert!(merge_inject_templates(&vec![]).is_ok());
}

#[test]
fn inject_starts_empty() {
    let inject = Inject::new();
    assert_eq!(inject.imports, "");
    assert_eq!(inject.main_activity.body, "");
    let inject = Inject::default();
    assert_eq!(inject.main_activity.on_create, "");
}

#[test]
fn preprocess_substitutes_names_then_sections() {
    let java = "package TARGET_PACKAGE_NAME;\n//% IMPORTS\nclass A {\n//% MAIN_ACTIVITY_BODY\nvoid c() {\n//% MAIN_ACTIVITY_ON_CREATE\n}\nvoid r() {\n//% MAIN_ACTIVITY_ON_RESUME\n}\nvoid p() {\n//% MAIN_ACTIVITY_ON_PAUSE\n}\nstatic { load(\"LIBRARY_NAME\"); }\n}\n";
    let fragment = "//% IMPORTS\nimport x.Y;\n//% END\n//% MAIN_ACTIVITY_ON_CREATE\ninit();\n//% END\n".to_string();
    let result = preprocess_main_activity(java, "com.example.app", "app", &vec![fragment]).unwrap();
    assert_eq!(
        result,
        "package com.example.app;\nimport x.Y;\n\nclass A {\n\nvoid c() {\ninit();\n\n}\nvoid r() {\n\n}\nvoid p() {\n\n}\nstatic { load(\"app\"); }\n}\n"
    );
}

#[test]
fn preprocess_without_fragments_clears_placeholders() {
    let result = preprocess_main_activity("a //% IMPORTS b LIBRARY_NAME", "p", "lib", &vec![]).unwrap();
    assert_eq!(result, "a  b lib");
    let inject = Inject::new();
    assert_eq!(substitute_injects("//% MAIN_ACTIVITY_BODY", "p", "l", &inject), "");
}

#[test]
fn preprocess_fails_on_malformed_fragment() {
    let result = preprocess_main_activity("x", "p", "l", &vec!["//% END".to_string()]);
    assert_eq!(result.err(), Some(TemplateError::NoSectionOpen));
}
