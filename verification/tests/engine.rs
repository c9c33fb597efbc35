//! End-to-end checks of the generation engine: answer resolution, the
//! render walk and the cleanup pass, run against the real template engine
//! and glob matcher.

use kickstart::{
    AnswerContext, CleanupRule, Condition, GenError, OutputOp, Template, TemplateDefinition,
    TemplateEntry, Value, Variable, plan_cleanup, plan_tree, resolve_context, validate_definition,
};

fn var(name: &str, default: Value) -> Variable {
    Variable {
        name: name.to_string(),
        prompt: format!("{}?", name),
        default,
        choices: None,
        validation: None,
        only_if: None,
    }
}

fn empty_def() -> TemplateDefinition {
    TemplateDefinition {
        variables: Vec::new(),
        ignore: Vec::new(),
        copy_without_render: Vec::new(),
        cleanup: Vec::new(),
    }
}

fn file_entry(rel: &str, content: &[u8], is_binary: bool) -> TemplateEntry {
    TemplateEntry {
        rel_path: rel.to_string(),
        is_dir: false,
        content: content.to_vec(),
        is_binary,
    }
}

fn dir_entry(rel: &str) -> TemplateEntry {
    TemplateEntry { rel_path: rel.to_string(), is_dir: true, content: Vec::new(), is_binary: false }
}

#[test]
fn scenario_string_variable_renders_path_and_content() {
    let mut def = empty_def();
    def.variables.push(var("project_name", Value::Text("app".to_string())));
    let ctx = resolve_context(&def, &vec![Value::Text("demo".to_string())]);
    let entries = vec![file_entry(
        "{{project_name}}/main.txt",
        b"Hello {{project_name}}",
        false,
    )];
    let ops = plan_tree(&def, &ctx, &entries).unwrap();
    assert_eq!(ops.len(), 1);
    match &ops[0] {
        OutputOp::WriteText { dest, content } => {
            assert_eq!(dest, "demo/main.txt");
            assert_eq!(content, "Hello demo");
        }
        other => panic!("expected rendered text, got {:?}", other),
    }
}

#[test]
fn scenario_ignored_file_is_never_emitted() {
    let mut def = empty_def();
    def.ignore.push("secret.txt".to_string());
    let ctx = resolve_context(&def, &Vec::new());
    let entries = vec![
        file_entry("secret.txt", b"token", false),
        file_entry("kept.txt", b"fine", false),
    ];
    let ops = plan_tree(&def, &ctx, &entries).unwrap();
    assert_eq!(ops.len(), 1);
    match &ops[0] {
        OutputOp::WriteText { dest, .. } => assert_eq!(dest, "kept.txt"),
        other => panic!("expected kept.txt alone, got {:?}", other),
    }
}

#[test]
fn scenario_cleanup_fires_only_on_matching_answer() {
    let mut def = empty_def();
    def.variables.push(var("use_docker", Value::Boolean(false)));
    def.cleanup.push(CleanupRule {
        name: "use_docker".to_string(),
        value: Value::Boolean(false),
        paths: vec!["Dockerfile".to_string()],
    });

    let ctx_no = resolve_context(&def, &vec![Value::Boolean(false)]);
    let deleted = plan_cleanup(&def, &ctx_no).unwrap();
    assert_eq!(deleted, vec!["Dockerfile".to_string()]);

    let ctx_yes = resolve_context(&def, &vec![Value::Boolean(true)]);
    let kept = plan_cleanup(&def, &ctx_yes).unwrap();
    assert!(kept.is_empty());
}

#[test]
fn scenario_pattern_exempt_text_is_copied_verbatim() {
    let mut def = empty_def();
    def.copy_without_render.push("*.png".to_string());
    let ctx = resolve_context(&def, &Vec::new());
    // Valid UTF-8 bytes that even hold template syntax: still copied.
    let bytes = b"{{ not rendered }}".to_vec();
    let entries = vec![file_entry("logo.png", &bytes, false)];
    let ops = plan_tree(&def, &ctx, &entries).unwrap();
    assert_eq!(ops.len(), 1);
    match &ops[0] {
        OutputOp::CopyBytes { dest, content } => {
            assert_eq!(dest, "logo.png");
            assert_eq!(content, &bytes);
        }
        other => panic!("expected a verbatim copy, got {:?}", other),
    }
}

#[test]
fn binary_file_is_copied_verbatim() {
    let def = empty_def();
    let ctx = resolve_context(&def, &Vec::new());
    let bytes = vec![0u8, 159, 146, 150];
    let entries = vec![file_entry("blob.bin", &bytes, true)];
    let ops = plan_tree(&def, &ctx, &entries).unwrap();
    match &ops[0] {
        OutputOp::CopyBytes { dest, content } => {
            assert_eq!(dest, "blob.bin");
            assert_eq!(content, &bytes);
        }
        other => panic!("expected a verbatim copy, got {:?}", other),
    }
}

#[test]
fn literal_path_is_its_own_destination() {
    let def = empty_def();
    let ctx = resolve_context(&def, &Vec::new());
    let entries = vec![dir_entry("static"), file_entry("static/readme.txt", b"plain", false)];
    let ops = plan_tree(&def, &ctx, &entries).unwrap();
    assert_eq!(ops.len(), 2);
    match &ops[0] {
        OutputOp::MakeDir { dest } => assert_eq!(dest, "static"),
        other => panic!("expected the directory first, got {:?}", other),
    }
    match &ops[1] {
        OutputOp::WriteText { dest, content } => {
            assert_eq!(dest, "static/readme.txt");
            assert_eq!(content, "plain");
        }
        other => panic!("expected the file second, got {:?}", other),
    }
}

#[test]
fn ignored_directory_takes_descendants_along() {
    let mut def = empty_def();
    def.ignore.push("vendor".to_string());
    let ctx = resolve_context(&def, &Vec::new());
    let entries = vec![
        dir_entry("vendor"),
        file_entry("vendor/lib.js", b"x", false),
        // String-prefix matching also catches a sibling sharing the
        // prefix; that is the documented matching policy.
        file_entry("vendored.txt", b"y", false),
    ];
    let ops = plan_tree(&def, &ctx, &entries).unwrap();
    assert!(ops.is_empty());
}

#[test]
fn conditioned_variable_is_skipped_on_mismatch() {
    let mut def = empty_def();
    def.variables.push(var("use_docker", Value::Boolean(false)));
    let mut registry = var("registry", Value::Text("docker.io".to_string()));
    registry.only_if = Some(Condition {
        name: "use_docker".to_string(),
        value: Value::Boolean(true),
    });
    def.variables.push(registry);

    let ctx = resolve_context(&def, &vec![Value::Boolean(false)]);
    assert!(ctx.get("use_docker").is_some());
    assert!(ctx.get("registry").is_none());

    let ctx2 = resolve_context(&def, &vec![Value::Boolean(true)]);
    assert_eq!(ctx2.get("registry"), Some(&Value::Text("docker.io".to_string())));
}

#[test]
fn conditioned_variable_consumes_no_answer() {
    let mut def = empty_def();
    def.variables.push(var("kind", Value::Text("lib".to_string())));
    let mut extra = var("extra", Value::Text("none".to_string()));
    extra.only_if = Some(Condition { name: "kind".to_string(), value: Value::Text("bin".to_string()) });
    def.variables.push(extra);
    def.variables.push(var("port", Value::Integer(8080)));

    // "extra" is skipped, so the second supplied answer goes to "port".
    let ctx = resolve_context(
        &def,
        &vec![Value::Text("lib".to_string()), Value::Integer(3000)],
    );
    assert_eq!(ctx.get("port"), Some(&Value::Integer(3000)));
    assert!(ctx.get("extra").is_none());
}

#[test]
fn missing_answers_fall_back_to_defaults() {
    let mut def = empty_def();
    def.variables.push(var("name", Value::Text("app".to_string())));
    def.variables.push(var("port", Value::Integer(8080)));
    let ctx = resolve_context(&def, &Vec::new());
    assert_eq!(ctx.get("name"), Some(&Value::Text("app".to_string())));
    assert_eq!(ctx.get("port"), Some(&Value::Integer(8080)));
}

#[test]
fn answer_outside_choices_falls_back_to_default() {
    let mut def = empty_def();
    let mut licence = var("licence", Value::Text("mit".to_string()));
    licence.choices = Some(vec![
        Value::Text("mit".to_string()),
        Value::Text("bsd".to_string()),
    ]);
    def.variables.push(licence);

    let picked = resolve_context(&def, &vec![Value::Text("bsd".to_string())]);
    assert_eq!(picked.get("licence"), Some(&Value::Text("bsd".to_string())));

    let rejected = resolve_context(&def, &vec![Value::Text("gpl".to_string())]);
    assert_eq!(rejected.get("licence"), Some(&Value::Text("mit".to_string())));
}

#[test]
fn mistyped_answer_falls_back_to_default() {
    let mut def = empty_def();
    def.variables.push(var("port", Value::Integer(8080)));
    let ctx = resolve_context(&def, &vec![Value::Text("not a number".to_string())]);
    assert_eq!(ctx.get("port"), Some(&Value::Integer(8080)));
}

#[test]
fn rejected_path_template_reports_the_entry() {
    let def = empty_def();
    let ctx = resolve_context(&def, &Vec::new());
    let entries = vec![file_entry("{{ broken/x.txt", b"body", false)];
    let err = plan_tree(&def, &ctx, &entries).unwrap_err();
    assert!(matches!(err, GenError::Render { path: Some(p) } if p == "{{ broken/x.txt"));
}

#[test]
fn rejected_content_template_reports_the_entry() {
    let def = empty_def();
    let ctx = resolve_context(&def, &Vec::new());
    let entries = vec![file_entry("a.txt", b"{% endfor %}", false)];
    let err = plan_tree(&def, &ctx, &entries).unwrap_err();
    assert!(matches!(err, GenError::Render { path: Some(p) } if p == "a.txt"));
}

#[test]
fn undetected_binary_content_is_an_explicit_error() {
    let def = empty_def();
    let ctx = resolve_context(&def, &Vec::new());
    let entries = vec![file_entry("weird.txt", &[0xff, 0xfe, 0x00], false)];
    let err = plan_tree(&def, &ctx, &entries).unwrap_err();
    assert!(matches!(err, GenError::BinaryDecode { path } if path == "weird.txt"));
}

#[test]
fn invalid_exemption_pattern_invalidates_the_definition() {
    let mut def = empty_def();
    def.copy_without_render.push("a**b".to_string());
    let ctx = resolve_context(&def, &Vec::new());
    let err = plan_tree(&def, &ctx, &vec![file_entry("a.txt", b"x", false)]).unwrap_err();
    assert!(matches!(err, GenError::InvalidDefinition));
}

#[test]
fn forward_condition_reference_is_rejected_at_load() {
    let mut def = empty_def();
    let mut first = var("first", Value::Boolean(true));
    first.only_if = Some(Condition {
        name: "later".to_string(),
        value: Value::Boolean(true),
    });
    def.variables.push(first);
    def.variables.push(var("later", Value::Boolean(true)));
    assert!(matches!(validate_definition(&def), Err(GenError::InvalidDefinition)));

    let mut good = empty_def();
    good.variables.push(var("later", Value::Boolean(true)));
    let mut second = var("second", Value::Boolean(false));
    second.only_if = Some(Condition {
        name: "later".to_string(),
        value: Value::Boolean(true),
    });
    good.variables.push(second);
    assert!(validate_definition(&good).is_ok());
}

#[test]
fn cleanup_plan_is_deterministic() {
    let mut def = empty_def();
    def.variables.push(var("minimal", Value::Boolean(true)));
    def.cleanup.push(CleanupRule {
        name: "minimal".to_string(),
        value: Value::Boolean(true),
        paths: vec!["docs".to_string(), "examples/{{minimal}}.txt".to_string()],
    });
    let ctx = resolve_context(&def, &Vec::new());
    let first = plan_cleanup(&def, &ctx).unwrap();
    let second = plan_cleanup(&def, &ctx).unwrap();
    assert_eq!(first, second);
    assert_eq!(first, vec!["docs".to_string(), "examples/true.txt".to_string()]);
}

#[test]
fn cleanup_rule_on_absent_variable_never_fires() {
    let mut def = empty_def();
    def.cleanup.push(CleanupRule {
        name: "ghost_var".to_string(),
        value: Value::Boolean(true),
        paths: vec!["anything".to_string()],
    });
    let ctx = resolve_context(&def, &Vec::new());
    assert!(plan_cleanup(&def, &ctx).unwrap().is_empty());
}

#[test]
fn later_answer_replaces_earlier_one() {
    let mut ctx = AnswerContext::new();
    ctx.insert("k".to_string(), Value::Integer(1));
    ctx.insert("k".to_string(), Value::Integer(2));
    assert_eq!(ctx.get("k"), Some(&Value::Integer(2)));
    assert!(ctx.contains("k"));
    assert!(!ctx.contains("missing"));
}

#[test]
fn template_remembers_its_root() {
    let t = Template::from_local(&"templates/site".to_string());
    assert_eq!(t.root(), "templates/site");
    let u = Template::from_local(&"templates/site".to_string());
    assert!(t == u);
    let v = Template::from_local(&"elsewhere".to_string());
    assert!(t != v);
}

#[test]
fn integer_variables_render_into_text() {
    let mut def = empty_def();
    def.variables.push(var("port", Value::Integer(8080)));
    let ctx = resolve_context(&def, &vec![Value::Integer(3000)]);
    let entries = vec![file_entry("conf.txt", b"port={{port}}", false)];
    let ops = plan_tree(&def, &ctx, &entries).unwrap();
    match &ops[0] {
        OutputOp::WriteText { content, .. } => assert_eq!(content, "port=3000"),
        other => panic!("expected rendered text, got {:?}", other),
    }
}
