use amplitude_content::error::CompileError;
use amplitude_content::registry::standard_registry;
use amplitude_content::resolver::FsDir;
use amplitude_content::resolver::FsFile;
use amplitude_content::resolver::parse_dir;

fn article_dir(name: &str, title: &str) -> FsDir {
    FsDir {
        name: name.to_string(),
        files: vec![FsFile {
            name: "article.md".to_string(),
            contents: format!("---\ntitle = \"{}\"\n---\nSome body.\n", title),
        }],
        dirs: vec![],
    }
}

fn exercise_dir(name: &str) -> FsDir {
    FsDir {
        name: name.to_string(),
        files: vec![
            FsFile {
                name: "config.toml".to_string(),
                contents: "title = \"Add\"\n\n[add]\ninputs = [\"int\", \"int\"]\noutput = \"int\"\n"
                    .to_string(),
            },
            FsFile {
                name: "instructions.md".to_string(),
                contents: "Add the numbers.\n".to_string(),
            },
        ],
        dirs: vec![FsDir {
            name: "src".to_string(),
            files: vec![
                FsFile { name: format!("{}.py", name), contents: "def add(a, b): pass\n".to_string() },
                FsFile { name: "generator.py".to_string(), contents: "print(1)\n".to_string() },
            ],
            dirs: vec![],
        }],
    }
}

#[test]
fn compiles_a_course_with_article_and_exercise() {
    let root = FsDir {
        name: "courses".to_string(),
        files: vec![],
        dirs: vec![FsDir {
            name: "course1".to_string(),
            files: vec![],
            dirs: vec![article_dir("intro", "Welcome"), exercise_dir("adding")],
        }],
    };
    let reg = standard_registry();
    let out = parse_dir(&root, &reg, "rendered").unwrap();
    assert!(out.failures.is_empty(), "failures: {:?}", out.failures);
    assert!(out.state.has_id("course1/intro"));
    let cfg = out.state.get_article_config("course1/intro").unwrap();
    assert_eq!(cfg.title, "Welcome");
    assert_eq!(cfg.id, "course1/intro");
    assert_eq!(out.exercises.len(), 1);
    assert_eq!(out.exercises[0].0, "course1/adding");
    assert_eq!(out.exercises[0].1.config.title, "Add");
    assert_eq!(out.exercises[0].1.code.len(), 1);
    assert_eq!(out.rendered.len(), 1);
    assert_eq!(out.rendered[0].path, "rendered/course1/intro.html");
    assert!(out.rendered[0].html.contains("Some body."));
}

#[test]
fn missing_generator_is_schema_violation_naming_it() {
    let mut broken = exercise_dir("adding");
    broken.dirs[0].files.retain(|f| f.name != "generator.py");
    let root = FsDir { name: "courses".to_string(), files: vec![], dirs: vec![broken] };
    let reg = standard_registry();
    let out = parse_dir(&root, &reg, "rendered").unwrap();
    assert_eq!(out.failures.len(), 1);
    assert_eq!(out.failures[0].id, "adding");
    match &out.failures[0].error {
        CompileError::SchemaViolation(what) => assert_eq!(what, "src/generator.<code>"),
        other => panic!("expected SchemaViolation, got {:?}", other),
    }
}

#[test]
fn failing_child_is_excluded_and_siblings_continue() {
    let bad = FsDir {
        name: "broken".to_string(),
        files: vec![FsFile { name: "article.md".to_string(), contents: "no header".to_string() }],
        dirs: vec![],
    };
    let root = FsDir {
        name: "courses".to_string(),
        files: vec![],
        dirs: vec![FsDir {
            name: "course1".to_string(),
            files: vec![],
            dirs: vec![bad, article_dir("good", "Good")],
        }],
    };
    let reg = standard_registry();
    let out = parse_dir(&root, &reg, "rendered").unwrap();
    assert_eq!(out.failures.len(), 1);
    assert_eq!(out.failures[0].id, "course1/broken");
    assert!(out.state.has_id("course1/good"));
    assert!(!out.state.has_id("course1/broken"));
    // The course structure lists only the surviving child.
    let html_course = out.state.get_article_config("course1/good").unwrap();
    assert_eq!(html_course.title, "Good");
}

#[test]
fn unexpected_entry_in_article_dir_is_schema_violation() {
    let mut dir = article_dir("intro", "Welcome");
    dir.files.push(FsFile { name: "extra.txt".to_string(), contents: String::new() });
    let root = FsDir { name: "courses".to_string(), files: vec![], dirs: vec![dir] };
    let reg = standard_registry();
    let out = parse_dir(&root, &reg, "rendered").unwrap();
    assert_eq!(out.failures.len(), 1);
    match &out.failures[0].error {
        CompileError::SchemaViolation(what) => assert_eq!(what, "extra.txt"),
        other => panic!("expected SchemaViolation, got {:?}", other),
    }
}

#[test]
fn empty_root_fails_the_pass() {
    let root = FsDir { name: "courses".to_string(), files: vec![], dirs: vec![] };
    let reg = standard_registry();
    let err = parse_dir(&root, &reg, "rendered").unwrap_err();
    assert!(matches!(err, CompileError::SchemaViolation(_)));
}

#[test]
fn invalid_directory_name_is_id_validation_error() {
    let root = FsDir {
        name: "courses".to_string(),
        files: vec![],
        dirs: vec![article_dir("bad name", "X")],
    };
    let reg = standard_registry();
    let out = parse_dir(&root, &reg, "rendered").unwrap();
    assert_eq!(out.failures.len(), 1);
    assert!(matches!(out.failures[0].error, CompileError::IdValidationError(_)));
}

#[test]
fn read_path_rejects_traversal_before_lookup() {
    let root = FsDir {
        name: "courses".to_string(),
        files: vec![],
        dirs: vec![article_dir("intro", "Welcome")],
    };
    let reg = standard_registry();
    let out = parse_dir(&root, &reg, "rendered").unwrap();
    let e1 = out.state.article_path("../secret").unwrap_err();
    assert!(matches!(e1, CompileError::IdValidationError(_)));
    let e2 = out.state.article_path("a/b").unwrap_err();
    assert!(matches!(e2, CompileError::IdValidationError(_)));
    // A valid id that was never compiled is reported, not read.
    let e3 = out.state.article_path("missing").unwrap_err();
    assert!(matches!(e3, CompileError::IoError(_)));
    // A compiled top-level article's location comes back for its plain id.
    let flat = FsDir {
        name: "courses".to_string(),
        files: vec![],
        dirs: vec![article_dir("intro", "Welcome")],
    };
    let out2 = parse_dir(&flat, &reg, "rendered").unwrap();
    assert_eq!(out2.state.article_path("intro").unwrap(), "rendered/intro.html");
}
