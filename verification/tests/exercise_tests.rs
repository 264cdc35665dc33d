use amplitude_content::error::CompileError;
use amplitude_content::exercise::DirContents;
use amplitude_content::exercise::DirEntry;
use amplitude_content::exercise::Exercise;
use amplitude_content::exercise::ExcerciseSerialize;
use amplitude_content::exercise::Language;
use amplitude_content::exercise::VariableType;
use amplitude_content::exercise::parse_exercise_config;
use amplitude_content::exercise::parse_variable_type;
use amplitude_content::registry::standard_registry;
use amplitude_content::state::ParseState;

fn file(name: &str, contents: &str) -> DirEntry {
    DirEntry { name: name.to_string(), is_dir: false, contents: contents.to_string() }
}

fn dir(name: &str) -> DirEntry {
    DirEntry { name: name.to_string(), is_dir: true, contents: String::new() }
}

fn full_listing() -> DirContents {
    DirContents {
        entries: vec![
            file(
                "config.toml",
                "title = \"Add\"\n\n[add]\ninputs = [\"int\", \"string\"]\noutput = \"bool\"\n",
            ),
            file("instructions.md", "Do the thing.\n"),
            dir("src"),
            file("src/ex1.py", "def add(a, b): pass\n"),
            file("src/ex1.js", "function add(a, b) {}\n"),
            file("src/generator.py", "print(1)\n"),
        ],
    }
}

#[test]
fn links_every_starter_language() {
    let reg = standard_registry();
    let mut state = ParseState::new();
    let ex = Exercise::parse_from_dir(&full_listing(), "c/ex1", "ex1", &reg, &mut state).unwrap();
    assert_eq!(ex.config.title, "Add");
    assert!(ex.config.instructions.contains("Do the thing."));
    assert_eq!(ex.config.functions.len(), 1);
    assert_eq!(ex.config.functions[0].0, "add");
    assert_eq!(
        ex.config.functions[0].1.inputs,
        vec![VariableType::Int, VariableType::Str]
    );
    assert_eq!(ex.config.functions[0].1.output, VariableType::Bool);
    let mut langs: Vec<Language> = ex.code.iter().map(|p| p.0).collect();
    langs.sort_by_key(|l| matches!(l, Language::JavaScript));
    assert_eq!(langs, vec![Language::Python, Language::JavaScript]);
    let flat: ExcerciseSerialize = ex.into();
    assert_eq!(flat.title, "Add");
    assert_eq!(flat.code.len(), 2);
}

#[test]
fn missing_instructions_is_schema_violation() {
    let mut listing = full_listing();
    listing.entries.retain(|e| e.name != "instructions.md");
    let reg = standard_registry();
    let mut state = ParseState::new();
    let err = Exercise::parse_from_dir(&listing, "c/ex1", "ex1", &reg, &mut state).unwrap_err();
    match err {
        CompileError::SchemaViolation(what) => assert_eq!(what, "instructions.md"),
        other => panic!("expected SchemaViolation, got {:?}", other),
    }
}

#[test]
fn missing_starting_source_is_schema_violation() {
    let mut listing = full_listing();
    listing.entries.retain(|e| !e.name.starts_with("src/ex1."));
    let reg = standard_registry();
    let mut state = ParseState::new();
    let err = Exercise::parse_from_dir(&listing, "c/ex1", "ex1", &reg, &mut state).unwrap_err();
    match err {
        CompileError::SchemaViolation(what) => assert_eq!(what, "src/ex1.<code>"),
        other => panic!("expected SchemaViolation, got {:?}", other),
    }
}

#[test]
fn unknown_extension_is_unsupported_language() {
    let mut listing = full_listing();
    listing.entries.push(file("src/ex1.rb", "def add; end\n"));
    let reg = standard_registry();
    let mut state = ParseState::new();
    let err = Exercise::parse_from_dir(&listing, "c/ex1", "ex1", &reg, &mut state).unwrap_err();
    match err {
        CompileError::UnsupportedLanguage(ext) => assert_eq!(ext, "rb"),
        other => panic!("expected UnsupportedLanguage, got {:?}", other),
    }
}

#[test]
fn bad_signature_type_is_invalid_signature() {
    let text = "title = \"Add\"\n\n[add]\ninputs = [\"float\"]\noutput = \"int\"\n";
    let err = parse_exercise_config(text).unwrap_err();
    assert!(matches!(err, CompileError::InvalidSignature(_)));
}

#[test]
fn signature_missing_output_is_invalid_signature() {
    let text = "title = \"Add\"\n\n[add]\ninputs = [\"int\"]\n";
    let err = parse_exercise_config(text).unwrap_err();
    assert!(matches!(err, CompileError::InvalidSignature(_)));
}

#[test]
fn config_without_title_is_deserialization_error() {
    let text = "[add]\ninputs = [\"int\"]\noutput = \"int\"\n";
    let err = parse_exercise_config(text).unwrap_err();
    assert!(matches!(err, CompileError::ConfigDeserializationError(_)));
}

#[test]
fn variable_types_parse_exactly() {
    assert_eq!(parse_variable_type("int").unwrap(), VariableType::Int);
    assert_eq!(parse_variable_type("string").unwrap(), VariableType::Str);
    assert_eq!(parse_variable_type("bool").unwrap(), VariableType::Bool);
    assert!(matches!(
        parse_variable_type("float").unwrap_err(),
        CompileError::InvalidSignature(_)
    ));
}

#[test]
fn languages_parse_from_extensions() {
    assert_eq!(Language::from_ext("py").unwrap(), Language::Python);
    assert_eq!(Language::from_ext("js").unwrap(), Language::JavaScript);
    assert!(Language::from_ext("rb").is_err());
    assert_eq!(Language::Python.ext(), "py");
    assert_eq!(Language::JavaScript.ext(), "js");
}
