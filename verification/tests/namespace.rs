use emscripten_env::layout::EmscriptenGlobalsData;
use emscripten_env::namespace::{
    compat_aliases, contains_name, env_globals, env_namespace_entries, ExportSource,
};

fn strings(names: &[&str]) -> Vec<String> {
    names.iter().map(|s| s.to_string()).collect()
}

#[test]
fn env_globals_without_metadata() {
    let data = EmscriptenGlobalsData::new(None, false);
    let expected: Vec<(&str, i32)> = vec![
        ("STACKTOP", 216_592),
        ("STACK_MAX", 5_459_472),
        ("DYNAMICTOP_PTR", 216_576),
        ("fb", 0),
        ("tableBase", 0),
        ("__table_base", 0),
        ("ABORT", 0),
        ("gb", 1024),
        ("memoryBase", 1024),
        ("__memory_base", 1024),
        ("tempDoublePtr", 216_560),
    ];
    assert_eq!(env_globals(&data), expected);
}

#[test]
fn env_globals_keep_the_bits_of_large_values() {
    let data = EmscriptenGlobalsData::new(Some((0x8000_0000, 0xffff_fff0)), false);
    let globals = env_globals(&data);
    assert_eq!(globals[2], ("DYNAMICTOP_PTR", -16));
    assert_eq!(globals[0], ("STACKTOP", 216_576));
}

#[test]
fn contains_name_finds_exact_names() {
    let names = strings(&["_malloc", "printf", "tableBase"]);
    assert!(contains_name(&names, "printf"));
    assert!(contains_name(&names, "_malloc"));
    assert!(!contains_name(&names, "malloc"));
    assert!(!contains_name(&names, "print"));
    assert!(!contains_name(&[].to_vec(), "x"));
}

#[test]
fn aliases_strip_one_underscore() {
    let names = strings(&["_malloc", "printf", "___lock", "__table_base", "_free", "free"]);
    let aliases = compat_aliases(&names);
    assert_eq!(
        aliases,
        vec![
            ("malloc".to_string(), 0),
            ("__lock".to_string(), 2),
            ("_table_base".to_string(), 3),
        ]
    );
}

#[test]
fn aliases_never_collide_with_existing_names() {
    let names = strings(&["_a", "a", "__b", "_b", "_", "c"]);
    let aliases = compat_aliases(&names);
    // "_a" -> "a" exists; "__b" -> "_b" exists; "_b" -> "b" is new; "_" -> "" is new
    assert_eq!(aliases, vec![("b".to_string(), 3), (String::new(), 4)]);
    for (alias, source) in &aliases {
        assert!(!names.contains(alias));
        assert_eq!(names[*source], format!("_{}", alias));
    }
}

#[test]
fn aliases_of_names_without_underscores_are_none() {
    assert!(compat_aliases(&strings(&["printf", "STACKTOP", "x_"])).is_empty());
    assert!(compat_aliases(&Vec::new()).is_empty());
}

#[test]
fn namespace_keeps_table_then_aliases_then_new_stubs() {
    let names = strings(&["memory", "_malloc", "printf", "_free", "free"]);
    let nulls = strings(&["nullFunc_ii", "printf", "nullFunc_ii", "malloc"]);
    let entries = env_namespace_entries(&names, &nulls);
    assert_eq!(
        entries,
        vec![
            ("memory".to_string(), ExportSource::Table(0)),
            ("_malloc".to_string(), ExportSource::Table(1)),
            ("printf".to_string(), ExportSource::NullFunction(1)),
            ("_free".to_string(), ExportSource::Table(3)),
            ("free".to_string(), ExportSource::Table(4)),
            ("malloc".to_string(), ExportSource::NullFunction(3)),
            ("nullFunc_ii".to_string(), ExportSource::NullFunction(2)),
        ]
    );
}

#[test]
fn namespace_without_stubs_is_table_and_aliases() {
    let names = strings(&["_a", "b", "__c"]);
    let entries = env_namespace_entries(&names, &Vec::new());
    assert_eq!(
        entries,
        vec![
            ("_a".to_string(), ExportSource::Table(0)),
            ("b".to_string(), ExportSource::Table(1)),
            ("__c".to_string(), ExportSource::Table(2)),
            ("a".to_string(), ExportSource::Alias(0)),
            ("_c".to_string(), ExportSource::Alias(2)),
        ]
    );
    assert!(env_namespace_entries(&Vec::new(), &Vec::new()).is_empty());
}
