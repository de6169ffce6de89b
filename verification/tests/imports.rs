use emscripten_env::imports::{
    is_null_function, null_function_names, uses_old_abort_on_cannot_grow_memory, FunctionImport,
    FunctionSignature, ValueKind,
};

fn import(module: &str, name: &str, params: Vec<ValueKind>, results: Vec<ValueKind>) -> FunctionImport {
    FunctionImport {
        module: module.to_string(),
        name: name.to_string(),
        signature: FunctionSignature { params, results },
    }
}

#[test]
fn old_abort_form_is_recognised() {
    let imports = vec![
        import("env", "printf", vec![ValueKind::I32, ValueKind::I32], vec![ValueKind::I32]),
        import("env", "abortOnCannotGrowMemory", vec![], vec![ValueKind::I32]),
    ];
    assert!(uses_old_abort_on_cannot_grow_memory(&imports));
}

#[test]
fn new_abort_form_is_not_the_old_one() {
    let imports = vec![import("env", "abortOnCannotGrowMemory", vec![ValueKind::I32], vec![ValueKind::I32])];
    assert!(!uses_old_abort_on_cannot_grow_memory(&imports));
    let imports = vec![import("env", "abortOnCannotGrowMemory", vec![], vec![])];
    assert!(!uses_old_abort_on_cannot_grow_memory(&imports));
    let imports = vec![import("env", "abortOnCannotGrowMemory", vec![], vec![ValueKind::I64])];
    assert!(!uses_old_abort_on_cannot_grow_memory(&imports));
}

#[test]
fn only_the_first_abort_import_counts() {
    let imports = vec![
        import("env", "abortOnCannotGrowMemory", vec![ValueKind::I32], vec![ValueKind::I32]),
        import("env", "abortOnCannotGrowMemory", vec![], vec![ValueKind::I32]),
    ];
    assert!(!uses_old_abort_on_cannot_grow_memory(&imports));
}

#[test]
fn abort_import_from_another_namespace_is_ignored() {
    let imports = vec![
        import("global", "abortOnCannotGrowMemory", vec![ValueKind::I32], vec![ValueKind::I32]),
        import("env", "abortOnCannotGrowMemory", vec![], vec![ValueKind::I32]),
    ];
    assert!(uses_old_abort_on_cannot_grow_memory(&imports));
    assert!(!uses_old_abort_on_cannot_grow_memory(&vec![import("global", "abortOnCannotGrowMemory", vec![], vec![ValueKind::I32])]));
    assert!(!uses_old_abort_on_cannot_grow_memory(&Vec::new()));
}

#[test]
fn null_function_imports_are_recognised() {
    assert!(is_null_function(&import("env", "nullFunc_ii", vec![ValueKind::I32], vec![])));
    assert!(is_null_function(&import("env", "nullFunction_vi", vec![], vec![])));
    assert!(is_null_function(&import("env", "nullFunc_", vec![], vec![])));
    assert!(!is_null_function(&import("env", "nullFunc", vec![], vec![])));
    assert!(!is_null_function(&import("global", "nullFunc_ii", vec![], vec![])));
    assert!(!is_null_function(&import("env", "_nullFunc_ii", vec![], vec![])));
}

#[test]
fn null_function_names_keep_import_order() {
    let imports = vec![
        import("env", "nullFunc_ii", vec![ValueKind::I32], vec![]),
        import("env", "printf", vec![], vec![]),
        import("global", "nullFunc_vi", vec![], vec![]),
        import("env", "nullFunction_v", vec![], vec![]),
        import("env", "nullFunc_i", vec![], vec![ValueKind::Float64]),
    ];
    assert_eq!(
        null_function_names(&imports),
        vec!["nullFunc_ii".to_string(), "nullFunction_v".to_string(), "nullFunc_i".to_string()]
    );
    assert!(null_function_names(&Vec::new()).is_empty());
}
