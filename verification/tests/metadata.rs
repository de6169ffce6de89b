use emscripten_env::metadata::emscripten_metadata;

#[test]
fn metadata_needs_two_constant_globals() {
    assert_eq!(emscripten_metadata(&vec![]), Ok(None));
    assert_eq!(emscripten_metadata(&vec![Some(5_000)]), Ok(None));
    assert_eq!(emscripten_metadata(&vec![None, Some(5_000)]), Ok(None));
    assert_eq!(emscripten_metadata(&vec![Some(5_000), None]), Ok(None));
}

#[test]
fn metadata_is_the_last_two_globals_less_32_aligned() {
    // the last global is dynamic_base, the one before it dynamictop_ptr
    assert_eq!(
        emscripten_metadata(&vec![Some(7), Some(216_608), Some(5_459_504)]),
        Ok(Some((5_459_472, 216_576)))
    );
    assert_eq!(emscripten_metadata(&vec![Some(33), Some(32)]), Ok(Some((0, 16))));
    // a negative constant is read as a large unsigned number
    assert_eq!(emscripten_metadata(&vec![Some(100), Some(-1)]), Ok(Some((4_294_967_264, 80))));
}

#[test]
fn metadata_errors_name_the_small_value() {
    assert_eq!(
        emscripten_metadata(&vec![Some(100), Some(31)]),
        Err("emscripten unexpected dynamic_base 31".to_string())
    );
    assert_eq!(
        emscripten_metadata(&vec![Some(0), Some(4_000)]),
        Err("emscripten unexpected dynamictop_ptr 0".to_string())
    );
    assert_eq!(
        emscripten_metadata(&vec![Some(5), Some(7)]),
        Err("emscripten unexpected dynamic_base 7".to_string())
    );
}
