use emscripten_env::layout::{
    align_memory, static_alloc, EmscriptenGlobalsData, GLOBAL_BASE, STATIC_BASE, STATIC_BUMP,
    TOTAL_STACK,
};

#[test]
fn constants_of_the_layout() {
    assert_eq!(TOTAL_STACK, 5_242_880);
    assert_eq!(STATIC_BUMP, 215_536);
    assert_eq!(GLOBAL_BASE, 1024);
    assert_eq!(STATIC_BASE, GLOBAL_BASE);
}

#[test]
fn align_memory_rounds_up_to_sixteen() {
    assert_eq!(align_memory(0), 0);
    assert_eq!(align_memory(1), 16);
    assert_eq!(align_memory(15), 16);
    assert_eq!(align_memory(16), 16);
    assert_eq!(align_memory(17), 32);
    assert_eq!(align_memory(216_580), 216_592);
    assert_eq!(align_memory(u32::MAX - 15), u32::MAX - 15);
}

#[test]
fn align_memory_is_idempotent() {
    for x in [0u32, 3, 16, 255, 216_577, 5_459_470] {
        let once = align_memory(x);
        assert_eq!(align_memory(once), once);
        assert_eq!(once % 16, 0);
        assert!(x <= once && once < x + 16);
    }
}

#[test]
fn static_alloc_returns_old_top_and_aligns_new_top() {
    let mut top: u32 = 216_576;
    let block = static_alloc(&mut top, 4);
    assert_eq!(block, 216_576);
    assert_eq!(top, 216_592);

    let mut top: u32 = 32;
    assert_eq!(static_alloc(&mut top, 16), 32);
    assert_eq!(top, 48);

    let mut top: u32 = 7;
    assert_eq!(static_alloc(&mut top, 0), 7);
    assert_eq!(top, 16);
}

#[test]
fn globals_without_metadata() {
    let data = EmscriptenGlobalsData::new(None, false);
    assert_eq!(data.abort(), 0);
    assert_eq!(data.temp_double_ptr(), 216_560);
    assert_eq!(data.dynamictop_ptr(), 216_576);
    assert_eq!(data.stacktop(), 216_592);
    assert_eq!(data.stack_max(), 5_459_472);
    assert_eq!(data.dynamic_base(), 5_459_472);
    assert_eq!(data.memory_base(), 1024);
    assert_eq!(data.table_base(), 0);
    assert!(!data.use_old_abort_on_cannot_grow_memory());
}

#[test]
fn globals_with_metadata() {
    let data = EmscriptenGlobalsData::new(Some((6_000_000, 3_000)), true);
    assert_eq!(data.dynamic_base(), 6_000_000);
    assert_eq!(data.dynamictop_ptr(), 3_000);
    assert_eq!(data.temp_double_ptr(), 216_560);
    assert_eq!(data.stacktop(), 216_576);
    assert_eq!(data.stack_max(), 216_576 + TOTAL_STACK);
    assert_eq!(data.memory_base(), STATIC_BASE);
    assert_eq!(data.table_base(), 0);
    assert_eq!(data.abort(), 0);
    assert!(data.use_old_abort_on_cannot_grow_memory());
}

#[test]
fn stack_follows_static_memory() {
    for data in [
        EmscriptenGlobalsData::new(None, false),
        EmscriptenGlobalsData::new(Some((1, 2)), false),
        EmscriptenGlobalsData::new(Some((u32::MAX, u32::MAX)), true),
    ] {
        assert_eq!(data.stack_max(), data.stacktop() + TOTAL_STACK);
        assert_eq!(data.stacktop() % 16, 0);
        assert!(data.memory_base() <= data.temp_double_ptr());
        assert!(data.temp_double_ptr() + 16 <= data.stacktop());
    }
}

#[test]
fn heap_follows_stack() {
    let data = EmscriptenGlobalsData::new(None, true);
    assert!(data.temp_double_ptr() + 16 <= data.dynamictop_ptr());
    assert!(data.dynamictop_ptr() + 4 <= data.stacktop());
    assert_eq!(data.dynamictop_ptr() % 4, 0);
    assert!(data.stack_max() <= data.dynamic_base());
    assert_eq!(data.dynamic_base() % 16, 0);
}

#[test]
fn globals_data_clones_field_for_field() {
    let data = EmscriptenGlobalsData::new(None, true);
    let copy: EmscriptenGlobalsData = (&data).clone();
    assert_eq!(copy.stacktop(), data.stacktop());
    assert_eq!(copy.dynamic_base(), data.dynamic_base());
    assert_eq!(copy.use_old_abort_on_cannot_grow_memory(), true);
}
