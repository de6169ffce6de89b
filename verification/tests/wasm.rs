use emscripten_env::env::EmEnv;
use emscripten_env::imports::{null_function_names, uses_old_abort_on_cannot_grow_memory, ValueKind};
use emscripten_env::layout::EmscriptenGlobalsData;
use emscripten_env::exports::complete_env_namespace;
use emscripten_env::memory::{
    dynamictop_word, dynamictop_write, emscripten_set_up_memory, set_up_memory_of_store, word_bytes,
};
use emscripten_env::module_imports::function_imports;
use wasmer::sys::{BaseTunables, NativeEngineExt};
use wasmer::{Engine, Exports, Extern, Global, Memory, MemoryType, Module, Pages, Store, Value};

/// A store whose memories reserve only what they use, so that tests run
/// where address space is limited.
fn small_store() -> Store {
    let mut engine = Engine::default();
    engine.set_tunables(BaseTunables {
        static_memory_bound: Pages(0),
        static_memory_offset_guard_size: 0,
        dynamic_memory_offset_guard_size: 0x1_0000,
    });
    Store::new(engine)
}

#[test]
fn dynamictop_word_in_and_out_of_range() {
    let data = EmscriptenGlobalsData::new(None, false);
    assert_eq!(dynamictop_word(&data, 54_145), Ok(54_144));
    assert_eq!(word_bytes(5_459_472), 5_459_472u32.to_le_bytes());
    assert_eq!(word_bytes(0x0102_0304), [4, 3, 2, 1]);
    assert_eq!(dynamictop_word(&data, 65_536), Ok(54_144));
    assert_eq!(
        dynamictop_word(&data, 54_144),
        Err("dynamictop_ptr beyond memory len".to_string())
    );
    assert!(dynamictop_word(&data, 0).is_err());
}

#[test]
fn set_up_memory_writes_the_heap_base() {
    let mut store = small_store();
    let memory = Memory::new(&mut store, MemoryType::new(4, None, false)).unwrap();
    let data = EmscriptenGlobalsData::new(None, false);
    assert_eq!(emscripten_set_up_memory(&store, &memory, &data), Ok(()));
    let offset = data.dynamictop_ptr() as u64;
    let mut word = [0u8; 12];
    memory.view(&store).read(offset - 4, &mut word).unwrap();
    assert_eq!(word, [0, 0, 0, 0, 0x10, 0x4e, 0x53, 0, 0, 0, 0, 0]);
    assert_eq!(u32::from_le_bytes([word[4], word[5], word[6], word[7]]), 5_459_472);
}

#[test]
fn set_up_memory_rejects_a_small_memory() {
    let mut store = small_store();
    let memory = Memory::new(&mut store, MemoryType::new(1, None, false)).unwrap();
    let data = EmscriptenGlobalsData::new(None, false);
    assert_eq!(
        emscripten_set_up_memory(&store, &memory, &data),
        Err("dynamictop_ptr beyond memory len".to_string())
    );
}

#[test]
fn set_up_memory_at_the_last_word() {
    let mut store = small_store();
    let memory = Memory::new(&mut store, MemoryType::new(1, None, false)).unwrap();
    // the last word of a one-page memory is at byte 65532
    let data = EmscriptenGlobalsData::new(Some((77, 65_532)), false);
    assert_eq!(emscripten_set_up_memory(&store, &memory, &data), Ok(()));
    let mut word = [0u8; 4];
    memory.view(&store).read(65_532, &mut word).unwrap();
    assert_eq!(u32::from_le_bytes(word), 77);
    let data = EmscriptenGlobalsData::new(Some((77, 65_536)), false);
    assert!(emscripten_set_up_memory(&store, &memory, &data).is_err());
}

#[test]
fn set_up_memory_rounds_the_pointer_down_to_a_word() {
    let mut store = small_store();
    let memory = Memory::new(&mut store, MemoryType::new(1, None, false)).unwrap();
    let data = EmscriptenGlobalsData::new(Some((0xAABB_CCDD, 1_027)), false);
    assert_eq!(emscripten_set_up_memory(&store, &memory, &data), Ok(()));
    let mut word = [0u8; 4];
    memory.view(&store).read(1_024, &mut word).unwrap();
    assert_eq!(u32::from_le_bytes(word), 0xAABB_CCDD);
}

#[test]
fn function_imports_of_a_module() {
    let store = small_store();
    let wat = r#"(module
        (import "env" "abortOnCannotGrowMemory" (func (result i32)))
        (import "env" "memory" (memory 1))
        (import "env" "nullFunc_ii" (func (param i32)))
        (import "global" "_pow" (func (param f64 f64) (result f64)))
        (import "env" "nullFunction_v" (func (param i64 funcref externref))))"#;
    let module = Module::new(&store, wat).unwrap();
    let imports = function_imports(&module);
    assert_eq!(imports.len(), 4);
    assert_eq!(imports[0].module, "env");
    assert_eq!(imports[0].name, "abortOnCannotGrowMemory");
    assert!(imports[0].signature.params.is_empty());
    assert_eq!(imports[0].signature.results, vec![ValueKind::I32]);
    assert_eq!(imports[2].module, "global");
    assert_eq!(imports[2].name, "_pow");
    assert_eq!(imports[2].signature.params, vec![ValueKind::Float64, ValueKind::Float64]);
    assert_eq!(imports[2].signature.results, vec![ValueKind::Float64]);
    assert_eq!(
        imports[3].signature.params,
        vec![ValueKind::I64, ValueKind::FuncRef, ValueKind::ExternRef]
    );
    assert!(uses_old_abort_on_cannot_grow_memory(&imports));
    assert_eq!(
        null_function_names(&imports),
        vec!["nullFunc_ii".to_string(), "nullFunction_v".to_string()]
    );
}

#[test]
fn environment_reads_back_the_memory_it_was_given() {
    let mut store = small_store();
    let memory = Memory::new(&mut store, MemoryType::new(1, None, false)).unwrap();
    let mut env: EmEnv<u32> = EmEnv::new();
    assert!(!env.has_memory());
    assert!(env.data().is_none());
    env.set_data(7);
    env.set_memory(memory.clone());
    assert!(env.has_memory());
    assert_eq!(env.memory(0), &memory);
    assert_eq!(env.memory(3), &memory);
    assert_eq!(env.data(), Some(&7));
    let other = Memory::new(&mut store, MemoryType::new(2, None, false)).unwrap();
    env.set_memory(other.clone());
    assert_eq!(env.memory(0), &other);
    assert_ne!(env.memory(0), &memory);
    assert_eq!(env.data(), Some(&7));
}

#[test]
fn set_up_memory_of_another_store_is_refused() {
    let mut store = small_store();
    let other = small_store();
    let memory = Memory::new(&mut store, MemoryType::new(4, None, false)).unwrap();
    let data = EmscriptenGlobalsData::new(None, false);
    assert_eq!(set_up_memory_of_store(&other, &memory, &data), None);
    let mut word = [0u8; 4];
    memory.view(&store).read(data.dynamictop_ptr() as u64, &mut word).unwrap();
    assert_eq!(word, [0, 0, 0, 0]);
    assert_eq!(set_up_memory_of_store(&store, &memory, &data), Some(Ok(())));
    memory.view(&store).read(data.dynamictop_ptr() as u64, &mut word).unwrap();
    assert_eq!(u32::from_le_bytes(word), data.dynamic_base());
    let small = Memory::new(&mut store, MemoryType::new(1, None, false)).unwrap();
    assert_eq!(
        set_up_memory_of_store(&store, &small, &data),
        Some(Err("dynamictop_ptr beyond memory len".to_string()))
    );
}

#[test]
fn function_imports_of_a_module_without_any() {
    let store = small_store();
    let module = Module::new(&store, r#"(module (import "env" "memory" (memory 1)) (func (export "f")))"#).unwrap();
    assert!(function_imports(&module).is_empty());
}

#[test]
fn dynamictop_write_offset_and_bytes() {
    let data = EmscriptenGlobalsData::new(None, false);
    assert_eq!(
        dynamictop_write(&data, 54_145),
        Ok((216_576, 5_459_472u32.to_le_bytes()))
    );
    assert_eq!(
        dynamictop_write(&data, 54_144),
        Err("dynamictop_ptr beyond memory len".to_string())
    );
    let unaligned = EmscriptenGlobalsData::new(Some((0x0102_0304, 65_535)), false);
    assert_eq!(dynamictop_write(&unaligned, 16_384), Ok((65_532, [4, 3, 2, 1])));
    assert!(dynamictop_write(&unaligned, 16_383).is_err());
}

#[test]
fn set_up_memory_one_page_example() {
    let mut store = small_store();
    let memory = Memory::new(&mut store, MemoryType::new(1, None, false)).unwrap();
    let data = EmscriptenGlobalsData::new(Some((0x0102_0304, 65_535)), false);
    assert_eq!(emscripten_set_up_memory(&store, &memory, &data), Ok(()));
    let mut all = vec![0u8; 65_536];
    memory.view(&store).read(0, &mut all).unwrap();
    assert_eq!(&all[65_532..], &[4, 3, 2, 1]);
    assert!(all[..65_532].iter().all(|b| *b == 0));
    // a second set-up writes the same word again
    assert_eq!(emscripten_set_up_memory(&store, &memory, &data), Ok(()));
    let mut again = vec![0u8; 65_536];
    memory.view(&store).read(0, &mut again).unwrap();
    assert_eq!(all, again);
}

#[test]
fn completed_namespace_of_real_exports() {
    let mut store = small_store();
    let memory = Memory::new(&mut store, MemoryType::new(1, None, false)).unwrap();
    let g = |store: &mut Store, v: i32| Extern::from(Global::new(store, Value::I32(v)));
    let malloc = g(&mut store, 1);
    let printf = g(&mut store, 2);
    let free_ = g(&mut store, 3);
    let free = g(&mut store, 4);
    let stubs: Vec<Extern> = (0..4).map(|i| g(&mut store, 100 + i)).collect();
    let mut env_ns = Exports::new();
    env_ns.insert("memory", memory.clone());
    env_ns.insert("_malloc", malloc.clone());
    env_ns.insert("printf", printf.clone());
    env_ns.insert("_free", free_.clone());
    env_ns.insert("free", free.clone());
    let nulls = vec![
        "nullFunc_ii".to_string(),
        "printf".to_string(),
        "malloc".to_string(),
        "nullFunc_ii".to_string(),
    ];
    complete_env_namespace(&mut env_ns, &nulls, &stubs);
    let names: Vec<&str> = env_ns.iter().map(|(name, _)| name.as_str()).collect();
    assert_eq!(names, vec!["memory", "_malloc", "printf", "_free", "free", "malloc", "nullFunc_ii"]);
    assert_eq!(env_ns.get_extern("memory"), Some(&Extern::from(memory)));
    assert_eq!(env_ns.get_extern("_malloc"), Some(&malloc));
    assert_eq!(env_ns.get_extern("printf"), Some(&stubs[1]));
    assert_eq!(env_ns.get_extern("_free"), Some(&free_));
    assert_eq!(env_ns.get_extern("free"), Some(&free));
    assert_eq!(env_ns.get_extern("malloc"), Some(&stubs[2]));
    assert_eq!(env_ns.get_extern("nullFunc_ii"), Some(&stubs[3]));
    assert_ne!(env_ns.get_extern("printf"), env_ns.get_extern("malloc"));
}

#[test]
fn completed_namespace_aliases_share_the_extern() {
    let mut store = small_store();
    let f = Extern::from(Global::new(&mut store, Value::I32(7)));
    let mut env_ns = Exports::new();
    env_ns.insert("___lock", f.clone());
    complete_env_namespace(&mut env_ns, &Vec::new(), &Vec::new());
    let names: Vec<&str> = env_ns.iter().map(|(name, _)| name.as_str()).collect();
    assert_eq!(names, vec!["___lock", "__lock"]);
    assert_eq!(env_ns.get_extern("__lock"), Some(&f));
}
