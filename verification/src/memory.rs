//! Setting up the word in linear memory that holds the top of the dynamic heap.
use vstd::prelude::*;
use crate::layout::EmscriptenGlobalsData;
use wasmer::{Memory, MemoryAccessError, MemoryView, Store};

verus! {

/// A wasmer linear memory, carried through as it is.
#[verifier::external_type_specification]
#[verifier::external_body]
pub struct ExMemory(Memory);

/// The wasmer store that owns memories and instances.
#[verifier::external_type_specification]
#[verifier::external_body]
pub struct ExStore(Store);

/// A wasmer view of a memory's bytes as they were when the view was made.
#[verifier::external_type_specification]
#[verifier::external_body]
pub struct ExMemoryView<'a>(MemoryView<'a>);

/// wasmer's error for an access outside a memory view.
#[verifier::external_type_specification]
#[verifier::external_body]
pub struct ExMemoryAccessError(MemoryAccessError);

/// The number of bytes a view covers, fixed when the view is made.
pub uninterp spec fn view_byte_len(view: MemoryView) -> nat;

/// Whether a memory belongs to a store: the store identifier that the
/// memory's handle carries is the store's own.
pub uninterp spec fn memory_belongs_to(memory: Memory, store: Store) -> bool;

/// `Memory::is_from_store`: whether the memory can be used with the store,
/// a comparison of the two fixed store identifiers.
#[verifier::external_body]
fn memory_is_from_store(memory: &Memory, store: &Store) -> (belongs: bool)
    ensures
        belongs == memory_belongs_to(*memory, *store),
{
    memory.is_from_store(store)
}

/// `Memory::view`: the memory as it currently is. It panics for a memory of
/// another store, which `requires` rules out. Nothing is stated of the
/// result: its size follows the memory's current size, which can change
/// while the memory lives.
#[verifier::external_body]
fn memory_view<'a>(memory: &Memory, store: &'a Store) -> MemoryView<'a>
    requires
        memory_belongs_to(*memory, *store),
{
    memory.view(store)
}

/// `MemoryView::data_size`: the length in bytes that the view was made with.
#[verifier::external_body]
fn view_data_size(view: &MemoryView) -> (size: u64)
    ensures
        size == view_byte_len(*view),
{
    view.data_size()
}

/// `MemoryView::write`: copies `data` into memory at byte `offset`; it fails,
/// writing nothing, exactly when the bytes would not all lie within the view.
/// What the memory holds is not modelled, so no clause states the write.
#[verifier::external_body]
fn view_write(view: &MemoryView, offset: u64, data: &[u8]) -> (written: Result<
    (),
    MemoryAccessError,
>)
    ensures
        written is Ok <==> offset + data@.len() <= view_byte_len(*view),
{
    view.write(offset, data)
}

/// The four bytes of `value`, least significant first, as WebAssembly
/// stores a 32-bit word.
pub open spec fn le_bytes(value: u32) -> Seq<u8> {
    seq![
        (value % 0x100) as u8,
        ((value / 0x100) % 0x100) as u8,
        ((value / 0x1_0000) % 0x100) as u8,
        (value / 0x100_0000) as u8,
    ]
}

/// The four bytes of `value`, least significant first.
pub fn word_bytes(value: u32) -> (bytes: [u8; 4])
    ensures
        bytes@ == le_bytes(value),
{
    let bytes = [
        (value % 0x100) as u8,
        ((value / 0x100) % 0x100) as u8,
        ((value / 0x1_0000) % 0x100) as u8,
        (value / 0x100_0000) as u8,
    ];
    assert(bytes@ =~= le_bytes(value));
    bytes
}

/// The error that set-up reports when `DYNAMICTOP_PTR` lies outside memory.
pub open spec fn beyond_memory_message() -> Seq<char> {
    "dynamictop_ptr beyond memory len"@
}

/// The index of the 32-bit word at `DYNAMICTOP_PTR` in a memory of
/// `word_count` whole words, or an error when that word lies outside it.
pub fn dynamictop_word(globals: &EmscriptenGlobalsData, word_count: u64) -> (index: Result<
    u64,
    String,
>)
    ensures
        globals@.dynamictop_ptr / 4 < word_count ==> index == Ok::<u64, String>(
            (globals@.dynamictop_ptr / 4) as u64,
        ),
        globals@.dynamictop_ptr / 4 >= word_count ==> index is Err && index->Err_0@
            == beyond_memory_message(),
{
    let word = (globals.dynamictop_ptr() / 4) as u64;
    if word >= word_count {
        return Err("dynamictop_ptr beyond memory len".to_owned());
    }
    Ok(word)
}

/// What set-up writes into a memory of `word_count` whole 32-bit words: the
/// byte offset of the word at `DYNAMICTOP_PTR` (the pointer rounded down to
/// a word) and the four bytes of `dynamic_base`, least significant first; or
/// the error, when that word lies outside the memory.
pub fn dynamictop_write(globals: &EmscriptenGlobalsData, word_count: u64) -> (write: Result<
    (u64, [u8; 4]),
    String,
>)
    ensures
        globals@.dynamictop_ptr / 4 < word_count <==> write is Ok,
        write matches Ok((offset, bytes)) ==> offset == (globals@.dynamictop_ptr / 4) * 4
            && bytes@ == le_bytes(globals@.dynamic_base),
        write matches Err(message) ==> message@ == beyond_memory_message(),
{
    match dynamictop_word(globals, word_count) {
        Ok(index) => Ok((index * 4, word_bytes(globals.dynamic_base()))),
        Err(message) => Err(message),
    }
}

/// Writes `dynamic_base` into the 32-bit word at `DYNAMICTOP_PTR`, so that
/// the module finds the heap's top there; fails when that word lies outside
/// the memory. What is written where, or which error is returned, is
/// decided by [`dynamictop_write`] on the memory's current size in whole
/// words, and exactly that offset and those bytes are handed to the write,
/// which then cannot fail. The memory must belong to `store`.
pub fn emscripten_set_up_memory(
    store: &Store,
    memory: &Memory,
    globals: &EmscriptenGlobalsData,
) -> (result: Result<(), String>)
    requires
        memory_belongs_to(*memory, *store),
    ensures
        result is Err ==> result->Err_0@ == beyond_memory_message(),
{
    let view = memory_view(memory, store);
    let byte_len = view_data_size(&view);
    match dynamictop_write(globals, byte_len / 4) {
        Ok((offset, bytes)) => {
            let written = view_write(&view, offset, &bytes);
            assert(written is Ok);
            Ok(())
        },
        Err(message) => Err(message),
    }
}


/// Sets up the dynamic-top word as [`emscripten_set_up_memory`] does when
/// the memory belongs to `store`; returns `None`, touching nothing, when it
/// belongs to another store.
pub fn set_up_memory_of_store(
    store: &Store,
    memory: &Memory,
    globals: &EmscriptenGlobalsData,
) -> (result: Option<Result<(), String>>)
    ensures
        result is None <==> !memory_belongs_to(*memory, *store),
        result matches Some(Err(message)) ==> message@ == beyond_memory_message(),
{
    if memory_is_from_store(memory, store) {
        Some(emscripten_set_up_memory(store, memory, globals))
    } else {
        None
    }
}

} // verus!
