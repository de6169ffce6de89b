//! Where Emscripten's globals, stack and heap start in linear memory.
//!
//! Linear memory is laid out as
//! `[GLOBAL_BASE .. static area .. | stack (TOTAL_STACK bytes) | dynamic heap ..]`,
//! with every region start aligned to 16 bytes.
use vstd::prelude::*;

verus! {

/// Size in bytes of the stack that the environment reserves.
pub const TOTAL_STACK: u32 = 5_242_880;

/// Size in bytes of the static data that the environment assumes precedes the stack.
pub const STATIC_BUMP: u32 = 215_536;

/// The address at which globals begin: very low in memory.
pub const GLOBAL_BASE: u32 = 1024;

/// Static memory starts with the globals.
pub const STATIC_BASE: u32 = 1024;

/// `x` rounded up to the next multiple of 16.
pub open spec fn align16(x: int) -> int {
    (x + 15) - (x + 15) % 16
}

/// Rounds `ptr` up to the next multiple of 16.
pub fn align_memory(ptr: u32) -> (aligned: u32)
    requires
        ptr + 15 <= u32::MAX,
    ensures
        aligned == align16(ptr as int),
        aligned % 16 == 0,
        ptr <= aligned < ptr + 16,
{
    let bumped: u32 = ptr + 15;
    let aligned: u32 = bumped & 0xffff_fff0u32;
    assert(aligned == bumped - bumped % 16) by (bit_vector)
        requires
            aligned == bumped & 0xffff_fff0u32,
    ;
    aligned
}

/// Reserves `size` bytes at the current top of static memory: returns the
/// old top and moves the top past the block, to the next multiple of 16.
pub fn static_alloc(static_top: &mut u32, size: u32) -> (block: u32)
    requires
        *old(static_top) + size + 15 <= u32::MAX,
    ensures
        block == *old(static_top),
        *final(static_top) == align16(*old(static_top) + size),
        *final(static_top) % 16 == 0,
        block + size <= *final(static_top) < block + size + 16,
{
    let old_top: u32 = *static_top;
    let bumped: u32 = old_top + size + 15;
    let new_top: u32 = bumped & 0xffff_fff0u32;
    assert(new_top == bumped - bumped % 16) by (bit_vector)
        requires
            new_top == bumped & 0xffff_fff0u32,
    ;
    *static_top = new_top;
    old_top
}


/// The values of Emscripten's globals, as plain numbers.
pub struct GlobalsLayout {
    pub abort: u64,
    pub stacktop: u32,
    pub stack_max: u32,
    pub dynamictop_ptr: u32,
    pub dynamic_base: u32,
    pub memory_base: u32,
    pub table_base: u32,
    pub temp_double_ptr: u32,
    pub use_old_abort_on_cannot_grow_memory: bool,
}

/// The values of the globals that an Emscripten module is given: where its
/// stack lies, where the dynamic heap begins, and where the word that holds
/// the heap's top is.
#[derive(Clone, Copy)]
pub struct EmscriptenGlobalsData {
    abort: u64,
    // Env namespace
    stacktop: u32,
    stack_max: u32,
    dynamictop_ptr: u32,
    dynamic_base: u32,
    memory_base: u32,
    table_base: u32,
    temp_double_ptr: u32,
    use_old_abort_on_cannot_grow_memory: bool,
}

impl View for EmscriptenGlobalsData {
    type V = GlobalsLayout;

    closed spec fn view(&self) -> GlobalsLayout {
        GlobalsLayout {
            abort: self.abort,
            stacktop: self.stacktop,
            stack_max: self.stack_max,
            dynamictop_ptr: self.dynamictop_ptr,
            dynamic_base: self.dynamic_base,
            memory_base: self.memory_base,
            table_base: self.table_base,
            temp_double_ptr: self.temp_double_ptr,
            use_old_abort_on_cannot_grow_memory: self.use_old_abort_on_cannot_grow_memory,
        }
    }
}

/// The top of static memory before anything is placed there.
pub open spec fn initial_static_top() -> int {
    STATIC_BASE + STATIC_BUMP
}

/// The layout the environment computes. `metadata` is the pair
/// `(dynamic_base, dynamictop_ptr)` that the module itself records, if it
/// records one; without it, a word for the heap's top is reserved in static
/// memory and the heap begins after the stack.
pub open spec fn globals_layout(
    metadata: Option<(u32, u32)>,
    use_old_abort_on_cannot_grow_memory: bool,
) -> GlobalsLayout {
    let temp_double_ptr = initial_static_top();
    let top_after_temp = temp_double_ptr + 16;
    let (dynamic_base, dynamictop_ptr, static_top) = match metadata {
        Some((base, top_ptr)) => (base as int, top_ptr as int, top_after_temp),
        None => {
            let top_after_word = align16(top_after_temp + 4);
            (align16(align16(top_after_word) + TOTAL_STACK), top_after_temp, top_after_word)
        },
    };
    let stacktop = align16(static_top);
    GlobalsLayout {
        abort: 0,
        stacktop: stacktop as u32,
        stack_max: (stacktop + TOTAL_STACK) as u32,
        dynamictop_ptr: dynamictop_ptr as u32,
        dynamic_base: dynamic_base as u32,
        memory_base: STATIC_BASE,
        table_base: 0,
        temp_double_ptr: temp_double_ptr as u32,
        use_old_abort_on_cannot_grow_memory,
    }
}

impl EmscriptenGlobalsData {
    /// Lays out the globals: a 16-byte scratch slot for doubles at the top of
    /// static memory, then (unless the module records them in `metadata`)
    /// a word for the heap's top, then the stack, then the heap.
    pub fn new(metadata: Option<(u32, u32)>, use_old_abort_on_cannot_grow_memory: bool) -> (data:
        Self)
        ensures
            data@ == globals_layout(metadata, use_old_abort_on_cannot_grow_memory),
            data@.use_old_abort_on_cannot_grow_memory == use_old_abort_on_cannot_grow_memory,
            data@.abort == 0,
            data@.table_base == 0,
            data@.memory_base == GLOBAL_BASE,
            data@.stack_max == data@.stacktop + TOTAL_STACK,
            data@.stacktop % 16 == 0,
            data@.temp_double_ptr + 16 <= data@.stacktop,
            metadata matches Some((base, top_ptr)) ==> data@.dynamic_base == base
                && data@.dynamictop_ptr == top_ptr,
            metadata is None ==> data@.temp_double_ptr + 16 <= data@.dynamictop_ptr
                && data@.dynamictop_ptr + 4 <= data@.stacktop && data@.stack_max
                <= data@.dynamic_base && data@.dynamic_base % 16 == 0,
    {
        let static_bump: u32 = STATIC_BUMP;
        let mut static_top: u32 = STATIC_BASE + static_bump;
        let memory_base: u32 = STATIC_BASE;
        let table_base: u32 = 0;
        let temp_double_ptr: u32 = static_top;
        static_top = static_top + 16;
        let (dynamic_base, dynamictop_ptr) = match metadata {
            Some(recorded) => recorded,
            None => {
                let dynamictop_ptr = static_alloc(&mut static_top, 4);
                (align_memory(align_memory(static_top) + TOTAL_STACK), dynamictop_ptr)
            },
        };
        let stacktop = align_memory(static_top);
        let stack_max = stacktop + TOTAL_STACK;
        EmscriptenGlobalsData {
            abort: 0,
            stacktop,
            stack_max,
            dynamictop_ptr,
            dynamic_base,
            memory_base,
            table_base,
            temp_double_ptr,
            use_old_abort_on_cannot_grow_memory,
        }
    }
}


impl EmscriptenGlobalsData {
    /// The value of `ABORT`.
    pub fn abort(&self) -> (v: u64)
        ensures
            v == self@.abort,
    {
        self.abort
    }

    /// The value of `STACKTOP`: where the stack begins.
    pub fn stacktop(&self) -> (v: u32)
        ensures
            v == self@.stacktop,
    {
        self.stacktop
    }

    /// The value of `STACK_MAX`: where the stack ends.
    pub fn stack_max(&self) -> (v: u32)
        ensures
            v == self@.stack_max,
    {
        self.stack_max
    }

    /// The value of `DYNAMICTOP_PTR`: the address of the word that holds the heap's top.
    pub fn dynamictop_ptr(&self) -> (v: u32)
        ensures
            v == self@.dynamictop_ptr,
    {
        self.dynamictop_ptr
    }

    /// Where the dynamic heap begins.
    pub fn dynamic_base(&self) -> (v: u32)
        ensures
            v == self@.dynamic_base,
    {
        self.dynamic_base
    }

    /// The value of `memoryBase`: where static memory begins.
    pub fn memory_base(&self) -> (v: u32)
        ensures
            v == self@.memory_base,
    {
        self.memory_base
    }

    /// The value of `tableBase`.
    pub fn table_base(&self) -> (v: u32)
        ensures
            v == self@.table_base,
    {
        self.table_base
    }

    /// The value of `tempDoublePtr`: a 16-byte scratch slot in static memory.
    pub fn temp_double_ptr(&self) -> (v: u32)
        ensures
            v == self@.temp_double_ptr,
    {
        self.temp_double_ptr
    }

    /// Whether the module imports the older, result-returning form of
    /// `abortOnCannotGrowMemory`.
    pub fn use_old_abort_on_cannot_grow_memory(&self) -> (v: bool)
        ensures
            v == self@.use_old_abort_on_cannot_grow_memory,
    {
        self.use_old_abort_on_cannot_grow_memory
    }
}

/// Whatever the module records, static memory starts with the globals at
/// `GLOBAL_BASE`, the stack is `TOTAL_STACK` bytes long and starts on a
/// 16-byte boundary, and the scratch slot for doubles lies in static memory,
/// wholly below the stack.
pub proof fn lemma_stack_follows_static_memory(
    metadata: Option<(u32, u32)>,
    use_old_abort_on_cannot_grow_memory: bool,
)
    ensures
        ({
            let g = globals_layout(metadata, use_old_abort_on_cannot_grow_memory);
            &&& g.stack_max == g.stacktop + TOTAL_STACK
            &&& g.stacktop % 16 == 0
            &&& g.memory_base == GLOBAL_BASE
            &&& g.memory_base <= g.temp_double_ptr
            &&& g.temp_double_ptr + 16 <= g.stacktop
        }),
{
}

/// When the module records no metadata, the word that holds the heap's top
/// lies in static memory between the scratch slot and the stack, and the heap
/// begins on a 16-byte boundary at or after the end of the stack.
pub proof fn lemma_heap_follows_stack(use_old_abort_on_cannot_grow_memory: bool)
    ensures
        ({
            let g = globals_layout(None, use_old_abort_on_cannot_grow_memory);
            &&& g.temp_double_ptr + 16 <= g.dynamictop_ptr
            &&& g.dynamictop_ptr + 4 <= g.stacktop
            &&& g.dynamictop_ptr % 4 == 0
            &&& g.stack_max <= g.dynamic_base
            &&& g.dynamic_base % 16 == 0
        }),
{
}

/// The layout passes the flag for the older `abortOnCannotGrowMemory` form
/// through unchanged, and takes the heap's base and the address of its top
/// word from the metadata where the module records them, whatever the rest.
pub proof fn lemma_layout_keeps_given_values(
    metadata: Option<(u32, u32)>,
    use_old_abort_on_cannot_grow_memory: bool,
)
    ensures
        globals_layout(metadata, use_old_abort_on_cannot_grow_memory).use_old_abort_on_cannot_grow_memory
            == use_old_abort_on_cannot_grow_memory,
        globals_layout(metadata, use_old_abort_on_cannot_grow_memory).stack_max
            == globals_layout(metadata, !use_old_abort_on_cannot_grow_memory).stack_max,
        metadata matches Some((base, top_ptr)) ==> globals_layout(
            metadata,
            use_old_abort_on_cannot_grow_memory,
        ).dynamic_base == base && globals_layout(
            metadata,
            use_old_abort_on_cannot_grow_memory,
        ).dynamictop_ptr == top_ptr,
{
}

/// Rounding up to 16 twice is rounding up once.
pub proof fn lemma_align16_idempotent(x: int)
    ensures
        align16(align16(x)) == align16(x),
        align16(x) % 16 == 0,
        x <= align16(x) < x + 16,
{
}

} // verus!
