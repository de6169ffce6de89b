//! How the module's `main` is called: which form of call, and the `argv`
//! table placed on the module's stack.
use vstd::prelude::*;
use crate::memory::{le_bytes, word_bytes};

verus! {

/// The two forms of `main` the environment can call.
#[derive(Clone, Copy, Debug, PartialEq, Eq, Structural)]
pub enum MainCall {
    /// `main(argc, argv)`.
    WithArguments,
    /// `main()`.
    WithoutArguments,
}

/// The form of call for a `main` that takes `num_params` parameters: two
/// parameters take `argc` and `argv`, none take nothing, and no other arity
/// is supported.
pub fn main_call(num_params: usize) -> (call: Option<MainCall>)
    ensures
        num_params == 2 ==> call == Some(MainCall::WithArguments),
        num_params == 0 ==> call == Some(MainCall::WithoutArguments),
        num_params != 2 && num_params != 0 ==> call is None,
{
    if num_params == 2 {
        Some(MainCall::WithArguments)
    } else if num_params == 0 {
        Some(MainCall::WithoutArguments)
    } else {
        None
    }
}

/// The export that holds `main`: `_main` where the module exports a
/// function of that name, else `main`.
pub fn main_export_name(underscore_main_exported: bool) -> (name: &'static str)
    ensures
        name@ == (if underscore_main_exported {
            "_main"@
        } else {
            "main"@
        }),
{
    if underscore_main_exported {
        "_main"
    } else {
        "main"
    }
}

/// The arguments `main` receives: the program's path, then `args`.
pub fn main_arguments<'a>(path: &'a str, args: &Vec<&'a str>) -> (all: Vec<&'a str>)
    ensures
        all@ == seq![path] + args@,
{
    let mut all: Vec<&'a str> = Vec::new();
    all.push(path);
    let mut i: usize = 0;
    while i < args.len()
        invariant
            i <= args@.len(),
            all@ == seq![path] + args@.take(i as int),
        decreases args@.len() - i,
    {
        all.push(args[i]);
        assert(args@.take(i + 1) =~= args@.take(i as int).push(args@[i as int]));
        i = i + 1;
    }
    assert(args@.take(args@.len() as int) =~= args@);
    all
}

/// Where the arguments go on the module's stack: the count handed to `main`,
/// the number of `u32` slots reserved for `argv`, and the words written at
/// the start of those slots.
pub struct ArgvLayout {
    pub argc: u32,
    pub slot_count: u32,
    pub words: Vec<u32>,
}

/// The `argv` table for arguments whose strings were placed at
/// `arg_pointers`: the pointers in order, each slot after them zero up to and
/// including slot `argc + 1`; `argc` is the number of arguments, and the
/// table reserves four slots for each argument and one more.
pub fn argv_layout(arg_pointers: &Vec<u32>) -> (layout: ArgvLayout)
    requires
        (arg_pointers@.len() + 1) * 4 <= u32::MAX,
    ensures
        layout.argc == arg_pointers@.len(),
        layout.slot_count == (arg_pointers@.len() + 1) * 4,
        layout.words@ == arg_pointers@ + seq![0u32, 0u32],
        layout.words@.len() <= layout.slot_count,
{
    let argc: usize = arg_pointers.len() + 1;
    let mut words: Vec<u32> = Vec::new();
    let mut i: usize = 0;
    while i < arg_pointers.len()
        invariant
            i <= arg_pointers@.len(),
            words@ == arg_pointers@.take(i as int),
        decreases arg_pointers@.len() - i,
    {
        words.push(arg_pointers[i]);
        assert(arg_pointers@.take(i + 1) =~= arg_pointers@.take(i as int).push(
            arg_pointers@[i as int],
        ));
        i = i + 1;
    }
    // the slot after the last pointer, then the terminating slot at `argc`
    words.push(0);
    words.push(0);
    assert(arg_pointers@.take(arg_pointers@.len() as int) =~= arg_pointers@);
    assert(words@ =~= arg_pointers@ + seq![0u32, 0u32]);
    ArgvLayout { argc: (argc - 1) as u32, slot_count: (argc * 4) as u32, words }
}

/// The writes that place an `argv` table at `argv_offset`: slot `i` is the
/// four bytes, least significant first, of `layout.words[i]`, at byte
/// `argv_offset + 4 * i`.
pub fn argv_writes(argv_offset: u32, layout: &ArgvLayout) -> (writes: Vec<(u64, [u8; 4])>)
    requires
        layout.words@.len() <= u32::MAX,
    ensures
        writes@.len() == layout.words@.len(),
        forall|i: int|
            0 <= i < writes@.len() ==> (#[trigger] writes@[i]).0 == argv_offset + 4 * i
                && writes@[i].1@ == le_bytes(layout.words@[i]),
{
    let mut writes: Vec<(u64, [u8; 4])> = Vec::new();
    let mut i: usize = 0;
    while i < layout.words.len()
        invariant
            i <= layout.words@.len(),
            layout.words@.len() <= u32::MAX,
            writes@.len() == i,
            forall|j: int|
                0 <= j < i ==> (#[trigger] writes@[j]).0 == argv_offset + 4 * j
                    && writes@[j].1@ == le_bytes(layout.words@[j]),
        decreases layout.words@.len() - i,
    {
        let offset: u64 = argv_offset as u64 + 4 * (i as u64);
        writes.push((offset, word_bytes(layout.words[i])));
        i = i + 1;
    }
    writes
}

} // verus!
