//! What the environment decides from a module's function imports.
use vstd::prelude::*;
use crate::text::{has_prefix, names_view, same_text, starts_with};

verus! {

/// A WebAssembly value type.
#[derive(Clone, Copy, Debug, PartialEq, Eq, Structural)]
pub enum ValueKind {
    I32,
    I64,
    Float32,
    Float64,
    V128,
    ExternRef,
    FuncRef,
    ExceptionRef,
}

/// The parameter and result types of a function.
pub struct FunctionSignature {
    pub params: Vec<ValueKind>,
    pub results: Vec<ValueKind>,
}

/// A function that a module imports: the namespace it is imported from,
/// its name there, and its type.
pub struct FunctionImport {
    pub module: String,
    pub name: String,
    pub signature: FunctionSignature,
}

/// The import through which a module learns that memory could not grow.
pub open spec fn is_abort_on_cannot_grow_memory(import: FunctionImport) -> bool {
    import.module@ == "env"@ && import.name@ == "abortOnCannotGrowMemory"@
}

/// The older form of that import's type: no parameters, one `i32` result.
pub open spec fn is_old_abort_signature(signature: FunctionSignature) -> bool {
    signature.params@.len() == 0 && signature.results@ == seq![ValueKind::I32]
}

/// The first import of `env.abortOnCannotGrowMemory`, if any, has the older type.
pub open spec fn uses_old_abort(imports: Seq<FunctionImport>) -> bool {
    exists|i: int|
        0 <= i < imports.len() && is_abort_on_cannot_grow_memory(#[trigger] imports[i])
            && is_old_abort_signature(imports[i].signature) && forall|j: int|
            0 <= j < i ==> !is_abort_on_cannot_grow_memory(#[trigger] imports[j])
}

/// Whether the module imports the older form of `abortOnCannotGrowMemory`:
/// only the first import of that name from `env` counts.
pub fn uses_old_abort_on_cannot_grow_memory(imports: &Vec<FunctionImport>) -> (old_form: bool)
    ensures
        old_form == uses_old_abort(imports@),
{
    let mut i: usize = 0;
    while i < imports.len()
        invariant
            i <= imports@.len(),
            forall|j: int| 0 <= j < i ==> !is_abort_on_cannot_grow_memory(#[trigger] imports@[j]),
        decreases imports@.len() - i,
    {
        let import = &imports[i];
        if same_text(import.name.as_str(), "abortOnCannotGrowMemory") && same_text(
            import.module.as_str(),
            "env",
        ) {
            let sig = &import.signature;
            let old_form = sig.params.len() == 0 && sig.results.len() == 1 && sig.results[0]
                == ValueKind::I32;
            assert(old_form == is_old_abort_signature(imports@[i as int].signature)) by {
                if sig.results.len() == 1 && sig.results[0] == ValueKind::I32 {
                    assert(sig.results@ =~= seq![ValueKind::I32]);
                }
            }
            return old_form;
        }
        i = i + 1;
    }
    false
}

/// An import from `env` whose name marks it as a stand-in for a null function pointer.
pub open spec fn is_null_function_import(import: FunctionImport) -> bool {
    import.module@ == "env"@ && (has_prefix(import.name@, "nullFunction_"@) || has_prefix(
        import.name@,
        "nullFunc_"@,
    ))
}

/// The null-function imports, in import order.
pub open spec fn null_function_imports(imports: Seq<FunctionImport>) -> Seq<FunctionImport> {
    imports.filter(|i: FunctionImport| is_null_function_import(i))
}

/// The names of the null-function imports, in import order.
pub open spec fn null_function_import_names(imports: Seq<FunctionImport>) -> Seq<Seq<char>> {
    null_function_imports(imports).map_values(|i: FunctionImport| i.name@)
}

/// Whether `import` stands in for a null function pointer.
pub fn is_null_function(import: &FunctionImport) -> (b: bool)
    ensures
        b == is_null_function_import(*import),
{
    same_text(import.module.as_str(), "env") && (starts_with(import.name.as_str(), "nullFunction_")
        || starts_with(import.name.as_str(), "nullFunc_"))
}

/// The names of the module's null-function imports, in import order.
pub fn null_function_names(imports: &Vec<FunctionImport>) -> (names: Vec<String>)
    ensures
        names_view(names@) == null_function_import_names(imports@),
{
    let mut names: Vec<String> = Vec::new();
    let mut i: usize = 0;
    while i < imports.len()
        invariant
            i <= imports@.len(),
            names_view(names@) == null_function_import_names(imports@.take(i as int)),
        decreases imports@.len() - i,
    {
        let ghost before = names@;
        let ghost prefix = imports@.take(i as int);
        let ghost next = imports@.take(i + 1);
        assert(next =~= prefix.push(imports@[i as int]));
        proof {
            broadcast use Seq::lemma_filter_push;

        }
        if is_null_function(&imports[i]) {
            names.push(imports[i].name.clone());
            assert(null_function_imports(next) == null_function_imports(prefix).push(
                imports@[i as int],
            ));
            assert(names_view(names@) =~= names_view(before).push(imports@[i as int].name@));
            assert(null_function_import_names(next) =~= null_function_import_names(prefix).push(
                imports@[i as int].name@,
            ));
        } else {
            assert(null_function_imports(next) == null_function_imports(prefix));
        }
        i = i + 1;
    }
    assert(imports@.take(imports@.len() as int) =~= imports@);
    names
}

} // verus!
