//! Reading a compiled module's function imports into plain values.
use vstd::prelude::*;
use crate::imports::{FunctionImport, FunctionSignature, ValueKind};
use wasmer::{FunctionType, ImportType, Module, Type};

verus! {

/// A compiled wasmer module, carried through as it is.
#[verifier::external_type_specification]
#[verifier::external_body]
pub struct ExModule(Module);

/// wasmer's description of one import: namespace, name and type.
#[verifier::external_type_specification]
#[verifier::external_body]
#[verifier::reject_recursive_types(T)]
pub struct ExImportType<T>(ImportType<T>);

/// wasmer's function type: parameter and result types.
#[verifier::external_type_specification]
#[verifier::external_body]
pub struct ExFunctionType(FunctionType);

/// wasmer's WebAssembly value type.
#[verifier::external_type_specification]
#[verifier::external_body]
pub struct ExType(Type);

/// An import's namespace, name, parameter kinds and result kinds.
pub type ImportRecord = (Seq<char>, Seq<char>, Seq<ValueKind>, Seq<ValueKind>);

/// What a module's function imports hold, in the order the module declares
/// its imports: a fixed part of the compiled module.
pub uninterp spec fn module_function_imports_of(module: Module) -> Seq<ImportRecord>;

/// What one import description holds: its namespace, its name and the kinds
/// of its type's parameters and results, all fixed fields of the description.
pub uninterp spec fn import_record(import: ImportType<FunctionType>) -> ImportRecord;

/// The library's kind for a wasmer value type.
pub uninterp spec fn value_kind_of(ty: Type) -> ValueKind;

/// The plain record of a function import.
pub open spec fn function_import_record(import: FunctionImport) -> ImportRecord {
    (import.module@, import.name@, import.signature.params@, import.signature.results@)
}

/// `Module::imports` filtered by `ImportsIterator::functions`: the module's
/// function imports, whose records are the module's function imports in
/// declaration order.
#[verifier::external_body]
fn module_function_import_types(module: &Module) -> (raw: Vec<ImportType<FunctionType>>)
    ensures
        raw@.map_values(|i: ImportType<FunctionType>| import_record(i))
            == module_function_imports_of(*module),
{
    module.imports().functions().collect()
}

/// `ImportType::module`: the namespace an import comes from, as a `String`.
#[verifier::external_body]
fn import_namespace(import: &ImportType<FunctionType>) -> (namespace: String)
    ensures
        namespace@ == import_record(*import).0,
{
    import.module().to_string()
}

/// `ImportType::name`: the import's name within its namespace, as a `String`.
#[verifier::external_body]
fn import_field_name(import: &ImportType<FunctionType>) -> (name: String)
    ensures
        name@ == import_record(*import).1,
{
    import.name().to_string()
}

/// `FunctionType::params` of the import's type, copied into a `Vec`: their
/// kinds are the import's parameter kinds.
#[verifier::external_body]
fn import_param_types(import: &ImportType<FunctionType>) -> (types: Vec<Type>)
    ensures
        types@.map_values(|t: Type| value_kind_of(t)) == import_record(*import).2,
{
    import.ty().params().to_vec()
}

/// `FunctionType::results` of the import's type, copied into a `Vec`: their
/// kinds are the import's result kinds.
#[verifier::external_body]
fn import_result_types(import: &ImportType<FunctionType>) -> (types: Vec<Type>)
    ensures
        types@.map_values(|t: Type| value_kind_of(t)) == import_record(*import).3,
{
    import.ty().results().to_vec()
}

/// The library's name for each variant of wasmer's `Type`, variant for variant.
#[verifier::external_body]
fn value_kind(ty: &Type) -> (kind: ValueKind)
    ensures
        kind == value_kind_of(*ty),
{
    match ty {
        Type::I32 => ValueKind::I32,
        Type::I64 => ValueKind::I64,
        Type::F32 => ValueKind::Float32,
        Type::F64 => ValueKind::Float64,
        Type::V128 => ValueKind::V128,
        Type::ExternRef => ValueKind::ExternRef,
        Type::FuncRef => ValueKind::FuncRef,
        Type::ExceptionRef => ValueKind::ExceptionRef,
    }
}

/// The kinds of a list of wasmer types, in order.
fn value_kinds(types: &Vec<Type>) -> (kinds: Vec<ValueKind>)
    ensures
        kinds@ == types@.map_values(|t: Type| value_kind_of(t)),
{
    let mut kinds: Vec<ValueKind> = Vec::new();
    let mut i: usize = 0;
    while i < types.len()
        invariant
            i <= types@.len(),
            kinds@.len() == i,
            forall|j: int| 0 <= j < i ==> kinds@[j] == value_kind_of(#[trigger] types@[j]),
        decreases types@.len() - i,
    {
        kinds.push(value_kind(&types[i]));
        i = i + 1;
    }
    assert(kinds@ =~= types@.map_values(|t: Type| value_kind_of(t)));
    kinds
}

/// The module's function imports as plain values: one for each function
/// import of the module, in the module's order, each holding that import's
/// namespace, name and parameter and result kinds.
pub fn function_imports(module: &Module) -> (imports: Vec<FunctionImport>)
    ensures
        imports@.map_values(|i: FunctionImport| function_import_record(i))
            == module_function_imports_of(*module),
{
    let raw = module_function_import_types(module);
    let mut imports: Vec<FunctionImport> = Vec::new();
    let mut i: usize = 0;
    while i < raw.len()
        invariant
            i <= raw@.len(),
            imports@.len() == i,
            forall|j: int|
                0 <= j < i ==> function_import_record(#[trigger] imports@[j]) == import_record(
                    raw@[j],
                ),
        decreases raw@.len() - i,
    {
        let import = &raw[i];
        let params = value_kinds(&import_param_types(import));
        let results = value_kinds(&import_result_types(import));
        imports.push(
            FunctionImport {
                module: import_namespace(import),
                name: import_field_name(import),
                signature: FunctionSignature { params, results },
            },
        );
        i = i + 1;
    }
    let ghost records = raw@.map_values(|r: ImportType<FunctionType>| import_record(r));
    assert(records == module_function_imports_of(*module));
    assert(imports@.map_values(|i: FunctionImport| function_import_record(i)) =~= records);
    imports
}

} // verus!
