//! The `env` namespace as wasmer holds it: an ordered map from export names
//! to externs.
use vstd::prelude::*;
use crate::namespace::{
    env_namespace_entries, last_position, lemma_aliases_are_fresh, lemma_last_position_in_range,
    lemma_aliases_are_complete, lemma_last_position, compat_aliases_of,
    namespace_keys, namespace_source, ExportSource, entry_keys,
    is_namespace_of, namespace_view,
};
use crate::text::names_view;
use wasmer::{Exports, Extern};

verus! {

/// wasmer's ordered map from export names to externs.
#[verifier::external_type_specification]
#[verifier::external_body]
pub struct ExExports(Exports);

/// wasmer's extern: a function, global, table, memory or tag handle.
#[verifier::external_type_specification]
#[verifier::external_body]
pub struct ExExtern(Extern);

/// The names an `Exports` holds, in its order (the keys of its `IndexMap`).
pub uninterp spec fn exports_names(exports: Exports) -> Seq<Seq<char>>;

/// The extern an `Exports` holds under `name`, where it holds that name.
pub uninterp spec fn exports_value(exports: Exports, name: Seq<char>) -> Extern;

/// `Exports::new`: an empty map.
#[verifier::external_body]
fn exports_empty() -> (exports: Exports)
    ensures
        exports_names(exports) == Seq::<Seq<char>>::empty(),
{
    Exports::new()
}

/// `Exports::iter`, keeping the names: the map's keys in its order, each
/// once.
#[verifier::external_body]
fn exports_name_list(exports: &Exports) -> (names: Vec<String>)
    ensures
        names_view(names@) == exports_names(*exports),
        names_view(names@).no_duplicates(),
{
    exports.iter().map(|(name, _)| name.clone()).collect()
}

/// `Exports::get_extern`, cloned: the extern held under `name`, if any (a
/// clone of an extern is the same handle, equal to it).
#[verifier::external_body]
fn exports_extern(exports: &Exports, name: &str) -> (value: Option<Extern>)
    ensures
        value is Some <==> exports_names(*exports).contains(name@),
        value matches Some(v) ==> v == exports_value(*exports, name@),
{
    exports.get_extern(name).cloned()
}

/// `Exports::insert` (`IndexMap::insert`): `name` now holds `value`; a name
/// already there keeps its place, a new name goes last; other names keep
/// their externs.
#[verifier::external_body]
fn exports_insert(exports: &mut Exports, name: String, value: Extern)
    ensures
        exports_names(*final(exports)) == (if exports_names(*old(exports)).contains(name@) {
            exports_names(*old(exports))
        } else {
            exports_names(*old(exports)).push(name@)
        }),
        exports_value(*final(exports), name@) == value,
        forall|other: Seq<char>|
            other != name@ ==> #[trigger] exports_value(*final(exports), other) == exports_value(
                *old(exports),
                other,
            ),
{
    exports.insert(name, value)
}

/// `Extern::clone`: the same handle.
#[verifier::external_body]
fn extern_copy(value: &Extern) -> (copy: Extern)
    ensures
        copy == *value,
{
    value.clone()
}

/// The extern that the completed namespace holds under `key`: the table's
/// own export for a table name or an alias, and for a null function the
/// stub made for the last position of that name among `null_names`.
pub open spec fn completed_value(
    table: Exports,
    null_names: Seq<Seq<char>>,
    null_stubs: Seq<Extern>,
    key: Seq<char>,
) -> Extern {
    let names = exports_names(table);
    match namespace_source(names, null_names, key) {
        Some(ExportSource::Table(i)) => exports_value(table, names[i as int]),
        Some(ExportSource::Alias(i)) => exports_value(table, names[i as int]),
        Some(ExportSource::NullFunction(t)) => null_stubs[t as int],
        None => exports_value(table, key),
    }
}

/// An alias holds the very extern of the name it was made from: where the
/// table holds `name`, which begins with `_`, and neither the table nor the
/// null-function imports hold `name` without it, the completed namespace
/// holds that remainder, with the table's extern of `name`.
pub proof fn lemma_alias_shares_value(
    table: Exports,
    null_names: Seq<Seq<char>>,
    null_stubs: Seq<Extern>,
    name: Seq<char>,
)
    requires
        exports_names(table).len() <= usize::MAX,
        null_names.len() <= usize::MAX,
        exports_names(table).contains(name),
        name.len() > 0,
        name[0] == '_',
        !exports_names(table).contains(name.drop_first()),
        !null_names.contains(name.drop_first()),
    ensures
        namespace_source(exports_names(table), null_names, name.drop_first()) is Some,
        completed_value(table, null_names, null_stubs, name.drop_first()) == exports_value(
            table,
            name,
        ),
{
    let names = exports_names(table);
    let alias = name.drop_first();
    let j = choose|j: int| 0 <= j < names.len() && names[j] == name;
    lemma_aliases_are_complete(names, j);
    lemma_aliases_are_fresh(names);
    let aliases = compat_aliases_of(names);
    let w = choose|w: int| 0 <= w < aliases.len() && (#[trigger] aliases[w]) == (alias, j);
    assert(aliases[w].0 == alias);
    assert(exists|k: int| 0 <= k < aliases.len() && aliases[k].0 == alias);
    let source = namespace_source(names, null_names, alias);
    assert(source matches Some(ExportSource::Alias(_)));
    let i = source.unwrap()->Alias_0 as int;
    assert(names[i] =~= seq!['_'] + alias);
    assert(name =~= seq!['_'] + alias);
}

/// A name of the table that no null-function import claims keeps its own
/// extern in the completed namespace.
pub proof fn lemma_table_name_keeps_value(
    table: Exports,
    null_names: Seq<Seq<char>>,
    null_stubs: Seq<Extern>,
    name: Seq<char>,
)
    requires
        exports_names(table).len() <= usize::MAX,
        null_names.len() <= usize::MAX,
        exports_names(table).contains(name),
        !null_names.contains(name),
    ensures
        namespace_source(exports_names(table), null_names, name) is Some,
        completed_value(table, null_names, null_stubs, name) == exports_value(table, name),
{
    let names = exports_names(table);
    let j = choose|j: int| 0 <= j < names.len() && names[j] == name;
    assert(names[j] == name);
}

/// A null-function import is given the stub made for its last occurrence
/// among the imports, whatever the table holds under that name.
pub proof fn lemma_null_import_gets_stub(
    table: Exports,
    null_names: Seq<Seq<char>>,
    null_stubs: Seq<Extern>,
    t: int,
)
    requires
        null_names.len() <= usize::MAX,
        null_stubs.len() == null_names.len(),
        0 <= t < null_names.len(),
        forall|u: int| t < u < null_names.len() ==> null_names[u] != null_names[t],
    ensures
        namespace_source(exports_names(table), null_names, null_names[t]) is Some,
        completed_value(table, null_names, null_stubs, null_names[t]) == null_stubs[t],
{
    lemma_last_position(null_names, null_names[t], t);
}

/// Completes the `env` namespace: each name of the table that begins with
/// `_` also appears without it where that name is free, and each
/// null-function import is given its own stub (`null_stubs[t]` for
/// `null_function_names[t]`; of a name imported twice, the later stub),
/// replacing a table export or alias of that name. The keys come in the
/// order of [`namespace_keys`].
pub fn complete_env_namespace(
    env_ns: &mut Exports,
    null_function_names: &Vec<String>,
    null_stubs: &Vec<Extern>,
)
    requires
        null_stubs@.len() == null_function_names@.len(),
    ensures
        exports_names(*final(env_ns)) == namespace_keys(
            exports_names(*old(env_ns)),
            names_view(null_function_names@),
        ),
        forall|key: Seq<char>|
            #[trigger] exports_names(*final(env_ns)).contains(key) <==> namespace_source(
                exports_names(*old(env_ns)),
                names_view(null_function_names@),
                key,
            ) is Some,
        forall|key: Seq<char>|
            #[trigger] exports_names(*final(env_ns)).contains(key) ==> exports_value(
                *final(env_ns),
                key,
            ) == completed_value(*old(env_ns), names_view(null_function_names@), null_stubs@, key),
        forall|name: Seq<char>|
            #![trigger exports_names(*old(env_ns)).contains(name)]
            #![trigger exports_value(*old(env_ns), name)]
            exports_names(*old(env_ns)).contains(name) && name.len() > 0 && name[0] == '_'
                && !exports_names(*old(env_ns)).contains(name.drop_first()) && !names_view(
                null_function_names@,
            ).contains(name.drop_first()) ==> {
                &&& exports_names(*final(env_ns)).contains(name.drop_first())
                &&& exports_value(*final(env_ns), name.drop_first()) == exports_value(
                    *old(env_ns),
                    name,
                )
            },
        forall|name: Seq<char>|
            #![trigger exports_names(*old(env_ns)).contains(name)]
            #![trigger exports_value(*final(env_ns), name)]
            exports_names(*old(env_ns)).contains(name) && !names_view(
                null_function_names@,
            ).contains(name) ==> {
                &&& exports_names(*final(env_ns)).contains(name)
                &&& exports_value(*final(env_ns), name) == exports_value(*old(env_ns), name)
            },
        forall|key: Seq<char>|
            #[trigger] exports_names(*final(env_ns)).contains(key) ==> exports_names(
                *old(env_ns),
            ).contains(key) || names_view(null_function_names@).contains(key) || exports_names(
                *old(env_ns),
            ).contains(seq!['_'] + key),
        forall|t: int|
            0 <= t < null_function_names@.len() && (forall|u: int|
                t < u < null_function_names@.len() ==> null_function_names@[u]@
                    != null_function_names@[t]@) ==> {
                &&& exports_names(*final(env_ns)).contains(#[trigger] null_function_names@[t]@)
                &&& exports_value(*final(env_ns), null_function_names@[t]@) == null_stubs@[t]
            },
{
    let ghost table = *env_ns;
    let ghost nulls = names_view(null_function_names@);
    let names = exports_name_list(env_ns);
    let ghost all = names_view(names@);
    let entries = env_namespace_entries(&names, null_function_names);
    let ghost view = namespace_view(entries@);
    proof {
        lemma_aliases_are_fresh(all);
    }
    let mut completed = exports_empty();
    let mut k: usize = 0;
    while k < entries.len()
        invariant
            k <= entries@.len(),
            all == names_view(names@),
            all == exports_names(table),
            table == *env_ns,
            null_stubs@.len() == nulls.len(),
            view == namespace_view(entries@),
            is_namespace_of(view, all, nulls),
            forall|q: int|
                0 <= q < crate::namespace::compat_aliases_of(all).len() ==> {
                    let (alias, j) = #[trigger] crate::namespace::compat_aliases_of(all)[q];
                    0 <= j < all.len()
                },
            exports_names(completed) == entry_keys(view).take(k as int),
            forall|j: int|
                0 <= j < k ==> exports_value(completed, #[trigger] view[j].0) == completed_value(
                    table,
                    nulls,
                    null_stubs@,
                    view[j].0,
                ),
        decreases entries@.len() - k,
    {
        let key = entries[k].0.clone();
        let value = match entries[k].1 {
            ExportSource::Table(i) | ExportSource::Alias(i) => {
                assert(namespace_source(all, nulls, view[k as int].0) == Some(view[k as int].1));
                assert(i < names@.len());
                assert(all[i as int] == names@[i as int]@);
                assert(all.contains(all[i as int]));
                exports_extern(env_ns, names[i].as_str()).unwrap()
            },
            ExportSource::NullFunction(t) => {
                assert(namespace_source(all, nulls, view[k as int].0) == Some(view[k as int].1));
                proof {
                    lemma_last_position_in_range(nulls, view[k as int].0);
                }
                extern_copy(&null_stubs[t])
            },
        };
        assert(!entry_keys(view).take(k as int).contains(key@)) by {
            if entry_keys(view).take(k as int).contains(key@) {
                let c = choose|c: int|
                    0 <= c < k && entry_keys(view).take(k as int)[c] == key@;
                assert(view[c].0 == view[k as int].0);
            }
        }
        exports_insert(&mut completed, key, value);
        assert(entry_keys(view).take(k + 1) =~= entry_keys(view).take(k as int).push(
            view[k as int].0,
        ));
        assert forall|j: int| 0 <= j < k + 1 implies exports_value(
            completed,
            #[trigger] view[j].0,
        ) == completed_value(table, nulls, null_stubs@, view[j].0) by {
            if j < k {
                assert(view[j].0 != view[k as int].0);
            }
        }
        k = k + 1;
    }
    assert(entry_keys(view).take(entries@.len() as int) =~= entry_keys(view));
    assert forall|key: Seq<char>| #[trigger]
        exports_names(completed).contains(key) implies exports_value(completed, key)
        == completed_value(table, nulls, null_stubs@, key) by {
        let c = choose|c: int|
            0 <= c < exports_names(completed).len() && exports_names(completed)[c] == key;
        assert(view[c].0 == key);
    }
    assert forall|key: Seq<char>| #[trigger]
        exports_names(completed).contains(key) <==> namespace_source(all, nulls, key) is Some by {
        if exports_names(completed).contains(key) {
            let c = choose|c: int|
                0 <= c < exports_names(completed).len() && exports_names(completed)[c] == key;
            assert(view[c].0 == key);
        }
        if namespace_source(all, nulls, key) is Some {
            let c = choose|c: int| 0 <= c < view.len() && (#[trigger] view[c]).0 == key;
            assert(exports_names(completed)[c] == key);
        }
    }
    assert forall|key: Seq<char>| #[trigger]
        exports_names(completed).contains(key) implies all.contains(key) || nulls.contains(key)
        || all.contains(seq!['_'] + key) by {
        if !all.contains(key) && !nulls.contains(key) {
            let aliases = compat_aliases_of(all);
            let k = choose|k: int| 0 <= k < aliases.len() && aliases[k].0 == key;
            let j = aliases[k].1;
            assert(all[j] =~= seq!['_'] + key);
        }
    }
    let null_count = null_function_names.len();
    assert(nulls.len() == null_count);
    assert forall|name: Seq<char>|
        #![trigger all.contains(name)]
        #![trigger exports_value(table, name)]
        all.contains(name) && name.len() > 0 && name[0] == '_' && !all.contains(name.drop_first())
            && !nulls.contains(name.drop_first()) implies {
        &&& exports_names(completed).contains(name.drop_first())
        &&& exports_value(completed, name.drop_first()) == exports_value(table, name)
    } by {
        lemma_alias_shares_value(table, nulls, null_stubs@, name);
    }
    assert forall|name: Seq<char>|
        #![trigger all.contains(name)]
        #![trigger exports_value(completed, name)]
        all.contains(name) && !nulls.contains(name) implies {
        &&& exports_names(completed).contains(name)
        &&& exports_value(completed, name) == exports_value(table, name)
    } by {
        lemma_table_name_keeps_value(table, nulls, null_stubs@, name);
    }
    assert forall|t: int|
        0 <= t < null_function_names@.len() && (forall|u: int|
            t < u < null_function_names@.len() ==> null_function_names@[u]@
                != null_function_names@[t]@) implies {
        &&& exports_names(completed).contains(#[trigger] null_function_names@[t]@)
        &&& exports_value(completed, null_function_names@[t]@) == null_stubs@[t]
    } by {
        assert(nulls[t] == null_function_names@[t]@);
        assert forall|u: int| t < u < nulls.len() implies nulls[u] != nulls[t] by {
            assert(nulls[u] == null_function_names@[u]@);
        }
        lemma_null_import_gets_stub(table, nulls, null_stubs@, t);
    }
    *env_ns = completed;
}

} // verus!
