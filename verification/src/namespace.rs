//! The names under which the `env` namespace publishes the environment.
use vstd::prelude::*;
use crate::layout::{EmscriptenGlobalsData, GlobalsLayout, GLOBAL_BASE, TOTAL_STACK};
use crate::text::{drop_first_char, names_view, same_text, starts_with};

verus! {

/// The globals of the `env` namespace and their `i32` values, in the order
/// they are published.
pub open spec fn env_global_entries(g: GlobalsLayout) -> Seq<(Seq<char>, i32)> {
    seq![
        ("STACKTOP"@, g.stacktop as i32),
        ("STACK_MAX"@, g.stack_max as i32),
        ("DYNAMICTOP_PTR"@, g.dynamictop_ptr as i32),
        ("fb"@, g.table_base as i32),
        ("tableBase"@, g.table_base as i32),
        ("__table_base"@, g.table_base as i32),
        ("ABORT"@, g.abort as i32),
        ("gb"@, g.memory_base as i32),
        ("memoryBase"@, g.memory_base as i32),
        ("__memory_base"@, g.memory_base as i32),
        ("tempDoublePtr"@, g.temp_double_ptr as i32),
    ]
}

/// In every layout the environment computes, `STACK_MAX` is published as
/// `STACKTOP` plus the stack's size, `DYNAMICTOP_PTR` as where the heap's
/// top word lies, and the table and memory bases under each of their three
/// names alike.
pub proof fn lemma_published_globals(
    metadata: Option<(u32, u32)>,
    use_old_abort_on_cannot_grow_memory: bool,
)
    ensures
        ({
            let g = crate::layout::globals_layout(metadata, use_old_abort_on_cannot_grow_memory);
            let e = env_global_entries(g);
            &&& e[1].1 == e[0].1 + TOTAL_STACK
            &&& e[0].1 % 16 == 0
            &&& e[2].1 == g.dynamictop_ptr as i32
            &&& e[3].1 == e[4].1 && e[4].1 == e[5].1 && e[5].1 == 0
            &&& e[7].1 == e[8].1 && e[8].1 == e[9].1 && e[9].1 == GLOBAL_BASE
            &&& e[6].1 == 0
            &&& e[10].1 + 16 <= e[0].1
        }),
{
}

/// The plain view of a list of named values.
pub open spec fn entries_view(entries: Seq<(&str, i32)>) -> Seq<(Seq<char>, i32)> {
    entries.map_values(|e: (&str, i32)| (e.0@, e.1))
}

/// The globals that the `env` namespace publishes, with their values as
/// the `i32` that WebAssembly sees (the same bits).
pub fn env_globals(data: &EmscriptenGlobalsData) -> (entries: Vec<(&'static str, i32)>)
    ensures
        entries_view(entries@) == env_global_entries(data@),
        entries@.len() == 11,
        entries@[0].0@ == "STACKTOP"@ && entries@[0].1 == data@.stacktop as i32,
        entries@[1].0@ == "STACK_MAX"@ && entries@[1].1 == data@.stack_max as i32,
        entries@[2].0@ == "DYNAMICTOP_PTR"@ && entries@[2].1 == data@.dynamictop_ptr as i32,
        forall|i: int| 3 <= i < 6 ==> #[trigger] entries@[i].1 == data@.table_base as i32,
        entries@[6].0@ == "ABORT"@ && entries@[6].1 == data@.abort as i32,
        forall|i: int| 7 <= i < 10 ==> #[trigger] entries@[i].1 == data@.memory_base as i32,
        entries@[10].0@ == "tempDoublePtr"@ && entries@[10].1 == data@.temp_double_ptr as i32,
{
    let table_base = data.table_base() as i32;
    let memory_base = data.memory_base() as i32;
    let entries = vec![
        ("STACKTOP", data.stacktop() as i32),
        ("STACK_MAX", data.stack_max() as i32),
        ("DYNAMICTOP_PTR", data.dynamictop_ptr() as i32),
        ("fb", table_base),
        ("tableBase", table_base),
        ("__table_base", table_base),
        ("ABORT", data.abort() as i32),
        ("gb", memory_base),
        ("memoryBase", memory_base),
        ("__memory_base", memory_base),
        ("tempDoublePtr", data.temp_double_ptr() as i32),
    ];
    assert(entries_view(entries@) =~= env_global_entries(data@));
    entries
}


/// `name` begins with an underscore and the namespace has no name equal to
/// it without that underscore: newer Emscripten looks it up by that name.
pub open spec fn needs_alias(names: Seq<Seq<char>>, name: Seq<char>) -> bool {
    name.len() > 0 && name[0] == '_' && !names.contains(name.drop_first())
}

/// The aliases that the first `n` names call for: each is the name without
/// its underscore, with the position of the name it stands for.
pub open spec fn compat_aliases_upto(names: Seq<Seq<char>>, n: nat) -> Seq<(Seq<char>, int)>
    decreases n,
{
    if n == 0 {
        seq![]
    } else {
        let earlier = compat_aliases_upto(names, (n - 1) as nat);
        let name = names[n - 1];
        if needs_alias(names, name) {
            earlier.push((name.drop_first(), n - 1))
        } else {
            earlier
        }
    }
}

/// The aliases that all the names call for, in namespace order.
pub open spec fn compat_aliases_of(names: Seq<Seq<char>>) -> Seq<(Seq<char>, int)> {
    compat_aliases_upto(names, names.len())
}

/// The plain view of a list of aliases.
pub open spec fn aliases_view(aliases: Seq<(String, usize)>) -> Seq<(Seq<char>, int)> {
    aliases.map_values(|a: (String, usize)| (a.0@, a.1 as int))
}

/// Whether one of `names` is `name`.
pub fn contains_name(names: &Vec<String>, name: &str) -> (found: bool)
    ensures
        found == names_view(names@).contains(name@),
{
    let mut i: usize = 0;
    while i < names.len()
        invariant
            i <= names@.len(),
            forall|j: int| 0 <= j < i ==> names@[j]@ != name@,
        decreases names@.len() - i,
    {
        if same_text(names[i].as_str(), name) {
            assert(names_view(names@)[i as int] == name@);
            return true;
        }
        i = i + 1;
    }
    assert forall|j: int| 0 <= j < names_view(names@).len() implies names_view(names@)[j]
        != name@ by {
        assert(names@[j]@ != name@);
    }
    false
}

/// The aliases under which newer versions of Emscripten look up the
/// namespace's exports: for each name that begins with `_` and whose
/// remainder is not itself a name, that remainder, paired with the position
/// of the name it stands for.
pub fn compat_aliases(names: &Vec<String>) -> (aliases: Vec<(String, usize)>)
    ensures
        aliases_view(aliases@) == compat_aliases_of(names_view(names@)),
{
    let ghost all = names_view(names@);
    let mut aliases: Vec<(String, usize)> = Vec::new();
    let mut i: usize = 0;
    while i < names.len()
        invariant
            i <= names@.len(),
            all == names_view(names@),
            aliases_view(aliases@) == compat_aliases_upto(all, i as nat),
        decreases names@.len() - i,
    {
        let ghost before = aliases@;
        let name = names[i].as_str();
        assert(all[i as int] == name@);
        if starts_with(name, "_") {
            proof {
                reveal_strlit("_");
            }
            assert(name@[0] == '_') by {
                assert(name@.subrange(0, 1)[0] == name@[0]);
            }
            let alias = drop_first_char(name);
            if !contains_name(names, alias.as_str()) {
                aliases.push((alias, i));
                assert(aliases_view(aliases@) =~= aliases_view(before).push(
                    (all[i as int].drop_first(), i as int),
                ));
            }
        } else {
            proof {
                reveal_strlit("_");
            }
            assert(!(name@.len() > 0 && name@[0] == '_')) by {
                if name@.len() > 0 && name@[0] == '_' {
                    assert(name@.subrange(0, 1) =~= "_"@);
                }
            }
        }
        i = i + 1;
    }
    aliases
}


/// Every alias is a name of the namespace without its leading underscore, and
/// no alias collides with a name already in the namespace.
pub proof fn lemma_aliases_are_fresh(names: Seq<Seq<char>>)
    ensures
        forall|k: int|
            0 <= k < compat_aliases_of(names).len() ==> {
                let (alias, j) = #[trigger] compat_aliases_of(names)[k];
                &&& 0 <= j < names.len()
                &&& names[j].len() > 0
                &&& names[j][0] == '_'
                &&& names[j].drop_first() == alias
                &&& !names.contains(alias)
            },
{
    lemma_aliases_upto_fresh(names, names.len());
}

proof fn lemma_aliases_upto_fresh(names: Seq<Seq<char>>, n: nat)
    requires
        n <= names.len(),
    ensures
        forall|k: int|
            0 <= k < compat_aliases_upto(names, n).len() ==> {
                let (alias, j) = #[trigger] compat_aliases_upto(names, n)[k];
                &&& 0 <= j < n
                &&& names[j].len() > 0
                &&& names[j][0] == '_'
                &&& names[j].drop_first() == alias
                &&& !names.contains(alias)
            },
    decreases n,
{
    if n > 0 {
        let m = (n - 1) as nat;
        lemma_aliases_upto_fresh(names, m);
        let earlier = compat_aliases_upto(names, m);
        let all = compat_aliases_upto(names, n);
        assert forall|k: int| 0 <= k < all.len() implies {
            let (alias, j) = #[trigger] all[k];
            &&& 0 <= j < n
            &&& names[j].len() > 0
            &&& names[j][0] == '_'
            &&& names[j].drop_first() == alias
            &&& !names.contains(alias)
        } by {
            if k < earlier.len() {
                assert(all[k] == earlier[k]);
            }
        }
    }
}

/// When the namespace's names are distinct, so are the aliases, and they
/// come in the order of the names they stand for.
pub proof fn lemma_aliases_are_distinct(names: Seq<Seq<char>>)
    requires
        names.no_duplicates(),
    ensures
        forall|k1: int, k2: int|
            0 <= k1 < k2 < compat_aliases_of(names).len() ==> {
                &&& (#[trigger] compat_aliases_of(names)[k1]).0 != (
                #[trigger] compat_aliases_of(names)[k2]).0
                &&& compat_aliases_of(names)[k1].1 < compat_aliases_of(names)[k2].1
            },
{
    lemma_aliases_upto_distinct(names, names.len());
}

proof fn lemma_aliases_upto_distinct(names: Seq<Seq<char>>, n: nat)
    requires
        names.no_duplicates(),
        n <= names.len(),
    ensures
        forall|k1: int, k2: int|
            0 <= k1 < k2 < compat_aliases_upto(names, n).len() ==> {
                &&& (#[trigger] compat_aliases_upto(names, n)[k1]).0 != (
                #[trigger] compat_aliases_upto(names, n)[k2]).0
                &&& compat_aliases_upto(names, n)[k1].1 < compat_aliases_upto(names, n)[k2].1
            },
    decreases n,
{
    if n > 0 {
        let m = (n - 1) as nat;
        lemma_aliases_upto_distinct(names, m);
        lemma_aliases_upto_fresh(names, m);
        let earlier = compat_aliases_upto(names, m);
        let name = names[n - 1];
        if needs_alias(names, name) {
            let all = compat_aliases_upto(names, n);
            assert forall|k1: int, k2: int| 0 <= k1 < k2 < all.len() implies {
                &&& (#[trigger] all[k1]).0 != (#[trigger] all[k2]).0
                &&& all[k1].1 < all[k2].1
            } by {
                if k2 == all.len() - 1 {
                    let j = earlier[k1].1;
                    assert(all[k1] == earlier[k1]);
                    assert(names[j] != name);
                    assert(names[j] =~= seq!['_'] + names[j].drop_first());
                    assert(name =~= seq!['_'] + name.drop_first());
                } else {
                    assert(all[k1] == earlier[k1]);
                    assert(all[k2] == earlier[k2]);
                }
            }
        }
    }
}


/// Every name that calls for an alias gets one: its remainder after the
/// underscore, standing for that name.
pub proof fn lemma_aliases_are_complete(names: Seq<Seq<char>>, j: int)
    requires
        0 <= j < names.len(),
        needs_alias(names, names[j]),
    ensures
        exists|k: int|
            0 <= k < compat_aliases_of(names).len() && (#[trigger] compat_aliases_of(names)[k])
                == (names[j].drop_first(), j),
{
    lemma_aliases_upto_complete(names, names.len(), j);
    let upto = compat_aliases_upto(names, names.len());
    let k = choose|k: int| 0 <= k < upto.len() && (#[trigger] upto[k]) == (names[j].drop_first(), j);
    assert(compat_aliases_of(names)[k] == upto[k]);
}

proof fn lemma_aliases_upto_complete(names: Seq<Seq<char>>, n: nat, j: int)
    requires
        0 <= j < n <= names.len(),
        needs_alias(names, names[j]),
    ensures
        exists|k: int|
            0 <= k < compat_aliases_upto(names, n).len() && (#[trigger] compat_aliases_upto(
                names,
                n,
            )[k]) == (names[j].drop_first(), j),
    decreases n,
{
    let m = (n - 1) as nat;
    let all = compat_aliases_upto(names, n);
    if j == m {
        assert(all[all.len() - 1] == (names[j].drop_first(), j));
    } else {
        lemma_aliases_upto_complete(names, m, j);
        let earlier = compat_aliases_upto(names, m);
        let k = choose|k: int|
            0 <= k < earlier.len() && (#[trigger] earlier[k]) == (names[j].drop_first(), j);
        assert(all[k] == earlier[k]);
    }
}

/// The names of the aliases, in namespace order.
pub open spec fn alias_keys(names: Seq<Seq<char>>) -> Seq<Seq<char>> {
    compat_aliases_of(names).map_values(|a: (Seq<char>, int)| a.0)
}

/// The keys of an ordered map whose keys were `keys` after `added` are
/// inserted in turn: a key already there keeps its place, a new key goes last.
pub open spec fn insert_keys(keys: Seq<Seq<char>>, added: Seq<Seq<char>>) -> Seq<Seq<char>>
    decreases added.len(),
{
    if added.len() == 0 {
        keys
    } else {
        let before = insert_keys(keys, added.drop_last());
        if before.contains(added.last()) {
            before
        } else {
            before.push(added.last())
        }
    }
}

/// The order of the namespace's keys: the table's names, then the aliases,
/// then the null-function stubs whose names are new, in import order.
pub open spec fn namespace_keys(names: Seq<Seq<char>>, null_names: Seq<Seq<char>>) -> Seq<
    Seq<char>,
> {
    insert_keys(names + alias_keys(names), null_names)
}

/// The keys of a namespace's entries, in order.
pub open spec fn entry_keys(entries: Seq<(Seq<char>, ExportSource)>) -> Seq<Seq<char>> {
    entries.map_values(|e: (Seq<char>, ExportSource)| e.0)
}

/// Where an export of the `env` namespace comes from.
#[derive(Clone, Copy, Debug, PartialEq, Eq, Structural)]
pub enum ExportSource {
    /// The export of that position in the environment's own table.
    Table(usize),
    /// An alias of the export of that position in the table.
    Alias(usize),
    /// The stub that aborts on a call through a null function pointer, made
    /// for that position among the null-function names (the last position
    /// where the name occurs).
    NullFunction(usize),
}

/// The last position at which `key` occurs in `s`.
pub open spec fn last_position(s: Seq<Seq<char>>, key: Seq<char>) -> int {
    choose|t: int| 0 <= t < s.len() && s[t] == key && forall|u: int| t < u < s.len() ==> s[u] != key
}

/// A position holding `key` with no `key` after it is the last position.
pub proof fn lemma_last_position(s: Seq<Seq<char>>, key: Seq<char>, t: int)
    requires
        0 <= t < s.len(),
        s[t] == key,
        forall|u: int| t < u < s.len() ==> s[u] != key,
    ensures
        last_position(s, key) == t,
{
    assert(exists|c: int|
        0 <= c < s.len() && s[c] == key && forall|u: int| c < u < s.len() ==> s[u] != key);
    let c = last_position(s, key);
    if c < t {
        assert(s[t] != key);
    } else if c > t {
        assert(s[c] != key);
    }
}

/// A key that occurs in `s` has a last position, where it occurs.
pub proof fn lemma_last_position_in_range(s: Seq<Seq<char>>, key: Seq<char>)
    requires
        s.contains(key),
    ensures
        0 <= last_position(s, key) < s.len(),
        s[last_position(s, key)] == key,
        forall|u: int| last_position(s, key) < u < s.len() ==> s[u] != key,
{
    let first = choose|i: int| 0 <= i < s.len() && s[i] == key;
    lemma_last_after(s, key, first);
}

proof fn lemma_last_after(s: Seq<Seq<char>>, key: Seq<char>, i: int)
    requires
        0 <= i < s.len(),
        s[i] == key,
    ensures
        0 <= last_position(s, key) < s.len(),
        s[last_position(s, key)] == key,
        forall|u: int| last_position(s, key) < u < s.len() ==> s[u] != key,
    decreases s.len() - i,
{
    if exists|u: int| i < u < s.len() && s[u] == key {
        let u = choose|u: int| i < u < s.len() && s[u] == key;
        lemma_last_after(s, key, u);
    } else {
        lemma_last_position(s, key, i);
    }
}

/// Adding another key at the end keeps the last position of `key`.
pub proof fn lemma_last_position_push(s: Seq<Seq<char>>, added: Seq<char>, key: Seq<char>)
    requires
        s.contains(key),
        added != key,
    ensures
        last_position(s.push(added), key) == last_position(s, key),
{
    lemma_last_position_in_range(s, key);
    let t = last_position(s, key);
    assert(forall|u: int| t < u < s.len() ==> s[u] != key);
    lemma_last_position(s.push(added), key, t);
}

/// The source that the namespace gives `key`: a null-function stub if the
/// module imports `key` as one; else the table's own export of that name;
/// else the export it is an alias of; else none.
pub open spec fn namespace_source(
    names: Seq<Seq<char>>,
    null_names: Seq<Seq<char>>,
    key: Seq<char>,
) -> Option<ExportSource> {
    let aliases = compat_aliases_of(names);
    if null_names.contains(key) {
        Some(ExportSource::NullFunction(last_position(null_names, key) as usize))
    } else if names.contains(key) {
        Some(ExportSource::Table((choose|i: int| 0 <= i < names.len() && names[i] == key) as usize))
    } else if exists|k: int| 0 <= k < aliases.len() && aliases[k].0 == key {
        let k = choose|k: int| 0 <= k < aliases.len() && aliases[k].0 == key;
        Some(ExportSource::Alias(aliases[k].1 as usize))
    } else {
        None
    }
}

/// The plain view of a namespace's entries.
pub open spec fn namespace_view(entries: Seq<(String, ExportSource)>) -> Seq<
    (Seq<char>, ExportSource),
> {
    entries.map_values(|e: (String, ExportSource)| (e.0@, e.1))
}

/// The entries hold each key once, and hold exactly the keys that have a
/// source, each with its source.
pub open spec fn is_namespace_of(
    entries: Seq<(Seq<char>, ExportSource)>,
    names: Seq<Seq<char>>,
    null_names: Seq<Seq<char>>,
) -> bool {
    &&& forall|i: int, j: int|
        0 <= i < j < entries.len() ==> (#[trigger] entries[i]).0 != (#[trigger] entries[j]).0
    &&& forall|i: int|
        0 <= i < entries.len() ==> namespace_source(names, null_names, (#[trigger] entries[i]).0)
            == Some(entries[i].1)
    &&& forall|key: Seq<char>|
        #[trigger] namespace_source(names, null_names, key) is Some ==> exists|i: int|
            0 <= i < entries.len() && (#[trigger] entries[i]).0 == key
}

/// The position of `key` among the entries, if it is there.
fn entry_position(entries: &Vec<(String, ExportSource)>, key: &str) -> (position: Option<usize>)
    ensures
        match position {
            Some(p) => p < entries@.len() && entries@[p as int].0@ == key@,
            None => forall|i: int| 0 <= i < entries@.len() ==> entries@[i].0@ != key@,
        },
{
    let mut i: usize = 0;
    while i < entries.len()
        invariant
            i <= entries@.len(),
            forall|j: int| 0 <= j < i ==> entries@[j].0@ != key@,
        decreases entries@.len() - i,
    {
        if same_text(entries[i].0.as_str(), key) {
            return Some(i);
        }
        i = i + 1;
    }
    None
}

/// The entries of the `env` namespace once its table's exports (`names`,
/// distinct, in table order) are joined by their aliases and by stubs for
/// the module's null-function imports: the table's names keep their places
/// (a stub replacing the export of the same name), then come the aliases,
/// then the stubs whose names are new.
pub fn env_namespace_entries(names: &Vec<String>, null_names: &Vec<String>) -> (entries: Vec<
    (String, ExportSource),
>)
    requires
        names_view(names@).no_duplicates(),
    ensures
        is_namespace_of(namespace_view(entries@), names_view(names@), names_view(null_names@)),
        entry_keys(namespace_view(entries@)) == namespace_keys(
            names_view(names@),
            names_view(null_names@),
        ),
        names@.len() <= entries@.len(),
        forall|i: int| 0 <= i < names@.len() ==> (#[trigger] entries@[i]).0@ == names@[i]@,
{
    let ghost all = names_view(names@);
    let ghost nulls = names_view(null_names@);
    let aliases = compat_aliases(names);
    proof {
        lemma_aliases_are_fresh(all);
        lemma_aliases_are_distinct(all);
    }
    let ghost alias_seq = compat_aliases_of(all);
    let mut entries: Vec<(String, ExportSource)> = Vec::new();
    let mut i: usize = 0;
    while i < names.len()
        invariant
            i <= names@.len(),
            all == names_view(names@),
            all.no_duplicates(),
            entries@.len() == i,
            forall|j: int|
                0 <= j < i ==> (#[trigger] entries@[j]).0@ == all[j] && entries@[j].1
                    == ExportSource::Table(j as usize),
        decreases names@.len() - i,
    {
        entries.push((names[i].clone(), ExportSource::Table(i)));
        i = i + 1;
    }
    let mut k: usize = 0;
    while k < aliases.len()
        invariant
            k <= aliases@.len(),
            all == names_view(names@),
            all.no_duplicates(),
            alias_seq == compat_aliases_of(all),
            aliases_view(aliases@) == alias_seq,
            entries@.len() == names@.len() + k,
            forall|j: int|
                0 <= j < names@.len() ==> (#[trigger] entries@[j]).0@ == all[j] && entries@[j].1
                    == ExportSource::Table(j as usize),
            forall|j: int|
                0 <= j < k ==> (#[trigger] entries@[names@.len() + j]).0@ == alias_seq[j].0
                    && entries@[names@.len() + j].1 == ExportSource::Alias(
                    alias_seq[j].1 as usize,
                ),
            forall|q: int|
                0 <= q < alias_seq.len() ==> {
                    let (alias, j) = #[trigger] alias_seq[q];
                    &&& 0 <= j < all.len()
                    &&& !all.contains(alias)
                },
            forall|q1: int, q2: int|
                0 <= q1 < q2 < alias_seq.len() ==> (#[trigger] alias_seq[q1]).0 != (
                #[trigger] alias_seq[q2]).0,
        decreases aliases@.len() - k,
    {
        let (alias, source) = (aliases[k].0.clone(), aliases[k].1);
        assert(alias@ == alias_seq[k as int].0);
        entries.push((alias, ExportSource::Alias(source)));
        k = k + 1;
    }
    proof {
        let view = namespace_view(entries@);
        let n = names@.len() as int;
        let empty = Seq::<Seq<char>>::empty();
        assert forall|i: int| 0 <= i < view.len() implies namespace_source(
            all,
            empty,
            (#[trigger] view[i]).0,
        ) == Some(view[i].1) by {
            if i < n {
                assert(all[i] == view[i].0);
                let c = choose|c: int| 0 <= c < all.len() && all[c] == view[i].0;
                assert(c == i);
            } else {
                let q = i - n;
                assert(entries@[n + q] == entries@[i]);
                assert(!all.contains(view[i].0));
                assert(alias_seq[q].0 == view[i].0);
                let c = choose|c: int| 0 <= c < alias_seq.len() && alias_seq[c].0 == view[i].0;
                assert(c == q);
            }
        }
        assert forall|i: int, j: int| 0 <= i < j < view.len() implies (#[trigger] view[i]).0 != (
        #[trigger] view[j]).0 by {
            if j < n {
            } else if i < n {
                assert(entries@[n + (j - n)] == entries@[j]);
                assert(all.contains(view[i].0));
            } else {
                assert(entries@[n + (j - n)] == entries@[j]);
                assert(entries@[n + (i - n)] == entries@[i]);
            }
        }
        assert forall|key: Seq<char>| #[trigger]
            namespace_source(all, empty, key) is Some implies exists|i: int|
            0 <= i < view.len() && (#[trigger] view[i]).0 == key by {
            if all.contains(key) {
                let c = choose|c: int| 0 <= c < all.len() && all[c] == key;
                assert(view[c].0 == key);
            } else {
                let q = choose|q: int| 0 <= q < alias_seq.len() && alias_seq[q].0 == key;
                assert(entries@[n + q] == entries@[n + q]);
                assert(view[n + q].0 == key);
            }
        }
        assert(nulls.take(0) =~= empty);
        assert(entry_keys(view) =~= all + alias_keys(all)) by {
            assert forall|i: int| 0 <= i < view.len() implies entry_keys(view)[i] == (all
                + alias_keys(all))[i] by {
                if i >= n {
                    assert(entries@[n + (i - n)] == entries@[i]);
                }
            }
        }
    }
    let mut t: usize = 0;
    while t < null_names.len()
        invariant
            t <= null_names@.len(),
            all == names_view(names@),
            nulls == names_view(null_names@),
            names@.len() <= entries@.len(),
            forall|j: int| 0 <= j < names@.len() ==> (#[trigger] entries@[j]).0@ == all[j],
            is_namespace_of(namespace_view(entries@), all, nulls.take(t as int)),
            entry_keys(namespace_view(entries@)) == insert_keys(
                all + alias_keys(all),
                nulls.take(t as int),
            ),
        decreases null_names@.len() - t,
    {
        let ghost before = namespace_view(entries@);
        let ghost prefix = nulls.take(t as int);
        let ghost next = nulls.take(t + 1);
        let key = null_names[t].as_str();
        assert(next =~= prefix.push(key@));
        assert(forall|x: Seq<char>| #[trigger] next.contains(x) <==> prefix.contains(x) || x
            == key@) by {
            assert forall|x: Seq<char>| #[trigger] next.contains(x) implies prefix.contains(x)
                || x == key@ by {
                let c = choose|c: int| 0 <= c < next.len() && next[c] == x;
                if c < prefix.len() {
                    assert(prefix[c] == x);
                }
            }
            assert forall|x: Seq<char>| prefix.contains(x) || x == key@ implies #[trigger]
                next.contains(x) by {
                if x == key@ {
                    assert(next[prefix.len() as int] == x);
                } else {
                    let c = choose|c: int| 0 <= c < prefix.len() && prefix[c] == x;
                    assert(next[c] == x);
                }
            }
        }
        match entry_position(&entries, key) {
            Some(p) => {
                assert(before[p as int].0 == key@);
                entries.set(p, (null_names[t].clone(), ExportSource::NullFunction(t)));
                proof {
                    let view = namespace_view(entries@);
                    assert(view =~= before.update(p as int, (key@, ExportSource::NullFunction(t))));
                    lemma_last_position(next, key@, t as int);
                    assert(next.drop_last() =~= prefix);
                    assert(entry_keys(before).contains(key@)) by {
                        assert(entry_keys(before)[p as int] == key@);
                    }
                    assert(entry_keys(view) =~= entry_keys(before));
                    assert forall|i: int| 0 <= i < view.len() implies namespace_source(
                        all,
                        next,
                        (#[trigger] view[i]).0,
                    ) == Some(view[i].1) by {
                        if i != p {
                            assert(before[i] == view[i]);
                            if i < p {
                                assert(before[i].0 != before[p as int].0);
                            } else {
                                assert(before[p as int].0 != before[i].0);
                            }
                            assert(namespace_source(all, prefix, before[i].0) == Some(before[i].1));
                            if prefix.contains(before[i].0) {
                                lemma_last_position_push(prefix, key@, before[i].0);
                            }
                        }
                    }
                    assert forall|i: int, j: int| 0 <= i < j < view.len() implies (
                    #[trigger] view[i]).0 != (#[trigger] view[j]).0 by {
                        assert(before[i].0 != before[j].0);
                    }
                    assert forall|x: Seq<char>| #[trigger]
                        namespace_source(all, next, x) is Some implies exists|i: int|
                        0 <= i < view.len() && (#[trigger] view[i]).0 == x by {
                        if x == key@ {
                            assert(view[p as int].0 == x);
                        } else {
                            assert(namespace_source(all, prefix, x) is Some);
                            let i = choose|i: int| 0 <= i < before.len() && before[i].0 == x;
                            assert(view[i].0 == x);
                        }
                    }
                }
            },
            None => {
                entries.push((null_names[t].clone(), ExportSource::NullFunction(t)));
                proof {
                    let view = namespace_view(entries@);
                    assert(view =~= before.push((key@, ExportSource::NullFunction(t))));
                    lemma_last_position(next, key@, t as int);
                    assert(next.drop_last() =~= prefix);
                    assert(!entry_keys(before).contains(key@)) by {
                        if entry_keys(before).contains(key@) {
                            let c = choose|c: int|
                                0 <= c < entry_keys(before).len() && entry_keys(before)[c] == key@;
                            assert(entries@[c].0@ == key@);
                        }
                    }
                    assert(entry_keys(view) =~= entry_keys(before).push(key@));
                    assert forall|i: int| 0 <= i < view.len() implies namespace_source(
                        all,
                        next,
                        (#[trigger] view[i]).0,
                    ) == Some(view[i].1) by {
                        if i < before.len() {
                            assert(before[i] == view[i]);
                            assert(namespace_source(all, prefix, before[i].0) == Some(before[i].1));
                            assert(before[i].0 != key@);
                            if prefix.contains(before[i].0) {
                                lemma_last_position_push(prefix, key@, before[i].0);
                            }
                        }
                    }
                    assert forall|i: int, j: int| 0 <= i < j < view.len() implies (
                    #[trigger] view[i]).0 != (#[trigger] view[j]).0 by {
                        if j < before.len() {
                            assert(before[i].0 != before[j].0);
                        } else {
                            assert(before[i] == view[i]);
                        }
                    }
                    assert forall|x: Seq<char>| #[trigger]
                        namespace_source(all, next, x) is Some implies exists|i: int|
                        0 <= i < view.len() && (#[trigger] view[i]).0 == x by {
                        if x == key@ {
                            assert(view[before.len() as int].0 == x);
                        } else {
                            assert(namespace_source(all, prefix, x) is Some);
                            let i = choose|i: int| 0 <= i < before.len() && before[i].0 == x;
                            assert(view[i].0 == x);
                        }
                    }
                }
            },
        }
        t = t + 1;
    }
    assert(nulls.take(null_names@.len() as int) =~= nulls);
    entries
}

} // verus!
