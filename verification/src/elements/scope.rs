//! Where the evaluator keeps its variables: a global scope and a stack of
//! local scopes, each mapping names to values. A name may be a path into
//! tables (`t.x`, `t[1]`).

use vstd::prelude::*;
use crate::elements::statement::{Statement, TableIndex};
use crate::scanspec::spec_is_float_literal;
use crate::text::{chars_of, push_char};

verus! {

// ---- names ---------------------------------------------------------------------

/// The character separates the steps of a path: `[`, `]` or `.`.
pub open spec fn is_separator(c: char) -> bool {
    c == '[' || c == ']' || c == '.'
}

/// Every character is ASCII.
pub open spec fn all_ascii(s: Seq<char>) -> bool {
    forall|i: int| 0 <= i < s.len() ==> (#[trigger] s[i] as u32) < 128
}

/// The pieces of the first `i` characters that each separator closes (empty
/// ones left out), and where the piece still open starts.
pub open spec fn split_upto(s: Seq<char>, i: int) -> (Seq<Seq<char>>, int)
    decreases i,
{
    if i <= 0 {
        (Seq::empty(), 0)
    } else {
        let (p, c) = split_upto(s, i - 1);
        if is_separator(s[i - 1]) {
            if c < i - 1 {
                (p.push(s.subrange(c, i - 1)), i)
            } else {
                (p, i)
            }
        } else {
            (p, c)
        }
    }
}

/// The steps of a path, by Lua's rules: the pieces between separators and
/// after the last one, empty ones left out (`bob[1].left[3]` has the steps
/// `bob`, `1`, `left`, `3`).
pub open spec fn split_name(s: Seq<char>) -> Seq<Seq<char>> {
    let (p, c) = split_upto(s, s.len() as int);
    if c < s.len() {
        p.push(s.subrange(c, s.len() as int))
    } else {
        p
    }
}

/// Where the piece still open starts, it is within the characters read.
pub proof fn lemma_split_upto(s: Seq<char>, i: int)
    requires
        0 <= i <= s.len(),
    ensures
        0 <= split_upto(s, i).1 <= i,
    decreases i,
{
    if i > 0 {
        lemma_split_upto(s, i - 1);
    }
}

/// A string of the characters from `lo` up to `hi`.
fn piece_of(chars: &Vec<char>, lo: usize, hi: usize) -> (r: String)
    requires
        lo <= hi <= chars@.len(),
    ensures
        r@ == chars@.subrange(lo as int, hi as int),
{
    let mut s = String::new();
    let mut k: usize = lo;
    while k < hi
        invariant
            lo <= k <= hi,
            hi <= chars@.len(),
            s@ == chars@.subrange(lo as int, k as int),
        decreases hi - k,
    {
        push_char(&mut s, chars[k]);
        assert(chars@.subrange(lo as int, k + 1) =~= chars@.subrange(lo as int, k as int).push(chars@[k as int]));
        k = k + 1;
    }
    s
}

// ---- tables --------------------------------------------------------------------

/// The key as a value: whether it is a number, and its text.
pub open spec fn key_view(i: TableIndex) -> (bool, Seq<char>) {
    match i {
        TableIndex::Number(t) => (true, t@),
        TableIndex::String(t) => (false, t@),
    }
}

/// The key that a step of a path names (see `TableIndex::create`).
pub open spec fn index_key(text: Seq<char>) -> (bool, Seq<char>) {
    (spec_is_float_literal(text), text)
}

/// The first entry at or after `i` with the key.
pub open spec fn table_find(t: Seq<(TableIndex, Statement)>, key: (bool, Seq<char>), i: int) -> Option<int>
    decreases t.len() - i,
{
    if i < 0 || i >= t.len() {
        None
    } else if key_view(t[i].0) == key {
        Some(i)
    } else {
        table_find(t, key, i + 1)
    }
}

/// The value under the key, if the table holds it.
pub open spec fn table_get(t: Seq<(TableIndex, Statement)>, key: (bool, Seq<char>)) -> Option<Statement> {
    match table_find(t, key, 0) {
        Some(k) => Some(t[k].1),
        None => None,
    }
}

/// `t2` is `t` with the value under the key set to `v`: the entry that
/// holds the key keeps its place and its key; a new key goes at the end.
pub open spec fn table_put(t: Seq<(TableIndex, Statement)>, key: (bool, Seq<char>), v: Statement, t2: Seq<(TableIndex, Statement)>) -> bool {
    match table_find(t, key, 0) {
        Some(k) => t2 == t.update(k, (t[k].0, v)),
        None => t2.len() == t.len() + 1 && t2.subrange(0, t.len() as int) == t && key_view(
            t2[t.len() as int].0,
        ) == key && t2[t.len() as int].1 == v,
    }
}

/// Where the table holds the key, it is in the table.
pub proof fn lemma_table_find(t: Seq<(TableIndex, Statement)>, key: (bool, Seq<char>), i: int)
    ensures
        table_find(t, key, i) matches Some(k) ==> i <= k < t.len() && 0 <= k && key_view(t[k].0) == key,
    decreases t.len() - i,
{
    if !(i < 0 || i >= t.len()) && key_view(t[i].0) != key {
        lemma_table_find(t, key, i + 1);
    }
}

/// The two keys are equal.
fn same_key(a: &TableIndex, b: &TableIndex) -> (r: bool)
    ensures
        r == (key_view(*a) == key_view(*b)),
{
    match (a, b) {
        (TableIndex::Number(x), TableIndex::Number(y)) => *x == *y,
        (TableIndex::String(x), TableIndex::String(y)) => *x == *y,
        _ => false,
    }
}

/// Where in the table the key is.
fn table_position(t: &Vec<(TableIndex, Statement)>, key: &TableIndex) -> (r: Option<usize>)
    ensures
        r matches Some(k) ==> table_find(t@, key_view(*key), 0) == Some(k as int) && k < t@.len(),
        r is None ==> table_find(t@, key_view(*key), 0) is None,
{
    let mut i: usize = 0;
    while i < t.len()
        invariant
            i <= t@.len(),
            table_find(t@, key_view(*key), 0) == table_find(t@, key_view(*key), i as int),
        decreases t@.len() - i,
    {
        if same_key(&t[i].0, key) {
            return Some(i);
        }
        i = i + 1;
    }
    None
}

/// Sets the value under the key (see `table_put`).
pub(crate) fn table_insert(t: &mut Vec<(TableIndex, Statement)>, key: TableIndex, v: Statement)
    ensures
        table_put(old(t)@, key_view(key), v, final(t)@),
{
    match table_position(t, &key) {
        Some(k) => {
            proof {
                lemma_table_find(t@, key_view(key), 0);
            }
            assert(table_find(old(t)@, key_view(key), 0) == Some(k as int));
            let (old_key, _) = t.remove(k);
            t.insert(k, (old_key, v));
            assert(t@ =~= old(t)@.update(k as int, (old(t)@[k as int].0, v)));
        },
        None => {
            let ghost kv = key_view(key);
            t.push((key, v));
            assert(key_view(t@[old(t)@.len() as int].0) == kv);
            assert(t@.subrange(0, old(t)@.len() as int) =~= old(t)@);
        },
    }
}

/// The table as keys (taken as values) and the values under them, in
/// order.
pub open spec fn table_model(t: Seq<(TableIndex, Statement)>) -> Seq<((bool, Seq<char>), Statement)> {
    t.map_values(|e: (TableIndex, Statement)| (key_view(e.0), e.1))
}

/// The first entry of the model at or after `i` with the key.
pub open spec fn model_find(m: Seq<((bool, Seq<char>), Statement)>, key: (bool, Seq<char>), i: int) -> Option<int>
    decreases m.len() - i,
{
    if i < 0 || i >= m.len() {
        None
    } else if m[i].0 == key {
        Some(i)
    } else {
        model_find(m, key, i + 1)
    }
}

/// The model with the value under the key set to `v`: the entry that holds
/// the key keeps its place; a new key goes at the end.
pub open spec fn put_model(m: Seq<((bool, Seq<char>), Statement)>, key: (bool, Seq<char>), v: Statement) -> Seq<((bool, Seq<char>), Statement)> {
    match model_find(m, key, 0) {
        Some(k) => m.update(k, (m[k].0, v)),
        None => m.push((key, v)),
    }
}

/// Finding a key in a table is finding it in its model.
proof fn lemma_model_find(t: Seq<(TableIndex, Statement)>, key: (bool, Seq<char>), i: int)
    ensures
        table_find(t, key, i) == model_find(table_model(t), key, i),
    decreases t.len() - i,
{
    if !(i < 0 || i >= t.len()) {
        lemma_model_find(t, key, i + 1);
    }
}

/// Setting a key in a table sets it in its model.
pub proof fn lemma_table_put_model(t: Seq<(TableIndex, Statement)>, key: (bool, Seq<char>), v: Statement, t2: Seq<(TableIndex, Statement)>)
    requires
        table_put(t, key, v, t2),
    ensures
        table_model(t2) == put_model(table_model(t), key, v),
{
    lemma_model_find(t, key, 0);
    lemma_table_find(t, key, 0);
    match table_find(t, key, 0) {
        Some(k) => {
            assert(table_model(t2) =~= table_model(t).update(k, (table_model(t)[k].0, v)));
        },
        None => {
            assert(table_model(t2) =~= table_model(t).push((key, v))) by {
                assert forall|q: int| 0 <= q < t.len() implies t2[q] == t[q] by {
                    assert(t2[q] == t2.subrange(0, t.len() as int)[q]);
                }
            }
        },
    }
}

/// No two entries of the table share a key.
pub open spec fn keys_unique(t: Seq<(TableIndex, Statement)>) -> bool {
    forall|i: int, j: int|
        0 <= i < j < t.len() ==> key_view(#[trigger] t[i].0) != key_view(#[trigger] t[j].0)
}

/// Every table the value holds, through tables, has no key twice.
pub open spec fn tables_valid(s: Statement) -> bool
    decreases s,
{
    match s {
        Statement::Table(t) => keys_unique(t@) && forall|k: int|
            0 <= k < t@.len() ==> tables_valid(#[trigger] t@[k].1),
        _ => true,
    }
}

/// The entries have no key twice, and their values' tables are valid.
pub open spec fn entries_valid(t: Seq<(TableIndex, Statement)>) -> bool {
    keys_unique(t) && forall|k: int| 0 <= k < t.len() ==> tables_valid(#[trigger] t[k].1)
}

/// Where the table does not hold the key, no entry has it.
proof fn lemma_table_find_none(t: Seq<(TableIndex, Statement)>, key: (bool, Seq<char>), i: int)
    requires
        0 <= i,
        table_find(t, key, i) is None,
    ensures
        forall|q: int| i <= q < t.len() ==> key_view(#[trigger] t[q].0) != key,
    decreases t.len() - i,
{
    if i < t.len() {
        lemma_table_find_none(t, key, i + 1);
    }
}

/// Setting a key keeps a table valid, where the value is.
pub proof fn lemma_table_put_valid(t: Seq<(TableIndex, Statement)>, key: (bool, Seq<char>), v: Statement, t2: Seq<(TableIndex, Statement)>)
    requires
        entries_valid(t),
        tables_valid(v),
        table_put(t, key, v, t2),
    ensures
        entries_valid(t2),
{
    lemma_table_find(t, key, 0);
    match table_find(t, key, 0) {
        Some(k) => {
            assert forall|i: int, j: int| 0 <= i < j < t2.len() implies key_view(#[trigger] t2[i].0)
                != key_view(#[trigger] t2[j].0) by {
                assert(key_view(t[i].0) != key_view(t[j].0));
            }
        },
        None => {
            lemma_table_find_none(t, key, 0);
            assert forall|q: int| 0 <= q < t.len() implies t2[q] == t[q] by {
                assert(t2[q] == t2.subrange(0, t.len() as int)[q]);
            }
            assert forall|i: int, j: int| 0 <= i < j < t2.len() implies key_view(#[trigger] t2[i].0)
                != key_view(#[trigger] t2[j].0) by {
                if j < t.len() {
                    assert(key_view(t[i].0) != key_view(t[j].0));
                }
            }
        },
    }
}

/// What a path leads to from a value: the value at its end, nothing where
/// a table does not hold a step, or a step into something that is not a
/// table.
pub enum Resolved {
    Found(Statement),
    Missing,
    NotTable,
}

/// Follows the path from `v`.
pub open spec fn resolve(v: Statement, path: Seq<Seq<char>>) -> Resolved
    decreases path.len(),
{
    if path.len() == 0 {
        Resolved::Found(v)
    } else {
        match v {
            Statement::Table(t) => match table_get(t@, index_key(path[0])) {
                Some(x) => resolve(x, path.drop_first()),
                None => Resolved::Missing,
            },
            _ => Resolved::NotTable,
        }
    }
}

// ---- scopes --------------------------------------------------------------------

/// What went wrong in a scope.
pub enum ScopeError {
    /// The variable holds something that is not a table, and a path steps
    /// into it.
    NotATable(String),
    /// A value that a path steps into is not a table.
    ObjectNotATable,
    /// A step of a path names nothing in its table.
    NotDefined(String),
    /// A step of a path names something that is not a table.
    StepNotATable(String),
    /// No function has the name.
    FunctionNotDefined(String),
    /// The name holds something that is not a function.
    NotAFunction(String),
}

/// One scope: its variables in the order they were first set, and the
/// local scopes opened on top of it, the innermost last.
pub struct Scope {
    vars: Vec<(String, Statement)>,
    local: Vec<Box<Scope>>,
}

/// The first variable of the name at or after `i`.
pub open spec fn var_find(vars: Seq<(String, Statement)>, name: Seq<char>, i: int) -> Option<int>
    decreases vars.len() - i,
{
    if i < 0 || i >= vars.len() {
        None
    } else if vars[i].0@ == name {
        Some(i)
    } else {
        var_find(vars, name, i + 1)
    }
}

/// The value of the variable, if it is set.
pub open spec fn var_get(vars: Seq<(String, Statement)>, name: Seq<char>) -> Option<Statement> {
    match var_find(vars, name, 0) {
        Some(k) => Some(vars[k].1),
        None => None,
    }
}

/// `vars2` is `vars` with the variable set to `v`: a variable already set
/// keeps its place; a new one goes at the end.
pub open spec fn var_put(vars: Seq<(String, Statement)>, name: Seq<char>, v: Statement, vars2: Seq<(String, Statement)>) -> bool {
    match var_find(vars, name, 0) {
        Some(k) => vars2 == vars.update(k, (vars[k].0, v)),
        None => vars2.len() == vars.len() + 1 && vars2.subrange(0, vars.len() as int) == vars
            && vars2[vars.len() as int].0@ == name && vars2[vars.len() as int].1 == v,
    }
}

/// Where the variable is found, it is there.
pub proof fn lemma_var_find(vars: Seq<(String, Statement)>, name: Seq<char>, i: int)
    ensures
        var_find(vars, name, i) matches Some(k) ==> i <= k < vars.len() && 0 <= k && vars[k].0@ == name,
    decreases vars.len() - i,
{
    if !(i < 0 || i >= vars.len()) && vars[i].0@ != name {
        lemma_var_find(vars, name, i + 1);
    }
}

/// The innermost local scope below `i` that holds the name.
pub open spec fn top_local_with(locals: Seq<Seq<(String, Statement)>>, name: Seq<char>, i: int) -> Option<int>
    decreases i,
{
    if i <= 0 {
        None
    } else if var_find(locals[i - 1], name, 0) is Some {
        Some(i - 1)
    } else {
        top_local_with(locals, name, i - 1)
    }
}

/// Where a local scope is found, it is one of them and holds the name.
pub proof fn lemma_top_local_with(locals: Seq<Seq<(String, Statement)>>, name: Seq<char>, i: int)
    requires
        i <= locals.len(),
    ensures
        top_local_with(locals, name, i) matches Some(j) ==> 0 <= j < i && var_find(locals[j], name, 0) is Some,
    decreases i,
{
    if i > 0 && var_find(locals[i - 1], name, 0) is None {
        lemma_top_local_with(locals, name, i - 1);
    }
}

/// The value a name has: in the innermost local scope that holds it, else
/// in the global scope.
pub open spec fn visible(globals: Seq<(String, Statement)>, locals: Seq<Seq<(String, Statement)>>, name: Seq<char>) -> Option<Statement> {
    match top_local_with(locals, name, locals.len() as int) {
        Some(j) => var_get(locals[j], name),
        None => var_get(globals, name),
    }
}

/// Where the variable is.
fn var_position(vars: &Vec<(String, Statement)>, name: &String) -> (r: Option<usize>)
    ensures
        r matches Some(k) ==> var_find(vars@, name@, 0) == Some(k as int) && k < vars@.len(),
        r is None ==> var_find(vars@, name@, 0) is None,
{
    let mut i: usize = 0;
    while i < vars.len()
        invariant
            i <= vars@.len(),
            var_find(vars@, name@, 0) == var_find(vars@, name@, i as int),
        decreases vars@.len() - i,
    {
        if vars[i].0 == *name {
            return Some(i);
        }
        i = i + 1;
    }
    None
}

/// Sets the variable (see `var_put`).
fn var_insert(vars: &mut Vec<(String, Statement)>, name: String, v: Statement)
    ensures
        var_put(old(vars)@, name@, v, final(vars)@),
{
    match var_position(vars, &name) {
        Some(k) => {
            let (old_name, _) = vars.remove(k);
            vars.insert(k, (old_name, v));
            assert(vars@ =~= old(vars)@.update(k as int, (old(vars)@[k as int].0, v)));
        },
        None => {
            let ghost nm = name@;
            vars.push((name, v));
            assert(vars@[old(vars)@.len() as int].0@ == nm);
            assert(vars@.subrange(0, old(vars)@.len() as int) =~= old(vars)@);
        },
    }
}

/// The texts of the strings, in order.
pub open spec fn texts(v: Seq<String>) -> Seq<Seq<char>> {
    v.map_values(|x: String| x@)
}

/// Where a path into tables fails: a step that names nothing, or a step
/// into something that is not a table.
pub enum PathFault {
    NotDefined(int),
    NotTable(int),
}

/// Walking the steps of `path` from `j` up to (not including) the last one
/// through the tables from `t`: where it fails.
pub open spec fn path_fault(t: Seq<(TableIndex, Statement)>, path: Seq<Seq<char>>, j: int) -> Option<PathFault>
    decreases path.len() - j,
{
    if j < 0 || j >= path.len() - 1 {
        None
    } else {
        match table_get(t, index_key(path[j])) {
            None => Some(PathFault::NotDefined(j)),
            Some(Statement::Table(inner)) => path_fault(inner@, path, j + 1),
            Some(_) => Some(PathFault::NotTable(j)),
        }
    }
}

/// `t2` is `t` with the value at the end of the path (its steps from `j`)
/// set to `v`; the tables on the way keep their places and keys.
pub open spec fn path_set(t: Seq<(TableIndex, Statement)>, path: Seq<Seq<char>>, j: int, v: Statement, t2: Seq<(TableIndex, Statement)>) -> bool
    decreases path.len() - j,
{
    if j < 0 || j >= path.len() {
        false
    } else if j == path.len() - 1 {
        table_put(t, index_key(path[j]), v, t2)
    } else {
        match table_find(t, index_key(path[j]), 0) {
            Some(k) => {
                &&& t[k].1 is Table
                &&& t2 == t.update(k, (t[k].0, t2[k].1))
                &&& (t[k].1 matches Statement::Table(inner) && t2[k].1 matches Statement::Table(inner2)
                    && path_set(inner@, path, j + 1, v, inner2@))
            },
            None => false,
        }
    }
}

/// The variables of the scope a name is set in: the local scope `place`,
/// or the global scope.
pub open spec fn vars_in(globals: Seq<(String, Statement)>, locals: Seq<Seq<(String, Statement)>>, place: Option<int>) -> Seq<(String, Statement)> {
    match place {
        Some(j) => locals[j],
        None => globals,
    }
}

/// Only the variables of `place` changed, to `h2`.
pub open spec fn only_changed(og: Seq<(String, Statement)>, ol: Seq<Seq<(String, Statement)>>, ng: Seq<(String, Statement)>, nl: Seq<Seq<(String, Statement)>>, place: Option<int>, h2: Seq<(String, Statement)>) -> bool {
    match place {
        Some(j) => ng == og && nl == ol.update(j, h2),
        None => nl == ol && ng == h2,
    }
}

/// `h2` is `holder` with the table under `name` (or a new table at the end,
/// where there is no such variable) replaced by one that is `base` with the
/// path set to `v`.
pub open spec fn root_replaced(holder: Seq<(String, Statement)>, name: Seq<char>, base: Seq<(TableIndex, Statement)>, path: Seq<Seq<char>>, v: Statement, h2: Seq<(String, Statement)>) -> bool {
    let pos = match var_find(holder, name, 0) {
        Some(k) => k,
        None => holder.len() as int,
    };
    &&& h2.len() == if var_find(holder, name, 0) is Some {
        holder.len()
    } else {
        holder.len() + 1
    }
    &&& forall|q: int| 0 <= q < holder.len() && q != pos ==> #[trigger] h2[q] == holder[q]
    &&& (var_find(holder, name, 0) is Some ==> h2[pos].0 == holder[pos].0)
    &&& (var_find(holder, name, 0) is None ==> h2[pos].0@ == name)
    &&& (h2[pos].1 matches Statement::Table(t2) && path_set(base, path, 1, v, t2@))
}

/// What setting a path (two steps or more) to `v` does, from globals `og`
/// and locals `ol` to globals `ng` and locals `nl`, answering `r`: the
/// first step names a variable, looked up where a plain name is; the steps
/// after it must lead through tables. On an error nothing changes.
pub open spec fn table_assign_outcome(og: Seq<(String, Statement)>, ol: Seq<Seq<(String, Statement)>>, p: Seq<Seq<char>>, v: Statement, r: Result<(), ScopeError>, ng: Seq<(String, Statement)>, nl: Seq<Seq<(String, Statement)>>) -> bool {
    let place = top_local_with(ol, p[0], ol.len() as int);
    let holder = vars_in(og, ol, place);
    let current = var_get(holder, p[0]);
    if current matches Some(c) && !(c is Table) {
        ng == og && nl == ol && (r matches Err(ScopeError::NotATable(n)) && n@ == p[0])
    } else {
        let base = match current {
            Some(Statement::Table(t)) => t@,
            _ => Seq::empty(),
        };
        match path_fault(base, p, 1) {
            Some(PathFault::NotDefined(j)) => ng == og && nl == ol && (r matches Err(
                ScopeError::NotDefined(n),
            ) && n@ == p[j]),
            Some(PathFault::NotTable(j)) => ng == og && nl == ol && (r matches Err(
                ScopeError::StepNotATable(n),
            ) && n@ == p[j]),
            None => r is Ok && only_changed(og, ol, ng, nl, place, vars_in(ng, nl, place))
                && root_replaced(holder, p[0], base, p, v, vars_in(ng, nl, place)),
        }
    }
}

/// What setting a plain name (one step, or none) to `v` does: the variable
/// is set in the innermost local scope where its step is set, else in the
/// global scope, under the name as written.
pub open spec fn plain_assign_outcome(og: Seq<(String, Statement)>, ol: Seq<Seq<(String, Statement)>>, name: Seq<char>, v: Statement, ng: Seq<(String, Statement)>, nl: Seq<Seq<(String, Statement)>>) -> bool {
    let p = split_name(name);
    let key = if p.len() == 1 {
        p[0]
    } else {
        name
    };
    let place = top_local_with(ol, key, ol.len() as int);
    only_changed(og, ol, ng, nl, place, vars_in(ng, nl, place)) && var_put(
        vars_in(og, ol, place),
        name,
        v,
        vars_in(ng, nl, place),
    )
}


/// Walks the steps of `path` from `j` up to the last one through the
/// tables from `t`, reading only: the error where it fails (see
/// `path_fault`).
fn path_check(t: &Vec<(TableIndex, Statement)>, path: &Vec<String>, j: usize) -> (r: Option<ScopeError>)
    ensures
        match path_fault(t@, texts(path@), j as int) {
            None => r is None,
            Some(PathFault::NotDefined(q)) => r matches Some(ScopeError::NotDefined(n)) && n@ == texts(path@)[q],
            Some(PathFault::NotTable(q)) => r matches Some(ScopeError::StepNotATable(n)) && n@ == texts(path@)[q],
        },
    decreases path@.len() - j,
{
    if path.len() == 0 || j >= path.len() - 1 {
        return None;
    }
    let key = TableIndex::create(path[j].as_str());
    match table_position(t, &key) {
        None => Some(ScopeError::NotDefined(path[j].clone())),
        Some(k) => match &t[k].1 {
            Statement::Table(inner) => path_check(inner, path, j + 1),
            _ => Some(ScopeError::StepNotATable(path[j].clone())),
        },
    }
}

/// Sets the value at the end of the path (its steps from `j`), which must
/// lead through tables (see `path_set`).
fn set_path(t: Vec<(TableIndex, Statement)>, path: &Vec<String>, j: usize, value: Statement) -> (r: Vec<(TableIndex, Statement)>)
    requires
        j < path@.len(),
        path_fault(t@, texts(path@), j as int) is None,
    ensures
        path_set(t@, texts(path@), j as int, value, r@),
    decreases path@.len() - j,
{
    let mut t = t;
    let key = TableIndex::create(path[j].as_str());
    if j == path.len() - 1 {
        table_insert(&mut t, key, value);
        return t;
    }
    match table_position(&t, &key) {
        None => {
            t
        },
        Some(k) => {
            proof {
                lemma_table_find(t@, key_view(key), 0);
            }
            let ghost t0 = t@;
            let (kk, stmt) = t.remove(k);
            match stmt {
                Statement::Table(inner) => {
                    let inner2 = set_path(inner, path, j + 1, value);
                    t.insert(k, (kk, Statement::Table(inner2)));
                    assert(t@ =~= t0.update(k as int, (t0[k as int].0, t@[k as int].1)));
                    t
                },
                other => {
                    t.insert(k, (kk, other));
                    t
                },
            }
        },
    }
}

/// Replaces the table under `name` (a new, empty one where there is no
/// such variable) by one with the path set to `value`.
fn set_root(vars: &mut Vec<(String, Statement)>, name: &String, path: &Vec<String>, value: Statement)
    requires
        path@.len() >= 2,
        texts(path@)[0] == name@,
        match var_get(old(vars)@, name@) {
            None => path_fault(Seq::empty(), texts(path@), 1) is None,
            Some(Statement::Table(t)) => path_fault(t@, texts(path@), 1) is None,
            Some(_) => false,
        },
    ensures
        root_replaced(
            old(vars)@,
            name@,
            match var_get(old(vars)@, name@) {
                Some(Statement::Table(t)) => t@,
                _ => Seq::empty(),
            },
            texts(path@),
            value,
            final(vars)@,
        ),
{
    match var_position(vars, name) {
        Some(k) => {
            proof {
                lemma_var_find(vars@, name@, 0);
            }
            let ghost v0 = vars@;
            let (nm, stmt) = vars.remove(k);
            match stmt {
                Statement::Table(t) => {
                    let t2 = set_path(t, path, 1, value);
                    vars.insert(k, (nm, Statement::Table(t2)));
                    assert(vars@.len() == v0.len());
                    assert(forall|q: int| 0 <= q < v0.len() && q != k ==> #[trigger] vars@[q] == v0[q]);
                },
                other => {
                    vars.insert(k, (nm, other));
                },
            }
        },
        None => {
            let empty: Vec<(TableIndex, Statement)> = Vec::new();
            let t2 = set_path(empty, path, 1, value);
            let ghost v0 = vars@;
            vars.push((name.clone(), Statement::Table(t2)));
            assert(forall|q: int| 0 <= q < v0.len() ==> #[trigger] vars@[q] == v0[q]);
        },
    }
}

impl Scope {
    /// Splits a path into its steps (see `split_name`).
    pub fn split_lookup_name(name: &str) -> (r: Vec<String>)
        ensures
            texts(r@) == split_name(name@),
    {
        let chars = chars_of(name);
        let mut splits: Vec<String> = Vec::new();
        let mut c: usize = 0;
        let mut i: usize = 0;
        while i < chars.len()
            invariant
                i <= chars@.len(),
                chars@ == name@,
                texts(splits@) == split_upto(chars@, i as int).0,
                c == split_upto(chars@, i as int).1,
                c <= i,
            decreases chars@.len() - i,
        {
            let ch = chars[i];
            if ch == '[' || ch == ']' || ch == '.' {
                if c < i {
                    let piece = piece_of(&chars, c, i);
                    splits.push(piece);
                    assert(texts(splits@) =~= split_upto(chars@, i + 1).0);
                }
                c = i + 1;
            }
            i = i + 1;
        }
        if c < chars.len() {
            let piece = piece_of(&chars, c, chars.len());
            splits.push(piece);
            assert(texts(splits@) =~= split_name(name@));
        }
        splits
    }

    /// The variables of the global scope.
    pub closed spec fn globals(&self) -> Seq<(String, Statement)> {
        self.vars@
    }

    /// The variables of each local scope, the innermost last.
    pub closed spec fn locals(&self) -> Seq<Seq<(String, Statement)>> {
        Seq::new(self.local@.len(), |i: int| self.local@[i].vars@)
    }

    /// Local scopes are plain: none has local scopes of its own. In each
    /// scope no two variables share a name, and no table holds a key twice.
    pub closed spec fn wf(&self) -> bool {
        &&& forall|i: int|
            0 <= i < self.local@.len() ==> (#[trigger] self.local@[i]).local@.len() == 0
                && vars_valid(self.local@[i].vars@)
        &&& vars_valid(self.vars@)
    }

    /// The value a name has in this scope (see `visible`).
    pub open spec fn visible_value(&self, name: Seq<char>) -> Option<Statement> {
        visible(self.globals(), self.locals(), name)
    }

    /// An empty scope with no local scopes.
    pub fn new() -> (r: Scope)
        ensures
            r.wf(),
            r.globals() == Seq::<(String, Statement)>::empty(),
            r.locals() == Seq::<Seq<(String, Statement)>>::empty(),
    {
        let r = Scope { vars: Vec::new(), local: Vec::new() };
        assert(r.locals() =~= Seq::<Seq<(String, Statement)>>::empty());
        r
    }

    /// Opens a new, empty local scope on top.
    pub fn push_local(&mut self)
        requires
            old(self).wf(),
        ensures
            final(self).wf(),
            final(self).globals() == old(self).globals(),
            final(self).locals() == old(self).locals().push(Seq::empty()),
    {
        let fresh = Scope::new();
        assert(fresh.local@.len() == 0) by {
            assert(fresh.locals().len() == fresh.local@.len());
        }
        self.local.push(Box::new(fresh));
        assert(self.locals() =~= old(self).locals().push(Seq::empty()));
    }

    /// Closes the innermost local scope, if there is one; how many are left.
    pub fn pop_local(&mut self) -> (r: usize)
        requires
            old(self).wf(),
        ensures
            final(self).wf(),
            final(self).globals() == old(self).globals(),
            final(self).locals() == if old(self).locals().len() > 0 {
                old(self).locals().drop_last()
            } else {
                old(self).locals()
            },
            r == final(self).locals().len(),
    {
        self.local.pop();
        assert(self.locals() =~= if old(self).locals().len() > 0 {
            old(self).locals().drop_last()
        } else {
            old(self).locals()
        });
        self.local.len()
    }

    /// Sets a variable in the innermost local scope, opening one where
    /// there is none.
    pub fn assign_local(&mut self, var_name: &str, value: Statement) -> (r: Result<(), ScopeError>)
        requires
            old(self).wf(),
            tables_valid(value),
        ensures
            r is Ok,
            final(self).wf(),
            final(self).globals() == old(self).globals(),
            ({
                let ls = if old(self).locals().len() == 0 {
                    seq![Seq::<(String, Statement)>::empty()]
                } else {
                    old(self).locals()
                };
                &&& final(self).locals().len() == ls.len()
                &&& final(self).locals().drop_last() == ls.drop_last()
                &&& var_put(ls.last(), var_name@, value, final(self).locals().last())
            }),
    {
        if self.local.len() == 0 {
            self.push_local();
        }
        let ghost mid = self.locals();
        assert(mid.len() == self.local@.len());
        assert(mid =~= if old(self).locals().len() == 0 {
            seq![Seq::<(String, Statement)>::empty()]
        } else {
            old(self).locals()
        });
        let top = self.local.pop().unwrap();
        let mut inner: Scope = *top;
        assert(inner.vars@ == mid.last());
        let ghost v0 = inner.vars@;
        var_insert(&mut inner.vars, var_name.to_owned(), value);
        proof {
            lemma_var_put_valid(v0, var_name@, value, inner.vars@);
        }
        self.local.push(Box::new(inner));
        assert(self.locals().drop_last() =~= mid.drop_last());
        assert(self.locals().last() == inner.vars@);
        Ok(())
    }

    /// The value a name has (see `visible`).
    fn get_value_internal(&self, name: &String) -> (r: Option<&Statement>)
        requires
            self.wf(),
        ensures
            match self.visible_value(name@) {
                Some(v) => r matches Some(x) && *x == v,
                None => r is None,
            },
    {
        let ghost ls = self.locals();
        let mut i: usize = self.local.len();
        while i > 0
            invariant
                i <= self.local@.len(),
                ls == self.locals(),
                top_local_with(ls, name@, ls.len() as int) == top_local_with(ls, name@, i as int),
            decreases i,
        {
            assert(ls[i - 1] == self.local@[i - 1].vars@);
            match var_position(&self.local[i - 1].vars, name) {
                Some(k) => {
                    return Some(&self.local[i - 1].vars[k].1);
                },
                None => {},
            }
            i = i - 1;
        }
        match var_position(&self.vars, name) {
            Some(k) => Some(&self.vars[k].1),
            None => None,
        }
    }

    /// The innermost local scope holding the name (see `top_local_with`).
    fn holder_index(&self, name: &String) -> (r: Option<usize>)
        ensures
            r matches Some(j) ==> top_local_with(self.locals(), name@, self.locals().len() as int)
                == Some(j as int) && j < self.local@.len(),
            r is None ==> top_local_with(self.locals(), name@, self.locals().len() as int) is None,
    {
        let ghost ls = self.locals();
        let mut i: usize = self.local.len();
        while i > 0
            invariant
                i <= self.local@.len(),
                ls == self.locals(),
                top_local_with(ls, name@, ls.len() as int) == top_local_with(ls, name@, i as int),
            decreases i,
        {
            assert(ls[i - 1] == self.local@[i - 1].vars@);
            if var_position(&self.local[i - 1].vars, name).is_some() {
                return Some(i - 1);
            }
            i = i - 1;
        }
        None
    }

    /// The value a name has, following its path into tables: nothing
    /// where the variable is not set or a table does not hold a step, an
    /// error where a step goes into something that is not a table.
    pub fn get_value(&self, var_name: &str) -> (r: Result<Option<&Statement>, ScopeError>)
        requires
            self.wf(),
            all_ascii(var_name@),
            split_name(var_name@).len() > 0,
        ensures
            ({
                let p = split_name(var_name@);
                match self.visible_value(p[0]) {
                    None => r matches Ok(None),
                    Some(base) => match resolve(base, p.drop_first()) {
                        Resolved::Found(v) => r matches Ok(Some(x)) && *x == v,
                        Resolved::Missing => r matches Ok(None),
                        Resolved::NotTable => r matches Err(ScopeError::ObjectNotATable),
                    },
                }
            }),
    {
        let pieces = Scope::split_lookup_name(var_name);
        let ghost p = split_name(var_name@);
        assert(pieces@[0]@ == p[0]);
        match self.get_value_internal(&pieces[0]) {
            None => Ok(None),
            Some(base) => {
                let mut working: &Statement = base;
                let mut j: usize = 1;
                assert(p.drop_first() =~= p.subrange(1, p.len() as int));
                while j < pieces.len()
                    invariant
                        1 <= j <= pieces@.len(),
                        texts(pieces@) == p,
                        p == split_name(var_name@),
                        self.visible_value(p[0]) == Some(*base),
                        resolve(*base, p.drop_first()) == resolve(*working, p.subrange(j as int, p.len() as int)),
                    decreases pieces@.len() - j,
                {
                    assert(p.subrange(j as int, p.len() as int).drop_first() =~= p.subrange(j + 1, p.len() as int));
                    assert(pieces@[j as int]@ == p[j as int]);
                    let ghost sub = p.subrange(j as int, p.len() as int);
                    assert(sub.len() > 0 && sub[0] == p[j as int]);
                    match working {
                        Statement::Table(table) => {
                            let key = TableIndex::create(pieces[j].as_str());
                            assert(key_view(key) == index_key(p[j as int]));
                            match table_position(table, &key) {
                                None => {
                                    assert(resolve(*working, sub) == Resolved::Missing);
                                    return Ok(None);
                                },
                                Some(k) => {
                                    working = &table[k].1;
                                },
                            }
                        },
                        _ => {
                            assert(resolve(*working, sub) == Resolved::NotTable);
                            return Err(ScopeError::ObjectNotATable);
                        },
                    }
                    j = j + 1;
                }
                assert(p.subrange(j as int, p.len() as int) =~= Seq::<Seq<char>>::empty());
                Ok(Some(working))
            },
        }
    }

    /// Sets a path of two steps or more (see `table_assign_outcome`).
    pub fn assign_table_value(&mut self, path: &Vec<String>, value: Statement) -> (r: Result<(), ScopeError>)
        requires
            old(self).wf(),
            tables_valid(value),
            path@.len() >= 2,
        ensures
            final(self).wf(),
            table_assign_outcome(
                old(self).globals(),
                old(self).locals(),
                texts(path@),
                value,
                r,
                final(self).globals(),
                final(self).locals(),
            ),
    {
        let ghost p = texts(path@);
        let name0 = &path[0];
        assert(name0@ == p[0]);
        let place = self.holder_index(name0);
        let fault = {
            let holder_vars: &Vec<(String, Statement)> = match place {
                Some(j) => &self.local[j].vars,
                None => &self.vars,
            };
            assert(holder_vars@ == vars_in(self.globals(), self.locals(), match place {
                Some(j) => Some(j as int),
                None => None::<int>,
            }));
            match var_position(holder_vars, name0) {
                Some(k) => match &holder_vars[k].1 {
                    Statement::Table(t) => path_check(t, path, 1),
                    _ => {
                        return Err(ScopeError::NotATable(name0.clone()));
                    },
                },
                None => {
                    let empty: Vec<(TableIndex, Statement)> = Vec::new();
                    path_check(&empty, path, 1)
                },
            }
        };
        if let Some(e) = fault {
            return Err(e);
        }
        match place {
            Some(j) => {
                proof {
                    lemma_top_local_with(self.locals(), name0@, self.locals().len() as int);
                }
                let ghost ol = self.locals();
                let ghost lo = self.local@;
                let b = self.local.remove(j);
                let mut inner: Scope = *b;
                assert(inner.vars@ == ol[j as int]);
                assert(inner == *lo[j as int]);
                let ghost h0 = inner.vars@;
                proof {
                    lemma_root_base_valid(h0, name0@);
                }
                set_root(&mut inner.vars, name0, path, value);
                let ghost h2 = inner.vars@;
                proof {
                    lemma_root_replaced_valid(h0, name0@, root_base(h0, name0@), p, value, h2);
                }
                self.local.insert(j, Box::new(inner));
                assert(self.locals() =~= ol.update(j as int, h2));
                assert forall|i: int| 0 <= i < self.local@.len() implies (#[trigger] self.local@[i]).local@.len()
                    == 0 && vars_valid(self.local@[i].vars@) by {
                    if i != j {
                        assert(self.local@[i] == lo[i]);
                    }
                }
            },
            None => {
                let ghost h0 = self.vars@;
                proof {
                    lemma_root_base_valid(h0, name0@);
                }
                set_root(&mut self.vars, name0, path, value);
                proof {
                    lemma_root_replaced_valid(h0, name0@, root_base(h0, name0@), p, value, self.vars@);
                }
                assert(self.locals() =~= old(self).locals());
            },
        }
        Ok(())
    }

    /// Sets a variable, or the value at the end of a path into tables (see
    /// `plain_assign_outcome`, `table_assign_outcome`).
    pub fn assign(&mut self, var_name: &str, value: Statement) -> (r: Result<(), ScopeError>)
        requires
            old(self).wf(),
            tables_valid(value),
            all_ascii(var_name@),
            old(self).locals().len() == 0 || split_name(var_name@).len() > 0,
        ensures
            final(self).wf(),
            split_name(var_name@).len() > 1 ==> table_assign_outcome(
                old(self).globals(),
                old(self).locals(),
                split_name(var_name@),
                value,
                r,
                final(self).globals(),
                final(self).locals(),
            ),
            split_name(var_name@).len() <= 1 ==> r is Ok && plain_assign_outcome(
                old(self).globals(),
                old(self).locals(),
                var_name@,
                value,
                final(self).globals(),
                final(self).locals(),
            ),
    {
        let sliced = Scope::split_lookup_name(var_name);
        if sliced.len() > 1 {
            self.assign_table_value(&sliced, value)
        } else {
            let key = if sliced.len() == 1 {
                sliced[0].clone()
            } else {
                var_name.to_owned()
            };
            let ghost ol = self.locals();
            match self.holder_index(&key) {
                Some(j) => {
                    let ghost lo = self.local@;
                    let b = self.local.remove(j);
                    let mut inner: Scope = *b;
                    assert(inner.vars@ == ol[j as int]);
                    assert(inner == *lo[j as int]);
                    let ghost h0 = inner.vars@;
                    var_insert(&mut inner.vars, var_name.to_owned(), value);
                    let ghost h2 = inner.vars@;
                    proof {
                        lemma_var_put_valid(h0, var_name@, value, h2);
                    }
                    self.local.insert(j, Box::new(inner));
                    assert(self.locals() =~= ol.update(j as int, h2));
                    assert forall|i: int| 0 <= i < self.local@.len() implies (#[trigger] self.local@[i]).local@.len()
                        == 0 && vars_valid(self.local@[i].vars@) by {
                        if i != j {
                            assert(self.local@[i] == lo[i]);
                        }
                    }
                },
                None => {
                    let ghost h0 = self.vars@;
                    var_insert(&mut self.vars, var_name.to_owned(), value);
                    proof {
                        lemma_var_put_valid(h0, var_name@, value, self.vars@);
                    }
                    assert(self.locals() =~= old(self).locals());
                },
            }
            Ok(())
        }
    }

    /// The value of a global variable that holds a function.
    pub fn get_function(&self, name: &str) -> (r: Result<&Statement, ScopeError>)
        ensures
            match var_get(self.globals(), name@) {
                None => r matches Err(ScopeError::FunctionNotDefined(n)) && n@ == name@,
                Some(v) => if v is Function {
                    r matches Ok(x) && *x == v
                } else {
                    r matches Err(ScopeError::NotAFunction(n)) && n@ == name@
                },
            },
    {
        let key = name.to_owned();
        match var_position(&self.vars, &key) {
            None => Err(ScopeError::FunctionNotDefined(key)),
            Some(k) => match &self.vars[k].1 {
                Statement::Function(_, _) => Ok(&self.vars[k].1),
                _ => Err(ScopeError::NotAFunction(key)),
            },
        }
    }
}

} // verus!

verus! {

// ---- laws ----------------------------------------------------------------------

/// Variables with the same names in the same places are found in the same
/// place.
proof fn lemma_var_find_same_names(a: Seq<(String, Statement)>, b: Seq<(String, Statement)>, name: Seq<char>, i: int)
    requires
        a.len() == b.len(),
        forall|q: int| 0 <= q < a.len() ==> #[trigger] a[q].0@ == b[q].0@,
    ensures
        var_find(a, name, i) == var_find(b, name, i),
    decreases a.len() - i,
{
    if !(i < 0 || i >= a.len()) {
        assert(a[i].0@ == b[i].0@);
        lemma_var_find_same_names(a, b, name, i + 1);
    }
}

/// Past the end of the old variables, a new variable of the name is found.
proof fn lemma_var_find_appended(a: Seq<(String, Statement)>, b: Seq<(String, Statement)>, name: Seq<char>, i: int)
    requires
        0 <= i <= a.len(),
        b.len() == a.len() + 1,
        b.subrange(0, a.len() as int) == a,
        b[a.len() as int].0@ == name,
        var_find(a, name, i) is None,
    ensures
        var_find(b, name, i) == Some(a.len() as int),
    decreases a.len() - i,
{
    if i < a.len() {
        assert(b[i] == b.subrange(0, a.len() as int)[i]);
        lemma_var_find_appended(a, b, name, i + 1);
    }
}

/// After a variable is set, it holds the value.
proof fn lemma_var_put_get(vars: Seq<(String, Statement)>, name: Seq<char>, v: Statement, vars2: Seq<(String, Statement)>)
    requires
        var_put(vars, name, v, vars2),
    ensures
        var_find(vars2, name, 0) is Some,
        var_get(vars2, name) == Some(v),
{
    lemma_var_find(vars, name, 0);
    match var_find(vars, name, 0) {
        Some(k) => {
            lemma_var_find_same_names(vars, vars2, name, 0);
        },
        None => {
            lemma_var_find_appended(vars, vars2, name, 0);
        },
    }
}

/// Replacing the variables of the innermost local scope holding a name by
/// ones that still hold it keeps that scope the innermost one holding it.
proof fn lemma_top_local_update(ls: Seq<Seq<(String, Statement)>>, name: Seq<char>, i: int, j: int, h2: Seq<(String, Statement)>)
    requires
        i <= ls.len(),
        top_local_with(ls, name, i) == Some(j),
        var_find(h2, name, 0) is Some,
    ensures
        top_local_with(ls.update(j, h2), name, i) == Some(j),
    decreases i,
{
    lemma_top_local_with(ls, name, i);
    if i - 1 != j {
        lemma_top_local_update(ls, name, i - 1, j, h2);
    }
}

/// A name without separators is its own one step.
proof fn lemma_split_upto_plain(s: Seq<char>, i: int)
    requires
        0 <= i <= s.len(),
        forall|q: int| 0 <= q < s.len() ==> !is_separator(#[trigger] s[q]),
    ensures
        split_upto(s, i) == (Seq::<Seq<char>>::empty(), 0int),
    decreases i,
{
    if i > 0 {
        lemma_split_upto_plain(s, i - 1);
    }
}

/// Entries with the same keys in the same places are found in the same
/// place.
proof fn lemma_table_find_same_keys(a: Seq<(TableIndex, Statement)>, b: Seq<(TableIndex, Statement)>, key: (bool, Seq<char>), i: int)
    requires
        a.len() == b.len(),
        forall|q: int| 0 <= q < a.len() ==> #[trigger] key_view(a[q].0) == key_view(b[q].0),
    ensures
        table_find(a, key, i) == table_find(b, key, i),
    decreases a.len() - i,
{
    if !(i < 0 || i >= a.len()) {
        assert(key_view(a[i].0) == key_view(b[i].0));
        lemma_table_find_same_keys(a, b, key, i + 1);
    }
}

/// Past the end of the old entries, a new entry of the key is found.
proof fn lemma_table_find_appended(a: Seq<(TableIndex, Statement)>, b: Seq<(TableIndex, Statement)>, key: (bool, Seq<char>), i: int)
    requires
        0 <= i <= a.len(),
        b.len() == a.len() + 1,
        b.subrange(0, a.len() as int) == a,
        key_view(b[a.len() as int].0) == key,
        table_find(a, key, i) is None,
    ensures
        table_find(b, key, i) == Some(a.len() as int),
    decreases a.len() - i,
{
    if i < a.len() {
        assert(b[i] == b.subrange(0, a.len() as int)[i]);
        lemma_table_find_appended(a, b, key, i + 1);
    }
}

/// After a key is set, the table holds the value under it.
pub proof fn law_table_put_get(t: Seq<(TableIndex, Statement)>, key: (bool, Seq<char>), v: Statement, t2: Seq<(TableIndex, Statement)>)
    requires
        table_put(t, key, v, t2),
    ensures
        table_get(t2, key) == Some(v),
{
    lemma_table_find(t, key, 0);
    match table_find(t, key, 0) {
        Some(k) => {
            lemma_table_find_same_keys(t, t2, key, 0);
        },
        None => {
            lemma_table_find_appended(t, t2, key, 0);
        },
    }
}

/// A table with a path set holds the value at the end of the path.
proof fn lemma_path_set_resolve(t: Seq<(TableIndex, Statement)>, p: Seq<Seq<char>>, j: int, v: Statement, t2: Vec<(TableIndex, Statement)>)
    requires
        0 <= j < p.len(),
        path_set(t, p, j, v, t2@),
    ensures
        resolve(Statement::Table(t2), p.subrange(j, p.len() as int)) == Resolved::Found(v),
    decreases p.len() - j,
{
    let sub = p.subrange(j, p.len() as int);
    assert(sub[0] == p[j]);
    assert(sub.drop_first() =~= p.subrange(j + 1, p.len() as int));
    if j == p.len() - 1 {
        law_table_put_get(t, index_key(p[j]), v, t2@);
        assert(sub.drop_first() =~= Seq::<Seq<char>>::empty());
        assert(resolve(v, sub.drop_first()) == Resolved::Found(v));
        assert(table_get(t2@, index_key(sub[0])) == Some(v));
    } else {
        let k = table_find(t, index_key(p[j]), 0)->0;
        lemma_table_find(t, index_key(p[j]), 0);
        assert forall|q: int| 0 <= q < t.len() implies #[trigger] key_view(t[q].0) == key_view(t2@[q].0) by {
            if q != k {
                assert(t2@[q] == t[q]);
            }
        }
        lemma_table_find_same_keys(t, t2@, index_key(p[j]), 0);
        match (t[k].1, t2@[k].1) {
            (Statement::Table(inner), Statement::Table(inner2)) => {
                lemma_path_set_resolve(inner@, p, j + 1, v, inner2);
                assert(table_get(t2@, index_key(sub[0])) == Some(t2@[k].1));
            },
            _ => {},
        }
    }
}

/// Setting a plain variable (a name without separators) and reading it
/// back gives the value set: the name is its own one step, and it is found
/// holding the value.
pub proof fn law_assign_then_get(og: Seq<(String, Statement)>, ol: Seq<Seq<(String, Statement)>>, name: Seq<char>, v: Statement, ng: Seq<(String, Statement)>, nl: Seq<Seq<(String, Statement)>>)
    requires
        name.len() > 0,
        forall|q: int| 0 <= q < name.len() ==> !is_separator(#[trigger] name[q]),
        plain_assign_outcome(og, ol, name, v, ng, nl),
    ensures
        split_name(name) == seq![name],
        visible(ng, nl, name) == Some(v),
        resolve(v, split_name(name).drop_first()) == Resolved::Found(v),
{
    lemma_split_upto_plain(name, name.len() as int);
    assert(name.subrange(0, name.len() as int) =~= name);
    assert(split_name(name) =~= seq![name]);
    assert(split_name(name).drop_first() =~= Seq::<Seq<char>>::empty());
    let place = top_local_with(ol, name, ol.len() as int);
    match place {
        Some(j) => {
            lemma_top_local_with(ol, name, ol.len() as int);
            lemma_var_put_get(ol[j], name, v, nl[j]);
            lemma_top_local_update(ol, name, ol.len() as int, j, nl[j]);
        },
        None => {
            lemma_var_put_get(og, name, v, ng);
        },
    }
}

/// Setting the value at the end of a path into tables, when it succeeds,
/// and reading the path back gives the value set: the first step is found
/// holding a table, and the rest of the path leads to the value.
pub proof fn law_assign_path_then_get(og: Seq<(String, Statement)>, ol: Seq<Seq<(String, Statement)>>, p: Seq<Seq<char>>, v: Statement, ng: Seq<(String, Statement)>, nl: Seq<Seq<(String, Statement)>>)
    requires
        p.len() >= 2,
        table_assign_outcome(og, ol, p, v, Ok(()), ng, nl),
    ensures
        visible(ng, nl, p[0]) matches Some(root) && resolve(root, p.drop_first()) == Resolved::Found(v),
{
    let place = top_local_with(ol, p[0], ol.len() as int);
    let holder = vars_in(og, ol, place);
    let h2 = vars_in(ng, nl, place);
    let base = match var_get(holder, p[0]) {
        Some(Statement::Table(t)) => t@,
        _ => Seq::empty(),
    };
    lemma_var_find(holder, p[0], 0);
    let pos = match var_find(holder, p[0], 0) {
        Some(k) => k,
        None => holder.len() as int,
    };
    match var_find(holder, p[0], 0) {
        Some(k) => {
            assert forall|q: int| 0 <= q < holder.len() implies #[trigger] holder[q].0@ == h2[q].0@ by {
                if q != k {
                    assert(h2[q] == holder[q]);
                }
            }
            lemma_var_find_same_names(holder, h2, p[0], 0);
        },
        None => {
            assert(h2.subrange(0, holder.len() as int) =~= holder) by {
                assert forall|q: int| 0 <= q < holder.len() implies h2.subrange(0, holder.len() as int)[q] == holder[q] by {
                    assert(h2[q] == holder[q]);
                }
            }
            lemma_var_find_appended(holder, h2, p[0], 0);
        },
    }
    assert(var_get(h2, p[0]) == Some(h2[pos].1));
    match place {
        Some(j) => {
            lemma_top_local_with(ol, p[0], ol.len() as int);
            lemma_top_local_update(ol, p[0], ol.len() as int, j, h2);
        },
        None => {},
    }
    match h2[pos].1 {
        Statement::Table(t2) => {
            lemma_path_set_resolve(base, p, 1, v, t2);
            assert(p.drop_first() =~= p.subrange(1, p.len() as int));
        },
        _ => {},
    }
}

} // verus!

verus! {

/// Opening a local scope and closing it again leaves the local scopes as
/// they were (see `Scope::push_local`, `Scope::pop_local`).
pub proof fn law_push_then_pop(locals: Seq<Seq<(String, Statement)>>)
    ensures
        ({
            let pushed = locals.push(Seq::empty());
            (if pushed.len() > 0 {
                pushed.drop_last()
            } else {
                pushed
            }) == locals
        }),
{
    assert(locals.push(Seq::empty()).drop_last() =~= locals);
}

} // verus!

verus! {

// ---- no name or key twice --------------------------------------------------------

/// No two variables share a name, and every value's tables are valid.
pub open spec fn vars_valid(v: Seq<(String, Statement)>) -> bool {
    &&& forall|i: int, j: int| 0 <= i < j < v.len() ==> (#[trigger] v[i]).0@ != (#[trigger] v[j]).0@
    &&& forall|k: int| 0 <= k < v.len() ==> tables_valid(#[trigger] v[k].1)
}

/// Where no variable is found, none has the name.
proof fn lemma_var_find_none(v: Seq<(String, Statement)>, name: Seq<char>, i: int)
    requires
        0 <= i,
        var_find(v, name, i) is None,
    ensures
        forall|q: int| i <= q < v.len() ==> (#[trigger] v[q]).0@ != name,
    decreases v.len() - i,
{
    if i < v.len() {
        lemma_var_find_none(v, name, i + 1);
    }
}

/// Setting a variable keeps the variables valid, where the value is.
pub proof fn lemma_var_put_valid(v: Seq<(String, Statement)>, name: Seq<char>, x: Statement, v2: Seq<(String, Statement)>)
    requires
        vars_valid(v),
        tables_valid(x),
        var_put(v, name, x, v2),
    ensures
        vars_valid(v2),
{
    lemma_var_find(v, name, 0);
    match var_find(v, name, 0) {
        Some(k) => {
            assert forall|i: int, j: int| 0 <= i < j < v2.len() implies (#[trigger] v2[i]).0@
                != (#[trigger] v2[j]).0@ by {
                assert(v[i].0@ != v[j].0@);
            }
        },
        None => {
            lemma_var_find_none(v, name, 0);
            assert forall|q: int| 0 <= q < v.len() implies v2[q] == v[q] by {
                assert(v2[q] == v2.subrange(0, v.len() as int)[q]);
            }
            assert forall|i: int, j: int| 0 <= i < j < v2.len() implies (#[trigger] v2[i]).0@
                != (#[trigger] v2[j]).0@ by {
                if j < v.len() {
                    assert(v[i].0@ != v[j].0@);
                }
            }
            assert forall|k: int| 0 <= k < v2.len() implies tables_valid(#[trigger] v2[k].1) by {
                if k < v.len() {
                    assert(tables_valid(v[k].1));
                }
            }
        },
    }
}

/// Setting a path keeps a table valid, where the value is.
pub proof fn lemma_path_set_valid(t: Seq<(TableIndex, Statement)>, p: Seq<Seq<char>>, j: int, x: Statement, t2: Seq<(TableIndex, Statement)>)
    requires
        entries_valid(t),
        tables_valid(x),
        path_set(t, p, j, x, t2),
    ensures
        entries_valid(t2),
    decreases p.len() - j,
{
    if j == p.len() - 1 {
        lemma_table_put_valid(t, index_key(p[j]), x, t2);
    } else {
        let k = table_find(t, index_key(p[j]), 0)->0;
        lemma_table_find(t, index_key(p[j]), 0);
        match (t[k].1, t2[k].1) {
            (Statement::Table(inner), Statement::Table(inner2)) => {
                assert(tables_valid(t[k].1));
                lemma_path_set_valid(inner@, p, j + 1, x, inner2@);
                assert(tables_valid(t2[k].1));
                assert forall|i: int, q: int| 0 <= i < q < t2.len() implies key_view(#[trigger] t2[i].0)
                    != key_view(#[trigger] t2[q].0) by {
                    assert(t2[i].0 == t[i].0 && t2[q].0 == t[q].0);
                    assert(key_view(t[i].0) != key_view(t[q].0));
                }
                assert forall|q: int| 0 <= q < t2.len() implies tables_valid(#[trigger] t2[q].1) by {
                    if q != k {
                        assert(t2[q] == t[q]);
                    }
                }
            },
            _ => {},
        }
    }
}

/// Replacing the table of a variable by one with a path set keeps the
/// variables valid, where the value is.
pub proof fn lemma_root_replaced_valid(holder: Seq<(String, Statement)>, name: Seq<char>, base: Seq<(TableIndex, Statement)>, p: Seq<Seq<char>>, x: Statement, h2: Seq<(String, Statement)>)
    requires
        vars_valid(holder),
        entries_valid(base),
        tables_valid(x),
        p.len() >= 2,
        root_replaced(holder, name, base, p, x, h2),
    ensures
        vars_valid(h2),
{
    lemma_var_find(holder, name, 0);
    let pos = match var_find(holder, name, 0) {
        Some(k) => k,
        None => holder.len() as int,
    };
    match h2[pos].1 {
        Statement::Table(t2) => {
            lemma_path_set_valid(base, p, 1, x, t2@);
        },
        _ => {},
    }
    if var_find(holder, name, 0) is None {
        lemma_var_find_none(holder, name, 0);
    }
    assert forall|i: int, j: int| 0 <= i < j < h2.len() implies (#[trigger] h2[i]).0@
        != (#[trigger] h2[j]).0@ by {
        if i != pos && j != pos {
            assert(holder[i].0@ != holder[j].0@);
        } else if i == pos {
            assert(h2[j] == holder[j]);
            if var_find(holder, name, 0) is Some {
                assert(holder[i].0@ != holder[j].0@);
            }
        } else {
            assert(h2[i] == holder[i]);
            if var_find(holder, name, 0) is Some {
                assert(holder[i].0@ != holder[j].0@);
            }
        }
    }
    assert forall|k: int| 0 <= k < h2.len() implies tables_valid(#[trigger] h2[k].1) by {
        if k != pos {
            assert(h2[k] == holder[k]);
        }
    }
}

} // verus!

verus! {

/// The table a path into the variable starts from: its table, or a new,
/// empty one.
pub open spec fn root_base(holder: Seq<(String, Statement)>, name: Seq<char>) -> Seq<(TableIndex, Statement)> {
    match var_get(holder, name) {
        Some(Statement::Table(t)) => t@,
        _ => Seq::empty(),
    }
}

/// The table a path starts from is valid where the variables are.
proof fn lemma_root_base_valid(holder: Seq<(String, Statement)>, name: Seq<char>)
    requires
        vars_valid(holder),
    ensures
        entries_valid(root_base(holder, name)),
{
    lemma_var_find(holder, name, 0);
    if let Some(k) = var_find(holder, name, 0) {
        assert(tables_valid(holder[k].1));
    }
}

} // verus!

verus! {

/// Setting a key keeps the keys of a table apart.
pub proof fn lemma_table_put_keys(t: Seq<(TableIndex, Statement)>, key: (bool, Seq<char>), v: Statement, t2: Seq<(TableIndex, Statement)>)
    requires
        keys_unique(t),
        table_put(t, key, v, t2),
    ensures
        keys_unique(t2),
{
    lemma_table_find(t, key, 0);
    match table_find(t, key, 0) {
        Some(k) => {
            assert forall|i: int, j: int| 0 <= i < j < t2.len() implies key_view(#[trigger] t2[i].0)
                != key_view(#[trigger] t2[j].0) by {
                assert(key_view(t[i].0) != key_view(t[j].0));
            }
        },
        None => {
            lemma_table_find_none(t, key, 0);
            assert forall|q: int| 0 <= q < t.len() implies t2[q] == t[q] by {
                assert(t2[q] == t2.subrange(0, t.len() as int)[q]);
            }
            assert forall|i: int, j: int| 0 <= i < j < t2.len() implies key_view(#[trigger] t2[i].0)
                != key_view(#[trigger] t2[j].0) by {
                if j < t.len() {
                    assert(key_view(t[i].0) != key_view(t[j].0));
                }
            }
        },
    }
}

} // verus!

verus! {

/// A failed assignment of a path changes no variable in any scope.
pub proof fn law_failed_path_assign_changes_nothing(og: Seq<(String, Statement)>, ol: Seq<Seq<(String, Statement)>>, p: Seq<Seq<char>>, v: Statement, r: Result<(), ScopeError>, ng: Seq<(String, Statement)>, nl: Seq<Seq<(String, Statement)>>)
    requires
        p.len() >= 2,
        table_assign_outcome(og, ol, p, v, r, ng, nl),
        r is Err,
    ensures
        ng == og,
        nl == ol,
{
}

/// In a table with a new entry appended, a key other than the new one is
/// found where it was.
proof fn lemma_table_find_appended_other(a: Seq<(TableIndex, Statement)>, b: Seq<(TableIndex, Statement)>, key: (bool, Seq<char>), other: (bool, Seq<char>), i: int)
    requires
        0 <= i <= a.len(),
        b.len() == a.len() + 1,
        b.subrange(0, a.len() as int) == a,
        key_view(b[a.len() as int].0) == key,
        other != key,
    ensures
        table_find(b, other, i) == table_find(a, other, i),
    decreases a.len() - i,
{
    if i < a.len() {
        assert(b[i] == b.subrange(0, a.len() as int)[i]);
        lemma_table_find_appended_other(a, b, key, other, i + 1);
    } else {
        assert(table_find(b, other, i + 1) is None);
        assert(key_view(b[i].0) != other);
    }
}

/// Setting one key leaves every other key of the table as it was.
pub proof fn law_table_put_others(t: Seq<(TableIndex, Statement)>, key: (bool, Seq<char>), v: Statement, t2: Seq<(TableIndex, Statement)>, other: (bool, Seq<char>))
    requires
        table_put(t, key, v, t2),
        other != key,
    ensures
        table_get(t2, other) == table_get(t, other),
{
    lemma_table_find(t, key, 0);
    match table_find(t, key, 0) {
        Some(k) => {
            lemma_table_find_same_keys(t, t2, other, 0);
            lemma_table_find(t, other, 0);
            if let Some(q) = table_find(t, other, 0) {
                assert(q != k);
                assert(t2[q] == t[q]);
            }
        },
        None => {
            lemma_table_find_appended_other(t, t2, key, other, 0);
            lemma_table_find(t, other, 0);
            if let Some(q) = table_find(t, other, 0) {
                assert(t2[q] == t2.subrange(0, t.len() as int)[q]);
            }
        },
    }
}

/// Setting a key of a table through a two-step path (`t.k`, `t[k]`): the
/// variable stays in the scope that held it (a new one is global), it holds
/// a table, and every other key of that table keeps its value.
pub proof fn law_assign_key_keeps_others(og: Seq<(String, Statement)>, ol: Seq<Seq<(String, Statement)>>, p: Seq<Seq<char>>, v: Statement, ng: Seq<(String, Statement)>, nl: Seq<Seq<(String, Statement)>>, other: (bool, Seq<char>))
    requires
        p.len() == 2,
        table_assign_outcome(og, ol, p, v, Ok(()), ng, nl),
        other != index_key(p[1]),
    ensures
        ({
            let place = top_local_with(ol, p[0], ol.len() as int);
            let base = root_base(vars_in(og, ol, place), p[0]);
            &&& top_local_with(nl, p[0], nl.len() as int) == place
            &&& visible(ng, nl, p[0]) matches Some(Statement::Table(t2)) && table_get(t2@, other) == table_get(
                base,
                other,
            )
        }),
{
    let place = top_local_with(ol, p[0], ol.len() as int);
    let holder = vars_in(og, ol, place);
    let h2 = vars_in(ng, nl, place);
    let base = root_base(holder, p[0]);
    lemma_var_find(holder, p[0], 0);
    let pos = match var_find(holder, p[0], 0) {
        Some(k) => k,
        None => holder.len() as int,
    };
    match var_find(holder, p[0], 0) {
        Some(k) => {
            assert forall|q: int| 0 <= q < holder.len() implies #[trigger] holder[q].0@ == h2[q].0@ by {
                if q != k {
                    assert(h2[q] == holder[q]);
                }
            }
            lemma_var_find_same_names(holder, h2, p[0], 0);
        },
        None => {
            assert(h2.subrange(0, holder.len() as int) =~= holder) by {
                assert forall|q: int| 0 <= q < holder.len() implies h2.subrange(0, holder.len() as int)[q]
                    == holder[q] by {
                    assert(h2[q] == holder[q]);
                }
            }
            lemma_var_find_appended(holder, h2, p[0], 0);
        },
    }
    match place {
        Some(j) => {
            lemma_top_local_with(ol, p[0], ol.len() as int);
            lemma_top_local_update(ol, p[0], ol.len() as int, j, h2);
        },
        None => {},
    }
    match h2[pos].1 {
        Statement::Table(t2) => {
            law_table_put_others(base, index_key(p[1]), v, t2@, other);
        },
        _ => {},
    }
}

} // verus!
