//! What the compiler knows about the names of a program: variables,
//! functions and built-ins.

use crate::opcode::{PRINT, READ};
use crate::types::{Param, ValueType};
use vstd::prelude::*;

verus! {

/// What is known of a variable in sight.
#[derive(Clone, Copy, Debug, PartialEq, Eq, Structural)]
pub struct Variable {
    /// Where the value lives: the index of a local slot, or of an argument.
    pub slot: i64,
    pub ty: ValueType,
    /// How secret the value is: what is stored in the variable may be no more
    /// secret, and the variable may be read only where this much is allowed.
    pub security: i64,
    /// Whether the variable is a parameter of its function.
    pub is_arg: bool,
    /// The nesting depth of the block that declares it; one for the body of a
    /// function and for its parameters.
    pub depth: usize,
    /// The function it belongs to, given by the index of the token that names
    /// the function in its declaration.
    pub owner: usize,
}

/// What is known of a declared function.
pub struct Function {
    /// Where its code starts.
    pub address: i64,
    pub returns: ValueType,
    /// How secret the returned value is.
    pub security: i64,
    pub params: Vec<Param>,
    /// Whether the code generator has met a declaration of this name.
    pub defined: bool,
}

/// A `Function` as a mathematical value.
pub struct FnInfo {
    pub address: i64,
    pub returns: ValueType,
    pub security: i64,
    pub params: Seq<Param>,
    pub defined: bool,
}

impl View for Function {
    type V = FnInfo;

    /// The function as a mathematical value.
    open spec fn view(&self) -> FnInfo {
        FnInfo {
            address: self.address,
            returns: self.returns,
            security: self.security,
            params: self.params@,
            defined: self.defined,
        }
    }
}

/// The signature of a built-in function.
#[derive(Debug)]
pub struct Builtin {
    pub name: String,
    /// The operand of the `USE` instruction that calls it.
    pub id: i64,
    pub params: Vec<ValueType>,
    pub returns: ValueType,
}

/// Whether `table` holds the built-ins that every program may call: `print`
/// and `read`, neither with a fixed parameter or a fixed type.
pub open spec fn is_standard_library(table: Seq<Builtin>) -> bool {
    &&& table.len() == 2
    &&& table[0].name@ == "print"@
    &&& table[0].id == PRINT
    &&& table[0].params@.len() == 0
    &&& table[0].returns == ValueType::Void
    &&& table[1].name@ == "read"@
    &&& table[1].id == READ
    &&& table[1].params@.len() == 0
    &&& table[1].returns == ValueType::Void
}

/// The built-ins that every program may call.
pub fn standard_library() -> (table: Vec<Builtin>)
    ensures
        is_standard_library(table@),
{
    let mut table: Vec<Builtin> = Vec::new();
    table.push(
        Builtin {
            name: String::from_str("print"),
            id: PRINT,
            params: Vec::new(),
            returns: ValueType::Void,
        },
    );
    table.push(
        Builtin {
            name: String::from_str("read"),
            id: READ,
            params: Vec::new(),
            returns: ValueType::Void,
        },
    );
    table
}

/// The record that stands for a variable that is declared nowhere.
pub open spec fn undeclared_variable() -> Variable {
    Variable { slot: 0, ty: ValueType::Int, security: 0, is_arg: false, depth: 1, owner: 0 }
}

/// The function table as a map of mathematical values.
pub open spec fn fn_infos(functions: Map<Seq<char>, Function>) -> Map<Seq<char>, FnInfo> {
    Map::new(
        |name: Seq<char>| functions.contains_key(name),
        |name: Seq<char>| functions[name]@,
    )
}

/// Recording a function in the table records its value in the map of values.
pub proof fn lemma_fn_infos_insert(
    functions: Map<Seq<char>, Function>,
    name: Seq<char>,
    f: Function,
)
    ensures
        fn_infos(functions.insert(name, f)) == fn_infos(functions).insert(name, f@),
{
    assert(fn_infos(functions.insert(name, f)) =~= fn_infos(functions).insert(name, f@));
}

/// The first built-in of `table` from position `from` on that is named
/// `name`, by its position.
pub open spec fn find_builtin_from(table: Seq<Builtin>, name: Seq<char>, from: int) -> Option<int>
    decreases table.len() - from,
{
    if from < 0 || from >= table.len() {
        None
    } else if table[from].name@ == name {
        Some(from)
    } else {
        find_builtin_from(table, name, from + 1)
    }
}

/// The built-in named `name`, by its position in `table`. Where several
/// carry the name, the first one counts.
pub open spec fn find_builtin(table: Seq<Builtin>, name: Seq<char>) -> Option<int> {
    find_builtin_from(table, name, 0)
}

/// A found built-in is an entry of the table and carries the name.
pub proof fn lemma_find_builtin(table: Seq<Builtin>, name: Seq<char>, from: int)
    requires
        0 <= from,
    ensures
        find_builtin_from(table, name, from) is Some ==> from <= find_builtin_from(
            table,
            name,
            from,
        )->0 < table.len() && table[find_builtin_from(table, name, from)->0].name@ == name,
    decreases table.len() - from,
{
    if from < table.len() && table[from].name@ != name {
        lemma_find_builtin(table, name, from + 1);
    }
}

/// Looks `name` up among the built-ins.
pub fn lookup_builtin(table: &Vec<Builtin>, name: &String) -> (found: Option<usize>)
    ensures
        found is Some <==> find_builtin(table@, name@) is Some,
        found is Some ==> found->0 as int == find_builtin(table@, name@)->0 && found->0
            < table.len() && table[found->0 as int].name@ == name@,
{
    let n: usize = table.len();
    let mut i: usize = 0;
    while i < n
        invariant
            n == table.len(),
            i <= n,
            find_builtin(table@, name@) == find_builtin_from(table@, name@, i as int),
        decreases n - i,
    {
        if table[i].name == *name {
            return Some(i);
        }
        i += 1;
    }
    None
}

/// A copy of a parameter list.
pub fn copy_params(params: &Vec<Param>) -> (copy: Vec<Param>)
    ensures
        copy@ == params@,
{
    let mut copy: Vec<Param> = Vec::new();
    let n: usize = params.len();
    let mut i: usize = 0;
    while i < n
        invariant
            n == params.len(),
            i <= n,
            copy@ == params@.take(i as int),
        decreases n - i,
    {
        copy.push(params[i]);
        assert(params@.take(i + 1) =~= params@.take(i as int).push(params[i as int]));
        i += 1;
    }
    assert(params@.take(n as int) =~= params@);
    copy
}

/// A copy of a list of types.
pub fn copy_types(types: &Vec<ValueType>) -> (copy: Vec<ValueType>)
    ensures
        copy@ == types@,
{
    let mut copy: Vec<ValueType> = Vec::new();
    let n: usize = types.len();
    let mut i: usize = 0;
    while i < n
        invariant
            n == types.len(),
            i <= n,
            copy@ == types@.take(i as int),
        decreases n - i,
    {
        copy.push(types[i]);
        assert(types@.take(i + 1) =~= types@.take(i as int).push(types[i as int]));
        i += 1;
    }
    assert(types@.take(n as int) =~= types@);
    copy
}

} // verus!
