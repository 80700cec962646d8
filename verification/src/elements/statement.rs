//! The statements of the evaluator: the shapes it builds out of
//! tokens, with the checks and constructors it uses on them.

use vstd::prelude::*;
use crate::elements::token::{Token, same_kind, same_type};
use crate::elements::tokentype::{TokenType, spec_oop};
use crate::numbers::is_float_literal;
use crate::scanspec::spec_is_float_literal;
use crate::text::{chars_of, push_str, decimal, decimal_string};
use crate::elements::scope::{key_view, table_model, put_model, table_insert, lemma_table_put_model, keys_unique, lemma_table_put_keys};

verus! {

/// A key of a table: a number (kept as its text) or a string.
pub enum TableIndex {
    Number(String),
    String(String),
}

impl TableIndex {
    /// The key the text stands for: a number where the text reads as one
    /// (by the grammar of Rust's `f32` parser), a string otherwise.
    pub fn create(text: &str) -> (r: TableIndex)
        ensures
            match r {
                TableIndex::Number(t) => spec_is_float_literal(text@) && t@ == text@,
                TableIndex::String(t) => !spec_is_float_literal(text@) && t@ == text@,
            },
    {
        let chars = chars_of(text);
        if is_float_literal(&chars) {
            TableIndex::Number(text.to_owned())
        } else {
            TableIndex::String(text.to_owned())
        }
    }

    /// How the key is shown: a number as it is, a string in quotes.
    pub fn to_display_string(&self) -> (r: String)
        ensures
            r@ == match self {
                TableIndex::Number(num) => num@,
                TableIndex::String(st) => "\""@ + st@ + "\""@,
            },
    {
        match self {
            TableIndex::Number(num) => num.clone(),
            TableIndex::String(st) => {
                let mut s = "\"".to_owned();
                push_str(&mut s, st.as_str());
                push_str(&mut s, "\"");
                s
            },
        }
    }
}

/// A statement of the evaluator. A table holds its entries as
/// key and value pairs.
pub enum Statement {
    Empty,
    Token(Token),
    Unary(Token, Box<Statement>),
    Binary(Token, Box<Statement>, Box<Statement>),
    Group(Box<Statement>),
    FieldNamed(Box<Statement>, Box<Statement>),
    FieldBracket(Box<Statement>, Box<Statement>),
    FieldList(Vec<Box<Statement>>),
    ComplexVar(Vec<Box<Statement>>),
    ExprList(Vec<Box<Statement>>),
    VarList(Vec<Box<Statement>>),
    NameList(Vec<String>),
    Table(Vec<(TableIndex, Statement)>),
    TableConstructor(Vec<Box<Statement>>),
    DoEnd(Vec<Box<Statement>>),
    WhileDoEnd(Box<Statement>, Vec<Box<Statement>>),
    Assignment(Box<Statement>, Box<Statement>),
    AssignmentLocal(Box<Statement>, Box<Statement>),
    Function(Vec<String>, Vec<Box<Statement>>),
    FunctionNamed(String, Vec<String>, Vec<Box<Statement>>),
    FunctionCall(Box<Statement>, Box<Statement>),
    Return(Box<Statement>),
}

/// The statement is a token of the given kind.
pub open spec fn tok_is(s: Statement, f: spec_fn(TokenType) -> bool) -> bool {
    s matches Statement::Token(t) && f(t.token_type)
}

/// The statement is a name.
pub open spec fn spec_is_name(s: Statement) -> bool {
    tok_is(s, |t: TokenType| t is Identifier)
}

/// The statement is a variable: a name.
pub open spec fn spec_is_var(s: Statement) -> bool {
    spec_is_name(s)
}

/// The statement is a prefix: a variable or a group.
pub open spec fn spec_is_prefix(s: Statement) -> bool {
    spec_is_var(s) || s is Group
}

/// The statement is an expression: a prefix, a literal token, a group, a
/// binary or unary operation, or a complex variable.
pub open spec fn spec_is_expr(s: Statement) -> bool {
    ||| spec_is_prefix(s)
    ||| tok_is(
        s,
        |t: TokenType| t is Nil || t is False || t is True || t is Number || t is String,
    )
    ||| s is Group
    ||| s is Binary
    ||| s is ComplexVar
    ||| s is Unary
}

/// The statement is a unary operator.
pub open spec fn spec_is_unop(s: Statement) -> bool {
    tok_is(s, |t: TokenType| t is Minus || t is Not || t is Pound)
}

/// The statement is a binary operator.
pub open spec fn spec_is_binop(s: Statement) -> bool {
    tok_is(
        s,
        |t: TokenType|
            t is Plus || t is Minus || t is Star || t is Slash || t is Carrot || t is Percent
                || t is DoublePeriod || t is GreaterThan || t is LessThan || t is GreaterEqual
                || t is LessEqual || t is EqualEqual || t is NotEqual || t is And || t is Or,
    )
}

/// The binary operation of the operator `s` on the two expressions, the
/// operator moving inside a first expression whose operator binds more
/// loosely (see `into_binary`).
pub open spec fn spec_into_binary(s: Statement, e1: Statement, e2: Statement) -> Statement {
    match s {
        Statement::Token(t) => match e1 {
            Statement::Binary(op, a, b) => if spec_oop(t.token_type) < spec_oop(op.token_type) {
                Statement::Binary(op, a, Box::new(Statement::Binary(t, b, Box::new(e2))))
            } else {
                Statement::Binary(t, Box::new(e1), Box::new(e2))
            },
            _ => Statement::Binary(t, Box::new(e1), Box::new(e2)),
        },
        _ => Statement::Empty,
    }
}

/// Lua's order of operations among the binary operators, from the tightest:
/// `^`; then `*` and `/`; then `+` and `-`; then `..`; then the comparisons
/// `< <= > >= ~= ==`; then `and`; then `or`. Other tokens (and `%`, which
/// the order leaves out) have none.
pub open spec fn lua_precedence(t: TokenType) -> nat {
    if t is Carrot {
        1
    } else if t is Star || t is Slash {
        2
    } else if t is Plus || t is Minus {
        3
    } else if t is DoublePeriod {
        4
    } else if t is LessThan || t is LessEqual || t is GreaterThan || t is GreaterEqual
        || t is NotEqual || t is EqualEqual {
        5
    } else if t is And {
        6
    } else if t is Or {
        7
    } else {
        0
    }
}

/// Building `a op b` and then `t c` on it: where `t` binds tighter than
/// `op` the result is `a op (b t c)` (so `2 + 3 / 4` is `2 + (3 / 4)`),
/// otherwise `(a op b) t c` (so `2 - 3 - 4` is `(2 - 3) - 4`). The operators
/// that take part are exactly those in Lua's order of operations.
pub proof fn law_order_of_operations(t: Token, op: Token, a: Box<Statement>, b: Box<Statement>, c: Statement)
    requires
        lua_precedence(t.token_type) > 0,
        lua_precedence(op.token_type) > 0,
    ensures
        spec_oop(t.token_type) != 0,
        spec_oop(op.token_type) != 0,
        lua_precedence(t.token_type) < lua_precedence(op.token_type) ==> spec_into_binary(
            Statement::Token(t),
            Statement::Binary(op, a, b),
            c,
        ) == Statement::Binary(op, a, Box::new(Statement::Binary(t, b, Box::new(c)))),
        lua_precedence(t.token_type) >= lua_precedence(op.token_type) ==> spec_into_binary(
            Statement::Token(t),
            Statement::Binary(op, a, b),
            c,
        ) == Statement::Binary(t, Box::new(Statement::Binary(op, a, b)), Box::new(c)),
{
}

/// A token is a binary operator exactly when it is one of Lua's fifteen:
/// `+ - * / ^ % .. < <= > >= == ~= and or`.
pub proof fn law_binary_operators(t: Token)
    ensures
        spec_is_binop(Statement::Token(t)) <==> (t.token_type is Plus || t.token_type is Minus
            || t.token_type is Star || t.token_type is Slash || t.token_type is Carrot
            || t.token_type is Percent || t.token_type is DoublePeriod || t.token_type is LessThan
            || t.token_type is LessEqual || t.token_type is GreaterThan
            || t.token_type is GreaterEqual || t.token_type is EqualEqual
            || t.token_type is NotEqual || t.token_type is And || t.token_type is Or),
{
}

/// The statement is a list of names, variables or expressions.
pub open spec fn spec_is_a_list(s: Statement) -> bool {
    s is VarList || s is ExprList || s is NameList
}

/// The statement is a variable list (names count too).
pub open spec fn spec_is_varlist(s: Statement) -> bool {
    s is NameList || spec_is_var(s) || s is VarList
}

/// The statement is an expression list (variable lists and expressions
/// count too).
pub open spec fn spec_is_exprlist(s: Statement) -> bool {
    spec_is_varlist(s) || spec_is_expr(s) || s is ExprList
}

/// The statement is a field.
pub open spec fn spec_is_field(s: Statement) -> bool {
    spec_is_expr(s) || s is FieldBracket || s is FieldNamed
}

/// The number of items of a list; 0 for other statements.
pub open spec fn spec_len(s: Statement) -> nat {
    match s {
        Statement::FieldList(l) | Statement::ExprList(l) | Statement::VarList(l) => l@.len(),
        Statement::NameList(l) => l@.len(),
        _ => 0,
    }
}

/// The names of a name list, or `None` when not all items are names.
pub open spec fn all_names(items: Seq<Box<Statement>>) -> bool {
    forall|k: int| 0 <= k < items.len() ==> spec_is_name(*#[trigger] items[k])
}

impl Statement {
    /// Each token wrapped as a statement, in order.
    pub fn tokens_to_statements(tokens: Vec<Token>) -> (r: Vec<Statement>)
        ensures
            r@.len() == tokens@.len(),
            forall|k: int| 0 <= k < tokens@.len() ==> r@[k] == Statement::Token(#[trigger] tokens@[k]),
    {
        let mut statements: Vec<Statement> = Vec::new();
        let mut rest = tokens;
        let ghost t0 = rest@;
        while rest.len() > 0
            invariant
                statements@.len() + rest@.len() == t0.len(),
                rest@ == t0.subrange(statements@.len() as int, t0.len() as int),
                forall|k: int| 0 <= k < statements@.len() ==> statements@[k] == Statement::Token(#[trigger] t0[k]),
            decreases rest@.len(),
        {
            let t = rest.remove(0);
            statements.push(Statement::Token(t));
        }
        statements
    }

    /// The number of items of a list; 0 for other statements.
    pub fn len(&self) -> (r: usize)
        ensures
            r == spec_len(*self),
    {
        match self {
            Statement::FieldList(list) => list.len(),
            Statement::ExprList(list) => list.len(),
            Statement::VarList(list) => list.len(),
            Statement::NameList(list) => list.len(),
            _ => 0,
        }
    }

    /// The statement is `Empty`.
    pub fn is_empty(&self) -> (r: bool)
        ensures
            r == (*self is Empty),
    {
        match self {
            Statement::Empty => true,
            _ => false,
        }
    }

    /// The statement is a token of the kind `token`.
    pub fn is_token(&self, token: TokenType) -> (r: bool)
        ensures
            r == (*self matches Statement::Token(t) && same_kind(t.token_type, token)),
    {
        match self {
            Statement::Token(t) => same_type(t.get_type(), &token),
            _ => false,
        }
    }

    /// The statement is a token of the kind `token`.
    pub fn is_token_ref(&self, token: &TokenType) -> (r: bool)
        ensures
            r == (*self matches Statement::Token(t) && same_kind(t.token_type, *token)),
    {
        match self {
            Statement::Token(t) => same_type(t.get_type(), token),
            _ => false,
        }
    }

    /// The statement is `true` or `false`.
    pub fn is_bool(&self) -> (r: bool)
        ensures
            r == tok_is(*self, |t: TokenType| t is False || t is True),
    {
        match self {
            Statement::Token(t) => match t.get_type() {
                TokenType::False | TokenType::True => true,
                _ => false,
            },
            _ => false,
        }
    }

    /// The statement can be a function's arguments: a string or an
    /// expression list.
    pub fn is_args(&self) -> (r: bool)
        ensures
            r == (tok_is(*self, |t: TokenType| t is String) || spec_is_exprlist(*self)),
    {
        self.is_string() || self.is_exprlist()
    }

    /// The statement is a list.
    pub fn is_a_list(&self) -> (r: bool)
        ensures
            r == spec_is_a_list(*self),
    {
        match self {
            Statement::VarList(_) | Statement::ExprList(_) | Statement::NameList(_) => true,
            _ => false,
        }
    }

    /// The statement is a field list (a field or an expression list counts
    /// too).
    pub fn is_fieldlist(&self) -> (r: bool)
        ensures
            r == (spec_is_field(*self) || spec_is_exprlist(*self) || *self is FieldList),
    {
        if self.is_field() {
            return true;
        }
        if self.is_exprlist() {
            return true;
        }
        match self {
            Statement::FieldList(_) => true,
            _ => false,
        }
    }

    /// The statement is an expression list.
    pub fn is_exprlist(&self) -> (r: bool)
        ensures
            r == spec_is_exprlist(*self),
    {
        if self.is_varlist() {
            return true;
        }
        if self.is_expr() {
            return true;
        }
        match self {
            Statement::ExprList(_) => true,
            _ => false,
        }
    }

    /// The statement is a name list.
    pub fn is_namelist(&self) -> (r: bool)
        ensures
            r == (*self is NameList),
    {
        match self {
            Statement::NameList(_) => true,
            _ => false,
        }
    }

    /// The statement is a complex variable.
    pub fn is_complex_var(&self) -> (r: bool)
        ensures
            r == (*self is ComplexVar),
    {
        match self {
            Statement::ComplexVar(_) => true,
            _ => false,
        }
    }

    /// The statement is a variable list.
    pub fn is_varlist(&self) -> (r: bool)
        ensures
            r == spec_is_varlist(*self),
    {
        if self.is_namelist() {
            return true;
        }
        if self.is_var() {
            return true;
        }
        match self {
            Statement::VarList(_) => true,
            _ => false,
        }
    }

    /// The statement is a token.
    pub fn is_a_token(&self) -> (r: bool)
        ensures
            r == (*self is Token),
    {
        match self {
            Statement::Token(_) => true,
            _ => false,
        }
    }

    /// The statement is a prefix expression: an expression, a variable or a
    /// function call.
    pub fn is_prefixexp(&self) -> (r: bool)
        ensures
            r == (spec_is_expr(*self) || spec_is_var(*self) || *self is FunctionCall),
    {
        if self.is_expr() {
            return true;
        }
        if self.is_var() {
            return true;
        }
        match self {
            Statement::FunctionCall(_, _) => true,
            _ => false,
        }
    }

    /// The statement is a unary operator: `-`, `not` or `#`.
    pub fn is_unop(&self) -> (r: bool)
        ensures
            r == spec_is_unop(*self),
    {
        match self {
            Statement::Token(token) => match token.get_type() {
                TokenType::Minus | TokenType::Not | TokenType::Pound => true,
                _ => false,
            },
            _ => false,
        }
    }

    /// The statement is a binary operator.
    pub fn is_binop(&self) -> (r: bool)
        ensures
            r == spec_is_binop(*self),
    {
        match self {
            Statement::Token(token) => match token.get_type() {
                TokenType::Plus | TokenType::Minus | TokenType::Star | TokenType::Slash
                | TokenType::Carrot | TokenType::Percent | TokenType::DoublePeriod
                | TokenType::GreaterThan | TokenType::LessThan | TokenType::GreaterEqual
                | TokenType::LessEqual | TokenType::EqualEqual | TokenType::NotEqual
                | TokenType::And | TokenType::Or => true,
                _ => false,
            },
            _ => false,
        }
    }

    /// The statement separates fields: `,` or `;`.
    pub fn is_fieldsep(&self) -> (r: bool)
        ensures
            r == tok_is(*self, |t: TokenType| t is Comma || t is SemiColon),
    {
        match self {
            Statement::Token(token) => match token.get_type() {
                TokenType::Comma | TokenType::SemiColon => true,
                _ => false,
            },
            _ => false,
        }
    }

    /// The statement is a prefix: a variable or a group.
    pub fn is_prefix(&self) -> (r: bool)
        ensures
            r == spec_is_prefix(*self),
    {
        if self.is_var() {
            return true;
        }
        match self {
            Statement::Group(_) => true,
            _ => false,
        }
    }

    /// The statement is an expression (see `spec_is_expr`).
    pub fn is_expr(&self) -> (r: bool)
        ensures
            r == spec_is_expr(*self),
    {
        if self.is_prefix() {
            return true;
        }
        match self {
            Statement::Token(token) => match token.get_type() {
                TokenType::Nil | TokenType::False | TokenType::True | TokenType::Number(_)
                | TokenType::String(_) => true,
                _ => false,
            },
            Statement::Group(_) | Statement::Binary(_, _, _) | Statement::ComplexVar(_)
            | Statement::Unary(_, _) => true,
            _ => false,
        }
    }

    /// The statement is a variable: a name.
    pub fn is_var(&self) -> (r: bool)
        ensures
            r == spec_is_var(*self),
    {
        self.is_name()
    }

    /// The statement is a statement of the language: a `do` or `while`
    /// block or an assignment.
    pub fn is_stat(&self) -> (r: bool)
        ensures
            r == (*self is DoEnd || *self is WhileDoEnd || *self is AssignmentLocal
                || *self is Assignment),
    {
        match self {
            Statement::DoEnd(_) | Statement::WhileDoEnd(_, _) | Statement::AssignmentLocal(_, _)
            | Statement::Assignment(_, _) => true,
            _ => false,
        }
    }

    /// The statement is a name.
    pub fn is_name(&self) -> (r: bool)
        ensures
            r == spec_is_name(*self),
    {
        match self {
            Statement::Token(token) => match token.get_type() {
                TokenType::Identifier(_) => true,
                _ => false,
            },
            _ => false,
        }
    }

    /// The statement is a number.
    pub fn is_number(&self) -> (r: bool)
        ensures
            r == tok_is(*self, |t: TokenType| t is Number),
    {
        match self {
            Statement::Token(token) => match token.get_type() {
                TokenType::Number(_) => true,
                _ => false,
            },
            _ => false,
        }
    }

    /// The statement is a string.
    pub fn is_string(&self) -> (r: bool)
        ensures
            r == tok_is(*self, |t: TokenType| t is String),
    {
        match self {
            Statement::Token(token) => match token.get_type() {
                TokenType::String(_) => true,
                _ => false,
            },
            _ => false,
        }
    }

    /// The statement is a field: an expression or a named or bracketed
    /// field.
    pub fn is_field(&self) -> (r: bool)
        ensures
            r == spec_is_field(*self),
    {
        if self.is_expr() {
            return true;
        }
        match self {
            Statement::FieldBracket(_, _) | Statement::FieldNamed(_, _) => true,
            _ => false,
        }
    }
}

/// The name a statement holds (empty for other statements).
pub open spec fn name_text(s: Statement) -> Seq<char> {
    match s {
        Statement::Token(t) => match t.token_type {
            TokenType::Identifier(n) => n@,
            _ => Seq::empty(),
        },
        _ => Seq::empty(),
    }
}

/// The number of items a statement has as a list: its own for a list, one
/// for anything else.
pub open spec fn list_len(s: Statement) -> nat {
    if spec_is_a_list(s) {
        spec_len(s)
    } else {
        1
    }
}

/// The statement, made into a list, is a name list.
pub open spec fn lists_as_names(s: Statement) -> bool {
    s is NameList || (!spec_is_a_list(s) && spec_is_name(s))
}

/// The list holds the names and then `_` up to `n` names.
pub open spec fn names_padded(l: Seq<String>, names: Seq<Seq<char>>, n: nat) -> bool {
    &&& l.len() == n
    &&& forall|k: int| 0 <= k < n ==> (#[trigger] l[k])@ == if k < names.len() {
        names[k]
    } else {
        seq!['_']
    }
}

/// The list holds the items and then `Empty` up to `n` items.
pub open spec fn items_padded(l: Seq<Box<Statement>>, items: Seq<Box<Statement>>, n: nat) -> bool {
    &&& l.len() == n
    &&& forall|k: int| 0 <= k < n ==> *(#[trigger] l[k]) == if k < items.len() {
        *items[k]
    } else {
        Statement::Empty
    }
}

/// The statement `s`, made into a list and padded to `n` items, is `l`.
pub open spec fn padded_list_of(s: Statement, l: Statement, n: nat) -> bool {
    match s {
        Statement::NameList(names) => l matches Statement::NameList(nl) && names_padded(
            nl@,
            names@.map_values(|x: String| x@),
            n,
        ),
        Statement::VarList(items) => l matches Statement::VarList(il) && items_padded(il@, items@, n),
        Statement::ExprList(items) => l matches Statement::ExprList(il) && items_padded(il@, items@, n),
        _ => if spec_is_name(s) {
            l matches Statement::NameList(nl) && names_padded(nl@, seq![name_text(s)], n)
        } else {
            l matches Statement::ExprList(il) && items_padded(il@, seq![Box::new(s)], n)
        },
    }
}

impl Statement {
    /// Counts how deep in loops a token takes the reader: `end` leaves one
    /// (not below zero), `do` and `then` enter one.
    pub fn counting_loops(statement: &Statement, depth: &mut usize)
        requires
            tok_is(*statement, |t: TokenType| t is Do || t is Then) ==> *old(depth) < usize::MAX,
        ensures
            *final(depth) == if tok_is(*statement, |t: TokenType| t is End) {
                if *old(depth) > 0 {
                    (*old(depth) - 1) as usize
                } else {
                    0usize
                }
            } else if tok_is(*statement, |t: TokenType| t is Do || t is Then) {
                (*old(depth) + 1) as usize
            } else {
                *old(depth)
            },
    {
        if let Statement::Token(token) = statement {
            match token.get_type() {
                TokenType::End => {
                    if *depth > 0 {
                        *depth = *depth - 1;
                    }
                },
                TokenType::Do | TokenType::Then => *depth = *depth + 1,
                _ => {},
            }
        }
    }

    /// The name a name statement holds.
    pub fn as_name<'a>(&'a self) -> (r: &'a str)
        requires
            spec_is_name(*self),
        ensures
            r@ == name_text(*self),
    {
        match self {
            Statement::Token(token) => match token.get_type() {
                TokenType::Identifier(string) => string.as_str(),
                _ => "",
            },
            _ => "",
        }
    }

    /// The text a string statement holds.
    pub fn as_string<'a>(&'a self) -> (r: &'a str)
        requires
            tok_is(*self, |t: TokenType| t is String),
        ensures
            *self matches Statement::Token(t) && t.token_type matches TokenType::String(x) && r@ == x@,
    {
        match self {
            Statement::Token(token) => match token.get_type() {
                TokenType::String(string) => string.as_str(),
                _ => "",
            },
            _ => "",
        }
    }

    /// The value of `true` or `false`.
    pub fn as_bool(&self) -> (r: bool)
        requires
            tok_is(*self, |t: TokenType| t is False || t is True),
        ensures
            r == tok_is(*self, |t: TokenType| t is True),
    {
        match self {
            Statement::Token(token) => match token.get_type() {
                TokenType::True => true,
                _ => false,
            },
            _ => false,
        }
    }

    /// The value of `true` or `false`, if the statement is one.
    pub fn cast_to_bool(&self) -> (r: Option<bool>)
        ensures
            r == if tok_is(*self, |t: TokenType| t is False || t is True) {
                Some(tok_is(*self, |t: TokenType| t is True))
            } else {
                None::<bool>
            },
    {
        if self.is_bool() {
            return Some(self.as_bool());
        }
        None
    }

    /// The token kind of a token statement.
    pub fn as_token_type<'a>(&'a self) -> (r: &'a TokenType)
        requires
            *self is Token,
        ensures
            *self matches Statement::Token(t) && *r == t.token_type,
    {
        match self {
            Statement::Token(token) => token.get_type(),
            _ => {
                proof {
                    assert(false);
                }
                &TokenType::Nil
            },
        }
    }

    /// The names of a name list.
    pub fn as_namelist<'a>(&'a self) -> (r: &'a Vec<String>)
        requires
            *self is NameList,
        ensures
            *self matches Statement::NameList(l) && *r == l,
    {
        match self {
            Statement::NameList(list) => list,
            _ => vstd::pervasive::unreached(),
        }
    }

    /// The `i`-th item of a variable or expression list; anything else is a
    /// list of itself alone.
    pub fn as_list_index<'a>(&'a self, i: usize) -> (r: Option<&'a Statement>)
        ensures
            match *self {
                Statement::VarList(l) | Statement::ExprList(l) => if i < l@.len() {
                    r == Some(&*l@[i as int])
                } else {
                    r is None
                },
                _ => if i == 0 {
                    r == Some(self)
                } else {
                    r is None
                },
            },
    {
        match self {
            Statement::VarList(list) | Statement::ExprList(list) => {
                if list.len() > i {
                    Some(&*list[i])
                } else {
                    None
                }
            },
            _ => {
                if i == 0 {
                    Some(self)
                } else {
                    None
                }
            },
        }
    }

    /// The items of a variable or expression list; anything else is a list
    /// of itself alone.
    pub fn as_list<'a>(&'a self) -> (r: Vec<&'a Statement>)
        ensures
            match *self {
                Statement::VarList(l) | Statement::ExprList(l) => r@.len() == l@.len() && forall|k: int|
                    0 <= k < l@.len() ==> *(#[trigger] r@[k]) == *l@[k],
                _ => r@.len() == 1 && *r@[0] == *self,
            },
    {
        match self {
            Statement::ExprList(list) | Statement::VarList(list) => {
                let mut new_list: Vec<&Statement> = Vec::new();
                let mut i: usize = 0;
                while i < list.len()
                    invariant
                        i <= list@.len(),
                        new_list@.len() == i,
                        forall|k: int| 0 <= k < i ==> *(#[trigger] new_list@[k]) == *list@[k],
                    decreases list@.len() - i,
                {
                    new_list.push(&*list[i]);
                    i = i + 1;
                }
                new_list
            },
            _ => {
                let mut v: Vec<&Statement> = Vec::new();
                v.push(self);
                v
            },
        }
    }

    /// The three parts of a binary operation.
    pub fn explode_binary(self) -> (r: (Token, Statement, Statement))
        requires
            self is Binary,
        ensures
            self matches Statement::Binary(op, e1, e2) && r.0 == op && r.1 == *e1 && r.2 == *e2,
    {
        match self {
            Statement::Binary(op, ex1, ex2) => (op, *ex1, *ex2),
            _ => {
                proof {
                    assert(false);
                }
                (Token::simple(TokenType::Nil), Statement::Empty, Statement::Empty)
            },
        }
    }

    /// A unary operation of this operator on the expression.
    pub fn into_unary(self, expr: Statement) -> (r: Statement)
        requires
            spec_is_unop(self),
            spec_is_expr(expr),
        ensures
            self matches Statement::Token(t) && r == Statement::Unary(t, Box::new(expr)),
    {
        match self {
            Statement::Token(token) => Statement::Unary(token, Box::new(expr)),
            _ => {
                proof {
                    assert(false);
                }
                Statement::Empty
            },
        }
    }

    /// A binary operation of this operator on the two expressions. Where
    /// the first expression is itself a binary operation whose operator
    /// binds more loosely than this one, this one moves inside it, onto its
    /// second expression.
    pub fn into_binary(self, expr1: Statement, expr2: Statement) -> (r: Statement)
        requires
            spec_is_binop(self),
            spec_is_expr(expr1),
            spec_is_expr(expr2),
            self matches Statement::Token(t) ==> (expr1 matches Statement::Binary(op, _, _) ==> spec_oop(
                t.token_type,
            ) != 0 && spec_oop(op.token_type) != 0),
        ensures
            r == spec_into_binary(self, expr1, expr2),
            self matches Statement::Token(t) && match expr1 {
                Statement::Binary(op, a, b) => if spec_oop(t.token_type) < spec_oop(op.token_type) {
                    r == Statement::Binary(
                        op,
                        a,
                        Box::new(Statement::Binary(t, b, Box::new(expr2))),
                    )
                } else {
                    r == Statement::Binary(t, Box::new(expr1), Box::new(expr2))
                },
                _ => r == Statement::Binary(t, Box::new(expr1), Box::new(expr2)),
            },
    {
        match self {
            Statement::Token(token) => {
                let reorder = match &expr1 {
                    Statement::Binary(op, _, _) => TokenType::oop_binary(
                        token.get_type(),
                        op.get_type(),
                    ),
                    _ => false,
                };
                if reorder {
                    let (op, n_expr1, n_expr2) = expr1.explode_binary();
                    let inner = Statement::Binary(token, Box::new(n_expr2), Box::new(expr2));
                    return Statement::Binary(op, Box::new(n_expr1), Box::new(inner));
                }
                Statement::Binary(token, Box::new(expr1), Box::new(expr2))
            },
            _ => {
                proof {
                    assert(false);
                }
                Statement::Empty
            },
        }
    }

    /// A `do ... end` block of the statements, in reverse order.
    pub fn create_do_end(statements: Vec<Statement>) -> (r: Statement)
        ensures
            r matches Statement::DoEnd(l) && l@.len() == statements@.len() && forall|k: int|
                0 <= k < statements@.len() ==> *(#[trigger] l@[k]) == statements@[statements@.len() - 1 - k],
    {
        let mut rest = statements;
        let ghost s0 = rest@;
        let mut list: Vec<Box<Statement>> = Vec::new();
        while rest.len() > 0
            invariant
                list@.len() + rest@.len() == s0.len(),
                rest@ == s0.subrange(0, rest@.len() as int),
                forall|k: int| 0 <= k < list@.len() ==> *(#[trigger] list@[k]) == s0[s0.len() - 1 - k],
            decreases rest@.len(),
        {
            let last = rest.len() - 1;
            let s = rest.remove(last);
            list.push(Box::new(s));
        }
        Statement::DoEnd(list)
    }

    /// A field of the two statements: `Name = exp` where the first is a
    /// name, `[exp] = exp` where both are expressions, none otherwise.
    pub fn create_field(first: Statement, second: Statement) -> (r: Option<Statement>)
        ensures
            r == if spec_is_name(first) && spec_is_expr(second) {
                Some(Statement::FieldNamed(Box::new(first), Box::new(second)))
            } else if spec_is_expr(first) && spec_is_expr(second) {
                Some(Statement::FieldBracket(Box::new(first), Box::new(second)))
            } else {
                None::<Statement>
            },
    {
        if first.is_name() && second.is_expr() {
            Some(Statement::FieldNamed(Box::new(first), Box::new(second)))
        } else if first.is_expr() && second.is_expr() {
            Some(Statement::FieldBracket(Box::new(first), Box::new(second)))
        } else {
            None
        }
    }

    /// A list of the items: the item itself where it is the only one and a
    /// list; a name list where all are names; an expression list otherwise.
    pub fn create_list(items: Vec<Box<Statement>>) -> (r: Statement)
        ensures
            items@.len() == 1 && spec_is_a_list(*items@[0]) ==> r == *items@[0],
            !(items@.len() == 1 && spec_is_a_list(*items@[0])) && all_names(items@) ==> (r matches Statement::NameList(l)
                && l@.len() == items@.len() && forall|k: int|
                0 <= k < items@.len() ==> (#[trigger] l@[k])@ == name_text(*items@[k])),
            !(items@.len() == 1 && spec_is_a_list(*items@[0])) && !all_names(items@) ==> (r matches Statement::ExprList(l)
                && l@ == items@),
    {
        let mut items = items;
        if items.len() == 1 {
            if items[0].is_a_list() {
                return *(items.remove(0));
            }
        }
        let mut names_count: usize = 0;
        let mut i: usize = 0;
        while i < items.len()
            invariant
                i <= items@.len(),
                names_count <= i,
                (names_count == i) == (forall|k: int| 0 <= k < i ==> spec_is_name(*#[trigger] items@[k])),
            decreases items@.len() - i,
        {
            if items[i].is_name() {
                names_count = names_count + 1;
            }
            i = i + 1;
        }
        if names_count == items.len() {
            let mut strings: Vec<String> = Vec::new();
            let mut j: usize = 0;
            while j < items.len()
                invariant
                    j <= items@.len(),
                    all_names(items@),
                    strings@.len() == j,
                    forall|k: int| 0 <= k < j ==> (#[trigger] strings@[k])@ == name_text(*items@[k]),
                decreases items@.len() - j,
            {
                strings.push(items[j].as_name().to_owned());
                j = j + 1;
            }
            return Statement::NameList(strings);
        }
        Statement::ExprList(items)
    }

    /// The statement as a list (see `create_list`): lists stay as they are.
    pub fn into_list(self) -> (r: Statement)
        ensures
            spec_is_a_list(self) ==> r == self,
            !spec_is_a_list(self) && spec_is_name(self) ==> (r matches Statement::NameList(l) && l@.len() == 1
                && l@[0]@ == name_text(self)),
            !spec_is_a_list(self) && !spec_is_name(self) ==> (r matches Statement::ExprList(l) && l@.len() == 1
                && *l@[0] == self),
    {
        match self {
            Statement::VarList(_) | Statement::ExprList(_) | Statement::NameList(_) => self,
            statement => {
                let mut v: Vec<Box<Statement>> = Vec::new();
                v.push(Box::new(statement));
                Statement::create_list(v)
            },
        }
    }
}

impl Statement {
    /// The names of a name list, to change in place.
    pub fn as_namelist_mut<'a>(&'a mut self) -> (r: &'a mut Vec<String>)
        requires
            *old(self) is NameList,
        ensures
            *r == old(self)->NameList_0,
            *final(self) == Statement::NameList(*final(r)),
    {
        match self {
            Statement::NameList(list) => list,
            _ => vstd::pervasive::unreached(),
        }
    }

    /// The items of a variable or expression list, to change in place.
    pub fn as_list_mut<'a>(&'a mut self) -> (r: &'a mut Vec<Box<Statement>>)
        requires
            *old(self) is VarList || *old(self) is ExprList,
        ensures
            *old(self) matches Statement::VarList(l) ==> *r == l && *final(self) == Statement::VarList(*final(r)),
            *old(self) matches Statement::ExprList(l) ==> *r == l && *final(self) == Statement::ExprList(*final(r)),
    {
        match self {
            Statement::VarList(list) => list,
            Statement::ExprList(list) => list,
            _ => vstd::pervasive::unreached(),
        }
    }

    /// An assignment (local or not) of the expressions to the variables,
    /// both made into lists (see `into_list`) and the shorter padded to the
    /// length of the longer: expressions with `Empty`, variables with `Empty`
    /// or, in a name list, with the name `_`.
    pub fn create_assignment(in_vars: Statement, in_exprs: Statement, local: bool) -> (r: Statement)
        requires
            !(list_len(in_vars) > list_len(in_exprs) && lists_as_names(in_exprs)),
        ensures
            ({
                let n = if list_len(in_vars) >= list_len(in_exprs) {
                    list_len(in_vars)
                } else {
                    list_len(in_exprs)
                };
                if local {
                    r matches Statement::AssignmentLocal(v, e) && padded_list_of(in_vars, *v, n)
                        && padded_list_of(in_exprs, *e, n)
                } else {
                    r matches Statement::Assignment(v, e) && padded_list_of(in_vars, *v, n)
                        && padded_list_of(in_exprs, *e, n)
                }
            }),
    {
        let ghost v0 = in_vars;
        let ghost e0 = in_exprs;
        let mut vars = in_vars.into_list();
        let mut exprs = in_exprs.into_list();
        let ghost n: nat = if list_len(v0) >= list_len(e0) {
            list_len(v0)
        } else {
            list_len(e0)
        };
        proof {
            assert(spec_len(vars) == list_len(v0));
            assert(spec_len(exprs) == list_len(e0));
        }
        loop
            invariant
                spec_is_a_list(vars),
                spec_is_a_list(exprs),
                lists_as_names(v0) == (vars is NameList),
                lists_as_names(e0) == (exprs is NameList),
                list_len(v0) <= spec_len(vars) <= n,
                list_len(e0) <= spec_len(exprs) <= n,
                spec_len(vars) == list_len(v0) || spec_len(exprs) == list_len(e0),
                padded_list_of(v0, vars, spec_len(vars)),
                padded_list_of(e0, exprs, spec_len(exprs)),
                !(list_len(v0) > list_len(e0) && lists_as_names(e0)),
                n == if list_len(v0) >= list_len(e0) { list_len(v0) } else { list_len(e0) },
            ensures
                spec_len(vars) == n,
                spec_len(exprs) == n,
                padded_list_of(v0, vars, n),
                padded_list_of(e0, exprs, n),
            decreases 2 * n - spec_len(vars) - spec_len(exprs),
        {
            if vars.len() == exprs.len() {
                break;
            }
            if vars.len() > exprs.len() {
                exprs.as_list_mut().push(Box::new(Statement::Empty));
            } else {
                if vars.is_namelist() {
                    proof {
                        reveal_strlit("_");
                    }
                    let underscore = "_".to_owned();
                    assert(underscore@ =~= seq!['_']);
                    vars.as_namelist_mut().push(underscore);
                } else {
                    vars.as_list_mut().push(Box::new(Statement::Empty));
                }
            }
        }
        if local {
            Statement::AssignmentLocal(Box::new(vars), Box::new(exprs))
        } else {
            Statement::Assignment(Box::new(vars), Box::new(exprs))
        }
    }
}

/// How the statement kinds nest: a variable is an expression, an
/// expression is an expression list, a list of names is a variable list, a
/// variable list is an expression list, and an expression list is a field
/// list.
pub proof fn lemma_statement_kinds_nest(s: Statement)
    ensures
        spec_is_var(s) ==> spec_is_expr(s),
        spec_is_expr(s) ==> spec_is_exprlist(s),
        s is NameList ==> spec_is_varlist(s),
        spec_is_varlist(s) ==> spec_is_exprlist(s),
        spec_is_exprlist(s) ==> (spec_is_field(s) || spec_is_exprlist(s) || s is FieldList),
        spec_is_expr(s) ==> spec_is_field(s),
{
}

} // verus!

verus! {

// ---- tables and lists made of statements -----------------------------------

/// The parts of a table constructor: the items of a variable or expression
/// list; anything else is one part.
pub open spec fn table_parts(c: Statement) -> Seq<Statement> {
    match c {
        Statement::VarList(l) | Statement::ExprList(l) => l@.map_values(|b: Box<Statement>| *b),
        _ => seq![c],
    }
}

/// The value an assignment part gives its key: the first of its
/// expressions, or the expression itself where it is not a list.
pub open spec fn first_value(e: Statement) -> Statement {
    match e {
        Statement::VarList(l) | Statement::ExprList(l) => *l@[0],
        _ => e,
    }
}

/// An assignment part names at least one name and gives at least one
/// value.
pub open spec fn part_fits(p: Statement) -> bool {
    p matches Statement::Assignment(nl, el) ==> ((*nl matches Statement::NameList(names) && names@.len() > 0)
        && (*el matches Statement::VarList(l) ==> l@.len() > 0) && (*el matches Statement::ExprList(l)
        ==> l@.len() > 0))
}

/// The table the parts from `k` on make, from the table `m` made so far,
/// with `index` the number the next positional part gets: an assignment
/// part sets its first name (as a string key) to its first value; any
/// other part is set under the next number.
pub open spec fn build_model(parts: Seq<Statement>, k: int, index: nat, m: Seq<((bool, Seq<char>), Statement)>) -> Seq<((bool, Seq<char>), Statement)>
    decreases parts.len() - k,
{
    if k < 0 || k >= parts.len() {
        m
    } else {
        match parts[k] {
            Statement::Assignment(nl, el) => build_model(
                parts,
                k + 1,
                index,
                put_model(m, (false, nl->NameList_0@[0]@), first_value(*el)),
            ),
            p => build_model(parts, k + 1, index + 1, put_model(m, (true, decimal(index)), p)),
        }
    }
}

/// The boxed statements, unboxed, in order.
fn unbox_all(list: Vec<Box<Statement>>) -> (r: Vec<Statement>)
    ensures
        r@ == list@.map_values(|b: Box<Statement>| *b),
{
    let ghost l0 = list@;
    let mut list = list;
    let mut out: Vec<Statement> = Vec::new();
    while list.len() > 0
        invariant
            out@.len() + list@.len() == l0.len(),
            list@ == l0.subrange(out@.len() as int, l0.len() as int),
            out@ == l0.subrange(0, out@.len() as int).map_values(|b: Box<Statement>| *b),
        decreases list@.len(),
    {
        let ghost k = out@.len() as int;
        let b = list.remove(0);
        out.push(*b);
        assert(list@ =~= l0.subrange(k + 1, l0.len() as int));
        assert(out@ =~= l0.subrange(0, k + 1).map_values(|b: Box<Statement>| *b));
    }
    assert(l0.subrange(0, l0.len() as int) =~= l0);
    out
}

impl Statement {
    /// A table from a table constructor (see `build_model`). A lone name
    /// makes a table holding, under `1`, a name list of that name.
    pub fn create_table(constructor: Statement) -> (r: Statement)
        requires
            forall|k: int| 0 <= k < table_parts(constructor).len() ==> part_fits(
                #[trigger] table_parts(constructor)[k],
            ),
            table_parts(constructor).len() < i32::MAX,
        ensures
            spec_is_name(constructor) ==> (r matches Statement::Table(t) && t@.len() == 1 && key_view(t@[0].0)
                == (true, decimal(1)) && (t@[0].1 matches Statement::NameList(l) && l@.len() == 1
                && l@[0]@ == name_text(constructor))),
            !spec_is_name(constructor) ==> (r matches Statement::Table(t) && table_model(t@) == build_model(
                table_parts(constructor),
                0,
                1,
                Seq::empty(),
            )),
            r matches Statement::Table(t) && keys_unique(t@),
    {
        let ghost c = constructor;
        let parts = constructor.into_list();
        let ghost ps = table_parts(parts);
        assert(!spec_is_name(c) ==> ps == table_parts(c)) by {
            if !spec_is_name(c) && !spec_is_a_list(c) {
                assert(table_parts(parts) =~= table_parts(c));
            }
        }
        let mut items: Vec<Statement> = match parts {
            Statement::VarList(l) => unbox_all(l),
            Statement::ExprList(l) => unbox_all(l),
            other => {
                let mut v: Vec<Statement> = Vec::new();
                v.push(other);
                v
            },
        };
        assert(items@ =~= ps);
        let n = items.len();
        let mut map: Vec<(TableIndex, Statement)> = Vec::new();
        let mut index: usize = 1;
        assert(table_model(map@) =~= Seq::<((bool, Seq<char>), Statement)>::empty());
        while items.len() > 0
            invariant
                n == ps.len(),
                n < i32::MAX,
                items@.len() <= n,
                items@ == ps.subrange(n - items@.len(), n as int),
                forall|k: int| 0 <= k < ps.len() ==> part_fits(#[trigger] ps[k]),
                1 <= index <= n - items@.len() + 1,
                keys_unique(map@),
                build_model(ps, n - items@.len(), index as nat, table_model(map@)) == build_model(
                    ps,
                    0,
                    1,
                    Seq::empty(),
                ),
            decreases items@.len(),
        {
            let ghost k = n - items@.len();
            let ghost m0 = map@;
            let p = items.remove(0);
            assert(items@ =~= ps.subrange(k + 1, n as int));
            assert(p == ps[k]);
            assert(part_fits(ps[k]));
            match p {
                Statement::Assignment(namelist, exprlist) => {
                    let key = match *namelist {
                        Statement::NameList(names) => {
                            let mut names = names;
                            TableIndex::String(names.remove(0))
                        },
                        _ => {
                            proof {
                                assert(false);
                            }
                            TableIndex::String(String::new())
                        },
                    };
                    let value = match *exprlist {
                        Statement::VarList(l) => {
                            let mut l = l;
                            *l.remove(0)
                        },
                        Statement::ExprList(l) => {
                            let mut l = l;
                            *l.remove(0)
                        },
                        other => other,
                    };
                    proof {
                        assert(key_view(key) == (false, ps[k]->Assignment_0->NameList_0@[0]@));
                    }
                    table_insert(&mut map, key, value);
                    proof {
                        lemma_table_put_model(m0, key_view(key), value, map@);
                        lemma_table_put_keys(m0, key_view(key), value, map@);
                    }
                },
                part => {
                    let key = TableIndex::Number(decimal_string(index));
                    table_insert(&mut map, key, part);
                    proof {
                        lemma_table_put_model(m0, (true, decimal(index as nat)), part, map@);
                        lemma_table_put_keys(m0, (true, decimal(index as nat)), part, map@);
                    }
                    index = index + 1;
                },
            }
        }
        proof {
            assert(build_model(ps, n as int, index as nat, table_model(map@)) == table_model(map@));
            if spec_is_name(c) {
                let m1 = put_model(Seq::empty(), (true, decimal(1)), ps[0]);
                assert(ps.len() == 1);
                assert(build_model(ps, 1, 2, m1) == m1);
                assert(build_model(ps, 0, 1, Seq::empty()) == build_model(ps, 1, 2, m1));
                assert(m1 =~= seq![((true, decimal(1)), ps[0])]);
                assert(table_model(map@)[0] == (key_view(map@[0].0), map@[0].1));
            }
        }
        Statement::Table(map)
    }

    /// The items of a list: a variable, expression or access list as it
    /// is; a name list as its names, each a name token.
    pub fn explode_list(self) -> (r: Vec<Box<Statement>>)
        requires
            self is VarList || self is ExprList || self is ComplexVar || self is NameList,
        ensures
            self matches Statement::VarList(l) ==> r == l,
            self matches Statement::ExprList(l) ==> r == l,
            self matches Statement::ComplexVar(l) ==> r == l,
            self matches Statement::NameList(names) ==> r@.len() == names@.len() && forall|k: int|
                0 <= k < names@.len() ==> spec_is_name(*#[trigger] r@[k]) && name_text(*r@[k]) == names@[k]@,
        decreases if self is NameList { 1int } else { 0int },
    {
        match self {
            Statement::VarList(list) => list,
            Statement::ExprList(list) => list,
            Statement::ComplexVar(list) => list,
            Statement::NameList(_) => {
                let list = self.into_varlist();
                list.explode_list()
            },
            _ => {
                proof {
                    assert(false);
                }
                Vec::new()
            },
        }
    }

    /// A name list as a variable list of name tokens.
    fn into_varlist(self) -> (r: Statement)
        requires
            self is NameList,
        ensures
            r matches Statement::VarList(items) && self matches Statement::NameList(names) && items@.len()
                == names@.len() && forall|k: int|
                0 <= k < names@.len() ==> spec_is_name(*#[trigger] items@[k]) && name_text(*items@[k])
                    == names@[k]@,
    {
        let mut items: Vec<Box<Statement>> = Vec::new();
        let names = self.as_namelist();
        let mut i: usize = 0;
        while i < names.len()
            invariant
                i <= names@.len(),
                items@.len() == i,
                forall|k: int| 0 <= k < i ==> spec_is_name(*#[trigger] items@[k]) && name_text(*items@[k])
                    == names@[k]@,
            decreases names@.len() - i,
        {
            let token = Statement::Token(Token::simple(TokenType::Identifier(names[i].clone())));
            items.push(Box::new(token));
            i = i + 1;
        }
        Statement::VarList(items)
    }
}

} // verus!
