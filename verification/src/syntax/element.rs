//! The elements the syntax rules build: each is one piece of Lua's grammar,
//! holding the pieces it was made from.

use vstd::prelude::*;
use crate::codewrap::CodeWrappable;
use crate::token::{Token, TokenView, spec_token_text};
use crate::text::push_str;

verus! {

/// A piece of Lua's grammar.
pub enum SyntaxElement {
    /// A token not yet reduced.
    Token(Token),
    /// `varlist = explist`: the left and the right side.
    StatementAssign(Box<SyntaxElement>, Box<SyntaxElement>),
    /// `local namelist [= explist]`: the names and the values, if any.
    StatementLocalAssign(Box<SyntaxElement>, Option<Box<SyntaxElement>>),
    /// `do block end`.
    StatementDoEnd(Box<SyntaxElement>),
    /// `while exp do block end`: the condition and the block.
    StatementWhile(Box<SyntaxElement>, Box<SyntaxElement>),
    /// A last statement.
    StatementLast(Option<Box<SyntaxElement>>),
    /// `break`.
    StatementLastBreak,
    /// `return [explist]`.
    StatementLastReturn(Option<Box<SyntaxElement>>),
    /// `var {, var}`.
    VarList(Vec<Box<SyntaxElement>>),
    /// A name used as a variable.
    Var(Box<SyntaxElement>),
    /// `prefixexp . Name`: the left and the right.
    VarDot(Box<SyntaxElement>, Box<SyntaxElement>),
    /// `prefixexp [ exp ]`: the left and the index.
    VarIndex(Box<SyntaxElement>, Box<SyntaxElement>),
    /// `Name {, Name}`.
    NameList(Vec<Box<SyntaxElement>>),
    /// `exp {, exp}`.
    ExpList(Vec<Box<SyntaxElement>>),
    /// An expression.
    Exp(Box<SyntaxElement>),
    /// `exp binop exp`: the first expression, the operator, the second.
    Binop(Box<SyntaxElement>, Box<SyntaxElement>, Box<SyntaxElement>),
    /// `unop exp`: the operator and the expression.
    Unop(Box<SyntaxElement>, Box<SyntaxElement>),
    /// A prefix expression.
    PrefixExp(Box<SyntaxElement>),
    /// `{ fieldlist }`.
    TableConstructor(Box<SyntaxElement>),
    /// A field made of an expression.
    Field(Box<SyntaxElement>),
    /// `[ exp ] = exp` or `Name = exp`: the key and the value.
    FieldAssignment(Box<SyntaxElement>, Box<SyntaxElement>),
    /// `field {sep field}`.
    FieldList(Vec<Box<SyntaxElement>>),
    /// Statements in order.
    Chunk(Vec<Box<SyntaxElement>>),
    /// A block: a chunk.
    Block(Box<SyntaxElement>),
    /// A placeholder holding nothing.
    Empty,
}

impl CodeWrappable for SyntaxElement {}

/// The element is the token `t`.
pub open spec fn is_token_of(e: SyntaxElement, t: TokenView) -> bool {
    e matches SyntaxElement::Token(tok) && tok@ == t
}

/// The element is a name (an identifier token).
pub open spec fn spec_is_name(e: SyntaxElement) -> bool {
    e matches SyntaxElement::Token(tok) && tok@ is Identifier
}

/// The element is a variable (a plain one or `prefixexp . Name`).
pub open spec fn spec_is_var(e: SyntaxElement) -> bool {
    e is Var || e is VarDot
}

/// The element is a statement.
pub open spec fn spec_is_statement(e: SyntaxElement) -> bool {
    e is StatementAssign || e is StatementLocalAssign || e is StatementDoEnd
}

impl SyntaxElement {
    /// The element a variable wraps. Only for `Var`.
    pub fn ref_to_inside<'a>(&'a self) -> (r: &'a SyntaxElement)
        requires
            self is Var,
        ensures
            *r == *self->Var_0,
    {
        match self {
            SyntaxElement::Var(item) => item,
            _ => self,
        }
    }

    /// The token that ends the phrase the element opens: `end` for a
    /// `do ... end` block, `}` for a table. Only for those two.
    pub fn ending_token(&self) -> (r: Token)
        requires
            self is StatementDoEnd || self is TableConstructor,
        ensures
            r@ == if self is StatementDoEnd {
                TokenView::End
            } else {
                TokenView::RightMoustache
            },
    {
        match self {
            SyntaxElement::StatementDoEnd(_) => Token::End,
            _ => Token::RightMoustache,
        }
    }

    /// The element is the token `token`.
    pub fn does_match_token(&self, token: Token) -> (r: bool)
        ensures
            r == is_token_of(*self, token@),
    {
        match self {
            SyntaxElement::Token(this_token) => this_token.same_token(&token),
            _ => false,
        }
    }

    /// The element is a block.
    pub fn is_block(&self) -> (r: bool)
        ensures
            r == (self is Block),
    {
        match self {
            SyntaxElement::Block(_) => true,
            _ => false,
        }
    }

    /// The element is an expression.
    pub fn is_exp(&self) -> (r: bool)
        ensures
            r == (self is Exp),
    {
        match self {
            SyntaxElement::Exp(_) => true,
            _ => false,
        }
    }

    /// The element is an expression list.
    pub fn is_exp_list(&self) -> (r: bool)
        ensures
            r == (self is ExpList),
    {
        match self {
            SyntaxElement::ExpList(_) => true,
            _ => false,
        }
    }

    /// The element is a field.
    pub fn is_field(&self) -> (r: bool)
        ensures
            r == (self is Field || self is FieldAssignment),
    {
        match self {
            SyntaxElement::Field(_) | SyntaxElement::FieldAssignment(_, _) => true,
            _ => false,
        }
    }

    /// The element is a prefix expression.
    pub fn is_prefix_exp(&self) -> (r: bool)
        ensures
            r == (self is PrefixExp),
    {
        match self {
            SyntaxElement::PrefixExp(_) => true,
            _ => false,
        }
    }

    /// The element is a name.
    pub fn is_name(&self) -> (r: bool)
        ensures
            r == spec_is_name(*self),
    {
        match self {
            SyntaxElement::Token(Token::Identifier(_)) => true,
            _ => false,
        }
    }

    /// The element is a name list.
    pub fn is_name_list(&self) -> (r: bool)
        ensures
            r == (self is NameList),
    {
        match self {
            SyntaxElement::NameList(_) => true,
            _ => false,
        }
    }

    /// The element is a variable.
    pub fn is_var(&self) -> (r: bool)
        ensures
            r == spec_is_var(*self),
    {
        match self {
            SyntaxElement::Var(_) | SyntaxElement::VarDot(_, _) => true,
            _ => false,
        }
    }

    /// The element that an expression, a prefix expression or a variable
    /// wraps; `None` for other elements.
    pub fn insides_single_only<'a>(&'a self) -> (r: Option<&'a SyntaxElement>)
        ensures
            match *self {
                SyntaxElement::Exp(inside) | SyntaxElement::PrefixExp(inside)
                | SyntaxElement::Var(inside) => r == Some(&*inside),
                _ => r is None,
            },
    {
        match self {
            SyntaxElement::Exp(insides) => Some(&**insides),
            SyntaxElement::PrefixExp(insides) => Some(&**insides),
            SyntaxElement::Var(insides) => Some(&**insides),
            _ => None,
        }
    }

    /// The element is a variable list.
    pub fn is_var_list(&self) -> (r: bool)
        ensures
            r == (self is VarList),
    {
        match self {
            SyntaxElement::VarList(_) => true,
            _ => false,
        }
    }

    /// The element is a statement.
    pub fn is_statement(&self) -> (r: bool)
        ensures
            r == spec_is_statement(*self),
    {
        match self {
            SyntaxElement::StatementAssign(_, _) | SyntaxElement::StatementLocalAssign(_, _)
            | SyntaxElement::StatementDoEnd(_) => true,
            _ => false,
        }
    }

    /// The element is a table.
    pub fn is_table(&self) -> (r: bool)
        ensures
            r == (self is TableConstructor),
    {
        match self {
            SyntaxElement::TableConstructor(_) => true,
            _ => false,
        }
    }

    /// The element is a last statement.
    pub fn is_last_statement(&self) -> (r: bool)
        ensures
            r == (self is StatementLast),
    {
        match self {
            SyntaxElement::StatementLast(_) => true,
            _ => false,
        }
    }

    /// The name a variable wraps (`Ok`), or else the element itself (`Err`).
    pub fn convert_to_name(self) -> (r: Result<SyntaxElement, SyntaxElement>)
        ensures
            match self {
                SyntaxElement::Var(inside) => if spec_is_name(*inside) {
                    r == Ok::<SyntaxElement, SyntaxElement>(*inside)
                } else {
                    r == Err::<SyntaxElement, SyntaxElement>(self)
                },
                _ => r == Err::<SyntaxElement, SyntaxElement>(self),
            },
    {
        match self {
            SyntaxElement::Var(token) => {
                let insides = *token;
                if insides.is_name() {
                    Ok(insides)
                } else {
                    Err(SyntaxElement::Var(Box::new(insides)))
                }
            },
            other_element => Err(other_element),
        }
    }
}

/// How an element is shown: tokens as they are written, operations in
/// prefix form in parentheses, lists tagged with their kind.
pub open spec fn display(e: SyntaxElement) -> Seq<char>
    decreases e, 1int, 0int,
{
    match e {
        SyntaxElement::Token(t) => spec_token_text(t@),
        SyntaxElement::Binop(left, op, right) => "("@ + display(*op) + " "@ + display(*left) + " "@
            + display(*right) + ")"@,
        SyntaxElement::Unop(op, exp) => "("@ + display(*op) + " "@ + display(*exp) + ")"@,
        SyntaxElement::Exp(item) => display(*item),
        SyntaxElement::PrefixExp(item) => display(*item),
        SyntaxElement::ExpList(list) => "<Exp "@ + display_list(e, list@.len() as int, ", "@, ""@)
            + ">"@,
        SyntaxElement::Var(item) => display(*item),
        SyntaxElement::VarDot(left, right) => display(*left) + "."@ + display(*right),
        SyntaxElement::VarIndex(left, right) => display(*left) + "["@ + display(*right) + "]"@,
        SyntaxElement::VarList(list) => "<Var "@ + display_list(e, list@.len() as int, ", "@, ""@)
            + ">"@,
        SyntaxElement::StatementAssign(left, right) => "(= "@ + display(*left) + " "@ + display(
            *right,
        ) + ")"@,
        SyntaxElement::StatementDoEnd(block) => "(do\n"@ + display(*block) + "end)"@,
        SyntaxElement::Block(chunk) => display(*chunk),
        SyntaxElement::Chunk(statements) => display_list(e, statements@.len() as int, "\n"@, "  "@),
        SyntaxElement::FieldList(list) => "<Fields "@ + display_list(e, list@.len() as int, ", "@, ""@)
            + ">"@,
        SyntaxElement::FieldAssignment(left, right) => "(= "@ + display(*left) + " "@ + display(
            *right,
        ) + ")"@,
        SyntaxElement::Field(item) => display(*item),
        SyntaxElement::TableConstructor(list) => "(Table "@ + display(*list) + ")"@,
        SyntaxElement::NameList(list) => "<Name "@ + display_list(e, list@.len() as int, ", "@, ""@)
            + ">"@,
        SyntaxElement::StatementLocalAssign(left, Some(right)) => "(= local "@ + display(*left) + " "@
            + display(*right) + ")"@,
        SyntaxElement::StatementLocalAssign(left, None) => "(= local "@ + display(*left) + ")"@,
        _ => "SyntaxElement not defined!!"@,
    }
}

/// The first `n` items of the element's list, each shown after the padding
/// and followed by the divider.
pub open spec fn display_list(e: SyntaxElement, n: int, divider: Seq<char>, padding: Seq<char>) -> Seq<char>
    decreases e, 0int, n,
{
    match e {
        SyntaxElement::ExpList(l) | SyntaxElement::VarList(l) | SyntaxElement::FieldList(l)
        | SyntaxElement::NameList(l) | SyntaxElement::Chunk(l) => if n <= 0 || n > l@.len() {
            Seq::empty()
        } else {
            display_list(e, n - 1, divider, padding) + padding + display(*l@[n - 1]) + divider
        },
        _ => Seq::empty(),
    }
}

impl SyntaxElement {
    /// How the element is shown (see `display`).
    pub fn to_display_string(&self) -> (r: String)
        ensures
            r@ == display(*self),
        decreases self, 1int, 0int,
    {
        let mut s = String::new();
        match self {
            SyntaxElement::Token(token) => {
                return token.text();
            },
            SyntaxElement::Binop(left, op, right) => {
                push_str(&mut s, "(");
                push_str(&mut s, op.to_display_string().as_str());
                push_str(&mut s, " ");
                push_str(&mut s, left.to_display_string().as_str());
                push_str(&mut s, " ");
                push_str(&mut s, right.to_display_string().as_str());
                push_str(&mut s, ")");
            },
            SyntaxElement::Unop(op, exp) => {
                push_str(&mut s, "(");
                push_str(&mut s, op.to_display_string().as_str());
                push_str(&mut s, " ");
                push_str(&mut s, exp.to_display_string().as_str());
                push_str(&mut s, ")");
            },
            SyntaxElement::Exp(item) | SyntaxElement::PrefixExp(item) | SyntaxElement::Var(item)
            | SyntaxElement::Block(item) | SyntaxElement::Field(item) => {
                return item.to_display_string();
            },
            SyntaxElement::ExpList(_) => {
                push_str(&mut s, "<Exp ");
                push_str(&mut s, self.list_to_string(", ", "").as_str());
                push_str(&mut s, ">");
            },
            SyntaxElement::VarDot(left, right) => {
                push_str(&mut s, left.to_display_string().as_str());
                push_str(&mut s, ".");
                push_str(&mut s, right.to_display_string().as_str());
            },
            SyntaxElement::VarIndex(left, right) => {
                push_str(&mut s, left.to_display_string().as_str());
                push_str(&mut s, "[");
                push_str(&mut s, right.to_display_string().as_str());
                push_str(&mut s, "]");
            },
            SyntaxElement::VarList(_) => {
                push_str(&mut s, "<Var ");
                push_str(&mut s, self.list_to_string(", ", "").as_str());
                push_str(&mut s, ">");
            },
            SyntaxElement::StatementAssign(left, right) | SyntaxElement::FieldAssignment(left, right) => {
                push_str(&mut s, "(= ");
                push_str(&mut s, left.to_display_string().as_str());
                push_str(&mut s, " ");
                push_str(&mut s, right.to_display_string().as_str());
                push_str(&mut s, ")");
            },
            SyntaxElement::StatementDoEnd(block) => {
                push_str(&mut s, "(do\n");
                push_str(&mut s, block.to_display_string().as_str());
                push_str(&mut s, "end)");
            },
            SyntaxElement::Chunk(_) => {
                return self.list_to_string("\n", "  ");
            },
            SyntaxElement::FieldList(_) => {
                push_str(&mut s, "<Fields ");
                push_str(&mut s, self.list_to_string(", ", "").as_str());
                push_str(&mut s, ">");
            },
            SyntaxElement::TableConstructor(list) => {
                push_str(&mut s, "(Table ");
                push_str(&mut s, list.to_display_string().as_str());
                push_str(&mut s, ")");
            },
            SyntaxElement::NameList(_) => {
                push_str(&mut s, "<Name ");
                push_str(&mut s, self.list_to_string(", ", "").as_str());
                push_str(&mut s, ">");
            },
            SyntaxElement::StatementLocalAssign(left, Some(right)) => {
                push_str(&mut s, "(= local ");
                push_str(&mut s, left.to_display_string().as_str());
                push_str(&mut s, " ");
                push_str(&mut s, right.to_display_string().as_str());
                push_str(&mut s, ")");
            },
            SyntaxElement::StatementLocalAssign(left, None) => {
                push_str(&mut s, "(= local ");
                push_str(&mut s, left.to_display_string().as_str());
                push_str(&mut s, ")");
            },
            _ => {
                push_str(&mut s, "SyntaxElement not defined!!");
            },
        }
        s
    }

    /// The items of the element's list, each after the padding and followed
    /// by the divider.
    fn list_to_string(&self, divider: &str, padding: &str) -> (r: String)
        ensures
            r@ == display_list(*self, match *self {
                SyntaxElement::ExpList(l) | SyntaxElement::VarList(l) | SyntaxElement::FieldList(l)
                | SyntaxElement::NameList(l) | SyntaxElement::Chunk(l) => l@.len() as int,
                _ => 0int,
            }, divider@, padding@),
        decreases self, 0int, 0int,
    {
        let mut string = String::new();
        match self {
            SyntaxElement::ExpList(list) | SyntaxElement::VarList(list) | SyntaxElement::FieldList(list)
            | SyntaxElement::NameList(list) | SyntaxElement::Chunk(list) => {
                let mut i: usize = 0;
                while i < list.len()
                    invariant
                        i <= list@.len(),
                        string@ == display_list(*self, i as int, divider@, padding@),
                        match *self {
                            SyntaxElement::ExpList(l) | SyntaxElement::VarList(l)
                            | SyntaxElement::FieldList(l) | SyntaxElement::NameList(l)
                            | SyntaxElement::Chunk(l) => l == *list,
                            _ => false,
                        },
                    decreases list@.len() - i,
                {
                    push_str(&mut string, padding);
                    push_str(&mut string, list[i].to_display_string().as_str());
                    push_str(&mut string, divider);
                    i = i + 1;
                }
            },
            _ => {},
        }
        string
    }
}

} // verus!
