//! Elements: the organising shape the parser reduces tokens into.
//!
//! An element has a left and a right side, `( identifiers | elements )`.
//! The identifiers are tokens that say what kind of object the element is
//! (`+`, `if`, `then`, `end`, ...); the elements are its arguments, each an
//! element of its own. `x + 1` becomes `(+ | x, 1)`, and a lone token `x`
//! becomes `(x | )`. The predicates below check an element against the
//! grammar of Lua 5.1, one rule each.

use vstd::prelude::*;
use crate::coderef::CodeRef;
use crate::token::{Token, TokenView, CodeToken, spec_is_binop, spec_is_unop, spec_token_text};
use crate::text::push_str;
use crate::error::parser::ParserError;

verus! {

/// An element together with where it stands in the code.
pub type CodeElement = CodeRef<Element>;

/// The left side (identifying tokens) and the right side (arguments) of an
/// element.
pub struct Element {
    pub identifiers: Vec<CodeToken>,
    pub elements: Vec<Box<CodeElement>>,
}

/// What an element is, as a mathematical value: its tokens and its
/// arguments, each with its place in the code.
pub struct ElementView {
    pub identifiers: Seq<CodeRef<TokenView>>,
    pub elements: Seq<CodeRef<ElementView>>,
}

/// The views of a run of elements.
pub open spec fn views(s: Seq<CodeElement>) -> Seq<CodeRef<ElementView>> {
    s.map_values(|x: CodeElement| x@)
}

/// The first token of each element of a run.
pub open spec fn first_tokens(s: Seq<CodeRef<ElementView>>) -> Seq<CodeRef<TokenView>> {
    s.map_values(|x: CodeRef<ElementView>| x->item.identifiers[0])
}

/// A token wrapped in an element, at the token's place in the code.
pub open spec fn wrap_token(t: CodeRef<TokenView>) -> CodeRef<ElementView> {
    CodeRef::CodeRef {
        item: ElementView { identifiers: seq![t], elements: Seq::empty() },
        code_start: t->code_start,
        code_end: t->code_end,
        line_number: t->line_number,
    }
}

/// The element made of the tokens that `ids` wrap and of the arguments
/// `els`, placed from `code_start` to `code_end` on `line_number`.
pub open spec fn made(
    ids: Seq<CodeRef<ElementView>>,
    els: Seq<CodeRef<ElementView>>,
    code_start: usize,
    code_end: usize,
    line_number: usize,
) -> CodeRef<ElementView> {
    CodeRef::CodeRef {
        item: ElementView { identifiers: first_tokens(ids), elements: els },
        code_start,
        code_end,
        line_number,
    }
}

/// The view of an element.
pub open spec fn element_view(e: Element) -> ElementView
    decreases e, 1int, 0int,
{
    ElementView {
        identifiers: e.identifiers@.map_values(|t: CodeToken| t@),
        elements: elements_view(e, e.elements@.len() as int),
    }
}

/// The views of the first `n` arguments of an element.
pub open spec fn elements_view(e: Element, n: int) -> Seq<CodeRef<ElementView>>
    decreases e, 0int, n,
{
    if n <= 0 || n > e.elements@.len() {
        Seq::empty()
    } else {
        elements_view(e, n - 1).push(
            CodeRef::CodeRef {
                item: element_view(e.elements@[n - 1]->item),
                code_start: e.elements@[n - 1]->code_start,
                code_end: e.elements@[n - 1]->code_end,
                line_number: e.elements@[n - 1]->line_number,
            },
        )
    }
}

impl View for Element {
    type V = ElementView;

    open spec fn view(&self) -> ElementView {
        element_view(*self)
    }
}

proof fn lemma_elements_view(e: Element, n: int)
    requires
        0 <= n <= e.elements@.len(),
    ensures
        elements_view(e, n).len() == n,
        forall|i: int| 0 <= i < n ==> #[trigger] elements_view(e, n)[i] == e.elements@[i]@,
    decreases n,
{
    if n > 0 {
        lemma_elements_view(e, n - 1);
    }
}

/// The view of an element agrees with its parts.
pub proof fn lemma_view(e: &Element)
    ensures
        e@.identifiers.len() == e.identifiers@.len(),
        e@.elements.len() == e.elements@.len(),
        forall|i: int| 0 <= i < e.identifiers@.len() ==> #[trigger] e@.identifiers[i] == e.identifiers@[i]@,
        forall|i: int| 0 <= i < e.elements@.len() ==> #[trigger] e@.elements[i] == e.elements@[i]@,
{
    lemma_elements_view(*e, e.elements@.len() as int);
}

/// The number of elements in `s` that are names.
pub open spec fn count_names(s: Seq<CodeRef<ElementView>>) -> nat
    decreases s.len(),
{
    if s.len() == 0 {
        0
    } else {
        count_names(s.drop_last()) + if s.last()->item.is_name() {
            1nat
        } else {
            0nat
        }
    }
}

impl ElementView {
    // ---- views of the two sides ------------------------------------------

    /// The `i`-th identifying token.
    pub open spec fn id(&self, i: int) -> TokenView {
        self.identifiers[i]->item
    }

    /// The number of identifying tokens.
    pub open spec fn n_ids(&self) -> int {
        self.identifiers.len() as int
    }

    /// The number of arguments.
    pub open spec fn n_els(&self) -> int {
        self.elements.len() as int
    }

    // ---- predicates on a lone token --------------------------------------

    /// The element is a wrapped token: one identifier, no arguments.
    pub open spec fn is_token(&self) -> bool {
        self.n_ids() == 1 && self.n_els() == 0
    }

    /// The element is a wrapped identifier.
    pub open spec fn is_name(&self) -> bool {
        self.is_token() && self.id(0) is Identifier
    }

    /// The element is a wrapped string literal.
    pub open spec fn is_string(&self) -> bool {
        self.is_token() && (self.id(0) is String || self.id(0) is MultiLineString)
    }

    /// The element is a wrapped comment.
    pub open spec fn is_comment(&self) -> bool {
        self.is_token() && self.id(0) is Comment
    }

    /// The element is the wrapped token `t`.
    pub open spec fn matches_token(&self, t: TokenView) -> bool {
        self.is_token() && self.id(0) == t
    }

    /// The element is a wrapped unary operator.
    pub open spec fn is_unop_token(&self) -> bool {
        self.is_token() && spec_is_unop(self.id(0))
    }

    /// The element is a wrapped binary operator.
    pub open spec fn is_binop_token(&self) -> bool {
        self.is_token() && spec_is_binop(self.id(0))
    }

    /// namelist: `Name {, Name}`, a lone name or a list of names.
    pub open spec fn is_name_list(&self) -> bool {
        self.is_name() || (self.n_ids() == 0 && self.n_els() > 0 && forall|i: int|
            0 <= i < self.n_els() ==> (#[trigger] self.elements[i])->item.is_name())
    }

    /// parlist: `namelist [, ...]` or `...`.
    pub open spec fn is_par_list(&self) -> bool {
        ||| self.matches_token(TokenView::TriplePeriod)
        ||| self.is_name_list()
        ||| (self.n_ids() == 0 && self.n_els() == 2
            && self.elements[0]->item.is_name_list()
            && self.elements[1]->item.matches_token(TokenView::TriplePeriod))
    }

    /// funcname: `Name {. Name} [: Name]`. Past a lone name, the identifiers
    /// are periods with a period or a colon last, there is one more argument
    /// than identifiers, and as many of the arguments are names as there are
    /// identifiers.
    pub open spec fn is_func_name(&self) -> bool {
        ||| self.is_name()
        ||| (self.n_ids() > 0 && self.n_els() == self.n_ids() + 1
            && count_names(self.elements) == self.n_ids()
            && (forall|i: int| 0 <= i < self.n_ids() - 1 ==> #[trigger] self.id(i) == TokenView::Period)
            && (self.id(self.n_ids() - 1) == TokenView::Period
                || self.id(self.n_ids() - 1) == TokenView::Colon))
    }

    // ---- the grammar (mutually recursive) --------------------------------

    /// var: `Name`, `prefixexp [ exp ]` or `prefixexp . Name`.
    pub open spec fn is_var(&self) -> bool
        decreases self, 0int,
    {
        ||| self.is_name()
        ||| (self.n_ids() == 2 && self.n_els() == 2 && self.id(0) == TokenView::LeftBracket
            && self.id(1) == TokenView::RightBracket
            && self.elements[0]->item.is_prefix_exp()
            && self.elements[1]->item.is_exp())
        ||| (self.n_ids() == 1 && self.n_els() == 2 && self.id(0) == TokenView::Period
            && self.elements[0]->item.is_prefix_exp()
            && self.elements[1]->item.is_name())
    }

    /// functioncall: `prefixexp args`, or `prefixexp : Name args`.
    pub open spec fn is_function_call(&self) -> bool
        decreases self, 0int,
    {
        ||| (self.n_ids() == 0 && self.n_els() == 2
            && self.elements[0]->item.is_prefix_exp()
            && self.elements[1]->item.is_args())
        ||| (self.n_ids() == 1 && self.n_els() == 3 && self.id(0) == TokenView::Colon
            && self.elements[0]->item.is_prefix_exp()
            && self.elements[1]->item.is_name()
            && self.elements[2]->item.is_args())
    }

    /// funcbody: `( [parlist] ) block end`.
    pub open spec fn is_func_body(&self) -> bool
        decreases self, 0int,
    {
        &&& self.n_ids() == 3
        &&& self.id(0) == TokenView::LeftParen
        &&& self.id(1) == TokenView::RightParen
        &&& self.id(2) == TokenView::End
        &&& ((self.n_els() == 1 && self.elements[0]->item.is_block())
            || (self.n_els() == 2 && self.elements[0]->item.is_par_list()
                && self.elements[1]->item.is_block()))
    }

    /// function: `function funcbody`.
    pub open spec fn is_function(&self) -> bool
        decreases self, 0int,
    {
        self.n_ids() == 1 && self.n_els() == 1 && self.id(0) == TokenView::Function
            && self.elements[0]->item.is_func_body()
    }

    /// tableconstructor: `{ [fieldlist] }`.
    pub open spec fn is_table_constructor(&self) -> bool
        decreases self, 0int,
    {
        &&& self.n_ids() == 2
        &&& self.id(0) == TokenView::LeftMoustache
        &&& self.id(1) == TokenView::RightMoustache
        &&& (self.n_els() == 0 || (self.n_els() == 1
            && self.elements[0]->item.is_field_list()))
    }

    /// laststat: `return [explist]` or `break`.
    pub open spec fn is_last_statement(&self) -> bool
        decreases self, 0int,
    {
        ||| self.matches_token(TokenView::Return)
        ||| self.matches_token(TokenView::Break)
        ||| (self.n_ids() == 1 && self.n_els() == 1 && self.id(0) == TokenView::Return
            && self.elements[0]->item.is_exp_list())
    }

    /// chunk: `{stat} [laststat]`, at least one argument, all statements
    /// but the last, which is a statement or a last statement.
    pub open spec fn is_chunk(&self) -> bool
        decreases self, 0int,
    {
        &&& self.n_ids() == 0
        &&& self.n_els() > 0
        &&& forall|i: int|
            0 <= i < self.n_els() - 1 ==> (#[trigger] self.elements[i])->item.is_statement()
        &&& (self.elements[self.n_els() - 1]->item.is_statement()
            || self.elements[self.n_els() - 1]->item.is_last_statement())
    }

    /// prefixexp: `var`, `functioncall` or `( exp )`.
    pub open spec fn is_prefix_exp(&self) -> bool
        decreases self, 1int,
    {
        ||| self.is_var()
        ||| self.is_function_call()
        ||| (self.n_ids() == 2 && self.n_els() == 1 && self.id(0) == TokenView::LeftParen
            && self.id(1) == TokenView::RightParen && self.elements[0]->item.is_exp())
    }

    /// args: `( [explist] )`, a table constructor or a string.
    pub open spec fn is_args(&self) -> bool
        decreases self, 1int,
    {
        ||| self.is_string()
        ||| self.is_table_constructor()
        ||| (self.n_ids() == 2 && self.id(0) == TokenView::LeftParen
            && self.id(1) == TokenView::RightParen && (self.n_els() == 0 || (self.n_els() == 1
            && self.elements[0]->item.is_exp_list())))
    }

    /// varlist: a lone var or a list of vars.
    pub open spec fn is_var_list(&self) -> bool
        decreases self, 1int,
    {
        self.is_var() || (self.n_ids() == 0 && self.n_els() > 0 && forall|i: int|
            0 <= i < self.n_els() ==> (#[trigger] self.elements[i])->item.is_var())
    }

    /// block: a chunk.
    pub open spec fn is_block(&self) -> bool
        decreases self, 1int,
    {
        self.is_chunk()
    }

    /// stat, the forms of Lua 5.1 (a comment counts as one too).
    pub open spec fn is_statement(&self) -> bool
        decreases self, 1int,
    {
        let n = self.n_ids();
        let m = self.n_els();
        ||| (n == 1 && m == 2 && self.id(0) == TokenView::Equal
            && self.elements[0]->item.is_var_list()
            && self.elements[1]->item.is_exp_list())
        ||| self.is_function_call()
        ||| self.is_comment()
        ||| (n == 2 && m == 1 && self.id(0) == TokenView::Do && self.id(1) == TokenView::End
            && self.elements[0]->item.is_block())
        ||| (n == 3 && m == 2 && self.id(0) == TokenView::While && self.id(1) == TokenView::Do
            && self.id(2) == TokenView::End && self.elements[0]->item.is_exp()
            && self.elements[1]->item.is_block())
        ||| (n == 2 && m == 2 && self.id(0) == TokenView::Repeat
            && self.id(1) == TokenView::Until && self.elements[0]->item.is_block()
            && self.elements[1]->item.is_exp())
        ||| (n >= 3 && m >= 2 && self.id(0) == TokenView::If && self.id(1) == TokenView::Then
            && self.id(n - 1) == TokenView::End && self.elements[0]->item.is_exp()
            && self.elements[m - 1]->item.is_block())
        ||| (n >= 4 && m >= 4 && self.id(0) == TokenView::For && self.id(1) == TokenView::Equal
            && self.id(2) == TokenView::Comma && self.id(n - 1) == TokenView::End
            && self.id(n - 2) == TokenView::Do && self.elements[0]->item.is_name()
            && self.elements[1]->item.is_exp() && self.elements[2]->item.is_exp()
            && self.elements[m - 1]->item.is_block())
        ||| (n == 4 && m == 3 && self.id(0) == TokenView::For && self.id(1) == TokenView::In
            && self.id(2) == TokenView::Do && self.id(3) == TokenView::End
            && self.elements[0]->item.is_name_list()
            && self.elements[1]->item.is_exp_list()
            && self.elements[2]->item.is_block())
        ||| (n == 1 && m == 2 && self.id(0) == TokenView::Function
            && self.elements[0]->item.is_func_name()
            && self.elements[1]->item.is_func_body())
        ||| (n == 2 && m == 2 && self.id(0) == TokenView::Local
            && self.id(1) == TokenView::Function && self.elements[0]->item.is_func_name()
            && self.elements[1]->item.is_func_body())
        ||| (n == 2 && m == 2 && self.id(0) == TokenView::Local && self.id(1) == TokenView::Equal
            && self.elements[0]->item.is_name_list()
            && self.elements[1]->item.is_exp_list())
        ||| (n == 1 && m == 1 && self.id(0) == TokenView::Local
            && self.elements[0]->item.is_name_list())
    }

    /// exp: a literal, `...`, a function, a prefixexp, a table constructor,
    /// `exp binop exp` or `unop exp`.
    pub open spec fn is_exp(&self) -> bool
        decreases self, 2int,
    {
        ||| (self.is_token() && (self.id(0) is Nil || self.id(0) is False
            || self.id(0) is True || self.id(0) is Number || self.id(0) is String
            || self.id(0) is TriplePeriod || self.id(0) is MultiLineString))
        ||| self.is_prefix_exp()
        ||| self.is_function()
        ||| self.is_table_constructor()
        ||| (self.n_ids() == 1 && self.n_els() == 2 && spec_is_binop(self.id(0))
            && self.elements[0]->item.is_exp() && self.elements[1]->item.is_exp())
        ||| (self.n_ids() == 1 && self.n_els() == 1 && spec_is_unop(self.id(0))
            && self.elements[0]->item.is_exp())
    }

    /// explist: a lone exp or a list of exps.
    pub open spec fn is_exp_list(&self) -> bool
        decreases self, 3int,
    {
        self.is_exp() || (self.n_ids() == 0 && self.n_els() > 0 && forall|i: int|
            0 <= i < self.n_els() ==> (#[trigger] self.elements[i])->item.is_exp())
    }

    /// field: `[ exp ] = exp`, `Name = exp` or `exp`.
    pub open spec fn is_field(&self) -> bool
        decreases self, 3int,
    {
        ||| self.is_exp()
        ||| (self.n_ids() == 1 && self.n_els() == 2 && self.id(0) == TokenView::Equal
            && self.elements[0]->item.is_name() && self.elements[1]->item.is_exp())
        ||| (self.n_ids() == 3 && self.n_els() == 2 && self.id(0) == TokenView::LeftBracket
            && self.id(1) == TokenView::RightBracket && self.id(2) == TokenView::Equal
            && self.elements[0]->item.is_exp() && self.elements[1]->item.is_exp())
    }

    /// fieldlist: a lone field or a list of fields.
    pub open spec fn is_field_list(&self) -> bool
        decreases self, 4int,
    {
        self.is_field() || (self.n_ids() == 0 && self.n_els() > 0 && forall|i: int|
            0 <= i < self.n_els() ==> (#[trigger] self.elements[i])->item.is_field())
    }
}

impl Element {
    /// An element with nothing on either side.
    pub fn new() -> (r: Element)
        ensures
            r.identifiers@.len() == 0,
            r.elements@.len() == 0,
    {
        Element { identifiers: Vec::new(), elements: Vec::new() }
    }

    /// The element made of the tokens that `ids` wrap, in order, and of the
    /// elements `els`, in order. Fails when one of `ids` is not a wrapped
    /// token.
    pub fn create(ids: Vec<CodeElement>, els: Vec<CodeElement>) -> (r: Result<Element, ParserError>)
        ensures
            r is Ok <==> (forall|i: int| 0 <= i < ids@.len() ==> (#[trigger] ids@[i])->item@.is_token()),
            r matches Ok(e) ==> {
                &&& e.identifiers@.len() == ids@.len()
                &&& forall|i: int| 0 <= i < ids@.len() ==> #[trigger] e.identifiers@[i] == ids@[i]->item.identifiers@[0]
                &&& e.elements@.len() == els@.len()
                &&& forall|i: int| 0 <= i < els@.len() ==> *(#[trigger] e.elements@[i]) == els@[i]
            },
            r matches Ok(e) ==> e@.identifiers == first_tokens(views(ids@)) && e@.elements
                == views(els@),
            r matches Err(err) ==> err matches ParserError::GEN(d)
                && d@ == "error making element::Element, element isn't a token"@,
    {
        let mut rest_ids = ids;
        let mut rest_els = els;
        let ghost ids0 = rest_ids@;
        let ghost els0 = rest_els@;
        let mut identifiers: Vec<CodeToken> = Vec::new();
        while rest_ids.len() > 0
            invariant
                ids0 == ids@,
                identifiers@.len() + rest_ids@.len() == ids0.len(),
                rest_ids@ == ids0.subrange(identifiers@.len() as int, ids0.len() as int),
                forall|i: int| 0 <= i < identifiers@.len() ==> (#[trigger] ids0[i])->item@.is_token()
                    && identifiers@[i] == ids0[i]->item.identifiers@[0],
            decreases rest_ids.len(),
        {
            let small_element = rest_ids.remove(0);
            let ghost k = identifiers@.len() as int;
            assert(small_element == ids0[k]);
            let inner = small_element.unwrap();
            if let Some(token) = inner.consume_to_token() {
                identifiers.push(token);
            } else {
                assert(!ids@[k]->item@.is_token());
                return Err(ParserError::general("error making element::Element, element isn't a token"));
            }
        }
        let mut elements: Vec<Box<CodeElement>> = Vec::new();
        while rest_els.len() > 0
            invariant
                els0 == els@,
                elements@.len() + rest_els@.len() == els0.len(),
                rest_els@ == els0.subrange(elements@.len() as int, els0.len() as int),
                forall|i: int| 0 <= i < elements@.len() ==> *(#[trigger] elements@[i]) == els0[i],
            decreases rest_els.len(),
        {
            let e = rest_els.remove(0);
            elements.push(Box::new(e));
        }
        let r = Element { identifiers, elements };
        proof {
            lemma_view(&r);
            assert(r@.identifiers =~= first_tokens(views(ids@)));
            assert(r@.elements =~= views(els@));
        }
        Ok(r)
    }

    /// The token wrapped in an element, at the token's place in the code.
    pub fn codeelement_from_token(token: CodeToken) -> (r: CodeElement)
        ensures
            r->item.identifiers@ == seq![token],
            r->item.elements@.len() == 0,
            r->code_start == token->code_start,
            r->code_end == token->code_end,
            r->line_number == token->line_number,
            r@ == wrap_token(token@),
    {
        let cs = token.code_start();
        let ce = token.code_end();
        let ln = token.line_number();
        let mut identifiers: Vec<CodeToken> = Vec::new();
        identifiers.push(token);
        let new_item = Element { identifiers, elements: Vec::new() };
        proof {
            lemma_view(&new_item);
            assert(new_item@.identifiers =~= seq![token@]);
            assert(new_item@.elements =~= Seq::<CodeRef<ElementView>>::empty());
        }
        CodeRef::CodeRef { item: new_item, code_end: ce, code_start: cs, line_number: ln }
    }

    /// Adds an argument at the end of the right side.
    pub fn add_to_elements(&mut self, element: CodeElement)
        ensures
            final(self).identifiers@ == old(self).identifiers@,
            final(self).elements@.len() == old(self).elements@.len() + 1,
            forall|i: int| 0 <= i < old(self).elements@.len() ==> final(self).elements@[i] == old(self).elements@[i],
            *final(self).elements@[old(self).elements@.len() as int] == element,
    {
        self.elements.push(Box::new(element));
    }

    /// The `i`-th identifier is the token `t`.
    fn id_is(&self, i: usize, t: Token) -> (r: bool)
        requires
            i < self.identifiers@.len(),
        ensures
            r == (self@.id(i as int) == t@),
    {
        proof {
            lemma_view(self);
        }
        self.identifiers[i].i().same_token(&t)
    }

    /// The element is a wrapped token.
    pub fn is_token(&self) -> (r: bool)
        ensures
            r == self@.is_token(),
    {
        proof {
            lemma_view(self);
        }
        self.identifiers.len() == 1 && self.elements.len() == 0
    }

    /// The wrapped token, if the element is one.
    pub fn get_token<'a>(&'a self) -> (r: Option<&'a CodeToken>)
        ensures
            match r {
                Some(t) => self@.is_token() && *t == self.identifiers@[0],
                None => !self@.is_token(),
            },
    {
        proof {
            lemma_view(self);
        }
        if self.is_token() {
            Some(&self.identifiers[0])
        } else {
            None
        }
    }

    /// The wrapped token, taken out of the element, if the element is one.
    pub fn consume_to_token(self) -> (r: Option<CodeToken>)
        ensures
            match r {
                Some(t) => self@.is_token() && t == self.identifiers@[0],
                None => !self@.is_token(),
            },
    {
        proof {
            lemma_view(&self);
        }
        if self.is_token() {
            let Element { mut identifiers, elements: _ } = self;
            Some(identifiers.remove(0))
        } else {
            None
        }
    }

    /// The element is the wrapped token `token`.
    pub fn matches_token(&self, token: Token) -> (r: bool)
        ensures
            r == self@.matches_token(token@),
    {
        proof {
            lemma_view(self);
        }
        match self.get_token() {
            Some(inside_token) => inside_token.i().same_token(&token),
            None => false,
        }
    }

    /// The element is a wrapped identifier.
    pub fn is_name(&self) -> (r: bool)
        ensures
            r == self@.is_name(),
    {
        proof {
            lemma_view(self);
        }
        match self.get_token() {
            Some(token) => match token.item() {
                Token::Identifier(_) => true,
                _ => false,
            },
            None => false,
        }
    }

    /// The element is a wrapped string literal.
    pub fn is_string(&self) -> (r: bool)
        ensures
            r == self@.is_string(),
    {
        proof {
            lemma_view(self);
        }
        match self.get_token() {
            Some(token) => match token.i() {
                Token::String(_) | Token::MultiLineString(_) => true,
                _ => false,
            },
            None => false,
        }
    }

    /// The element is a wrapped comment.
    pub fn is_comment(&self) -> (r: bool)
        ensures
            r == self@.is_comment(),
    {
        proof {
            lemma_view(self);
        }
        match self.get_token() {
            Some(token) => match token.item() {
                Token::Comment(_) => true,
                _ => false,
            },
            None => false,
        }
    }

    /// The element is a wrapped unary operator.
    pub fn is_unop_token(&self) -> (r: bool)
        ensures
            r == self@.is_unop_token(),
    {
        proof {
            lemma_view(self);
        }
        match self.get_token() {
            Some(token) => token.item().is_unop(),
            None => false,
        }
    }

    /// The element is a wrapped binary operator.
    pub fn is_binop_token(&self) -> (r: bool)
        ensures
            r == self@.is_binop_token(),
    {
        proof {
            lemma_view(self);
        }
        match self.get_token() {
            Some(token) => token.item().is_binop(),
            None => false,
        }
    }

    /// namelist.
    pub fn is_name_list(&self) -> (r: bool)
        ensures
            r == self@.is_name_list(),
    {
        proof {
            lemma_view(self);
        }
        if self.is_name() {
            return true;
        }
        if self.identifiers.len() == 0 && self.elements.len() > 0 {
            let mut i: usize = 0;
            while i < self.elements.len()
                invariant
                    self@.elements.len() == self.elements@.len(),
                    i <= self.elements@.len(),
                    !self@.is_name(),
                    forall|j: int| 0 <= j < i ==> (#[trigger] self@.elements[j])->item.is_name(),
                decreases self.elements@.len() - i,
            {
                proof {
                    lemma_view(self);
                }
                if !self.elements[i].i().is_name() {
                    assert(!self@.elements[i as int]->item.is_name());
                    return false;
                }
                i = i + 1;
            }
            return true;
        }
        false
    }

    /// parlist.
    pub fn is_par_list(&self) -> (r: bool)
        ensures
            r == self@.is_par_list(),
    {
        proof {
            lemma_view(self);
        }
        if self.matches_token(Token::TriplePeriod) {
            return true;
        }
        if self.is_name_list() {
            return true;
        }
        self.identifiers.len() == 0 && self.elements.len() == 2
            && self.elements[0].i().is_name_list()
            && self.elements[1].i().matches_token(Token::TriplePeriod)
    }

    /// funcname.
    pub fn is_func_name(&self) -> (r: bool)
        ensures
            r == self@.is_func_name(),
    {
        proof {
            lemma_view(self);
        }
        if self.is_name() {
            return true;
        }
        let n = self.identifiers.len();
        if n > 0 && self.elements.len() > 0 && self.elements.len() - 1 == n {
            let mut names: usize = 0;
            let mut i: usize = 0;
            while i < self.elements.len()
                invariant
                    self@.elements.len() == self.elements@.len(),
                    i <= self.elements@.len(),
                    names == count_names(self@.elements.take(i as int)),
                    names <= i,
                decreases self.elements@.len() - i,
            {
                proof {
                    lemma_view(self);
                }
                proof {
                    assert(self@.elements.take(i + 1).drop_last() =~= self@.elements.take(i as int));
                }
                if self.elements[i].i().is_name() {
                    names = names + 1;
                }
                i = i + 1;
            }
            assert(self@.elements.take(i as int) =~= self@.elements);
            let mut periods_ok = true;
            let mut k: usize = 0;
            while k < n - 1
                invariant
                    n == self.identifiers@.len(),
                    n > 0,
                    k <= n - 1,
                    periods_ok == forall|j: int| 0 <= j < k ==> #[trigger] self@.id(j) == TokenView::Period,
                decreases n - 1 - k,
            {
                if !self.id_is(k, Token::Period) {
                    periods_ok = false;
                }
                k = k + 1;
            }
            let last_ok = self.id_is(n - 1, Token::Period) || self.id_is(n - 1, Token::Colon);
            return names == n && periods_ok && last_ok;
        }
        false
    }
}

impl Element {
    /// var: `Name`, `prefixexp [ exp ]` or `prefixexp . Name`.
    pub fn is_var(&self) -> (r: bool)
        ensures
            r == self@.is_var(),
        decreases self, 0int,
    {
        proof {
            lemma_view(self);
        }
        if self.is_name() {
            return true;
        }
        let n = self.identifiers.len();
        let m = self.elements.len();
        if n == 2 && m == 2 {
            if self.id_is(0, Token::LeftBracket) && self.id_is(1, Token::RightBracket)
                && self.elements[0].i().is_prefix_exp() && self.elements[1].i().is_exp() {
                return true;
            }
        }
        if n == 1 && m == 2 {
            if self.id_is(0, Token::Period) && self.elements[0].i().is_prefix_exp()
                && self.elements[1].i().is_name() {
                return true;
            }
        }
        false
    }

    /// functioncall: `prefixexp args` or `prefixexp : Name args`.
    pub fn is_function_call(&self) -> (r: bool)
        ensures
            r == self@.is_function_call(),
        decreases self, 0int,
    {
        proof {
            lemma_view(self);
        }
        let n = self.identifiers.len();
        let m = self.elements.len();
        if n == 0 && m == 2 {
            if self.elements[0].i().is_prefix_exp() && self.elements[1].i().is_args() {
                return true;
            }
        }
        if n == 1 && m == 3 {
            if self.id_is(0, Token::Colon) && self.elements[0].i().is_prefix_exp()
                && self.elements[1].i().is_name() && self.elements[2].i().is_args() {
                return true;
            }
        }
        false
    }

    /// funcbody: `( [parlist] ) block end`.
    pub fn is_func_body(&self) -> (r: bool)
        ensures
            r == self@.is_func_body(),
        decreases self, 0int,
    {
        proof {
            lemma_view(self);
        }
        let n = self.identifiers.len();
        let m = self.elements.len();
        if n == 3 && m == 1 {
            if self.id_is(0, Token::LeftParen) && self.id_is(1, Token::RightParen) && self.id_is(
                2,
                Token::End,
            ) && self.elements[0].i().is_block() {
                return true;
            }
        }
        if n == 3 && m == 2 {
            if self.id_is(0, Token::LeftParen) && self.id_is(1, Token::RightParen) && self.id_is(
                2,
                Token::End,
            ) && self.elements[0].i().is_par_list() && self.elements[1].i().is_block() {
                return true;
            }
        }
        false
    }

    /// function: `function funcbody`.
    pub fn is_function(&self) -> (r: bool)
        ensures
            r == self@.is_function(),
        decreases self, 0int,
    {
        proof {
            lemma_view(self);
        }
        self.identifiers.len() == 1 && self.elements.len() == 1 && self.id_is(0, Token::Function)
            && self.elements[0].i().is_func_body()
    }

    /// tableconstructor: `{ [fieldlist] }`.
    pub fn is_table_constructor(&self) -> (r: bool)
        ensures
            r == self@.is_table_constructor(),
        decreases self, 0int,
    {
        proof {
            lemma_view(self);
        }
        let n = self.identifiers.len();
        let m = self.elements.len();
        if n == 2 && m == 0 {
            if self.id_is(0, Token::LeftMoustache) && self.id_is(1, Token::RightMoustache) {
                return true;
            }
        }
        if n == 2 && m == 1 {
            if self.id_is(0, Token::LeftMoustache) && self.id_is(1, Token::RightMoustache)
                && self.elements[0].i().is_field_list() {
                return true;
            }
        }
        false
    }

    /// laststat: `return [explist]` or `break`.
    pub fn is_last_statement(&self) -> (r: bool)
        ensures
            r == self@.is_last_statement(),
        decreases self, 0int,
    {
        proof {
            lemma_view(self);
        }
        if let Some(token) = self.get_token() {
            match token.item() {
                Token::Return | Token::Break => return true,
                _ => {},
            }
        }
        if self.identifiers.len() == 1 && self.elements.len() == 1 {
            if self.id_is(0, Token::Return) && self.elements[0].i().is_exp_list() {
                return true;
            }
        }
        false
    }

    /// chunk: statements, the last of which may be a last statement.
    pub fn is_chunk(&self) -> (r: bool)
        ensures
            r == self@.is_chunk(),
        decreases self, 0int,
    {
        proof {
            lemma_view(self);
        }
        let m = self.elements.len();
        if self.identifiers.len() == 0 && m > 0 {
            let mut i: usize = 0;
            while i < m - 1
                invariant
                    self@.elements.len() == self.elements@.len(),
                    m == self.elements@.len(),
                    m > 0,
                    i <= m - 1,
                    forall|j: int| 0 <= j < i ==> (#[trigger] self@.elements[j])->item.is_statement(),
                decreases m - 1 - i,
            {
                proof {
                    lemma_view(self);
                }
                if !self.elements[i].i().is_statement() {
                    assert(!self@.elements[i as int]->item.is_statement());
                    return false;
                }
                i = i + 1;
            }
            if self.elements[m - 1].i().is_statement() || self.elements[m - 1].i().is_last_statement() {
                return true;
            }
        }
        false
    }

    /// prefixexp: `var`, `functioncall` or `( exp )`.
    pub fn is_prefix_exp(&self) -> (r: bool)
        ensures
            r == self@.is_prefix_exp(),
        decreases self, 1int,
    {
        proof {
            lemma_view(self);
        }
        if self.is_var() {
            return true;
        }
        if self.is_function_call() {
            return true;
        }
        if self.identifiers.len() == 2 && self.elements.len() == 1 {
            if self.id_is(0, Token::LeftParen) && self.id_is(1, Token::RightParen)
                && self.elements[0].i().is_exp() {
                return true;
            }
        }
        false
    }

    /// args: `( [explist] )`, a table constructor or a string.
    pub fn is_args(&self) -> (r: bool)
        ensures
            r == self@.is_args(),
        decreases self, 1int,
    {
        proof {
            lemma_view(self);
        }
        if self.is_string() {
            return true;
        }
        if self.is_table_constructor() {
            return true;
        }
        if self.identifiers.len() == 2 {
            if self.id_is(0, Token::LeftParen) && self.id_is(1, Token::RightParen) {
                if self.elements.len() == 0 {
                    return true;
                } else if self.elements.len() == 1 {
                    return self.elements[0].i().is_exp_list();
                }
            }
        }
        false
    }

    /// varlist: a lone var or a list of vars.
    pub fn is_var_list(&self) -> (r: bool)
        ensures
            r == self@.is_var_list(),
        decreases self, 1int,
    {
        proof {
            lemma_view(self);
        }
        if self.is_var() {
            return true;
        }
        if self.identifiers.len() == 0 && self.elements.len() > 0 {
            let mut i: usize = 0;
            while i < self.elements.len()
                invariant
                    self@.elements.len() == self.elements@.len(),
                    i <= self.elements@.len(),
                    !self@.is_var(),
                    forall|j: int| 0 <= j < i ==> (#[trigger] self@.elements[j])->item.is_var(),
                decreases self.elements@.len() - i,
            {
                proof {
                    lemma_view(self);
                }
                if !self.elements[i].i().is_var() {
                    assert(!self@.elements[i as int]->item.is_var());
                    return false;
                }
                i = i + 1;
            }
            return true;
        }
        false
    }

    /// block: a chunk.
    pub fn is_block(&self) -> (r: bool)
        ensures
            r == self@.is_block(),
        decreases self, 1int,
    {
        proof {
            lemma_view(self);
        }
        self.is_chunk()
    }

    /// stat (see `spec_is_statement`).
    pub fn is_statement(&self) -> (r: bool)
        ensures
            r == self@.is_statement(),
        decreases self, 1int,
    {
        proof {
            lemma_view(self);
        }
        let n = self.identifiers.len();
        let m = self.elements.len();
        // varlist = explist
        if n == 1 && m == 2 {
            if self.id_is(0, Token::Equal) && self.elements[0].i().is_var_list()
                && self.elements[1].i().is_exp_list() {
                return true;
            }
        }
        if self.is_function_call() {
            return true;
        }
        if self.is_comment() {
            return true;
        }
        // do block end
        if n == 2 && m == 1 {
            if self.id_is(0, Token::Do) && self.id_is(1, Token::End)
                && self.elements[0].i().is_block() {
                return true;
            }
        }
        // while exp do block end
        if n == 3 && m == 2 {
            if self.id_is(0, Token::While) && self.id_is(1, Token::Do) && self.id_is(2, Token::End)
                && self.elements[0].i().is_exp() && self.elements[1].i().is_block() {
                return true;
            }
        }
        // repeat block until exp
        if n == 2 && m == 2 {
            if self.id_is(0, Token::Repeat) && self.id_is(1, Token::Until)
                && self.elements[0].i().is_block() && self.elements[1].i().is_exp() {
                return true;
            }
        }
        // if exp then block {elseif exp then block} [else block] end
        if n >= 3 && m >= 2 {
            if self.id_is(0, Token::If) && self.id_is(1, Token::Then) && self.id_is(n - 1, Token::End)
                && self.elements[0].i().is_exp() && self.elements[m - 1].i().is_block() {
                return true;
            }
        }
        // for Name = exp , exp [, exp] do block end
        if n >= 4 && m >= 4 {
            if self.id_is(0, Token::For) && self.id_is(1, Token::Equal) && self.id_is(2, Token::Comma)
                && self.id_is(n - 1, Token::End) && self.id_is(n - 2, Token::Do)
                && self.elements[0].i().is_name() && self.elements[1].i().is_exp()
                && self.elements[2].i().is_exp() && self.elements[m - 1].i().is_block() {
                return true;
            }
        }
        // for namelist in explist do block end
        if n == 4 && m == 3 {
            if self.id_is(0, Token::For) && self.id_is(1, Token::In) && self.id_is(2, Token::Do)
                && self.id_is(3, Token::End) && self.elements[0].i().is_name_list()
                && self.elements[1].i().is_exp_list() && self.elements[2].i().is_block() {
                return true;
            }
        }
        // function funcname funcbody
        if n == 1 && m == 2 {
            if self.id_is(0, Token::Function) && self.elements[0].i().is_func_name()
                && self.elements[1].i().is_func_body() {
                return true;
            }
        }
        // local function Name funcbody
        if n == 2 && m == 2 {
            if self.id_is(0, Token::Local) && self.id_is(1, Token::Function)
                && self.elements[0].i().is_func_name() && self.elements[1].i().is_func_body() {
                return true;
            }
        }
        // local namelist = explist
        if n == 2 && m == 2 {
            if self.id_is(0, Token::Local) && self.id_is(1, Token::Equal)
                && self.elements[0].i().is_name_list() && self.elements[1].i().is_exp_list() {
                return true;
            }
        }
        // local namelist
        if n == 1 && m == 1 {
            if self.id_is(0, Token::Local) && self.elements[0].i().is_name_list() {
                return true;
            }
        }
        false
    }

    /// exp (see `spec_is_exp`).
    pub fn is_exp(&self) -> (r: bool)
        ensures
            r == self@.is_exp(),
        decreases self, 2int,
    {
        proof {
            lemma_view(self);
        }
        if let Some(token) = self.get_token() {
            match token.item() {
                Token::Nil | Token::False | Token::True | Token::Number(_) | Token::String(_)
                | Token::TriplePeriod | Token::MultiLineString(_) => return true,
                _ => {},
            }
        }
        if self.is_prefix_exp() {
            return true;
        }
        if self.is_function() {
            return true;
        }
        if self.is_table_constructor() {
            return true;
        }
        if self.identifiers.len() == 1 && self.elements.len() == 2 {
            if self.identifiers[0].i().is_binop() && self.elements[0].i().is_exp()
                && self.elements[1].i().is_exp() {
                return true;
            }
        }
        if self.identifiers.len() == 1 && self.elements.len() == 1 {
            if self.identifiers[0].i().is_unop() && self.elements[0].i().is_exp() {
                return true;
            }
        }
        false
    }

    /// explist: a lone exp or a list of exps.
    pub fn is_exp_list(&self) -> (r: bool)
        ensures
            r == self@.is_exp_list(),
        decreases self, 3int,
    {
        proof {
            lemma_view(self);
        }
        if self.is_exp() {
            return true;
        }
        if self.identifiers.len() == 0 && self.elements.len() > 0 {
            let mut i: usize = 0;
            while i < self.elements.len()
                invariant
                    self@.elements.len() == self.elements@.len(),
                    i <= self.elements@.len(),
                    !self@.is_exp(),
                    forall|j: int| 0 <= j < i ==> (#[trigger] self@.elements[j])->item.is_exp(),
                decreases self.elements@.len() - i,
            {
                proof {
                    lemma_view(self);
                }
                if !self.elements[i].i().is_exp() {
                    assert(!self@.elements[i as int]->item.is_exp());
                    return false;
                }
                i = i + 1;
            }
            return true;
        }
        false
    }

    /// field: `[ exp ] = exp`, `Name = exp` or `exp`.
    pub fn is_field(&self) -> (r: bool)
        ensures
            r == self@.is_field(),
        decreases self, 3int,
    {
        proof {
            lemma_view(self);
        }
        if self.is_exp() {
            return true;
        }
        let n = self.identifiers.len();
        let m = self.elements.len();
        if n == 1 && m == 2 {
            if self.id_is(0, Token::Equal) && self.elements[0].i().is_name()
                && self.elements[1].i().is_exp() {
                return true;
            }
        }
        if n == 3 && m == 2 {
            if self.id_is(0, Token::LeftBracket) && self.id_is(1, Token::RightBracket) && self.id_is(
                2,
                Token::Equal,
            ) && self.elements[0].i().is_exp() && self.elements[1].i().is_exp() {
                return true;
            }
        }
        false
    }

    /// fieldlist: a lone field or a list of fields.
    pub fn is_field_list(&self) -> (r: bool)
        ensures
            r == self@.is_field_list(),
        decreases self, 4int,
    {
        proof {
            lemma_view(self);
        }
        if self.is_field() {
            return true;
        }
        if self.identifiers.len() == 0 && self.elements.len() > 0 {
            let mut i: usize = 0;
            while i < self.elements.len()
                invariant
                    self@.elements.len() == self.elements@.len(),
                    i <= self.elements@.len(),
                    !self@.is_field(),
                    forall|j: int| 0 <= j < i ==> (#[trigger] self@.elements[j])->item.is_field(),
                decreases self.elements@.len() - i,
            {
                proof {
                    lemma_view(self);
                }
                if !self.elements[i].i().is_field() {
                    assert(!self@.elements[i as int]->item.is_field());
                    return false;
                }
                i = i + 1;
            }
            return true;
        }
        false
    }
}

/// A lone name is at once a variable, a prefix expression, an expression,
/// a variable list, an expression list, a name list, a field, a field list,
/// a function name and a parameter list: wrapping a name never hides what
/// it can stand for.
pub proof fn lemma_name_fits_everywhere(e: ElementView)
    requires
        e.is_name(),
    ensures
        e.is_var(),
        e.is_prefix_exp(),
        e.is_exp(),
        e.is_var_list(),
        e.is_exp_list(),
        e.is_name_list(),
        e.is_field(),
        e.is_field_list(),
        e.is_func_name(),
        e.is_par_list(),
{
    assert(e.is_var());
    assert(e.is_prefix_exp());
    assert(e.is_exp());
    assert(e.is_field());
}

/// A lone item is a list of one: every expression is an expression list,
/// every variable a variable list, every name a name list, every field a
/// field list, and every expression a field.
pub proof fn lemma_single_is_list(e: ElementView)
    ensures
        e.is_exp() ==> e.is_exp_list(),
        e.is_var() ==> e.is_var_list(),
        e.is_name() ==> e.is_name_list(),
        e.is_field() ==> e.is_field_list(),
        e.is_exp() ==> e.is_field(),
        e.is_var() ==> e.is_prefix_exp(),
        e.is_prefix_exp() ==> e.is_exp(),
        e.is_chunk() ==> e.is_block(),
{
}

} // verus!

verus! {

/// How an element is shown: a wrapped token as `<token>`; otherwise its
/// identifying tokens and its arguments, each followed by `, `, as
/// `<tokens | arguments>`.
pub open spec fn element_text(e: Element) -> Seq<char>
    decreases e, 1int, 0int,
{
    if e.identifiers@.len() == 1 && e.elements@.len() == 0 {
        "<"@ + spec_token_text(e.identifiers@[0]->item@) + ">"@
    } else {
        "<"@ + identifiers_text(e.identifiers@, e.identifiers@.len() as int) + " | "@ + arguments_text(
            e,
            e.elements@.len() as int,
        ) + ">"@
    }
}

/// The first `n` tokens, each followed by `, `.
pub open spec fn identifiers_text(ids: Seq<CodeToken>, n: int) -> Seq<char>
    decreases n,
{
    if n <= 0 || n > ids.len() {
        Seq::empty()
    } else {
        identifiers_text(ids, n - 1) + spec_token_text(ids[n - 1]->item@) + ", "@
    }
}

/// The first `n` arguments of the element, each shown and followed by `, `.
pub open spec fn arguments_text(e: Element, n: int) -> Seq<char>
    decreases e, 0int, n,
{
    if n <= 0 || n > e.elements@.len() {
        Seq::empty()
    } else {
        arguments_text(e, n - 1) + element_text(e.elements@[n - 1]->item) + ", "@
    }
}

impl Element {
    /// How the element is shown (see `element_text`).
    pub fn to_display_string(&self) -> (r: String)
        ensures
            r@ == element_text(*self),
        decreases self, 1int, 0int,
    {
        if self.identifiers.len() == 1 && self.elements.len() == 0 {
            let mut s = "<".to_owned();
            push_str(&mut s, self.identifiers[0].item().text().as_str());
            push_str(&mut s, ">");
            s
        } else {
            let mut s = "<".to_owned();
            let mut i: usize = 0;
            while i < self.identifiers.len()
                invariant
                    i <= self.identifiers@.len(),
                    s@ == "<"@ + identifiers_text(self.identifiers@, i as int),
                decreases self.identifiers@.len() - i,
            {
                push_str(&mut s, self.identifiers[i].item().text().as_str());
                push_str(&mut s, ", ");
                i = i + 1;
            }
            push_str(&mut s, " | ");
            push_str(&mut s, self.arguments_to_string().as_str());
            push_str(&mut s, ">");
            s
        }
    }

    /// The arguments, each shown and followed by `, `.
    fn arguments_to_string(&self) -> (r: String)
        ensures
            r@ == arguments_text(*self, self.elements@.len() as int),
        decreases self, 0int, 0int,
    {
        let mut s = String::new();
        let mut i: usize = 0;
        while i < self.elements.len()
            invariant
                i <= self.elements@.len(),
                s@ == arguments_text(*self, i as int),
            decreases self.elements@.len() - i,
        {
            push_str(&mut s, self.elements[i].item().to_display_string().as_str());
            push_str(&mut s, ", ");
            i = i + 1;
        }
        s
    }
}

} // verus!
