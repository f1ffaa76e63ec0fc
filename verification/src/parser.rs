//! The parser: tokens to the syntax tree, or the first structural diagnostic.
//!
//! The grammar is written down as functions of the token sequence and a
//! position ([`parse_program_at`] and the functions it calls); the methods of
//! [`Parser`] are proved to compute them. A position past the last token reads
//! as the end of input.
use vstd::prelude::*;
use crate::ast::{
    block_items_view, Block, BlockItem, BlockItemView, Declaration, DeclarationView, Expression,
    ExpressionView, FunctionDeclaration, FunctionDeclarationView, FunctionParam,
    FunctionParamView, Program, Statement, StatementView,
};
use crate::errors::{unsupported_at, CompilerError, CompilerErrorView};
use crate::tokens::{Token, TokenKind, TokenKindView, TokenView};
use crate::types::{TView, T};

verus! {

/// The kind of the token at position `i`; the end of input where there is none.
pub open spec fn kind_at(tokens: Seq<TokenView>, i: int) -> TokenKindView {
    if 0 <= i < tokens.len() {
        tokens[i].kind
    } else {
        TokenKindView::EOF
    }
}

/// Whether nothing is left to parse at position `i`.
pub open spec fn at_end(tokens: Seq<TokenView>, i: int) -> bool {
    kind_at(tokens, i) == TokenKindView::EOF
}

/// The source position of the token at `i`; zero where there is none.
pub open spec fn start_at(tokens: Seq<TokenView>, i: int) -> nat {
    if 0 <= i < tokens.len() {
        tokens[i].start as nat
    } else {
        0
    }
}

/// What parsing one construct gives: its value and the position after it, or
/// a diagnostic and the position of the token it is about.
pub enum Parsed<V> {
    Done { value: V, next: int },
    Failed { error: CompilerErrorView, at: int },
}

/// The diagnostic for a token of another kind than the grammar asks for.
pub open spec fn mismatch(wanted: Seq<char>, found: TokenKindView) -> CompilerErrorView {
    CompilerErrorView::ParseError { message: "Expected: "@ + wanted + "; Got: "@ + found.text() }
}

/// An expression: an integer constant.
pub open spec fn parse_expression_at(tokens: Seq<TokenView>, i: int) -> Parsed<ExpressionView> {
    match kind_at(tokens, i) {
        TokenKindView::ConstInt(v) => Parsed::Done {
            value: ExpressionView::ConstInt(v),
            next: i + 1,
        },
        found => Parsed::Failed { error: mismatch("Integer"@, found), at: i },
    }
}

/// A statement: `return`, an expression, `;`.
pub open spec fn parse_statement_at(tokens: Seq<TokenView>, i: int) -> Parsed<StatementView> {
    if kind_at(tokens, i) != TokenKindView::Return {
        Parsed::Failed { error: mismatch(TokenKindView::Return.text(), kind_at(tokens, i)), at: i }
    } else {
        match parse_expression_at(tokens, i + 1) {
            Parsed::Failed { error, at } => Parsed::Failed { error, at },
            Parsed::Done { value, next } => if kind_at(tokens, next) != TokenKindView::Semicolon {
                Parsed::Failed {
                    error: mismatch(TokenKindView::Semicolon.text(), kind_at(tokens, next)),
                    at: next,
                }
            } else {
                Parsed::Done {
                    value: StatementView::ReturnStatement(Some(value)),
                    next: next + 1,
                }
            },
        }
    }
}

/// A block item: a statement.
pub open spec fn parse_block_item_at(tokens: Seq<TokenView>, i: int) -> Parsed<BlockItemView> {
    match parse_statement_at(tokens, i) {
        Parsed::Failed { error, at } => Parsed::Failed { error, at },
        Parsed::Done { value, next } => Parsed::Done { value: BlockItemView::Stmt(value), next },
    }
}

/// The items of a block up to its closing brace or the end of input, after the items `done`.
pub open spec fn parse_block_items_at(
    tokens: Seq<TokenView>,
    i: int,
    done: Seq<BlockItemView>,
) -> Parsed<Seq<BlockItemView>>
    decreases tokens.len() - i,
{
    if at_end(tokens, i) || kind_at(tokens, i) == TokenKindView::RightBrace {
        Parsed::Done { value: done, next: i }
    } else {
        match parse_block_item_at(tokens, i) {
            Parsed::Failed { error, at } => Parsed::Failed { error, at },
            Parsed::Done { value, next } => parse_block_items_at(tokens, next, done.push(value)),
        }
    }
}

/// A block: `{`, items, `}`.
pub open spec fn parse_block_at(tokens: Seq<TokenView>, i: int) -> Parsed<Seq<BlockItemView>> {
    if kind_at(tokens, i) != TokenKindView::LeftBrace {
        Parsed::Failed {
            error: mismatch(TokenKindView::LeftBrace.text(), kind_at(tokens, i)),
            at: i,
        }
    } else {
        match parse_block_items_at(tokens, i + 1, Seq::empty()) {
            Parsed::Failed { error, at } => Parsed::Failed { error, at },
            Parsed::Done { value, next } => if kind_at(tokens, next) != TokenKindView::RightBrace {
                Parsed::Failed {
                    error: mismatch(TokenKindView::RightBrace.text(), kind_at(tokens, next)),
                    at: next,
                }
            } else {
                Parsed::Done { value, next: next + 1 }
            },
        }
    }
}

/// The parameters from position `i` on, where a parameter has to stand, after
/// the parameters `done`. A parameter is a type and a name. After it the list
/// ends at a closing parenthesis or at the end of input, or goes on after a
/// comma with another parameter. `void` stands without a name and ends the list.
pub open spec fn parse_param_list_at(
    tokens: Seq<TokenView>,
    i: int,
    done: Seq<FunctionParamView>,
) -> Parsed<Seq<FunctionParamView>>
    decreases tokens.len() - i,
{
    match kind_at(tokens, i) {
        TokenKindView::Void => Parsed::Done {
            value: done.push(FunctionParamView { typ: TView::Void, name: Seq::empty() }),
            next: i + 1,
        },
        TokenKindView::Int => match kind_at(tokens, i + 1) {
            TokenKindView::Identifier(name) => {
                let more = done.push(FunctionParamView { typ: TView::Int, name });
                if kind_at(tokens, i + 2) == TokenKindView::Comma {
                    parse_param_list_at(tokens, i + 3, more)
                } else if at_end(tokens, i + 2) || kind_at(tokens, i + 2)
                    == TokenKindView::RightParen {
                    Parsed::Done { value: more, next: i + 2 }
                } else {
                    Parsed::Failed {
                        error: mismatch(TokenKindView::Comma.text(), kind_at(tokens, i + 2)),
                        at: i + 2,
                    }
                }
            },
            found => Parsed::Failed { error: mismatch("Identifier"@, found), at: i + 1 },
        },
        found => Parsed::Failed { error: mismatch("type"@, found), at: i },
    }
}

/// The parameters of a function, separated by commas: none where the closing
/// parenthesis or the end of input stands at `i`.
pub open spec fn parse_params_at(tokens: Seq<TokenView>, i: int) -> Parsed<
    Seq<FunctionParamView>,
> {
    if at_end(tokens, i) || kind_at(tokens, i) == TokenKindView::RightParen {
        Parsed::Done { value: Seq::empty(), next: i }
    } else {
        parse_param_list_at(tokens, i, Seq::empty())
    }
}

/// A function declaration: `int`, a name, `(`, parameters, `)`, a block.
pub open spec fn parse_func_decl_at(tokens: Seq<TokenView>, i: int) -> Parsed<DeclarationView> {
    if kind_at(tokens, i) != TokenKindView::Int {
        Parsed::Failed { error: mismatch(TokenKindView::Int.text(), kind_at(tokens, i)), at: i }
    } else {
        match kind_at(tokens, i + 1) {
            TokenKindView::Identifier(name) => if kind_at(tokens, i + 2)
                != TokenKindView::LeftParen {
                Parsed::Failed {
                    error: mismatch(TokenKindView::LeftParen.text(), kind_at(tokens, i + 2)),
                    at: i + 2,
                }
            } else {
                match parse_params_at(tokens, i + 3) {
                    Parsed::Failed { error, at } => Parsed::Failed { error, at },
                    Parsed::Done { value: params, next: close } => if kind_at(tokens, close)
                        != TokenKindView::RightParen {
                        Parsed::Failed {
                            error: mismatch(
                                TokenKindView::RightParen.text(),
                                kind_at(tokens, close),
                            ),
                            at: close,
                        }
                    } else {
                        match parse_block_at(tokens, close + 1) {
                            Parsed::Failed { error, at } => Parsed::Failed { error, at },
                            Parsed::Done { value: items, next } => Parsed::Done {
                                value: DeclarationView::FunDecl(
                                    FunctionDeclarationView {
                                        name,
                                        return_type: TView::Int,
                                        params,
                                        body: Some(items),
                                        storage_class: None,
                                    },
                                ),
                                next,
                            },
                        }
                    },
                }
            },
            found => Parsed::Failed { error: mismatch("Identifier"@, found), at: i + 1 },
        }
    }
}

/// A declaration. After a type keyword the third token decides: a `(` there
/// makes it a function declaration, and the end of input cuts the declaration
/// short. Variable and struct declarations are recognised and reported as
/// unsupported.
pub open spec fn parse_declaration_at(tokens: Seq<TokenView>, i: int) -> Parsed<DeclarationView> {
    match kind_at(tokens, i) {
        TokenKindView::Int | TokenKindView::Void => if at_end(tokens, i + 2) {
            Parsed::Failed { error: mismatch("declaration"@, TokenKindView::EOF), at: i }
        } else if kind_at(tokens, i + 2) == TokenKindView::LeftParen {
            parse_func_decl_at(tokens, i)
        } else {
            Parsed::Failed {
                error: unsupported_at("variable declaration"@, start_at(tokens, i)),
                at: i,
            }
        },
        TokenKindView::Struct => Parsed::Failed {
            error: unsupported_at("struct declaration"@, start_at(tokens, i)),
            at: i,
        },
        found => Parsed::Failed { error: mismatch("declaration"@, found), at: i },
    }
}

/// The declarations up to the end of input, after the declarations `done`.
pub open spec fn parse_program_at(
    tokens: Seq<TokenView>,
    i: int,
    done: Seq<DeclarationView>,
) -> Parsed<Seq<DeclarationView>>
    decreases tokens.len() - i,
    via parse_program_decreases
{
    if at_end(tokens, i) {
        Parsed::Done { value: done, next: i }
    } else {
        match parse_declaration_at(tokens, i) {
            Parsed::Failed { error, at } => Parsed::Failed { error, at },
            Parsed::Done { value, next } => parse_program_at(tokens, next, done.push(value)),
        }
    }
}

#[via_fn]
proof fn parse_program_decreases(tokens: Seq<TokenView>, i: int, done: Seq<DeclarationView>) {
    if !at_end(tokens, i) {
        lemma_declaration_advances(tokens, i);
    }
}

/// The whole result of parsing a token sequence from its first token.
pub open spec fn parse_tokens(tokens: Seq<TokenView>) -> Parsed<Seq<DeclarationView>> {
    parse_program_at(tokens, 0, Seq::empty())
}

pub proof fn lemma_block_items_advance(tokens: Seq<TokenView>, i: int, done: Seq<BlockItemView>)
    requires
        0 <= i <= tokens.len(),
    ensures
        parse_block_items_at(tokens, i, done) matches Parsed::Done { value, next } ==> i <= next
            <= tokens.len(),
        parse_block_items_at(tokens, i, done) matches Parsed::Failed { error, at } ==> i <= at
            <= tokens.len(),
    decreases tokens.len() - i,
{
    if !(at_end(tokens, i) || kind_at(tokens, i) == TokenKindView::RightBrace) {
        match parse_block_item_at(tokens, i) {
            Parsed::Failed { error, at } => {},
            Parsed::Done { value, next } => {
                lemma_block_items_advance(tokens, next, done.push(value));
            },
        }
    }
}

pub proof fn lemma_param_list_advances(
    tokens: Seq<TokenView>,
    i: int,
    done: Seq<FunctionParamView>,
)
    requires
        0 <= i <= tokens.len(),
    ensures
        parse_param_list_at(tokens, i, done) matches Parsed::Done { value, next } ==> i < next
            <= tokens.len(),
        parse_param_list_at(tokens, i, done) matches Parsed::Failed { error, at } ==> i <= at
            <= tokens.len(),
    decreases tokens.len() - i,
{
    if kind_at(tokens, i) == TokenKindView::Int {
        if let TokenKindView::Identifier(name) = kind_at(tokens, i + 1) {
            if kind_at(tokens, i + 2) == TokenKindView::Comma {
                lemma_param_list_advances(
                    tokens,
                    i + 3,
                    done.push(FunctionParamView { typ: TView::Int, name }),
                );
            }
        }
    }
}

pub proof fn lemma_params_advance(tokens: Seq<TokenView>, i: int)
    requires
        0 <= i <= tokens.len(),
    ensures
        parse_params_at(tokens, i) matches Parsed::Done { value, next } ==> i <= next
            <= tokens.len(),
        parse_params_at(tokens, i) matches Parsed::Failed { error, at } ==> i <= at
            <= tokens.len(),
{
    lemma_param_list_advances(tokens, i, Seq::empty());
}

/// A declaration that parses takes at least one token and ends within the sequence;
/// one that fails is blamed on a position from its start onwards.
pub proof fn lemma_declaration_advances(tokens: Seq<TokenView>, i: int)
    requires
        0 <= i,
        !at_end(tokens, i),
    ensures
        parse_declaration_at(tokens, i) matches Parsed::Done { value, next } ==> i < next
            <= tokens.len(),
        parse_declaration_at(tokens, i) matches Parsed::Failed { error, at } ==> i <= at
            <= tokens.len(),
{
    if i + 2 < tokens.len() && kind_at(tokens, i + 2) == TokenKindView::LeftParen {
        lemma_params_advance(tokens, i + 3);
        if let Parsed::Done { value: params, next: close } = parse_params_at(tokens, i + 3) {
            if kind_at(tokens, close) == TokenKindView::RightParen {
                if kind_at(tokens, close + 1) == TokenKindView::LeftBrace {
                    lemma_block_items_advance(tokens, close + 2, Seq::empty());
                }
            }
        }
    }
}

/// Parsing goes on until the tokens are exhausted: a program that parses ends
/// at the end of input, after at least as many declarations as there were
/// before, and one that fails is blamed on a position from the start onwards.
pub proof fn lemma_program_reaches_the_end(
    tokens: Seq<TokenView>,
    i: int,
    done: Seq<DeclarationView>,
)
    requires
        0 <= i,
    ensures
        parse_program_at(tokens, i, done) matches Parsed::Done { value, next } ==> i <= next
            && at_end(tokens, next) && done.len() <= value.len(),
        parse_program_at(tokens, i, done) matches Parsed::Failed { error, at } ==> i <= at
            <= tokens.len(),
    decreases tokens.len() - i,
{
    if !at_end(tokens, i) {
        lemma_declaration_advances(tokens, i);
        if let Parsed::Done { value, next } = parse_declaration_at(tokens, i) {
            lemma_program_reaches_the_end(tokens, next, done.push(value));
        }
    }
}

/// A parser over a token sequence, with the position of the next token to read.
#[derive(Debug, Clone)]
pub struct Parser {
    pub current: usize,
    pub tokens: Vec<Token>,
}

impl Parser {
    /// A parser at the first of the given tokens.
    pub fn new(tokens: Vec<Token>) -> (parser: Self)
        ensures
            parser.current == 0,
            parser.tokens == tokens,
    {
        Self { current: 0, tokens }
    }

    /// Parses declarations until the tokens are exhausted, or fails on the
    /// first structural error. On success the position is the end of input. On
    /// failure it is where the parser stopped: the token that was found in
    /// place of the expected one, or the start of a declaration that is cut
    /// short or unsupported.
    #[verifier::loop_isolation(false)]
    pub fn parse_program(&mut self) -> (r: Result<Program, CompilerError>)
        ensures
            final(self).tokens == old(self).tokens,
            match parse_program_at(
                old(self).tokens.deep_view(),
                old(self).current as int,
                Seq::empty(),
            ) {
                Parsed::Done { value, next } => r matches Ok(program) && program@ == value
                    && final(self).current == next,
                Parsed::Failed { error, at } => r matches Err(e) && e@ == error
                    && final(self).current == at,
            },
    {
        let mut decls: Vec<Declaration> = Vec::new();
        let ghost tokens = self.tokens.deep_view();
        let ghost start = self.current as int;
        assert(decls.deep_view() =~= Seq::<DeclarationView>::empty());
        while !self.is_at_end()
            invariant
                self.tokens == old(self).tokens,
                tokens == self.tokens.deep_view(),
                parse_program_at(tokens, self.current as int, decls.deep_view())
                    == parse_program_at(tokens, start, Seq::empty()),
            decreases tokens.len() - self.current,
        {
            let ghost so_far = decls.deep_view();
            proof {
                lemma_declaration_advances(tokens, self.current as int);
            }
            match self.parse_declaration() {
                Ok(decl) => {
                    decls.push(decl);
                    assert(decls.deep_view() =~= so_far.push(decl@));
                },
                Err(e) => {
                    return Err(e);
                },
            }
        }
        Ok(Program(decls))
    }

    /// Parses one declaration at the position, which is not the end of input.
    fn parse_declaration(&mut self) -> (r: Result<Declaration, CompilerError>)
        requires
            !at_end(old(self).tokens.deep_view(), old(self).current as int),
        ensures
            final(self).tokens == old(self).tokens,
            match parse_declaration_at(old(self).tokens.deep_view(), old(self).current as int) {
                Parsed::Done { value, next } => r matches Ok(decl) && decl@ == value
                    && final(self).current == next,
                Parsed::Failed { error, at } => r matches Err(e) && e@ == error
                    && final(self).current == at,
            },
    {
        let here = self.current;
        if self.kind_is(here, &TokenKind::Int) || self.kind_is(here, &TokenKind::Void) {
            // The token after the type is taken to be a name: only the one after that is looked at.
            if self.tokens.len() - here <= 2 || self.kind_is(here + 2, &TokenKind::EOF) {
                return Err(self.unexpected("declaration", self.tokens.len()));
            }
            if self.kind_is(here + 2, &TokenKind::LeftParen) {
                return self.parse_func_decl();
            }
            self.parse_var_decl()
        } else if self.kind_is(here, &TokenKind::Struct) {
            self.parse_struct_decl()
        } else {
            Err(self.unexpected("declaration", here))
        }
    }

    /// Struct declarations are not part of the language yet.
    fn parse_struct_decl(&mut self) -> (r: Result<Declaration, CompilerError>)
        requires
            old(self).current < old(self).tokens.len(),
        ensures
            *final(self) == *old(self),
            r matches Err(e) && e@ == unsupported_at(
                "struct declaration"@,
                start_at(old(self).tokens.deep_view(), old(self).current as int),
            ),
    {
        Err(CompilerError::unsupported_at("struct declaration", self.tokens[self.current].start))
    }

    /// Parses a function declaration at the position.
    #[verifier::loop_isolation(false)]
    fn parse_func_decl(&mut self) -> (r: Result<Declaration, CompilerError>)
        ensures
            final(self).tokens == old(self).tokens,
            match parse_func_decl_at(old(self).tokens.deep_view(), old(self).current as int) {
                Parsed::Done { value, next } => r matches Ok(decl) && decl@ == value
                    && final(self).current == next,
                Parsed::Failed { error, at } => r matches Err(e) && e@ == error
                    && final(self).current == at,
            },
    {
        let ghost tokens = self.tokens.deep_view();
        if !self.kind_is(self.current, &TokenKind::Int) {
            let wanted = TokenKind::Int.describe();
            return Err(self.unexpected(wanted.as_str(), self.current));
        }
        let typ = T::Int;
        self.current = self.current + 1;

        let ident = match self.identifier_at(self.current) {
            Some(name) => name,
            None => {
                return Err(self.unexpected("Identifier", self.current));
            },
        };
        self.current = self.current + 1;

        match self.demand(TokenKind::LeftParen) {
            Ok(_) => {},
            Err(e) => {
                return Err(e);
            },
        }

        let mut params: Vec<FunctionParam> = Vec::new();
        let ghost first = self.current as int;
        assert(params.deep_view() =~= Seq::<FunctionParamView>::empty());
        let mut more = !self.is_at_end() && !self.kind_is(self.current, &TokenKind::RightParen);
        while more
            invariant
                self.tokens == old(self).tokens,
                tokens == self.tokens.deep_view(),
                more ==> parse_param_list_at(tokens, self.current as int, params.deep_view())
                    == parse_params_at(tokens, first),
                !more ==> parse_params_at(tokens, first) == (Parsed::Done {
                    value: params.deep_view(),
                    next: self.current as int,
                }),
            decreases tokens.len() - self.current,
        {
            let ghost so_far = params.deep_view();
            let typ = if self.kind_is(self.current, &TokenKind::Int) {
                T::Int
            } else if self.kind_is(self.current, &TokenKind::Void) {
                T::Void
            } else {
                return Err(self.unexpected("type", self.current));
            };
            self.current = self.current + 1;

            // `void` is the one type that stands without a name: it closes the list.
            if let T::Void = typ {
                params.push(FunctionParam { typ, name: String::new() });
                assert(params.deep_view() =~= so_far.push(
                    FunctionParamView { typ: TView::Void, name: Seq::empty() },
                ));
                more = false;
            } else {
                let name = match self.identifier_at(self.current) {
                    Some(name) => name,
                    None => {
                        return Err(self.unexpected("Identifier", self.current));
                    },
                };
                self.current = self.current + 1;
                params.push(FunctionParam { typ, name });
                assert(params.deep_view() =~= so_far.push(
                    FunctionParamView { typ: TView::Int, name: name@ },
                ));

                // A comma promises another parameter; without one the list has to end here.
                if self.kind_is(self.current, &TokenKind::Comma) {
                    self.current = self.current + 1;
                } else if self.is_at_end() || self.kind_is(self.current, &TokenKind::RightParen) {
                    more = false;
                } else {
                    let wanted = TokenKind::Comma.describe();
                    return Err(self.unexpected(wanted.as_str(), self.current));
                }
            }
        }

        match self.demand(TokenKind::RightParen) {
            Ok(_) => {},
            Err(e) => {
                return Err(e);
            },
        }

        let body = match self.parse_block() {
            Ok(block) => block,
            Err(e) => {
                return Err(e);
            },
        };

        let func = FunctionDeclaration {
            return_type: typ,
            name: ident,
            params,
            body,
            storage_class: None,
        };
        Ok(Declaration::FunDecl(func))
    }

    /// Variable declarations are not part of the language yet.
    fn parse_var_decl(&mut self) -> (r: Result<Declaration, CompilerError>)
        requires
            old(self).current < old(self).tokens.len(),
        ensures
            *final(self) == *old(self),
            r matches Err(e) && e@ == unsupported_at(
                "variable declaration"@,
                start_at(old(self).tokens.deep_view(), old(self).current as int),
            ),
    {
        Err(CompilerError::unsupported_at("variable declaration", self.tokens[self.current].start))
    }

    /// Parses a block at the position.
    #[verifier::loop_isolation(false)]
    fn parse_block(&mut self) -> (r: Result<Option<Block>, CompilerError>)
        ensures
            final(self).tokens == old(self).tokens,
            match parse_block_at(old(self).tokens.deep_view(), old(self).current as int) {
                Parsed::Done { value, next } => r matches Ok(Some(block)) && block@ == value
                    && final(self).current == next,
                Parsed::Failed { error, at } => r matches Err(e) && e@ == error
                    && final(self).current == at,
            },
    {
        let mut items: Vec<BlockItem> = Vec::new();
        let ghost tokens = self.tokens.deep_view();
        match self.demand(TokenKind::LeftBrace) {
            Ok(_) => {},
            Err(e) => {
                return Err(e);
            },
        }
        let ghost first = self.current as int;
        assert(block_items_view(items) =~= Seq::<BlockItemView>::empty());
        while !self.is_at_end() && !self.kind_is(self.current, &TokenKind::RightBrace)
            invariant
                self.tokens == old(self).tokens,
                tokens == self.tokens.deep_view(),
                parse_block_items_at(tokens, self.current as int, block_items_view(items))
                    == parse_block_items_at(tokens, first, Seq::empty()),
            decreases tokens.len() - self.current,
        {
            let ghost so_far = block_items_view(items);
            match self.parse_block_item() {
                Ok(item) => {
                    items.push(item);
                    assert(block_items_view(items) =~= so_far.push(item@));
                },
                Err(e) => {
                    return Err(e);
                },
            }
        }
        match self.demand(TokenKind::RightBrace) {
            Ok(_) => {},
            Err(e) => {
                return Err(e);
            },
        }
        Ok(Some(Block(items)))
    }

    /// Parses a block item at the position.
    fn parse_block_item(&mut self) -> (r: Result<BlockItem, CompilerError>)
        ensures
            final(self).tokens == old(self).tokens,
            match parse_block_item_at(old(self).tokens.deep_view(), old(self).current as int) {
                Parsed::Done { value, next } => r matches Ok(item) && item@ == value
                    && final(self).current == next,
                Parsed::Failed { error, at } => r matches Err(e) && e@ == error
                    && final(self).current == at,
            },
    {
        match self.parse_statement() {
            Ok(stmt) => Ok(BlockItem::Stmt(stmt)),
            Err(e) => Err(e),
        }
    }

    /// Parses a statement at the position.
    fn parse_statement(&mut self) -> (r: Result<Statement, CompilerError>)
        ensures
            final(self).tokens == old(self).tokens,
            match parse_statement_at(old(self).tokens.deep_view(), old(self).current as int) {
                Parsed::Done { value, next } => r matches Ok(stmt) && stmt@ == value
                    && final(self).current == next,
                Parsed::Failed { error, at } => r matches Err(e) && e@ == error
                    && final(self).current == at,
            },
    {
        match self.demand(TokenKind::Return) {
            Ok(_) => {},
            Err(e) => {
                return Err(e);
            },
        }
        let expr = match self.parse_expression() {
            Ok(expr) => expr,
            Err(e) => {
                return Err(e);
            },
        };
        match self.demand(TokenKind::Semicolon) {
            Ok(_) => {},
            Err(e) => {
                return Err(e);
            },
        }
        Ok(Statement::ReturnStatement(Some(expr)))
    }

    /// Parses an expression at the position.
    fn parse_expression(&mut self) -> (r: Result<Expression, CompilerError>)
        ensures
            final(self).tokens == old(self).tokens,
            match parse_expression_at(old(self).tokens.deep_view(), old(self).current as int) {
                Parsed::Done { value, next } => r matches Ok(expr) && expr@ == value
                    && final(self).current == next,
                Parsed::Failed { error, at } => r matches Err(e) && e@ == error
                    && final(self).current == at,
            },
    {
        if let Some(token) = self.peek_at(self.current) {
            if let TokenKind::ConstInt(val) = &token.kind {
                let value = *val;
                self.current = self.current + 1;
                return Ok(Expression::ConstInt(value));
            }
        }
        Err(self.unexpected("Integer", self.current))
    }

    /// Moves past the token at the position, which is before the end of the
    /// tokens, and hands it back if it is of the given kind; fails without
    /// moving if it is not.
    fn expect(&mut self, kind: TokenKind) -> (r: Result<Token, CompilerError>)
        requires
            old(self).current < old(self).tokens.len(),
        ensures
            final(self).tokens == old(self).tokens,
            if old(self).tokens.deep_view()[old(self).current as int].kind == kind@ {
                final(self).current == old(self).current + 1 && (r matches Ok(t) && t@ == old(
                    self,
                ).tokens.deep_view()[old(self).current as int])
            } else {
                final(self).current == old(self).current && (r matches Err(e) && e@ == mismatch(
                    kind@.text(),
                    old(self).tokens.deep_view()[old(self).current as int].kind,
                ))
            },
    {
        if !self.tokens[self.current].kind.same_as(&kind) {
            let wanted = kind.describe();
            return Err(self.unexpected(wanted.as_str(), self.current));
        }
        self.take()
    }

    /// Hands back the token at the position, which is before the end of the
    /// tokens, and moves past it.
    fn take(&mut self) -> (r: Result<Token, CompilerError>)
        requires
            old(self).current < old(self).tokens.len(),
        ensures
            final(self).tokens == old(self).tokens,
            final(self).current == old(self).current + 1,
            r matches Ok(t) && t == old(self).tokens[old(self).current as int],
    {
        let tok = self.tokens[self.current].duplicate();
        self.current = self.current + 1;
        Ok(tok)
    }

    /// Moves past a token of the given kind at the position. Past the last
    /// token the end of input is read, and there is nothing to move past.
    fn demand(&mut self, kind: TokenKind) -> (r: Result<(), CompilerError>)
        ensures
            final(self).tokens == old(self).tokens,
            if kind_at(old(self).tokens.deep_view(), old(self).current as int) == kind@ {
                r is Ok && final(self).current == if old(self).current < old(self).tokens.len() {
                    old(self).current + 1
                } else {
                    old(self).current as int
                }
            } else {
                final(self).current == old(self).current && (r matches Err(e) && e@ == mismatch(
                    kind@.text(),
                    kind_at(old(self).tokens.deep_view(), old(self).current as int),
                ))
            },
    {
        if self.current < self.tokens.len() {
            match self.expect(kind) {
                Ok(_) => Ok(()),
                Err(e) => Err(e),
            }
        } else if kind.same_as(&TokenKind::EOF) {
            Ok(())
        } else {
            let wanted = kind.describe();
            Err(self.unexpected(wanted.as_str(), self.current))
        }
    }

    /// The diagnostic for finding the token at `location` where `wanted` was asked for.
    fn unexpected(&self, wanted: &str, location: usize) -> (e: CompilerError)
        ensures
            e@ == mismatch(wanted@, kind_at(self.tokens.deep_view(), location as int)),
    {
        let mut text = String::new();
        text.append("Expected: ");
        text.append(wanted);
        text.append("; Got: ");
        let found = match self.peek_at(location) {
            Some(token) => token.kind.describe(),
            None => TokenKind::EOF.describe(),
        };
        text.append(found.as_str());
        CompilerError::ParseError { message: text }
    }

    /// The token at `location`, if there is one; the position does not move.
    fn peek_at(&self, location: usize) -> (token: Option<&Token>)
        ensures
            location < self.tokens.len() ==> token == Some(&self.tokens[location as int]),
            location >= self.tokens.len() ==> token is None,
    {
        if location >= self.tokens.len() {
            return None;
        }
        Some(&self.tokens[location])
    }

    /// Whether the token at `location` is of the given kind.
    fn kind_is(&self, location: usize, kind: &TokenKind) -> (b: bool)
        ensures
            b == (kind_at(self.tokens.deep_view(), location as int) == kind@),
            b && kind@ != TokenKindView::EOF ==> location < self.tokens.len(),
    {
        match self.peek_at(location) {
            Some(token) => token.kind.same_as(kind),
            None => kind.same_as(&TokenKind::EOF),
        }
    }

    /// The name of the identifier at `location`, if one stands there.
    fn identifier_at(&self, location: usize) -> (name: Option<String>)
        ensures
            match kind_at(self.tokens.deep_view(), location as int) {
                TokenKindView::Identifier(n) => name matches Some(s) && s@ == n,
                _ => name is None,
            },
    {
        match self.peek_at(location) {
            Some(token) => match &token.kind {
                TokenKind::Identifier(name) => Some(name.clone()),
                _ => None,
            },
            None => None,
        }
    }

    fn is_at_end(&self) -> (b: bool)
        ensures
            b == at_end(self.tokens.deep_view(), self.current as int),
    {
        self.current >= self.tokens.len() || self.kind_is(self.current, &TokenKind::EOF)
    }
}

/// Parses a token sequence from its first token.
pub fn parse(tokens: Vec<Token>) -> (r: Result<Program, CompilerError>)
    ensures
        match parse_tokens(tokens.deep_view()) {
            Parsed::Done { value, next } => r matches Ok(program) && program@ == value,
            Parsed::Failed { error, at } => r matches Err(e) && e@ == error,
        },
{
    let mut parser = Parser::new(tokens);
    parser.parse_program()
}

} // verus!
