//! The pipeline: the stages in order, each on what the stage before it gave.
//!
//! A stage that fails ends the run: no later stage sees anything. The lexer
//! reports all its diagnostics together; every other stage reports one.
use vstd::prelude::*;
use crate::assembly;
use crate::assembly::TopLevelView;
use crate::ast;
use crate::ast::DeclarationView;
use crate::code_emission::{emit, program_text};
use crate::codegen::{select, select_program};
use crate::errors::{CompilerError, CompilerErrorView};
use crate::ir;
use crate::ir::{lower, lower_program, FunctionView};
use crate::lexer::{lex, lex_all};
use crate::parser::{parse, parse_tokens, Parsed};
use crate::tokens::{Token, TokenView};

verus! {

/// The stage after which a run stops.
#[derive(Debug, Clone, Copy, PartialEq, Eq, Structural)]
pub enum Stage {
    Lex,
    Parse,
    Tacky,
    Codegen,
    Emit,
}

/// What a run hands back: the product of the stage it stopped after.
#[derive(Debug, PartialEq)]
pub enum Artifact {
    Tokens(Vec<Token>),
    Ast(ast::Program),
    Tacky(ir::Program),
    Assembly(assembly::Program),
    Text(String),
}

/// The mathematical value of an [`Artifact`].
pub enum ArtifactView {
    Tokens(Seq<TokenView>),
    Ast(Seq<DeclarationView>),
    Tacky(Seq<FunctionView>),
    Assembly(Seq<TopLevelView>),
    Text(Seq<char>),
}

impl View for Artifact {
    type V = ArtifactView;

    open spec fn view(&self) -> ArtifactView {
        match self {
            Artifact::Tokens(tokens) => ArtifactView::Tokens(tokens.deep_view()),
            Artifact::Ast(program) => ArtifactView::Ast(program@),
            Artifact::Tacky(program) => ArtifactView::Tacky(program@),
            Artifact::Assembly(program) => ArtifactView::Assembly(program@),
            Artifact::Text(text) => ArtifactView::Text(text@),
        }
    }
}

/// The stage that a set of requests to stop early asks for: the earliest of
/// them, and the whole pipeline where there is none.
pub open spec fn requested_stage(lex: bool, parse: bool, tacky: bool, codegen: bool) -> Stage {
    if lex {
        Stage::Lex
    } else if parse {
        Stage::Parse
    } else if tacky {
        Stage::Tacky
    } else if codegen {
        Stage::Codegen
    } else {
        Stage::Emit
    }
}

/// What running the pipeline on `src` up to `stage` gives.
pub open spec fn run_to(src: Seq<char>, stage: Stage) -> Result<
    ArtifactView,
    Seq<CompilerErrorView>,
> {
    let lexed = lex_all(src);
    if lexed.errors.len() > 0 {
        Err(lexed.errors)
    } else if stage is Lex {
        Ok(ArtifactView::Tokens(lexed.tokens))
    } else {
        match parse_tokens(lexed.tokens) {
            Parsed::Failed { error, at } => Err(seq![error]),
            Parsed::Done { value: tree, next } => if stage is Parse {
                Ok(ArtifactView::Ast(tree))
            } else {
                match lower_program(tree, 0).program {
                    Err(error) => Err(seq![error]),
                    Ok(functions) => if stage is Tacky {
                        Ok(ArtifactView::Tacky(functions))
                    } else {
                        match select_program(functions) {
                            Err(error) => Err(seq![error]),
                            Ok(top_levels) => if stage is Codegen {
                                Ok(ArtifactView::Assembly(top_levels))
                            } else {
                                Ok(ArtifactView::Text(program_text(top_levels)))
                            },
                        }
                    },
                }
            },
        }
    }
}

/// The assembly text of a source, or the diagnostics of the first stage that failed.
pub open spec fn compiled(src: Seq<char>) -> Result<Seq<char>, Seq<CompilerErrorView>> {
    let lexed = lex_all(src);
    if lexed.errors.len() > 0 {
        Err(lexed.errors)
    } else {
        match parse_tokens(lexed.tokens) {
            Parsed::Failed { error, at } => Err(seq![error]),
            Parsed::Done { value: tree, next } => match lower_program(tree, 0).program {
                Err(error) => Err(seq![error]),
                Ok(functions) => match select_program(functions) {
                    Err(error) => Err(seq![error]),
                    Ok(top_levels) => Ok(program_text(top_levels)),
                },
            },
        }
    }
}

/// A run through the whole pipeline gives what compiling gives.
pub proof fn lemma_whole_run_compiles(src: Seq<char>)
    ensures
        run_to(src, Stage::Emit) == match compiled(src) {
            Ok(text) => Ok::<ArtifactView, Seq<CompilerErrorView>>(ArtifactView::Text(text)),
            Err(errors) => Err(errors),
        },
{
}

/// Where the lexer reports diagnostics, every run ends with them, whatever
/// the stage it was to stop after.
pub proof fn lemma_lexical_diagnostics_end_every_run(src: Seq<char>, stage: Stage)
    requires
        lex_all(src).errors.len() > 0,
    ensures
        run_to(src, stage) == Err::<ArtifactView, Seq<CompilerErrorView>>(lex_all(src).errors),
{
}

/// The stage that a set of requests to stop early asks for.
pub fn stage_for(lex: bool, parse: bool, tacky: bool, codegen: bool) -> (stage: Stage)
    ensures
        stage == requested_stage(lex, parse, tacky, codegen),
{
    if lex {
        Stage::Lex
    } else if parse {
        Stage::Parse
    } else if tacky {
        Stage::Tacky
    } else if codegen {
        Stage::Codegen
    } else {
        Stage::Emit
    }
}

fn single(error: CompilerError) -> (errors: Vec<CompilerError>)
    ensures
        errors.deep_view() == seq![error@],
{
    let mut errors: Vec<CompilerError> = Vec::new();
    errors.push(error);
    errors
}

/// Runs the pipeline on a source up to the given stage.
pub fn run(source: &[char], stage: Stage) -> (r: Result<Artifact, Vec<CompilerError>>)
    ensures
        match run_to(source@, stage) {
            Ok(artifact) => r matches Ok(a) && a@ == artifact,
            Err(errors) => r matches Err(e) && e.deep_view() == errors,
        },
{
    let (tokens, errors) = lex(source);
    if errors.len() > 0 {
        return Err(errors);
    }
    if let Stage::Lex = stage {
        return Ok(Artifact::Tokens(tokens));
    }
    let tree = match parse(tokens) {
        Ok(tree) => tree,
        Err(e) => {
            return Err(single(e));
        },
    };
    if let Stage::Parse = stage {
        return Ok(Artifact::Ast(tree));
    }
    let tacky = match lower(&tree) {
        Ok(tacky) => tacky,
        Err(e) => {
            return Err(single(e));
        },
    };
    if let Stage::Tacky = stage {
        return Ok(Artifact::Tacky(tacky));
    }
    let assembly = match select(&tacky) {
        Ok(assembly) => assembly,
        Err(e) => {
            return Err(single(e));
        },
    };
    if let Stage::Codegen = stage {
        return Ok(Artifact::Assembly(assembly));
    }
    Ok(Artifact::Text(emit(&assembly)))
}

/// Compiles a source to assembly text.
pub fn compile(source: &[char]) -> (r: Result<String, Vec<CompilerError>>)
    ensures
        match compiled(source@) {
            Ok(text) => r matches Ok(t) && t@ == text,
            Err(errors) => r matches Err(e) && e.deep_view() == errors,
        },
{
    let (tokens, errors) = lex(source);
    if errors.len() > 0 {
        return Err(errors);
    }
    let tree = match parse(tokens) {
        Ok(tree) => tree,
        Err(e) => {
            return Err(single(e));
        },
    };
    let tacky = match lower(&tree) {
        Ok(tacky) => tacky,
        Err(e) => {
            return Err(single(e));
        },
    };
    let assembly = match select(&tacky) {
        Ok(assembly) => assembly,
        Err(e) => {
            return Err(single(e));
        },
    };
    Ok(emit(&assembly))
}

} // verus!
