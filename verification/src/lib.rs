//! A CSS-subset parsing and style-resolution engine.
//!
//! CSS text runs through a lexer, a structural syntax analyzer, a rule
//! parser with custom-property substitution, and a property-table typer,
//! into a queryable stylesheet. A query for an element identity returns
//! the declarations of every matching selector, folded into one group
//! per pseudo-class; when nothing matches, declarations are synthesized
//! from utility class names against a palette the embedding application
//! supplies, and memoized in the sheet.
//!
//! Every stage is specified over `Seq<char>` views and proved against
//! those specifications; lengths are fixed-point micro-units so the whole
//! pipeline stays in integer arithmetic. General CSS color syntax is the
//! one outside call, behind a single trusted wrapper.

#![verifier::loop_isolation(false)]

use vstd::prelude::*;

pub mod animation;
pub mod chars;
pub mod color;
pub mod error;
pub mod cursor;
pub mod declaration;
pub mod laws;
pub mod layout;
pub mod lexer;
pub mod numbers;
pub mod rules;
pub mod style;
pub mod syntax;
pub mod text;
pub mod unit;
pub mod values;

pub use color::{Palette, PaletteEntry, Rgba};
pub use cursor::CursorIcon;
pub use layout::{AlignContent, AlignItems, Display, FlexDirection, FlexWrap, JustifyContent,
    Position};
pub use text::{Style, TextOverflow, Weight};
pub use text::Style as TextStyle;
pub use unit::{Auto, BorderDef, BoxShadow, Pct, Px, PxPct, PxPctAuto};

pub use animation::{Linear, Transition};
pub use declaration::Declaration;
pub use error::{ParseError, SyntaxError};
pub use rules::{PseudoClass, Rule, Selector};
pub use style::StyleSheet;

verus! {

/// Parses a CSS string into rules: tokenize, analyze, parse, then
/// substitute custom-property references. Structural errors are returned
/// whole; a clean text yields the substituted rules.
pub fn css_to_rules(input: &str) -> (r: Result<Vec<Rule>, Vec<SyntaxError>>)
    ensures
        ({
            let ts = lexer::spec_tokenize(input@);
            match r {
                Ok(rules) => syntax::spec_analyze(ts, input@).len() == 0 && rules.deep_view()
                    == rules::spec_replace_vars(rules::spec_parse_rules(ts, input@)),
                Err(errs) => errs.deep_view() == syntax::spec_analyze(ts, input@)
                    && errs.deep_view().len() > 0,
            }
        }),
{
    let ts = lexer::tokenize(input);
    proof {
        lexer::lemma_tokenize_wf(input@, 0);
        assert(rules::tokens_wf(ts.deep_view(), input@));
    }
    let errors = syntax::analyze_tokens(&ts, input);
    if errors.len() > 0 {
        return Err(errors);
    }
    Ok(rules::replace_vars(rules::parse_rules(&ts, input)))
}

/// Checks a CSS string for structural well-formedness; `Err` carries the
/// collected syntax errors.
pub fn analyze(input: &str) -> (r: Result<(), Vec<SyntaxError>>)
    ensures
        ({
            let errs = syntax::spec_analyze(lexer::spec_tokenize(input@), input@);
            match r {
                Ok(u) => errs.len() == 0,
                Err(es) => es.deep_view() == errs && errs.len() > 0,
            }
        }),
{
    let ts = lexer::tokenize(input);
    proof {
        lexer::lemma_tokenize_wf(input@, 0);
        assert(rules::tokens_wf(ts.deep_view(), input@));
    }
    let errors = syntax::analyze_tokens(&ts, input);
    if errors.len() > 0 {
        return Err(errors);
    }
    Ok(())
}

} // verus!

pub use rules::css_query_of;

verus! {

/// Checks an already-tokenized stream against its source text; `Err`
/// carries the collected syntax errors. The tokens must be the stream the
/// lexer produced for `input`, or at least index real positions of it.
pub fn analyze_tokens(tokens: &Vec<lexer::Token>, input: &str) -> (r: Result<
    (),
    Vec<SyntaxError>,
>)
    requires
        rules::tokens_wf(tokens.deep_view(), input@),
    ensures
        ({
            let errs = syntax::spec_analyze(tokens.deep_view(), input@);
            match r {
                Ok(u) => errs.len() == 0,
                Err(es) => es.deep_view() == errs && errs.len() > 0,
            }
        }),
{
    let errors = syntax::analyze_tokens(tokens, input);
    if errors.len() > 0 {
        return Err(errors);
    }
    Ok(())
}

} // verus!
