//! The recursive-descent, predictive parser: consumes the scanner's token
//! sequence and builds a [`SkillLine`] tree, or reports the first fatal
//! error. It decides each production from the current token's type and never
//! re-reads consumed tokens.
//!
//! The grammar is specified by the `spec_*` functions over token models;
//! [`Parser::parse`] is proved to return exactly what [`spec_parse`]
//! describes.

use vstd::prelude::*;

use crate::error_registry::{
    syntax_error_model, targeter_already_defined_error_model, trigger_already_defined_error_model,
    Error, ErrorModel, SyntaxError, TargeterAlreadyDefinedError, TriggerAlreadyDefinedError,
};
use crate::expressions::{
    trigger_end_token, view_conditions, view_generic_name_and_mlc, view_inline_condition,
    view_mlc, view_mlc_value_identifier, view_mlc_value_identifiers, view_mlcs,
    view_name_and_mlcs, view_skill_line, view_targeter, Chance, ChanceModel, GenericNameAndMlc,
    GenericNameAndMlcModel, GenericString, GenericStringModel, HealthModifier,
    HealthModifierModel, HealthModifierValue, HealthModifierValueModel, HealthModifierValueOrRange,
    HealthModifierValueOrRangeModel, InlineCondition, InlineConditionModel, Mlc, MlcContainer,
    MlcContainerModel, MlcModel, MlcValue, MlcValueContainer, MlcValueContainerModel,
    MlcValueIdentifier, MlcValueIdentifierModel, MlcValueModel, Placeholder, PlaceholderModel,
    SkillLine, SkillLineModel, Targeter, TargeterModel, Trigger, TriggerModel,
};
use crate::lexer::{view_tokens, MythicToken, TokenModel, TokenType};
use crate::positions_and_ranges::{spec_position_from_offset, CustomRange};

verus! {

/// A token sequence the parser accepts: the end-of-input token stands at the
/// end and nowhere else.
pub open spec fn wf_tokens(toks: Seq<TokenModel>) -> bool {
    &&& toks.len() >= 1
    &&& toks.last().type_ == TokenType::Eof
    &&& forall|k: int| 0 <= k < toks.len() - 1 ==> toks[k].type_ != TokenType::Eof
}

/// Whether the parse position has reached the end of input.
pub open spec fn spec_at_end(toks: Seq<TokenModel>, pos: int) -> bool {
    pos < 0 || pos >= toks.len() || toks[pos].type_ == TokenType::Eof
}

/// The position a production hands to its continuation, clamped into the
/// range the parser can actually stand in. The parser never moves backwards
/// nor past the end of input; the clamp keeps that manifest for termination
/// checking and changes nothing on real parses.
pub open spec fn clamp_pos(toks: Seq<TokenModel>, lo: int, p: int) -> int {
    if p < lo {
        lo
    } else if p > toks.len() {
        toks.len() as int
    } else {
        p
    }
}

/// The source range a token covers.
pub open spec fn spec_token_range(t: TokenModel) -> CustomRange {
    CustomRange {
        start: spec_position_from_offset(t.source, t.start),
        end: spec_position_from_offset(t.source, t.current),
    }
}

/// The syntax error reported at a token.
pub open spec fn spec_syntax_error(t: TokenModel, message: Seq<char>) -> ErrorModel {
    syntax_error_model(spec_token_range(t), message)
}

/// The range a targeter covers: from its `@` to the end of its config block,
/// or of its name when it has none.
pub open spec fn spec_targeter_range(t: TargeterModel) -> CustomRange {
    CustomRange {
        start: spec_position_from_offset(t.at.source, t.at.start),
        end: match t.mlc {
            Some(m) => spec_position_from_offset(m.right_brace.source, m.right_brace.current),
            None => spec_position_from_offset(t.name.source, t.name.current),
        },
    }
}

/// The range a trigger covers: from its `~` to its last token.
pub open spec fn spec_trigger_range(t: TriggerModel) -> CustomRange {
    CustomRange {
        start: spec_position_from_offset(t.caret.source, t.caret.start),
        end: spec_position_from_offset(
            trigger_end_token(t).source,
            trigger_end_token(t).current,
        ),
    }
}

/// The position after the run of whitespace tokens at `pos`.
pub open spec fn spec_skip_space(toks: Seq<TokenModel>, pos: int) -> int
    decreases toks.len() - pos,
{
    if 0 <= pos < toks.len() && toks[pos].type_ == TokenType::Space {
        spec_skip_space(toks, pos + 1)
    } else {
        pos
    }
}

pub proof fn lemma_skip_space_bounds(toks: Seq<TokenModel>)
    ensures
        forall|p: int| p <= #[trigger] spec_skip_space(toks, p),
        forall|p: int| p <= toks.len() ==> #[trigger] spec_skip_space(toks, p) <= toks.len(),
{
    assert forall|p: int| p <= #[trigger] spec_skip_space(toks, p) && (p <= toks.len()
        ==> spec_skip_space(toks, p) <= toks.len()) by {
        lemma_skip_space_bounds_at(toks, p);
    }
}

proof fn lemma_skip_space_bounds_at(toks: Seq<TokenModel>, p: int)
    ensures
        p <= spec_skip_space(toks, p),
        p <= toks.len() ==> spec_skip_space(toks, p) <= toks.len(),
    decreases toks.len() - p,
{
    if 0 <= p < toks.len() && toks[p].type_ == TokenType::Space {
        lemma_skip_space_bounds_at(toks, p + 1);
    }
}

/// The position of the closer that balances `depth` opens, scanning from
/// `pos`; stops at the end of input when the run is unbalanced.
pub open spec fn spec_skip_depth(
    toks: Seq<TokenModel>,
    pos: int,
    open: TokenType,
    close: TokenType,
    depth: int,
) -> int
    decreases toks.len() - pos,
{
    if spec_at_end(toks, pos) {
        pos
    } else if toks[pos].type_ == close {
        if depth <= 1 {
            pos
        } else {
            spec_skip_depth(toks, pos + 1, open, close, depth - 1)
        }
    } else if toks[pos].type_ == open {
        spec_skip_depth(toks, pos + 1, open, close, depth + 1)
    } else {
        spec_skip_depth(toks, pos + 1, open, close, depth)
    }
}

pub proof fn lemma_skip_depth_bounds(toks: Seq<TokenModel>, open: TokenType, close: TokenType)
    ensures
        forall|p: int, d: int| p <= #[trigger] spec_skip_depth(toks, p, open, close, d),
        forall|p: int, d: int|
            p <= toks.len() ==> #[trigger] spec_skip_depth(toks, p, open, close, d) <= toks.len(),
{
    assert forall|p: int, d: int|
        p <= #[trigger] spec_skip_depth(toks, p, open, close, d) && (p <= toks.len()
            ==> spec_skip_depth(toks, p, open, close, d) <= toks.len()) by {
        lemma_skip_depth_bounds_at(toks, p, open, close, d);
    }
}

proof fn lemma_skip_depth_bounds_at(
    toks: Seq<TokenModel>,
    p: int,
    open: TokenType,
    close: TokenType,
    d: int,
)
    ensures
        p <= spec_skip_depth(toks, p, open, close, d),
        p <= toks.len() ==> spec_skip_depth(toks, p, open, close, d) <= toks.len(),
    decreases toks.len() - p,
{
    if !spec_at_end(toks, p) {
        if toks[p].type_ == close {
            if d > 1 {
                lemma_skip_depth_bounds_at(toks, p + 1, open, close, d - 1);
            }
        } else if toks[p].type_ == open {
            lemma_skip_depth_bounds_at(toks, p + 1, open, close, d + 1);
        } else {
            lemma_skip_depth_bounds_at(toks, p + 1, open, close, d);
        }
    }
}

/// The position where an opaque token run ends: at one of the caller's
/// terminator types or at the end of input, with balanced `{...}` and
/// `[...]` groups along the way skipped whole.
pub open spec fn spec_generic_string_end(
    toks: Seq<TokenModel>,
    pos: int,
    ends: Seq<TokenType>,
) -> int
    decreases toks.len() - pos,
        via spec_generic_string_end_decreases
{
    if spec_at_end(toks, pos) || ends.contains(toks[pos].type_) {
        pos
    } else {
        let q = if toks[pos].type_ == TokenType::LeftBrace {
            spec_skip_depth(toks, pos + 1, TokenType::LeftBrace, TokenType::RightBrace, 1)
        } else if toks[pos].type_ == TokenType::LeftSquareBracket {
            spec_skip_depth(
                toks,
                pos + 1,
                TokenType::LeftSquareBracket,
                TokenType::RightSquareBracket,
                1,
            )
        } else {
            pos
        };
        if spec_at_end(toks, q) {
            q
        } else {
            spec_generic_string_end(toks, q + 1, ends)
        }
    }
}

#[via_fn]
proof fn spec_generic_string_end_decreases(toks: Seq<TokenModel>, pos: int, ends: Seq<TokenType>) {
    lemma_skip_depth_bounds(toks, TokenType::LeftBrace, TokenType::RightBrace);
    lemma_skip_depth_bounds(toks, TokenType::LeftSquareBracket, TokenType::RightSquareBracket);
}

pub proof fn lemma_generic_string_end_bounds(toks: Seq<TokenModel>, ends: Seq<TokenType>)
    ensures
        forall|p: int| p <= #[trigger] spec_generic_string_end(toks, p, ends),
        forall|p: int|
            p <= toks.len() ==> #[trigger] spec_generic_string_end(toks, p, ends) <= toks.len(),
{
    assert forall|p: int|
        p <= #[trigger] spec_generic_string_end(toks, p, ends) && (p <= toks.len()
            ==> spec_generic_string_end(toks, p, ends) <= toks.len()) by {
        lemma_generic_string_end_bounds_at(toks, p, ends);
    }
}

proof fn lemma_generic_string_end_bounds_at(toks: Seq<TokenModel>, p: int, ends: Seq<TokenType>)
    ensures
        p <= spec_generic_string_end(toks, p, ends),
        p <= toks.len() ==> spec_generic_string_end(toks, p, ends) <= toks.len(),
    decreases toks.len() - p,
{
    lemma_skip_depth_bounds(toks, TokenType::LeftBrace, TokenType::RightBrace);
    lemma_skip_depth_bounds(toks, TokenType::LeftSquareBracket, TokenType::RightSquareBracket);
    if !(spec_at_end(toks, p) || ends.contains(toks[p].type_)) {
        let q = if toks[p].type_ == TokenType::LeftBrace {
            spec_skip_depth(toks, p + 1, TokenType::LeftBrace, TokenType::RightBrace, 1)
        } else if toks[p].type_ == TokenType::LeftSquareBracket {
            spec_skip_depth(
                toks,
                p + 1,
                TokenType::LeftSquareBracket,
                TokenType::RightSquareBracket,
                1,
            )
        } else {
            p
        };
        if !spec_at_end(toks, q) {
            lemma_generic_string_end_bounds_at(toks, q + 1, ends);
        }
    }
}

/// Consuming one token of the given type, or the syntax error at the current
/// token with the caller's message (a generic one when it gave none).
pub open spec fn spec_consume(
    toks: Seq<TokenModel>,
    pos: int,
    ty: TokenType,
    msg: Option<Seq<char>>,
) -> Result<(TokenModel, int), ErrorModel> {
    if !spec_at_end(toks, pos) && toks[pos].type_ == ty {
        Ok((toks[pos], pos + 1))
    } else {
        Err(
            spec_syntax_error(
                toks[pos],
                match msg {
                    Some(m) => m,
                    None => "Unexpected token!"@,
                },
            ),
        )
    }
}

/// Consuming one token of any of the given types, or the syntax error at the
/// current token.
pub open spec fn spec_consume_any(
    toks: Seq<TokenModel>,
    pos: int,
    types: Seq<TokenType>,
    msg: Option<Seq<char>>,
) -> Result<(TokenModel, int), ErrorModel> {
    if !spec_at_end(toks, pos) && types.contains(toks[pos].type_) {
        Ok((toks[pos], pos + 1))
    } else {
        Err(
            spec_syntax_error(
                toks[pos],
                match msg {
                    Some(m) => m,
                    None => "Unexpected token!"@,
                },
            ),
        )
    }
}

/// The opaque token run from `pos` to the first caller-given terminator; an
/// empty run is an error exactly when the caller supplied a message.
pub open spec fn spec_generic_string(
    toks: Seq<TokenModel>,
    pos: int,
    ends: Seq<TokenType>,
    msg: Option<Seq<char>>,
) -> Result<(GenericStringModel, int), ErrorModel> {
    let end = spec_generic_string_end(toks, pos, ends);
    if end == pos && msg is Some {
        Err(
            spec_syntax_error(
                toks[pos],
                match msg {
                    Some(m) => m,
                    None => Seq::empty(),
                },
            ),
        )
    } else {
        Ok((GenericStringModel { tokens: toks.subrange(pos, end) }, end))
    }
}

/// A health modifier at `pos`: an operator, a bound (number, optionally a
/// percentage), and after `=` optionally a dash and a second bound.
pub open spec fn spec_health_modifier(toks: Seq<TokenModel>, pos: int) -> Result<
    (HealthModifierModel, int),
    ErrorModel,
> {
    match spec_consume_any(
        toks,
        pos,
        seq![TokenType::Equal, TokenType::GreaterThan, TokenType::LessThan],
        Some("Expected health modifier operator!"@),
    ) {
        Err(e) => Err(e),
        Ok((operator, p1)) => match spec_consume(
            toks,
            p1,
            TokenType::Number,
            Some("Expected health modifier value!"@),
        ) {
            Err(e) => Err(e),
            Ok((min, p2)) => {
                let min_pct = !spec_at_end(toks, p2) && toks[p2].type_ == TokenType::Percent;
                let min_value = if min_pct {
                    HealthModifierValueModel::Percentage(min, toks[p2])
                } else {
                    HealthModifierValueModel::Absolute(min)
                };
                let p3 = if min_pct {
                    p2 + 1
                } else {
                    p2
                };
                if operator.type_ == TokenType::Equal && !spec_at_end(toks, p3) && toks[p3].type_
                    == TokenType::Dash {
                    match spec_consume(
                        toks,
                        p3 + 1,
                        TokenType::Number,
                        Some("Expected second health modifier value!"@),
                    ) {
                        Err(e) => Err(e),
                        Ok((max, p4)) => {
                            let max_pct = !spec_at_end(toks, p4) && toks[p4].type_
                                == TokenType::Percent;
                            let max_value = if max_pct {
                                HealthModifierValueModel::Percentage(max, toks[p4])
                            } else {
                                HealthModifierValueModel::Absolute(max)
                            };
                            let p5 = if max_pct {
                                p4 + 1
                            } else {
                                p4
                            };
                            Ok(
                                (
                                    HealthModifierModel {
                                        operator,
                                        value: HealthModifierValueOrRangeModel::Range(
                                            min_value,
                                            max_value,
                                        ),
                                    },
                                    p5,
                                ),
                            )
                        },
                    }
                } else {
                    Ok(
                        (
                            HealthModifierModel {
                                operator,
                                value: HealthModifierValueOrRangeModel::Value(min_value),
                            },
                            p3,
                        ),
                    )
                }
            },
        },
    }
}

/// One pass of the inline-condition prefix scan: consumes at most one `!`
/// and at most one `~`, failing on a duplicate of either.
pub open spec fn spec_cond_prefix_step(
    toks: Seq<TokenModel>,
    pos: int,
    exclam: Option<TokenModel>,
    tilde: Option<TokenModel>,
) -> Result<(Option<TokenModel>, Option<TokenModel>, int), ErrorModel> {
    if spec_at_end(toks, pos) {
        Ok((exclam, tilde, pos))
    } else if toks[pos].type_ == TokenType::Exclamation {
        if exclam is Some {
            Err(spec_syntax_error(toks[pos + 1], "Duplicate inline condition trigger symbol!"@))
        } else if !spec_at_end(toks, pos + 1) && toks[pos + 1].type_ == TokenType::Tilde {
            if tilde is Some {
                Err(
                    spec_syntax_error(
                        toks[pos + 2],
                        "Duplicate inline condition trigger symbol!"@,
                    ),
                )
            } else {
                Ok((Some(toks[pos]), Some(toks[pos + 1]), pos + 2))
            }
        } else {
            Ok((Some(toks[pos]), tilde, pos + 1))
        }
    } else if toks[pos].type_ == TokenType::Tilde {
        if tilde is Some {
            Err(spec_syntax_error(toks[pos + 1], "Duplicate inline condition trigger symbol!"@))
        } else {
            Ok((exclam, Some(toks[pos]), pos + 1))
        }
    } else {
        Ok((exclam, tilde, pos))
    }
}

/// A trigger after its `~` was consumed: a name, optionally a colon and an
/// argument.
pub open spec fn spec_trigger(toks: Seq<TokenModel>, pos: int) -> Result<
    (TriggerModel, int),
    ErrorModel,
> {
    let caret = toks[pos - 1];
    match spec_generic_string(
        toks,
        pos,
        seq![TokenType::LeftBrace, TokenType::Space, TokenType::Colon],
        Some("Expected a trigger name!"@),
    ) {
        Err(e) => Err(e),
        Ok((name, p1)) => {
            if !spec_at_end(toks, p1) && toks[p1].type_ == TokenType::Colon {
                match spec_generic_string(
                    toks,
                    p1 + 1,
                    seq![TokenType::LeftBrace, TokenType::Space],
                    Some("Expected a trigger argument after ':'!"@),
                ) {
                    Err(e) => Err(e),
                    Ok((arg, p2)) => Ok(
                        (
                            TriggerModel {
                                caret,
                                name,
                                colon: Some(toks[p1]),
                                arg: Some(arg),
                            },
                            p2,
                        ),
                    ),
                }
            } else {
                Ok((TriggerModel { caret, name, colon: None, arg: None }, p1))
            }
        },
    }
}

/// A name with an optional config block, the name ending at one of the
/// caller's terminator types; an empty name is an error.
pub open spec fn spec_generic_name_and_mlc(
    toks: Seq<TokenModel>,
    pos: int,
    ends: Seq<TokenType>,
    msg: Seq<char>,
) -> Result<(GenericNameAndMlcModel, int), ErrorModel>
    decreases toks.len() - pos, 0int,
        via spec_generic_name_and_mlc_decreases
{
    match spec_generic_string(toks, pos, ends, Some(msg)) {
        Err(e) => Err(e),
        Ok((name, p1)) => {
            if !spec_at_end(toks, p1) && toks[p1].type_ == TokenType::LeftBrace {
                match spec_mlc(toks, p1) {
                    Err(e) => Err(e),
                    Ok((m, p2)) => Ok((GenericNameAndMlcModel { name, mlc: Some(m) }, p2)),
                }
            } else {
                Ok((GenericNameAndMlcModel { name, mlc: None }, p1))
            }
        },
    }
}

#[via_fn]
proof fn spec_generic_name_and_mlc_decreases(
    toks: Seq<TokenModel>,
    pos: int,
    ends: Seq<TokenType>,
    msg: Seq<char>,
) {
    lemma_generic_string_end_bounds(toks, ends);
}

/// A targeter after its `@` was consumed: an identifier name, optionally a
/// config block.
pub open spec fn spec_targeter(toks: Seq<TokenModel>, pos: int) -> Result<
    (TargeterModel, int),
    ErrorModel,
>
    decreases toks.len() - pos, 1int,
{
    let at = toks[pos - 1];
    match spec_consume(toks, pos, TokenType::Identifier, Some("Expected targeter name!"@)) {
        Err(e) => Err(e),
        Ok((name, p1)) => {
            if !spec_at_end(toks, p1) && toks[p1].type_ == TokenType::LeftBrace {
                match spec_mlc(toks, p1) {
                    Err(e) => Err(e),
                    Ok((m, p2)) => Ok((TargeterModel { at, name, mlc: Some(m) }, p2)),
                }
            } else {
                Ok((TargeterModel { at, name, mlc: None }, p1))
            }
        },
    }
}

/// An inline condition after its `?` was consumed: optional `!` and `~`
/// prefixes (each at most once), an identifier name, optionally a config
/// block.
pub open spec fn spec_inline_condition(toks: Seq<TokenModel>, pos: int) -> Result<
    (InlineConditionModel, int),
    ErrorModel,
>
    decreases toks.len() - pos, 1int,
{
    let question = toks[pos - 1];
    match spec_cond_prefix_step(toks, pos, None, None) {
        Err(e) => Err(e),
        Ok((e1, t1, p1)) => match spec_cond_prefix_step(toks, p1, e1, t1) {
            Err(e) => Err(e),
            Ok((e2, t2, p2)) => match spec_consume(
                toks,
                p2,
                TokenType::Identifier,
                Some("Expected inline condition name!"@),
            ) {
                Err(e) => Err(e),
                Ok((name, p3)) => {
                    if !spec_at_end(toks, p3) && toks[p3].type_ == TokenType::LeftBrace {
                        match spec_mlc(toks, p3) {
                            Err(e) => Err(e),
                            Ok((m, p4)) => Ok(
                                (
                                    InlineConditionModel {
                                        question_mark: question,
                                        exclamation_mark: e2,
                                        tilde: t2,
                                        name,
                                        mlc: Some(m),
                                    },
                                    p4,
                                ),
                            ),
                        }
                    } else {
                        Ok(
                            (
                                InlineConditionModel {
                                    question_mark: question,
                                    exclamation_mark: e2,
                                    tilde: t2,
                                    name,
                                    mlc: None,
                                },
                                p3,
                            ),
                        )
                    }
                },
            },
        },
    }
}

/// Whether a token's lexeme is exactly a semicolon.
pub open spec fn token_lexeme_is_semicolon(t: TokenModel) -> bool {
    match t.lexeme {
        Some(l) => l == ";"@,
        None => false,
    }
}

/// The semicolon attached to a config entry: the token just consumed, when
/// it was one.
pub open spec fn spec_prev_semicolon(toks: Seq<TokenModel>, pos: int) -> Option<TokenModel> {
    if pos >= 1 && token_lexeme_is_semicolon(toks[pos - 1]) {
        Some(toks[pos - 1])
    } else {
        None
    }
}

/// A config block at `pos`: `{` then entries then `}`.
pub open spec fn spec_mlc(toks: Seq<TokenModel>, pos: int) -> Result<
    (MlcContainerModel, int),
    ErrorModel,
>
    decreases toks.len() - pos, 1int,
{
    match spec_consume(toks, pos, TokenType::LeftBrace, Some("Expected '{' before mlc!"@)) {
        Err(e) => Err(e),
        Ok((lb, p1)) => match spec_mlc_entries(toks, p1, Seq::empty()) {
            Err(e) => Err(e),
            Ok((mlcs, p2)) => match spec_consume(
                toks,
                p2,
                TokenType::RightBrace,
                Some("Expected '}' after mlc!"@),
            ) {
                Err(e) => Err(e),
                Ok((rb, p3)) => Ok(
                    (MlcContainerModel { left_brace: lb, mlcs, right_brace: rb }, p3),
                ),
            },
        },
    }
}

/// The `key=value` entries of a config block, separated by `;`; stops before
/// the closing `}` without consuming it.
pub open spec fn spec_mlc_entries(
    toks: Seq<TokenModel>,
    pos: int,
    acc: Seq<MlcModel>,
) -> Result<(Seq<MlcModel>, int), ErrorModel>
    decreases toks.len() - pos, 1int,
        via spec_mlc_entries_decreases
{
    let semicolon = spec_prev_semicolon(toks, pos);
    if !spec_at_end(toks, pos) && toks[pos].type_ == TokenType::RightBrace {
        Ok((acc, pos))
    } else {
        let p1 = spec_skip_space(toks, pos);
        match spec_consume(toks, p1, TokenType::Identifier, Some("Expected mlc key!"@)) {
            Err(e) => Err(e),
            Ok((key, p2)) => match spec_consume(
                toks,
                p2,
                TokenType::Equal,
                Some("Expected '=' after mlc key!"@),
            ) {
                Err(e) => Err(e),
                Ok((equals, p3)) => match spec_mlc_value(toks, p3) {
                    Err(e) => Err(e),
                    Ok((value, p4)) => {
                        let acc2 = acc.push(
                            MlcModel {
                                key,
                                equals,
                                value: MlcValueContainerModel::MlcValue(value),
                                semicolon,
                            },
                        );
                        let p5 = spec_skip_space(toks, clamp_pos(toks, p3, p4));
                        if !spec_at_end(toks, p5) && toks[p5].type_ == TokenType::Semicolon {
                            spec_mlc_entries(toks, p5 + 1, acc2)
                        } else {
                            Ok((acc2, p5))
                        }
                    },
                },
            },
        }
    }
}

#[via_fn]
proof fn spec_mlc_entries_decreases(toks: Seq<TokenModel>, pos: int, acc: Seq<MlcModel>) {
    lemma_skip_space_bounds(toks);
}

/// A config value at `pos`: literal token runs interleaved with placeholder
/// expansions, ending before a `;` or `}`.
pub open spec fn spec_mlc_value(toks: Seq<TokenModel>, pos: int) -> Result<
    (MlcValueModel, int),
    ErrorModel,
>
    decreases toks.len() - pos, 1int,
{
    spec_mlc_value_parts(toks, pos, pos, Seq::empty())
}

/// The parts of a config value: the literal run open since `start`, then on
/// `<` a placeholder, with balanced `{...}` and `[...]` groups skipped
/// whole.
pub open spec fn spec_mlc_value_parts(
    toks: Seq<TokenModel>,
    pos: int,
    start: int,
    acc: Seq<MlcValueIdentifierModel>,
) -> Result<(MlcValueModel, int), ErrorModel>
    decreases toks.len() - pos, 0int,
        via spec_mlc_value_parts_decreases
{
    if spec_at_end(toks, pos) || toks[pos].type_ == TokenType::Semicolon || toks[pos].type_
        == TokenType::RightBrace {
        Ok(
            (
                MlcValueModel {
                    identifiers: acc.push(
                        MlcValueIdentifierModel::Identifiers(toks.subrange(start, pos)),
                    ),
                },
                pos,
            ),
        )
    } else if toks[pos].type_ == TokenType::LessThan {
        let acc2 = acc.push(MlcValueIdentifierModel::Identifiers(toks.subrange(start, pos)));
        match spec_placeholder(toks, pos + 1) {
            Err(e) => Err(e),
            Ok((ph, p2)) => spec_mlc_value_parts(
                toks,
                clamp_pos(toks, pos + 1, p2),
                clamp_pos(toks, pos + 1, p2),
                acc2.push(MlcValueIdentifierModel::Placeholder(ph)),
            ),
        }
    } else if toks[pos].type_ == TokenType::LeftBrace {
        let q = spec_skip_depth(toks, pos + 1, TokenType::LeftBrace, TokenType::RightBrace, 1);
        let q2 = if spec_at_end(toks, q) {
            q
        } else {
            q + 1
        };
        spec_mlc_value_parts(toks, q2, start, acc)
    } else if toks[pos].type_ == TokenType::LeftSquareBracket {
        let q = spec_skip_depth(
            toks,
            pos + 1,
            TokenType::LeftSquareBracket,
            TokenType::RightSquareBracket,
            1,
        );
        let q2 = if spec_at_end(toks, q) {
            q
        } else {
            q + 1
        };
        spec_mlc_value_parts(toks, q2, start, acc)
    } else {
        spec_mlc_value_parts(toks, pos + 1, start, acc)
    }
}

#[via_fn]
proof fn spec_mlc_value_parts_decreases(
    toks: Seq<TokenModel>,
    pos: int,
    start: int,
    acc: Seq<MlcValueIdentifierModel>,
) {
    lemma_skip_depth_bounds(toks, TokenType::LeftBrace, TokenType::RightBrace);
    lemma_skip_depth_bounds(toks, TokenType::LeftSquareBracket, TokenType::RightSquareBracket);
}

/// The terminators a placeholder path segment's name ends at.
pub open spec fn placeholder_segment_ends() -> Seq<TokenType> {
    seq![TokenType::LeftBrace, TokenType::Space, TokenType::Dot, TokenType::GreaterThan]
}

/// Closing a placeholder: the mandatory `>` after its segments.
pub open spec fn spec_placeholder_close(
    toks: Seq<TokenModel>,
    pos: int,
    left: TokenModel,
    segs: Seq<GenericNameAndMlcModel>,
    dots: Seq<TokenModel>,
) -> Result<(PlaceholderModel, int), ErrorModel> {
    match spec_consume(toks, pos, TokenType::GreaterThan, Some("Expected '>' after placeholder!"@)) {
        Err(e) => Err(e),
        Ok((gt, p)) => Ok(
            (
                PlaceholderModel {
                    left_angle_bracket: left,
                    identifiers: segs,
                    dots,
                    right_angle_bracket: gt,
                },
                p,
            ),
        ),
    }
}

/// A placeholder after its `<` was consumed: one mandatory path segment,
/// further dot-separated segments, then `>`.
pub open spec fn spec_placeholder(toks: Seq<TokenModel>, pos: int) -> Result<
    (PlaceholderModel, int),
    ErrorModel,
>
    decreases toks.len() - pos, 1int,
{
    let left = toks[pos - 1];
    if spec_at_end(toks, pos) {
        Err(spec_syntax_error(toks[pos], "Expected mechanic name!"@))
    } else {
        match spec_generic_name_and_mlc(
            toks,
            pos,
            placeholder_segment_ends(),
            "Expected mechanic name!"@,
        ) {
            Err(e) => Err(e),
            Ok((seg, p1)) => spec_placeholder_segments(
                toks,
                clamp_pos(toks, pos + 1, p1),
                left,
                seq![seg],
                Seq::empty(),
            ),
        }
    }
}

/// The dot-separated segments after a placeholder's first one, then the
/// closing `>`. A dot with nothing after it is consumed but recorded
/// nowhere, and the close then fails at the end of input.
pub open spec fn spec_placeholder_segments(
    toks: Seq<TokenModel>,
    pos: int,
    left: TokenModel,
    segs: Seq<GenericNameAndMlcModel>,
    dots: Seq<TokenModel>,
) -> Result<(PlaceholderModel, int), ErrorModel>
    decreases toks.len() - pos, 1int,
{
    if !spec_at_end(toks, pos) && toks[pos].type_ == TokenType::Dot {
        if spec_at_end(toks, pos + 1) {
            spec_placeholder_close(toks, pos + 1, left, segs, dots)
        } else {
            match spec_generic_name_and_mlc(
                toks,
                pos + 1,
                placeholder_segment_ends(),
                "Expected mechanic name!"@,
            ) {
                Err(e) => Err(e),
                Ok((seg, p1)) => spec_placeholder_segments(
                    toks,
                    clamp_pos(toks, pos + 1, p1),
                    left,
                    segs.push(seg),
                    dots.push(toks[pos]),
                ),
            }
        }
    } else {
        spec_placeholder_close(toks, pos, left, segs, dots)
    }
}

/// The accumulated state of a skill line's modifier scan.
pub open spec fn spec_skill_line_init(mech: GenericNameAndMlcModel) -> SkillLineModel {
    SkillLineModel {
        mechanic: mech,
        targeter: None,
        trigger: None,
        conditions: Seq::empty(),
        chance: None,
        health_modifier: None,
    }
}

/// A skill line at `pos`: a mechanic, then modifiers in any order until the
/// end of input or one of the caller's exit types.
pub open spec fn spec_skill_line(
    toks: Seq<TokenModel>,
    pos: int,
    exits: Seq<TokenType>,
) -> Result<(SkillLineModel, int), ErrorModel>
    decreases toks.len() - pos, 2int,
{
    if spec_at_end(toks, pos) {
        Err(spec_syntax_error(toks[pos], "Expected mechanic name!"@))
    } else {
        match spec_generic_name_and_mlc(
            toks,
            pos,
            seq![TokenType::LeftBrace, TokenType::Space],
            "Expected mechanic name!"@,
        ) {
            Err(e) => Err(e),
            Ok((mech, p)) => spec_skill_line_mods(
                toks,
                clamp_pos(toks, pos + 1, p),
                exits,
                spec_skill_line_init(mech),
            ),
        }
    }
}

/// The modifier scan of a skill line: skips whitespace, then dispatches on
/// the current token — targeter, trigger, inline condition, chance, health
/// modifier — failing on a duplicate targeter or trigger, stopping at an
/// exit type, and rejecting anything else.
pub open spec fn spec_skill_line_mods(
    toks: Seq<TokenModel>,
    pos: int,
    exits: Seq<TokenType>,
    acc: SkillLineModel,
) -> Result<(SkillLineModel, int), ErrorModel>
    decreases toks.len() - pos, 1int,
        via spec_skill_line_mods_decreases
{
    if spec_at_end(toks, pos) {
        Ok((acc, pos))
    } else {
        let q = spec_skip_space(toks, pos);
        if spec_at_end(toks, q) {
            Ok((acc, q))
        } else {
            spec_skill_line_dispatch(toks, q, exits, acc)
        }
    }
}

/// One dispatched modifier of the scan: the token at `pos` (no whitespace
/// ahead of it, the end of input not reached) decides the production.
pub open spec fn spec_skill_line_dispatch(
    toks: Seq<TokenModel>,
    pos: int,
    exits: Seq<TokenType>,
    acc: SkillLineModel,
) -> Result<(SkillLineModel, int), ErrorModel>
    decreases toks.len() - pos, 0int,
{
    if spec_at_end(toks, pos) {
        Err(spec_syntax_error(toks[pos], "Expected a valid skill line modifier"@))
    } else {
        let ty = toks[pos].type_;
        if ty == TokenType::At {
            match acc.targeter {
                Some(t) => Err(targeter_already_defined_error_model(spec_targeter_range(t))),
                None => match spec_targeter(toks, pos + 1) {
                    Err(e) => Err(e),
                    Ok((t, p)) => spec_skill_line_mods(
                        toks,
                        clamp_pos(toks, pos + 1, p),
                        exits,
                        SkillLineModel { targeter: Some(t), ..acc },
                    ),
                },
            }
        } else if ty == TokenType::Tilde {
            match acc.trigger {
                Some(t) => Err(trigger_already_defined_error_model(spec_trigger_range(t))),
                None => match spec_trigger(toks, pos + 1) {
                    Err(e) => Err(e),
                    Ok((t, p)) => spec_skill_line_mods(
                        toks,
                        clamp_pos(toks, pos + 1, p),
                        exits,
                        SkillLineModel { trigger: Some(t), ..acc },
                    ),
                },
            }
        } else if ty == TokenType::Question {
            match spec_inline_condition(toks, pos + 1) {
                Err(e) => Err(e),
                Ok((c, p)) => spec_skill_line_mods(
                    toks,
                    clamp_pos(toks, pos + 1, p),
                    exits,
                    SkillLineModel { conditions: acc.conditions.push(c), ..acc },
                ),
            }
        } else if ty == TokenType::Percent {
            match spec_consume(
                toks,
                pos + 1,
                TokenType::Number,
                Some("Expected a chance value after '%'!"@),
            ) {
                Err(e) => Err(e),
                Ok((n, p)) => spec_skill_line_mods(
                    toks,
                    clamp_pos(toks, pos + 1, p),
                    exits,
                    SkillLineModel { chance: Some(ChanceModel { token: n }), ..acc },
                ),
            }
        } else if ty == TokenType::LessThan || ty == TokenType::GreaterThan || ty
            == TokenType::Equal {
            match spec_health_modifier(toks, pos) {
                Err(e) => Err(e),
                Ok((h, p)) => spec_skill_line_mods(
                    toks,
                    clamp_pos(toks, pos + 1, p),
                    exits,
                    SkillLineModel { health_modifier: Some(h), ..acc },
                ),
            }
        } else if exits.contains(ty) {
            Ok((acc, pos))
        } else {
            Err(spec_syntax_error(toks[pos], "Expected a valid skill line modifier"@))
        }
    }
}

#[via_fn]
proof fn spec_skill_line_mods_decreases(
    toks: Seq<TokenModel>,
    pos: int,
    exits: Seq<TokenType>,
    acc: SkillLineModel,
) {
    lemma_skip_space_bounds(toks);
}

/// The parse of a whole token sequence: one skill line with no exit types.
pub open spec fn spec_parse(toks: Seq<TokenModel>) -> Result<(SkillLineModel, int), ErrorModel> {
    spec_skill_line(toks, 0, Seq::empty())
}

/// The view of an optional token.
pub open spec fn opt_token_view(o: Option<MythicToken>) -> Option<TokenModel> {
    match o {
        Some(t) => Some(t@),
        None => None,
    }
}

/// The view of an optional message.
pub open spec fn opt_message_view(o: Option<String>) -> Option<Seq<char>> {
    match o {
        Some(m) => Some(m@),
        None => None,
    }
}

/// The parser: owns the scanner's token sequence and a cursor into it.
pub struct Parser {
    current: usize,
    tokens: Vec<MythicToken>,
    source: String,
}

impl Parser {
    /// The models of the tokens being parsed.
    pub closed spec fn toks(&self) -> Seq<TokenModel> {
        view_tokens(self.tokens@)
    }

    /// The cursor: the index of the next token to consume.
    pub closed spec fn pos(&self) -> int {
        self.current as int
    }

    /// The parser's invariant: a well-formed token sequence and a cursor
    /// that has not passed the end-of-input token.
    pub closed spec fn wf(&self) -> bool {
        &&& wf_tokens(self.toks())
        &&& self.current < self.tokens@.len()
    }

    pub fn new(tokens: Vec<MythicToken>, source: String) -> (r: Self)
        requires
            wf_tokens(view_tokens(tokens@)),
        ensures
            r.wf(),
            r.toks() == view_tokens(tokens@),
            r.pos() == 0,
    {
        Self { current: 0, tokens, source }
    }

    fn is_at_end(&self) -> (r: bool)
        requires
            self.wf(),
        ensures
            r == spec_at_end(self.toks(), self.pos()),
    {
        matches!(self.peek().type_, TokenType::Eof)
    }

    fn peek(&self) -> (t: &MythicToken)
        requires
            self.wf(),
        ensures
            t@ == self.toks()[self.pos()],
    {
        &self.tokens[self.current]
    }

    fn previous(&self) -> (t: MythicToken)
        requires
            self.wf(),
            self.current >= 1,
        ensures
            t@ == self.toks()[self.pos() - 1],
    {
        self.tokens[self.current - 1].clone()
    }

    fn advance(&mut self) -> (t: MythicToken)
        requires
            old(self).wf(),
            !spec_at_end(old(self).toks(), old(self).pos()) || old(self).current >= 1,
        ensures
            final(self).wf(),
            final(self).tokens == old(self).tokens,
            final(self).source == old(self).source,
            final(self).pos() == if spec_at_end(old(self).toks(), old(self).pos()) {
                old(self).pos()
            } else {
                old(self).pos() + 1
            },
            t@ == old(self).toks()[final(self).pos() - 1],
    {
        proof {
            assert(self.tokens.len() == self.tokens@.len());
        }
        if !self.is_at_end() {
            self.current = self.current + 1;
        }
        self.tokens[self.current - 1].clone()
    }

    fn check(&self, type_: TokenType) -> (r: bool)
        requires
            self.wf(),
        ensures
            r == (!spec_at_end(self.toks(), self.pos()) && self.toks()[self.pos()].type_
                == type_),
    {
        if self.is_at_end() {
            false
        } else {
            self.peek().type_ == type_
        }
    }

    fn check_any(&self, types: &[TokenType]) -> (r: bool)
        requires
            self.wf(),
        ensures
            r == (!spec_at_end(self.toks(), self.pos()) && types@.contains(
                self.toks()[self.pos()].type_,
            )),
    {
        let mut i: usize = 0;
        while i < types.len()
            invariant
                self.wf(),
                i <= types@.len(),
                !spec_at_end(self.toks(), self.pos()) ==> forall|k: int|
                    0 <= k < i ==> self.toks()[self.pos()].type_ != types@[k],
            decreases types@.len() - i,
        {
            if self.check(types[i]) {
                return true;
            }
            i = i + 1;
        }
        false
    }

    fn matches(&mut self, type_: TokenType) -> (r: bool)
        requires
            old(self).wf(),
        ensures
            final(self).wf(),
            final(self).tokens == old(self).tokens,
            final(self).source == old(self).source,
            r == (!spec_at_end(old(self).toks(), old(self).pos())
                && old(self).toks()[old(self).pos()].type_ == type_),
            final(self).pos() == if r {
                old(self).pos() + 1
            } else {
                old(self).pos()
            },
    {
        if self.check(type_) {
            self.advance();
            true
        } else {
            false
        }
    }

    /// Skips the run of whitespace tokens at the cursor, if any.
    fn consume_whitespace(&mut self)
        requires
            old(self).wf(),
        ensures
            final(self).wf(),
            final(self).tokens == old(self).tokens,
            final(self).source == old(self).source,
            old(self).pos() <= final(self).pos(),
            final(self).pos() == spec_skip_space(old(self).toks(), old(self).pos()),
    {
        while self.check(TokenType::Space)
            invariant
                self.wf(),
                self.tokens == old(self).tokens,
                self.source == old(self).source,
                old(self).pos() <= self.pos(),
                spec_skip_space(self.toks(), old(self).pos()) == spec_skip_space(
                    self.toks(),
                    self.pos(),
                ),
            decreases self.toks().len() - self.pos(),
        {
            self.advance();
        }
    }

    fn consume(&mut self, type_: TokenType, error: Option<String>) -> (r: Result<
        MythicToken,
        Error,
    >)
        requires
            old(self).wf(),
        ensures
            final(self).wf(),
            final(self).tokens == old(self).tokens,
            final(self).source == old(self).source,
            match spec_consume(old(self).toks(), old(self).pos(), type_, opt_message_view(error)) {
                Ok((t, p)) => r matches Ok(tok) && tok@ == t && final(self).pos() == p,
                Err(em) => r matches Err(e) && e@ == em && final(self).pos() == old(self).pos(),
            },
    {
        if self.check(type_) {
            let t = self.advance();
            return Ok(t);
        }
        let range = self.peek().get_range();
        match error {
            Some(m) => Err(SyntaxError::new(range, m).to_error()),
            None => Err(SyntaxError::new(range, String::from_str("Unexpected token!")).to_error()),
        }
    }

    fn consume_any(&mut self, types: &[TokenType], error: Option<String>) -> (r: Result<
        MythicToken,
        Error,
    >)
        requires
            old(self).wf(),
        ensures
            final(self).wf(),
            final(self).tokens == old(self).tokens,
            final(self).source == old(self).source,
            match spec_consume_any(
                old(self).toks(),
                old(self).pos(),
                types@,
                opt_message_view(error),
            ) {
                Ok((t, p)) => r matches Ok(tok) && tok@ == t && final(self).pos() == p,
                Err(em) => r matches Err(e) && e@ == em && final(self).pos() == old(self).pos(),
            },
    {
        if self.check_any(types) {
            let t = self.advance();
            return Ok(t);
        }
        let range = self.peek().get_range();
        match error {
            Some(m) => Err(SyntaxError::new(range, m).to_error()),
            None => Err(SyntaxError::new(range, String::from_str("Unexpected token!")).to_error()),
        }
    }

    /// Skips a balanced `open ... close` group whose opener stands at the
    /// cursor, stopping at the matching closer (or at the end of input when
    /// the group is unbalanced) without consuming it.
    fn skip_balanced(&mut self, open: TokenType, close: TokenType)
        requires
            old(self).wf(),
            !spec_at_end(old(self).toks(), old(self).pos()),
            old(self).toks()[old(self).pos()].type_ == open,
        ensures
            final(self).wf(),
            final(self).tokens == old(self).tokens,
            final(self).source == old(self).source,
            final(self).pos() == spec_skip_depth(
                old(self).toks(),
                old(self).pos() + 1,
                open,
                close,
                1,
            ),
            old(self).pos() < final(self).pos(),
    {
        self.advance();
        let mut depth: usize = 1;
        while !(depth == 1 && self.check(close)) && !self.is_at_end()
            invariant
                self.wf(),
                self.tokens == old(self).tokens,
                self.source == old(self).source,
                1 <= depth,
                depth <= self.pos(),
                old(self).pos() < self.pos(),
                spec_skip_depth(self.toks(), old(self).pos() + 1, open, close, 1)
                    == spec_skip_depth(self.toks(), self.pos(), open, close, depth as int),
            decreases self.toks().len() - self.pos(),
        {
            proof {
                assert(self.tokens.len() == self.tokens@.len());
            }
            if self.check(close) {
                depth = depth - 1;
            } else if self.check(open) {
                depth = depth + 1;
            }
            self.advance();
        }
    }

    /// Clones the tokens of the half-open index range `[from, to)`.
    fn clone_token_range(&self, from: usize, to: usize) -> (r: Vec<MythicToken>)
        requires
            from <= to <= self.tokens@.len(),
        ensures
            view_tokens(r@) == view_tokens(self.tokens@).subrange(from as int, to as int),
    {
        let mut r: Vec<MythicToken> = Vec::new();
        let mut i: usize = from;
        while i < to
            invariant
                from <= i <= to <= self.tokens@.len(),
                r@.len() == i - from,
                forall|k: int| 0 <= k < r@.len() ==> (#[trigger] r@[k])@ == self.tokens@[from
                    + k]@,
            decreases to - i,
        {
            let t = self.tokens[i].clone();
            r.push(t);
            i = i + 1;
        }
        proof {
            assert(view_tokens(r@) =~= view_tokens(self.tokens@).subrange(
                from as int,
                to as int,
            ));
        }
        r
    }

    /// Scans an opaque run of tokens up to one of the caller's terminator
    /// types (or the end of input), skipping balanced brace and bracket
    /// groups whole; an empty run is an error exactly when the caller
    /// supplied a message.
    fn generic_string(&mut self, end: &[TokenType], error: Option<String>) -> (r: Result<
        GenericString,
        Error,
    >)
        requires
            old(self).wf(),
        ensures
            final(self).wf(),
            final(self).tokens == old(self).tokens,
            final(self).source == old(self).source,
            old(self).pos() <= final(self).pos(),
            match spec_generic_string(
                old(self).toks(),
                old(self).pos(),
                end@,
                opt_message_view(error),
            ) {
                Ok((m, p)) => r matches Ok(g) && g@ == m && final(self).pos() == p,
                Err(em) => r matches Err(e) && e@ == em,
            },
    {
        let ghost toks = self.toks();
        let start = self.current;
        proof {
            lemma_skip_depth_stops(toks, TokenType::LeftBrace, TokenType::RightBrace);
            lemma_skip_depth_stops(
                toks,
                TokenType::LeftSquareBracket,
                TokenType::RightSquareBracket,
            );
        }
        while !self.check_any(end) && !self.is_at_end()
            invariant
                self.wf(),
                self.tokens == old(self).tokens,
                self.source == old(self).source,
                toks == self.toks(),
                start as int <= self.pos(),
                spec_generic_string_end(toks, start as int, end@) == spec_generic_string_end(
                    toks,
                    self.pos(),
                    end@,
                ),
            decreases toks.len() - self.pos(),
        {
            proof {
                lemma_skip_depth_stops(toks, TokenType::LeftBrace, TokenType::RightBrace);
                lemma_skip_depth_stops(
                    toks,
                    TokenType::LeftSquareBracket,
                    TokenType::RightSquareBracket,
                );
            }
            if self.check(TokenType::LeftBrace) {
                self.skip_balanced(TokenType::LeftBrace, TokenType::RightBrace);
            }
            if self.check(TokenType::LeftSquareBracket) {
                self.skip_balanced(TokenType::LeftSquareBracket, TokenType::RightSquareBracket);
            }
            self.advance();
        }
        let string = self.clone_token_range(start, self.current);
        proof {
            assert(self.pos() == spec_generic_string_end(old(self).toks(), old(self).pos(), end@));
            assert(view_tokens(string@).len() == string@.len());
            assert(string@.len() == self.pos() - old(self).pos());
        }
        if string.len() == 0 {
            match error {
                Some(m) => {
                    let range = self.peek().get_range();
                    return Err(SyntaxError::new(range, m).to_error());
                },
                None => {},
            }
        }
        Ok(GenericString::new(string))
    }

    /// Parses a targeter; the `@` token was just consumed.
    fn targeter(&mut self) -> (r: Result<Targeter, Error>)
        requires
            old(self).wf(),
            old(self).current >= 1,
        ensures
            final(self).wf(),
            final(self).tokens == old(self).tokens,
            final(self).source == old(self).source,
            old(self).pos() <= final(self).pos(),
            match spec_targeter(old(self).toks(), old(self).pos()) {
                Ok((m, p)) => r matches Ok(t) && t@ == m && final(self).pos() == p && old(
                    self,
                ).pos() < final(self).pos(),
                Err(em) => r matches Err(e) && e@ == em,
            },
        decreases old(self).toks().len() - old(self).pos(), 1int,
    {
        let at = self.previous();
        let name = match self.consume(
            TokenType::Identifier,
            Some(String::from_str("Expected targeter name!")),
        ) {
            Ok(t) => t,
            Err(e) => {
                return Err(e);
            },
        };
        if self.check(TokenType::LeftBrace) {
            match self.mlc() {
                Ok(m) => Ok(Targeter::new(at, name, Some(m))),
                Err(e) => Err(e),
            }
        } else {
            Ok(Targeter::new(at, name, None))
        }
    }

    /// Parses a trigger; the `~` token was just consumed.
    fn trigger(&mut self) -> (r: Result<Trigger, Error>)
        requires
            old(self).wf(),
            old(self).current >= 1,
        ensures
            final(self).wf(),
            final(self).tokens == old(self).tokens,
            final(self).source == old(self).source,
            old(self).pos() <= final(self).pos(),
            match spec_trigger(old(self).toks(), old(self).pos()) {
                Ok((m, p)) => r matches Ok(t) && t@ == m && final(self).pos() == p && old(
                    self,
                ).pos() < final(self).pos(),
                Err(em) => r matches Err(e) && e@ == em,
            },
    {
        let caret = self.previous();
        let name = match self.generic_string(
            &[TokenType::LeftBrace, TokenType::Space, TokenType::Colon],
            Some(String::from_str("Expected a trigger name!")),
        ) {
            Ok(g) => g,
            Err(e) => {
                return Err(e);
            },
        };
        if self.matches(TokenType::Colon) {
            let colon = self.previous();
            let arg = match self.generic_string(
                &[TokenType::LeftBrace, TokenType::Space],
                Some(String::from_str("Expected a trigger argument after ':'!")),
            ) {
                Ok(g) => g,
                Err(e) => {
                    return Err(e);
                },
            };
            Ok(Trigger::new(caret, name, Some(colon), Some(arg)))
        } else {
            Ok(Trigger::new(caret, name, None, None))
        }
    }

    /// One pass of the inline-condition prefix scan: consumes at most one
    /// `!` and at most one `~`, failing on a duplicate of either.
    fn condition_prefix_step(
        &mut self,
        exclam: Option<MythicToken>,
        tilde: Option<MythicToken>,
    ) -> (r: Result<(Option<MythicToken>, Option<MythicToken>), Error>)
        requires
            old(self).wf(),
        ensures
            final(self).wf(),
            final(self).tokens == old(self).tokens,
            final(self).source == old(self).source,
            old(self).pos() <= final(self).pos(),
            match spec_cond_prefix_step(
                old(self).toks(),
                old(self).pos(),
                opt_token_view(exclam),
                opt_token_view(tilde),
            ) {
                Ok((e2, t2, p)) => r matches Ok(pair) && opt_token_view(pair.0) == e2
                    && opt_token_view(pair.1) == t2 && final(self).pos() == p,
                Err(em) => r matches Err(e) && e@ == em,
            },
    {
        let mut exclam = exclam;
        let mut tilde = tilde;
        if self.matches(TokenType::Exclamation) {
            if exclam.is_some() {
                let range = self.peek().get_range();
                return Err(
                    SyntaxError::new(
                        range,
                        String::from_str("Duplicate inline condition trigger symbol!"),
                    ).to_error(),
                );
            }
            exclam = Some(self.previous());
            if self.matches(TokenType::Tilde) {
                if tilde.is_some() {
                    let range = self.peek().get_range();
                    return Err(
                        SyntaxError::new(
                            range,
                            String::from_str("Duplicate inline condition trigger symbol!"),
                        ).to_error(),
                    );
                }
                tilde = Some(self.previous());
            }
            Ok((exclam, tilde))
        } else if self.matches(TokenType::Tilde) {
            if tilde.is_some() {
                let range = self.peek().get_range();
                return Err(
                    SyntaxError::new(
                        range,
                        String::from_str("Duplicate inline condition trigger symbol!"),
                    ).to_error(),
                );
            }
            tilde = Some(self.previous());
            Ok((exclam, tilde))
        } else {
            Ok((exclam, tilde))
        }
    }

    /// Parses an inline condition; the `?` token was just consumed.
    fn inline_condition(&mut self) -> (r: Result<InlineCondition, Error>)
        requires
            old(self).wf(),
            old(self).current >= 1,
        ensures
            final(self).wf(),
            final(self).tokens == old(self).tokens,
            final(self).source == old(self).source,
            old(self).pos() <= final(self).pos(),
            match spec_inline_condition(old(self).toks(), old(self).pos()) {
                Ok((m, p)) => r matches Ok(c) && c@ == m && final(self).pos() == p && old(
                    self,
                ).pos() < final(self).pos(),
                Err(em) => r matches Err(e) && e@ == em,
            },
        decreases old(self).toks().len() - old(self).pos(), 1int,
    {
        let question = self.previous();
        let (e1, t1) = match self.condition_prefix_step(None, None) {
            Ok(p) => p,
            Err(e) => {
                return Err(e);
            },
        };
        let (e2, t2) = match self.condition_prefix_step(e1, t1) {
            Ok(p) => p,
            Err(e) => {
                return Err(e);
            },
        };
        let name = match self.consume(
            TokenType::Identifier,
            Some(String::from_str("Expected inline condition name!")),
        ) {
            Ok(t) => t,
            Err(e) => {
                return Err(e);
            },
        };
        if self.check(TokenType::LeftBrace) {
            match self.mlc() {
                Ok(m) => Ok(InlineCondition::new(question, e2, t2, name, Some(m))),
                Err(e) => Err(e),
            }
        } else {
            Ok(InlineCondition::new(question, e2, t2, name, None))
        }
    }

    /// Parses a health modifier at the cursor (the operator not yet
    /// consumed).
    fn health_modifier(&mut self) -> (r: Result<HealthModifier, Error>)
        requires
            old(self).wf(),
        ensures
            final(self).wf(),
            final(self).tokens == old(self).tokens,
            final(self).source == old(self).source,
            old(self).pos() <= final(self).pos(),
            match spec_health_modifier(old(self).toks(), old(self).pos()) {
                Ok((m, p)) => r matches Ok(h) && h@ == m && final(self).pos() == p && old(
                    self,
                ).pos() < final(self).pos(),
                Err(em) => r matches Err(e) && e@ == em,
            },
    {
        let operator = match self.consume_any(
            &[TokenType::Equal, TokenType::GreaterThan, TokenType::LessThan],
            Some(String::from_str("Expected health modifier operator!")),
        ) {
            Ok(t) => t,
            Err(e) => {
                return Err(e);
            },
        };
        let min = match self.consume(
            TokenType::Number,
            Some(String::from_str("Expected health modifier value!")),
        ) {
            Ok(t) => t,
            Err(e) => {
                return Err(e);
            },
        };
        let mut min_value = HealthModifierValue::Absolute(min.clone());
        if self.matches(TokenType::Percent) {
            min_value = HealthModifierValue::Percentage(min, self.previous());
        }
        if operator.type_ == TokenType::Equal && self.matches(TokenType::Dash) {
            let max = match self.consume(
                TokenType::Number,
                Some(String::from_str("Expected second health modifier value!")),
            ) {
                Ok(t) => t,
                Err(e) => {
                    return Err(e);
                },
            };
            let mut max_value = HealthModifierValue::Absolute(max.clone());
            if self.matches(TokenType::Percent) {
                max_value = HealthModifierValue::Percentage(max, self.previous());
            }
            Ok(HealthModifier::new(operator, HealthModifierValueOrRange::Range(min_value, max_value)))
        } else {
            Ok(HealthModifier::new(operator, HealthModifierValueOrRange::Value(min_value)))
        }
    }

    /// Parses a name and optional config block, the name ending at one of
    /// the caller's terminator types.
    fn generic_name_and_mlc(&mut self, ends: &[TokenType]) -> (r: Result<GenericNameAndMlc, Error>)
        requires
            old(self).wf(),
        ensures
            final(self).wf(),
            final(self).tokens == old(self).tokens,
            final(self).source == old(self).source,
            old(self).pos() <= final(self).pos(),
            match spec_generic_name_and_mlc(
                old(self).toks(),
                old(self).pos(),
                ends@,
                "Expected mechanic name!"@,
            ) {
                Ok((m, p)) => r matches Ok(g) && g@ == m && final(self).pos() == p && old(
                    self,
                ).pos() < final(self).pos(),
                Err(em) => r matches Err(e) && e@ == em,
            },
        decreases old(self).toks().len() - old(self).pos(), 0int,
    {
        let name = match self.generic_string(
            ends,
            Some(String::from_str("Expected mechanic name!")),
        ) {
            Ok(g) => g,
            Err(e) => {
                return Err(e);
            },
        };
        if self.check(TokenType::LeftBrace) {
            match self.mlc() {
                Ok(m) => Ok(GenericNameAndMlc::new(name, Some(m))),
                Err(e) => Err(e),
            }
        } else {
            Ok(GenericNameAndMlc::new(name, None))
        }
    }

    /// Parses a config block at the cursor: `{` then `key=value` entries
    /// separated by `;`, then `}`.
    fn mlc(&mut self) -> (r: Result<MlcContainer, Error>)
        requires
            old(self).wf(),
        ensures
            final(self).wf(),
            final(self).tokens == old(self).tokens,
            final(self).source == old(self).source,
            old(self).pos() <= final(self).pos(),
            match spec_mlc(old(self).toks(), old(self).pos()) {
                Ok((m, p)) => r matches Ok(c) && c@ == m && final(self).pos() == p && old(
                    self,
                ).pos() < final(self).pos(),
                Err(em) => r matches Err(e) && e@ == em,
            },
        decreases old(self).toks().len() - old(self).pos(), 1int,
    {
        let left_brace = match self.consume(
            TokenType::LeftBrace,
            Some(String::from_str("Expected '{' before mlc!")),
        ) {
            Ok(t) => t,
            Err(e) => {
                return Err(e);
            },
        };
        let entries: Vec<Mlc> = Vec::new();
        proof {
            lemma_view_mlcs_empty();
        }
        let mlcs = match self.mlc_entries(entries) {
            Ok(v) => v,
            Err(e) => {
                return Err(e);
            },
        };
        let right_brace = match self.consume(
            TokenType::RightBrace,
            Some(String::from_str("Expected '}' after mlc!")),
        ) {
            Ok(t) => t,
            Err(e) => {
                return Err(e);
            },
        };
        Ok(MlcContainer::new(left_brace, mlcs, right_brace))
    }

    /// Parses the `key=value` entries of a config block, accumulating onto
    /// `entries`; stops before the closing `}` without consuming it.
    fn mlc_entries(&mut self, entries: Vec<Mlc>) -> (r: Result<Vec<Mlc>, Error>)
        requires
            old(self).wf(),
            old(self).current >= 1,
        ensures
            final(self).wf(),
            final(self).tokens == old(self).tokens,
            final(self).source == old(self).source,
            old(self).pos() <= final(self).pos(),
            match spec_mlc_entries(old(self).toks(), old(self).pos(), view_mlcs(entries@)) {
                Ok((ms, p)) => r matches Ok(v) && view_mlcs(v@) == ms && final(self).pos() == p,
                Err(em) => r matches Err(e) && e@ == em,
            },
        decreases old(self).toks().len() - old(self).pos(), 1int,
    {
        let ghost toks = self.toks();
        let prev = self.previous();
        let semi_lit = String::from_str(";");
        let prev_is_semi = match &prev.lexeme {
            Some(s) => *s == semi_lit,
            None => false,
        };
        let semicolon: Option<MythicToken> = if prev_is_semi {
            Some(prev)
        } else {
            None
        };
        proof {
            assert(opt_token_view(semicolon) == spec_prev_semicolon(toks, self.pos()));
        }
        if self.check(TokenType::RightBrace) {
            return Ok(entries);
        }
        self.consume_whitespace();
        let key = match self.consume(
            TokenType::Identifier,
            Some(String::from_str("Expected mlc key!")),
        ) {
            Ok(t) => t,
            Err(e) => {
                return Err(e);
            },
        };
        let equals = match self.consume(
            TokenType::Equal,
            Some(String::from_str("Expected '=' after mlc key!")),
        ) {
            Ok(t) => t,
            Err(e) => {
                return Err(e);
            },
        };
        let ghost p3 = self.pos();
        let value = match self.mlc_value() {
            Ok(v) => v,
            Err(e) => {
                return Err(e);
            },
        };
        proof {
            assert(clamp_pos(toks, p3, self.pos()) == self.pos());
        }
        let entry = Mlc::new(key, equals, MlcValueContainer::MlcValue(value), semicolon);
        proof {
            lemma_view_mlcs_push(entries@, entry);
        }
        let mut entries = entries;
        entries.push(entry);
        self.consume_whitespace();
        if self.matches(TokenType::Semicolon) {
            self.mlc_entries(entries)
        } else {
            Ok(entries)
        }
    }

    /// Parses a config value at the cursor: literal token runs interleaved
    /// with placeholders, ending before a `;` or `}`.
    fn mlc_value(&mut self) -> (r: Result<MlcValue, Error>)
        requires
            old(self).wf(),
        ensures
            final(self).wf(),
            final(self).tokens == old(self).tokens,
            final(self).source == old(self).source,
            old(self).pos() <= final(self).pos(),
            match spec_mlc_value(old(self).toks(), old(self).pos()) {
                Ok((m, p)) => r matches Ok(v) && v@ == m && final(self).pos() == p,
                Err(em) => r matches Err(e) && e@ == em,
            },
        decreases old(self).toks().len() - old(self).pos(), 1int,
    {
        let parts: Vec<MlcValueIdentifier> = Vec::new();
        proof {
            lemma_view_mlc_value_identifiers_empty();
        }
        let start = self.current;
        self.mlc_value_parts(start, parts)
    }

    /// Parses the parts of a config value: the literal run open since
    /// `start`, then on `<` a placeholder, with balanced `{...}` and `[...]`
    /// groups skipped whole.
    fn mlc_value_parts(&mut self, start: usize, parts: Vec<MlcValueIdentifier>) -> (r: Result<
        MlcValue,
        Error,
    >)
        requires
            old(self).wf(),
            start <= old(self).current,
        ensures
            final(self).wf(),
            final(self).tokens == old(self).tokens,
            final(self).source == old(self).source,
            old(self).pos() <= final(self).pos(),
            match spec_mlc_value_parts(
                old(self).toks(),
                old(self).pos(),
                start as int,
                view_mlc_value_identifiers(parts@),
            ) {
                Ok((m, p)) => r matches Ok(v) && v@ == m && final(self).pos() == p,
                Err(em) => r matches Err(e) && e@ == em,
            },
        decreases old(self).toks().len() - old(self).pos(), 0int,
    {
        let ghost toks = self.toks();
        let ghost pos0 = self.pos();
        if self.check(TokenType::Semicolon) || self.check(TokenType::RightBrace)
            || self.is_at_end() {
            let lit = self.clone_token_range(start, self.current);
            let run = MlcValueIdentifier::Identifiers(lit);
            proof {
                lemma_view_mlc_value_identifiers_push(parts@, run);
            }
            let mut parts = parts;
            parts.push(run);
            return Ok(MlcValue::new(parts));
        }
        if self.matches(TokenType::LessThan) {
            let lit = self.clone_token_range(start, self.current - 1);
            let run = MlcValueIdentifier::Identifiers(lit);
            proof {
                lemma_view_mlc_value_identifiers_push(parts@, run);
            }
            let mut parts = parts;
            parts.push(run);
            let ph = match self.placeholder() {
                Ok(p) => p,
                Err(e) => {
                    return Err(e);
                },
            };
            proof {
                assert(clamp_pos(toks, pos0 + 1, self.pos()) == self.pos());
            }
            let part = MlcValueIdentifier::Placeholder(ph);
            proof {
                lemma_view_mlc_value_identifiers_push(parts@, part);
            }
            parts.push(part);
            let new_start = self.current;
            self.mlc_value_parts(new_start, parts)
        } else if self.check(TokenType::LeftBrace) {
            self.skip_balanced(TokenType::LeftBrace, TokenType::RightBrace);
            self.advance();
            self.mlc_value_parts(start, parts)
        } else if self.check(TokenType::LeftSquareBracket) {
            self.skip_balanced(TokenType::LeftSquareBracket, TokenType::RightSquareBracket);
            self.advance();
            self.mlc_value_parts(start, parts)
        } else {
            self.advance();
            self.mlc_value_parts(start, parts)
        }
    }

    /// Parses a placeholder; the `<` token was just consumed.
    fn placeholder(&mut self) -> (r: Result<Placeholder, Error>)
        requires
            old(self).wf(),
            old(self).current >= 1,
        ensures
            final(self).wf(),
            final(self).tokens == old(self).tokens,
            final(self).source == old(self).source,
            old(self).pos() <= final(self).pos(),
            match spec_placeholder(old(self).toks(), old(self).pos()) {
                Ok((m, p)) => r matches Ok(ph) && ph@ == m && final(self).pos() == p && old(
                    self,
                ).pos() < final(self).pos(),
                Err(em) => r matches Err(e) && e@ == em,
            },
        decreases old(self).toks().len() - old(self).pos(), 1int,
    {
        let ghost toks = self.toks();
        let ghost pos0 = self.pos();
        let left = self.previous();
        let seg_ends: [TokenType; 4] = [
            TokenType::LeftBrace,
            TokenType::Space,
            TokenType::Dot,
            TokenType::GreaterThan,
        ];
        let seg_slice = seg_ends.as_slice();
        proof {
            assert(seg_slice@ =~= placeholder_segment_ends());
        }
        let first = match self.generic_name_and_mlc(seg_slice) {
            Ok(g) => g,
            Err(e) => {
                return Err(e);
            },
        };
        proof {
            assert(!spec_at_end(toks, pos0));
            assert(clamp_pos(toks, pos0 + 1, self.pos()) == self.pos());
        }
        let ghost first_model = view_generic_name_and_mlc(&first);
        let mut identifiers: Vec<GenericNameAndMlc> = Vec::new();
        let dots: Vec<MythicToken> = Vec::new();
        proof {
            lemma_view_name_and_mlcs_empty();
            lemma_view_name_and_mlcs_push(identifiers@, first);
        }
        identifiers.push(first);
        proof {
            assert(view_name_and_mlcs(identifiers@) =~= seq![first_model]);
            assert(view_tokens(dots@) =~= Seq::<TokenModel>::empty());
        }
        self.placeholder_segments(left, identifiers, dots)
    }

    /// Parses the dot-separated segments after a placeholder's first one,
    /// then its closing `>`.
    fn placeholder_segments(
        &mut self,
        left: MythicToken,
        identifiers: Vec<GenericNameAndMlc>,
        dots: Vec<MythicToken>,
    ) -> (r: Result<Placeholder, Error>)
        requires
            old(self).wf(),
        ensures
            final(self).wf(),
            final(self).tokens == old(self).tokens,
            final(self).source == old(self).source,
            old(self).pos() <= final(self).pos(),
            match spec_placeholder_segments(
                old(self).toks(),
                old(self).pos(),
                left@,
                view_name_and_mlcs(identifiers@),
                view_tokens(dots@),
            ) {
                Ok((m, p)) => r matches Ok(ph) && ph@ == m && final(self).pos() == p,
                Err(em) => r matches Err(e) && e@ == em,
            },
        decreases old(self).toks().len() - old(self).pos(), 1int,
    {
        let ghost toks = self.toks();
        let ghost pos0 = self.pos();
        if self.matches(TokenType::Dot) {
            if self.is_at_end() {
                return self.placeholder_close(left, identifiers, dots);
            }
            let dot = self.previous();
            let seg_ends: [TokenType; 4] = [
                TokenType::LeftBrace,
                TokenType::Space,
                TokenType::Dot,
                TokenType::GreaterThan,
            ];
            let seg_slice = seg_ends.as_slice();
            proof {
                assert(seg_slice@ =~= placeholder_segment_ends());
            }
            let seg = match self.generic_name_and_mlc(seg_slice) {
                Ok(g) => g,
                Err(e) => {
                    return Err(e);
                },
            };
            proof {
                assert(clamp_pos(toks, pos0 + 1, self.pos()) == self.pos());
                lemma_view_name_and_mlcs_push(identifiers@, seg);
                lemma_view_tokens_push_parser(dots@, dot);
            }
            let mut identifiers = identifiers;
            identifiers.push(seg);
            let mut dots = dots;
            dots.push(dot);
            self.placeholder_segments(left, identifiers, dots)
        } else {
            self.placeholder_close(left, identifiers, dots)
        }
    }

    /// Consumes a placeholder's mandatory closing `>` and builds the node.
    fn placeholder_close(
        &mut self,
        left: MythicToken,
        identifiers: Vec<GenericNameAndMlc>,
        dots: Vec<MythicToken>,
    ) -> (r: Result<Placeholder, Error>)
        requires
            old(self).wf(),
        ensures
            final(self).wf(),
            final(self).tokens == old(self).tokens,
            final(self).source == old(self).source,
            old(self).pos() <= final(self).pos(),
            match spec_placeholder_close(
                old(self).toks(),
                old(self).pos(),
                left@,
                view_name_and_mlcs(identifiers@),
                view_tokens(dots@),
            ) {
                Ok((m, p)) => r matches Ok(ph) && ph@ == m && final(self).pos() == p,
                Err(em) => r matches Err(e) && e@ == em,
            },
    {
        let right = match self.consume(
            TokenType::GreaterThan,
            Some(String::from_str("Expected '>' after placeholder!")),
        ) {
            Ok(t) => t,
            Err(e) => {
                return Err(e);
            },
        };
        Ok(Placeholder::new(left, identifiers, dots, right))
    }

    /// Parses one skill line at the cursor: a mechanic, then modifiers in
    /// any order until the end of input or one of the caller's exit types.
    fn skill_line(&mut self, exit_types: &[TokenType]) -> (r: Result<SkillLine, Error>)
        requires
            old(self).wf(),
        ensures
            final(self).wf(),
            final(self).tokens == old(self).tokens,
            final(self).source == old(self).source,
            old(self).pos() <= final(self).pos(),
            match spec_skill_line(old(self).toks(), old(self).pos(), exit_types@) {
                Ok((m, p)) => r matches Ok(ast) && ast@ == m && final(self).pos() == p && old(
                    self,
                ).pos() < final(self).pos(),
                Err(em) => r matches Err(e) && e@ == em,
            },
        decreases old(self).toks().len() - old(self).pos(), 2int,
    {
        let ghost toks = self.toks();
        let ghost pos0 = self.pos();
        let mech_ends: [TokenType; 2] = [TokenType::LeftBrace, TokenType::Space];
        let mech_slice = mech_ends.as_slice();
        proof {
            assert(mech_slice@ =~= seq![TokenType::LeftBrace, TokenType::Space]);
        }
        let mechanic = match self.generic_name_and_mlc(mech_slice) {
            Ok(g) => g,
            Err(e) => {
                return Err(e);
            },
        };
        proof {
            assert(!spec_at_end(toks, pos0));
            assert(clamp_pos(toks, pos0 + 1, self.pos()) == self.pos());
        }
        let conditions: Vec<InlineCondition> = Vec::new();
        proof {
            lemma_view_conditions_empty();
        }
        let init = SkillLine {
            mechanic,
            targeter: None,
            trigger: None,
            conditions,
            chance: None,
            health_modifier: None,
        };
        proof {
            assert(view_skill_line(&init) == spec_skill_line_init(
                view_generic_name_and_mlc(&init.mechanic),
            ));
        }
        self.skill_line_mods(exit_types, init)
    }

    /// Scans a skill line's modifiers after its mechanic: skips whitespace,
    /// dispatches on the current token, and accumulates onto `acc` until the
    /// end of input or one of the caller's exit types.
    fn skill_line_mods(&mut self, exit_types: &[TokenType], acc: SkillLine) -> (r: Result<
        SkillLine,
        Error,
    >)
        requires
            old(self).wf(),
        ensures
            final(self).wf(),
            final(self).tokens == old(self).tokens,
            final(self).source == old(self).source,
            old(self).pos() <= final(self).pos(),
            match spec_skill_line_mods(
                old(self).toks(),
                old(self).pos(),
                exit_types@,
                view_skill_line(&acc),
            ) {
                Ok((m, p)) => r matches Ok(ast) && ast@ == m && final(self).pos() == p,
                Err(em) => r matches Err(e) && e@ == em,
            },
        decreases old(self).toks().len() - old(self).pos(), 2int,
    {
        let ghost toks = self.toks();
        let ghost pos0 = self.pos();
        if self.is_at_end() {
            return Ok(acc);
        }
        self.consume_whitespace();
        if self.is_at_end() {
            return Ok(acc);
        }
        self.modifier_dispatch(exit_types, acc)
    }

    /// Dispatches one modifier of a skill line's scan: the whitespace ahead
    /// is already consumed and the end of input not yet reached.
    fn modifier_dispatch(&mut self, exit_types: &[TokenType], acc: SkillLine) -> (r: Result<
        SkillLine,
        Error,
    >)
        requires
            old(self).wf(),
            !spec_at_end(old(self).toks(), old(self).pos()),
        ensures
            final(self).wf(),
            final(self).tokens == old(self).tokens,
            final(self).source == old(self).source,
            old(self).pos() <= final(self).pos(),
            match spec_skill_line_dispatch(
                old(self).toks(),
                old(self).pos(),
                exit_types@,
                view_skill_line(&acc),
            ) {
                Ok((m, p)) => r matches Ok(ast) && ast@ == m && final(self).pos() == p,
                Err(em) => r matches Err(e) && e@ == em,
            },
        decreases old(self).toks().len() - old(self).pos(), 1int,
    {
        if self.check(TokenType::At) {
            return self.modifier_targeter(exit_types, acc);
        }
        if self.check(TokenType::Tilde) {
            return self.modifier_trigger(exit_types, acc);
        }
        if self.check(TokenType::Question) {
            return self.modifier_condition(exit_types, acc);
        }
        if self.check(TokenType::Percent) {
            return self.modifier_chance(exit_types, acc);
        }
        if self.check(TokenType::LessThan) || self.check(TokenType::GreaterThan) || self.check(
            TokenType::Equal,
        ) {
            return self.modifier_health(exit_types, acc);
        }
        if self.check_any(exit_types) {
            return Ok(acc);
        }
        let range = self.peek().get_range();
        Err(
            SyntaxError::new(
                range,
                String::from_str("Expected a valid skill line modifier"),
            ).to_error(),
        )
    }

    /// One modifier step: a targeter introduced by the `@` at the cursor,
    /// rejected when one was already parsed.
    fn modifier_targeter(&mut self, exit_types: &[TokenType], acc: SkillLine) -> (r: Result<
        SkillLine,
        Error,
    >)
        requires
            old(self).wf(),
            !spec_at_end(old(self).toks(), old(self).pos()),
            old(self).toks()[old(self).pos()].type_ == TokenType::At,
        ensures
            final(self).wf(),
            final(self).tokens == old(self).tokens,
            final(self).source == old(self).source,
            old(self).pos() <= final(self).pos(),
            match spec_skill_line_dispatch(
                old(self).toks(),
                old(self).pos(),
                exit_types@,
                view_skill_line(&acc),
            ) {
                Ok((m, p)) => r matches Ok(ast) && ast@ == m && final(self).pos() == p,
                Err(em) => r matches Err(e) && e@ == em,
            },
        decreases old(self).toks().len() - old(self).pos(), 0int,
    {
        let ghost toks = self.toks();
        let ghost pos0 = self.pos();
        self.advance();
        match &acc.targeter {
            Some(t) => {
                let range = t.get_range();
                return Err(TargeterAlreadyDefinedError::new(range).to_error());
            },
            None => {},
        }
        let t = match self.targeter() {
            Ok(t) => t,
            Err(e) => {
                return Err(e);
            },
        };
        proof {
            assert(clamp_pos(toks, pos0 + 1, self.pos()) == self.pos());
        }
        let mut acc = acc;
        acc.targeter = Some(t);
        self.skill_line_mods(exit_types, acc)
    }

    /// One modifier step: a trigger introduced by the `~` at the cursor,
    /// rejected when one was already parsed.
    fn modifier_trigger(&mut self, exit_types: &[TokenType], acc: SkillLine) -> (r: Result<
        SkillLine,
        Error,
    >)
        requires
            old(self).wf(),
            !spec_at_end(old(self).toks(), old(self).pos()),
            old(self).toks()[old(self).pos()].type_ == TokenType::Tilde,
        ensures
            final(self).wf(),
            final(self).tokens == old(self).tokens,
            final(self).source == old(self).source,
            old(self).pos() <= final(self).pos(),
            match spec_skill_line_dispatch(
                old(self).toks(),
                old(self).pos(),
                exit_types@,
                view_skill_line(&acc),
            ) {
                Ok((m, p)) => r matches Ok(ast) && ast@ == m && final(self).pos() == p,
                Err(em) => r matches Err(e) && e@ == em,
            },
        decreases old(self).toks().len() - old(self).pos(), 0int,
    {
        let ghost toks = self.toks();
        let ghost pos0 = self.pos();
        self.advance();
        match &acc.trigger {
            Some(t) => {
                let range = t.get_range();
                return Err(TriggerAlreadyDefinedError::new(range).to_error());
            },
            None => {},
        }
        let t = match self.trigger() {
            Ok(t) => t,
            Err(e) => {
                return Err(e);
            },
        };
        proof {
            assert(clamp_pos(toks, pos0 + 1, self.pos()) == self.pos());
        }
        let mut acc = acc;
        acc.trigger = Some(t);
        self.skill_line_mods(exit_types, acc)
    }

    /// One modifier step: an inline condition introduced by the `?` at the
    /// cursor; conditions accumulate without a duplicate restriction.
    fn modifier_condition(&mut self, exit_types: &[TokenType], acc: SkillLine) -> (r: Result<
        SkillLine,
        Error,
    >)
        requires
            old(self).wf(),
            !spec_at_end(old(self).toks(), old(self).pos()),
            old(self).toks()[old(self).pos()].type_ == TokenType::Question,
        ensures
            final(self).wf(),
            final(self).tokens == old(self).tokens,
            final(self).source == old(self).source,
            old(self).pos() <= final(self).pos(),
            match spec_skill_line_dispatch(
                old(self).toks(),
                old(self).pos(),
                exit_types@,
                view_skill_line(&acc),
            ) {
                Ok((m, p)) => r matches Ok(ast) && ast@ == m && final(self).pos() == p,
                Err(em) => r matches Err(e) && e@ == em,
            },
        decreases old(self).toks().len() - old(self).pos(), 0int,
    {
        let ghost toks = self.toks();
        let ghost pos0 = self.pos();
        self.advance();
        let c = match self.inline_condition() {
            Ok(c) => c,
            Err(e) => {
                return Err(e);
            },
        };
        proof {
            assert(clamp_pos(toks, pos0 + 1, self.pos()) == self.pos());
            lemma_view_conditions_push(acc.conditions@, c);
        }
        let mut acc = acc;
        acc.conditions.push(c);
        self.skill_line_mods(exit_types, acc)
    }

    /// One modifier step: a chance introduced by the `%` at the cursor,
    /// which must be followed by its number.
    fn modifier_chance(&mut self, exit_types: &[TokenType], acc: SkillLine) -> (r: Result<
        SkillLine,
        Error,
    >)
        requires
            old(self).wf(),
            !spec_at_end(old(self).toks(), old(self).pos()),
            old(self).toks()[old(self).pos()].type_ == TokenType::Percent,
        ensures
            final(self).wf(),
            final(self).tokens == old(self).tokens,
            final(self).source == old(self).source,
            old(self).pos() <= final(self).pos(),
            match spec_skill_line_dispatch(
                old(self).toks(),
                old(self).pos(),
                exit_types@,
                view_skill_line(&acc),
            ) {
                Ok((m, p)) => r matches Ok(ast) && ast@ == m && final(self).pos() == p,
                Err(em) => r matches Err(e) && e@ == em,
            },
        decreases old(self).toks().len() - old(self).pos(), 0int,
    {
        let ghost toks = self.toks();
        let ghost pos0 = self.pos();
        self.advance();
        let n = match self.consume(
            TokenType::Number,
            Some(String::from_str("Expected a chance value after '%'!")),
        ) {
            Ok(t) => t,
            Err(e) => {
                return Err(e);
            },
        };
        proof {
            assert(clamp_pos(toks, pos0 + 1, self.pos()) == self.pos());
        }
        let mut acc = acc;
        acc.chance = Some(Chance::new(n));
        self.skill_line_mods(exit_types, acc)
    }

    /// One modifier step: a health modifier introduced by the `=`, `<` or
    /// `>` at the cursor.
    fn modifier_health(&mut self, exit_types: &[TokenType], acc: SkillLine) -> (r: Result<
        SkillLine,
        Error,
    >)
        requires
            old(self).wf(),
            !spec_at_end(old(self).toks(), old(self).pos()),
            old(self).toks()[old(self).pos()].type_ == TokenType::LessThan || old(
                self,
            ).toks()[old(self).pos()].type_ == TokenType::GreaterThan || old(self).toks()[old(
                self,
            ).pos()].type_ == TokenType::Equal,
        ensures
            final(self).wf(),
            final(self).tokens == old(self).tokens,
            final(self).source == old(self).source,
            old(self).pos() <= final(self).pos(),
            match spec_skill_line_dispatch(
                old(self).toks(),
                old(self).pos(),
                exit_types@,
                view_skill_line(&acc),
            ) {
                Ok((m, p)) => r matches Ok(ast) && ast@ == m && final(self).pos() == p,
                Err(em) => r matches Err(e) && e@ == em,
            },
        decreases old(self).toks().len() - old(self).pos(), 0int,
    {
        let ghost toks = self.toks();
        let ghost pos0 = self.pos();
        let h = match self.health_modifier() {
            Ok(h) => h,
            Err(e) => {
                return Err(e);
            },
        };
        proof {
            assert(clamp_pos(toks, pos0 + 1, self.pos()) == self.pos());
        }
        let mut acc = acc;
        acc.health_modifier = Some(h);
        self.skill_line_mods(exit_types, acc)
    }

    /// Parses the whole token sequence as one skill line.
    pub fn parse(&mut self) -> (r: Result<SkillLine, Error>)
        requires
            old(self).wf(),
        ensures
            final(self).wf(),
            match spec_skill_line(old(self).toks(), old(self).pos(), Seq::<TokenType>::empty()) {
                Ok((m, p)) => r matches Ok(ast) && ast@ == m,
                Err(em) => r matches Err(e) && e@ == em,
            },
    {
        let no_exits: [TokenType; 0] = [];
        let exits = no_exits.as_slice();
        proof {
            assert(exits@ =~= Seq::<TokenType>::empty());
        }
        self.skill_line(exits)
    }
}

/// Mapping a pushed config entry commutes with taking models.
proof fn lemma_view_mlcs_empty()
    ensures
        view_mlcs(Seq::<Mlc>::empty()) == Seq::<MlcModel>::empty(),
{
}

proof fn lemma_view_mlcs_push(s: Seq<Mlc>, m: Mlc)
    ensures
        view_mlcs(s.push(m)) == view_mlcs(s).push(view_mlc(&m)),
{
    assert(s.push(m).subrange(0, s.len() as int) =~= s);
    assert(s.push(m)[s.len() as int] == m);
    assert(view_mlcs(s.push(m)) == view_mlcs(s).push(view_mlc(&m)));
}

proof fn lemma_view_mlc_value_identifiers_empty()
    ensures
        view_mlc_value_identifiers(Seq::<MlcValueIdentifier>::empty()) == Seq::<
            MlcValueIdentifierModel,
        >::empty(),
{
}

proof fn lemma_view_mlc_value_identifiers_push(s: Seq<MlcValueIdentifier>, m: MlcValueIdentifier)
    ensures
        view_mlc_value_identifiers(s.push(m)) == view_mlc_value_identifiers(s).push(
            view_mlc_value_identifier(&m),
        ),
{
    assert(s.push(m).subrange(0, s.len() as int) =~= s);
    assert(s.push(m)[s.len() as int] == m);
    assert(view_mlc_value_identifiers(s.push(m)) == view_mlc_value_identifiers(s).push(
        view_mlc_value_identifier(&m),
    ));
}

proof fn lemma_view_name_and_mlcs_empty()
    ensures
        view_name_and_mlcs(Seq::<GenericNameAndMlc>::empty()) == Seq::<
            GenericNameAndMlcModel,
        >::empty(),
{
}

proof fn lemma_view_name_and_mlcs_push(s: Seq<GenericNameAndMlc>, g: GenericNameAndMlc)
    ensures
        view_name_and_mlcs(s.push(g)) == view_name_and_mlcs(s).push(view_generic_name_and_mlc(&g)),
{
    assert(s.push(g).subrange(0, s.len() as int) =~= s);
    assert(s.push(g)[s.len() as int] == g);
    assert(view_name_and_mlcs(s.push(g)) == view_name_and_mlcs(s).push(
        view_generic_name_and_mlc(&g),
    ));
}

proof fn lemma_view_conditions_empty()
    ensures
        view_conditions(Seq::<InlineCondition>::empty()) == Seq::<InlineConditionModel>::empty(),
{
}

proof fn lemma_view_conditions_push(s: Seq<InlineCondition>, c: InlineCondition)
    ensures
        view_conditions(s.push(c)) == view_conditions(s).push(view_inline_condition(&c)),
{
    assert(s.push(c).subrange(0, s.len() as int) =~= s);
    assert(s.push(c)[s.len() as int] == c);
    assert(view_conditions(s.push(c)) == view_conditions(s).push(view_inline_condition(&c)));
}

proof fn lemma_view_tokens_push_parser(s: Seq<MythicToken>, t: MythicToken)
    ensures
        view_tokens(s.push(t)) == view_tokens(s).push(t@),
{
    assert(view_tokens(s.push(t)) =~= view_tokens(s).push(t@));
}

/// A balanced skip stops only at the sought closer or at the end of input.
proof fn lemma_skip_depth_stops(toks: Seq<TokenModel>, open: TokenType, close: TokenType)
    ensures
        forall|p: int, d: int|
            spec_at_end(toks, #[trigger] spec_skip_depth(toks, p, open, close, d))
                || toks[spec_skip_depth(toks, p, open, close, d)].type_ == close,
{
    assert forall|p: int, d: int|
        spec_at_end(toks, #[trigger] spec_skip_depth(toks, p, open, close, d))
            || toks[spec_skip_depth(toks, p, open, close, d)].type_ == close by {
        lemma_skip_depth_stops_at(toks, p, open, close, d);
    }
}

proof fn lemma_skip_depth_stops_at(
    toks: Seq<TokenModel>,
    p: int,
    open: TokenType,
    close: TokenType,
    d: int,
)
    ensures
        spec_at_end(toks, spec_skip_depth(toks, p, open, close, d)) || toks[spec_skip_depth(
            toks,
            p,
            open,
            close,
            d,
        )].type_ == close,
    decreases toks.len() - p,
{
    if !spec_at_end(toks, p) {
        if toks[p].type_ == close {
            if d > 1 {
                lemma_skip_depth_stops_at(toks, p + 1, open, close, d - 1);
            }
        } else if toks[p].type_ == open {
            lemma_skip_depth_stops_at(toks, p + 1, open, close, d + 1);
        } else {
            lemma_skip_depth_stops_at(toks, p + 1, open, close, d);
        }
    }
}

} // verus!
