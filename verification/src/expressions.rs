//! The syntax tree of a skill line: one mechanic invocation plus its
//! optional modifiers (targeter, trigger, inline conditions, chance, health
//! modifier), with the nested config-block, placeholder and inline-skill
//! productions.
//!
//! Every node has a ghost model mirroring it over [`TokenModel`] sequences;
//! the parser's contracts are stated over those models. Non-leaf nodes
//! compute their range from their first and last child tokens.

use vstd::prelude::*;

use crate::lexer::{view_tokens, MythicToken, TokenModel};
use crate::positions_and_ranges::{spec_position_from_offset, CustomRange};

verus! {

/// An opaque run of raw tokens between two boundary token types, not further
/// parsed.
#[derive(Debug)]
pub struct GenericString {
    pub tokens: Vec<MythicToken>,
}

/// Model of a [`GenericString`].
pub struct GenericStringModel {
    pub tokens: Seq<TokenModel>,
}

impl View for GenericString {
    type V = GenericStringModel;

    open spec fn view(&self) -> GenericStringModel {
        GenericStringModel { tokens: view_tokens(self.tokens@) }
    }
}

impl GenericString {
    pub fn new(tokens: Vec<MythicToken>) -> (r: Self)
        ensures
            r == (GenericString { tokens }),
    {
        Self { tokens }
    }
}

/// A name with an optional config block: used for mechanics and for
/// placeholder path segments.
#[derive(Debug)]
pub struct GenericNameAndMlc {
    pub name: GenericString,
    pub mlc: Option<MlcContainer>,
}

/// Model of a [`GenericNameAndMlc`].
pub struct GenericNameAndMlcModel {
    pub name: GenericStringModel,
    pub mlc: Option<MlcContainerModel>,
}

/// The `{key=value; ...}` config block attached to a mechanic, targeter or
/// condition.
#[derive(Debug)]
pub struct MlcContainer {
    pub left_brace: MythicToken,
    pub mlcs: Vec<Mlc>,
    pub right_brace: MythicToken,
}

/// Model of an [`MlcContainer`].
pub struct MlcContainerModel {
    pub left_brace: TokenModel,
    pub mlcs: Seq<MlcModel>,
    pub right_brace: TokenModel,
}

/// One `key=value` entry of a config block.
#[derive(Debug)]
pub struct Mlc {
    pub key: MythicToken,
    pub equals: MythicToken,
    pub value: MlcValueContainer,
    pub semicolon: Option<MythicToken>,
}

/// Model of an [`Mlc`].
pub struct MlcModel {
    pub key: TokenModel,
    pub equals: TokenModel,
    pub value: MlcValueContainerModel,
    pub semicolon: Option<TokenModel>,
}

/// The value of a config entry: literal text interleaved with placeholders,
/// or a nested inline-skill list.
#[derive(Debug)]
pub enum MlcValueContainer {
    MlcValue(MlcValue),
    InlineSkill(InlineSkill),
}

/// Model of an [`MlcValueContainer`].
pub enum MlcValueContainerModel {
    MlcValue(MlcValueModel),
    InlineSkill(InlineSkillModel),
}

/// Literal token runs interleaved with placeholder expansions.
#[derive(Debug)]
pub struct MlcValue {
    pub identifiers: Vec<MlcValueIdentifier>,
}

/// Model of an [`MlcValue`].
pub struct MlcValueModel {
    pub identifiers: Seq<MlcValueIdentifierModel>,
}

/// One part of a config value: a literal token run or a placeholder.
#[derive(Debug)]
pub enum MlcValueIdentifier {
    Identifiers(Vec<MythicToken>),
    Placeholder(Placeholder),
}

/// Model of an [`MlcValueIdentifier`].
pub enum MlcValueIdentifierModel {
    Identifiers(Seq<TokenModel>),
    Placeholder(PlaceholderModel),
}

/// A `<segment.segment...>` value substitution inside a config value.
#[derive(Debug)]
pub struct Placeholder {
    pub left_angle_bracket: MythicToken,
    pub identifiers: Vec<GenericNameAndMlc>,
    pub dots: Vec<MythicToken>,
    pub right_angle_bracket: MythicToken,
}

/// Model of a [`Placeholder`].
pub struct PlaceholderModel {
    pub left_angle_bracket: TokenModel,
    pub identifiers: Seq<GenericNameAndMlcModel>,
    pub dots: Seq<TokenModel>,
    pub right_angle_bracket: TokenModel,
}

/// A `[- skillline - skillline ...]` list nested inside a config value.
#[derive(Debug)]
pub struct InlineSkill {
    pub left_square_bracket: MythicToken,
    pub skills: Vec<InlineSkillSkillContainer>,
}

/// Model of an [`InlineSkill`].
pub struct InlineSkillModel {
    pub left_square_bracket: TokenModel,
    pub skills: Seq<InlineSkillSkillContainerModel>,
}

/// One dash-introduced entry of an inline-skill list.
#[derive(Debug)]
pub struct InlineSkillSkillContainer {
    pub dash: MythicToken,
    pub skill: SkillLine,
}

/// Model of an [`InlineSkillSkillContainer`].
pub struct InlineSkillSkillContainerModel {
    pub dash: TokenModel,
    pub skill: SkillLineModel,
}

/// `@name{...}` — selects the entities a mechanic affects.
#[derive(Debug)]
pub struct Targeter {
    pub at: MythicToken,
    pub name: MythicToken,
    pub mlc: Option<MlcContainer>,
}

/// Model of a [`Targeter`].
pub struct TargeterModel {
    pub at: TokenModel,
    pub name: TokenModel,
    pub mlc: Option<MlcContainerModel>,
}

/// `~name[:arg]` — the event that activates a skill line.
#[derive(Debug)]
pub struct Trigger {
    pub caret: MythicToken,
    pub name: GenericString,
    pub colon: Option<MythicToken>,
    pub arg: Option<GenericString>,
}

/// Model of a [`Trigger`].
pub struct TriggerModel {
    pub caret: TokenModel,
    pub name: GenericStringModel,
    pub colon: Option<TokenModel>,
    pub arg: Option<GenericStringModel>,
}

impl View for Trigger {
    type V = TriggerModel;

    open spec fn view(&self) -> TriggerModel {
        TriggerModel {
            caret: self.caret@,
            name: self.name@,
            colon: match self.colon {
                Some(c) => Some(c@),
                None => None,
            },
            arg: match self.arg {
                Some(a) => Some(a@),
                None => None,
            },
        }
    }
}

/// `?[!][~]name{...}` — an inline condition on a skill line; the `!` and `~`
/// prefixes are each optional and each may appear at most once.
#[derive(Debug)]
pub struct InlineCondition {
    pub question_mark: MythicToken,
    pub exclamation_mark: Option<MythicToken>,
    pub tilde: Option<MythicToken>,
    pub name: MythicToken,
    pub mlc: Option<MlcContainer>,
}

/// Model of an [`InlineCondition`].
pub struct InlineConditionModel {
    pub question_mark: TokenModel,
    pub exclamation_mark: Option<TokenModel>,
    pub tilde: Option<TokenModel>,
    pub name: TokenModel,
    pub mlc: Option<MlcContainerModel>,
}

/// `%` followed by a number: the chance a skill line runs.
#[derive(Debug)]
pub struct Chance {
    pub token: MythicToken,
}

/// Model of a [`Chance`].
pub struct ChanceModel {
    pub token: TokenModel,
}

impl View for Chance {
    type V = ChanceModel;

    open spec fn view(&self) -> ChanceModel {
        ChanceModel { token: self.token@ }
    }
}

impl Chance {
    pub fn new(token: MythicToken) -> (r: Self)
        ensures
            r == (Chance { token }),
    {
        Self { token }
    }
}

/// A health-modifier bound: an absolute number or a number with a `%`
/// percentage token.
#[derive(Debug)]
pub enum HealthModifierValue {
    Absolute(MythicToken),
    /// First the number token, then the percentage token.
    Percentage(MythicToken, MythicToken),
}

/// Model of a [`HealthModifierValue`].
pub enum HealthModifierValueModel {
    Absolute(TokenModel),
    Percentage(TokenModel, TokenModel),
}

impl View for HealthModifierValue {
    type V = HealthModifierValueModel;

    open spec fn view(&self) -> HealthModifierValueModel {
        match self {
            HealthModifierValue::Absolute(t) => HealthModifierValueModel::Absolute(t@),
            HealthModifierValue::Percentage(t, p) => HealthModifierValueModel::Percentage(t@, p@),
        }
    }
}

/// A single health-modifier bound or a range of two; the range form is only
/// reachable through the `=` operator.
#[derive(Debug)]
pub enum HealthModifierValueOrRange {
    Value(HealthModifierValue),
    Range(HealthModifierValue, HealthModifierValue),
}

/// Model of a [`HealthModifierValueOrRange`].
pub enum HealthModifierValueOrRangeModel {
    Value(HealthModifierValueModel),
    Range(HealthModifierValueModel, HealthModifierValueModel),
}

impl View for HealthModifierValueOrRange {
    type V = HealthModifierValueOrRangeModel;

    open spec fn view(&self) -> HealthModifierValueOrRangeModel {
        match self {
            HealthModifierValueOrRange::Value(v) => HealthModifierValueOrRangeModel::Value(v@),
            HealthModifierValueOrRange::Range(a, b) => HealthModifierValueOrRangeModel::Range(
                a@,
                b@,
            ),
        }
    }
}

/// `=`/`<`/`>` followed by a value or (for `=` only) a range: filters by the
/// target's health.
#[derive(Debug)]
pub struct HealthModifier {
    pub operator: MythicToken,
    pub value: HealthModifierValueOrRange,
}

/// Model of a [`HealthModifier`].
pub struct HealthModifierModel {
    pub operator: TokenModel,
    pub value: HealthModifierValueOrRangeModel,
}

impl View for HealthModifier {
    type V = HealthModifierModel;

    open spec fn view(&self) -> HealthModifierModel {
        HealthModifierModel { operator: self.operator@, value: self.value@ }
    }
}

impl HealthModifier {
    pub fn new(operator: MythicToken, value: HealthModifierValueOrRange) -> (r: Self)
        ensures
            r == (HealthModifier { operator, value }),
    {
        Self { operator, value }
    }
}

/// One mechanic invocation plus its optional modifiers: the root production.
#[derive(Debug)]
pub struct SkillLine {
    pub mechanic: GenericNameAndMlc,
    pub targeter: Option<Targeter>,
    pub trigger: Option<Trigger>,
    pub conditions: Vec<InlineCondition>,
    pub chance: Option<Chance>,
    pub health_modifier: Option<HealthModifier>,
}

/// Model of a [`SkillLine`].
pub struct SkillLineModel {
    pub mechanic: GenericNameAndMlcModel,
    pub targeter: Option<TargeterModel>,
    pub trigger: Option<TriggerModel>,
    pub conditions: Seq<InlineConditionModel>,
    pub chance: Option<ChanceModel>,
    pub health_modifier: Option<HealthModifierModel>,
}

/// Model of a [`GenericNameAndMlc`].
pub open spec fn view_generic_name_and_mlc(g: &GenericNameAndMlc) -> GenericNameAndMlcModel
    decreases g,
{
    GenericNameAndMlcModel {
        name: g.name@,
        mlc: match &g.mlc {
            Some(m) => Some(view_mlc_container(m)),
            None => None,
        },
    }
}

/// Model of an [`MlcContainer`].
pub open spec fn view_mlc_container(m: &MlcContainer) -> MlcContainerModel
    decreases m,
{
    MlcContainerModel {
        left_brace: m.left_brace@,
        mlcs: view_mlcs(m.mlcs@),
        right_brace: m.right_brace@,
    }
}

/// Models of a sequence of config entries.
pub open spec fn view_mlcs(ms: Seq<Mlc>) -> Seq<MlcModel>
    decreases ms,
{
    if ms.len() == 0 {
        Seq::empty()
    } else {
        view_mlcs(ms.subrange(0, ms.len() - 1)).push(view_mlc(&ms[ms.len() - 1]))
    }
}

/// Model of an [`Mlc`].
pub open spec fn view_mlc(m: &Mlc) -> MlcModel
    decreases m,
{
    MlcModel {
        key: m.key@,
        equals: m.equals@,
        value: view_mlc_value_container(&m.value),
        semicolon: match m.semicolon {
            Some(s) => Some(s@),
            None => None,
        },
    }
}

/// Model of an [`MlcValueContainer`].
pub open spec fn view_mlc_value_container(v: &MlcValueContainer) -> MlcValueContainerModel
    decreases v,
{
    match v {
        MlcValueContainer::MlcValue(m) => MlcValueContainerModel::MlcValue(view_mlc_value(m)),
        MlcValueContainer::InlineSkill(i) => MlcValueContainerModel::InlineSkill(
            view_inline_skill(i),
        ),
    }
}

/// Model of an [`MlcValue`].
pub open spec fn view_mlc_value(v: &MlcValue) -> MlcValueModel
    decreases v,
{
    MlcValueModel { identifiers: view_mlc_value_identifiers(v.identifiers@) }
}

/// Models of a sequence of config-value parts.
pub open spec fn view_mlc_value_identifiers(vs: Seq<MlcValueIdentifier>) -> Seq<
    MlcValueIdentifierModel,
>
    decreases vs,
{
    if vs.len() == 0 {
        Seq::empty()
    } else {
        view_mlc_value_identifiers(vs.subrange(0, vs.len() - 1)).push(
            view_mlc_value_identifier(&vs[vs.len() - 1]),
        )
    }
}

/// Model of an [`MlcValueIdentifier`].
pub open spec fn view_mlc_value_identifier(v: &MlcValueIdentifier) -> MlcValueIdentifierModel
    decreases v,
{
    match v {
        MlcValueIdentifier::Identifiers(ts) => MlcValueIdentifierModel::Identifiers(
            view_tokens(ts@),
        ),
        MlcValueIdentifier::Placeholder(p) => MlcValueIdentifierModel::Placeholder(
            view_placeholder(p),
        ),
    }
}

/// Model of a [`Placeholder`].
pub open spec fn view_placeholder(p: &Placeholder) -> PlaceholderModel
    decreases p,
{
    PlaceholderModel {
        left_angle_bracket: p.left_angle_bracket@,
        identifiers: view_name_and_mlcs(p.identifiers@),
        dots: view_tokens(p.dots@),
        right_angle_bracket: p.right_angle_bracket@,
    }
}

/// Models of a sequence of placeholder path segments.
pub open spec fn view_name_and_mlcs(gs: Seq<GenericNameAndMlc>) -> Seq<GenericNameAndMlcModel>
    decreases gs,
{
    if gs.len() == 0 {
        Seq::empty()
    } else {
        view_name_and_mlcs(gs.subrange(0, gs.len() - 1)).push(
            view_generic_name_and_mlc(&gs[gs.len() - 1]),
        )
    }
}

/// Model of an [`InlineSkill`].
pub open spec fn view_inline_skill(i: &InlineSkill) -> InlineSkillModel
    decreases i,
{
    InlineSkillModel {
        left_square_bracket: i.left_square_bracket@,
        skills: view_inline_skill_entries(i.skills@),
    }
}

/// Models of a sequence of inline-skill entries.
pub open spec fn view_inline_skill_entries(es: Seq<InlineSkillSkillContainer>) -> Seq<
    InlineSkillSkillContainerModel,
>
    decreases es,
{
    if es.len() == 0 {
        Seq::empty()
    } else {
        view_inline_skill_entries(es.subrange(0, es.len() - 1)).push(
            view_inline_skill_entry(&es[es.len() - 1]),
        )
    }
}

/// Model of an [`InlineSkillSkillContainer`].
pub open spec fn view_inline_skill_entry(e: &InlineSkillSkillContainer) -> (
    InlineSkillSkillContainerModel
)
    decreases e,
{
    InlineSkillSkillContainerModel { dash: e.dash@, skill: view_skill_line(&e.skill) }
}

/// Model of a [`Targeter`].
pub open spec fn view_targeter(t: &Targeter) -> TargeterModel
    decreases t,
{
    TargeterModel {
        at: t.at@,
        name: t.name@,
        mlc: match &t.mlc {
            Some(m) => Some(view_mlc_container(m)),
            None => None,
        },
    }
}

/// Model of an [`InlineCondition`].
pub open spec fn view_inline_condition(c: &InlineCondition) -> InlineConditionModel
    decreases c,
{
    InlineConditionModel {
        question_mark: c.question_mark@,
        exclamation_mark: match c.exclamation_mark {
            Some(t) => Some(t@),
            None => None,
        },
        tilde: match c.tilde {
            Some(t) => Some(t@),
            None => None,
        },
        name: c.name@,
        mlc: match &c.mlc {
            Some(m) => Some(view_mlc_container(m)),
            None => None,
        },
    }
}

/// Models of a sequence of inline conditions.
pub open spec fn view_conditions(cs: Seq<InlineCondition>) -> Seq<InlineConditionModel>
    decreases cs,
{
    if cs.len() == 0 {
        Seq::empty()
    } else {
        view_conditions(cs.subrange(0, cs.len() - 1)).push(view_inline_condition(&cs[cs.len() - 1]))
    }
}

/// Model of a [`SkillLine`].
pub open spec fn view_skill_line(s: &SkillLine) -> SkillLineModel
    decreases s,
{
    SkillLineModel {
        mechanic: view_generic_name_and_mlc(&s.mechanic),
        targeter: match &s.targeter {
            Some(t) => Some(view_targeter(t)),
            None => None,
        },
        trigger: match &s.trigger {
            Some(t) => Some(t@),
            None => None,
        },
        conditions: view_conditions(s.conditions@),
        chance: match &s.chance {
            Some(c) => Some(c@),
            None => None,
        },
        health_modifier: match &s.health_modifier {
            Some(h) => Some(h@),
            None => None,
        },
    }
}

impl View for GenericNameAndMlc {
    type V = GenericNameAndMlcModel;

    open spec fn view(&self) -> GenericNameAndMlcModel {
        view_generic_name_and_mlc(self)
    }
}

impl View for MlcContainer {
    type V = MlcContainerModel;

    open spec fn view(&self) -> MlcContainerModel {
        view_mlc_container(self)
    }
}

impl View for Mlc {
    type V = MlcModel;

    open spec fn view(&self) -> MlcModel {
        view_mlc(self)
    }
}

impl View for MlcValueContainer {
    type V = MlcValueContainerModel;

    open spec fn view(&self) -> MlcValueContainerModel {
        view_mlc_value_container(self)
    }
}

impl View for MlcValue {
    type V = MlcValueModel;

    open spec fn view(&self) -> MlcValueModel {
        view_mlc_value(self)
    }
}

impl View for MlcValueIdentifier {
    type V = MlcValueIdentifierModel;

    open spec fn view(&self) -> MlcValueIdentifierModel {
        view_mlc_value_identifier(self)
    }
}

impl View for Placeholder {
    type V = PlaceholderModel;

    open spec fn view(&self) -> PlaceholderModel {
        view_placeholder(self)
    }
}

impl View for InlineSkill {
    type V = InlineSkillModel;

    open spec fn view(&self) -> InlineSkillModel {
        view_inline_skill(self)
    }
}

impl View for InlineSkillSkillContainer {
    type V = InlineSkillSkillContainerModel;

    open spec fn view(&self) -> InlineSkillSkillContainerModel {
        view_inline_skill_entry(self)
    }
}

impl View for Targeter {
    type V = TargeterModel;

    open spec fn view(&self) -> TargeterModel {
        view_targeter(self)
    }
}

impl View for InlineCondition {
    type V = InlineConditionModel;

    open spec fn view(&self) -> InlineConditionModel {
        view_inline_condition(self)
    }
}

impl View for SkillLine {
    type V = SkillLineModel;

    open spec fn view(&self) -> SkillLineModel {
        view_skill_line(self)
    }
}

impl GenericNameAndMlc {
    pub fn new(name: GenericString, mlc: Option<MlcContainer>) -> (r: Self)
        ensures
            r == (GenericNameAndMlc { name, mlc }),
    {
        Self { name, mlc }
    }
}

impl MlcContainer {
    pub fn new(left_brace: MythicToken, mlcs: Vec<Mlc>, right_brace: MythicToken) -> (r: Self)
        ensures
            r == (MlcContainer { left_brace, mlcs, right_brace }),
    {
        Self { left_brace, mlcs, right_brace }
    }

    /// The range from the opening to the closing brace.
    pub fn get_range(&self) -> (r: CustomRange)
        ensures
            r.start == spec_position_from_offset(
                self.left_brace@.source,
                self.left_brace@.start,
            ),
            r.end == spec_position_from_offset(
                self.right_brace@.source,
                self.right_brace@.current,
            ),
    {
        CustomRange::new(self.left_brace.get_range().start, self.right_brace.get_range().end)
    }
}

impl Mlc {
    pub fn new(
        key: MythicToken,
        equals: MythicToken,
        value: MlcValueContainer,
        semicolon: Option<MythicToken>,
    ) -> (r: Self)
        ensures
            r == (Mlc { key, equals, value, semicolon }),
    {
        Self { key, equals, value, semicolon }
    }
}

impl MlcValue {
    pub fn new(identifiers: Vec<MlcValueIdentifier>) -> (r: Self)
        ensures
            r == (MlcValue { identifiers }),
    {
        Self { identifiers }
    }
}

impl Placeholder {
    pub fn new(
        left_angle_bracket: MythicToken,
        identifiers: Vec<GenericNameAndMlc>,
        dots: Vec<MythicToken>,
        right_angle_bracket: MythicToken,
    ) -> (r: Self)
        ensures
            r == (Placeholder { left_angle_bracket, identifiers, dots, right_angle_bracket }),
    {
        Self { left_angle_bracket, identifiers, dots, right_angle_bracket }
    }
}

impl InlineSkill {
    pub fn new(
        left_square_bracket: MythicToken,
        skills: Vec<InlineSkillSkillContainer>,
    ) -> (r: Self)
        ensures
            r == (InlineSkill { left_square_bracket, skills }),
    {
        Self { left_square_bracket, skills }
    }
}

impl InlineSkillSkillContainer {
    pub fn new(dash: MythicToken, skill: SkillLine) -> (r: Self)
        ensures
            r == (InlineSkillSkillContainer { dash, skill }),
    {
        Self { dash, skill }
    }
}

impl Targeter {
    pub fn new(at: MythicToken, name: MythicToken, mlc: Option<MlcContainer>) -> (r: Self)
        ensures
            r == (Targeter { at, name, mlc }),
    {
        Self { at, name, mlc }
    }

    /// The range from the `@` token to the end of the config block, or of
    /// the name when there is none.
    pub fn get_range(&self) -> (r: CustomRange)
        ensures
            r.start == spec_position_from_offset(self.at@.source, self.at@.start),
            r.end == match view_targeter(self).mlc {
                Some(m) => spec_position_from_offset(m.right_brace.source, m.right_brace.current),
                None => spec_position_from_offset(self.name@.source, self.name@.current),
            },
    {
        let start = self.at.get_range().start;
        match &self.mlc {
            Some(m) => CustomRange::new(start, m.get_range().end),
            None => CustomRange::new(start, self.name.get_range().end),
        }
    }
}

/// The token a trigger's range ends with: the last token of its argument,
/// else its colon, else the last token of its name, else its caret.
pub open spec fn trigger_end_token(t: TriggerModel) -> TokenModel {
    match t.arg {
        Some(a) => if a.tokens.len() > 0 {
            a.tokens.last()
        } else {
            trigger_end_token_without_arg(t)
        },
        None => trigger_end_token_without_arg(t),
    }
}

/// The token a trigger's range ends with when it has no non-empty argument.
pub open spec fn trigger_end_token_without_arg(t: TriggerModel) -> TokenModel {
    match t.colon {
        Some(c) => c,
        None => if t.name.tokens.len() > 0 {
            t.name.tokens.last()
        } else {
            t.caret
        },
    }
}

impl Trigger {
    pub fn new(
        caret: MythicToken,
        name: GenericString,
        colon: Option<MythicToken>,
        arg: Option<GenericString>,
    ) -> (r: Self)
        ensures
            r == (Trigger { caret, name, colon, arg }),
    {
        Self { caret, name, colon, arg }
    }

    /// The range from the `~` token to the last token of the trigger.
    pub fn get_range(&self) -> (r: CustomRange)
        ensures
            r.start == spec_position_from_offset(self@.caret.source, self@.caret.start),
            r.end == spec_position_from_offset(
                trigger_end_token(self@).source,
                trigger_end_token(self@).current,
            ),
    {
        let start = self.caret.get_range().start;
        if let Some(a) = &self.arg {
            if a.tokens.len() > 0 {
                let last = &a.tokens[a.tokens.len() - 1];
                return CustomRange::new(start, last.get_range().end);
            }
        }
        if let Some(c) = &self.colon {
            return CustomRange::new(start, c.get_range().end);
        }
        if self.name.tokens.len() > 0 {
            let last = &self.name.tokens[self.name.tokens.len() - 1];
            return CustomRange::new(start, last.get_range().end);
        }
        CustomRange::new(start, self.caret.get_range().end)
    }
}

impl InlineCondition {
    pub fn new(
        question_mark: MythicToken,
        exclamation_mark: Option<MythicToken>,
        tilde: Option<MythicToken>,
        name: MythicToken,
        mlc: Option<MlcContainer>,
    ) -> (r: Self)
        ensures
            r == (InlineCondition { question_mark, exclamation_mark, tilde, name, mlc }),
    {
        Self { question_mark, exclamation_mark, tilde, name, mlc }
    }
}

impl SkillLine {
    pub fn new(
        mechanic: GenericNameAndMlc,
        targeter: Option<Targeter>,
        trigger: Option<Trigger>,
        conditions: Vec<InlineCondition>,
        chance: Option<Chance>,
        health_modifier: Option<HealthModifier>,
    ) -> (r: Self)
        ensures
            r == (SkillLine { mechanic, targeter, trigger, conditions, chance, health_modifier }),
    {
        Self { mechanic, targeter, trigger, conditions, chance, health_modifier }
    }
}

} // verus!
