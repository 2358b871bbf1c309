use vstd::prelude::*;

use crate::faction::Faction;
use crate::vars::{VarName, VarValue, VarValueView};

verus! {

/// An expression of the hero editor's language, as a tree. A number with a
/// fraction is kept as the bit pattern of its 32-bit float.
#[derive(Debug)]
pub enum Expression {
    Zero,
    GameTime,
    PI,
    PI2,
    Age,
    SlotPosition,
    OwnerFaction,
    OppositeFaction,
    Beat,
    Index,
    Owner,
    Caster,
    Target,
    Status,
    RandomUnit,
    RandomAdjacentUnit,
    RandomAlly,
    RandomEnemy,
    AllAllyUnits,
    AllEnemyUnits,
    AllUnits,
    AllOtherUnits,
    AdjacentUnits,
    Float(u32),
    Int(i32),
    Bool(bool),
    String(String),
    Hex(String),
    Faction(Faction),
    OwnerState(VarName),
    OwnerStateLast(VarName),
    TargetState(VarName),
    TargetStateLast(VarName),
    Context(VarName),
    AbilityContext(String, VarName),
    AbilityState(String, VarName),
    Value(VarValue),
    RandomStatusAlly(String),
    RandomStatusEnemy(String),
    AllStatusAllies(String),
    AllStatusEnemies(String),
    HasStatus(String),
    Vec2(u32, u32),
    Vec2E(Box<Expression>),
    StringInt(Box<Expression>),
    StringFloat(Box<Expression>),
    StringVec(Box<Expression>),
    IntFloat(Box<Expression>),
    Sin(Box<Expression>),
    Cos(Box<Expression>),
    Sign(Box<Expression>),
    Fract(Box<Expression>),
    Floor(Box<Expression>),
    UnitVec(Box<Expression>),
    Even(Box<Expression>),
    Abs(Box<Expression>),
    SlotUnit(Box<Expression>),
    FactionCount(Box<Expression>),
    StatusCharges(Box<Expression>),
    FilterUnits(Box<Expression>),
    FilterMaxEnemy(Box<Expression>),
    FilterMaxAlly(Box<Expression>),
    FindUnit(Box<Expression>),
    UnitCount(Box<Expression>),
    ToInt(Box<Expression>),
    RandomFloat(Box<Expression>),
    RandomFloatUnit(Box<Expression>),
    RandomEnemySubset(Box<Expression>),
    Parent(Box<Expression>),
    StatusEntity(String, Box<Expression>),
    StateLast(VarName, Box<Expression>),
    Vec2EE(Box<Expression>, Box<Expression>),
    Sum(Box<Expression>, Box<Expression>),
    Sub(Box<Expression>, Box<Expression>),
    Mul(Box<Expression>, Box<Expression>),
    Div(Box<Expression>, Box<Expression>),
    GreaterThen(Box<Expression>, Box<Expression>),
    LessThen(Box<Expression>, Box<Expression>),
    Min(Box<Expression>, Box<Expression>),
    Max(Box<Expression>, Box<Expression>),
    Equals(Box<Expression>, Box<Expression>),
    And(Box<Expression>, Box<Expression>),
    Or(Box<Expression>, Box<Expression>),
    WithVar(VarName, Box<Expression>, Box<Expression>),
    If(Box<Expression>, Box<Expression>, Box<Expression>),
    Spread(Box<Expression>, Box<Expression>, Box<Expression>),
}

/// The mathematical value of an [`Expression`].
pub ghost enum ExpressionView {
    Zero,
    GameTime,
    PI,
    PI2,
    Age,
    SlotPosition,
    OwnerFaction,
    OppositeFaction,
    Beat,
    Index,
    Owner,
    Caster,
    Target,
    Status,
    RandomUnit,
    RandomAdjacentUnit,
    RandomAlly,
    RandomEnemy,
    AllAllyUnits,
    AllEnemyUnits,
    AllUnits,
    AllOtherUnits,
    AdjacentUnits,
    Float(u32),
    Int(i32),
    Bool(bool),
    String(Seq<char>),
    Hex(Seq<char>),
    Faction(Faction),
    OwnerState(VarName),
    OwnerStateLast(VarName),
    TargetState(VarName),
    TargetStateLast(VarName),
    Context(VarName),
    AbilityContext(Seq<char>, VarName),
    AbilityState(Seq<char>, VarName),
    Value(VarValueView),
    RandomStatusAlly(Seq<char>),
    RandomStatusEnemy(Seq<char>),
    AllStatusAllies(Seq<char>),
    AllStatusEnemies(Seq<char>),
    HasStatus(Seq<char>),
    Vec2(u32, u32),
    Vec2E(Box<ExpressionView>),
    StringInt(Box<ExpressionView>),
    StringFloat(Box<ExpressionView>),
    StringVec(Box<ExpressionView>),
    IntFloat(Box<ExpressionView>),
    Sin(Box<ExpressionView>),
    Cos(Box<ExpressionView>),
    Sign(Box<ExpressionView>),
    Fract(Box<ExpressionView>),
    Floor(Box<ExpressionView>),
    UnitVec(Box<ExpressionView>),
    Even(Box<ExpressionView>),
    Abs(Box<ExpressionView>),
    SlotUnit(Box<ExpressionView>),
    FactionCount(Box<ExpressionView>),
    StatusCharges(Box<ExpressionView>),
    FilterUnits(Box<ExpressionView>),
    FilterMaxEnemy(Box<ExpressionView>),
    FilterMaxAlly(Box<ExpressionView>),
    FindUnit(Box<ExpressionView>),
    UnitCount(Box<ExpressionView>),
    ToInt(Box<ExpressionView>),
    RandomFloat(Box<ExpressionView>),
    RandomFloatUnit(Box<ExpressionView>),
    RandomEnemySubset(Box<ExpressionView>),
    Parent(Box<ExpressionView>),
    StatusEntity(Seq<char>, Box<ExpressionView>),
    StateLast(VarName, Box<ExpressionView>),
    Vec2EE(Box<ExpressionView>, Box<ExpressionView>),
    Sum(Box<ExpressionView>, Box<ExpressionView>),
    Sub(Box<ExpressionView>, Box<ExpressionView>),
    Mul(Box<ExpressionView>, Box<ExpressionView>),
    Div(Box<ExpressionView>, Box<ExpressionView>),
    GreaterThen(Box<ExpressionView>, Box<ExpressionView>),
    LessThen(Box<ExpressionView>, Box<ExpressionView>),
    Min(Box<ExpressionView>, Box<ExpressionView>),
    Max(Box<ExpressionView>, Box<ExpressionView>),
    Equals(Box<ExpressionView>, Box<ExpressionView>),
    And(Box<ExpressionView>, Box<ExpressionView>),
    Or(Box<ExpressionView>, Box<ExpressionView>),
    WithVar(VarName, Box<ExpressionView>, Box<ExpressionView>),
    If(Box<ExpressionView>, Box<ExpressionView>, Box<ExpressionView>),
    Spread(Box<ExpressionView>, Box<ExpressionView>, Box<ExpressionView>),
}

/// The mathematical value of an expression.
pub open spec fn expr_view(e: Expression) -> ExpressionView
    decreases e,
{
        match e {
            Expression::Zero => ExpressionView::Zero,
            Expression::GameTime => ExpressionView::GameTime,
            Expression::PI => ExpressionView::PI,
            Expression::PI2 => ExpressionView::PI2,
            Expression::Age => ExpressionView::Age,
            Expression::SlotPosition => ExpressionView::SlotPosition,
            Expression::OwnerFaction => ExpressionView::OwnerFaction,
            Expression::OppositeFaction => ExpressionView::OppositeFaction,
            Expression::Beat => ExpressionView::Beat,
            Expression::Index => ExpressionView::Index,
            Expression::Owner => ExpressionView::Owner,
            Expression::Caster => ExpressionView::Caster,
            Expression::Target => ExpressionView::Target,
            Expression::Status => ExpressionView::Status,
            Expression::RandomUnit => ExpressionView::RandomUnit,
            Expression::RandomAdjacentUnit => ExpressionView::RandomAdjacentUnit,
            Expression::RandomAlly => ExpressionView::RandomAlly,
            Expression::RandomEnemy => ExpressionView::RandomEnemy,
            Expression::AllAllyUnits => ExpressionView::AllAllyUnits,
            Expression::AllEnemyUnits => ExpressionView::AllEnemyUnits,
            Expression::AllUnits => ExpressionView::AllUnits,
            Expression::AllOtherUnits => ExpressionView::AllOtherUnits,
            Expression::AdjacentUnits => ExpressionView::AdjacentUnits,
            Expression::Float(p0) => ExpressionView::Float(p0),
            Expression::Int(p0) => ExpressionView::Int(p0),
            Expression::Bool(p0) => ExpressionView::Bool(p0),
            Expression::String(p0) => ExpressionView::String(p0@),
            Expression::Hex(p0) => ExpressionView::Hex(p0@),
            Expression::Faction(p0) => ExpressionView::Faction(p0),
            Expression::OwnerState(p0) => ExpressionView::OwnerState(p0),
            Expression::OwnerStateLast(p0) => ExpressionView::OwnerStateLast(p0),
            Expression::TargetState(p0) => ExpressionView::TargetState(p0),
            Expression::TargetStateLast(p0) => ExpressionView::TargetStateLast(p0),
            Expression::Context(p0) => ExpressionView::Context(p0),
            Expression::AbilityContext(p0, p1) => ExpressionView::AbilityContext(p0@, p1),
            Expression::AbilityState(p0, p1) => ExpressionView::AbilityState(p0@, p1),
            Expression::Value(p0) => ExpressionView::Value(p0@),
            Expression::RandomStatusAlly(p0) => ExpressionView::RandomStatusAlly(p0@),
            Expression::RandomStatusEnemy(p0) => ExpressionView::RandomStatusEnemy(p0@),
            Expression::AllStatusAllies(p0) => ExpressionView::AllStatusAllies(p0@),
            Expression::AllStatusEnemies(p0) => ExpressionView::AllStatusEnemies(p0@),
            Expression::HasStatus(p0) => ExpressionView::HasStatus(p0@),
            Expression::Vec2(p0, p1) => ExpressionView::Vec2(p0, p1),
            Expression::Vec2E(c0) => ExpressionView::Vec2E(Box::new(expr_view(*c0))),
            Expression::StringInt(c0) => ExpressionView::StringInt(Box::new(expr_view(*c0))),
            Expression::StringFloat(c0) => ExpressionView::StringFloat(Box::new(expr_view(*c0))),
            Expression::StringVec(c0) => ExpressionView::StringVec(Box::new(expr_view(*c0))),
            Expression::IntFloat(c0) => ExpressionView::IntFloat(Box::new(expr_view(*c0))),
            Expression::Sin(c0) => ExpressionView::Sin(Box::new(expr_view(*c0))),
            Expression::Cos(c0) => ExpressionView::Cos(Box::new(expr_view(*c0))),
            Expression::Sign(c0) => ExpressionView::Sign(Box::new(expr_view(*c0))),
            Expression::Fract(c0) => ExpressionView::Fract(Box::new(expr_view(*c0))),
            Expression::Floor(c0) => ExpressionView::Floor(Box::new(expr_view(*c0))),
            Expression::UnitVec(c0) => ExpressionView::UnitVec(Box::new(expr_view(*c0))),
            Expression::Even(c0) => ExpressionView::Even(Box::new(expr_view(*c0))),
            Expression::Abs(c0) => ExpressionView::Abs(Box::new(expr_view(*c0))),
            Expression::SlotUnit(c0) => ExpressionView::SlotUnit(Box::new(expr_view(*c0))),
            Expression::FactionCount(c0) => ExpressionView::FactionCount(Box::new(expr_view(*c0))),
            Expression::StatusCharges(c0) => ExpressionView::StatusCharges(Box::new(expr_view(*c0))),
            Expression::FilterUnits(c0) => ExpressionView::FilterUnits(Box::new(expr_view(*c0))),
            Expression::FilterMaxEnemy(c0) => ExpressionView::FilterMaxEnemy(Box::new(expr_view(*c0))),
            Expression::FilterMaxAlly(c0) => ExpressionView::FilterMaxAlly(Box::new(expr_view(*c0))),
            Expression::FindUnit(c0) => ExpressionView::FindUnit(Box::new(expr_view(*c0))),
            Expression::UnitCount(c0) => ExpressionView::UnitCount(Box::new(expr_view(*c0))),
            Expression::ToInt(c0) => ExpressionView::ToInt(Box::new(expr_view(*c0))),
            Expression::RandomFloat(c0) => ExpressionView::RandomFloat(Box::new(expr_view(*c0))),
            Expression::RandomFloatUnit(c0) => ExpressionView::RandomFloatUnit(Box::new(expr_view(*c0))),
            Expression::RandomEnemySubset(c0) => ExpressionView::RandomEnemySubset(Box::new(expr_view(*c0))),
            Expression::Parent(c0) => ExpressionView::Parent(Box::new(expr_view(*c0))),
            Expression::StatusEntity(p0, c0) => ExpressionView::StatusEntity(p0@, Box::new(expr_view(*c0))),
            Expression::StateLast(p0, c0) => ExpressionView::StateLast(p0, Box::new(expr_view(*c0))),
            Expression::Vec2EE(c0, c1) => ExpressionView::Vec2EE(Box::new(expr_view(*c0)), Box::new(expr_view(*c1))),
            Expression::Sum(c0, c1) => ExpressionView::Sum(Box::new(expr_view(*c0)), Box::new(expr_view(*c1))),
            Expression::Sub(c0, c1) => ExpressionView::Sub(Box::new(expr_view(*c0)), Box::new(expr_view(*c1))),
            Expression::Mul(c0, c1) => ExpressionView::Mul(Box::new(expr_view(*c0)), Box::new(expr_view(*c1))),
            Expression::Div(c0, c1) => ExpressionView::Div(Box::new(expr_view(*c0)), Box::new(expr_view(*c1))),
            Expression::GreaterThen(c0, c1) => ExpressionView::GreaterThen(Box::new(expr_view(*c0)), Box::new(expr_view(*c1))),
            Expression::LessThen(c0, c1) => ExpressionView::LessThen(Box::new(expr_view(*c0)), Box::new(expr_view(*c1))),
            Expression::Min(c0, c1) => ExpressionView::Min(Box::new(expr_view(*c0)), Box::new(expr_view(*c1))),
            Expression::Max(c0, c1) => ExpressionView::Max(Box::new(expr_view(*c0)), Box::new(expr_view(*c1))),
            Expression::Equals(c0, c1) => ExpressionView::Equals(Box::new(expr_view(*c0)), Box::new(expr_view(*c1))),
            Expression::And(c0, c1) => ExpressionView::And(Box::new(expr_view(*c0)), Box::new(expr_view(*c1))),
            Expression::Or(c0, c1) => ExpressionView::Or(Box::new(expr_view(*c0)), Box::new(expr_view(*c1))),
            Expression::WithVar(p0, c0, c1) => ExpressionView::WithVar(p0, Box::new(expr_view(*c0)), Box::new(expr_view(*c1))),
            Expression::If(c0, c1, c2) => ExpressionView::If(Box::new(expr_view(*c0)), Box::new(expr_view(*c1)), Box::new(expr_view(*c2))),
            Expression::Spread(c0, c1, c2) => ExpressionView::Spread(Box::new(expr_view(*c0)), Box::new(expr_view(*c1)), Box::new(expr_view(*c2))),
        }
}

impl View for Expression {
    type V = ExpressionView;

    open spec fn view(&self) -> ExpressionView {
        expr_view(*self)
    }
}

/// The sub-expressions of an expression, in order.
pub open spec fn children(e: ExpressionView) -> Seq<ExpressionView> {
    match e {
        ExpressionView::Vec2E(c0) => seq![*c0],
        ExpressionView::StringInt(c0) => seq![*c0],
        ExpressionView::StringFloat(c0) => seq![*c0],
        ExpressionView::StringVec(c0) => seq![*c0],
        ExpressionView::IntFloat(c0) => seq![*c0],
        ExpressionView::Sin(c0) => seq![*c0],
        ExpressionView::Cos(c0) => seq![*c0],
        ExpressionView::Sign(c0) => seq![*c0],
        ExpressionView::Fract(c0) => seq![*c0],
        ExpressionView::Floor(c0) => seq![*c0],
        ExpressionView::UnitVec(c0) => seq![*c0],
        ExpressionView::Even(c0) => seq![*c0],
        ExpressionView::Abs(c0) => seq![*c0],
        ExpressionView::SlotUnit(c0) => seq![*c0],
        ExpressionView::FactionCount(c0) => seq![*c0],
        ExpressionView::StatusCharges(c0) => seq![*c0],
        ExpressionView::FilterUnits(c0) => seq![*c0],
        ExpressionView::FilterMaxEnemy(c0) => seq![*c0],
        ExpressionView::FilterMaxAlly(c0) => seq![*c0],
        ExpressionView::FindUnit(c0) => seq![*c0],
        ExpressionView::UnitCount(c0) => seq![*c0],
        ExpressionView::ToInt(c0) => seq![*c0],
        ExpressionView::RandomFloat(c0) => seq![*c0],
        ExpressionView::RandomFloatUnit(c0) => seq![*c0],
        ExpressionView::RandomEnemySubset(c0) => seq![*c0],
        ExpressionView::Parent(c0) => seq![*c0],
        ExpressionView::StatusEntity(_, c0) => seq![*c0],
        ExpressionView::StateLast(_, c0) => seq![*c0],
        ExpressionView::Vec2EE(c0, c1) => seq![*c0, *c1],
        ExpressionView::Sum(c0, c1) => seq![*c0, *c1],
        ExpressionView::Sub(c0, c1) => seq![*c0, *c1],
        ExpressionView::Mul(c0, c1) => seq![*c0, *c1],
        ExpressionView::Div(c0, c1) => seq![*c0, *c1],
        ExpressionView::GreaterThen(c0, c1) => seq![*c0, *c1],
        ExpressionView::LessThen(c0, c1) => seq![*c0, *c1],
        ExpressionView::Min(c0, c1) => seq![*c0, *c1],
        ExpressionView::Max(c0, c1) => seq![*c0, *c1],
        ExpressionView::Equals(c0, c1) => seq![*c0, *c1],
        ExpressionView::And(c0, c1) => seq![*c0, *c1],
        ExpressionView::Or(c0, c1) => seq![*c0, *c1],
        ExpressionView::WithVar(_, c0, c1) => seq![*c0, *c1],
        ExpressionView::If(c0, c1, c2) => seq![*c0, *c1, *c2],
        ExpressionView::Spread(c0, c1, c2) => seq![*c0, *c1, *c2],
        _ => Seq::empty(),
    }
}

/// The expression with its sub-expressions replaced, in order, by those of
/// `c`, as far as `c` has any; the rest stay.
pub open spec fn with_children(e: ExpressionView, c: Seq<ExpressionView>) -> ExpressionView {
    match e {
        ExpressionView::Vec2E(c0) => ExpressionView::Vec2E(if 0 < c.len() { Box::new(c[0]) } else { c0 }),
        ExpressionView::StringInt(c0) => ExpressionView::StringInt(if 0 < c.len() { Box::new(c[0]) } else { c0 }),
        ExpressionView::StringFloat(c0) => ExpressionView::StringFloat(if 0 < c.len() { Box::new(c[0]) } else { c0 }),
        ExpressionView::StringVec(c0) => ExpressionView::StringVec(if 0 < c.len() { Box::new(c[0]) } else { c0 }),
        ExpressionView::IntFloat(c0) => ExpressionView::IntFloat(if 0 < c.len() { Box::new(c[0]) } else { c0 }),
        ExpressionView::Sin(c0) => ExpressionView::Sin(if 0 < c.len() { Box::new(c[0]) } else { c0 }),
        ExpressionView::Cos(c0) => ExpressionView::Cos(if 0 < c.len() { Box::new(c[0]) } else { c0 }),
        ExpressionView::Sign(c0) => ExpressionView::Sign(if 0 < c.len() { Box::new(c[0]) } else { c0 }),
        ExpressionView::Fract(c0) => ExpressionView::Fract(if 0 < c.len() { Box::new(c[0]) } else { c0 }),
        ExpressionView::Floor(c0) => ExpressionView::Floor(if 0 < c.len() { Box::new(c[0]) } else { c0 }),
        ExpressionView::UnitVec(c0) => ExpressionView::UnitVec(if 0 < c.len() { Box::new(c[0]) } else { c0 }),
        ExpressionView::Even(c0) => ExpressionView::Even(if 0 < c.len() { Box::new(c[0]) } else { c0 }),
        ExpressionView::Abs(c0) => ExpressionView::Abs(if 0 < c.len() { Box::new(c[0]) } else { c0 }),
        ExpressionView::SlotUnit(c0) => ExpressionView::SlotUnit(if 0 < c.len() { Box::new(c[0]) } else { c0 }),
        ExpressionView::FactionCount(c0) => ExpressionView::FactionCount(if 0 < c.len() { Box::new(c[0]) } else { c0 }),
        ExpressionView::StatusCharges(c0) => ExpressionView::StatusCharges(if 0 < c.len() { Box::new(c[0]) } else { c0 }),
        ExpressionView::FilterUnits(c0) => ExpressionView::FilterUnits(if 0 < c.len() { Box::new(c[0]) } else { c0 }),
        ExpressionView::FilterMaxEnemy(c0) => ExpressionView::FilterMaxEnemy(if 0 < c.len() { Box::new(c[0]) } else { c0 }),
        ExpressionView::FilterMaxAlly(c0) => ExpressionView::FilterMaxAlly(if 0 < c.len() { Box::new(c[0]) } else { c0 }),
        ExpressionView::FindUnit(c0) => ExpressionView::FindUnit(if 0 < c.len() { Box::new(c[0]) } else { c0 }),
        ExpressionView::UnitCount(c0) => ExpressionView::UnitCount(if 0 < c.len() { Box::new(c[0]) } else { c0 }),
        ExpressionView::ToInt(c0) => ExpressionView::ToInt(if 0 < c.len() { Box::new(c[0]) } else { c0 }),
        ExpressionView::RandomFloat(c0) => ExpressionView::RandomFloat(if 0 < c.len() { Box::new(c[0]) } else { c0 }),
        ExpressionView::RandomFloatUnit(c0) => ExpressionView::RandomFloatUnit(if 0 < c.len() { Box::new(c[0]) } else { c0 }),
        ExpressionView::RandomEnemySubset(c0) => ExpressionView::RandomEnemySubset(if 0 < c.len() { Box::new(c[0]) } else { c0 }),
        ExpressionView::Parent(c0) => ExpressionView::Parent(if 0 < c.len() { Box::new(c[0]) } else { c0 }),
        ExpressionView::StatusEntity(p0, c0) => ExpressionView::StatusEntity(p0, if 0 < c.len() { Box::new(c[0]) } else { c0 }),
        ExpressionView::StateLast(p0, c0) => ExpressionView::StateLast(p0, if 0 < c.len() { Box::new(c[0]) } else { c0 }),
        ExpressionView::Vec2EE(c0, c1) => ExpressionView::Vec2EE(if 0 < c.len() { Box::new(c[0]) } else { c0 }, if 1 < c.len() { Box::new(c[1]) } else { c1 }),
        ExpressionView::Sum(c0, c1) => ExpressionView::Sum(if 0 < c.len() { Box::new(c[0]) } else { c0 }, if 1 < c.len() { Box::new(c[1]) } else { c1 }),
        ExpressionView::Sub(c0, c1) => ExpressionView::Sub(if 0 < c.len() { Box::new(c[0]) } else { c0 }, if 1 < c.len() { Box::new(c[1]) } else { c1 }),
        ExpressionView::Mul(c0, c1) => ExpressionView::Mul(if 0 < c.len() { Box::new(c[0]) } else { c0 }, if 1 < c.len() { Box::new(c[1]) } else { c1 }),
        ExpressionView::Div(c0, c1) => ExpressionView::Div(if 0 < c.len() { Box::new(c[0]) } else { c0 }, if 1 < c.len() { Box::new(c[1]) } else { c1 }),
        ExpressionView::GreaterThen(c0, c1) => ExpressionView::GreaterThen(if 0 < c.len() { Box::new(c[0]) } else { c0 }, if 1 < c.len() { Box::new(c[1]) } else { c1 }),
        ExpressionView::LessThen(c0, c1) => ExpressionView::LessThen(if 0 < c.len() { Box::new(c[0]) } else { c0 }, if 1 < c.len() { Box::new(c[1]) } else { c1 }),
        ExpressionView::Min(c0, c1) => ExpressionView::Min(if 0 < c.len() { Box::new(c[0]) } else { c0 }, if 1 < c.len() { Box::new(c[1]) } else { c1 }),
        ExpressionView::Max(c0, c1) => ExpressionView::Max(if 0 < c.len() { Box::new(c[0]) } else { c0 }, if 1 < c.len() { Box::new(c[1]) } else { c1 }),
        ExpressionView::Equals(c0, c1) => ExpressionView::Equals(if 0 < c.len() { Box::new(c[0]) } else { c0 }, if 1 < c.len() { Box::new(c[1]) } else { c1 }),
        ExpressionView::And(c0, c1) => ExpressionView::And(if 0 < c.len() { Box::new(c[0]) } else { c0 }, if 1 < c.len() { Box::new(c[1]) } else { c1 }),
        ExpressionView::Or(c0, c1) => ExpressionView::Or(if 0 < c.len() { Box::new(c[0]) } else { c0 }, if 1 < c.len() { Box::new(c[1]) } else { c1 }),
        ExpressionView::WithVar(p0, c0, c1) => ExpressionView::WithVar(p0, if 0 < c.len() { Box::new(c[0]) } else { c0 }, if 1 < c.len() { Box::new(c[1]) } else { c1 }),
        ExpressionView::If(c0, c1, c2) => ExpressionView::If(if 0 < c.len() { Box::new(c[0]) } else { c0 }, if 1 < c.len() { Box::new(c[1]) } else { c1 }, if 2 < c.len() { Box::new(c[2]) } else { c2 }),
        ExpressionView::Spread(c0, c1, c2) => ExpressionView::Spread(if 0 < c.len() { Box::new(c[0]) } else { c0 }, if 1 < c.len() { Box::new(c[1]) } else { c1 }, if 2 < c.len() { Box::new(c[2]) } else { c2 }),
        _ => e,
    }
}

/// How an expression's node is coloured in the editor, as 0xRRGGBB: plain
/// references, literal values, functions of one, of two and of three
/// sub-expressions each have their colour.
pub open spec fn spec_node_color(e: ExpressionView) -> u32 {
    match e {
        ExpressionView::Zero => 0x80D8FF,
        ExpressionView::GameTime => 0x80D8FF,
        ExpressionView::PI => 0x80D8FF,
        ExpressionView::PI2 => 0x80D8FF,
        ExpressionView::Age => 0x80D8FF,
        ExpressionView::SlotPosition => 0x80D8FF,
        ExpressionView::OwnerFaction => 0x80D8FF,
        ExpressionView::OppositeFaction => 0x80D8FF,
        ExpressionView::Beat => 0x80D8FF,
        ExpressionView::Index => 0x80D8FF,
        ExpressionView::Owner => 0x80D8FF,
        ExpressionView::Caster => 0x80D8FF,
        ExpressionView::Target => 0x80D8FF,
        ExpressionView::Status => 0x80D8FF,
        ExpressionView::RandomUnit => 0x80D8FF,
        ExpressionView::RandomAdjacentUnit => 0x80D8FF,
        ExpressionView::RandomAlly => 0x80D8FF,
        ExpressionView::RandomEnemy => 0x80D8FF,
        ExpressionView::AllAllyUnits => 0x80D8FF,
        ExpressionView::AllEnemyUnits => 0x80D8FF,
        ExpressionView::AllUnits => 0x80D8FF,
        ExpressionView::AllOtherUnits => 0x80D8FF,
        ExpressionView::AdjacentUnits => 0x80D8FF,
        _ => if children(e).len() == 0 { 0x18FFFF } else if children(e).len() == 1 { 0x448AFF } else if children(e).len() == 2 { 0xFFEB3B } else { 0xBA68C8 },
    }
}

impl Expression {
    /// An exact copy of the expression.
    pub fn copy(&self) -> (res: Expression)
        ensures
            res@ == self@,
        decreases self,
    {
        match self {
            Expression::Zero => Expression::Zero,
            Expression::GameTime => Expression::GameTime,
            Expression::PI => Expression::PI,
            Expression::PI2 => Expression::PI2,
            Expression::Age => Expression::Age,
            Expression::SlotPosition => Expression::SlotPosition,
            Expression::OwnerFaction => Expression::OwnerFaction,
            Expression::OppositeFaction => Expression::OppositeFaction,
            Expression::Beat => Expression::Beat,
            Expression::Index => Expression::Index,
            Expression::Owner => Expression::Owner,
            Expression::Caster => Expression::Caster,
            Expression::Target => Expression::Target,
            Expression::Status => Expression::Status,
            Expression::RandomUnit => Expression::RandomUnit,
            Expression::RandomAdjacentUnit => Expression::RandomAdjacentUnit,
            Expression::RandomAlly => Expression::RandomAlly,
            Expression::RandomEnemy => Expression::RandomEnemy,
            Expression::AllAllyUnits => Expression::AllAllyUnits,
            Expression::AllEnemyUnits => Expression::AllEnemyUnits,
            Expression::AllUnits => Expression::AllUnits,
            Expression::AllOtherUnits => Expression::AllOtherUnits,
            Expression::AdjacentUnits => Expression::AdjacentUnits,
            Expression::Float(p0) => Expression::Float(*p0),
            Expression::Int(p0) => Expression::Int(*p0),
            Expression::Bool(p0) => Expression::Bool(*p0),
            Expression::String(p0) => Expression::String(p0.clone()),
            Expression::Hex(p0) => Expression::Hex(p0.clone()),
            Expression::Faction(p0) => Expression::Faction(*p0),
            Expression::OwnerState(p0) => Expression::OwnerState(*p0),
            Expression::OwnerStateLast(p0) => Expression::OwnerStateLast(*p0),
            Expression::TargetState(p0) => Expression::TargetState(*p0),
            Expression::TargetStateLast(p0) => Expression::TargetStateLast(*p0),
            Expression::Context(p0) => Expression::Context(*p0),
            Expression::AbilityContext(p0, p1) => Expression::AbilityContext(p0.clone(), *p1),
            Expression::AbilityState(p0, p1) => Expression::AbilityState(p0.clone(), *p1),
            Expression::Value(p0) => Expression::Value(p0.clone()),
            Expression::RandomStatusAlly(p0) => Expression::RandomStatusAlly(p0.clone()),
            Expression::RandomStatusEnemy(p0) => Expression::RandomStatusEnemy(p0.clone()),
            Expression::AllStatusAllies(p0) => Expression::AllStatusAllies(p0.clone()),
            Expression::AllStatusEnemies(p0) => Expression::AllStatusEnemies(p0.clone()),
            Expression::HasStatus(p0) => Expression::HasStatus(p0.clone()),
            Expression::Vec2(p0, p1) => Expression::Vec2(*p0, *p1),
            Expression::Vec2E(c0) => Expression::Vec2E(Box::new(c0.copy())),
            Expression::StringInt(c0) => Expression::StringInt(Box::new(c0.copy())),
            Expression::StringFloat(c0) => Expression::StringFloat(Box::new(c0.copy())),
            Expression::StringVec(c0) => Expression::StringVec(Box::new(c0.copy())),
            Expression::IntFloat(c0) => Expression::IntFloat(Box::new(c0.copy())),
            Expression::Sin(c0) => Expression::Sin(Box::new(c0.copy())),
            Expression::Cos(c0) => Expression::Cos(Box::new(c0.copy())),
            Expression::Sign(c0) => Expression::Sign(Box::new(c0.copy())),
            Expression::Fract(c0) => Expression::Fract(Box::new(c0.copy())),
            Expression::Floor(c0) => Expression::Floor(Box::new(c0.copy())),
            Expression::UnitVec(c0) => Expression::UnitVec(Box::new(c0.copy())),
            Expression::Even(c0) => Expression::Even(Box::new(c0.copy())),
            Expression::Abs(c0) => Expression::Abs(Box::new(c0.copy())),
            Expression::SlotUnit(c0) => Expression::SlotUnit(Box::new(c0.copy())),
            Expression::FactionCount(c0) => Expression::FactionCount(Box::new(c0.copy())),
            Expression::StatusCharges(c0) => Expression::StatusCharges(Box::new(c0.copy())),
            Expression::FilterUnits(c0) => Expression::FilterUnits(Box::new(c0.copy())),
            Expression::FilterMaxEnemy(c0) => Expression::FilterMaxEnemy(Box::new(c0.copy())),
            Expression::FilterMaxAlly(c0) => Expression::FilterMaxAlly(Box::new(c0.copy())),
            Expression::FindUnit(c0) => Expression::FindUnit(Box::new(c0.copy())),
            Expression::UnitCount(c0) => Expression::UnitCount(Box::new(c0.copy())),
            Expression::ToInt(c0) => Expression::ToInt(Box::new(c0.copy())),
            Expression::RandomFloat(c0) => Expression::RandomFloat(Box::new(c0.copy())),
            Expression::RandomFloatUnit(c0) => Expression::RandomFloatUnit(Box::new(c0.copy())),
            Expression::RandomEnemySubset(c0) => Expression::RandomEnemySubset(Box::new(c0.copy())),
            Expression::Parent(c0) => Expression::Parent(Box::new(c0.copy())),
            Expression::StatusEntity(p0, c0) => Expression::StatusEntity(p0.clone(), Box::new(c0.copy())),
            Expression::StateLast(p0, c0) => Expression::StateLast(*p0, Box::new(c0.copy())),
            Expression::Vec2EE(c0, c1) => Expression::Vec2EE(Box::new(c0.copy()), Box::new(c1.copy())),
            Expression::Sum(c0, c1) => Expression::Sum(Box::new(c0.copy()), Box::new(c1.copy())),
            Expression::Sub(c0, c1) => Expression::Sub(Box::new(c0.copy()), Box::new(c1.copy())),
            Expression::Mul(c0, c1) => Expression::Mul(Box::new(c0.copy()), Box::new(c1.copy())),
            Expression::Div(c0, c1) => Expression::Div(Box::new(c0.copy()), Box::new(c1.copy())),
            Expression::GreaterThen(c0, c1) => Expression::GreaterThen(Box::new(c0.copy()), Box::new(c1.copy())),
            Expression::LessThen(c0, c1) => Expression::LessThen(Box::new(c0.copy()), Box::new(c1.copy())),
            Expression::Min(c0, c1) => Expression::Min(Box::new(c0.copy()), Box::new(c1.copy())),
            Expression::Max(c0, c1) => Expression::Max(Box::new(c0.copy()), Box::new(c1.copy())),
            Expression::Equals(c0, c1) => Expression::Equals(Box::new(c0.copy()), Box::new(c1.copy())),
            Expression::And(c0, c1) => Expression::And(Box::new(c0.copy()), Box::new(c1.copy())),
            Expression::Or(c0, c1) => Expression::Or(Box::new(c0.copy()), Box::new(c1.copy())),
            Expression::WithVar(p0, c0, c1) => Expression::WithVar(*p0, Box::new(c0.copy()), Box::new(c1.copy())),
            Expression::If(c0, c1, c2) => Expression::If(Box::new(c0.copy()), Box::new(c1.copy()), Box::new(c2.copy())),
            Expression::Spread(c0, c1, c2) => Expression::Spread(Box::new(c0.copy()), Box::new(c1.copy()), Box::new(c2.copy())),
        }
    }

    /// Copies of the sub-expressions, in order.
    #[verifier::spinoff_prover]
    #[verifier::rlimit(100)]
    pub fn get_inner(&self) -> (res: Vec<Expression>)
        ensures
            expressions_view(res@) == children(self@),
    {
        let mut res: Vec<Expression> = Vec::new();
        match self {
            Expression::Vec2E(c0) => { res.push(c0.copy()); assert(expressions_view(res@) =~= children(self@)); },
            Expression::StringInt(c0) => { res.push(c0.copy()); assert(expressions_view(res@) =~= children(self@)); },
            Expression::StringFloat(c0) => { res.push(c0.copy()); assert(expressions_view(res@) =~= children(self@)); },
            Expression::StringVec(c0) => { res.push(c0.copy()); assert(expressions_view(res@) =~= children(self@)); },
            Expression::IntFloat(c0) => { res.push(c0.copy()); assert(expressions_view(res@) =~= children(self@)); },
            Expression::Sin(c0) => { res.push(c0.copy()); assert(expressions_view(res@) =~= children(self@)); },
            Expression::Cos(c0) => { res.push(c0.copy()); assert(expressions_view(res@) =~= children(self@)); },
            Expression::Sign(c0) => { res.push(c0.copy()); assert(expressions_view(res@) =~= children(self@)); },
            Expression::Fract(c0) => { res.push(c0.copy()); assert(expressions_view(res@) =~= children(self@)); },
            Expression::Floor(c0) => { res.push(c0.copy()); assert(expressions_view(res@) =~= children(self@)); },
            Expression::UnitVec(c0) => { res.push(c0.copy()); assert(expressions_view(res@) =~= children(self@)); },
            Expression::Even(c0) => { res.push(c0.copy()); assert(expressions_view(res@) =~= children(self@)); },
            Expression::Abs(c0) => { res.push(c0.copy()); assert(expressions_view(res@) =~= children(self@)); },
            Expression::SlotUnit(c0) => { res.push(c0.copy()); assert(expressions_view(res@) =~= children(self@)); },
            Expression::FactionCount(c0) => { res.push(c0.copy()); assert(expressions_view(res@) =~= children(self@)); },
            Expression::StatusCharges(c0) => { res.push(c0.copy()); assert(expressions_view(res@) =~= children(self@)); },
            Expression::FilterUnits(c0) => { res.push(c0.copy()); assert(expressions_view(res@) =~= children(self@)); },
            Expression::FilterMaxEnemy(c0) => { res.push(c0.copy()); assert(expressions_view(res@) =~= children(self@)); },
            Expression::FilterMaxAlly(c0) => { res.push(c0.copy()); assert(expressions_view(res@) =~= children(self@)); },
            Expression::FindUnit(c0) => { res.push(c0.copy()); assert(expressions_view(res@) =~= children(self@)); },
            Expression::UnitCount(c0) => { res.push(c0.copy()); assert(expressions_view(res@) =~= children(self@)); },
            Expression::ToInt(c0) => { res.push(c0.copy()); assert(expressions_view(res@) =~= children(self@)); },
            Expression::RandomFloat(c0) => { res.push(c0.copy()); assert(expressions_view(res@) =~= children(self@)); },
            Expression::RandomFloatUnit(c0) => { res.push(c0.copy()); assert(expressions_view(res@) =~= children(self@)); },
            Expression::RandomEnemySubset(c0) => { res.push(c0.copy()); assert(expressions_view(res@) =~= children(self@)); },
            Expression::Parent(c0) => { res.push(c0.copy()); assert(expressions_view(res@) =~= children(self@)); },
            Expression::StatusEntity(_, c0) => { res.push(c0.copy()); assert(expressions_view(res@) =~= children(self@)); },
            Expression::StateLast(_, c0) => { res.push(c0.copy()); assert(expressions_view(res@) =~= children(self@)); },
            Expression::Vec2EE(c0, c1) => { res.push(c0.copy()); res.push(c1.copy()); assert(expressions_view(res@) =~= children(self@)); },
            Expression::Sum(c0, c1) => { res.push(c0.copy()); res.push(c1.copy()); assert(expressions_view(res@) =~= children(self@)); },
            Expression::Sub(c0, c1) => { res.push(c0.copy()); res.push(c1.copy()); assert(expressions_view(res@) =~= children(self@)); },
            Expression::Mul(c0, c1) => { res.push(c0.copy()); res.push(c1.copy()); assert(expressions_view(res@) =~= children(self@)); },
            Expression::Div(c0, c1) => { res.push(c0.copy()); res.push(c1.copy()); assert(expressions_view(res@) =~= children(self@)); },
            Expression::GreaterThen(c0, c1) => { res.push(c0.copy()); res.push(c1.copy()); assert(expressions_view(res@) =~= children(self@)); },
            Expression::LessThen(c0, c1) => { res.push(c0.copy()); res.push(c1.copy()); assert(expressions_view(res@) =~= children(self@)); },
            Expression::Min(c0, c1) => { res.push(c0.copy()); res.push(c1.copy()); assert(expressions_view(res@) =~= children(self@)); },
            Expression::Max(c0, c1) => { res.push(c0.copy()); res.push(c1.copy()); assert(expressions_view(res@) =~= children(self@)); },
            Expression::Equals(c0, c1) => { res.push(c0.copy()); res.push(c1.copy()); assert(expressions_view(res@) =~= children(self@)); },
            Expression::And(c0, c1) => { res.push(c0.copy()); res.push(c1.copy()); assert(expressions_view(res@) =~= children(self@)); },
            Expression::Or(c0, c1) => { res.push(c0.copy()); res.push(c1.copy()); assert(expressions_view(res@) =~= children(self@)); },
            Expression::WithVar(_, c0, c1) => { res.push(c0.copy()); res.push(c1.copy()); assert(expressions_view(res@) =~= children(self@)); },
            Expression::If(c0, c1, c2) => { res.push(c0.copy()); res.push(c1.copy()); res.push(c2.copy()); assert(expressions_view(res@) =~= children(self@)); },
            Expression::Spread(c0, c1, c2) => { res.push(c0.copy()); res.push(c1.copy()); res.push(c2.copy()); assert(expressions_view(res@) =~= children(self@)); },
            _ => {
                assert(expressions_view(res@) =~= children(self@));
            },
        }
        res
    }

    /// The expression with its sub-expressions replaced, in order, by copies
    /// of those of `other`, as far as `other` has any; the rest stay.
    #[verifier::spinoff_prover]
    #[verifier::rlimit(100)]
    pub fn set_inner(self, other: Expression) -> (res: Expression)
        ensures
            res@ == with_children(self@, children(other@)),
    {
        let c = other.get_inner();
        let ghost cv = children(other@);
        let n = c.len();
        match self {
            Expression::Vec2E(c0) => {
                assert(expressions_view(c@).len() == c@.len());
                Expression::Vec2E(if 0 < n { Box::new(c[0].copy()) } else { c0 })
            },
            Expression::StringInt(c0) => {
                assert(expressions_view(c@).len() == c@.len());
                Expression::StringInt(if 0 < n { Box::new(c[0].copy()) } else { c0 })
            },
            Expression::StringFloat(c0) => {
                assert(expressions_view(c@).len() == c@.len());
                Expression::StringFloat(if 0 < n { Box::new(c[0].copy()) } else { c0 })
            },
            Expression::StringVec(c0) => {
                assert(expressions_view(c@).len() == c@.len());
                Expression::StringVec(if 0 < n { Box::new(c[0].copy()) } else { c0 })
            },
            Expression::IntFloat(c0) => {
                assert(expressions_view(c@).len() == c@.len());
                Expression::IntFloat(if 0 < n { Box::new(c[0].copy()) } else { c0 })
            },
            Expression::Sin(c0) => {
                assert(expressions_view(c@).len() == c@.len());
                Expression::Sin(if 0 < n { Box::new(c[0].copy()) } else { c0 })
            },
            Expression::Cos(c0) => {
                assert(expressions_view(c@).len() == c@.len());
                Expression::Cos(if 0 < n { Box::new(c[0].copy()) } else { c0 })
            },
            Expression::Sign(c0) => {
                assert(expressions_view(c@).len() == c@.len());
                Expression::Sign(if 0 < n { Box::new(c[0].copy()) } else { c0 })
            },
            Expression::Fract(c0) => {
                assert(expressions_view(c@).len() == c@.len());
                Expression::Fract(if 0 < n { Box::new(c[0].copy()) } else { c0 })
            },
            Expression::Floor(c0) => {
                assert(expressions_view(c@).len() == c@.len());
                Expression::Floor(if 0 < n { Box::new(c[0].copy()) } else { c0 })
            },
            Expression::UnitVec(c0) => {
                assert(expressions_view(c@).len() == c@.len());
                Expression::UnitVec(if 0 < n { Box::new(c[0].copy()) } else { c0 })
            },
            Expression::Even(c0) => {
                assert(expressions_view(c@).len() == c@.len());
                Expression::Even(if 0 < n { Box::new(c[0].copy()) } else { c0 })
            },
            Expression::Abs(c0) => {
                assert(expressions_view(c@).len() == c@.len());
                Expression::Abs(if 0 < n { Box::new(c[0].copy()) } else { c0 })
            },
            Expression::SlotUnit(c0) => {
                assert(expressions_view(c@).len() == c@.len());
                Expression::SlotUnit(if 0 < n { Box::new(c[0].copy()) } else { c0 })
            },
            Expression::FactionCount(c0) => {
                assert(expressions_view(c@).len() == c@.len());
                Expression::FactionCount(if 0 < n { Box::new(c[0].copy()) } else { c0 })
            },
            Expression::StatusCharges(c0) => {
                assert(expressions_view(c@).len() == c@.len());
                Expression::StatusCharges(if 0 < n { Box::new(c[0].copy()) } else { c0 })
            },
            Expression::FilterUnits(c0) => {
                assert(expressions_view(c@).len() == c@.len());
                Expression::FilterUnits(if 0 < n { Box::new(c[0].copy()) } else { c0 })
            },
            Expression::FilterMaxEnemy(c0) => {
                assert(expressions_view(c@).len() == c@.len());
                Expression::FilterMaxEnemy(if 0 < n { Box::new(c[0].copy()) } else { c0 })
            },
            Expression::FilterMaxAlly(c0) => {
                assert(expressions_view(c@).len() == c@.len());
                Expression::FilterMaxAlly(if 0 < n { Box::new(c[0].copy()) } else { c0 })
            },
            Expression::FindUnit(c0) => {
                assert(expressions_view(c@).len() == c@.len());
                Expression::FindUnit(if 0 < n { Box::new(c[0].copy()) } else { c0 })
            },
            Expression::UnitCount(c0) => {
                assert(expressions_view(c@).len() == c@.len());
                Expression::UnitCount(if 0 < n { Box::new(c[0].copy()) } else { c0 })
            },
            Expression::ToInt(c0) => {
                assert(expressions_view(c@).len() == c@.len());
                Expression::ToInt(if 0 < n { Box::new(c[0].copy()) } else { c0 })
            },
            Expression::RandomFloat(c0) => {
                assert(expressions_view(c@).len() == c@.len());
                Expression::RandomFloat(if 0 < n { Box::new(c[0].copy()) } else { c0 })
            },
            Expression::RandomFloatUnit(c0) => {
                assert(expressions_view(c@).len() == c@.len());
                Expression::RandomFloatUnit(if 0 < n { Box::new(c[0].copy()) } else { c0 })
            },
            Expression::RandomEnemySubset(c0) => {
                assert(expressions_view(c@).len() == c@.len());
                Expression::RandomEnemySubset(if 0 < n { Box::new(c[0].copy()) } else { c0 })
            },
            Expression::Parent(c0) => {
                assert(expressions_view(c@).len() == c@.len());
                Expression::Parent(if 0 < n { Box::new(c[0].copy()) } else { c0 })
            },
            Expression::StatusEntity(p0, c0) => {
                assert(expressions_view(c@).len() == c@.len());
                Expression::StatusEntity(p0, if 0 < n { Box::new(c[0].copy()) } else { c0 })
            },
            Expression::StateLast(p0, c0) => {
                assert(expressions_view(c@).len() == c@.len());
                Expression::StateLast(p0, if 0 < n { Box::new(c[0].copy()) } else { c0 })
            },
            Expression::Vec2EE(c0, c1) => {
                assert(expressions_view(c@).len() == c@.len());
                Expression::Vec2EE(if 0 < n { Box::new(c[0].copy()) } else { c0 }, if 1 < n { Box::new(c[1].copy()) } else { c1 })
            },
            Expression::Sum(c0, c1) => {
                assert(expressions_view(c@).len() == c@.len());
                Expression::Sum(if 0 < n { Box::new(c[0].copy()) } else { c0 }, if 1 < n { Box::new(c[1].copy()) } else { c1 })
            },
            Expression::Sub(c0, c1) => {
                assert(expressions_view(c@).len() == c@.len());
                Expression::Sub(if 0 < n { Box::new(c[0].copy()) } else { c0 }, if 1 < n { Box::new(c[1].copy()) } else { c1 })
            },
            Expression::Mul(c0, c1) => {
                assert(expressions_view(c@).len() == c@.len());
                Expression::Mul(if 0 < n { Box::new(c[0].copy()) } else { c0 }, if 1 < n { Box::new(c[1].copy()) } else { c1 })
            },
            Expression::Div(c0, c1) => {
                assert(expressions_view(c@).len() == c@.len());
                Expression::Div(if 0 < n { Box::new(c[0].copy()) } else { c0 }, if 1 < n { Box::new(c[1].copy()) } else { c1 })
            },
            Expression::GreaterThen(c0, c1) => {
                assert(expressions_view(c@).len() == c@.len());
                Expression::GreaterThen(if 0 < n { Box::new(c[0].copy()) } else { c0 }, if 1 < n { Box::new(c[1].copy()) } else { c1 })
            },
            Expression::LessThen(c0, c1) => {
                assert(expressions_view(c@).len() == c@.len());
                Expression::LessThen(if 0 < n { Box::new(c[0].copy()) } else { c0 }, if 1 < n { Box::new(c[1].copy()) } else { c1 })
            },
            Expression::Min(c0, c1) => {
                assert(expressions_view(c@).len() == c@.len());
                Expression::Min(if 0 < n { Box::new(c[0].copy()) } else { c0 }, if 1 < n { Box::new(c[1].copy()) } else { c1 })
            },
            Expression::Max(c0, c1) => {
                assert(expressions_view(c@).len() == c@.len());
                Expression::Max(if 0 < n { Box::new(c[0].copy()) } else { c0 }, if 1 < n { Box::new(c[1].copy()) } else { c1 })
            },
            Expression::Equals(c0, c1) => {
                assert(expressions_view(c@).len() == c@.len());
                Expression::Equals(if 0 < n { Box::new(c[0].copy()) } else { c0 }, if 1 < n { Box::new(c[1].copy()) } else { c1 })
            },
            Expression::And(c0, c1) => {
                assert(expressions_view(c@).len() == c@.len());
                Expression::And(if 0 < n { Box::new(c[0].copy()) } else { c0 }, if 1 < n { Box::new(c[1].copy()) } else { c1 })
            },
            Expression::Or(c0, c1) => {
                assert(expressions_view(c@).len() == c@.len());
                Expression::Or(if 0 < n { Box::new(c[0].copy()) } else { c0 }, if 1 < n { Box::new(c[1].copy()) } else { c1 })
            },
            Expression::WithVar(p0, c0, c1) => {
                assert(expressions_view(c@).len() == c@.len());
                Expression::WithVar(p0, if 0 < n { Box::new(c[0].copy()) } else { c0 }, if 1 < n { Box::new(c[1].copy()) } else { c1 })
            },
            Expression::If(c0, c1, c2) => {
                assert(expressions_view(c@).len() == c@.len());
                Expression::If(if 0 < n { Box::new(c[0].copy()) } else { c0 }, if 1 < n { Box::new(c[1].copy()) } else { c1 }, if 2 < n { Box::new(c[2].copy()) } else { c2 })
            },
            Expression::Spread(c0, c1, c2) => {
                assert(expressions_view(c@).len() == c@.len());
                Expression::Spread(if 0 < n { Box::new(c[0].copy()) } else { c0 }, if 1 < n { Box::new(c[1].copy()) } else { c1 }, if 2 < n { Box::new(c[2].copy()) } else { c2 })
            },
            e => e,
        }
    }

    /// The colour of the expression's node in the editor, as 0xRRGGBB; see
    /// [`spec_node_color`].
    pub fn node_color(&self) -> (res: u32)
        ensures
            res == spec_node_color(self@),
    {
        match self {
            Expression::Zero
            | Expression::GameTime
            | Expression::PI
            | Expression::PI2
            | Expression::Age
            | Expression::SlotPosition
            | Expression::OwnerFaction
            | Expression::OppositeFaction
            | Expression::Beat
            | Expression::Index
            | Expression::Owner
            | Expression::Caster
            | Expression::Target
            | Expression::Status
            | Expression::RandomUnit
            | Expression::RandomAdjacentUnit
            | Expression::RandomAlly
            | Expression::RandomEnemy
            | Expression::AllAllyUnits
            | Expression::AllEnemyUnits
            | Expression::AllUnits
            | Expression::AllOtherUnits
            | Expression::AdjacentUnits => 0x80D8FF,
            Expression::Float(..)
            | Expression::Int(..)
            | Expression::Bool(..)
            | Expression::String(..)
            | Expression::Hex(..)
            | Expression::Faction(..)
            | Expression::OwnerState(..)
            | Expression::OwnerStateLast(..)
            | Expression::TargetState(..)
            | Expression::TargetStateLast(..)
            | Expression::Context(..)
            | Expression::AbilityContext(..)
            | Expression::AbilityState(..)
            | Expression::Value(..)
            | Expression::RandomStatusAlly(..)
            | Expression::RandomStatusEnemy(..)
            | Expression::AllStatusAllies(..)
            | Expression::AllStatusEnemies(..)
            | Expression::HasStatus(..)
            | Expression::Vec2(..) => 0x18FFFF,
            Expression::Vec2E(..)
            | Expression::StringInt(..)
            | Expression::StringFloat(..)
            | Expression::StringVec(..)
            | Expression::IntFloat(..)
            | Expression::Sin(..)
            | Expression::Cos(..)
            | Expression::Sign(..)
            | Expression::Fract(..)
            | Expression::Floor(..)
            | Expression::UnitVec(..)
            | Expression::Even(..)
            | Expression::Abs(..)
            | Expression::SlotUnit(..)
            | Expression::FactionCount(..)
            | Expression::StatusCharges(..)
            | Expression::FilterUnits(..)
            | Expression::FilterMaxEnemy(..)
            | Expression::FilterMaxAlly(..)
            | Expression::FindUnit(..)
            | Expression::UnitCount(..)
            | Expression::ToInt(..)
            | Expression::RandomFloat(..)
            | Expression::RandomFloatUnit(..)
            | Expression::RandomEnemySubset(..)
            | Expression::Parent(..)
            | Expression::StatusEntity(..)
            | Expression::StateLast(..) => 0x448AFF,
            Expression::Vec2EE(..)
            | Expression::Sum(..)
            | Expression::Sub(..)
            | Expression::Mul(..)
            | Expression::Div(..)
            | Expression::GreaterThen(..)
            | Expression::LessThen(..)
            | Expression::Min(..)
            | Expression::Max(..)
            | Expression::Equals(..)
            | Expression::And(..)
            | Expression::Or(..)
            | Expression::WithVar(..) => 0xFFEB3B,
            Expression::If(..)
            | Expression::Spread(..) => 0xBA68C8,
        }
    }
}

impl Expression {
    /// The expression multiplied by a tenth, as the editor wraps a node:
    /// `0x3DCCCCCD` is the bit pattern of the 32-bit float nearest to 0.1.
    pub fn wrap(self) -> (res: Expression)
        ensures
            res@ == ExpressionView::Mul(Box::new(self@), Box::new(ExpressionView::Float(0x3DCCCCCD))),
    {
        let ghost v = self@;
        let tenth = Expression::Float(0x3DCCCCCD);
        assert(tenth@ == ExpressionView::Float(0x3DCCCCCD));
        let res = Expression::Mul(Box::new(self), Box::new(tenth));
        assert(res@ == ExpressionView::Mul(Box::new(v), Box::new(ExpressionView::Float(0x3DCCCCCD))));
        res
    }
}

/// The values of a list of expressions.
pub open spec fn expressions_view(s: Seq<Expression>) -> Seq<ExpressionView> {
    s.map_values(|e: Expression| e@)
}

/// Replacing the sub-expressions of an expression (see
/// [`Expression::set_inner`]) keeps its kind and number of sub-expressions:
/// each sub-expression is taken from the replacements as far as they go, and
/// kept otherwise. Replacing them by its own gives the expression back.
#[verifier::spinoff_prover]
#[verifier::rlimit(100)]
pub proof fn law_set_inner(e: ExpressionView, c: Seq<ExpressionView>)
    ensures
        children(with_children(e, c)).len() == children(e).len(),
        forall|i: int| 0 <= i < children(e).len() ==>
            #[trigger] children(with_children(e, c))[i] == if i < c.len() { c[i] } else { children(e)[i] },
        with_children(e, children(e)) == e,
{
}

} // verus!
