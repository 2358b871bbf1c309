use vstd::prelude::*;

use crate::decimal::{decimal, u64_to_string};
use crate::faction::Faction;
use crate::resources::evaluate::{int_text, int_to_string};
use crate::resources::expression::{Expression, ExpressionView};
use crate::vars::{VarName, VarValue, VarValueView};

use convert_case::{Case, Casing};

verus! {

/// What `convert_case` makes of `text` in title case (words capitalised and
/// set apart by spaces) or, with `title` false, in lower case (words in
/// small letters set apart by spaces).
pub uninterp spec fn case_converted(text: Seq<char>, title: bool) -> Seq<char>;

/// Converts `text` with `convert_case`'s `to_case`, to title case or lower
/// case; the result is named [`case_converted`] and depends on the text and
/// the case alone.
#[verifier::external_body]
fn case_text(text: &str, title: bool) -> (res: String)
    ensures
        res@ == case_converted(text@, title),
{
    let case = match title {
        true => Case::Title,
        false => Case::Lower,
    };
    text.to_case(case)
}

/// How a variable is named in text: as it is spelled.
pub open spec fn var_name_text(v: VarName) -> Seq<char> {
    match v {
        VarName::Name => "Name"@,
        VarName::Faction => "Faction"@,
        VarName::Slot => "Slot"@,
        VarName::Slots => "Slots"@,
        VarName::Id => "Id"@,
        VarName::Hp => "Hp"@,
        VarName::Atk => "Atk"@,
        VarName::Stacks => "Stacks"@,
        VarName::Level => "Level"@,
        VarName::Houses => "Houses"@,
        VarName::Charges => "Charges"@,
        VarName::Index => "Index"@,
        VarName::Position => "Position"@,
        VarName::StackCounter => "StackCounter"@,
    }
}

/// The name of a variable.
pub fn var_name_str(v: VarName) -> (res: &'static str)
    ensures
        res@ == var_name_text(v),
{
    match v {
        VarName::Name => "Name",
        VarName::Faction => "Faction",
        VarName::Slot => "Slot",
        VarName::Slots => "Slots",
        VarName::Id => "Id",
        VarName::Hp => "Hp",
        VarName::Atk => "Atk",
        VarName::Stacks => "Stacks",
        VarName::Level => "Level",
        VarName::Houses => "Houses",
        VarName::Charges => "Charges",
        VarName::Index => "Index",
        VarName::Position => "Position",
        VarName::StackCounter => "StackCounter",
    }
}

/// How a side is named in text: as it is spelled.
pub open spec fn faction_text(f: Faction) -> Seq<char> {
    match f {
        Faction::Left => "Left"@,
        Faction::Right => "Right"@,
        Faction::Team => "Team"@,
        Faction::Shop => "Shop"@,
    }
}

/// The name of a side.
pub fn faction_str(f: Faction) -> (res: &'static str)
    ensures
        res@ == faction_text(f),
{
    match f {
        Faction::Left => "Left",
        Faction::Right => "Right",
        Faction::Team => "Team",
        Faction::Shop => "Shop",
    }
}

/// A flag as `to_string` writes it.
pub open spec fn bool_text(b: bool) -> Seq<char> {
    if b { "true"@ } else { "false"@ }
}

/// A flag as `to_string` writes it.
pub fn bool_str(b: bool) -> (res: &'static str)
    ensures
        res@ == bool_text(b),
{
    if b { "true" } else { "false" }
}

/// A list of ids, in brackets and set apart by commas.
pub open spec fn ids_text(ids: Seq<u64>) -> Seq<char> {
    "["@ + ids_inner(ids) + "]"@
}

/// The ids set apart by commas.
pub open spec fn ids_inner(ids: Seq<u64>) -> Seq<char>
    decreases ids.len(),
{
    if ids.len() == 0 {
        Seq::empty()
    } else if ids.len() == 1 {
        decimal(ids[0] as nat)
    } else {
        ids_inner(ids.drop_last()) + ", "@ + decimal(ids.last() as nat)
    }
}

/// A value in text: numbers and flags as `to_string` writes them, a
/// string as it is, a side and an id by name and number, a list of ids in
/// brackets.
pub open spec fn value_text(v: VarValueView) -> Seq<char> {
    match v {
        VarValueView::Int(x) => int_text(x),
        VarValueView::Bool(b) => bool_text(b),
        VarValueView::String(s) => s,
        VarValueView::Faction(f) => faction_text(f),
        VarValueView::Entity(e) => decimal(e as nat),
        VarValueView::EntityList(ids) => ids_text(ids),
    }
}

/// A value in text (see [`value_text`]).
pub fn value_to_text(v: &VarValue) -> (res: String)
    ensures
        res@ == value_text(v@),
{
    match v {
        VarValue::Int(x) => int_to_string(*x),
        VarValue::Bool(b) => bool_str(*b).to_string(),
        VarValue::String(s) => s.clone(),
        VarValue::Faction(f) => faction_str(*f).to_string(),
        VarValue::Entity(e) => u64_to_string(*e),
        VarValue::EntityList(ids) => {
            let mut s = "[".to_string();
            let mut i: usize = 0;
            while i < ids.len()
                invariant
                    i <= ids@.len(),
                    s@ == "["@ + ids_inner(ids@.subrange(0, i as int)),
                decreases ids.len() - i,
            {
                let d = u64_to_string(ids[i]);
                proof {
                    assert(ids@.subrange(0, i + 1).drop_last() =~= ids@.subrange(0, i as int));
                }
                if i > 0 {
                    s.append(", ");
                }
                s.append(d.as_str());
                i = i + 1;
                proof {
                    let sub = ids@.subrange(0, i as int);
                    assert(sub.last() == ids@[i - 1]);
                    if i == 1 {
                        assert(sub[0] == ids@[0]);
                        assert(ids_inner(ids@.subrange(0, 0)) =~= Seq::<char>::empty());
                    }
                }
            }
            assert(ids@.subrange(0, ids@.len() as int) =~= ids@);
            s.append("]");
            s
        },
    }
}

/// Whether the spec function `ft` gives the text that `float_text` gives
/// for every bit pattern of a 32-bit float.
pub open spec fn writes_floats_as<F: Fn(u32) -> String>(float_text: F, ft: spec_fn(u32) -> Seq<char>) -> bool {
    forall|b: u32, r: String| call_ensures(float_text, (b,), r) ==> r@ == ft(b)
}

/// The text of an expression, numbers with a fraction written by `ft`:
/// plain references in lower case; literals as they are; reads of
/// variables with the variable's name; functions by their name in title
/// case with their arguments in brackets; a sum as `(a+b)`.
pub open spec fn spec_text(e: ExpressionView, ft: spec_fn(u32) -> Seq<char>) -> Seq<char>
    decreases e,
{
    match e {
        ExpressionView::Zero => case_converted("Zero"@, false),
        ExpressionView::GameTime => case_converted("GameTime"@, false),
        ExpressionView::PI => case_converted("PI"@, false),
        ExpressionView::PI2 => case_converted("PI2"@, false),
        ExpressionView::Age => case_converted("Age"@, false),
        ExpressionView::SlotPosition => case_converted("SlotPosition"@, false),
        ExpressionView::OwnerFaction => case_converted("OwnerFaction"@, false),
        ExpressionView::OppositeFaction => case_converted("OppositeFaction"@, false),
        ExpressionView::Beat => case_converted("Beat"@, false),
        ExpressionView::Index => case_converted("Index"@, false),
        ExpressionView::Owner => case_converted("Owner"@, false),
        ExpressionView::Caster => case_converted("Caster"@, false),
        ExpressionView::Target => case_converted("Target"@, false),
        ExpressionView::Status => case_converted("Status"@, false),
        ExpressionView::RandomUnit => case_converted("RandomUnit"@, false),
        ExpressionView::RandomAdjacentUnit => case_converted("RandomAdjacentUnit"@, false),
        ExpressionView::RandomAlly => case_converted("RandomAlly"@, false),
        ExpressionView::RandomEnemy => case_converted("RandomEnemy"@, false),
        ExpressionView::AllAllyUnits => case_converted("AllAllyUnits"@, false),
        ExpressionView::AllEnemyUnits => case_converted("AllEnemyUnits"@, false),
        ExpressionView::AllUnits => case_converted("AllUnits"@, false),
        ExpressionView::AllOtherUnits => case_converted("AllOtherUnits"@, false),
        ExpressionView::AdjacentUnits => case_converted("AdjacentUnits"@, false),
        ExpressionView::Float(p0) => ft(p0),
        ExpressionView::Int(p0) => int_text(p0),
        ExpressionView::Bool(p0) => bool_text(p0),
        ExpressionView::String(p0) => p0,
        ExpressionView::Hex(p0) => p0,
        ExpressionView::Faction(p0) => faction_text(p0),
        ExpressionView::OwnerState(p0) => "OwnerState("@ + var_name_text(p0) + ")"@,
        ExpressionView::OwnerStateLast(p0) => "OwnerStateLast("@ + var_name_text(p0) + ")"@,
        ExpressionView::TargetState(p0) => "TargetState("@ + var_name_text(p0) + ")"@,
        ExpressionView::TargetStateLast(p0) => "TargetStateLast("@ + var_name_text(p0) + ")"@,
        ExpressionView::StateLast(p0, c0) => "StateLast ("@ + var_name_text(p0) + ", "@ + spec_text(*c0, ft) + ")"@,
        ExpressionView::Context(p0) => "{"@ + var_name_text(p0) + "}"@,
        ExpressionView::StatusEntity(p0, c0) => "StatusEntity ("@ + p0 + ", "@ + spec_text(*c0, ft) + ")"@,
        ExpressionView::AbilityContext(p0, p1) => "AbilityContext("@ + p0 + ":"@ + var_name_text(p1) + ")"@,
        ExpressionView::AbilityState(p0, p1) => "AbilityState("@ + p0 + ":"@ + var_name_text(p1) + ")"@,
        ExpressionView::Value(p0) => "Value("@ + value_text(p0) + ")"@,
        ExpressionView::Vec2(p0, p1) => "("@ + ft(p0) + ", "@ + ft(p1) + ")"@,
        ExpressionView::Vec2E(c0) => "("@ + spec_text(*c0, ft) + ", "@ + spec_text(*c0, ft) + ")"@,
        ExpressionView::HasStatus(p0) => "HasStatus("@ + p0 + ")"@,
        ExpressionView::StringInt(c0) => case_converted("StringInt"@, true) + " ("@ + spec_text(*c0, ft) + ")"@,
        ExpressionView::StringFloat(c0) => case_converted("StringFloat"@, true) + " ("@ + spec_text(*c0, ft) + ")"@,
        ExpressionView::StringVec(c0) => case_converted("StringVec"@, true) + " ("@ + spec_text(*c0, ft) + ")"@,
        ExpressionView::IntFloat(c0) => case_converted("IntFloat"@, true) + " ("@ + spec_text(*c0, ft) + ")"@,
        ExpressionView::ToInt(c0) => case_converted("ToInt"@, true) + " ("@ + spec_text(*c0, ft) + ")"@,
        ExpressionView::Sin(c0) => case_converted("Sin"@, true) + " ("@ + spec_text(*c0, ft) + ")"@,
        ExpressionView::Cos(c0) => case_converted("Cos"@, true) + " ("@ + spec_text(*c0, ft) + ")"@,
        ExpressionView::Sign(c0) => case_converted("Sign"@, true) + " ("@ + spec_text(*c0, ft) + ")"@,
        ExpressionView::Fract(c0) => case_converted("Fract"@, true) + " ("@ + spec_text(*c0, ft) + ")"@,
        ExpressionView::Floor(c0) => case_converted("Floor"@, true) + " ("@ + spec_text(*c0, ft) + ")"@,
        ExpressionView::UnitVec(c0) => case_converted("UnitVec"@, true) + " ("@ + spec_text(*c0, ft) + ")"@,
        ExpressionView::Even(c0) => case_converted("Even"@, true) + " ("@ + spec_text(*c0, ft) + ")"@,
        ExpressionView::Abs(c0) => case_converted("Abs"@, true) + " ("@ + spec_text(*c0, ft) + ")"@,
        ExpressionView::SlotUnit(c0) => case_converted("SlotUnit"@, true) + " ("@ + spec_text(*c0, ft) + ")"@,
        ExpressionView::FactionCount(c0) => case_converted("FactionCount"@, true) + " ("@ + spec_text(*c0, ft) + ")"@,
        ExpressionView::FilterMaxEnemy(c0) => case_converted("FilterMaxEnemy"@, true) + " ("@ + spec_text(*c0, ft) + ")"@,
        ExpressionView::FilterMaxAlly(c0) => case_converted("FilterMaxAlly"@, true) + " ("@ + spec_text(*c0, ft) + ")"@,
        ExpressionView::FindUnit(c0) => case_converted("FindUnit"@, true) + " ("@ + spec_text(*c0, ft) + ")"@,
        ExpressionView::Parent(c0) => case_converted("Parent"@, true) + " ("@ + spec_text(*c0, ft) + ")"@,
        ExpressionView::UnitCount(c0) => case_converted("UnitCount"@, true) + " ("@ + spec_text(*c0, ft) + ")"@,
        ExpressionView::RandomFloat(c0) => case_converted("RandomFloat"@, true) + " ("@ + spec_text(*c0, ft) + ")"@,
        ExpressionView::RandomFloatUnit(c0) => case_converted("RandomFloatUnit"@, true) + " ("@ + spec_text(*c0, ft) + ")"@,
        ExpressionView::StatusCharges(c0) => case_converted("StatusCharges"@, true) + " ("@ + spec_text(*c0, ft) + ")"@,
        ExpressionView::FilterUnits(c0) => case_converted("FilterUnits"@, true) + " ("@ + spec_text(*c0, ft) + ")"@,
        ExpressionView::Vec2EE(c0, c1) => case_converted("Vec2EE"@, true) + "("@ + spec_text(*c0, ft) + ", "@ + spec_text(*c1, ft) + ")"@,
        ExpressionView::Sub(c0, c1) => case_converted("Sub"@, true) + "("@ + spec_text(*c0, ft) + ", "@ + spec_text(*c1, ft) + ")"@,
        ExpressionView::Mul(c0, c1) => case_converted("Mul"@, true) + "("@ + spec_text(*c0, ft) + ", "@ + spec_text(*c1, ft) + ")"@,
        ExpressionView::Div(c0, c1) => case_converted("Div"@, true) + "("@ + spec_text(*c0, ft) + ", "@ + spec_text(*c1, ft) + ")"@,
        ExpressionView::GreaterThen(c0, c1) => case_converted("GreaterThen"@, true) + "("@ + spec_text(*c0, ft) + ", "@ + spec_text(*c1, ft) + ")"@,
        ExpressionView::LessThen(c0, c1) => case_converted("LessThen"@, true) + "("@ + spec_text(*c0, ft) + ", "@ + spec_text(*c1, ft) + ")"@,
        ExpressionView::Min(c0, c1) => case_converted("Min"@, true) + "("@ + spec_text(*c0, ft) + ", "@ + spec_text(*c1, ft) + ")"@,
        ExpressionView::Max(c0, c1) => case_converted("Max"@, true) + "("@ + spec_text(*c0, ft) + ", "@ + spec_text(*c1, ft) + ")"@,
        ExpressionView::Equals(c0, c1) => case_converted("Equals"@, true) + "("@ + spec_text(*c0, ft) + ", "@ + spec_text(*c1, ft) + ")"@,
        ExpressionView::And(c0, c1) => case_converted("And"@, true) + "("@ + spec_text(*c0, ft) + ", "@ + spec_text(*c1, ft) + ")"@,
        ExpressionView::Or(c0, c1) => case_converted("Or"@, true) + "("@ + spec_text(*c0, ft) + ", "@ + spec_text(*c1, ft) + ")"@,
        ExpressionView::Sum(c0, c1) => "("@ + spec_text(*c0, ft) + "+"@ + spec_text(*c1, ft) + ")"@,
        ExpressionView::If(c0, c1, c2) => "If("@ + spec_text(*c0, ft) + ", "@ + spec_text(*c1, ft) + ", "@ + spec_text(*c2, ft) + ")"@,
        ExpressionView::Spread(c0, c1, c2) => "Spread("@ + spec_text(*c0, ft) + ", "@ + spec_text(*c1, ft) + ", "@ + spec_text(*c2, ft) + ")"@,
        ExpressionView::WithVar(p0, c0, c1) => case_converted("WithVar"@, true) + "("@ + var_name_text(p0) + ", "@ + spec_text(*c0, ft) + ", "@ + spec_text(*c1, ft) + ")"@,
        ExpressionView::RandomEnemySubset(c0) => "{"@ + spec_text(*c0, ft) + "} random enemies"@,
        ExpressionView::RandomStatusAlly(p0) => "random ally with ["@ + p0 + "]"@,
        ExpressionView::RandomStatusEnemy(p0) => "random enemy with ["@ + p0 + "]"@,
        ExpressionView::AllStatusAllies(p0) => "all allies with ["@ + p0 + "]"@,
        ExpressionView::AllStatusEnemies(p0) => "all enemies with ["@ + p0 + "]"@,
    }
}

impl Expression {
    /// The expression written out (see [`spec_text`]), each number with a
    /// fraction written by `float_text` from its bit pattern.
    #[verifier::spinoff_prover]
    #[verifier::rlimit(100)]
    pub fn to_text<F: Fn(u32) -> String>(&self, float_text: &F) -> (res: String)
        requires
            forall|b: u32| call_requires(*float_text, (b,)),
        ensures
            forall|ft: spec_fn(u32) -> Seq<char>| #[trigger] writes_floats_as(*float_text, ft) ==> res@ == spec_text(self@, ft),
        decreases self,
    {
        match self {
            Expression::Zero => {
                let t0 = case_text("Zero", false);
                let mut s = t0.as_str().to_string();
                s
            },
            Expression::GameTime => {
                let t0 = case_text("GameTime", false);
                let mut s = t0.as_str().to_string();
                s
            },
            Expression::PI => {
                let t0 = case_text("PI", false);
                let mut s = t0.as_str().to_string();
                s
            },
            Expression::PI2 => {
                let t0 = case_text("PI2", false);
                let mut s = t0.as_str().to_string();
                s
            },
            Expression::Age => {
                let t0 = case_text("Age", false);
                let mut s = t0.as_str().to_string();
                s
            },
            Expression::SlotPosition => {
                let t0 = case_text("SlotPosition", false);
                let mut s = t0.as_str().to_string();
                s
            },
            Expression::OwnerFaction => {
                let t0 = case_text("OwnerFaction", false);
                let mut s = t0.as_str().to_string();
                s
            },
            Expression::OppositeFaction => {
                let t0 = case_text("OppositeFaction", false);
                let mut s = t0.as_str().to_string();
                s
            },
            Expression::Beat => {
                let t0 = case_text("Beat", false);
                let mut s = t0.as_str().to_string();
                s
            },
            Expression::Index => {
                let t0 = case_text("Index", false);
                let mut s = t0.as_str().to_string();
                s
            },
            Expression::Owner => {
                let t0 = case_text("Owner", false);
                let mut s = t0.as_str().to_string();
                s
            },
            Expression::Caster => {
                let t0 = case_text("Caster", false);
                let mut s = t0.as_str().to_string();
                s
            },
            Expression::Target => {
                let t0 = case_text("Target", false);
                let mut s = t0.as_str().to_string();
                s
            },
            Expression::Status => {
                let t0 = case_text("Status", false);
                let mut s = t0.as_str().to_string();
                s
            },
            Expression::RandomUnit => {
                let t0 = case_text("RandomUnit", false);
                let mut s = t0.as_str().to_string();
                s
            },
            Expression::RandomAdjacentUnit => {
                let t0 = case_text("RandomAdjacentUnit", false);
                let mut s = t0.as_str().to_string();
                s
            },
            Expression::RandomAlly => {
                let t0 = case_text("RandomAlly", false);
                let mut s = t0.as_str().to_string();
                s
            },
            Expression::RandomEnemy => {
                let t0 = case_text("RandomEnemy", false);
                let mut s = t0.as_str().to_string();
                s
            },
            Expression::AllAllyUnits => {
                let t0 = case_text("AllAllyUnits", false);
                let mut s = t0.as_str().to_string();
                s
            },
            Expression::AllEnemyUnits => {
                let t0 = case_text("AllEnemyUnits", false);
                let mut s = t0.as_str().to_string();
                s
            },
            Expression::AllUnits => {
                let t0 = case_text("AllUnits", false);
                let mut s = t0.as_str().to_string();
                s
            },
            Expression::AllOtherUnits => {
                let t0 = case_text("AllOtherUnits", false);
                let mut s = t0.as_str().to_string();
                s
            },
            Expression::AdjacentUnits => {
                let t0 = case_text("AdjacentUnits", false);
                let mut s = t0.as_str().to_string();
                s
            },
            Expression::Float(p0) => {
                let t0 = float_text(*p0);
                let mut s = t0.as_str().to_string();
                s
            },
            Expression::Int(p0) => {
                let t0 = int_to_string(*p0);
                let mut s = t0.as_str().to_string();
                s
            },
            Expression::Bool(p0) => {
                let mut s = bool_str(*p0).to_string();
                s
            },
            Expression::String(p0) => {
                let mut s = p0.as_str().to_string();
                s
            },
            Expression::Hex(p0) => {
                let mut s = p0.as_str().to_string();
                s
            },
            Expression::Faction(p0) => {
                let mut s = faction_str(*p0).to_string();
                s
            },
            Expression::OwnerState(p0) => {
                let mut s = "OwnerState(".to_string();
                s.append(var_name_str(*p0));
                s.append(")");
                s
            },
            Expression::OwnerStateLast(p0) => {
                let mut s = "OwnerStateLast(".to_string();
                s.append(var_name_str(*p0));
                s.append(")");
                s
            },
            Expression::TargetState(p0) => {
                let mut s = "TargetState(".to_string();
                s.append(var_name_str(*p0));
                s.append(")");
                s
            },
            Expression::TargetStateLast(p0) => {
                let mut s = "TargetStateLast(".to_string();
                s.append(var_name_str(*p0));
                s.append(")");
                s
            },
            Expression::StateLast(p0, c0) => {
                let t3 = c0.to_text(float_text);
                let mut s = "StateLast (".to_string();
                s.append(var_name_str(*p0));
                s.append(", ");
                s.append(t3.as_str());
                s.append(")");
                s
            },
            Expression::Context(p0) => {
                let mut s = "{".to_string();
                s.append(var_name_str(*p0));
                s.append("}");
                s
            },
            Expression::StatusEntity(p0, c0) => {
                let t3 = c0.to_text(float_text);
                let mut s = "StatusEntity (".to_string();
                s.append(p0.as_str());
                s.append(", ");
                s.append(t3.as_str());
                s.append(")");
                s
            },
            Expression::AbilityContext(p0, p1) => {
                let mut s = "AbilityContext(".to_string();
                s.append(p0.as_str());
                s.append(":");
                s.append(var_name_str(*p1));
                s.append(")");
                s
            },
            Expression::AbilityState(p0, p1) => {
                let mut s = "AbilityState(".to_string();
                s.append(p0.as_str());
                s.append(":");
                s.append(var_name_str(*p1));
                s.append(")");
                s
            },
            Expression::Value(p0) => {
                let t1 = value_to_text(p0);
                let mut s = "Value(".to_string();
                s.append(t1.as_str());
                s.append(")");
                s
            },
            Expression::Vec2(p0, p1) => {
                let t1 = float_text(*p0);
                let t3 = float_text(*p1);
                let mut s = "(".to_string();
                s.append(t1.as_str());
                s.append(", ");
                s.append(t3.as_str());
                s.append(")");
                s
            },
            Expression::Vec2E(c0) => {
                let t1 = c0.to_text(float_text);
                let mut s = "(".to_string();
                s.append(t1.as_str());
                s.append(", ");
                s.append(t1.as_str());
                s.append(")");
                s
            },
            Expression::HasStatus(p0) => {
                let mut s = "HasStatus(".to_string();
                s.append(p0.as_str());
                s.append(")");
                s
            },
            Expression::StringInt(c0) => {
                let t0 = case_text("StringInt", true);
                let t2 = c0.to_text(float_text);
                let mut s = t0.as_str().to_string();
                s.append(" (");
                s.append(t2.as_str());
                s.append(")");
                s
            },
            Expression::StringFloat(c0) => {
                let t0 = case_text("StringFloat", true);
                let t2 = c0.to_text(float_text);
                let mut s = t0.as_str().to_string();
                s.append(" (");
                s.append(t2.as_str());
                s.append(")");
                s
            },
            Expression::StringVec(c0) => {
                let t0 = case_text("StringVec", true);
                let t2 = c0.to_text(float_text);
                let mut s = t0.as_str().to_string();
                s.append(" (");
                s.append(t2.as_str());
                s.append(")");
                s
            },
            Expression::IntFloat(c0) => {
                let t0 = case_text("IntFloat", true);
                let t2 = c0.to_text(float_text);
                let mut s = t0.as_str().to_string();
                s.append(" (");
                s.append(t2.as_str());
                s.append(")");
                s
            },
            Expression::ToInt(c0) => {
                let t0 = case_text("ToInt", true);
                let t2 = c0.to_text(float_text);
                let mut s = t0.as_str().to_string();
                s.append(" (");
                s.append(t2.as_str());
                s.append(")");
                s
            },
            Expression::Sin(c0) => {
                let t0 = case_text("Sin", true);
                let t2 = c0.to_text(float_text);
                let mut s = t0.as_str().to_string();
                s.append(" (");
                s.append(t2.as_str());
                s.append(")");
                s
            },
            Expression::Cos(c0) => {
                let t0 = case_text("Cos", true);
                let t2 = c0.to_text(float_text);
                let mut s = t0.as_str().to_string();
                s.append(" (");
                s.append(t2.as_str());
                s.append(")");
                s
            },
            Expression::Sign(c0) => {
                let t0 = case_text("Sign", true);
                let t2 = c0.to_text(float_text);
                let mut s = t0.as_str().to_string();
                s.append(" (");
                s.append(t2.as_str());
                s.append(")");
                s
            },
            Expression::Fract(c0) => {
                let t0 = case_text("Fract", true);
                let t2 = c0.to_text(float_text);
                let mut s = t0.as_str().to_string();
                s.append(" (");
                s.append(t2.as_str());
                s.append(")");
                s
            },
            Expression::Floor(c0) => {
                let t0 = case_text("Floor", true);
                let t2 = c0.to_text(float_text);
                let mut s = t0.as_str().to_string();
                s.append(" (");
                s.append(t2.as_str());
                s.append(")");
                s
            },
            Expression::UnitVec(c0) => {
                let t0 = case_text("UnitVec", true);
                let t2 = c0.to_text(float_text);
                let mut s = t0.as_str().to_string();
                s.append(" (");
                s.append(t2.as_str());
                s.append(")");
                s
            },
            Expression::Even(c0) => {
                let t0 = case_text("Even", true);
                let t2 = c0.to_text(float_text);
                let mut s = t0.as_str().to_string();
                s.append(" (");
                s.append(t2.as_str());
                s.append(")");
                s
            },
            Expression::Abs(c0) => {
                let t0 = case_text("Abs", true);
                let t2 = c0.to_text(float_text);
                let mut s = t0.as_str().to_string();
                s.append(" (");
                s.append(t2.as_str());
                s.append(")");
                s
            },
            Expression::SlotUnit(c0) => {
                let t0 = case_text("SlotUnit", true);
                let t2 = c0.to_text(float_text);
                let mut s = t0.as_str().to_string();
                s.append(" (");
                s.append(t2.as_str());
                s.append(")");
                s
            },
            Expression::FactionCount(c0) => {
                let t0 = case_text("FactionCount", true);
                let t2 = c0.to_text(float_text);
                let mut s = t0.as_str().to_string();
                s.append(" (");
                s.append(t2.as_str());
                s.append(")");
                s
            },
            Expression::FilterMaxEnemy(c0) => {
                let t0 = case_text("FilterMaxEnemy", true);
                let t2 = c0.to_text(float_text);
                let mut s = t0.as_str().to_string();
                s.append(" (");
                s.append(t2.as_str());
                s.append(")");
                s
            },
            Expression::FilterMaxAlly(c0) => {
                let t0 = case_text("FilterMaxAlly", true);
                let t2 = c0.to_text(float_text);
                let mut s = t0.as_str().to_string();
                s.append(" (");
                s.append(t2.as_str());
                s.append(")");
                s
            },
            Expression::FindUnit(c0) => {
                let t0 = case_text("FindUnit", true);
                let t2 = c0.to_text(float_text);
                let mut s = t0.as_str().to_string();
                s.append(" (");
                s.append(t2.as_str());
                s.append(")");
                s
            },
            Expression::Parent(c0) => {
                let t0 = case_text("Parent", true);
                let t2 = c0.to_text(float_text);
                let mut s = t0.as_str().to_string();
                s.append(" (");
                s.append(t2.as_str());
                s.append(")");
                s
            },
            Expression::UnitCount(c0) => {
                let t0 = case_text("UnitCount", true);
                let t2 = c0.to_text(float_text);
                let mut s = t0.as_str().to_string();
                s.append(" (");
                s.append(t2.as_str());
                s.append(")");
                s
            },
            Expression::RandomFloat(c0) => {
                let t0 = case_text("RandomFloat", true);
                let t2 = c0.to_text(float_text);
                let mut s = t0.as_str().to_string();
                s.append(" (");
                s.append(t2.as_str());
                s.append(")");
                s
            },
            Expression::RandomFloatUnit(c0) => {
                let t0 = case_text("RandomFloatUnit", true);
                let t2 = c0.to_text(float_text);
                let mut s = t0.as_str().to_string();
                s.append(" (");
                s.append(t2.as_str());
                s.append(")");
                s
            },
            Expression::StatusCharges(c0) => {
                let t0 = case_text("StatusCharges", true);
                let t2 = c0.to_text(float_text);
                let mut s = t0.as_str().to_string();
                s.append(" (");
                s.append(t2.as_str());
                s.append(")");
                s
            },
            Expression::FilterUnits(c0) => {
                let t0 = case_text("FilterUnits", true);
                let t2 = c0.to_text(float_text);
                let mut s = t0.as_str().to_string();
                s.append(" (");
                s.append(t2.as_str());
                s.append(")");
                s
            },
            Expression::Vec2EE(c0, c1) => {
                let t0 = case_text("Vec2EE", true);
                let t2 = c0.to_text(float_text);
                let t4 = c1.to_text(float_text);
                let mut s = t0.as_str().to_string();
                s.append("(");
                s.append(t2.as_str());
                s.append(", ");
                s.append(t4.as_str());
                s.append(")");
                s
            },
            Expression::Sub(c0, c1) => {
                let t0 = case_text("Sub", true);
                let t2 = c0.to_text(float_text);
                let t4 = c1.to_text(float_text);
                let mut s = t0.as_str().to_string();
                s.append("(");
                s.append(t2.as_str());
                s.append(", ");
                s.append(t4.as_str());
                s.append(")");
                s
            },
            Expression::Mul(c0, c1) => {
                let t0 = case_text("Mul", true);
                let t2 = c0.to_text(float_text);
                let t4 = c1.to_text(float_text);
                let mut s = t0.as_str().to_string();
                s.append("(");
                s.append(t2.as_str());
                s.append(", ");
                s.append(t4.as_str());
                s.append(")");
                s
            },
            Expression::Div(c0, c1) => {
                let t0 = case_text("Div", true);
                let t2 = c0.to_text(float_text);
                let t4 = c1.to_text(float_text);
                let mut s = t0.as_str().to_string();
                s.append("(");
                s.append(t2.as_str());
                s.append(", ");
                s.append(t4.as_str());
                s.append(")");
                s
            },
            Expression::GreaterThen(c0, c1) => {
                let t0 = case_text("GreaterThen", true);
                let t2 = c0.to_text(float_text);
                let t4 = c1.to_text(float_text);
                let mut s = t0.as_str().to_string();
                s.append("(");
                s.append(t2.as_str());
                s.append(", ");
                s.append(t4.as_str());
                s.append(")");
                s
            },
            Expression::LessThen(c0, c1) => {
                let t0 = case_text("LessThen", true);
                let t2 = c0.to_text(float_text);
                let t4 = c1.to_text(float_text);
                let mut s = t0.as_str().to_string();
                s.append("(");
                s.append(t2.as_str());
                s.append(", ");
                s.append(t4.as_str());
                s.append(")");
                s
            },
            Expression::Min(c0, c1) => {
                let t0 = case_text("Min", true);
                let t2 = c0.to_text(float_text);
                let t4 = c1.to_text(float_text);
                let mut s = t0.as_str().to_string();
                s.append("(");
                s.append(t2.as_str());
                s.append(", ");
                s.append(t4.as_str());
                s.append(")");
                s
            },
            Expression::Max(c0, c1) => {
                let t0 = case_text("Max", true);
                let t2 = c0.to_text(float_text);
                let t4 = c1.to_text(float_text);
                let mut s = t0.as_str().to_string();
                s.append("(");
                s.append(t2.as_str());
                s.append(", ");
                s.append(t4.as_str());
                s.append(")");
                s
            },
            Expression::Equals(c0, c1) => {
                let t0 = case_text("Equals", true);
                let t2 = c0.to_text(float_text);
                let t4 = c1.to_text(float_text);
                let mut s = t0.as_str().to_string();
                s.append("(");
                s.append(t2.as_str());
                s.append(", ");
                s.append(t4.as_str());
                s.append(")");
                s
            },
            Expression::And(c0, c1) => {
                let t0 = case_text("And", true);
                let t2 = c0.to_text(float_text);
                let t4 = c1.to_text(float_text);
                let mut s = t0.as_str().to_string();
                s.append("(");
                s.append(t2.as_str());
                s.append(", ");
                s.append(t4.as_str());
                s.append(")");
                s
            },
            Expression::Or(c0, c1) => {
                let t0 = case_text("Or", true);
                let t2 = c0.to_text(float_text);
                let t4 = c1.to_text(float_text);
                let mut s = t0.as_str().to_string();
                s.append("(");
                s.append(t2.as_str());
                s.append(", ");
                s.append(t4.as_str());
                s.append(")");
                s
            },
            Expression::Sum(c0, c1) => {
                let t1 = c0.to_text(float_text);
                let t3 = c1.to_text(float_text);
                let mut s = "(".to_string();
                s.append(t1.as_str());
                s.append("+");
                s.append(t3.as_str());
                s.append(")");
                s
            },
            Expression::If(c0, c1, c2) => {
                let t1 = c0.to_text(float_text);
                let t3 = c1.to_text(float_text);
                let t5 = c2.to_text(float_text);
                let mut s = "If(".to_string();
                s.append(t1.as_str());
                s.append(", ");
                s.append(t3.as_str());
                s.append(", ");
                s.append(t5.as_str());
                s.append(")");
                s
            },
            Expression::Spread(c0, c1, c2) => {
                let t1 = c0.to_text(float_text);
                let t3 = c1.to_text(float_text);
                let t5 = c2.to_text(float_text);
                let mut s = "Spread(".to_string();
                s.append(t1.as_str());
                s.append(", ");
                s.append(t3.as_str());
                s.append(", ");
                s.append(t5.as_str());
                s.append(")");
                s
            },
            Expression::WithVar(p0, c0, c1) => {
                let t0 = case_text("WithVar", true);
                let t4 = c0.to_text(float_text);
                let t6 = c1.to_text(float_text);
                let mut s = t0.as_str().to_string();
                s.append("(");
                s.append(var_name_str(*p0));
                s.append(", ");
                s.append(t4.as_str());
                s.append(", ");
                s.append(t6.as_str());
                s.append(")");
                s
            },
            Expression::RandomEnemySubset(c0) => {
                let t1 = c0.to_text(float_text);
                let mut s = "{".to_string();
                s.append(t1.as_str());
                s.append("} random enemies");
                s
            },
            Expression::RandomStatusAlly(p0) => {
                let mut s = "random ally with [".to_string();
                s.append(p0.as_str());
                s.append("]");
                s
            },
            Expression::RandomStatusEnemy(p0) => {
                let mut s = "random enemy with [".to_string();
                s.append(p0.as_str());
                s.append("]");
                s
            },
            Expression::AllStatusAllies(p0) => {
                let mut s = "all allies with [".to_string();
                s.append(p0.as_str());
                s.append("]");
                s
            },
            Expression::AllStatusEnemies(p0) => {
                let mut s = "all enemies with [".to_string();
                s.append(p0.as_str());
                s.append("]");
                s
            },
        }
    }
}

/// A function of two arguments is written as its name in title case, then
/// its arguments in brackets, first before second, set apart by a comma: for
/// `Sub(a, b)`, `"Sub(" + text(a) + ", " + text(b) + ")"`. A sum is written
/// `(a+b)`, a choice and a spread with their three arguments in order, and a
/// binding with the variable, the value and the body in order.
pub proof fn law_binary_text(a: ExpressionView, b: ExpressionView, d: ExpressionView, var: VarName, ft: spec_fn(u32) -> Seq<char>)
    ensures
        spec_text(ExpressionView::Vec2EE(Box::new(a), Box::new(b)), ft)
            == case_converted("Vec2EE"@, true) + "("@ + spec_text(a, ft) + ", "@ + spec_text(b, ft) + ")"@,
        spec_text(ExpressionView::Sub(Box::new(a), Box::new(b)), ft)
            == case_converted("Sub"@, true) + "("@ + spec_text(a, ft) + ", "@ + spec_text(b, ft) + ")"@,
        spec_text(ExpressionView::Mul(Box::new(a), Box::new(b)), ft)
            == case_converted("Mul"@, true) + "("@ + spec_text(a, ft) + ", "@ + spec_text(b, ft) + ")"@,
        spec_text(ExpressionView::Div(Box::new(a), Box::new(b)), ft)
            == case_converted("Div"@, true) + "("@ + spec_text(a, ft) + ", "@ + spec_text(b, ft) + ")"@,
        spec_text(ExpressionView::GreaterThen(Box::new(a), Box::new(b)), ft)
            == case_converted("GreaterThen"@, true) + "("@ + spec_text(a, ft) + ", "@ + spec_text(b, ft) + ")"@,
        spec_text(ExpressionView::LessThen(Box::new(a), Box::new(b)), ft)
            == case_converted("LessThen"@, true) + "("@ + spec_text(a, ft) + ", "@ + spec_text(b, ft) + ")"@,
        spec_text(ExpressionView::Min(Box::new(a), Box::new(b)), ft)
            == case_converted("Min"@, true) + "("@ + spec_text(a, ft) + ", "@ + spec_text(b, ft) + ")"@,
        spec_text(ExpressionView::Max(Box::new(a), Box::new(b)), ft)
            == case_converted("Max"@, true) + "("@ + spec_text(a, ft) + ", "@ + spec_text(b, ft) + ")"@,
        spec_text(ExpressionView::Equals(Box::new(a), Box::new(b)), ft)
            == case_converted("Equals"@, true) + "("@ + spec_text(a, ft) + ", "@ + spec_text(b, ft) + ")"@,
        spec_text(ExpressionView::And(Box::new(a), Box::new(b)), ft)
            == case_converted("And"@, true) + "("@ + spec_text(a, ft) + ", "@ + spec_text(b, ft) + ")"@,
        spec_text(ExpressionView::Or(Box::new(a), Box::new(b)), ft)
            == case_converted("Or"@, true) + "("@ + spec_text(a, ft) + ", "@ + spec_text(b, ft) + ")"@,
        spec_text(ExpressionView::Sum(Box::new(a), Box::new(b)), ft) == "("@ + spec_text(a, ft) + "+"@ + spec_text(b, ft) + ")"@,
        spec_text(ExpressionView::If(Box::new(a), Box::new(b), Box::new(d)), ft)
            == "If("@ + spec_text(a, ft) + ", "@ + spec_text(b, ft) + ", "@ + spec_text(d, ft) + ")"@,
        spec_text(ExpressionView::Spread(Box::new(a), Box::new(b), Box::new(d)), ft)
            == "Spread("@ + spec_text(a, ft) + ", "@ + spec_text(b, ft) + ", "@ + spec_text(d, ft) + ")"@,
        spec_text(ExpressionView::WithVar(var, Box::new(a), Box::new(b)), ft)
            == case_converted("WithVar"@, true) + "("@ + var_name_text(var) + ", "@ + spec_text(a, ft) + ", "@ + spec_text(b, ft) + ")"@,
{
}

/// A function of one argument is written as its name in title case, a
/// space, then its argument in brackets; a pair made of one value writes
/// that value twice.
pub proof fn law_unary_text(a: ExpressionView, ft: spec_fn(u32) -> Seq<char>)
    ensures
        spec_text(ExpressionView::StringInt(Box::new(a)), ft) == case_converted("StringInt"@, true) + " ("@ + spec_text(a, ft) + ")"@,
        spec_text(ExpressionView::StringFloat(Box::new(a)), ft) == case_converted("StringFloat"@, true) + " ("@ + spec_text(a, ft) + ")"@,
        spec_text(ExpressionView::StringVec(Box::new(a)), ft) == case_converted("StringVec"@, true) + " ("@ + spec_text(a, ft) + ")"@,
        spec_text(ExpressionView::IntFloat(Box::new(a)), ft) == case_converted("IntFloat"@, true) + " ("@ + spec_text(a, ft) + ")"@,
        spec_text(ExpressionView::ToInt(Box::new(a)), ft) == case_converted("ToInt"@, true) + " ("@ + spec_text(a, ft) + ")"@,
        spec_text(ExpressionView::Sin(Box::new(a)), ft) == case_converted("Sin"@, true) + " ("@ + spec_text(a, ft) + ")"@,
        spec_text(ExpressionView::Cos(Box::new(a)), ft) == case_converted("Cos"@, true) + " ("@ + spec_text(a, ft) + ")"@,
        spec_text(ExpressionView::Sign(Box::new(a)), ft) == case_converted("Sign"@, true) + " ("@ + spec_text(a, ft) + ")"@,
        spec_text(ExpressionView::Fract(Box::new(a)), ft) == case_converted("Fract"@, true) + " ("@ + spec_text(a, ft) + ")"@,
        spec_text(ExpressionView::Floor(Box::new(a)), ft) == case_converted("Floor"@, true) + " ("@ + spec_text(a, ft) + ")"@,
        spec_text(ExpressionView::UnitVec(Box::new(a)), ft) == case_converted("UnitVec"@, true) + " ("@ + spec_text(a, ft) + ")"@,
        spec_text(ExpressionView::Even(Box::new(a)), ft) == case_converted("Even"@, true) + " ("@ + spec_text(a, ft) + ")"@,
        spec_text(ExpressionView::Abs(Box::new(a)), ft) == case_converted("Abs"@, true) + " ("@ + spec_text(a, ft) + ")"@,
        spec_text(ExpressionView::SlotUnit(Box::new(a)), ft) == case_converted("SlotUnit"@, true) + " ("@ + spec_text(a, ft) + ")"@,
        spec_text(ExpressionView::FactionCount(Box::new(a)), ft) == case_converted("FactionCount"@, true) + " ("@ + spec_text(a, ft) + ")"@,
        spec_text(ExpressionView::FilterMaxEnemy(Box::new(a)), ft) == case_converted("FilterMaxEnemy"@, true) + " ("@ + spec_text(a, ft) + ")"@,
        spec_text(ExpressionView::FilterMaxAlly(Box::new(a)), ft) == case_converted("FilterMaxAlly"@, true) + " ("@ + spec_text(a, ft) + ")"@,
        spec_text(ExpressionView::FindUnit(Box::new(a)), ft) == case_converted("FindUnit"@, true) + " ("@ + spec_text(a, ft) + ")"@,
        spec_text(ExpressionView::Parent(Box::new(a)), ft) == case_converted("Parent"@, true) + " ("@ + spec_text(a, ft) + ")"@,
        spec_text(ExpressionView::UnitCount(Box::new(a)), ft) == case_converted("UnitCount"@, true) + " ("@ + spec_text(a, ft) + ")"@,
        spec_text(ExpressionView::RandomFloat(Box::new(a)), ft) == case_converted("RandomFloat"@, true) + " ("@ + spec_text(a, ft) + ")"@,
        spec_text(ExpressionView::RandomFloatUnit(Box::new(a)), ft) == case_converted("RandomFloatUnit"@, true) + " ("@ + spec_text(a, ft) + ")"@,
        spec_text(ExpressionView::StatusCharges(Box::new(a)), ft) == case_converted("StatusCharges"@, true) + " ("@ + spec_text(a, ft) + ")"@,
        spec_text(ExpressionView::FilterUnits(Box::new(a)), ft) == case_converted("FilterUnits"@, true) + " ("@ + spec_text(a, ft) + ")"@,
        spec_text(ExpressionView::Vec2E(Box::new(a)), ft) == "("@ + spec_text(a, ft) + ", "@ + spec_text(a, ft) + ")"@,
{
}

/// Where a function's text places its arguments: in the text of `Sub(a,
/// b)`, the text of `a` starts right after the name and the bracket, and
/// the text of `b` right after that of `a` and the comma.
pub proof fn law_argument_places(a: ExpressionView, b: ExpressionView, ft: spec_fn(u32) -> Seq<char>)
    ensures
        ({
            let t = spec_text(ExpressionView::Sub(Box::new(a), Box::new(b)), ft);
            let p: int = case_converted("Sub"@, true).len() + 1int;
            let q: int = p + spec_text(a, ft).len() + 2;
            &&& t.subrange(p, p + spec_text(a, ft).len()) == spec_text(a, ft)
            &&& t.subrange(q, q + spec_text(b, ft).len()) == spec_text(b, ft)
            &&& t.len() == q + spec_text(b, ft).len() + 1
        }),
{
    let n = case_converted("Sub"@, true);
    let ta = spec_text(a, ft);
    let tb = spec_text(b, ft);
    let t = n + "("@ + ta + ", "@ + tb + ")"@;
    assert(t == spec_text(ExpressionView::Sub(Box::new(a), Box::new(b)), ft));
    reveal_strlit("(");
    reveal_strlit(", ");
    reveal_strlit(")");
    let p: int = n.len() + 1int;
    let q: int = p + ta.len() + 2;
    assert(t.subrange(p, p + ta.len()) =~= ta);
    assert(t.subrange(q, q + tb.len()) =~= tb);
}

/// A plain reference is written as its name in lower case; a literal as
/// its value; a number with a fraction as the caller writes it; the reads
/// of a variable with the variable's name.
pub proof fn law_leaf_text(x: i32, b: bool, s: Seq<char>, bits: u32, var: VarName, ft: spec_fn(u32) -> Seq<char>)
    ensures
        spec_text(ExpressionView::Zero, ft) == case_converted("Zero"@, false),
        spec_text(ExpressionView::GameTime, ft) == case_converted("GameTime"@, false),
        spec_text(ExpressionView::PI, ft) == case_converted("PI"@, false),
        spec_text(ExpressionView::PI2, ft) == case_converted("PI2"@, false),
        spec_text(ExpressionView::Age, ft) == case_converted("Age"@, false),
        spec_text(ExpressionView::SlotPosition, ft) == case_converted("SlotPosition"@, false),
        spec_text(ExpressionView::OwnerFaction, ft) == case_converted("OwnerFaction"@, false),
        spec_text(ExpressionView::OppositeFaction, ft) == case_converted("OppositeFaction"@, false),
        spec_text(ExpressionView::Beat, ft) == case_converted("Beat"@, false),
        spec_text(ExpressionView::Index, ft) == case_converted("Index"@, false),
        spec_text(ExpressionView::Owner, ft) == case_converted("Owner"@, false),
        spec_text(ExpressionView::Caster, ft) == case_converted("Caster"@, false),
        spec_text(ExpressionView::Target, ft) == case_converted("Target"@, false),
        spec_text(ExpressionView::Status, ft) == case_converted("Status"@, false),
        spec_text(ExpressionView::RandomUnit, ft) == case_converted("RandomUnit"@, false),
        spec_text(ExpressionView::RandomAdjacentUnit, ft) == case_converted("RandomAdjacentUnit"@, false),
        spec_text(ExpressionView::RandomAlly, ft) == case_converted("RandomAlly"@, false),
        spec_text(ExpressionView::RandomEnemy, ft) == case_converted("RandomEnemy"@, false),
        spec_text(ExpressionView::AllAllyUnits, ft) == case_converted("AllAllyUnits"@, false),
        spec_text(ExpressionView::AllEnemyUnits, ft) == case_converted("AllEnemyUnits"@, false),
        spec_text(ExpressionView::AllUnits, ft) == case_converted("AllUnits"@, false),
        spec_text(ExpressionView::AllOtherUnits, ft) == case_converted("AllOtherUnits"@, false),
        spec_text(ExpressionView::AdjacentUnits, ft) == case_converted("AdjacentUnits"@, false),
        spec_text(ExpressionView::Int(x), ft) == int_text(x),
        spec_text(ExpressionView::Bool(b), ft) == bool_text(b),
        spec_text(ExpressionView::String(s), ft) == s,
        spec_text(ExpressionView::Float(bits), ft) == ft(bits),
        spec_text(ExpressionView::Context(var), ft) == "{"@ + var_name_text(var) + "}"@,
        spec_text(ExpressionView::OwnerState(var), ft) == "OwnerState("@ + var_name_text(var) + ")"@,
{
}

} // verus!
