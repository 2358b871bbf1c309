use arena_of_ideas::faction::Faction;
use arena_of_ideas::logic::model::{AttachedStatus, Position, StatusDef, Unit};
use arena_of_ideas::resources::evaluate::{int_to_string, values_equal, EvalContext, EvalError};
use arena_of_ideas::resources::expression::Expression;
use arena_of_ideas::vars::{VarName, VarState, VarValue};

fn charged(name: &str, charges: i32) -> AttachedStatus {
    let mut vars = VarState::new();
    vars.set(VarName::Charges, VarValue::Int(charges));
    AttachedStatus {
        id: 50,
        owner: 0,
        creator: 0,
        time: None,
        vars,
        is_inited: true,
        status: StatusDef { name: name.to_string(), order: 0, flags: Vec::new(), color: 0, triggers: Vec::new() },
    }
}

fn unit(id: u64, faction: Faction, statuses: Vec<AttachedStatus>) -> Unit {
    Unit { id, faction, position: Position { side: faction, x: id as i64 }, health: 1, all_statuses: statuses, flags: Vec::new() }
}

fn field() -> Vec<Unit> {
    vec![
        unit(1, Faction::Left, vec![charged("shield", 2)]),
        unit(2, Faction::Left, vec![charged("shield", 0)]),
        unit(3, Faction::Right, vec![]),
        unit(4, Faction::Left, vec![]),
    ]
}

fn b(e: Expression) -> Box<Expression> {
    Box::new(e)
}

fn int_of(r: Result<VarValue, EvalError>) -> i32 {
    match r {
        Ok(VarValue::Int(x)) => x,
        other => panic!("not an integer: {:?}", other),
    }
}

fn boolean(r: Result<VarValue, EvalError>) -> bool {
    match r {
        Ok(VarValue::Bool(x)) => x,
        other => panic!("not a flag: {:?}", other),
    }
}

fn ids(r: Result<VarValue, EvalError>) -> Vec<u64> {
    match r {
        Ok(VarValue::EntityList(x)) => x,
        other => panic!("not a list: {:?}", other),
    }
}

#[test]
fn literals_and_context() {
    let units = field();
    let mut c = EvalContext::from_owner(1);
    c.target = Some(3);
    assert_eq!(int_of(Expression::Zero.get_value(&c, &units)), 0);
    assert_eq!(int_of(Expression::Int(-4).get_value(&c, &units)), -4);
    assert!(matches!(Expression::Target.get_value(&c, &units), Ok(VarValue::Entity(3))));
    assert!(matches!(Expression::Caster.get_value(&c, &units), Err(EvalError::Missing)));
    assert!(matches!(Expression::OwnerFaction.get_value(&c, &units), Ok(VarValue::Faction(Faction::Left))));
    assert!(matches!(Expression::Context(VarName::Faction).get_value(&c, &units), Ok(VarValue::Faction(Faction::Left))));
    assert!(matches!(Expression::Context(VarName::Hp).get_value(&c, &units), Err(EvalError::Missing)));
}

#[test]
fn arithmetic_free_logic() {
    let units = field();
    let c = EvalContext::from_owner(1);
    assert!(boolean(Expression::Even(b(Expression::Int(-4))).get_value(&c, &units)));
    assert!(!boolean(Expression::Even(b(Expression::Int(3))).get_value(&c, &units)));
    assert_eq!(int_of(Expression::ToInt(b(Expression::Bool(true))).get_value(&c, &units)), 0);
    assert!(boolean(Expression::Equals(b(Expression::Int(2)), b(Expression::Int(2))).get_value(&c, &units)));
    assert!(!boolean(Expression::And(b(Expression::Bool(false)), b(Expression::Int(1))).get_value(&c, &units)));
    assert!(matches!(
        Expression::And(b(Expression::Bool(true)), b(Expression::Int(1))).get_value(&c, &units),
        Err(EvalError::WrongKind)
    ));
    assert!(boolean(Expression::Or(b(Expression::Bool(true)), b(Expression::Caster)).get_value(&c, &units)));
    assert_eq!(
        int_of(Expression::If(b(Expression::Bool(false)), b(Expression::Int(1)), b(Expression::Int(2))).get_value(&c, &units)),
        2
    );
    assert_eq!(int_of(Expression::Max(b(Expression::Int(1)), b(Expression::Int(5))).get_value(&c, &units)), 5);
    assert_eq!(int_of(Expression::Min(b(Expression::Int(1)), b(Expression::Int(5))).get_value(&c, &units)), 1);
    assert!(boolean(Expression::LessThen(b(Expression::Int(1)), b(Expression::Int(5))).get_value(&c, &units)));
    assert!(!boolean(Expression::GreaterThen(b(Expression::Int(1)), b(Expression::Int(5))).get_value(&c, &units)));
    assert_eq!(
        int_of(Expression::WithVar(VarName::Hp, b(Expression::Int(9)), b(Expression::Context(VarName::Hp))).get_value(&c, &units)),
        9
    );
    assert!(matches!(
        Expression::StringInt(b(Expression::Int(-120))).get_value(&c, &units),
        Ok(VarValue::String(s)) if s == "-120"
    ));
}

#[test]
fn unit_queries() {
    let units = field();
    let c = EvalContext::from_owner(1);
    assert_eq!(int_of(Expression::FactionCount(b(Expression::Faction(Faction::Left))).get_value(&c, &units)), 3);
    assert_eq!(ids(Expression::AllAllyUnits.get_value(&c, &units)), vec![1, 2, 4]);
    assert_eq!(int_of(Expression::StatusCharges(b(Expression::String("shield".to_string()))).get_value(&c, &units)), 2);
    assert!(boolean(Expression::HasStatus("shield".to_string()).get_value(&c, &units)));
    assert_eq!(ids(Expression::AllStatusAllies("shield".to_string()).get_value(&c, &units)), vec![1]);
    let has_shield = Expression::HasStatus("shield".to_string());
    assert_eq!(int_of(Expression::UnitCount(b(has_shield.copy())).get_value(&c, &units)), 1);
    assert_eq!(ids(Expression::FilterUnits(b(has_shield)).get_value(&c, &units)), vec![1]);
}

#[test]
fn clock_and_fractions_are_left_to_the_caller() {
    let units = field();
    let c = EvalContext::from_owner(1);
    assert!(matches!(Expression::GameTime.get_value(&c, &units), Err(EvalError::Unsupported)));
    assert!(matches!(Expression::Float(0x3f800000).get_value(&c, &units), Err(EvalError::Unsupported)));
    assert!(matches!(
        Expression::Sin(b(Expression::Float(0))).get_value(&c, &units),
        Err(EvalError::Unsupported)
    ));
}

#[test]
fn helpers_match_to_string_and_equality() {
    assert_eq!(int_to_string(i32::MIN), i32::MIN.to_string());
    assert_eq!(int_to_string(0), "0");
    assert_eq!(int_to_string(77), "77");
    assert!(values_equal(&VarValue::EntityList(vec![1, 2]), &VarValue::EntityList(vec![1, 2])));
    assert!(!values_equal(&VarValue::Int(1), &VarValue::Bool(true)));
}

fn floats(b: u32) -> String {
    f32::from_bits(b).to_string()
}

#[test]
fn text_of_expressions() {
    let f = |b: u32| floats(b);
    assert_eq!(Expression::GameTime.to_text(&f), "game time");
    assert_eq!(Expression::AllAllyUnits.to_text(&f), "all ally units");
    assert_eq!(Expression::Int(-3).to_text(&f), "-3");
    assert_eq!(Expression::Float(0x3fc00000).to_text(&f), "1.5");
    assert_eq!(Expression::Vec2(0x3f800000, 0x40000000).to_text(&f), "(1, 2)");
    assert_eq!(Expression::Sum(b(Expression::Int(1)), b(Expression::Int(2))).to_text(&f), "(1+2)");
    assert_eq!(Expression::StringInt(b(Expression::Int(7))).to_text(&f), "String Int (7)");
    assert_eq!(Expression::GreaterThen(b(Expression::Int(1)), b(Expression::Zero)).to_text(&f), "Greater Then(1, zero)");
    assert_eq!(Expression::Context(VarName::Hp).to_text(&f), "{Hp}");
    assert_eq!(Expression::OwnerState(VarName::Atk).to_text(&f), "OwnerState(Atk)");
    assert_eq!(
        Expression::If(b(Expression::Bool(true)), b(Expression::Int(1)), b(Expression::Int(2))).to_text(&f),
        "If(true, 1, 2)"
    );
    assert_eq!(
        Expression::WithVar(VarName::Hp, b(Expression::Int(1)), b(Expression::Owner)).to_text(&f),
        "With Var(Hp, 1, owner)"
    );
    assert_eq!(Expression::RandomEnemySubset(b(Expression::Int(2))).to_text(&f), "{2} random enemies");
    assert_eq!(Expression::RandomStatusAlly("burn".to_string()).to_text(&f), "random ally with [burn]");
    assert_eq!(Expression::AllStatusEnemies("burn".to_string()).to_text(&f), "all enemies with [burn]");
    assert_eq!(Expression::Value(VarValue::EntityList(vec![4, 5])).to_text(&f), "Value([4, 5])");
    assert_eq!(Expression::Faction(Faction::Left).to_text(&f), "Left");
}
