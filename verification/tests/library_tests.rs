use arena_of_ideas::decimal::u64_to_string;
use arena_of_ideas::faction::Faction;
use arena_of_ideas::materials::sdf_shape::{CustomMaterialKey, Shape};
use arena_of_ideas::module_bindings::arena_pool::ArenaPool;
use arena_of_ideas::module_bindings::reducers::{
    add_ladder_levels, add_user, beat_tower, finish_building_tower, logout, migrate_data, run_stack, sync_statuses, sync_units,
    AddUserArgs, LogoutArgs, RunStackArgs,
};
use arena_of_ideas::module_bindings::{Module, ReducerKind, TableKind};
use arena_of_ideas::named::NamedTable;
use arena_of_ideas::render::unit::{described, hover_text};
use arena_of_ideas::resources::expression::Expression;
use arena_of_ideas::resources::ladder::Ladder;
use arena_of_ideas::resources::status_library::{Definitions, Status, StatusLibrary, Trigger};
use arena_of_ideas::resources::Resources;
use arena_of_ideas::systems::shader_system::ShaderSystem;
use arena_of_ideas::vars::{VarName, VarState, VarValue};

fn resources() -> Resources {
    Resources { ladder: Ladder::new(Vec::new()), status_library: StatusLibrary::new(), definitions: Definitions::new() }
}

fn status(description: Option<&str>, color: u32, shader: Option<&str>) -> Status {
    Status {
        description: description.map(|d| d.to_string()),
        color,
        trigger: Trigger { event: "turn_end".to_string(), effect: "damage".to_string() },
        shader: shader.map(|s| s.to_string()),
    }
}

fn pool(id: u64, owner: u64, round: u8, team: &str) -> ArenaPool {
    ArenaPool { id, owner, round, team: team.to_string() }
}

#[test]
fn shape_defs_are_capitalised_names() {
    assert_eq!(Shape::Rectangle.def(), "RECTANGLE");
    assert_eq!(Shape::Circle.def(), "CIRCLE");
    assert_eq!(Shape::default(), Shape::Rectangle);
    assert_eq!(CustomMaterialKey::from(Shape::Circle).shape, Shape::Circle);
    assert_eq!(ShaderSystem::new(), ShaderSystem {});
}

#[test]
fn decimal_notation() {
    assert_eq!(u64_to_string(0), "0");
    assert_eq!(u64_to_string(7), "7");
    assert_eq!(u64_to_string(10), "10");
    assert_eq!(u64_to_string(1234567890), "1234567890");
    assert_eq!(u64_to_string(u64::MAX), u64::MAX.to_string());
}

#[test]
fn var_state_reads_back_what_was_set() {
    let mut s = VarState::new();
    assert!(s.get(VarName::Hp).is_none());
    s.set(VarName::Hp, VarValue::Int(3));
    s.set(VarName::Name, VarValue::String("x".to_string()));
    s.set(VarName::Hp, VarValue::Int(4));
    assert!(matches!(s.get(VarName::Hp), Some(VarValue::Int(4))));
    assert!(matches!(s.get(VarName::Name), Some(VarValue::String(n)) if n == "x"));
    let c = s.clone();
    assert!(matches!(c.get(VarName::Hp), Some(VarValue::Int(4))));
    let w = VarState::new_with(VarName::Slot, VarValue::Int(2));
    assert!(matches!(w.get(VarName::Slot), Some(VarValue::Int(2))));
}

#[test]
fn merge_keeps_own_values() {
    let mut own = VarState::new_with(VarName::Hp, VarValue::Int(1));
    let mut other = VarState::new_with(VarName::Hp, VarValue::Int(9));
    other.set(VarName::Atk, VarValue::Int(5));
    own.merge_missing(&other);
    assert!(matches!(own.get(VarName::Hp), Some(VarValue::Int(1))));
    assert!(matches!(own.get(VarName::Atk), Some(VarValue::Int(5))));
    assert!(own.get(VarName::Level).is_none());
}

#[test]
fn named_table_insert_and_get() {
    let mut t: NamedTable<u32> = NamedTable::new();
    assert!(!t.contains(&"a".to_string()));
    t.insert("a".to_string(), 1);
    t.insert("b".to_string(), 2);
    t.insert("a".to_string(), 3);
    assert_eq!(t.get(&"a".to_string()), Some(&3));
    assert_eq!(t.get(&"b".to_string()), Some(&2));
    assert_eq!(t.get(&"c".to_string()), None);
}

#[test]
fn registered_status_is_found() {
    let mut r = resources();
    StatusLibrary::register("burn", status(Some("Burns"), 0xff0000ff, Some("burn.glsl")), &mut r);
    StatusLibrary::register("shield", status(None, 0x00ff00ff, None), &mut r);
    let s = StatusLibrary::get("burn", &r);
    assert_eq!(s.color, 0xff0000ff);
    assert_eq!(StatusLibrary::get_trigger("shield", &r).effect, "damage");
    assert_eq!(r.definitions.table.get(&"burn".to_string()), Some(&(0xff0000ff, "Burns".to_string())));
    assert_eq!(r.definitions.table.get(&"shield".to_string()), None);
}

#[test]
fn add_triggers_pairs_names_with_triggers() {
    let mut r = resources();
    StatusLibrary::register("burn", status(None, 1, None), &mut r);
    let out = StatusLibrary::add_triggers(vec![("burn".to_string(), 2)], &r);
    assert_eq!(out.len(), 1);
    assert_eq!(out[0].0, "burn");
    assert_eq!(out[0].1 .0.event, "turn_end");
    assert_eq!(out[0].1 .1, 2);
}

#[test]
fn context_shaders_number_the_drawn_statuses() {
    let mut r = resources();
    StatusLibrary::register("a", status(None, 1, Some("a.glsl")), &mut r);
    StatusLibrary::register("b", status(None, 2, None), &mut r);
    StatusLibrary::register("c", status(None, 3, Some("c.glsl")), &mut r);
    let names = vec![("a".to_string(), 1), ("b".to_string(), 1), ("c".to_string(), 4)];
    let shaders = StatusLibrary::get_context_shaders(&names, &r);
    assert_eq!(shaders.len(), 2);
    assert_eq!((shaders[0].shader.as_str(), shaders[0].color, shaders[0].index), ("a.glsl", 1, 0));
    assert_eq!((shaders[1].shader.as_str(), shaders[1].color, shaders[1].index), ("c.glsl", 3, 1));
}

#[test]
fn reducer_requests_carry_their_arguments() {
    let a = add_ladder_levels(3, vec!["l".to_string()]);
    assert_eq!((a.ladder_id, a.levels.len()), (3, 1));
    assert_eq!(add_user(), AddUserArgs {});
    let b = beat_tower(4, vec![], "team".to_string());
    assert_eq!((b.tower_id, b.owner_team.as_str()), (4, "team"));
    assert_eq!(finish_building_tower(vec!["x".to_string()], "t".to_string()).levels, vec!["x".to_string()]);
    assert_eq!(logout(), LogoutArgs {});
    let m = migrate_data::<u8, u16>(vec![1], vec![pool(1, 2, 3, "t")], vec![7]);
    assert_eq!((m.arena_archive, m.arena_pool.len(), m.users), (vec![1u8], 1, vec![7u16]));
    assert_eq!(run_stack(1, 2), RunStackArgs { target: 1, source: 2 });
    assert_eq!(sync_statuses(vec!["s"]).statuses, vec!["s"]);
    assert_eq!(sync_units(vec![1, 2]).units, vec![1, 2]);
}

#[test]
fn reducer_and_table_names_are_recognised() {
    assert_eq!(Module::reducer_kind(&"run_stack".to_string()), Some(ReducerKind::RunStack));
    assert_eq!(Module::reducer_kind(&"give_right".to_string()), Some(ReducerKind::GiveRight));
    assert_eq!(Module::reducer_kind(&"unknown".to_string()), None);
    assert_eq!(Module::table_kind(&"ArenaPool".to_string()), Some(TableKind::ArenaPool));
    assert_eq!(Module::table_kind(&"arenapool".to_string()), None);
}

#[test]
fn pool_filters() {
    let rows = vec![pool(1, 10, 0, "a"), pool(2, 20, 1, "b"), pool(1, 30, 1, "a")];
    assert_eq!(ArenaPool::filter_by_id(&rows, 1).map(|r| r.owner), Some(10));
    assert!(ArenaPool::filter_by_id(&rows, 5).is_none());
    assert_eq!(ArenaPool::filter_by_owner(&rows, 20).len(), 1);
    let round: Vec<u64> = ArenaPool::filter_by_round(&rows, 1).iter().map(|r| r.id).collect();
    assert_eq!(round, vec![2, 1]);
    assert_eq!(ArenaPool::filter_by_team(&rows, "a".to_string()).len(), 2);
}

#[test]
fn hover_text_fills_placeholders() {
    let vars = vec![("hp".to_string(), 5), ("atk".to_string(), 2)];
    assert_eq!(hover_text(&"Deal {atk} damage, heal {hp}".to_string(), &vars), "Deal 2 damage, heal 5");
    assert_eq!(hover_text(&"No numbers here".to_string(), &vars), "No numbers here");
    assert_eq!(hover_text(&"Uses {missing}".to_string(), &vars), "Uses {missing}");
    assert_eq!(hover_text(&"Broken {hp".to_string(), &vars), "Broken {hp");
}

#[test]
fn described_falls_back_to_the_description() {
    assert_eq!(described(&"d".to_string(), Some("f".to_string())), "f");
    assert_eq!(described(&"d".to_string(), None), "d");
}

#[test]
fn expression_children_and_replacement() {
    let e = Expression::Sum(Box::new(Expression::Int(1)), Box::new(Expression::Owner));
    let kids = e.get_inner();
    assert_eq!(kids.len(), 2);
    assert!(matches!(kids[0], Expression::Int(1)));
    assert!(matches!(kids[1], Expression::Owner));
    assert!(Expression::Zero.get_inner().is_empty());
    let wrapped = Expression::Abs(Box::new(Expression::Zero)).set_inner(e);
    assert!(matches!(wrapped, Expression::Abs(ref x) if matches!(**x, Expression::Int(1))));
    let three = Expression::If(Box::new(Expression::Bool(true)), Box::new(Expression::Zero), Box::new(Expression::Zero))
        .set_inner(Expression::Sin(Box::new(Expression::Int(7))));
    match three {
        Expression::If(a, b, c) => {
            assert!(matches!(*a, Expression::Int(7)));
            assert!(matches!(*b, Expression::Zero));
            assert!(matches!(*c, Expression::Zero));
        },
        _ => panic!("the node keeps its kind"),
    }
}

#[test]
fn expression_node_colors() {
    assert_eq!(Expression::Owner.node_color(), 0x80D8FF);
    assert_eq!(Expression::Int(1).node_color(), 0x18FFFF);
    assert_eq!(Expression::Faction(Faction::Left).node_color(), 0x18FFFF);
    assert_eq!(Expression::Sin(Box::new(Expression::Zero)).node_color(), 0x448AFF);
    assert_eq!(Expression::StateLast(VarName::Hp, Box::new(Expression::Zero)).node_color(), 0x448AFF);
    assert_eq!(Expression::WithVar(VarName::Hp, Box::new(Expression::Zero), Box::new(Expression::Zero)).node_color(), 0xFFEB3B);
    assert_eq!(Expression::Spread(Box::new(Expression::Zero), Box::new(Expression::Zero), Box::new(Expression::Zero)).node_color(), 0xBA68C8);
}

#[test]
fn expression_copy_is_exact() {
    let e = Expression::AbilityState("a".to_string(), VarName::Hp);
    assert!(matches!(e.copy(), Expression::AbilityState(ref s, VarName::Hp) if s == "a"));
    let v = Expression::Value(VarValue::EntityList(vec![1, 2]));
    assert!(matches!(v.copy(), Expression::Value(VarValue::EntityList(ref l)) if *l == vec![1, 2]));
}

#[test]
fn wrap_multiplies_by_a_tenth() {
    match Expression::Owner.wrap() {
        Expression::Mul(a, b) => {
            assert!(matches!(*a, Expression::Owner));
            assert!(matches!(*b, Expression::Float(bits) if f32::from_bits(bits) == 0.1f32));
        },
        _ => panic!("a wrapped node is a product"),
    }
}
