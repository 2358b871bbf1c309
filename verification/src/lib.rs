//! Game rules of Arena of Ideas: team and ladder bookkeeping, status
//! libraries, the shop's state machine, battle logic and expressions,
//! each stated over plain data and proved with Verus.

pub mod faction;
pub mod decimal;
pub mod named;
pub mod seq_facts;
pub mod vars;
pub mod world;
pub mod unit;
pub mod resources;
pub mod resourses;
pub mod module_bindings;
pub mod plugins;
pub mod systems;
pub mod materials;
pub mod render;
pub mod logic;
