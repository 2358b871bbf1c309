pub mod game_state_system;
pub mod shader_system;
