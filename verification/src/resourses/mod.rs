pub mod packed_team;
