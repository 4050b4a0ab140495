pub mod constants;
pub mod geometry;
pub mod rng;
pub mod level;
pub mod text;
pub mod game_log;
pub mod color;
pub mod ecs;
pub mod components;
pub mod glyphs;
pub mod item_type;
pub mod services;
pub mod combat;
pub mod interaction;
pub mod damage;
pub mod dungeon;
pub mod viewshed;
pub mod systems;
pub mod render;
pub mod run_state;
pub mod schedule;
pub mod queries;
pub mod screens;
pub mod map_view;
pub mod settings;
pub mod spawner;
pub mod laws;
pub mod rule_laws;
