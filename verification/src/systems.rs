pub mod move_system;
pub mod monster_ai;
pub mod fire;
pub mod equip_system;
pub mod light_item_system;
pub mod grab_hide;
pub mod item_systems;
pub mod spawn_systems;
pub mod door_systems;
pub mod go_down_stairs;
pub mod map_indexing;
pub mod memory_cull;
pub mod disarm_trap;
pub mod reveal_traps;
pub mod fire_spread;
pub mod light_system;
