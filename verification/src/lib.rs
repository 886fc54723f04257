//! The Battlecode engine: game state, units, research, maps and the rules
//! that govern them, with their behaviour stated as contracts.
pub mod config;
pub mod constants;
pub mod controller;
pub mod engine;
pub mod entity;
pub mod error;
pub mod ffi;
pub mod fnv_map;
pub mod id_generator;
pub mod location;
pub mod map;
pub mod map_location;
pub mod mapparser;
pub mod quadtree;
pub mod research;
pub mod rng;
pub mod rockets;
pub mod schema;
pub mod spatialhashmap;
pub mod team_array;
pub mod text;
pub mod unit;
pub mod unit_controller;
pub mod weather;
pub mod world;
