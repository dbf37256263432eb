//! Holy Land survival core: calendar, items and pack, crafting, flora,
//! combat maths, field of view, overmap geometry and the debug-console
//! command grammar, each with its contract proved by Verus.

pub mod action;
pub mod atlases;
pub mod buildings;
pub mod calendar;
pub mod combat;
pub mod crafting;
pub mod debug_console;
pub mod flora;
pub mod fov;
pub mod input;
pub mod items;
pub mod needs;
pub mod rng;
pub mod save;
pub mod text;
pub mod world;
pub mod geometry;
pub mod cornwall;
pub mod fasttravel;
pub mod frontier;
pub mod line;
pub mod city;
pub mod screen;
pub mod prefab_model;
pub mod editor;
pub mod chunkgen;
pub mod city_stamp;
pub mod ui;
pub mod overmap_view;
pub mod edit_view;
