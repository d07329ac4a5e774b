//! Rules of a civilisation game: vehicle designs and their validation, hauling, crews, combat,
//! wells, wild herds, vision, the distant-world simulation, and the text of the game's panels.

pub mod activity_log;
pub mod assembly;
pub mod catalog;
pub mod combat;
pub mod debug_panel;
pub mod design;
pub mod diplomacy_panel;
pub mod drive;
pub mod economy_panel;
pub mod footprint;
pub mod freight;
pub mod geometry;
pub mod grid;
pub mod haul;
pub mod health;
pub mod hover;
pub mod hud;
pub mod inspect_action;
pub mod inspect_items;
pub mod inspect_knowledge;
pub mod inspect_person;
pub mod inspect_social;
pub mod inspect_task;
pub mod inspect_vehicle;
pub mod inspector;
pub mod inventory;
pub mod job_board;
pub mod lobby;
pub mod main_menu;
pub mod manual_drive;
pub mod migration_panel;
pub mod motion;
pub mod occupancy;
pub mod orders;
pub mod page;
pub mod parts;
pub mod provision;
pub mod reading;
pub mod rings;
pub mod rng;
pub mod seqs;
pub mod siege;
pub mod slug;
pub mod sorting;
pub mod stats;
pub mod tech;
pub mod templates;
pub mod terrain;
pub mod text;
pub mod tiles;
pub mod turret;
pub mod validate;
pub mod vehicle;
pub mod vision;
pub mod well;
pub mod wild_herd;
pub mod world_sim;
