//! Game logic of a point-and-click adventure engine: inventory and item
//! combination, objectives, camera navigation history, rooms, hints,
//! interaction decisions, input intents, game states and save data.

pub mod seqs;
pub mod inventory;
pub mod text;
pub mod objectives;
pub mod game_data;
pub mod interaction;
pub mod camera;
pub mod navigation;
pub mod input;
pub mod states;
pub mod hints;
pub mod components;
pub mod save;
pub mod scene;
pub mod ui;
pub mod item_preview;
pub mod debug;
