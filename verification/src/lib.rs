//! The decisions of a game assist: which potion, buff, spell or macro is due, what the
//! client's memory says of the player and the objects around, which code and patches
//! go into the client, and what the notifications on the screen look like.
//!
//! Nothing here touches the client, the screen or the disk.  What is read there comes
//! in as plain values; what is to be written there goes out as patches and calls.
//! Points in time are nanoseconds since a start that all of them share.

pub mod address;
pub mod attack_damage_feet_hook;
pub mod attack_damage_hook;
pub mod buff_dispatch;
pub mod chat;
pub mod chat_width;
pub mod class_remap;
pub mod code;
pub mod drink_hook;
pub mod entity_scan;
pub mod exp_tracker;
pub mod hook;
pub mod hotkey;
pub mod input_sim;
pub mod inventory;
pub mod item_offset;
pub mod laws;
pub mod log_window;
pub mod low_cpu_hook;
pub mod menu_inject;
pub mod monster_color_code;
pub mod monster_color_patch;
pub mod name_table;
pub mod notification;
pub mod player_offset;
pub mod player_state;
pub mod poison_hook;
pub mod profile;
pub mod runtime;
pub mod settings;
pub mod show_clock_patch;
pub mod spell_book;
pub mod spell_db;
pub mod sprite_types;
pub mod text;
pub mod x86;
