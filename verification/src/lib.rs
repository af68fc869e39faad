//! Verified interaction logic of a terminal coding assistant.

pub mod action_laws;
pub mod actions;
pub mod cache;
pub mod chrome;
pub mod chrome_laws;
pub mod clipboard;
pub mod composer;
pub mod composer_laws;
pub mod context;
pub mod context_laws;
pub mod dispatch;
pub mod draft;
pub mod draft_laws;
pub mod draw;
pub mod empty;
pub mod entry;
pub mod errands;
pub mod event;
pub mod file_finder;
pub mod floating;
pub mod format;
pub mod format_laws;
pub mod geometry;
pub mod history;
pub mod input;
pub mod json;
pub mod keybindings;
pub mod layout;
pub mod layout_laws;
pub mod main_loop;
pub mod memory_laws;
pub mod motion_laws;
pub mod node;
pub mod numeral;
pub mod order;
pub mod pane_runtime;
pub mod panes;
pub mod panes_view;
pub mod paths;
pub mod picker_laws;
pub mod picture_laws;
pub mod prompt;
pub mod queue;
pub mod queue_laws;
pub mod recent_prompts;
pub mod record;
pub mod review_range;
pub mod root;
pub mod root_laws;
pub mod root_view;
pub mod routing;
pub mod run_laws;
pub mod runtime;
pub mod scheduler;
pub mod scroll;
pub mod search;
pub mod selection;
pub mod selection_laws;
pub mod selectors;
pub mod session;
pub mod session_laws;
pub mod session_picker;
pub mod settings;
pub mod spinner;
pub mod storage;
pub mod storage_laws;
pub mod subagent_laws;
pub mod subagents;
pub mod text;
pub mod text_laws;
pub mod theme;
pub mod tool;
pub mod tool_laws;
pub mod transcript;
pub mod transcript_laws;
pub mod transcript_view;
pub mod view_laws;
pub mod wrap;
