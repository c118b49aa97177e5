mod client;
mod cvcap;
mod date;
mod errors;
mod http;
mod json;
mod store;
mod strutil;
mod sync;
mod types;

pub use client::ApiClient;
pub use client::CheckvistClient;
pub use client::DiscardToken;
pub use client::TokenSink;
pub use client::location_outcome;
pub use client::resolve_checklist;
pub use client::resolve_checklists;
pub use client::resolve_task;
pub use client::resolve_tasks;
pub use client::resolve_token;
pub use client::settle_response;
pub use cvcap::Add;
pub use cvcap::AddBookmark;
pub use cvcap::AddTask;
pub use cvcap::Bookmark;
pub use cvcap::Chunk;
pub use cvcap::Cli;
pub use cvcap::Command;
pub use cvcap::Config;
pub use cvcap::ConfigAbsentError;
pub use cvcap::ContentSource;
pub use cvcap::Context;
pub use cvcap::DestinationSource;
pub use cvcap::Error;
pub use cvcap::InteractivityLevel;
pub use cvcap::LogOut;
pub use cvcap::RunType;
pub use cvcap::ShowStatus;
pub use cvcap::StreamKind;
pub use cvcap::Style;
pub use cvcap::Sync;
pub use cvcap::location_from_segments;
pub use cvcap::parse_u32_str;
pub use date::CheckvistDate;
pub use date::format_date;
pub use date::parse_date;
pub use errors::CheckvistError;
pub use errors::classify_message;
pub use http::HttpOutcome;
pub use json::add_list_body;
pub use json::checklist_from_json;
pub use json::checklist_to_json;
pub use json::checklists_from_json;
pub use json::login_body;
pub use json::message_from_json;
pub use json::refresh_body;
pub use json::task_from_json;
pub use json::task_to_json;
pub use json::tasks_from_json;
pub use json::token_from_json;
pub use store::SqliteStore;
pub use strutil::str_contains;
pub use strutil::str_eq;
pub use strutil::u32_to_string;
pub use sync::PersistentCheckvistClient;
pub use sync::SqliteSyncClient;
pub use sync::replace_lists;
pub use sync::replace_tasks;
pub use types::Checklist;
pub use types::CheckvistLocation;
pub use types::Task;
