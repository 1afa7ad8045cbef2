pub mod engine;
pub mod names;
pub mod paths;
pub mod sanitize;
mod text;

pub use engine::Announcement;
pub use engine::AnnouncementSpec;
pub use engine::DetoxError;
pub use engine::Effect;
pub use engine::EffectSpec;
pub use engine::FileDecision;
pub use engine::MovePlan;
pub use engine::Options;
pub use engine::PathKind;
pub use engine::StepAction;
pub use engine::WorkQueue;
pub use engine::classify_step;
pub use engine::decide_file;
pub use engine::plan_move;
pub use names::detoxed_file_name;
pub use names::plan_rename;
pub use paths::absolute;
pub use paths::child_path_of;
pub use paths::file_name_of;
pub use paths::hidden;
pub use paths::join_under;
pub use sanitize::Detoxer;
pub use sanitize::is_separator;
pub use sanitize::sanitize_chars;
pub use sanitize::sanitize_stem;
pub use text::chars_of;
