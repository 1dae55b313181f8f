//! Rules that match Hyprland windows by class and title, the window
//! bookkeeping that decides which hooks fire on each window event, and the
//! bounded queue that hands those hooks to a worker.

pub mod compiled;
pub mod config;
pub mod hook;
pub mod pattern;
pub mod rule;
pub mod sending;
pub mod state;

pub use config::{Config, RuleConfig};
pub use hook::{
    create_hook_channel, enqueue_hooks, EnqueueOutcome, HookCommand, HookReceiver, HookSender,
};
pub use compiled::Pattern;
pub use pattern::PatternError;
pub use rule::{Rule, RuleSet};
pub use sending::{Queued, Refusal};
pub use state::{hooks_for, HookEvent, State, WindowInfo, WindowMap};
