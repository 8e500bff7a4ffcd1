pub mod add;
pub mod check;
pub mod outdated;
pub mod remove;
pub mod resolve;
pub mod sync;
pub mod sync_step;
pub mod upgrade;
pub mod upgrade_step;
