pub mod text;
pub mod cron;
pub mod time;
pub mod ident;
pub mod skills;
pub mod setup;
