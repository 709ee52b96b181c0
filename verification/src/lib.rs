//! The message and interaction logic of a Discord helper bot.

pub mod text;
pub mod ayy;
pub mod cheeseburger;
pub mod too_fat;
pub mod message;
pub mod error_codes;
pub mod emergency_report;
pub mod miiverse_mod_application;
pub mod fest_fax;
