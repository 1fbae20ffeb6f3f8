//! Ranking local branches by the age of their head commit, showing them as
//! aligned lines for a fuzzy picker, and finding the branch that a picked
//! line stands for.

pub mod age;
pub mod catalog;
pub mod decimal;
pub mod flow;
pub mod guard;
pub mod ranking;
pub mod record;
pub mod render;
pub mod resolve;
pub mod text;
pub mod time;
