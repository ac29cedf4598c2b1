//! A questionnaire: criteria with choices, a three-state rating for each choice,
//! and the state machine that navigates and rates them.

pub mod content;
pub mod rating;
pub mod state;
