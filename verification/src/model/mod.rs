pub mod detector;
pub mod registry;
pub mod smell;
pub mod smell_allow;
pub mod triage;
