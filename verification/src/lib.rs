pub mod derive;
pub mod exit;
pub mod store;
pub mod text;
pub mod vendor;
pub mod verbs;
