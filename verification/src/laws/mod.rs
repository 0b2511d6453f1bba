//! What holds of the library as a whole, stated over what goes in and what comes out.
pub mod addresses;
pub mod documents;
pub mod downloads;
pub mod files;
pub mod messages;
pub mod notes;
pub mod numerals;
pub mod posts;
pub mod replies;
pub mod reports;
pub mod requests;
pub mod results;
pub mod settings;
pub mod smaller_bot;
pub mod texts;
pub mod videos;
