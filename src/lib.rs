//! A small HTTP client core: it decides the request method, checks and
//! classifies URLs, builds the request body, and turns what the server sent
//! back into the text that is shown to the user.

pub mod text;
pub mod method;
pub mod address;
pub mod form;
pub mod json;
pub mod request;
pub mod response;
pub mod keys;
