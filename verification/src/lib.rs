//! Verified core of a client for the student portal at www.fit.ba: the
//! requests it sends, the pages it reads back and the answers it gives.
pub mod text;
pub mod scrape;
pub mod http;
pub mod portal;
pub mod home;
pub mod details;
pub mod flow;
