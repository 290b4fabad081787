//! Streaming server-side rendering core: the HTML shell split around its
//! injection marker, the ordered assembly of a fallback response body, and the
//! application's route table.
pub mod body;
pub mod route;
pub mod shell;
