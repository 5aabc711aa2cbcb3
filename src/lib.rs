//! A small GCD service core: the Euclidean algorithm with its proof, and the
//! request handling that validates a submitted pair and renders the HTML answer.

pub mod decimal;
pub mod gcd;
pub mod handler;
