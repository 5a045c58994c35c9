pub mod displaypost;
pub mod nasaquery;
pub mod post;
pub mod user;
pub mod vote;
