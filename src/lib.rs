pub mod character;
pub mod engine;
pub mod geometry;
pub mod input;
pub mod red_hat_boy;
pub mod segment;
pub mod sprite;
pub mod walk;
