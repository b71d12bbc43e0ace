pub mod group;
pub mod message;
pub mod subscriber;
