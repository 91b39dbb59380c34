pub mod address;
pub mod announcement;
pub mod assignment;
pub mod auth;
pub mod client;
pub mod course;
pub mod page;
pub mod profile;
pub mod resource;
pub mod text;
pub mod whoami;
