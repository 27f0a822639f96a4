pub mod classes;
pub mod crud;
pub mod hashing;
pub mod middleware;
pub mod posts;
pub mod text;
pub mod users;
pub mod validations;
