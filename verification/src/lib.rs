pub mod text;
pub mod hw;
pub mod cache;
pub mod profile;
pub mod launch;
pub mod thermal;
pub mod desktop;
pub mod prefix;
