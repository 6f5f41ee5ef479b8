pub mod key_manager;
pub use key_manager::KeyManager;
