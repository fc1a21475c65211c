pub mod env_expand;
pub mod jsonc;
pub mod text;
