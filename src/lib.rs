//! Share definitions kept in a NixOS configuration text: reading them,
//! rewriting single entries in place, and planning the mounts of remote ones.
pub mod text;
pub mod share_config;
pub mod nix_syntax;
pub mod remote_share_config;
pub mod mount_operations;
