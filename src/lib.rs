//! Reads the metadata of an Elixir `mix.exs` manifest by lightweight pattern
//! matching, and picks the toolchain package and the build and run commands
//! that the project needs.

pub mod manifest;
pub mod provider;
pub mod version;

pub use manifest::{MixProject, Superglobals};
pub use provider::ElixirProvider;
pub use version::{CatalogEntry, ReleaseLine};
