//! A small, strongly-typed descriptor of the options a web-rendering
//! toolchain needs to serve an application bundle: the bundle path, the
//! runtime environment, the address to bind, and the port of the
//! live-reload side channel.  The descriptor is assembled through a
//! builder with defaults for everything but the bundle path, and can
//! render itself into the text of a snapshot file for external tooling
//! to watch.

pub mod address;
pub mod digits;
pub mod env_mode;
pub mod options;

pub use address::AddressParseError;
pub use address::SocketAddress;
pub use digits::u32_to_string;
pub use env_mode::RustEnv;
pub use options::RenderOptions;
pub use options::RenderOptionsBuilder;
pub use options::snapshot_file_name;
