//! The render options descriptor: the four settings behind a fluent
//! builder with defaults for everything but the bundle path, and the
//! exact text of the configuration snapshot that external tooling
//! watches.  Writing the snapshot to disk is the caller's concern; this
//! module only renders it.

use vstd::prelude::*;
use vstd::string::StrSliceExecFns;
use vstd::string::StringExecFns;
use crate::address::SocketAddress;
use crate::address::addr_text;
use crate::digits::dec_digits;
use crate::digits::u32_to_string;
use crate::env_mode::RustEnv;
use crate::env_mode::classified;
use crate::env_mode::classify;

verus! {

/// The details used for rendering and serving an application bundle:
/// the single source of truth handed to the hosting server.  Immutable
/// once built; construct it through [`RenderOptions::builder`].
#[derive(Debug, Clone)]
pub struct RenderOptions {
    /// The path and name of the generated WASM and JS files; `/pkg/app`
    /// would fit a crate named `app`.
    pub pkg_path: String,
    /// Controls whether the consuming server wires up the live-reload
    /// watch channel.
    pub environment: RustEnv,
    /// The address the server is served from.
    pub socket_address: SocketAddress,
    /// The port the live-reload watcher listens on.
    pub reload_port: u32,
}

/// Accumulates the four settings; made by [`RenderOptions::builder`],
/// finished by [`RenderOptionsBuilder::build`].
pub struct RenderOptionsBuilder {
    pub pkg_path: String,
    pub environment: RustEnv,
    pub socket_address: SocketAddress,
    pub reload_port: u32,
}

/// The default bind address: loopback on port 3000.
pub open spec fn default_socket_address() -> SocketAddress {
    SocketAddress { oct1: 127, oct2: 0, oct3: 0, oct4: 1, port: 3000 }
}

impl RenderOptions {
    /// Starts a builder.  The bundle path is the one required setting;
    /// the rest come defaulted: environment `PROD`, loopback:3000 as
    /// the address, 3001 as the reload port.
    pub fn builder(pkg_path: String) -> (b: RenderOptionsBuilder)
        ensures
            b.pkg_path == pkg_path,
            b.environment == RustEnv::PROD,
            b.socket_address == default_socket_address(),
            b.reload_port == 3001,
    {
        RenderOptionsBuilder {
            pkg_path,
            environment: RustEnv::PROD,
            socket_address: SocketAddress { oct1: 127, oct2: 0, oct3: 0, oct4: 1, port: 3000 },
            reload_port: 3001,
        }
    }
}

impl RenderOptionsBuilder {
    /// Selects the environment outright.
    pub fn environment(self, environment: RustEnv) -> (b: Self)
        ensures
            b.pkg_path == self.pkg_path,
            b.environment == environment,
            b.socket_address == self.socket_address,
            b.reload_port == self.reload_port,
    {
        Self { environment, ..self }
    }

    /// Selects the environment from a free-form string, classified
    /// case-insensitively; unrecognized input resolves to `PROD`.
    pub fn environment_str(self, input: &str) -> (b: Self)
        ensures
            b.pkg_path == self.pkg_path,
            b.environment == classified(input@),
            b.socket_address == self.socket_address,
            b.reload_port == self.reload_port,
    {
        let environment = classify(input);
        Self { environment, ..self }
    }

    /// Selects the bind address.
    pub fn socket_address(self, socket_address: SocketAddress) -> (b: Self)
        ensures
            b.pkg_path == self.pkg_path,
            b.environment == self.environment,
            b.socket_address == socket_address,
            b.reload_port == self.reload_port,
    {
        Self { socket_address, ..self }
    }

    /// Selects the live-reload port.
    pub fn reload_port(self, reload_port: u32) -> (b: Self)
        ensures
            b.pkg_path == self.pkg_path,
            b.environment == self.environment,
            b.socket_address == self.socket_address,
            b.reload_port == reload_port,
    {
        Self { reload_port, ..self }
    }

    /// Finishes the builder: the options hold exactly the accumulated
    /// settings.
    pub fn build(self) -> (r: RenderOptions)
        ensures
            r.pkg_path == self.pkg_path,
            r.environment == self.environment,
            r.socket_address == self.socket_address,
            r.reload_port == self.reload_port,
    {
        RenderOptions {
            pkg_path: self.pkg_path,
            environment: self.environment,
            socket_address: self.socket_address,
            reload_port: self.reload_port,
        }
    }
}

/// The label under which an environment appears in the snapshot.
pub open spec fn env_label(e: RustEnv) -> Seq<char> {
    match e {
        RustEnv::PROD => "PROD"@,
        RustEnv::DEV => "DEV"@,
    }
}

impl RustEnv {
    /// The stable textual label of the environment, `PROD` or `DEV`.
    pub fn label(&self) -> (r: &'static str)
        ensures
            r@ == env_label(*self),
    {
        match self {
            RustEnv::PROD => "PROD",
            RustEnv::DEV => "DEV",
        }
    }
}

/// Everything in the snapshot before the bundle path, the opening quote
/// included.
pub open spec fn snapshot_intro() -> Seq<char> {
    "// This file is auto-generated. Changing it will have no effect on leptos. Change these by changing RenderOptions and rerunning\nRenderOptions {\n    pkg-path \""@
}

/// The full snapshot text: a header naming the file auto-generated,
/// then one line per setting, in the order bundle path, environment,
/// bind address, reload port.
pub open spec fn snapshot_text_spec(
    path: Seq<char>,
    e: RustEnv,
    a: SocketAddress,
    p: u32,
) -> Seq<char> {
    snapshot_intro() + path + "\"\n    environment \""@ + env_label(e)
        + "\"\n    socket-address \""@ + addr_text(a) + "\"\n    reload-port "@ + dec_digits(
        p as nat,
    ) + "\n}\n"@
}

impl RenderOptions {
    /// Renders the snapshot block for these options.  The text is a
    /// pure function of the four settings; writing it to disk is left
    /// to the caller.
    pub fn snapshot_text(&self) -> (r: String)
        ensures
            r@ == snapshot_text_spec(
                self.pkg_path@,
                self.environment,
                self.socket_address,
                self.reload_port,
            ),
    {
        let mut r = String::from_str(
            "// This file is auto-generated. Changing it will have no effect on leptos. Change these by changing RenderOptions and rerunning\nRenderOptions {\n    pkg-path \"",
        );
        r.append(self.pkg_path.as_str());
        r.append("\"\n    environment \"");
        r.append(self.environment.label());
        r.append("\"\n    socket-address \"");
        let addr = self.socket_address.to_text();
        r.append(addr.as_str());
        r.append("\"\n    reload-port ");
        let port = u32_to_string(self.reload_port);
        r.append(port.as_str());
        r.append("\n}\n");
        r
    }
}

/// The well-known file the snapshot is written to, relative to the
/// working directory.
pub fn snapshot_file_name() -> (r: &'static str)
    ensures
        r@ == "./.leptos.kdl"@,
{
    "./.leptos.kdl"
}

/// Law: the snapshot text is a function of the options alone, so two
/// renderings of the same options are identical, character for
/// character — writing the snapshot twice overwrites the file with the
/// same bytes.
pub proof fn lemma_snapshot_deterministic(
    path: Seq<char>,
    e: RustEnv,
    a: SocketAddress,
    p: u32,
    s1: Seq<char>,
    s2: Seq<char>,
)
    requires
        s1 == snapshot_text_spec(path, e, a, p),
        s2 == snapshot_text_spec(path, e, a, p),
    ensures
        s1 == s2,
{
}

/// Law: the `pkg-path` line of the snapshot holds exactly the bundle
/// path that was supplied, between one pair of quotes, with no
/// character changed, dropped or added.
pub proof fn lemma_pkg_path_quoted(path: Seq<char>, e: RustEnv, a: SocketAddress, p: u32)
    ensures
        ({
            let s = snapshot_text_spec(path, e, a, p);
            let i = snapshot_intro().len() as int;
            s.subrange(i - 1, i + path.len() as int + 1) == seq!['"'] + path + seq!['"']
        }),
{
    reveal_strlit(
        "// This file is auto-generated. Changing it will have no effect on leptos. Change these by changing RenderOptions and rerunning\nRenderOptions {\n    pkg-path \"",
    );
    reveal_strlit("\"\n    environment \"");
    let s = snapshot_text_spec(path, e, a, p);
    let i = snapshot_intro().len() as int;
    assert(snapshot_intro()[i - 1] == '"');
    assert(("\"\n    environment \""@)[0] == '"');
    assert(s.subrange(i - 1, i + path.len() as int + 1) =~= seq!['"'] + path + seq!['"']);
}

} // verus!
