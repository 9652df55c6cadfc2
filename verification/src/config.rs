//! The server's configuration: where it listens and where its files live.

use vstd::prelude::*;
use vstd::slice::*;
use vstd::string::*;
use crate::bytes::{same_bytes, text};

verus! {

/// The port on which the server listens.
pub const PORT: u16 = 4221;

/// The configuration of a server. It is built once at startup and only read
/// afterwards.
#[derive(Clone, Debug, PartialEq, Eq)]
pub struct ServerConfig {
    /// The IPv4 address to bind.
    pub host: [u8; 4],
    /// The TCP port to bind.
    pub port: u16,
    /// The directory under which the file routes read and write. Empty where
    /// none was given.
    pub static_directory: Vec<u8>,
}

/// Why an argument list gives no configuration.
#[derive(Clone, Copy, Debug, PartialEq, Eq)]
pub enum ConfigError {
    /// `--directory` is the last argument: no path follows it.
    MissingDirectoryName,
}

/// The index of the first argument that reads `--directory`, or the number of
/// arguments where there is none.
pub open spec fn flag_position(args: Seq<Seq<u8>>) -> int
    decreases args.len(),
{
    if args.len() == 0 {
        0
    } else if args[0] == text("--directory") {
        0
    } else {
        1 + flag_position(args.drop_first())
    }
}

/// The directory that an argument list names: the argument behind the first
/// `--directory`, the empty path where the flag is absent.
pub open spec fn directory_of(args: Seq<Seq<u8>>) -> Result<Seq<u8>, ConfigError> {
    let i = flag_position(args);
    if i >= args.len() {
        Ok(Seq::empty())
    } else if i + 1 >= args.len() {
        Err(ConfigError::MissingDirectoryName)
    } else {
        Ok(args[i + 1])
    }
}

/// An index that holds the flag, with none before it, is the flag's position.
proof fn lemma_flag_position_is(args: Seq<Seq<u8>>, i: int)
    requires
        0 <= i <= args.len(),
        i < args.len() ==> args[i] == text("--directory"),
        forall|j: int| 0 <= j < i ==> args[j] != text("--directory"),
    ensures
        flag_position(args) == i,
    decreases args.len(),
{
    if args.len() > 0 && args[0] != text("--directory") {
        let rest = args.drop_first();
        assert forall|j: int| 0 <= j < i - 1 implies rest[j] != text("--directory") by {
            assert(rest[j] == args[j + 1]);
        }
        lemma_flag_position_is(rest, i - 1);
    }
}

impl ServerConfig {
    /// The configuration that serves `static_directory` on the loopback
    /// address.
    pub fn new(static_directory: Vec<u8>) -> (config: ServerConfig)
        ensures
            config.host@ == seq![127u8, 0u8, 0u8, 1u8],
            config.port == PORT,
            config.static_directory@ == static_directory@,
    {
        let config = ServerConfig { host: [127, 0, 0, 1], port: PORT, static_directory };
        assert(config.host@ =~= seq![127u8, 0u8, 0u8, 1u8]);
        config
    }

    /// Reads the configuration from the program's arguments.
    ///
    /// The two-token form `--directory <path>` may stand anywhere; its first
    /// occurrence counts. Without it the directory is the empty path. The
    /// flag as the last argument is an error.
    pub fn from_args(args: &[Vec<u8>]) -> (r: Result<ServerConfig, ConfigError>)
        ensures
            match r {
                Ok(config) => directory_of(args@.map_values(|a: Vec<u8>| a@)) == Ok::<
                    Seq<u8>,
                    ConfigError,
                >(config.static_directory@) && config.host@ == seq![127u8, 0u8, 0u8, 1u8]
                    && config.port == PORT,
                Err(e) => directory_of(args@.map_values(|a: Vec<u8>| a@)) == Err::<
                    Seq<u8>,
                    ConfigError,
                >(e),
            },
    {
        let ghost list = args@.map_values(|a: Vec<u8>| a@);
        let mut i: usize = 0;
        while i < args.len() && !same_bytes(args[i].as_slice(), "--directory".as_bytes())
            invariant
                i <= args.len(),
                list == args@.map_values(|a: Vec<u8>| a@),
                forall|j: int| 0 <= j < i ==> list[j] != text("--directory"),
            decreases args.len() - i,
        {
            i += 1;
        }
        proof {
            lemma_flag_position_is(list, i as int);
        }
        if i >= args.len() {
            Ok(ServerConfig::new(Vec::new()))
        } else if i + 1 >= args.len() {
            Err(ConfigError::MissingDirectoryName)
        } else {
            Ok(ServerConfig::new(slice_to_vec(args[i + 1].as_slice())))
        }
    }
}

} // verus!
