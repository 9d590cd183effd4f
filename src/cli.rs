//! The command line, as plain data: what the front end parsed.
use vstd::prelude::*;

verus! {

/// Where `encode` writes the carrier when no output path is given.
pub const DEFAULT_ENCODED_OUTPUT: &'static str = "output.png";

/// Where `decode` writes the payload when no output path is given.
pub const DEFAULT_DECODED_OUTPUT: &'static str = "decoded.txt";

/// The parsed command line.
#[derive(Debug, Clone, PartialEq, Eq)]
pub struct Cli {
    /// Optional name for the operation.
    pub name: Option<String>,
    /// Path to a configuration file.
    pub config: Option<String>,
    /// How many times debug output was asked for.
    pub debug: u8,
    /// The subcommand; none means the interactive front end.
    pub command: Option<Commands>,
}

/// A subcommand and its arguments.
#[derive(Debug, Clone, PartialEq, Eq)]
pub enum Commands {
    /// Hide the text of `data_path` in the image at `carrier_path`.
    Encode {
        data_path: String,
        carrier_path: String,
        output_path: String,
        key: Option<String>,
        compress: bool,
    },
    /// Recover the text hidden in the image at `carrier_path`.
    Decode { carrier_path: String, output_path: String, key: Option<String>, decompress: bool },
    /// Print or store a random key of `length` bytes as base64.
    GenerateKey { length: Option<usize>, output: Option<String> },
}

} // verus!
