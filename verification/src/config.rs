//! The configuration record: the database path the user has chosen and the
//! port for the optional serving feature, with its on-disk byte image.
//! Created once during `init` from interactive input, loaded once per normal
//! run, and never mutated after load.
//!
//! Layout: the path as an eight-byte little-endian byte length followed by
//! that many bytes of UTF-8, then the port as two little-endian bytes.

use vstd::prelude::*;

use vstd::bytes::{
    lemma_auto_spec_u16_to_from_le_bytes, spec_u16_from_le_bytes, spec_u16_to_le_bytes,
    u16_from_le_bytes, u16_to_le_bytes,
};
use vstd::slice::slice_subrange;

use crate::codec::{encode_str_into, spec_encode_str, spec_take_str, str_fits, take_str};
use crate::errors::Error;

verus! {

/// The user-chosen settings: where the database file lives, and which port
/// the serving feature listens on.
#[derive(Debug)]
pub struct Config {
    pub path: String,
    pub port: u16,
}

/// The byte image of a configuration: the path field, then the port.
pub open spec fn spec_encode_config(path: Seq<char>, port: u16) -> Seq<u8> {
    spec_encode_str(path) + spec_u16_to_le_bytes(port)
}

/// Decodes a configuration image: one string field and exactly two bytes of
/// port. `None` on any malformed image.
pub open spec fn spec_decode_config(b: Seq<u8>) -> Option<(Seq<char>, u16)> {
    match spec_take_str(b) {
        None => None,
        Some((path, rest)) => if rest.len() == 2 {
            Some((path, spec_u16_from_le_bytes(rest)))
        } else {
            None
        },
    }
}

/// The round-trip law for configurations: decoding the encoding of any
/// configuration whose path fits its length prefix yields it back.
pub proof fn lemma_config_round_trip(path: Seq<char>, port: u16)
    requires
        str_fits(path),
    ensures
        spec_decode_config(spec_encode_config(path, port)) == Some((path, port)),
{
    crate::codec::lemma_take_str_round_trip(path, spec_u16_to_le_bytes(port));
    lemma_auto_spec_u16_to_from_le_bytes();
}

impl Config {
    /// A configuration referencing the database at `path`, serving on
    /// `port`. The interactive initializer gathers both values and writes
    /// `to_bytes` out; failure to write is the caller's `ConfigWrite`.
    pub fn new(path: String, port: u16) -> (c: Config)
        ensures
            c.path@ == path@,
            c.port == port,
    {
        Config { path, port }
    }

    /// The byte image of this configuration, written once during `init`.
    pub fn to_bytes(&self) -> (out: Vec<u8>)
        ensures
            out@ == spec_encode_config(self.path@, self.port),
    {
        let mut out: Vec<u8> = Vec::new();
        encode_str_into(&mut out, &self.path);
        let mut portb = u16_to_le_bytes(self.port);
        out.append(&mut portb);
        proof {
            assert(out@ =~= spec_encode_config(self.path@, self.port));
        }
        out
    }

    /// Rebuilds a configuration from the bytes of an existing file. Fails
    /// with `ConfigCorrupt`, exactly when the image does not decode; a file
    /// that exists but fails to parse is surfaced, never silently
    /// overwritten.
    pub fn from_bytes(bytes: &Vec<u8>) -> (r: Result<Config, Error>)
        ensures
            match r {
                Ok(c) => spec_decode_config(bytes@) == Some((c.path@, c.port)),
                Err(e) => e == Error::ConfigCorrupt && spec_decode_config(bytes@) is None,
            },
    {
        let (path, pos) = match take_str(bytes, 0) {
            None => {
                proof {
                    assert(bytes@.skip(0) =~= bytes@);
                }
                return Err(Error::ConfigCorrupt);
            },
            Some(x) => x,
        };
        proof {
            assert(bytes@.skip(0) =~= bytes@);
        }
        if bytes.len() - pos != 2 {
            return Err(Error::ConfigCorrupt);
        }
        let portb = slice_subrange(bytes.as_slice(), pos, pos + 2);
        let port = u16_from_le_bytes(portb);
        proof {
            assert(bytes@.skip(pos as int) =~= bytes@.subrange(pos as int, pos as int + 2));
        }
        Ok(Config { path, port })
    }
}

} // verus!
