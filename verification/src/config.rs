//! Marshalling of composite configuration records and enumeration
//! lists.
//!
//! Configuration structs carry text in ordinary strings and key
//! material in ordinary byte vectors; encoding places them into the
//! fixed-capacity native records, rejecting a field that does not fit
//! before anything is written, so a failed call never leaves a
//! half-written record.  Enumeration lists reported by the native layer
//! are decoded into ordered sequences, with the reported count clamped
//! to the buffers that are actually there.

use vstd::prelude::*;
use vstd::string::StringSliceAdditionalSpecFns;
use vstd::utf8::{decode_utf8, encode_utf8, valid_utf8};

use crate::errors::ErrorKind;
use crate::flags::{transport_from_native_spec, transport_from_native, LinkFlags, TransportId};
use crate::strings::{
    native_content, string_from_bytes, string_to_bytes, text_field_error, zero_padded,
};

verus! {

/// Capacity of the fixed text fields of the native configuration
/// records (model, cipher and hash names).
pub const MODEL_BUF_LEN: usize = 16;

/// Capacity of the fixed key-material field of the native crypto
/// record.
pub const KEY_BUF_LEN: usize = 4096;

/// A network address in plain form.
#[derive(Clone, Copy, Debug, PartialEq, Eq, Structural)]
pub enum IpAddress {
    V4(u32),
    V6(u128),
}

/// One addressable endpoint of a link.
#[derive(Clone, Copy, Debug, PartialEq, Eq, Structural)]
pub struct Endpoint {
    pub ip: IpAddress,
    pub port: u16,
}

/// The crypto configuration a caller hands in.
pub struct CryptoConfig {
    /// Name of the crypto implementation to load.
    pub crypto_model: String,
    /// Name of the cipher to use.
    pub crypto_cipher_type: String,
    /// Name of the hash to use.
    pub crypto_hash_type: String,
    /// Key material; its length is what the native layer is told.
    pub private_key: Vec<u8>,
}

/// The mathematical value of a crypto configuration.
pub struct CryptoConfigView {
    pub crypto_model: Seq<char>,
    pub crypto_cipher_type: Seq<char>,
    pub crypto_hash_type: Seq<char>,
    pub private_key: Seq<u8>,
}

impl View for CryptoConfig {
    type V = CryptoConfigView;

    open spec fn view(&self) -> CryptoConfigView {
        CryptoConfigView {
            crypto_model: self.crypto_model@,
            crypto_cipher_type: self.crypto_cipher_type@,
            crypto_hash_type: self.crypto_hash_type@,
            private_key: self.private_key@,
        }
    }
}

impl CryptoConfig {
    /// A configuration equal in value to `self`.
    pub fn duplicate(&self) -> (r: CryptoConfig)
        ensures
            r@ == self@,
    {
        let r = CryptoConfig {
            crypto_model: self.crypto_model.clone(),
            crypto_cipher_type: self.crypto_cipher_type.clone(),
            crypto_hash_type: self.crypto_hash_type.clone(),
            private_key: clone_bytes(&self.private_key),
        };
        proof {
            assert(r@ == self@);
        }
        r
    }
}

/// The fixed-capacity native crypto record, ready to hand to the
/// native configuration call.
pub struct CryptoConfigRecord {
    /// Model name, zero-filled to `MODEL_BUF_LEN`.
    pub crypto_model: Vec<u8>,
    /// Cipher name, zero-filled to `MODEL_BUF_LEN`.
    pub crypto_cipher_type: Vec<u8>,
    /// Hash name, zero-filled to `MODEL_BUF_LEN`.
    pub crypto_hash_type: Vec<u8>,
    /// Key material, zero-filled to `KEY_BUF_LEN`.
    pub private_key: Vec<u8>,
    /// How many leading bytes of `private_key` are key material.
    pub private_key_len: usize,
}

/// The error encoding a crypto configuration produces, if any; the
/// fields are checked in record order and nothing is written once one
/// fails.
pub open spec fn crypto_encode_error(cfg: CryptoConfigView) -> Option<ErrorKind> {
    let model = text_field_error(encode_utf8(cfg.crypto_model), MODEL_BUF_LEN as int);
    let cipher = text_field_error(
        encode_utf8(cfg.crypto_cipher_type),
        MODEL_BUF_LEN as int,
    );
    let hash = text_field_error(
        encode_utf8(cfg.crypto_hash_type),
        MODEL_BUF_LEN as int,
    );
    if model is Some {
        model
    } else if cipher is Some {
        cipher
    } else if hash is Some {
        hash
    } else if cfg.private_key.len() > KEY_BUF_LEN {
        Some(ErrorKind::TooLong)
    } else {
        None
    }
}

/// A byte vector equal in value to `bytes`.
fn clone_bytes(bytes: &Vec<u8>) -> (r: Vec<u8>)
    ensures
        r@ == bytes@,
{
    let mut out: Vec<u8> = Vec::new();
    let mut i: usize = 0;
    while i < bytes.len()
        invariant
            i <= bytes@.len(),
            out@ == bytes@.take(i as int),
        decreases bytes@.len() - i,
    {
        out.push(bytes[i]);
        proof {
            assert(out@ =~= bytes@.take(i as int + 1));
        }
        i += 1;
    }
    proof {
        assert(out@ =~= bytes@);
    }
    out
}

/// `bytes` copied into a zero-filled buffer of length `capacity`.
fn bytes_to_buffer(bytes: &Vec<u8>, capacity: usize) -> (r: Vec<u8>)
    requires
        bytes@.len() <= capacity,
    ensures
        r@ == zero_padded(bytes@, capacity as int),
{
    let mut out = clone_bytes(bytes);
    while out.len() < capacity
        invariant
            bytes@.len() <= out@.len() <= capacity,
            out@.take(bytes@.len() as int) == bytes@,
            forall|j: int| bytes@.len() <= j < out@.len() ==> out@[j] == 0,
        decreases capacity - out@.len(),
    {
        out.push(0);
        proof {
            assert(out@.take(bytes@.len() as int) =~= bytes@);
        }
    }
    proof {
        assert(out@ =~= zero_padded(bytes@, capacity as int));
    }
    out
}

/// Encodes a crypto configuration into the fixed-capacity native
/// record.  Every text field is checked before anything is built, so
/// an oversized or terminator-carrying field fails the whole encoding
/// with nothing written.
pub fn crypto_config_to_native(cfg: &CryptoConfig) -> (r: Result<CryptoConfigRecord, ErrorKind>)
    ensures
        r is Ok <==> crypto_encode_error(cfg@) is None,
        r matches Err(e) ==> crypto_encode_error(cfg@) == Some(e),
        r matches Ok(rec) ==> {
            &&& rec.crypto_model@ == zero_padded(
                encode_utf8(cfg@.crypto_model),
                MODEL_BUF_LEN as int,
            )
            &&& rec.crypto_cipher_type@ == zero_padded(
                encode_utf8(cfg@.crypto_cipher_type),
                MODEL_BUF_LEN as int,
            )
            &&& rec.crypto_hash_type@ == zero_padded(
                encode_utf8(cfg@.crypto_hash_type),
                MODEL_BUF_LEN as int,
            )
            &&& rec.private_key@ == zero_padded(cfg.private_key@, KEY_BUF_LEN as int)
            &&& rec.private_key_len == cfg.private_key@.len()
        },
{
    let mut model_buf: Vec<u8> = vec![0u8; MODEL_BUF_LEN];
    let mut cipher_buf: Vec<u8> = vec![0u8; MODEL_BUF_LEN];
    let mut hash_buf: Vec<u8> = vec![0u8; MODEL_BUF_LEN];
    if let Err(e) = string_to_bytes(cfg.crypto_model.as_str(), &mut model_buf) {
        return Err(e);
    }
    if let Err(e) = string_to_bytes(cfg.crypto_cipher_type.as_str(), &mut cipher_buf) {
        return Err(e);
    }
    if let Err(e) = string_to_bytes(cfg.crypto_hash_type.as_str(), &mut hash_buf) {
        return Err(e);
    }
    if cfg.private_key.len() > KEY_BUF_LEN {
        return Err(ErrorKind::TooLong);
    }
    let key_buf = bytes_to_buffer(&cfg.private_key, KEY_BUF_LEN);
    Ok(
        CryptoConfigRecord {
            crypto_model: model_buf,
            crypto_cipher_type: cipher_buf,
            crypto_hash_type: hash_buf,
            private_key: key_buf,
            private_key_len: cfg.private_key.len(),
        },
    )
}

/// The compression configuration a caller hands in.
pub struct CompressConfig {
    /// Name of the compression implementation to load.
    pub compress_model: String,
    /// Smallest payload size worth compressing.
    pub compress_threshold: u32,
    /// Model-specific compression level.
    pub compress_level: i32,
}

/// The mathematical value of a compression configuration.
pub struct CompressConfigView {
    pub compress_model: Seq<char>,
    pub compress_threshold: u32,
    pub compress_level: i32,
}

impl View for CompressConfig {
    type V = CompressConfigView;

    open spec fn view(&self) -> CompressConfigView {
        CompressConfigView {
            compress_model: self.compress_model@,
            compress_threshold: self.compress_threshold,
            compress_level: self.compress_level,
        }
    }
}

impl CompressConfig {
    /// A configuration equal in value to `self`.
    pub fn duplicate(&self) -> (r: CompressConfig)
        ensures
            r@ == self@,
    {
        CompressConfig {
            compress_model: self.compress_model.clone(),
            compress_threshold: self.compress_threshold,
            compress_level: self.compress_level,
        }
    }
}

/// The fixed-capacity native compression record.
pub struct CompressConfigRecord {
    /// Model name, zero-filled to `MODEL_BUF_LEN`.
    pub compress_model: Vec<u8>,
    pub compress_threshold: u32,
    pub compress_level: i32,
}

/// The error encoding a compression configuration produces, if any.
pub open spec fn compress_encode_error(cfg: CompressConfigView) -> Option<ErrorKind> {
    text_field_error(encode_utf8(cfg.compress_model), MODEL_BUF_LEN as int)
}

/// Encodes a compression configuration into the fixed-capacity native
/// record, rejecting an oversized or terminator-carrying model name
/// with nothing written.
pub fn compress_config_to_native(cfg: &CompressConfig) -> (r: Result<
    CompressConfigRecord,
    ErrorKind,
>)
    ensures
        r is Ok <==> compress_encode_error(cfg@) is None,
        r matches Err(e) ==> compress_encode_error(cfg@) == Some(e),
        r matches Ok(rec) ==> {
            &&& rec.compress_model@ == zero_padded(
                encode_utf8(cfg@.compress_model),
                MODEL_BUF_LEN as int,
            )
            &&& rec.compress_threshold == cfg.compress_threshold
            &&& rec.compress_level == cfg.compress_level
        },
{
    let mut model_buf: Vec<u8> = vec![0u8; MODEL_BUF_LEN];
    if let Err(e) = string_to_bytes(cfg.compress_model.as_str(), &mut model_buf) {
        return Err(e);
    }
    Ok(
        CompressConfigRecord {
            compress_model: model_buf,
            compress_threshold: cfg.compress_threshold,
            compress_level: cfg.compress_level,
        },
    )
}

/// What one link is configured as: the transport it runs over, the
/// local endpoint it binds, the remote endpoint it talks to — absent
/// when the link is dynamic and learns its peer at runtime — and its
/// flag word.
#[derive(Clone, Copy, Debug, PartialEq, Eq, Structural)]
pub struct LinkConfig {
    pub transport: TransportId,
    pub local: Endpoint,
    pub remote: Option<Endpoint>,
    pub flags: LinkFlags,
}

/// Decodes a native link-configuration snapshot.  A dynamic link is
/// represented by an absent remote endpoint, never by a sentinel
/// address.  Fails with `UnknownVariant` when the transport constant
/// has no typed case.
pub fn link_config_from_native(
    transport: u8,
    local: Endpoint,
    remote: Endpoint,
    dynamic: u8,
    flags: u64,
) -> (r: Result<LinkConfig, ErrorKind>)
    ensures
        r is Ok <==> transport_from_native_spec(transport) is Ok,
        r is Err ==> r == Err::<LinkConfig, ErrorKind>(ErrorKind::UnknownVariant),
        r matches Ok(c) ==> {
            &&& Ok::<TransportId, ErrorKind>(c.transport) == transport_from_native_spec(transport)
            &&& c.local == local
            &&& c.remote == if dynamic != 0 {
                None::<Endpoint>
            } else {
                Some(remote)
            }
            &&& c.flags@ == flags
        },
{
    let t = match transport_from_native(transport) {
        Ok(t) => t,
        Err(e) => {
            return Err(e);
        },
    };
    let remote_opt = if crate::flags::u8_to_bool(dynamic) {
        None
    } else {
        Some(remote)
    };
    Ok(LinkConfig { transport: t, local, remote: remote_opt, flags: LinkFlags::from_bits(flags) })
}

/// Whether the first `n` buffers all hold valid text.
pub open spec fn names_decodable(buffers: Seq<Vec<u8>>, n: int) -> bool {
    forall|i: int| 0 <= i < n ==> valid_utf8(#[trigger] native_content(buffers[i]@))
}

/// Decodes a native enumeration of names: `count` buffers as the
/// native layer reported, each a fixed-capacity text field.  The
/// reported count is clamped to the buffers actually present; the
/// decoded names keep their order.  Fails with `EncodingError` when
/// any listed name is not valid text.
pub fn decode_name_list(buffers: &Vec<Vec<u8>>, count: usize) -> (r: Result<Vec<String>, ErrorKind>)
    ensures
        ({
            let n = if count <= buffers@.len() {
                count as int
            } else {
                buffers@.len() as int
            };
            &&& r is Ok <==> names_decodable(buffers@, n)
            &&& r matches Ok(names) ==> names@.len() == n && (forall|i: int|
                0 <= i < n ==> names@[i]@ == decode_utf8(native_content(buffers@[i]@)))
            &&& r is Err ==> r == Err::<Vec<String>, ErrorKind>(ErrorKind::EncodingError)
        }),
{
    let n = if count <= buffers.len() {
        count
    } else {
        buffers.len()
    };
    let mut names: Vec<String> = Vec::new();
    let mut i: usize = 0;
    while i < n
        invariant
            n == if count <= buffers@.len() {
                count as int
            } else {
                buffers@.len() as int
            },
            n <= buffers@.len(),
            i <= n,
            names@.len() == i,
            forall|j: int| 0 <= j < i ==> valid_utf8(#[trigger] native_content(buffers@[j]@)),
            forall|j: int| 0 <= j < i ==> names@[j]@ == decode_utf8(
                #[trigger] native_content(buffers@[j]@),
            ),
        decreases n - i,
    {
        let buf = &buffers[i];
        match string_from_bytes(buf.as_slice(), buf.len()) {
            Ok(s) => {
                proof {
                    assert(buf@.take(buf@.len() as int) =~= buf@);
                }
                names.push(s);
            },
            Err(_) => {
                proof {
                    assert(buf@.take(buf@.len() as int) =~= buf@);
                    assert(!valid_utf8(native_content(buffers@[i as int]@)));
                    assert(!names_decodable(buffers@, n as int));
                }
                return Err(ErrorKind::EncodingError);
            },
        }
        i += 1;
    }
    proof {
        assert(names_decodable(buffers@, n as int));
    }
    Ok(names)
}

} // verus!
