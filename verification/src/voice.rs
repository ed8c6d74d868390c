//! Voice codec negotiation state and the cipher capability interface.

use vstd::prelude::*;

verus! {

/// The codec versions negotiated across the server.
#[derive(Debug, Clone, Copy, PartialEq, Eq, Structural)]
pub struct CodecInfo {
    /// The alpha codec version.
    pub alpha_codec: i32,
    /// The beta codec version.
    pub beta_codec: i32,
    /// Whether the alpha codec is preferred.
    pub prefer_alpha_codec: bool,
    /// Whether Opus is in use.
    pub opus: bool,
}

impl Default for CodecInfo {
    /// No codec negotiated yet.
    fn default() -> (r: Self)
        ensures
            r.alpha_codec == 0,
            r.beta_codec == 0,
            !r.prefer_alpha_codec,
            !r.opus,
    {
        CodecInfo { alpha_codec: 0, beta_codec: 0, prefer_alpha_codec: false, opus: false }
    }
}

/// The capability interface a voice cipher provides.  Implementations
/// are chosen at session setup, one per supported cipher suite; the
/// engine itself never inspects key material.
pub trait CryptoProvider {
    /// The nonce length the cipher expects.
    fn nonce_size(&self) -> usize;

    /// The key length the cipher expects.
    fn key_size(&self) -> usize;

    /// How many bytes a sealed frame grows by.
    fn overhead_size(&self) -> usize;

    /// Install a key.
    fn set_key(&mut self, key: &Vec<u8>);

    /// Seal one frame.
    fn encrypt(&self, source: &Vec<u8>, nonce: &Vec<u8>) -> Vec<u8>;

    /// Open one frame; nothing when authentication fails.
    fn decrypt(&self, source: &Vec<u8>, nonce: &Vec<u8>) -> Option<Vec<u8>>;
}

} // verus!
