//! Iroh P2P transport: identities, protocols and transport settings.

use vstd::prelude::*;
use vstd::slice::slice_to_vec;
use vstd::string::StrSliceExecFns;
use vstd::utf8::encode_utf8;

verus! {

/// Default ALPN protocol for generic P2P communication.
pub const DEFAULT_ALPN: &'static str = "xoq/p2p/0";

/// ALPN protocol for camera streaming (legacy, JPEG).
pub const CAMERA_ALPN: &'static str = "xoq/camera/0";

/// ALPN protocol for camera streaming with JPEG frames.
pub const CAMERA_ALPN_JPEG: &'static str = "xoq/camera-jpeg/0";

/// ALPN protocol for camera streaming with H.264 encoded frames.
pub const CAMERA_ALPN_H264: &'static str = "xoq/camera-h264/0";

/// ALPN protocol for camera streaming with HEVC/H.265 encoded frames.
pub const CAMERA_ALPN_HEVC: &'static str = "xoq/camera-hevc/0";

/// ALPN protocol for camera streaming with AV1 encoded frames.
pub const CAMERA_ALPN_AV1: &'static str = "xoq/camera-av1/0";

/// The bytes of the default protocol.
pub open spec fn default_alpn() -> Seq<u8> {
    encode_utf8(DEFAULT_ALPN@)
}

/// The secret of an endpoint: 32 bytes.
pub type SecretKey = [u8; 32];

/// A congestion controller that never limits sending.
#[derive(Debug, Clone, Copy, PartialEq, Eq, Structural)]
pub struct NoopController {
    pub mtu: u16,
}

impl NoopController {
    /// A controller for a path with the given MTU.
    pub fn new(current_mtu: u16) -> (r: Self)
        ensures
            r.mtu == current_mtu,
    {
        NoopController { mtu: current_mtu }
    }

    /// Loss does not reduce the window.
    pub fn on_congestion_event(&mut self)
        ensures
            *final(self) == *old(self),
    {
    }

    /// Notes the new MTU of the path.
    pub fn on_mtu_update(&mut self, new_mtu: u16)
        ensures
            final(self).mtu == new_mtu,
    {
        self.mtu = new_mtu;
    }

    /// Any number of bytes may be on the way.
    pub fn window(&self) -> (r: u64)
        ensures
            r == u64::MAX,
    {
        u64::MAX
    }

    /// Any number of bytes may be on the way from the beginning.
    pub fn initial_window(&self) -> (r: u64)
        ensures
            r == u64::MAX,
    {
        u64::MAX
    }
}

/// Settings of a QUIC transport.
#[derive(Debug, Clone, Copy, PartialEq, Eq, Structural)]
pub struct TransportSettings {
    pub initial_rtt_ms: u64,
    pub keep_alive_interval_ms: u64,
    /// How many packets the peer may leave without an acknowledgement.
    pub ack_eliciting_threshold: u32,
    pub max_ack_delay_ms: u64,
    pub segmentation_offload: bool,
}

/// Create a low-latency QUIC transport config for robotics use.
pub fn low_latency_transport_config() -> (r: TransportSettings)
    ensures
        r == (TransportSettings {
            initial_rtt_ms: 10,
            keep_alive_interval_ms: 1000,
            ack_eliciting_threshold: 0,
            max_ack_delay_ms: 1,
            segmentation_offload: false,
        }),
{
    TransportSettings {
        initial_rtt_ms: 10,
        keep_alive_interval_ms: 1000,
        ack_eliciting_threshold: 0,
        max_ack_delay_ms: 1,
        segmentation_offload: false,
    }
}

/// Where an identity comes from.
#[derive(Debug)]
pub enum KeySource {
    /// It was given.
    Given(SecretKey),
    /// It is read from a file, or generated and saved there.
    File(String),
    /// It is generated anew.
    Generate,
}

/// Builder for iroh server (accepts connections)
#[derive(Debug)]
pub struct IrohServerBuilder {
    pub key_path: Option<String>,
    pub secret_key: Option<SecretKey>,
    pub alpn: Vec<u8>,
}

impl IrohServerBuilder {
    /// Create a new server builder
    pub fn new() -> (r: Self)
        ensures
            r.key_path is None,
            r.secret_key is None,
            r.alpn@ == default_alpn(),
    {
        IrohServerBuilder { key_path: None, secret_key: None, alpn: DEFAULT_ALPN.as_bytes_vec() }
    }

    /// Load or generate identity from a file path
    pub fn identity_path(self, path: &str) -> (r: Self)
        ensures
            r == (IrohServerBuilder { key_path: r.key_path, ..self }),
            r.key_path matches Some(p) && p@ == path@,
    {
        let mut r = self;
        r.key_path = Some(path.to_owned());
        r
    }

    /// Use a specific secret key
    pub fn secret_key(self, key: SecretKey) -> (r: Self)
        ensures
            r == (IrohServerBuilder { secret_key: Some(key), ..self }),
    {
        let mut r = self;
        r.secret_key = Some(key);
        r
    }

    /// Set custom ALPN protocol
    pub fn alpn(self, alpn: &[u8]) -> (r: Self)
        ensures
            r == (IrohServerBuilder { alpn: r.alpn, ..self }),
            r.alpn@ == alpn@,
    {
        let mut r = self;
        r.alpn = slice_to_vec(alpn);
        r
    }

    /// Where the identity comes from: a key that was given counts for more than a file.
    pub fn key_source(self) -> (r: KeySource)
        ensures
            r == (match (self.secret_key, self.key_path) {
                (Some(key), _) => KeySource::Given(key),
                (None, Some(path)) => KeySource::File(path),
                (None, None) => KeySource::Generate,
            }),
    {
        match self.secret_key {
            Some(key) => KeySource::Given(key),
            None => match self.key_path {
                Some(path) => KeySource::File(path),
                None => KeySource::Generate,
            },
        }
    }
}

impl Default for IrohServerBuilder {
    fn default() -> (r: Self)
        ensures
            r.key_path is None,
            r.secret_key is None,
            r.alpn@ == default_alpn(),
    {
        Self::new()
    }
}

/// Builder for iroh client (initiates connections)
#[derive(Debug)]
pub struct IrohClientBuilder {
    pub alpn: Vec<u8>,
}

impl IrohClientBuilder {
    /// Create a new client builder
    pub fn new() -> (r: Self)
        ensures
            r.alpn@ == default_alpn(),
    {
        IrohClientBuilder { alpn: DEFAULT_ALPN.as_bytes_vec() }
    }

    /// Set custom ALPN protocol
    pub fn alpn(self, alpn: &[u8]) -> (r: Self)
        ensures
            r.alpn@ == alpn@,
    {
        IrohClientBuilder { alpn: slice_to_vec(alpn) }
    }
}

impl Default for IrohClientBuilder {
    fn default() -> (r: Self)
        ensures
            r.alpn@ == default_alpn(),
    {
        Self::new()
    }
}

/// Why a key could not be used.
#[derive(Debug, Clone, Copy, PartialEq, Eq, Structural)]
pub enum KeyError {
    /// A key file does not hold 32 bytes.
    InvalidKeyFile,
}

/// Reads the content of a key file.
pub fn key_from_bytes(bytes: &[u8]) -> (r: Result<SecretKey, KeyError>)
    ensures
        match r {
            Ok(key) => key@ == bytes@,
            Err(e) => bytes@.len() != 32 && e == KeyError::InvalidKeyFile,
        },
        r is Ok <==> bytes@.len() == 32,
{
    if bytes.len() != 32 {
        return Err(KeyError::InvalidKeyFile);
    }
    let key: [u8; 32] = [
        bytes[0], bytes[1], bytes[2], bytes[3], bytes[4], bytes[5], bytes[6], bytes[7], bytes[8],
        bytes[9], bytes[10], bytes[11], bytes[12], bytes[13], bytes[14], bytes[15], bytes[16],
        bytes[17], bytes[18], bytes[19], bytes[20], bytes[21], bytes[22], bytes[23], bytes[24],
        bytes[25], bytes[26], bytes[27], bytes[28], bytes[29], bytes[30], bytes[31],
    ];
    assert(key@ =~= bytes@);
    Ok(key)
}

/// What to do about the identity that a file is to hold.
#[derive(Debug, Clone, Copy, PartialEq, Eq)]
pub enum Identity {
    /// Use this one.
    Use(SecretKey),
    /// Generate one and save it.
    GenerateAndSave,
}

/// Decides on the identity that a file is to hold, from its content; `None` where there is no
/// file.
pub fn identity_from_file(content: Option<&[u8]>) -> (r: Result<Identity, KeyError>)
    ensures
        match content {
            Some(bytes) => if bytes@.len() == 32 {
                r matches Ok(Identity::Use(key)) && key@ == bytes@
            } else {
                r == Err::<Identity, KeyError>(KeyError::InvalidKeyFile)
            },
            None => r == Ok::<Identity, KeyError>(Identity::GenerateAndSave),
        },
{
    match content {
        Some(bytes) => match key_from_bytes(bytes) {
            Ok(key) => Ok(Identity::Use(key)),
            Err(e) => Err(e),
        },
        None => Ok(Identity::GenerateAndSave),
    }
}

} // verus!
