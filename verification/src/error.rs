//! What ends a connection.
use crate::proto::data::FrameType;
use vstd::prelude::*;

verus! {

/// Why a connection is closed. Each of these is fatal to the connection it comes from and to
/// nothing else.
#[derive(Debug, Clone, Copy, PartialEq, Eq, Structural)]
pub enum RelayError {
    /// The first read of the connection brought no bytes.
    EmptyUpgrade,
    /// The first read of the connection filled the whole upgrade buffer.
    UpgradeTooBig,
    /// The first read is no HTTP request, or an HTTP response was expected and none came.
    MalformedHttp,
    /// The HTTP message ends before its headers do.
    PartialHttp,
    /// An `Upgrade` header is missing, or names neither `websocket` nor `derp`.
    BadUpgradeHeader,
    /// A `Connection` header is missing, or does not say `upgrade`.
    BadConnectionHeader,
    /// The bytes are not a frame of the expected shape.
    Decode,
    /// A frame of another type came than the one that was due.
    UnexpectedFrame(FrameType),
    /// The server key does not start with the magic bytes.
    InvalidMagic,
    /// The client info could not be sealed.
    Seal,
    /// The ciphertext of the client info was not sealed for this server.
    Decrypt,
    /// The client info was opened, but is not the JSON object that was due.
    MalformedClientInfo,
    /// The client info carries another version than the one this relay speaks.
    UnsupportedVersion(u32),
    /// A client presented a mesh key to a relay that has none.
    MeshNotEnabled,
    /// A client presented another mesh key than that of the relay.
    MeshKeyMismatch,
    /// A connection that is no mesh peer asked for what only mesh peers get.
    NotAMeshPeer,
    /// The body of a frame is too long for the four bytes that hold its length.
    FrameTooLong,
    /// Something came in at a stage of the handshake at which nothing of its kind is due.
    OutOfTurn,
}

} // verus!
