//! Anonymous-upload client library for a cloud file-sharing service's
//! "file request" feature.
//!
//! The library holds the verified core of the client: extraction of the
//! share identifier and service base from a resolved share URL, parsing of
//! the token-issuance responses, tolerant extraction of the upload endpoint
//! from a loosely structured session response, construction of every request
//! the protocol sends, and the pipeline state machine that orders the six
//! protocol stages and classifies their failures. The unverified binary
//! around it only performs the HTTP exchanges and feeds the results back in.

pub mod encode;
pub mod pipeline;
pub mod resolve;
pub mod session;
pub mod token;
