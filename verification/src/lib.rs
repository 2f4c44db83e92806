//! A UniFi Protect console behind a home-control host: one connection to the
//! console, with its cameras as children.
//!
//! The package only reads. It lists cameras, passes snapshots on and forwards the
//! low-quality stream that a camera already offers. On pairing it observes the two
//! certificates of the console without sending the API key, keeps their SHA-256
//! fingerprints, and from then on speaks to a console with exactly these
//! certificates.
//!
//! This crate holds the rules of the package and their proofs. Sockets, TLS, the
//! console's API and the host's protocol are driven from outside: where a rule has
//! to wait for them it says what is to be done next, and it is told what came of
//! it.
//!
//! - [`settings`]: what a person enters, and the credential that pairing leaves.
//! - [`location`]: addresses, URLs, origins and server names.
//! - [`certificate`]: fingerprints and the verifiers of leaf certificates.
//! - [`pinning`]: the connector for one pinned origin, and the observation of a
//!   certificate.
//! - [`enrollment`]: pairing.
//! - [`cameras`]: the list of cameras and their labels.
//! - [`connection`]: what the host may ask for.
//! - [`errors`]: failures at the console, and how they are put to the host.
//! - [`text`]: text as sequences of characters.
pub mod cameras;
pub mod certificate;
pub mod connection;
pub mod enrollment;
pub mod errors;
pub mod location;
pub mod pinning;
pub mod settings;
pub mod text;
