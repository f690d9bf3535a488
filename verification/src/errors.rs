//! Error types of discovery, fingerprinting and port scanning.

use vstd::prelude::*;

verus! {

/// `std::io::Error`, carried through as the cause of an I/O failure.
#[verifier::external_type_specification]
#[verifier::external_body]
pub struct ExIoError(std::io::Error);

/// Failure of network discovery.
#[derive(Debug)]
pub enum DiscoveryError {
    /// No usable default interface (all filtered or down).
    NoDefaultInterface,
    /// The interface asked for does not exist or is not usable.
    InterfaceNotFound(String),
    /// The interface has no IPv4 address.
    NoIpv4 { name: String },
    /// The interface listing failed, with its message.
    Netdev(String),
    /// An underlying I/O error (ARP table, sockets).
    Io(std::io::Error),
    /// DNS resolution or resolver configuration failed, with its message.
    Dns(String),
}

/// Failure of fingerprint loading.
#[derive(Debug)]
pub enum FingerprintError {
    /// The OUI CSV could not be read.
    OuiLoad(String),
    /// A rule file could not be read or parsed.
    RuleLoad { path: String, message: String },
    /// An I/O error opening a signature file.
    Io(std::io::Error),
}

/// Failure of a port scan.
#[derive(Debug)]
pub enum ScanError {
    /// An I/O error while probing.
    Io(std::io::Error),
}

} // verus!
