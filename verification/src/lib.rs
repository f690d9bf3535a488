//! Local-network inventory logic: address parsing, port catalogues, banner and
//! header parsing, device fingerprint rules, ARP/ICMP packet handling, the
//! merging of sightings into hosts, scan bookkeeping, the storage codecs and
//! the diff of a network between scans.

pub mod text;
pub mod ports;
pub mod model;
pub mod ipv6;
pub mod rules;
pub mod errors;
pub mod oui;
pub mod fingerprint;
pub mod probes;
pub mod icmp;
pub mod scan;
pub mod netutil;
pub mod arp;
pub mod iface;
pub mod sightings;
pub mod ssdp;
pub mod sudo;
pub mod ping;
pub mod mdns;
pub mod tcp_ping;
pub mod codec;
pub mod rows;
pub mod devices;
pub mod util;
pub mod json;
pub mod diff;
pub mod services;
pub mod events;
pub mod migrations;
pub mod connection;
pub mod aggregate;
pub mod pipeline;
pub mod dns;
pub mod traceroute;
