//! Transmission Control Protocol views and caller-buffer construction (RFC 9293).

mod builder;
mod checksum;
mod flags;
mod segment;

pub use builder::{TcpSegmentBuildError, TcpSegmentBuilder};
pub use checksum::{
    TcpChecksumError, checksum_check_result, lemma_updated_checksum_is_valid, tcp_checksum_for,
    tcp_ipv4_pseudoheader, tcp_ipv6_pseudoheader, transport_sum, with_checksum,
};
pub use flags::{TcpFlags, lemma_union_contains};
pub use segment::{TcpSegment, TcpSegmentMut, TcpSegmentMutationError};
