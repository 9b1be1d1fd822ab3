//! Session-level values that a new SDP description starts from.
use vstd::prelude::*;

verus! {

/// Values of the `v=`, `o=`, `s=`, `t=` and `c=` lines of a new session
/// description.
pub struct SdpConfig {
    pub version: u8,
    pub origin_id: usize,
    pub session_name: String,
    pub timing: String,
    pub connection_data_net_type: String,
    pub connection_data_addr_type: String,
    pub connection_data_address: String,
}

impl Default for SdpConfig {
    /// Version 0, origin 0, session `-`, timing `0 0`, connection
    /// `IN IP4 0.0.0.0`.
    fn default() -> (r: Self)
        ensures
            r.version == 0,
            r.origin_id == 0,
            r.session_name@ == "-"@,
            r.timing@ == "0 0"@,
            r.connection_data_net_type@ == "IN"@,
            r.connection_data_addr_type@ == "IP4"@,
            r.connection_data_address@ == "0.0.0.0"@,
    {
        SdpConfig {
            version: 0,
            origin_id: 0,
            session_name: String::from_str("-"),
            timing: String::from_str("0 0"),
            connection_data_net_type: String::from_str("IN"),
            connection_data_addr_type: String::from_str("IP4"),
            connection_data_address: String::from_str("0.0.0.0"),
        }
    }
}

} // verus!
