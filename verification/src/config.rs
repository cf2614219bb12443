//! The configuration of a transport client, and its builder.
//!
//! Every field is mandatory. `build` names the first field that is missing,
//! in the order in which the fields are declared; with all fields present it
//! names the first whose value no connection can be made with.

use vstd::prelude::*;

verus! {

/// Largest number of streams that a peer can be allowed to open: the
/// largest value of a 62-bit variable-length integer.
pub const MAX_STREAMS: u64 = 0x3fff_ffff_ffff_ffff;

/// The address of a peer: an IPv4 or IPv6 address and a port. An IPv4
/// address stands in the low 32 bits of `ip`.
#[derive(Clone, Copy, Debug, PartialEq, Eq, Structural)]
pub struct PeerAddr {
    pub v6: bool,
    pub ip: u128,
    pub port: u16,
}

/// The fields of a configuration.
#[derive(Clone, Copy, Debug, PartialEq, Eq, Structural)]
pub enum Field {
    RemoteAddress,
    Domain,
    Cert,
    KeepAliveInterval,
    MaxBiStreams,
    MaxUniStreams,
    MaxSenderSideChannelSize,
    MaxReceiverSideChannelSize,
}

/// Why a configuration cannot be built.
#[derive(Clone, Copy, Debug, PartialEq, Eq, Structural)]
pub enum ConfigError {
    /// The field was never set.
    Missing(Field),
    /// The field was set to a value that cannot be used: a stream limit
    /// above `MAX_STREAMS`, or a queue depth of zero.
    Invalid(Field),
}

/// A validated configuration.
#[derive(Clone, Debug, PartialEq, Eq)]
pub struct ClientConfig {
    pub remote_address: PeerAddr,
    pub domain: String,
    /// The root certificate, DER-encoded.
    pub cert: Vec<u8>,
    /// In milliseconds.
    pub keep_alive_interval: u64,
    pub max_bi_streams: u64,
    pub max_uni_streams: u64,
    /// Depth of the send queue.
    pub max_sender_side_channel_size: usize,
    /// Depth of the receive queue.
    pub max_receiver_side_channel_size: usize,
}

/// A configuration in the making.
#[derive(Debug, PartialEq, Eq)]
pub struct ClientConfigBuilder {
    pub remote_address: Option<PeerAddr>,
    pub domain: Option<String>,
    pub cert: Option<Vec<u8>>,
    pub keep_alive_interval: Option<u64>,
    pub max_bi_streams: Option<u64>,
    pub max_uni_streams: Option<u64>,
    pub max_sender_side_channel_size: Option<usize>,
    pub max_receiver_side_channel_size: Option<usize>,
}

impl ClientConfig {
    /// Whether a connection can be made with these values.
    pub open spec fn valid(self) -> bool {
        &&& self.max_bi_streams <= MAX_STREAMS
        &&& self.max_uni_streams <= MAX_STREAMS
        &&& self.max_sender_side_channel_size > 0
        &&& self.max_receiver_side_channel_size > 0
    }
}

impl ClientConfigBuilder {
    /// The first field that was never set, if there is one.
    pub open spec fn first_missing(self) -> Option<Field> {
        if self.remote_address is None {
            Some(Field::RemoteAddress)
        } else if self.domain is None {
            Some(Field::Domain)
        } else if self.cert is None {
            Some(Field::Cert)
        } else if self.keep_alive_interval is None {
            Some(Field::KeepAliveInterval)
        } else if self.max_bi_streams is None {
            Some(Field::MaxBiStreams)
        } else if self.max_uni_streams is None {
            Some(Field::MaxUniStreams)
        } else if self.max_sender_side_channel_size is None {
            Some(Field::MaxSenderSideChannelSize)
        } else if self.max_receiver_side_channel_size is None {
            Some(Field::MaxReceiverSideChannelSize)
        } else {
            None
        }
    }

    /// The values of a builder whose fields are all set.
    pub open spec fn values(self) -> ClientConfig {
        ClientConfig {
            remote_address: self.remote_address->Some_0,
            domain: self.domain->Some_0,
            cert: self.cert->Some_0,
            keep_alive_interval: self.keep_alive_interval->Some_0,
            max_bi_streams: self.max_bi_streams->Some_0,
            max_uni_streams: self.max_uni_streams->Some_0,
            max_sender_side_channel_size: self.max_sender_side_channel_size->Some_0,
            max_receiver_side_channel_size: self.max_receiver_side_channel_size->Some_0,
        }
    }

    /// The first field of a complete builder whose value cannot be used, if
    /// there is one.
    pub open spec fn first_invalid(self) -> Option<Field> {
        let c = self.values();
        if c.max_bi_streams > MAX_STREAMS {
            Some(Field::MaxBiStreams)
        } else if c.max_uni_streams > MAX_STREAMS {
            Some(Field::MaxUniStreams)
        } else if c.max_sender_side_channel_size == 0 {
            Some(Field::MaxSenderSideChannelSize)
        } else if c.max_receiver_side_channel_size == 0 {
            Some(Field::MaxReceiverSideChannelSize)
        } else {
            None
        }
    }

    /// What `build` makes of a builder.
    pub open spec fn spec_build(self) -> Result<ClientConfig, ConfigError> {
        match self.first_missing() {
            Some(field) => Err(ConfigError::Missing(field)),
            None => match self.first_invalid() {
                Some(field) => Err(ConfigError::Invalid(field)),
                None => Ok(self.values()),
            },
        }
    }

    /// A builder with no field set.
    pub fn new() -> (b: ClientConfigBuilder)
        ensures
            b == (ClientConfigBuilder {
                remote_address: None,
                domain: None,
                cert: None,
                keep_alive_interval: None,
                max_bi_streams: None,
                max_uni_streams: None,
                max_sender_side_channel_size: None,
                max_receiver_side_channel_size: None,
            }),
    {
        ClientConfigBuilder {
            remote_address: None,
            domain: None,
            cert: None,
            keep_alive_interval: None,
            max_bi_streams: None,
            max_uni_streams: None,
            max_sender_side_channel_size: None,
            max_receiver_side_channel_size: None,
        }
    }

    /// Sets the address of the peer.
    pub fn with_remote_address(&mut self, remote_address: PeerAddr) -> (r: &mut Self)
        ensures
            *r == (ClientConfigBuilder { remote_address: Some(remote_address), ..*old(self) }),
            *final(self) == *final(r),
    {
        self.remote_address = Some(remote_address);
        self
    }

    /// Sets the name that the certificate of the peer must bear.
    pub fn with_domain(&mut self, domain: String) -> (r: &mut Self)
        ensures
            *r == (ClientConfigBuilder { domain: Some(domain), ..*old(self) }),
            *final(self) == *final(r),
    {
        self.domain = Some(domain);
        self
    }

    /// Sets the root certificate.
    pub fn with_cert(&mut self, cert: Vec<u8>) -> (r: &mut Self)
        ensures
            *r == (ClientConfigBuilder { cert: Some(cert), ..*old(self) }),
            *final(self) == *final(r),
    {
        self.cert = Some(cert);
        self
    }

    /// Sets the keep-alive interval, in milliseconds.
    pub fn with_keep_alive_interval(&mut self, keep_alive_interval: u64) -> (r: &mut Self)
        ensures
            *r == (ClientConfigBuilder {
                keep_alive_interval: Some(keep_alive_interval),
                ..*old(self)
            }),
            *final(self) == *final(r),
    {
        self.keep_alive_interval = Some(keep_alive_interval);
        self
    }

    /// Sets the number of bidirectional streams that the peer may open.
    pub fn with_max_bi_streams(&mut self, max_bi_streams: u64) -> (r: &mut Self)
        ensures
            *r == (ClientConfigBuilder { max_bi_streams: Some(max_bi_streams), ..*old(self) }),
            *final(self) == *final(r),
    {
        self.max_bi_streams = Some(max_bi_streams);
        self
    }

    /// Sets the number of unidirectional streams that the peer may open.
    pub fn with_max_uni_streams(&mut self, max_uni_streams: u64) -> (r: &mut Self)
        ensures
            *r == (ClientConfigBuilder { max_uni_streams: Some(max_uni_streams), ..*old(self) }),
            *final(self) == *final(r),
    {
        self.max_uni_streams = Some(max_uni_streams);
        self
    }

    /// Sets the depth of the send queue.
    pub fn with_max_sender_side_channel_size(
        &mut self,
        max_sender_side_channel_size: usize,
    ) -> (r: &mut Self)
        ensures
            *r == (ClientConfigBuilder {
                max_sender_side_channel_size: Some(max_sender_side_channel_size),
                ..*old(self)
            }),
            *final(self) == *final(r),
    {
        self.max_sender_side_channel_size = Some(max_sender_side_channel_size);
        self
    }

    /// Sets the depth of the receive queue.
    pub fn with_max_receiver_side_channel_size(
        &mut self,
        max_receiver_side_channel_size: usize,
    ) -> (r: &mut Self)
        ensures
            *r == (ClientConfigBuilder {
                max_receiver_side_channel_size: Some(max_receiver_side_channel_size),
                ..*old(self)
            }),
            *final(self) == *final(r),
    {
        self.max_receiver_side_channel_size = Some(max_receiver_side_channel_size);
        self
    }

    /// The configuration, or the first field that stands in its way.
    pub fn build(self) -> (r: Result<ClientConfig, ConfigError>)
        ensures
            r == self.spec_build(),
            r is Ok ==> r->Ok_0.valid(),
    {
        let remote_address = match self.remote_address {
            Some(v) => v,
            None => return Err(ConfigError::Missing(Field::RemoteAddress)),
        };
        let domain = match self.domain {
            Some(v) => v,
            None => return Err(ConfigError::Missing(Field::Domain)),
        };
        let cert = match self.cert {
            Some(v) => v,
            None => return Err(ConfigError::Missing(Field::Cert)),
        };
        let keep_alive_interval = match self.keep_alive_interval {
            Some(v) => v,
            None => return Err(ConfigError::Missing(Field::KeepAliveInterval)),
        };
        let max_bi_streams = match self.max_bi_streams {
            Some(v) => v,
            None => return Err(ConfigError::Missing(Field::MaxBiStreams)),
        };
        let max_uni_streams = match self.max_uni_streams {
            Some(v) => v,
            None => return Err(ConfigError::Missing(Field::MaxUniStreams)),
        };
        let max_sender_side_channel_size = match self.max_sender_side_channel_size {
            Some(v) => v,
            None => return Err(ConfigError::Missing(Field::MaxSenderSideChannelSize)),
        };
        let max_receiver_side_channel_size = match self.max_receiver_side_channel_size {
            Some(v) => v,
            None => return Err(ConfigError::Missing(Field::MaxReceiverSideChannelSize)),
        };
        if max_bi_streams > MAX_STREAMS {
            return Err(ConfigError::Invalid(Field::MaxBiStreams));
        }
        if max_uni_streams > MAX_STREAMS {
            return Err(ConfigError::Invalid(Field::MaxUniStreams));
        }
        if max_sender_side_channel_size == 0 {
            return Err(ConfigError::Invalid(Field::MaxSenderSideChannelSize));
        }
        if max_receiver_side_channel_size == 0 {
            return Err(ConfigError::Invalid(Field::MaxReceiverSideChannelSize));
        }
        Ok(
            ClientConfig {
                remote_address,
                domain,
                cert,
                keep_alive_interval,
                max_bi_streams,
                max_uni_streams,
                max_sender_side_channel_size,
                max_receiver_side_channel_size,
            },
        )
    }
}

impl Default for ClientConfigBuilder {
    fn default() -> (b: ClientConfigBuilder)
        ensures
            b == (ClientConfigBuilder {
                remote_address: None,
                domain: None,
                cert: None,
                keep_alive_interval: None,
                max_bi_streams: None,
                max_uni_streams: None,
                max_sender_side_channel_size: None,
                max_receiver_side_channel_size: None,
            }),
    {
        ClientConfigBuilder::new()
    }
}

} // verus!
