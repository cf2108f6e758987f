//! The configuration of a generator and its builder.

use vstd::prelude::*;

verus! {

/// Width of the timestamp field.
pub const TIMESTAMP_BITS: u8 = 42;

/// Width of the node and sequence fields together.
pub const TOTAL_NODE_AND_SEQUENCE_BITS: u8 = 22;

/// Width of the node field unless configured otherwise.
pub const DEFAULT_NODE_BITS: u8 = 10;

/// 2024-01-01T00:00:00Z in milliseconds since the Unix epoch.
pub const DEFAULT_CUSTOM_EPOCH: u64 = 1704067200000;

/// How the low 22 bits are divided between node and sequence, and the
/// instant from which timestamps are counted.
#[derive(Debug, Clone, Copy)]
pub struct TsidConfig {
    node_bits: u8,
    sequence_bits: u8,
    custom_epoch: u64,
}

impl TsidConfig {
    pub closed spec fn spec_node_bits(&self) -> u8 {
        self.node_bits
    }

    pub closed spec fn spec_sequence_bits(&self) -> u8 {
        self.sequence_bits
    }

    pub closed spec fn spec_custom_epoch(&self) -> u64 {
        self.custom_epoch
    }

    /// The node field has 1 to 20 bits and the sequence field has the rest
    /// of the 22, so that the three fields fill 64 bits.
    pub open spec fn wf(&self) -> bool {
        &&& 1 <= self.spec_node_bits() <= 20
        &&& self.spec_sequence_bits() == 22 - self.spec_node_bits()
    }

    /// A builder that starts from the default configuration.
    pub fn builder() -> (b: TsidConfigBuilder)
        ensures
            b@.wf(),
            b@.spec_node_bits() == DEFAULT_NODE_BITS,
            b@.spec_custom_epoch() == DEFAULT_CUSTOM_EPOCH,
    {
        TsidConfigBuilder::new()
    }

    #[verifier::when_used_as_spec(spec_node_bits)]
    pub fn node_bits(&self) -> (bits: u8)
        ensures
            bits == self.spec_node_bits(),
    {
        self.node_bits
    }

    #[verifier::when_used_as_spec(spec_sequence_bits)]
    pub fn sequence_bits(&self) -> (bits: u8)
        ensures
            bits == self.spec_sequence_bits(),
    {
        self.sequence_bits
    }

    #[verifier::when_used_as_spec(spec_custom_epoch)]
    pub fn custom_epoch(&self) -> (epoch: u64)
        ensures
            epoch == self.spec_custom_epoch(),
    {
        self.custom_epoch
    }
}

impl Default for TsidConfig {
    fn default() -> (c: Self)
        ensures
            c.wf(),
            c.spec_node_bits() == DEFAULT_NODE_BITS,
            c.spec_custom_epoch() == DEFAULT_CUSTOM_EPOCH,
    {
        Self {
            node_bits: DEFAULT_NODE_BITS,
            sequence_bits: TOTAL_NODE_AND_SEQUENCE_BITS - DEFAULT_NODE_BITS,
            custom_epoch: DEFAULT_CUSTOM_EPOCH,
        }
    }
}

/// Collects overrides of the default configuration.
#[derive(Debug)]
pub struct TsidConfigBuilder {
    config: TsidConfig,
}

impl View for TsidConfigBuilder {
    type V = TsidConfig;

    /// The configuration that `build` would return.
    closed spec fn view(&self) -> TsidConfig {
        self.config
    }
}

impl TsidConfigBuilder {
    pub fn new() -> (b: Self)
        ensures
            b@.wf(),
            b@.spec_node_bits() == DEFAULT_NODE_BITS,
            b@.spec_custom_epoch() == DEFAULT_CUSTOM_EPOCH,
    {
        Self { config: TsidConfig::default() }
    }

    /// Gives the node field `bits` bits and the sequence field the other
    /// `22 - bits`.
    pub fn node_bits(self, bits: u8) -> (b: Self)
        requires
            1 <= bits <= 20,
        ensures
            b@.wf(),
            b@.spec_node_bits() == bits,
            b@.spec_custom_epoch() == self@.spec_custom_epoch(),
    {
        let mut config = self.config;
        config.node_bits = bits;
        config.sequence_bits = TOTAL_NODE_AND_SEQUENCE_BITS - bits;
        Self { config }
    }

    /// Counts timestamps from `epoch`, in milliseconds since the Unix epoch.
    pub fn custom_epoch(self, epoch: u64) -> (b: Self)
        ensures
            b@.spec_custom_epoch() == epoch,
            b@.spec_node_bits() == self@.spec_node_bits(),
            b@.spec_sequence_bits() == self@.spec_sequence_bits(),
    {
        let mut config = self.config;
        config.custom_epoch = epoch;
        Self { config }
    }

    pub fn build(self) -> (c: TsidConfig)
        ensures
            c == self@,
    {
        self.config
    }
}

} // verus!
