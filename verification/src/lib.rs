//! Planning and lifecycle bookkeeping for short-lived fleets of spot
//! instances.
//!
//! A fleet is described with [`BurstBuilder`], then driven through
//! [`Burst`]: a state machine that is told what happened (a request was
//! accepted, an instance came up, a setup finished, ...) and answers with
//! the next thing to do. The machine itself performs no I/O; whoever drives
//! it talks to the cloud provider and to the machines.
pub mod backoff;
pub mod builder;
pub mod burst;
pub mod laws;
pub mod machine;

pub use builder::{BurstBuilder, ConfigurationError, Descriptor, MachineSetup};
pub use burst::{
    Action, Failure, InstanceReport, InstanceState, Node, NodeState, Outcome, Phase, Release,
    Request, RequestState, MAX_ATTEMPTS, MAX_CONNECTS,
};
pub use machine::{Burst, Submission};
