//! A deadlock-avoidance simulator in the style of the Banker's algorithm.
//!
//! Processes declare per-resource demands through resource slots; a safety
//! oracle decides, before every tick of the simulated clock, whether the
//! current allocation state is safe, and reports the set of processes to
//! evict when it is not.

pub mod commands;
mod ids;
mod matrix;
pub mod oracle;
pub mod process;
pub mod resource;
mod roll;
pub mod simulation;

pub use commands::CommandError;
pub use process::AllProcessTraits;
pub use process::BlockedProcess;
pub use process::GenericProcessResourceIntensity;
pub use process::Process;
pub use process::ProcessStates;
pub use process::ReadyProcess;
pub use process::ResourceSlot;
pub use process::WorkingProcess;
pub use resource::GenericResource;
pub use resource::GenericResourceError;
pub use simulation::AllSimulationTrait;
pub use simulation::RunningSimulation;
pub use simulation::Simulation;
pub use simulation::StoppedSimulation;
