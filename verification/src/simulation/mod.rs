//! Running a model: states, results and the rules of a run.

pub mod abm;
pub mod agent_sd_bridge;
pub mod arrayvalue;
pub mod context;
pub mod delay;
pub mod engine;
pub mod error;
pub mod integrator;
pub mod lookup;
pub mod network;
pub mod noise;
pub mod results;
pub mod state;

pub use engine::{IntegrationMethod, Integrator, SimulationConfig, SimulationEngine};
pub use integrator::{EulerIntegrator, HeunIntegrator, RK4Integrator};
pub use lookup::LookupTable;
pub use results::SimulationResults;
pub use state::SimulationState;
