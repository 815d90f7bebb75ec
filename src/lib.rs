//! Milne's predictor-corrector method for scalar ODEs `y' = f(x, y)`,
//! with step halving, on exact fixed-point numbers.
pub mod error;
pub mod fixed;
pub mod history;
pub mod integrate;
pub mod milne;
pub mod refine;
pub mod richardson;
pub mod starter;
pub mod stepper;

pub use error::MilneError;
pub use fixed::Fixed;
pub use history::{History, Sample, Window};
pub use integrate::{assess, integrate, Integration, Verdict};
pub use milne::{y_correct, y_predict};
pub use refine::{interp_midpoint, refine};
pub use richardson::{
    compare_steps, good_step_size, richardson_error, taylor_series, two_step_error, Derivatives,
    StepChoice, StepComparison,
};
pub use starter::{runge_kutta_4, Rk4Step};
pub use stepper::{advance, milne_step, StepResult};
