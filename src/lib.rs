//! The job engine of a video frame interpolation app: it finds the installed
//! tools and models, checks requests, builds the tools' command lines, reads
//! their progress, and runs each job as a state machine of stages whose
//! events the listener sees in order.

pub mod args;
pub mod job_id;
pub mod locate;
pub mod pipeline;
pub mod probe;
pub mod progress;
pub mod progress_line;
pub mod registry;
pub mod request;
pub mod rife_args;
pub mod tail;
pub mod text;
pub mod validation;
