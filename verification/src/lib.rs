//! Verified core of a Sudoku proof-job backend.
//!
//! The library holds the domain logic of the server: Sudoku grid
//! validation, the shared job registry and capped log store, the job
//! runner's decisions, and the per-connection state machines that push
//! status and log updates to watchers.  Transport, scheduling and file
//! I/O live outside the library and talk to it through plain values.

pub mod grid;
pub mod job;
pub mod kv;
pub mod logstore;
pub mod registry;
pub mod runner;
pub mod text;
pub mod watch;

pub use grid::SudokuBoard;
pub use grid::SudokuSolution;
pub use grid::ProofInput;
pub use job::ProofResponse;
pub use job::JobResponse;
pub use grid::is_valid_sudoku;
pub use grid::verify_solution;
