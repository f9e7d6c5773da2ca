//! Control-plane library for a fleet of block-placing robots in a voxel
//! world: a chunked world store, a weighted route planner, the robot
//! session protocol, depot leasing, a chunked-work tracker, the concrete
//! jobs and the scheduler that assigns them to idle robots.
pub mod blocks;
pub mod construct;
pub mod depot;
pub mod fell;
pub mod mine;
pub mod names;
pub mod paths;
pub mod seqs;
pub mod strings;
pub mod tasks;
pub mod turtle;
pub mod world;
