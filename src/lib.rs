//! Grading pipeline for programming-course submissions kept in a
//! learning-management system: roster resolution, on-disk layout of sources
//! and binaries, build and run bookkeeping, and the operator review loop.
use vstd::prelude::*;

pub mod text;
pub mod model;
pub mod layout;
pub mod lms;
pub mod resolver;
pub mod compile;
pub mod harness;
pub mod grade;
pub mod review;
