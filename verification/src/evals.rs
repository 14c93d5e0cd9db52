//! Grading what an extraction produced against what was expected.

pub mod corpus;
pub mod grade;
pub mod laws;
pub mod matching;
pub mod normalize;
pub mod op_laws;
