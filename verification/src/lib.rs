pub mod chpylm;
pub mod ctype;
pub mod defs;
pub mod hash;
pub mod hpylm;
pub mod laws;
pub mod npylm;
pub mod pyp;
pub mod rng;
pub mod sampler;
pub mod sentence;
pub mod seqsum;
pub mod whpylm;
pub mod wtype;
