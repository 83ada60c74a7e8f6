//! Recovery of a missing piece of archived history from the other pieces of its
//! segment: the piece-index arithmetic of segments and the decision state of the
//! bounded fan-out of retrievals, with the block-number helpers of the domain
//! operator.

pub mod block;
pub mod recovery;
pub mod segment;
