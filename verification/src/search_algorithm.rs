//! Game-tree search: the negamax model, the alpha-beta searcher, and the
//! records it reports.

pub mod alphabeta;
pub mod base;
