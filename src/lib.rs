//! A reduction engine for interaction combinators: a net of eraser,
//! constructor and duplicator cells joined by wires between ports, and the
//! rewrite rules that reduce it to normal form.

mod arena;
pub mod expression;
pub mod net;
pub mod reduce;
