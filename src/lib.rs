//! Server-side core of a collaborative text editor: the operation algebra, the
//! per-document session state and the decisions of the connection, cleanup and
//! persistence loops.

pub mod algebra;
pub mod lifecycle;
pub mod opseq;
pub mod ot;
pub mod protocol;
pub mod session;
