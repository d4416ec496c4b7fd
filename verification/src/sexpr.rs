//! The S-expression value model of the CCC protocol and the rules by which
//! protocol records are written into it and read back out of it.

pub mod error;
pub mod value;
pub mod ser;
pub mod de;
