//! Zero-knowledge coin relations over the Pallas/Vesta curve cycle: field and
//! curve arithmetic, a rank-1 constraint recorder, membership and
//! linear-equality gadgets, and the mint / combine / spend protocol of a
//! privacy-preserving coin.

pub mod algebra;
pub mod coin;
pub mod curve;
pub mod field;
pub mod gadgets;
pub mod group;
pub mod permissible;
pub mod proving;
pub mod r1cs;
pub mod select;
pub mod spend;
pub mod verifying;
