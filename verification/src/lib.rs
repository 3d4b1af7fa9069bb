//! Verified arithmetic and decision logic of the Ethereal DAO components:
//! the weighted two-asset exchange (`Tri`) and the liquidity
//! acquisition component (`Alpha`).

pub mod address;
pub mod decimal;
pub mod alpha;
pub mod tri;
