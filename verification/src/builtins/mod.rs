pub mod bool;
pub mod channel;
pub mod cm31;
pub mod cm31_limbs;
pub mod hash;
pub mod i32;
pub mod m31;
pub mod m31_limbs;
pub mod qm31;
pub mod str;
pub mod table;
pub mod u8;
