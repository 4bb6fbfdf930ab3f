pub mod address;
pub mod amount;
pub mod erc20;
pub mod token;
