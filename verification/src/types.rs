pub mod account;
pub mod answer;
pub mod pagination;
pub mod question;
