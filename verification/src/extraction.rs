//! Archive handling: archive types, password lists, password attempts,
//! nested extraction plans and the extractors' error classification.
pub mod password_list;
pub mod shared;
pub mod rar;
pub mod sevenz;
pub mod zip;
