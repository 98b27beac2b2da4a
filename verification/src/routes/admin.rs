pub mod dashboard;
pub mod logout;
pub mod password;
