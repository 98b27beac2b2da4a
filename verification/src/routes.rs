pub mod admin;
pub mod login;
pub mod news_letters;
pub mod subscriptions;
pub mod subscriptions_confirm;
