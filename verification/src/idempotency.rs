pub mod key;
pub mod persistence;

pub use key::{IdempotencyKey, KeyError};
pub use persistence::{
    get_saved_response, resolve, rollback, save_response, try_processing, NextAction, Resolution,
    Transaction,
};
