use crate::text::{decimal, decimal_string};
use vstd::prelude::*;

verus! {

/// The secret that signs what the application hands to a client and takes back.
#[derive(Debug, Clone)]
pub struct HmacSecret(pub String);

/// The address under which clients reach the application.
#[derive(Debug, Clone)]
pub struct ApplicationBaseUrl(pub String);

/// The local address to listen on, for a port.
pub fn listen_address(port: u16) -> (address: String)
    ensures
        address@ == "127.0.0.1:"@ + decimal(port as nat),
{
    "127.0.0.1:".to_owned().concat(decimal_string(port).as_str())
}

/// How a supervised task ended.
#[derive(Debug, Clone, PartialEq, Eq)]
pub enum TaskExit {
    /// It returned without an error.
    Completed,
    /// It returned this error.
    Failed(String),
    /// It did not return: it panicked or was cancelled, as described.
    Aborted(String),
}

/// How loud a report is.
#[derive(Debug, Clone, Copy, PartialEq, Eq, Structural)]
pub enum Level {
    Info,
    Error,
}

/// One line for the log.
#[derive(Debug, Clone, PartialEq, Eq)]
pub struct ExitReport {
    pub level: Level,
    pub message: String,
    /// The error, where the task failed.
    pub cause: Option<String>,
}

/// The report on a task that ended: a note where it completed, an error
/// with its cause where it failed or did not return.
pub fn report_exit(task_name: &str, outcome: TaskExit) -> (report: ExitReport)
    ensures
        match outcome {
            TaskExit::Completed => {
                &&& report.level == Level::Info
                &&& report.message@ == task_name@ + " has exited"@
                &&& report.cause is None
            },
            TaskExit::Failed(error) => {
                &&& report.level == Level::Error
                &&& report.message@ == task_name@ + " failed"@
                &&& report.cause matches Some(cause)
                &&& cause@ == error@
            },
            TaskExit::Aborted(error) => {
                &&& report.level == Level::Error
                &&& report.message@ == task_name@ + " failed"@
                &&& report.cause matches Some(cause)
                &&& cause@ == error@
            },
        },
{
    match outcome {
        TaskExit::Completed => ExitReport {
            level: Level::Info,
            message: task_name.to_owned().concat(" has exited"),
            cause: None,
        },
        TaskExit::Failed(error) => ExitReport {
            level: Level::Error,
            message: task_name.to_owned().concat(" failed"),
            cause: Some(error),
        },
        TaskExit::Aborted(error) => ExitReport {
            level: Level::Error,
            message: task_name.to_owned().concat(" failed"),
            cause: Some(error),
        },
    }
}

} // verus!
