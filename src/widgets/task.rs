//! Results that background tasks hand back to the editor.

use vstd::prelude::*;

verus! {

/// What a background task hands back: a message to show, or an imported model.
#[derive(Debug)]
pub enum TaskResult<M> {
    Notification(Result<String, String>),
    ModelImport(Box<M>),
}

impl<M> TaskResult<M> {
    /// A message that reports success.
    pub fn ok_message(msg: String) -> (r: TaskResult<M>)
        ensures
            r matches TaskResult::Notification(Ok(m)) && m@ == msg@,
    {
        TaskResult::Notification(Ok(msg))
    }

    /// A message that reports a failure.
    pub fn err_message(msg: String) -> (r: TaskResult<M>)
        ensures
            r matches TaskResult::Notification(Err(m)) && m@ == msg@,
    {
        TaskResult::Notification(Err(msg))
    }
}

} // verus!
