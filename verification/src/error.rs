use vstd::prelude::*;

verus! {

/// A failure to show to the user: a plain message, and optionally the
/// technical details behind it.
#[derive(Debug, Clone)]
pub struct Error {
    pub human: String,
    pub technical: Option<String>,
}

impl Error {
    /// An error that carries only a message for the user.
    pub fn user(message: String) -> (r: Error)
        ensures
            r.human@ == message@,
            r.technical is None,
    {
        Error { human: message, technical: None }
    }

    /// An error with a message for the user and technical details.
    pub fn detailed(human: String, technical: String) -> (r: Error)
        ensures
            r.human@ == human@,
            r.technical matches Some(t) && t@ == technical@,
    {
        Error { human, technical: Some(technical) }
    }

    /// The message for the user.
    pub fn human_message(&self) -> (r: String)
        ensures
            r@ == self.human@,
    {
        self.human.clone()
    }

    /// The technical details, when there are any.
    pub fn technical_details(&self) -> (r: Option<String>)
        ensures
            match (r, self.technical) {
                (Some(a), Some(b)) => a@ == b@,
                (None, None) => true,
                _ => false,
            },
    {
        match &self.technical {
            Some(t) => Some(t.clone()),
            None => None,
        }
    }
}

} // verus!
