use vstd::prelude::*;

verus! {

/// The error taxonomy of the client. Every failure surfaced to the user is
/// exactly one of these, each carrying a human-readable message; the shell
/// prints the message to standard error and exits with status 1.
#[derive(Debug, PartialEq, Eq)]
pub enum CliError {
    /// Missing server or token, raised before any native handle exists.
    Config { message: Vec<u8> },
    /// The remote service rejected a login; the message comes from the
    /// native component's last-error slot.
    Auth { message: Vec<u8> },
    /// Any other boundary call reported failure; the message comes from the
    /// native component's last-error slot.
    Transport { message: Vec<u8> },
    /// A successful boundary call returned malformed JSON.
    Decode { message: Vec<u8> },
    /// The worker running an offloaded boundary call failed to complete.
    Task { message: Vec<u8> },
}

/// The mathematical value of a `CliError`.
pub enum SpecError {
    Config { message: Seq<u8> },
    Auth { message: Seq<u8> },
    Transport { message: Seq<u8> },
    Decode { message: Seq<u8> },
    Task { message: Seq<u8> },
}

impl SpecError {
    /// The message carried by the error, whichever kind it is.
    pub open spec fn message(&self) -> Seq<u8> {
        match self {
            SpecError::Config { message } => *message,
            SpecError::Auth { message } => *message,
            SpecError::Transport { message } => *message,
            SpecError::Decode { message } => *message,
            SpecError::Task { message } => *message,
        }
    }
}

impl CliError {
    /// The mathematical value of this error.
    pub open spec fn deep(&self) -> SpecError {
        match self {
            CliError::Config { message } => SpecError::Config { message: message@ },
            CliError::Auth { message } => SpecError::Auth { message: message@ },
            CliError::Transport { message } => SpecError::Transport { message: message@ },
            CliError::Decode { message } => SpecError::Decode { message: message@ },
            CliError::Task { message } => SpecError::Task { message: message@ },
        }
    }

    /// The message carried by the error, whichever kind it is.
    pub open spec fn spec_message(&self) -> Seq<u8> {
        match self {
            CliError::Config { message } => message@,
            CliError::Auth { message } => message@,
            CliError::Transport { message } => message@,
            CliError::Decode { message } => message@,
            CliError::Task { message } => message@,
        }
    }

    /// The message shown to the user.
    pub fn message(&self) -> (r: &Vec<u8>)
        ensures
            r@ == self.spec_message(),
    {
        match self {
            CliError::Config { message } => message,
            CliError::Auth { message } => message,
            CliError::Transport { message } => message,
            CliError::Decode { message } => message,
            CliError::Task { message } => message,
        }
    }
}

} // verus!
