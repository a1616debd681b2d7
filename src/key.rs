//! How an encrypted filesystem's key is obtained before mounting.
use vstd::prelude::*;

verus! {

/// What to do when the key of an encrypted filesystem is not in the keyring.
#[derive(Clone, Copy, Debug, PartialEq, Eq, Structural)]
pub enum UnlockPolicy {
    /// Don't ask for a passphrase: fail if the key is not in the keyring.
    Fail,
    /// Wait for the key to appear in the keyring.
    Wait,
    /// Prompt the user for a passphrase.
    Ask,
    /// Read the passphrase from standard input without prompting.
    Stdin,
}

impl Default for UnlockPolicy {
    fn default() -> (r: UnlockPolicy)
        ensures
            r == UnlockPolicy::Ask,
    {
        UnlockPolicy::Ask
    }
}

impl UnlockPolicy {
    /// The policy's name.
    pub fn name(&self) -> (r: &'static str)
        ensures
            r@ == match self {
                UnlockPolicy::Fail => "Fail"@,
                UnlockPolicy::Wait => "Wait"@,
                UnlockPolicy::Ask => "Ask"@,
                UnlockPolicy::Stdin => "Stdin"@,
            },
    {
        match self {
            UnlockPolicy::Fail => "Fail",
            UnlockPolicy::Wait => "Wait",
            UnlockPolicy::Ask => "Ask",
            UnlockPolicy::Stdin => "Stdin",
        }
    }
}

/// One way of getting the key.
#[derive(Clone, Copy, Debug, PartialEq, Eq, Structural)]
pub enum UnlockMethod {
    /// Look the key up in the session, user and user-session keyrings.
    SearchKeyring,
    /// Look the key up until it appears.
    WaitForKey,
    /// Prompt for a passphrase on the terminal.
    Prompt,
    /// Read a passphrase from standard input.
    ReadStdin,
    /// Read a passphrase from the given file.
    ReadFile,
}

/// The method to try first, and the one to fall back to if it fails.
#[derive(Clone, Copy, Debug, PartialEq, Eq, Structural)]
pub struct UnlockPlan {
    pub first: UnlockMethod,
    pub fallback: Option<UnlockMethod>,
}

impl UnlockPolicy {
    /// The one method this policy uses.
    pub fn apply(&self) -> (r: UnlockMethod)
        ensures
            r == match self {
                UnlockPolicy::Fail => UnlockMethod::SearchKeyring,
                UnlockPolicy::Wait => UnlockMethod::WaitForKey,
                UnlockPolicy::Ask => UnlockMethod::Prompt,
                UnlockPolicy::Stdin => UnlockMethod::ReadStdin,
            },
    {
        match self {
            UnlockPolicy::Fail => UnlockMethod::SearchKeyring,
            UnlockPolicy::Wait => UnlockMethod::WaitForKey,
            UnlockPolicy::Ask => UnlockMethod::Prompt,
            UnlockPolicy::Stdin => UnlockMethod::ReadStdin,
        }
    }
}

/// How to unlock: a policy given explicitly is used alone; else a passphrase
/// file; else the keyring, falling back to a prompt on a terminal or to
/// standard input otherwise.
pub fn unlock_plan(
    policy: Option<UnlockPolicy>,
    has_passphrase_file: bool,
    stdin_is_terminal: bool,
) -> (r: UnlockPlan)
    ensures
        policy matches Some(p) ==> r == (UnlockPlan {
            first: match p {
                UnlockPolicy::Fail => UnlockMethod::SearchKeyring,
                UnlockPolicy::Wait => UnlockMethod::WaitForKey,
                UnlockPolicy::Ask => UnlockMethod::Prompt,
                UnlockPolicy::Stdin => UnlockMethod::ReadStdin,
            },
            fallback: None,
        }),
        policy is None && has_passphrase_file ==> r == (UnlockPlan {
            first: UnlockMethod::ReadFile,
            fallback: None,
        }),
        policy is None && !has_passphrase_file ==> r == (UnlockPlan {
            first: UnlockMethod::SearchKeyring,
            fallback: Some(
                if stdin_is_terminal {
                    UnlockMethod::Prompt
                } else {
                    UnlockMethod::ReadStdin
                },
            ),
        }),
{
    match policy {
        Some(p) => UnlockPlan { first: p.apply(), fallback: None },
        None => {
            if has_passphrase_file {
                UnlockPlan { first: UnlockMethod::ReadFile, fallback: None }
            } else {
                let fallback = if stdin_is_terminal {
                    UnlockMethod::Prompt
                } else {
                    UnlockMethod::ReadStdin
                };
                UnlockPlan { first: UnlockMethod::SearchKeyring, fallback: Some(fallback) }
            }
        },
    }
}

} // verus!
