//! The command line as values, and the decisions that the commands make on
//! what the user typed. Reading arguments and prompting are the caller's.

use crate::storage::MIN_MASTER_PASSWORD_LEN;
use crate::text::{lowercased, same_text, to_lowercase, trim, trimmed};
use vstd::prelude::*;
use vstd::utf8::encode_utf8;

verus! {

/// The length of a generated password where none is asked for.
pub const DEFAULT_PASSWORD_LENGTH: usize = 16;

/// The parsed command line.
pub struct Cli {
    /// Path of the vault file.
    pub database_path: String,
    /// What to do.
    pub command: Command,
}

/// The subcommands.
pub enum Command {
    /// Make a new vault.
    Init,
    /// Add an entry for a service.
    Add { service: String, username: Option<String> },
    /// Show the entry of a service.
    Get { service: String },
    /// List all entries.
    List,
    /// Generate a password and print it.
    Generate { length: Option<usize>, include_symbols: bool },
    /// Delete the entry of a service.
    Delete { service: String },
    /// Replace the password of a service.
    Update { service: String },
}

/// Why input of the user was refused.
#[derive(Clone, Copy, Debug, PartialEq, Eq, Structural)]
pub enum CliError {
    /// Master password and confirmation differ.
    PasswordsDoNotMatch,
    /// The master password is shorter than the minimum.
    PasswordTooShort,
    /// The answer to the password menu is neither `1` nor `2`.
    InvalidChoice,
    /// A command that needs the vault was given before `init`.
    NotInitialized,
    /// The master password is wrong.
    InvalidMasterPassword,
}

/// How the password of an entry is to be obtained.
#[derive(Clone, Copy, Debug, PartialEq, Eq, Structural)]
pub enum PasswordChoice {
    /// Generate a random password.
    Generate,
    /// Ask the user for one.
    Custom,
}

impl CliError {
    /// A human-readable description.
    pub fn message(&self) -> (text: String)
        ensures
            text@ == match *self {
                CliError::PasswordsDoNotMatch => "Passwords do not match!"@,
                CliError::PasswordTooShort =>
                    "Master password must be at least 8 characters long!"@,
                CliError::InvalidChoice => "Invalid choice!"@,
                CliError::NotInitialized =>
                    "Database not initialized. Run 'init' command first."@,
                CliError::InvalidMasterPassword => "Invalid master password!"@,
            },
    {
        match self {
            CliError::PasswordsDoNotMatch => "Passwords do not match!".to_owned(),
            CliError::PasswordTooShort =>
                "Master password must be at least 8 characters long!".to_owned(),
            CliError::InvalidChoice => "Invalid choice!".to_owned(),
            CliError::NotInitialized =>
                "Database not initialized. Run 'init' command first.".to_owned(),
            CliError::InvalidMasterPassword => "Invalid master password!".to_owned(),
        }
    }
}

impl Command {
    /// The command works on the entries of an existing vault.
    pub open spec fn spec_needs_authentication(&self) -> bool {
        !(self is Init || self is Generate)
    }

    /// Whether the command works on the entries of an existing vault, so
    /// that the user has to authenticate first.
    #[verifier::when_used_as_spec(spec_needs_authentication)]
    pub fn needs_authentication(&self) -> (needed: bool)
        ensures
            needed == self.spec_needs_authentication(),
    {
        match self {
            Command::Init => false,
            Command::Generate { .. } => false,
            _ => true,
        }
    }
}

/// What is decided on a new master password and its confirmation.
pub open spec fn spec_check_new_master_password(
    password: Seq<char>,
    confirmation: Seq<char>,
) -> Result<(), CliError> {
    if password != confirmation {
        Err(CliError::PasswordsDoNotMatch)
    } else if encode_utf8(password).len() < MIN_MASTER_PASSWORD_LEN {
        Err(CliError::PasswordTooShort)
    } else {
        Ok(())
    }
}

/// Decides on a new master password: it has to equal its confirmation and
/// to be at least `MIN_MASTER_PASSWORD_LEN` bytes long.
pub fn check_new_master_password(password: &str, confirmation: &str) -> (r: Result<(), CliError>)
    ensures
        r == spec_check_new_master_password(password@, confirmation@),
{
    if !same_text(password, confirmation) {
        Err(CliError::PasswordsDoNotMatch)
    } else if password.as_bytes().len() < MIN_MASTER_PASSWORD_LEN {
        Err(CliError::PasswordTooShort)
    } else {
        Ok(())
    }
}

/// What an answer to the password menu, without surrounding white space,
/// chooses.
pub open spec fn spec_choice_of(answer: Seq<char>) -> Result<PasswordChoice, CliError> {
    if answer == "1"@ {
        Ok(PasswordChoice::Generate)
    } else if answer == "2"@ {
        Ok(PasswordChoice::Custom)
    } else {
        Err(CliError::InvalidChoice)
    }
}

/// Reads an answer to the password menu that has no surrounding white
/// space: `1` generates a password, `2` asks for one.
pub fn choice_of(answer: &str) -> (r: Result<PasswordChoice, CliError>)
    ensures
        r == spec_choice_of(answer@),
{
    if same_text(answer, "1") {
        Ok(PasswordChoice::Generate)
    } else if same_text(answer, "2") {
        Ok(PasswordChoice::Custom)
    } else {
        Err(CliError::InvalidChoice)
    }
}

/// Reads a line typed in answer to the password menu.
pub fn parse_choice(line: &str) -> (r: Result<PasswordChoice, CliError>)
    ensures
        r == spec_choice_of(trimmed(line@)),
{
    choice_of(trim(line))
}

/// Whether an answer in lower case, without surrounding white space,
/// confirms a deletion.
pub fn is_yes(answer: &str) -> (yes: bool)
    ensures
        yes == (answer@ == "y"@),
{
    same_text(answer, "y")
}

/// Reads a line typed in answer to the question whether to delete: only
/// `y`, in either case, confirms.
pub fn parse_confirmation(line: &str) -> (yes: bool)
    ensures
        yes == (lowercased(trimmed(line@)) == "y"@),
{
    let lower = to_lowercase(trim(line));
    is_yes(lower.as_str())
}

/// The length of the password to generate: the one asked for, or
/// `DEFAULT_PASSWORD_LENGTH`.
pub fn requested_length(length: Option<usize>) -> (n: usize)
    ensures
        n == match length {
            Some(n) => n,
            None => DEFAULT_PASSWORD_LENGTH,
        },
{
    match length {
        Some(n) => n,
        None => DEFAULT_PASSWORD_LENGTH,
    }
}

/// What follows from the outcome of an authentication.
pub fn check_authenticated(initialized: bool, verified: bool) -> (r: Result<(), CliError>)
    ensures
        r == if !initialized {
            Err::<(), CliError>(CliError::NotInitialized)
        } else if !verified {
            Err::<(), CliError>(CliError::InvalidMasterPassword)
        } else {
            Ok::<(), CliError>(())
        },
{
    if !initialized {
        Err(CliError::NotInitialized)
    } else if !verified {
        Err(CliError::InvalidMasterPassword)
    } else {
        Ok(())
    }
}

} // verus!
