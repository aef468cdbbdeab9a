//! The errors that operations report.

use crate::text::{decimal, decimal_string};
use vstd::prelude::*;
use vstd::string::StringExecFns;

verus! {

/// Why the running game could not be told.
#[derive(Clone, Debug, PartialEq, Eq)]
pub enum GameDetectionError {
    NoMainModuleHandle,
    MissingPEResources,
    MissingPEVersionInfo,
    MissingPEStringsLanguage,
    MissingProductName,
    UnknownProductName(String),
    MissingTextSection,
}

/// Why an operation on the effect registry failed.
#[derive(Clone, Debug, PartialEq, Eq)]
pub enum FxrManagerError {
    CSSfxInstanceMissing,
    InvalidFxr,
    GameDetectionError(GameDetectionError),
    FxrNotFound(u32),
    UnsupportedOperation(String),
    UnsupportedGame,
    InstructionPattern(String),
}

/// The text of a detection error.
pub open spec fn detection_message(e: GameDetectionError) -> Seq<char> {
    match e {
        GameDetectionError::NoMainModuleHandle => "Failed acquiring the games module handle."@,
        GameDetectionError::MissingPEResources => "Failed acquiring PE resources."@,
        GameDetectionError::MissingPEVersionInfo => "Failed acquiring PE version info."@,
        GameDetectionError::MissingPEStringsLanguage => "Failed acquiring PE language for strings."@,
        GameDetectionError::MissingProductName => "Failed acquiring product name from PE header. Cannot determine what game we're running."@,
        GameDetectionError::UnknownProductName(name) => "Did not recognize game for product name "@
            + name@ + "."@,
        GameDetectionError::MissingTextSection => "Failed to find the .text section."@,
    }
}

/// The text of a registry error.
pub open spec fn manager_message(e: FxrManagerError) -> Seq<char> {
    match e {
        FxrManagerError::CSSfxInstanceMissing => "Could not locate CSSfx instance."@,
        FxrManagerError::InvalidFxr => "Failed parsing the supplier FXR. Can't read FXR ID."@,
        FxrManagerError::GameDetectionError(inner) => "Could not acquire game parameters: "@
            + detection_message(inner),
        FxrManagerError::FxrNotFound(id) => "Could not find FXR with ID "@ + decimal(id as nat)
            + "."@,
        FxrManagerError::UnsupportedOperation(text) => text@,
        FxrManagerError::UnsupportedGame => "Unsupported game."@,
        FxrManagerError::InstructionPattern(name) => "Could not match instruction pattern "@
            + name@ + "."@,
    }
}

impl GameDetectionError {
    /// The text of this error.
    pub fn message(&self) -> (s: String)
        ensures
            s@ == detection_message(*self),
    {
        match self {
            GameDetectionError::NoMainModuleHandle => String::from_str(
                "Failed acquiring the games module handle.",
            ),
            GameDetectionError::MissingPEResources => String::from_str(
                "Failed acquiring PE resources.",
            ),
            GameDetectionError::MissingPEVersionInfo => String::from_str(
                "Failed acquiring PE version info.",
            ),
            GameDetectionError::MissingPEStringsLanguage => String::from_str(
                "Failed acquiring PE language for strings.",
            ),
            GameDetectionError::MissingProductName => String::from_str(
                "Failed acquiring product name from PE header. Cannot determine what game we're running.",
            ),
            GameDetectionError::UnknownProductName(name) => String::from_str(
                "Did not recognize game for product name ",
            ).concat(name.as_str()).concat("."),
            GameDetectionError::MissingTextSection => String::from_str(
                "Failed to find the .text section.",
            ),
        }
    }
}

impl FxrManagerError {
    /// The text of this error.
    pub fn message(&self) -> (s: String)
        ensures
            s@ == manager_message(*self),
    {
        match self {
            FxrManagerError::CSSfxInstanceMissing => String::from_str(
                "Could not locate CSSfx instance.",
            ),
            FxrManagerError::InvalidFxr => String::from_str(
                "Failed parsing the supplier FXR. Can't read FXR ID.",
            ),
            FxrManagerError::GameDetectionError(inner) => {
                let tail = inner.message();
                String::from_str("Could not acquire game parameters: ").concat(tail.as_str())
            },
            FxrManagerError::FxrNotFound(id) => {
                let digits = decimal_string(*id);
                String::from_str("Could not find FXR with ID ").concat(digits.as_str()).concat(".")
            },
            FxrManagerError::UnsupportedOperation(text) => text.clone(),
            FxrManagerError::UnsupportedGame => String::from_str("Unsupported game."),
            FxrManagerError::InstructionPattern(name) => String::from_str(
                "Could not match instruction pattern ",
            ).concat(name.as_str()).concat("."),
        }
    }
}

} // verus!
