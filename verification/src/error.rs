//! The error taxonomy of a run.  Every failure originates at the I/O edge or
//! in argument handling; each variant carries what the user-facing message
//! needs, and `message` renders that text.

use vstd::prelude::*;

verus! {

/// Why a run stopped.
#[derive(Debug)]
pub enum RepError {
    /// The command line lacked a pattern or files, or was otherwise unusable.
    InvalidArguments(String),
    /// A named file (no wildcard in its pattern) does not exist.
    FileNotFound(String),
    /// A file pattern was not a valid glob expression.
    GlobPatternError(String),
    /// Reading a file failed.
    IoError(String),
    /// Every file pattern expanded to zero paths.
    NoFilesMatched,
    /// Usage text was asked for explicitly.
    Help(String),
}

/// The user-facing message for each error.
pub open spec fn spec_message(e: RepError) -> Seq<char> {
    match e {
        RepError::InvalidArguments(msg) => "\u{274c} Invalid command: "@ + msg@
            + "\n\n\u{1f4a1} Tip: Make sure you provide both a search pattern and at least one file.\n   Example: rep \"search text\" file.txt"@,
        RepError::FileNotFound(path) => "\u{274c} Cannot find file: '"@ + path@
            + "'\n\n\u{1f4a1} Tips:\n   \u{2022} Check if the file path is correct\n   \u{2022} Make sure you have read permissions\n   \u{2022} Try using the full path to the file"@,
        RepError::GlobPatternError(pattern) => "\u{274c} Invalid file pattern: "@ + pattern@
            + "\n\n\u{1f4a1} Tips for glob patterns:\n   \u{2022} Use *.txt to match all .txt files\n   \u{2022} Use **/*.rs to match .rs files in all subdirectories\n   \u{2022} Escape special characters with backslash"@,
        RepError::IoError(msg) => "\u{274c} File operation failed: "@ + msg@
            + "\n\n\u{1f4a1} Common causes:\n   \u{2022} Insufficient permissions\n   \u{2022} File is locked by another process\n   \u{2022} Disk space or quota issues"@,
        RepError::NoFilesMatched => "\u{274c} No files found matching your pattern\n\n\u{1f4a1} Tips:\n   \u{2022} Check if files exist in the current directory\n   \u{2022} Try a broader pattern (e.g., *.txt instead of specific names)\n   \u{2022} Use 'ls' to see available files"@,
        RepError::Help(usage) => usage@,
    }
}

impl RepError {
    /// Renders the message `spec_message` describes.
    pub fn message(&self) -> (r: String)
        ensures
            r@ == spec_message(*self),
    {
        match self {
            RepError::InvalidArguments(msg) => {
                let mut s = String::from_str("\u{274c} Invalid command: ");
                s.append(msg.as_str());
                s.append(
                    "\n\n\u{1f4a1} Tip: Make sure you provide both a search pattern and at least one file.\n   Example: rep \"search text\" file.txt",
                );
                s
            },
            RepError::FileNotFound(path) => {
                let mut s = String::from_str("\u{274c} Cannot find file: '");
                s.append(path.as_str());
                s.append(
                    "'\n\n\u{1f4a1} Tips:\n   \u{2022} Check if the file path is correct\n   \u{2022} Make sure you have read permissions\n   \u{2022} Try using the full path to the file",
                );
                s
            },
            RepError::GlobPatternError(pattern) => {
                let mut s = String::from_str("\u{274c} Invalid file pattern: ");
                s.append(pattern.as_str());
                s.append(
                    "\n\n\u{1f4a1} Tips for glob patterns:\n   \u{2022} Use *.txt to match all .txt files\n   \u{2022} Use **/*.rs to match .rs files in all subdirectories\n   \u{2022} Escape special characters with backslash",
                );
                s
            },
            RepError::IoError(msg) => {
                let mut s = String::from_str("\u{274c} File operation failed: ");
                s.append(msg.as_str());
                s.append(
                    "\n\n\u{1f4a1} Common causes:\n   \u{2022} Insufficient permissions\n   \u{2022} File is locked by another process\n   \u{2022} Disk space or quota issues",
                );
                s
            },
            RepError::NoFilesMatched => {
                String::from_str(
                    "\u{274c} No files found matching your pattern\n\n\u{1f4a1} Tips:\n   \u{2022} Check if files exist in the current directory\n   \u{2022} Try a broader pattern (e.g., *.txt instead of specific names)\n   \u{2022} Use 'ls' to see available files",
                )
            },
            RepError::Help(usage) => String::from_str(usage.as_str()),
        }
    }
}

} // verus!
