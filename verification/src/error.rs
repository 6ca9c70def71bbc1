//! The errors of texe's library entry points, with the category and the
//! next step that the command line shows for each.
use vstd::prelude::*;
use crate::diagnostics::Diagnostic;
use crate::numbers::{decimal, push_decimal};
use crate::text::{chars_of, contains, contains_str};

verus! {

/// Error returned by texe's public library entry points. Errors that come
/// from the operating system or a parser carry that error's message.
#[derive(Debug)]
pub enum TexeError {
    /// Invalid command-line input or unsupported requested behavior.
    Usage(String),
    /// A filesystem operation failed at a known path.
    Io { path: String, message: String },
    /// A TOML file could not be parsed.
    Toml { path: String, message: String },
    /// A JSON file could not be parsed.
    Json { path: String, message: String },
    /// The project manifest is invalid or missing.
    Manifest(String),
    /// Interactive project setup could not finish.
    Prompt(String),
    /// A required external executable was not found.
    ToolNotFound(String),
    /// An external process could not be started.
    Spawn { tool: String, message: String },
    /// A download or other network operation failed.
    Network { message: String },
    /// An external process returned an unsuccessful status.
    Process { tool: String, status: Option<i32>, stderr: String },
    /// Managed toolchain provisioning or validation failed.
    Toolchain(String),
    /// The document build failed.
    Build(String),
    /// A structured diagnostic already suitable for user-facing rendering.
    Diagnostic(Box<Diagnostic>),
}

/// How the command line groups an error for its exit status and heading.
#[derive(Debug, Clone, Copy, PartialEq, Eq, Structural)]
pub enum ErrorCategory {
    Usage,
    Project,
    Build,
    Network,
    Tool,
    System,
    Cancelled,
}

pub open spec fn category_of(e: &TexeError) -> ErrorCategory {
    match e {
        TexeError::Manifest(_) | TexeError::Toml { .. } | TexeError::Json { .. } => ErrorCategory::Project,
        TexeError::Prompt(m) => if m@ == "cancelled"@ {
            ErrorCategory::Cancelled
        } else {
            ErrorCategory::Usage
        },
        TexeError::Usage(_) => ErrorCategory::Usage,
        TexeError::Network { .. } => ErrorCategory::Network,
        TexeError::ToolNotFound(_) | TexeError::Toolchain(_) => ErrorCategory::Tool,
        TexeError::Build(_) | TexeError::Process { .. } | TexeError::Diagnostic(_) => ErrorCategory::Build,
        TexeError::Io { .. } | TexeError::Spawn { .. } => ErrorCategory::System,
    }
}

pub open spec fn action_of(e: &TexeError) -> Option<Seq<char>> {
    match e {
        TexeError::Usage(_) => Some("correct the command using `texe --help`, then try again"@),
        TexeError::Manifest(m) => if contains(m@, "could not find texe.toml"@) {
            Some("run `texe` to create a paper, or `texe init` in an existing LaTeX folder"@)
        } else {
            Some("fix the named project setting, then run the command again"@)
        },
        TexeError::Toml { .. } => Some("fix the named project setting, then run the command again"@),
        TexeError::Prompt(m) => if m@ == "cancelled"@ {
            Some("nothing was changed; run `texe` again when you are ready"@)
        } else {
            Some("run the command again, or pass explicit flags"@)
        },
        TexeError::ToolNotFound(_) => Some(
            "reinstall the complete texe command suite so texe, pqty, and pqty-fls are together"@,
        ),
        TexeError::Network { .. } => Some(
            "check the connection and retry, or use `texe build --offline` with a populated cache"@,
        ),
        TexeError::Toolchain(_) => Some("run `texe doctor --verbose` for the failing tool and path"@),
        TexeError::Build(_) | TexeError::Process { .. } => Some(
            "fix the first source error shown above, then build again; use `--verbose` for the full engine detail"@,
        ),
        TexeError::Diagnostic(_) => None,
        TexeError::Io { .. } | TexeError::Json { .. } | TexeError::Spawn { .. } => Some(
            "check the named path and permissions, then try again"@,
        ),
    }
}

/// `{:?}` of an exit status.
pub open spec fn status_text(status: Option<i32>) -> Seq<char> {
    match status {
        None => "None"@,
        Some(code) => "Some("@ + (if code < 0 {
            "-"@ + decimal((-code) as nat)
        } else {
            decimal(code as nat)
        }) + ")"@,
    }
}

pub open spec fn message_of(e: &TexeError) -> Seq<char> {
    match e {
        TexeError::Usage(m) => m@,
        TexeError::Io { path, message } => "I/O error at "@ + path@ + ": "@ + message@,
        TexeError::Toml { path, message } => "invalid TOML at "@ + path@ + ": "@ + message@,
        TexeError::Json { path, message } => "invalid JSON at "@ + path@ + ": "@ + message@,
        TexeError::Manifest(m) => "invalid project manifest: "@ + m@,
        TexeError::Prompt(m) => "interactive setup failed: "@ + m@,
        TexeError::ToolNotFound(m) => "required tool is not available: "@ + m@,
        TexeError::Spawn { tool, message } => "could not start "@ + tool@ + ": "@ + message@,
        TexeError::Network { message } => message@,
        TexeError::Process { tool, status, stderr } => tool@ + " failed with status "@ + status_text(
            *status,
        ) + (if stderr@.len() == 0 {
            Seq::empty()
        } else {
            ": "@ + stderr@
        }),
        TexeError::Toolchain(m) => "toolchain error: "@ + m@,
        TexeError::Build(m) => "build error: "@ + m@,
        TexeError::Diagnostic(d) => crate::diagnostics::human_text(**d, true),
    }
}

impl TexeError {
    pub fn category(&self) -> (r: ErrorCategory)
        ensures
            r == category_of(self),
    {
        match self {
            TexeError::Manifest(_) | TexeError::Toml { .. } | TexeError::Json { .. } => ErrorCategory::Project,
            TexeError::Prompt(m) => if crate::text::eq_str(&chars_of(m.as_str()), "cancelled") {
                ErrorCategory::Cancelled
            } else {
                ErrorCategory::Usage
            },
            TexeError::Usage(_) => ErrorCategory::Usage,
            TexeError::Network { .. } => ErrorCategory::Network,
            TexeError::ToolNotFound(_) | TexeError::Toolchain(_) => ErrorCategory::Tool,
            TexeError::Build(_) | TexeError::Process { .. } | TexeError::Diagnostic(_) => ErrorCategory::Build,
            TexeError::Io { .. } | TexeError::Spawn { .. } => ErrorCategory::System,
        }
    }

    /// The next step that the command line suggests for this error.
    pub fn action(&self) -> (r: Option<&'static str>)
        ensures
            match r {
                Some(a) => action_of(self) == Some(a@),
                None => action_of(self) is None,
            },
    {
        match self {
            TexeError::Usage(_) => Some("correct the command using `texe --help`, then try again"),
            TexeError::Manifest(m) => if contains_str(&chars_of(m.as_str()), "could not find texe.toml") {
                Some("run `texe` to create a paper, or `texe init` in an existing LaTeX folder")
            } else {
                Some("fix the named project setting, then run the command again")
            },
            TexeError::Toml { .. } => Some("fix the named project setting, then run the command again"),
            TexeError::Prompt(m) => if self.category() == ErrorCategory::Cancelled {
                Some("nothing was changed; run `texe` again when you are ready")
            } else {
                Some("run the command again, or pass explicit flags")
            },
            TexeError::ToolNotFound(_) => Some(
                "reinstall the complete texe command suite so texe, pqty, and pqty-fls are together",
            ),
            TexeError::Network { .. } => Some(
                "check the connection and retry, or use `texe build --offline` with a populated cache",
            ),
            TexeError::Toolchain(_) => Some("run `texe doctor --verbose` for the failing tool and path"),
            TexeError::Build(_) | TexeError::Process { .. } => Some(
                "fix the first source error shown above, then build again; use `--verbose` for the full engine detail",
            ),
            TexeError::Diagnostic(_) => None,
            TexeError::Io { .. } | TexeError::Json { .. } | TexeError::Spawn { .. } => Some(
                "check the named path and permissions, then try again",
            ),
        }
    }

    /// The error as the command line prints it.
    pub fn message(&self) -> (r: String)
        ensures
            r@ == message_of(self),
    {
        match self {
            TexeError::Usage(m) => m.clone(),
            TexeError::Io { path, message } => {
                let mut r = String::from_str("I/O error at ");
                r.append(path.as_str());
                r.append(": ");
                r.append(message.as_str());
                r
            },
            TexeError::Toml { path, message } => {
                let mut r = String::from_str("invalid TOML at ");
                r.append(path.as_str());
                r.append(": ");
                r.append(message.as_str());
                r
            },
            TexeError::Json { path, message } => {
                let mut r = String::from_str("invalid JSON at ");
                r.append(path.as_str());
                r.append(": ");
                r.append(message.as_str());
                r
            },
            TexeError::Manifest(m) => {
                let mut r = String::from_str("invalid project manifest: ");
                r.append(m.as_str());
                r
            },
            TexeError::Prompt(m) => {
                let mut r = String::from_str("interactive setup failed: ");
                r.append(m.as_str());
                r
            },
            TexeError::ToolNotFound(m) => {
                let mut r = String::from_str("required tool is not available: ");
                r.append(m.as_str());
                r
            },
            TexeError::Spawn { tool, message } => {
                let mut r = String::from_str("could not start ");
                r.append(tool.as_str());
                r.append(": ");
                r.append(message.as_str());
                r
            },
            TexeError::Network { message } => message.clone(),
            TexeError::Process { tool, status, stderr } => {
                let mut r = tool.clone();
                r.append(" failed with status ");
                match status {
                    None => r.append("None"),
                    Some(code) => {
                        r.append("Some(");
                        if *code < 0 {
                            r.append("-");
                            let magnitude: u64 = (-(*code as i64)) as u64;
                            push_decimal(&mut r, magnitude);
                        } else {
                            push_decimal(&mut r, *code as u64);
                        }
                        r.append(")");
                    },
                }
                if stderr.as_str().unicode_len() > 0 {
                    r.append(": ");
                    r.append(stderr.as_str());
                }
                r
            },
            TexeError::Toolchain(m) => {
                let mut r = String::from_str("toolchain error: ");
                r.append(m.as_str());
                r
            },
            TexeError::Build(m) => {
                let mut r = String::from_str("build error: ");
                r.append(m.as_str());
                r
            },
            TexeError::Diagnostic(d) => d.render_human(true),
        }
    }
}

} // verus!
