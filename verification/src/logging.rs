//! The client's log file: where it is, when it is rotated, and how an
//! entry is written.

use vstd::prelude::*;
use crate::config::{file_in, joined_path, local_data_dir, no_dirs_message};
use crate::error::{ClientError, ClientErrorView};
use crate::text::{concat, decimal, decimal_chars, digit_char, string_of};

verus! {

/// The size at which the log is moved aside and a new one begun.
pub const MAX_LOG_BYTES: u64 = 1_048_576;

/// The log file of the client.
pub struct FileLogger {
    path: std::path::PathBuf,
}

/// What `Path::with_extension` gives for a path and an extension.
pub uninterp spec fn extended_path(path: std::path::PathBuf, extension: Seq<char>) -> std::path::PathBuf;

/// The path with its extension replaced (`Path::with_extension`). Trusted:
/// the result is `extended_path` of the path and the extension; how the
/// extension is replaced is left to the standard library, which panics on
/// an extension holding a path separator, so none may.
#[verifier::external_body]
fn with_extension(path: &std::path::PathBuf, extension: &str) -> (r: std::path::PathBuf)
    requires
        !extension@.contains('/'),
        !extension@.contains('\\'),
    ensures
        r == extended_path(*path, extension@),
{
    path.with_extension(extension)
}

impl FileLogger {
    /// The log file, as a value.
    pub closed spec fn log_file(&self) -> std::path::PathBuf {
        self.path
    }

    /// The directory the log is kept in: `logs` in the local data
    /// directory, when the user's directories can be found.
    pub fn log_directory() -> (r: Result<std::path::PathBuf, ClientError>)
        ensures
            r matches Err(e) ==> e@ == ClientErrorView::Config(no_dirs_message()),
            r matches Ok(p) ==> exists|d: std::path::PathBuf| p == joined_path(d, "logs"@),
    {
        let base = local_data_dir()?;
        let p = file_in(&base, "logs");
        assert(p == joined_path(base, "logs"@));
        Ok(p)
    }

    /// The logger of `gui.log` in `directory` (which the caller creates).
    pub fn in_directory(directory: &std::path::PathBuf) -> (r: FileLogger)
        ensures
            r.log_file() == joined_path(*directory, "gui.log"@),
    {
        FileLogger { path: file_in(directory, "gui.log") }
    }

    /// The log file.
    pub fn path(&self) -> (r: &std::path::PathBuf)
        ensures
            *r == self.log_file(),
    {
        &self.path
    }

    /// Where the log is moved when it is rotated: `gui.log.old`.
    pub fn rotated_path(&self) -> (r: std::path::PathBuf)
        ensures
            r == extended_path(self.log_file(), "log.old"@),
    {
        proof {
            reveal_strlit("log.old");
        }
        with_extension(&self.path, "log.old")
    }
}

/// Whether a log of `size` bytes is rotated before the next entry.
pub fn needs_rotation(size: u64) -> (r: bool)
    ensures
        r == (size >= MAX_LOG_BYTES),
{
    size >= MAX_LOG_BYTES
}

/// A message with each carriage return and line feed made a space.
pub open spec fn sanitized(m: Seq<char>) -> Seq<char> {
    m.map_values(|c: char| if c == '\r' || c == '\n' {
        ' '
    } else {
        c
    })
}

/// A log entry: the time in seconds, the level in brackets, the message
/// on one line, and a line feed.
pub open spec fn log_entry(seconds: nat, level: Seq<char>, message: Seq<char>) -> Seq<char> {
    decimal(seconds) + " ["@ + level + "] "@ + sanitized(message) + "\n"@
}

/// A message with each carriage return and line feed made a space.
pub fn sanitize(message: &str) -> (r: String)
    ensures
        r@ == sanitized(message@),
{
    let v = crate::text::chars_of(message);
    let mut out: Vec<char> = Vec::new();
    let mut i: usize = 0;
    while i < v.len()
        invariant
            i <= v.len(),
            v@ == message@,
            out@ == sanitized(v@.take(i as int)),
        decreases v.len() - i,
    {
        let c = v[i];
        if c == '\r' || c == '\n' {
            out.push(' ');
        } else {
            out.push(c);
        }
        assert(sanitized(v@.take(i + 1)) =~= sanitized(v@.take(i as int)).push(out@[i as int]));
        i = i + 1;
    }
    assert(v@.take(v.len() as int) =~= v@);
    string_of(out.as_slice())
}

/// The entry written for a message.
pub fn log_line(seconds: u64, level: &str, message: &str) -> (r: String)
    ensures
        r@ == log_entry(seconds as nat, level@, message@),
{
    let digits = decimal_chars(seconds);
    let mut r = string_of(digits.as_slice());
    r = concat(r.as_str(), " [");
    r = concat(r.as_str(), level);
    r = concat(r.as_str(), "] ");
    let s = sanitize(message);
    r = concat(r.as_str(), s.as_str());
    concat(r.as_str(), "\n")
}

proof fn lemma_decimal_has_no_newline(n: nat)
    ensures
        !decimal(n).contains('\n'),
    decreases n,
{
    if n >= 10 {
        lemma_decimal_has_no_newline(n / 10);
        let d = decimal(n / 10);
        let e = d.push(digit_char(n % 10));
        assert forall|i: int| 0 <= i < e.len() implies #[trigger] e[i] != '\n' by {
            if i < d.len() {
                assert(e[i] == d[i]);
            }
        }
    } else {
        assert(seq![digit_char(n)][0] == digit_char(n));
    }
}

/// An entry is one line: its only line feed is the last character, when
/// the level has none.
pub proof fn law_entry_is_one_line(seconds: nat, level: Seq<char>, message: Seq<char>)
    requires
        !level.contains('\n'),
    ensures
        log_entry(seconds, level, message).last() == '\n',
        forall|i: int|
            0 <= i < log_entry(seconds, level, message).len() - 1 ==> #[trigger] log_entry(
                seconds,
                level,
                message,
            )[i] != '\n',
{
    lemma_decimal_has_no_newline(seconds);
    reveal_strlit(" [");
    reveal_strlit("] ");
    reveal_strlit("\n");
    let d = decimal(seconds);
    let a = " ["@;
    let m = sanitized(message);
    let b = "] "@;
    let e = log_entry(seconds, level, message);
    assert forall|i: int| 0 <= i < e.len() - 1 implies #[trigger] e[i] != '\n' by {
        if i < d.len() {
            assert(e[i] == d[i]);
        } else if i < d.len() + 2 {
            assert(e[i] == a[i - d.len()]);
        } else if i < d.len() + 2 + level.len() {
            assert(e[i] == level[i - d.len() - 2]);
        } else if i < d.len() + 4 + level.len() {
            assert(e[i] == b[i - d.len() - 2 - level.len()]);
        } else {
            let k = i - d.len() - 4 - level.len();
            assert(e[i] == m[k]);
            assert(m[k] == (if message[k] == '\r' || message[k] == '\n' {
                ' '
            } else {
                message[k]
            }));
        }
    }
}

} // verus!
