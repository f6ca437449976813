//! The check that every line of a file begins with the synchronisation code.

use crate::models::shared::{AppConstants, HeaderValidationResult, HeaderValidationView};
use crate::text::{decimal, int_text, starts_with, views};
use vstd::prelude::*;
use vstd::string::StringExecFns;

verus! {

/// The line is empty or begins with the synchronisation code.
pub open spec fn line_ok(line: Seq<char>) -> bool {
    line.len() == 0 || "E225"@.is_prefix_of(line)
}

/// The first line that is neither empty nor begins with the synchronisation
/// code.
pub open spec fn first_bad_line(lines: Seq<Seq<char>>) -> Option<int>
    decreases lines.len(),
{
    if lines.len() == 0 {
        None
    } else {
        match first_bad_line(lines.drop_last()) {
            Some(i) => Some(i),
            None => if line_ok(lines.last()) {
                None
            } else {
                Some(lines.len() - 1)
            },
        }
    }
}

/// The first line that is not empty.
pub open spec fn first_line(lines: Seq<Seq<char>>) -> Option<Seq<char>>
    decreases lines.len(),
{
    if lines.len() == 0 {
        None
    } else {
        match first_line(lines.drop_last()) {
            Some(line) => Some(line),
            None => if lines.last().len() == 0 {
                None
            } else {
                Some(lines.last())
            },
        }
    }
}

/// No file, or a file without lines.
pub open spec fn refused(message: Seq<char>) -> HeaderValidationView {
    HeaderValidationView {
        is_valid: false,
        error_message: Some(message),
        error_line: 0,
        error_content: None,
        first_header_content: None,
        filtered_file_path: None,
    }
}

/// The outcome for a file of which `lines` could be read, until the error
/// `read_error` or to the end.
pub open spec fn validation(
    lines: Seq<Seq<char>>,
    file_path: Seq<char>,
    read_error: Option<Seq<char>>,
) -> HeaderValidationView {
    match first_bad_line(lines) {
        Some(i) => HeaderValidationView {
            is_valid: false,
            error_message: Some("Header INCORRECT at line "@ + int_text(i + 1)),
            error_line: i + 1,
            error_content: Some(lines[i]),
            first_header_content: None,
            filtered_file_path: Some(file_path),
        },
        None => match read_error {
            Some(e) => HeaderValidationView {
                is_valid: false,
                error_message: Some("Error reading file: "@ + e),
                error_line: 0,
                error_content: None,
                first_header_content: None,
                filtered_file_path: Some(file_path),
            },
            None => if lines.len() == 0 {
                refused("File is empty."@)
            } else {
                HeaderValidationView {
                    is_valid: true,
                    error_message: None,
                    error_line: 0,
                    error_content: None,
                    first_header_content: first_line(lines),
                    filtered_file_path: None,
                }
            },
        },
    }
}

fn refuse(message: &str) -> (r: HeaderValidationResult)
    ensures
        r@ == refused(message@),
{
    HeaderValidationResult {
        is_valid: false,
        error_message: Some(String::from_str(message)),
        error_line: 0,
        error_content: None,
        first_header_content: None,
        filtered_file_path: None,
    }
}

/// The outcome for a file that does not exist.
pub fn file_not_found() -> (r: HeaderValidationResult)
    ensures
        r@ == refused("File not found."@),
{
    refuse("File not found.")
}

proof fn bad_line_stays(lines: Seq<Seq<char>>, k: int)
    requires
        0 <= k <= lines.len(),
        first_bad_line(lines.take(k)) is Some,
    ensures
        first_bad_line(lines) == first_bad_line(lines.take(k)),
    decreases lines.len(),
{
    if k == lines.len() {
        assert(lines.take(k) =~= lines);
    } else {
        assert(lines.drop_last().take(k) =~= lines.take(k));
        bad_line_stays(lines.drop_last(), k);
    }
}

/// Checks the lines of a file. `read_error` is the error that ended the
/// reading early, where there was one; an incorrect line before it counts
/// first.
pub fn validate_file(lines: &[String], file_path: &str, read_error: Option<String>) -> (r:
    HeaderValidationResult)
    requires
        lines@.len() <= i32::MAX,
    ensures
        r@ == validation(
            views(lines@),
            file_path@,
            crate::models::shared::option_text(read_error),
        ),
{
    let ghost all = views(lines@);
    let mut first_header: Option<String> = None;
    assert(all.take(0) =~= Seq::<Seq<char>>::empty());
    for i in 0..lines.len()
        invariant
            all == views(lines@),
            lines@.len() <= i32::MAX,
            first_bad_line(all.take(i as int)) is None,
            crate::models::shared::option_text(first_header) == first_line(all.take(i as int)),
    {
        let line = lines[i].as_str();
        proof {
            assert(all.take(i + 1).drop_last() =~= all.take(i as int));
            assert(all.take(i + 1).last() == line@);
        }
        if line.unicode_len() > 0 {
            if !starts_with(line, AppConstants::HEADER_START) {
                proof {
                    bad_line_stays(all, i + 1);
                }
                let mut message = String::from_str("Header INCORRECT at line ");
                message.append(decimal(i as i64 + 1).as_str());
                return HeaderValidationResult {
                    is_valid: false,
                    error_message: Some(message),
                    error_line: i as i32 + 1,
                    error_content: Some(lines[i].clone()),
                    first_header_content: None,
                    filtered_file_path: Some(String::from_str(file_path)),
                };
            }
            if first_header.is_none() {
                first_header = Some(lines[i].clone());
            }
        }
    }
    assert(all.take(all.len() as int) =~= all);
    match read_error {
        Some(e) => {
            let mut message = String::from_str("Error reading file: ");
            message.append(e.as_str());
            HeaderValidationResult {
                is_valid: false,
                error_message: Some(message),
                error_line: 0,
                error_content: None,
                first_header_content: None,
                filtered_file_path: Some(String::from_str(file_path)),
            }
        },
        None => {
            if lines.len() == 0 {
                return refuse("File is empty.");
            }
            HeaderValidationResult {
                is_valid: true,
                error_message: None,
                error_line: 0,
                error_content: None,
                first_header_content: first_header,
                filtered_file_path: None,
            }
        },
    }
}

/// A file that was read to its end is valid exactly where it has a line and
/// every line is empty or begins with the synchronisation code.
pub proof fn valid_means_every_line(lines: Seq<Seq<char>>, file_path: Seq<char>)
    ensures
        validation(lines, file_path, None).is_valid == (lines.len() > 0 && (forall|i: int|
            0 <= i < lines.len() ==> line_ok(#[trigger] lines[i]))),
{
    bad_line_found(lines);
}

proof fn bad_line_found(lines: Seq<Seq<char>>)
    ensures
        match first_bad_line(lines) {
            Some(i) => 0 <= i < lines.len() && !line_ok(lines[i]) && (forall|j: int|
                0 <= j < i ==> line_ok(#[trigger] lines[j])),
            None => forall|j: int| 0 <= j < lines.len() ==> line_ok(#[trigger] lines[j]),
        },
    decreases lines.len(),
{
    if lines.len() > 0 {
        bad_line_found(lines.drop_last());
        assert forall|j: int| 0 <= j < lines.len() - 1 implies #[trigger] lines[j]
            == lines.drop_last()[j] by {}
    }
}

} // verus!
