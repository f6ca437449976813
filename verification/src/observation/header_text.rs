//! A first look at a recording, as text.

use crate::clock::{format_start_time, start_time};
use crate::line::{get_date_time_from_hex_data, pairs_of, split_hex_data, time_of};
use crate::lines::{byte_len, cut_at, cut_chars, cuts_at, lines_of, split_lines, utf8_len};
use crate::observation::data_processor::ObservationDataProcessor;
use crate::text::{chars_of, decimal, int_text, natural, text_of, views};
use vstd::prelude::*;
use vstd::string::StringExecFns;

verus! {

/// The line about the start time. It is there where the header line is long
/// enough to hold a timecode.
pub open spec fn start_line(header: Seq<char>) -> Seq<char> {
    if utf8_len(header) < 28 {
        Seq::empty()
    } else {
        match time_of(pairs_of(header)) {
            Ok(t) => "Start Time: "@ + start_time(t) + "\n"@,
            Err(_) => "Start Time: Unable to parse\n"@,
        }
    }
}

/// The beginning of the header line, of at most 100 bytes.
pub open spec fn raw_header(header: Seq<char>) -> Seq<char> {
    if utf8_len(header) > 100 {
        cut_at(header, 100) + "..."@
    } else {
        header
    }
}

/// The report on a recording.
pub open spec fn header_report(file_name: Seq<char>, content: Seq<char>) -> Seq<char> {
    let lines = lines_of(content);
    if lines.len() == 0 {
        "Empty file"@
    } else {
        "File: "@ + file_name + "\n"@ + "Header Length: "@ + int_text(utf8_len(lines[0]))
            + " characters\n"@ + "Total Lines: "@ + int_text(lines.len() as int) + "\n"@
            + start_line(lines[0]) + "\nRaw Header (first 100 chars):\n"@ + raw_header(lines[0])
            + "\n"@
    }
}

impl ObservationDataProcessor {
    /// Reports on a recording: its name, the length of its header line, the
    /// number of its lines, its start time and the beginning of the header
    /// line.
    pub fn read_header(file_name: &str, content: &str) -> (r: String)
        requires
            lines_of(content@).len() > 0 ==> utf8_len(lines_of(content@)[0]) <= i64::MAX,
            lines_of(content@).len() > 0 && utf8_len(lines_of(content@)[0]) > 100 ==> cuts_at(
                lines_of(content@)[0],
                100,
            ),
        ensures
            r@ == header_report(file_name@, content@),
    {
        let lines = split_lines(content);
        if lines.len() == 0 {
            return String::from_str("Empty file");
        }
        assert(views(lines@)[0] == lines@[0]@);
        let header_line = lines[0].as_str();
        let chars = chars_of(header_line);
        let length: i64 = byte_len(chars.as_slice());
        let mut out = String::from_str("File: ");
        out.append(file_name);
        out.append("\n");
        out.append("Header Length: ");
        out.append(decimal(length).as_str());
        out.append(" characters\n");
        out.append("Total Lines: ");
        out.append(natural(lines.len() as u64).as_str());
        out.append("\n");
        let ghost before = out@;
        if length >= 28 {
            let hex_data = split_hex_data(header_line);
            match get_date_time_from_hex_data(hex_data.as_slice()) {
                Ok(t) => {
                    proof {
                        crate::line::time_bounds(views(hex_data@));
                    }
                    out.append("Start Time: ");
                    out.append(format_start_time(t).as_str());
                    out.append("\n");
                },
                Err(_) => {
                    out.append("Start Time: Unable to parse\n");
                },
            }
        }
        assert(out@ == before + start_line(header_line@));
        out.append("\nRaw Header (first 100 chars):\n");
        let ghost before = out@;
        if length > 100 {
            let n: usize = cut_chars(chars.as_slice(), 100);
            assert(chars@.subrange(0, n as int) == chars@.take(n as int));
            out.append(text_of(&chars.as_slice()[0..n]).as_str());
            out.append("...");
        } else {
            out.append(header_line);
        }
        assert(out@ == before + raw_header(header_line@));
        out.append("\n");
        out
    }
}

} // verus!
