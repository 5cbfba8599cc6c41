//! Platform and distribution checks: only Linux is supported, and the
//! distribution identifier is read from the ID key of an os-release
//! text, the last occurrence winning as for every key of that file.

use vstd::prelude::*;
use vstd::string::StrSliceExecFns;

use crate::text::{has_prefix, lines_spec, split_lines, starts_with, str_eq, unquote, unquote_spec};

verus! {

/// What can go wrong while checking the platform.
#[derive(Debug, PartialEq, Eq, Structural)]
pub enum PlatformError {
    PlatformInfoParsingError,
}

/// What can go wrong while detecting the distribution.
#[derive(Debug, PartialEq, Eq, Structural)]
pub enum DistroError {
    CommandExecutionError,
    DistributionInfoParsingError,
    DistributionNameNotFound,
}

/// How reading the identification file went: it could not be opened, it
/// opened but its lines could not be read, or its content is at hand.
#[derive(Debug, PartialEq, Eq, Structural, Clone, Copy)]
pub enum ReadOutcome {
    OpenFailed,
    ReadFailed,
    Read,
}

/// Map the kernel's platform label to the supported platform's display
/// name; every platform but Linux is rejected.
pub fn get_platform(os_type: &str) -> (r: Result<String, PlatformError>)
    ensures
        os_type@ == "linux"@ ==> (r matches Ok(p) && p@ == "Linux"@),
        os_type@ != "linux"@ ==> r == Err::<String, PlatformError>(
            PlatformError::PlatformInfoParsingError,
        ),
{
    if str_eq(os_type, "linux") {
        Ok("Linux".to_owned())
    } else {
        Err(PlatformError::PlatformInfoParsingError)
    }
}

/// The value that a sequence of os-release lines leaves behind for the
/// ID key: each matching line overwrites the value found so far, so the
/// last occurrence wins; `None` when no line carries the key.
pub open spec fn distro_scan(lines: Seq<Seq<char>>) -> Option<Seq<char>>
    decreases lines.len(),
{
    if lines.len() == 0 {
        None
    } else if has_prefix(lines.last(), "ID="@) {
        Some(unquote_spec(lines.last().skip(3)))
    } else {
        distro_scan(lines.drop_last())
    }
}

/// Read the distribution identifier out of the identification file:
/// a file that could not be opened is a command-execution failure, one
/// whose lines could not be read is a parsing failure, and in a read
/// text the last ID line's unquoted value wins; a text without one is
/// rejected as not naming the distribution.
pub fn get_linux_distribution(read: &ReadOutcome, text: &str) -> (r: Result<String, DistroError>)
    ensures
        *read is OpenFailed ==> r == Err::<String, DistroError>(DistroError::CommandExecutionError),
        *read is ReadFailed ==> r == Err::<String, DistroError>(
            DistroError::DistributionInfoParsingError,
        ),
        *read is Read ==> (distro_scan(lines_spec(text@)) matches Some(id) ==> (r matches Ok(out)
            && out@ == id)),
        *read is Read && distro_scan(lines_spec(text@)) is None ==> r == Err::<String, DistroError>(
            DistroError::DistributionNameNotFound,
        ),
{
    match read {
        ReadOutcome::OpenFailed => {
            return Err(DistroError::CommandExecutionError);
        },
        ReadOutcome::ReadFailed => {
            return Err(DistroError::DistributionInfoParsingError);
        },
        ReadOutcome::Read => {},
    }
    let lines = split_lines(text);
    let mut found: Option<String> = None;
    let mut i: usize = 0;
    proof {
        assert(lines_spec(text@).take(0) =~= Seq::<Seq<char>>::empty());
    }
    while i < lines.len()
        invariant
            lines.deep_view() == lines_spec(text@),
            i <= lines.len(),
            found matches Some(v) ==> distro_scan(lines_spec(text@).take(i as int)) == Some(v@),
            found is None ==> distro_scan(lines_spec(text@).take(i as int)) is None,
        decreases lines.len() - i,
    {
        let line = lines[i].as_str();
        proof {
            assert(line@ == lines_spec(text@)[i as int]);
        }
        if starts_with(line, "ID=") {
            proof {
                reveal_strlit("ID=");
            }
            let n = line.unicode_len();
            let id = unquote(line.substring_char(3, n));
            proof {
                assert(line@.subrange(3, n as int) =~= line@.skip(3));
            }
            found = Some(id);
        }
        proof {
            let all = lines_spec(text@);
            assert(all.take(i + 1).drop_last() =~= all.take(i as int));
            assert(all.take(i + 1).last() == all[i as int]);
        }
        i += 1;
    }
    proof {
        assert(lines_spec(text@).take(lines.deep_view().len() as int) =~= lines_spec(text@));
    }
    match found {
        Some(id) => Ok(id),
        None => Err(DistroError::DistributionNameNotFound),
    }
}

} // verus!
