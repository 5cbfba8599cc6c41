//! Identity probing: the full-name field of an account record and the
//! NAME/VERSION keys of an os-release text.

use vstd::prelude::*;
use vstd::string::StrSliceExecFns;
use vstd::string::StringExecFns;

use crate::command::CmdOutcome;
use crate::text::{
    has_prefix, lines_spec, split_char, split_char_spec, split_lines, starts_with, trim,
    trim_spec, unquote, unquote_spec,
};

verus! {

/// What can go wrong while resolving the user's full name.
#[derive(Debug, PartialEq, Eq, Structural)]
pub enum NameError {
    CommandExecutionError,
    UserInfoParsingError,
}

/// What can go wrong while resolving the operating-system identity.
#[derive(Debug, PartialEq, Eq, Structural)]
pub enum OSError {
    CommandExecutionError,
    OsInfoParsingError,
}

/// The colon-delimited fields of an account record.
pub open spec fn account_fields(record: Seq<char>) -> Seq<Seq<char>> {
    split_char_spec(record, ':')
}

/// Resolve the user's full name. A login-name or account-record lookup
/// that could not be spawned or exited non-zero is a command-execution
/// failure; out of a retrieved record the descriptive full-name entry
/// is the fifth colon-delimited field, trimmed of surrounding
/// whitespace, and a record with fewer than five fields is rejected.
pub fn get_users_full_name(whoami: &CmdOutcome, getent: &CmdOutcome, record: &str) -> (r: Result<
    String,
    NameError,
>)
    ensures
        *whoami != CmdOutcome::Exited(true) || *getent != CmdOutcome::Exited(true) ==> r
            == Err::<String, NameError>(NameError::CommandExecutionError),
        *whoami == CmdOutcome::Exited(true) && *getent == CmdOutcome::Exited(true)
            && account_fields(record@).len() >= 5 ==> (r matches Ok(name) && name@ == trim_spec(
            account_fields(record@)[4],
        )),
        *whoami == CmdOutcome::Exited(true) && *getent == CmdOutcome::Exited(true)
            && account_fields(record@).len() < 5 ==> r == Err::<String, NameError>(
            NameError::UserInfoParsingError,
        ),
{
    match whoami {
        CmdOutcome::Exited(true) => {},
        _ => {
            return Err(NameError::CommandExecutionError);
        },
    }
    match getent {
        CmdOutcome::Exited(true) => {},
        _ => {
            return Err(NameError::CommandExecutionError);
        },
    }
    let fields = split_char(record, ':');
    if fields.len() >= 5 {
        let name = trim(fields[4].as_str());
        Ok(name)
    } else {
        Err(NameError::UserInfoParsingError)
    }
}

/// The NAME and VERSION values that a sequence of os-release lines leaves
/// behind: each matching line overwrites the value found so far, so the
/// last occurrence of a key wins; a value keeps everything after the key
/// except one layer of surrounding double quotes.
pub open spec fn os_scan(lines: Seq<Seq<char>>) -> (Seq<char>, Seq<char>)
    decreases lines.len(),
{
    if lines.len() == 0 {
        (Seq::<char>::empty(), Seq::<char>::empty())
    } else {
        let prev = os_scan(lines.drop_last());
        let l = lines.last();
        if has_prefix(l, "NAME="@) {
            (unquote_spec(l.skip(5)), prev.1)
        } else if has_prefix(l, "VERSION="@) {
            (prev.0, unquote_spec(l.skip(8)))
        } else {
            prev
        }
    }
}

/// Read the operating system's name and version out of an os-release
/// text and pair them as one space-separated label. A retrieval
/// command that could not be spawned or exited non-zero is a
/// command-execution failure; in a retrieved text, either key absent
/// or left empty fails the parse.
pub fn get_os_info(read: &CmdOutcome, text: &str) -> (r: Result<String, OSError>)
    ensures
        *read != CmdOutcome::Exited(true) ==> r == Err::<String, OSError>(
            OSError::CommandExecutionError,
        ),
        *read == CmdOutcome::Exited(true) && os_scan(lines_spec(text@)).0.len() > 0 && os_scan(
            lines_spec(text@),
        ).1.len() > 0 ==> (r matches Ok(info) && info@ == os_scan(lines_spec(text@)).0 + " "@
            + os_scan(lines_spec(text@)).1),
        *read == CmdOutcome::Exited(true) && !(os_scan(lines_spec(text@)).0.len() > 0 && os_scan(
            lines_spec(text@),
        ).1.len() > 0) ==> r == Err::<String, OSError>(OSError::OsInfoParsingError),
{
    match read {
        CmdOutcome::Exited(true) => {},
        _ => {
            return Err(OSError::CommandExecutionError);
        },
    }
    let lines = split_lines(text);
    let mut name = String::new();
    let mut version = String::new();
    let mut i: usize = 0;
    proof {
        assert(lines_spec(text@).take(0) =~= Seq::<Seq<char>>::empty());
    }
    while i < lines.len()
        invariant
            lines.deep_view() == lines_spec(text@),
            i <= lines.len(),
            name@ == os_scan(lines_spec(text@).take(i as int)).0,
            version@ == os_scan(lines_spec(text@).take(i as int)).1,
        decreases lines.len() - i,
    {
        let line = lines[i].as_str();
        proof {
            assert(line@ == lines_spec(text@)[i as int]);
        }
        let n = line.unicode_len();
        if starts_with(line, "NAME=") {
            proof {
                reveal_strlit("NAME=");
            }
            name = unquote(line.substring_char(5, n));
            proof {
                assert(line@.subrange(5, n as int) =~= line@.skip(5));
            }
        } else if starts_with(line, "VERSION=") {
            proof {
                reveal_strlit("VERSION=");
            }
            version = unquote(line.substring_char(8, n));
            proof {
                assert(line@.subrange(8, n as int) =~= line@.skip(8));
            }
        }
        proof {
            let all = lines_spec(text@);
            assert(all.take(i + 1).drop_last() =~= all.take(i as int));
            assert(all.take(i + 1).last() == all[i as int]);
        }
        i += 1;
    }
    proof {
        assert(lines_spec(text@).take(lines.deep_view().len() as int) =~= lines_spec(text@));
    }
    if !name.as_str().is_empty() && !version.as_str().is_empty() {
        let mut out = name;
        out.append(" ");
        out.append(version.as_str());
        Ok(out)
    } else {
        Err(OSError::OsInfoParsingError)
    }
}

proof fn lemma_os_scan_no_keys(lines: Seq<Seq<char>>)
    requires
        forall|k: int| 0 <= k < lines.len() ==> !has_prefix(#[trigger] lines[k], "NAME="@),
        forall|k: int| 0 <= k < lines.len() ==> !has_prefix(#[trigger] lines[k], "VERSION="@),
    ensures
        os_scan(lines) == (Seq::<char>::empty(), Seq::<char>::empty()),
    decreases lines.len(),
{
    if lines.len() > 0 {
        assert(forall|k: int|
            0 <= k < lines.len() - 1 ==> #[trigger] lines.drop_last()[k] == lines[k]);
        lemma_os_scan_no_keys(lines.drop_last());
    }
}

proof fn lemma_os_scan_only_name(lines: Seq<Seq<char>>, i: int, x: Seq<char>)
    requires
        0 <= i < lines.len(),
        has_prefix(lines[i], "NAME="@),
        unquote_spec(lines[i].skip(5)) == x,
        forall|k: int|
            0 <= k < lines.len() && k != i ==> !has_prefix(#[trigger] lines[k], "NAME="@),
        forall|k: int| 0 <= k < lines.len() ==> !has_prefix(#[trigger] lines[k], "VERSION="@),
    ensures
        os_scan(lines) == (x, Seq::<char>::empty()),
    decreases lines.len(),
{
    let last = lines.len() - 1;
    assert(forall|k: int| 0 <= k < last ==> #[trigger] lines.drop_last()[k] == lines[k]);
    if i == last {
        lemma_os_scan_no_keys(lines.drop_last());
    } else {
        lemma_os_scan_only_name(lines.drop_last(), i, x);
    }
}

proof fn lemma_os_scan_only_version(lines: Seq<Seq<char>>, j: int, y: Seq<char>)
    requires
        0 <= j < lines.len(),
        has_prefix(lines[j], "VERSION="@),
        unquote_spec(lines[j].skip(8)) == y,
        forall|k: int| 0 <= k < lines.len() ==> !has_prefix(#[trigger] lines[k], "NAME="@),
        forall|k: int|
            0 <= k < lines.len() && k != j ==> !has_prefix(#[trigger] lines[k], "VERSION="@),
    ensures
        os_scan(lines) == (Seq::<char>::empty(), y),
    decreases lines.len(),
{
    let last = lines.len() - 1;
    assert(forall|k: int| 0 <= k < last ==> #[trigger] lines.drop_last()[k] == lines[k]);
    if j == last {
        lemma_os_scan_no_keys(lines.drop_last());
    } else {
        lemma_os_scan_only_version(lines.drop_last(), j, y);
    }
}

/// However the lines are ordered and whatever else stands among them: if
/// exactly one line carries the NAME key, with value `x`, and exactly one
/// line carries the VERSION key, with value `y`, then scanning the lines
/// yields exactly `x` and `y` — so for non-empty values, the os-release
/// parse returns their space-separated pairing.
pub proof fn lemma_os_scan_unique_keys(lines: Seq<Seq<char>>, i: int, j: int, x: Seq<char>, y: Seq<char>)
    requires
        0 <= i < lines.len(),
        0 <= j < lines.len(),
        i != j,
        has_prefix(lines[i], "NAME="@),
        unquote_spec(lines[i].skip(5)) == x,
        has_prefix(lines[j], "VERSION="@),
        unquote_spec(lines[j].skip(8)) == y,
        forall|k: int|
            0 <= k < lines.len() && k != i ==> !has_prefix(#[trigger] lines[k], "NAME="@),
        forall|k: int|
            0 <= k < lines.len() && k != j ==> !has_prefix(#[trigger] lines[k], "VERSION="@),
    ensures
        os_scan(lines) == (x, y),
    decreases lines.len(),
{
    let last = lines.len() - 1;
    assert(forall|k: int| 0 <= k < last ==> #[trigger] lines.drop_last()[k] == lines[k]);
    if i == last {
        lemma_os_scan_only_version(lines.drop_last(), j, y);
    } else if j == last {
        lemma_os_scan_only_name(lines.drop_last(), i, x);
    } else {
        lemma_os_scan_unique_keys(lines.drop_last(), i, j, x, y);
    }
}

} // verus!
