//! Lock files: which schema a document is written in, and its pins.

use vstd::prelude::*;
use vstd::string::*;

use crate::json::{json_of_text, Json};
use crate::merge::{insert, merged};
use crate::resolved::v2::pin_views;
use crate::text::{chars_of, same};

pub mod v1;
pub mod v2;

verus! {

/// Why a document is no lock file.
#[derive(Debug)]
pub enum DecodeError {
    /// The text is not JSON.
    Syntax(serde_json::Error),
    /// The text is JSON of another shape than the schema asks for.
    Schema,
}

/// Why the pins of a set of lock files could not be had.
#[derive(Debug)]
pub enum ResolvedError {
    /// A lock file could not be read; the text says why.
    Io(String),
    /// A lock file could not be decoded.
    Serde(DecodeError),
    /// A directory could not be searched; the text says why.
    Glob(String),
    /// The search pattern was refused; the text says why.
    Pattern(String),
    /// The file at this path names neither schema 1 nor schema 2.
    VersionNotFound(String),
}

/// Whether `char::is_alphanumeric` holds of `c`, for the characters beyond
/// ASCII: those that Unicode counts as alphabetic or numeric.
pub uninterp spec fn alphanumeric_beyond_ascii(c: char) -> bool;

/// Whether `c` is a letter or a digit.
pub open spec fn alphanumeric(c: char) -> bool {
    if (c as u32) < 128 {
        ('a' as u32 <= c as u32 <= 'z' as u32) || ('A' as u32 <= c as u32 <= 'Z' as u32) || ('0' as u32
            <= c as u32 <= '9' as u32)
    } else {
        alphanumeric_beyond_ascii(c)
    }
}

/// Calls `char::is_alphanumeric`. Of the ASCII characters it holds of the
/// letters and the digits and of no other; beyond ASCII the contract only
/// names the result.
#[verifier::external_body]
fn is_alphanumeric(c: char) -> (r: bool)
    ensures
        r == alphanumeric(c),
        (c as u32) >= 128 ==> r == alphanumeric_beyond_ascii(c),
{
    c.is_alphanumeric()
}

/// The lines of `text`: what stands between its line feeds. A text of `n`
/// line feeds has `n + 1` lines, the last of them empty where the text ends
/// in a line feed.
pub open spec fn lines(text: Seq<char>) -> Seq<Seq<char>>
    decreases text.len(),
{
    if text.len() == 0 {
        seq![Seq::empty()]
    } else {
        let before = lines(text.drop_last());
        if text.last() == '\n' {
            before.push(Seq::empty())
        } else {
            before.drop_last().push(before.last().push(text.last()))
        }
    }
}

/// Whether `c` counts when a line is read for its version: letters, digits
/// and the colon do.
pub open spec fn counts(c: char) -> bool {
    alphanumeric(c) || c == ':'
}

/// The characters of `line` that count, in order.
pub open spec fn stripped(line: Seq<char>) -> Seq<char> {
    line.filter(|c: char| counts(c))
}

/// The schema that `line` names, where it names one.
pub open spec fn line_version(line: Seq<char>) -> Option<u8> {
    if stripped(line) == "version:1"@ {
        Some(1u8)
    } else if stripped(line) == "version:2"@ {
        Some(2u8)
    } else {
        None
    }
}

/// The schema that the last of `lines` to name one names.
pub open spec fn last_version(lines: Seq<Seq<char>>) -> Option<u8>
    decreases lines.len(),
{
    if lines.len() == 0 {
        None
    } else {
        match line_version(lines.last()) {
            Some(version) => Some(version),
            None => last_version(lines.drop_last()),
        }
    }
}

/// The schema that `text` is written in: the one that the last of its lines
/// to name a schema names.
pub open spec fn version_of(text: Seq<char>) -> Option<u8> {
    last_version(lines(text))
}

/// `lines` with a line feed between each two of them.
pub open spec fn joined(lines: Seq<Seq<char>>) -> Seq<char>
    decreases lines.len(),
{
    if lines.len() == 0 {
        Seq::empty()
    } else if lines.len() == 1 {
        lines[0]
    } else {
        joined(lines.drop_last()) + seq!['\n'] + lines.last()
    }
}

/// The lines of a text hold no line feed, and with a line feed between each
/// two of them they are the text.
pub proof fn lemma_lines_of(text: Seq<char>)
    ensures
        lines(text).len() >= 1,
        joined(lines(text)) == text,
        forall|k: int| 0 <= k < lines(text).len() ==> !(#[trigger] lines(text)[k]).contains('\n'),
    decreases text.len(),
{
    if text.len() == 0 {
        assert(joined(lines(text)) =~= text);
    } else {
        let head = text.drop_last();
        let c = text.last();
        let before = lines(head);
        let after = lines(text);
        lemma_lines_of(head);
        assert(head.push(c) =~= text);
        if c == '\n' {
            assert(after.drop_last() =~= before);
            assert(joined(after) =~= text);
            assert forall|k: int| 0 <= k < after.len() implies !(#[trigger] after[k]).contains(
                '\n',
            ) by {
                if k < before.len() {
                    assert(after[k] == before[k]);
                }
            }
        } else {
            let last = before.last().push(c);
            assert(after.last() == last);
            assert(after.drop_last() =~= before.drop_last());
            if before.len() == 1 {
                assert(joined(after) =~= text);
            } else {
                assert(joined(before) == joined(before.drop_last()) + seq!['\n'] + before.last());
                assert(joined(after) =~= joined(before).push(c));
            }
            assert forall|k: int| 0 <= k < after.len() implies !(#[trigger] after[k]).contains(
                '\n',
            ) by {
                if k < after.len() - 1 {
                    assert(after[k] == before[k]);
                } else {
                    assert(!before[k].contains('\n'));
                    if last.contains('\n') {
                        let at = choose|at: int| 0 <= at < last.len() && last[at] == '\n';
                        assert(before[k][at] == '\n');
                    }
                }
            }
        }
    }
}

/// One more character at the end of a line counts or is dropped.
pub proof fn lemma_stripped_push(line: Seq<char>, c: char)
    ensures
        stripped(line.push(c)) == if counts(c) {
            stripped(line).push(c)
        } else {
            stripped(line)
        },
{
    reveal(Seq::filter);
    assert(line.push(c).drop_last() =~= line);
}

/// The schema that the line with these counting characters names.
fn named_version(counting: &Vec<char>, one: &Vec<char>, two: &Vec<char>) -> (r: Option<u8>)
    requires
        one@ == "version:1"@,
        two@ == "version:2"@,
    ensures
        forall|line: Seq<char>| stripped(line) == counting@ ==> line_version(line) == r,
{
    if same(counting, one) {
        Some(1)
    } else if same(counting, two) {
        Some(2)
    } else {
        None
    }
}

/// Finds the schema that a lock file is written in.
pub fn detect_version(text: &str) -> (r: Option<u8>)
    ensures
        r == version_of(text@),
{
    let chars = chars_of(text);
    let one = chars_of("version:1");
    let two = chars_of("version:2");
    let mut found: Option<u8> = None;
    let mut counting: Vec<char> = Vec::new();
    let mut i: usize = 0;
    proof {
        reveal(Seq::filter);
        assert(chars@.take(0) =~= Seq::<char>::empty());
        assert(lines(chars@.take(0)).drop_last() =~= Seq::<Seq<char>>::empty());
    }
    while i < chars.len()
        invariant
            i <= chars.len(),
            one@ == "version:1"@,
            two@ == "version:2"@,
            counting@ == stripped(lines(chars@.take(i as int)).last()),
            found == last_version(lines(chars@.take(i as int)).drop_last()),
        decreases chars.len() - i,
    {
        let c = chars[i];
        let ghost read = chars@.take(i as int);
        let ghost before = lines(read);
        proof {
            lemma_lines_of(read);
            assert(chars@.take(i + 1).drop_last() =~= read);
            assert(chars@.take(i + 1).last() == c);
        }
        if c == '\n' {
            let here = named_version(&counting, &one, &two);
            found = match here {
                Some(version) => Some(version),
                None => found,
            };
            counting = Vec::new();
            proof {
                reveal(Seq::filter);
                assert(before.push(Seq::empty()).drop_last() =~= before);
            }
        } else {
            if is_alphanumeric(c) || c == ':' {
                counting.push(c);
            }
            proof {
                lemma_stripped_push(before.last(), c);
                assert(before.drop_last().push(before.last().push(c)).drop_last()
                    =~= before.drop_last());
            }
        }
        i += 1;
    }
    proof {
        assert(chars@.take(i as int) =~= chars@);
        lemma_lines_of(chars@);
    }
    match named_version(&counting, &one, &two) {
        Some(version) => Some(version),
        None => found,
    }
}

/// The schema of a text is named by one of its lines, and by none after
/// it; a text without such a line has no schema, however long it is.
pub proof fn lemma_version_of(text: Seq<char>)
    ensures
        match version_of(text) {
            Some(version) => exists|k: int|
                0 <= k < lines(text).len() && line_version(#[trigger] lines(text)[k]) == Some(
                    version,
                ) && forall|j: int|
                    k < j < lines(text).len() ==> line_version(#[trigger] lines(text)[j]) is None,
            None => forall|k: int|
                0 <= k < lines(text).len() ==> line_version(#[trigger] lines(text)[k]) is None,
        },
        version_of(text) is None || version_of(text) == Some(1u8) || version_of(text) == Some(2u8),
{
    lemma_last_version(lines(text));
}

/// The same of any list of lines.
pub proof fn lemma_last_version(lines: Seq<Seq<char>>)
    ensures
        match last_version(lines) {
            Some(version) => exists|k: int|
                0 <= k < lines.len() && line_version(#[trigger] lines[k]) == Some(version)
                    && forall|j: int|
                    k < j < lines.len() ==> line_version(#[trigger] lines[j]) is None,
            None => forall|k: int| 0 <= k < lines.len() ==> line_version(#[trigger] lines[k]) is None,
        },
        last_version(lines) is None || last_version(lines) == Some(1u8) || last_version(lines)
            == Some(2u8),
    decreases lines.len(),
{
    if lines.len() > 0 {
        let head = lines.drop_last();
        lemma_last_version(head);
        match line_version(lines.last()) {
            Some(version) => {
                assert(line_version(lines[lines.len() - 1]) == Some(version));
            },
            None => {
                match last_version(head) {
                    Some(version) => {
                        let k = choose|k: int|
                            0 <= k < head.len() && line_version(#[trigger] head[k]) == Some(version)
                                && forall|j: int|
                                k < j < head.len() ==> line_version(#[trigger] head[j]) is None;
                        assert(lines[k] == head[k]);
                        assert forall|j: int| k < j < lines.len() implies line_version(
                            #[trigger] lines[j],
                        ) is None by {
                            if j < head.len() {
                                assert(lines[j] == head[j]);
                            }
                        }
                    },
                    None => {
                        assert forall|k: int| 0 <= k < lines.len() implies line_version(
                            #[trigger] lines[k],
                        ) is None by {
                            if k < head.len() {
                                assert(lines[k] == head[k]);
                            }
                        }
                    },
                }
            },
        }
    }
}

/// The pattern that the lock files under `root` match, at any depth.
pub fn lock_file_pattern(root: &str) -> (pattern: String)
    ensures
        pattern@ == root@ + "/**/Package.resolved"@,
{
    let mut pattern = String::from_str(root);
    pattern.append("/**/Package.resolved");
    pattern
}

/// A lock file as it was found: where, and what it holds.
#[derive(Debug)]
pub struct LockFile {
    pub path: String,
    pub contents: String,
}

/// The lock file that `text` holds, in the current schema, `tree` being the
/// JSON that `text` holds: the schema is taken from the lines of `text`, the
/// pins from `tree`. Its version is 2 whichever schema `text` is in.
pub open spec fn document(text: Seq<char>, tree: Option<Json>) -> Option<v2::ResolvedView> {
    match (version_of(text), tree) {
        (Some(version), Some(tree)) => if version == 1 {
            match v1::resolved_in(tree) {
                Some(resolved) => Some(v1::normalized(resolved)),
                None => None,
            }
        } else {
            v2::resolved_in(tree)
        },
        _ => None,
    }
}

/// Whether `error` says why the file at `path` with `text` holds no lock
/// file: it names no schema, or it is no JSON, or JSON of another shape.
pub open spec fn refused(
    path: Seq<char>,
    text: Seq<char>,
    tree: Option<Json>,
    error: ResolvedError,
) -> bool {
    match version_of(text) {
        None => error matches ResolvedError::VersionNotFound(at) && at@ == path,
        Some(_) => match tree {
            None => error matches ResolvedError::Serde(DecodeError::Syntax(_)),
            Some(_) => error matches ResolvedError::Serde(DecodeError::Schema),
        },
    }
}

/// A lock file that was read is written in the current schema, whichever
/// schema its text was in: its version is 2. Read from the first schema it
/// has as many pins as stand under `object`, each a remote repository.
pub proof fn lemma_document(text: Seq<char>, tree: Option<Json>)
    ensures
        document(text, tree) matches Some(resolved) ==> {
            &&& resolved.version == 2
            &&& tree is Some
            &&& version_of(text) == Some(1u8) ==> {
                &&& v1::resolved_in(tree->0) is Some
                &&& resolved.pins.len() == v1::resolved_in(tree->0)->0.object.pins.len()
                &&& forall|i: int|
                    0 <= i < resolved.pins.len() ==> (#[trigger] resolved.pins[i]).kind
                        == v2::Kind::RemoteSourceControl
            }
        },
{
}

/// Reads the lock file at `path`, which holds `contents`. What it gives is
/// always of the current schema.
pub fn parse(path: &str, contents: &str) -> (r: Result<v2::Resolved, ResolvedError>)
    ensures
        match r {
            Ok(resolved) => document(contents@, json_of_text(contents@)) == Some(resolved@),
            Err(error) => document(contents@, json_of_text(contents@)) is None && refused(
                path@,
                contents@,
                json_of_text(contents@),
                error,
            ),
        },
        r matches Ok(resolved) ==> {
            &&& resolved@.version == 2
            &&& version_of(contents@) == Some(1u8) ==> forall|i: int|
                0 <= i < resolved@.pins.len() ==> (#[trigger] resolved@.pins[i]).kind
                    == v2::Kind::RemoteSourceControl
        },
{
    proof {
        lemma_version_of(contents@);
        lemma_document(contents@, json_of_text(contents@));
    }
    match detect_version(contents) {
        Some(1) => match v1::parse(contents) {
            Ok(resolved) => Ok(resolved.into()),
            Err(error) => Err(error),
        },
        Some(_) => v2::parse(contents),
        None => Err(ResolvedError::VersionNotFound(String::from_str(path))),
    }
}

/// The pins of a lock file that was looked for: none where it could not be
/// found or read, or holds no lock file.
pub open spec fn entry_pins(entry: Result<LockFile, ResolvedError>) -> Option<Seq<v2::PinView>> {
    match entry {
        Ok(file) => match document(file.contents@, json_of_text(file.contents@)) {
            Some(resolved) => Some(resolved.pins),
            None => None,
        },
        Err(_) => None,
    }
}

/// Whether `error` says why `entry` has no pins: the error it was found
/// with, or why what was found holds no lock file.
pub open spec fn entry_refused(
    entry: Result<LockFile, ResolvedError>,
    error: ResolvedError,
) -> bool {
    match entry {
        Ok(file) => refused(file.path@, file.contents@, json_of_text(file.contents@), error),
        Err(found) => error == found,
    }
}

/// The pins of all of `entries`, in order.
pub open spec fn all_pins(entries: Seq<Result<LockFile, ResolvedError>>) -> Seq<v2::PinView>
    decreases entries.len(),
{
    if entries.len() == 0 {
        Seq::empty()
    } else {
        all_pins(entries.drop_last()) + match entry_pins(entries.last()) {
            Some(pins) => pins,
            None => Seq::empty(),
        }
    }
}

/// Whether each of `entries` has pins.
pub open spec fn all_found(entries: Seq<Result<LockFile, ResolvedError>>) -> bool {
    forall|i: int| 0 <= i < entries.len() ==> entry_pins(#[trigger] entries[i]) is Some
}

/// Whether `error` says why the first of `entries` that has no pins has none.
pub open spec fn stopped_by(
    entries: Seq<Result<LockFile, ResolvedError>>,
    error: ResolvedError,
) -> bool {
    exists|i: int|
        {
            &&& 0 <= i < entries.len()
            &&& entry_pins(#[trigger] entries[i]) is None
            &&& forall|j: int| 0 <= j < i ==> entry_pins(#[trigger] entries[j]) is Some
            &&& entry_refused(entries[i], error)
        }
}

/// The pins of the lock files found under a directory, one for each
/// location: a later pin replaces an earlier one for the same location. The
/// first entry that was not found, could not be read or holds no lock file
/// ends the work with its error.
pub fn parse_all_recursive(entries: Vec<Result<LockFile, ResolvedError>>) -> (r: Result<
    Vec<v2::Pin>,
    ResolvedError,
>)
    ensures
        match r {
            Ok(pins) => all_found(entries@) && pin_views(pins@) == merged(all_pins(entries@)),
            Err(error) => stopped_by(entries@, error),
        },
{
    let ghost all = entries@;
    let mut pins: Vec<v2::Pin> = Vec::new();
    assert(all.take(0) =~= Seq::empty());
    for entry in it: entries
        invariant
            it.seq() == all,
            forall|j: int| 0 <= j < it.index() ==> entry_pins(#[trigger] all[j]) is Some,
            pin_views(pins@) == merged(all_pins(all.take(it.index() as int))),
    {
        let ghost done = all.take(it.index() as int);
        let ghost here = all[it.index() as int];
        proof {
            assert(all.take(it.index() + 1).drop_last() =~= done);
            assert(all.take(it.index() + 1).last() == here);
        }
        let file = match entry {
            Ok(file) => file,
            Err(error) => {
                return Err(error);
            },
        };
        let resolved = match parse(file.path.as_str(), file.contents.as_str()) {
            Ok(resolved) => resolved,
            Err(error) => {
                return Err(error);
            },
        };
        let ghost found = resolved@.pins;
        assert(found.take(0) =~= Seq::empty());
        assert(all_pins(done) + found.take(0) =~= all_pins(done));
        for pin in each: resolved.pins
            invariant
                pin_views(each.seq()) == found,
                pin_views(pins@) == merged(all_pins(done) + found.take(each.index() as int)),
        {
            proof {
                let so_far = all_pins(done) + found.take(each.index() as int);
                let next = all_pins(done) + found.take(each.index() + 1);
                assert(next.drop_last() =~= so_far);
                assert(next.last() == pin@);
            }
            insert(&mut pins, pin);
        }
        assert(found.take(found.len() as int) =~= found);
    }
    assert(all.take(all.len() as int) =~= all);
    Ok(pins)
}

} // verus!
