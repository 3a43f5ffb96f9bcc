//! The League client's lockfile: choosing the one running client, and
//! reading its connection credentials out of the file's contents.
//!
//! The file holds `name:pid:port:password:protocol` on one line.
use vstd::prelude::*;

use crate::text::{
    IntErrorKind, chars_of, lacks, lemma_parse_decimal_u16, lemma_split_join, lemma_split_single,
    nat_decimal, parse_u16_chars, parse_u16_result, split, split_chars, string_of, trim,
    trim_chars, views,
};

verus! {

/// How to reach the League client's local API.
#[derive(Clone, Debug)]
pub struct LockfileCredentials {
    pub port: u16,
    pub password: String,
    pub protocol: String,
}

/// Why no credentials could be had.
#[derive(Clone, Copy, Debug, PartialEq, Eq, Structural)]
pub enum LockfileError {
    /// No running client has a lockfile beside its executable.
    NoClientFound,
    /// Several distinct lockfiles were found.
    MultipleClients,
    /// The contents do not have exactly five `:`-separated fields.
    UnrecognizedFormat,
    /// The port field is not a `u16`.
    InvalidPort(IntErrorKind),
}

impl LockfileError {
    /// The text the user is shown for this error.
    pub open spec fn text(self) -> Seq<char> {
        match self {
            LockfileError::NoClientFound => "No running League client lockfile was found."@,
            LockfileError::MultipleClients =>
                "Multiple running League clients were detected. Scrimora Link currently supports one client at a time."@,
            LockfileError::UnrecognizedFormat => "The League lockfile format was not recognized."@,
            LockfileError::InvalidPort(IntErrorKind::Empty) => "cannot parse integer from empty string"@,
            LockfileError::InvalidPort(IntErrorKind::InvalidDigit) => "invalid digit found in string"@,
            LockfileError::InvalidPort(IntErrorKind::PosOverflow) => "number too large to fit in target type"@,
        }
    }

    /// The text the user is shown for this error.
    pub fn message(&self) -> (r: String)
        ensures
            r@ == self.text(),
    {
        match self {
            LockfileError::NoClientFound => String::from_str("No running League client lockfile was found."),
            LockfileError::MultipleClients => String::from_str(
                "Multiple running League clients were detected. Scrimora Link currently supports one client at a time.",
            ),
            LockfileError::UnrecognizedFormat => String::from_str("The League lockfile format was not recognized."),
            LockfileError::InvalidPort(IntErrorKind::Empty) => String::from_str("cannot parse integer from empty string"),
            LockfileError::InvalidPort(IntErrorKind::InvalidDigit) => String::from_str("invalid digit found in string"),
            LockfileError::InvalidPort(IntErrorKind::PosOverflow) => String::from_str("number too large to fit in target type"),
        }
    }
}

/// The fields of a lockfile's contents: the trimmed text split on `:`.
pub open spec fn lockfile_fields(contents: Seq<char>) -> Seq<Seq<char>> {
    split(trim(contents), ':')
}

/// What the contents of a lockfile give: port, password and protocol, or the
/// reason they are not there.
pub open spec fn lockfile_result(contents: Seq<char>) -> Result<
    (u16, Seq<char>, Seq<char>),
    LockfileError,
> {
    let fields = lockfile_fields(contents);
    if fields.len() != 5 {
        Err(LockfileError::UnrecognizedFormat)
    } else {
        match parse_u16_result(fields[2]) {
            Ok(port) => Ok((port, fields[3], fields[4])),
            Err(kind) => Err(LockfileError::InvalidPort(kind)),
        }
    }
}

/// Reads port, password and protocol out of a lockfile's contents.
pub fn parse_lockfile_contents(contents: &str) -> (r: Result<(u16, String, String), LockfileError>)
    ensures
        match r {
            Ok((port, password, protocol)) => lockfile_result(contents@) == Ok::<
                (u16, Seq<char>, Seq<char>),
                LockfileError,
            >((port, password@, protocol@)),
            Err(e) => lockfile_result(contents@) == Err::<(u16, Seq<char>, Seq<char>), LockfileError>(
                e,
            ),
        },
{
    let chars = chars_of(contents);
    let trimmed = trim_chars(chars.as_slice());
    let parts = split_chars(trimmed.as_slice(), ':');
    proof {
        assert(views(parts@).len() == parts@.len());
    }
    if parts.len() != 5 {
        return Err(LockfileError::UnrecognizedFormat);
    }
    assert(views(parts@)[2] == parts@[2]@);
    assert(views(parts@)[3] == parts@[3]@);
    assert(views(parts@)[4] == parts@[4]@);
    match parse_u16_chars(parts[2].as_slice()) {
        Ok(port) => Ok((port, string_of(parts[3].as_slice()), string_of(parts[4].as_slice()))),
        Err(kind) => Err(LockfileError::InvalidPort(kind)),
    }
}

/// The credentials that a lockfile's contents give.
pub fn credentials_from_contents(contents: &str) -> (r: Result<LockfileCredentials, LockfileError>)
    ensures
        match r {
            Ok(c) => lockfile_result(contents@) == Ok::<
                (u16, Seq<char>, Seq<char>),
                LockfileError,
            >((c.port, c.password@, c.protocol@)),
            Err(e) => lockfile_result(contents@) == Err::<(u16, Seq<char>, Seq<char>), LockfileError>(
                e,
            ),
        },
{
    match parse_lockfile_contents(contents) {
        Ok((port, password, protocol)) => Ok(LockfileCredentials { port, password, protocol }),
        Err(e) => Err(e),
    }
}

/// Picks the one lockfile among those found beside running clients.
///
/// `candidates` holds a key for each lockfile found (its path's bytes); the
/// same file may be found more than once. The result is the index of a
/// candidate when all of them name one file.
pub fn select_lockfile(candidates: &Vec<Vec<u8>>) -> (r: Result<usize, LockfileError>)
    ensures
        candidates@.len() == 0 <==> r == Err::<usize, LockfileError>(LockfileError::NoClientFound),
        (exists|i: int, j: int|
            0 <= i < candidates@.len() && 0 <= j < candidates@.len() && candidates@[i]@
                != candidates@[j]@) <==> r == Err::<usize, LockfileError>(
            LockfileError::MultipleClients,
        ),
        r matches Ok(i) ==> i == 0 && i < candidates@.len() && forall|j: int|
            0 <= j < candidates@.len() ==> #[trigger] candidates@[j]@ == candidates@[i as int]@,
        r is Ok || r == Err::<usize, LockfileError>(LockfileError::NoClientFound) || r == Err::<
            usize,
            LockfileError,
        >(LockfileError::MultipleClients),
{
    if candidates.len() == 0 {
        return Err(LockfileError::NoClientFound);
    }
    let mut j: usize = 1;
    while j < candidates.len()
        invariant
            1 <= j <= candidates@.len(),
            forall|k: int| 0 <= k < j ==> #[trigger] candidates@[k]@ == candidates@[0]@,
        decreases candidates@.len() - j,
    {
        if !bytes_eq(candidates[j].as_slice(), candidates[0].as_slice()) {
            return Err(LockfileError::MultipleClients);
        }
        j += 1;
    }
    assert forall|a: int, b: int|
        0 <= a < candidates@.len() && 0 <= b < candidates@.len() implies candidates@[a]@
        == candidates@[b]@ by {
        assert(candidates@[a]@ == candidates@[0]@);
        assert(candidates@[b]@ == candidates@[0]@);
    }
    Ok(0)
}

/// Whether two byte slices are equal.
fn bytes_eq(a: &[u8], b: &[u8]) -> (r: bool)
    ensures
        r == (a@ == b@),
{
    if a.len() != b.len() {
        return false;
    }
    let mut i: usize = 0;
    while i < a.len()
        invariant
            i <= a.len(),
            a.len() == b.len(),
            forall|k: int| 0 <= k < i ==> a@[k] == b@[k],
        decreases a.len() - i,
    {
        if a[i] != b[i] {
            return false;
        }
        i += 1;
    }
    assert(a@ =~= b@);
    true
}

/// The line a League client writes to its lockfile.
pub open spec fn lockfile_line(
    name: Seq<char>,
    pid: Seq<char>,
    port: u16,
    password: Seq<char>,
    protocol: Seq<char>,
) -> Seq<char> {
    name + seq![':'] + pid + seq![':'] + nat_decimal(port as nat) + seq![':'] + password + seq![
        ':',
    ] + protocol
}

/// A lockfile line reads back the port, password and protocol it was
/// written with, when its fields hold no `:` and the line has no white
/// space at either end.
pub proof fn law_lockfile_line_reads_back(
    name: Seq<char>,
    pid: Seq<char>,
    port: u16,
    password: Seq<char>,
    protocol: Seq<char>,
)
    requires
        lacks(name, ':'),
        lacks(pid, ':'),
        lacks(password, ':'),
        lacks(protocol, ':'),
        trim(lockfile_line(name, pid, port, password, protocol)) == lockfile_line(
            name,
            pid,
            port,
            password,
            protocol,
        ),
    ensures
        lockfile_result(lockfile_line(name, pid, port, password, protocol)) == Ok::<
            (u16, Seq<char>, Seq<char>),
            LockfileError,
        >((port, password, protocol)),
{
    let dec = nat_decimal(port as nat);
    lemma_parse_decimal_u16(port);
    assert(lacks(dec, ':')) by {
        crate::text::lemma_nat_decimal_digits(port as nat);
        assert forall|k: int| 0 <= k < dec.len() implies #[trigger] dec[k] != ':' by {
            assert(crate::text::is_digit(dec[k]));
        }
    }
    let c = seq![':'];
    let t4 = protocol;
    let t3 = password + c + t4;
    let t2 = dec + c + t3;
    let t1 = pid + c + t2;
    let line = name + c + t1;
    assert(line =~= lockfile_line(name, pid, port, password, protocol));
    lemma_split_join(password, t4, ':');
    lemma_split_join(dec, t3, ':');
    lemma_split_join(pid, t2, ':');
    lemma_split_join(name, t1, ':');
    lemma_split_single(name, ':');
    lemma_split_single(pid, ':');
    lemma_split_single(dec, ':');
    lemma_split_single(password, ':');
    lemma_split_single(protocol, ':');
    let fields = split(line, ':');
    assert(fields =~= seq![name, pid, dec, password, protocol]);
}

} // verus!
