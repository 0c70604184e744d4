//! Client versions, as the metadata of a battle writes them, and the data
//! files that belong to a version.

use crate::error::{ErrorKind, ErrorView};
use crate::text::{decimal, push_decimal, push_text};
use std::path::PathBuf;
use vstd::prelude::*;
use vstd::string::*;

verus! {

/// A client version: four numbers, compared by the first three.
#[derive(Debug, Clone, Copy, PartialEq, Eq, Structural)]
pub struct Version {
    pub major: u32,
    pub minor: u32,
    pub patch: u32,
    pub build: u32,
}

/// Whether a byte is a decimal digit.
pub open spec fn is_digit(b: u8) -> bool {
    48 <= b <= 57
}

/// Whether every byte of a run is a decimal digit.
pub open spec fn all_digits(s: Seq<u8>) -> bool {
    forall|i: int| 0 <= i < s.len() ==> is_digit(#[trigger] s[i])
}

/// The number that a run of decimal digits spells.
pub open spec fn digits_value(s: Seq<u8>) -> nat
    decreases s.len(),
{
    if s.len() == 0 {
        0
    } else {
        digits_value(s.drop_last()) * 10 + (s.last() - 48) as nat
    }
}

/// The digits of a number as written: what follows a plus sign, if the
/// text starts with one, else the text.
pub open spec fn unsigned_part(s: Seq<u8>) -> Seq<u8> {
    if s.len() > 0 && s[0] == 43 {
        s.skip(1)
    } else {
        s
    }
}

/// The number that a text spells, if it spells one that fits 32 bits: one
/// or more decimal digits and nothing else, but for a plus sign that may
/// stand before them.
pub open spec fn number_of(s: Seq<u8>) -> Option<u32> {
    let d = unsigned_part(s);
    if d.len() > 0 && all_digits(d) && digits_value(d) <= u32::MAX {
        Some(digits_value(d) as u32)
    } else {
        None
    }
}

/// Where the first comma of a text stands, or its length if it has none.
pub open spec fn first_comma(s: Seq<u8>) -> int
    decreases s.len(),
{
    if s.len() == 0 || s[0] == 44 {
        0
    } else {
        1 + first_comma(s.skip(1))
    }
}

/// The parts of a text between its commas.
#[verifier::opaque]
pub open spec fn fields(s: Seq<u8>) -> Seq<Seq<u8>>
    decreases s.len(),
{
    let n = first_comma(s);
    if 0 <= n < s.len() {
        seq![s.take(n)] + fields(s.skip(n + 1))
    } else {
        seq![s]
    }
}

/// The version that a text spells, if it spells one: four numbers with
/// commas between them, as in `0,10,9,0`.
pub open spec fn version_of(s: Seq<u8>) -> Option<Version> {
    let f = fields(s);
    if f.len() == 4 {
        match (number_of(f[0]), number_of(f[1]), number_of(f[2]), number_of(f[3])) {
            (Some(major), Some(minor), Some(patch), Some(build)) => Some(
                Version { major, minor, patch, build },
            ),
            _ => None,
        }
    } else {
        None
    }
}

/// The first comma of a text stands within it, or at its end.
proof fn lemma_first_comma(s: Seq<u8>)
    ensures
        0 <= first_comma(s) <= s.len(),
        first_comma(s) < s.len() ==> s[first_comma(s)] == 44,
        forall|i: int| 0 <= i < first_comma(s) ==> s[i] != 44,
    decreases s.len(),
{
    if s.len() == 0 || s[0] == 44 {
    } else {
        lemma_first_comma(s.skip(1));
        assert forall|i: int| 0 <= i < first_comma(s) implies s[i] != 44 by {
            if i > 0 {
                assert(s.skip(1)[i - 1] == s[i]);
            }
        }
    }
}

/// A place before which no comma stands, and at which one stands or the
/// text ends, is the place of the first comma.
proof fn lemma_first_comma_is(s: Seq<u8>, n: int)
    requires
        0 <= n <= s.len(),
        forall|i: int| 0 <= i < n ==> s[i] != 44,
        n < s.len() ==> s[n] == 44,
    ensures
        first_comma(s) == n,
    decreases s.len(),
{
    if n == 0 {
    } else {
        assert(s[0] != 44);
        assert forall|i: int| 0 <= i < n - 1 implies s.skip(1)[i] != 44 by {
            assert(s.skip(1)[i] == s[i + 1]);
        }
        lemma_first_comma_is(s.skip(1), n - 1);
    }
}

/// A run of digits with one more digit behind it spells ten times the
/// number and the digit more.
proof fn lemma_digits_grow(s: Seq<u8>, n: int)
    requires
        0 <= n < s.len(),
        is_digit(s[n]),
    ensures
        digits_value(s.take(n + 1)) == digits_value(s.take(n)) * 10 + (s[n] - 48),
        n + 1 == s.len() ==> s.take(n + 1) == s,
{
    assert(s.take(n + 1).drop_last() =~= s.take(n));
    assert(s.take(n + 1).last() == s[n]);
    if n + 1 == s.len() {
        assert(s.take(n + 1) =~= s);
    }
}

/// The number that a run of digits spells does not shrink as digits are
/// added.
proof fn lemma_digits_value_grows(s: Seq<u8>, n: int)
    requires
        0 <= n <= s.len(),
        all_digits(s),
    ensures
        digits_value(s.take(n)) <= digits_value(s),
    decreases s.len() - n,
{
    if n < s.len() {
        lemma_digits_grow(s, n);
        lemma_digits_value_grows(s, n + 1);
        assert(is_digit(s[n]));
    } else {
        assert(s.take(n) =~= s);
    }
}

/// A text has one part more than it has commas: the part before its first
/// comma, then the parts of what follows that comma.
proof fn lemma_fields_step(s: Seq<u8>)
    ensures
        fields(s).len() >= 1,
        first_comma(s) >= s.len() ==> fields(s) == seq![s],
        first_comma(s) < s.len() ==> fields(s) == seq![s.take(first_comma(s))] + fields(
            s.skip(first_comma(s) + 1),
        ),
    decreases s.len(),
{
    reveal(fields);
    lemma_first_comma(s);
    if first_comma(s) < s.len() {
        lemma_fields_step(s.skip(first_comma(s) + 1));
    }
}

/// The parts of a text with a comma at `a`: the part before it, then the
/// parts of what follows it.
proof fn lemma_fields_behind(s: Seq<u8>, a: int)
    requires
        0 <= a < s.len(),
        first_comma(s) == a,
    ensures
        fields(s) == seq![s.subrange(0, a)] + fields(s.skip(a + 1)),
        fields(s).len() == 1 + fields(s.skip(a + 1)).len(),
{
    lemma_fields_step(s);
    assert(s.take(a) =~= s.subrange(0, a));
}

/// The parts of a text with three commas, at `a`, `b` and `c`.
proof fn lemma_four_fields(s: Seq<u8>, a: int, b: int, c: int)
    requires
        0 <= a < b < c < s.len(),
        first_comma(s) == a,
        first_comma(s.skip(a + 1)) == b - a - 1,
        first_comma(s.skip(b + 1)) == c - b - 1,
        first_comma(s.skip(c + 1)) >= s.skip(c + 1).len(),
    ensures
        fields(s) == seq![
            s.subrange(0, a),
            s.subrange(a + 1, b),
            s.subrange(b + 1, c),
            s.subrange(c + 1, s.len() as int),
        ],
{
    let s1 = s.skip(a + 1);
    let s2 = s.skip(b + 1);
    let s3 = s.skip(c + 1);
    lemma_fields_behind(s, a);
    lemma_fields_behind(s1, b - a - 1);
    assert(s1.skip(b - a) =~= s2);
    assert(s1.subrange(0, b - a - 1) =~= s.subrange(a + 1, b));
    lemma_fields_behind(s2, c - b - 1);
    assert(s2.skip(c - b) =~= s3);
    assert(s2.subrange(0, c - b - 1) =~= s.subrange(b + 1, c));
    lemma_fields_step(s3);
    assert(s3 =~= s.subrange(c + 1, s.len() as int));
    assert(fields(s2) =~= seq![s.subrange(b + 1, c), s3]);
    assert(fields(s1) =~= seq![s.subrange(a + 1, b), s.subrange(b + 1, c), s3]);
}

/// Reads the number that a part of a text spells.
fn read_number(bytes: &[u8], from: usize, to: usize) -> (r: Option<u32>)
    requires
        from <= to <= bytes@.len(),
    ensures
        r == number_of(bytes@.subrange(from as int, to as int)),
{
    let ghost whole = bytes@.subrange(from as int, to as int);
    let start: usize = if from < to && bytes[from] == 43 {
        from + 1
    } else {
        from
    };
    let ghost d = unsigned_part(whole);
    assert(d =~= bytes@.subrange(start as int, to as int));
    if start == to {
        return None;
    }
    let mut value: u64 = 0;
    let mut i: usize = start;
    assert(d.take(0) =~= Seq::empty());
    while i < to
        invariant
            start <= i <= to,
            to <= bytes@.len(),
            d == bytes@.subrange(start as int, to as int),
            d == unsigned_part(bytes@.subrange(from as int, to as int)),
            all_digits(d.take(i - start)),
            value == digits_value(d.take(i - start)),
            value <= u32::MAX,
        decreases to - i,
    {
        let b: u8 = bytes[i];
        assert(d[i - start] == b);
        if b < 48 || b > 57 {
            assert(!all_digits(d));
            return None;
        }
        proof {
            lemma_digits_grow(d, i - start);
            assert(all_digits(d.take(i - start + 1))) by {
                assert forall|j: int| 0 <= j < i - start + 1 implies is_digit(
                    #[trigger] d.take(i - start + 1)[j],
                ) by {
                    if j < i - start {
                        assert(d.take(i - start)[j] == d[j]);
                    }
                }
            }
        }
        value = value * 10 + (b - 48) as u64;
        if value > 0xFFFF_FFFF {
            proof {
                if all_digits(d) {
                    lemma_digits_value_grows(d, i - start + 1);
                }
            }
            return None;
        }
        i += 1;
    }
    assert(d.take(i - start) =~= d);
    Some(value as u32)
}

/// The place of the first comma at or behind `from`, or the length of the
/// text if none stands there.
fn find_comma(bytes: &[u8], from: usize) -> (r: usize)
    requires
        from <= bytes@.len(),
    ensures
        from <= r <= bytes@.len(),
        r - from == first_comma(bytes@.skip(from as int)),
{
    let ghost rest = bytes@.skip(from as int);
    let mut i: usize = from;
    while i < bytes.len() && bytes[i] != 44
        invariant
            from <= i <= bytes@.len(),
            rest == bytes@.skip(from as int),
            forall|j: int| 0 <= j < i - from ==> rest[j] != 44,
        decreases bytes@.len() - i,
    {
        i += 1;
    }
    proof {
        lemma_first_comma_is(rest, i - from);
    }
    i
}

/// The places of the three commas of a text that has exactly three.
#[verifier::rlimit(50)]
fn find_commas(bytes: &[u8]) -> (r: Option<(usize, usize, usize)>)
    ensures
        match r {
            Some((a, b, c)) => a < b < c < bytes@.len() && fields(bytes@) == seq![
                bytes@.subrange(0, a as int),
                bytes@.subrange(a + 1, b as int),
                bytes@.subrange(b + 1, c as int),
                bytes@.subrange(c + 1, bytes@.len() as int),
            ],
            None => fields(bytes@).len() != 4,
        },
{
    let ghost s = bytes@;
    assert(s.skip(0) =~= s);
    let a: usize = find_comma(bytes, 0);
    if a >= bytes.len() {
        proof {
            lemma_fields_step(s);
        }
        return None;
    }
    let b: usize = find_comma(bytes, a + 1);
    if b >= bytes.len() {
        proof {
            lemma_fields_behind(s, a as int);
            lemma_fields_step(s.skip(a + 1));
        }
        return None;
    }
    let c: usize = find_comma(bytes, b + 1);
    if c >= bytes.len() {
        proof {
            lemma_fields_behind(s, a as int);
            lemma_fields_behind(s.skip(a + 1), b - a - 1);
            assert(s.skip(a + 1).skip(b - a) =~= s.skip(b + 1));
            lemma_fields_step(s.skip(b + 1));
        }
        return None;
    }
    let d: usize = find_comma(bytes, c + 1);
    if d < bytes.len() {
        proof {
            lemma_fields_behind(s, a as int);
            lemma_fields_behind(s.skip(a + 1), b - a - 1);
            assert(s.skip(a + 1).skip(b - a) =~= s.skip(b + 1));
            lemma_fields_behind(s.skip(b + 1), c - b - 1);
            assert(s.skip(b + 1).skip(c - b) =~= s.skip(c + 1));
            lemma_fields_behind(s.skip(c + 1), d - c - 1);
            lemma_fields_step(s.skip(c + 1).skip(d - c));
        }
        return None;
    }
    proof {
        lemma_four_fields(s, a as int, b as int, c as int);
    }
    Some((a, b, c))
}

impl Version {
    /// The order of versions: by major, then minor, then patch. The build
    /// number takes no part in it.
    pub open spec fn at_least(self, other: Version) -> bool {
        ||| self.major > other.major
        ||| self.major == other.major && self.minor > other.minor
        ||| self.major == other.major && self.minor == other.minor && self.patch >= other.patch
    }

    /// The version as the name of a directory: major, minor and patch with
    /// dots between them.
    pub open spec fn path(self) -> Seq<char> {
        decimal(self.major as nat) + "."@ + decimal(self.minor as nat) + "."@ + decimal(
            self.patch as nat,
        )
    }

    /// Reads a version as the metadata of a battle writes it: four numbers
    /// with commas between them. Nothing where the text is not of that form.
    #[verifier::rlimit(50)]
    pub fn parse(version: &str) -> (r: Option<Version>)
        ensures
            r == version_of(version.spec_bytes()),
    {
        let bytes = version.as_bytes();
        match find_commas(bytes) {
            None => None,
            Some((a, b, c)) => {
                let len: usize = bytes.len();
                let major = read_number(bytes, 0, a);
                let minor = read_number(bytes, a + 1, b);
                let patch = read_number(bytes, b + 1, c);
                let build = read_number(bytes, c + 1, len);
                match (major, minor, patch, build) {
                    (Some(major), Some(minor), Some(patch), Some(build)) => Some(
                        Version { major, minor, patch, build },
                    ),
                    _ => None,
                }
            },
        }
    }

    /// The version that the metadata of a battle names: four numbers with
    /// commas between them, as in `0,10,9,0`.
    pub fn from_client_exe(version: &str) -> (r: Version)
        requires
            version_of(version.spec_bytes()) is Some,
        ensures
            Some(r) == version_of(version.spec_bytes()),
    {
        match Version::parse(version) {
            Some(v) => v,
            None => vstd::pervasive::unreached(),
        }
    }

    /// The version as the name of a directory: major, minor and patch with
    /// dots between them.
    pub fn to_path(&self) -> (r: String)
        ensures
            r@ == self.path(),
    {
        let mut s = String::new();
        push_decimal(&mut s, self.major as u64);
        push_text(&mut s, ".");
        push_decimal(&mut s, self.minor as u64);
        push_text(&mut s, ".");
        push_decimal(&mut s, self.patch as u64);
        assert(s@ =~= self.path());
        s
    }

    /// Whether this version is `other` or a later one.
    pub fn is_at_least(&self, other: &Version) -> (r: bool)
        ensures
            r == self.at_least(*other),
    {
        if self.major > other.major {
            true
        } else if self.major < other.major {
            false
        } else if self.minor > other.minor {
            true
        } else if self.minor < other.minor {
            false
        } else {
            self.patch >= other.patch
        }
    }
}

/// Being at least another version is an order: every version is at least
/// itself; of two versions one is at least the other; and what is at least a
/// version that is at least a third is at least the third.
pub proof fn lemma_at_least_is_an_order(a: Version, b: Version, c: Version)
    ensures
        a.at_least(a),
        a.at_least(b) || b.at_least(a),
        a.at_least(b) && b.at_least(c) ==> a.at_least(c),
{
}

#[verifier::external_type_specification]
#[verifier::external_body]
pub struct ExPathBuf(PathBuf);

/// The data files of the game: those in a directory, and those that come
/// with the program.
pub struct Datafiles {
    base_path: PathBuf,
}

impl Datafiles {
    /// The directory that the files are looked for in.
    pub closed spec fn directory(self) -> PathBuf {
        self.base_path
    }

    /// The data files under a directory.
    pub fn new(base_path: PathBuf) -> (r: Result<Datafiles, ErrorKind>)
        ensures
            r is Ok,
            r->Ok_0.directory() == base_path,
    {
        Ok(Datafiles { base_path })
    }

    /// The directory that the files are looked for in.
    pub fn base_path(&self) -> (r: &PathBuf)
        ensures
            *r == self.directory(),
    {
        &self.base_path
    }

    /// Which content a data file has: that of the file in the directory
    /// where there is one, else that which comes with the program. Where
    /// there is neither, the file is not found.
    pub fn pick(path: &str, in_directory: Option<Vec<u8>>, built_in: Option<Vec<u8>>) -> (r: Result<
        Vec<u8>,
        ErrorKind,
    >)
        ensures
            match r {
                Ok(content) => Some(content) == (if in_directory is Some {
                    in_directory
                } else {
                    built_in
                }),
                Err(e) => in_directory is None && built_in is None && e@
                    == (ErrorView::DatafileNotFound { path: path@ }),
            },
    {
        match in_directory {
            Some(content) => Ok(content),
            None => match built_in {
                Some(content) => Ok(content),
                None => Err(ErrorKind::DatafileNotFound { path: String::from_str(path) }),
            },
        }
    }
}

} // verus!
