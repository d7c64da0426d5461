//! Small shared value types: byte order and Unity version numbers.
use vstd::prelude::*;

use crate::text::{parse_u32, spec_parse_u32, strings_view};
use vstd::utf8::encode_utf8;

pub mod binary_records;

verus! {

/// Byte order of a serialized file's metadata and objects.
#[derive(Debug, Clone, Copy, PartialEq, Eq, Structural)]
pub enum Endian {
    Little,
    Big,
}

impl Endian {
    pub open spec fn spec_is_big(self) -> bool {
        self == Endian::Big
    }

    pub fn is_big(&self) -> (r: bool)
        ensures
            r == self.spec_is_big(),
    {
        match self {
            Endian::Little => false,
            Endian::Big => true,
        }
    }
}


/// A Unity version: its numbers, and the letter that marks the kind of build
/// (`a` for alpha, `b` beta, `f` final, `p` patch).
#[derive(Debug, Clone, PartialEq, Eq, PartialOrd, Ord)]
pub struct UnityVersion {
    version: Vec<u32>,
    build_type: Option<String>,
}

pub struct UnityVersionView {
    pub version: Seq<u32>,
    pub build_type: Option<Seq<char>>,
}

pub open spec fn opt_string_view(s: Option<String>) -> Option<Seq<char>> {
    match s {
        Some(t) => Some(t@),
        None => None,
    }
}

impl View for UnityVersion {
    type V = UnityVersionView;

    closed spec fn view(&self) -> UnityVersionView {
        UnityVersionView { version: self.version@, build_type: opt_string_view(self.build_type) }
    }
}

/// The pieces of `s` between the characters that the regular expression `\D` matches
/// (every character that is not a decimal digit).
pub uninterp spec fn non_digit_split(s: Seq<char>) -> Seq<Seq<char>>;

/// The first character of `s` that the regular expression `([^\d.])` matches (one that
/// is neither a decimal digit nor a dot), if any.
pub uninterp spec fn build_type_match(s: Seq<char>) -> Option<Seq<char>>;

/// Calls `regex::Regex::split` with the pattern `\D`. Claimed: the pieces are a
/// function of the string alone, named `non_digit_split`; which characters count as
/// digits (the regex crate's Unicode class) is left unsaid.
#[verifier::external_body]
fn split_at_non_digits(s: &str) -> (r: Vec<String>)
    ensures
        strings_view(r@) == non_digit_split(s@),
{
    regex::Regex::new(r"\D").unwrap().split(s).map(|p| p.to_string()).collect()
}

/// Calls `regex::Regex::captures` with the pattern `([^\d.])` and takes the whole
/// match. Claimed: the result is a function of the string alone, named
/// `build_type_match`.
#[verifier::external_body]
fn find_build_type(s: &str) -> (r: Option<String>)
    ensures
        opt_string_view(r) == build_type_match(s@),
{
    regex::Regex::new(r"([^\d.])").unwrap().captures(s).and_then(|c| c.get(0)).map(
        |m| m.as_str().to_owned(),
    )
}

/// The numbers of a version's pieces, when each piece is a decimal `u32`.
pub open spec fn parse_pieces(pieces: Seq<Seq<char>>) -> Option<Seq<u32>>
    decreases pieces.len(),
{
    if pieces.len() == 0 {
        Some(seq![])
    } else {
        match (parse_pieces(pieces.drop_last()), spec_parse_u32(encode_utf8(pieces.last()))) {
            (Some(vs), Some(v)) => Some(vs.push(v)),
            _ => None,
        }
    }
}

proof fn lemma_parse_pieces_none(pieces: Seq<Seq<char>>, k: int)
    requires
        0 <= k <= pieces.len(),
        parse_pieces(pieces.take(k)) is None,
    ensures
        parse_pieces(pieces) is None,
    decreases pieces.len() - k,
{
    if k < pieces.len() {
        assert(pieces.take(k + 1).drop_last() =~= pieces.take(k));
        lemma_parse_pieces_none(pieces, k + 1);
    } else {
        assert(pieces.take(k) =~= pieces);
    }
}

impl UnityVersion {
    pub fn new(version: Vec<u32>, build_type: Option<String>) -> (r: UnityVersion)
        ensures
            r@.version == version@,
            r@.build_type == opt_string_view(build_type),
    {
        UnityVersion { version, build_type }
    }

    /// A version from its pieces and build letter; `None` when a piece is not a
    /// decimal `u32`.
    pub fn from_parts(pieces: &[String], build_type: Option<String>) -> (r: Option<UnityVersion>)
        ensures
            match parse_pieces(strings_view(pieces@)) {
                Some(vs) => r matches Some(v) && v@.version == vs && v@.build_type == opt_string_view(
                    build_type,
                ),
                None => r is None,
            },
    {
        let ghost pv = strings_view(pieces@);
        let mut version: Vec<u32> = Vec::new();
        let mut i: usize = 0;
        assert(pv.take(0) =~= seq![]);
        while i < pieces.len()
            invariant
                i <= pieces@.len(),
                pv == strings_view(pieces@),
                parse_pieces(pv.take(i as int)) == Some(version@),
            decreases pieces.len() - i,
        {
            proof {
                assert(pv.take(i + 1).drop_last() =~= pv.take(i as int));
                assert(pv.take(i + 1).last() == pieces@[i as int]@);
            }
            match parse_u32(&pieces[i]) {
                Some(v) => version.push(v),
                None => {
                    proof {
                        lemma_parse_pieces_none(pv, i + 1);
                    }
                    return None;
                },
            }
            i = i + 1;
        }
        assert(pv.take(pieces@.len() as int) =~= pv);
        Some(UnityVersion { version, build_type })
    }

    /// Parses a version such as `2019.4.0f1`: its numbers are the pieces between
    /// non-digits, its build letter the first character that is neither a digit nor a
    /// dot. `None` when a piece is not a decimal `u32` (an empty string, or two
    /// non-digits in a row).
    pub fn from_str(version: &str) -> (r: Option<UnityVersion>)
        ensures
            match parse_pieces(non_digit_split(version@)) {
                Some(vs) => r matches Some(v) && v@.version == vs && v@.build_type
                    == build_type_match(version@),
                None => r is None,
            },
    {
        let pieces = split_at_non_digits(version);
        let build_type = find_build_type(version);
        UnityVersion::from_parts(pieces.as_slice(), build_type)
    }

    /// Whether this is an alpha build.
    pub fn is_alpha(&self) -> (r: bool)
        ensures
            r == (self@.build_type == Some("a"@)),
    {
        match &self.build_type {
            Some(s) => crate::type_tree::convert::string_is(s, "a"),
            None => false,
        }
    }

    /// Whether this is a patch build.
    pub fn is_patch(&self) -> (r: bool)
        ensures
            r == (self@.build_type == Some("p"@)),
    {
        match &self.build_type {
            Some(s) => crate::type_tree::convert::string_is(s, "p"),
            None => false,
        }
    }

    /// The version numbers.
    pub fn get_version(&self) -> (r: &Vec<u32>)
        ensures
            r@ == self@.version,
    {
        &self.version
    }

    /// The build letter.
    pub fn get_build_type(&self) -> (r: &Option<String>)
        ensures
            opt_string_view(*r) == self@.build_type,
    {
        &self.build_type
    }
}

} // verus!
