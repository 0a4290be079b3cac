use vstd::prelude::*;
use crate::error::CarryError;

verus! {

/// The exchanges the books come from.
#[derive(Debug, Clone, Copy, PartialEq, Eq, Structural, PartialOrd, Ord, Hash)]
pub enum Venue {
    Hyperliquid,
    Lighter,
}

/// ASCII upper-case letters mapped to lower case; every other character unchanged.
pub open spec fn ascii_lower(c: char) -> char {
    if 'A' <= c && c <= 'Z' {
        ((c as int) + 32) as char
    } else {
        c
    }
}

/// A string with its ASCII letters in lower case.
pub open spec fn ascii_lower_seq(s: Seq<char>) -> Seq<char> {
    s.map_values(|c: char| ascii_lower(c))
}

/// The venue a name denotes, ignoring ASCII case; `hl` stands for Hyperliquid.
pub open spec fn venue_of_name(s: Seq<char>) -> Option<Venue> {
    let l = ascii_lower_seq(s);
    if l == "hyperliquid"@ || l == "hl"@ {
        Some(Venue::Hyperliquid)
    } else if l == "lighter"@ {
        Some(Venue::Lighter)
    } else {
        None
    }
}

/// The lower-case name of a venue.
pub open spec fn venue_name(v: Venue) -> Seq<char> {
    match v {
        Venue::Hyperliquid => "hyperliquid"@,
        Venue::Lighter => "lighter"@,
    }
}

/// `str::to_ascii_lowercase`: ASCII letters 'A' to 'Z' mapped to 'a' to 'z', every other
/// character unchanged.
#[verifier::external_body]
fn to_ascii_lowercase(s: &str) -> (r: String)
    ensures
        r@ == ascii_lower_seq(s@),
{
    s.to_ascii_lowercase()
}

impl Venue {
    /// Every venue, in declaration order.
    pub const ALL: [Venue; 2] = [Venue::Hyperliquid, Venue::Lighter];

    /// The lower-case name of the venue.
    pub fn as_str(self) -> (s: &'static str)
        ensures
            s@ == venue_name(self),
    {
        match self {
            Venue::Hyperliquid => "hyperliquid",
            Venue::Lighter => "lighter",
        }
    }

    /// The name as an owned string, as it is displayed.
    pub fn to_string(&self) -> (s: String)
        ensures
            s@ == venue_name(*self),
    {
        self.as_str().to_owned()
    }

    /// Parses a venue name, ignoring ASCII case and accepting `hl` for Hyperliquid.
    pub fn parse(s: &str) -> (r: Result<Venue, CarryError>)
        ensures
            venue_of_name(s@) matches Some(v) ==> r == Ok::<Venue, CarryError>(v),
            venue_of_name(s@) is None ==> (r is Err && r->Err_0 is UnknownVenue
                && r->Err_0->UnknownVenue_0@ == s@),
    {
        let lower = to_ascii_lowercase(s);
        let hyperliquid = "hyperliquid".to_owned();
        let hl = "hl".to_owned();
        let lighter = "lighter".to_owned();
        if lower == hyperliquid || lower == hl {
            Ok(Venue::Hyperliquid)
        } else if lower == lighter {
            Ok(Venue::Lighter)
        } else {
            Err(CarryError::UnknownVenue(s.to_owned()))
        }
    }
}

impl std::str::FromStr for Venue {
    type Err = CarryError;

    fn from_str(s: &str) -> (r: Result<Venue, CarryError>)
        ensures
            venue_of_name(s@) matches Some(v) ==> r == Ok::<Venue, CarryError>(v),
            venue_of_name(s@) is None ==> (r is Err && r->Err_0 is UnknownVenue
                && r->Err_0->UnknownVenue_0@ == s@),
    {
        Venue::parse(s)
    }
}

/// Parsing the name of a venue gives the venue back.
pub proof fn lemma_parse_name(v: Venue)
    ensures
        venue_of_name(venue_name(v)) == Some(v),
{
    reveal_strlit("hyperliquid");
    reveal_strlit("lighter");
    reveal_strlit("hl");
    let n = venue_name(v);
    assert(ascii_lower_seq(n) =~= n);
    if v == Venue::Lighter {
        assert(n != "hyperliquid"@) by {
            assert(n.len() != "hyperliquid"@.len());
        }
        assert(n != "hl"@) by {
            assert(n.len() != "hl"@.len());
        }
    }
}

} // verus!
