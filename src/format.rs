use vstd::prelude::*;

verus! {

/// Output format understood by Space-Track.
#[derive(Clone, Copy, Debug, PartialEq, Eq, Structural)]
pub enum Format {
    Json,
    Csv,
    Xml,
    Html,
    Tle,
    ThreeLine,
    Kvn,
}

impl Format {
    /// The lowercase token that names this format in a query URL.
    pub open spec fn token(self) -> Seq<char> {
        match self {
            Format::Json => "json"@,
            Format::Csv => "csv"@,
            Format::Xml => "xml"@,
            Format::Html => "html"@,
            Format::Tle => "tle"@,
            Format::ThreeLine => "3le"@,
            Format::Kvn => "kvn"@,
        }
    }

    pub fn as_str(self) -> (r: &'static str)
        ensures
            r@ == self.token(),
    {
        match self {
            Format::Json => "json",
            Format::Csv => "csv",
            Format::Xml => "xml",
            Format::Html => "html",
            Format::Tle => "tle",
            Format::ThreeLine => "3le",
            Format::Kvn => "kvn",
        }
    }
}

impl Default for Format {
    /// Structured JSON is the default: it is the one format with a generic
    /// decode path into any record type.
    fn default() -> (r: Self)
        ensures
            r == Format::Json,
    {
        Format::Json
    }
}

} // verus!
