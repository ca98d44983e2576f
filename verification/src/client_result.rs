//! Classified results of decoding a barcode: the payload kinds the client
//! layer distinguishes, and the union type handed to callers.

use vstd::prelude::*;

verus! {

/// The kind of a parsed result.
#[derive(Clone, Copy, PartialEq, Eq, Structural, Debug)]
pub enum ParsedRXingResultType {
    TEXT,
    TEL,
    ISBN,
    WIFI,
    GEO,
}

/// Plain text content.
pub struct TextParsedRXingResult {
    pub text: String,
}

impl TextParsedRXingResult {
    pub fn new(text: String) -> (r: TextParsedRXingResult)
        ensures
            r.text == text,
    {
        TextParsedRXingResult { text }
    }

    pub fn getType(&self) -> (r: ParsedRXingResultType)
        ensures
            r == ParsedRXingResultType::TEXT,
    {
        ParsedRXingResultType::TEXT
    }

    pub fn getDisplayRXingResult(&self) -> (r: String)
        ensures
            r == self.text,
    {
        self.text.clone()
    }
}

/// A telephone number, with its `tel:` URI.
pub struct TelParsedRXingResult {
    pub number: String,
    pub telURI: String,
}

impl TelParsedRXingResult {
    pub fn new(number: String, telURI: String) -> (r: TelParsedRXingResult)
        ensures
            r.number == number,
            r.telURI == telURI,
    {
        TelParsedRXingResult { number, telURI }
    }

    pub fn getType(&self) -> (r: ParsedRXingResultType)
        ensures
            r == ParsedRXingResultType::TEL,
    {
        ParsedRXingResultType::TEL
    }

    pub fn getDisplayRXingResult(&self) -> (r: String)
        ensures
            r == self.number,
    {
        self.number.clone()
    }
}

/// An ISBN book number.
pub struct ISBNParsedRXingResult {
    pub isbn: String,
}

impl ISBNParsedRXingResult {
    pub fn new(isbn: String) -> (r: ISBNParsedRXingResult)
        ensures
            r.isbn == isbn,
    {
        ISBNParsedRXingResult { isbn }
    }

    pub fn getType(&self) -> (r: ParsedRXingResultType)
        ensures
            r == ParsedRXingResultType::ISBN,
    {
        ParsedRXingResultType::ISBN
    }

    pub fn getDisplayRXingResult(&self) -> (r: String)
        ensures
            r == self.isbn,
    {
        self.isbn.clone()
    }
}

/// Credentials of a wireless network.
pub struct WifiParsedRXingResult {
    pub ssid: String,
    pub networkEncryption: String,
    pub password: String,
}

impl WifiParsedRXingResult {
    pub fn new(ssid: String, networkEncryption: String, password: String) -> (r:
        WifiParsedRXingResult)
        ensures
            r.ssid == ssid,
            r.networkEncryption == networkEncryption,
            r.password == password,
    {
        WifiParsedRXingResult { ssid, networkEncryption, password }
    }

    pub fn getType(&self) -> (r: ParsedRXingResultType)
        ensures
            r == ParsedRXingResultType::WIFI,
    {
        ParsedRXingResultType::WIFI
    }

    pub fn getDisplayRXingResult(&self) -> (r: String)
        ensures
            r == self.ssid,
    {
        self.ssid.clone()
    }
}

/// A geographic position, as its `geo:` URI.
pub struct GeoParsedRXingResult {
    pub geoURI: String,
}

impl GeoParsedRXingResult {
    pub fn new(geoURI: String) -> (r: GeoParsedRXingResult)
        ensures
            r.geoURI == geoURI,
    {
        GeoParsedRXingResult { geoURI }
    }

    pub fn getType(&self) -> (r: ParsedRXingResultType)
        ensures
            r == ParsedRXingResultType::GEO,
    {
        ParsedRXingResultType::GEO
    }

    pub fn getDisplayRXingResult(&self) -> (r: String)
        ensures
            r == self.geoURI,
    {
        self.geoURI.clone()
    }
}

/// Any classified result a client can receive.
pub enum ParsedClientResult {
    TextResult(TextParsedRXingResult),
    TelResult(TelParsedRXingResult),
    ISBNResult(ISBNParsedRXingResult),
    WiFiResult(WifiParsedRXingResult),
    GeoResult(GeoParsedRXingResult),
}

impl ParsedClientResult {
    /// The kind of this result.
    pub open spec fn spec_type(&self) -> ParsedRXingResultType {
        match self {
            ParsedClientResult::TextResult(_) => ParsedRXingResultType::TEXT,
            ParsedClientResult::TelResult(_) => ParsedRXingResultType::TEL,
            ParsedClientResult::ISBNResult(_) => ParsedRXingResultType::ISBN,
            ParsedClientResult::WiFiResult(_) => ParsedRXingResultType::WIFI,
            ParsedClientResult::GeoResult(_) => ParsedRXingResultType::GEO,
        }
    }

    /// The text shown to a user for this result.
    pub open spec fn spec_display(&self) -> String {
        match self {
            ParsedClientResult::TextResult(a) => a.text,
            ParsedClientResult::TelResult(a) => a.number,
            ParsedClientResult::ISBNResult(a) => a.isbn,
            ParsedClientResult::WiFiResult(a) => a.ssid,
            ParsedClientResult::GeoResult(a) => a.geoURI,
        }
    }

    pub fn getType(&self) -> (r: ParsedRXingResultType)
        ensures
            r == self.spec_type(),
    {
        match self {
            ParsedClientResult::TextResult(a) => a.getType(),
            ParsedClientResult::TelResult(a) => a.getType(),
            ParsedClientResult::ISBNResult(a) => a.getType(),
            ParsedClientResult::WiFiResult(a) => a.getType(),
            ParsedClientResult::GeoResult(a) => a.getType(),
        }
    }

    pub fn getDisplayRXingResult(&self) -> (r: String)
        ensures
            r == self.spec_display(),
    {
        match self {
            ParsedClientResult::TextResult(a) => a.getDisplayRXingResult(),
            ParsedClientResult::TelResult(a) => a.getDisplayRXingResult(),
            ParsedClientResult::ISBNResult(a) => a.getDisplayRXingResult(),
            ParsedClientResult::WiFiResult(a) => a.getDisplayRXingResult(),
            ParsedClientResult::GeoResult(a) => a.getDisplayRXingResult(),
        }
    }
}

} // verus!
