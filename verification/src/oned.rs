//! Selection of one-dimensional barcode readers.
//!
//! The multi-format reader holds an ordered list of sub-readers chosen
//! from the decoding hints: either the readers for the formats a caller
//! declared possible, or the full default set when no format hint was
//! given.

use vstd::prelude::*;

verus! {

/// The one-dimensional barcode formats this selection distinguishes.
#[derive(Clone, Copy, PartialEq, Eq, Structural, Debug)]
pub enum BarcodeFormat {
    CODE_39,
    CODE_93,
    CODE_128,
    ITF,
    CODABAR,
}

/// One sub-reader of the multi-format reader.
#[derive(Clone, Copy, PartialEq, Eq, Structural, Debug)]
pub enum OneDReaderKind {
    Code39 { useCheckDigit: bool },
    Code93,
    Code128,
    ITF,
    CodaBar,
}

/// The decoding hints that reader selection looks at.
pub struct DecodingHintDictionary {
    pub possible_formats: Option<Vec<BarcodeFormat>>,
    pub assume_code39_check_digit: bool,
}

/// The formats named by the hints, as a sequence.
pub open spec fn formats_view(hints: &DecodingHintDictionary) -> Option<Seq<BarcodeFormat>> {
    match hints.possible_formats {
        None => None,
        Some(v) => Some(v@),
    }
}

/// The readers picked for the hinted formats, in the fixed order the
/// reader tries them.
pub open spec fn hinted_readers(formats: Seq<BarcodeFormat>, useCheckDigit: bool) -> Seq<
    OneDReaderKind,
> {
    (if formats.contains(BarcodeFormat::CODE_39) {
        seq![OneDReaderKind::Code39 { useCheckDigit }]
    } else {
        Seq::empty()
    }) + (if formats.contains(BarcodeFormat::CODE_93) {
        seq![OneDReaderKind::Code93]
    } else {
        Seq::empty()
    }) + (if formats.contains(BarcodeFormat::CODE_128) {
        seq![OneDReaderKind::Code128]
    } else {
        Seq::empty()
    }) + (if formats.contains(BarcodeFormat::ITF) {
        seq![OneDReaderKind::ITF]
    } else {
        Seq::empty()
    }) + (if formats.contains(BarcodeFormat::CODABAR) {
        seq![OneDReaderKind::CodaBar]
    } else {
        Seq::empty()
    })
}

/// The default reader list used when the hints select nothing.
pub open spec fn default_readers() -> Seq<OneDReaderKind> {
    seq![
        OneDReaderKind::Code39 { useCheckDigit: false },
        OneDReaderKind::CodaBar,
        OneDReaderKind::Code93,
        OneDReaderKind::Code128,
        OneDReaderKind::ITF,
    ]
}

/// The reader list that `MultiFormatOneDReader::new` builds from hints.
pub open spec fn spec_readers_for(hints: &DecodingHintDictionary) -> Seq<OneDReaderKind> {
    let base = match formats_view(hints) {
        None => Seq::empty(),
        Some(fs) => hinted_readers(fs, hints.assume_code39_check_digit),
    };
    if base.len() == 0 {
        default_readers()
    } else {
        base
    }
}

/// A reader that tries an ordered list of one-dimensional sub-readers.
pub struct MultiFormatOneDReader(pub Vec<OneDReaderKind>);

fn contains_format(formats: &Vec<BarcodeFormat>, f: BarcodeFormat) -> (r: bool)
    ensures
        r == formats@.contains(f),
{
    let mut i: usize = 0;
    while i < formats.len()
        invariant
            i <= formats@.len(),
            forall|k: int| 0 <= k < i ==> formats@[k] != f,
        decreases formats@.len() - i,
    {
        if formats[i] == f {
            return true;
        }
        i = i + 1;
    }
    false
}

impl MultiFormatOneDReader {
    /// Picks the sub-readers that the hints call for, or the default set
    /// when the hints select none.
    pub fn new(hints: &DecodingHintDictionary) -> (r: MultiFormatOneDReader)
        ensures
            r.0@ == spec_readers_for(hints),
    {
        let useCode39CheckDigit = hints.assume_code39_check_digit;
        let mut readers: Vec<OneDReaderKind> = Vec::new();
        if let Some(possibleFormats) = &hints.possible_formats {
            let ghost fs = possibleFormats@;
            if contains_format(possibleFormats, BarcodeFormat::CODE_39) {
                readers.push(OneDReaderKind::Code39 { useCheckDigit: useCode39CheckDigit });
            }
            if contains_format(possibleFormats, BarcodeFormat::CODE_93) {
                readers.push(OneDReaderKind::Code93);
            }
            if contains_format(possibleFormats, BarcodeFormat::CODE_128) {
                readers.push(OneDReaderKind::Code128);
            }
            if contains_format(possibleFormats, BarcodeFormat::ITF) {
                readers.push(OneDReaderKind::ITF);
            }
            if contains_format(possibleFormats, BarcodeFormat::CODABAR) {
                readers.push(OneDReaderKind::CodaBar);
            }
            proof {
                assert(readers@ =~= hinted_readers(fs, useCode39CheckDigit));
            }
        }
        if readers.len() == 0 {
            readers.push(OneDReaderKind::Code39 { useCheckDigit: false });
            readers.push(OneDReaderKind::CodaBar);
            readers.push(OneDReaderKind::Code93);
            readers.push(OneDReaderKind::Code128);
            readers.push(OneDReaderKind::ITF);
            proof {
                assert(readers@ =~= default_readers());
            }
        }
        MultiFormatOneDReader(readers)
    }
}

} // verus!
