use rxing::client_result::GeoParsedRXingResult;
use rxing::client_result::ISBNParsedRXingResult;
use rxing::client_result::ParsedClientResult;
use rxing::client_result::ParsedRXingResultType;
use rxing::client_result::TelParsedRXingResult;
use rxing::client_result::TextParsedRXingResult;
use rxing::client_result::WifiParsedRXingResult;
use rxing::bit_matrix::BitMatrix;
use rxing::geom::Point;
use rxing::oned::BarcodeFormat;
use rxing::oned::DecodingHintDictionary;
use rxing::oned::MultiFormatOneDReader;
use rxing::oned::OneDReaderKind;
use rxing::pdf417::BarcodeValue;
use rxing::pdf417::BoundingBox;
use rxing::pdf417::Codeword;
use rxing::pdf417::DetectionRXingResultColumn;
use rxing::pdf417::DetectionRXingResultRowIndicatorColumn;
use rxing::qr_result::QRCodeDetectorResult;

#[test]
fn codeword_indicator_row_number() {
    let mut c = Codeword::new(35, 6);
    assert_eq!(c.getValue(), 35);
    assert_eq!(c.getRowNumber(), -1);
    c.setRowNumberAsRowIndicatorColumn();
    // (35 % 30) * 3 + 6 / 3 = 15 + 2
    assert_eq!(c.getRowNumber(), 17);
}

#[test]
fn barcode_value_majority_and_tie() {
    let mut v = BarcodeValue::new();
    for x in [5u32, 7, 5, 7, 9] {
        v.setValue(x);
    }
    // 5 and 7 are tied at two votes each; first-voted first.
    assert_eq!(v.getValue(), vec![5, 7]);

    let mut w = BarcodeValue::new();
    w.setValue(4);
    w.setValue(4);
    w.setValue(2);
    assert_eq!(w.getValue(), vec![4]);

    let empty = BarcodeValue::new();
    assert_eq!(empty.getValue(), Vec::<u32>::new());
}

/// A column over ten image rows with three consistent indicator
/// codewords voting column count 3, row count 4 + 1, error correction
/// level 2.
fn consistent_column() -> DetectionRXingResultRowIndicatorColumn {
    let bb = BoundingBox::new(0, 5, 0, 9);
    let mut col = DetectionRXingResultRowIndicatorColumn::new(&bb, true);
    // value 1, bucket 0: row 3, votes upper part 4.
    col.0.setCodeword(0, Codeword::new(1, 0));
    // value 7, bucket 3: row 22, votes lower part 1, level 2.
    col.0.setCodeword(1, Codeword::new(7, 3));
    // value 2, bucket 6: row 8, votes column count 3.
    col.0.setCodeword(2, Codeword::new(2, 6));
    col
}

#[test]
fn barcode_metadata_from_votes() {
    let mut col = consistent_column();
    assert!(col.isLeft());
    let meta = col.getBarcodeMetadata().expect("conclusive votes");
    assert_eq!(meta.getColumnCount(), 3);
    assert_eq!(meta.getRowCountUpperPart(), 4);
    assert_eq!(meta.getRowCountLowerPart(), 1);
    assert_eq!(meta.getRowCount(), 5);
    assert_eq!(meta.getErrorCorrectionLevel(), 2);
    // After the vote the cleanup keeps only codewords whose row number
    // fits the voted row count: row 3 stays, rows 22 and 8 are dropped.
    assert_eq!(col.0.codewords[0].unwrap().getRowNumber(), 3);
    assert!(col.0.codewords[1].is_none());
    assert!(col.0.codewords[2].is_none());
    assert!(col.0.codewords[3].is_none());
}

#[test]
fn inconclusive_votes_give_no_metadata() {
    let bb = BoundingBox::new(0, 5, 0, 9);
    let mut col = DetectionRXingResultRowIndicatorColumn::new(&bb, true);
    // Only an upper-part vote: the other quantities have no votes.
    col.0.setCodeword(0, Codeword::new(1, 0));
    assert!(col.getBarcodeMetadata().is_none());
    let empty_bb = BoundingBox::new(0, 5, 0, 9);
    let mut empty = DetectionRXingResultRowIndicatorColumn::new(&empty_bb, false);
    assert!(empty.getRowHeights().is_none());
}

#[test]
fn row_heights_counts_rows() {
    let mut col = consistent_column();
    let heights = col.getRowHeights().expect("conclusive votes");
    // One vector entry per barcode row.
    assert_eq!(heights.len(), 5);
    // Row 3 keeps its one codeword; rows 22 and 8 exceeded the row
    // count and were already dropped by the metadata cleanup.
    assert_eq!(heights, vec![0, 0, 0, 1, 0]);
}

#[test]
fn adjust_complete_drops_implausible_row_numbers() {
    let mut col = consistent_column();
    let meta = col.getBarcodeMetadata().expect("conclusive votes");
    // Only the row-3 codeword survived the vote; the complete
    // adjustment then drops it too, since a jump to row 3 right at the
    // first slot is implausible.
    col.adjustCompleteIndicatorColumnRowNumbers(&meta);
    assert!(col.0.codewords[0].is_none());
    assert!(col.0.codewords[1].is_none());
    assert!(col.0.codewords[2].is_none());
}

#[test]
fn column_indexing() {
    let bb = BoundingBox::new(2, 4, 10, 14);
    let col = DetectionRXingResultColumn::new(&bb);
    assert_eq!(col.codewords.len(), 5);
    assert_eq!(col.imageRowToCodewordIndex(10), 0);
    assert_eq!(col.imageRowToCodewordIndex(14), 4);
    assert_eq!(col.getBoundingBox().getTopLeft(), Point { x: 2, y: 10 });
    assert_eq!(col.getBoundingBox().getBottomRight(), Point { x: 4, y: 14 });
}

#[test]
fn one_d_reader_selection_default() {
    let hints = DecodingHintDictionary { possible_formats: None, assume_code39_check_digit: false };
    let reader = MultiFormatOneDReader::new(&hints);
    assert_eq!(
        reader.0,
        vec![
            OneDReaderKind::Code39 { useCheckDigit: false },
            OneDReaderKind::CodaBar,
            OneDReaderKind::Code93,
            OneDReaderKind::Code128,
            OneDReaderKind::ITF,
        ]
    );
}

#[test]
fn one_d_reader_selection_hinted() {
    let hints = DecodingHintDictionary {
        possible_formats: Some(vec![BarcodeFormat::ITF, BarcodeFormat::CODE_93]),
        assume_code39_check_digit: false,
    };
    let reader = MultiFormatOneDReader::new(&hints);
    assert_eq!(reader.0, vec![OneDReaderKind::Code93, OneDReaderKind::ITF]);

    let code39_hints = DecodingHintDictionary {
        possible_formats: Some(vec![BarcodeFormat::CODE_39]),
        assume_code39_check_digit: true,
    };
    let reader39 = MultiFormatOneDReader::new(&code39_hints);
    assert_eq!(reader39.0, vec![OneDReaderKind::Code39 { useCheckDigit: true }]);

    // A format list selecting nothing falls back to the default set.
    let none = DecodingHintDictionary {
        possible_formats: Some(vec![]),
        assume_code39_check_digit: false,
    };
    let fallback = MultiFormatOneDReader::new(&none);
    assert_eq!(fallback.0.len(), 5);
}

#[test]
fn parsed_client_result_type_and_display() {
    let text = ParsedClientResult::TextResult(TextParsedRXingResult::new("hello".to_string()));
    assert_eq!(text.getType(), ParsedRXingResultType::TEXT);
    assert_eq!(text.getDisplayRXingResult(), "hello");

    let tel = ParsedClientResult::TelResult(TelParsedRXingResult::new(
        "555-1234".to_string(),
        "tel:555-1234".to_string(),
    ));
    assert_eq!(tel.getType(), ParsedRXingResultType::TEL);
    assert_eq!(tel.getDisplayRXingResult(), "555-1234");

    let isbn = ParsedClientResult::ISBNResult(ISBNParsedRXingResult::new("9780316066525".to_string()));
    assert_eq!(isbn.getType(), ParsedRXingResultType::ISBN);
    assert_eq!(isbn.getDisplayRXingResult(), "9780316066525");

    let wifi = ParsedClientResult::WiFiResult(WifiParsedRXingResult::new(
        "mynet".to_string(),
        "WPA".to_string(),
        "secret".to_string(),
    ));
    assert_eq!(wifi.getType(), ParsedRXingResultType::WIFI);
    assert_eq!(wifi.getDisplayRXingResult(), "mynet");

    let geo = ParsedClientResult::GeoResult(GeoParsedRXingResult::new(
        "geo:40.71,-74.00".to_string(),
    ));
    assert_eq!(geo.getType(), ParsedRXingResultType::GEO);
    assert_eq!(geo.getDisplayRXingResult(), "geo:40.71,-74.00");
}

#[test]
fn qr_detector_result_holds_its_parts() {
    let mut bits = BitMatrix::new(3, 3);
    bits.set(1, 1, true);
    let points = vec![Point { x: 0, y: 0 }, Point { x: 2, y: 2 }];
    let r = QRCodeDetectorResult::new(bits, points);
    assert!(r.getBits().get(1, 1));
    assert!(!r.getBits().get(0, 0));
    assert_eq!(r.getPoints().len(), 2);
    assert_eq!(r.getPoints()[1], Point { x: 2, y: 2 });
}

#[test]
fn right_column_metadata_uses_shifted_rows() {
    // On a right-side indicator column the row number is shifted by two
    // before choosing which quantity a codeword votes for.
    let bb = BoundingBox::new(0, 5, 0, 9);
    let mut col = DetectionRXingResultRowIndicatorColumn::new(&bb, false);
    assert!(!col.isLeft());
    // value 1, bucket 3: row 4, shifted 6, votes upper part 4.
    col.0.setCodeword(0, Codeword::new(1, 3));
    // value 7, bucket 6: row 23, shifted 25, votes lower part 1, level 2.
    col.0.setCodeword(1, Codeword::new(7, 6));
    // value 2, bucket 0: row 6, shifted 8, votes column count 3.
    col.0.setCodeword(2, Codeword::new(2, 0));
    let meta = col.getBarcodeMetadata().expect("conclusive votes");
    assert_eq!(meta.getColumnCount(), 3);
    assert_eq!(meta.getRowCountUpperPart(), 4);
    assert_eq!(meta.getRowCountLowerPart(), 1);
    assert_eq!(meta.getErrorCorrectionLevel(), 2);
    assert_eq!(meta.getRowCount(), 5);
}
