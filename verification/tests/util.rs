use quark::codes::{
    cvt, intercept, raw_code, LayerError, RAW_ERROR_FUNCTION_UNSUPPORTED,
    RAW_ERROR_HANDLE_INVALID, RAW_ERROR_INITIALIZATION_FAILED, RAW_ERROR_SIZE_INSUFFICIENT,
    RAW_ERROR_VALIDATION_FAILURE, RAW_SUCCESS,
};
use quark::util::{bytes_eq, copy_str_to_buffer, enumerate, utf8_valid, CharBuffer, Rustify};

#[test]
fn enumerate_zero_input_count_reports_count_without_touching_buffer() {
    let items: Vec<u16> = vec![5, 6, 7];
    let mut count: u32 = 0;
    let mut buf: Vec<u16> = vec![111, 222];
    assert!(enumerate(0, &mut count, &mut buf, &items).is_ok());
    assert_eq!(count, 3);
    assert_eq!(buf, vec![111, 222]);
}

#[test]
fn enumerate_small_buffer_fails_size_insufficient_and_buffer_untouched() {
    let items: Vec<u16> = vec![5, 6, 7];
    let mut count: u32 = 0;
    let mut buf: Vec<u16> = vec![111];
    assert_eq!(
        enumerate(2, &mut count, &mut buf, &items).unwrap_err(),
        LayerError::SizeInsufficient
    );
    assert_eq!(count, 3);
    assert_eq!(buf, vec![111]);
}

#[test]
fn enumerate_sufficient_buffer_copies_exactly_the_items() {
    let items: Vec<u16> = vec![5, 6, 7];
    let mut count: u32 = 0;
    let mut buf: Vec<u16> = Vec::new();
    assert!(enumerate(3, &mut count, &mut buf, &items).is_ok());
    assert_eq!(count, 3);
    assert_eq!(buf, items);
    let mut buf2: Vec<u16> = Vec::new();
    assert!(enumerate(10, &mut count, &mut buf2, &items).is_ok());
    assert_eq!(buf2, items);
}

#[test]
fn enumerate_empty_items_always_succeeds() {
    let items: Vec<u16> = Vec::new();
    let mut count: u32 = 7;
    let mut buf: Vec<u16> = Vec::new();
    assert!(enumerate(0, &mut count, &mut buf, &items).is_ok());
    assert_eq!(count, 0);
    assert!(enumerate(4, &mut count, &mut buf, &items).is_ok());
    assert_eq!(count, 0);
    assert!(buf.is_empty());
}

#[test]
fn bytes_eq_is_exact() {
    assert!(bytes_eq(&b"abc".to_vec(), &b"abc".to_vec()));
    assert!(!bytes_eq(&b"abc".to_vec(), &b"abd".to_vec()));
    assert!(!bytes_eq(&b"abc".to_vec(), &b"ab".to_vec()));
    assert!(bytes_eq(&Vec::new(), &Vec::new()));
}

#[test]
fn char_buffer_recovers_bytes_before_first_nul() {
    let buf = CharBuffer { bytes: b"hello\0world\0".to_vec() };
    assert_eq!(buf.to_rust_string().unwrap(), b"hello".to_vec());
    let leading = CharBuffer { bytes: b"\0rest".to_vec() };
    assert_eq!(leading.to_rust_string().unwrap(), Vec::<u8>::new());
}

#[test]
fn char_buffer_accepts_multibyte_utf8() {
    let text = "héllo ☃ 𝄞";
    let mut bytes = text.as_bytes().to_vec();
    bytes.push(0);
    let buf = CharBuffer { bytes };
    assert_eq!(buf.to_rust_string().unwrap(), text.as_bytes().to_vec());
    // Bytes after the terminator play no part, whatever they hold.
    let buf2 = CharBuffer { bytes: vec![b'a', 0, 255] };
    assert_eq!(buf2.to_rust_string().unwrap(), b"a".to_vec());
    // The largest scalar value, U+10FFFF, is accepted.
    let max = CharBuffer { bytes: vec![0xF4, 0x8F, 0xBF, 0xBF, 0] };
    assert_eq!(max.to_rust_string().unwrap(), vec![0xF4, 0x8F, 0xBF, 0xBF]);
}

#[test]
fn char_buffer_rejects_text_that_is_not_utf8() {
    for bad in [
        vec![255, 0],                         // invalid lead byte
        vec![0x80, 0],                        // lone continuation byte
        vec![0xC0, 0x80, 0],                  // overlong two-byte form
        vec![0xE0, 0x80, 0x80, 0],            // overlong three-byte form
        vec![0xED, 0xA0, 0x80, 0],            // surrogate
        vec![0xF4, 0x90, 0x80, 0x80, 0],      // past U+10FFFF
        vec![0xF5, 0x80, 0x80, 0x80, 0],      // invalid lead byte
        vec![0xE2, 0x82, 0],                  // sequence truncated by the terminator
        vec![b'a', 0xC3, 0],                  // truncated after valid text
    ] {
        let buf = CharBuffer { bytes: bad.clone() };
        assert_eq!(
            buf.to_rust_string().unwrap_err(),
            LayerError::ValidationFailure,
            "accepted {:?}",
            bad
        );
    }
}

#[test]
fn utf8_validity_agrees_with_std_on_all_short_strings() {
    for a in 0..=255u8 {
        let v = vec![a];
        assert_eq!(utf8_valid(&v), std::str::from_utf8(&v).is_ok(), "{:?}", v);
        for b in 0..=255u8 {
            let v = vec![a, b];
            assert_eq!(utf8_valid(&v), std::str::from_utf8(&v).is_ok(), "{:?}", v);
        }
    }
    // Three- and four-byte sequences, with each byte swept over the
    // boundaries of every continuation range.
    let probes = [0x7F, 0x80, 0x8F, 0x90, 0x9F, 0xA0, 0xBF, 0xC0];
    for l in [0xE0, 0xE1, 0xEC, 0xED, 0xEE, 0xEF] {
        for b in probes {
            for c in probes {
                let v = vec![l, b, c];
                assert_eq!(utf8_valid(&v), std::str::from_utf8(&v).is_ok(), "{:?}", v);
            }
        }
    }
    for l in [0xF0, 0xF1, 0xF3, 0xF4, 0xF5] {
        for b in probes {
            for c in probes {
                for d in probes {
                    let v = vec![l, b, c, d];
                    assert_eq!(utf8_valid(&v), std::str::from_utf8(&v).is_ok(), "{:?}", v);
                }
            }
        }
    }
}

#[test]
fn char_buffer_without_terminator_is_validation_failure() {
    let buf = CharBuffer { bytes: b"no terminator".to_vec() };
    assert_eq!(buf.to_rust_string().unwrap_err(), LayerError::ValidationFailure);
    let empty = CharBuffer { bytes: Vec::new() };
    assert_eq!(empty.to_rust_string().unwrap_err(), LayerError::ValidationFailure);
}

#[test]
fn copy_str_to_buffer_truncates_and_zero_fills() {
    let mut buf = vec![9u8; 8];
    copy_str_to_buffer(&b"hi".to_vec(), &mut buf);
    assert_eq!(buf, vec![b'h', b'i', 0, 0, 0, 0, 0, 0]);
    let mut small = vec![9u8; 3];
    copy_str_to_buffer(&b"overflowing".to_vec(), &mut small);
    assert_eq!(small, vec![b'o', b'v', b'e']);
}

#[test]
fn raw_codes_map_each_failure_kind_onto_its_negative_code() {
    assert_eq!(raw_code(LayerError::ValidationFailure), RAW_ERROR_VALIDATION_FAILURE);
    assert_eq!(raw_code(LayerError::HandleInvalid), RAW_ERROR_HANDLE_INVALID);
    assert_eq!(raw_code(LayerError::SizeInsufficient), RAW_ERROR_SIZE_INSUFFICIENT);
    assert_eq!(raw_code(LayerError::FunctionUnsupported), RAW_ERROR_FUNCTION_UNSUPPORTED);
    assert_eq!(raw_code(LayerError::InitializationFailed), RAW_ERROR_INITIALIZATION_FAILED);
    assert_eq!(RAW_ERROR_VALIDATION_FAILURE, -1);
    assert_eq!(RAW_ERROR_INITIALIZATION_FAILED, -6);
    assert_eq!(RAW_ERROR_FUNCTION_UNSUPPORTED, -7);
    assert_eq!(RAW_ERROR_SIZE_INSUFFICIENT, -11);
    assert_eq!(RAW_ERROR_HANDLE_INVALID, -12);
}

#[test]
fn intercept_converts_every_internal_outcome_to_a_status_code() {
    assert_eq!(intercept(Ok(())), RAW_SUCCESS);
    assert_eq!(intercept(Err(LayerError::HandleInvalid)), RAW_ERROR_HANDLE_INVALID);
    assert!(intercept(Err(LayerError::ValidationFailure)) < 0);
}

#[test]
fn cvt_sorts_raw_codes_by_sign() {
    assert!(cvt(0).is_ok());
    assert!(cvt(3).is_ok());
    assert_eq!(cvt(-12).unwrap_err(), -12);
    assert_eq!(cvt(-1).unwrap_err(), -1);
}
