use zkid::groth16::{
    is_zero_scalar, proof_inputs_ok, signals_foldable_under, verifying_key_readable,
    ZERO_SCALAR_ENCODINGS,
};
use zkid::matching::{find_window, search_in_pdf};
use zkid::orchestrator::{evaluate, verify_run, Outcome};
use zkid::text::document_text;

fn readable_key(extra_points: u32) -> Vec<u8> {
    let mut vk = vec![0x80u8; 292 + 32 * extra_points as usize];
    vk[288..292].copy_from_slice(&extra_points.to_be_bytes());
    vk
}

fn zone_signals() -> Vec<[u8; 32]> {
    let mut zone = b"P<UTO".to_vec();
    zone.extend_from_slice(b"ERIKSSON<<ANNA<MARIA<<<<<<<<<<<<<<<<<<<");
    zone.extend_from_slice(b"L898902C36UTO740812");
    while zone.len() < 93 {
        zone.push(b'<');
    }
    let mut out = Vec::new();
    for k in 0..3 {
        let mut e = [0u8; 32];
        for j in 0..31 {
            e[31 - j] = zone[31 * k + j];
        }
        out.push(e);
    }
    out
}

#[test]
fn empty_needle_never_matches() {
    assert!(!search_in_pdf(b"anything", "ANYTHING", b""));
    assert!(!search_in_pdf(b"", "", b""));
}

#[test]
fn match_in_text_ignores_needle_case() {
    assert!(search_in_pdf(b"%PDF-binary", "NAME: ERIKSSON", b"eriksson"));
}

#[test]
fn match_falls_back_to_raw_bytes() {
    // The extracted text lacks the surname; the raw bytes hold it.
    assert!(search_in_pdf(b"..(Eriksson) Tj..", "NAME: ?", b"ERIKSSON"));
}

#[test]
fn no_match_anywhere() {
    assert!(!search_in_pdf(b"..(Smith) Tj..", "NAME: SMITH", b"ERIKSSON"));
    assert!(!search_in_pdf(b"ERIK", "ERIK", b"ERIKSSON"));
}

#[test]
fn invalid_text_needle_uses_raw_bytes_only() {
    let needle = [0xffu8, b'a'];
    assert!(search_in_pdf(&[0x10, 0xff, b'A'], "", &needle));
    assert!(!search_in_pdf(b"xyz", "\u{ff}A", &needle));
}

#[test]
fn window_search_exact_and_folded() {
    assert!(find_window(b"abcdef", b"cde", false));
    assert!(!find_window(b"abcdef", b"CDE", false));
    assert!(find_window(b"abcdef", b"CDE", true));
    assert!(!find_window(b"ab", b"abc", true));
    assert!(find_window(b"ab", b"", false));
}

#[test]
fn document_text_joins_and_uppercases() {
    let pages = vec!["name: anna".to_string(), "straße".to_string()];
    assert_eq!(document_text(Some(pages)), "NAME: ANNA STRASSE");
    assert_eq!(document_text(Some(Vec::new())), "");
    assert_eq!(document_text(None), "");
}

#[test]
fn key_readability() {
    assert!(verifying_key_readable(&readable_key(0)));
    assert!(verifying_key_readable(&readable_key(3)));
    assert!(!verifying_key_readable(&[0x80u8; 291]));
    let mut short = readable_key(3);
    short.pop();
    assert!(!verifying_key_readable(&short));
    let mut unflagged = readable_key(2);
    unflagged[292 + 32] = 0x3f;
    assert!(!verifying_key_readable(&unflagged));
    let mut unflagged_head = readable_key(0);
    unflagged_head[128] = 0;
    assert!(!verifying_key_readable(&unflagged_head));
}

#[test]
fn shipped_groth16_key_is_readable() {
    assert!(verifying_key_readable(*sp1_verifier::GROTH16_VK_BYTES));
}

#[test]
fn proof_inputs_admissibility() {
    let signals = zone_signals();
    assert!(proof_inputs_ok(&signals, &readable_key(4)));
    assert!(proof_inputs_ok(&signals, *sp1_verifier::GROTH16_VK_BYTES));
    assert!(!proof_inputs_ok(&signals, &[0u8; 10]));
    assert!(!proof_inputs_ok(&[[0u8; 32]; 3], &readable_key(4)));
    assert!(proof_inputs_ok(&[[0u8; 32]; 3], &readable_key(3)));
}

#[test]
fn no_document_commits_defaults() {
    let signals = zone_signals();
    let o = evaluate(true, &signals, &[], 1, true, "ERIKSSON");
    assert_eq!(
        o,
        Outcome {
            proof_valid: true,
            document_valid: false,
            surname_match: false,
            given_name_match: false,
            dob_match: false,
            signal_count: 3,
        }
    );
    let o = evaluate(false, &[], &[], 7, false, "");
    assert_eq!((o.proof_valid, o.document_valid, o.signal_count), (false, false, 0));
}

#[test]
fn invalid_signature_forces_no_match() {
    let signals = zone_signals();
    let o = evaluate(true, &signals, b"ERIKSSON ANNA MARIA 740812", 1, false, "ERIKSSON");
    assert!(!o.document_valid);
    assert!(!o.surname_match && !o.given_name_match && !o.dob_match);
    assert_eq!(o.signal_count, 3);
}

#[test]
fn valid_document_cross_checks_each_field() {
    let signals = zone_signals();
    let o = evaluate(false, &signals, b"%PDF raw", 1, true, "SURNAME ERIKSSON GIVEN ANNA MARIA");
    assert_eq!(
        o,
        Outcome {
            proof_valid: false,
            document_valid: true,
            surname_match: true,
            given_name_match: true,
            dob_match: false,
            signal_count: 3,
        }
    );
}

#[test]
fn surname_found_in_raw_bytes_when_text_lacks_it() {
    let signals = zone_signals();
    let o = evaluate(true, &signals, b"..(Eriksson)..(1974-08-12)", 1, true, "");
    assert!(o.document_valid);
    assert!(o.surname_match);
    assert!(!o.given_name_match);
    assert!(!o.dob_match);
}

#[test]
fn unrecognized_tag_decodes_without_failing() {
    // Expected fallback behaviour: an unknown tag takes the passport layout.
    let signals = zone_signals();
    let known = evaluate(true, &signals, b"ERIKSSON", 1, true, "");
    let unknown = evaluate(true, &signals, b"ERIKSSON", 42, true, "");
    assert_eq!(known, unknown);
    assert!(unknown.surname_match);
}

#[test]
fn runs_are_repeatable() {
    let signals = zone_signals();
    let pages = vec!["Eriksson Anna Maria".to_string()];
    let a = verify_run(false, &signals, b"raw", 1, true, Some(pages.clone()));
    let b = verify_run(false, &signals, b"raw", 1, true, Some(pages));
    assert_eq!(a, b);
    assert_eq!(
        a,
        Outcome {
            proof_valid: false,
            document_valid: true,
            surname_match: true,
            given_name_match: true,
            dob_match: false,
            signal_count: 3,
        }
    );
}

#[test]
fn run_without_document() {
    let signals = zone_signals();
    let o = verify_run(false, &signals, &[], 0, false, None);
    assert_eq!(
        o,
        Outcome {
            proof_valid: false,
            document_valid: false,
            surname_match: false,
            given_name_match: false,
            dob_match: false,
            signal_count: 3,
        }
    );
}

fn scalar_modulus() -> [u8; 32] {
    let mut r = [0u8; 32];
    let hex = "30644e72e131a029b85045b68181585d2833e84879b9709143e1f593f0000001";
    for i in 0..32 {
        r[i] = u8::from_str_radix(&hex[2 * i..2 * i + 2], 16).unwrap();
    }
    r
}

#[test]
fn zero_scalar_encodings_are_the_multiples_of_the_modulus() {
    let r = scalar_modulus();
    assert_eq!(ZERO_SCALAR_ENCODINGS[0], [0u8; 32]);
    assert_eq!(ZERO_SCALAR_ENCODINGS[1], r);
    for k in 1..6 {
        // Each entry is the previous one plus r, in big-endian arithmetic.
        let mut sum = [0u8; 32];
        let mut carry = 0u16;
        for i in (0..32).rev() {
            let t = ZERO_SCALAR_ENCODINGS[k - 1][i] as u16 + r[i] as u16 + carry;
            sum[i] = (t & 0xff) as u8;
            carry = t >> 8;
        }
        assert_eq!(carry, 0);
        assert_eq!(sum, ZERO_SCALAR_ENCODINGS[k]);
    }
}

#[test]
fn zero_scalar_detection() {
    assert!(is_zero_scalar(&[0u8; 32]));
    assert!(is_zero_scalar(&scalar_modulus()));
    let mut one = [0u8; 32];
    one[31] = 1;
    assert!(!is_zero_scalar(&one));
    let mut r_plus_one = scalar_modulus();
    r_plus_one[31] = 2;
    assert!(!is_zero_scalar(&r_plus_one));
}

#[test]
fn zero_signal_blocks_the_fold() {
    let mut one = [0u8; 32];
    one[31] = 1;
    let zero = [0u8; 32];
    // The key's table has three points: two signals are folded.
    assert!(!signals_foldable_under(&[one, zero], &readable_key(3)));
    assert!(signals_foldable_under(&[one, one], &readable_key(3)));
    // With a table of another size the fold never runs.
    assert!(signals_foldable_under(&[one, zero], &readable_key(2)));
    assert!(signals_foldable_under(&[], &readable_key(0)));
}

#[test]
fn zero_signal_is_not_admissible() {
    let zero = [0u8; 32];
    let mut one = [0u8; 32];
    one[31] = 1;
    assert!(!proof_inputs_ok(&[one, zero], &readable_key(3)));
    assert!(proof_inputs_ok(&[one, one], &readable_key(3)));
}
