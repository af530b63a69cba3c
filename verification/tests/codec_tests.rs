use maze_snark::codec::{deserialize_proof, serialize_proof, ProofRecord};
use maze_snark::errors::PipelineError;

fn record(values: [&str; 6]) -> ProofRecord {
    ProofRecord {
        nifs_primary: values[0].as_bytes().to_vec(),
        f_w_snark_primary: values[1].as_bytes().to_vec(),
        nifs_secondary: values[2].as_bytes().to_vec(),
        f_w_snark_secondary: values[3].as_bytes().to_vec(),
        zn_primary: values[4].as_bytes().to_vec(),
        zn_secondary: values[5].as_bytes().to_vec(),
    }
}

#[test]
fn serialized_form_is_the_expected_text() {
    let p = record(["a", "b", "c", "d", "e", "f"]);
    let bytes = serialize_proof(&p);
    let text = String::from_utf8(bytes).unwrap();
    let expected = "{\"nifs_primary\":\"a\",\"f_W_snark_primary\":\"b\",\"nifs_secondary\":\"c\",\"f_W_snark_secondary\":\"d\",\"zn_primary\":\"e\",\"zn_secondary\":\"f\"}";
    assert_eq!(text, expected);
}

#[test]
fn round_trip_plain_record() {
    let p = record([
        "NIFS { comm_T: deadbeef }",
        "RelaxedR1CSSNARK { sc_proof: 0102 }",
        "NIFS { comm_T: cafe }",
        "RelaxedR1CSSNARK { sc_proof: 0304 }",
        "[0x7b, 0x02, 0x01, 0x0c]",
        "[0x00]",
    ]);
    let bytes = serialize_proof(&p);
    let q = deserialize_proof(&bytes).unwrap();
    assert_eq!(p, q);
}

#[test]
fn round_trip_with_escapes() {
    let p = ProofRecord {
        nifs_primary: b"say \"hi\"".to_vec(),
        f_w_snark_primary: b"back\\slash".to_vec(),
        nifs_secondary: vec![0, 1, 31, 10, 9],
        f_w_snark_secondary: vec![],
        zn_primary: b"{}".to_vec(),
        zn_secondary: vec![34, 92, 13],
    };
    let bytes = serialize_proof(&p);
    let text = String::from_utf8(bytes.clone()).unwrap();
    assert!(text.contains("\\\"hi\\\""));
    assert!(text.contains("back\\\\slash"));
    assert!(text.contains("\\u0000\\u0001\\u001f\\u000a\\u0009"));
    let q = deserialize_proof(&bytes).unwrap();
    assert_eq!(p, q);
}

#[test]
fn round_trip_empty_fields() {
    let p = record(["", "", "", "", "", ""]);
    let bytes = serialize_proof(&p);
    let q = deserialize_proof(&bytes).unwrap();
    assert_eq!(p, q);
}

#[test]
fn garbage_is_corrupt() {
    let bytes = b"not a proof at all".to_vec();
    assert_eq!(deserialize_proof(&bytes).unwrap_err(), PipelineError::CorruptProof);
}

#[test]
fn empty_input_is_corrupt() {
    assert_eq!(deserialize_proof(&Vec::new()).unwrap_err(), PipelineError::CorruptProof);
}

#[test]
fn reordered_keys_are_corrupt() {
    let text = "{\"f_W_snark_primary\":\"b\",\"nifs_primary\":\"a\",\"nifs_secondary\":\"c\",\"f_W_snark_secondary\":\"d\",\"zn_primary\":\"e\",\"zn_secondary\":\"f\"}";
    let bytes = text.as_bytes().to_vec();
    assert_eq!(deserialize_proof(&bytes).unwrap_err(), PipelineError::CorruptProof);
}

#[test]
fn trailing_bytes_are_corrupt() {
    let p = record(["a", "b", "c", "d", "e", "f"]);
    let mut bytes = serialize_proof(&p);
    bytes.push(b' ');
    assert_eq!(deserialize_proof(&bytes).unwrap_err(), PipelineError::CorruptProof);
}

#[test]
fn truncated_record_is_corrupt() {
    let p = record(["a", "b", "c", "d", "e", "f"]);
    let mut bytes = serialize_proof(&p);
    bytes.pop();
    assert_eq!(deserialize_proof(&bytes).unwrap_err(), PipelineError::CorruptProof);
}

#[test]
fn non_canonical_escape_is_corrupt() {
    let text = "{\"nifs_primary\":\"\\u0041\",\"f_W_snark_primary\":\"b\",\"nifs_secondary\":\"c\",\"f_W_snark_secondary\":\"d\",\"zn_primary\":\"e\",\"zn_secondary\":\"f\"}";
    let bytes = text.as_bytes().to_vec();
    assert_eq!(deserialize_proof(&bytes).unwrap_err(), PipelineError::CorruptProof);
}

#[test]
fn tampered_field_changes_the_record() {
    let p = record(["a", "snark-xyz", "c", "d", "e", "f"]);
    let mut bytes = serialize_proof(&p);
    let pos = {
        let text = String::from_utf8(bytes.clone()).unwrap();
        text.find("snark-xyz").unwrap()
    };
    bytes[pos] = b'Z';
    match deserialize_proof(&bytes) {
        Ok(q) => assert_ne!(p, q),
        Err(e) => assert_eq!(e, PipelineError::CorruptProof),
    }
}

#[test]
fn tampering_the_envelope_is_corrupt() {
    let p = record(["a", "b", "c", "d", "e", "f"]);
    let mut bytes = serialize_proof(&p);
    bytes[0] = b'[';
    assert_eq!(deserialize_proof(&bytes).unwrap_err(), PipelineError::CorruptProof);
}
