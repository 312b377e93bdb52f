use sanicball_relay::errors::DecodeError;
use sanicball_relay::guid::{guid_to_vec, vec_to_guid};

#[test]
fn guid_layout_reverses_first_three_groups() {
    let bytes = guid_to_vec("00112233-4455-6677-8899-aabbccddeeff".to_string()).unwrap();
    assert_eq!(
        bytes,
        vec![
            0x33, 0x22, 0x11, 0x00, 0x55, 0x44, 0x77, 0x66, 0x88, 0x99, 0xaa, 0xbb, 0xcc, 0xdd,
            0xee, 0xff
        ]
    );
}

#[test]
fn guid_text_round_trip() {
    let text = "6f9619ff-8b86-d011-b42d-00c04fc964ff";
    let bytes = guid_to_vec(text.to_string()).unwrap();
    assert_eq!(vec_to_guid(&bytes).unwrap(), text);
}

#[test]
fn guid_rejects_malformed_text() {
    assert_eq!(guid_to_vec("".to_string()), Err(DecodeError::BadGuid));
    assert_eq!(
        guid_to_vec("6f9619ff-8b86-d011-b42d-00c04fc964f".to_string()),
        Err(DecodeError::BadGuid)
    );
    assert_eq!(
        guid_to_vec("6f9619ff-8b86-d011-b42d-00c04fc964fg".to_string()),
        Err(DecodeError::BadGuid)
    );
    assert_eq!(
        guid_to_vec("6f9619ff08b86-d011-b42d-00c04fc964ff".to_string()),
        Err(DecodeError::BadGuid)
    );
    assert_eq!(
        guid_to_vec("+f9619ff-8b86-d011-b42d-00c04fc964ff".to_string()),
        Err(DecodeError::BadGuid)
    );
    assert_eq!(vec_to_guid(&vec![1, 2, 3]), Err(DecodeError::BadGuid));
}
