use atri_core::tea::Tea;

const TEST_KEY: [u32; 4] = [114, 514, 1919, 810];
const TEST_TEXT: &str = "1145141919810";

#[test]
fn crypto() {
    let tea = Tea::from_key(TEST_KEY);

    let b = tea.encrypt(TEST_TEXT.as_bytes());
    let d = tea.decrypt(&b);

    assert!(d.is_ok());
    assert_eq!(Ok(TEST_TEXT), std::str::from_utf8(&d.unwrap()));
}

#[test]
fn encrypt_known_ciphertext() {
    let tea = Tea::from_key(TEST_KEY);
    let b = tea.encrypt(TEST_TEXT.as_bytes());
    let expected: Vec<u8> = vec![
        252, 225, 26, 169, 101, 238, 246, 159, 83, 103, 143, 194, 61, 43, 36, 105, 160, 147, 18,
        193, 131, 92, 182, 42,
    ];
    assert_eq!(&b[..], &expected[..]);
}

#[test]
fn encrypt_empty_known_ciphertext() {
    let tea = Tea::from_key(TEST_KEY);
    let b = tea.encrypt(&[]);
    let expected: Vec<u8> = vec![225, 233, 91, 165, 159, 87, 231, 17, 231, 27, 10, 219, 86, 94, 144, 229];
    assert_eq!(&b[..], &expected[..]);
    assert_eq!(tea.decrypt(&b).unwrap().len(), 0);
}

#[test]
fn encrypt_zero_key_known_ciphertext() {
    let tea = Tea::from_key([0, 0, 0, 0]);
    let b = tea.encrypt(b"abc");
    let expected: Vec<u8> = vec![55, 232, 180, 62, 22, 197, 108, 245, 123, 203, 9, 128, 158, 173, 242, 235];
    assert_eq!(&b[..], &expected[..]);
}

#[test]
fn cipher_round_trip_many_lengths() {
    let keys: [[u32; 4]; 3] = [[0, 0, 0, 0], TEST_KEY, [0xffff_ffff, 1, 0x8000_0000, 0x1234_5678]];
    for key in keys.iter() {
        let tea = Tea::from_key(*key);
        for len in 0..64usize {
            let data: Vec<u8> = (0..len).map(|i| (i * 37 + len) as u8).collect();
            let enc = tea.encrypt(&data);
            assert_eq!(enc.len() % 8, 0);
            assert!(enc.len() >= data.len() + 10 && enc.len() <= data.len() + 17);
            let dec = tea.decrypt(&enc).unwrap();
            assert_eq!(&dec[..], &data[..]);
        }
        let big: Vec<u8> = (0..1000usize).map(|i| (i * 7) as u8).collect();
        let dec = tea.decrypt(&tea.encrypt(&big)).unwrap();
        assert_eq!(&dec[..], &big[..]);
    }
}

#[test]
fn tamper_any_bit_detected() {
    for key in [TEST_KEY, [0, 0, 0, 0], [7, 7, 7, 7]] {
        let tea = Tea::from_key(key);
        for text in [TEST_TEXT.as_bytes(), b"", b"x", b"0123456789abcdef"] {
            let enc = tea.encrypt(text);
            for bit in 0..(enc.len() * 8) {
                let mut t = enc.to_vec();
                t[bit / 8] ^= 1u8 << (bit % 8);
                match tea.decrypt(&t) {
                    Ok(d) => assert_ne!(&d[..], text),
                    Err(_) => {}
                }
            }
        }
    }
}

#[test]
fn tamper_in_padding_is_rejected() {
    let tea = Tea::from_key(TEST_KEY);
    let mut t = tea.encrypt(TEST_TEXT.as_bytes()).to_vec();
    t[18] ^= 1;
    assert!(tea.decrypt(&t).is_err());
    let mut u = tea.encrypt(TEST_TEXT.as_bytes()).to_vec();
    u[21] ^= 1 << 6;
    assert!(tea.decrypt(&u).is_err());
    assert_eq!(atri_core::tea::DecryptError.message(), "Invalid encrypted data");
}

#[test]
fn decrypt_rejects_bad_lengths() {
    let tea = Tea::from_key(TEST_KEY);
    assert!(tea.decrypt(&[]).is_err());
    assert!(tea.decrypt(&[1, 2, 3]).is_err());
    assert!(tea.decrypt(&[0u8; 9]).is_err());
    assert_eq!(tea.key(), &TEST_KEY);
}
