use expense_ledger::codec::decode_record;
use expense_ledger::codec::encode_record;
use expense_ledger::record::ExpenseAccount;
use expense_ledger::RecordError;
use expense_ledger::MERCHANT_NAME_CAPACITY;
use expense_ledger::OWNER_LEN;
use expense_ledger::RECORD_SPACE;

fn sample_record() -> ExpenseAccount {
    ExpenseAccount {
        id: 0x0102030405060708,
        owner: vec![0xAB; OWNER_LEN],
        merchant_name: b"Acme".to_vec(),
        amount: 500,
    }
}

#[test]
fn encode_then_decode_returns_the_record() {
    let rec = sample_record();
    let data = encode_record(&rec).unwrap();
    assert_eq!(data.len(), RECORD_SPACE);
    let back = decode_record(&data).unwrap();
    assert_eq!(back, rec);
}

#[test]
fn encoded_layout_is_fixed() {
    let rec = sample_record();
    let data = encode_record(&rec).unwrap();
    assert_eq!(&data[0..8], b"expense\0");
    assert_eq!(&data[8..16], &[8, 7, 6, 5, 4, 3, 2, 1]);
    assert_eq!(&data[16..48], vec![0xAB; OWNER_LEN].as_slice());
    assert_eq!(&data[48..52], &[4, 0, 0, 0]);
    assert_eq!(&data[52..56], b"Acme");
    assert_eq!(&data[56..64], &[244, 1, 0, 0, 0, 0, 0, 0]);
    assert!(data[64..].iter().all(|&b| b == 0));
}

#[test]
fn encode_rejects_oversized_name() {
    let mut rec = sample_record();
    rec.merchant_name = vec![b'a'; MERCHANT_NAME_CAPACITY + 1];
    assert_eq!(encode_record(&rec), Err(RecordError::SerializationOverflow));
}

#[test]
fn encode_accepts_name_at_capacity() {
    let mut rec = sample_record();
    rec.merchant_name = vec![b'a'; MERCHANT_NAME_CAPACITY];
    let data = encode_record(&rec).unwrap();
    assert_eq!(data.len(), RECORD_SPACE);
    let back = decode_record(&data).unwrap();
    assert_eq!(back.merchant_name.len(), MERCHANT_NAME_CAPACITY);
}

#[test]
fn decode_rejects_wrong_size() {
    assert!(decode_record(&Vec::new()).is_none());
    assert!(decode_record(&vec![0; RECORD_SPACE - 1]).is_none());
    assert!(decode_record(&vec![0; RECORD_SPACE + 1]).is_none());
}

#[test]
fn decode_rejects_wrong_discriminator() {
    let rec = sample_record();
    let mut data = encode_record(&rec).unwrap();
    data[0] ^= 0xFF;
    assert!(decode_record(&data).is_none());
}

#[test]
fn decode_rejects_length_beyond_capacity() {
    let rec = sample_record();
    let mut data = encode_record(&rec).unwrap();
    data[48] = 0xFF;
    data[49] = 0xFF;
    data[50] = 0xFF;
    data[51] = 0xFF;
    assert!(decode_record(&data).is_none());
}
