use microthesis::data::DataValue;
use microthesis::prng::Prng;
use microthesis::vm::FatalError;

fn integer(value: i128) -> DataValue {
    DataValue::Integer { value }
}

fn int_list(values: &[u32]) -> DataValue {
    DataValue::List {
        items: values.iter().map(|v| integer(*v as i128)).collect(),
    }
}

fn seeded_data(seed: u32, choices: &[u32]) -> DataValue {
    DataValue::Constr {
        tag: 121,
        fields: vec![integer(seed as i128), int_list(choices)],
    }
}

fn some_reply(state: DataValue, value: DataValue) -> DataValue {
    DataValue::Constr {
        tag: 121,
        fields: vec![DataValue::List {
            items: vec![state, value],
        }],
    }
}

#[test]
fn seeded_state_encodes_with_the_tag_scheme() {
    match Prng::from_seed(9).uplc() {
        DataValue::Constr { tag, fields } => {
            assert_eq!(tag, 121);
            assert_eq!(fields.len(), 2);
            assert!(matches!(fields[0], DataValue::Integer { value: 9 }));
            match &fields[1] {
                DataValue::List { items } => assert!(items.is_empty()),
                _ => panic!("expected an empty choice list"),
            }
        }
        _ => panic!("expected a constructor"),
    }
}

#[test]
fn replayed_state_encodes_choices_in_order() {
    let prng = Prng::from_choices(&vec![3, 1, 2]);
    match prng.uplc() {
        DataValue::Constr { tag, fields } => {
            assert_eq!(tag, 122);
            assert_eq!(fields.len(), 1);
            match &fields[0] {
                DataValue::List { items } => {
                    assert_eq!(items.len(), 3);
                    assert!(matches!(items[0], DataValue::Integer { value: 3 }));
                    assert!(matches!(items[1], DataValue::Integer { value: 1 }));
                    assert!(matches!(items[2], DataValue::Integer { value: 2 }));
                }
                _ => panic!("expected a choice list"),
            }
        }
        _ => panic!("expected a constructor"),
    }
}

#[test]
fn decoding_a_yielded_pair_recovers_state_and_value() {
    let reply = some_reply(seeded_data(7, &[4, 5]), integer(4));
    let (prng, value) = Prng::from_result(&reply).unwrap().unwrap();
    match prng {
        Prng::Seeded { seed, choices, .. } => {
            assert_eq!(seed, 7);
            assert_eq!(choices, vec![4, 5]);
        }
        _ => panic!("expected a seeded state"),
    }
    assert!(matches!(value, DataValue::Integer { value: 4 }));
}

#[test]
fn decoding_the_none_reply_reports_exhaustion() {
    let reply = DataValue::Constr {
        tag: 122,
        fields: Vec::new(),
    };
    assert!(Prng::from_result(&reply).unwrap().is_none());
}

#[test]
fn malformed_replies_are_rejected() {
    // Not a constructor at all.
    assert_eq!(
        Prng::from_result(&integer(0)).unwrap_err(),
        FatalError::MalformedFuzzerResult
    );
    // An unknown constructor tag.
    let unknown = DataValue::Constr {
        tag: 42,
        fields: Vec::new(),
    };
    assert_eq!(
        Prng::from_result(&unknown).unwrap_err(),
        FatalError::MalformedFuzzerResult
    );
    // A pair whose state is not a generator encoding.
    let bad_state = some_reply(integer(0), integer(1));
    assert_eq!(
        Prng::from_result(&bad_state).unwrap_err(),
        FatalError::MalformedFuzzerResult
    );
    // A choice that does not fit a thirty-two-bit draw.
    let wide = some_reply(
        DataValue::Constr {
            tag: 122,
            fields: vec![DataValue::List {
                items: vec![integer(1 << 40)],
            }],
        },
        integer(0),
    );
    assert_eq!(
        Prng::from_result(&wide).unwrap_err(),
        FatalError::MalformedFuzzerResult
    );
}

#[test]
fn decoded_state_keeps_the_wire_encoding() {
    let reply = some_reply(seeded_data(7, &[4]), integer(4));
    let (prng, _) = Prng::from_result(&reply).unwrap().unwrap();
    match prng.uplc() {
        DataValue::Constr { tag, fields } => {
            assert_eq!(tag, 121);
            assert_eq!(fields.len(), 2);
        }
        _ => panic!("expected a constructor"),
    }
}

#[test]
fn cloning_data_preserves_structure() {
    let original = DataValue::Assoc {
        pairs: vec![(
            DataValue::Bytes {
                bytes: vec![1, 2, 3],
            },
            int_list(&[8, 9]),
        )],
    };
    match original.clone() {
        DataValue::Assoc { pairs } => {
            assert_eq!(pairs.len(), 1);
            match &pairs[0].0 {
                DataValue::Bytes { bytes } => assert_eq!(bytes, &vec![1, 2, 3]),
                _ => panic!("expected bytes"),
            }
            match &pairs[0].1 {
                DataValue::List { items } => assert_eq!(items.len(), 2),
                _ => panic!("expected a list"),
            }
        }
        _ => panic!("expected a map"),
    }
}
