use klvm_traits::{
    FromKlvm, FromKlvmError, KlvmEncoder, NodePtr, PublicKey, Signature, TreeArena,
};

fn str_to_node<'a>(a: &mut TreeArena, input: &'a str) -> (&'a str, NodePtr) {
    let (first, rest) = if let Some((f, r)) = input.split_once(' ') {
        (f, r)
    } else {
        (input, "")
    };

    println!("\"{first}\" | \"{rest}\"");
    if first == "(" {
        let (rest, left) = str_to_node(a, rest);
        let (rest, right) = str_to_node(a, rest);
        (rest, a.encode_pair(left, right).unwrap())
    } else if first == "NIL" {
        (rest, a.encode_atom(&[]).unwrap())
    } else {
        (
            rest,
            a.encode_atom(hex::decode(first).unwrap().as_slice())
                .unwrap(),
        )
    }
}

fn decode<T>(hex: &str) -> Result<T, FromKlvmError>
where
    T: FromKlvm<NodePtr>,
{
    let mut a = TreeArena::new();
    let (rest, actual) = str_to_node(&mut a, hex);
    assert_eq!(rest, "");
    T::from_klvm(&a, actual)
}

#[test]
fn from_klvm_test_primitives() {
    assert_eq!(decode("NIL"), Ok(0u8));
    assert_eq!(decode("NIL"), Ok(0i8));
    assert_eq!(decode("05"), Ok(5u8));
    assert_eq!(decode("05"), Ok(5u32));
    assert_eq!(decode("05"), Ok(5i32));
    assert_eq!(decode("e5"), Ok(-27i32));
    assert_eq!(decode("NIL"), Ok(-0));
    assert_eq!(decode("80"), Ok(-128i8));
}

#[test]
fn from_klvm_test_pair() {
    assert_eq!(decode("( 05 02"), Ok((5, 2)));
    assert_eq!(decode("( b8 ( 016009 NIL"), Ok((-72, (90121, ()))));
    assert_eq!(
        decode("( ( NIL ( NIL ( NIL ( ( NIL ( NIL ( NIL NIL NIL NIL"),
        Ok((((), ((), ((), (((), ((), ((), ()))), ())))), ()))
    );
}

#[test]
fn from_klvm_test_nil() {
    assert_eq!(decode("NIL"), Ok(()));
}

#[test]
fn from_klvm_test_array() {
    assert_eq!(decode("( 01 ( 02 ( 03 ( 04 NIL"), Ok([1, 2, 3, 4]));
    assert_eq!(decode("NIL"), Ok([] as [i32; 0]));
}

#[test]
fn from_klvm_test_vec() {
    assert_eq!(decode("( 01 ( 02 ( 03 ( 04 NIL"), Ok(vec![1, 2, 3, 4]));
    assert_eq!(decode("NIL"), Ok(Vec::<i32>::new()));
}

#[test]
fn from_klvm_test_option() {
    assert_eq!(decode("68656c6c6f"), Ok(Some("hello".to_string())));
    assert_eq!(decode("NIL"), Ok(None::<String>));

    // Empty strings get decoded as None instead, since both values are represented by nil bytes.
    // This could be considered either intended behavior or not, depending on the way it's used.
    assert_ne!(decode("NIL"), Ok(Some("".to_string())));
}

#[test]
fn from_klvm_test_string() {
    assert_eq!(decode("68656c6c6f"), Ok("hello".to_string()));
    assert_eq!(decode("NIL"), Ok("".to_string()));
}

#[test]
fn from_klvm_test_public_key() {
    let valid_bytes: [u8; 48] = hex::decode("b8f7dd239557ff8c49d338f89ac1a258a863fa52cd0a502e3aaae4b6738ba39ac8d982215aa3fa16bc5f8cb7e44b954d")
        .unwrap()
        .try_into()
        .unwrap();
    assert_eq!(
        decode(&hex::encode(valid_bytes)),
        Ok(PublicKey::from_bytes(&valid_bytes).unwrap())
    );
    assert_eq!(
        decode::<PublicKey>("68656c6c6f"),
        Err(FromKlvmError::WrongAtomLength {
            expected: 48,
            found: 5
        })
    );
}

#[test]
fn from_klvm_test_signature() {
    let valid_bytes: [u8; 96] = hex::decode("a3994dc9c0ef41a903d3335f0afe42ba16c88e7881706798492da4a1653cd10c69c841eeb56f44ae005e2bad27fb7ebb16ce8bbfbd708ea91dd4ff24f030497b50e694a8270eccd07dbc206b8ffe0c34a9ea81291785299fae8206a1e1bbc1d1")
        .unwrap()
        .try_into()
        .unwrap();
    assert_eq!(
        decode(&hex::encode(valid_bytes)),
        Ok(Signature::from_bytes(&valid_bytes).unwrap())
    );
    assert_eq!(
        decode::<Signature>("68656c6c6f"),
        Err(FromKlvmError::WrongAtomLength {
            expected: 96,
            found: 5
        })
    );
}
