use klvm_traits::{
    KlvmDecoder, KlvmEncoder, NodePtr, PublicKey, Signature, ToKlvm, ToKlvmError, Tree, TreeArena,
};

fn node_to_str(a: &TreeArena, input: &NodePtr) -> String {
    match a.decode_pair(input) {
        Ok((first, rest)) => format!("( {} {}", node_to_str(a, &first), node_to_str(a, &rest)),
        Err(_) => {
            let atom = a.decode_atom(input).unwrap();
            if atom.is_empty() {
                "NIL".to_owned()
            } else {
                hex::encode(atom)
            }
        }
    }
}

fn encode<T>(value: T) -> Result<String, ToKlvmError>
where
    T: ToKlvm<NodePtr>,
{
    let mut a = TreeArena::new();
    let node = value.to_klvm(&mut a).unwrap();
    Ok(node_to_str(&a, &node))
}

#[test]
fn to_klvm_test_primitives() {
    assert_eq!(encode(0u8), Ok("NIL".to_owned()));
    assert_eq!(encode(0i8), Ok("NIL".to_owned()));
    assert_eq!(encode(5u8), Ok("05".to_owned()));
    assert_eq!(encode(5u32), Ok("05".to_owned()));
    assert_eq!(encode(5i32), Ok("05".to_owned()));
    assert_eq!(encode(-27i32), Ok("e5".to_owned()));
    assert_eq!(encode(-0), Ok("NIL".to_owned()));
    assert_eq!(encode(-128i8), Ok("80".to_owned()));
}

#[test]
fn test_reference() {
    assert_eq!(encode([1, 2, 3]), encode([1, 2, 3]));
    assert_eq!(encode(Some(42)), encode(Some(42)));
    assert_eq!(encode(Some(&42)), encode(Some(42)));
    assert_eq!(encode(Some(&42)), encode(Some(42)));
}

#[test]
fn to_klvm_test_pair() {
    assert_eq!(encode((5, 2)), Ok("( 05 02".to_owned()));
    assert_eq!(
        encode((-72, (90121, ()))),
        Ok("( b8 ( 016009 NIL".to_owned())
    );
    assert_eq!(
        encode((((), ((), ((), (((), ((), ((), ()))), ())))), ())),
        Ok("( ( NIL ( NIL ( NIL ( ( NIL ( NIL ( NIL NIL NIL NIL".to_owned())
    );
}

#[test]
fn to_klvm_test_nil() {
    assert_eq!(encode(()), Ok("NIL".to_owned()));
}

#[test]
fn test_slice() {
    assert_eq!(
        encode([1, 2, 3, 4].as_slice()),
        Ok("( 01 ( 02 ( 03 ( 04 NIL".to_owned())
    );
    assert_eq!(encode([0; 0].as_slice()), Ok("NIL".to_owned()));
}

#[test]
fn to_klvm_test_array() {
    assert_eq!(
        encode([1, 2, 3, 4]),
        Ok("( 01 ( 02 ( 03 ( 04 NIL".to_owned())
    );
    assert_eq!(encode([0; 0]), Ok("NIL".to_owned()));
}

#[test]
fn to_klvm_test_vec() {
    assert_eq!(
        encode(vec![1, 2, 3, 4]),
        Ok("( 01 ( 02 ( 03 ( 04 NIL".to_owned())
    );
    assert_eq!(encode(vec![0; 0]), Ok("NIL".to_owned()));
}

#[test]
fn to_klvm_test_option() {
    assert_eq!(encode(Some("hello")), Ok("68656c6c6f".to_owned()));
    assert_eq!(encode(None::<&str>), Ok("NIL".to_owned()));
    assert_eq!(encode(Some("")), Ok("NIL".to_owned()));
}

#[test]
fn test_str() {
    assert_eq!(encode("hello"), Ok("68656c6c6f".to_owned()));
    assert_eq!(encode(""), Ok("NIL".to_owned()));
}

#[test]
fn to_klvm_test_string() {
    assert_eq!(encode("hello".to_string()), Ok("68656c6c6f".to_owned()));
    assert_eq!(encode("".to_string()), Ok("NIL".to_owned()));
}

#[test]
fn to_klvm_test_public_key() {
    let valid_bytes: [u8; 48] = hex::decode("b8f7dd239557ff8c49d338f89ac1a258a863fa52cd0a502e3aaae4b6738ba39ac8d982215aa3fa16bc5f8cb7e44b954d")
        .unwrap()
        .try_into()
        .unwrap();
    assert_eq!(
        encode(PublicKey::from_bytes(&valid_bytes).unwrap()),
        Ok(hex::encode(valid_bytes))
    );
}

#[test]
fn to_klvm_test_signature() {
    let valid_bytes: [u8; 96] = hex::decode("a3994dc9c0ef41a903d3335f0afe42ba16c88e7881706798492da4a1653cd10c69c841eeb56f44ae005e2bad27fb7ebb16ce8bbfbd708ea91dd4ff24f030497b50e694a8270eccd07dbc206b8ffe0c34a9ea81291785299fae8206a1e1bbc1d1")
        .unwrap()
        .try_into()
        .unwrap();
    assert_eq!(
        encode(Signature::from_bytes(&valid_bytes).unwrap()),
        Ok(hex::encode(valid_bytes))
    );
}

#[derive(Clone)]
enum OwnNode {
    Atom(Vec<u8>),
    Pair(std::rc::Rc<OwnNode>, std::rc::Rc<OwnNode>),
}

struct OwnBackend {
    made: usize,
    limit: usize,
}

// The first five items exist for proofs only and are never run.
impl KlvmEncoder for OwnBackend {
    type Node = OwnNode;

    fn holds(&self, _node: OwnNode) -> bool {
        unreachable!()
    }

    fn tree(&self, _node: OwnNode) -> Tree {
        unreachable!()
    }

    fn total() -> bool {
        unreachable!()
    }

    fn failure(&self) -> Option<ToKlvmError> {
        unreachable!()
    }

    fn lemma_clone_same(&self, _node: OwnNode, _copy: OwnNode) {
        unreachable!()
    }

    fn encode_atom(&mut self, bytes: &[u8]) -> Result<OwnNode, ToKlvmError> {
        if self.made >= self.limit {
            return Err(ToKlvmError::OutOfMemory);
        }
        self.made += 1;
        Ok(OwnNode::Atom(bytes.to_vec()))
    }

    fn encode_pair(&mut self, first: OwnNode, rest: OwnNode) -> Result<OwnNode, ToKlvmError> {
        if self.made >= self.limit {
            return Err(ToKlvmError::OutOfMemory);
        }
        self.made += 1;
        Ok(OwnNode::Pair(std::rc::Rc::new(first), std::rc::Rc::new(rest)))
    }
}

fn own_to_str(node: &OwnNode) -> String {
    match node {
        OwnNode::Atom(bytes) => {
            if bytes.is_empty() {
                "NIL".to_owned()
            } else {
                hex::encode(bytes)
            }
        }
        OwnNode::Pair(first, rest) => format!("( {} {}", own_to_str(first), own_to_str(rest)),
    }
}

#[test]
fn backend_of_the_caller_builds_the_same_shape() {
    let mut backend = OwnBackend { made: 0, limit: 100 };
    let node = (-72, (90121, ())).to_klvm(&mut backend).unwrap();
    assert_eq!(own_to_str(&node), "( b8 ( 016009 NIL");
    let copy = backend.clone_node(&node);
    assert_eq!(own_to_str(&copy), "( b8 ( 016009 NIL");
}

#[test]
fn failure_of_the_backend_is_passed_on() {
    let mut backend = OwnBackend { made: 0, limit: 3 };
    assert_eq!(
        vec![1u8, 2, 3].to_klvm(&mut backend).map(|node| own_to_str(&node)),
        Err(ToKlvmError::OutOfMemory)
    );
    let mut backend = OwnBackend { made: 0, limit: 0 };
    assert_eq!(
        7u32.to_klvm(&mut backend).map(|node| own_to_str(&node)),
        Err(ToKlvmError::OutOfMemory)
    );
}
