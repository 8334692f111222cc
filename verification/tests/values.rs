use bencode::{from_bytes, BencodeDecoder, BencodeError, BencodeVisitor, Visit, MAX_DEPTH};

#[derive(Debug, PartialEq)]
enum Tree {
    Integer(i64),
    Bytes(Vec<u8>),
    List(Vec<Tree>),
    Dict(Vec<(Vec<u8>, Tree)>),
}

fn text(s: &str) -> Tree {
    Tree::Bytes(s.as_bytes().to_vec())
}

fn encode(tree: &Tree, out: &mut Vec<u8>) {
    match tree {
        Tree::Integer(n) => out.extend_from_slice(format!("i{}e", n).as_bytes()),
        Tree::Bytes(bytes) => {
            out.extend_from_slice(format!("{}:", bytes.len()).as_bytes());
            out.extend_from_slice(bytes);
        }
        Tree::List(items) => {
            out.push(b'l');
            for item in items {
                encode(item, out);
            }
            out.push(b'e');
        }
        Tree::Dict(entries) => {
            out.push(b'd');
            for (key, value) in entries {
                encode(&Tree::Bytes(key.clone()), out);
                encode(value, out);
            }
            out.push(b'e');
        }
    }
}

fn read(de: &mut BencodeDecoder) -> Result<Tree, BencodeError> {
    match de.deserialize_any()? {
        Visit::Integer(n) => Ok(Tree::Integer(n)),
        Visit::Bytes(bytes) => Ok(Tree::Bytes(bytes)),
        Visit::List => {
            let mut items = Vec::new();
            loop {
                let mut seq = BencodeVisitor::new(de);
                if !seq.begin_element()? {
                    return Ok(Tree::List(items));
                }
                let element = read(seq.de);
                match seq.next_element_seed(element)? {
                    Some(item) => items.push(item),
                    None => unreachable!(),
                }
            }
        }
        Visit::Dict => {
            let mut entries = Vec::new();
            loop {
                let mut map = BencodeVisitor::new(de);
                if !map.begin_key()? {
                    return Ok(Tree::Dict(entries));
                }
                let key = match map.de.deserialize_any() {
                    Ok(Visit::Bytes(key)) => Ok(key),
                    Ok(other) => panic!("expected a key, found {:?}", other),
                    Err(error) => Err(error),
                };
                let key = match map.next_key_seed(key)? {
                    Some(key) => key,
                    None => unreachable!(),
                };
                map.begin_value()?;
                let value = read(map.de);
                entries.push((key, map.next_value_seed(value)?));
            }
        }
        Visit::Present => unreachable!(),
    }
}

fn round_trip(tree: Tree) {
    let mut input = Vec::new();
    encode(&tree, &mut input);
    let len = input.len();
    input.extend_from_slice(b"i1e");
    let mut de = BencodeDecoder::new(input);
    assert_eq!(read(&mut de), Ok(tree));
    assert_eq!(de.position(), len);
    assert_eq!(de.pending(), 0);
    assert_eq!(de.depth(), 0);
    assert_eq!(de.deserialize_any(), Ok(Visit::Integer(1)));
}

#[test]
fn a_scalar_is_consumed_exactly() {
    round_trip(Tree::Integer(-42));
    round_trip(text("spam"));
    round_trip(text(""));
}

#[test]
fn a_flat_container_is_consumed_exactly() {
    round_trip(Tree::List(vec![]));
    round_trip(Tree::Dict(vec![]));
    round_trip(Tree::List(vec![Tree::Integer(1), text("two"), Tree::Integer(3)]));
    round_trip(Tree::Dict(vec![
        (b"cow".to_vec(), text("moo")),
        (b"spam".to_vec(), Tree::Integer(7)),
    ]));
}

#[test]
fn a_nested_value_is_consumed_exactly() {
    round_trip(Tree::Dict(vec![
        (
            b"a".to_vec(),
            Tree::List(vec![
                Tree::Integer(1),
                Tree::List(vec![]),
                Tree::Dict(vec![(b"e".to_vec(), text("e"))]),
            ]),
        ),
        (b"b".to_vec(), Tree::Dict(vec![(b"c".to_vec(), Tree::List(vec![]))])),
        (b"".to_vec(), Tree::Integer(0)),
    ]));
}

#[test]
fn a_nested_value_reads_as_its_text_says() {
    let mut de = from_bytes(b"d1:ali1e2:abe1:bd1:cleee");
    assert_eq!(
        read(&mut de),
        Ok(Tree::Dict(vec![
            (b"a".to_vec(), Tree::List(vec![Tree::Integer(1), text("ab")])),
            (b"b".to_vec(), Tree::Dict(vec![(b"c".to_vec(), Tree::List(vec![]))])),
        ]))
    );
    assert_eq!(de.position(), 24);
}

#[test]
fn a_value_nested_to_the_limit_is_consumed_exactly() {
    let mut tree = Tree::Integer(5);
    for _ in 0..MAX_DEPTH {
        tree = Tree::List(vec![tree]);
    }
    round_trip(tree);
}

#[test]
fn a_value_nested_beyond_the_limit_fails_cleanly() {
    let mut tree = Tree::Integer(5);
    for _ in 0..MAX_DEPTH + 1 {
        tree = Tree::List(vec![tree]);
    }
    let mut input = Vec::new();
    encode(&tree, &mut input);
    let mut de = BencodeDecoder::new(input);
    assert_eq!(
        read(&mut de),
        Err(BencodeError::InvalidValue("Too many nested containers".to_string()))
    );
    assert_eq!(de.depth(), MAX_DEPTH);
}

#[test]
fn a_malformed_value_deep_inside_fails_the_whole() {
    let mut de = from_bytes(b"d1:al1:xi3.0eee");
    assert_eq!(
        read(&mut de),
        Err(BencodeError::InvalidValue("Can't parse `3.0` as i64".to_string()))
    );
    let mut de = from_bytes(b"d1:al1:x");
    assert_eq!(read(&mut de), Err(BencodeError::EndOfStream));
}
