use bencode::{
    from_bytes, from_str, BencodeDecoder, BencodeError, BencodeVisitor, Identifier, Visit,
    MAX_DEPTH,
};

fn invalid(detail: &str) -> BencodeError {
    BencodeError::InvalidValue(detail.to_string())
}

fn unknown(detail: &str) -> BencodeError {
    BencodeError::UnknownVariant(detail.to_string())
}

fn bytes_at(de: &mut BencodeDecoder) -> Result<Vec<u8>, BencodeError> {
    match de.deserialize_any() {
        Ok(Visit::Bytes(bytes)) => Ok(bytes),
        Ok(other) => panic!("expected a byte string, found {:?}", other),
        Err(error) => Err(error),
    }
}

fn field_at(de: &mut BencodeDecoder) -> Result<Vec<u8>, BencodeError> {
    match de.deserialize_identifier() {
        Ok(Identifier::Field(name)) => Ok(name),
        Ok(other) => panic!("expected a field, found {:?}", other),
        Err(error) => Err(error),
    }
}

fn next_bytes(de: &mut BencodeDecoder) -> Result<Option<Vec<u8>>, BencodeError> {
    let mut seq = BencodeVisitor::new(de);
    if !seq.begin_element()? {
        return Ok(None);
    }
    let element = bytes_at(seq.de);
    seq.next_element_seed(element)
}

fn next_key(de: &mut BencodeDecoder) -> Result<Option<Vec<u8>>, BencodeError> {
    let mut map = BencodeVisitor::new(de);
    if !map.begin_key()? {
        return Ok(None);
    }
    let key = bytes_at(map.de);
    map.next_key_seed(key)
}

fn next_field(de: &mut BencodeDecoder) -> Result<Option<Vec<u8>>, BencodeError> {
    let mut map = BencodeVisitor::new(de);
    if !map.begin_key()? {
        return Ok(None);
    }
    let key = field_at(map.de);
    map.next_key_seed(key)
}

fn next_value(de: &mut BencodeDecoder) -> Result<Visit, BencodeError> {
    let mut map = BencodeVisitor::new(de);
    map.begin_value()?;
    let value = map.de.deserialize_any();
    map.next_value_seed(value)
}

fn byte_strings(de: &mut BencodeDecoder) -> Result<Vec<Vec<u8>>, BencodeError> {
    assert_eq!(de.deserialize_any(), Ok(Visit::List));
    let mut items = Vec::new();
    while let Some(item) = next_bytes(de)? {
        items.push(item);
    }
    Ok(items)
}

fn entries(de: &mut BencodeDecoder) -> Result<Vec<(String, Vec<u8>)>, BencodeError> {
    assert_eq!(de.deserialize_any(), Ok(Visit::Dict));
    let mut found = Vec::new();
    while let Some(key) = next_key(de)? {
        match next_value(de)? {
            Visit::Bytes(value) => found.push((String::from_utf8(key).unwrap(), value)),
            other => panic!("expected a byte string, found {:?}", other),
        }
    }
    Ok(found)
}

fn variant(de: &mut BencodeDecoder) -> Result<(Vec<u8>, Visit), BencodeError> {
    de.deserialize_enum()?;
    let access = BencodeVisitor::new(de);
    let tag = field_at(access.de);
    let (tag, mut access) = access.variant_seed(tag)?;
    access.begin_value()?;
    let payload = access.de.deserialize_any();
    let payload = access.newtype_variant_seed(payload)?;
    Ok((tag, payload))
}

#[test]
fn a_list_of_byte_strings_comes_out_in_order() {
    let mut de = from_bytes(b"l4:spam4:eggse");
    assert_eq!(byte_strings(&mut de), Ok(vec![b"spam".to_vec(), b"eggs".to_vec()]));
    assert_eq!(de.position(), 14);
    assert_eq!(de.pending(), 0);
    assert_eq!(de.depth(), 0);
}

#[test]
fn a_dictionary_of_byte_strings_comes_out_by_key() {
    let mut de = from_bytes(b"d3:cow3:moo4:spam4:eggse");
    assert_eq!(
        entries(&mut de),
        Ok(vec![
            ("cow".to_string(), b"moo".to_vec()),
            ("spam".to_string(), b"eggs".to_vec()),
        ])
    );
    assert_eq!(de.position(), 24);
    assert_eq!(de.pending(), 0);
    assert_eq!(de.depth(), 0);
}

#[test]
fn an_empty_list_has_no_element() {
    let mut de = from_bytes(b"le");
    assert_eq!(byte_strings(&mut de), Ok(Vec::new()));
    assert_eq!(de.position(), 2);
    assert_eq!(de.pending(), 0);
    assert_eq!(de.depth(), 0);
}

#[test]
fn an_empty_dictionary_has_no_entry() {
    let mut de = from_bytes(b"de");
    assert_eq!(entries(&mut de), Ok(Vec::new()));
    assert_eq!(de.position(), 2);
    assert_eq!(de.pending(), 0);
    assert_eq!(de.depth(), 0);
}

#[test]
fn keys_are_neither_sorted_nor_made_unique() {
    let mut de = from_bytes(b"d1:b1:x1:a1:y1:b1:ze");
    assert_eq!(
        entries(&mut de),
        Ok(vec![
            ("b".to_string(), b"x".to_vec()),
            ("a".to_string(), b"y".to_vec()),
            ("b".to_string(), b"z".to_vec()),
        ])
    );
}

#[test]
fn lists_nest() {
    let mut de = from_bytes(b"ll1:a1:bel1:ceei5e");
    assert_eq!(de.deserialize_any(), Ok(Visit::List));
    assert_eq!(de.depth(), 1);
    let mut outer = Vec::new();
    loop {
        let mut seq = BencodeVisitor::new(&mut de);
        if !seq.begin_element().unwrap() {
            break;
        }
        let inner = byte_strings(seq.de);
        assert_eq!(seq.de.depth(), 1);
        match seq.next_element_seed(inner) {
            Ok(Some(inner)) => outer.push(inner),
            other => panic!("{:?}", other),
        }
    }
    assert_eq!(
        outer,
        vec![vec![b"a".to_vec(), b"b".to_vec()], vec![b"c".to_vec()]]
    );
    assert_eq!(de.position(), 15);
    assert_eq!(de.pending(), 0);
    assert_eq!(de.depth(), 0);
    assert_eq!(de.deserialize_any(), Ok(Visit::Integer(5)));
}

#[test]
fn a_value_of_any_shape_is_delivered_by_its_token() {
    assert_eq!(from_bytes(b"i9e").deserialize_any(), Ok(Visit::Integer(9)));
    assert_eq!(from_bytes(b"2:hi").deserialize_any(), Ok(Visit::Bytes(b"hi".to_vec())));
    assert_eq!(from_bytes(b"le").deserialize_any(), Ok(Visit::List));
    assert_eq!(from_bytes(b"de").deserialize_any(), Ok(Visit::Dict));
}

#[test]
fn opening_a_container_is_recorded() {
    let mut de = from_bytes(b"ldee");
    assert_eq!(de.depth(), 0);
    assert_eq!(de.deserialize_any(), Ok(Visit::List));
    assert_eq!(de.depth(), 1);
    assert!(BencodeVisitor::new(&mut de).begin_element().unwrap());
    assert_eq!(de.deserialize_any(), Ok(Visit::Dict));
    assert_eq!(de.depth(), 2);
    assert!(!BencodeVisitor::new(&mut de).begin_key().unwrap());
    assert_eq!(de.depth(), 1);
    assert!(!BencodeVisitor::new(&mut de).begin_element().unwrap());
    assert_eq!(de.depth(), 0);
    assert_eq!(de.position(), 4);
}

#[test]
fn an_end_where_a_value_is_asked_for_is_the_end_of_the_stream() {
    let mut de = from_bytes(b"e");
    assert_eq!(de.deserialize_any(), Err(BencodeError::EndOfStream));
    assert_eq!(de.position(), 1);
    assert_eq!(de.pending(), 0);
}

#[test]
fn no_input_is_the_end_of_the_stream() {
    let mut de = from_bytes(b"");
    assert_eq!(de.deserialize_any(), Err(BencodeError::EndOfStream));
    assert_eq!(de.position(), 0);
    assert_eq!(from_bytes(b"").deserialize_struct(), Err(BencodeError::EndOfStream));
    assert_eq!(from_bytes(b"").deserialize_option(), Err(BencodeError::EndOfStream));
    assert_eq!(from_bytes(b"").deserialize_enum(), Err(BencodeError::EndOfStream));
}

#[test]
fn a_malformed_integer_is_an_invalid_value_for_the_caller() {
    let mut de = from_str("i3.0e");
    assert_eq!(de.deserialize_any(), Err(invalid("Can't parse `3.0` as i64")));
    assert_eq!(de.position(), 5);
    let mut de = from_str("iabce");
    assert_eq!(de.deserialize_any(), Err(invalid("Can't parse `abc` as i64")));
    let mut de = from_str("i");
    assert_eq!(de.deserialize_any(), Err(BencodeError::EndOfStream));
}

#[test]
fn a_short_byte_string_is_the_end_of_the_stream_for_the_caller() {
    let mut de = from_bytes(b"4:ab");
    assert_eq!(de.deserialize_any(), Err(BencodeError::EndOfStream));
    let mut de = from_bytes(b"1x:ab");
    assert_eq!(
        de.deserialize_any(),
        Err(invalid("Can't parse `1x` as string length"))
    );
}

#[test]
fn every_request_reports_the_failure_of_its_scan() {
    let failure = Err(invalid("Can't parse `3.0` as i64"));
    assert_eq!(from_bytes(b"i3.0e").deserialize_struct(), failure);
    assert_eq!(from_bytes(b"i3.0e").deserialize_option(), failure);
    assert_eq!(
        from_bytes(b"i3.0e").deserialize_enum(),
        Err(invalid("Can't parse `3.0` as i64"))
    );
    let mut de = from_bytes(b"i3.0e");
    assert_eq!(
        BencodeVisitor::new(&mut de).begin_value(),
        Err(invalid("Can't parse `3.0` as i64"))
    );
}

#[test]
fn a_staged_token_is_delivered_before_anything_is_scanned() {
    let mut de = from_bytes(b"i1ei2e");
    de.update_state();
    assert_eq!(de.position(), 3);
    assert_eq!(de.deserialize_any(), Ok(Visit::Integer(1)));
    assert_eq!(de.position(), 3);
    assert_eq!(de.deserialize_any(), Ok(Visit::Integer(2)));
    assert_eq!(de.position(), 6);
}

#[test]
fn a_malformed_element_fails_the_list() {
    let mut de = from_bytes(b"li3.0ee");
    assert_eq!(de.deserialize_any(), Ok(Visit::List));
    let mut seq = BencodeVisitor::new(&mut de);
    assert_eq!(seq.begin_element(), Err(invalid("Can't parse `3.0` as i64")));
    assert_eq!(de.depth(), 1);

    let mut de = from_bytes(b"l1:ai3.0e1:be");
    assert_eq!(byte_strings(&mut de), Err(invalid("Can't parse `3.0` as i64")));
}

#[test]
fn a_byte_that_starts_nothing_fails_the_list() {
    let mut de = from_bytes(b"lx1:ae");
    assert_eq!(byte_strings(&mut de), Err(BencodeError::EndOfStream));
    assert_eq!(de.position(), 2);
}

#[test]
fn a_list_without_its_end_is_the_end_of_the_stream() {
    let mut de = from_bytes(b"l1:a");
    assert_eq!(byte_strings(&mut de), Err(BencodeError::EndOfStream));
    let mut de = from_bytes(b"d1:a1:b");
    assert_eq!(entries(&mut de), Err(BencodeError::EndOfStream));
}

#[test]
fn a_failed_decode_of_an_element_is_handed_on() {
    let mut de = from_bytes(b"i1e");
    de.update_state();
    let mut seq = BencodeVisitor::new(&mut de);
    let failed: Result<u8, BencodeError> = Err(invalid("x"));
    assert_eq!(seq.next_element_seed(failed), Err(invalid("x")));
    let failed: Result<u8, BencodeError> = Err(BencodeError::EndOfStream);
    assert_eq!(seq.next_key_seed(failed), Err(BencodeError::EndOfStream));
    assert_eq!(seq.next_element_seed(Ok(5u8)), Ok(Some(5u8)));
    assert_eq!(seq.next_key_seed(Ok(6u8)), Ok(Some(6u8)));
    assert_eq!(de.pending(), 1);
}

#[test]
fn only_an_end_exhausts_a_container() {
    let mut de = from_bytes(b"ei1e");
    let mut seq = BencodeVisitor::new(&mut de);
    assert_eq!(seq.begin_element(), Ok(false));
    assert_eq!(seq.begin_element(), Ok(true));
    assert_eq!(seq.begin_element(), Ok(true));
    assert_eq!(de.pending(), 1);
    assert_eq!(de.position(), 4);
    assert_eq!(de.deserialize_any(), Ok(Visit::Integer(1)));
    assert_eq!(
        BencodeVisitor::new(&mut de).begin_key(),
        Err(BencodeError::EndOfStream)
    );
}

#[test]
fn a_staged_end_exhausts_a_dictionary_without_a_scan() {
    let mut de = from_bytes(b"e1:a");
    de.update_state();
    assert_eq!(de.position(), 1);
    let mut map = BencodeVisitor::new(&mut de);
    assert_eq!(map.begin_key(), Ok(false));
    assert_eq!(de.position(), 1);
    assert_eq!(de.pending(), 0);
}

#[test]
fn a_value_that_is_missing_fails_the_dictionary() {
    let mut de = from_bytes(b"d1:ae");
    assert_eq!(de.deserialize_any(), Ok(Visit::Dict));
    assert_eq!(next_key(&mut de), Ok(Some(b"a".to_vec())));
    assert_eq!(next_value(&mut de), Err(BencodeError::EndOfStream));
    let mut map = BencodeVisitor::new(&mut de);
    let kept: Result<u8, BencodeError> = Err(unknown("v"));
    assert_eq!(map.next_value_seed(kept), Err(unknown("v")));
    assert_eq!(map.next_value_seed(Ok(3u8)), Ok(3u8));
}

#[test]
fn an_optional_value_is_announced_and_then_decoded() {
    let mut de = from_bytes(b"i5e");
    assert_eq!(de.deserialize_option(), Ok(Visit::Present));
    assert_eq!(de.pending(), 1);
    assert_eq!(de.position(), 3);
    assert_eq!(de.deserialize_any(), Ok(Visit::Integer(5)));
    assert_eq!(de.pending(), 0);
}

#[test]
fn a_struct_hands_out_its_keys_as_field_names() {
    let mut de = from_bytes(b"d1:ai1e1:bi2eei9e");
    assert_eq!(de.deserialize_struct(), Ok(Visit::Dict));
    assert!(de.in_struct_mode());
    assert_eq!(de.pending(), 0);
    assert_eq!(de.depth(), 1);
    assert_eq!(de.position(), 1);

    assert_eq!(next_field(&mut de), Ok(Some(b"a".to_vec())));
    assert_eq!(de.pending(), 1);
    assert_eq!(next_value(&mut de), Ok(Visit::Integer(1)));
    assert_eq!(de.pending(), 0);
    assert_eq!(next_field(&mut de), Ok(Some(b"b".to_vec())));
    assert_eq!(next_value(&mut de), Ok(Visit::Integer(2)));
    assert_eq!(next_field(&mut de), Ok(None));

    assert_eq!(de.position(), 14);
    assert_eq!(de.pending(), 0);
    assert_eq!(de.depth(), 0);
    assert!(!de.in_struct_mode());
    assert_eq!(de.deserialize_any(), Ok(Visit::Integer(9)));
    assert_eq!(de.position(), 17);
}

#[test]
fn a_field_name_stays_staged_until_its_value_is_stepped_to() {
    let mut de = from_bytes(b"d3:keyi1ee");
    assert_eq!(de.deserialize_struct(), Ok(Visit::Dict));
    assert_eq!(BencodeVisitor::new(&mut de).begin_key(), Ok(true));
    assert_eq!(de.deserialize_identifier(), Ok(Identifier::Field(b"key".to_vec())));
    assert_eq!(de.deserialize_identifier(), Ok(Identifier::Field(b"key".to_vec())));
    assert_eq!(de.pending(), 1);
    assert_eq!(BencodeVisitor::new(&mut de).begin_value(), Ok(()));
    assert_eq!(de.pending(), 1);
    assert_eq!(de.deserialize_any(), Ok(Visit::Integer(1)));
}

#[test]
fn a_struct_key_that_was_decoded_as_a_value_is_not_dropped_twice() {
    let mut de = from_bytes(b"d1:a1:be");
    assert_eq!(de.deserialize_struct(), Ok(Visit::Dict));
    assert_eq!(next_key(&mut de), Ok(Some(b"a".to_vec())));
    assert_eq!(next_value(&mut de), Ok(Visit::Bytes(b"b".to_vec())));
    assert_eq!(next_key(&mut de), Ok(None));
    assert_eq!(de.depth(), 0);
}

#[test]
fn a_request_for_a_struct_delivers_what_is_no_dictionary_as_it_is() {
    let mut de = from_bytes(b"i1e");
    assert_eq!(de.deserialize_struct(), Ok(Visit::Integer(1)));
    assert!(!de.in_struct_mode());
    let mut de = from_bytes(b"le");
    assert_eq!(de.deserialize_struct(), Ok(Visit::List));
    assert!(!de.in_struct_mode());
}

#[test]
fn in_struct_mode_only_a_byte_string_names_a_field() {
    for input in [&b"di1e"[..], b"dl", b"dd", b"de", b"d"] {
        let mut de = from_bytes(input);
        assert_eq!(de.deserialize_struct(), Ok(Visit::Dict));
        de.update_state();
        let staged = de.pending();
        assert_eq!(de.deserialize_identifier(), Err(BencodeError::EndOfStream));
        assert_eq!(de.pending(), staged);
        assert!(de.in_struct_mode());
    }
}

#[test]
fn struct_mode_ends_with_the_struct_and_pauses_inside_a_nested_container() {
    let mut de = from_bytes(b"d1:al1:xe1:bd1:k1:vee2:zz");
    assert_eq!(de.deserialize_struct(), Ok(Visit::Dict));
    assert_eq!(next_field(&mut de), Ok(Some(b"a".to_vec())));
    assert_eq!(BencodeVisitor::new(&mut de).begin_value(), Ok(()));
    assert_eq!(byte_strings(&mut de), Ok(vec![b"x".to_vec()]));
    assert!(de.in_struct_mode());
    assert_eq!(next_field(&mut de), Ok(Some(b"b".to_vec())));
    assert_eq!(BencodeVisitor::new(&mut de).begin_value(), Ok(()));
    assert_eq!(de.deserialize_any(), Ok(Visit::Dict));
    assert!(!de.in_struct_mode());
    assert_eq!(next_key(&mut de), Ok(Some(b"k".to_vec())));
    assert_eq!(next_value(&mut de), Ok(Visit::Bytes(b"v".to_vec())));
    assert_eq!(next_key(&mut de), Ok(None));
    assert!(de.in_struct_mode());
    assert_eq!(next_field(&mut de), Ok(None));
    assert!(!de.in_struct_mode());
    assert_eq!(de.deserialize_identifier(), Err(BencodeError::EndOfStream));
    assert_eq!(de.ensure_token(), Ok(()));
    assert_eq!(de.deserialize_identifier(), Ok(Identifier::Tag("ByteString")));
    assert_eq!(de.pending(), 1);
    assert_eq!(de.depth(), 0);
}

#[test]
fn a_tagged_union_inside_a_struct_leaves_struct_mode_on() {
    let mut de = from_bytes(b"d1:ad3:fooi7ee1:bi2ee");
    assert_eq!(de.deserialize_struct(), Ok(Visit::Dict));
    assert_eq!(next_field(&mut de), Ok(Some(b"a".to_vec())));
    assert_eq!(BencodeVisitor::new(&mut de).begin_value(), Ok(()));
    assert_eq!(variant(&mut de), Ok((b"foo".to_vec(), Visit::Integer(7))));
    assert!(de.in_struct_mode());
    assert_eq!(de.depth(), 1);
    assert_eq!(next_field(&mut de), Ok(Some(b"b".to_vec())));
    assert_eq!(next_value(&mut de), Ok(Visit::Integer(2)));
    assert_eq!(next_field(&mut de), Ok(None));
    assert_eq!(de.depth(), 0);
    assert_eq!(de.position(), 21);
}

#[test]
fn out_of_struct_mode_an_identifier_is_the_tag_of_a_shape() {
    let cases: [(&[u8], &str); 4] = [
        (b"i1e", "Integer"),
        (b"2:ab", "ByteString"),
        (b"de", "Dict"),
        (b"le", "List"),
    ];
    for (input, tag) in cases {
        let mut de = from_bytes(input);
        assert_eq!(de.ensure_token(), Ok(()));
        assert_eq!(de.deserialize_identifier(), Ok(Identifier::Tag(tag)));
        assert!(!de.in_struct_mode());
        assert_eq!(de.pending(), 1);
        assert_eq!(de.depth(), 0);
    }
}

#[test]
fn there_is_no_tag_for_an_end_or_for_nothing() {
    let mut de = from_bytes(b"e");
    assert_eq!(de.ensure_token(), Ok(()));
    assert_eq!(de.deserialize_identifier(), Err(BencodeError::EndOfStream));
    let de = from_bytes(b"i1e");
    assert_eq!(de.deserialize_identifier(), Err(BencodeError::EndOfStream));
    assert_eq!(de.position(), 0);
}

#[test]
fn a_tagged_union_is_named_by_its_sole_key() {
    let mut de = from_bytes(b"d3:fooi7ee");
    assert_eq!(de.deserialize_enum(), Ok(()));
    assert_eq!(de.depth(), 1);
    assert_eq!(de.pending(), 1);
    assert_eq!(de.position(), 6);
    assert!(de.in_struct_mode());
    assert_eq!(de.deserialize_identifier(), Ok(Identifier::Field(b"foo".to_vec())));

    let mut access = BencodeVisitor::new(&mut de);
    assert_eq!(access.begin_value(), Ok(()));
    let payload = access.de.deserialize_any();
    assert_eq!(payload, Ok(Visit::Integer(7)));
    assert_eq!(access.newtype_variant_seed(payload), Ok(Visit::Integer(7)));
    assert_eq!(de.position(), 10);
    assert_eq!(de.pending(), 0);
    assert_eq!(de.depth(), 0);
}

#[test]
fn a_tagged_union_carries_the_value_of_its_entry_as_payload() {
    let mut de = from_bytes(b"d3:bar4:spame");
    assert_eq!(
        variant(&mut de),
        Ok((b"bar".to_vec(), Visit::Bytes(b"spam".to_vec())))
    );
    assert_eq!(de.position(), 13);
    assert_eq!(de.pending(), 0);
    assert_eq!(de.depth(), 0);
}

#[test]
fn the_tag_of_a_tagged_union_may_be_decoded_as_a_value() {
    let mut de = from_bytes(b"d3:bari5ee");
    assert_eq!(de.deserialize_enum(), Ok(()));
    let access = BencodeVisitor::new(&mut de);
    let tag = bytes_at(access.de);
    let (tag, mut access) = match access.variant_seed(tag) {
        Ok(both) => both,
        Err(error) => panic!("{:?}", error),
    };
    assert_eq!(tag, b"bar".to_vec());
    assert_eq!(access.begin_value(), Ok(()));
    let payload = access.de.deserialize_any();
    assert_eq!(access.newtype_variant_seed(payload), Ok(Visit::Integer(5)));
    assert_eq!(de.depth(), 0);
}

#[test]
fn a_tagged_union_without_entry_is_unknown() {
    let mut de = from_bytes(b"dei1e");
    assert_eq!(
        de.deserialize_enum(),
        Err(unknown("Variant without entry not supported."))
    );
    assert_eq!(de.position(), 2);
    assert_eq!(de.pending(), 0);
    assert_eq!(de.depth(), 0);
}

#[test]
fn a_tagged_union_with_two_entries_is_unknown() {
    let mut de = from_bytes(b"d3:fooi1e3:bar4:spame");
    assert_eq!(
        variant(&mut de),
        Err(unknown("Variant with more than one entry not supported."))
    );
    let mut de = from_bytes(b"d1:ai1e1:bi2e1:ci3ee");
    assert_eq!(
        variant(&mut de),
        Err(unknown("Variant with more than one entry not supported."))
    );
}

#[test]
fn a_tagged_union_that_is_no_dictionary_is_unknown() {
    for input in [&b"i7e"[..], b"3:foo", b"l3:fooe"] {
        let mut de = from_bytes(input);
        assert_eq!(
            de.deserialize_enum(),
            Err(unknown("Variant outside a dictionary not supported."))
        );
        assert_eq!(de.depth(), 0);
    }
    assert_eq!(from_bytes(b"e").deserialize_enum(), Err(BencodeError::EndOfStream));
}

#[test]
fn a_tagged_union_without_its_end_is_the_end_of_the_stream() {
    let mut de = from_bytes(b"d3:fooi7e");
    assert_eq!(variant(&mut de), Err(BencodeError::EndOfStream));
    let mut de = from_bytes(b"d3:foo");
    assert_eq!(variant(&mut de), Err(BencodeError::EndOfStream));
    let mut de = from_bytes(b"d");
    assert_eq!(de.deserialize_enum(), Err(BencodeError::EndOfStream));
}

#[test]
fn a_failed_payload_fails_the_tagged_union_as_it_failed() {
    let mut de = from_bytes(b"d3:fooi3.0ee");
    assert_eq!(variant(&mut de), Err(invalid("Can't parse `3.0` as i64")));
    let mut de = from_bytes(b"e");
    let access = BencodeVisitor::new(&mut de);
    let failed: Result<u8, BencodeError> = Err(invalid("p"));
    assert_eq!(access.newtype_variant_seed(failed), Err(invalid("p")));
    assert_eq!(de.position(), 0);
}

#[test]
fn a_failed_tag_fails_the_tagged_union() {
    let mut de = from_bytes(b"di1ei2ee");
    assert_eq!(de.deserialize_enum(), Ok(()));
    let access = BencodeVisitor::new(&mut de);
    let tag = field_at(access.de);
    match access.variant_seed(tag) {
        Ok(_) => panic!("expected a failure"),
        Err(error) => assert_eq!(error, BencodeError::EndOfStream),
    }
}

#[test]
fn a_variant_without_payload_is_unknown() {
    let mut de = from_bytes(b"de");
    assert_eq!(
        BencodeVisitor::new(&mut de).unit_variant(),
        Err(unknown("Unit variant not supported."))
    );
    assert_eq!(de.position(), 0);
}

#[test]
fn a_variant_with_positional_fields_is_unknown() {
    let mut de = from_bytes(b"li1ei2ee");
    let r: Result<(i64, i64), BencodeError> = BencodeVisitor::new(&mut de).tuple_variant(2);
    assert_eq!(r, Err(unknown("Tuple variant not supported.")));
    assert_eq!(de.position(), 0);
}

#[test]
fn a_variant_with_named_fields_is_unknown() {
    let mut de = from_bytes(b"d1:ai1ee");
    let r: Result<i64, BencodeError> = BencodeVisitor::new(&mut de).struct_variant(&["a"]);
    assert_eq!(r, Err(unknown("Struct variant not supported.")));
    assert_eq!(de.position(), 0);
}

#[test]
fn containers_nest_up_to_the_limit() {
    assert_eq!(MAX_DEPTH, 256);
    let mut input = vec![b'l'; MAX_DEPTH];
    input.extend(vec![b'e'; MAX_DEPTH]);
    let mut de = BencodeDecoder::new(input);
    for level in 0..MAX_DEPTH {
        assert_eq!(de.depth(), level);
        assert_eq!(BencodeVisitor::new(&mut de).begin_element(), Ok(true));
        assert_eq!(de.deserialize_any(), Ok(Visit::List));
    }
    assert_eq!(de.depth(), MAX_DEPTH);
    for _ in 0..MAX_DEPTH {
        assert_eq!(BencodeVisitor::new(&mut de).begin_element(), Ok(false));
    }
    assert_eq!(de.depth(), 0);
    assert_eq!(de.position(), 2 * MAX_DEPTH);
}

#[test]
fn a_container_beyond_the_limit_is_an_invalid_value() {
    for opener in [b'l', b'd'] {
        let mut de = BencodeDecoder::new(vec![opener; MAX_DEPTH + 1]);
        for _ in 0..MAX_DEPTH {
            assert!(de.deserialize_any().is_ok());
        }
        assert_eq!(de.depth(), MAX_DEPTH);
        assert_eq!(de.deserialize_any(), Err(invalid("Too many nested containers")));
        assert_eq!(de.depth(), MAX_DEPTH);
        assert_eq!(de.position(), MAX_DEPTH + 1);
    }
    let mut de = BencodeDecoder::new(vec![b'd'; MAX_DEPTH + 1]);
    for _ in 0..MAX_DEPTH {
        assert_eq!(de.deserialize_struct(), Ok(Visit::Dict));
    }
    assert_eq!(de.deserialize_struct(), Err(invalid("Too many nested containers")));
    let mut de = BencodeDecoder::new(vec![b'd'; MAX_DEPTH + 1]);
    for _ in 0..MAX_DEPTH {
        assert!(de.deserialize_any().is_ok());
    }
    assert_eq!(de.deserialize_enum(), Err(invalid("Too many nested containers")));
}

#[test]
fn two_decoders_over_one_input_agree() {
    let input = b"d3:cow3:moo4:spamli1ei-2e0:ee";
    let mut first = from_bytes(input);
    let mut second = BencodeDecoder::new(input.to_vec());
    loop {
        let a = first.deserialize_any();
        let b = second.deserialize_any();
        assert_eq!(a, b);
        assert_eq!(first.position(), second.position());
        assert_eq!(first.pending(), second.pending());
        assert_eq!(first.depth(), second.depth());
        if first.position() == input.len() {
            break;
        }
    }
    assert_eq!(first.position(), 29);
}

#[test]
fn text_and_bytes_decode_alike() {
    let mut text = from_str("l4:spam4:eggse");
    let mut bytes = from_bytes(b"l4:spam4:eggse");
    assert_eq!(byte_strings(&mut text), byte_strings(&mut bytes));
}

#[test]
fn a_new_decoder_has_consumed_nothing() {
    let de = BencodeDecoder::new(b"i1e".to_vec());
    assert_eq!(de.position(), 0);
    assert_eq!(de.pending(), 0);
    assert_eq!(de.depth(), 0);
    assert!(!de.in_struct_mode());
    assert!(!de.at_end());
    assert_eq!(de.peek(), None);
}
