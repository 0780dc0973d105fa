use sip_parser::contact::{parse_contact, Contact};

#[test]
fn contact_contact_full() {
    let input = b"\"Alice Mark\" <sip:9989898919@127.0.0.1:35436>;tag=asdasdasdasd;some=nice\r\n";
    let (pos, c) = parse_contact(input, 0).unwrap();
    assert_eq!(
        (&input[pos..], c),
        (
            b"" as &[u8],
            Contact {
                alias: Some(b"Alice Mark".to_vec()),
                protocol: b"sip".to_vec(),
                extension: b"9989898919".to_vec(),
                domain: Some(b"127.0.0.1".to_vec()),
                port: Some(b"35436".to_vec()),
                params: vec![b"tag=asdasdasdasd".to_vec(), b"some=nice".to_vec()],
            }
        )
    );
}

#[test]
fn contact_contact_no_alias() {
    let input = b"sip:85999684700@localhost\r\n";
    let (pos, c) = parse_contact(input, 0).unwrap();
    assert_eq!(
        (&input[pos..], c),
        (
            b"" as &[u8],
            Contact {
                alias: None,
                protocol: b"sip".to_vec(),
                extension: b"85999684700".to_vec(),
                domain: Some(b"localhost".to_vec()),
                port: None,
                params: vec![],
            }
        )
    );
}

#[test]
fn contact_contact_no_host() {
    let input = b"tel:+5585999680047\r\n";
    let (pos, c) = parse_contact(input, 0).unwrap();
    assert_eq!(
        (&input[pos..], c),
        (
            b"" as &[u8],
            Contact {
                alias: None,
                protocol: b"tel".to_vec(),
                extension: b"+5585999680047".to_vec(),
                domain: None,
                port: None,
                params: vec![],
            }
        )
    );
}

#[test]
fn contact_contact_host_with_port() {
    let input = b"sips:mark@localhost:3342\r\n";
    let (pos, c) = parse_contact(input, 0).unwrap();
    assert_eq!(
        (&input[pos..], c),
        (
            b"" as &[u8],
            Contact {
                alias: None,
                protocol: b"sips".to_vec(),
                extension: b"mark".to_vec(),
                domain: Some(b"localhost".to_vec()),
                port: Some(b"3342".to_vec()),
                params: vec![],
            }
        )
    );
}

#[test]
fn contact_contact_alias_empty() {
    let input = b"<sip:8882@127.0.0.1>\r\n";
    let (pos, c) = parse_contact(input, 0).unwrap();
    assert_eq!(
        (&input[pos..], c),
        (
            b"" as &[u8],
            Contact {
                alias: Some(b"".to_vec()),
                protocol: b"sip".to_vec(),
                extension: b"8882".to_vec(),
                domain: Some(b"127.0.0.1".to_vec()),
                port: None,
                params: vec![],
            }
        )
    );
}

#[test]
fn contact_contact_with_params() {
    let input = b"sip:admin@localhost;tag=38298391\r\n";
    let (pos, c) = parse_contact(input, 0).unwrap();
    assert_eq!(
        (&input[pos..], c),
        (
            b"" as &[u8],
            Contact {
                alias: None,
                protocol: b"sip".to_vec(),
                extension: b"admin".to_vec(),
                domain: Some(b"localhost".to_vec()),
                port: None,
                params: vec![b"tag=38298391".to_vec()],
            }
        )
    );
}
