use sip_parser::header::types::{
    parse_contact, parse_params, parse_sock_addr, parse_str, parse_str_list, parse_u32,
    ContactInfo, SockAddr, URI,
};

#[test]
fn sockaddr() {
    let input = b"192.168.0.1:4444\r\n";
    let (pos, a) = parse_sock_addr(input, 0).unwrap();
    assert_eq!(
        (&input[pos..], a),
        (b"\r\n" as &[u8], SockAddr { addr: b"192.168.0.1".to_vec(), port: 4444 })
    );
}

#[test]
fn sockaddr_with_params() {
    let input = b"192.168.0.1:4444;tag=some-thing\r\n";
    let (pos, a) = parse_sock_addr(input, 0).unwrap();
    assert_eq!(
        (&input[pos..], a),
        (b";tag=some-thing\r\n" as &[u8], SockAddr { addr: b"192.168.0.1".to_vec(), port: 4444 })
    );
}

#[test]
fn params() {
    let input = b";tag=a;another=afonso\r\n";
    let (pos, p) = parse_params(input, 0).unwrap();
    assert_eq!(
        (&input[pos..], p),
        (b"\r\n" as &[u8], vec![b"tag=a".to_vec(), b"another=afonso".to_vec()])
    );
}

#[test]
fn params_big() {
    let input = b";branch=z9hG4bK-d8754z-05751188cc710991-1---d8754z-\r\n";
    let (pos, p) = parse_params(input, 0).unwrap();
    assert_eq!(
        (&input[pos..], p),
        (
            b"\r\n" as &[u8],
            vec![b"branch=z9hG4bK-d8754z-05751188cc710991-1---d8754z-".to_vec()]
        )
    );
}

#[test]
fn strlist_empty() {
    let input = b"\r\n";
    let (pos, l) = parse_str_list(input, 0).unwrap();
    assert_eq!((&input[pos..], l), (b"\r\n" as &[u8], vec![]));
}

#[test]
fn strlist() {
    let input = b"INVITE, ACK, CANCEL, BYE, NOTIFY, REFER, MESSAGE, OPTIONS, INFO, SUBSCRIBE\r\n";
    let (pos, l) = parse_str_list(input, 0).unwrap();
    assert_eq!(
        (&input[pos..], l),
        (
            b"\r\n" as &[u8],
            vec![
                b"INVITE".to_vec(),
                b"ACK".to_vec(),
                b"CANCEL".to_vec(),
                b"BYE".to_vec(),
                b"NOTIFY".to_vec(),
                b"REFER".to_vec(),
                b"MESSAGE".to_vec(),
                b"OPTIONS".to_vec(),
                b"INFO".to_vec(),
                b"SUBSCRIBE".to_vec(),
            ],
        )
    );
}

#[test]
fn strvalue_comma() {
    let input = b"some,thing\r\n";
    let (pos, s) = parse_str(input, 0);
    assert_eq!((&input[pos..], s), (b",thing\r\n" as &[u8], b"some".to_vec()));
}

#[test]
fn strvalue() {
    let input = b"   MDhkMTcxYjYwNzEzMjhjZWUyZDE0OTY5NGNmZjA3YzA.;tag=some\r\n";
    let (pos, s) = parse_str(input, 0);
    assert_eq!(
        (&input[pos..], s),
        (b";tag=some\r\n" as &[u8], b"MDhkMTcxYjYwNzEzMjhjZWUyZDE0OTY5NGNmZjA3YzA.".to_vec())
    );
}

#[test]
fn strvalue_sp() {
    let input = b"MDhkMTcxYjYwNzEzMjhjZWUy ZDE0OTY5NGNmZjA3YzA.\r\n";
    let (pos, s) = parse_str(input, 0);
    assert_eq!(
        (&input[pos..], s),
        (b" ZDE0OTY5NGNmZjA3YzA.\r\n" as &[u8], b"MDhkMTcxYjYwNzEzMjhjZWUy".to_vec())
    );
}

#[test]
fn u32value_invalid() {
    let input = b"-44\r\n";
    let (pos, v) = parse_u32(input, 0);
    assert_eq!((&input[pos..], v), (b"-44\r\n" as &[u8], 0));
}

#[test]
fn u32value() {
    let input = b" 44\r\n";
    let (pos, v) = parse_u32(input, 0);
    assert_eq!((&input[pos..], v), (b"\r\n" as &[u8], 44));
}

#[test]
fn types_contact_full() {
    let input =
        b"\"Alice Mark\" <sip:9989898919@127.0.0.1:35436;transport=UDP>;tag=asdasdasdasd;some=nice\r\n";
    let (pos, c) = parse_contact(input, 0).unwrap();
    assert_eq!(
        (&input[pos..], c),
        (
            b"\r\n" as &[u8],
            ContactInfo {
                alias: Some(b"Alice Mark".to_vec()),
                uri: URI {
                    protocol: b"sip".to_vec(),
                    extension: b"9989898919".to_vec(),
                    domain: Some(b"127.0.0.1".to_vec()),
                    port: Some(35436),
                    params: vec![b"transport=UDP".to_vec()],
                },
                params: vec![b"tag=asdasdasdasd".to_vec(), b"some=nice".to_vec()],
            }
        )
    );
}

#[test]
fn types_contact_no_alias() {
    let input = b"sip:85999684700@localhost\r\n";
    let (pos, c) = parse_contact(input, 0).unwrap();
    assert_eq!(
        (&input[pos..], c),
        (
            b"\r\n" as &[u8],
            ContactInfo {
                alias: None,
                uri: URI {
                    protocol: b"sip".to_vec(),
                    extension: b"85999684700".to_vec(),
                    domain: Some(b"localhost".to_vec()),
                    port: None,
                    params: vec![],
                },
                params: vec![],
            }
        )
    );
}

#[test]
fn types_contact_no_host() {
    let input = b"tel:+5585999680047\r\n";
    let (pos, c) = parse_contact(input, 0).unwrap();
    assert_eq!(
        (&input[pos..], c),
        (
            b"\r\n" as &[u8],
            ContactInfo {
                alias: None,
                uri: URI {
                    protocol: b"tel".to_vec(),
                    extension: b"+5585999680047".to_vec(),
                    domain: None,
                    port: None,
                    params: vec![],
                },
                params: vec![],
            }
        )
    );
}

#[test]
fn types_contact_host_with_port() {
    let input = b"sips:mark@localhost:3342\r\n";
    let (pos, c) = parse_contact(input, 0).unwrap();
    assert_eq!(
        (&input[pos..], c),
        (
            b"\r\n" as &[u8],
            ContactInfo {
                alias: None,
                uri: URI {
                    protocol: b"sips".to_vec(),
                    extension: b"mark".to_vec(),
                    domain: Some(b"localhost".to_vec()),
                    port: Some(3342),
                    params: vec![],
                },
                params: vec![],
            }
        )
    );
}

#[test]
fn types_contact_alias_empty() {
    let input = b"<sip:8882@127.0.0.1>\r\n";
    let (pos, c) = parse_contact(input, 0).unwrap();
    assert_eq!(
        (&input[pos..], c),
        (
            b"\r\n" as &[u8],
            ContactInfo {
                alias: None,
                uri: URI {
                    protocol: b"sip".to_vec(),
                    extension: b"8882".to_vec(),
                    domain: Some(b"127.0.0.1".to_vec()),
                    port: None,
                    params: vec![],
                },
                params: vec![],
            }
        )
    );
}

#[test]
fn types_contact_with_params() {
    let input = b"sip:admin@localhost;tag=38298391\r\n";
    let (pos, c) = parse_contact(input, 0).unwrap();
    assert_eq!(
        (&input[pos..], c),
        (
            b"\r\n" as &[u8],
            ContactInfo {
                alias: None,
                uri: URI {
                    protocol: b"sip".to_vec(),
                    extension: b"admin".to_vec(),
                    domain: Some(b"localhost".to_vec()),
                    port: None,
                    params: vec![],
                },
                params: vec![b"tag=38298391".to_vec()],
            }
        )
    );
}

#[test]
fn contact_uri_params() {
    let input = b"\"Alisson Bae\" <sip:asd@dsds:33;transport=333>;tag=aasdasd\r\n";
    let (pos, c) = parse_contact(input, 0).unwrap();
    assert_eq!(
        (&input[pos..], c),
        (
            b"\r\n" as &[u8],
            ContactInfo {
                alias: Some(b"Alisson Bae".to_vec()),
                uri: URI {
                    protocol: b"sip".to_vec(),
                    extension: b"asd".to_vec(),
                    domain: Some(b"dsds".to_vec()),
                    port: Some(33),
                    params: vec![b"transport=333".to_vec()],
                },
                params: vec![b"tag=aasdasd".to_vec()],
            }
        )
    );
}

#[test]
fn contact_uri_params_only() {
    let input = b"<sip:ddd@aaa:1111;transport=UDP>\r\n";
    let (pos, c) = parse_contact(input, 0).unwrap();
    assert_eq!(
        (&input[pos..], c),
        (
            b"\r\n" as &[u8],
            ContactInfo {
                alias: None,
                uri: URI {
                    protocol: b"sip".to_vec(),
                    extension: b"ddd".to_vec(),
                    domain: Some(b"aaa".to_vec()),
                    port: Some(1111),
                    params: vec![b"transport=UDP".to_vec()],
                },
                params: vec![],
            }
        )
    );
}

#[test]
fn contact_no_alias_with_params() {
    let input = b"sip:afonso@lage;tag=d2d2\r\n";
    let (pos, c) = parse_contact(input, 0).unwrap();
    assert_eq!(
        (&input[pos..], c),
        (
            b"\r\n" as &[u8],
            ContactInfo {
                alias: None,
                uri: URI {
                    protocol: b"sip".to_vec(),
                    extension: b"afonso".to_vec(),
                    domain: Some(b"lage".to_vec()),
                    port: None,
                    params: vec![],
                },
                params: vec![b"tag=d2d2".to_vec()],
            }
        )
    );
}

#[test]
fn contact_no_alias_w_port_n_params() {
    let input = b"sip:afonso@lage:443;tag=d2d2\r\n";
    let (pos, c) = parse_contact(input, 0).unwrap();
    assert_eq!(
        (&input[pos..], c),
        (
            b"\r\n" as &[u8],
            ContactInfo {
                alias: None,
                uri: URI {
                    protocol: b"sip".to_vec(),
                    extension: b"afonso".to_vec(),
                    domain: Some(b"lage".to_vec()),
                    port: Some(443),
                    params: vec![],
                },
                params: vec![b"tag=d2d2".to_vec()],
            }
        )
    );
}

#[test]
fn contact_no_alias_no_host_w_params() {
    let input = b"tel:+5585999680047;tag=d2d2\r\n";
    let (pos, c) = parse_contact(input, 0).unwrap();
    assert_eq!(
        (&input[pos..], c),
        (
            b"\r\n" as &[u8],
            ContactInfo {
                alias: None,
                uri: URI {
                    protocol: b"tel".to_vec(),
                    extension: b"+5585999680047".to_vec(),
                    domain: None,
                    port: None,
                    params: vec![],
                },
                params: vec![b"tag=d2d2".to_vec()],
            }
        )
    );
}

#[test]
fn contact_no_alias_no_port_w_uri_params() {
    let input = b"<tel:190;type=emergency>\r\n";
    let (pos, c) = parse_contact(input, 0).unwrap();
    assert_eq!(
        (&input[pos..], c),
        (
            b"\r\n" as &[u8],
            ContactInfo {
                alias: None,
                uri: URI {
                    protocol: b"tel".to_vec(),
                    extension: b"190".to_vec(),
                    domain: None,
                    port: None,
                    params: vec![b"type=emergency".to_vec()],
                },
                params: vec![],
            }
        )
    );
}
