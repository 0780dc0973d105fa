use sip_parser::header::types::{
    parse_contact, parse_str_list, parse_u32, parse_uri_with_params, ContactInfo, ParseError,
    SockAddr, URI,
};
use sip_parser::header::{
    parse_sip_header, parse_sip_headers, parse_sip_message, parse_sip_method, SipHeader, SipMethod,
};
use sip_parser::grammar::Rule;

#[test]
fn u32_digits_roundtrip() {
    let input = b"4294967295\r\n";
    let (pos, v) = parse_u32(input, 0);
    assert_eq!((pos, v, &input[pos..]), (10, 4294967295, b"\r\n" as &[u8]));
}

#[test]
fn u32_overflow_reads_as_zero() {
    let input = b"4294967296\r\n";
    let (pos, v) = parse_u32(input, 0);
    assert_eq!((pos, v), (10, 0));
}

#[test]
fn supported_empty_list() {
    let input = b"Supported:\r\n";
    let (pos, h) = parse_sip_header(input, 0).unwrap();
    assert_eq!((&input[pos..], h), (b"\r\n" as &[u8], SipHeader::Supported(vec![])));
}

#[test]
fn contact_header_scenario() {
    let input = b"Contact: \"Alice Mark\" <sip:9989898919@127.0.0.1:35436>;tag=asd;some=nice\r\n";
    let (pos, h) = parse_sip_header(input, 0).unwrap();
    assert_eq!(
        (&input[pos..], h),
        (
            b"\r\n" as &[u8],
            SipHeader::Contact(ContactInfo {
                alias: Some(b"Alice Mark".to_vec()),
                uri: URI {
                    protocol: b"sip".to_vec(),
                    extension: b"9989898919".to_vec(),
                    domain: Some(b"127.0.0.1".to_vec()),
                    port: Some(35436),
                    params: vec![],
                },
                params: vec![b"tag=asd".to_vec(), b"some=nice".to_vec()],
            })
        )
    );
}

#[test]
fn cseq_scenario() {
    let input = b"CSeq: 1 SUBSCRIBE\r\n";
    let (pos, h) = parse_sip_header(input, 0).unwrap();
    assert_eq!(
        (&input[pos..], h),
        (b"\r\n" as &[u8], SipHeader::CSeq { seq: 1, header: b"SUBSCRIBE".to_vec() })
    );
}

#[test]
fn cseq_missing_space_is_syntax_failure() {
    let input = b"CSeq: 1\r\n";
    let r = parse_sip_header(input, 0);
    assert_eq!(r, Err(ParseError::Syntax { rule: Rule::Blank, pos: 7 }));
}

#[test]
fn unknown_header_keeps_value_line() {
    let input = b"X-Custom: some value, with commas\r\n";
    let (pos, h) = parse_sip_header(input, 0).unwrap();
    assert_eq!(
        (&input[pos..], h),
        (
            b"\r\n" as &[u8],
            SipHeader::Unknown {
                name: b"X-Custom".to_vec(),
                value: b"some value, with commas".to_vec(),
            }
        )
    );
}

#[test]
fn header_without_line_end_is_incomplete() {
    let r = parse_sip_header(b"X-Custom: hi", 0);
    assert_eq!(r, Err(ParseError::Incomplete));
}

#[test]
fn list_without_progress_is_syntax_failure() {
    let r = parse_str_list(b";\r\n", 0);
    assert_eq!(r, Err(ParseError::Syntax { rule: Rule::List, pos: 0 }));
}

#[test]
fn via_header() {
    let input = b"Via: SIP/2.0/UDP 192.168.10.135:5060;branch=z9hG4bK-d8754z\r\n";
    let (pos, h) = parse_sip_header(input, 0).unwrap();
    assert_eq!(
        (&input[pos..], h),
        (
            b"\r\n" as &[u8],
            SipHeader::Via {
                protocol: b"UDP".to_vec(),
                addr: SockAddr { addr: b"192.168.10.135".to_vec(), port: 5060 },
                params: vec![b"branch=z9hG4bK-d8754z".to_vec()],
            }
        )
    );
}

#[test]
fn via_wrong_version_is_syntax_failure() {
    let r = parse_sip_header(b"Via: XIP/2.0/UDP 1.2.3.4:5\r\n", 0);
    assert_eq!(r, Err(ParseError::Syntax { rule: Rule::SipVersion, pos: 5 }));
}

#[test]
fn authorization_header() {
    let input = b"Authorization: Digest username=\"alice\", realm=\"sip\"\r\n";
    let (pos, h) = parse_sip_header(input, 0).unwrap();
    assert_eq!(
        (&input[pos..], h),
        (
            b"\r\n" as &[u8],
            SipHeader::Authorization(vec![
                b"username=\"alice\"".to_vec(),
                b"realm=\"sip\"".to_vec(),
            ])
        )
    );
}

#[test]
fn authorization_without_digest_is_syntax_failure() {
    let r = parse_sip_header(b"Authorization: Basic abc\r\n", 0);
    assert_eq!(r, Err(ParseError::Syntax { rule: Rule::Digest, pos: 15 }));
}

#[test]
fn user_agent_keeps_line_verbatim() {
    let input = b"User-Agent: Zoiper for Windows 2.38 rev.16635\r\n";
    let (pos, h) = parse_sip_header(input, 0).unwrap();
    assert_eq!(
        (&input[pos..], h),
        (b"\r\n" as &[u8], SipHeader::UserAgent(b" Zoiper for Windows 2.38 rev.16635".to_vec()))
    );
}

#[test]
fn expires_header_with_invalid_number_reads_zero() {
    let input = b"Expires: -44\r\n";
    let (pos, h) = parse_sip_header(input, 0).unwrap();
    assert_eq!((&input[pos..], h), (b"-44\r\n" as &[u8], SipHeader::Expires(0)));
}

#[test]
fn quoted_empty_alias_stays_present() {
    let input = b"\"\" <sip:8882@127.0.0.1>\r\n";
    let (_, c) = parse_contact(input, 0).unwrap();
    assert_eq!(c.alias, Some(b"".to_vec()));
}

#[test]
fn bracketed_uri_unclosed_is_syntax_failure() {
    let r = parse_uri_with_params(b"<sip:a@b;x=1 \r\n", 0);
    assert_eq!(r, Err(ParseError::Syntax { rule: Rule::AngleClose, pos: 12 }));
}

#[test]
fn status_line() {
    let input = b"SIP/2.0 200 OK\r\n";
    let (pos, m) = parse_sip_method(input, 0).unwrap();
    assert_eq!(
        (&input[pos..], m),
        (
            b"" as &[u8],
            SipMethod::Response {
                version: b"SIP/2.0".to_vec(),
                code: 200,
                reason: b"OK".to_vec(),
            }
        )
    );
}

#[test]
fn request_line_with_unknown_method() {
    let input = b"NOTIFY sip:42@example.org:5060 SIP/2.0\r\n";
    let (_, m) = parse_sip_method(input, 0).unwrap();
    assert_eq!(
        m,
        SipMethod::Unknown {
            method: b"NOTIFY".to_vec(),
            uri: URI {
                protocol: b"sip".to_vec(),
                extension: b"42".to_vec(),
                domain: Some(b"example.org".to_vec()),
                port: Some(5060),
                params: vec![],
            },
            version: b"SIP/2.0".to_vec(),
        }
    );
}

fn subscribe_message() -> Vec<u8> {
    let mut m = Vec::new();
    for line in [
        "SUBSCRIBE sip:3006@192.168.11.223;transport=UDP SIP/2.0\r\n",
        "Contact: <sip:3006@192.168.10.135:5060;transport=UDP>\r\n",
        "Max-Forwards: 70\r\n",
        "Contact: <sip:3006@192.168.10.135:5060;transport=UDP>\r\n",
        "To: <sip:3006@192.168.11.223;transport=UDP>\r\n",
        "From: <sip:3006@192.168.11.223;transport=UDP>;tag=1f2b1e7e\r\n",
        "Call-ID: MDhkMTcxYjYwNzEzMjhjZWUyZDE0OTY5NGNmZjA3YzA.\r\n",
        "CSeq: 1 SUBSCRIBE\r\n",
        "Expires: 3600\r\n",
        "Accept: application/simple-message-summary\r\n",
        "Allow: INVITE, ACK, CANCEL, BYE, NOTIFY, REFER, MESSAGE, OPTIONS, INFO, SUBSCRIBE\r\n",
        "Supported: replaces, norefersub, extended-refer, X-cisco-serviceuri\r\n",
        "User-Agent: Zoiper for Windows 2.38 rev.16635\r\n",
        "Event: message-summary\r\n",
        "Allow-Events: presence, kpml\r\n",
        "Content-Length: 0\r\n",
        "Via: SIP/2.0/UDP 192.168.10.135:5060;branch=z9hG4bK-d8754z-05751188cc710991-1---d8754z-\r\n",
        "\r\n",
    ] {
        m.extend_from_slice(line.as_bytes());
    }
    m
}

#[test]
fn full_message_scenario() {
    let input = subscribe_message();
    let (pos, msg) = parse_sip_message(&input).unwrap();
    assert_eq!(pos, input.len());
    match &msg.method {
        SipMethod::Subscribe { uri, version } => {
            assert_eq!(uri.domain, Some(b"192.168.11.223".to_vec()));
            assert_eq!(uri.params, vec![b"transport=UDP".to_vec()]);
            assert_eq!(version, &b"SIP/2.0".to_vec());
        },
        other => panic!("wrong start line: {:?}", other),
    }
    assert_eq!(msg.headers.len(), 16);
    assert_eq!(msg.headers[0], msg.headers[2], "duplicate Contact kept as two entries");
    assert_eq!(msg.headers[1], SipHeader::MaxForwards(70));
    assert_eq!(msg.headers[7], SipHeader::Expires(3600));
    assert_eq!(msg.headers[15], SipHeader::Via {
        protocol: b"UDP".to_vec(),
        addr: SockAddr { addr: b"192.168.10.135".to_vec(), port: 5060 },
        params: vec![b"branch=z9hG4bK-d8754z-05751188cc710991-1---d8754z-".to_vec()],
    });
    assert!(msg.content.is_empty());
}

#[test]
fn parsing_twice_gives_equal_results() {
    let input = subscribe_message();
    let first = parse_sip_message(&input);
    let second = parse_sip_message(&input);
    assert_eq!(first, second);
}

#[test]
fn headers_without_blank_line_are_incomplete() {
    let input = b"Max-Forwards: 70\r\n";
    let r = parse_sip_headers(input, 0);
    assert_eq!(r, Err(ParseError::Incomplete));
}

#[test]
fn duplicate_parameter_keys_kept_in_order() {
    let input = b";tag=a;tag=b\r\n";
    let (_, p) = sip_parser::header::types::parse_params(input, 0).unwrap();
    assert_eq!(p, vec![b"tag=a".to_vec(), b"tag=b".to_vec()]);
}

#[test]
fn session_expires_header() {
    let input = b"Session-Expires: 90;refresher=uac\r\n";
    let (pos, h) = parse_sip_header(input, 0).unwrap();
    assert_eq!(
        (&input[pos..], h),
        (
            b"\r\n" as &[u8],
            SipHeader::SessionExpires { value: 90, params: vec![b"refresher=uac".to_vec()] }
        )
    );
}

#[test]
fn min_se_header() {
    let input = b"Min-SE: 90\r\n";
    let (_, h) = parse_sip_header(input, 0).unwrap();
    assert_eq!(h, SipHeader::MinSE(90));
}

#[test]
fn content_type_keeps_line_verbatim() {
    let input = b"Content-Type: application/sdp;charset=utf-8\r\n";
    let (_, h) = parse_sip_header(input, 0).unwrap();
    assert_eq!(h, SipHeader::ContentType(b" application/sdp;charset=utf-8".to_vec()));
}

#[test]
fn bare_uri_missing_open_angle_is_syntax_failure() {
    let r = parse_uri_with_params(b"sip:a@b\r\n", 0);
    assert_eq!(r, Err(ParseError::Syntax { rule: Rule::AngleOpen, pos: 0 }));
}

#[test]
fn contact_truncated_input_is_incomplete() {
    let r = parse_contact(b"sip:a", 0);
    assert_eq!(r, Err(ParseError::Incomplete));
}

#[test]
fn request_line_without_crlf_after_version_is_syntax_failure() {
    let input = b"BYE sip:a;x=1 V2 extra\r\n";
    let r = sip_parser::header::parse_sip_request(input, 0);
    assert_eq!(r, Err(ParseError::Syntax { rule: Rule::Crlf, pos: 16 }));
}
