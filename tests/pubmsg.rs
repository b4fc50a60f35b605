use rpki::pubmsg::{
    AttributesError, Attribute, Message, MessageError, MessageKind, StartTag, NS, VERSION,
};

fn attr(name: &str, value: &str) -> Attribute {
    Attribute { name: name.as_bytes().to_vec(), value: value.as_bytes().to_vec() }
}

fn root(attributes: Vec<Attribute>) -> StartTag {
    StartTag { name: b"msg".to_vec(), attributes }
}

fn envelope(msg_type: &str, content: &str) -> String {
    format!(
        "<msg xmlns=\"{}\" version=\"{}\" type=\"{}\">{}</msg>",
        NS, VERSION, msg_type, content
    )
}

/// Splits a document written by `envelope` into its root start tag and
/// its content, as a tokenizer would.
fn split(xml: &str) -> (StartTag, Vec<u8>) {
    let open_end = xml.find('>').unwrap();
    let head = &xml[1..open_end];
    let mut words = head.split(' ');
    let name = words.next().unwrap();
    let attributes = words
        .map(|w| {
            let (n, v) = w.split_once('=').unwrap();
            attr(n, v.trim_matches('"'))
        })
        .collect();
    let content = &xml[open_end + 1..xml.len() - "</msg>".len()];
    (
        StartTag { name: name.as_bytes().to_vec(), attributes },
        content.as_bytes().to_vec(),
    )
}

fn decode(xml: &str) -> Result<Message, MessageError> {
    let (tag, content) = split(xml);
    Message::decode(&tag, content)
}

fn assert_re_encode_equals(object: Message, xml: &str) {
    let vec = object.encode_vec();
    let encoded_xml = std::str::from_utf8(&vec).unwrap();
    let object_from_encoded_xml = decode(encoded_xml).unwrap();
    assert_eq!(object, object_from_encoded_xml);
    assert_eq!(xml, encoded_xml);
}

#[test]
fn should_parse_and_encode_multi_element_query() {
    let xml = envelope(
        "query",
        "<publish hash=\"deadf00d\" uri=\"rsync://wombat.example/Alice/blCrcCp9ltyPDNzYKPfxc.cer\">MIIE+jCCA+KgAwIBAgIBDTANBgkqhkiG9w0BAQsFADAzMTEwLwYDVQQDEyhE</publish>\
         <withdraw hash=\"deadf00d\" uri=\"rsync://wombat.example/Alice/baz.cer\"/>",
    );
    let pm = decode(&xml).unwrap();
    assert_eq!(pm.kind(), MessageKind::PublishQuery);
    assert_re_encode_equals(pm, &xml);
}

#[test]
fn should_parse_and_encode_list_query() {
    let xml = envelope("query", "<list/>");
    let l = decode(&xml).unwrap();
    assert_eq!(l.kind(), MessageKind::ListQuery);
    assert_re_encode_equals(l, &xml);
}

#[test]
fn should_parse_and_encode_success_reply() {
    let xml = envelope("reply", "<success/>");
    let s = decode(&xml).unwrap();
    assert_eq!(s.kind(), MessageKind::SuccessReply);
    assert_re_encode_equals(s, &xml);
}

#[test]
fn should_parse_and_encode_list_reply() {
    let xml = envelope(
        "reply",
        "<list hash=\"d41d8cd98f00b204e9800998ecf8427e\" uri=\"rsync://wombat.example/Alice/blCrcCp9ltyPDNzYKPfxc.cer\"/>\
         <list hash=\"d41d8cd98f00b204e9800998ecf8427f\" uri=\"rsync://wombat.example/Alice/fCrcCp9ltyPDNzYKPfxc.mft\"/>",
    );
    let r = decode(&xml).unwrap();
    assert_eq!(r.kind(), MessageKind::ListReply);
    assert_re_encode_equals(r, &xml);
}

#[test]
fn should_parse_and_encode_minimal_error() {
    let xml = envelope("reply", "<report_error error_code=\"your_hair_is_on_fire\"/>");
    let e = decode(&xml).unwrap();
    assert_eq!(e.kind(), MessageKind::ErrorReply);
    assert_re_encode_equals(e, &xml);
}

#[test]
fn should_parse_and_encode_complex_error() {
    let xml = envelope(
        "reply",
        "<report_error error_code=\"object_already_present\" tag=\"foo\">\
         <error_text>Can't publish an object that is already present</error_text>\
         <failed_pdu><publish uri=\"rsync://wombat.example/Alice/blCrcCp9ltyPDNzYKPfxc.cer\">SGVsbG8=</publish></failed_pdu>\
         </report_error>",
    );
    let e = decode(&xml).unwrap();
    assert_eq!(e.kind(), MessageKind::ErrorReply);
    assert_re_encode_equals(e, &xml);
}

#[test]
fn encoded_envelope_is_exact() {
    let m = decode(&envelope("query", "<list/>")).unwrap();
    assert_eq!(
        m.encode_vec(),
        b"<msg xmlns=\"http://www.hactrn.net/uris/rpki/publication-spec/\" version=\"4\" type=\"query\"><list/></msg>".to_vec()
    );
}

#[test]
fn leading_white_space_before_payload_is_skipped() {
    let tag = root(vec![attr("xmlns", NS), attr("version", "4"), attr("type", "reply")]);
    let m = Message::decode(&tag, b"\n  <success/>".to_vec()).unwrap();
    assert_eq!(m.kind(), MessageKind::SuccessReply);
}

#[test]
fn rejects_other_versions() {
    let tag = root(vec![attr("version", "3"), attr("type", "query")]);
    assert_eq!(Message::decode(&tag, b"<list/>".to_vec()), Err(MessageError::InvalidVersion));
}

#[test]
fn rejects_unknown_message_types() {
    let tag = root(vec![attr("version", "4"), attr("type", "question")]);
    assert_eq!(
        Message::decode(&tag, b"<list/>".to_vec()),
        Err(MessageError::UnknownMessageType)
    );
}

#[test]
fn rejects_unexpected_payload_elements() {
    let query = root(vec![attr("version", "4"), attr("type", "query")]);
    assert_eq!(
        Message::decode(&query, b"<success/>".to_vec()),
        Err(MessageError::ExpectedStart("list, publish, or withdraw".to_string()))
    );
    let reply = root(vec![attr("version", "4"), attr("type", "reply")]);
    assert_eq!(
        Message::decode(&reply, b"<publish/>".to_vec()),
        Err(MessageError::ExpectedStart("success, list or report_error".to_string()))
    );
    assert_eq!(
        Message::decode(&reply, b"".to_vec()),
        Err(MessageError::ExpectedStart("success, list or report_error".to_string()))
    );
}

#[test]
fn rejects_attribute_misuse() {
    let extra = root(vec![attr("version", "4"), attr("type", "query"), attr("foo", "bar")]);
    assert_eq!(
        Message::decode(&extra, b"<list/>".to_vec()),
        Err(MessageError::XmlAttributesError(AttributesError::ExtraAttributes))
    );
    let no_type = root(vec![attr("version", "4")]);
    assert_eq!(
        Message::decode(&no_type, b"<list/>".to_vec()),
        Err(MessageError::XmlAttributesError(AttributesError::MissingAttribute(
            b"type".to_vec()
        )))
    );
    let no_version = root(vec![attr("type", "query")]);
    assert_eq!(
        Message::decode(&no_version, b"<list/>".to_vec()),
        Err(MessageError::XmlAttributesError(AttributesError::MissingAttribute(
            b"version".to_vec()
        )))
    );
}

#[test]
fn rejects_other_root_elements() {
    let tag = StartTag { name: b"message".to_vec(), attributes: vec![] };
    assert_eq!(
        Message::decode(&tag, b"<list/>".to_vec()),
        Err(MessageError::UnexpectedStart(b"message".to_vec()))
    );
}
