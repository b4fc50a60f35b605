//! The envelope of publication protocol messages (RFC 8181).
//!
//! A message is a `msg` element in the protocol's namespace with a `version`
//! and a `type` attribute. Its first nested element says what payload it
//! carries. Payloads are kept as the XML bytes of the element's content.
use vstd::prelude::*;
use vstd::utf8::encode_utf8;
use crate::uri;
use crate::uri::{append, bytes_eq};

verus! {

/// The protocol version.
pub const VERSION: &'static str = "4";

/// The namespace of the protocol's elements.
pub const NS: &'static str = "http://www.hactrn.net/uris/rpki/publication-spec/";

//------------ Words ---------------------------------------------------------

/// The element names, attribute names and attribute values of the envelope.
#[derive(Clone, Copy, Debug, PartialEq, Eq, Structural)]
pub enum Word {
    Msg,
    Version,
    Type,
    Xmlns,
    Four,
    Query,
    Reply,
    List,
    Publish,
    Withdraw,
    Success,
    ReportError,
}

impl Word {
    /// The word's bytes.
    pub open spec fn text(self) -> Seq<u8> {
        match self {
            Word::Msg => seq![0x6du8, 0x73, 0x67],
            Word::Version => seq![0x76u8, 0x65, 0x72, 0x73, 0x69, 0x6f, 0x6e],
            Word::Type => seq![0x74u8, 0x79, 0x70, 0x65],
            Word::Xmlns => seq![0x78u8, 0x6d, 0x6c, 0x6e, 0x73],
            Word::Four => seq![0x34u8],
            Word::Query => seq![0x71u8, 0x75, 0x65, 0x72, 0x79],
            Word::Reply => seq![0x72u8, 0x65, 0x70, 0x6c, 0x79],
            Word::List => seq![0x6cu8, 0x69, 0x73, 0x74],
            Word::Publish => seq![0x70u8, 0x75, 0x62, 0x6c, 0x69, 0x73, 0x68],
            Word::Withdraw => seq![0x77u8, 0x69, 0x74, 0x68, 0x64, 0x72, 0x61, 0x77],
            Word::Success => seq![0x73u8, 0x75, 0x63, 0x63, 0x65, 0x73, 0x73],
            Word::ReportError => seq![
                0x72u8,
                0x65,
                0x70,
                0x6f,
                0x72,
                0x74,
                0x5f,
                0x65,
                0x72,
                0x72,
                0x6f,
                0x72,
            ],
        }
    }

    /// The word's bytes.
    pub fn bytes(self) -> (r: Vec<u8>)
        ensures
            r@ == self.text(),
    {
        let r = match self {
            Word::Msg => vec![0x6du8, 0x73, 0x67],
            Word::Version => vec![0x76u8, 0x65, 0x72, 0x73, 0x69, 0x6f, 0x6e],
            Word::Type => vec![0x74u8, 0x79, 0x70, 0x65],
            Word::Xmlns => vec![0x78u8, 0x6d, 0x6c, 0x6e, 0x73],
            Word::Four => vec![0x34u8],
            Word::Query => vec![0x71u8, 0x75, 0x65, 0x72, 0x79],
            Word::Reply => vec![0x72u8, 0x65, 0x70, 0x6c, 0x79],
            Word::List => vec![0x6cu8, 0x69, 0x73, 0x74],
            Word::Publish => vec![0x70u8, 0x75, 0x62, 0x6c, 0x69, 0x73, 0x68],
            Word::Withdraw => vec![0x77u8, 0x69, 0x74, 0x68, 0x64, 0x72, 0x61, 0x77],
            Word::Success => vec![0x73u8, 0x75, 0x63, 0x63, 0x65, 0x73, 0x73],
            Word::ReportError => vec![
                0x72u8,
                0x65,
                0x70,
                0x6f,
                0x72,
                0x74,
                0x5f,
                0x65,
                0x72,
                0x72,
                0x6f,
                0x72,
            ],
        };
        assert(r@ =~= self.text());
        r
    }

    /// Returns whether `s` holds exactly the word.
    pub fn equals(self, s: &[u8]) -> (r: bool)
        ensures
            r == (s@ == self.text()),
    {
        let w = self.bytes();
        bytes_eq(s, w.as_slice())
    }
}


//------------ Start tags ----------------------------------------------------

/// An attribute of an XML start tag.
#[derive(Clone, Debug, PartialEq, Eq)]
pub struct Attribute {
    pub name: Vec<u8>,
    pub value: Vec<u8>,
}

/// An XML start tag as a tokenizer hands it over: its name and attributes.
#[derive(Clone, Debug, PartialEq, Eq)]
pub struct StartTag {
    pub name: Vec<u8>,
    pub attributes: Vec<Attribute>,
}

/// The value of the first attribute at or after index `i` named `name`.
pub open spec fn attr_value_from(attrs: Seq<Attribute>, name: Seq<u8>, i: int) -> Option<Seq<u8>>
    decreases attrs.len() - i,
{
    if i < 0 || i >= attrs.len() {
        None
    } else if attrs[i].name@ == name {
        Some(attrs[i].value@)
    } else {
        attr_value_from(attrs, name, i + 1)
    }
}

/// The value of the first attribute named `name`.
pub open spec fn attr_value(attrs: Seq<Attribute>, name: Seq<u8>) -> Option<Seq<u8>> {
    attr_value_from(attrs, name, 0)
}

/// The number of attributes at or after index `i` that are not namespace
/// declarations.
pub open spec fn plain_attrs_from(attrs: Seq<Attribute>, i: int) -> nat
    decreases attrs.len() - i,
{
    if i < 0 || i >= attrs.len() {
        0
    } else {
        (if attrs[i].name@ == Word::Xmlns.text() {
            0nat
        } else {
            1nat
        }) + plain_attrs_from(attrs, i + 1)
    }
}

/// The number of attributes that are not namespace declarations.
pub open spec fn plain_attrs(attrs: Seq<Attribute>) -> nat {
    plain_attrs_from(attrs, 0)
}

/// The index of the first attribute named `w`.
fn find_attr(attrs: &Vec<Attribute>, w: Word) -> (r: Option<usize>)
    ensures
        match attr_value(attrs@, w.text()) {
            None => r is None,
            Some(v) => r matches Some(i) && i < attrs@.len() && attrs@[i as int].value@ == v,
        },
{
    let mut i: usize = 0;
    while i < attrs.len()
        invariant
            i <= attrs@.len(),
            attr_value_from(attrs@, w.text(), i as int) == attr_value(attrs@, w.text()),
        decreases attrs@.len() - i,
    {
        if w.equals(attrs[i].name.as_slice()) {
            return Some(i);
        }
        i = i + 1;
    }
    None
}

/// The number of attributes that are not namespace declarations.
fn count_plain_attrs(attrs: &Vec<Attribute>) -> (r: usize)
    ensures
        r == plain_attrs(attrs@),
{
    let mut n: usize = 0;
    let mut i: usize = 0;
    while i < attrs.len()
        invariant
            i <= attrs@.len(),
            n <= i,
            n + plain_attrs_from(attrs@, i as int) == plain_attrs(attrs@),
        decreases attrs@.len() - i,
    {
        if !Word::Xmlns.equals(attrs[i].name.as_slice()) {
            n = n + 1;
        }
        i = i + 1;
    }
    n
}

//------------ Content -------------------------------------------------------

/// XML white space.
pub open spec fn is_space(c: u8) -> bool {
    c == 0x20 || c == 0x09 || c == 0x0a || c == 0x0d
}

/// A byte that ends the name of a start tag.
pub open spec fn ends_name(c: u8) -> bool {
    is_space(c) || c == 0x2f || c == 0x3e
}

/// The index of the first byte at or after `i` that is not white space.
pub open spec fn skip_space(c: Seq<u8>, i: int) -> int
    decreases c.len() - i,
{
    if i < 0 || i >= c.len() {
        c.len() as int
    } else if is_space(c[i]) {
        skip_space(c, i + 1)
    } else {
        i
    }
}

/// The index of the first byte at or after `i` that ends a name.
pub open spec fn name_end(c: Seq<u8>, i: int) -> int
    decreases c.len() - i,
{
    if i < 0 || i >= c.len() {
        c.len() as int
    } else if ends_name(c[i]) {
        i
    } else {
        name_end(c, i + 1)
    }
}

/// The name of the start tag that the content begins with, after white
/// space, if it begins with one.
pub open spec fn next_start_name(c: Seq<u8>) -> Option<Seq<u8>> {
    let i = skip_space(c, 0);
    if 0 <= i < c.len() && c[i] == 0x3c {
        Some(c.subrange(i + 1, name_end(c, i + 1)))
    } else {
        None
    }
}

/// The range of the name of the start tag that `c` begins with.
fn find_start_name(c: &[u8]) -> (r: Option<(usize, usize)>)
    ensures
        match next_start_name(c@) {
            None => r is None,
            Some(n) => r matches Some((s, e)) && s <= e <= c@.len() && c@.subrange(
                s as int,
                e as int,
            ) == n,
        },
{
    let mut i: usize = 0;
    while i < c.len() && (c[i] == 0x20 || c[i] == 0x09 || c[i] == 0x0a || c[i] == 0x0d)
        invariant
            i <= c@.len(),
            skip_space(c@, i as int) == skip_space(c@, 0),
        decreases c@.len() - i,
    {
        i = i + 1;
    }
    if i >= c.len() || c[i] != 0x3c {
        return None;
    }
    let start = i + 1;
    let mut j = start;
    while j < c.len() && !(c[j] == 0x20 || c[j] == 0x09 || c[j] == 0x0a || c[j] == 0x0d
        || c[j] == 0x2f || c[j] == 0x3e)
        invariant
            start <= j <= c@.len(),
            name_end(c@, j as int) == name_end(c@, start as int),
        decreases c@.len() - j,
    {
        j = j + 1;
    }
    Some((start, j))
}

//------------ Errors --------------------------------------------------------

/// A misuse of attributes.
#[derive(Clone, Debug, PartialEq, Eq)]
pub enum AttributesError {
    /// A required attribute, named here, is missing.
    MissingAttribute(Vec<u8>),
    /// There are attributes that the element does not take.
    ExtraAttributes,
}

/// What can go wrong when decoding a message.
#[derive(Clone, Debug, PartialEq, Eq)]
pub enum MessageError {
    InvalidVersion,
    UnknownMessageType,
    UnexpectedStart(Vec<u8>),
    ExpectedStart(String),
    MissingContent(String),
    XmlAttributesError(AttributesError),
    UriError(uri::Error),
}

/// What a message error is.
pub enum MessageErrorView {
    InvalidVersion,
    UnknownMessageType,
    UnexpectedStart(Seq<u8>),
    ExpectedStart(Seq<char>),
    MissingContent(Seq<char>),
    MissingAttribute(Seq<u8>),
    ExtraAttributes,
    UriError(uri::Error),
}

impl View for MessageError {
    type V = MessageErrorView;

    open spec fn view(&self) -> MessageErrorView {
        match self {
            MessageError::InvalidVersion => MessageErrorView::InvalidVersion,
            MessageError::UnknownMessageType => MessageErrorView::UnknownMessageType,
            MessageError::UnexpectedStart(n) => MessageErrorView::UnexpectedStart(n@),
            MessageError::ExpectedStart(s) => MessageErrorView::ExpectedStart(s@),
            MessageError::MissingContent(s) => MessageErrorView::MissingContent(s@),
            MessageError::XmlAttributesError(AttributesError::MissingAttribute(n)) => {
                MessageErrorView::MissingAttribute(n@)
            },
            MessageError::XmlAttributesError(AttributesError::ExtraAttributes) => {
                MessageErrorView::ExtraAttributes
            },
            MessageError::UriError(e) => MessageErrorView::UriError(*e),
        }
    }
}

impl MessageError {
    /// Wraps an attribute error.
    pub fn from_attributes(e: AttributesError) -> (r: MessageError)
        ensures
            r == MessageError::XmlAttributesError(e),
    {
        MessageError::XmlAttributesError(e)
    }

    /// Wraps a URI error.
    pub fn from_uri(e: uri::Error) -> (r: MessageError)
        ensures
            r == MessageError::UriError(e),
    {
        MessageError::UriError(e)
    }
}

/// The elements that may start the content of a query.
pub open spec fn query_expected() -> Seq<char> {
    "list, publish, or withdraw"@
}

/// The elements that may start the content of a reply.
pub open spec fn reply_expected() -> Seq<char> {
    "success, list or report_error"@
}

//------------ Payloads ------------------------------------------------------

/// The payload of a message: the XML of the envelope's content.
#[derive(Clone, Debug, PartialEq, Eq)]
pub struct Payload {
    xml: Vec<u8>,
}

impl View for Payload {
    type V = Seq<u8>;

    closed spec fn view(&self) -> Seq<u8> {
        self.xml@
    }
}

impl Payload {
    /// A payload of the given XML.
    pub fn new(xml: Vec<u8>) -> (r: Payload)
        ensures
            r@ == xml@,
    {
        Payload { xml }
    }

    /// The XML of the payload.
    pub fn as_bytes(&self) -> (r: &[u8])
        ensures
            r@ == self@,
    {
        self.xml.as_slice()
    }

    /// Writes the payload to `target`.
    pub fn encode_vec(&self, target: &mut Vec<u8>)
        ensures
            final(target)@ == old(target)@ + self@,
    {
        append(target, self.xml.as_slice());
    }
}

//------------ Message kinds -------------------------------------------------

/// The five kinds of message.
#[derive(Clone, Copy, Debug, PartialEq, Eq, Structural)]
pub enum MessageKind {
    PublishQuery,
    ListQuery,
    SuccessReply,
    ListReply,
    ErrorReply,
}

impl MessageKind {
    /// Queries are publish and list queries; the rest are replies.
    pub open spec fn is_query(self) -> bool {
        self == MessageKind::PublishQuery || self == MessageKind::ListQuery
    }
}

/// The kind of query that content starting with an element named `name`
/// holds.
pub open spec fn query_kind(name: Option<Seq<u8>>) -> Option<MessageKind> {
    match name {
        Some(n) => if n == Word::List.text() {
            Some(MessageKind::ListQuery)
        } else if n == Word::Publish.text() || n == Word::Withdraw.text() {
            Some(MessageKind::PublishQuery)
        } else {
            None
        },
        None => None,
    }
}

/// The kind of reply that content starting with an element named `name`
/// holds.
pub open spec fn reply_kind(name: Option<Seq<u8>>) -> Option<MessageKind> {
    match name {
        Some(n) => if n == Word::Success.text() {
            Some(MessageKind::SuccessReply)
        } else if n == Word::List.text() {
            Some(MessageKind::ListReply)
        } else if n == Word::ReportError.text() {
            Some(MessageKind::ErrorReply)
        } else {
            None
        },
        None => None,
    }
}

//------------ Messages ------------------------------------------------------

/// A query message.
#[derive(Clone, Debug, PartialEq, Eq)]
pub enum QueryMessage {
    PublishQuery(Payload),
    ListQuery(Payload),
}

/// A reply message.
#[derive(Clone, Debug, PartialEq, Eq)]
pub enum ReplyMessage {
    SuccessReply(Payload),
    ListReply(Payload),
    ErrorReply(Payload),
}

/// A publication protocol message.
#[derive(Clone, Debug, PartialEq, Eq)]
pub enum Message {
    QueryMessage(QueryMessage),
    ReplyMessage(ReplyMessage),
}

/// What a message is: its kind and its payload.
pub struct MessageView {
    pub kind: MessageKind,
    pub payload: Seq<u8>,
}

impl View for QueryMessage {
    type V = MessageView;

    open spec fn view(&self) -> MessageView {
        match self {
            QueryMessage::PublishQuery(p) => MessageView {
                kind: MessageKind::PublishQuery,
                payload: p@,
            },
            QueryMessage::ListQuery(p) => MessageView { kind: MessageKind::ListQuery, payload: p@ },
        }
    }
}

impl View for ReplyMessage {
    type V = MessageView;

    open spec fn view(&self) -> MessageView {
        match self {
            ReplyMessage::SuccessReply(p) => MessageView {
                kind: MessageKind::SuccessReply,
                payload: p@,
            },
            ReplyMessage::ListReply(p) => MessageView { kind: MessageKind::ListReply, payload: p@ },
            ReplyMessage::ErrorReply(p) => MessageView { kind: MessageKind::ErrorReply, payload: p@ },
        }
    }
}

impl View for Message {
    type V = MessageView;

    open spec fn view(&self) -> MessageView {
        match self {
            Message::QueryMessage(q) => q@,
            Message::ReplyMessage(r) => r@,
        }
    }
}

/// The outcome of decoding a message whose root element has the name `name`
/// and the attributes `attrs`, and holds `content`.
///
/// The root must be a `msg` element with a `version` of `4` and a `type`,
/// and no other attributes but namespace declarations. A query's content
/// must start with a `list`, `publish` or `withdraw` element, a reply's with
/// a `success`, `list` or `report_error` element.
pub open spec fn decode_spec(name: Seq<u8>, attrs: Seq<Attribute>, content: Seq<u8>) -> Result<
    MessageView,
    MessageErrorView,
> {
    if name != Word::Msg.text() {
        Err(MessageErrorView::UnexpectedStart(name))
    } else {
        match attr_value(attrs, Word::Version.text()) {
            None => Err(MessageErrorView::MissingAttribute(Word::Version.text())),
            Some(version) => if version != Word::Four.text() {
                Err(MessageErrorView::InvalidVersion)
            } else {
                match attr_value(attrs, Word::Type.text()) {
                    None => Err(MessageErrorView::MissingAttribute(Word::Type.text())),
                    Some(t) => if plain_attrs(attrs) != 2 {
                        Err(MessageErrorView::ExtraAttributes)
                    } else if t == Word::Query.text() {
                        match query_kind(next_start_name(content)) {
                            Some(kind) => Ok(MessageView { kind, payload: content }),
                            None => Err(MessageErrorView::ExpectedStart(query_expected())),
                        }
                    } else if t == Word::Reply.text() {
                        match reply_kind(next_start_name(content)) {
                            Some(kind) => Ok(MessageView { kind, payload: content }),
                            None => Err(MessageErrorView::ExpectedStart(reply_expected())),
                        }
                    } else {
                        Err(MessageErrorView::UnknownMessageType)
                    },
                }
            },
        }
    }
}

/// The start tag of the envelope of a query or a reply.
pub open spec fn open_tag(query: bool) -> Seq<u8> {
    encode_utf8("<msg xmlns=\""@) + encode_utf8(NS@) + encode_utf8("\" version=\""@)
        + Word::Four.text() + encode_utf8("\" type=\""@) + (if query {
        Word::Query.text()
    } else {
        Word::Reply.text()
    }) + encode_utf8("\">"@)
}

/// The end tag of the envelope.
pub open spec fn close_tag() -> Seq<u8> {
    encode_utf8("</msg>"@)
}

/// The encoding of a message: the envelope around the payload.
pub open spec fn encode_spec(m: MessageView) -> Seq<u8> {
    open_tag(m.kind.is_query()) + m.payload + close_tag()
}

/// The outcome of decoding, mapped to views.
pub open spec fn decoded_as<T: View<V = MessageView>>(
    r: Result<T, MessageError>,
    expected: Result<MessageView, MessageErrorView>,
) -> bool {
    match r {
        Ok(m) => expected == Ok::<MessageView, MessageErrorView>(m@),
        Err(e) => expected == Err::<MessageView, MessageErrorView>(e@),
    }
}

impl QueryMessage {
    /// Decodes the content of a query by the element that starts it.
    fn decode(content: Vec<u8>) -> (r: Result<QueryMessage, MessageError>)
        ensures
            match query_kind(next_start_name(content@)) {
                Some(kind) => r matches Ok(m) && m@ == (MessageView { kind, payload: content@ }),
                None => r matches Err(e) && e@ == MessageErrorView::ExpectedStart(query_expected()),
            },
    {
        match find_start_name(content.as_slice()) {
            Some((s, e)) => {
                let name = vstd::slice::slice_subrange(content.as_slice(), s, e);
                if Word::List.equals(name) {
                    return Ok(QueryMessage::ListQuery(Payload::new(content)));
                } else if Word::Publish.equals(name) || Word::Withdraw.equals(name) {
                    return Ok(QueryMessage::PublishQuery(Payload::new(content)));
                }
            },
            None => {},
        }
        Err(MessageError::ExpectedStart("list, publish, or withdraw".to_owned()))
    }

    /// Writes the payload of the query to `target`.
    pub fn encode_vec(&self, target: &mut Vec<u8>)
        ensures
            final(target)@ == old(target)@ + self@.payload,
    {
        match self {
            QueryMessage::PublishQuery(p) => p.encode_vec(target),
            QueryMessage::ListQuery(p) => p.encode_vec(target),
        }
    }
}

impl ReplyMessage {
    /// Decodes the content of a reply by the element that starts it.
    fn decode(content: Vec<u8>) -> (r: Result<ReplyMessage, MessageError>)
        ensures
            match reply_kind(next_start_name(content@)) {
                Some(kind) => r matches Ok(m) && m@ == (MessageView { kind, payload: content@ }),
                None => r matches Err(e) && e@ == MessageErrorView::ExpectedStart(reply_expected()),
            },
    {
        match find_start_name(content.as_slice()) {
            Some((s, e)) => {
                let name = vstd::slice::slice_subrange(content.as_slice(), s, e);
                if Word::Success.equals(name) {
                    return Ok(ReplyMessage::SuccessReply(Payload::new(content)));
                } else if Word::List.equals(name) {
                    return Ok(ReplyMessage::ListReply(Payload::new(content)));
                } else if Word::ReportError.equals(name) {
                    return Ok(ReplyMessage::ErrorReply(Payload::new(content)));
                }
            },
            None => {},
        }
        Err(MessageError::ExpectedStart("success, list or report_error".to_owned()))
    }

    /// Writes the payload of the reply to `target`.
    pub fn encode_vec(&self, target: &mut Vec<u8>)
        ensures
            final(target)@ == old(target)@ + self@.payload,
    {
        match self {
            ReplyMessage::SuccessReply(p) => p.encode_vec(target),
            ReplyMessage::ListReply(p) => p.encode_vec(target),
            ReplyMessage::ErrorReply(p) => p.encode_vec(target),
        }
    }
}

impl Message {
    /// Decodes a message from the start tag of its root element and the
    /// XML of the element's content.
    pub fn decode(root: &StartTag, content: Vec<u8>) -> (r: Result<Message, MessageError>)
        ensures
            decoded_as(r, decode_spec(root.name@, root.attributes@, content@)),
    {
        if !Word::Msg.equals(root.name.as_slice()) {
            return Err(MessageError::UnexpectedStart(root.name.clone()));
        }
        let attrs = &root.attributes;
        let version = match find_attr(attrs, Word::Version) {
            Some(i) => i,
            None => {
                return Err(
                    MessageError::from_attributes(
                        AttributesError::MissingAttribute(Word::Version.bytes()),
                    ),
                );
            },
        };
        if !Word::Four.equals(attrs[version].value.as_slice()) {
            return Err(MessageError::InvalidVersion);
        }
        let msg_type = match find_attr(attrs, Word::Type) {
            Some(i) => i,
            None => {
                return Err(
                    MessageError::from_attributes(
                        AttributesError::MissingAttribute(Word::Type.bytes()),
                    ),
                );
            },
        };
        if count_plain_attrs(attrs) != 2 {
            return Err(MessageError::from_attributes(AttributesError::ExtraAttributes));
        }
        let t = attrs[msg_type].value.as_slice();
        if Word::Query.equals(t) {
            match QueryMessage::decode(content) {
                Ok(q) => Ok(Message::QueryMessage(q)),
                Err(e) => Err(e),
            }
        } else if Word::Reply.equals(t) {
            match ReplyMessage::decode(content) {
                Ok(r) => Ok(Message::ReplyMessage(r)),
                Err(e) => Err(e),
            }
        } else {
            Err(MessageError::UnknownMessageType)
        }
    }

    /// The kind of the message.
    pub fn kind(&self) -> (r: MessageKind)
        ensures
            r == self@.kind,
    {
        match self {
            Message::QueryMessage(QueryMessage::PublishQuery(_)) => MessageKind::PublishQuery,
            Message::QueryMessage(QueryMessage::ListQuery(_)) => MessageKind::ListQuery,
            Message::ReplyMessage(ReplyMessage::SuccessReply(_)) => MessageKind::SuccessReply,
            Message::ReplyMessage(ReplyMessage::ListReply(_)) => MessageKind::ListReply,
            Message::ReplyMessage(ReplyMessage::ErrorReply(_)) => MessageKind::ErrorReply,
        }
    }

    /// Encodes the message: the envelope, with the payload inside.
    pub fn encode_vec(&self) -> (r: Vec<u8>)
        ensures
            r@ == encode_spec(self@),
    {
        let mut w: Vec<u8> = Vec::new();
        append(&mut w, "<msg xmlns=\"".as_bytes());
        append(&mut w, NS.as_bytes());
        append(&mut w, "\" version=\"".as_bytes());
        append(&mut w, Word::Four.bytes().as_slice());
        append(&mut w, "\" type=\"".as_bytes());
        let msg_type = match self {
            Message::QueryMessage(_) => Word::Query,
            Message::ReplyMessage(_) => Word::Reply,
        };
        append(&mut w, msg_type.bytes().as_slice());
        append(&mut w, "\">".as_bytes());
        let ghost head = w@;
        match self {
            Message::QueryMessage(q) => q.encode_vec(&mut w),
            Message::ReplyMessage(r) => r.encode_vec(&mut w),
        }
        append(&mut w, "</msg>".as_bytes());
        proof {
            assert(head == open_tag(self@.kind.is_query()));
        }
        assert(w@ =~= encode_spec(self@));
        w
    }
}


//------------ Properties ----------------------------------------------------

/// Encoding a decoded message gives back the canonical document: the
/// envelope's start tag for the message's type, the content unchanged, and
/// the end tag. This holds for every root with a `version` of `4`, a `type`
/// of `query` or `reply`, no other attributes but namespace declarations,
/// and content that starts with an element that the type allows.
pub proof fn lemma_envelope_round_trip(attrs: Seq<Attribute>, query: bool, content: Seq<u8>)
    requires
        attr_value(attrs, Word::Version.text()) == Some(Word::Four.text()),
        attr_value(attrs, Word::Type.text()) == Some(
            if query {
                Word::Query.text()
            } else {
                Word::Reply.text()
            },
        ),
        plain_attrs(attrs) == 2,
        query ==> query_kind(next_start_name(content)) is Some,
        !query ==> reply_kind(next_start_name(content)) is Some,
    ensures
        decode_spec(Word::Msg.text(), attrs, content) matches Ok(m) && m.payload == content
            && encode_spec(m) == open_tag(query) + content + close_tag(),
{
    assert(Word::Reply.text()[0] != Word::Query.text()[0]);
    let r = decode_spec(Word::Msg.text(), attrs, content);
    if query {
        assert(r->Ok_0.kind.is_query());
    } else {
        assert(!r->Ok_0.kind.is_query());
    }
}

/// Decoding rejects a `msg` root whose `version` is not `4` with
/// `InvalidVersion`; one with extra attributes with an attribute error; one
/// whose `type` is neither `query` nor `reply` with `UnknownMessageType`;
/// and content that starts with an element the type does not allow with
/// `ExpectedStart`.
pub proof fn lemma_envelope_rejects(attrs: Seq<Attribute>, content: Seq<u8>)
    ensures
        (attr_value(attrs, Word::Version.text()) is Some && attr_value(
            attrs,
            Word::Version.text(),
        )->Some_0 != Word::Four.text()) ==> decode_spec(Word::Msg.text(), attrs, content) == Err::<
            MessageView,
            MessageErrorView,
        >(MessageErrorView::InvalidVersion),
        attr_value(attrs, Word::Version.text()) == Some(Word::Four.text()) && attr_value(
            attrs,
            Word::Type.text(),
        ) is Some && plain_attrs(attrs) != 2 ==> decode_spec(Word::Msg.text(), attrs, content)
            == Err::<MessageView, MessageErrorView>(MessageErrorView::ExtraAttributes),
        attr_value(attrs, Word::Version.text()) == Some(Word::Four.text()) && attr_value(
            attrs,
            Word::Type.text(),
        ) is Some && attr_value(attrs, Word::Type.text())->Some_0 != Word::Query.text()
            && attr_value(attrs, Word::Type.text())->Some_0 != Word::Reply.text() && plain_attrs(
            attrs,
        ) == 2 ==> decode_spec(Word::Msg.text(), attrs, content) == Err::<
            MessageView,
            MessageErrorView,
        >(MessageErrorView::UnknownMessageType),
        attr_value(attrs, Word::Version.text()) == Some(Word::Four.text()) && attr_value(
            attrs,
            Word::Type.text(),
        ) == Some(Word::Query.text()) && plain_attrs(attrs) == 2 && query_kind(
            next_start_name(content),
        ) is None ==> decode_spec(Word::Msg.text(), attrs, content) == Err::<
            MessageView,
            MessageErrorView,
        >(MessageErrorView::ExpectedStart(query_expected())),
        attr_value(attrs, Word::Version.text()) == Some(Word::Four.text()) && attr_value(
            attrs,
            Word::Type.text(),
        ) == Some(Word::Reply.text()) && plain_attrs(attrs) == 2 && reply_kind(
            next_start_name(content),
        ) is None ==> decode_spec(Word::Msg.text(), attrs, content) == Err::<
            MessageView,
            MessageErrorView,
        >(MessageErrorView::ExpectedStart(reply_expected())),
{
    assert(Word::Reply.text()[0] != Word::Query.text()[0]);
}

} // verus!
