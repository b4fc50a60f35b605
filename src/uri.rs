//! URIs: rsync, HTTPS and IPNS locations with their validation rules.
use vstd::prelude::*;
use vstd::utf8::encode_utf8;
use crate::text::{all_ascii, ascii_chars, ascii_str, ascii_string};

verus! {

//------------ Byte constants ------------------------------------------------

pub const SLASH: u8 = 47;
pub const DOT: u8 = 46;

//------------ Byte-level specifications ------------------------------------

/// A byte that may appear in a URI: printable ASCII that is neither space nor
/// one of `" # < > ? [ \ ] ^ ` { | }`.
pub open spec fn is_uri_char(c: u8) -> bool {
    &&& 0x20 < c < 0x7f
    &&& c != 0x22 && c != 0x23 && c != 0x3c && c != 0x3e && c != 0x3f
    &&& c != 0x5b && c != 0x5c && c != 0x5d && c != 0x5e && c != 0x60
    &&& c != 0x7b && c != 0x7c && c != 0x7d
}

/// Every byte of `s` may appear in a URI.
pub open spec fn uri_ascii(s: Seq<u8>) -> bool {
    forall|i: int| 0 <= i < s.len() ==> is_uri_char(#[trigger] s[i])
}

/// ASCII lower-casing of a single byte.
pub open spec fn lower(c: u8) -> u8 {
    if 0x41 <= c <= 0x5a {
        (c + 32) as u8
    } else {
        c
    }
}

/// The byte sequence with every ASCII upper-case letter lower-cased.
pub open spec fn lowered(s: Seq<u8>) -> Seq<u8> {
    s.map_values(|c: u8| lower(c))
}

/// Equality of two byte sequences ignoring ASCII case.
pub open spec fn eq_ignore_case(a: Seq<u8>, b: Seq<u8>) -> bool {
    lowered(a) == lowered(b)
}

/// `s` starts with `p`, ignoring ASCII case.
pub open spec fn starts_with_ci(s: Seq<u8>, p: Seq<u8>) -> bool {
    p.len() <= s.len() && eq_ignore_case(s.subrange(0, p.len() as int), p)
}

/// The index of the first `/` in `s` at or after `i`, or the length of `s`.
pub open spec fn first_slash(s: Seq<u8>, i: int) -> int
    decreases s.len() - i,
{
    if i < 0 || i >= s.len() {
        s.len() as int
    } else if s[i] == SLASH {
        i
    } else {
        first_slash(s, i + 1)
    }
}

proof fn lemma_first_slash(s: Seq<u8>, i: int)
    requires
        0 <= i <= s.len(),
    ensures
        i <= first_slash(s, i) <= s.len(),
        first_slash(s, i) < s.len() ==> s[first_slash(s, i)] == SLASH,
        forall|k: int| i <= k < first_slash(s, i) ==> s[k] != SLASH,
    decreases s.len() - i,
{
    if i < s.len() && s[i] != SLASH {
        lemma_first_slash(s, i + 1);
    }
}

/// Lemma: the first slash is the one found by any index range free of slashes.
proof fn lemma_first_slash_at(s: Seq<u8>, i: int, j: int)
    requires
        0 <= i <= j <= s.len(),
        j == s.len() || s[j] == SLASH,
        forall|k: int| i <= k < j ==> s[k] != SLASH,
    ensures
        first_slash(s, i) == j,
    decreases j - i,
{
    if i < j {
        lemma_first_slash_at(s, i + 1, j);
    }
}

//------------ Byte-level helpers --------------------------------------------

/// Returns whether `s` starts with `expected`, ignoring ASCII case.
pub fn starts_with_ignore_case(s: &[u8], expected: &[u8]) -> (r: bool)
    ensures
        r == starts_with_ci(s@, expected@),
{
    if expected.len() > s.len() {
        return false;
    }
    let n = expected.len();
    let mut i: usize = 0;
    while i < n
        invariant
            n == expected@.len(),
            n <= s@.len(),
            i <= n,
            forall|k: int| 0 <= k < i ==> lower(#[trigger] s@[k]) == lower(expected@[k]),
        decreases n - i,
    {
        if lower_byte(s[i]) != lower_byte(expected[i]) {
            assert(lowered(s@.subrange(0, n as int))[i as int] != lowered(expected@)[i as int]);
            return false;
        }
        i = i + 1;
    }
    assert(lowered(s@.subrange(0, n as int)) =~= lowered(expected@));
    true
}

/// ASCII lower-casing of a byte.
pub fn lower_byte(c: u8) -> (r: u8)
    ensures
        r == lower(c),
{
    if 0x41 <= c && c <= 0x5a {
        c + 32
    } else {
        c
    }
}

/// Returns whether every byte of `s` may appear in a URI.
pub fn is_uri_ascii(s: &[u8]) -> (r: bool)
    ensures
        r == uri_ascii(s@),
{
    let mut i: usize = 0;
    while i < s.len()
        invariant
            i <= s@.len(),
            forall|k: int| 0 <= k < i ==> is_uri_char(#[trigger] s@[k]),
        decreases s@.len() - i,
    {
        let c = s[i];
        let ok = 0x20 < c && c < 0x7f && c != 0x22 && c != 0x23 && c != 0x3c && c != 0x3e
            && c != 0x3f && c != 0x5b && c != 0x5c && c != 0x5d && c != 0x5e && c != 0x60
            && c != 0x7b && c != 0x7c && c != 0x7d;
        if !ok {
            return false;
        }
        i = i + 1;
    }
    true
}

/// The index of the first `/` in `s` at or after `start`, or the length of
/// `s` if there is none.
fn find_slash(s: &[u8], start: usize) -> (r: usize)
    requires
        start <= s@.len(),
    ensures
        r == first_slash(s@, start as int),
{
    let mut j = start;
    while j < s.len() && s[j] != SLASH
        invariant
            start <= j <= s@.len(),
            forall|k: int| start <= k < j ==> s@[k] != SLASH,
        decreases s@.len() - j,
    {
        j = j + 1;
    }
    proof {
        lemma_first_slash_at(s@, start as int, j as int);
    }
    j
}


//------------ Scheme --------------------------------------------------------

/// The three URI schemes.
#[derive(Clone, Copy, Debug, PartialEq, Eq, Structural)]
pub enum Scheme {
    Https,
    Rsync,
    Ipns,
}

impl Scheme {
    /// The prefix that introduces a URI of this scheme.
    pub open spec fn prefix_spec(self) -> Seq<u8> {
        match self {
            Scheme::Https => seq![0x68u8, 0x74, 0x74, 0x70, 0x73, 0x3a, SLASH, SLASH],
            Scheme::Rsync => seq![0x72u8, 0x73, 0x79, 0x6e, 0x63, 0x3a, SLASH, SLASH],
            Scheme::Ipns => seq![0x69u8, 0x70, 0x6e, 0x73, SLASH],
        }
    }

    /// The scheme whose prefix `s` starts with: `https://` is tried first,
    /// then `rsync://`, then `ipns/`, each ignoring case.
    pub open spec fn of(s: Seq<u8>) -> Option<Scheme> {
        if starts_with_ci(s, Scheme::Https.prefix_spec()) {
            Some(Scheme::Https)
        } else if starts_with_ci(s, Scheme::Rsync.prefix_spec()) {
            Some(Scheme::Rsync)
        } else if starts_with_ci(s, Scheme::Ipns.prefix_spec()) {
            Some(Scheme::Ipns)
        } else {
            None
        }
    }

    /// The prefix of this scheme, in lower case.
    pub fn prefix(self) -> (r: Vec<u8>)
        ensures
            r@ == self.prefix_spec(),
    {
        let r = match self {
            Scheme::Https => vec![0x68u8, 0x74, 0x74, 0x70, 0x73, 0x3a, SLASH, SLASH],
            Scheme::Rsync => vec![0x72u8, 0x73, 0x79, 0x6e, 0x63, 0x3a, SLASH, SLASH],
            Scheme::Ipns => vec![0x69u8, 0x70, 0x6e, 0x73, SLASH],
        };
        assert(r@ =~= self.prefix_spec());
        r
    }

    /// Determines the scheme from the prefix of `s`.
    ///
    /// Returns the scheme and the length of its prefix, that is, the index of
    /// the first byte after it.
    pub fn from_prefix(s: &[u8]) -> (r: Result<(Scheme, usize), Error>)
        ensures
            match Scheme::of(s@) {
                Some(scheme) => r == Ok::<(Scheme, usize), Error>(
                    (scheme, scheme.prefix_spec().len() as usize),
                ),
                None => r == Err::<(Scheme, usize), Error>(Error::BadScheme),
            },
    {
        if starts_with_ignore_case(s, Scheme::Https.prefix().as_slice()) {
            Ok((Scheme::Https, 8))
        } else if starts_with_ignore_case(s, Scheme::Rsync.prefix().as_slice()) {
            Ok((Scheme::Rsync, 8))
        } else if starts_with_ignore_case(s, Scheme::Ipns.prefix().as_slice()) {
            Ok((Scheme::Ipns, 5))
        } else {
            Err(Error::BadScheme)
        }
    }

    pub fn is_https(self) -> (r: bool)
        ensures
            r == (self == Scheme::Https),
    {
        match self {
            Scheme::Https => true,
            _ => false,
        }
    }

    pub fn is_rsync(self) -> (r: bool)
        ensures
            r == (self == Scheme::Rsync),
    {
        match self {
            Scheme::Rsync => true,
            _ => false,
        }
    }

    pub fn is_ipns(self) -> (r: bool)
        ensures
            r == (self == Scheme::Ipns),
    {
        match self {
            Scheme::Ipns => true,
            _ => false,
        }
    }

    /// The name of the scheme.
    pub fn as_str(self) -> (r: &'static str)
        ensures
            self == Scheme::Https ==> r@ == "https"@,
            self == Scheme::Rsync ==> r@ == "rsync"@,
            self == Scheme::Ipns ==> r@ == "ipns"@,
    {
        match self {
            Scheme::Https => "https",
            Scheme::Rsync => "rsync",
            Scheme::Ipns => "ipns",
        }
    }

    /// The display form of the scheme: its name followed by `://`.
    pub fn into_string(self) -> (r: String)
        ensures
            self == Scheme::Https ==> r@ == "https://"@,
            self == Scheme::Rsync ==> r@ == "rsync://"@,
            self == Scheme::Ipns ==> r@ == "ipns://"@,
    {
        match self {
            Scheme::Https => "https://".to_owned(),
            Scheme::Rsync => "rsync://".to_owned(),
            Scheme::Ipns => "ipns://".to_owned(),
        }
    }
}


/// Every URI byte is ASCII.
proof fn lemma_uri_ascii_is_ascii(s: Seq<u8>)
    requires
        uri_ascii(s),
    ensures
        all_ascii(s),
{
    assert forall|i: int| 0 <= i < s.len() implies #[trigger] s[i] < 0x80 by {
        assert(is_uri_char(s[i]));
    }
}

/// The bytes of `s` from `from` up to `to`.
fn copy_range(s: &[u8], from: usize, to: usize) -> (r: Vec<u8>)
    requires
        from <= to <= s@.len(),
    ensures
        r@ == s@.subrange(from as int, to as int),
{
    let mut r: Vec<u8> = Vec::new();
    let mut i = from;
    while i < to
        invariant
            from <= i <= to <= s@.len(),
            r@ == s@.subrange(from as int, i as int),
        decreases to - i,
    {
        r.push(s[i]);
        i = i + 1;
        assert(r@ =~= s@.subrange(from as int, i as int));
    }
    r
}

/// Appends the bytes of `s` to `v`.
pub(crate) fn append(v: &mut Vec<u8>, s: &[u8])
    ensures
        final(v)@ == old(v)@ + s@,
{
    let ghost start = v@;
    let mut i: usize = 0;
    while i < s.len()
        invariant
            i <= s@.len(),
            v@ == start + s@.subrange(0, i as int),
        decreases s@.len() - i,
    {
        v.push(s[i]);
        i = i + 1;
        assert(v@ =~= start + s@.subrange(0, i as int));
    }
    assert(s@.subrange(0, s@.len() as int) =~= s@);
}

/// The bytes of `s` lower-cased.
fn to_lower(s: &[u8]) -> (r: Vec<u8>)
    ensures
        r@ == lowered(s@),
{
    let mut r: Vec<u8> = Vec::new();
    let mut i: usize = 0;
    while i < s.len()
        invariant
            i <= s@.len(),
            r@ == lowered(s@.subrange(0, i as int)),
        decreases s@.len() - i,
    {
        r.push(lower_byte(s[i]));
        i = i + 1;
        assert(r@ =~= lowered(s@.subrange(0, i as int)));
    }
    assert(s@.subrange(0, s@.len() as int) =~= s@);
    r
}

/// Returns whether `a` and `b` are equal ignoring ASCII case.
fn eq_ignoring_case(a: &[u8], b: &[u8]) -> (r: bool)
    ensures
        r == eq_ignore_case(a@, b@),
{
    if a.len() != b.len() {
        assert(lowered(a@).len() != lowered(b@).len());
        return false;
    }
    assert(a@.subrange(0, b@.len() as int) =~= a@);
    starts_with_ignore_case(a, b)
}

/// Returns whether `a` and `b` hold the same bytes.
pub(crate) fn bytes_eq(a: &[u8], b: &[u8]) -> (r: bool)
    ensures
        r == (a@ == b@),
{
    if a.len() != b.len() {
        return false;
    }
    let mut i: usize = 0;
    while i < a.len()
        invariant
            a@.len() == b@.len(),
            i <= a@.len(),
            forall|k: int| 0 <= k < i ==> a@[k] == b@[k],
        decreases a@.len() - i,
    {
        if a[i] != b[i] {
            return false;
        }
        i = i + 1;
    }
    assert(a@ =~= b@);
    true
}

/// Returns whether `s` starts with `p`.
fn has_prefix(s: &[u8], p: &[u8]) -> (r: bool)
    ensures
        r == (p@.len() <= s@.len() && s@.subrange(0, p@.len() as int) == p@),
{
    if p.len() > s.len() {
        return false;
    }
    let mut i: usize = 0;
    while i < p.len()
        invariant
            p@.len() <= s@.len(),
            i <= p@.len(),
            forall|k: int| 0 <= k < i ==> s@[k] == p@[k],
        decreases p@.len() - i,
    {
        if s[i] != p[i] {
            assert(s@.subrange(0, p@.len() as int)[i as int] != p@[i as int]);
            return false;
        }
        i = i + 1;
    }
    assert(s@.subrange(0, p@.len() as int) =~= p@);
    true
}

/// Returns whether `s` ends with `p`.
fn has_suffix(s: &[u8], p: &[u8]) -> (r: bool)
    ensures
        r == (p@.len() <= s@.len() && s@.subrange(s@.len() - p@.len(), s@.len() as int) == p@),
{
    if p.len() > s.len() {
        return false;
    }
    let off = s.len() - p.len();
    let mut i: usize = 0;
    while i < p.len()
        invariant
            off + p@.len() == s@.len(),
            s@.len() <= usize::MAX,
            i <= p@.len(),
            forall|k: int| 0 <= k < i ==> s@[off + k] == p@[k],
        decreases p@.len() - i,
    {
        if s[off + i] != p[i] {
            assert(s@.subrange(off as int, s@.len() as int)[i as int] != p@[i as int]);
            return false;
        }
        i = i + 1;
    }
    assert(s@.subrange(off as int, s@.len() as int) =~= p@);
    true
}

/// Relies on `<Vec<u8> as Hash>::hash`: feeds the bytes to the hasher.
#[verifier::external_body]
fn hash_bytes<H: core::hash::Hasher>(bytes: &Vec<u8>, state: &mut H) {
    core::hash::Hash::hash(bytes, state)
}

//------------ Paths ---------------------------------------------------------

/// A path segment that is `.` or `..`.
pub open spec fn is_dot_segment(seg: Seq<u8>) -> bool {
    seg == seq![DOT] || seg == seq![DOT, DOT]
}

/// The outcome of checking the path segments of `p` that start at `i`.
///
/// Segments are checked in order: an empty segment ends the scan and is an
/// error if anything follows it, a `.` or `..` segment is an error.
pub open spec fn check_path_from(p: Seq<u8>, i: int) -> Result<(), Error>
    decreases p.len() - i,
{
    if i < 0 || i >= p.len() {
        Ok(())
    } else {
        let e = first_slash(p, i);
        if e == i {
            Err(Error::EmptySegments)
        } else if is_dot_segment(p.subrange(i, e)) {
            Err(Error::DotSegments)
        } else if e >= p.len() || e < i {
            Ok(())
        } else {
            check_path_from(p, e + 1)
        }
    }
}

/// The outcome of checking the rsync path `p`.
pub open spec fn check_path_spec(p: Seq<u8>) -> Result<(), Error> {
    check_path_from(p, 0)
}

/// Checks the segments of an rsync path.
fn check_path(p: &[u8]) -> (r: Result<(), Error>)
    ensures
        r == check_path_spec(p@),
{
    let mut i: usize = 0;
    while i < p.len()
        invariant
            i <= p@.len(),
            check_path_from(p@, i as int) == check_path_spec(p@),
        decreases p@.len() - i,
    {
        let e = find_slash(p, i);
        proof {
            lemma_first_slash(p@, i as int);
        }
        if e == i {
            return Err(Error::EmptySegments);
        }
        let dot = (e - i == 1 && p[i] == DOT) || (e - i == 2 && p[i] == DOT && p[i + 1] == DOT);
        proof {
            let seg = p@.subrange(i as int, e as int);
            if dot {
                if e - i == 1 {
                    assert(seg =~= seq![DOT]);
                } else {
                    assert(seg =~= seq![DOT, DOT]);
                }
            } else {
                assert(seg.len() == e - i);
                if seg == seq![DOT] {
                    assert(seq![DOT].len() == 1 && seq![DOT][0] == DOT);
                    assert(seg[0] == p@[i as int]);
                }
                if seg == seq![DOT, DOT] {
                    assert(seq![DOT, DOT].len() == 2 && seq![DOT, DOT][0] == DOT);
                    assert(seq![DOT, DOT][1] == DOT);
                    assert(seg[0] == p@[i as int] && seg[1] == p@[i + 1]);
                }
                assert(!is_dot_segment(seg));
            }
        }
        if dot {
            return Err(Error::DotSegments);
        }
        if e >= p.len() {
            return Ok(());
        }
        i = e + 1;
    }
    Ok(())
}

/// Index of the last `/` in `p` before `j`, or -1.
pub open spec fn last_slash(p: Seq<u8>, j: int) -> int
    decreases j,
{
    if j <= 0 || j > p.len() {
        -1
    } else if p[j - 1] == SLASH {
        j - 1
    } else {
        last_slash(p, j - 1)
    }
}

proof fn lemma_last_slash(p: Seq<u8>, j: int)
    requires
        0 <= j <= p.len(),
    ensures
        -1 <= last_slash(p, j) < j,
        last_slash(p, j) >= 0 ==> p[last_slash(p, j)] == SLASH,
    decreases j,
{
    if j > 0 && p[j - 1] != SLASH {
        lemma_last_slash(p, j - 1);
    }
}

/// The path without its last segment, if that segment is not empty.
pub open spec fn parent_path(p: Seq<u8>) -> Option<Seq<u8>> {
    let k = last_slash(p, p.len() as int);
    if k + 1 == p.len() {
        None
    } else if k < 0 {
        Some(Seq::empty())
    } else {
        Some(p.subrange(0, k))
    }
}

/// `p` with `s` appended, with a `/` between them where `p` is not empty and
/// does not end in one.
pub open spec fn join_path(p: Seq<u8>, s: Seq<u8>) -> Seq<u8> {
    if p.len() == 0 {
        s
    } else if p.last() == SLASH {
        p + s
    } else {
        p.push(SLASH) + s
    }
}

/// Builds `join_path(p, s)`.
fn join_bytes(p: &[u8], s: &[u8]) -> (r: Vec<u8>)
    ensures
        r@ == join_path(p@, s@),
{
    let mut r: Vec<u8> = Vec::new();
    if p.len() != 0 {
        append(&mut r, p);
        if p[p.len() - 1] != SLASH {
            r.push(SLASH);
        }
    }
    append(&mut r, s);
    assert(r@ =~= join_path(p@, s@));
    r
}


//------------ RsyncModule ---------------------------------------------------

/// What an rsync module is: its authority and its module name.
pub struct ModuleView {
    pub authority: Seq<u8>,
    pub module: Seq<u8>,
}

/// Two modules are equal when their authorities are equal ignoring case and
/// their module names are equal exactly.
pub open spec fn module_eq(a: ModuleView, b: ModuleView) -> bool {
    eq_ignore_case(a.authority, b.authority) && a.module == b.module
}

/// The authority and module of an rsync URI.
#[derive(Debug)]
pub struct RsyncModule {
    authority: Vec<u8>,
    module: Vec<u8>,
}

impl View for RsyncModule {
    type V = ModuleView;

    closed spec fn view(&self) -> ModuleView {
        ModuleView { authority: self.authority@, module: self.module@ }
    }
}

impl RsyncModule {
    #[verifier::type_invariant]
    closed spec fn inv(&self) -> bool {
        uri_ascii(self.authority@) && uri_ascii(self.module@) && 10 + self.authority@.len()
            + self.module@.len() <= usize::MAX
    }

    /// Creates a module from its authority and module name.
    pub fn new(authority: Vec<u8>, module: Vec<u8>) -> (r: RsyncModule)
        requires
            uri_ascii(authority@),
            uri_ascii(module@),
            10 + authority@.len() + module@.len() <= usize::MAX,
        ensures
            r@ == (ModuleView { authority: authority@, module: module@ }),
    {
        RsyncModule { authority, module }
    }

    /// Moves the value to memory of its own. Values here never share memory,
    /// so nothing changes.
    pub fn unshare(&mut self)
        ensures
            final(self)@ == old(self)@,
    {
    }

    /// The URI of the module's root.
    pub fn to_uri(&self) -> (r: Rsync)
        ensures
            r@ == (RsyncView {
                authority: self@.authority,
                module: self@.module,
                path: Seq::empty(),
            }),
    {
        proof {
            use_type_invariant(self);
        }
        Rsync { module: self.clone(), path: Vec::new() }
    }

    /// The authority as text.
    pub fn authority(&self) -> (r: &str)
        ensures
            r@ == ascii_chars(self@.authority),
    {
        proof {
            use_type_invariant(self);
            lemma_uri_ascii_is_ascii(self.authority@);
        }
        ascii_str(self.authority.as_slice())
    }

    /// The module name as text.
    pub fn module(&self) -> (r: &str)
        ensures
            r@ == ascii_chars(self@.module),
    {
        proof {
            use_type_invariant(self);
            lemma_uri_ascii_is_ascii(self.module@);
        }
        ascii_str(self.module.as_slice())
    }

    /// The display form: `rsync://<authority>/<module>/`.
    pub fn to_string(&self) -> (r: String)
        ensures
            r@ == ascii_chars(module_root_bytes(self@)),
    {
        proof {
            use_type_invariant(self);
        }
        let mut v = Scheme::Rsync.prefix();
        append(&mut v, self.authority.as_slice());
        v.push(SLASH);
        append(&mut v, self.module.as_slice());
        v.push(SLASH);
        proof {
            assert(v@ =~= module_root_bytes(self@));
            assert forall|i: int| 0 <= i < v@.len() implies #[trigger] v@[i] < 0x80 by {
                let a = self.authority@.len() as int;
                if 8 <= i < 8 + a {
                    assert(v@[i] == self.authority@[i - 8]);
                    assert(is_uri_char(self.authority@[i - 8]));
                } else if 9 + a <= i < 9 + a + self.module@.len() {
                    assert(v@[i] == self.module@[i - 9 - a]);
                    assert(is_uri_char(self.module@[i - 9 - a]));
                }
            }
        }
        ascii_string(v)
    }

    /// The bytes fed to a hasher: the lower-cased authority and the module.
    pub fn hash_parts(&self) -> (r: (Vec<u8>, Vec<u8>))
        ensures
            r.0@ == lowered(self@.authority),
            r.1@ == self@.module,
    {
        (to_lower(self.authority.as_slice()), self.module.clone())
    }
}

/// `rsync://<authority>/<module>/`.
pub open spec fn module_root_bytes(m: ModuleView) -> Seq<u8> {
    Scheme::Rsync.prefix_spec() + m.authority + seq![SLASH] + m.module + seq![SLASH]
}

impl Clone for RsyncModule {
    fn clone(&self) -> (r: Self)
        ensures
            r@ == self@,
    {
        proof {
            use_type_invariant(self);
        }
        RsyncModule { authority: self.authority.clone(), module: self.module.clone() }
    }
}

impl PartialEq for RsyncModule {
    fn eq(&self, other: &RsyncModule) -> (r: bool)
        ensures
            r == module_eq(self@, other@),
    {
        eq_ignoring_case(self.authority.as_slice(), other.authority.as_slice())
            && bytes_eq(self.module.as_slice(), other.module.as_slice())
    }
}

impl vstd::std_specs::cmp::PartialEqSpecImpl for RsyncModule {
    open spec fn obeys_eq_spec() -> bool {
        true
    }

    open spec fn eq_spec(&self, other: &RsyncModule) -> bool {
        module_eq(self@, other@)
    }
}

impl Eq for RsyncModule {
}

impl core::hash::Hash for RsyncModule {
    fn hash<H: core::hash::Hasher>(&self, state: &mut H) {
        let (authority, module) = self.hash_parts();
        hash_bytes(&authority, state);
        hash_bytes(&module, state);
    }
}


//------------ Rsync ---------------------------------------------------------

/// What an rsync URI is: authority, module and path.
pub struct RsyncView {
    pub authority: Seq<u8>,
    pub module: Seq<u8>,
    pub path: Seq<u8>,
}

impl RsyncView {
    /// The module part of the URI.
    pub open spec fn module_view(self) -> ModuleView {
        ModuleView { authority: self.authority, module: self.module }
    }

    /// The same URI with another path.
    pub open spec fn with_path(self, path: Seq<u8>) -> RsyncView {
        RsyncView { authority: self.authority, module: self.module, path }
    }
}

/// The canonical text of an rsync URI:
/// `rsync://<authority>/<module>/<path>`.
pub open spec fn rsync_bytes(v: RsyncView) -> Seq<u8> {
    module_root_bytes(v.module_view()) + v.path
}

/// Two rsync URIs are equal when their modules are and their paths are.
pub open spec fn rsync_eq(a: RsyncView, b: RsyncView) -> bool {
    module_eq(a.module_view(), b.module_view()) && a.path == b.path
}

/// The outcome of parsing `s` as an rsync URI.
///
/// `s` must hold URI bytes only, start with `rsync://` in any case, and hold
/// two more slashes: the authority ends at the first, the module at the
/// second, and the path is the rest, which must pass the segment check.
pub open spec fn parse_rsync(s: Seq<u8>) -> Result<RsyncView, Error> {
    if !uri_ascii(s) {
        Err(Error::NotAscii)
    } else if Scheme::of(s) != Some(Scheme::Rsync) {
        Err(Error::BadScheme)
    } else {
        let a = first_slash(s, 8);
        let m = first_slash(s, a + 1);
        if a >= s.len() || m >= s.len() {
            Err(Error::BadUri)
        } else {
            let path = s.subrange(m + 1, s.len() as int);
            match check_path_spec(path) {
                Err(e) => Err(e),
                Ok(_) => Ok(
                    RsyncView {
                        authority: s.subrange(8, a),
                        module: s.subrange(a + 1, m),
                        path,
                    },
                ),
            }
        }
    }
}

/// The result of a parse, mapped to the parsed values' views.
pub open spec fn parsed_as<T: View>(r: Result<T, Error>, expected: Result<T::V, Error>) -> bool {
    match r {
        Ok(u) => expected == Ok::<T::V, Error>(u@),
        Err(e) => expected == Err::<T::V, Error>(e),
    }
}

/// The path of `u` below `v`, where both share a module and `v`'s path is a
/// prefix of `u`'s.
pub open spec fn relative_path(u: RsyncView, v: RsyncView) -> Option<Seq<u8>> {
    if module_eq(u.module_view(), v.module_view()) && v.path.len() <= u.path.len()
        && u.path.subrange(0, v.path.len() as int) == v.path {
        Some(u.path.subrange(v.path.len() as int, u.path.len() as int))
    } else {
        None
    }
}

/// `u` is a directory that holds `v`: they share a module, and `u`'s path is
/// empty or ends in a slash and is a prefix of `v`'s.
pub open spec fn is_parent(u: RsyncView, v: RsyncView) -> bool {
    module_eq(u.module_view(), v.module_view()) && (u.path.len() == 0 || (u.path.last() == SLASH
        && u.path.len() <= v.path.len() && v.path.subrange(0, u.path.len() as int) == u.path))
}

/// A path placed under a directory named by a key, as a file system path
/// joins them: an empty key leaves the path alone.
pub open spec fn keyed_path(key: Seq<u8>, path: Seq<u8>) -> Seq<u8> {
    if key.len() == 0 {
        path
    } else {
        key.push(SLASH) + path
    }
}

/// The length of `rsync_bytes(v)`.
pub open spec fn rsync_len(v: RsyncView) -> nat {
    10 + v.authority.len() + v.module.len() + v.path.len()
}

/// An rsync URI.
///
/// This is a simplified form of the rsync URI of RFC 5781: only absolute
/// URIs with an authority, checked for their structure and for forbidden
/// characters.
#[derive(Debug)]
pub struct Rsync {
    module: RsyncModule,
    path: Vec<u8>,
}

impl View for Rsync {
    type V = RsyncView;

    closed spec fn view(&self) -> RsyncView {
        RsyncView { authority: self.module@.authority, module: self.module@.module, path: self.path@ }
    }
}

impl Rsync {
    #[verifier::type_invariant]
    closed spec fn inv(&self) -> bool {
        uri_ascii(self.path@) && rsync_len(self@) <= usize::MAX
    }

    /// Creates a URI from a module and a path.
    pub fn new(module: RsyncModule, path: Vec<u8>) -> (r: Rsync)
        requires
            uri_ascii(path@),
            10 + module@.authority.len() + module@.module.len() + path@.len() <= usize::MAX,
        ensures
            r@ == (RsyncView { authority: module@.authority, module: module@.module, path: path@ }),
    {
        Rsync { module, path }
    }

    /// Parses an rsync URI.
    pub fn from_slice(s: &[u8]) -> (r: Result<Rsync, Error>)
        ensures
            parsed_as(r, parse_rsync(s@)),
    {
        if !is_uri_ascii(s) {
            return Err(Error::NotAscii);
        }
        match Scheme::from_prefix(s) {
            Ok((Scheme::Rsync, _)) => {},
            _ => {
                return Err(Error::BadScheme);
            },
        }
        let a = find_slash(s, 8);
        if a >= s.len() {
            return Err(Error::BadUri);
        }
        let m = find_slash(s, a + 1);
        if m >= s.len() {
            return Err(Error::BadUri);
        }
        proof {
            lemma_first_slash(s@, 8);
            lemma_first_slash(s@, a + 1);
        }
        let path = copy_range(s, m + 1, s.len());
        match check_path(path.as_slice()) {
            Err(e) => {
                return Err(e);
            },
            Ok(_) => {},
        }
        let authority = copy_range(s, 8, a);
        let module = copy_range(s, a + 1, m);
        proof {
            assert forall|i: int| 0 <= i < authority@.len() implies is_uri_char(#[trigger] authority@[i]) by {
                assert(authority@[i] == s@[8 + i]);
            }
            assert forall|i: int| 0 <= i < module@.len() implies is_uri_char(#[trigger] module@[i]) by {
                assert(module@[i] == s@[a + 1 + i]);
            }
            assert forall|i: int| 0 <= i < path@.len() implies is_uri_char(#[trigger] path@[i]) by {
                assert(path@[i] == s@[m + 1 + i]);
            }
        }
        Ok(Rsync { module: RsyncModule { authority, module }, path })
    }

    /// Parses an rsync URI from its bytes.
    pub fn from_bytes(bytes: Vec<u8>) -> (r: Result<Rsync, Error>)
        ensures
            parsed_as(r, parse_rsync(bytes@)),
    {
        Rsync::from_slice(bytes.as_slice())
    }

    /// Parses an rsync URI from text.
    pub fn from_string(s: String) -> (r: Result<Rsync, Error>)
        ensures
            parsed_as(r, parse_rsync(encode_utf8(s@))),
    {
        Rsync::from_slice(s.as_str().as_bytes())
    }

    /// Moves the URI to memory of its own. Values here never share memory,
    /// so nothing changes.
    pub fn unshare(&mut self)
        ensures
            final(self)@ == old(self)@,
    {
    }

    /// The module of the URI.
    pub fn module(&self) -> (r: &RsyncModule)
        ensures
            r@ == self@.module_view(),
    {
        &self.module
    }

    /// A copy of the module of the URI.
    pub fn to_module(&self) -> (r: RsyncModule)
        ensures
            r@ == self@.module_view(),
    {
        self.module.clone()
    }

    /// The authority as text.
    pub fn authority(&self) -> (r: &str)
        ensures
            r@ == ascii_chars(self@.authority),
    {
        self.module.authority()
    }

    /// The path as text.
    pub fn path(&self) -> (r: &str)
        ensures
            r@ == ascii_chars(self@.path),
    {
        proof {
            use_type_invariant(self);
            lemma_uri_ascii_is_ascii(self.path@);
        }
        ascii_str(self.path.as_slice())
    }

    /// The URI of the directory that holds this one: the last segment of the
    /// path is dropped. There is none where that segment is empty.
    pub fn parent(&self) -> (r: Option<Rsync>)
        ensures
            match parent_path(self@.path) {
                None => r is None,
                Some(p) => r matches Some(u) && u@ == self@.with_path(p),
            },
    {
        proof {
            use_type_invariant(self);
            lemma_last_slash(self.path@, self.path@.len() as int);
        }
        let len = self.path.len();
        let mut j = len;
        while j > 0 && self.path[j - 1] != SLASH
            invariant
                j <= len == self.path@.len(),
                last_slash(self.path@, j as int) == last_slash(self.path@, len as int),
            decreases j,
        {
            j = j - 1;
        }
        // `j` is the start of the last segment.
        if j == len {
            return None;
        }
        let path = if j == 0 {
            Vec::new()
        } else {
            copy_range(self.path.as_slice(), 0, j - 1)
        };
        proof {
            assert(path@ =~= parent_path(self.path@)->Some_0);
            assert forall|i: int| 0 <= i < path@.len() implies is_uri_char(#[trigger] path@[i]) by {
                assert(path@[i] == self.path@[i]);
            }
        }
        Some(Rsync { module: self.module.clone(), path })
    }

    /// The URI with `path` appended to its path, with a slash between them
    /// where the path is not empty and does not end in one.
    pub fn join(&self, path: &[u8]) -> (r: Rsync)
        requires
            uri_ascii(path@),
            rsync_len(self@) + path@.len() + 1 <= usize::MAX,
        ensures
            r@ == self@.with_path(join_path(self@.path, path@)),
    {
        proof {
            use_type_invariant(self);
        }
        let joined = join_bytes(self.path.as_slice(), path);
        proof {
            assert forall|i: int| 0 <= i < joined@.len() implies is_uri_char(#[trigger] joined@[i]) by {
                let n = self.path@.len() as int;
                if n == 0 {
                    assert(joined@[i] == path@[i]);
                } else if self.path@.last() == SLASH {
                    if i < n {
                        assert(joined@[i] == self.path@[i]);
                    } else {
                        assert(joined@[i] == path@[i - n]);
                    }
                } else {
                    if i < n {
                        assert(joined@[i] == self.path@[i]);
                    } else if i > n {
                        assert(joined@[i] == path@[i - n - 1]);
                    }
                }
            }
        }
        Rsync { module: self.module.clone(), path: joined }
    }

    /// Returns whether the path ends with `extension`.
    pub fn ends_with(&self, extension: &str) -> (r: bool)
        ensures
            r == (encode_utf8(extension@).len() <= self@.path.len()
                && self@.path.subrange(
                self@.path.len() - encode_utf8(extension@).len(),
                self@.path.len() as int,
            ) == encode_utf8(extension@)),
    {
        has_suffix(self.path.as_slice(), extension.as_bytes())
    }

    /// The path of this URI below `other`, if both share a module and the
    /// path of `other` is a prefix of this one's. It is empty where the paths
    /// are equal.
    pub fn relative_to<'a>(&'a self, other: &Rsync) -> (r: Option<&'a [u8]>)
        ensures
            match relative_path(self@, other@) {
                None => r is None,
                Some(p) => r matches Some(x) && x@ == p,
            },
    {
        if self.module == other.module {
            if has_prefix(self.path.as_slice(), other.path.as_slice()) {
                Some(vstd::slice::slice_subrange(self.path.as_slice(), other.path.len(), self.path.len()))
            } else {
                None
            }
        } else {
            None
        }
    }

    /// Returns whether this URI is a directory that holds `other`.
    pub fn is_parent_of(&self, other: &Rsync) -> (r: bool)
        ensures
            r == is_parent(self@, other@),
    {
        self.module == other.module && (self.path.len() == 0 || (self.path[self.path.len() - 1]
            == SLASH && has_prefix(other.path.as_slice(), self.path.as_slice())))
    }

    /// The canonical text of the URI as bytes.
    pub fn to_bytes(&self) -> (r: Vec<u8>)
        ensures
            r@ == rsync_bytes(self@),
    {
        let mut v = Scheme::Rsync.prefix();
        append(&mut v, self.module.authority.as_slice());
        v.push(SLASH);
        append(&mut v, self.module.module.as_slice());
        v.push(SLASH);
        append(&mut v, self.path.as_slice());
        assert(v@ =~= rsync_bytes(self@));
        v
    }

    /// The canonical text of the URI.
    pub fn to_string(&self) -> (r: String)
        ensures
            r@ == ascii_chars(rsync_bytes(self@)),
    {
        proof {
            use_type_invariant(self);
            use_type_invariant(&self.module);
            lemma_rsync_bytes_valid(self@);
            lemma_uri_ascii_is_ascii(rsync_bytes(self@));
        }
        ascii_string(self.to_bytes())
    }

    /// The length of the canonical text.
    pub fn encoded_len(&self) -> (r: usize)
        ensures
            r == rsync_bytes(self@).len(),
    {
        proof {
            use_type_invariant(self);
        }
        10 + self.module.authority.len() + self.module.module.len() + self.path.len()
    }

    /// The bytes fed to a hasher: the module's, then the path.
    pub fn hash_parts(&self) -> (r: (Vec<u8>, Vec<u8>, Vec<u8>))
        ensures
            r.0@ == lowered(self@.authority),
            r.1@ == self@.module,
            r.2@ == self@.path,
    {
        let (a, m) = self.module.hash_parts();
        (a, m, self.path.clone())
    }
}

/// The canonical text of a URI whose parts are URI bytes is URI bytes.
proof fn lemma_rsync_bytes_valid(v: RsyncView)
    requires
        uri_ascii(v.authority),
        uri_ascii(v.module),
        uri_ascii(v.path),
    ensures
        uri_ascii(rsync_bytes(v)),
        rsync_bytes(v).len() == rsync_len(v),
{
    let b = rsync_bytes(v);
    let a = v.authority.len() as int;
    let m = v.module.len() as int;
    let pre = Scheme::Rsync.prefix_spec();
    assert forall|i: int| 0 <= i < b.len() implies is_uri_char(#[trigger] b[i]) by {
        if i < 8 {
            assert(b[i] == pre[i]);
        } else if i < 8 + a {
            assert(b[i] == v.authority[i - 8]);
        } else if i == 8 + a {
            assert(b[i] == SLASH);
        } else if i < 9 + a + m {
            assert(b[i] == v.module[i - 9 - a]);
        } else if i == 9 + a + m {
            assert(b[i] == SLASH);
        } else {
            assert(b[i] == v.path[i - 10 - a - m]);
        }
    }
}

impl Clone for Rsync {
    fn clone(&self) -> (r: Self)
        ensures
            r@ == self@,
    {
        proof {
            use_type_invariant(self);
        }
        Rsync { module: self.module.clone(), path: self.path.clone() }
    }
}

impl PartialEq for Rsync {
    fn eq(&self, other: &Rsync) -> (r: bool)
        ensures
            r == rsync_eq(self@, other@),
    {
        self.module == other.module && bytes_eq(self.path.as_slice(), other.path.as_slice())
    }
}

impl vstd::std_specs::cmp::PartialEqSpecImpl for Rsync {
    open spec fn obeys_eq_spec() -> bool {
        true
    }

    open spec fn eq_spec(&self, other: &Rsync) -> bool {
        rsync_eq(self@, other@)
    }
}

impl Eq for Rsync {
}

impl core::hash::Hash for Rsync {
    fn hash<H: core::hash::Hasher>(&self, state: &mut H) {
        let (a, m, p) = self.hash_parts();
        hash_bytes(&a, state);
        hash_bytes(&m, state);
        hash_bytes(&p, state);
    }
}

impl core::str::FromStr for Rsync {
    type Err = Error;

    fn from_str(s: &str) -> (r: Result<Rsync, Error>)
        ensures
            parsed_as(r, parse_rsync(encode_utf8(s@))),
    {
        Rsync::from_slice(s.as_bytes())
    }
}


//------------ Ipns ----------------------------------------------------------

/// The outcome of parsing `s` as an IPNS path: URI bytes only, starting with
/// `ipns/` in any case, with a slash after the key that follows.
pub open spec fn parse_ipns(s: Seq<u8>) -> Result<Seq<u8>, Error> {
    if !uri_ascii(s) {
        Err(Error::NotAscii)
    } else if Scheme::of(s) != Some(Scheme::Ipns) {
        Err(Error::BadScheme)
    } else if first_slash(s, 5) >= s.len() {
        Err(Error::BadUri)
    } else {
        Ok(s)
    }
}

/// The second `/`-separated segment of an IPNS path.
pub open spec fn ta_key(s: Seq<u8>) -> Seq<u8> {
    s.subrange(5, first_slash(s, 5))
}

/// The third `/`-separated segment of an IPNS path.
pub open spec fn repo_key(s: Seq<u8>) -> Seq<u8> {
    s.subrange(first_slash(s, 5) + 1, first_slash(s, first_slash(s, 5) + 1))
}

/// An IPNS path: `ipns/<ta-key>/<repo-key>[/...]`.
#[derive(Debug)]
pub struct Ipns {
    uri: Vec<u8>,
}

impl View for Ipns {
    type V = Seq<u8>;

    closed spec fn view(&self) -> Seq<u8> {
        self.uri@
    }
}

impl Ipns {
    #[verifier::type_invariant]
    closed spec fn inv(&self) -> bool {
        parse_ipns(self.uri@) == Ok::<Seq<u8>, Error>(self.uri@)
    }

    /// Parses an IPNS path.
    pub fn from_slice(s: &[u8]) -> (r: Result<Ipns, Error>)
        ensures
            parsed_as(r, parse_ipns(s@)),
    {
        if !is_uri_ascii(s) {
            return Err(Error::NotAscii);
        }
        match Scheme::from_prefix(s) {
            Ok((Scheme::Ipns, _)) => {},
            _ => {
                return Err(Error::BadScheme);
            },
        }
        if find_slash(s, 5) >= s.len() {
            return Err(Error::BadUri);
        }
        let uri = copy_range(s, 0, s.len());
        assert(uri@ =~= s@);
        Ok(Ipns { uri })
    }

    /// Parses an IPNS path from its bytes.
    pub fn from_bytes(bytes: Vec<u8>) -> (r: Result<Ipns, Error>)
        ensures
            parsed_as(r, parse_ipns(bytes@)),
    {
        Ipns::from_slice(bytes.as_slice())
    }

    /// Parses an IPNS path from text.
    pub fn from_string(s: String) -> (r: Result<Ipns, Error>)
        ensures
            parsed_as(r, parse_ipns(encode_utf8(s@))),
    {
        Ipns::from_slice(s.as_str().as_bytes())
    }

    /// The path as text.
    pub fn as_str(&self) -> (r: &str)
        ensures
            r@ == ascii_chars(self@),
    {
        proof {
            use_type_invariant(self);
            lemma_uri_ascii_is_ascii(self.uri@);
        }
        ascii_str(self.uri.as_slice())
    }

    /// The key of the trust anchor's publication point: the second segment.
    pub fn get_ta_publish_key(&self) -> (r: &str)
        ensures
            r@ == ascii_chars(ta_key(self@)),
    {
        proof {
            use_type_invariant(self);
        }
        let (start, end) = self.ta_key_range();
        self.ascii_range(start, end)
    }

    /// The key of the repository's publication point: the third segment.
    pub fn get_repo_publish_key(&self) -> (r: &str)
        ensures
            r@ == ascii_chars(repo_key(self@)),
    {
        let (start, end) = self.repo_key_range();
        self.ascii_range(start, end)
    }

    fn ta_key_range(&self) -> (r: (usize, usize))
        ensures
            r.0 <= r.1 <= self@.len(),
            self@.subrange(r.0 as int, r.1 as int) == ta_key(self@),
    {
        proof {
            use_type_invariant(self);
            lemma_first_slash(self.uri@, 5);
        }
        (5, find_slash(self.uri.as_slice(), 5))
    }

    fn repo_key_range(&self) -> (r: (usize, usize))
        ensures
            r.0 <= r.1 <= self@.len(),
            self@.subrange(r.0 as int, r.1 as int) == repo_key(self@),
    {
        proof {
            use_type_invariant(self);
            lemma_first_slash(self.uri@, 5);
        }
        let n = self.uri.len();
        let s1 = find_slash(self.uri.as_slice(), 5);
        proof {
            assert(s1 < n);
            assert(first_slash(self.uri@, 5) < self.uri@.len());
            lemma_first_slash(self.uri@, s1 + 1);
        }
        (s1 + 1, find_slash(self.uri.as_slice(), s1 + 1))
    }

    fn ascii_range(&self, start: usize, end: usize) -> (r: &str)
        requires
            start <= end <= self@.len(),
        ensures
            r@ == ascii_chars(self@.subrange(start as int, end as int)),
    {
        proof {
            use_type_invariant(self);
        }
        let part = vstd::slice::slice_subrange(self.uri.as_slice(), start, end);
        proof {
            assert forall|i: int| 0 <= i < part@.len() implies #[trigger] part@[i] < 0x80 by {
                assert(part@[i] == self.uri@[start + i]);
                assert(is_uri_char(self.uri@[start + i]));
            }
        }
        ascii_str(part)
    }

    /// The bytes fed to a hasher: the path lower-cased.
    pub fn hash_parts(&self) -> (r: Vec<u8>)
        ensures
            r@ == lowered(self@),
    {
        to_lower(self.uri.as_slice())
    }

    /// The path as bytes.
    pub fn to_bytes(&self) -> (r: Vec<u8>)
        ensures
            r@ == self@,
    {
        self.uri.clone()
    }
}

impl Clone for Ipns {
    fn clone(&self) -> (r: Self)
        ensures
            r@ == self@,
    {
        proof {
            use_type_invariant(self);
        }
        Ipns { uri: self.uri.clone() }
    }
}

impl PartialEq for Ipns {
    fn eq(&self, other: &Ipns) -> (r: bool)
        ensures
            r == eq_ignore_case(self@, other@),
    {
        eq_ignoring_case(self.uri.as_slice(), other.uri.as_slice())
    }
}

impl vstd::std_specs::cmp::PartialEqSpecImpl for Ipns {
    open spec fn obeys_eq_spec() -> bool {
        true
    }

    open spec fn eq_spec(&self, other: &Ipns) -> bool {
        eq_ignore_case(self@, other@)
    }
}

impl Eq for Ipns {
}

impl core::hash::Hash for Ipns {
    fn hash<H: core::hash::Hasher>(&self, state: &mut H) {
        hash_bytes(&self.hash_parts(), state);
    }
}

impl core::str::FromStr for Ipns {
    type Err = Error;

    fn from_str(s: &str) -> (r: Result<Ipns, Error>)
        ensures
            parsed_as(r, parse_ipns(encode_utf8(s@))),
    {
        Ipns::from_slice(s.as_bytes())
    }
}

impl Rsync {
    /// The file system path of this URI's object under the trust anchor's
    /// key of `uri_ipns`.
    pub fn to_ipns_ta_path(&self, uri_ipns: &Ipns) -> (r: String)
        ensures
            r@ == ascii_chars(keyed_path(ta_key(uri_ipns@), self@.path)),
    {
        let (start, end) = uri_ipns.ta_key_range();
        self.keyed_path_string(uri_ipns, start, end)
    }

    /// The file system path of this URI's object under the repository's key
    /// of `uri_ipns`.
    pub fn to_ipns_repo_path(&self, uri_ipns: &Ipns) -> (r: String)
        ensures
            r@ == ascii_chars(keyed_path(repo_key(uri_ipns@), self@.path)),
    {
        let (start, end) = uri_ipns.repo_key_range();
        self.keyed_path_string(uri_ipns, start, end)
    }

    fn keyed_path_string(&self, uri_ipns: &Ipns, start: usize, end: usize) -> (r: String)
        requires
            start <= end <= uri_ipns@.len(),
        ensures
            r@ == ascii_chars(keyed_path(uri_ipns@.subrange(start as int, end as int), self@.path)),
    {
        proof {
            use_type_invariant(self);
            use_type_invariant(uri_ipns);
        }
        let key = vstd::slice::slice_subrange(uri_ipns.uri.as_slice(), start, end);
        let mut v: Vec<u8> = Vec::new();
        if key.len() > 0 {
            append(&mut v, key);
            v.push(SLASH);
        }
        append(&mut v, self.path.as_slice());
        proof {
            let k = key@;
            assert(v@ =~= keyed_path(k, self.path@));
            assert forall|i: int| 0 <= i < v@.len() implies #[trigger] v@[i] < 0x80 by {
                if k.len() > 0 && i < k.len() {
                    assert(v@[i] == uri_ipns.uri@[start + i]);
                    assert(is_uri_char(uri_ipns.uri@[start + i]));
                } else if k.len() > 0 && i > k.len() {
                    assert(v@[i] == self.path@[i - k.len() - 1]);
                    assert(is_uri_char(self.path@[i - k.len() - 1]));
                } else if k.len() == 0 {
                    assert(is_uri_char(self.path@[i]));
                }
            }
        }
        ascii_string(v)
    }
}


//------------ Https ---------------------------------------------------------

/// What an HTTPS URI is: its bytes, and the index where its authority ends.
pub struct HttpsView {
    pub uri: Seq<u8>,
    pub path_idx: nat,
}

/// The outcome of parsing `s` as an HTTPS URI: URI bytes only, starting with
/// `https://` in any case. The authority ends at the first slash after the
/// prefix, or at the end.
pub open spec fn parse_https(s: Seq<u8>) -> Result<HttpsView, Error> {
    if !uri_ascii(s) {
        Err(Error::NotAscii)
    } else if Scheme::of(s) != Some(Scheme::Https) {
        Err(Error::BadScheme)
    } else {
        Ok(HttpsView { uri: s, path_idx: first_slash(s, 8) as nat })
    }
}

/// The part of the URI before the path: compared ignoring case.
pub open spec fn https_head(v: HttpsView) -> Seq<u8> {
    v.uri.subrange(0, v.path_idx as int)
}

/// The path of the URI: compared exactly.
pub open spec fn https_path(v: HttpsView) -> Seq<u8> {
    v.uri.subrange(v.path_idx as int, v.uri.len() as int)
}

/// Two HTTPS URIs are equal when their authorities end at the same index,
/// what comes before is equal ignoring case, and the paths are equal.
pub open spec fn https_eq(a: HttpsView, b: HttpsView) -> bool {
    a.path_idx == b.path_idx && eq_ignore_case(https_head(a), https_head(b)) && https_path(a)
        == https_path(b)
}

/// The URI with `s` appended, with a slash between them where the path is
/// not empty and does not end in one. The authority keeps its end.
pub open spec fn https_join(v: HttpsView, s: Seq<u8>) -> HttpsView {
    let p = https_path(v);
    HttpsView {
        uri: if p.len() != 0 && p.last() != SLASH {
            v.uri.push(SLASH) + s
        } else {
            v.uri + s
        },
        path_idx: v.path_idx,
    }
}

/// An HTTPS URI.
///
/// A slim wrapper around the URI's bytes that ensures the scheme is `https`
/// and remembers where the authority ends: the authority is compared
/// ignoring case, all the rest exactly.
#[derive(Debug)]
pub struct Https {
    uri: Vec<u8>,
    path_idx: usize,
}

impl View for Https {
    type V = HttpsView;

    closed spec fn view(&self) -> HttpsView {
        HttpsView { uri: self.uri@, path_idx: self.path_idx as nat }
    }
}

impl Https {
    #[verifier::type_invariant]
    closed spec fn inv(&self) -> bool {
        &&& uri_ascii(self.uri@)
        &&& starts_with_ci(self.uri@, Scheme::Https.prefix_spec())
        &&& 8 <= self.path_idx <= self.uri@.len()
        &&& forall|k: int| 8 <= k < self.path_idx ==> self.uri@[k] != SLASH
    }

    /// Parses an HTTPS URI.
    pub fn from_slice(s: &[u8]) -> (r: Result<Https, Error>)
        ensures
            parsed_as(r, parse_https(s@)),
    {
        if !is_uri_ascii(s) {
            return Err(Error::NotAscii);
        }
        match Scheme::from_prefix(s) {
            Ok((Scheme::Https, _)) => {},
            _ => {
                return Err(Error::BadScheme);
            },
        }
        let path_idx = find_slash(s, 8);
        proof {
            lemma_first_slash(s@, 8);
        }
        let uri = copy_range(s, 0, s.len());
        assert(uri@ =~= s@);
        Ok(Https { uri, path_idx })
    }

    /// Parses an HTTPS URI from its bytes.
    pub fn from_bytes(bytes: Vec<u8>) -> (r: Result<Https, Error>)
        ensures
            parsed_as(r, parse_https(bytes@)),
    {
        Https::from_slice(bytes.as_slice())
    }

    /// Parses an HTTPS URI from text.
    pub fn from_string(s: String) -> (r: Result<Https, Error>)
        ensures
            parsed_as(r, parse_https(encode_utf8(s@))),
    {
        Https::from_slice(s.as_str().as_bytes())
    }

    /// Moves the URI to memory of its own. Values here never share memory,
    /// so nothing changes.
    pub fn unshare(&mut self)
        ensures
            final(self)@ == old(self)@,
    {
    }

    /// The scheme of the URI.
    pub fn scheme(&self) -> (r: Scheme)
        ensures
            r == Scheme::Https,
    {
        Scheme::Https
    }

    /// The authority as text: what lies between the prefix and the path.
    pub fn authority(&self) -> (r: &str)
        ensures
            r@ == ascii_chars(self@.uri.subrange(8, self@.path_idx as int)),
    {
        proof {
            use_type_invariant(self);
        }
        self.ascii_range(8, self.path_idx)
    }

    /// The URI as text.
    pub fn as_str(&self) -> (r: &str)
        ensures
            r@ == ascii_chars(self@.uri),
    {
        proof {
            use_type_invariant(self);
            lemma_uri_ascii_is_ascii(self.uri@);
        }
        ascii_str(self.uri.as_slice())
    }

    fn ascii_range(&self, start: usize, end: usize) -> (r: &str)
        requires
            start <= end <= self@.uri.len(),
        ensures
            r@ == ascii_chars(self@.uri.subrange(start as int, end as int)),
    {
        proof {
            use_type_invariant(self);
        }
        let part = vstd::slice::slice_subrange(self.uri.as_slice(), start, end);
        proof {
            assert forall|i: int| 0 <= i < part@.len() implies #[trigger] part@[i] < 0x80 by {
                assert(part@[i] == self.uri@[start + i]);
                assert(is_uri_char(self.uri@[start + i]));
            }
        }
        ascii_str(part)
    }

    /// The path: everything from the end of the authority on.
    fn path(&self) -> (r: &[u8])
        ensures
            r@ == https_path(self@),
    {
        proof {
            use_type_invariant(self);
        }
        vstd::slice::slice_subrange(self.uri.as_slice(), self.path_idx, self.uri.len())
    }

    /// The URI with `path` appended, with a slash between them where the
    /// current path is not empty and does not end in one.
    pub fn join(&self, path: &[u8]) -> (r: Https)
        requires
            uri_ascii(path@),
            self@.uri.len() + path@.len() + 1 <= usize::MAX,
        ensures
            r@ == https_join(self@, path@),
    {
        proof {
            use_type_invariant(self);
        }
        let mut res: Vec<u8> = Vec::new();
        append(&mut res, self.uri.as_slice());
        let own = self.path();
        if own.len() != 0 && own[own.len() - 1] != SLASH {
            res.push(SLASH);
        }
        append(&mut res, path);
        let ghost j = https_join(self@, path@);
        proof {
            assert(res@ =~= j.uri);
            let n = self.uri@.len() as int;
            assert forall|i: int| 0 <= i < res@.len() implies is_uri_char(#[trigger] res@[i]) by {
                if i < n {
                    assert(res@[i] == self.uri@[i]);
                } else if res@.len() == n + path@.len() {
                    assert(res@[i] == path@[i - n]);
                } else if i > n {
                    assert(res@[i] == path@[i - n - 1]);
                }
            }
            assert(res@.subrange(0, 8) =~= self.uri@.subrange(0, 8));
        }
        Https { uri: res, path_idx: self.path_idx }
    }

    /// The bytes of the URI: its canonical text.
    pub fn to_bytes(&self) -> (r: Vec<u8>)
        ensures
            r@ == self@.uri,
    {
        self.uri.clone()
    }

    /// The length of the canonical text.
    pub fn encoded_len(&self) -> (r: usize)
        ensures
            r == self@.uri.len(),
    {
        self.uri.len()
    }

    /// The bytes fed to a hasher: the part before the path lower-cased, then
    /// the path.
    pub fn hash_parts(&self) -> (r: (Vec<u8>, Vec<u8>))
        ensures
            r.0@ == lowered(https_head(self@)),
            r.1@ == https_path(self@),
    {
        proof {
            use_type_invariant(self);
        }
        let head = vstd::slice::slice_subrange(self.uri.as_slice(), 0, self.path_idx);
        let path = self.path();
        (to_lower(head), copy_range(path, 0, path.len()))
    }
}

impl Clone for Https {
    fn clone(&self) -> (r: Self)
        ensures
            r@ == self@,
    {
        proof {
            use_type_invariant(self);
        }
        Https { uri: self.uri.clone(), path_idx: self.path_idx }
    }
}

impl PartialEq for Https {
    fn eq(&self, other: &Https) -> (r: bool)
        ensures
            r == https_eq(self@, other@),
    {
        proof {
            use_type_invariant(self);
            use_type_invariant(other);
        }
        if self.path_idx != other.path_idx {
            return false;
        }
        let a = vstd::slice::slice_subrange(self.uri.as_slice(), 0, self.path_idx);
        let b = vstd::slice::slice_subrange(other.uri.as_slice(), 0, other.path_idx);
        eq_ignoring_case(a, b) && bytes_eq(self.path(), other.path())
    }
}

impl vstd::std_specs::cmp::PartialEqSpecImpl for Https {
    open spec fn obeys_eq_spec() -> bool {
        true
    }

    open spec fn eq_spec(&self, other: &Https) -> bool {
        https_eq(self@, other@)
    }
}

impl Eq for Https {
}

impl core::hash::Hash for Https {
    fn hash<H: core::hash::Hasher>(&self, state: &mut H) {
        let (head, path) = self.hash_parts();
        hash_bytes(&head, state);
        hash_bytes(&path, state);
    }
}

impl core::str::FromStr for Https {
    type Err = Error;

    fn from_str(s: &str) -> (r: Result<Https, Error>)
        ensures
            parsed_as(r, parse_https(encode_utf8(s@))),
    {
        Https::from_slice(s.as_bytes())
    }
}


//------------ Properties ----------------------------------------------------

/// Equal HTTPS URIs feed the same bytes to a hasher, so they hash equal.
pub proof fn lemma_https_eq_same_hash(a: HttpsView, b: HttpsView)
    requires
        https_eq(a, b),
    ensures
        lowered(https_head(a)) == lowered(https_head(b)),
        https_path(a) == https_path(b),
{
}

/// Equal rsync modules feed the same bytes to a hasher, so they hash equal.
pub proof fn lemma_module_eq_same_hash(a: ModuleView, b: ModuleView)
    requires
        module_eq(a, b),
    ensures
        lowered(a.authority) == lowered(b.authority),
        a.module == b.module,
{
}

/// Equal rsync URIs feed the same bytes to a hasher, so they hash equal.
pub proof fn lemma_rsync_eq_same_hash(a: RsyncView, b: RsyncView)
    requires
        rsync_eq(a, b),
    ensures
        lowered(a.authority) == lowered(b.authority),
        a.module == b.module,
        a.path == b.path,
{
}

/// Equal IPNS paths feed the same bytes to a hasher, so they hash equal.
pub proof fn lemma_ipns_eq_same_hash(a: Seq<u8>, b: Seq<u8>)
    requires
        eq_ignore_case(a, b),
    ensures
        lowered(a) == lowered(b),
{
}

/// A sequence starts with itself, ignoring case.
proof fn lemma_starts_with_self(s: Seq<u8>, p: Seq<u8>)
    requires
        p.len() <= s.len(),
        s.subrange(0, p.len() as int) == p,
    ensures
        starts_with_ci(s, p),
{
}

/// Parsing the canonical text of an rsync URI gives the URI back, where its
/// authority and module hold no slash and its path passes the segment check.
pub proof fn lemma_rsync_round_trip(v: RsyncView)
    requires
        uri_ascii(v.authority),
        uri_ascii(v.module),
        uri_ascii(v.path),
        forall|i: int| 0 <= i < v.authority.len() ==> #[trigger] v.authority[i] != SLASH,
        forall|i: int| 0 <= i < v.module.len() ==> #[trigger] v.module[i] != SLASH,
        check_path_spec(v.path) == Ok::<(), Error>(()),
    ensures
        parse_rsync(rsync_bytes(v)) == Ok::<RsyncView, Error>(v),
{
    let b = rsync_bytes(v);
    let a = v.authority.len() as int;
    let m = v.module.len() as int;
    let https = Scheme::Https.prefix_spec();
    let rsync = Scheme::Rsync.prefix_spec();
    lemma_rsync_bytes_valid(v);
    assert(b.subrange(0, 8) =~= rsync);
    lemma_starts_with_self(b, rsync);
    assert(lowered(b.subrange(0, 8))[0] != lowered(https)[0]);
    assert(!starts_with_ci(b, https));
    assert forall|k: int| 8 <= k < 8 + a implies b[k] != SLASH by {
        assert(b[k] == v.authority[k - 8]);
    }
    lemma_first_slash_at(b, 8, 8 + a);
    assert forall|k: int| 9 + a <= k < 9 + a + m implies b[k] != SLASH by {
        assert(b[k] == v.module[k - 9 - a]);
    }
    lemma_first_slash_at(b, 9 + a, 9 + a + m);
    assert(b.subrange(8, 8 + a) =~= v.authority);
    assert(b.subrange(9 + a, 9 + a + m) =~= v.module);
    assert(b.subrange(10 + a + m, b.len() as int) =~= v.path);
}

/// Parsing the text of an HTTPS URI gives the URI back, where its authority
/// ends at the first slash after the prefix, as parsing puts it.
pub proof fn lemma_https_round_trip(v: HttpsView)
    requires
        uri_ascii(v.uri),
        starts_with_ci(v.uri, Scheme::Https.prefix_spec()),
        v.path_idx == first_slash(v.uri, 8),
    ensures
        parse_https(v.uri) == Ok::<HttpsView, Error>(v),
{
}

/// Parsing the text of an IPNS path gives the path back.
pub proof fn lemma_ipns_round_trip(s: Seq<u8>)
    requires
        parse_ipns(s) is Ok,
    ensures
        parse_ipns(s) == Ok::<Seq<u8>, Error>(s),
{
}

//------------ Error ---------------------------------------------------------

/// The ways in which a URI can be malformed.
#[derive(Clone, Copy, Debug, PartialEq, Eq, Structural)]
pub enum Error {
    NotAscii,
    BadUri,
    BadScheme,
    DotSegments,
    EmptySegments,
}

impl Error {
    /// A human-readable description of the error.
    pub fn description(&self) -> &'static str {
        match self {
            Error::NotAscii => "invalid characters",
            Error::BadUri => "bad URI",
            Error::BadScheme => "bad URI scheme",
            Error::DotSegments => "URI with dot path segments",
            Error::EmptySegments => "URI with empty path segments",
        }
    }
}

} // verus!
