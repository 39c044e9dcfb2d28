//! Request headers, looked up by name without regard to ASCII case, and the
//! event type that a delivery declares.

use vstd::prelude::*;
use vstd::utf8::valid_utf8;

verus! {

/// One request header: its name and its raw value.
#[derive(Clone, Debug)]
pub struct Header {
    pub name: Vec<u8>,
    pub value: Vec<u8>,
}

/// The header that carries the signature.
pub open spec fn signature_header_name() -> Seq<u8> {
    seq![
        ('x' as u8), ('-' as u8), ('h' as u8), ('u' as u8), ('b' as u8), ('-' as u8),
        ('s' as u8), ('i' as u8), ('g' as u8), ('n' as u8), ('a' as u8), ('t' as u8),
        ('u' as u8), ('r' as u8), ('e' as u8),
    ]
}

/// The header that declares the event type.
pub open spec fn event_header_name() -> Seq<u8> {
    seq![
        ('x' as u8), ('-' as u8), ('g' as u8), ('i' as u8), ('t' as u8), ('h' as u8),
        ('u' as u8), ('b' as u8), ('-' as u8), ('e' as u8), ('v' as u8), ('e' as u8),
        ('n' as u8), ('t' as u8),
    ]
}

/// The event type of a delivery that declares none.
pub open spec fn unknown_event() -> Seq<u8> {
    seq![('u' as u8), ('n' as u8), ('k' as u8), ('n' as u8), ('o' as u8), ('w' as u8), ('n' as u8)]
}

pub open spec fn ascii_lower(c: u8) -> u8 {
    if ('A' as u8) <= c <= ('Z' as u8) {
        (c + 32) as u8
    } else {
        c
    }
}

/// Two header names are the same when they agree byte for byte up to
/// ASCII case.
pub open spec fn same_name(a: Seq<u8>, b: Seq<u8>) -> bool {
    &&& a.len() == b.len()
    &&& forall|i: int| 0 <= i < a.len() ==> ascii_lower(#[trigger] a[i]) == ascii_lower(b[i])
}

/// The value of the first header named `name`, if any.
pub open spec fn header_lookup(hs: Seq<Header>, name: Seq<u8>) -> Option<Seq<u8>>
    decreases hs.len(),
{
    if hs.len() == 0 {
        None
    } else if same_name(hs[0].name@, name) {
        Some(hs[0].value@)
    } else {
        header_lookup(hs.skip(1), name)
    }
}

/// The bytes of `String::from_utf8_lossy(b)`.
pub uninterp spec fn utf8_lossy(b: Seq<u8>) -> Seq<u8>;

/// The event type a delivery with headers `hs` declares: the event header's
/// value read as UTF-8 with lossy replacement, or `unknown`.
pub open spec fn event_of(hs: Seq<Header>) -> Seq<u8> {
    match header_lookup(hs, event_header_name()) {
        Some(v) => utf8_lossy(v),
        None => unknown_event(),
    }
}

/// Relies on `String::from_utf8_lossy`: the result depends on the bytes
/// alone, and valid UTF-8 comes back unchanged.
#[verifier::external_body]
fn decode_lossy(b: &[u8]) -> (r: Vec<u8>)
    ensures
        r@ == utf8_lossy(b@),
        valid_utf8(b@) ==> r@ == b@,
{
    String::from_utf8_lossy(b).into_owned().into_bytes()
}

/// A copy of `s`.
pub fn copy_bytes(s: &[u8]) -> (r: Vec<u8>)
    ensures
        r@ == s@,
{
    let mut r: Vec<u8> = Vec::new();
    let mut i: usize = 0;
    while i < s.len()
        invariant
            i <= s@.len(),
            r@ == s@.take(i as int),
        decreases s@.len() - i,
    {
        r.push(s[i]);
        i = i + 1;
        assert(r@ =~= s@.take(i as int));
    }
    assert(s@.take(i as int) =~= s@);
    r
}

/// Whether `a` and `b` name the same header.
pub fn names_match(a: &[u8], b: &[u8]) -> (r: bool)
    ensures
        r == same_name(a@, b@),
{
    if a.len() != b.len() {
        return false;
    }
    let mut i: usize = 0;
    while i < a.len()
        invariant
            a@.len() == b@.len(),
            i <= a@.len(),
            forall|j: int| 0 <= j < i ==> ascii_lower(#[trigger] a@[j]) == ascii_lower(b@[j]),
        decreases a@.len() - i,
    {
        let x = a[i];
        let y = b[i];
        let lx = if ('A' as u8) <= x && x <= ('Z' as u8) { x + 32 } else { x };
        let ly = if ('A' as u8) <= y && y <= ('Z' as u8) { y + 32 } else { y };
        if lx != ly {
            return false;
        }
        i = i + 1;
    }
    true
}

/// A copy of the value of the first header named `name` (up to ASCII case).
pub fn find_header(hs: &Vec<Header>, name: &[u8]) -> (r: Option<Vec<u8>>)
    ensures
        match r {
            Some(v) => header_lookup(hs@, name@) == Some(v@),
            None => header_lookup(hs@, name@) is None,
        },
{
    let mut i: usize = 0;
    assert(hs@.skip(0) =~= hs@);
    while i < hs.len()
        invariant
            i <= hs@.len(),
            header_lookup(hs@, name@) == header_lookup(hs@.skip(i as int), name@),
        decreases hs@.len() - i,
    {
        assert(hs@.skip(i as int)[0] == hs@[i as int]);
        assert(hs@.skip(i as int).skip(1) =~= hs@.skip(i + 1));
        if names_match(hs[i].name.as_slice(), name) {
            return Some(copy_bytes(hs[i].value.as_slice()));
        }
        i = i + 1;
    }
    None
}

/// The event type that headers `hs` declare, or `unknown` when they declare
/// none.
pub fn classify(hs: &Vec<Header>) -> (r: Vec<u8>)
    ensures
        r@ == event_of(hs@),
{
    let name: Vec<u8> = vec![
        'x' as u8, '-' as u8, 'g' as u8, 'i' as u8, 't' as u8, 'h' as u8, 'u' as u8,
        'b' as u8, '-' as u8, 'e' as u8, 'v' as u8, 'e' as u8, 'n' as u8, 't' as u8,
    ];
    assert(name@ =~= event_header_name());
    match find_header(hs, name.as_slice()) {
        Some(v) => decode_lossy(v.as_slice()),
        None => {
            let r: Vec<u8> = vec![
                'u' as u8, 'n' as u8, 'k' as u8, 'n' as u8, 'o' as u8, 'w' as u8, 'n' as u8,
            ];
            assert(r@ =~= unknown_event());
            r
        },
    }
}

} // verus!
