//! The websocket upgrade decision: whether an HTTP request asks for a
//! protocol switch, judged from its method, version and header values, and
//! the accept token the switching response must carry.

use vstd::prelude::*;

verus! {

/// The RFC 6455 accept token derived from a client key. The token is a
/// digest of the key bytes and a fixed GUID: a function of the key alone.
pub uninterp spec fn accept_key_of(key: Seq<u8>) -> Seq<char>;

/// Relies on tokio_tungstenite's `derive_accept_key` (RFC 6455): the accept
/// token depends on the request key bytes alone.
#[verifier::external_body]
fn derive_accept_key(key: &[u8]) -> (r: String)
    ensures
        r@ == accept_key_of(key@),
{
    tokio_tungstenite::tungstenite::handshake::derive_accept_key(key)
}

/// An ASCII byte with any uppercase letter folded to lowercase.
pub open spec fn ascii_lower(c: u8) -> u8 {
    if 65 <= c <= 90 {
        (c + 32) as u8
    } else {
        c
    }
}

/// Byte strings equal up to ASCII case.
pub open spec fn eq_ignore_case(a: Seq<u8>, b: Seq<u8>) -> bool {
    a.len() == b.len() && forall|i: int|
        0 <= i < a.len() ==> ascii_lower(a[i]) == ascii_lower(#[trigger] b[i])
}

/// The characters that separate pieces of a `Connection` header value.
pub open spec fn is_sep(c: u8) -> bool {
    c == 32 || c == 44
}

/// The bytes of `upgrade`, lowercase.
pub open spec fn upgrade_bytes() -> Seq<u8> {
    seq![117u8, 112u8, 103u8, 114u8, 97u8, 100u8, 101u8]
}

/// The bytes of `websocket`, lowercase.
pub open spec fn websocket_bytes() -> Seq<u8> {
    seq![119u8, 101u8, 98u8, 115u8, 111u8, 99u8, 107u8, 101u8, 116u8]
}

/// The bytes of `13`: the websocket protocol version this server accepts.
pub open spec fn version_13_bytes() -> Seq<u8> {
    seq![49u8, 51u8]
}

/// Whether some piece of the header value, split at spaces and commas,
/// equals `upgrade` up to ASCII case.
pub open spec fn has_upgrade_token(s: Seq<u8>) -> bool {
    exists|i: int|
        0 <= i && i + 7 <= s.len() && (i == 0 || is_sep(s[i - 1])) && (i + 7 == s.len() || is_sep(
            s[i + 7],
        )) && eq_ignore_case(#[trigger] s.subrange(i, i + 7), upgrade_bytes())
}

/// Folds one ASCII byte to lowercase.
fn to_lower(c: u8) -> (r: u8)
    ensures
        r == ascii_lower(c),
{
    if 65 <= c && c <= 90 {
        c + 32
    } else {
        c
    }
}

/// Compares two byte slices up to ASCII case.
fn bytes_eq_ignore_case(a: &[u8], b: &[u8]) -> (r: bool)
    ensures
        r == eq_ignore_case(a@, b@),
{
    if a.len() != b.len() {
        return false;
    }
    let n = a.len();
    let mut i: usize = 0;
    while i < n
        invariant
            n == a@.len(),
            n == b@.len(),
            i <= n,
            forall|j: int| 0 <= j < i ==> ascii_lower(a@[j]) == ascii_lower(#[trigger] b@[j]),
        decreases n - i,
    {
        if to_lower(a[i]) != to_lower(b[i]) {
            return false;
        }
        i = i + 1;
    }
    true
}

/// Whether the piece of `h` starting at `i` is `upgrade` up to case, with a
/// piece boundary on each side.
fn upgrade_piece_at(h: &[u8], i: usize) -> (r: bool)
    requires
        i <= h@.len(),
    ensures
        r == (i + 7 <= h@.len() && (i == 0 || is_sep(h@[i - 1])) && (i + 7 == h@.len() || is_sep(
            h@[i + 7],
        )) && eq_ignore_case(h@.subrange(i as int, i as int + 7), upgrade_bytes())),
{
    if h.len() - i < 7 {
        return false;
    }
    if i > 0 && !(h[i - 1] == 32 || h[i - 1] == 44) {
        return false;
    }
    if i + 7 < h.len() && !(h[i + 7] == 32 || h[i + 7] == 44) {
        return false;
    }
    let piece_matches = to_lower(h[i]) == 117 && to_lower(h[i + 1]) == 112 && to_lower(h[i + 2])
        == 103 && to_lower(h[i + 3]) == 114 && to_lower(h[i + 4]) == 97 && to_lower(h[i + 5])
        == 100 && to_lower(h[i + 6]) == 101;
    proof {
        let piece = h@.subrange(i as int, i as int + 7);
        assert forall|j: int| 0 <= j < 7 implies piece[j] == h@[i + j] by {}
        if piece_matches {
            assert forall|j: int| 0 <= j < 7 implies ascii_lower(piece[j]) == ascii_lower(
                #[trigger] upgrade_bytes()[j],
            ) by {}
        } else {
            assert(!eq_ignore_case(piece, upgrade_bytes())) by {
                if eq_ignore_case(piece, upgrade_bytes()) {
                    assert(ascii_lower(piece[0]) == ascii_lower(upgrade_bytes()[0]));
                    assert(ascii_lower(piece[1]) == ascii_lower(upgrade_bytes()[1]));
                    assert(ascii_lower(piece[2]) == ascii_lower(upgrade_bytes()[2]));
                    assert(ascii_lower(piece[3]) == ascii_lower(upgrade_bytes()[3]));
                    assert(ascii_lower(piece[4]) == ascii_lower(upgrade_bytes()[4]));
                    assert(ascii_lower(piece[5]) == ascii_lower(upgrade_bytes()[5]));
                    assert(ascii_lower(piece[6]) == ascii_lower(upgrade_bytes()[6]));
                }
            }
        }
    }
    piece_matches
}

/// Whether the `Connection` header value names `Upgrade` as one of its
/// comma- or space-separated pieces, case-insensitively.
pub fn connection_has_upgrade(h: &[u8]) -> (r: bool)
    ensures
        r == has_upgrade_token(h@),
{
    let n = h.len();
    let mut i: usize = 0;
    while i < n
        invariant
            n == h@.len(),
            i <= n,
            forall|k: int|
                0 <= k < i ==> !(k + 7 <= h@.len() && (k == 0 || is_sep(h@[k - 1])) && (k + 7
                    == h@.len() || is_sep(h@[k + 7])) && eq_ignore_case(
                    #[trigger] h@.subrange(k, k + 7),
                    upgrade_bytes(),
                )),
        decreases n - i,
    {
        if upgrade_piece_at(h, i) {
            return true;
        }
        i = i + 1;
    }
    false
}

/// Everything an upgrade decision reads from the request, as plain values.
pub struct UpgradeRequest {
    /// The client's `Sec-WebSocket-Key` header value, if present.
    pub key: Option<Vec<u8>>,
    /// Whether the request method is GET.
    pub method_is_get: bool,
    /// Whether the request version is HTTP/1.1 or later.
    pub version_at_least_11: bool,
    /// The `Connection` header value, if present and readable as text.
    pub connection: Option<Vec<u8>>,
    /// The `Upgrade` header value, if present and readable as text.
    pub upgrade: Option<Vec<u8>>,
    /// The `Sec-WebSocket-Version` header value, if present.
    pub version: Option<Vec<u8>>,
}

/// When a request is switched to a websocket: it carries a key, is a GET of
/// at least HTTP/1.1, names `Upgrade` in its `Connection` header, asks to
/// upgrade to `websocket`, and speaks protocol version 13.
pub open spec fn spec_should_upgrade(r: UpgradeRequest) -> bool {
    &&& r.key is Some
    &&& r.method_is_get
    &&& r.version_at_least_11
    &&& r.connection matches Some(c) && has_upgrade_token(c@)
    &&& r.upgrade matches Some(u) && eq_ignore_case(u@, websocket_bytes())
    &&& r.version matches Some(v) && v@ == version_13_bytes()
}

/// Decides the websocket upgrade: the accept token to answer with when the
/// request qualifies, nothing when it must be served as plain HTTP.
pub fn websocket_accept(req: &UpgradeRequest) -> (r: Option<String>)
    ensures
        r is Some <==> spec_should_upgrade(*req),
        r matches Some(s) ==> (req.key matches Some(k) && s@ == accept_key_of(k@)),
{
    let key = match &req.key {
        Some(k) => k,
        None => {
            return None;
        },
    };
    if !req.method_is_get || !req.version_at_least_11 {
        return None;
    }
    match &req.connection {
        Some(c) => {
            if !connection_has_upgrade(c.as_slice()) {
                return None;
            }
        },
        None => {
            return None;
        },
    }
    match &req.upgrade {
        Some(u) => {
            let mut websocket_name: Vec<u8> = Vec::new();
            websocket_name.push(119);
            websocket_name.push(101);
            websocket_name.push(98);
            websocket_name.push(115);
            websocket_name.push(111);
            websocket_name.push(99);
            websocket_name.push(107);
            websocket_name.push(101);
            websocket_name.push(116);
            proof {
                assert(websocket_name@ =~= websocket_bytes());
            }
            if !bytes_eq_ignore_case(u.as_slice(), websocket_name.as_slice()) {
                return None;
            }
        },
        None => {
            return None;
        },
    }
    match &req.version {
        Some(v) => {
            if !(v.len() == 2 && v[0] == 49 && v[1] == 51) {
                proof {
                    assert(v@ != version_13_bytes());
                }
                return None;
            }
            proof {
                assert(v@ =~= version_13_bytes());
            }
        },
        None => {
            return None;
        },
    }
    Some(derive_accept_key(key.as_slice()))
}

} // verus!
