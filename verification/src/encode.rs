//! Response-body encoding for the static dashboard: which content coding the
//! client's `Accept-Encoding` header selects, and the compressed bytes. The
//! header value's exact spelling is echoed in the response, so the choice
//! keeps the capitalization it matched.

use vstd::prelude::*;

verus! {

/// What gzip compression at the default level produces for the given input.
/// The encoder writes a fixed header (zero timestamp), so the output is a
/// function of the input bytes alone.
pub uninterp spec fn gzip_of(data: Seq<u8>) -> Seq<u8>;

/// What deflate compression at the default level produces for the given
/// input: a function of the input bytes alone.
pub uninterp spec fn deflate_of(data: Seq<u8>) -> Seq<u8>;

/// Relies on flate2's `GzEncoder` over a `Vec` at `Compression::default()`:
/// deterministic in the input, failing only if the encoder reports an error.
#[verifier::external_body]
fn gzip_compress(data: &[u8]) -> (r: Option<Vec<u8>>)
    ensures
        r matches Some(v) ==> v@ == gzip_of(data@),
{
    let mut out = Vec::new();
    let mut encoder = flate2::write::GzEncoder::new(&mut out, flate2::Compression::default());
    if std::io::Write::write_all(&mut encoder, data).is_err() {
        return None;
    }
    if encoder.finish().is_err() {
        return None;
    }
    Some(out)
}

/// Relies on flate2's `DeflateEncoder` over a `Vec` at
/// `Compression::default()`: deterministic in the input, failing only if the
/// encoder reports an error.
#[verifier::external_body]
fn deflate_compress(data: &[u8]) -> (r: Option<Vec<u8>>)
    ensures
        r matches Some(v) ==> v@ == deflate_of(data@),
{
    let mut out = Vec::new();
    let mut encoder = flate2::write::DeflateEncoder::new(&mut out, flate2::Compression::default());
    if std::io::Write::write_all(&mut encoder, data).is_err() {
        return None;
    }
    if encoder.finish().is_err() {
        return None;
    }
    Some(out)
}

/// The content coding applied to a response body. The flag keeps the
/// capitalization of the header token that selected it, echoed back in the
/// `Content-Encoding` response header.
#[derive(Clone, Copy, PartialEq, Eq, Debug, Structural)]
pub enum ContentEncoding {
    Identity,
    Gzip { capitalized: bool },
    Deflate { capitalized: bool },
}

/// Whether `needle` occurs as a contiguous substring of `hay`.
pub open spec fn contains_sub(hay: Seq<u8>, needle: Seq<u8>) -> bool {
    exists|i: int|
        0 <= i && i + needle.len() <= hay.len() && #[trigger] hay.subrange(i, i + needle.len())
            == needle
}

/// The bytes of `Gzip` and `gzip`.
pub open spec fn gzip_cap_bytes() -> Seq<u8> {
    seq![71u8, 122u8, 105u8, 112u8]
}

pub open spec fn gzip_bytes() -> Seq<u8> {
    seq![103u8, 122u8, 105u8, 112u8]
}

/// The bytes of `Deflate` and `deflate`.
pub open spec fn deflate_cap_bytes() -> Seq<u8> {
    seq![68u8, 101u8, 102u8, 108u8, 97u8, 116u8, 101u8]
}

pub open spec fn deflate_bytes() -> Seq<u8> {
    seq![100u8, 101u8, 102u8, 108u8, 97u8, 116u8, 101u8]
}

/// Which coding an `Accept-Encoding` value selects, tried in the order the
/// server prefers: `Gzip`, `gzip`, `Deflate`, `deflate`, else none.
pub open spec fn spec_choose_encoding(accept: Option<Seq<u8>>) -> ContentEncoding {
    match accept {
        None => ContentEncoding::Identity,
        Some(a) => {
            if contains_sub(a, gzip_cap_bytes()) {
                ContentEncoding::Gzip { capitalized: true }
            } else if contains_sub(a, gzip_bytes()) {
                ContentEncoding::Gzip { capitalized: false }
            } else if contains_sub(a, deflate_cap_bytes()) {
                ContentEncoding::Deflate { capitalized: true }
            } else if contains_sub(a, deflate_bytes()) {
                ContentEncoding::Deflate { capitalized: false }
            } else {
                ContentEncoding::Identity
            }
        },
    }
}

/// Whether `needle` occurs as a substring of `hay`.
fn contains_bytes(hay: &[u8], needle: &Vec<u8>) -> (r: bool)
    ensures
        r == contains_sub(hay@, needle@),
{
    let m = needle.len();
    let n = hay.len();
    if m > n {
        proof {
            assert(!contains_sub(hay@, needle@)) by {
                if contains_sub(hay@, needle@) {
                    let i = choose|i: int|
                        0 <= i && i + needle@.len() <= hay@.len() && #[trigger] hay@.subrange(
                            i,
                            i + needle@.len(),
                        ) == needle@;
                    assert(false);
                }
            }
        }
        return false;
    }
    let mut i: usize = 0;
    while i <= n - m
        invariant
            n == hay@.len(),
            m == needle@.len(),
            m <= n,
            i <= n - m + 1,
            forall|k: int| 0 <= k < i ==> #[trigger] hay@.subrange(k, k + m) != needle@,
        decreases n - i,
    {
        let mut j: usize = 0;
        let mut matched = true;
        while j < m
            invariant
                n == hay@.len(),
                m == needle@.len(),
                i + m <= n,
                j <= m,
                matched ==> (forall|t: int| 0 <= t < j ==> hay@[i + t] == #[trigger] needle@[t]),
                !matched ==> j == m && (exists|t: int|
                    0 <= t < m && hay@[i + t] != #[trigger] needle@[t]),
            decreases m - j,
        {
            if hay[i + j] != needle[j] {
                proof {
                    assert(hay@[i + j as int] != needle@[j as int]);
                    assert(exists|t: int| 0 <= t < m && hay@[i + t] != #[trigger] needle@[t]);
                }
                matched = false;
                j = m;
            } else {
                j = j + 1;
            }
        }
        proof {
            let piece = hay@.subrange(i as int, i + m);
            assert(forall|t: int| 0 <= t < m ==> piece[t] == hay@[i + t]);
            if matched {
                assert(piece =~= needle@);
            } else {
                let t = choose|t: int| 0 <= t < m && hay@[i + t] != #[trigger] needle@[t];
                assert(piece[t] != needle@[t]);
                assert(piece != needle@);
            }
        }
        if matched {
            return true;
        }
        i = i + 1;
    }
    proof {
        assert forall|k: int| 0 <= k && k + m <= n implies #[trigger] hay@.subrange(k, k + m)
            != needle@ by {}
    }
    false
}

/// Chooses the content coding the header value selects.
pub fn choose_encoding(accept: Option<&Vec<u8>>) -> (r: ContentEncoding)
    ensures
        r == spec_choose_encoding(match accept {
            Some(a) => Some(a@),
            None => None,
        }),
{
    let a = match accept {
        Some(a) => a,
        None => {
            return ContentEncoding::Identity;
        },
    };
    let gzip_cap: Vec<u8> = vec![71, 122, 105, 112];
    let gzip_low: Vec<u8> = vec![103, 122, 105, 112];
    let deflate_cap: Vec<u8> = vec![68, 101, 102, 108, 97, 116, 101];
    let deflate_low: Vec<u8> = vec![100, 101, 102, 108, 97, 116, 101];
    proof {
        assert(gzip_cap@ =~= gzip_cap_bytes());
        assert(gzip_low@ =~= gzip_bytes());
        assert(deflate_cap@ =~= deflate_cap_bytes());
        assert(deflate_low@ =~= deflate_bytes());
    }
    if contains_bytes(a.as_slice(), &gzip_cap) {
        ContentEncoding::Gzip { capitalized: true }
    } else if contains_bytes(a.as_slice(), &gzip_low) {
        ContentEncoding::Gzip { capitalized: false }
    } else if contains_bytes(a.as_slice(), &deflate_cap) {
        ContentEncoding::Deflate { capitalized: true }
    } else if contains_bytes(a.as_slice(), &deflate_low) {
        ContentEncoding::Deflate { capitalized: false }
    } else {
        ContentEncoding::Identity
    }
}

/// Encodes a response body for the client: compresses with the coding its
/// `Accept-Encoding` selects, falling back to the identity bytes when the
/// encoder fails, so a response always goes out.
pub fn encode_body(data: &[u8], accept: Option<&Vec<u8>>) -> (r: (Vec<u8>, ContentEncoding))
    ensures
        ({
            let chosen = spec_choose_encoding(match accept {
                Some(a) => Some(a@),
                None => None,
            });
            match chosen {
                ContentEncoding::Identity => r.1 == chosen && r.0@ == data@,
                ContentEncoding::Gzip { capitalized } => (r.1 == chosen && r.0@ == gzip_of(data@))
                    || (r.1 == (ContentEncoding::Identity) && r.0@ == data@),
                ContentEncoding::Deflate { capitalized } => (r.1 == chosen && r.0@ == deflate_of(
                    data@,
                )) || (r.1 == (ContentEncoding::Identity) && r.0@ == data@),
            }
        }),
{
    let chosen = choose_encoding(accept);
    match chosen {
        ContentEncoding::Identity => (slice_to_vec(data), chosen),
        ContentEncoding::Gzip { capitalized } => match gzip_compress(data) {
            Some(v) => (v, chosen),
            None => (slice_to_vec(data), ContentEncoding::Identity),
        },
        ContentEncoding::Deflate { capitalized } => match deflate_compress(data) {
            Some(v) => (v, chosen),
            None => (slice_to_vec(data), ContentEncoding::Identity),
        },
    }
}

/// Relies on `slice::to_vec`: the copy holds the same bytes.
#[verifier::external_body]
fn slice_to_vec(data: &[u8]) -> (r: Vec<u8>)
    ensures
        r@ == data@,
{
    data.to_vec()
}

} // verus!
