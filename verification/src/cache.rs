//! Where the cache keeps an archive: a place that its URL and its digest determine.

use crate::digest;
use crate::path;
use vstd::prelude::*;
use vstd::string::*;
use vstd::utf8::*;

verus! {

/// The bytes of a URL followed by those of a digest.
pub open spec fn message(url: Seq<char>, hash: Seq<char>) -> Seq<u8> {
    encode_utf8(url) + encode_utf8(hash)
}

/// Whether the bytes of a URL and a digest are few enough to be hashed together.
pub open spec fn can_be_hashed(url: Seq<char>, hash: Seq<char>) -> bool {
    message(url, hash).len() < digest::SHA256_LIMIT
}

/// The key of an archive: the SHA-256 digest of its URL and its digest, in hexadecimal.
pub open spec fn key(url: Seq<char>, hash: Seq<char>) -> Seq<char> {
    digest::hex(digest::sha256(message(url, hash)))
}

/// The first five characters of a key.
pub open spec fn head(key: Seq<char>) -> Seq<char> {
    key.subrange(0, 5)
}

/// The last five characters of a key.
pub open spec fn tail(key: Seq<char>) -> Seq<char> {
    key.subrange(key.len() - 5, key.len() as int)
}

/// The path of a key below the directory `base`: two levels of directories, named after
/// the first and the last five characters of the key, hold a file named by the key.
pub open spec fn place(base: Seq<char>, key: Seq<char>) -> Seq<char> {
    path::joined(path::joined(path::joined(base, head(key)), tail(key)), key)
}

/// Computes the key of an archive.
pub fn key_of(url: &str, hash: &str) -> (key: String)
    requires
        can_be_hashed(url@, hash@),
    ensures
        key@ == self::key(url@, hash@),
        key@.len() == 64,
        is_ascii_chars(key@),
{
    let mut hasher = digest::new_hasher();
    digest::feed(&mut hasher, url.as_bytes());
    digest::feed(&mut hasher, hash.as_bytes());
    assert(digest::absorbed(hasher) =~= message(url@, hash@));
    let digest = digest::finish(hasher);
    proof {
        digest::lemma_hex_is_ascii(digest@);
    }
    digest::encode_hex(digest.as_slice())
}

/// Computes the path of a key below a directory.
pub fn place_of(base: &str, key: &str) -> (path: String)
    requires
        key@.len() >= 5,
        is_ascii_chars(key@),
    ensures
        path@ == place(base@, key@),
{
    let len: usize = key.unicode_len();
    let shard = path::join(base, key.substring_ascii(0, 5));
    let shard = path::join(shard.as_str(), key.substring_ascii(len - 5, len));
    path::join(shard.as_str(), key)
}

/// Below any directory, two digests of 32 bytes have the same place only if they are the
/// same.
pub proof fn lemma_place_determines_digest(base: Seq<char>, a: Seq<u8>, b: Seq<u8>)
    requires
        a.len() == 32,
        b.len() == 32,
        place(base, digest::hex(a)) == place(base, digest::hex(b)),
    ensures
        a == b,
{
    let ka = digest::hex(a);
    let kb = digest::hex(b);
    assert(ka.len() == 64 && kb.len() == 64);
    path::lemma_joined_ends_in_part(path::joined(path::joined(base, head(ka)), tail(ka)), ka);
    path::lemma_joined_ends_in_part(path::joined(path::joined(base, head(kb)), tail(kb)), kb);
    digest::lemma_hex_determines_bytes(a, b);
}

/// Where only the URL or only the digest of an archive changes, what is hashed for its key
/// changes.
pub proof fn lemma_change_of_url_or_hash_changes_message(
    url: Seq<char>,
    hash: Seq<char>,
    new_url: Seq<char>,
    new_hash: Seq<char>,
)
    requires
        (url != new_url && hash == new_hash) || (url == new_url && hash != new_hash),
    ensures
        message(url, hash) != message(new_url, new_hash),
{
    let m = message(url, hash);
    let n = message(new_url, new_hash);
    if m == n {
        encode_utf8_decode_utf8(url);
        encode_utf8_decode_utf8(new_url);
        encode_utf8_decode_utf8(hash);
        encode_utf8_decode_utf8(new_hash);
        if hash == new_hash {
            let len = encode_utf8(url).len();
            assert(len == encode_utf8(new_url).len());
            assert(encode_utf8(url) =~= m.take(len as int));
            assert(encode_utf8(new_url) =~= n.take(len as int));
        } else {
            let len = encode_utf8(url).len();
            assert(encode_utf8(hash) =~= m.skip(len as int));
            assert(encode_utf8(new_hash) =~= n.skip(len as int));
        }
    }
}

/// Where digests are of one length in bytes, what is hashed for a key changes with the URL and
/// with the digest, whether one of them changes or both.
pub proof fn lemma_message_is_unique_among_equally_long_hashes(
    url: Seq<char>,
    hash: Seq<char>,
    new_url: Seq<char>,
    new_hash: Seq<char>,
)
    requires
        encode_utf8(hash).len() == encode_utf8(new_hash).len(),
        url != new_url || hash != new_hash,
    ensures
        message(url, hash) != message(new_url, new_hash),
{
    let m = message(url, hash);
    let n = message(new_url, new_hash);
    if m == n {
        encode_utf8_decode_utf8(url);
        encode_utf8_decode_utf8(new_url);
        encode_utf8_decode_utf8(hash);
        encode_utf8_decode_utf8(new_hash);
        let len = encode_utf8(url).len() as int;
        assert(m.len() == len + encode_utf8(hash).len());
        assert(n.len() == encode_utf8(new_url).len() + encode_utf8(new_hash).len());
        assert(encode_utf8(url) =~= m.take(len));
        assert(encode_utf8(new_url) =~= n.take(len));
        assert(encode_utf8(hash) =~= m.skip(len));
        assert(encode_utf8(new_hash) =~= n.skip(len));
    }
}

/// The parts of a key without separators are no absolute paths and end in no separator.
proof fn lemma_head_and_tail(key: Seq<char>)
    requires
        key.len() >= 5,
        !key.contains('/'),
    ensures
        head(key).len() == 5,
        head(key)[0] != '/',
        head(key).last() != '/',
        tail(key).len() == 5,
        tail(key)[0] != '/',
        tail(key).last() != '/',
        key[0] != '/',
{
}

/// A relative place read from a directory is the place below that directory.
pub proof fn lemma_place_is_relative(base: Seq<char>, key: Seq<char>)
    requires
        key.len() >= 5,
        !key.contains('/'),
    ensures
        path::joined(base, place(Seq::empty(), key)) == place(base, key),
{
    lemma_head_and_tail(key);
    let none = Seq::<char>::empty();
    assert(path::joined(none, head(key)) =~= head(key));
    assert(place(none, key) =~= head(key).push('/') + tail(key).push('/') + key);
    assert(path::joined(base, place(none, key)) =~= place(base, key));
}

/// Hexadecimal text holds no separator.
pub proof fn lemma_hex_holds_no_separator(bytes: Seq<u8>)
    ensures
        !digest::hex(bytes).contains('/'),
{
    assert forall|i: int| 0 <= i < digest::hex(bytes).len() implies #[trigger] digest::hex(
        bytes,
    )[i] != '/' by {
        let v = if i % 2 == 0 {
            bytes[i / 2] as int / 16
        } else {
            bytes[i / 2] as int % 16
        };
        assert(0 <= v < 16);
    }
}

/// The directory that holds a key in its place is the one named after the last five
/// characters of the key, in the one named after the first five.
pub proof fn lemma_parent_of_place(base: Seq<char>, key: Seq<char>)
    requires
        key.len() >= 5,
        !key.contains('/'),
    ensures
        path::parent_dir(place(base, key)) == Some(
            path::joined(path::joined(base, head(key)), tail(key)),
        ),
{
    lemma_head_and_tail(key);
    let above = path::joined(base, head(key));
    assert(above.last() == head(key).last());
    assert(!tail(key).contains('/')) by {
        assert(forall|i: int| 0 <= i < 5 ==> tail(key)[i] == key[key.len() - 5 + i]);
    }
    assert(path::joined(above, tail(key)) =~= above.push('/') + tail(key));
    path::lemma_parent_of_joined(above, tail(key), key);
}

/// Below any directory, the place of an archive changes as soon as what is hashed for its
/// key does, unless SHA-256 digests the old bytes and the new ones alike.
pub proof fn lemma_place_changes_with_message(
    base: Seq<char>,
    url: Seq<char>,
    hash: Seq<char>,
    new_url: Seq<char>,
    new_hash: Seq<char>,
)
    requires
        message(url, hash) != message(new_url, new_hash),
        digest::sha256(message(url, hash)) == digest::sha256(message(new_url, new_hash))
            ==> message(url, hash) == message(new_url, new_hash),
        key(url, hash).len() == 64,
        key(new_url, new_hash).len() == 64,
    ensures
        place(base, key(url, hash)) != place(base, key(new_url, new_hash)),
{
    if place(base, key(url, hash)) == place(base, key(new_url, new_hash)) {
        lemma_place_determines_digest(
            base,
            digest::sha256(message(url, hash)),
            digest::sha256(message(new_url, new_hash)),
        );
    }
}

/// What is hashed for a key begins with all bytes of the URL and goes on with all bytes of the
/// digest, and that is all; it can be hashed exactly when these are fewer than two to the
/// sixty-first.
pub proof fn lemma_message(url: Seq<char>, hash: Seq<char>)
    ensures
        ({
            let cut = encode_utf8(url).len() as int;
            &&& message(url, hash).len() == cut + encode_utf8(hash).len()
            &&& message(url, hash).take(cut) == encode_utf8(url)
            &&& message(url, hash).skip(cut) == encode_utf8(hash)
            &&& can_be_hashed(url, hash) <==> cut + encode_utf8(hash).len()
                < 0x2000_0000_0000_0000
            &&& key(url, hash) == digest::hex(
                digest::sha256(encode_utf8(url) + encode_utf8(hash)),
            )
        }),
{
    let cut = encode_utf8(url).len() as int;
    assert(message(url, hash).take(cut) =~= encode_utf8(url));
    assert(message(url, hash).skip(cut) =~= encode_utf8(hash));
    assert(message(url, hash) =~= encode_utf8(url) + encode_utf8(hash));
}

/// The place of a key is read from the directory that it is below: the first five characters
/// of the key, its last five, and the whole key, with separators between them.
pub proof fn lemma_place(base: Seq<char>, key: Seq<char>)
    requires
        key.len() >= 5,
        !key.contains('/'),
    ensures
        place(base, key) == path::joined(
            base,
            key.take(5).push('/') + key.skip(key.len() - 5).push('/') + key,
        ),
{
    lemma_head_and_tail(key);
    lemma_place_is_relative(base, key);
    let none = Seq::<char>::empty();
    assert(head(key) =~= key.take(5));
    assert(tail(key) =~= key.skip(key.len() - 5));
    assert(path::joined(none, head(key)) =~= head(key));
    assert(place(none, key) =~= key.take(5).push('/') + key.skip(key.len() - 5).push('/') + key);
}

} // verus!
