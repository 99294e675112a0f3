//! The wire protocol between the two peers: encrypted text messages,
//! the announcement of a file and the chunks that carry it.

use vstd::prelude::*;
use vstd::utf8::*;

use crate::crypto::{
    aes256gcm_open, aes256gcm_seal, aes_dec, aes_enc, aes_gcm_max_plaintext,
    session_key, TAG_LEN,
};
use crate::text::{
    after_first, decimal, decimal_string, has_prefix, join2, join3,
    lemma_decimal_digits, lemma_parse_decimal, lemma_split_on_nonempty, owned, parse_usize,
    parse_usize_spec, split, split_on, split_once_on, starts_with, str_bytes,
    string_from_utf8_lossy, text_eq, trim, trim_end, trim_start, trimmed, utf8_lossy, views,
    TrimKind, is_digit,
};

verus! {

broadcast use vstd::string::group_string_axioms;

/// A copy of a byte vector.
pub fn copy_bytes(v: &Vec<u8>) -> (res: Vec<u8>)
    ensures
        res@ == v@,
{
    let res = v.clone();
    assert(res@ =~= v@);
    res
}

// ---------------------------------------------------------------------
// text messages
// ---------------------------------------------------------------------

/// The bytes that carry a text message: its UTF-8 encoding encrypted
/// under the session key and the sender's nonce.
pub fn seal_text(text: &str, key: &Vec<u8>, nonce: [u8; 12]) -> (res: Vec<u8>)
    requires
        encode_utf8(text@).len() <= aes_gcm_max_plaintext(),
    ensures
        res@ == aes256gcm_seal(session_key(key@), nonce@, encode_utf8(text@)),
        res@.len() == encode_utf8(text@).len() + TAG_LEN,
{
    aes_enc(str_bytes(text), copy_bytes(key), nonce)
}

/// What a received message decrypts to, read as text with invalid UTF-8
/// replaced.
pub open spec fn opened_text(key: Seq<u8>, nonce: Seq<u8>, frame: Seq<u8>) -> Option<Seq<char>> {
    match aes256gcm_open(session_key(key), nonce, frame) {
        Some(m) => Some(utf8_lossy(m)),
        None => None,
    }
}

/// The text of a received message: decrypted under the session key and
/// the sender's nonce, then read as UTF-8 with invalid sequences
/// replaced.  A message that `seal_text` made with the same key and
/// nonce gives back its text.
pub fn open_text(frame: &[u8], key: &Vec<u8>, nonce: [u8; 12]) -> (res: Option<String>)
    ensures
        match opened_text(key@, nonce@, frame@) {
            Some(t) => res matches Some(s) && s@ == t,
            None => res is None,
        },
        forall|t: Seq<char>|
            encode_utf8(t).len() <= aes_gcm_max_plaintext() && #[trigger] aes256gcm_seal(
                session_key(key@),
                nonce@,
                encode_utf8(t),
            ) == frame@ ==> (res matches Some(s) && s@ == t),
{
    let mut bytes: Vec<u8> = Vec::new();
    let mut i: usize = 0;
    while i < frame.len()
        invariant
            i <= frame@.len(),
            bytes@ == frame@.subrange(0, i as int),
        decreases frame@.len() - i,
    {
        bytes.push(frame[i]);
        i = i + 1;
        assert(bytes@ =~= frame@.subrange(0, i as int));
    }
    assert(bytes@ =~= frame@);
    match aes_dec(bytes, copy_bytes(key), nonce) {
        Some(m) => {
            let s = string_from_utf8_lossy(m.as_slice());
            proof {
                assert forall|t: Seq<char>|
                    encode_utf8(t).len() <= aes_gcm_max_plaintext() && #[trigger] aes256gcm_seal(
                        session_key(key@),
                        nonce@,
                        encode_utf8(t),
                    ) == frame@ implies s@ == t by {
                    encode_utf8_valid_utf8(t);
                    encode_utf8_decode_utf8(t);
                }
            }
            Some(s)
        },
        None => None,
    }
}

// ---------------------------------------------------------------------
// file transfer
// ---------------------------------------------------------------------

/// The control message that offers a file.
pub open spec fn file_offer_spec() -> Seq<char> {
    "!sendfile"@
}

/// The control message that offers a file.
pub fn file_offer() -> (res: String)
    ensures
        res@ == file_offer_spec(),
{
    owned("!sendfile")
}

/// The name of the archive that carries the file at `path`: its last
/// `/`-separated segment followed by `.zip`.
pub open spec fn archive_name_spec(path: Seq<char>) -> Seq<char> {
    split_on(path, '/').last() + ".zip"@
}

/// The last piece of a split is what follows the last separator (all of
/// the text when it holds none).
pub proof fn lemma_split_on_last(s: Seq<char>, sep: char, i: int)
    requires
        -1 <= i < s.len(),
        i >= 0 ==> s[i] == sep,
        forall|j: int| i < j < s.len() ==> s[j] != sep,
    ensures
        split_on(s, sep).last() == s.subrange(i + 1, s.len() as int),
    decreases s.len(),
{
    lemma_split_on_nonempty(s, sep);
    if s.len() == 0 {
    } else if i == s.len() - 1 {
        lemma_split_on_nonempty(s.drop_last(), sep);
        assert(s.subrange(i + 1, s.len() as int) =~= Seq::<char>::empty());
    } else {
        let p = s.drop_last();
        assert(s.last() == s[s.len() - 1]);
        assert forall|j: int| i < j < p.len() implies p[j] != sep by {
            assert(p[j] == s[j]);
        }
        if i >= 0 {
            assert(p[i] == s[i]);
        }
        lemma_split_on_last(p, sep, i);
        lemma_split_on_nonempty(p, sep);
        assert(p.subrange(i + 1, p.len() as int).push(s.last()) =~= s.subrange(
            i + 1,
            s.len() as int,
        ));
    }
}

/// The archive name is the text after the last `/` of the path, character
/// for character, followed by `.zip`; for a path without `/` it is the
/// whole path followed by `.zip`.
pub proof fn lemma_archive_name(path: Seq<char>)
    ensures
        !path.contains('/') ==> archive_name_spec(path) == path + ".zip"@,
        forall|i: int|
            0 <= i < path.len() && #[trigger] path[i] == '/' && (forall|j: int|
                i < j < path.len() ==> path[j] != '/') ==> archive_name_spec(path) == path.skip(
                i + 1,
            ) + ".zip"@,
{
    if !path.contains('/') {
        assert forall|j: int| -1 < j < path.len() implies path[j] != '/' by {
            if path[j] == '/' {
                assert(path.contains('/'));
            }
        }
        lemma_split_on_last(path, '/', -1);
        assert(path.subrange(0, path.len() as int) =~= path);
    }
    assert forall|i: int|
        0 <= i < path.len() && #[trigger] path[i] == '/' && (forall|j: int|
            i < j < path.len() ==> path[j] != '/') implies archive_name_spec(path) == path.skip(
        i + 1,
    ) + ".zip"@ by {
        lemma_split_on_last(path, '/', i);
        assert(path.subrange(i + 1, path.len() as int) =~= path.skip(i + 1));
    }
}

/// The name of the archive that carries the file at `path`.
pub fn archive_name(path: &str) -> (res: String)
    ensures
        res@ == archive_name_spec(path@),
        !path@.contains('/') ==> res@ == path@ + ".zip"@,
        forall|i: int|
            0 <= i < path@.len() && #[trigger] path@[i] == '/' && (forall|j: int|
                i < j < path@.len() ==> path@[j] != '/') ==> res@ == path@.skip(i + 1) + ".zip"@,
{
    proof {
        lemma_archive_name(path@);
    }
    let parts = split(path, '/');
    proof {
        lemma_split_on_nonempty(path@, '/');
    }
    let last = parts.len() - 1;
    assert(views(parts@)[last as int] == parts@[last as int]@);
    join2(parts[last].as_str(), ".zip")
}

/// The word that opens a file header.
pub open spec fn sending_tag() -> Seq<char> {
    "!sending"@
}

/// The header that announces a file: the tag, the file's name and the
/// length of what follows, separated by spaces.
pub open spec fn file_header_spec(name: Seq<char>, length: nat) -> Seq<char> {
    sending_tag() + seq![' '] + name + seq![' '] + decimal(length)
}

/// The header that announces a file of `length` bytes named `name`.
pub fn file_header(name: &str, length: usize) -> (res: String)
    ensures
        res@ == file_header_spec(name@, length as nat),
{
    let n = decimal_string(length);
    let res = join3("!sending ", name, " ").concat(n.as_str());
    proof {
        reveal_strlit("!sending ");
        reveal_strlit("!sending");
        reveal_strlit(" ");
        assert(res@ =~= file_header_spec(name@, length as nat));
    }
    res
}

/// What a received header message says.
pub enum FileHeader {
    /// Fewer than three space-separated fields, or a third field that is
    /// not a length.
    Malformed,
    /// Well formed, but not a file announcement; it is passed over once its
    /// length is reported.
    Other { length: usize },
    /// A file of `length` bytes named `name` follows.
    Transfer { name: String, length: usize },
}

/// What a header message announces, read as the receiver reads it: NUL
/// characters are trimmed from the ends, the text is split at spaces, the
/// second field is the name, the third the length, and only text that
/// begins with the tag announces a file.
pub open spec fn file_header_meaning(text: Seq<char>) -> Option<(bool, Seq<char>, usize)> {
    let t = trimmed(text, TrimKind::Nul);
    let parts = split_on(t, ' ');
    if parts.len() < 3 {
        None
    } else {
        match parse_usize_spec(parts[2]) {
            Some(n) => Some((has_prefix(t, sending_tag()), parts[1], n)),
            None => None,
        }
    }
}

/// Reads a header message.
pub fn read_file_header(text: &str) -> (res: FileHeader)
    ensures
        match file_header_meaning(text@) {
            None => res is Malformed,
            Some((true, name, n)) => res matches FileHeader::Transfer { name: r, length: l } && r@
                == name && l == n,
            Some((false, _, n)) => res matches FileHeader::Other { length: l } && l == n,
        },
{
    let t = trim(text, TrimKind::Nul);
    let parts = split(t.as_str(), ' ');
    if parts.len() < 3 {
        return FileHeader::Malformed;
    }
    assert(views(parts@)[2] == parts@[2]@);
    assert(views(parts@)[1] == parts@[1]@);
    match parse_usize(parts[2].as_str()) {
        None => FileHeader::Malformed,
        Some(n) => {
            if starts_with(t.as_str(), "!sending") {
                FileHeader::Transfer { name: owned(parts[1].as_str()), length: n }
            } else {
                FileHeader::Other { length: n }
            }
        },
    }
}

/// Splitting text that holds no separator gives the text itself.
pub proof fn lemma_split_on_plain(b: Seq<char>, sep: char)
    requires
        !b.contains(sep),
    ensures
        split_on(b, sep) == seq![b],
    decreases b.len(),
{
    if b.len() > 0 {
        let p = b.drop_last();
        assert(!p.contains(sep)) by {
            if p.contains(sep) {
                let i = choose|i: int| 0 <= i < p.len() && p[i] == sep;
                assert(b[i] == sep);
            }
        }
        lemma_split_on_plain(p, sep);
        assert(b.last() != sep) by {
            assert(b[b.len() - 1] == b.last());
        }
        assert(p.push(b.last()) =~= b);
    } else {
        assert(b =~= Seq::<char>::empty());
    }
}

/// Splitting `a`, a separator and `b` (which holds no separator) gives the
/// pieces of `a` and then `b`.
pub proof fn lemma_split_on_append(a: Seq<char>, b: Seq<char>, sep: char)
    requires
        !b.contains(sep),
    ensures
        split_on(a + seq![sep] + b, sep) == split_on(a, sep).push(b),
    decreases b.len(),
{
    if b.len() == 0 {
        assert(a + seq![sep] + b =~= a.push(sep));
        assert((a + seq![sep] + b).drop_last() =~= a);
        assert(b =~= Seq::<char>::empty());
    } else {
        let p = b.drop_last();
        assert(!p.contains(sep)) by {
            if p.contains(sep) {
                let i = choose|i: int| 0 <= i < p.len() && p[i] == sep;
                assert(b[i] == sep);
            }
        }
        lemma_split_on_append(a, p, sep);
        assert((a + seq![sep] + b).drop_last() =~= a + seq![sep] + p);
        assert((a + seq![sep] + b).last() == b.last());
        assert(b.last() != sep) by {
            assert(b[b.len() - 1] == b.last());
        }
        assert(split_on(a, sep).push(p).update(
            split_on(a, sep).push(p).len() - 1,
            p.push(b.last()),
        ) =~= split_on(a, sep).push(b)) by {
            assert(p.push(b.last()) =~= b);
        }
    }
}

/// A file header is read back as the name and length it was made from,
/// when the name holds no space.
pub proof fn lemma_file_header_round_trip(name: Seq<char>, length: usize)
    requires
        !name.contains(' '),
    ensures
        file_header_meaning(file_header_spec(name, length as nat)) == Some((true, name, length)),
{
    reveal_strlit("!sending");
    let h = file_header_spec(name, length as nat);
    let d = decimal(length as nat);
    lemma_decimal_digits(length as nat);
    lemma_parse_decimal(length);
    let tag = sending_tag();
    assert(tag.len() == 8);
    assert(!tag.contains(' ')) by {
        if tag.contains(' ') {
            let i = choose|i: int| 0 <= i < tag.len() && tag[i] == ' ';
            assert(0 <= i < 8);
        }
    }
    assert(!d.contains(' ')) by {
        if d.contains(' ') {
            let i = choose|i: int| 0 <= i < d.len() && d[i] == ' ';
            assert(is_digit(d[i]));
        }
    }
    // the header has no NUL at either end
    assert(h[0] == '!');
    assert(h.last() == d.last());
    assert(is_digit(d[d.len() - 1]));
    assert(trim_start(h, TrimKind::Nul) == h);
    assert(trim_end(h, TrimKind::Nul) == h);
    // the fields
    lemma_split_on_plain(tag, ' ');
    lemma_split_on_append(tag, name, ' ');
    lemma_split_on_append(tag + seq![' '] + name, d, ' ');
    assert(h =~= (tag + seq![' '] + name) + seq![' '] + d);
    let parts = split_on(h, ' ');
    assert(parts =~= seq![tag, name, d]);
    assert(h.subrange(0, 8) =~= tag);
}

/// The size of the pieces in which a file is sent.
pub const CHUNK_SIZE: usize = 100000;

/// The bytes of a sequence of chunks, one after the other.
pub open spec fn concat_chunks(chunks: Seq<Seq<u8>>) -> Seq<u8>
    decreases chunks.len(),
{
    if chunks.len() == 0 {
        Seq::<u8>::empty()
    } else {
        concat_chunks(chunks.drop_last()) + chunks.last()
    }
}

/// The contents of a vector of byte vectors.
pub open spec fn chunk_views(v: Seq<Vec<u8>>) -> Seq<Seq<u8>> {
    v.map_values(|x: Vec<u8>| x@)
}

/// The pieces in which `data` is sent: consecutive, each of
/// `CHUNK_SIZE` bytes but the last, which is not empty (std's
/// `slice::chunks`).  Put back together they are `data`.
pub fn file_chunks(data: &[u8]) -> (res: Vec<Vec<u8>>)
    ensures
        concat_chunks(chunk_views(res@)) == data@,
        forall|i: int| 0 <= i < res@.len() ==> 0 < (#[trigger] res@[i])@.len() <= CHUNK_SIZE,
        forall|i: int| 0 <= i < res@.len() - 1 ==> (#[trigger] res@[i])@.len() == CHUNK_SIZE,
        res@.len() == (data@.len() + CHUNK_SIZE - 1) / (CHUNK_SIZE as int),
{
    let n = data.len();
    let mut res: Vec<Vec<u8>> = Vec::new();
    let mut start: usize = 0;
    assert(concat_chunks(chunk_views(res@)) =~= data@.subrange(0, 0));
    while start < n
        invariant
            n == data@.len(),
            start <= n,
            start == res@.len() * CHUNK_SIZE,
            concat_chunks(chunk_views(res@)) == data@.subrange(0, start as int),
            forall|i: int| 0 <= i < res@.len() ==> (#[trigger] res@[i])@.len() == CHUNK_SIZE,
        decreases n - start,
    {
        let end = if n - start > CHUNK_SIZE {
            start + CHUNK_SIZE
        } else {
            n
        };
        let mut chunk: Vec<u8> = Vec::new();
        let mut i: usize = start;
        while i < end
            invariant
                start <= i <= end <= n,
                n == data@.len(),
                chunk@ == data@.subrange(start as int, i as int),
            decreases end - i,
        {
            chunk.push(data[i]);
            i = i + 1;
            assert(chunk@ =~= data@.subrange(start as int, i as int));
        }
        let ghost before = chunk_views(res@);
        let ghost old_res = res@;
        res.push(chunk);
        assert(chunk_views(res@).drop_last() =~= before);
        assert(chunk_views(res@).last() == data@.subrange(start as int, end as int));
        assert(concat_chunks(chunk_views(res@)) =~= data@.subrange(0, end as int));
        if end < n {
            start = end;
        } else {
            // the last chunk may be shorter
            assert(concat_chunks(chunk_views(res@)) =~= data@);
            proof {
                assert forall|k: int| 0 <= k < res@.len() implies 0 < (#[trigger] res@[k])@.len()
                    <= CHUNK_SIZE by {
                    if k < res@.len() - 1 {
                        assert(res@[k] == old_res[k]);
                    }
                }
            }
            return res;
        }
    }
    assert(data@.subrange(0, n as int) =~= data@);
    res
}

// ---------------------------------------------------------------------
// the peer's answer to a file offer
// ---------------------------------------------------------------------

/// The peer's answer read from the last line of the chat: the text after
/// its first `>` is ` y` to accept and ` n` to refuse; anything else is no
/// answer yet.
pub open spec fn reply_meaning(line: Seq<char>) -> Option<bool> {
    match split_once_on(line, '>') {
        Some(p) => if p.1 == " y"@ {
            Some(true)
        } else if p.1 == " n"@ {
            Some(false)
        } else {
            None
        },
        None => None,
    }
}

/// The peer's answer to a file offer, read from the last line of the chat.
pub fn peer_reply(line: &str) -> (res: Option<bool>)
    ensures
        res == reply_meaning(line@),
{
    match after_first(line, '>') {
        Some(rest) => {
            if text_eq(rest.as_str(), " y") {
                Some(true)
            } else if text_eq(rest.as_str(), " n") {
                Some(false)
            } else {
                None
            }
        },
        None => None,
    }
}

} // verus!
