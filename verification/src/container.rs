//! The container of a replay file: a header, the metadata, further blocks,
//! and the packet stream, encrypted and compressed.

use crate::error::{ErrorKind, ErrorView};
use crate::json::{json_text, json_text_at};
use crate::pickle::{bytes_debug, push_bytes_debug};
use crate::text::{text_of, utf8_text};
use crate::wire::{append_range, copy_range, le_u32_at, read_u32};
use std::io::Read;
use cipher::{BlockDecrypt, KeyInit};
use vstd::prelude::*;
use vstd::string::*;
use vstd::utf8::valid_utf8;

verus! {

/// What decrypting one block of eight bytes with Blowfish under a key gives.
pub uninterp spec fn blowfish_decrypt(key: Seq<u8>, block: Seq<u8>) -> Seq<u8>;

/// What inflating a zlib stream gives: the bytes, or nothing where the
/// stream is broken.
pub uninterp spec fn inflated(stream: Seq<u8>) -> Option<Seq<u8>>;

/// The block of eight bytes of the given number in a run of blocks.
pub open spec fn block(bytes: Seq<u8>, i: int) -> Seq<u8> {
    bytes.subrange(8 * i, 8 * i + 8)
}

/// Decrypts each block of eight bytes by itself.
///
/// Wraps `Blowfish::new_from_slice`, which takes a key of 4 to 56 bytes, and
/// `BlockDecrypt::decrypt_blocks` of the `cipher` crate, which decrypts every
/// block of the run in place.
#[verifier::external_body]
fn decrypt_blocks(key: &[u8], data: &[u8]) -> (r: Vec<u8>)
    requires
        4 <= key@.len() <= 56,
        data@.len() % 8 == 0,
    ensures
        r@.len() == data@.len(),
        forall|i: int|
            0 <= i < data@.len() / 8 ==> #[trigger] block(r@, i) == blowfish_decrypt(
                key@,
                block(data@, i),
            ),
{
    let cipher: blowfish::Blowfish = blowfish::Blowfish::new_from_slice(key).unwrap();
    let mut blocks: Vec<_> = data.chunks_exact(8).map(
        |c| cipher::generic_array::GenericArray::clone_from_slice(c),
    ).collect();
    cipher.decrypt_blocks(&mut blocks);
    blocks.concat()
}

/// Inflates a zlib stream.
///
/// Wraps `flate2::read::ZlibDecoder`, read to its end: it gives the bytes of
/// the stream, or fails where the stream is broken.
#[verifier::external_body]
fn inflate(stream: &[u8]) -> (r: Option<Vec<u8>>)
    ensures
        match r {
            Some(bytes) => inflated(stream@) == Some(bytes@),
            None => inflated(stream@) is None,
        },
{
    let mut out = Vec::new();
    flate2::read::ZlibDecoder::new(stream).read_to_end(&mut out).ok().map(|_| out)
}

/// The four bytes that a replay file starts with.
pub open spec fn replay_header() -> Seq<u8> {
    seq![0x12u8, 0x32u8, 0x34u8, 0x11u8]
}

/// The key under which the packet stream of every replay is encrypted.
pub open spec fn replay_key() -> Seq<u8> {
    seq![
        0x29u8,
        0xB7u8,
        0xC9u8,
        0x09u8,
        0x38u8,
        0x3Fu8,
        0x84u8,
        0x88u8,
        0xFAu8,
        0x98u8,
        0xECu8,
        0x4Eu8,
        0x13u8,
        0x19u8,
        0x79u8,
        0xFBu8,
    ]
}

/// The decryption of one block under the key of the replays.
pub open spec fn replay_cipher() -> spec_fn(Seq<u8>) -> Seq<u8> {
    |b: Seq<u8>| blowfish_decrypt(replay_key(), b)
}

/// Two blocks of eight bytes, byte by byte under exclusive or.
pub open spec fn xor8(a: Seq<u8>, b: Seq<u8>) -> Seq<u8> {
    Seq::new(8, |i: int| a[i] ^ b[i])
}

/// A block of eight zero bytes.
pub open spec fn zero_block() -> Seq<u8> {
    Seq::new(8, |i: int| 0u8)
}

/// The last block of a run of blocks, or the zero block where there is
/// none.
pub open spec fn last_block(bytes: Seq<u8>) -> Seq<u8> {
    if bytes.len() < 8 {
        zero_block()
    } else {
        bytes.subrange(bytes.len() - 8, bytes.len() as int)
    }
}

/// The plain text of a run of encrypted blocks, where `d` decrypts one
/// block: each block is decrypted and then joined by exclusive or with the
/// plain block before it, the first one with the zero block.
pub open spec fn unchained(d: spec_fn(Seq<u8>) -> Seq<u8>, cipher: Seq<u8>) -> Seq<u8>
    decreases cipher.len(),
{
    if cipher.len() < 8 {
        Seq::empty()
    } else {
        let before = unchained(d, cipher.take(cipher.len() - 8));
        before + xor8(d(last_block(cipher)), last_block(before))
    }
}

/// The encrypted blocks of a run of plain blocks, where `e` encrypts one
/// block: each block is joined by exclusive or with the plain block before
/// it, the first one with the zero block, and then encrypted.
pub open spec fn chained(e: spec_fn(Seq<u8>) -> Seq<u8>, plain: Seq<u8>) -> Seq<u8>
    decreases plain.len(),
{
    if plain.len() < 8 {
        Seq::empty()
    } else {
        let before = plain.take(plain.len() - 8);
        chained(e, before) + e(xor8(last_block(plain), last_block(before)))
    }
}

/// Whether `d` undoes `e` on every block of eight bytes, and `e` gives
/// blocks of eight bytes.
pub open spec fn undoes(d: spec_fn(Seq<u8>) -> Seq<u8>, e: spec_fn(Seq<u8>) -> Seq<u8>) -> bool {
    forall|b: Seq<u8>| b.len() == 8 ==> (#[trigger] e(b)).len() == 8 && d(e(b)) == b
}

/// Joining a block with another by exclusive or twice gives it back.
proof fn lemma_xor8_twice(a: Seq<u8>, b: Seq<u8>)
    requires
        a.len() == 8,
    ensures
        xor8(xor8(a, b), b) == a,
{
    assert forall|i: int| 0 <= i < 8 implies (#[trigger] xor8(xor8(a, b), b)[i]) == a[i] by {
        let x = a[i];
        let y = b[i];
        assert((x ^ y) ^ y == x) by (bit_vector);
    }
    assert(xor8(xor8(a, b), b) =~= a);
}

/// The chained encryption of whole blocks is as long as the plain text.
proof fn lemma_chained_len(e: spec_fn(Seq<u8>) -> Seq<u8>, plain: Seq<u8>)
    requires
        forall|b: Seq<u8>| b.len() == 8 ==> (#[trigger] e(b)).len() == 8,
        plain.len() % 8 == 0,
    ensures
        chained(e, plain).len() == plain.len(),
    decreases plain.len(),
{
    if plain.len() >= 8 {
        lemma_chained_len(e, plain.take(plain.len() - 8));
    }
}

/// Decrypting what was encrypted gives the plain text back.
///
/// Let `e` encrypt one block and `d` undo it. Then for every plain text of
/// whole blocks, the chained decryption of its chained encryption is the
/// plain text itself.
pub proof fn lemma_decryption_undoes_encryption(
    d: spec_fn(Seq<u8>) -> Seq<u8>,
    e: spec_fn(Seq<u8>) -> Seq<u8>,
    plain: Seq<u8>,
)
    requires
        undoes(d, e),
        plain.len() % 8 == 0,
    ensures
        unchained(d, chained(e, plain)) == plain,
    decreases plain.len(),
{
    if plain.len() >= 8 {
        let before = plain.take(plain.len() - 8);
        let joined = xor8(last_block(plain), last_block(before));
        let cipher = chained(e, plain);
        lemma_chained_len(e, before);
        lemma_decryption_undoes_encryption(d, e, before);
        assert(e(joined).len() == 8);
        assert(cipher.take(cipher.len() - 8) =~= chained(e, before));
        assert(last_block(cipher) =~= e(joined));
        assert(d(e(joined)) == joined);
        lemma_xor8_twice(last_block(plain), last_block(before));
        assert(before + last_block(plain) =~= plain);
    } else {
        assert(plain =~= Seq::empty());
    }
}

/// The key of the replays.
fn key_of_replays() -> (r: Vec<u8>)
    ensures
        r@ == replay_key(),
{
    let key: Vec<u8> = vec![
        0x29,
        0xB7,
        0xC9,
        0x09,
        0x38,
        0x3F,
        0x84,
        0x88,
        0xFA,
        0x98,
        0xEC,
        0x4E,
        0x13,
        0x19,
        0x79,
        0xFB,
    ];
    assert(key@ =~= replay_key());
    key
}

/// A run of blocks with each block joined by exclusive or with the block
/// before it in the result, the first one with the zero block.
pub open spec fn joined(raw: Seq<u8>) -> Seq<u8>
    decreases raw.len(),
{
    if raw.len() < 8 {
        Seq::empty()
    } else {
        let before = joined(raw.take(raw.len() - 8));
        before + xor8(last_block(raw), last_block(before))
    }
}

/// Joining the blocks that `d` gives for the blocks of a cipher text is the
/// chained decryption of the cipher text.
proof fn lemma_joined_is_unchained(d: spec_fn(Seq<u8>) -> Seq<u8>, cipher: Seq<u8>, raw: Seq<u8>)
    requires
        raw.len() == cipher.len(),
        cipher.len() % 8 == 0,
        forall|i: int| 0 <= i < cipher.len() / 8 ==> #[trigger] block(raw, i) == d(block(cipher, i)),
    ensures
        joined(raw) == unchained(d, cipher),
    decreases cipher.len(),
{
    if cipher.len() >= 8 {
        let n = cipher.len() / 8;
        let c = cipher.take(cipher.len() - 8);
        let r = raw.take(raw.len() - 8);
        assert forall|i: int| 0 <= i < c.len() / 8 implies #[trigger] block(r, i) == d(
            block(c, i),
        ) by {
            assert(block(r, i) =~= block(raw, i));
            assert(block(c, i) =~= block(cipher, i));
        }
        lemma_joined_is_unchained(d, c, r);
        assert(last_block(raw) =~= block(raw, n - 1));
        assert(last_block(cipher) =~= block(cipher, n - 1));
    }
}

/// Joins each block of eight bytes by exclusive or with the block before it
/// in the result, the first one with the zero block.
pub fn join_blocks(raw: &[u8]) -> (r: Vec<u8>)
    requires
        raw@.len() % 8 == 0,
    ensures
        r@ == joined(raw@),
{
    let mut out: Vec<u8> = Vec::new();
    let n: usize = raw.len() / 8;
    let mut i: usize = 0;
    assert(raw@.take(0) =~= Seq::empty());
    while i < n
        invariant
            i <= n,
            8 * n == raw@.len(),
            raw@.len() <= usize::MAX,
            out@ == joined(raw@.take(8 * i)),
            out@.len() == 8 * i,
        decreases n - i,
    {
        let ghost before = out@;
        let ghost upto = raw@.take(8 * (i + 1));
        let mut k: usize = 0;
        while k < 8
            invariant
                k <= 8,
                i < n,
                8 * n == raw@.len(),
                raw@.len() <= usize::MAX,
                before.len() == 8 * i,
                out@.len() == 8 * i + k,
                out@.take(8 * i) == before,
                forall|m: int|
                    0 <= m < k ==> out@[8 * i + m] == xor8(block(raw@, i as int), last_block(before))[m],
            decreases 8 - k,
        {
            let previous: u8 = if i == 0 {
                0
            } else {
                out[8 * (i - 1) + k]
            };
            let ghost old_out = out@;
            out.push(raw[8 * i + k] ^ previous);
            proof {
                assert(old_out.take(8 * i) == before);
                assert(out@.take(8 * i) =~= old_out.take(8 * i));
                assert(block(raw@, i as int)[k as int] == raw@[8 * i + k]);
                if i > 0 {
                    assert(old_out[8 * (i - 1) + k] == old_out.take(8 * i)[8 * (i - 1) + k]);
                    assert(last_block(before)[k as int] == before[8 * (i - 1) + k]);
                } else {
                    assert(last_block(before)[k as int] == 0u8);
                }
            }
            k += 1;
        }
        proof {
            assert(upto.take(upto.len() - 8) =~= raw@.take(8 * i));
            assert(last_block(upto) =~= block(raw@, i as int));
            assert(out@ =~= before + xor8(last_block(upto), last_block(before)));
        }
        i += 1;
    }
    assert(raw@.take(8 * n) =~= raw@);
    out
}

/// Decrypts the encrypted part of a replay: whole blocks of eight bytes.
///
/// Each block is decrypted under the key of the replays and then joined by
/// exclusive or with the plain block before it.
pub fn decrypt_stream(cipher: &[u8]) -> (r: Vec<u8>)
    requires
        cipher@.len() % 8 == 0,
    ensures
        r@ == unchained(replay_cipher(), cipher@),
{
    let key = key_of_replays();
    let raw = decrypt_blocks(key.as_slice(), cipher);
    proof {
        assert forall|i: int| 0 <= i < cipher@.len() / 8 implies #[trigger] block(raw@, i)
            == replay_cipher()(block(cipher@, i)) by {}
        lemma_joined_is_unchained(replay_cipher(), cipher@, raw@);
    }
    join_blocks(raw.as_slice())
}

/// Where the blocks end that start at `at`, `count` of them: each is a
/// length of four bytes and then that many bytes. Nothing where the buffer
/// ends before they do.
pub open spec fn blocks_end(bytes: Seq<u8>, at: int, count: nat) -> Option<int>
    decreases count,
{
    if count == 0 {
        Some(at)
    } else if bytes.len() < at + 4 || bytes.len() < at + 4 + le_u32_at(bytes, at) {
        None
    } else {
        blocks_end(bytes, at + 4 + le_u32_at(bytes, at), (count - 1) as nat)
    }
}

/// What the blocks hold that start at `at`, `count` of them, one behind the
/// other without their lengths.
pub open spec fn blocks_content(bytes: Seq<u8>, at: int, count: nat) -> Seq<u8>
    decreases count,
{
    if count == 0 || bytes.len() < at + 4 || bytes.len() < at + 4 + le_u32_at(bytes, at) {
        Seq::empty()
    } else {
        bytes.subrange(at + 4, at + 4 + le_u32_at(bytes, at)) + blocks_content(
            bytes,
            at + 4 + le_u32_at(bytes, at),
            (count - 1) as nat,
        )
    }
}

/// A replay file, unwrapped.
#[derive(Debug)]
pub struct ReplayFile {
    /// The metadata of the battle: the text of a JSON document.
    pub meta: String,
    /// The version of the client, as the metadata names it.
    pub client_version: String,
    /// What the further blocks hold, one behind the other.
    pub unknown: Vec<u8>,
    /// The packet stream.
    pub packet_data: Vec<u8>,
}

/// The mathematical model of an unwrapped replay file.
pub struct ReplayView {
    pub meta: Seq<char>,
    pub client_version: Seq<char>,
    pub unknown: Seq<u8>,
    pub packet_data: Seq<u8>,
}

impl View for ReplayFile {
    type V = ReplayView;

    open spec fn view(&self) -> ReplayView {
        ReplayView {
            meta: self.meta@,
            client_version: self.client_version@,
            unknown: self.unknown@,
            packet_data: self.packet_data@,
        }
    }
}

/// The model of the outcome of unwrapping.
pub open spec fn unwrapped_view(r: Result<ReplayFile, ErrorKind>) -> Result<ReplayView, ErrorView> {
    match r {
        Ok(f) => Ok(f@),
        Err(e) => Err(e@),
    }
}

/// What the part of a replay file behind its blocks gives: eight bytes that
/// are passed over, then the packet stream, encrypted in whole blocks and
/// compressed.
pub open spec fn packet_stream(bytes: Seq<u8>, at: int) -> Result<Seq<u8>, ErrorView> {
    if bytes.len() < at + 8 {
        Err(ErrorView::Incomplete)
    } else if (bytes.len() - (at + 8)) % 8 != 0 {
        Err(ErrorView::DecryptError)
    } else {
        match inflated(unchained(replay_cipher(), bytes.skip(at + 8))) {
            Some(stream) => Ok(stream),
            None => Err(ErrorView::InflateError),
        }
    }
}

/// The version of the client that the metadata of a battle names: the
/// text that the JSON document holds under `clientVersionFromExe`. Metadata
/// that is no JSON document, or holds no text there, names none.
pub open spec fn client_version_in(meta: Seq<char>) -> Option<Seq<char>> {
    json_text_at(meta, "/clientVersionFromExe"@)
}

/// What unwrapping a replay file gives.
///
/// The file is: the four bytes of the header; the number of further blocks;
/// the length of the metadata and the metadata; the further blocks, each a
/// length and that many bytes; eight bytes that are passed over; the packet
/// stream, encrypted and compressed. Numbers and lengths take four bytes,
/// least significant byte first. The metadata must be the text of a JSON
/// document that names the version of the client.
pub open spec fn unwrapped(bytes: Seq<u8>) -> Result<ReplayView, ErrorView> {
    if bytes.len() < 4 {
        Err(ErrorView::Incomplete)
    } else if bytes.subrange(0, 4) != replay_header() {
        Err(ErrorView::InvalidReplayHeader(bytes_debug(bytes.subrange(0, 4))))
    } else if bytes.len() < 12 || bytes.len() < 12 + le_u32_at(bytes, 8) {
        Err(ErrorView::Incomplete)
    } else {
        let meta = bytes.subrange(12, 12 + le_u32_at(bytes, 8));
        let count = le_u32_at(bytes, 4) as nat;
        if !valid_utf8(meta) || client_version_in(text_of(meta)) is None {
            Err(ErrorView::MetadataDecodeError)
        } else {
            match blocks_end(bytes, 12 + le_u32_at(bytes, 8), count) {
                None => Err(ErrorView::Incomplete),
                Some(end) => match packet_stream(bytes, end) {
                    Err(e) => Err(e),
                    Ok(stream) => Ok(
                        ReplayView {
                            meta: text_of(meta),
                            client_version: client_version_in(text_of(meta))->Some_0,
                            unknown: blocks_content(bytes, 12 + le_u32_at(bytes, 8), count),
                            packet_data: stream,
                        },
                    ),
                },
            }
        }
    }
}

/// Reads the blocks that start at `at`, `count` of them: where they end and
/// what they hold, or nothing where the buffer ends before they do.
pub fn read_blocks(bytes: &[u8], at: usize, count: u32) -> (r: Option<(usize, Vec<u8>)>)
    requires
        at <= bytes@.len(),
    ensures
        match r {
            Some((end, content)) => blocks_end(bytes@, at as int, count as nat) == Some(
                end as int,
            ) && end <= bytes@.len() && content@ == blocks_content(
                bytes@,
                at as int,
                count as nat,
            ),
            None => blocks_end(bytes@, at as int, count as nat) is None,
        },
{
    let mut content: Vec<u8> = Vec::new();
    let mut place: usize = at;
    let mut left: u32 = count;
    while left > 0
        invariant
            place <= bytes@.len(),
            blocks_end(bytes@, at as int, count as nat) == blocks_end(
                bytes@,
                place as int,
                left as nat,
            ),
            blocks_content(bytes@, at as int, count as nat) == content@ + blocks_content(
                bytes@,
                place as int,
                left as nat,
            ),
        decreases left,
    {
        if bytes.len() - place < 4 {
            return None;
        }
        let len: u32 = read_u32(bytes, place);
        if bytes.len() - place - 4 < len as usize {
            return None;
        }
        let ghost before = content@;
        append_range(&mut content, bytes, place + 4, place + 4 + len as usize);
        proof {
            assert(blocks_content(bytes@, at as int, count as nat) =~= content@ + blocks_content(
                bytes@,
                place + 4 + len,
                (left - 1) as nat,
            ));
        }
        place = place + 4 + len as usize;
        left -= 1;
    }
    assert(content@ + blocks_content(bytes@, place as int, 0) =~= content@);
    Some((place, content))
}

/// Reads the packet stream behind the blocks of a replay file.
fn read_packet_stream(bytes: &[u8], at: usize) -> (r: Result<Vec<u8>, ErrorKind>)
    requires
        at <= bytes@.len(),
    ensures
        match r {
            Ok(stream) => packet_stream(bytes@, at as int) == Ok::<Seq<u8>, ErrorView>(stream@),
            Err(e) => packet_stream(bytes@, at as int) == Err::<Seq<u8>, ErrorView>(e@),
        },
{
    if bytes.len() - at < 8 {
        return Err(ErrorKind::Incomplete);
    }
    if (bytes.len() - at - 8) % 8 != 0 {
        return Err(ErrorKind::DecryptError);
    }
    let cipher = copy_range(bytes, at + 8, bytes.len());
    assert(cipher@ =~= bytes@.skip(at + 8));
    let plain = decrypt_stream(cipher.as_slice());
    match inflate(plain.as_slice()) {
        Some(stream) => Ok(stream),
        None => Err(ErrorKind::InflateError),
    }
}

impl ReplayFile {
    /// Unwraps the bytes of a replay file: checks the header, takes out the
    /// metadata and the further blocks, and decrypts and inflates the packet
    /// stream. Whatever fails, the file as a whole is refused.
    ///
    /// The metadata is handed out as the text of a JSON document, with the
    /// version of the client that it names; metadata that names none is
    /// refused. What else the document holds is for the reader of that text.
    pub fn from_bytes(contents: &[u8]) -> (r: Result<ReplayFile, ErrorKind>)
        ensures
            unwrapped_view(r) == unwrapped(contents@),
    {
        if contents.len() < 4 {
            return Err(ErrorKind::Incomplete);
        }
        if !(contents[0] == 0x12 && contents[1] == 0x32 && contents[2] == 0x34 && contents[3]
            == 0x11) {
            let mut found = String::new();
            let header = copy_range(contents, 0, 4);
            push_bytes_debug(&mut found, header.as_slice());
            proof {
                assert(contents@.subrange(0, 4) != replay_header()) by {
                    if contents@.subrange(0, 4) == replay_header() {
                        assert(contents@.subrange(0, 4)[0] == contents@[0]);
                        assert(contents@.subrange(0, 4)[1] == contents@[1]);
                        assert(contents@.subrange(0, 4)[2] == contents@[2]);
                        assert(contents@.subrange(0, 4)[3] == contents@[3]);
                    }
                }
                assert(found@ =~= bytes_debug(contents@.subrange(0, 4)));
            }
            return Err(ErrorKind::InvalidReplayHeader(found));
        }
        assert(contents@.subrange(0, 4) =~= replay_header());
        if contents.len() < 12 {
            return Err(ErrorKind::Incomplete);
        }
        let count: u32 = read_u32(contents, 4);
        let meta_len: u32 = read_u32(contents, 8);
        if contents.len() - 12 < meta_len as usize {
            return Err(ErrorKind::Incomplete);
        }
        let blocks_at: usize = 12 + meta_len as usize;
        let meta_bytes = copy_range(contents, 12, blocks_at);
        let (meta, client_version): (String, String) = match utf8_text(meta_bytes.as_slice()) {
            Some(text) => match json_text(text, "/clientVersionFromExe") {
                Some(version) => (String::from_str(text), version),
                None => {
                    return Err(ErrorKind::MetadataDecodeError);
                },
            },
            None => {
                return Err(ErrorKind::MetadataDecodeError);
            },
        };
        match read_blocks(contents, blocks_at, count) {
            None => Err(ErrorKind::Incomplete),
            Some((end, unknown)) => match read_packet_stream(contents, end) {
                Err(e) => Err(e),
                Ok(packet_data) => Ok(ReplayFile { meta, client_version, unknown, packet_data }),
            },
        }
    }
}

} // verus!
