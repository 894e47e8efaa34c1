//! The lexer for nul-terminated, UTF-8-tolerant strings.

use crate::reader::{read_u8, reader_bytes};
use core::str::Utf8Error;
use parsenic::Reader;
use vstd::prelude::*;
use vstd::slice::slice_subrange;
use vstd::string::StringExecFns;
use vstd::utf8::{
    char_is_scalar, decode_utf8, encode_scalar, encode_utf8, encode_utf8_decode_utf8,
    encode_utf8_first_scalar, encode_utf8_valid_utf8, length_of_first_scalar, pop_first_scalar,
    valid_first_scalar, valid_utf8,
};

verus! {

/// `core::str::Utf8Error`, the error of a failed UTF-8 check.
#[verifier::external_type_specification]
#[verifier::external_body]
pub struct ExUtf8Error(Utf8Error);

/// What `Utf8Error::error_len` returns for an error: `None` where the input
/// ended inside a sequence, the length of the offending sequence otherwise.
pub uninterp spec fn utf8_error_len(error: Utf8Error) -> Option<usize>;

/// True when some continuation makes `bytes` into well-formed UTF-8.
pub open spec fn utf8_prefix(bytes: Seq<u8>) -> bool {
    exists|rest: Seq<u8>| valid_utf8(#[trigger] (bytes + rest))
}

/// `core::str::from_utf8`: succeeds exactly on well-formed UTF-8, with the
/// text that the bytes encode. Its error has no length exactly where the
/// input ended too early, that is where more bytes could still complete it.
pub assume_specification[ core::str::from_utf8 ](v: &[u8]) -> (r: Result<&str, Utf8Error>)
    ensures
        r is Ok <==> valid_utf8(v@),
        r matches Ok(s) ==> s@ == decode_utf8(v@),
        r matches Err(e) ==> (utf8_error_len(e) is None <==> utf8_prefix(v@)),
;

/// `Utf8Error::error_len`.
pub assume_specification[ Utf8Error::error_len ](error: &Utf8Error) -> (r: Option<usize>)
    ensures
        r == utf8_error_len(*error),
;

/// The text that `String::from_utf8_lossy` makes of bytes that are not
/// well-formed UTF-8.
pub uninterp spec fn utf8_repaired(bytes: Seq<u8>) -> Seq<char>;

/// The text of bytes that are taken for UTF-8 whatever they hold: what they
/// encode where they are well-formed, and a repaired text where not.
pub open spec fn lossy_text(bytes: Seq<u8>) -> Seq<char> {
    if valid_utf8(bytes) {
        decode_utf8(bytes)
    } else {
        utf8_repaired(bytes)
    }
}

/// `String::from_utf8_lossy`: well-formed UTF-8 comes out as the text that
/// it encodes; of other bytes only this is claimed, that the text depends on
/// the bytes alone.
#[verifier::external_body]
pub(crate) fn string_from_utf8_lossy(bytes: &[u8]) -> (text: String)
    ensures
        valid_utf8(bytes@) ==> text@ == decode_utf8(bytes@),
        !valid_utf8(bytes@) ==> text@ == utf8_repaired(bytes@),
{
    String::from_utf8_lossy(bytes).into_owned()
}

/// The character that stands for bytes that are not UTF-8.
pub open spec fn replacement() -> char {
    '\u{FFFD}'
}

/// The text that the lexer yields for `bytes` when their first `held` bytes
/// are pending, that is read but not yet decided.
///
/// The next byte ends the text if it is zero or missing. Otherwise it joins
/// the pending bytes: if they now form well-formed UTF-8 their text is
/// yielded, if more bytes could still complete them they stay pending, and
/// if not they are dropped for one replacement character.
pub open spec fn lex(bytes: Seq<u8>, held: nat) -> Seq<char>
    decreases bytes.len(), bytes.len() - held,
{
    if held >= bytes.len() || bytes[held as int] == 0 {
        seq![]
    } else {
        let unit = bytes.subrange(0, held as int + 1);
        if valid_utf8(unit) {
            decode_utf8(unit) + lex(bytes.skip(held as int + 1), 0)
        } else if utf8_prefix(unit) {
            lex(bytes, held + 1)
        } else {
            seq![replacement()] + lex(bytes.skip(held as int + 1), 0)
        }
    }
}

/// The position of the first zero byte of `bytes`, or their length if none
/// is zero.
pub open spec fn terminator(bytes: Seq<u8>) -> nat
    decreases bytes.len(),
{
    if bytes.len() == 0 || bytes[0] == 0 {
        0
    } else {
        1 + terminator(bytes.skip(1))
    }
}

/// The text of the nul-terminated string at the start of `bytes`.
pub open spec fn strz_text(bytes: Seq<u8>) -> Seq<char> {
    lex(bytes, 0)
}

/// The number of bytes that the string at the start of `bytes` takes up, its
/// terminator included where there is one.
pub open spec fn strz_len(bytes: Seq<u8>) -> nat {
    if terminator(bytes) < bytes.len() {
        terminator(bytes) + 1
    } else {
        bytes.len()
    }
}

/// The bytes of `bytes` that follow the string at its start.
pub open spec fn strz_rest(bytes: Seq<u8>) -> Seq<u8> {
    bytes.skip(strz_len(bytes) as int)
}

/// The first zero byte is where a byte is zero and none before it is.
proof fn lemma_terminator_at(bytes: Seq<u8>, at: int)
    requires
        0 <= at <= bytes.len(),
        forall|i: int| 0 <= i < at ==> bytes[i] != 0,
        at == bytes.len() || bytes[at] == 0,
    ensures
        terminator(bytes) == at,
    decreases at,
{
    if at > 0 {
        let tail = bytes.skip(1);
        assert forall|i: int| 0 <= i < at - 1 implies tail[i] != 0 by {
            assert(tail[i] == bytes[i + 1]);
        }
        lemma_terminator_at(tail, at - 1);
    }
}

/// Pending bytes that could still be completed, and of which no leading part
/// is well-formed by itself, are at most three.
proof fn lemma_pending_is_short(pending: Seq<u8>)
    requires
        pending.len() >= 1,
        utf8_prefix(pending),
        forall|k: int| 1 <= k <= pending.len() ==> !valid_utf8(#[trigger] pending.subrange(0, k)),
    ensures
        pending.len() <= 3,
{
    let rest = choose|rest: Seq<u8>| valid_utf8(#[trigger] (pending + rest));
    let whole = pending + rest;
    reveal_with_fuel(valid_utf8, 2);
    let n = length_of_first_scalar(whole);
    assert(valid_first_scalar(whole));
    assert(1 <= n <= 4 && n <= whole.len());
    if n <= pending.len() {
        let first = whole.subrange(0, n);
        assert(valid_first_scalar(first));
        assert(pop_first_scalar(first) =~= Seq::<u8>::empty());
        assert(valid_utf8(first));
        assert(first =~= pending.subrange(0, n));
    }
}

/// The encoding of one character is one to four bytes of well-formed UTF-8
/// that decode to the character, no shorter leading part of it is
/// well-formed, and only the character zero has a zero byte in it.
proof fn lemma_scalar_encoding(c: char)
    ensures
        ({
            let e = encode_utf8(seq![c]);
            &&& 1 <= e.len() <= 4
            &&& valid_utf8(e)
            &&& decode_utf8(e) == seq![c]
            &&& forall|k: int| 1 <= k < e.len() ==> !valid_utf8(#[trigger] e.subrange(0, k))
            &&& c != '\0' ==> forall|i: int| 0 <= i < e.len() ==> e[i] != 0
        }),
{
    let chars = seq![c];
    let e = encode_utf8(chars);
    reveal_with_fuel(encode_utf8, 2);
    assert(chars.drop_first() =~= Seq::<char>::empty());
    assert(e =~= encode_scalar(c as u32));
    encode_utf8_first_scalar(chars);
    encode_utf8_valid_utf8(chars);
    encode_utf8_decode_utf8(chars);
    char_is_scalar(c);
    assert forall|k: int| 1 <= k < e.len() implies !valid_utf8(#[trigger] e.subrange(0, k)) by {
        let p = e.subrange(0, k);
        assert(p[0] == e[0]);
        reveal_with_fuel(valid_utf8, 1);
    }
    if c != '\0' {
        let b = e[0];
        let v = c as u32;
        assert(b == 0 ==> (b & 0x7F) as u32 == 0) by (bit_vector);
        assert(v != 0);
    }
}

/// The encoding of a text without the character zero has no zero byte.
proof fn lemma_encoding_has_no_nul(text: Seq<char>)
    requires
        forall|i: int| 0 <= i < text.len() ==> text[i] != '\0',
    ensures
        forall|i: int| 0 <= i < encode_utf8(text).len() ==> encode_utf8(text)[i] != 0,
    decreases text.len(),
{
    if text.len() > 0 {
        let first = encode_utf8(seq![text[0]]);
        reveal_with_fuel(encode_utf8, 2);
        assert(seq![text[0]].drop_first() =~= Seq::<char>::empty());
        assert(first =~= encode_scalar(text[0] as u32));
        lemma_scalar_encoding(text[0]);
        lemma_encoding_has_no_nul(text.drop_first());
        assert(encode_utf8(text) =~= first + encode_utf8(text.drop_first()));
    }
}

/// Where `bytes` begin with the encoding of a character other than zero, the
/// lexer yields that character however much of the encoding is pending, and
/// goes on behind the encoding.
proof fn lemma_lex_through_scalar(bytes: Seq<u8>, c: char, held: nat)
    requires
        c != '\0',
        held < encode_utf8(seq![c]).len() <= bytes.len(),
        bytes.subrange(0, encode_utf8(seq![c]).len() as int) == encode_utf8(seq![c]),
    ensures
        lex(bytes, held) == seq![c] + lex(bytes.skip(encode_utf8(seq![c]).len() as int), 0),
    decreases encode_utf8(seq![c]).len() - held,
{
    let e = encode_utf8(seq![c]);
    let n = e.len() as int;
    lemma_scalar_encoding(c);
    let unit = bytes.subrange(0, held as int + 1);
    assert(bytes[held as int] == e[held as int]);
    assert(unit =~= e.subrange(0, held as int + 1));
    if held + 1 < n {
        let more = e.subrange(held as int + 1, n);
        assert(unit + more =~= e);
        assert(valid_utf8(unit + more));
        assert(utf8_prefix(unit));
        lemma_lex_through_scalar(bytes, c, held + 1);
    } else {
        assert(unit =~= e);
    }
}

/// A text without the character zero that is written out as UTF-8 with a
/// zero byte after it is read back as it was, whatever follows, and the
/// reader is left at what follows.
pub proof fn lemma_strz_round_trip(text: Seq<char>, tail: Seq<u8>)
    requires
        forall|i: int| 0 <= i < text.len() ==> text[i] != '\0',
    ensures
        strz_text(encode_utf8(text).push(0u8) + tail) == text,
        strz_rest(encode_utf8(text).push(0u8) + tail) == tail,
    decreases text.len(),
{
    let encoded = encode_utf8(text);
    let bytes = encoded.push(0u8) + tail;
    lemma_encoding_has_no_nul(text);
    lemma_terminator_at(bytes, encoded.len() as int);
    assert(bytes.skip(encoded.len() as int + 1) =~= tail);
    if text.len() == 0 {
        assert(lex(bytes, 0) =~= text);
    } else {
        let c = text[0];
        let e = encode_utf8(seq![c]);
        let rest = text.drop_first();
        reveal_with_fuel(encode_utf8, 2);
        assert(seq![c].drop_first() =~= Seq::<char>::empty());
        assert(e =~= encode_scalar(c as u32));
        assert(encoded =~= e + encode_utf8(rest));
        lemma_scalar_encoding(c);
        assert(bytes.subrange(0, e.len() as int) =~= e);
        lemma_lex_through_scalar(bytes, c, 0);
        assert(bytes.skip(e.len() as int) =~= encode_utf8(rest).push(0u8) + tail);
        lemma_strz_round_trip(rest, tail);
        assert(seq![c] + rest =~= text);
    }
}

/// A byte that can begin no character, because it is a continuation byte or
/// above every leading byte, yields exactly one replacement character, and
/// the lexer goes on with the byte after it.
pub proof fn lemma_strz_stray_byte(byte: u8, rest: Seq<u8>)
    requires
        0x80 <= byte <= 0xBF || 0xF8 <= byte,
    ensures
        strz_text(seq![byte] + rest) == seq![replacement()] + strz_text(rest),
{
    let bytes = seq![byte] + rest;
    let unit = bytes.subrange(0, 1);
    assert(unit =~= seq![byte]);
    assert forall|more: Seq<u8>| !valid_utf8(#[trigger] (unit + more)) by {
        assert((unit + more)[0] == byte);
        reveal_with_fuel(valid_utf8, 1);
    }
    assert(unit + Seq::<u8>::empty() =~= unit);
    assert(bytes.skip(1) =~= rest);
}

/// Reads a nul-terminated string.
///
/// The string ends at the first zero byte, which is consumed and not part of
/// the text, or where the reader runs out. Bytes that are not UTF-8 never
/// make the call fail: each malformed sequence yields one replacement
/// character.
pub fn strz(reader: &mut Reader<'_>) -> (out: String)
    ensures
        out@ == strz_text(reader_bytes(*old(reader))),
        reader_bytes(*final(reader)) == strz_rest(reader_bytes(*old(reader))),
{
    let ghost all = reader_bytes(*reader);
    let ghost mut pos: int = 0;
    let mut bytes: [u8; 4] = [0u8; 4];
    let mut index: usize = 0;
    let mut out = String::new();
    proof {
        assert(all.skip(0) =~= all);
    }
    loop
        invariant
            all == reader_bytes(*old(reader)),
            0 <= index <= 3,
            index <= pos <= all.len(),
            reader_bytes(*reader) == all.skip(pos),
            forall|i: int| 0 <= i < pos ==> all[i] != 0,
            forall|i: int| 0 <= i < index ==> bytes@[i] == all[pos - index + i],
            forall|k: int|
                1 <= k <= index ==> !valid_utf8(
                    #[trigger] all.subrange(pos - index, pos).subrange(0, k),
                ),
            index > 0 ==> utf8_prefix(all.subrange(pos - index, pos)),
            lex(all, 0) == out@ + lex(all.skip(pos - index), index as nat),
        decreases all.len() - pos,
    {
        let ghost held = all.skip(pos - index);
        let byte = match read_u8(reader) {
            Ok(byte) => byte,
            Err(_) => {
                proof {
                    assert(all.skip(pos).len() == 0);
                    lemma_terminator_at(all, pos);
                    assert(held.len() == index);
                    assert(out@ + Seq::<char>::empty() =~= out@);
                }
                return out;
            },
        };
        assert(byte == all[pos]);
        if byte == 0 {
            proof {
                lemma_terminator_at(all, pos);
                assert(held[index as int] == all[pos]);
                assert(out@ + Seq::<char>::empty() =~= out@);
                assert(all.skip(pos).skip(1) =~= all.skip(pos + 1));
            }
            return out;
        }
        bytes[index] = byte;
        index += 1;
        let ghost unit = all.subrange(pos - (index - 1), pos + 1);
        proof {
            assert(held[index - 1] == all[pos]);
            assert(unit =~= held.subrange(0, index as int));
            assert(all.skip(pos).skip(1) =~= all.skip(pos + 1));
            assert(held.skip(index as int) =~= all.skip(pos + 1));
            assert(all.skip(pos + 1 - 0) =~= all.skip(pos + 1));
        }
        let pending = slice_subrange(bytes.as_slice(), 0, index);
        assert(pending@ =~= unit);
        match core::str::from_utf8(pending) {
            Ok(text) => {
                out.append(text);
                index = 0;
            },
            Err(error) => {
                if error.error_len().is_some() {
                    proof {
                        reveal_strlit("\u{FFFD}");
                    }
                    out.append("\u{FFFD}");
                    index = 0;
                } else {
                    proof {
                        assert forall|k: int| 1 <= k <= index implies !valid_utf8(
                            #[trigger] unit.subrange(0, k),
                        ) by {
                            if k < index {
                                assert(unit.subrange(0, k) =~= all.subrange(
                                    pos - (index - 1),
                                    pos,
                                ).subrange(0, k));
                            } else {
                                assert(unit.subrange(0, k) =~= unit);
                            }
                        }
                        lemma_pending_is_short(unit);
                    }
                }
            },
        }
        proof {
            pos = pos + 1;
        }
    }
}

} // verus!
