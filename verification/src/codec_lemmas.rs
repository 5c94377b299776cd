//! What holds of the codecs as a whole: how decoded tags are classified,
//! what truncation does to a buffer, when encoding and decoding undo each
//! other, and how wide a request written from a data object list is.

use crate::tlv::contents_bytes;
use crate::tlv::decode_tags;
use crate::tlv::encode_dol;
use crate::tlv::encode_tag;
use crate::tlv::encode_tags;
use crate::tlv::field_bytes;
use crate::tlv::first_extent;
use crate::tlv::fit;
use crate::tlv::id_continuation;
use crate::tlv::is_byte_tag;
use crate::tlv::is_primitive;
use crate::tlv::is_text_tag;
use crate::tlv::least_bytes;
use crate::tlv::lemma_first_extent_bounds;
use crate::tlv::lemma_id_continuation_advances;
use crate::tlv::lemma_least_bytes_len;
use crate::tlv::lemma_wire_id_advances;
use crate::tlv::lemma_length_octets_advances;
use crate::tlv::length_bytes;
use crate::tlv::length_octets;
use crate::tlv::primitive_contents;
use crate::tlv::shift_in32;
use crate::tlv::shift_in64;
use crate::tlv::tag_id_of;
use crate::tlv::tag_number;
use crate::tlv::wire_id;
use crate::tlv::wire_length;
use crate::tlv::ContentsModel;
use crate::tlv::DolFieldModel;
use crate::tlv::TagExtent;
use crate::tlv::TagModel;
use vstd::prelude::*;

verus! {

/// Every tag of the list, at any depth, holds nested tags where its
/// identifier is constructed, and text, bytes, one byte or nothing valid
/// where it is primitive.
pub open spec fn classified(tags: Seq<TagModel>) -> bool
    decreases tags,
{
    forall|i: int| 0 <= i < tags.len() ==> classified_tag(#[trigger] tags[i])
}

/// The tag, and every tag nested in it, holds what its identifier calls for.
pub open spec fn classified_tag(tag: TagModel) -> bool
    decreases tag,
{
    if is_primitive(tag_number(tag.id)) {
        match tag.contents {
            ContentsModel::Nested(_) => false,
            ContentsModel::Number(_) => false,
            _ => true,
        }
    } else {
        match tag.contents {
            ContentsModel::Nested(l) => classified(l),
            _ => false,
        }
    }
}

/// An identifier made from a number is written as that number.
pub proof fn lemma_tag_number_of_id(number: u32)
    ensures
        tag_number(tag_id_of(number)) == number,
{
}

/// Whatever decodes, a tag with a constructed identifier holds nested tags,
/// whatever its content bytes are, and no decoded tag holds a number.
pub proof fn lemma_decoded_tags_classified(s: Seq<u8>)
    requires
        decode_tags(s) is Some,
    ensures
        classified(decode_tags(s).unwrap()),
    decreases s.len(),
{
    if s.len() > 0 {
        lemma_first_extent_bounds(s);
        let e = first_extent(s).unwrap();
        let content = s.subrange(e.start, e.end);
        let rest = decode_tags(s.skip(e.end)).unwrap();
        lemma_decoded_tags_classified(s.skip(e.end));
        lemma_tag_number_of_id(e.id);
        if !is_primitive(e.id) {
            lemma_decoded_tags_classified(content);
        }
        let tags = decode_tags(s).unwrap();
        assert forall|i: int| 0 <= i < tags.len() implies classified_tag(#[trigger] tags[i]) by {
            if i > 0 {
                assert(tags[i] == rest[i - 1]);
            }
        }
    }
}


/// Continuation bytes read from a buffer are read alike from any prefix
/// that holds them all, and not at all from a shorter one.
pub proof fn lemma_id_continuation_prefix(s: Seq<u8>, pos: int, acc: u32, k: int)
    requires
        0 <= pos,
        0 <= k <= s.len(),
        id_continuation(s, pos, acc) is Some,
    ensures
        k >= id_continuation(s, pos, acc).unwrap().1 ==> id_continuation(s.take(k), pos, acc)
            == id_continuation(s, pos, acc),
        k < id_continuation(s, pos, acc).unwrap().1 ==> id_continuation(s.take(k), pos, acc)
            is None,
    decreases s.len() - pos,
{
    lemma_id_continuation_advances(s, pos, acc);
    if pos < k {
        assert(s.take(k)[pos] == s[pos]);
        if s[pos] >= 0x80 {
            lemma_id_continuation_prefix(s, pos + 1, shift_in32(acc, s[pos]), k);
        }
    }
}

/// An identifier read from a buffer is read alike from any prefix that
/// holds it whole, and not at all from a shorter one.
pub proof fn lemma_wire_id_prefix(s: Seq<u8>, k: int)
    requires
        0 <= k <= s.len(),
        wire_id(s, 0) is Some,
    ensures
        k >= wire_id(s, 0).unwrap().1 ==> wire_id(s.take(k), 0) == wire_id(s, 0),
        k < wire_id(s, 0).unwrap().1 ==> wire_id(s.take(k), 0) is None,
{
    lemma_wire_id_advances(s);
    if 0 < k {
        assert(s.take(k)[0] == s[0]);
        if s[0] % 32 == 31 {
            lemma_id_continuation_prefix(s, 1, s[0] as u32, k);
        }
    }
}

/// Length octets read from a buffer are read alike from any prefix that
/// holds them all, and not at all from a shorter one.
pub proof fn lemma_length_octets_prefix(s: Seq<u8>, pos: int, count: int, acc: u64, k: int)
    requires
        0 <= pos <= k <= s.len(),
        length_octets(s, pos, count, acc) is Some,
    ensures
        k >= length_octets(s, pos, count, acc).unwrap().1 ==> length_octets(
            s.take(k),
            pos,
            count,
            acc,
        ) == length_octets(s, pos, count, acc),
        k < length_octets(s, pos, count, acc).unwrap().1 ==> length_octets(
            s.take(k),
            pos,
            count,
            acc,
        ) is None,
    decreases count,
{
    lemma_length_octets_advances(s, pos, count, acc);
    if count > 0 {
        lemma_length_octets_advances(s, pos + 1, count - 1, shift_in64(acc, s[pos]));
        if pos < k {
            assert(s.take(k)[pos] == s[pos]);
            lemma_length_octets_prefix(s, pos + 1, count - 1, shift_in64(acc, s[pos]), k);
        }
    }
}

/// A length read from a buffer is read alike from any prefix that holds it
/// whole, and not at all from a shorter one.
pub proof fn lemma_wire_length_prefix(s: Seq<u8>, pos: int, k: int)
    requires
        0 <= pos <= k <= s.len(),
        wire_length(s, pos) is Some,
    ensures
        k >= wire_length(s, pos).unwrap().1 ==> wire_length(s.take(k), pos) == wire_length(s, pos),
        k < wire_length(s, pos).unwrap().1 ==> wire_length(s.take(k), pos) is None,
{
    if s[pos] >= 0x80 {
        lemma_length_octets_advances(s, pos + 1, s[pos] - 0x80, 0);
    }
    if pos < k {
        assert(s.take(k)[pos] == s[pos]);
        if s[pos] >= 0x80 {
            lemma_length_octets_prefix(s, pos + 1, s[pos] - 0x80, 0, k);
        }
    }
}

/// The first tag of a buffer is found alike in any prefix that holds it
/// whole; a prefix that ends inside it, in the identifier, in the length or
/// in the content, holds no first tag.
pub proof fn lemma_first_extent_prefix(s: Seq<u8>, k: int)
    requires
        0 <= k <= s.len(),
        first_extent(s) is Some,
    ensures
        k >= first_extent(s).unwrap().end ==> first_extent(s.take(k)) == first_extent(s),
        k < first_extent(s).unwrap().end ==> first_extent(s.take(k)) is None,
{
    lemma_first_extent_bounds(s);
    lemma_wire_id_prefix(s, k);
    lemma_wire_id_advances(s);
    let (id, id_end) = wire_id(s, 0).unwrap();
    if s[id_end] >= 0x80 {
        lemma_length_octets_advances(s, id_end + 1, s[id_end] - 0x80, 0);
    }
    if k >= id_end {
        lemma_wire_length_prefix(s, id_end, k);
        let (len, len_end) = wire_length(s, id_end).unwrap();
        if k >= len_end {
            assert(s.take(k).len() == k);
        }
    }
}

/// Behind a first byte whose low five bits are all set, an identifier goes
/// on up to and including the first byte with its high bit clear: every
/// byte between the first and the last has its high bit set.
pub proof fn lemma_id_continuation_extent(s: Seq<u8>, pos: int, acc: u32)
    requires
        0 <= pos,
        id_continuation(s, pos, acc) is Some,
    ensures
        pos < id_continuation(s, pos, acc).unwrap().1 <= s.len(),
        s[id_continuation(s, pos, acc).unwrap().1 - 1] < 0x80,
        forall|j: int| pos <= j < id_continuation(s, pos, acc).unwrap().1 - 1 ==> s[j] >= 0x80,
    decreases s.len() - pos,
{
    if s[pos] >= 0x80 {
        lemma_id_continuation_extent(s, pos + 1, shift_in32(acc, s[pos]));
    }
}

/// An identifier is one byte where the low five bits of that byte are not
/// all set; else it has at least two bytes, ends with the first byte whose
/// high bit is clear, and is never read as several identifiers.
pub proof fn lemma_wire_id_extent(s: Seq<u8>)
    requires
        wire_id(s, 0) is Some,
    ensures
        s[0] % 32 != 31 ==> wire_id(s, 0) == Some((s[0] as u32, 1int)),
        s[0] % 32 == 31 ==> {
            let end = wire_id(s, 0).unwrap().1;
            &&& 2 <= end <= s.len()
            &&& s[end - 1] < 0x80
            &&& forall|j: int| 1 <= j < end - 1 ==> s[j] >= 0x80
        },
{
    if s[0] % 32 == 31 {
        lemma_id_continuation_extent(s, 1, s[0] as u32);
    }
}

/// Whether `k` bytes of a buffer are a whole number of its top-level tags.
pub open spec fn is_tag_boundary(s: Seq<u8>, k: int) -> bool
    decreases s.len(),
    via is_tag_boundary_decreases
{
    k == 0 || match first_extent(s) {
        Some(e) => k >= e.end && is_tag_boundary(s.skip(e.end), k - e.end),
        None => false,
    }
}

#[via_fn]
proof fn is_tag_boundary_decreases(s: Seq<u8>, k: int) {
    lemma_first_extent_bounds(s);
}

/// A buffer that decodes, cut anywhere but between two of its top-level
/// tags, does not decode: the end of input is met inside a tag, and no
/// shorter list of tags is taken for the whole.
pub proof fn lemma_truncation_fails(s: Seq<u8>, k: int)
    requires
        decode_tags(s) is Some,
        0 <= k <= s.len(),
        !is_tag_boundary(s, k),
    ensures
        decode_tags(s.take(k)) is None,
    decreases s.len(),
{
    lemma_first_extent_bounds(s);
    lemma_first_extent_prefix(s, k);
    let e = first_extent(s).unwrap();
    if k >= e.end {
        let cut = s.take(k);
        assert(cut.skip(e.end) =~= s.skip(e.end).take(k - e.end));
        lemma_truncation_fails(s.skip(e.end), k - e.end);
    }
}


/// An identifier number in the form that the wire gives it: one to four
/// bytes, the first with its low five bits all set exactly where more
/// follow, every byte between the first and the last with its high bit
/// set, and the last of several with its high bit clear.
pub open spec fn id_well_formed(v: u32) -> bool {
    if v < 0x100 {
        v % 32 != 31
    } else if v < 0x1_0000 {
        (v / 0x100) % 32 == 31 && v % 0x100 < 0x80
    } else if v < 0x100_0000 {
        (v / 0x1_0000) % 32 == 31 && (v / 0x100) % 0x100 >= 0x80 && v % 0x100 < 0x80
    } else {
        (v / 0x100_0000) % 32 == 31 && (v / 0x1_0000) % 0x100 >= 0x80 && (v / 0x100) % 0x100
            >= 0x80 && v % 0x100 < 0x80
    }
}

/// Every tag of the list is in wire form.
pub open spec fn wire_form(tags: Seq<TagModel>) -> bool
    decreases tags,
{
    forall|i: int| 0 <= i < tags.len() ==> wire_form_tag(#[trigger] tags[i])
}

/// A tag as decoding gives it back: its identifier is the one that its
/// number stands for, and that number is well formed; its content fits a
/// length of 64 bits; a constructed tag holds nested tags in wire form; a
/// primitive tag holds text where it is a text tag, one byte or nothing
/// valid where it is a one-byte tag, and bytes otherwise.
pub open spec fn wire_form_tag(tag: TagModel) -> bool
    decreases tag,
{
    &&& tag_id_of(tag_number(tag.id)) == tag.id
    &&& id_well_formed(tag_number(tag.id))
    &&& contents_bytes(tag.contents).len() <= u64::MAX
    &&& if is_primitive(tag_number(tag.id)) {
        if is_text_tag(tag.id) {
            tag.contents is Text
        } else if is_byte_tag(tag.id) {
            tag.contents is Byte || tag.contents is Invalid
        } else {
            tag.contents is Bytes
        }
    } else {
        match tag.contents {
            ContentsModel::Nested(l) => wire_form(l),
            _ => false,
        }
    }
}

/// A well-formed identifier of one byte is read back as itself.
proof fn lemma_id_round_trip_1(v: u32, rest: Seq<u8>)
    requires
        v < 0x100,
        id_well_formed(v),
    ensures
        wire_id(least_bytes(v as u64) + rest, 0) == Some((v, 1int)),
        least_bytes(v as u64).len() == 1,
{
    let s = least_bytes(v as u64) + rest;
    assert(s[0] == v as u8);
}

/// A well-formed identifier of two bytes is read back as itself.
proof fn lemma_id_round_trip_2(v: u32, rest: Seq<u8>)
    requires
        0x100 <= v < 0x1_0000,
        id_well_formed(v),
    ensures
        wire_id(least_bytes(v as u64) + rest, 0) == Some((v, 2int)),
        least_bytes(v as u64).len() == 2,
{
    let b0 = (v / 0x100) as u8;
    let b1 = (v % 0x100) as u8;
    assert(least_bytes((v / 0x100) as u64) =~= seq![b0]);
    assert(least_bytes(v as u64) =~= seq![b0, b1]);
    let s = least_bytes(v as u64) + rest;
    assert(s[0] == b0 && s[1] == b1);
    assert(shift_in32(b0 as u32, b1) == v);
    assert(id_continuation(s, 1, b0 as u32) == Some((v, 2int)));
}

/// A well-formed identifier of three bytes is read back as itself.
proof fn lemma_id_round_trip_3(v: u32, rest: Seq<u8>)
    requires
        0x1_0000 <= v < 0x100_0000,
        id_well_formed(v),
    ensures
        wire_id(least_bytes(v as u64) + rest, 0) == Some((v, 3int)),
        least_bytes(v as u64).len() == 3,
{
    let b0 = (v / 0x1_0000) as u8;
    let b1 = (v / 0x100 % 0x100) as u8;
    let b2 = (v % 0x100) as u8;
    assert(least_bytes((v / 0x1_0000) as u64) =~= seq![b0]);
    assert(least_bytes((v / 0x100) as u64) =~= seq![b0, b1]);
    assert(least_bytes(v as u64) =~= seq![b0, b1, b2]);
    let s = least_bytes(v as u64) + rest;
    assert(s[0] == b0 && s[1] == b1 && s[2] == b2);
    let a1 = shift_in32(b0 as u32, b1);
    assert(a1 == v / 0x100);
    assert(shift_in32(a1, b2) == v);
    assert(id_continuation(s, 2, a1) == Some((v, 3int)));
    assert(id_continuation(s, 1, b0 as u32) == id_continuation(s, 2, a1));
}

/// A well-formed identifier of four bytes is read back as itself.
proof fn lemma_id_round_trip_4(v: u32, rest: Seq<u8>)
    requires
        0x100_0000 <= v,
        id_well_formed(v),
    ensures
        wire_id(least_bytes(v as u64) + rest, 0) == Some((v, 4int)),
        least_bytes(v as u64).len() == 4,
{
    let b0 = (v / 0x100_0000) as u8;
    let b1 = (v / 0x1_0000 % 0x100) as u8;
    let b2 = (v / 0x100 % 0x100) as u8;
    let b3 = (v % 0x100) as u8;
    assert(least_bytes((v / 0x100_0000) as u64) =~= seq![b0]);
    assert(least_bytes((v / 0x1_0000) as u64) =~= seq![b0, b1]);
    assert(least_bytes((v / 0x100) as u64) =~= seq![b0, b1, b2]);
    assert(least_bytes(v as u64) =~= seq![b0, b1, b2, b3]);
    let s = least_bytes(v as u64) + rest;
    assert(s[0] == b0 && s[1] == b1 && s[2] == b2 && s[3] == b3);
    let a1 = shift_in32(b0 as u32, b1);
    assert(a1 == v / 0x1_0000);
    let a2 = shift_in32(a1, b2);
    assert(a2 == v / 0x100);
    assert(shift_in32(a2, b3) == v);
    assert(id_continuation(s, 3, a2) == Some((v, 4int)));
    assert(id_continuation(s, 2, a1) == id_continuation(s, 3, a2));
    assert(id_continuation(s, 1, b0 as u32) == id_continuation(s, 2, a1));
}

/// A well-formed identifier, written in its shortest form, is read back as
/// itself, whatever follows it.
pub proof fn lemma_id_round_trip(v: u32, rest: Seq<u8>)
    requires
        id_well_formed(v),
    ensures
        wire_id(least_bytes(v as u64) + rest, 0) == Some(
            (v, least_bytes(v as u64).len() as int),
        ),
{
    if v < 0x100 {
        lemma_id_round_trip_1(v, rest);
    } else if v < 0x1_0000 {
        lemma_id_round_trip_2(v, rest);
    } else if v < 0x100_0000 {
        lemma_id_round_trip_3(v, rest);
    } else {
        lemma_id_round_trip_4(v, rest);
    }
}

/// Reading one octet more takes the octet behind those read so far into
/// the accumulated length.
pub proof fn lemma_length_octets_one_more(s: Seq<u8>, pos: int, count: int, acc: u64)
    requires
        0 <= pos,
        0 <= count,
        pos + count < s.len(),
    ensures
        length_octets(s, pos, count, acc) is Some,
        length_octets(s, pos, count, acc).unwrap().1 == pos + count,
        length_octets(s, pos, count + 1, acc) == Some(
            (shift_in64(length_octets(s, pos, count, acc).unwrap().0, s[pos + count]), pos + count + 1),
        ),
    decreases count,
{
    reveal_with_fuel(length_octets, 2);
    if count > 0 {
        lemma_length_octets_one_more(s, pos + 1, count - 1, shift_in64(acc, s[pos]));
    }
}

/// The octets of a number in its shortest form accumulate to the number,
/// wherever they stand in a buffer.
pub proof fn lemma_octets_of_least_bytes(pre: Seq<u8>, n: u64, rest: Seq<u8>)
    ensures
        length_octets(
            pre + least_bytes(n) + rest,
            pre.len() as int,
            least_bytes(n).len() as int,
            0,
        ) == Some((n, (pre.len() + least_bytes(n).len()) as int)),
    decreases n,
{
    let s = pre + least_bytes(n) + rest;
    let p = pre.len() as int;
    if n < 0x100 {
        reveal_with_fuel(length_octets, 2);
        assert(s[p] == n as u8);
    } else {
        let high = (n / 0x100) as u64;
        let low = (n % 0x100) as u8;
        let c = least_bytes(high).len() as int;
        lemma_octets_of_least_bytes(pre, high, seq![low] + rest);
        assert(s =~= pre + least_bytes(high) + (seq![low] + rest));
        lemma_length_octets_one_more(s, p, c, 0);
        assert(s[p + c] == low);
        assert(shift_in64(high, low) == n);
    }
}

/// Any length of 64 bits, written as a length, is read back as itself,
/// wherever it stands in a buffer.
pub proof fn lemma_length_round_trip(pre: Seq<u8>, n: u64, rest: Seq<u8>)
    ensures
        wire_length(pre + length_bytes(n) + rest, pre.len() as int) == Some(
            (n, (pre.len() + length_bytes(n).len()) as int),
        ),
{
    let s = pre + length_bytes(n) + rest;
    let p = pre.len() as int;
    if n <= 127 {
        assert(s[p] == n as u8);
    } else {
        lemma_least_bytes_len(n);
        let first = (0x80 + least_bytes(n).len()) as u8;
        assert(s[p] == first);
        lemma_octets_of_least_bytes(pre + seq![first], n, rest);
        assert(s =~= pre + seq![first] + least_bytes(n) + rest);
    }
}

/// Where the encoding of a tag stands in front of a buffer, the first tag
/// of the buffer has its identifier and its content, and the rest of the
/// buffer follows it.
pub proof fn lemma_first_tag_of_encoding(t: TagModel, tail: Seq<u8>)
    requires
        id_well_formed(tag_number(t.id)),
        contents_bytes(t.contents).len() <= u64::MAX,
    ensures
        first_extent(encode_tag(t) + tail) matches Some(e) && e.id == tag_number(t.id) && 0
            <= e.start <= e.end <= (encode_tag(t) + tail).len() && (encode_tag(t) + tail).subrange(
            e.start,
            e.end,
        ) == contents_bytes(t.contents) && (encode_tag(t) + tail).skip(e.end) == tail,
{
    let v = tag_number(t.id);
    let data = contents_bytes(t.contents);
    let idb = least_bytes(v as u64);
    let lb = length_bytes(data.len() as u64);
    let s = encode_tag(t) + tail;
    assert(s =~= idb + (lb + data + tail));
    assert(s =~= idb + lb + (data + tail));
    lemma_id_round_trip(v, lb + data + tail);
    lemma_length_round_trip(idb, data.len() as u64, data + tail);
    let start: int = (idb.len() + lb.len()) as int;
    let end: int = start + data.len();
    assert(wire_id(s, 0) == Some((v, idb.len() as int)));
    assert(wire_length(s, idb.len() as int) == Some((data.len() as u64, start)));
    assert(first_extent(s) == Some(TagExtent { id: v, start, end }));
    assert(s.subrange(start, end) =~= data);
    assert(s.skip(end) =~= tail);
}

/// The content bytes of a primitive tag in wire form stand for its
/// contents.
pub proof fn lemma_primitive_round_trip(t: TagModel)
    requires
        wire_form_tag(t),
        is_primitive(tag_number(t.id)),
    ensures
        primitive_contents(contents_bytes(t.contents), t.id) == t.contents,
{
    match t.contents {
        ContentsModel::Text(text) => {
            vstd::utf8::encode_utf8_valid_utf8(text);
            vstd::utf8::encode_utf8_decode_utf8(text);
        },
        _ => {},
    }
}

/// Decoding undoes encoding: a list of tags in wire form, encoded and
/// decoded again, is the same list.
pub proof fn lemma_decode_encode(tags: Seq<TagModel>)
    requires
        wire_form(tags),
    ensures
        decode_tags(encode_tags(tags)) == Some(tags),
    decreases tags,
{
    if tags.len() == 0 {
        assert(tags =~= Seq::<TagModel>::empty());
    } else {
        let t = tags[0];
        let rest = tags.subrange(1, tags.len() as int);
        assert(wire_form_tag(t));
        assert forall|i: int| 0 <= i < rest.len() implies wire_form_tag(#[trigger] rest[i]) by {
            assert(rest[i] == tags[i + 1]);
        }
        lemma_decode_encode(rest);
        let tail = encode_tags(rest);
        let s = encode_tags(tags);
        assert(s == encode_tag(t) + tail);
        lemma_first_tag_of_encoding(t, tail);
        let e = first_extent(s).unwrap();
        if is_primitive(e.id) {
            lemma_primitive_round_trip(t);
        } else {
            match t.contents {
                ContentsModel::Nested(l) => {
                    lemma_decode_encode(l);
                },
                _ => {},
            }
        }
        assert(seq![t] + rest =~= tags);
    }
}

/// Whether a buffer is written the way the encoder writes: each tag, at any
/// depth, with its identifier and its length in the shortest form, and each
/// primitive content in the form that its contents are written back in.
pub open spec fn minimally_encoded(s: Seq<u8>) -> bool
    decreases s.len(),
    via minimally_encoded_decreases
{
    s.len() == 0 || match first_extent(s) {
        None => false,
        Some(e) => {
            let content = s.subrange(e.start, e.end);
            &&& s.take(e.start) == least_bytes(e.id as u64) + length_bytes(
                (e.end - e.start) as u64,
            )
            &&& if is_primitive(e.id) {
                contents_bytes(primitive_contents(content, tag_id_of(e.id))) == content
            } else {
                minimally_encoded(content)
            }
            &&& minimally_encoded(s.skip(e.end))
        },
    }
}

#[via_fn]
proof fn minimally_encoded_decreases(s: Seq<u8>) {
    lemma_first_extent_bounds(s);
}

/// Encoding undoes decoding: a buffer that decodes and is written the way
/// the encoder writes, decoded and encoded again, is the same buffer.
pub proof fn lemma_encode_decode(s: Seq<u8>)
    requires
        decode_tags(s) is Some,
        minimally_encoded(s),
    ensures
        encode_tags(decode_tags(s).unwrap()) == s,
    decreases s.len(),
{
    if s.len() == 0 {
        assert(encode_tags(Seq::<TagModel>::empty()) =~= s);
    } else {
        lemma_first_extent_bounds(s);
        let e = first_extent(s).unwrap();
        let content = s.subrange(e.start, e.end);
        let rest = decode_tags(s.skip(e.end)).unwrap();
        let tags = decode_tags(s).unwrap();
        lemma_encode_decode(s.skip(e.end));
        lemma_tag_number_of_id(e.id);
        if !is_primitive(e.id) {
            lemma_encode_decode(content);
        }
        let t = tags[0];
        assert(tags.subrange(1, tags.len() as int) =~= rest);
        assert(contents_bytes(t.contents) == content);
        assert(encode_tag(t) == s.take(e.start) + content);
        assert(s.take(e.start) + content + s.skip(e.end) =~= s);
    }
}

/// A list of tags in wire form is encoded the way the encoder writes, so
/// that its bytes, decoded and encoded again, are the same bytes.
pub proof fn lemma_encoding_is_stable(tags: Seq<TagModel>)
    requires
        wire_form(tags),
    ensures
        decode_tags(encode_tags(tags)) is Some,
        encode_tags(decode_tags(encode_tags(tags)).unwrap()) == encode_tags(tags),
{
    lemma_decode_encode(tags);
}


/// The widths of the fields of a data object list, added up.
pub open spec fn total_width(fields: Seq<DolFieldModel>) -> int
    decreases fields.len(),
{
    if fields.len() == 0 {
        0
    } else {
        fields[0].exp_len + total_width(fields.skip(1))
    }
}

/// A fitted value is as wide as its field.
pub proof fn lemma_fit_width(value: Seq<u8>, exp_len: int, numeric: bool)
    requires
        0 <= exp_len,
    ensures
        fit(value, exp_len, numeric).len() == exp_len,
{
}

/// Every field takes its own width in a request, whatever its value.
pub proof fn lemma_field_width(field: DolFieldModel)
    ensures
        field_bytes(field).len() == field.exp_len,
{
}

/// A request is as wide as the fields of its data object list together,
/// whatever their values.
pub proof fn lemma_request_width(fields: Seq<DolFieldModel>)
    ensures
        encode_dol(fields).len() == total_width(fields),
    decreases fields.len(),
{
    if fields.len() > 0 {
        lemma_field_width(fields[0]);
        lemma_request_width(fields.skip(1));
    }
}

} // verus!
