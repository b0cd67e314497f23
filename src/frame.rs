//! Fixed-size framing: a message travels as exactly `MAX_MSG_LENGTH` bytes,
//! the UTF-8 encoding of as many whole characters as fit, then zero bytes.
use vstd::prelude::*;
use vstd::string::StringSliceAdditionalSpecFns;
use vstd::utf8::*;

verus! {

broadcast use vstd::string::group_string_axioms;

/// Size of every frame on the wire, in bytes.
pub const MAX_MSG_LENGTH: usize = 32;

/// The longest prefix of `m` whose UTF-8 encoding takes at most `budget`
/// bytes: characters are kept whole, never cut.
pub open spec fn fitting_prefix(m: Seq<char>, budget: int) -> Seq<char>
    decreases m.len(),
{
    if m.len() == 0 || encode_scalar(m[0] as u32).len() > budget {
        Seq::empty()
    } else {
        seq![m[0]] + fitting_prefix(m.drop_first(), budget - encode_scalar(m[0] as u32).len())
    }
}

/// `b` followed by zero bytes up to `MAX_MSG_LENGTH`.
pub open spec fn padded(b: Seq<u8>) -> Seq<u8> {
    b + Seq::new((MAX_MSG_LENGTH - b.len()) as nat, |i: int| 0u8)
}

/// The frame that carries the text `m`: the UTF-8 encoding of the longest
/// prefix of `m` that fits, padded with zero bytes.
pub open spec fn text_frame(m: Seq<char>) -> Seq<u8> {
    padded(encode_utf8(fitting_prefix(m, MAX_MSG_LENGTH as int)))
}

/// Index of the first zero byte of `frame` at or after `i`, or its length
/// when there is none.
pub open spec fn payload_end(frame: Seq<u8>, i: int) -> int
    decreases frame.len() - i,
{
    if i < 0 {
        0
    } else if i >= frame.len() || frame[i] == 0 {
        i
    } else {
        payload_end(frame, i + 1)
    }
}

/// The leading run of non-zero bytes of a frame.
pub open spec fn payload(frame: Seq<u8>) -> Seq<u8> {
    frame.take(payload_end(frame, 0))
}

/// True when no byte of `b` is zero.
pub open spec fn zero_free(b: Seq<u8>) -> bool {
    forall|i: int| 0 <= i < b.len() ==> b[i] != 0
}

/// The text that a frame carries, when its payload is valid UTF-8.
pub open spec fn frame_text(frame: Seq<u8>) -> Option<Seq<char>> {
    if valid_utf8(payload(frame)) {
        Some(decode_utf8(payload(frame)))
    } else {
        None
    }
}

/// Relies on `String::from_utf8`: it succeeds exactly on valid UTF-8, and the
/// string then holds the characters that those bytes encode.
#[verifier::external_body]
fn string_from_utf8(bytes: Vec<u8>) -> (r: Option<String>)
    ensures
        r is Some <==> valid_utf8(bytes@),
        r matches Some(s) ==> s@ == decode_utf8(bytes@),
{
    String::from_utf8(bytes).ok()
}

/// Number of bytes of the UTF-8 character that starts with `lead`.
fn char_width(lead: u8) -> (r: usize)
    ensures
        r == (if is_leading_byte_width_1(lead) {
            1usize
        } else if is_leading_byte_width_2(lead) {
            2usize
        } else if is_leading_byte_width_3(lead) {
            3usize
        } else {
            4usize
        }),
{
    if lead <= 0x7f {
        1
    } else if 0xc0 <= lead && lead <= 0xdf {
        2
    } else if 0xe0 <= lead && lead <= 0xef {
        3
    } else {
        4
    }
}

/// Encodes `text` as one frame: as many whole characters as fit, then zero
/// bytes.
pub fn encode_frame(text: &str) -> (r: Vec<u8>)
    ensures
        r@ == text_frame(text@),
        r@.len() == MAX_MSG_LENGTH,
{
    let bytes = text.as_bytes();
    let ghost m = text@;
    let ghost mut j: int = 0;
    let mut kept: usize = 0;
    let mut full = false;
    proof {
        lemma_encode_split(m, 0);
        assert(m.skip(0) =~= m);
        assert(m.take(0) + fitting_prefix(m, MAX_MSG_LENGTH as int) =~= fitting_prefix(
            m,
            MAX_MSG_LENGTH as int,
        ));
    }
    while !full && kept < bytes.len()
        invariant
            bytes@ == encode_utf8(m),
            full ==> fitting_prefix(m, MAX_MSG_LENGTH as int) == m.take(j),
            0 <= j <= m.len(),
            kept <= MAX_MSG_LENGTH,
            bytes@ == encode_utf8(m.take(j)) + encode_utf8(m.skip(j)),
            kept == encode_utf8(m.take(j)).len(),
            fitting_prefix(m, MAX_MSG_LENGTH as int) == m.take(j) + fitting_prefix(
                m.skip(j),
                MAX_MSG_LENGTH - kept,
            ),
        decreases bytes@.len() - kept + (if full { 0int } else { 1int }),
    {
        let ghost rest = m.skip(j);
        assert(rest.len() > 0) by {
            if rest.len() == 0 {
                assert(encode_utf8(rest) =~= Seq::<u8>::empty());
            }
        }
        proof {
            encode_utf8_first_scalar(rest);
            assert(bytes@.skip(kept as int) =~= encode_utf8(rest));
            assert(rest[0] == m[j]);
        }
        let w = char_width(bytes[kept]);
        if w > MAX_MSG_LENGTH - kept {
            assert(fitting_prefix(rest, MAX_MSG_LENGTH - kept) =~= Seq::<char>::empty());
            assert(m.take(j) + Seq::<char>::empty() =~= m.take(j));
            full = true;
        } else {
            proof {
            assert(rest.drop_first() =~= m.skip(j + 1));
            assert(m.take(j + 1) =~= m.take(j) + seq![m[j]]);
            lemma_encode_concat(m.take(j), seq![m[j]]);
            lemma_encode_split(m, j + 1);
            assert(encode_utf8(seq![m[j]]) =~= encode_scalar(m[j] as u32)) by {
                assert(seq![m[j]].drop_first() =~= Seq::<char>::empty());
            }
            assert(m.take(j) + (seq![m[j]] + fitting_prefix(
                m.skip(j + 1),
                MAX_MSG_LENGTH - kept - w,
            )) =~= m.take(j + 1) + fitting_prefix(m.skip(j + 1), MAX_MSG_LENGTH - kept - w));
                j = j + 1;
            }
            kept = kept + w;
        }
    }
    proof {
        if !full {
            assert(m.skip(j).len() == 0) by {
                if m.skip(j).len() > 0 {
                    encode_utf8_first_scalar(m.skip(j));
                }
            }
            assert(fitting_prefix(m.skip(j), MAX_MSG_LENGTH - kept) =~= Seq::<char>::empty());
            assert(m.take(j) + Seq::<char>::empty() =~= m.take(j));
        }
        assert(bytes@.take(kept as int) =~= encode_utf8(m.take(j)));
        assert(bytes@.take(kept as int) =~= encode_utf8(fitting_prefix(m, MAX_MSG_LENGTH as int)));
    }
    let mut r: Vec<u8> = Vec::with_capacity(MAX_MSG_LENGTH);
    let mut i: usize = 0;
    while i < MAX_MSG_LENGTH
        invariant
            i <= MAX_MSG_LENGTH,
            kept <= MAX_MSG_LENGTH,
            kept <= bytes@.len(),
            r@.len() == i,
            forall|x: int| 0 <= x < i ==> r@[x] == padded(bytes@.take(kept as int))[x],
        decreases MAX_MSG_LENGTH - i,
    {
        if i < kept {
            r.push(bytes[i]);
        } else {
            r.push(0u8);
        }
        i = i + 1;
    }
    assert(r@ =~= padded(bytes@.take(kept as int)));
    r
}

/// Decodes the text that a frame carries: the leading non-zero bytes, read
/// as UTF-8. `None` when they are not valid UTF-8.
pub fn decode_frame(frame: &[u8]) -> (r: Option<String>)
    ensures
        r is Some <==> frame_text(frame@) is Some,
        r matches Some(s) ==> frame_text(frame@) == Some(s@),
{
    let mut end: usize = 0;
    while end < frame.len() && frame[end] != 0
        invariant
            end <= frame@.len(),
            payload_end(frame@, 0) == payload_end(frame@, end as int),
        decreases frame@.len() - end,
    {
        end = end + 1;
    }
    let mut bytes: Vec<u8> = Vec::with_capacity(end);
    let mut i: usize = 0;
    while i < end
        invariant
            i <= end,
            end <= frame@.len(),
            bytes@ =~= frame@.take(i as int),
        decreases end - i,
    {
        bytes.push(frame[i]);
        i = i + 1;
    }
    assert(bytes@ =~= payload(frame@));
    string_from_utf8(bytes)
}

proof fn lemma_payload_end(frame: Seq<u8>, i: int, k: int)
    requires
        0 <= i <= k <= frame.len(),
        forall|j: int| i <= j < k ==> frame[j] != 0,
        k == frame.len() || frame[k] == 0,
    ensures
        payload_end(frame, i) == k,
    decreases k - i,
{
    if i < k {
        lemma_payload_end(frame, i + 1, k);
    }
}

/// The payload of a padded run of zero-free bytes is those bytes.
proof fn lemma_payload_of_padded(b: Seq<u8>)
    requires
        b.len() <= MAX_MSG_LENGTH,
        zero_free(b),
    ensures
        payload(padded(b)) == b,
{
    let f = padded(b);
    lemma_payload_end(f, 0, b.len() as int);
    assert(payload(f) =~= b);
}

/// Encoding a concatenation concatenates the encodings.
proof fn lemma_encode_concat(a: Seq<char>, c: Seq<char>)
    ensures
        encode_utf8(a + c) == encode_utf8(a) + encode_utf8(c),
    decreases a.len(),
{
    if a.len() == 0 {
        assert(a + c =~= c);
        assert(encode_utf8(a) + encode_utf8(c) =~= encode_utf8(c));
    } else {
        lemma_encode_concat(a.drop_first(), c);
        assert((a + c).drop_first() =~= a.drop_first() + c);
        assert(encode_scalar(a[0] as u32) + (encode_utf8(a.drop_first()) + encode_utf8(c))
            =~= encode_utf8(a) + encode_utf8(c));
    }
}

proof fn lemma_encode_split(m: Seq<char>, j: int)
    requires
        0 <= j <= m.len(),
    ensures
        encode_utf8(m) == encode_utf8(m.take(j)) + encode_utf8(m.skip(j)),
{
    assert(m =~= m.take(j) + m.skip(j));
    lemma_encode_concat(m.take(j), m.skip(j));
}

/// What `fitting_prefix` keeps: a prefix of `m`, within the budget, and
/// the longest such: one more character would exceed it.
proof fn lemma_fitting_prefix(m: Seq<char>, budget: int)
    requires
        budget >= 0,
    ensures
        fitting_prefix(m, budget).len() <= m.len(),
        fitting_prefix(m, budget) == m.take(fitting_prefix(m, budget).len() as int),
        encode_utf8(fitting_prefix(m, budget)).len() <= budget,
        fitting_prefix(m, budget).len() < m.len() ==> encode_utf8(
            m.take(fitting_prefix(m, budget).len() + 1int),
        ).len() > budget,
    decreases m.len(),
{
    let t = fitting_prefix(m, budget);
    if m.len() == 0 {
        assert(t =~= m.take(0));
    } else {
        let w = encode_scalar(m[0] as u32).len();
        if w > budget {
            assert(t =~= m.take(0));
            assert(m.take(1).drop_first() =~= Seq::<char>::empty());
        } else {
            let rest = m.drop_first();
            lemma_fitting_prefix(rest, budget - w);
            let u = fitting_prefix(rest, budget - w);
            assert(t == seq![m[0]] + u);
            assert(t.drop_first() =~= u);
            assert(t =~= m.take(t.len() as int));
            if t.len() < m.len() {
                assert(m.take(t.len() + 1int).drop_first() =~= rest.take(u.len() + 1int));
            }
        }
    }
}

/// A text whose encoding fits within the budget is kept whole.
proof fn lemma_fitting_prefix_whole(m: Seq<char>, budget: int)
    requires
        encode_utf8(m).len() <= budget,
    ensures
        fitting_prefix(m, budget) == m,
    decreases m.len(),
{
    if m.len() > 0 {
        lemma_fitting_prefix_whole(m.drop_first(), budget - encode_scalar(m[0] as u32).len());
        assert(seq![m[0]] + m.drop_first() =~= m);
    }
}

/// What is read back from the frame of a text without zero bytes: the
/// longest prefix of the text that fits in a frame.
proof fn lemma_frame_text_of(m: Seq<char>)
    requires
        zero_free(encode_utf8(m)),
    ensures
        frame_text(text_frame(m)) == Some(fitting_prefix(m, MAX_MSG_LENGTH as int)),
{
    let t = fitting_prefix(m, MAX_MSG_LENGTH as int);
    lemma_fitting_prefix(m, MAX_MSG_LENGTH as int);
    lemma_encode_split(m, t.len() as int);
    let e = encode_utf8(t);
    assert forall|i: int| 0 <= i < e.len() implies e[i] != 0 by {
        assert(encode_utf8(m)[i] == e[i]);
    }
    lemma_payload_of_padded(e);
    encode_utf8_valid_utf8(t);
    encode_utf8_decode_utf8(t);
}

/// Round trip: a message whose UTF-8 encoding fits in a frame and holds no
/// zero byte is read back from its frame exactly.
pub proof fn lemma_frame_round_trip(m: Seq<char>)
    requires
        encode_utf8(m).len() <= MAX_MSG_LENGTH,
        zero_free(encode_utf8(m)),
    ensures
        text_frame(m) == padded(encode_utf8(m)),
        frame_text(text_frame(m)) == Some(m),
{
    lemma_fitting_prefix_whole(m, MAX_MSG_LENGTH as int);
    lemma_frame_text_of(m);
}

/// Truncation: a message too long for a frame is cut at a character
/// boundary, never inside a character. The frame holds the encoding of the
/// longest prefix of the message that fits, padded with zeros; with no zero
/// byte in the message, that prefix is exactly what is read back.
pub proof fn lemma_frame_truncation(m: Seq<char>)
    requires
        encode_utf8(m).len() > MAX_MSG_LENGTH,
    ensures
        ({
            let t = fitting_prefix(m, MAX_MSG_LENGTH as int);
            &&& t.len() < m.len()
            &&& t == m.take(t.len() as int)
            &&& encode_utf8(t).len() <= MAX_MSG_LENGTH
            &&& encode_utf8(m.take(t.len() + 1int)).len() > MAX_MSG_LENGTH
            &&& text_frame(m) == padded(encode_utf8(t))
            &&& zero_free(encode_utf8(m)) ==> frame_text(text_frame(m)) == Some(t)
        }),
{
    let t = fitting_prefix(m, MAX_MSG_LENGTH as int);
    lemma_fitting_prefix(m, MAX_MSG_LENGTH as int);
    if t.len() == m.len() {
        assert(m.take(m.len() as int) =~= m);
    }
    if zero_free(encode_utf8(m)) {
        lemma_frame_text_of(m);
    }
}

} // verus!
