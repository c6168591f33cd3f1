//! The record that carries a ciphertext and its nonce as text.
//!
//! A record is one line of JSON with two members, each an array of byte
//! values in decimal:
//!
//! ```text
//! {"encrypt_data":[21,3,250],"nonce":[0,1,2,3,4,5,6,7,8,9,10,11]}
//! ```
//!
//! No white space, no leading zeros, the members in this order: every pair
//! of byte strings has exactly one record, and every record exactly one pair.

use vstd::prelude::*;

verus! {

/// The bytes of `{"encrypt_data":`, which open a record.
pub const CIPHERTEXT_LABEL: [u8; 16] = [
    123, 34, 101, 110, 99, 114, 121, 112, 116, 95, 100, 97, 116, 97, 34, 58,
];

/// The bytes of `,"nonce":`, which stand between the two arrays.
pub const NONCE_LABEL: [u8; 9] = [44, 34, 110, 111, 110, 99, 101, 34, 58];

pub open spec fn is_digit(c: u8) -> bool {
    48 <= c && c <= 57
}

/// The decimal digits of `b`, most significant first, without leading zeros.
pub open spec fn decimal(b: u8) -> Seq<u8> {
    if b < 10 {
        seq![(48 + b) as u8]
    } else if b < 100 {
        seq![(48 + b / 10) as u8, (48 + b % 10) as u8]
    } else {
        seq![(48 + b / 100) as u8, (48 + (b / 10) % 10) as u8, (48 + b % 10) as u8]
    }
}

/// The decimal forms of `items`, separated by commas.
pub open spec fn items_text(items: Seq<u8>) -> Seq<u8>
    decreases items.len(),
{
    if items.len() == 0 {
        Seq::empty()
    } else if items.len() == 1 {
        decimal(items[0])
    } else {
        decimal(items[0]) + seq![44u8] + items_text(items.skip(1))
    }
}

/// `items` as a JSON array of numbers.
pub open spec fn array_text(items: Seq<u8>) -> Seq<u8> {
    seq![91u8] + items_text(items) + seq![93u8]
}

/// The record of a ciphertext and its nonce.
pub open spec fn record_text(encrypt_data: Seq<u8>, nonce: Seq<u8>) -> Seq<u8> {
    CIPHERTEXT_LABEL@ + array_text(encrypt_data) + NONCE_LABEL@ + array_text(nonce) + seq![125u8]
}

/// The ciphertext and nonce that `text` is the record of, if it is a record.
pub open spec fn record_parts(text: Seq<u8>) -> Option<(Seq<u8>, Seq<u8>)> {
    if exists|c: Seq<u8>, n: Seq<u8>| text == #[trigger] record_text(c, n) {
        Some(choose|p: (Seq<u8>, Seq<u8>)| text == #[trigger] record_text(p.0, p.1))
    } else {
        None
    }
}

/// Whether `piece` stands in `text` from position `pos` on.
#[verifier::opaque]
spec fn reads_at(text: Seq<u8>, pos: int, piece: Seq<u8>) -> bool {
    &&& 0 <= pos
    &&& pos + piece.len() <= text.len()
    &&& forall|i: int| 0 <= i < piece.len() ==> text[pos + i] == #[trigger] piece[i]
}

spec fn digit_at(text: Seq<u8>, pos: int) -> bool {
    0 <= pos < text.len() && is_digit(text[pos])
}

/// The number that starts at `pos`, with the position behind it: the
/// longest run of digits there, where it is the decimal form of a byte.
spec fn number_at(text: Seq<u8>, pos: int) -> Option<(u8, int)> {
    if !digit_at(text, pos) {
        None
    } else {
        let d0 = text[pos] - 48;
        if !digit_at(text, pos + 1) {
            Some((d0 as u8, pos + 1))
        } else if d0 == 0 {
            None
        } else {
            let d1 = text[pos + 1] - 48;
            if !digit_at(text, pos + 2) {
                Some(((10 * d0 + d1) as u8, pos + 2))
            } else {
                let v = 100 * d0 + 10 * d1 + (text[pos + 2] - 48);
                if digit_at(text, pos + 3) || v > 255 {
                    None
                } else {
                    Some((v as u8, pos + 3))
                }
            }
        }
    }
}

/// The numbers that start at `pos`, separated by commas and closed by `]`,
/// appended to `acc`, with the position behind the bracket.
spec fn items_from(text: Seq<u8>, pos: int, acc: Seq<u8>) -> Option<(Seq<u8>, int)>
    decreases text.len() - pos,
{
    match number_at(text, pos) {
        Some((b, next)) => {
            if pos < next && next < text.len() && text[next] == 44 {
                items_from(text, next + 1, acc.push(b))
            } else if next < text.len() && text[next] == 93 {
                Some((acc.push(b), next + 1))
            } else {
                None
            }
        },
        None => None,
    }
}

/// The array that starts at `pos`, with the position behind it.
spec fn array_at(text: Seq<u8>, pos: int) -> Option<(Seq<u8>, int)> {
    if !(0 <= pos < text.len()) || text[pos] != 91 {
        None
    } else if pos + 1 < text.len() && text[pos + 1] == 93 {
        Some((Seq::empty(), pos + 2))
    } else {
        items_from(text, pos + 1, Seq::empty())
    }
}

/// What a reader that goes through `text` once, from left to right, finds.
spec fn record_at(text: Seq<u8>) -> Option<(Seq<u8>, Seq<u8>)> {
    if !reads_at(text, 0, CIPHERTEXT_LABEL@) {
        None
    } else {
        match array_at(text, 16) {
            Some((encrypt_data, p)) => {
                if !reads_at(text, p, NONCE_LABEL@) {
                    None
                } else {
                    match array_at(text, p + 9) {
                        Some((nonce, q)) => {
                            if q + 1 == text.len() && text[q] == 125 {
                                Some((encrypt_data, nonce))
                            } else {
                                None
                            }
                        },
                        None => None,
                    }
                }
            },
            None => None,
        }
    }
}

proof fn lemma_reads_concat(text: Seq<u8>, pos: int, a: Seq<u8>, b: Seq<u8>)
    ensures
        reads_at(text, pos, a + b) <==> reads_at(text, pos, a) && reads_at(
            text,
            pos + a.len(),
            b,
        ),
{
    reveal(reads_at);
    if reads_at(text, pos, a + b) {
        assert forall|i: int| 0 <= i < a.len() implies text[pos + i] == #[trigger] a[i] by {
            assert((a + b)[i] == a[i]);
        }
        assert forall|i: int| 0 <= i < b.len() implies text[pos + a.len() + i]
            == #[trigger] b[i] by {
            assert((a + b)[a.len() + i] == b[i]);
        }
    }
    if reads_at(text, pos, a) && reads_at(text, pos + a.len(), b) {
        assert forall|i: int| 0 <= i < (a + b).len() implies text[pos + i] == #[trigger] (a
            + b)[i] by {
            if i < a.len() {
                assert((a + b)[i] == a[i]);
            } else {
                assert((a + b)[i] == b[i - a.len()]);
                assert(text[pos + a.len() + (i - a.len())] == b[i - a.len()]);
            }
        }
    }
}

proof fn lemma_reads_one(text: Seq<u8>, pos: int, c: u8)
    ensures
        reads_at(text, pos, seq![c]) <==> 0 <= pos < text.len() && text[pos] == c,
{
    reveal(reads_at);
    if reads_at(text, pos, seq![c]) {
        assert(seq![c][0] == c);
        assert(text[pos + 0] == seq![c][0]);
    }
}

proof fn lemma_reads_first(text: Seq<u8>, pos: int, piece: Seq<u8>)
    requires
        reads_at(text, pos, piece),
        piece.len() > 0,
    ensures
        0 <= pos < text.len(),
        text[pos] == piece[0],
{
    reveal(reads_at);
    assert(text[pos + 0] == piece[0]);
}

proof fn lemma_decimal_shape(b: u8)
    ensures
        1 <= decimal(b).len() <= 3,
        forall|i: int| 0 <= i < decimal(b).len() ==> is_digit(#[trigger] decimal(b)[i]),
{
}

proof fn lemma_number_sound(text: Seq<u8>, pos: int)
    requires
        number_at(text, pos).is_some(),
    ensures
        reads_at(text, pos, decimal(number_at(text, pos).unwrap().0)),
        number_at(text, pos).unwrap().1 == pos + decimal(number_at(text, pos).unwrap().0).len(),
        !digit_at(text, number_at(text, pos).unwrap().1),
        0 <= pos < number_at(text, pos).unwrap().1 <= text.len(),
{
    reveal(reads_at);
}

proof fn lemma_number_complete(text: Seq<u8>, pos: int, b: u8)
    requires
        reads_at(text, pos, decimal(b)),
        !digit_at(text, pos + decimal(b).len()),
    ensures
        number_at(text, pos) == Some((b, pos + decimal(b).len())),
{
    reveal(reads_at);
    let d = decimal(b);
    assert(text[pos + 0] == d[0]);
    if b >= 10 {
        assert(text[pos + 1] == d[1]);
    }
    if b >= 100 {
        assert(text[pos + 2] == d[2]);
    }
}

proof fn lemma_items_text_push(items: Seq<u8>, b: u8)
    ensures
        items_text(items.push(b)) == if items.len() == 0 {
            decimal(b)
        } else {
            items_text(items) + seq![44u8] + decimal(b)
        },
    decreases items.len(),
{
    let more = items.push(b);
    if items.len() == 0 {
        assert(more[0] == b);
    } else {
        assert(more.skip(1) =~= items.skip(1).push(b));
        assert(more[0] == items[0]);
        lemma_items_text_push(items.skip(1), b);
        if items.len() == 1 {
            assert(items_text(items.skip(1)) =~= Seq::<u8>::empty());
            assert(items_text(more) =~= items_text(items) + seq![44u8] + decimal(b));
        } else {
            assert(items_text(more) =~= items_text(items) + seq![44u8] + decimal(b));
        }
    }
}

proof fn lemma_items_complete(text: Seq<u8>, pos: int, items: Seq<u8>, acc: Seq<u8>)
    requires
        items.len() > 0,
        reads_at(text, pos, items_text(items) + seq![93u8]),
    ensures
        items_from(text, pos, acc) == Some((acc + items, pos + items_text(items).len() + 1)),
    decreases items.len(),
{
    let d = decimal(items[0]);
    lemma_decimal_shape(items[0]);
    if items.len() == 1 {
        lemma_reads_concat(text, pos, d, seq![93u8]);
        lemma_reads_one(text, pos + d.len(), 93u8);
        lemma_number_complete(text, pos, items[0]);
        assert(acc.push(items[0]) =~= acc + items);
    } else {
        let rest = items.skip(1);
        let tail = items_text(rest) + seq![93u8];
        assert(items_text(items) + seq![93u8] =~= d + (seq![44u8] + tail));
        lemma_reads_concat(text, pos, d, seq![44u8] + tail);
        lemma_reads_concat(text, pos + d.len(), seq![44u8], tail);
        lemma_reads_one(text, pos + d.len(), 44u8);
        lemma_number_complete(text, pos, items[0]);
        lemma_items_complete(text, pos + d.len() + 1, rest, acc.push(items[0]));
        assert(acc.push(items[0]) + rest =~= acc + items);
    }
}

proof fn lemma_items_sound(text: Seq<u8>, pos: int, acc: Seq<u8>)
    requires
        items_from(text, pos, acc).is_some(),
    ensures
        ({
            let (out, end) = items_from(text, pos, acc).unwrap();
            let items = out.skip(acc.len() as int);
            &&& acc.len() < out.len()
            &&& out == acc + items
            &&& reads_at(text, pos, items_text(items) + seq![93u8])
            &&& end == pos + items_text(items).len() + 1
        }),
    decreases text.len() - pos,
{
    let (b, next) = number_at(text, pos).unwrap();
    let (out, end) = items_from(text, pos, acc).unwrap();
    let items = out.skip(acc.len() as int);
    let d = decimal(b);
    lemma_number_sound(text, pos);
    if next < text.len() && text[next] == 44 {
        lemma_items_sound(text, next + 1, acc.push(b));
        let rest = out.skip(acc.len() as int + 1);
        let tail = items_text(rest) + seq![93u8];
        assert(out == acc.push(b) + rest);
        assert(items =~= seq![b] + rest);
        assert(items[0] == b);
        assert(items.skip(1) =~= rest);
        assert(out =~= acc + items);
        assert(items_text(items) + seq![93u8] =~= d + (seq![44u8] + tail));
        lemma_reads_one(text, next, 44u8);
        lemma_reads_concat(text, next, seq![44u8], tail);
        lemma_reads_concat(text, pos, d, seq![44u8] + tail);
    } else {
        assert(out == acc.push(b));
        assert(items =~= seq![b]);
        assert(items[0] == b);
        assert(out =~= acc + items);
        lemma_reads_one(text, next, 93u8);
        lemma_reads_concat(text, pos, d, seq![93u8]);
    }
}

proof fn lemma_array_complete(text: Seq<u8>, pos: int, items: Seq<u8>)
    requires
        reads_at(text, pos, array_text(items)),
    ensures
        array_at(text, pos) == Some((items, pos + array_text(items).len())),
{
    let inner = items_text(items) + seq![93u8];
    assert(array_text(items) =~= seq![91u8] + inner);
    lemma_reads_concat(text, pos, seq![91u8], inner);
    lemma_reads_one(text, pos, 91u8);
    if items.len() == 0 {
        assert(inner =~= seq![93u8]);
        lemma_reads_one(text, pos + 1, 93u8);
        assert(items =~= Seq::<u8>::empty());
    } else {
        lemma_decimal_shape(items[0]);
        assert(inner[0] == decimal(items[0])[0]);
        lemma_reads_first(text, pos + 1, inner);
        lemma_items_complete(text, pos + 1, items, Seq::empty());
        assert(Seq::<u8>::empty() + items =~= items);
    }
}

proof fn lemma_array_sound(text: Seq<u8>, pos: int)
    requires
        array_at(text, pos).is_some(),
    ensures
        reads_at(text, pos, array_text(array_at(text, pos).unwrap().0)),
        array_at(text, pos).unwrap().1 == pos + array_text(array_at(text, pos).unwrap().0).len(),
{
    let (items, end) = array_at(text, pos).unwrap();
    let inner = items_text(items) + seq![93u8];
    assert(array_text(items) =~= seq![91u8] + inner);
    lemma_reads_one(text, pos, 91u8);
    if pos + 1 < text.len() && text[pos + 1] == 93 {
        assert(inner =~= seq![93u8]);
        lemma_reads_one(text, pos + 1, 93u8);
    } else {
        lemma_items_sound(text, pos + 1, Seq::empty());
        assert(items.skip(0) =~= items);
    }
    lemma_reads_concat(text, pos, seq![91u8], inner);
}

proof fn lemma_record_complete(encrypt_data: Seq<u8>, nonce: Seq<u8>)
    ensures
        record_at(record_text(encrypt_data, nonce)) == Some((encrypt_data, nonce)),
{
    let text = record_text(encrypt_data, nonce);
    let a = array_text(encrypt_data);
    let b = array_text(nonce);
    let close = seq![125u8];
    let p = 16 + a.len() as int;
    let q = p + 9 + b.len() as int;
    assert(text =~= CIPHERTEXT_LABEL@ + (a + (NONCE_LABEL@ + (b + close))));
    assert(reads_at(text, 0, text)) by {
        reveal(reads_at);
    }
    lemma_reads_concat(text, 0, CIPHERTEXT_LABEL@, a + (NONCE_LABEL@ + (b + close)));
    lemma_reads_concat(text, 16, a, NONCE_LABEL@ + (b + close));
    lemma_reads_concat(text, p, NONCE_LABEL@, b + close);
    lemma_reads_concat(text, p + 9, b, close);
    lemma_reads_one(text, q, 125u8);
    lemma_array_complete(text, 16, encrypt_data);
    lemma_array_complete(text, p + 9, nonce);
}

proof fn lemma_reads_whole(text: Seq<u8>, whole: Seq<u8>)
    requires
        reads_at(text, 0, whole),
        whole.len() == text.len(),
    ensures
        text == whole,
{
    reveal(reads_at);
    assert forall|i: int| 0 <= i < text.len() implies text[i] == whole[i] by {
        assert(text[0 + i] == whole[i]);
    }
    assert(text =~= whole);
}

proof fn lemma_record_sound(text: Seq<u8>)
    requires
        record_at(text).is_some(),
    ensures
        text == record_text(record_at(text).unwrap().0, record_at(text).unwrap().1),
{
    let (encrypt_data, p) = array_at(text, 16).unwrap();
    let (nonce, q) = array_at(text, p + 9).unwrap();
    let a = array_text(encrypt_data);
    let b = array_text(nonce);
    let close = seq![125u8];
    let t3 = b + close;
    let t2 = NONCE_LABEL@ + t3;
    let t1 = a + t2;
    let whole = CIPHERTEXT_LABEL@ + t1;
    assert(reads_at(text, 16, a) && p == 16 + a.len()) by {
        lemma_array_sound(text, 16);
    }
    assert(reads_at(text, p + 9, b) && q == p + 9 + b.len()) by {
        lemma_array_sound(text, p + 9);
    }
    assert(reads_at(text, q, close)) by {
        lemma_reads_one(text, q, 125u8);
    }
    assert(reads_at(text, p + 9, t3)) by {
        lemma_reads_concat(text, p + 9, b, close);
    }
    assert(reads_at(text, p, t2)) by {
        lemma_reads_concat(text, p, NONCE_LABEL@, t3);
    }
    assert(reads_at(text, 16, t1)) by {
        lemma_reads_concat(text, 16, a, t2);
    }
    assert(reads_at(text, 0, whole)) by {
        lemma_reads_concat(text, 0, CIPHERTEXT_LABEL@, t1);
    }
    assert(whole.len() == text.len());
    lemma_reads_whole(text, whole);
    assert(whole =~= record_text(encrypt_data, nonce));
}

/// Reading a text from left to right finds the parts of a record exactly
/// where the text is a record.
proof fn lemma_record_parts(text: Seq<u8>)
    ensures
        record_parts(text) == record_at(text),
{
    if record_at(text).is_some() {
        let (c, n) = record_at(text).unwrap();
        lemma_record_sound(text);
        assert(text == record_text(c, n));
        let p = choose|p: (Seq<u8>, Seq<u8>)| text == #[trigger] record_text(p.0, p.1);
        assert(text == record_text((c, n).0, (c, n).1));
        assert(text == record_text(p.0, p.1));
        lemma_record_complete(p.0, p.1);
        assert(p == (c, n));
    } else {
        assert forall|c: Seq<u8>, n: Seq<u8>| text != #[trigger] record_text(c, n) by {
            if text == record_text(c, n) {
                lemma_record_complete(c, n);
            }
        }
    }
}

/// A record read back gives the ciphertext and the nonce it was written
/// from, byte for byte.
pub proof fn lemma_record_round_trip(encrypt_data: Seq<u8>, nonce: Seq<u8>)
    ensures
        record_parts(record_text(encrypt_data, nonce)) == Some((encrypt_data, nonce)),
{
    lemma_record_complete(encrypt_data, nonce);
    lemma_record_parts(record_text(encrypt_data, nonce));
}

/// Two records are equal only if they carry the same ciphertext and the
/// same nonce.
pub proof fn lemma_record_text_injective(
    encrypt_data: Seq<u8>,
    nonce: Seq<u8>,
    other_data: Seq<u8>,
    other_nonce: Seq<u8>,
)
    requires
        record_text(encrypt_data, nonce) == record_text(other_data, other_nonce),
    ensures
        encrypt_data == other_data,
        nonce == other_nonce,
{
    lemma_record_complete(encrypt_data, nonce);
    lemma_record_complete(other_data, other_nonce);
}

fn push_decimal(out: &mut Vec<u8>, b: u8)
    ensures
        final(out)@ == old(out)@ + decimal(b),
{
    if b >= 100 {
        out.push(48 + b / 100);
        out.push(48 + (b / 10) % 10);
    } else if b >= 10 {
        out.push(48 + b / 10);
    }
    out.push(48 + b % 10);
    assert(out@ =~= old(out)@ + decimal(b));
}

fn push_array(out: &mut Vec<u8>, items: &[u8])
    ensures
        final(out)@ == old(out)@ + array_text(items@),
{
    out.push(91);
    let mut i: usize = 0;
    while i < items.len()
        invariant
            i <= items.len(),
            out@ == old(out)@ + seq![91u8] + items_text(items@.take(i as int)),
        decreases items.len() - i,
    {
        let ghost before = out@;
        if i > 0 {
            out.push(44);
        }
        push_decimal(out, items[i]);
        proof {
            let done = items@.take(i as int);
            lemma_items_text_push(done, items@[i as int]);
            assert(done.push(items@[i as int]) =~= items@.take(i as int + 1));
            assert(out@ =~= old(out)@ + seq![91u8] + items_text(items@.take(i as int + 1)));
        }
        i = i + 1;
    }
    out.push(93);
    proof {
        assert(items@.take(items@.len() as int) =~= items@);
        assert(out@ =~= old(out)@ + array_text(items@));
    }
}

/// Writes the record of a ciphertext and its nonce.
pub fn write_record(encrypt_data: &[u8], nonce: &[u8]) -> (text: Vec<u8>)
    ensures
        text@ == record_text(encrypt_data@, nonce@),
{
    let mut text: Vec<u8> = Vec::new();
    text.extend_from_slice(&CIPHERTEXT_LABEL);
    push_array(&mut text, encrypt_data);
    text.extend_from_slice(&NONCE_LABEL);
    push_array(&mut text, nonce);
    text.push(125);
    assert(text@ =~= record_text(encrypt_data@, nonce@));
    text
}

fn is_digit_byte(c: u8) -> (r: bool)
    ensures
        r == is_digit(c),
{
    48 <= c && c <= 57
}

fn read_label(text: &[u8], pos: usize, label: &[u8]) -> (found: bool)
    requires
        pos <= text.len(),
    ensures
        found == reads_at(text@, pos as int, label@),
{
    proof {
        reveal(reads_at);
    }
    if label.len() > text.len() - pos {
        return false;
    }
    let mut i: usize = 0;
    while i < label.len()
        invariant
            i <= label.len(),
            pos + label.len() <= text.len(),
            forall|j: int| 0 <= j < i ==> text@[pos + j] == #[trigger] label@[j],
        decreases label.len() - i,
    {
        if text[pos + i] != label[i] {
            proof {
                reveal(reads_at);
                assert(text@[pos + i as int] != label@[i as int]);
            }
            return false;
        }
        i = i + 1;
    }
    proof {
        reveal(reads_at);
    }
    true
}

fn read_number(text: &[u8], pos: usize) -> (r: Option<(u8, usize)>)
    requires
        pos <= text.len(),
    ensures
        match r {
            Some((b, next)) => number_at(text@, pos as int) == Some((b, next as int)),
            None => number_at(text@, pos as int).is_none(),
        },
{
    let n: usize = text.len();
    if pos >= n || !is_digit_byte(text[pos]) {
        return None;
    }
    let d0: u8 = text[pos] - 48;
    if pos + 1 >= n || !is_digit_byte(text[pos + 1]) {
        return Some((d0, pos + 1));
    }
    if d0 == 0 {
        return None;
    }
    let d1: u8 = text[pos + 1] - 48;
    if pos + 2 >= n || !is_digit_byte(text[pos + 2]) {
        return Some((10 * d0 + d1, pos + 2));
    }
    let d2: u8 = text[pos + 2] - 48;
    if pos + 3 < n && is_digit_byte(text[pos + 3]) {
        return None;
    }
    let v: u16 = 100 * (d0 as u16) + 10 * (d1 as u16) + (d2 as u16);
    if v > 255 {
        return None;
    }
    Some((v as u8, pos + 3))
}

fn read_items(text: &[u8], start: usize) -> (r: Option<(Vec<u8>, usize)>)
    requires
        start <= text.len(),
    ensures
        match r {
            Some((items, end)) => items_from(text@, start as int, Seq::empty()) == Some(
                (items@, end as int),
            ),
            None => items_from(text@, start as int, Seq::empty()).is_none(),
        },
{
    let mut items: Vec<u8> = Vec::new();
    let mut pos: usize = start;
    loop
        invariant
            pos <= text.len(),
            items_from(text@, start as int, Seq::empty()) == items_from(
                text@,
                pos as int,
                items@,
            ),
        decreases text.len() - pos,
    {
        match read_number(text, pos) {
            None => {
                return None;
            },
            Some((b, next)) => {
                proof {
                    lemma_number_sound(text@, pos as int);
                }
                if next >= text.len() {
                    return None;
                }
                let c: u8 = text[next];
                if c == 44 {
                    items.push(b);
                    pos = next + 1;
                } else if c == 93 {
                    items.push(b);
                    return Some((items, next + 1));
                } else {
                    return None;
                }
            },
        }
    }
}

fn read_array(text: &[u8], pos: usize) -> (r: Option<(Vec<u8>, usize)>)
    requires
        pos <= text.len(),
    ensures
        match r {
            Some((items, end)) => array_at(text@, pos as int) == Some((items@, end as int)),
            None => array_at(text@, pos as int).is_none(),
        },
{
    if pos >= text.len() || text[pos] != 91 {
        return None;
    }
    if pos + 1 < text.len() && text[pos + 1] == 93 {
        return Some((Vec::new(), pos + 2));
    }
    read_items(text, pos + 1)
}

/// Reads a record: the ciphertext and the nonce that `text` is the record
/// of, or `None` where `text` is no record.
pub fn read_record(text: &[u8]) -> (r: Option<(Vec<u8>, Vec<u8>)>)
    ensures
        match r {
            Some((encrypt_data, nonce)) => record_parts(text@) == Some((encrypt_data@, nonce@)),
            None => record_parts(text@).is_none(),
        },
{
    proof {
        lemma_record_parts(text@);
    }
    if !read_label(text, 0, &CIPHERTEXT_LABEL) {
        return None;
    }
    assert(text@.len() >= 16) by {
        reveal(reads_at);
    }
    let (encrypt_data, p) = match read_array(text, 16) {
        Some(found) => found,
        None => {
            return None;
        },
    };
    assert(p <= text@.len()) by {
        lemma_array_sound(text@, 16);
        reveal(reads_at);
    }
    if !read_label(text, p, &NONCE_LABEL) {
        return None;
    }
    assert(p + 9 <= text.len()) by {
        reveal(reads_at);
    }
    let (nonce, q) = match read_array(text, p + 9) {
        Some(found) => found,
        None => {
            return None;
        },
    };
    assert(q <= text@.len()) by {
        lemma_array_sound(text@, p as int + 9);
        reveal(reads_at);
    }
    if q < text.len() && q + 1 == text.len() && text[q] == 125 {
        Some((encrypt_data, nonce))
    } else {
        None
    }
}

} // verus!
