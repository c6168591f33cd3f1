//! Random passwords from chosen classes of characters.

use vstd::prelude::*;
use vstd::pervasive::unreached;
use vstd::string::StringExecFns;
use vstd::utf8::encode_utf8;
use crate::codec::utf8_text;
use crate::random::{pick, shuffle};

verus! {

/// The capital letters, without `I` and `O`.
pub const UPPER: [u8; 24] = [
    65, 66, 67, 68, 69, 70, 71, 72, 74, 75, 76, 77, 78, 80, 81, 82, 83, 84, 85, 86, 87, 88, 89, 90,
];

/// The small letters, without `l`.
pub const LOWER: [u8; 25] = [
    97, 98, 99, 100, 101, 102, 103, 104, 105, 106, 107, 109, 110, 111, 112, 113, 114, 115, 116,
    117, 118, 119, 120, 121, 122,
];

/// The digits, without `0`.
pub const NUMBER: [u8; 9] = [49, 50, 51, 52, 53, 54, 55, 56, 57];

/// The symbols `!@#$%^&*_`.
pub const SYMBOL: [u8; 9] = [33, 64, 35, 36, 37, 94, 38, 42, 95];

/// The characters of a class, where the class is asked for.
pub open spec fn class(wanted: bool, members: Seq<u8>) -> Seq<u8> {
    if wanted {
        members
    } else {
        Seq::empty()
    }
}

/// All characters that a password of these classes may hold.
pub open spec fn pool(uppercase: bool, lowercase: bool, number: bool, symbol: bool) -> Seq<u8> {
    class(uppercase, UPPER@) + class(lowercase, LOWER@) + class(number, NUMBER@) + class(
        symbol,
        SYMBOL@,
    )
}

/// How many classes are asked for.
pub open spec fn classes(uppercase: bool, lowercase: bool, number: bool, symbol: bool) -> nat {
    let one = |wanted: bool| if wanted { 1nat } else { 0nat };
    one(uppercase) + one(lowercase) + one(number) + one(symbol)
}

/// Whether `password` holds a character out of `members`.
pub open spec fn holds_one_of(password: Seq<u8>, members: Seq<u8>) -> bool {
    exists|i: int| 0 <= i < password.len() && members.contains(#[trigger] password[i])
}

/// Whether `password` is a password of this length and these classes:
/// every character out of a class asked for, and every class asked for
/// present.
pub open spec fn is_password(
    password: Seq<u8>,
    length: nat,
    uppercase: bool,
    lowercase: bool,
    number: bool,
    symbol: bool,
) -> bool {
    &&& password.len() == length
    &&& forall|i: int|
        0 <= i < password.len() ==> pool(uppercase, lowercase, number, symbol).contains(
            #[trigger] password[i],
        )
    &&& uppercase ==> holds_one_of(password, UPPER@)
    &&& lowercase ==> holds_one_of(password, LOWER@)
    &&& number ==> holds_one_of(password, NUMBER@)
    &&& symbol ==> holds_one_of(password, SYMBOL@)
}

/// Whether every character of `password` is out of `allowed`.
spec fn all_within(password: Seq<u8>, allowed: Seq<u8>) -> bool {
    forall|i: int| 0 <= i < password.len() ==> allowed.contains(#[trigger] password[i])
}

proof fn lemma_push_keeps(password: Seq<u8>, c: u8, members: Seq<u8>)
    ensures
        holds_one_of(password, members) ==> holds_one_of(password.push(c), members),
        members.contains(c) ==> holds_one_of(password.push(c), members),
{
    let longer = password.push(c);
    if holds_one_of(password, members) {
        let i = choose|i: int| 0 <= i < password.len() && members.contains(#[trigger] password[i]);
        assert(longer[i] == password[i]);
    }
    if members.contains(c) {
        assert(longer[password.len() as int] == c);
    }
}

proof fn lemma_within_wider(password: Seq<u8>, allowed: Seq<u8>, more: Seq<u8>, c: u8)
    requires
        all_within(password, allowed),
        more.contains(c),
    ensures
        all_within(password.push(c), allowed + more),
{
    let wider = allowed + more;
    let longer = password.push(c);
    assert forall|i: int| 0 <= i < longer.len() implies wider.contains(#[trigger] longer[i]) by {
        if i < password.len() {
            let j = choose|j: int| 0 <= j < allowed.len() && allowed[j] == password[i];
            assert(wider[j] == longer[i]);
        } else {
            let j = choose|j: int| 0 <= j < more.len() && more[j] == c;
            assert(wider[allowed.len() + j] == longer[i]);
        }
    }
}

proof fn lemma_within_push(password: Seq<u8>, allowed: Seq<u8>, c: u8)
    requires
        all_within(password, allowed),
        allowed.contains(c),
    ensures
        all_within(password.push(c), allowed),
{
    let longer = password.push(c);
    assert forall|i: int| 0 <= i < longer.len() implies allowed.contains(#[trigger] longer[i]) by {
        if i < password.len() {
            assert(longer[i] == password[i]);
        }
    }
}

/// A sequence with the same elements in another order holds characters of
/// the same classes, and of no others.
proof fn lemma_order_is_free(before: Seq<u8>, after: Seq<u8>, allowed: Seq<u8>)
    requires
        before.to_multiset() == after.to_multiset(),
        all_within(before, allowed),
    ensures
        after.len() == before.len(),
        all_within(after, allowed),
        forall|members: Seq<u8>| #[trigger]
            holds_one_of(before, members) ==> holds_one_of(after, members),
{
    before.to_multiset_ensures();
    after.to_multiset_ensures();
    assert forall|i: int| 0 <= i < after.len() implies allowed.contains(#[trigger] after[i]) by {
        assert(after.contains(after[i]));
        assert(after.to_multiset().count(after[i]) > 0);
        assert(before.to_multiset().count(after[i]) > 0);
        assert(before.contains(after[i]));
        let j = choose|j: int| 0 <= j < before.len() && before[j] == after[i];
        assert(allowed.contains(before[j]));
    }
    assert forall|members: Seq<u8>| #[trigger] holds_one_of(before, members) implies holds_one_of(
        after,
        members,
    ) by {
        let i = choose|i: int| 0 <= i < before.len() && members.contains(#[trigger] before[i]);
        assert(before.contains(before[i]));
        assert(before.to_multiset().count(before[i]) > 0);
        assert(after.to_multiset().count(before[i]) > 0);
        assert(after.contains(before[i]));
        let j = choose|j: int| 0 <= j < after.len() && after[j] == before[i];
        assert(members.contains(after[j]));
    }
}

proof fn lemma_pool_is_ascii(uppercase: bool, lowercase: bool, number: bool, symbol: bool)
    ensures
        forall|j: int|
            0 <= j < pool(uppercase, lowercase, number, symbol).len() ==> #[trigger] pool(
                uppercase,
                lowercase,
                number,
                symbol,
            )[j] <= 0x7f,
{
}

fn pick_one(members: &[u8]) -> (c: u8)
    requires
        members@.len() > 0,
    ensures
        members@.contains(c),
{
    match pick(members) {
        Some(c) => c,
        None => unreached(),
    }
}

/// Opens a class: its members join `chars`, and one of them, picked at
/// random, joins `password`.
fn open_class(password: &mut Vec<u8>, chars: &mut Vec<u8>, members: &[u8])
    requires
        members@.len() > 0,
        all_within(old(password)@, old(chars)@),
    ensures
        final(chars)@ == old(chars)@ + members@,
        final(password)@.len() == old(password)@.len() + 1,
        all_within(final(password)@, final(chars)@),
        holds_one_of(final(password)@, members@),
        forall|other: Seq<u8>| #[trigger]
            holds_one_of(old(password)@, other) ==> holds_one_of(final(password)@, other),
{
    chars.extend_from_slice(members);
    let c = pick_one(members);
    proof {
        lemma_within_wider(password@, old(chars)@, members@, c);
        lemma_push_keeps(password@, c, members@);
        assert forall|other: Seq<u8>| #[trigger] holds_one_of(password@, other) implies holds_one_of(
            password@.push(c),
            other,
        ) by {
            lemma_push_keeps(password@, c, other);
        }
    }
    password.push(c);
}

/// Fills `password` up to `length` with characters picked from `chars`.
fn fill_up(password: &mut Vec<u8>, chars: &Vec<u8>, length: u8)
    requires
        old(password)@.len() <= length,
        old(password)@.len() < length ==> chars@.len() > 0,
        all_within(old(password)@, chars@),
    ensures
        final(password)@.len() == length,
        all_within(final(password)@, chars@),
        forall|other: Seq<u8>| #[trigger]
            holds_one_of(old(password)@, other) ==> holds_one_of(final(password)@, other),
{
    while password.len() < length as usize
        invariant
            password@.len() <= length,
            password@.len() < length ==> chars@.len() > 0,
            all_within(password@, chars@),
            forall|other: Seq<u8>| #[trigger]
                holds_one_of(old(password)@, other) ==> holds_one_of(password@, other),
        decreases length - password@.len(),
    {
        let c = pick_one(chars.as_slice());
        proof {
            lemma_within_push(password@, chars@, c);
            assert forall|other: Seq<u8>| #[trigger]
                holds_one_of(old(password)@, other) implies holds_one_of(
                password@.push(c),
                other,
            ) by {
                lemma_push_keeps(password@, c, other);
            }
        }
        password.push(c);
    }
}

/// Generates a password of `length` characters: one character of each
/// class asked for, the rest out of all of these classes, in random order.
///
/// There must be room for one character of each class, and a class to draw
/// from where the password is not empty.
pub fn process_genpass(
    length: u8,
    uppercase: bool,
    lowercase: bool,
    number: bool,
    symbol: bool,
) -> (password: String)
    requires
        classes(uppercase, lowercase, number, symbol) <= length,
        length > 0 ==> classes(uppercase, lowercase, number, symbol) > 0,
    ensures
        is_password(encode_utf8(password@), length as nat, uppercase, lowercase, number, symbol),
{
    let ghost allowed = pool(uppercase, lowercase, number, symbol);
    let mut password: Vec<u8> = Vec::new();
    let mut chars: Vec<u8> = Vec::new();
    assert(all_within(password@, chars@));
    if uppercase {
        open_class(&mut password, &mut chars, &UPPER);
    }
    assert(chars@ =~= class(uppercase, UPPER@));
    if lowercase {
        open_class(&mut password, &mut chars, &LOWER);
    }
    assert(chars@ =~= class(uppercase, UPPER@) + class(lowercase, LOWER@));
    if number {
        open_class(&mut password, &mut chars, &NUMBER);
    }
    assert(chars@ =~= class(uppercase, UPPER@) + class(lowercase, LOWER@) + class(
        number,
        NUMBER@,
    ));
    if symbol {
        open_class(&mut password, &mut chars, &SYMBOL);
    }
    assert(chars@ =~= allowed);
    assert(password@.len() == classes(uppercase, lowercase, number, symbol));
    fill_up(&mut password, &chars, length);
    let ghost drawn = password@;
    shuffle(&mut password);
    proof {
        lemma_order_is_free(drawn, password@, allowed);
        lemma_pool_is_ascii(uppercase, lowercase, number, symbol);
        assert forall|i: int| 0 <= i < password@.len() implies vstd::utf8::is_leading_byte_width_1(
            #[trigger] password@[i],
        ) by {
            let c = password@[i];
            let j = choose|j: int| 0 <= j < allowed.len() && allowed[j] == c;
            assert(allowed[j] <= 0x7f);
        }
        vstd::utf8::partial_valid_utf8_extend_ascii_block(password@, 0, password@.len() as int);
        assert(password@.subrange(0, password@.len() as int) =~= password@);
    }
    match utf8_text(password.as_slice()) {
        Some(text) => String::from_str(text),
        None => unreached(),
    }
}

} // verus!
