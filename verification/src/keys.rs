//! Key encoding: the text under which each kind of record is stored.
//!
//! Every key is a tag that names the kind of record, followed by what
//! identifies the record: a number written with nine digits at least, or a
//! peer address written as its name, a dot and its device number.

use vstd::prelude::*;
use vstd::string::*;
use crate::order::{lemma_order_after_same_start, lemma_order_is_decided_in_front, precedes};
use crate::store::{key_bytes, SledConfigStore};
use crate::text::{
    all_digits, append_decimal, append_zero_padded, decimal, decimal_bytes, digits_value, is_digit,
    lemma_decimal_bytes, lemma_decimal_bytes_len, lemma_decimal_len_bound, lemma_encode_concat,
    lemma_encode_decimal, lemma_encode_injective, zero_padded,
};
use vstd::utf8::*;

verus! {

/// The key of the registration state.
pub const SLED_KEY_STATE: &'static str = "state";

/// The key of the contacts.
pub const SLED_KEY_CONTACTS: &'static str = "contacts";

/// The key of the counter from which pre-key identifiers are taken.
pub const SLED_KEY_PRE_KEYS_OFFSET_ID: &'static str = "pre_keys_offset_id";

/// The key of the counter from which signed pre-key identifiers are taken.
pub const SLED_KEY_NEXT_SIGNED_PRE_KEY_ID: &'static str = "next_signed_pre_key_id";

/// The device of a peer: the peer's name and the number of the device.
#[derive(Debug, PartialEq, Eq)]
pub struct ProtocolAddress {
    pub name: String,
    pub device_id: u32,
}

impl Clone for ProtocolAddress {
    fn clone(&self) -> (copy: Self)
        ensures
            copy.name@ == self.name@,
            copy.device_id == self.device_id,
    {
        ProtocolAddress { name: self.name.clone(), device_id: self.device_id }
    }
}

/// The text of an address: the name, a dot, and the device number in decimal.
pub open spec fn address_text(name: Seq<char>, device_id: u32) -> Seq<char> {
    name + "."@ + decimal(device_id as nat)
}

/// The key of the pre-key with identifier `id`.
pub open spec fn prekey_key_text(id: u32) -> Seq<char> {
    "prekey-"@ + zero_padded(id as nat, 9)
}

/// The key of the signed pre-key with identifier `id`.
pub open spec fn signed_prekey_key_text(id: u32) -> Seq<char> {
    "signed-prekey-"@ + zero_padded(id as nat, 9)
}

/// The key of the session with the device `device_id` of the peer `name`.
pub open spec fn session_key_text(name: Seq<char>, device_id: u32) -> Seq<char> {
    "session-"@ + address_text(name, device_id)
}

/// What the keys of all sessions with the peer `name` begin with.
pub open spec fn session_prefix_text(name: Seq<char>) -> Seq<char> {
    "session-"@ + name + "."@
}

/// The key of the identity of the device `device_id` of the peer `name`.
pub open spec fn identity_key_text(name: Seq<char>, device_id: u32) -> Seq<char> {
    "identity-remote-"@ + address_text(name, device_id)
}

impl ProtocolAddress {
    /// The address of the device `device_id` of the peer `name`.
    pub fn new(name: String, device_id: u32) -> (address: Self)
        ensures
            address.name == name,
            address.device_id == device_id,
    {
        ProtocolAddress { name, device_id }
    }

    /// The address as text: the name, a dot and the device number.
    pub fn to_text(&self) -> (text: String)
        ensures
            text@ == address_text(self.name@, self.device_id),
    {
        let mut text = String::new();
        append_address(&mut text, self);
        assert(text@ =~= address_text(self.name@, self.device_id));
        text
    }
}

/// Writes an address at the end of `text`.
fn append_address(text: &mut String, address: &ProtocolAddress)
    ensures
        final(text)@ == old(text)@ + address_text(address.name@, address.device_id),
{
    text.append(address.name.as_str());
    text.append(".");
    append_decimal(text, address.device_id);
    assert(text@ =~= old(text)@ + address_text(address.name@, address.device_id));
}

impl SledConfigStore {
    /// The key under which the pre-key `id` is stored.
    pub fn prekey_key(&self, id: u32) -> (key: String)
        ensures
            key@ == prekey_key_text(id),
    {
        let mut key = String::from_str("prekey-");
        append_zero_padded(&mut key, id, 9);
        key
    }

    /// The key under which the signed pre-key `id` is stored.
    pub fn signed_prekey_key(&self, id: u32) -> (key: String)
        ensures
            key@ == signed_prekey_key_text(id),
    {
        let mut key = String::from_str("signed-prekey-");
        append_zero_padded(&mut key, id, 9);
        key
    }

    /// The key under which the session with `addr` is stored.
    pub fn session_key(&self, addr: &ProtocolAddress) -> (key: String)
        ensures
            key@ == session_key_text(addr.name@, addr.device_id),
    {
        let mut key = String::from_str("session-");
        append_address(&mut key, addr);
        key
    }

    /// What the keys of all sessions with the peer `name` begin with.
    pub fn session_prefix(&self, name: &str) -> (prefix: String)
        ensures
            prefix@ == session_prefix_text(name@),
    {
        let mut prefix = String::from_str("session-");
        prefix.append(name);
        prefix.append(".");
        prefix
    }

    /// The key under which the identity of `addr` is stored.
    pub fn identity_key(&self, addr: &ProtocolAddress) -> (key: String)
        ensures
            key@ == identity_key_text(addr.name@, addr.device_id),
    {
        let mut key = String::from_str("identity-remote-");
        append_address(&mut key, addr);
        key
    }
}

/// What a key of the default keyspace stands for.
pub enum Record {
    /// The registration state.
    State,
    /// The contacts.
    Contacts,
    /// The counter of pre-key identifiers.
    PreKeysOffsetId,
    /// The counter of signed pre-key identifiers.
    NextSignedPreKeyId,
    /// The pre-key with the identifier.
    PreKey(u32),
    /// The signed pre-key with the identifier.
    SignedPreKey(u32),
    /// The identity of the device of the peer.
    Identity(Seq<char>, u32),
}

/// The key under which a record of the default keyspace is stored.
pub open spec fn record_key_text(record: Record) -> Seq<char> {
    match record {
        Record::State => SLED_KEY_STATE@,
        Record::Contacts => SLED_KEY_CONTACTS@,
        Record::PreKeysOffsetId => SLED_KEY_PRE_KEYS_OFFSET_ID@,
        Record::NextSignedPreKeyId => SLED_KEY_NEXT_SIGNED_PRE_KEY_ID@,
        Record::PreKey(id) => prekey_key_text(id),
        Record::SignedPreKey(id) => signed_prekey_key_text(id),
        Record::Identity(name, device_id) => identity_key_text(name, device_id),
    }
}

/// Texts that begin alike and are the same go on alike.
pub proof fn lemma_same_start<T>(start: Seq<T>, x: Seq<T>, y: Seq<T>)
    requires
        start + x == start + y,
    ensures
        x == y,
{
    assert(x =~= (start + x).subrange(start.len() as int, (start + x).len() as int));
    assert(y =~= (start + y).subrange(start.len() as int, (start + y).len() as int));
}

/// Zeros write the number zero.
proof fn lemma_zeros_value(zeros: Seq<u8>)
    requires
        forall|i: int| 0 <= i < zeros.len() ==> zeros[i] == 48,
    ensures
        digits_value(zeros) == 0,
    decreases zeros.len(),
{
    if zeros.len() > 0 {
        lemma_zeros_value(zeros.drop_last());
    }
}

/// Zeros in front of digits change nothing of the number written.
proof fn lemma_leading_zeros(zeros: Seq<u8>, digits: Seq<u8>)
    requires
        forall|i: int| 0 <= i < zeros.len() ==> zeros[i] == 48,
    ensures
        digits_value(zeros + digits) == digits_value(digits),
    decreases digits.len(),
{
    if digits.len() == 0 {
        assert(zeros + digits =~= zeros);
        lemma_zeros_value(zeros);
    } else {
        lemma_leading_zeros(zeros, digits.drop_last());
        assert((zeros + digits).drop_last() =~= zeros + digits.drop_last());
    }
}

/// A number written with leading zeros is still read as itself.
pub proof fn lemma_zero_padded_value(n: nat, width: nat)
    ensures
        digits_value(encode_utf8(zero_padded(n, width))) == n,
{
    lemma_encode_decimal(n);
    lemma_decimal_bytes(n);
    if decimal(n).len() < width {
        let zeros = Seq::new((width - decimal(n).len()) as nat, |i: int| '0');
        lemma_encode_concat(zeros, decimal(n));
        assert(is_ascii_chars(zeros));
        is_ascii_chars_encode_utf8(zeros);
        lemma_leading_zeros(encode_utf8(zeros), decimal_bytes(n));
    }
}

/// Two numbers that are written alike with leading zeros are the same.
pub proof fn lemma_zero_padded_injective(a: nat, b: nat, width: nat)
    requires
        zero_padded(a, width) == zero_padded(b, width),
    ensures
        a == b,
{
    lemma_zero_padded_value(a, width);
    lemma_zero_padded_value(b, width);
}

/// The encoding of the dot that stands between a name and a device number.
proof fn lemma_dot()
    ensures
        "."@ == seq!['.'],
        encode_utf8("."@) == seq![46u8],
{
    reveal_strlit(".");
    assert("."@ =~= seq!['.']);
    assert(is_ascii_chars("."@));
    is_ascii_chars_encode_utf8("."@);
    assert(encode_utf8("."@) =~= seq![46u8]);
}

/// Where a byte string is cut at a dot after which only digits follow, and
/// again at a dot after which no dot follows, the two cuts are the same.
pub proof fn lemma_cut_at_last_dot(m: Seq<u8>, d: Seq<u8>, n: Seq<u8>, r: Seq<u8>)
    requires
        m + seq![46u8] + d == n + seq![46u8] + r,
        all_digits(d),
        forall|i: int| 0 <= i < r.len() ==> r[i] != 46,
    ensures
        m == n,
        d == r,
{
    let left = m + seq![46u8] + d;
    let right = n + seq![46u8] + r;
    assert(left.len() == m.len() + 1 + d.len());
    assert(right.len() == n.len() + 1 + r.len());
    if n.len() < m.len() {
        assert(left[m.len() as int] == 46);
        assert(right[m.len() as int] == r[m.len() - n.len() - 1]);
        assert(false);
    } else if n.len() > m.len() {
        assert(right[n.len() as int] == 46);
        assert(left[n.len() as int] == d[n.len() - m.len() - 1]);
        assert(is_digit(d[n.len() - m.len() - 1]));
        assert(false);
    } else {
        assert(m =~= left.subrange(0, m.len() as int));
        assert(n =~= right.subrange(0, n.len() as int));
        assert(d =~= left.subrange(m.len() as int + 1, left.len() as int));
        assert(r =~= right.subrange(n.len() as int + 1, right.len() as int));
    }
}

/// The encoding of an address: that of the name, a dot, the device number.
pub proof fn lemma_encode_address(name: Seq<char>, device_id: u32)
    ensures
        encode_utf8(address_text(name, device_id)) == encode_utf8(name) + seq![46u8]
            + decimal_bytes(device_id as nat),
{
    lemma_dot();
    lemma_encode_decimal(device_id as nat);
    lemma_encode_concat(name + "."@, decimal(device_id as nat));
    lemma_encode_concat(name, "."@);
}

/// Two addresses with the same text are the same address.
pub proof fn lemma_address_injective(
    name: Seq<char>,
    device_id: u32,
    other_name: Seq<char>,
    other_device_id: u32,
)
    requires
        address_text(name, device_id) == address_text(other_name, other_device_id),
    ensures
        name == other_name,
        device_id == other_device_id,
{
    lemma_encode_address(name, device_id);
    lemma_encode_address(other_name, other_device_id);
    lemma_decimal_bytes(device_id as nat);
    lemma_decimal_bytes(other_device_id as nat);
    let r = decimal_bytes(other_device_id as nat);
    assert forall|i: int| 0 <= i < r.len() implies r[i] != 46 by {
        assert(is_digit(r[i]));
    }
    lemma_cut_at_last_dot(
        encode_utf8(name),
        decimal_bytes(device_id as nat),
        encode_utf8(other_name),
        r,
    );
    lemma_encode_injective(name, other_name);
}

/// The key of a session names its address: two addresses with the same
/// session key are the same.
pub proof fn lemma_session_key_injective(
    name: Seq<char>,
    device_id: u32,
    other_name: Seq<char>,
    other_device_id: u32,
)
    requires
        session_key_text(name, device_id) == session_key_text(other_name, other_device_id),
    ensures
        name == other_name,
        device_id == other_device_id,
{
    lemma_same_start(
        "session-"@,
        address_text(name, device_id),
        address_text(other_name, other_device_id),
    );
    lemma_address_injective(name, device_id, other_name, other_device_id);
}

/// The key of a record of the default keyspace begins with the tag of its
/// kind, and the tags differ within their first four characters.
proof fn lemma_record_tag(record: Record)
    ensures
        record_key_text(record).len() >= 5,
        record is State ==> record_key_text(record)[0] == 's' && record_key_text(record)[1] == 't',
        record is Contacts ==> record_key_text(record)[0] == 'c',
        record is PreKeysOffsetId ==> record_key_text(record)[0] == 'p' && record_key_text(
            record,
        )[3] == '_',
        record is NextSignedPreKeyId ==> record_key_text(record)[0] == 'n',
        record is PreKey ==> record_key_text(record)[0] == 'p' && record_key_text(record)[3] == 'k',
        record is SignedPreKey ==> record_key_text(record)[0] == 's' && record_key_text(
            record,
        )[1] == 'i',
        record is Identity ==> record_key_text(record)[0] == 'i',
{
    reveal_strlit("state");
    reveal_strlit("contacts");
    reveal_strlit("pre_keys_offset_id");
    reveal_strlit("next_signed_pre_key_id");
    reveal_strlit("prekey-");
    reveal_strlit("signed-prekey-");
    reveal_strlit("identity-remote-");
}

/// The keys of the default keyspace tell their records apart: two records
/// with the same key are the same record.
pub proof fn lemma_record_key_injective(record: Record, other: Record)
    requires
        record_key_text(record) == record_key_text(other),
    ensures
        record == other,
{
    lemma_record_tag(record);
    lemma_record_tag(other);
    match (record, other) {
        (Record::PreKey(id), Record::PreKey(other_id)) => {
            lemma_same_start("prekey-"@, zero_padded(id as nat, 9), zero_padded(other_id as nat, 9));
            lemma_zero_padded_injective(id as nat, other_id as nat, 9);
        },
        (Record::SignedPreKey(id), Record::SignedPreKey(other_id)) => {
            lemma_same_start(
                "signed-prekey-"@,
                zero_padded(id as nat, 9),
                zero_padded(other_id as nat, 9),
            );
            lemma_zero_padded_injective(id as nat, other_id as nat, 9);
        },
        (Record::Identity(name, device_id), Record::Identity(other_name, other_device_id)) => {
            lemma_same_start(
                "identity-remote-"@,
                address_text(name, device_id),
                address_text(other_name, other_device_id),
            );
            lemma_address_injective(name, device_id, other_name, other_device_id);
        },
        _ => {},
    }
}

/// Digits of one length that write the same number are the same digits.
proof fn lemma_same_value_same_digits(x: Seq<u8>, y: Seq<u8>)
    requires
        x.len() == y.len(),
        all_digits(x),
        all_digits(y),
        digits_value(x) == digits_value(y),
    ensures
        x == y,
    decreases x.len(),
{
    if x.len() > 0 {
        assert(is_digit(x.last()) && is_digit(y.last()));
        assert(all_digits(x.drop_last())) by {
            assert forall|i: int| 0 <= i < x.drop_last().len() implies is_digit(
                #[trigger] x.drop_last()[i],
            ) by {
                assert(is_digit(x[i]));
            }
        }
        assert(all_digits(y.drop_last())) by {
            assert forall|i: int| 0 <= i < y.drop_last().len() implies is_digit(
                #[trigger] y.drop_last()[i],
            ) by {
                assert(is_digit(y[i]));
            }
        }
        lemma_same_value_same_digits(x.drop_last(), y.drop_last());
        assert(x =~= x.drop_last().push(x.last()));
        assert(y =~= y.drop_last().push(y.last()));
    } else {
        assert(x =~= y);
    }
}

/// Digits of one length are in the order of the numbers that they write.
proof fn lemma_digits_in_order(x: Seq<u8>, y: Seq<u8>)
    requires
        x.len() == y.len(),
        all_digits(x),
        all_digits(y),
        digits_value(x) < digits_value(y),
    ensures
        precedes(x, y),
    decreases x.len(),
{
    if x.len() > 0 {
        let front = x.drop_last();
        let other_front = y.drop_last();
        assert(is_digit(x.last()) && is_digit(y.last()));
        assert(all_digits(front)) by {
            assert forall|i: int| 0 <= i < front.len() implies is_digit(#[trigger] front[i]) by {
                assert(is_digit(x[i]));
            }
        }
        assert(all_digits(other_front)) by {
            assert forall|i: int| 0 <= i < other_front.len() implies is_digit(
                #[trigger] other_front[i],
            ) by {
                assert(is_digit(y[i]));
            }
        }
        assert(x =~= front + seq![x.last()]);
        assert(y =~= other_front + seq![y.last()]);
        if digits_value(front) < digits_value(other_front) {
            lemma_digits_in_order(front, other_front);
            lemma_order_is_decided_in_front(front, other_front, seq![x.last()], seq![y.last()]);
        } else {
            lemma_same_value_same_digits(front, other_front);
            lemma_order_after_same_start(front, seq![x.last()], seq![y.last()]);
        }
    }
}

/// The bytes of a number written with leading zeros are digits, as many as
/// the width where the number has no more digits than that.
proof fn lemma_zero_padded_digits(n: nat, width: nat)
    ensures
        all_digits(encode_utf8(zero_padded(n, width))),
        decimal(n).len() <= width ==> encode_utf8(zero_padded(n, width)).len() == width,
{
    lemma_encode_decimal(n);
    lemma_decimal_bytes(n);
    lemma_decimal_bytes_len(n);
    if decimal(n).len() < width {
        let zeros = Seq::new((width - decimal(n).len()) as nat, |i: int| '0');
        lemma_encode_concat(zeros, decimal(n));
        assert(is_ascii_chars(zeros));
        is_ascii_chars_encode_utf8(zeros);
        let bytes = encode_utf8(zeros) + decimal_bytes(n);
        assert forall|i: int| 0 <= i < bytes.len() implies is_digit(#[trigger] bytes[i]) by {
            if i < zeros.len() {
                assert(bytes[i] == encode_utf8(zeros)[i]);
                assert(zeros[i] == '0');
            } else {
                assert(bytes[i] == decimal_bytes(n)[i - zeros.len()]);
            }
        }
    }
}

/// The keys of pre-keys with at most nine digits are stored in the order of
/// their identifiers, and so are those of signed pre-keys.
pub proof fn law_keys_are_ordered_as_their_numbers(id: u32, later_id: u32)
    requires
        id < later_id < 1_000_000_000,
    ensures
        precedes(key_bytes(prekey_key_text(id)), key_bytes(prekey_key_text(later_id))),
        precedes(
            key_bytes(signed_prekey_key_text(id)),
            key_bytes(signed_prekey_key_text(later_id)),
        ),
{
    let digits = encode_utf8(zero_padded(id as nat, 9));
    let later_digits = encode_utf8(zero_padded(later_id as nat, 9));
    lemma_decimal_len_bound(id as nat);
    lemma_decimal_len_bound(later_id as nat);
    lemma_zero_padded_digits(id as nat, 9);
    lemma_zero_padded_digits(later_id as nat, 9);
    lemma_zero_padded_value(id as nat, 9);
    lemma_zero_padded_value(later_id as nat, 9);
    lemma_digits_in_order(digits, later_digits);
    lemma_encode_concat("prekey-"@, zero_padded(id as nat, 9));
    lemma_encode_concat("prekey-"@, zero_padded(later_id as nat, 9));
    lemma_order_after_same_start(encode_utf8("prekey-"@), digits, later_digits);
    lemma_encode_concat("signed-prekey-"@, zero_padded(id as nat, 9));
    lemma_encode_concat("signed-prekey-"@, zero_padded(later_id as nat, 9));
    lemma_order_after_same_start(encode_utf8("signed-prekey-"@), digits, later_digits);
}

} // verus!
