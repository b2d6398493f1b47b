//! Passwords as they are stored: salted, hashed and written out in three
//! fields with `$` between them, `sha512$<salt>$<hash>`.

use sha2::{Digest, Sha512};
use uuid::Uuid;
use vstd::prelude::*;
use vstd::string::{StrSliceExecFns, StringExecFns, StringSliceAdditionalSpecFns};
use crate::text::{chars_of, digit};

verus! {

/// The SHA-512 digest of a sequence of bytes.
pub uninterp spec fn sha512_digest(data: Seq<u8>) -> Seq<u8>;

/// Calls `sha2::Sha512::digest`, which hashes the bytes it is given in one
/// go, and copies the digest into a vector. The contract gives the digest
/// its name, `sha512_digest`, and claims nothing else of it.
#[verifier::external_body]
fn sha512(data: &[u8]) -> (digest: Vec<u8>)
    ensures
        digest@ == sha512_digest(data@),
{
    Sha512::digest(data).to_vec()
}

/// Whether a character is a digit of lower-case hexadecimal notation.
pub open spec fn is_lower_hex(c: char) -> bool {
    ('0' <= c && c <= '9') || ('a' <= c && c <= 'f')
}

/// Whether a text can be a salt: 32 digits of lower-case hexadecimal
/// notation.
pub open spec fn is_salt(salt: Seq<char>) -> bool {
    &&& salt.len() == 32
    &&& forall|i: int| 0 <= i < salt.len() ==> is_lower_hex(#[trigger] salt[i])
}

/// Calls `uuid::Uuid::new_v4` for a random identifier and has it written
/// out by `to_simple` and `encode_lower`: 32 hexadecimal digits in lower
/// case, without hyphens. Which digits is a matter of chance, so the
/// contract states their number and their kind and nothing more.
/// `new_v4` panics where the operating system has no random bytes to give.
#[verifier::external_body]
fn new_salt() -> (salt: String)
    ensures
        is_salt(salt@),
{
    Uuid::new_v4().to_simple().encode_lower(&mut Uuid::encode_buffer()).to_string()
}

/// The character that stands for a number below 16 in lower-case
/// hexadecimal notation.
pub open spec fn hex_digit(d: nat) -> char {
    if d < 10 {
        digit(d)
    } else if d == 10 {
        'a'
    } else if d == 11 {
        'b'
    } else if d == 12 {
        'c'
    } else if d == 13 {
        'd'
    } else if d == 14 {
        'e'
    } else {
        'f'
    }
}

/// Bytes in lower-case hexadecimal notation: two digits for each byte, the
/// higher first.
pub open spec fn hex_of(bytes: Seq<u8>) -> Seq<char> {
    Seq::new(
        2 * bytes.len(),
        |i: int|
            if i % 2 == 0 {
                hex_digit((bytes[i / 2] / 16) as nat)
            } else {
                hex_digit((bytes[i / 2] % 16) as nat)
            },
    )
}

/// The text of one hexadecimal digit.
fn hex_text(d: u8) -> (text: &'static str)
    requires
        d < 16,
    ensures
        text@ == seq![hex_digit(d as nat)],
{
    proof {
        reveal_strlit("0");
        reveal_strlit("1");
        reveal_strlit("2");
        reveal_strlit("3");
        reveal_strlit("4");
        reveal_strlit("5");
        reveal_strlit("6");
        reveal_strlit("7");
        reveal_strlit("8");
        reveal_strlit("9");
        reveal_strlit("a");
        reveal_strlit("b");
        reveal_strlit("c");
        reveal_strlit("d");
        reveal_strlit("e");
        reveal_strlit("f");
    }
    let text = if d == 0 {
        "0"
    } else if d == 1 {
        "1"
    } else if d == 2 {
        "2"
    } else if d == 3 {
        "3"
    } else if d == 4 {
        "4"
    } else if d == 5 {
        "5"
    } else if d == 6 {
        "6"
    } else if d == 7 {
        "7"
    } else if d == 8 {
        "8"
    } else if d == 9 {
        "9"
    } else if d == 10 {
        "a"
    } else if d == 11 {
        "b"
    } else if d == 12 {
        "c"
    } else if d == 13 {
        "d"
    } else if d == 14 {
        "e"
    } else {
        "f"
    };
    assert(text@ =~= seq![hex_digit(d as nat)]);
    text
}

/// Writes bytes in lower-case hexadecimal notation.
pub fn to_hex(bytes: &Vec<u8>) -> (text: String)
    ensures
        text@ == hex_of(bytes@),
{
    let mut text = String::new();
    let mut i: usize = 0;
    assert(text@ =~= hex_of(bytes@.take(0)));
    while i < bytes.len()
        invariant
            i <= bytes.len(),
            text@ == hex_of(bytes@.take(i as int)),
        decreases bytes.len() - i,
    {
        let byte: u8 = bytes[i];
        text.append(hex_text(byte / 16));
        text.append(hex_text(byte % 16));
        assert(text@ =~= hex_of(bytes@.take(i + 1)));
        i += 1;
    }
    assert(bytes@.take(i as int) =~= bytes@);
    text
}

/// The hash that is stored for a password under a salt: the SHA-512 digest
/// of the salt followed by the password, both in UTF-8, in lower-case
/// hexadecimal notation.
pub open spec fn salted_hash(salt: Seq<char>, password: Seq<char>) -> Seq<char> {
    hex_of(sha512_digest(vstd::utf8::encode_utf8(salt + password)))
}

/// What is stored for a password under a salt.
pub open spec fn credentials_of(salt: Seq<char>, password: Seq<char>) -> Seq<char> {
    "sha512"@ + seq!['$'] + salt + seq!['$'] + salted_hash(salt, password)
}

/// Hashes a password under a salt.
fn hash_with_salt(salt: &str, password: &str) -> (hash: String)
    ensures
        hash@ == salted_hash(salt@, password@),
{
    let mut salted = String::from_str(salt);
    salted.append(password);
    let digest = sha512(salted.as_str().as_bytes());
    to_hex(&digest)
}

/// Puts together what is stored for a password under a given salt.
pub fn credentials_with_salt(salt: &str, password: &str) -> (stored: String)
    ensures
        stored@ == credentials_of(salt@, password@),
{
    proof {
        reveal_strlit("$");
    }
    let hash = hash_with_salt(salt, password);
    let mut stored = String::from_str("sha512");
    stored.append("$");
    stored.append(salt);
    stored.append("$");
    stored.append(hash.as_str());
    assert("$"@ =~= seq!['$']);
    stored
}

/// Puts together what is stored for a password: `sha512`, a salt made for
/// this one password, and the hash of the password under that salt, with
/// `$` between them. Two calls give two salts, so what is stored differs
/// from call to call.
pub fn format_credentials(password: &str) -> (stored: String)
    ensures
        exists|salt: Seq<char>| is_salt(salt) && stored@ == credentials_of(salt, password@),
{
    let salt = new_salt();
    credentials_with_salt(salt.as_str(), password)
}

/// The fields of a text: what stands between one `$` and the next. A text
/// with n `$` in it has n + 1 fields, some of them empty where two `$`
/// meet or one stands at an end.
pub open spec fn fields_of(text: Seq<char>) -> Seq<Seq<char>>
    decreases text.len(),
{
    if text.len() == 0 {
        seq![Seq::<char>::empty()]
    } else {
        let before = fields_of(text.drop_last());
        if text.last() == '$' {
            before.push(Seq::<char>::empty())
        } else {
            before.update(before.len() - 1, before.last().push(text.last()))
        }
    }
}

/// Whether a stored text has the fields that a password is checked
/// against: at least three, of which the second is the salt and the third
/// the hash.
pub open spec fn has_salt_and_hash(stored: Seq<char>) -> bool {
    fields_of(stored).len() >= 3
}

/// Whether a password is the one that a stored text was made for: hashed
/// under the salt of the stored text, it gives the hash that is stored.
pub open spec fn matches_stored(password: Seq<char>, stored: Seq<char>) -> bool {
    salted_hash(fields_of(stored)[1], password) == fields_of(stored)[2]
}

/// Every text has a field.
proof fn lemma_fields_nonempty(text: Seq<char>)
    ensures
        fields_of(text).len() >= 1,
    decreases text.len(),
{
    if text.len() > 0 {
        lemma_fields_nonempty(text.drop_last());
    }
}

/// Finds the second and the third field of a text, where it has three.
fn find_salt_and_hash(chars: &Vec<char>) -> (found: Option<((usize, usize), (usize, usize))>)
    ensures
        found is Some == (fields_of(chars@).len() >= 3),
        found matches Some((salt, hash)) ==> salt.0 <= salt.1 <= chars@.len() && hash.0 <= hash.1
            <= chars@.len() && chars@.subrange(salt.0 as int, salt.1 as int) == fields_of(
            chars@,
        )[1] && chars@.subrange(hash.0 as int, hash.1 as int) == fields_of(chars@)[2],
{
    // The number of fields that are closed, up to 3, where the open field
    // starts, and where the second and third field lie once they are closed.
    let mut closed: usize = 0;
    let mut start: usize = 0;
    let mut salt: (usize, usize) = (0, 0);
    let mut hash: (usize, usize) = (0, 0);
    let mut i: usize = 0;
    assert(chars@.take(0) =~= Seq::<char>::empty());
    assert(chars@.subrange(0, 0) =~= Seq::<char>::empty());
    while i < chars.len()
        invariant
            i <= chars.len(),
            start <= i,
            closed <= 3,
            closed < 3 ==> fields_of(chars@.take(i as int)).len() == closed + 1,
            closed == 3 ==> fields_of(chars@.take(i as int)).len() >= 4,
            closed < 3 ==> fields_of(chars@.take(i as int)).last() == chars@.subrange(
                start as int,
                i as int,
            ),
            closed >= 2 ==> salt.0 <= salt.1 <= i && fields_of(chars@.take(i as int))[1]
                == chars@.subrange(salt.0 as int, salt.1 as int),
            closed >= 3 ==> hash.0 <= hash.1 <= i && fields_of(chars@.take(i as int))[2]
                == chars@.subrange(hash.0 as int, hash.1 as int),
        decreases chars.len() - i,
    {
        proof {
            assert(chars@.take(i + 1).drop_last() =~= chars@.take(i as int));
            assert(chars@.take(i + 1).last() == chars@[i as int]);
            lemma_fields_nonempty(chars@.take(i as int));
        }
        if chars[i] == '$' {
            if closed == 1 {
                salt = (start, i);
            } else if closed == 2 {
                hash = (start, i);
            }
            if closed < 3 {
                closed += 1;
            }
            start = i + 1;
            assert(chars@.subrange(start as int, i + 1) =~= Seq::<char>::empty());
        } else {
            assert(closed < 3 ==> chars@.subrange(start as int, i + 1) =~= chars@.subrange(
                start as int,
                i as int,
            ).push(chars@[i as int]));
        }
        i += 1;
    }
    assert(chars@.take(i as int) =~= chars@);
    if closed == 2 {
        Some((salt, (start, i)))
    } else if closed == 3 {
        Some((salt, hash))
    } else {
        None
    }
}

/// Whether a stored text has the fields that a password is checked
/// against.
pub fn is_checkable(password_db: &String) -> (b: bool)
    ensures
        b == has_salt_and_hash(password_db@),
{
    let chars = chars_of(password_db.as_str());
    find_salt_and_hash(&chars).is_some()
}

/// Whether a password is the one that a stored text was made for.
///
/// The stored text is taken apart at its `$`: the second field is the
/// salt, the third the hash, and whatever follows them counts for nothing.
/// The password is hashed under that salt and held against that hash. A
/// stored text with fewer than three fields cannot be checked against.
pub fn correct_cred(pass_in: &String, password_db: String) -> (same: bool)
    requires
        has_salt_and_hash(password_db@),
    ensures
        same == matches_stored(pass_in@, password_db@),
{
    let chars = chars_of(password_db.as_str());
    match find_salt_and_hash(&chars) {
        Some((salt_at, hash_at)) => {
            let salt = password_db.as_str().substring_char(salt_at.0, salt_at.1);
            let stored_hash = password_db.as_str().substring_char(hash_at.0, hash_at.1);
            let hashed_in = hash_with_salt(salt, pass_in.as_str());
            hashed_in == String::from_str(stored_hash)
        },
        None => false,
    }
}

/// Whether a text holds no `$`.
pub open spec fn is_plain(text: Seq<char>) -> bool {
    forall|i: int| 0 <= i < text.len() ==> #[trigger] text[i] != '$'
}

/// Text without `$`, added at the end of another text, makes the last field
/// longer and leaves the fields before it as they are.
proof fn lemma_fields_append_plain(text: Seq<char>, tail: Seq<char>)
    requires
        is_plain(tail),
    ensures
        fields_of(text).len() >= 1,
        fields_of(text + tail) == fields_of(text).update(
            fields_of(text).len() - 1,
            fields_of(text).last() + tail,
        ),
    decreases tail.len(),
{
    lemma_fields_nonempty(text);
    let fields = fields_of(text);
    if tail.len() == 0 {
        assert(text + tail =~= text);
        assert(fields.last() + tail =~= fields.last());
        assert(fields.update(fields.len() - 1, fields.last()) =~= fields);
    } else {
        let shorter = tail.drop_last();
        assert(is_plain(shorter)) by {
            assert forall|i: int| 0 <= i < shorter.len() implies #[trigger] shorter[i] != '$' by {
                assert(shorter[i] == tail[i]);
            }
        }
        lemma_fields_append_plain(text, shorter);
        assert((text + tail).drop_last() =~= text + shorter);
        assert((text + tail).last() == tail.last());
        assert(tail.last() == tail[tail.len() - 1]);
        assert((fields.last() + shorter).push(tail.last()) =~= fields.last() + tail);
        assert(fields_of(text + tail) =~= fields.update(fields.len() - 1, fields.last() + tail));
    }
}

/// Bytes in hexadecimal notation hold no `$`.
proof fn lemma_hex_is_plain(bytes: Seq<u8>)
    ensures
        is_plain(hex_of(bytes)),
{
    assert forall|i: int| 0 <= i < hex_of(bytes).len() implies #[trigger] hex_of(bytes)[i]
        != '$' by {
        let b = bytes[i / 2];
        assert(is_lower_hex(hex_digit((b / 16) as nat)));
        assert(is_lower_hex(hex_digit((b % 16) as nat)));
    }
}

/// What is stored for a password has exactly three fields: `sha512`, the
/// salt, and the hash of the password under that salt.
pub proof fn lemma_credentials_fields(salt: Seq<char>, password: Seq<char>)
    requires
        is_salt(salt),
    ensures
        fields_of(credentials_of(salt, password)) == seq![
            "sha512"@,
            salt,
            salted_hash(salt, password),
        ],
{
    reveal_strlit("sha512");
    let name = "sha512"@;
    let hash = salted_hash(salt, password);
    let none = Seq::<char>::empty();
    assert(is_plain(name));
    assert(is_plain(salt));
    lemma_hex_is_plain(sha512_digest(vstd::utf8::encode_utf8(salt + password)));
    // "sha512"
    assert(fields_of(none) == seq![none]);
    lemma_fields_append_plain(none, name);
    assert(none + name =~= name);
    assert(fields_of(name) =~= seq![name]);
    // "sha512$"
    let one = name + seq!['$'];
    assert(one.drop_last() =~= name);
    assert(fields_of(one) =~= seq![name, none]);
    // "sha512$<salt>"
    lemma_fields_append_plain(one, salt);
    assert(none + salt =~= salt);
    assert(fields_of(one + salt) =~= seq![name, salt]);
    // "sha512$<salt>$"
    let two = one + salt + seq!['$'];
    assert(two.drop_last() =~= one + salt);
    assert(fields_of(two) =~= seq![name, salt, none]);
    // "sha512$<salt>$<hash>"
    lemma_fields_append_plain(two, hash);
    assert(none + hash =~= hash);
    assert(fields_of(two + hash) =~= seq![name, salt, hash]);
    assert(two + hash =~= credentials_of(salt, password));
}

/// A password is accepted against what was stored for it, whatever the
/// salt. Another password is accepted against it only where both have the
/// same hash under that salt.
pub proof fn lemma_credentials_round_trip(salt: Seq<char>, password: Seq<char>, other: Seq<char>)
    requires
        is_salt(salt),
    ensures
        has_salt_and_hash(credentials_of(salt, password)),
        matches_stored(password, credentials_of(salt, password)),
        matches_stored(other, credentials_of(salt, password)) == (salted_hash(salt, other)
            == salted_hash(salt, password)),
{
    lemma_credentials_fields(salt, password);
}

} // verus!
