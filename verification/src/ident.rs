//! Identities that are drawn at random.

use vstd::prelude::*;
use vstd::string::*;

verus! {

/// Whether a character is a hexadecimal digit, in lower case.
pub open spec fn is_hex_digit(c: char) -> bool {
    '0' <= c <= '9' || 'a' <= c <= 'f'
}

/// Whether every character of `s` is a hexadecimal digit, in lower case.
pub open spec fn all_hex(s: Seq<char>) -> bool {
    forall|i: int| 0 <= i < s.len() ==> is_hex_digit(#[trigger] s[i])
}

/// Whether `s` is the id of a machine: `pc-` and ten hexadecimal digits.
pub open spec fn is_device_id(s: Seq<char>) -> bool {
    &&& s.len() == 13
    &&& "pc-"@.is_prefix_of(s)
    &&& all_hex(s.skip(3))
}

/// `uuid::Uuid::new_v4`, in the form that `Uuid::simple` gives it: 32 hexadecimal digits in lower
/// case. Which ones is up to chance.
#[verifier::external_body]
fn random_uuid() -> (uuid: String)
    ensures
        uuid@.len() == 32,
        all_hex(uuid@),
{
    uuid::Uuid::new_v4().simple().to_string()
}

/// A token that no other process on the machine will guess by accident.
pub fn fresh_token() -> (token: String)
    ensures
        token@.len() == 32,
        all_hex(token@),
{
    random_uuid()
}

/// The id of a machine to which `uuid` has been dealt.
pub open spec fn id_from(uuid: Seq<char>) -> Seq<char> {
    "pc-"@ + uuid.take(10)
}

/// The id of a machine to which `uuid` has been dealt. The prefix tells these screens from others
/// in the dashboard.
pub fn device_id_from(uuid: &str) -> (id: String)
    requires
        uuid@.len() >= 10,
    ensures
        id@ == "pc-"@ + uuid@.take(10),
        id@ == id_from(uuid@),
{
    let mut id = "pc-".to_owned();
    proof {
        assert(uuid@.subrange(0, 10) =~= uuid@.take(10));
    }
    id.append(uuid.substring_char(0, 10));
    id
}

/// An id for a machine that has none yet.
pub fn fresh_device_id() -> (id: String)
    ensures
        is_device_id(id@),
{
    let uuid = random_uuid();
    proof {
        reveal_strlit("pc-");
        let id = "pc-"@ + uuid@.take(10);
        assert(id.skip(3) =~= uuid@.take(10));
        assert("pc-"@ =~= id.subrange(0, 3));
    }
    device_id_from(uuid.as_str())
}

/// The id of a machine is `pc-` and the first ten digits it was dealt, in order.
pub proof fn law_a_machine_is_known_by_ten_digits(uuid: Seq<char>, i: int)
    requires
        uuid.len() >= 10,
    ensures
        ({
            let id = id_from(uuid);
            &&& id.len() == 13
            &&& id[0] == 'p' && id[1] == 'c' && id[2] == '-'
            &&& 0 <= i < 10 ==> id[3 + i] == uuid[i]
            &&& all_hex(uuid) ==> is_device_id(id)
        }),
{
    reveal_strlit("pc-");
    let id = id_from(uuid);
    assert(id.skip(3) =~= uuid.take(10));
    assert("pc-"@ =~= id.subrange(0, 3));
}

/// Every id of a machine is of that form.
pub proof fn law_what_an_id_looks_like(id: Seq<char>, i: int)
    requires
        is_device_id(id),
    ensures
        id.len() == 13,
        id[0] == 'p' && id[1] == 'c' && id[2] == '-',
        3 <= i < 13 ==> '0' <= id[i] <= '9' || 'a' <= id[i] <= 'f',
{
    reveal_strlit("pc-");
    assert(id.subrange(0, 3)[0] == 'p' && id.subrange(0, 3)[1] == 'c' && id.subrange(0, 3)[2]
        == '-');
    if 3 <= i < 13 {
        assert(is_hex_digit(id.skip(3)[i - 3]));
    }
}

/// The hexadecimal digits are the ten decimal ones and the letters from a to f, in lower case.
pub proof fn law_which_characters_are_digits(c: char, s: Seq<char>)
    ensures
        is_hex_digit(c) <==> 48 <= c as int <= 57 || 97 <= c as int <= 102,
        all_hex(s) <==> forall|i: int|
            0 <= i < s.len() ==> 48 <= (#[trigger] s[i]) as int <= 57 || 97 <= s[i] as int <= 102,
{
}

} // verus!
