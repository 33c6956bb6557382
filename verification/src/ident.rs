//! Short random identifiers for terminals and views.

use vstd::prelude::*;
use vstd::string::*;

use crate::text::{self, hex_digit, hexadecimal_digit, same_text};

verus! {

/// How many different short ids there are.
pub const SHORT_IDS: u64 = 0x1_0000_0000;

/// How many random ids are drawn before the ids are searched in order.
const RANDOM_DRAWS: u32 = 1000;

/// A lower-case hexadecimal digit.
pub open spec fn is_hex_char(c: char) -> bool {
    '0' <= c <= '9' || 'a' <= c <= 'f'
}

/// Eight lower-case hexadecimal digits.
pub open spec fn is_short_id(s: Seq<char>) -> bool {
    &&& s.len() == 8
    &&& forall|i: int| 0 <= i < 8 ==> is_hex_char(#[trigger] s[i])
}

/// A random UUID in its usual form: lower-case hexadecimal digits in groups of
/// 8, 4, 4, 4 and 12 with hyphens between them, the third group starting with 4.
pub open spec fn is_uuid_text(s: Seq<char>) -> bool {
    &&& s.len() == 36
    &&& s[8] == '-' && s[13] == '-' && s[18] == '-' && s[23] == '-'
    &&& s[14] == '4'
    &&& forall|i: int|
        0 <= i < 36 && i != 8 && i != 13 && i != 18 && i != 23 ==> is_hex_char(#[trigger] s[i])
}

/// Whether a list of texts holds a text.
pub open spec fn holds(texts: Seq<String>, s: Seq<char>) -> bool {
    exists|i: int| 0 <= i < texts.len() && (#[trigger] texts[i])@ == s
}

/// A number in hexadecimal, exactly `width` digits wide.
pub open spec fn fixed_hex(n: nat, width: nat) -> Seq<char>
    decreases width,
{
    if width == 0 {
        Seq::empty()
    } else {
        fixed_hex(n / 16, (width - 1) as nat).push(hex_digit(n % 16))
    }
}

/// `uuid::Uuid::new_v4` draws a random UUID, and its `to_string` writes it in the usual
/// hyphenated lower-case form. Which one is drawn is left open.
#[verifier::external_body]
fn random_uuid() -> (text: String)
    ensures
        is_uuid_text(text@),
{
    uuid::Uuid::new_v4().to_string()
}

/// The short id that a UUID begins with.
pub fn short_id(uuid: &str) -> (id: String)
    requires
        is_uuid_text(uuid@),
    ensures
        id@ == uuid@.take(8),
        is_short_id(id@),
{
    let id = uuid.substring_char(0, 8).to_owned();
    proof {
        assert(id@ =~= uuid@.take(8));
        assert forall|i: int| 0 <= i < 8 implies is_hex_char(#[trigger] id@[i]) by {
            assert(id@[i] == uuid@[i]);
        }
    }
    id
}

/// Whether `ids` holds `id`.
pub fn is_taken(ids: &Vec<String>, id: &str) -> (taken: bool)
    ensures
        taken == holds(ids@, id@),
        taken == text::contents(ids@).contains(id@),
{
    let ghost all = text::contents(ids@);
    let mut i: usize = 0;
    while i < ids.len()
        invariant
            i <= ids@.len(),
            all == text::contents(ids@),
            forall|j: int| 0 <= j < i ==> (#[trigger] ids@[j])@ != id@,
        decreases ids@.len() - i,
    {
        if same_text(ids[i].as_str(), id) {
            proof {
                assert(all[i as int] == id@);
            }
            return true;
        }
        i += 1;
    }
    proof {
        if all.contains(id@) {
            let j = choose|j: int| 0 <= j < all.len() && all[j] == id@;
            assert(ids@[j]@ == id@);
        }
    }
    false
}

/// Writes a number as eight hexadecimal digits.
fn numbered_id(n: u64) -> (id: String)
    requires
        n < SHORT_IDS,
    ensures
        id@ == fixed_hex(n as nat, 8),
        is_short_id(id@),
{
    let mut id = String::new();
    push_fixed_hex(&mut id, n, 8);
    proof {
        fixed_hex_shape(n as nat, 8);
        assert(id@ =~= fixed_hex(n as nat, 8));
    }
    id
}

fn push_fixed_hex(out: &mut String, n: u64, width: u64)
    ensures
        final(out)@ == old(out)@ + fixed_hex(n as nat, width as nat),
    decreases width,
{
    if width > 0 {
        push_fixed_hex(out, n / 16, width - 1);
        out.push(hexadecimal_digit((n % 16) as u8));
    }
    proof {
        assert(final(out)@ =~= old(out)@ + fixed_hex(n as nat, width as nat));
    }
}

proof fn fixed_hex_shape(n: nat, width: nat)
    ensures
        fixed_hex(n, width).len() == width,
        forall|i: int| 0 <= i < width ==> is_hex_char(#[trigger] fixed_hex(n, width)[i]),
    decreases width,
{
    if width > 0 {
        fixed_hex_shape(n / 16, (width - 1) as nat);
    }
}

spec fn power16(width: nat) -> nat
    decreases width,
{
    if width == 0 {
        1
    } else {
        16 * power16((width - 1) as nat)
    }
}

proof fn fixed_hex_injective(m: nat, n: nat, width: nat)
    requires
        m < power16(width),
        n < power16(width),
        fixed_hex(m, width) == fixed_hex(n, width),
    ensures
        m == n,
    decreases width,
{
    if width > 0 {
        let w = (width - 1) as nat;
        let a = fixed_hex(m, width);
        let b = fixed_hex(n, width);
        assert(a.drop_last() =~= fixed_hex(m / 16, w));
        assert(b.drop_last() =~= fixed_hex(n / 16, w));
        assert(a.last() == hex_digit(m % 16));
        assert(b.last() == hex_digit(n % 16));
        fixed_hex_injective(m / 16, n / 16, w);
    }
}

spec fn first_ids(k: nat) -> Set<Seq<char>>
    decreases k,
{
    if k == 0 {
        Set::empty()
    } else {
        first_ids((k - 1) as nat).insert(fixed_hex((k - 1) as nat, 8))
    }
}

proof fn first_ids_members(k: nat, s: Seq<char>)
    requires
        first_ids(k).contains(s),
    ensures
        exists|n: nat| n < k && s == #[trigger] fixed_hex(n, 8),
    decreases k,
{
    if k > 0 {
        if s == fixed_hex((k - 1) as nat, 8) {
        } else {
            first_ids_members((k - 1) as nat, s);
        }
    }
}

proof fn first_ids_count(k: nat)
    requires
        k <= SHORT_IDS,
    ensures
        first_ids(k).finite(),
        first_ids(k).len() == k,
    decreases k,
{
    if k > 0 {
        let m = (k - 1) as nat;
        first_ids_count(m);
        if first_ids(m).contains(fixed_hex(m, 8)) {
            first_ids_members(m, fixed_hex(m, 8));
            let n = choose|n: nat| n < m && fixed_hex(m, 8) == #[trigger] fixed_hex(n, 8);
            reveal_with_fuel(power16, 9);
            fixed_hex_injective(m, n, 8);
        }
    }
}

proof fn some_id_is_free(ids: Seq<String>)
    requires
        ids.len() < SHORT_IDS,
    ensures
        exists|n: nat| n < SHORT_IDS && !holds(ids, #[trigger] fixed_hex(n, 8)),
{
    if forall|n: nat| n < SHORT_IDS ==> holds(ids, #[trigger] fixed_hex(n, 8)) {
        let all = first_ids(SHORT_IDS as nat);
        let views = ids.map_values(|s: String| s@);
        first_ids_count(SHORT_IDS as nat);
        assert forall|s: Seq<char>| all.contains(s) implies views.to_set().contains(s) by {
            first_ids_members(SHORT_IDS as nat, s);
            assert(holds(ids, s));
            let i = choose|i: int| 0 <= i < ids.len() && (#[trigger] ids[i])@ == s;
            assert(views[i] == s);
        }
        views.lemma_cardinality_of_set();
        vstd::set_lib::lemma_len_subset(all, views.to_set());
        assert(false);
    }
}

/// A short id that is not in `ids`: a random one, or, where the draws keep meeting taken
/// ids, the first free one.
pub fn fresh_id(ids: &Vec<String>) -> (id: String)
    requires
        ids@.len() < SHORT_IDS,
    ensures
        is_short_id(id@),
        !holds(ids@, id@),
{
    let mut draws: u32 = 0;
    while draws < RANDOM_DRAWS
        decreases RANDOM_DRAWS - draws,
    {
        let id = short_id(random_uuid().as_str());
        if !is_taken(ids, id.as_str()) {
            return id;
        }
        draws += 1;
    }
    proof {
        some_id_is_free(ids@);
    }
    let ghost free = choose|n: nat| n < SHORT_IDS && !holds(ids@, #[trigger] fixed_hex(n, 8));
    let mut n: u64 = 0;
    loop
        invariant
            n <= free < SHORT_IDS,
            !holds(ids@, fixed_hex(free, 8)),
        decreases free - n,
    {
        let id = numbered_id(n);
        if !is_taken(ids, id.as_str()) {
            return id;
        }
        n += 1;
    }
}

/// A short id is eight digits of lower-case hexadecimal, and fits the id field of a frame.
pub proof fn short_ids_fit_frames(id: Seq<char>)
    requires
        is_short_id(id),
    ensures
        id.len() == 8,
        forall|i: int|
            0 <= i < 8 ==> '0' <= #[trigger] id[i] <= '9' || 'a' <= id[i] <= 'f',
        vstd::utf8::encode_utf8(id).len() == 8,
        id.last() != '\0',
{
    assert(vstd::utf8::is_ascii_chars(id));
    vstd::utf8::is_ascii_chars_encode_utf8(id);
}

/// A list holds a text exactly where one of its entries is that text.
pub proof fn held_texts_are_entries(texts: Seq<String>, s: Seq<char>)
    ensures
        holds(texts, s) <==> exists|i: int| 0 <= i < texts.len() && (#[trigger] texts[i])@ == s,
{
}

/// A fresh id is none of those that are taken, and has eight hexadecimal digits.
pub proof fn fresh_ids_are_not_taken(ids: Vec<String>, id: String, asked: &str, taken: bool)
    requires
        call_ensures(fresh_id, (&ids,), id),
        asked@ == id@,
        call_ensures(is_taken, (&ids, asked), taken),
    ensures
        !taken,
        id@.len() == 8,
        forall|i: int| 0 <= i < ids@.len() ==> (#[trigger] ids@[i])@ != id@,
{
    held_texts_are_entries(ids@, id@);
}

} // verus!
