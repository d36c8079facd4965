//! Fresh message identifiers and the current time.

use vstd::prelude::*;
use vstd::string::StringExecFns;
use crate::keyed::KeyedTable;
use crate::text::{decimal, push_char, push_decimal, pow10, lemma_decimal_shape, lemma_decimal_injective, lemma_decimal_len_bound};

verus! {

/// A lower-case hex digit.
pub open spec fn is_hex_digit(c: char) -> bool {
    ('0' <= c && c <= '9') || ('a' <= c && c <= 'f')
}

/// Character `c` may stand at position `i` of a UUID's text: `-` at the
/// group breaks, a lower-case hex digit elsewhere.
pub open spec fn uuid_char_fits(i: int, c: char) -> bool {
    if i == 8 || i == 13 || i == 18 || i == 23 { c == '-' } else { is_hex_digit(c) }
}

/// The text form of a random (version 4) UUID: 36 characters, lower-case
/// hex digits in groups of 8, 4, 4, 4 and 12 joined by `-`, the version
/// digit `4` opening the third group and one of `8`, `9`, `a`, `b` opening
/// the fourth.
pub open spec fn is_random_uuid_text(s: Seq<char>) -> bool {
    &&& s.len() == 36
    &&& forall|i: int| 0 <= i < 36 ==> #[trigger] uuid_char_fits(i, s[i])
    &&& s[14] == '4'
    &&& (s[19] == '8' || s[19] == '9' || s[19] == 'a' || s[19] == 'b')
}

/// A fresh random identifier: `uuid::Uuid::new_v4()` in its hyphenated
/// lower-case text form (`Display`), with the version and variant digits
/// that `new_v4` sets. Which identifier comes out is left open.
#[verifier::external_body]
pub(crate) fn new_message_id() -> (id: String)
    ensures
        id@.len() == 36,
        is_random_uuid_text(id@),
{
    uuid::Uuid::new_v4().to_string()
}

/// The current time in milliseconds since the Unix epoch
/// (`chrono::Utc::now().timestamp_millis()`). Nothing is promised of the
/// value.
#[verifier::external_body]
pub(crate) fn now_millis() -> i64 {
    chrono::Utc::now().timestamp_millis()
}

/// The 36-character stand-in id number `k`: its decimal digits, padded
/// with leading zeros.
pub open spec fn counter_id(k: nat) -> Seq<char> {
    Seq::new((36 - decimal(k).len()) as nat, |i: int| '0') + decimal(k)
}

proof fn lemma_counter_id(a: nat, b: nat)
    requires
        a <= usize::MAX,
        b <= usize::MAX,
    ensures
        counter_id(a).len() == 36,
        counter_id(a) == counter_id(b) ==> a == b,
{
    reveal_with_fuel(pow10, 21);
    assert(usize::MAX < pow10(20));
    lemma_decimal_len_bound(a, 20, pow10(20));
    lemma_decimal_len_bound(b, 20, pow10(20));
    lemma_decimal_shape(a);
    lemma_decimal_shape(b);
    let da = decimal(a);
    let db = decimal(b);
    let fa = counter_id(a);
    let fb = counter_id(b);
    if fa == fb {
        if da.len() == db.len() {
            assert(fa.skip(36 - da.len()) =~= da);
            assert(fb.skip(36 - db.len()) =~= db);
            lemma_decimal_injective(a, b);
        } else if da.len() < db.len() {
            assert(b >= 10);
            assert(fb[36 - db.len()] == db[0]);
            assert(fa[36 - db.len()] == '0');
        } else {
            assert(a >= 10);
            assert(fa[36 - da.len()] == da[0]);
            assert(fb[36 - da.len()] == '0');
        }
    }
}

/// The stand-in id number `k` as text.
fn counter_id_text(k: usize) -> (res: String)
    ensures
        res@ == counter_id(k as nat),
{
    proof {
        lemma_counter_id(k as nat, k as nat);
    }
    let mut digits = String::new();
    push_decimal(&mut digits, k);
    let n: usize = digits.unicode_len();
    let mut res = String::new();
    let mut i: usize = 0;
    while i < 36 - n
        invariant
            n == decimal(k as nat).len(),
            n <= 36,
            i <= 36 - n,
            res@ == Seq::new(i as nat, |j: int| '0'),
        decreases 36 - n - i,
    {
        push_char(&mut res, '0');
        i = i + 1;
        assert(res@ =~= Seq::new(i as nat, |j: int| '0'));
    }
    res.append(digits.as_str());
    res
}

/// A 36-character id that is not a key of `table`: a fresh random
/// identifier, or, should that one be taken already, the first stand-in id
/// that is not. Among `len + 1` distinct stand-in ids at most `len` are
/// taken, so one is always free.
pub(crate) fn new_unseen_id<V>(table: &KeyedTable<V>) -> (id: String)
    requires
        table.wf(),
    ensures
        id@.len() == 36,
        !table.as_map().dom().contains(id@),
{
    let id = new_message_id();
    if !table.contains_key(id.as_str()) {
        return id;
    }
    let n: usize = table.len();
    let mut k: usize = 0;
    while k < n
        invariant
            n == table.as_map().dom().len(),
            table.wf(),
            k <= n,
            forall|j: nat| j < k ==> table.as_map().dom().contains(#[trigger] counter_id(j)),
        decreases n - k,
    {
        let candidate = counter_id_text(k);
        if !table.contains_key(candidate.as_str()) {
            proof {
                lemma_counter_id(k as nat, k as nat);
            }
            return candidate;
        }
        k = k + 1;
    }
    let candidate = counter_id_text(n);
    proof {
        lemma_counter_id(n as nat, n as nat);
        if table.as_map().dom().contains(candidate@) {
            let ids = Seq::new((n + 1) as nat, |j: int| counter_id(j as nat));
            assert(ids.no_duplicates()) by {
                assert forall|a: int, b: int| 0 <= a < ids.len() && 0 <= b < ids.len() && a != b
                    implies ids[a] != ids[b] by {
                    lemma_counter_id(a as nat, b as nat);
                }
            }
            ids.unique_seq_to_set();
            assert(ids.to_set().subset_of(table.as_map().dom())) by {
                assert forall|x: Seq<char>| ids.to_set().contains(x) implies table.as_map().dom().contains(x) by {
                    let j = choose|j: int| 0 <= j < ids.len() && ids[j] == x;
                    if j < n {
                        assert(table.as_map().dom().contains(counter_id(j as nat)));
                    }
                }
            }
            crate::keyed::lemma_to_map_len(table@);
            vstd::set_lib::lemma_len_subset(ids.to_set(), table.as_map().dom());
        }
    }
    candidate
}

} // verus!
