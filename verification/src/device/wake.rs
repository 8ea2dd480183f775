//! Which BLE peripheral a wake pulse goes to, and how scan results are
//! filtered and ranked. The radio work itself stays with the caller; the
//! device is known to be awake only once `/deviceInfo` answers again.

use vstd::prelude::*;
use crate::text::{
    chars_of, contains, contains_seq, hex128, lower_case, str_eq, string_from_chars, to_lowercase, trim,
    trimmed,
};

verus! {

/// Default advertised BLE name to scan for.
pub const DEFAULT_BLE_NAME: &'static str = "Bloomin8";

/// The 128 bits of the GATT characteristic the wake pulse is written to.
pub const WAKE_CHAR_UUID_BITS: u128 = 0x0000f001_0000_1000_8000_00805f9b34fb;

/// The hyphenated lower-case text of a UUID given by its 128 bits (most
/// significant first): groups of 8, 4, 4, 4 and 12 hexadecimal digits.
pub open spec fn uuid_hyphenated(bits: u128) -> Seq<char> {
    let h = hex128(bits);
    h.subrange(0, 8) + seq!['-'] + h.subrange(8, 12) + seq!['-'] + h.subrange(12, 16) + seq!['-']
        + h.subrange(16, 20) + seq!['-'] + h.subrange(20, 32)
}

/// `uuid::Uuid::from_u128(bits).to_string()`: the UUID of those bits (taken
/// big-endian) in its hyphenated lower-case form.
#[verifier::external_body]
fn uuid_text(bits: u128) -> (s: String)
    ensures
        s@ == uuid_hyphenated(bits),
{
    uuid::Uuid::from_u128(bits).to_string()
}

/// The text of the wake characteristic's UUID.
pub fn wake_char_uuid_text() -> (s: String)
    ensures
        s@ == uuid_hyphenated(WAKE_CHAR_UUID_BITS),
{
    uuid_text(WAKE_CHAR_UUID_BITS)
}

/// One peripheral matching a scan hint.
#[derive(Debug, Clone, PartialEq)]
pub struct BleMatch {
    /// The advertised local name.
    pub name: String,
    /// Received signal strength in dBm (closer to 0 is stronger).
    pub rssi: i16,
}

/// The hint a scan uses: the caller's hint without surrounding whitespace, or
/// the default name when that is empty.
pub open spec fn effective_hint_text(hint: Seq<char>) -> Seq<char> {
    if trimmed(hint).len() == 0 {
        DEFAULT_BLE_NAME@
    } else {
        trimmed(hint)
    }
}

/// The effective match hint: the caller's substring trimmed, or
/// [`DEFAULT_BLE_NAME`] when it is blank.
pub fn effective_hint(hint: &str) -> (h: String)
    ensures
        h@ == effective_hint_text(hint@),
{
    let v = chars_of(hint);
    let t = trim(&v);
    if t.len() == 0 {
        let d = chars_of(DEFAULT_BLE_NAME);
        string_from_chars(&d)
    } else {
        string_from_chars(&t)
    }
}

/// Whether an advertised name matches a hint: the lower-cased name contains
/// the lower-cased hint.
pub open spec fn name_matches(name: Seq<char>, hint: Seq<char>) -> bool {
    contains_seq(lower_case(name), lower_case(hint))
}

/// The indices, in order, of the names that match `hint` (the scan filter).
pub open spec fn matching_positions(names: Seq<Seq<char>>, hint: Seq<char>) -> Seq<int>
    decreases names.len(),
{
    if names.len() == 0 {
        Seq::empty()
    } else {
        let rest = matching_positions(names.drop_last(), hint);
        if name_matches(names.last(), hint) {
            rest.push(names.len() - 1)
        } else {
            rest
        }
    }
}

/// The positions of the advertised names that contain `hint`, compared
/// without regard to case, in scan order.
pub fn matching_indices(names: &Vec<String>, hint: &str) -> (r: Vec<usize>)
    ensures
        r@.map_values(|i: usize| i as int) == matching_positions(
            names@.map_values(|s: String| s@),
            hint@,
        ),
{
    let hl = to_lowercase(hint);
    let h = chars_of(hl.as_str());
    let ghost ns = names@.map_values(|s: String| s@);
    let mut out: Vec<usize> = Vec::new();
    let mut i: usize = 0;
    while i < names.len()
        invariant
            i <= names.len(),
            h@ == lower_case(hint@),
            ns == names@.map_values(|s: String| s@),
            out@.map_values(|i: usize| i as int) == matching_positions(ns.take(i as int), hint@),
        decreases names.len() - i,
    {
        let nl = to_lowercase(names[i].as_str());
        let n = chars_of(nl.as_str());
        proof {
            assert(ns.take(i + 1).drop_last() == ns.take(i as int));
            assert(ns.take(i + 1).last() == names@[i as int]@);
        }
        if contains(&n, &h) {
            out.push(i);
            assert(out@.map_values(|i: usize| i as int) == matching_positions(
                ns.take(i as int),
                hint@,
            ).push(i as int));
        }
        i = i + 1;
    }
    assert(ns.take(names.len() as int) == ns);
    out
}

/// Inserts `x` into `s` (ordered strongest first) after every element at
/// least as strong, so equally strong matches keep their scan order.
pub open spec fn insert_by_signal(s: Seq<BleMatch>, x: BleMatch) -> Seq<BleMatch>
    decreases s.len(),
{
    if s.len() == 0 {
        seq![x]
    } else if s.last().rssi >= x.rssi {
        s.push(x)
    } else {
        insert_by_signal(s.drop_last(), x).push(s.last())
    }
}

/// The stable ordering of `s` by signal, strongest first.
pub open spec fn by_signal(s: Seq<BleMatch>) -> Seq<BleMatch>
    decreases s.len(),
{
    if s.len() == 0 {
        s
    } else {
        insert_by_signal(by_signal(s.drop_last()), s.last())
    }
}

proof fn lemma_insert_at(s: Seq<BleMatch>, x: BleMatch, p: int)
    requires
        0 <= p <= s.len(),
        forall|k: int| p <= k < s.len() ==> (#[trigger] s[k]).rssi < x.rssi,
        p == 0 || s[p - 1].rssi >= x.rssi,
    ensures
        insert_by_signal(s, x) == s.take(p) + seq![x] + s.skip(p),
    decreases s.len() - p,
{
    if s.len() == 0 {
        assert(s.take(p) + seq![x] + s.skip(p) =~= seq![x]);
    } else if s.last().rssi >= x.rssi {
        assert(p == s.len());
        assert(s.take(p) + seq![x] + s.skip(p) =~= s.push(x));
    } else {
        let t = s.drop_last();
        assert forall|k: int| p <= k < t.len() implies (#[trigger] t[k]).rssi < x.rssi by {
            assert(t[k] == s[k]);
        }
        if p > 0 {
            assert(t[p - 1] == s[p - 1]);
        }
        lemma_insert_at(t, x, p);
        assert(t.take(p) + seq![x] + t.skip(p) + seq![s.last()] =~= s.take(p) + seq![x] + s.skip(
            p,
        ));
    }
}

/// Matches ordered by signal strength, strongest first; matches of equal
/// strength keep their order (`sort_by` on descending RSSI).
pub fn sort_by_signal(v: Vec<BleMatch>) -> (r: Vec<BleMatch>)
    ensures
        r@ == by_signal(v@),
{
    let ghost orig = v@;
    let _n = v.len();
    let mut v = v;
    let mut out: Vec<BleMatch> = Vec::new();
    let mut i: usize = 0;
    while v.len() > 0
        invariant
            i + v.len() == orig.len(),
            orig.len() <= usize::MAX,
            v@ == orig.skip(i as int),
            out@ == by_signal(orig.take(i as int)),
        decreases v.len(),
    {
        let x = v.remove(0);
        assert(x == orig[i as int]);
        let mut p: usize = out.len();
        while p > 0 && out[p - 1].rssi < x.rssi
            invariant
                p <= out.len(),
                forall|k: int| p <= k < out.len() ==> (#[trigger] out@[k]).rssi < x.rssi,
            decreases p,
        {
            p = p - 1;
        }
        proof {
            lemma_insert_at(out@, x, p as int);
            assert(orig.take(i + 1).drop_last() == orig.take(i as int));
            assert(orig.take(i + 1).last() == orig[i as int]);
        }
        out.insert(p, x);
        assert(out@ == by_signal(orig.take(i as int)).take(p as int) + seq![x] + by_signal(
            orig.take(i as int),
        ).skip(p as int));
        i = i + 1;
        assert(v@ == orig.skip(i as int));
    }
    assert(orig.take(orig.len() as int) == orig);
    out
}

/// The advertised names of scan candidates.
pub open spec fn candidate_names(c: Seq<(String, i16)>) -> Seq<Seq<char>> {
    c.map_values(|x: (String, i16)| x.0@)
}

/// The signal strengths of scan candidates.
pub open spec fn candidate_signals(c: Seq<(String, i16)>) -> Seq<i16> {
    c.map_values(|x: (String, i16)| x.1)
}

/// Whether some candidate's name equals `name` ignoring case.
pub open spec fn has_named(names: Seq<Seq<char>>, name: Seq<char>) -> bool {
    exists|j: int| 0 <= j < names.len() && lower_case(#[trigger] names[j]) == lower_case(name)
}

/// The index of the strongest signal; on a tie the later candidate.
pub open spec fn is_strongest(rs: Seq<i16>, r: int) -> bool {
    &&& 0 <= r < rs.len()
    &&& forall|j: int| 0 <= j < rs.len() ==> rs[j] <= rs[r]
    &&& forall|j: int| r < j < rs.len() ==> rs[j] < rs[r]
}

/// The first candidate whose name equals `name` ignoring case.
pub open spec fn first_named(names: Seq<Seq<char>>, name: Seq<char>, r: int) -> bool {
    &&& 0 <= r < names.len()
    &&& lower_case(names[r]) == lower_case(name)
    &&& forall|j: int| 0 <= j < r ==> lower_case(names[j]) != lower_case(name)
}

/// Chooses which candidate to wake: the first whose advertised name equals
/// the stored device name (ignoring case), otherwise the strongest signal
/// (the last of equally strong ones); 0 for an empty list.
pub fn pick_target(candidates: &[(String, i16)], name: Option<&str>) -> (r: usize)
    ensures
        name is Some && has_named(candidate_names(candidates@), name->0@) ==> first_named(
            candidate_names(candidates@),
            name->0@,
            r as int,
        ),
        !(name is Some && has_named(candidate_names(candidates@), name->0@)) && candidates@.len()
            > 0 ==> is_strongest(candidate_signals(candidates@), r as int),
        candidates@.len() == 0 ==> r == 0,
{
    let ghost names = candidate_names(candidates@);
    let ghost rs = candidate_signals(candidates@);
    if let Some(n) = name {
        let nl = to_lowercase(n);
        let mut i: usize = 0;
        while i < candidates.len()
            invariant
                i <= candidates@.len(),
                nl@ == lower_case(n@),
                name == Some(n),
                names == candidate_names(candidates@),
                forall|j: int| 0 <= j < i ==> lower_case(names[j]) != lower_case(n@),
            decreases candidates.len() - i,
        {
            let cl = to_lowercase(candidates[i].0.as_str());
            assert(names[i as int] == candidates@[i as int].0@);
            if str_eq(cl.as_str(), nl.as_str()) {
                assert(lower_case(names[i as int]) == lower_case(n@));
                assert(first_named(names, n@, i as int));
                return i;
            }
            i = i + 1;
        }
        assert(forall|j: int| 0 <= j < names.len() ==> lower_case(#[trigger] names[j]) != lower_case(
            n@,
        ));
    }
    if candidates.len() == 0 {
        return 0;
    }
    let mut best: usize = 0;
    let mut k: usize = 1;
    while k < candidates.len()
        invariant
            1 <= k <= candidates@.len(),
            best < k,
            rs == candidate_signals(candidates@),
            forall|j: int| 0 <= j < k ==> rs[j] <= rs[best as int],
            forall|j: int| best < j < k ==> rs[j] < rs[best as int],
        decreases candidates.len() - k,
    {
        if candidates[k].1 >= candidates[best].1 {
            best = k;
        }
        k = k + 1;
    }
    best
}

} // verus!
