//! Note ids that no held note has: when the drawn random id is already
//! taken, a counter is written into its free hexadecimal places until an
//! unused id comes out.

use vstd::prelude::*;

use crate::stamps::{is_lower_hex_digit, is_v4_uuid_text};

verus! {

/// 16 to the power `k`.
pub open spec fn pow16(k: nat) -> nat
    decreases k,
{
    if k == 0 {
        1
    } else {
        16 * pow16((k - 1) as nat)
    }
}

/// The base-16 digit of `j` at place `e`; place 0 is the least significant.
pub open spec fn digit(j: nat, e: nat) -> nat
    decreases e,
{
    if e == 0 {
        j % 16
    } else {
        digit(j / 16, (e - 1) as nat)
    }
}

/// The lower-case hexadecimal character of a digit below 16.
pub open spec fn hex_char(d: nat) -> char {
    if d < 10 {
        (48 + d) as char
    } else {
        (87 + d) as char
    }
}

/// The counter place written at position `i` of a candidate id, or -1 where
/// the drawn id's character is kept. Places 0 to 11 fill the last group,
/// 12 to 14 the three characters after the variant digit, 15 the character
/// after the version digit.
pub open spec fn counter_place(i: int) -> int {
    if 24 <= i < 36 {
        35 - i
    } else if 20 <= i < 23 {
        34 - i
    } else if i == 17 {
        15
    } else {
        -1
    }
}

/// The position of an id that holds counter place `e`.
pub open spec fn place_position(e: int) -> int {
    if e < 12 {
        35 - e
    } else if e < 15 {
        34 - e
    } else {
        17
    }
}

/// The drawn id `base` with the counter `j` written into its 16 free places.
pub open spec fn candidate_id(base: Seq<char>, j: nat) -> Seq<char> {
    Seq::new(
        36,
        |i: int|
            if counter_place(i) >= 0 {
                hex_char(digit(j, counter_place(i) as nat))
            } else {
                base[i]
            },
    )
}

proof fn lemma_digit_below_16(j: nat, e: nat)
    ensures
        digit(j, e) < 16,
    decreases e,
{
    if e > 0 {
        lemma_digit_below_16(j / 16, (e - 1) as nat);
    }
}

proof fn lemma_hex_char(d1: nat, d2: nat)
    requires
        d1 < 16,
        d2 < 16,
    ensures
        is_lower_hex_digit(hex_char(d1)),
        hex_char(d1) == hex_char(d2) ==> d1 == d2,
{
}

/// A candidate id keeps the shape of a random UUID.
pub proof fn lemma_candidate_shape(base: Seq<char>, j: nat)
    requires
        is_v4_uuid_text(base),
    ensures
        is_v4_uuid_text(candidate_id(base, j)),
{
    let c = candidate_id(base, j);
    assert forall|i: int| 0 <= i < 36 implies (if i == 8 || i == 13 || i == 18 || i == 23 {
        c[i] == '-'
    } else {
        is_lower_hex_digit(#[trigger] c[i])
    }) by {
        if counter_place(i) >= 0 {
            lemma_digit_below_16(j, counter_place(i) as nat);
            lemma_hex_char(digit(j, counter_place(i) as nat), 0);
        } else {
            assert(base[i] == c[i]);
        }
    }
}

/// Two numbers below `16^k` with the same `k` lowest base-16 digits are equal.
proof fn lemma_digits_determine(a: nat, b: nat, k: nat)
    requires
        a < pow16(k),
        b < pow16(k),
        forall|e: nat| e < k ==> digit(a, e) == digit(b, e),
    ensures
        a == b,
    decreases k,
{
    if k > 0 {
        let p = pow16((k - 1) as nat);
        assert(digit(a, 0) == digit(b, 0));
        assert forall|e: nat| e < (k - 1) as nat implies #[trigger] digit(a / 16, e) == digit(b / 16, e) by {
            assert(digit(a, e + 1) == digit(b, e + 1));
        }
        assert(a / 16 < p) by (nonlinear_arith)
            requires
                a < 16 * p,
        ;
        assert(b / 16 < p) by (nonlinear_arith)
            requires
                b < 16 * p,
        ;
        lemma_digits_determine(a / 16, b / 16, (k - 1) as nat);
        assert(a == 16 * (a / 16) + a % 16) by (nonlinear_arith);
        assert(b == 16 * (b / 16) + b % 16) by (nonlinear_arith);
    }
}

/// Different counters below `16^16` give different candidate ids.
pub proof fn lemma_candidates_distinct(base: Seq<char>, j1: nat, j2: nat)
    requires
        j1 < pow16(16),
        j2 < pow16(16),
        j1 != j2,
    ensures
        candidate_id(base, j1) != candidate_id(base, j2),
{
    if candidate_id(base, j1) == candidate_id(base, j2) {
        assert forall|e: nat| e < 16 implies digit(j1, e) == digit(j2, e) by {
            let p = place_position(e as int);
            assert(counter_place(p) == e);
            assert(candidate_id(base, j1)[p] == candidate_id(base, j2)[p]);
            lemma_digit_below_16(j1, e);
            lemma_digit_below_16(j2, e);
            lemma_hex_char(digit(j1, e), digit(j2, e));
        }
        lemma_digits_determine(j1, j2, 16);
    }
}

/// Among the candidates for counters `0..=ids.len()`, one is not in `ids`.
pub proof fn lemma_some_candidate_unused(ids: Seq<Seq<char>>, base: Seq<char>)
    requires
        ids.len() < pow16(16),
    ensures
        exists|k: nat| k <= ids.len() && !ids.contains(#[trigger] candidate_id(base, k)),
{
    if forall|k: nat| k <= ids.len() ==> ids.contains(#[trigger] candidate_id(base, k)) {
        let n = ids.len() as int;
        let xs = vstd::set_lib::set_int_range(0, n + 1);
        vstd::set_lib::lemma_int_range(0, n + 1);
        let f = |k: int| candidate_id(base, k as nat);
        assert(vstd::relations::injective_on(f, xs)) by {
            assert forall|a: int, b: int| xs.contains(a) && xs.contains(b) && #[trigger] f(a) == #[trigger] f(b)
                implies a == b by {
                if a != b {
                    lemma_candidates_distinct(base, a as nat, b as nat);
                }
            }
        }
        let ys = xs.map(f);
        vstd::set_lib::lemma_map_size(xs, ys, f);
        let held = ids.to_set();
        assert(ys.subset_of(held)) by {
            assert forall|y: Seq<char>| ys.contains(y) implies held.contains(y) by {
                let k = choose|k: int| xs.contains(k) && f(k) == y;
                assert(ids.contains(candidate_id(base, k as nat)));
            }
        }
        ids.lemma_cardinality_of_set();
        vstd::set_lib::lemma_len_subset(ys, held);
        assert(false);
    }
}

/// The one-character text of a hexadecimal digit.
fn hex_text(d: u64) -> (t: &'static str)
    requires
        d < 16,
    ensures
        t@ == seq![hex_char(d as nat)],
{
    proof {
        reveal_strlit("0");
        reveal_strlit("1");
        reveal_strlit("2");
        reveal_strlit("3");
        reveal_strlit("4");
        reveal_strlit("5");
        reveal_strlit("6");
        reveal_strlit("7");
        reveal_strlit("8");
        reveal_strlit("9");
        reveal_strlit("a");
        reveal_strlit("b");
        reveal_strlit("c");
        reveal_strlit("d");
        reveal_strlit("e");
        reveal_strlit("f");
    }
    let t = match d {
        0 => "0",
        1 => "1",
        2 => "2",
        3 => "3",
        4 => "4",
        5 => "5",
        6 => "6",
        7 => "7",
        8 => "8",
        9 => "9",
        10 => "a",
        11 => "b",
        12 => "c",
        13 => "d",
        14 => "e",
        _ => "f",
    };
    assert(t@ =~= seq![hex_char(d as nat)]);
    t
}

/// The 16 lowest base-16 digits of `j`, least significant first.
fn digits_of(j: usize) -> (ds: Vec<u64>)
    ensures
        ds@.len() == 16,
        forall|e: int| 0 <= e < 16 ==> #[trigger] ds@[e] == digit(j as nat, e as nat),
{
    let mut ds: Vec<u64> = Vec::new();
    let mut v: usize = j;
    let mut e: usize = 0;
    while e < 16
        invariant
            e <= 16,
            ds@.len() == e,
            forall|k: int| 0 <= k < e ==> #[trigger] ds@[k] == digit(j as nat, k as nat),
            forall|k: nat| #[trigger] digit(v as nat, k) == digit(j as nat, (e + k) as nat),
        decreases 16 - e,
    {
        assert(digit(v as nat, 0) == digit(j as nat, e as nat));
        let d = (v % 16) as u64;
        ds.push(d);
        let ghost old_v = v;
        v = v / 16;
        assert forall|k: nat| #[trigger] digit(v as nat, k) == digit(j as nat, (e + 1 + k) as nat) by {
            assert(digit(old_v as nat, k + 1) == digit(v as nat, k));
            assert(digit(old_v as nat, k + 1) == digit(j as nat, (e + (k + 1)) as nat));
        }
        e = e + 1;
    }
    ds
}

/// The candidate id for counter `j`.
pub(crate) fn candidate(base: &String, j: usize) -> (c: String)
    requires
        is_v4_uuid_text(base@),
    ensures
        c@ == candidate_id(base@, j as nat),
        is_v4_uuid_text(c@),
{
    let ds = digits_of(j);
    proof {
        assert forall|e: int| 0 <= e < 16 implies #[trigger] ds@[e] < 16 by {
            lemma_digit_below_16(j as nat, e as nat);
        }
        reveal_strlit("-");
    }
    let b = base.as_str();
    let mut c = String::new();
    c.append(b.substring_char(0, 17));
    c.append(hex_text(ds[15]));
    c.append(b.substring_char(18, 20));
    c.append(hex_text(ds[14]));
    c.append(hex_text(ds[13]));
    c.append(hex_text(ds[12]));
    c.append("-");
    let mut e: usize = 12;
    while e > 0
        invariant
            e <= 12,
            ds@.len() == 16,
            forall|k: int| 0 <= k < 16 ==> #[trigger] ds@[k] == digit(j as nat, k as nat),
            forall|k: int| 0 <= k < 16 ==> #[trigger] ds@[k] < 16,
            c@.len() == 36 - e,
            forall|i: int| 0 <= i < 36 - e ==> #[trigger] c@[i] == candidate_id(base@, j as nat)[i],
        decreases e,
    {
        e = e - 1;
        c.append(hex_text(ds[e]));
    }
    proof {
        assert(c@ =~= candidate_id(base@, j as nat));
        lemma_candidate_shape(base@, j as nat);
    }
    c
}

} // verus!
