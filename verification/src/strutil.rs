use vstd::prelude::*;
use vstd::relations::{total_ordering, sorted_by};
use vstd::seq_lib::lemma_multiset_commutative;
use vstd::seq_lib::lemma_sorted_unique;

verus! {

// ---------------------------------------------------------------------------
// Decimal rendering
// ---------------------------------------------------------------------------

/// The character for a single decimal digit.
pub open spec fn digit_char(d: nat) -> char {
    if d == 0 {
        '0'
    } else if d == 1 {
        '1'
    } else if d == 2 {
        '2'
    } else if d == 3 {
        '3'
    } else if d == 4 {
        '4'
    } else if d == 5 {
        '5'
    } else if d == 6 {
        '6'
    } else if d == 7 {
        '7'
    } else if d == 8 {
        '8'
    } else {
        '9'
    }
}

/// The decimal rendering of a natural number, most significant digit first.
pub open spec fn dec_str(n: nat) -> Seq<char>
    decreases n,
{
    if n < 10 {
        seq![digit_char(n)]
    } else {
        dec_str(n / 10).push(digit_char(n % 10))
    }
}

/// The decimal rendering of an integer: a minus sign for negative values.
pub open spec fn int_str(n: int) -> Seq<char> {
    if n >= 0 {
        dec_str(n as nat)
    } else {
        seq!['-'] + dec_str((-n) as nat)
    }
}

fn digit_str(d: u64) -> (r: &'static str)
    requires
        d < 10,
    ensures
        r@ =~= seq![digit_char(d as nat)],
{
    proof {
        reveal_strlit("0");
        reveal_strlit("1");
        reveal_strlit("2");
        reveal_strlit("3");
        reveal_strlit("4");
        reveal_strlit("5");
        reveal_strlit("6");
        reveal_strlit("7");
        reveal_strlit("8");
        reveal_strlit("9");
    }
    if d == 0 {
        "0"
    } else if d == 1 {
        "1"
    } else if d == 2 {
        "2"
    } else if d == 3 {
        "3"
    } else if d == 4 {
        "4"
    } else if d == 5 {
        "5"
    } else if d == 6 {
        "6"
    } else if d == 7 {
        "7"
    } else if d == 8 {
        "8"
    } else {
        "9"
    }
}

/// Renders an unsigned value in decimal.
pub fn u64_to_string(n: u64) -> (r: String)
    ensures
        r@ == dec_str(n as nat),
    decreases n,
{
    if n < 10 {
        let d = digit_str(n);
        let s = String::from_str(d);
        proof {
            assert(s@ =~= dec_str(n as nat));
        }
        s
    } else {
        let mut s = u64_to_string(n / 10);
        s.append(digit_str(n % 10));
        proof {
            assert(s@ =~= dec_str(n as nat));
        }
        s
    }
}

/// Renders a signed value in decimal.
pub fn i64_to_string(n: i64) -> (r: String)
    ensures
        r@ == int_str(n as int),
{
    if n >= 0 {
        u64_to_string(n as u64)
    } else {
        let mag: u64 = if n == i64::MIN {
            9223372036854775808u64
        } else {
            (-n) as u64
        };
        let mut s = String::from_str("-");
        proof {
            reveal_strlit("-");
        }
        s.append(u64_to_string(mag).as_str());
        proof {
            assert(s@ =~= int_str(n as int));
        }
        s
    }
}

// ---------------------------------------------------------------------------
// Decimal parsing, matching Rust's integer `FromStr` grammar
// ---------------------------------------------------------------------------

pub open spec fn is_digit(c: char) -> bool {
    '0' <= c && c <= '9'
}

pub open spec fn digit_val(c: char) -> nat {
    ((c as int) - ('0' as int)) as nat
}

pub open spec fn all_digits(s: Seq<char>) -> bool {
    forall|i: int| 0 <= i < s.len() ==> is_digit(#[trigger] s[i])
}

/// The value of a sequence of decimal digits, most significant first.
pub open spec fn digits_val(s: Seq<char>) -> nat
    decreases s.len(),
{
    if s.len() == 0 {
        0
    } else {
        digits_val(s.drop_last()) * 10 + digit_val(s.last())
    }
}

/// The digit part of an integer literal: an optional single `+` (or, when
/// `minus` is allowed, `-`) sign is skipped.
pub open spec fn unsigned_part(s: Seq<char>, minus: bool) -> Seq<char> {
    if s.len() > 0 && (s[0] == '+' || (minus && s[0] == '-')) {
        s.drop_first()
    } else {
        s
    }
}

pub open spec fn is_negative_literal(s: Seq<char>) -> bool {
    s.len() > 0 && s[0] == '-'
}

/// What `str::parse::<u64>` accepts, and the value it returns.
pub open spec fn parse_u64_spec(s: Seq<char>) -> Option<u64> {
    let d = unsigned_part(s, false);
    if d.len() > 0 && all_digits(d) && digits_val(d) <= u64::MAX {
        Some(digits_val(d) as u64)
    } else {
        None
    }
}

/// What `str::parse::<i64>` accepts, and the value it returns.
pub open spec fn parse_i64_spec(s: Seq<char>) -> Option<i64> {
    let d = unsigned_part(s, true);
    if d.len() > 0 && all_digits(d) {
        if is_negative_literal(s) {
            if digits_val(d) <= 0x8000_0000_0000_0000 {
                Some((-(digits_val(d) as int)) as i64)
            } else {
                None
            }
        } else {
            if digits_val(d) <= i64::MAX {
                Some(digits_val(d) as i64)
            } else {
                None
            }
        }
    } else {
        None
    }
}

proof fn lemma_digits_val_grows(s: Seq<char>, i: int)
    requires
        0 <= i <= s.len(),
    ensures
        digits_val(s.subrange(0, i)) <= digits_val(s),
    decreases s.len() - i,
{
    if i == s.len() {
        assert(s.subrange(0, i) =~= s);
    } else {
        lemma_digits_val_grows(s, i + 1);
        let p = s.subrange(0, i + 1);
        assert(p.drop_last() =~= s.subrange(0, i));
        assert(digits_val(s.subrange(0, i)) <= digits_val(p));
    }
}

/// Parses the digits of `s` from position `from` on; `None` on a non-digit,
/// an empty digit run, or a value above `u64::MAX`.
fn parse_digits(s: &str, from: usize) -> (r: Option<u64>)
    requires
        from as int <= s@.len(),
    ensures
        (match r {
            Some(v) => all_digits(s@.skip(from as int)) && s@.len() - from as int > 0
                && digits_val(s@.skip(from as int)) == v,
            None => !(all_digits(s@.skip(from as int)) && s@.len() - from as int > 0
                && digits_val(s@.skip(from as int)) <= u64::MAX),
        }),
{
    let n = s.unicode_len();
    if from >= n {
        return None;
    }
    let ghost d = s@.skip(from as int);
    let mut i: usize = from;
    let mut val: u64 = 0;
    while i < n
        invariant
            from <= i <= n,
            n == s@.len() <= usize::MAX,
            d == s@.skip(from as int),
            all_digits(d.subrange(0, i - from)),
            val == digits_val(d.subrange(0, i - from)),
        decreases n - i,
    {
        let c = s.get_char(i);
        if !(c >= '0' && c <= '9') {
            proof {
                assert(d[i - from] == s@[i as int]);
                assert(!is_digit(d[i - from]));
            }
            return None;
        }
        let dv: u64 = (c as u32 as u64) - 48;
        proof {
            assert(d.subrange(0, i + 1 - from).drop_last() =~= d.subrange(0, i - from));
            assert(d.subrange(0, i + 1 - from).last() == c);
        }
        if val > 0x1999_9999_9999_9999u64 || (val == 0x1999_9999_9999_9999u64 && dv > 5) {
            proof {
                assert(digits_val(d.subrange(0, i + 1 - from)) > u64::MAX);
                lemma_digits_val_grows(d, i + 1 - from);
                assert(all_digits(d) ==> digits_val(d) > u64::MAX) by {
                    if all_digits(d) {
                        assert(digits_val(d) >= digits_val(d.subrange(0, i + 1 - from)));
                    }
                }
            }
            return None;
        }
        val = val * 10 + dv;
        i = i + 1;
    }
    proof {
        assert(d.subrange(0, n - from) =~= d);
    }
    Some(val)
}

/// Replicates `str::parse::<u64>`.
pub fn parse_u64(s: &str) -> (r: Option<u64>)
    ensures
        r == parse_u64_spec(s@),
{
    let n = s.unicode_len();
    let from: usize = if n > 0 && s.get_char(0) == '+' {
        1
    } else {
        0
    };
    proof {
        assert(s@.skip(from as int) =~= unsigned_part(s@, false));
    }
    parse_digits(s, from)
}

/// Replicates `str::parse::<i64>`.
pub fn parse_i64(s: &str) -> (r: Option<i64>)
    ensures
        r == parse_i64_spec(s@),
{
    let n = s.unicode_len();
    let mut neg = false;
    let mut from: usize = 0;
    if n > 0 {
        let c = s.get_char(0);
        if c == '+' {
            from = 1;
        } else if c == '-' {
            from = 1;
            neg = true;
        }
    }
    proof {
        assert(s@.skip(from as int) =~= unsigned_part(s@, true));
    }
    match parse_digits(s, from) {
        None => None,
        Some(v) => {
            if neg {
                if v < 0x8000_0000_0000_0000u64 {
                    Some(-(v as i64))
                } else if v == 0x8000_0000_0000_0000u64 {
                    Some(i64::MIN)
                } else {
                    None
                }
            } else {
                if v <= i64::MAX as u64 {
                    Some(v as i64)
                } else {
                    None
                }
            }
        },
    }
}

// ---------------------------------------------------------------------------
// String equality and lexicographic order
// ---------------------------------------------------------------------------

/// Compares two string slices by contents.
pub fn str_eq(a: &str, b: &str) -> (r: bool)
    ensures
        r == (a@ == b@),
{
    let an = a.unicode_len();
    let bn = b.unicode_len();
    if an != bn {
        return false;
    }
    let mut i: usize = 0;
    while i < an
        invariant
            0 <= i <= an,
            an == a@.len() <= usize::MAX,
            bn == b@.len(),
            an == bn,
            forall|j: int| 0 <= j < i ==> a@[j] == b@[j],
        decreases an - i,
    {
        if a.get_char(i) != b.get_char(i) {
            return false;
        }
        i = i + 1;
    }
    proof {
        assert(a@ =~= b@);
    }
    true
}

/// Lexicographic order on character sequences, by code point.
pub open spec fn seq_char_le(a: Seq<char>, b: Seq<char>) -> bool
    decreases a.len(),
{
    if a.len() == 0 {
        true
    } else if b.len() == 0 {
        false
    } else if a[0] == b[0] {
        seq_char_le(a.drop_first(), b.drop_first())
    } else {
        (a[0] as u32) < (b[0] as u32)
    }
}

pub open spec fn name_le(a: Seq<char>, b: Seq<char>) -> bool {
    seq_char_le(a, b)
}

/// The ordering used to sort lists of names.
pub open spec fn name_ord() -> spec_fn(Seq<char>, Seq<char>) -> bool {
    |x: Seq<char>, y: Seq<char>| name_le(x, y)
}

proof fn lemma_char_cast_distinct(c1: char, c2: char)
    requires
        c1 != c2,
    ensures
        (c1 as u32) != (c2 as u32),
{
}

proof fn lemma_seq_char_le_total(a: Seq<char>, b: Seq<char>)
    ensures
        seq_char_le(a, b) || seq_char_le(b, a),
        seq_char_le(a, b) && seq_char_le(b, a) ==> a == b,
        seq_char_le(a, a),
    decreases a.len(),
{
    if a.len() == 0 {
        assert(seq_char_le(a, b));
        assert(seq_char_le(a, a));
    } else if b.len() == 0 {
        assert(seq_char_le(b, a));
    } else if a[0] == b[0] {
        lemma_seq_char_le_total(a.drop_first(), b.drop_first());
        assert(seq_char_le(a, b) == seq_char_le(a.drop_first(), b.drop_first()));
        assert(seq_char_le(b, a) == seq_char_le(b.drop_first(), a.drop_first()));
        if seq_char_le(a, b) && seq_char_le(b, a) {
            assert(a.drop_first() == b.drop_first());
            assert(a.len() == b.len());
            assert forall|i: int| 0 <= i < a.len() implies a[i] == b[i] by {
                if i > 0 {
                    assert(a[i] == a.drop_first()[i - 1]);
                    assert(b[i] == b.drop_first()[i - 1]);
                }
            }
            assert(a =~= b);
        }
    } else {
        lemma_char_cast_distinct(a[0], b[0]);
    }
    if a.len() > 0 {
        lemma_seq_char_le_total(a.drop_first(), a.drop_first());
        assert(seq_char_le(a, a) == seq_char_le(a.drop_first(), a.drop_first()));
    }
}

proof fn lemma_seq_char_le_trans(a: Seq<char>, b: Seq<char>, c: Seq<char>)
    requires
        seq_char_le(a, b),
        seq_char_le(b, c),
    ensures
        seq_char_le(a, c),
    decreases a.len(),
{
    if a.len() == 0 {
    } else if a[0] == b[0] && b[0] == c[0] {
        lemma_seq_char_le_trans(a.drop_first(), b.drop_first(), c.drop_first());
    }
}

/// `name_le` is a total ordering, so sorting by it is canonical.
pub proof fn lemma_name_le_total_ordering()
    ensures
        total_ordering(name_ord()),
{
    let leq = name_ord();
    assert forall|x: Seq<char>| #[trigger] leq(x, x) by {
        lemma_seq_char_le_total(x, x);
    }
    assert forall|x: Seq<char>, y: Seq<char>| #[trigger] leq(x, y) && #[trigger] leq(y, x)
        implies x == y by {
        lemma_seq_char_le_total(x, y);
    }
    assert forall|x: Seq<char>, y: Seq<char>, z: Seq<char>|
        #[trigger] leq(x, y) && #[trigger] leq(y, z) implies leq(x, z) by {
        lemma_seq_char_le_trans(x, y, z);
    }
    assert forall|x: Seq<char>, y: Seq<char>| #[trigger] leq(x, y) || #[trigger] leq(y, x) by {
        lemma_seq_char_le_total(x, y);
    }
}

/// Compares two strings lexicographically by code point.
pub fn str_le(a: &str, b: &str) -> (r: bool)
    ensures
        r == seq_char_le(a@, b@),
{
    let an = a.unicode_len();
    let bn = b.unicode_len();
    let mut i: usize = 0;
    proof {
        assert(a@.skip(0) =~= a@);
        assert(b@.skip(0) =~= b@);
    }
    loop
        invariant
            0 <= i <= an,
            i <= bn,
            an == a@.len() <= usize::MAX,
            bn == b@.len() <= usize::MAX,
            seq_char_le(a@, b@) == seq_char_le(a@.skip(i as int), b@.skip(i as int)),
        decreases an - i,
    {
        if i >= an {
            return true;
        }
        if i >= bn {
            return false;
        }
        let ca = a.get_char(i);
        let cb = b.get_char(i);
        proof {
            assert(a@.skip(i as int).drop_first() =~= a@.skip(i + 1));
            assert(b@.skip(i as int).drop_first() =~= b@.skip(i + 1));
        }
        if ca != cb {
            return (ca as u32) < (cb as u32);
        }
        i = i + 1;
    }
}

// ---------------------------------------------------------------------------
// Sorting a list of names, and comparing the result
// ---------------------------------------------------------------------------

/// The contents of a list of strings, as character sequences.
pub open spec fn names_view(v: Seq<String>) -> Seq<Seq<char>> {
    v.map_values(|s: String| s@)
}

/// Sorts a list of names. The result is the canonical sorted permutation,
/// so two lists of names sort equal exactly when they hold the same names
/// with the same multiplicities.
pub fn sort_names(v: Vec<String>) -> (r: Vec<String>)
    ensures
        names_view(r@).to_multiset() == names_view(v@).to_multiset(),
        sorted_by(names_view(r@), name_ord()),
{
    let ghost leq = name_ord();
    let mut r: Vec<String> = Vec::new();
    let mut k: usize = 0;
    proof {
        assert(names_view(r@) =~= names_view(v@.subrange(0, 0)));
    }
    while k < v.len()
        invariant
            0 <= k <= v@.len(),
            names_view(r@).to_multiset() == names_view(v@.subrange(0, k as int)).to_multiset(),
            sorted_by(names_view(r@), name_ord()),
        decreases v@.len() - k,
    {
        let x = v[k].clone();
        let p = find_insert_pos(&x, &r);
        let ghost old_r = r@;
        r.insert(p, x);
        proof {
            let nvo = names_view(old_r);
            let nvr = names_view(r@);
            assert(forall|t: int| 0 <= t < old_r.len() ==> #[trigger] nvo[t] == old_r[t]@);
            assert(forall|t: int| 0 <= t < r@.len() ==> #[trigger] nvr[t] == r@[t]@);
            assert(nvr =~= nvo.subrange(0, p as int) + seq![x@] + nvo.subrange(
                p as int,
                nvo.len() as int,
            ));
            lemma_insert_multiset(nvo, x@, p as int);
            assert(names_view(v@.subrange(0, k + 1)).drop_last() =~= names_view(
                v@.subrange(0, k as int),
            ));
            assert(names_view(v@.subrange(0, k + 1)) =~= names_view(v@.subrange(0, k as int)).push(
                x@,
            ));
            broadcast use vstd::seq_lib::group_to_multiset_ensures;

            assert(names_view(v@.subrange(0, k + 1)).to_multiset() =~= names_view(
                v@.subrange(0, k as int),
            ).to_multiset().insert(x@));
            lemma_sorted_insert(nvo, x@, p as int);
            assert(sorted_by(nvr, name_ord()));
        }
        k = k + 1;
    }
    proof {
        assert(v@.subrange(0, v@.len() as int) =~= v@);
    }
    r
}

/// The first position in the sorted list `r` whose element is not below `x`.
fn find_insert_pos(x: &String, r: &Vec<String>) -> (p: usize)
    ensures
        0 <= p <= r@.len(),
        forall|j: int| 0 <= j < p ==> !name_le(x@, #[trigger] r@[j]@),
        p < r@.len() ==> name_le(x@, r@[p as int]@),
{
    let mut p: usize = 0;
    while p < r.len()
        invariant
            0 <= p <= r@.len(),
            forall|j: int| 0 <= j < p ==> !name_le(x@, #[trigger] r@[j]@),
        decreases r@.len() - p,
    {
        if str_le(x.as_str(), r[p].as_str()) {
            return p;
        }
        p = p + 1;
    }
    p
}

/// Inserting `x` at the first position not below it keeps a sorted list sorted.
proof fn lemma_sorted_insert(s: Seq<Seq<char>>, x: Seq<char>, p: int)
    requires
        sorted_by(s, name_ord()),
        0 <= p <= s.len(),
        forall|j: int| 0 <= j < p ==> !name_le(x, #[trigger] s[j]),
        p < s.len() ==> name_le(x, s[p]),
    ensures
        sorted_by(s.subrange(0, p) + seq![x] + s.subrange(p, s.len() as int), name_ord()),
{
    let leq = name_ord();
    let t = s.subrange(0, p) + seq![x] + s.subrange(p, s.len() as int);
    assert(t.len() == s.len() + 1);
    assert(forall|i: int| 0 <= i < p ==> t[i] == s[i]);
    assert(t[p] == x);
    assert(forall|i: int| p < i < t.len() ==> t[i] == s[i - 1]);
    assert forall|i: int, j: int| 0 <= i < j < t.len() implies #[trigger] leq(t[i], t[j]) by {
        lemma_name_le_total_ordering();
        if j < p {
            assert(leq(s[i], s[j]));
        } else if i > p {
            assert(leq(s[i - 1], s[j - 1]));
        } else if i < p && j == p {
            assert(!name_le(x, s[i]));
            assert(leq(s[i], x) || leq(x, s[i]));
            assert(name_le(s[i], x));
        } else if i < p && j > p {
            if j - 1 == i {
                assert(!name_le(x, s[i]));
                assert(name_le(s[i], x));
                assert(leq(t[i], t[j]));
            } else {
                assert(leq(s[i], s[j - 1]));
            }
        } else if i == p && j > p {
            assert(name_le(x, s[p]));
            if j - 1 > p {
                assert(leq(s[p], s[j - 1]));
                lemma_seq_char_le_trans(x, s[p], s[j - 1]);
            }
        }
    }
}

proof fn lemma_insert_multiset(s: Seq<Seq<char>>, x: Seq<char>, p: int)
    requires
        0 <= p <= s.len(),
    ensures
        (s.subrange(0, p) + seq![x] + s.subrange(p, s.len() as int)).to_multiset()
            == s.to_multiset().insert(x),
{
    broadcast use vstd::seq_lib::group_to_multiset_ensures;

    let a = s.subrange(0, p);
    let b = s.subrange(p, s.len() as int);
    lemma_multiset_commutative(a + seq![x], b);
    lemma_multiset_commutative(a, seq![x]);
    lemma_multiset_commutative(a, b);
    assert(a + b =~= s);
    assert(seq![x] =~= Seq::<Seq<char>>::empty().push(x));
    assert(forall|e: Seq<char>| !Seq::<Seq<char>>::empty().contains(e));
    assert((a + seq![x] + b).to_multiset() =~= s.to_multiset().insert(x));
}

/// Compares two lists of names element by element.
pub fn names_eq(a: &Vec<String>, b: &Vec<String>) -> (r: bool)
    ensures
        r == (names_view(a@) == names_view(b@)),
{
    if a.len() != b.len() {
        proof {
            assert(names_view(a@).len() != names_view(b@).len());
        }
        return false;
    }
    let mut i: usize = 0;
    while i < a.len()
        invariant
            0 <= i <= a@.len(),
            a@.len() == b@.len(),
            forall|j: int| 0 <= j < i ==> #[trigger] a@[j]@ == b@[j]@,
        decreases a@.len() - i,
    {
        if !str_eq(a[i].as_str(), b[i].as_str()) {
            proof {
                assert(names_view(a@)[i as int] != names_view(b@)[i as int]);
            }
            return false;
        }
        i = i + 1;
    }
    proof {
        assert(names_view(a@) =~= names_view(b@));
    }
    true
}

/// Decides whether two lists of names hold the same names with the same
/// multiplicities, by sorting both and comparing.
pub fn same_name_multiset(a: Vec<String>, b: Vec<String>) -> (r: bool)
    ensures
        r == (names_view(a@).to_multiset() == names_view(b@).to_multiset()),
{
    let ghost av = names_view(a@);
    let ghost bv = names_view(b@);
    let sa = sort_names(a);
    let sb = sort_names(b);
    let r = names_eq(&sa, &sb);
    proof {
        let leq = |x: Seq<char>, y: Seq<char>| name_le(x, y);
        lemma_name_le_total_ordering();
        if r {
            assert(av.to_multiset() =~= bv.to_multiset());
        } else {
            if av.to_multiset() == bv.to_multiset() {
                lemma_sorted_unique(names_view(sa@), names_view(sb@), leq);
                assert(false);
            }
        }
    }
    r
}

} // verus!

