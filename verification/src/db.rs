//! Storage encodings: how a set of claimed milestone tiers is written to
//! and read back from its text column (comma-separated decimal indices).

use std::collections::HashSet;
use vstd::prelude::*;
use vstd::std_specs::iter::IteratorSpec;
use crate::models::{GlobalRewardTier, Transaction, TransactionKind};
use crate::text::{decimal, digit_char, push_decimal};

verus! {

broadcast use vstd::std_specs::hash::group_hash_axioms;

// ---------------------------------------------------------------------
// Reading: splitting on commas and parsing indices
// ---------------------------------------------------------------------

/// The pieces of `s` between commas, in order (one empty piece for the
/// empty text, as `str::split` gives).
pub open spec fn split_commas(s: Seq<char>) -> Seq<Seq<char>>
    decreases s.len(),
{
    if s.len() == 0 {
        seq![Seq::<char>::empty()]
    } else if s.last() == ',' {
        split_commas(s.drop_last()).push(Seq::<char>::empty())
    } else {
        let p = split_commas(s.drop_last());
        p.update(p.len() - 1, p.last().push(s.last()))
    }
}

/// `c` is an ASCII decimal digit.
pub open spec fn is_digit(c: char) -> bool {
    '0' <= c <= '9'
}

/// The value of an ASCII digit.
pub open spec fn digit_value(c: char) -> nat {
    (c as u32 - '0' as u32) as nat
}

/// The value of a string of digits, most significant first.
pub open spec fn digits_value(d: Seq<char>) -> nat
    decreases d.len(),
{
    if d.len() == 0 {
        0
    } else {
        digits_value(d.drop_last()) * 10 + digit_value(d.last())
    }
}

/// All characters of `d` are digits.
pub open spec fn all_digits(d: Seq<char>) -> bool {
    forall|i: int| 0 <= i < d.len() ==> is_digit(#[trigger] d[i])
}

/// What `str::parse::<usize>` gives for `s`: an optional `+` followed by
/// one or more ASCII digits whose value fits in `usize`; anything else is
/// an error (`None`).
pub open spec fn parse_usize(s: Seq<char>) -> Option<usize> {
    let d = if s.len() > 0 && s[0] == '+' {
        s.drop_first()
    } else {
        s
    };
    if d.len() > 0 && all_digits(d) && digits_value(d) <= usize::MAX {
        Some(digits_value(d) as usize)
    } else {
        None
    }
}

/// The set read from a stored text: every piece between commas that
/// parses as an index. Empty pieces and pieces that do not parse are
/// skipped.
pub open spec fn parsed_tier_set(s: Seq<char>) -> Set<usize> {
    Set::new(
        |v: usize|
            exists|k: int|
                0 <= k < split_commas(s).len() && #[trigger] parse_usize(split_commas(s)[k]) == Some(v),
    )
}

proof fn lemma_split_commas_nonempty(s: Seq<char>)
    ensures
        split_commas(s).len() >= 1,
    decreases s.len(),
{
    if s.len() > 0 {
        lemma_split_commas_nonempty(s.drop_last());
    }
}

proof fn lemma_digits_value_prefix(d: Seq<char>, k: int)
    requires
        0 <= k <= d.len(),
    ensures
        digits_value(d.take(k)) <= digits_value(d),
    decreases d.len(),
{
    if k < d.len() {
        lemma_digits_value_prefix(d.drop_last(), k);
        assert(d.drop_last().take(k) == d.take(k));
    } else {
        assert(d.take(k) == d);
    }
}

/// The characters of a text.
fn chars_of(s: &str) -> (v: Vec<char>)
    ensures
        v@ == s@,
{
    let n = s.unicode_len();
    let mut v: Vec<char> = Vec::new();
    let mut i: usize = 0;
    while i < n
        invariant
            0 <= i <= n,
            n == s@.len(),
            v@ == s@.take(i as int),
        decreases n - i,
    {
        v.push(s.get_char(i));
        assert(s@.take(i + 1) == s@.take(i as int).push(s@[i as int]));
        i = i + 1;
    }
    assert(s@.take(n as int) == s@);
    v
}

/// Parse `chars[start..end]` as `str::parse::<usize>` would.
fn parse_piece(chars: &Vec<char>, start: usize, end: usize) -> (r: Option<usize>)
    requires
        start <= end <= chars@.len(),
    ensures
        r == parse_usize(chars@.subrange(start as int, end as int)),
{
    let ghost s = chars@.subrange(start as int, end as int);
    let mut j = start;
    if j < end && chars[j] == '+' {
        j = j + 1;
    }
    let ghost d = chars@.subrange(j as int, end as int);
    assert(d == (if s.len() > 0 && s[0] == '+' { s.drop_first() } else { s }));
    if j == end {
        return None;
    }
    let first = j;
    let mut value: usize = 0;
    while j < end
        invariant
            first <= j <= end <= chars@.len(),
            first < end,
            d == chars@.subrange(first as int, end as int),
            parse_usize(chars@.subrange(start as int, end as int)) == (if d.len() > 0 && all_digits(d) && digits_value(d) <= usize::MAX {
                Some(digits_value(d) as usize)
            } else {
                None
            }),
            all_digits(d.take(j - first)),
            value == digits_value(d.take(j - first)),
        decreases end - j,
    {
        let c = chars[j];
        assert(c == d[j - first]);
        if !('0' <= c && c <= '9') {
            assert(!is_digit(d[j - first]));
            assert(!all_digits(d));
            return None;
        }
        let digit = (c as u32 - '0' as u32) as usize;
        assert(d.take(j - first + 1) == d.take(j - first).push(c));
        assert(d.take(j - first + 1).drop_last() == d.take(j - first));
        if value > (usize::MAX - digit) / 10 {
            proof {
                assert(digits_value(d.take(j - first + 1)) == value * 10 + digit);
                assert(value * 10 + digit > usize::MAX) by (nonlinear_arith)
                    requires
                        value > (usize::MAX - digit) / 10,
                        digit <= 9,
                ;
                if all_digits(d) {
                    lemma_digits_value_prefix(d, j - first + 1);
                }
            }
            return None;
        }
        assert(value * 10 + digit <= usize::MAX) by (nonlinear_arith)
            requires
                value <= (usize::MAX - digit) / 10,
                digit <= 9,
        ;
        value = value * 10 + digit;
        j = j + 1;
    }
    assert(d.take(end - first) == d);
    Some(value)
}

/// Parse comma-separated tier indices from their stored text.
pub fn parse_tier_set(s: &str) -> (set: HashSet<usize>)
    ensures
        set@ == parsed_tier_set(s@),
{
    let chars = chars_of(s);
    let n = chars.len();
    let mut set: HashSet<usize> = HashSet::new();
    let mut start: usize = 0;
    let mut i: usize = 0;
    proof {
        lemma_split_commas_nonempty(chars@.take(0));
        assert(chars@.take(0) == Seq::<char>::empty());
    }
    while i < n
        invariant
            0 <= start <= i <= n,
            n == chars@.len(),
            chars@ == s@,
            split_commas(chars@.take(i as int)).len() >= 1,
            split_commas(chars@.take(i as int)).last() == chars@.subrange(start as int, i as int),
            set@ == Set::new(
                |v: usize|
                    exists|k: int|
                        0 <= k < split_commas(chars@.take(i as int)).len() - 1
                            && #[trigger] parse_usize(split_commas(chars@.take(i as int))[k]) == Some(v),
            ),
        decreases n - i,
    {
        let ghost before = split_commas(chars@.take(i as int));
        let ghost after = split_commas(chars@.take(i + 1));
        assert(chars@.take(i + 1).drop_last() == chars@.take(i as int));
        assert(chars@.take(i + 1).last() == chars@[i as int]);
        if chars[i] == ',' {
            let piece = parse_piece(&chars, start, i);
            if let Some(v) = piece {
                set.insert(v);
            }
            proof {
                assert(after == before.push(Seq::<char>::empty()));
                assert(set@ =~= Set::new(
                    |v: usize|
                        exists|k: int|
                            0 <= k < after.len() - 1 && #[trigger] parse_usize(after[k]) == Some(v),
                )) by {
                    assert forall|v: usize| set@.contains(v) implies exists|k: int|
                        0 <= k < after.len() - 1 && #[trigger] parse_usize(after[k]) == Some(v) by {
                        if piece == Some(v) {
                            assert(after[before.len() - 1] == before[before.len() - 1]);
                        } else {
                            let k = choose|k: int|
                                0 <= k < before.len() - 1 && #[trigger] parse_usize(before[k]) == Some(v);
                            assert(after[k] == before[k]);
                        }
                    }
                    assert forall|v: usize| (exists|k: int|
                        0 <= k < after.len() - 1 && #[trigger] parse_usize(after[k]) == Some(v)) implies set@.contains(v) by {
                        let k = choose|k: int| 0 <= k < after.len() - 1 && #[trigger] parse_usize(after[k]) == Some(v);
                        assert(after[k] == before[k]);
                        if k < before.len() - 1 {
                            assert(parse_usize(before[k]) == Some(v));
                        }
                    }
                }
                assert(chars@.subrange(i + 1, i + 1) == Seq::<char>::empty());
            }
            start = i + 1;
        } else {
            proof {
                assert(after == before.update(before.len() - 1, before.last().push(chars@[i as int])));
                assert(chars@.subrange(start as int, i + 1) == chars@.subrange(start as int, i as int).push(chars@[i as int]));
                assert(set@ =~= Set::new(
                    |v: usize|
                        exists|k: int|
                            0 <= k < after.len() - 1 && #[trigger] parse_usize(after[k]) == Some(v),
                )) by {
                    assert forall|v: usize| set@.contains(v) implies exists|k: int|
                        0 <= k < after.len() - 1 && #[trigger] parse_usize(after[k]) == Some(v) by {
                        let k = choose|k: int|
                            0 <= k < before.len() - 1 && #[trigger] parse_usize(before[k]) == Some(v);
                        assert(after[k] == before[k]);
                    }
                    assert forall|v: usize| (exists|k: int|
                        0 <= k < after.len() - 1 && #[trigger] parse_usize(after[k]) == Some(v)) implies set@.contains(v) by {
                        let k = choose|k: int| 0 <= k < after.len() - 1 && #[trigger] parse_usize(after[k]) == Some(v);
                        assert(after[k] == before[k]);
                    }
                }
            }
        }
        i = i + 1;
    }
    let piece = parse_piece(&chars, start, n);
    if let Some(v) = piece {
        set.insert(v);
    }
    proof {
        assert(chars@.take(n as int) == chars@);
        let all = split_commas(chars@);
        assert(set@ =~= parsed_tier_set(s@)) by {
            assert forall|v: usize| set@.contains(v) implies #[trigger] parsed_tier_set(s@).contains(v) by {
                if piece == Some(v) {
                    assert(parse_usize(all[all.len() - 1]) == Some(v));
                } else {
                    let k = choose|k: int| 0 <= k < all.len() - 1 && #[trigger] parse_usize(all[k]) == Some(v);
                    assert(parse_usize(all[k]) == Some(v));
                }
            }
            assert forall|v: usize| #[trigger] parsed_tier_set(s@).contains(v) implies set@.contains(v) by {
                let k = choose|k: int| 0 <= k < all.len() && #[trigger] parse_usize(all[k]) == Some(v);
                if k < all.len() - 1 {
                    assert(parse_usize(all[k]) == Some(v));
                }
            }
        }
    }
    set
}

// ---------------------------------------------------------------------
// Writing: sorted decimal indices joined with commas
// ---------------------------------------------------------------------

/// `a` sorts before `b` as strings are ordered (lexicographically by
/// character; for ASCII text this is the byte order).
pub open spec fn lex_lt(a: Seq<char>, b: Seq<char>) -> bool
    decreases a.len(),
{
    if b.len() == 0 {
        false
    } else if a.len() == 0 {
        true
    } else if a[0] != b[0] {
        a[0] < b[0]
    } else {
        lex_lt(a.drop_first(), b.drop_first())
    }
}

/// The decimal texts of `v` are in strictly increasing string order.
pub open spec fn text_sorted(v: Seq<usize>) -> bool {
    forall|i: int, j: int| 0 <= i < j < v.len() ==> lex_lt(decimal(v[i] as nat), decimal(v[j] as nat))
}

/// The decimal texts of `v` joined with commas.
pub open spec fn join_decimals(v: Seq<usize>) -> Seq<char>
    decreases v.len(),
{
    if v.len() == 0 {
        Seq::empty()
    } else if v.len() == 1 {
        decimal(v[0] as nat)
    } else {
        join_decimals(v.drop_last()) + seq![','] + decimal(v.last() as nat)
    }
}

proof fn lemma_lex_transitive(a: Seq<char>, b: Seq<char>, c: Seq<char>)
    requires
        lex_lt(a, b),
        lex_lt(b, c),
    ensures
        lex_lt(a, c),
    decreases a.len(),
{
    if a.len() > 0 && b.len() > 0 && c.len() > 0 && a[0] == b[0] && b[0] == c[0] {
        lemma_lex_transitive(a.drop_first(), b.drop_first(), c.drop_first());
    }
}

proof fn lemma_lex_total(a: Seq<char>, b: Seq<char>)
    requires
        a != b,
    ensures
        lex_lt(a, b) || lex_lt(b, a),
    decreases a.len(),
{
    if a.len() == 0 && b.len() == 0 {
        assert(a =~= b);
    } else if a.len() > 0 && b.len() > 0 {
        if a[0] == b[0] {
            let a1 = a.drop_first();
            let b1 = b.drop_first();
            if a1 =~= b1 {
                assert(a =~= b) by {
                    assert forall|i: int| 0 <= i < a.len() implies a[i] == b[i] by {
                        if i > 0 {
                            assert(a[i] == a1[i - 1]);
                            assert(b[i] == b1[i - 1]);
                        }
                    }
                }
            } else {
                lemma_lex_total(a1, b1);
            }
        } else {
            assert(a[0] < b[0] || b[0] < a[0]);
        }
    }
}

proof fn lemma_digit_char(d: int)
    requires
        0 <= d < 10,
    ensures
        is_digit(digit_char(d)),
        digit_value(digit_char(d)) == d,
{
}

/// A decimal text is a non-empty string of digits, without sign, whose
/// value is the number.
proof fn lemma_decimal_digits(n: nat)
    ensures
        decimal(n).len() > 0,
        all_digits(decimal(n)),
        digits_value(decimal(n)) == n,
    decreases n,
{
    if n < 10 {
        lemma_digit_char(n as int);
        assert(decimal(n).drop_last() =~= Seq::<char>::empty());
        assert(digits_value(Seq::<char>::empty()) == 0);
        assert(decimal(n).last() == digit_char(n as int));
    } else {
        lemma_decimal_digits(n / 10);
        lemma_digit_char((n % 10) as int);
        let d = decimal(n);
        assert(d.drop_last() == decimal(n / 10));
        assert forall|i: int| 0 <= i < d.len() implies is_digit(#[trigger] d[i]) by {
            if i < d.len() - 1 {
                assert(d[i] == decimal(n / 10)[i]);
            }
        }
    }
}

proof fn lemma_decimal_injective(x: nat, y: nat)
    requires
        decimal(x) == decimal(y),
    ensures
        x == y,
{
    lemma_decimal_digits(x);
    lemma_decimal_digits(y);
}

proof fn lemma_parse_decimal(n: usize)
    ensures
        parse_usize(decimal(n as nat)) == Some(n),
{
    lemma_decimal_digits(n as nat);
    let d = decimal(n as nat);
    assert(is_digit(d[0]));
}

/// The decimal text of a number.
fn decimal_string(n: usize) -> (s: String)
    ensures
        s@ == decimal(n as nat),
{
    let mut s = String::new();
    push_decimal(&mut s, n as u64);
    assert(s@ =~= decimal(n as nat));
    s
}

/// Whether `a` sorts before `b`.
fn text_less(a: &String, b: &String) -> (r: bool)
    ensures
        r == lex_lt(a@, b@),
{
    let sa = a.as_str();
    let sb = b.as_str();
    let na = sa.unicode_len();
    let nb = sb.unicode_len();
    let mut i: usize = 0;
    assert(a@.skip(0) =~= a@);
    assert(b@.skip(0) =~= b@);
    while i < na && i < nb
        invariant
            0 <= i <= na,
            i <= nb,
            na == a@.len(),
            nb == b@.len(),
            sa@ == a@,
            sb@ == b@,
            lex_lt(a@, b@) == lex_lt(a@.skip(i as int), b@.skip(i as int)),
        decreases na - i,
    {
        let ca = sa.get_char(i);
        let cb = sb.get_char(i);
        assert(a@.skip(i as int)[0] == ca);
        assert(b@.skip(i as int)[0] == cb);
        if ca != cb {
            return ca < cb;
        }
        assert(a@.skip(i as int).drop_first() == a@.skip(i + 1));
        assert(b@.skip(i as int).drop_first() == b@.skip(i + 1));
        i = i + 1;
    }
    i == na && i < nb
}

/// Format a tier set as its indices' decimal texts, sorted as strings and
/// joined with commas, for storage.
pub fn format_tier_set(set: &HashSet<usize>) -> (s: String)
    ensures
        exists|v: Seq<usize>| {
            &&& v.to_set() == set@
            &&& text_sorted(v)
            &&& s@ == join_decimals(v)
        },
{
    // The items, in the set's iteration order.
    let mut items: Vec<usize> = Vec::new();
    let ghost all = vstd::std_specs::hash::spec_hash_keys_iter(set).remaining().unref();
    assert(all.to_set() == set@);
    for x in it: set.iter()
        invariant
            all == it.seq().unref(),
            items@ == all.take(it.index()),
    {
        items.push(*x);
        assert(all.take(it.index() + 1) == all.take(it.index()).push(*x));
    }
    assert(all.take(all.len() as int) == all);
    assert(items@.no_duplicates());

    // Insertion sort by decimal text.
    let mut sorted: Vec<usize> = Vec::new();
    let mut k: usize = 0;
    while k < items.len()
        invariant
            0 <= k <= items@.len(),
            items@.no_duplicates(),
            text_sorted(sorted@),
            sorted@.to_set() == items@.take(k as int).to_set(),
        decreases items@.len() - k,
    {
        let x = items[k];
        let xs = decimal_string(x);
        let mut p: usize = 0;
        while p < sorted.len()
            invariant
                0 <= p <= sorted@.len(),
                xs@ == decimal(x as nat),
                forall|i: int| 0 <= i < p ==> lex_lt(decimal(sorted@[i] as nat), decimal(x as nat)),
            ensures
                0 <= p <= sorted@.len(),
                forall|i: int| 0 <= i < p ==> lex_lt(decimal(sorted@[i] as nat), decimal(x as nat)),
                p < sorted@.len() ==> !lex_lt(decimal(sorted@[p as int] as nat), decimal(x as nat)),
            decreases sorted@.len() - p,
        {
            let ys = decimal_string(sorted[p]);
            if !text_less(&ys, &xs) {
                break;
            }
            p = p + 1;
        }
        proof {
            assert(!sorted@.contains(x)) by {
                if sorted@.contains(x) {
                    assert(items@.take(k as int).to_set().contains(x));
                    let j = choose|j: int| 0 <= j < k && items@.take(k as int)[j] == x;
                    assert(items@[j] == items@[k as int]);
                }
            }
            if p < sorted@.len() {
                assert(decimal(sorted@[p as int] as nat) != decimal(x as nat)) by {
                    if decimal(sorted@[p as int] as nat) == decimal(x as nat) {
                        lemma_decimal_injective(sorted@[p as int] as nat, x as nat);
                    }
                }
                lemma_lex_total(decimal(sorted@[p as int] as nat), decimal(x as nat));
            }
        }
        let ghost old_sorted = sorted@;
        sorted.insert(p, x);
        proof {
            assert(sorted@ == old_sorted.insert(p as int, x));
            assert forall|i: int, j: int| 0 <= i < j < sorted@.len() implies lex_lt(decimal(sorted@[i] as nat), decimal(sorted@[j] as nat)) by {
                if j == p {
                    assert(sorted@[i] == old_sorted[i]);
                } else if i == p {
                    assert(sorted@[j] == old_sorted[j - 1]);
                    if j - 1 > p {
                        lemma_lex_transitive(decimal(x as nat), decimal(old_sorted[p as int] as nat), decimal(old_sorted[j - 1] as nat));
                    }
                } else if i < p && j < p {
                    assert(sorted@[i] == old_sorted[i] && sorted@[j] == old_sorted[j]);
                } else if i < p {
                    assert(sorted@[i] == old_sorted[i] && sorted@[j] == old_sorted[j - 1]);
                } else {
                    assert(sorted@[i] == old_sorted[i - 1] && sorted@[j] == old_sorted[j - 1]);
                }
            }
            let t0 = items@.take(k as int);
            let t1 = items@.take(k + 1);
            assert(t1 == t0.push(x));
            assert(sorted@.to_set() =~= t1.to_set()) by {
                assert forall|y: usize| sorted@.contains(y) <==> t1.contains(y) by {
                    if sorted@.contains(y) {
                        let j = choose|j: int| 0 <= j < sorted@.len() && sorted@[j] == y;
                        if j < p {
                            assert(old_sorted[j] == y);
                            assert(old_sorted.to_set().contains(y));
                        } else if j > p {
                            assert(old_sorted[j - 1] == y);
                            assert(old_sorted.to_set().contains(y));
                        } else {
                            assert(t1[k as int] == y);
                        }
                        if y != x {
                            assert(t0.to_set().contains(y));
                            let m = choose|m: int| 0 <= m < k && t0[m] == y;
                            assert(t1[m] == y);
                        }
                    }
                    if t1.contains(y) {
                        let m = choose|m: int| 0 <= m < k + 1 && t1[m] == y;
                        if m < k {
                            assert(t0[m] == y);
                            assert(old_sorted.to_set().contains(y));
                            let j = choose|j: int| 0 <= j < old_sorted.len() && old_sorted[j] == y;
                            if j < p {
                                assert(sorted@[j] == y);
                            } else {
                                assert(sorted@[j + 1] == y);
                            }
                        } else {
                            assert(sorted@[p as int] == y);
                        }
                    }
                }
            }
        }
        k = k + 1;
    }
    assert(items@.take(items@.len() as int) == items@);

    // Join with commas.
    let mut out = String::new();
    let mut i: usize = 0;
    while i < sorted.len()
        invariant
            0 <= i <= sorted@.len(),
            out@ == join_decimals(sorted@.take(i as int)),
        decreases sorted@.len() - i,
    {
        let ghost before = out@;
        if i > 0 {
            out.append(",");
            proof {
                reveal_strlit(",");
            }
        }
        push_decimal(&mut out, sorted[i] as u64);
        proof {
            let t = sorted@.take(i + 1);
            assert(t.drop_last() == sorted@.take(i as int));
            if i == 0 {
                assert(out@ =~= decimal(sorted@[0] as nat));
            } else {
                assert(out@ =~= before + seq![','] + decimal(sorted@[i as int] as nat));
            }
        }
        i = i + 1;
    }
    assert(sorted@.take(sorted@.len() as int) == sorted@);
    assert(items@.to_set() == set@);
    out
}

proof fn lemma_split_no_comma(s: Seq<char>, t: Seq<char>)
    requires
        forall|i: int| 0 <= i < t.len() ==> #[trigger] t[i] != ',',
    ensures
        split_commas(s + t) == split_commas(s).update(
            split_commas(s).len() - 1,
            split_commas(s).last() + t,
        ),
    decreases t.len(),
{
    lemma_split_commas_nonempty(s);
    if t.len() == 0 {
        assert(s + t == s);
        assert(split_commas(s).last() + t == split_commas(s).last());
        assert(split_commas(s).update(split_commas(s).len() - 1, split_commas(s).last()) =~= split_commas(s));
    } else {
        let t1 = t.drop_last();
        lemma_split_no_comma(s, t1);
        assert((s + t).drop_last() == s + t1);
        assert((s + t).last() == t.last());
        assert(split_commas(s).last() + t == (split_commas(s).last() + t1).push(t.last()));
        let p = split_commas(s);
        assert(split_commas(s + t) =~= p.update(p.len() - 1, p.last() + t));
    }
}

proof fn lemma_no_comma_in_decimal(n: nat)
    ensures
        forall|i: int| 0 <= i < decimal(n).len() ==> #[trigger] decimal(n)[i] != ',',
{
    lemma_decimal_digits(n);
    assert forall|i: int| 0 <= i < decimal(n).len() implies #[trigger] decimal(n)[i] != ',' by {
        assert(is_digit(decimal(n)[i]));
    }
}

proof fn lemma_split_join(v: Seq<usize>)
    requires
        v.len() > 0,
    ensures
        split_commas(join_decimals(v)) == v.map_values(|x: usize| decimal(x as nat)),
    decreases v.len(),
{
    lemma_no_comma_in_decimal(v.last() as nat);
    if v.len() == 1 {
        lemma_split_no_comma(Seq::empty(), decimal(v[0] as nat));
        assert(Seq::<char>::empty() + decimal(v[0] as nat) == decimal(v[0] as nat));
        assert(split_commas(Seq::<char>::empty()) == seq![Seq::<char>::empty()]);
        assert(Seq::<char>::empty() + decimal(v[0] as nat) == decimal(v[0] as nat));
        assert(split_commas(join_decimals(v)) =~= v.map_values(|x: usize| decimal(x as nat)));
    } else {
        let a = join_decimals(v.drop_last());
        lemma_split_join(v.drop_last());
        let s = a + seq![','];
        assert(s.drop_last() == a);
        assert(split_commas(s) == split_commas(a).push(Seq::<char>::empty()));
        lemma_split_no_comma(s, decimal(v.last() as nat));
        assert(join_decimals(v) == s + decimal(v.last() as nat));
        assert(Seq::<char>::empty() + decimal(v.last() as nat) == decimal(v.last() as nat));
        assert(split_commas(join_decimals(v)) =~= v.map_values(|x: usize| decimal(x as nat)));
    }
}

/// Reading back what was written gives the set that was written: the
/// stored text of a set of tier indices parses to the same set.
pub proof fn law_tier_set_roundtrip(v: Seq<usize>)
    ensures
        parsed_tier_set(join_decimals(v)) == v.to_set(),
{
    if v.len() == 0 {
        assert(split_commas(join_decimals(v)) == seq![Seq::<char>::empty()]);
        assert(parse_usize(Seq::<char>::empty()) is None);
        assert(parsed_tier_set(join_decimals(v)) =~= v.to_set());
    } else {
        lemma_split_join(v);
        let pieces = split_commas(join_decimals(v));
        assert(parsed_tier_set(join_decimals(v)) =~= v.to_set()) by {
            assert forall|x: usize| #[trigger] parsed_tier_set(join_decimals(v)).contains(x) <==> v.to_set().contains(x) by {
                if parsed_tier_set(join_decimals(v)).contains(x) {
                    let k = choose|k: int| 0 <= k < pieces.len() && #[trigger] parse_usize(pieces[k]) == Some(x);
                    lemma_parse_decimal(v[k]);
                    assert(v.contains(x));
                }
                if v.to_set().contains(x) {
                    let k = choose|k: int| 0 <= k < v.len() && v[k] == x;
                    lemma_parse_decimal(v[k]);
                    assert(pieces[k] == decimal(x as nat));
                }
            }
        }
    }
}

// ---------------------------------------------------------------------
// Row encodings of transactions and global rewards
// ---------------------------------------------------------------------

/// Whether a text equals a given text.
fn text_eq(s: &str, t: &str) -> (r: bool)
    ensures
        r == (s@ == t@),
{
    let n = s.unicode_len();
    if n != t.unicode_len() {
        return false;
    }
    let mut i: usize = 0;
    while i < n
        invariant
            0 <= i <= n,
            n == s@.len(),
            n == t@.len(),
            forall|j: int| 0 <= j < i ==> s@[j] == t@[j],
        decreases n - i,
    {
        if s.get_char(i) != t.get_char(i) {
            return false;
        }
        i = i + 1;
    }
    assert(s@ =~= t@);
    true
}

/// The stored name of a transaction kind.
pub open spec fn kind_label(kind: TransactionKind) -> Seq<char> {
    match kind {
        TransactionKind::Earn(_) => "earn"@,
        TransactionKind::Spend(_) => "spend"@,
    }
}

/// The stored name of a transaction kind: `earn` or `spend`.
pub fn transaction_kind_label(kind: &TransactionKind) -> (s: &'static str)
    ensures
        s@ == kind_label(*kind),
{
    match kind {
        TransactionKind::Earn(_) => "earn",
        TransactionKind::Spend(_) => "spend",
    }
}

/// The kind of a stored transaction row: `earn` rows earn their amount
/// (negative amounts read as zero), every other row spends the negated
/// amount (likewise); the coins are taken as a `u32` by truncation.
pub open spec fn kind_of_row(label: Seq<char>, amount: i64) -> TransactionKind {
    if label == "earn"@ {
        TransactionKind::Earn((if amount > 0 { amount as int } else { 0 }) as u32)
    } else {
        TransactionKind::Spend((if amount < 0 { -amount } else { 0 }) as u32)
    }
}

/// Read the kind of a stored transaction row.
pub fn transaction_kind_from_row(label: &str, amount: i64) -> (kind: TransactionKind)
    requires
        label@ != "earn"@ ==> amount > i64::MIN,
    ensures
        kind == kind_of_row(label@, amount),
{
    if text_eq(label, "earn") {
        let coins: i64 = if amount > 0 { amount } else { 0 };
        TransactionKind::Earn(#[verifier::truncate] (coins as u32))
    } else {
        let coins: i64 = if amount < 0 { -amount } else { 0 };
        TransactionKind::Spend(#[verifier::truncate] (coins as u32))
    }
}

/// A stored log's balance: the last transaction's `balance_after`, or zero
/// for an empty log.
pub fn balance_from_log(transactions: &Vec<Transaction>) -> (balance: i64)
    ensures
        balance == (if transactions@.len() == 0 { 0 } else { transactions@.last().balance_after }),
{
    if transactions.len() == 0 {
        0
    } else {
        transactions[transactions.len() - 1].balance_after
    }
}

/// The stored name of a global reward tier.
pub open spec fn tier_label(tier: GlobalRewardTier) -> Seq<char> {
    match tier {
        GlobalRewardTier::Low => "low"@,
        GlobalRewardTier::Medium => "medium"@,
        GlobalRewardTier::Jackpot => "jackpot"@,
    }
}

/// The tier a stored name denotes; an unknown name reads as Low.
pub open spec fn tier_of_label(label: Seq<char>) -> GlobalRewardTier {
    if label == "medium"@ {
        GlobalRewardTier::Medium
    } else if label == "jackpot"@ {
        GlobalRewardTier::Jackpot
    } else {
        GlobalRewardTier::Low
    }
}

/// The stored name of a global reward tier: `low`, `medium` or `jackpot`.
pub fn global_tier_label(tier: GlobalRewardTier) -> (s: &'static str)
    ensures
        s@ == tier_label(tier),
{
    match tier {
        GlobalRewardTier::Low => "low",
        GlobalRewardTier::Medium => "medium",
        GlobalRewardTier::Jackpot => "jackpot",
    }
}

/// Read a stored global reward tier name.
pub fn global_tier_from_label(label: &str) -> (tier: GlobalRewardTier)
    ensures
        tier == tier_of_label(label@),
{
    if text_eq(label, "medium") {
        GlobalRewardTier::Medium
    } else if text_eq(label, "jackpot") {
        GlobalRewardTier::Jackpot
    } else {
        GlobalRewardTier::Low
    }
}

/// A stored tier name reads back as the tier that was stored.
pub proof fn law_tier_label_roundtrip(tier: GlobalRewardTier)
    ensures
        tier_of_label(tier_label(tier)) == tier,
{
    reveal_strlit("low");
    reveal_strlit("medium");
    reveal_strlit("jackpot");
    assert("low"@ != "medium"@ && "low"@ != "jackpot"@ && "jackpot"@ != "medium"@) by {
        assert("low"@.len() != "medium"@.len());
        assert("low"@[0] != "jackpot"@[0]);
        assert("jackpot"@.len() != "medium"@.len());
    }
}

/// A stored kind name and signed amount read back as the kind that was
/// stored, for the amounts the ledger writes (an earn's amount is its
/// coins, a spend's is their negation).
pub proof fn law_kind_label_roundtrip(kind: TransactionKind)
    ensures
        kind_of_row(kind_label(kind), match kind {
            TransactionKind::Earn(a) => a as i64,
            TransactionKind::Spend(a) => -(a as int) as i64,
        }) == kind,
{
    reveal_strlit("earn");
    reveal_strlit("spend");
    assert("earn"@ != "spend"@) by {
        assert("earn"@.len() != "spend"@.len());
    }
}

} // verus!
