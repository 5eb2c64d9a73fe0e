use vstd::prelude::*;

verus! {

/// The pieces of `s` between occurrences of the separator `sep`, in order.
/// An empty input has one empty piece; a trailing separator yields a final
/// empty piece, matching the behaviour of splitting a string on a separator.
pub open spec fn split_seq(s: Seq<char>, sep: char) -> Seq<Seq<char>>
    decreases s.len(),
{
    if s.len() == 0 {
        seq![Seq::<char>::empty()]
    } else if s[0] == sep {
        seq![Seq::<char>::empty()] + split_seq(s.drop_first(), sep)
    } else {
        let rest = split_seq(s.drop_first(), sep);
        seq![seq![s[0]] + rest[0]] + rest.drop_first()
    }
}

pub proof fn lemma_split_seq_len(s: Seq<char>, sep: char)
    ensures
        split_seq(s, sep).len() >= 1,
    decreases s.len(),
{
    if s.len() > 0 {
        lemma_split_seq_len(s.drop_first(), sep);
    }
}

/// A sequence without the separator splits into the single piece that is
/// the sequence itself.
pub proof fn lemma_split_seq_whole(a: Seq<char>, sep: char)
    requires
        forall|i: int| 0 <= i < a.len() ==> a[i] != sep,
    ensures
        split_seq(a, sep) == seq![a],
    decreases a.len(),
{
    if a.len() == 0 {
        assert(split_seq(a, sep) =~~= seq![a]);
    } else {
        lemma_split_seq_whole(a.drop_first(), sep);
        lemma_split_seq_len(a.drop_first(), sep);
        assert(seq![a[0]] + a.drop_first() =~= a);
        assert(split_seq(a, sep) =~~= seq![a]);
    }
}

/// Splitting at the first separator: a prefix free of the separator, the
/// separator itself, then the remainder.
pub proof fn lemma_split_seq_append(a: Seq<char>, b: Seq<char>, sep: char)
    requires
        forall|i: int| 0 <= i < a.len() ==> a[i] != sep,
    ensures
        split_seq(a + seq![sep] + b, sep) == seq![a] + split_seq(b, sep),
    decreases a.len(),
{
    let s = a + seq![sep] + b;
    if a.len() == 0 {
        assert(s[0] == sep);
        assert(s.drop_first() =~= b);
        assert(split_seq(s, sep) =~~= seq![a] + split_seq(b, sep));
    } else {
        assert(s[0] == a[0]);
        assert(s.drop_first() =~= a.drop_first() + seq![sep] + b);
        lemma_split_seq_append(a.drop_first(), b, sep);
        let rest = split_seq(s.drop_first(), sep);
        lemma_split_seq_len(b, sep);
        assert(rest == seq![a.drop_first()] + split_seq(b, sep));
        assert(rest[0] == a.drop_first());
        assert(seq![s[0]] + rest[0] =~= a);
        assert(rest.drop_first() =~~= split_seq(b, sep));
        assert(split_seq(s, sep) =~~= seq![a] + split_seq(b, sep));
    }
}

/// Splits `s` at every occurrence of `sep`, in order.
pub fn split_str(s: &str, sep: char) -> (r: Vec<String>)
    ensures
        r.deep_view() == split_seq(s@, sep),
{
    let n = s.unicode_len();
    let mut pieces: Vec<String> = Vec::new();
    let mut start: usize = 0;
    let mut i: usize = 0;
    proof {
        assert(s@.skip(0) =~= s@);
        assert(pieces.deep_view() =~~= Seq::<Seq<char>>::empty());
        assert(pieces.deep_view() + split_seq(s@, sep) =~~= split_seq(s@, sep));
    }
    while i < n
        invariant
            start <= i <= n,
            n == s@.len(),
            forall|k: int| start <= k < i ==> s@[k] != sep,
            split_seq(s@, sep) == pieces.deep_view() + split_seq(s@.skip(start as int), sep),
        decreases n - i,
    {
        let c = s.get_char(i);
        if c == sep {
            let piece = s.substring_char(start, i).to_owned();
            pieces.push(piece);
            proof {
                let a = s@.subrange(start as int, i as int);
                let b = s@.skip(i as int + 1);
                assert(s@.skip(start as int) =~= a + seq![sep] + b);
                lemma_split_seq_append(a, b, sep);
                assert(pieces.deep_view() =~~= pieces.deep_view().drop_last() + seq![a]);
                assert(split_seq(s@, sep) =~~= pieces.deep_view() + split_seq(b, sep));
            }
            start = i + 1;
        }
        i += 1;
    }
    let piece = s.substring_char(start, n).to_owned();
    pieces.push(piece);
    proof {
        let a = s@.subrange(start as int, n as int);
        assert(a =~= s@.skip(start as int));
        lemma_split_seq_whole(a, sep);
        assert(pieces.deep_view() =~~= pieces.deep_view().drop_last() + seq![a]);
        assert(split_seq(s@, sep) =~~= pieces.deep_view());
    }
    pieces
}

/// Character-wise string equality.
pub fn str_eq(a: &str, b: &str) -> (r: bool)
    ensures
        r == (a@ == b@),
{
    let na = a.unicode_len();
    let nb = b.unicode_len();
    if na != nb {
        return false;
    }
    let mut i: usize = 0;
    while i < na
        invariant
            i <= na,
            na == a@.len(),
            nb == b@.len(),
            na == nb,
            forall|k: int| 0 <= k < i ==> a@[k] == b@[k],
        decreases na - i,
    {
        if a.get_char(i) != b.get_char(i) {
            return false;
        }
        i += 1;
    }
    proof {
        assert(a@ =~= b@);
    }
    true
}

/// Whether `s` begins with `prefix`, character by character.
pub fn str_starts_with(s: &str, prefix: &str) -> (r: bool)
    ensures
        r == prefix@.is_prefix_of(s@),
{
    let np = prefix.unicode_len();
    let ns = s.unicode_len();
    if np > ns {
        return false;
    }
    let mut i: usize = 0;
    while i < np
        invariant
            i <= np,
            np == prefix@.len(),
            ns == s@.len(),
            np <= ns,
            forall|k: int| 0 <= k < i ==> s@[k] == prefix@[k],
        decreases np - i,
    {
        if s.get_char(i) != prefix.get_char(i) {
            assert(!prefix@.is_prefix_of(s@));
            return false;
        }
        i += 1;
    }
    proof {
        assert(prefix@ =~= s@.subrange(0, np as int));
    }
    true
}

pub open spec fn is_digit_char(c: char) -> bool {
    '0' as u32 <= c as u32 && c as u32 <= '9' as u32
}

pub open spec fn digit_of(c: char) -> nat {
    (c as u32 - '0' as u32) as nat
}

pub open spec fn all_digits(s: Seq<char>) -> bool {
    s.len() > 0 && forall|i: int| 0 <= i < s.len() ==> is_digit_char(#[trigger] s[i])
}

/// The number denoted by a sequence of decimal digits.
pub open spec fn digits_val(s: Seq<char>) -> nat
    decreases s.len(),
{
    if s.len() == 0 {
        0
    } else {
        digits_val(s.drop_last()) * 10 + digit_of(s.last())
    }
}

/// The digit part of a decimal numeral: a single leading `+` sign is allowed.
pub open spec fn u32_digits(s: Seq<char>) -> Seq<char> {
    if s.len() > 0 && s[0] == '+' {
        s.drop_first()
    } else {
        s
    }
}

/// Whether `s` is accepted when parsed as a decimal `u32`.
pub open spec fn is_u32_string(s: Seq<char>) -> bool {
    all_digits(u32_digits(s)) && digits_val(u32_digits(s)) <= u32::MAX
}

/// The value of a decimal numeral that `is_u32_string` accepts.
pub open spec fn u32_of_string(s: Seq<char>) -> u32 {
    digits_val(u32_digits(s)) as u32
}

/// The character of one decimal digit.
pub open spec fn digit_char(d: nat) -> char {
    if d == 0 {
        '0'
    } else if d == 1 {
        '1'
    } else if d == 2 {
        '2'
    } else if d == 3 {
        '3'
    } else if d == 4 {
        '4'
    } else if d == 5 {
        '5'
    } else if d == 6 {
        '6'
    } else if d == 7 {
        '7'
    } else if d == 8 {
        '8'
    } else {
        '9'
    }
}

/// The canonical decimal numeral of `n`, most significant digit first.
pub open spec fn dec_digits(n: nat) -> Seq<char>
    decreases n,
{
    if n < 10 {
        seq![digit_char(n)]
    } else {
        dec_digits(n / 10) + seq![digit_char(n % 10)]
    }
}

/// The canonical decimal numeral denotes its own number, in digits only.
pub proof fn lemma_dec_digits(n: nat)
    ensures
        all_digits(dec_digits(n)),
        digits_val(dec_digits(n)) == n,
    decreases n,
{
    if n < 10 {
        assert(seq![digit_char(n)].drop_last() =~= Seq::<char>::empty());
        assert(digits_val(Seq::<char>::empty()) == 0);
        assert(digit_of(digit_char(n)) == n);
        assert(digits_val(seq![digit_char(n)]) == n);
    } else {
        lemma_dec_digits(n / 10);
        let s = dec_digits(n);
        assert(s.drop_last() =~= dec_digits(n / 10));
        assert(s.last() == digit_char(n % 10));
        assert(digit_of(digit_char(n % 10)) == n % 10);
        vstd::arithmetic::div_mod::lemma_fundamental_div_mod(n as int, 10);
        assert(digits_val(s) == (n / 10) * 10 + n % 10);
    }
}

proof fn lemma_digits_val_step(s: Seq<char>, i: int)
    requires
        0 <= i < s.len(),
    ensures
        digits_val(s.take(i + 1)) == digits_val(s.take(i)) * 10 + digit_of(s[i]),
{
    assert(s.take(i + 1).drop_last() =~= s.take(i));
    assert(s.take(i + 1).last() == s[i]);
}

proof fn lemma_digits_val_grows(s: Seq<char>, i: int, j: int)
    requires
        0 <= i <= j <= s.len(),
    ensures
        digits_val(s.take(i)) <= digits_val(s.take(j)),
    decreases j - i,
{
    if i < j {
        lemma_digits_val_grows(s, i, j - 1);
        lemma_digits_val_step(s, j - 1);
    }
}

/// Parses a decimal `u32`, accepting exactly the strings of an optional
/// leading `+` followed by digits whose value fits in 32 bits.
pub fn parse_u32(s: &str) -> (r: Option<u32>)
    ensures
        r is Some <==> is_u32_string(s@),
        r is Some ==> r->0 == u32_of_string(s@),
{
    let n = s.unicode_len();
    let mut i: usize = 0;
    if n > 0 && s.get_char(0) == '+' {
        i = 1;
    }
    let ghost ds = u32_digits(s@);
    proof {
        assert(ds =~= s@.skip(i as int));
    }
    if i == n {
        assert(ds.len() == 0);
        return None;
    }
    let mut acc: u32 = 0;
    let mut j: usize = i;
    while j < n
        invariant
            i <= j <= n,
            n == s@.len(),
            ds == u32_digits(s@),
            ds == s@.skip(i as int),
            ds.len() == n - i,
            forall|k: int| 0 <= k < j - i ==> is_digit_char(#[trigger] ds[k]),
            acc as nat == digits_val(ds.take(j - i)),
        decreases n - j,
    {
        let c = s.get_char(j);
        let cv = c as u32;
        assert(ds[j - i] == s@[j as int]);
        if cv < 48 || cv > 57 {
            assert(!is_digit_char(ds[j - i]));
            return None;
        }
        assert(is_digit_char(ds[j - i]));
        let d = cv - 48;
        assert(d == digit_of(ds[j - i]));
        if acc > (u32::MAX - d) / 10 {
            proof {
                assert(acc * 10 + d > u32::MAX) by {
                    let m = (u32::MAX - d) as int;
                    assert(acc as int >= m / 10 + 1);
                    assert((m / 10 + 1) * 10 == (m / 10) * 10 + 10);
                    assert((m / 10) * 10 + m % 10 == m);
                    assert(m % 10 <= 9);
                };
                lemma_digits_val_step(ds, j - i);
                lemma_digits_val_grows(ds, j - i + 1, ds.len() as int);
                assert(ds.take(ds.len() as int) =~= ds);
                assert(digits_val(ds) > u32::MAX);
            }
            return None;
        }
        proof {
            assert(acc * 10 + d <= u32::MAX) by {
                let m = (u32::MAX - d) as int;
                assert(acc as int <= m / 10);
                assert((m / 10) * 10 + m % 10 == m);
            };
            lemma_digits_val_step(ds, j - i);
        }
        acc = acc * 10 + d;
        j += 1;
    }
    proof {
        assert(ds.take(ds.len() as int) =~= ds);
        assert(all_digits(ds));
        assert(digits_val(ds) == acc as nat);
    }
    Some(acc)
}

} // verus!
