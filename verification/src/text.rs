//! Text helpers shared by the dispatcher and the command behaviors:
//! splitting a message into space-separated tokens, joining names with
//! commas, rendering integers as decimal text, parsing integers, and
//! lower-casing (the latter through the standard library).

use vstd::prelude::*;
use vstd::string::*;

verus! {

/// The lower-case image of a character sequence, as `str::to_lowercase`
/// computes it.
pub uninterp spec fn lower_of(s: Seq<char>) -> Seq<char>;

/// Relies on str::to_lowercase: the result depends on the characters alone,
/// and is empty exactly when the input is empty (Unicode lowercasing maps
/// every character to at least one character).
#[verifier::external_body]
pub(crate) fn to_lower(s: &str) -> (r: String)
    ensures
        r@ == lower_of(s@),
        r@.len() == 0 <==> s@.len() == 0,
{
    s.to_lowercase()
}

/// The parameter at position `i`, or the empty sequence when there are
/// fewer parameters, mirroring an iterator's "next or default" reads.
pub open spec fn param_at(params: Seq<Seq<char>>, i: int) -> Seq<char> {
    if 0 <= i < params.len() {
        params[i]
    } else {
        Seq::empty()
    }
}

/// Executable counterpart of [`param_at`].
pub fn param_str(params: &Vec<String>, i: usize) -> (r: &str)
    ensures
        r@ == param_at(params.deep_view(), i as int),
{
    if i < params.len() {
        params[i].as_str()
    } else {
        proof {
            reveal_strlit("");
            assert(""@ =~= Seq::<char>::empty());
        }
        ""
    }
}

/// A string split at every space character, empty pieces kept: the exact
/// behavior of splitting on the separator `' '`. Splitting the empty
/// string yields one empty piece.
pub open spec fn split_spec(s: Seq<char>) -> Seq<Seq<char>>
    decreases s.len(),
{
    if s.len() == 0 {
        seq![Seq::<char>::empty()]
    } else if s.last() == ' ' {
        split_spec(s.drop_last()).push(Seq::<char>::empty())
    } else {
        let prev = split_spec(s.drop_last());
        prev.update(prev.len() - 1, prev.last().push(s.last()))
    }
}

pub proof fn lemma_split_spec_len(s: Seq<char>)
    ensures
        split_spec(s).len() >= 1,
    decreases s.len(),
{
    if s.len() > 0 {
        lemma_split_spec_len(s.drop_last());
    }
}

/// When a string does not begin with the separator, the first piece of its
/// split is non-empty and begins with the string's first character.
pub proof fn lemma_split_spec_first(s: Seq<char>)
    requires
        s.len() > 0,
        s[0] != ' ',
    ensures
        split_spec(s).len() >= 1,
        split_spec(s)[0].len() > 0,
        split_spec(s)[0][0] == s[0],
    decreases s.len(),
{
    lemma_split_spec_len(s);
    if s.len() == 1 {
        assert(s.drop_last().len() == 0);
    } else {
        let p = s.drop_last();
        assert(p[0] == s[0]);
        lemma_split_spec_first(p);
        lemma_split_spec_len(p);
    }
}

/// How the split grows when one more character is appended: a separator
/// opens a new empty piece, any other character extends the last piece.
pub proof fn lemma_split_spec_snoc(s: Seq<char>, c: char)
    ensures
        c == ' ' ==> split_spec(s.push(c)) == split_spec(s).push(Seq::<char>::empty()),
        c != ' ' ==> split_spec(s.push(c)) == split_spec(s).update(
            split_spec(s).len() - 1,
            split_spec(s).last().push(c),
        ),
{
    let t = s.push(c);
    assert(t.len() == s.len() + 1);
    assert(t.drop_last() =~= s);
    assert(t.last() == c);
}

/// Executable splitting on `' '`: returns exactly the pieces described by
/// [`split_spec`].
pub fn split_tokens(text: &str) -> (tokens: Vec<String>)
    ensures
        tokens.deep_view() == split_spec(text@),
        tokens.len() >= 1,
{
    let n = text.unicode_len();
    let mut tokens: Vec<String> = Vec::new();
    let mut start: usize = 0;
    let mut i: usize = 0;
    while i < n
        invariant
            start <= i <= n,
            n == text@.len(),
            tokens.deep_view() == split_spec(text@.take(i as int)).drop_last(),
            split_spec(text@.take(i as int)).last() == text@.subrange(start as int, i as int),
            split_spec(text@.take(i as int)).len() >= 1,
        decreases n - i,
    {
        let ghost s_i = split_spec(text@.take(i as int));
        let ghost s_i1 = split_spec(text@.take(i + 1));
        proof {
            assert(text@.take(i + 1) =~= text@.take(i as int).push(text@[i as int]));
            lemma_split_spec_snoc(text@.take(i as int), text@[i as int]);
            lemma_split_spec_len(text@.take(i + 1));
        }
        let c = text.get_char(i);
        if c == ' ' {
            let tok = text.substring_char(start, i).to_owned();
            let ghost pre = tokens.deep_view();
            tokens.push(tok);
            proof {
                assert(s_i1 == s_i.push(Seq::<char>::empty()));
                assert(s_i1.drop_last() =~~= s_i);
                assert(tokens.deep_view() =~~= pre.push(tok@));
                assert(pre.push(tok@) =~~= s_i);
                assert(s_i1.last() =~= text@.subrange(i + 1, i + 1));
            }
            start = i + 1;
        } else {
            proof {
                assert(s_i1 == s_i.update(s_i.len() - 1, s_i.last().push(text@[i as int])));
                assert(s_i1.drop_last() =~~= s_i.drop_last());
                assert(s_i1.last() == s_i.last().push(text@[i as int]));
                assert(s_i.last().push(text@[i as int]) =~= text@.subrange(start as int, i + 1));
            }
        }
        i += 1;
    }
    let tok = text.substring_char(start, n).to_owned();
    let ghost pre = tokens.deep_view();
    tokens.push(tok);
    proof {
        assert(text@.take(n as int) =~= text@);
        lemma_split_spec_len(text@);
        assert(tokens.deep_view() =~~= pre.push(tok@));
        assert(pre.push(tok@) =~~= split_spec(text@));
    }
    tokens
}

/// Character-for-character equality of two string slices.
pub fn str_eq(a: &str, b: &str) -> (r: bool)
    ensures
        r == (a@ == b@),
{
    let n = a.unicode_len();
    let m = b.unicode_len();
    if n != m {
        proof {
            if a@ == b@ {
                assert(a@.len() == b@.len());
            }
        }
        return false;
    }
    let mut i: usize = 0;
    while i < n
        invariant
            i <= n,
            n == a@.len() && n == b@.len(),
            forall|j: int| 0 <= j < i ==> a@[j] == b@[j],
        decreases n - i,
    {
        if a.get_char(i) != b.get_char(i) {
            return false;
        }
        i += 1;
    }
    proof {
        assert(a@ =~= b@);
    }
    true
}

/// Names joined with `", "` between consecutive entries.
pub open spec fn comma_joined(names: Seq<Seq<char>>) -> Seq<char>
    decreases names.len(),
{
    if names.len() == 0 {
        Seq::empty()
    } else if names.len() == 1 {
        names[0]
    } else {
        comma_joined(names.drop_last()) + ", "@ + names.last()
    }
}

/// The decimal digit characters of `n`, most significant first.
pub open spec fn dec_digits(n: nat) -> Seq<char>
    decreases n,
{
    if n < 10 {
        seq![digit_char(n as int)]
    } else {
        dec_digits(n / 10) + seq![digit_char((n % 10) as int)]
    }
}

/// Decimal text of a possibly negative integer.
pub open spec fn int_text(v: int) -> Seq<char> {
    if v < 0 {
        seq!['-'] + dec_digits((-v) as nat)
    } else {
        dec_digits(v as nat)
    }
}

pub open spec fn digit_char(d: int) -> char {
    if d == 0 {
        '0'
    } else if d == 1 {
        '1'
    } else if d == 2 {
        '2'
    } else if d == 3 {
        '3'
    } else if d == 4 {
        '4'
    } else if d == 5 {
        '5'
    } else if d == 6 {
        '6'
    } else if d == 7 {
        '7'
    } else if d == 8 {
        '8'
    } else {
        '9'
    }
}

fn digit_str(d: u64) -> (r: &'static str)
    requires
        d < 10,
    ensures
        r@ =~= seq![digit_char(d as int)],
{
    proof {
        reveal_strlit("0");
        reveal_strlit("1");
        reveal_strlit("2");
        reveal_strlit("3");
        reveal_strlit("4");
        reveal_strlit("5");
        reveal_strlit("6");
        reveal_strlit("7");
        reveal_strlit("8");
        reveal_strlit("9");
    }
    match d {
        0 => "0",
        1 => "1",
        2 => "2",
        3 => "3",
        4 => "4",
        5 => "5",
        6 => "6",
        7 => "7",
        8 => "8",
        _ => "9",
    }
}

/// Renders an unsigned integer as decimal text.
pub fn u64_to_text(n: u64) -> (r: String)
    ensures
        r@ == dec_digits(n as nat),
    decreases n,
{
    if n < 10 {
        let d = digit_str(n);
        d.to_owned()
    } else {
        let mut r = u64_to_text(n / 10);
        r.append(digit_str(n % 10));
        r
    }
}

/// Renders a signed integer as decimal text.
pub fn i32_to_text(n: i32) -> (r: String)
    ensures
        r@ == int_text(n as int),
{
    if n >= 0 {
        u64_to_text(n as u64)
    } else {
        let mut r = String::from_str("-");
        let mag: i64 = -(n as i64);
        let digits = u64_to_text(mag as u64);
        r.append(digits.as_str());
        proof {
            reveal_strlit("-");
            assert(r@ =~= int_text(n as int));
        }
        r
    }
}

pub open spec fn is_dec_digit(c: char) -> bool {
    48 <= c as u32 <= 57
}

pub open spec fn digit_val(c: char) -> int {
    c as u32 - 48
}

pub open spec fn all_digits(s: Seq<char>) -> bool {
    forall|i: int| 0 <= i < s.len() ==> is_dec_digit(#[trigger] s[i])
}

/// The value of a sequence of decimal digit characters, most significant
/// first.
pub open spec fn digits_val(s: Seq<char>) -> int
    decreases s.len(),
{
    if s.len() == 0 {
        0
    } else {
        digits_val(s.drop_last()) * 10 + digit_val(s.last())
    }
}

/// What `str::parse::<i32>` accepts and returns: an optional sign followed
/// by at least one decimal digit, whose value fits in an `i32`.
pub open spec fn parse_i32_spec(s: Seq<char>) -> Option<i32> {
    let negative = s.len() > 0 && s[0] == '-';
    let signed = s.len() > 0 && (s[0] == '-' || s[0] == '+');
    let ds = if signed {
        s.skip(1)
    } else {
        s
    };
    if ds.len() == 0 || !all_digits(ds) {
        None
    } else {
        let v = if negative {
            -digits_val(ds)
        } else {
            digits_val(ds)
        };
        if i32::MIN <= v <= i32::MAX {
            Some(v as i32)
        } else {
            None
        }
    }
}

pub proof fn lemma_digits_val_bounds(s: Seq<char>)
    requires
        all_digits(s),
    ensures
        digits_val(s) >= 0,
        s.len() > 0 ==> digits_val(s) >= digits_val(s.drop_last()),
    decreases s.len(),
{
    if s.len() > 0 {
        assert(all_digits(s.drop_last())) by {
            assert(forall|i: int|
                0 <= i < s.len() - 1 ==> #[trigger] s.drop_last()[i] == s[i]);
        }
        lemma_digits_val_bounds(s.drop_last());
    }
}

/// A digit string's value only grows as more digits are appended.
pub proof fn lemma_digits_val_monotone(s: Seq<char>, i: int)
    requires
        all_digits(s),
        0 <= i <= s.len(),
    ensures
        digits_val(s) >= digits_val(s.take(i)),
    decreases s.len() - i,
{
    lemma_digits_val_bounds(s);
    if i < s.len() {
        lemma_digits_val_monotone(s, i + 1);
        assert(s.take(i + 1).drop_last() =~= s.take(i));
        assert(s.take(i + 1).last() == s[i]);
        assert(all_digits(s.take(i + 1))) by {
            assert(forall|j: int|
                0 <= j < i + 1 ==> #[trigger] s.take(i + 1)[j] == s[j]);
        }
        lemma_digits_val_bounds(s.take(i + 1));
    } else {
        assert(s.take(i) =~= s);
    }
}

/// Executable integer parsing, matching [`parse_i32_spec`] exactly.
pub fn parse_i32(s: &str) -> (r: Option<i32>)
    ensures
        r == parse_i32_spec(s@),
{
    let n = s.unicode_len();
    if n == 0 {
        return None;
    }
    let first = s.get_char(0);
    let negative = first == '-';
    let signed = negative || first == '+';
    let off: usize = if signed {
        1
    } else {
        0
    };
    let ghost ds: Seq<char> = if signed {
        s@.skip(1)
    } else {
        s@
    };
    if off == n {
        return None;
    }
    let mut i: usize = off;
    let mut acc: i64 = 0;
    while i < n
        invariant
            off <= i <= n,
            0 < n == s@.len(),
            signed == (s@[0] == '-' || s@[0] == '+'),
            negative == (s@[0] == '-'),
            off == (if signed { 1int } else { 0int }),
            ds == (if signed { s@.skip(1) } else { s@ }),
            ds.len() == n - off,
            forall|j: int| 0 <= j < ds.len() ==> ds[j] == s@[j + off],
            all_digits(ds.take(i - off)),
            acc == digits_val(ds.take(i - off)),
            0 <= acc <= 2147483648,
        decreases n - i,
    {
        let c = s.get_char(i);
        let u = c as u32;
        proof {
            assert(ds[i - off] == c);
            assert(ds.take(i + 1 - off).drop_last() =~= ds.take(i - off));
        }
        if u < 48 || u > 57 {
            proof {
                assert(!is_dec_digit(ds[i - off]));
                assert(!all_digits(ds));
            }
            return None;
        }
        let d: i64 = (u - 48) as i64;
        let next: i64 = acc * 10 + d;
        proof {
            assert(all_digits(ds.take(i + 1 - off))) by {
                assert(forall|j: int|
                    0 <= j < i + 1 - off ==> #[trigger] ds.take(i + 1 - off)[j] == ds[j]);
            }
            assert(digits_val(ds.take(i + 1 - off)) == next);
        }
        if next > 2147483648 {
            proof {
                if all_digits(ds) {
                    lemma_digits_val_monotone(ds, i + 1 - off);
                    assert(digits_val(ds) >= next);
                }
            }
            return None;
        }
        acc = next;
        i += 1;
    }
    proof {
        assert(ds.take(n - off) =~= ds);
    }
    if negative {
        Some((-acc) as i32)
    } else {
        if acc > 2147483647 {
            return None;
        }
        Some(acc as i32)
    }
}

} // verus!
