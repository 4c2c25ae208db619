//! Verified string helpers shared by the rest of the crate: equality,
//! decimal formatting and parsing, truncation and joining.

use vstd::prelude::*;

verus! {

/// Relies on String::push: appends one character to the string.
#[verifier::external_body]
pub fn push_char(s: &mut String, c: char)
    ensures
        final(s)@ == old(s)@ + seq![c],
{
    s.push(c)
}

/// Character-by-character string equality.
pub fn str_eq(a: &str, b: &str) -> (r: bool)
    ensures
        r == (a@ == b@),
{
    let alen = a.unicode_len();
    let blen = b.unicode_len();
    if alen != blen {
        proof {
            assert(a@ != b@) by {
                assert(a@.len() != b@.len());
            }
        }
        return false;
    }
    let mut i: usize = 0;
    while i < alen
        invariant
            alen == a@.len(),
            alen == b@.len(),
            0 <= i <= alen,
            forall|j: int| 0 <= j < i ==> a@[j] == b@[j],
        decreases alen - i,
    {
        if a.get_char(i) != b.get_char(i) {
            return false;
        }
        i += 1;
    }
    proof {
        assert(a@ =~= b@);
    }
    true
}

pub open spec fn is_dec_digit(c: char) -> bool {
    '0' <= c && c <= '9'
}

pub open spec fn digit_val(c: char) -> nat {
    (c as nat - '0' as nat) as nat
}

pub open spec fn digit_char(d: nat) -> char {
    if d == 0 {
        '0'
    } else if d == 1 {
        '1'
    } else if d == 2 {
        '2'
    } else if d == 3 {
        '3'
    } else if d == 4 {
        '4'
    } else if d == 5 {
        '5'
    } else if d == 6 {
        '6'
    } else if d == 7 {
        '7'
    } else if d == 8 {
        '8'
    } else {
        '9'
    }
}

/// The decimal representation of `n`, most significant digit first.
pub open spec fn dec_str(n: nat) -> Seq<char>
    decreases n,
{
    if n < 10 {
        seq![digit_char(n)]
    } else {
        dec_str(n / 10) + seq![digit_char(n % 10)]
    }
}

pub open spec fn all_dec_digits(s: Seq<char>) -> bool {
    forall|i: int| 0 <= i < s.len() ==> is_dec_digit(#[trigger] s[i])
}

/// The value of a sequence of decimal digits.
pub open spec fn dec_val(s: Seq<char>) -> nat
    decreases s.len(),
{
    if s.len() == 0 {
        0
    } else {
        dec_val(s.drop_last()) * 10 + digit_val(s.last())
    }
}

pub proof fn lemma_dec_val_push(s: Seq<char>, c: char)
    ensures
        dec_val(s.push(c)) == dec_val(s) * 10 + digit_val(c),
{
    assert(s.push(c).drop_last() =~= s);
    assert(s.push(c).last() == c);
}

/// Appending digits never decreases the value.
pub proof fn lemma_dec_val_prefix(s: Seq<char>, i: int)
    requires
        0 <= i <= s.len(),
    ensures
        dec_val(s) >= dec_val(s.take(i)),
    decreases s.len() - i,
{
    if i < s.len() {
        lemma_dec_val_prefix(s, i + 1);
        assert(s.take(i + 1).drop_last() =~= s.take(i));
        assert(dec_val(s.take(i + 1)) == dec_val(s.take(i)) * 10 + digit_val(s.take(i + 1).last()));
        assert(dec_val(s.take(i)) * 10 >= dec_val(s.take(i)));
    } else {
        assert(s.take(i) =~= s);
    }
}

/// Parse an unsigned 64-bit decimal number; `None` when `s` is not a
/// non-empty all-digit string whose value fits in `u64`.
pub fn parse_u64_digits(s: &str) -> (r: Option<u64>)
    ensures
        match r {
            Some(v) => s@.len() > 0 && all_dec_digits(s@) && dec_val(s@) == v,
            None => !(s@.len() > 0 && all_dec_digits(s@) && dec_val(s@) <= u64::MAX),
        },
{
    let len = s.unicode_len();
    if len == 0 {
        return None;
    }
    let mut acc: u64 = 0;
    let mut i: usize = 0;
    while i < len
        invariant
            len == s@.len(),
            0 <= i <= len,
            all_dec_digits(s@.take(i as int)),
            acc == dec_val(s@.take(i as int)),
        decreases len - i,
    {
        let c = s.get_char(i);
        if !('0' <= c && c <= '9') {
            assert(!is_dec_digit(s@[i as int]));
            return None;
        }
        let d: u64 = (c as u64) - ('0' as u64);
        proof {
            assert(d == digit_val(c));
        }
        if acc > (u64::MAX - d) / 10 {
            proof {
                assert(s@.take(i as int).push(c) =~= s@.take(i + 1));
                lemma_dec_val_push(s@.take(i as int), c);
                assert(dec_val(s@.take(i + 1)) == acc * 10 + d);
                assert(acc * 10 + d > u64::MAX);
                lemma_dec_val_prefix(s@, i + 1);
                assert(dec_val(s@) > u64::MAX);
            }
            return None;
        }
        proof {
            assert(s@.take(i as int).push(c) =~= s@.take(i + 1));
            lemma_dec_val_push(s@.take(i as int), c);
        }
        acc = acc * 10 + d;
        i += 1;
    }
    proof {
        assert(s@.take(len as int) =~= s@);
    }
    Some(acc)
}

/// Parse an unsigned 32-bit decimal number; `None` when `s` is not a
/// non-empty all-digit string whose value fits in `u32`.
pub fn parse_u32_digits(s: &str) -> (r: Option<u32>)
    ensures
        match r {
            Some(v) => s@.len() > 0 && all_dec_digits(s@) && dec_val(s@) == v,
            None => !(s@.len() > 0 && all_dec_digits(s@) && dec_val(s@) <= u32::MAX),
        },
{
    match parse_u64_digits(s) {
        Some(v) => if v <= u32::MAX as u64 {
            Some(v as u32)
        } else {
            None
        },
        None => None,
    }
}

/// Format `n` in decimal.
pub fn u64_to_string(n: u64) -> (r: String)
    ensures
        r@ == dec_str(n as nat),
{
    let mut digits: Vec<char> = Vec::new();
    let mut m: u64 = n;
    loop
        invariant_except_break
            dec_str(n as nat) =~= dec_str(m as nat) + digits@,
        ensures
            dec_str(n as nat) =~= digits@,
        decreases m,
    {
        let d: u64 = m % 10;
        let c = digit_of(d);
        proof {
            if m >= 10 {
                assert(dec_str(m as nat) == dec_str((m / 10) as nat) + seq![digit_char((m % 10) as nat)]);
                assert(dec_str((m / 10) as nat) + (seq![c] + digits@) =~= dec_str(m as nat) + digits@);
            } else {
                assert(dec_str(m as nat) =~= seq![c]);
                assert(dec_str(m as nat) + digits@ =~= seq![c] + digits@);
            }
        }
        digits.insert(0, c);
        if m < 10 {
            break;
        }
        m = m / 10;
    }
    let mut r = String::new();
    let mut i: usize = 0;
    while i < digits.len()
        invariant
            r@ == digits@.take(i as int),
            0 <= i <= digits@.len(),
            dec_str(n as nat) =~= digits@,
        decreases digits@.len() - i,
    {
        push_char(&mut r, digits[i]);
        proof {
            assert(digits@.take(i as int).push(digits@[i as int]) =~= digits@.take(i + 1));
        }
        i += 1;
    }
    proof {
        assert(digits@.take(digits@.len() as int) =~= digits@);
    }
    r
}

/// The decimal representation of a signed number.
pub open spec fn int_str(n: int) -> Seq<char> {
    if n < 0 {
        seq!['-'] + dec_str((-n) as nat)
    } else {
        dec_str(n as nat)
    }
}

/// Format a signed number in decimal.
pub fn i64_to_string(n: i64) -> (r: String)
    ensures
        r@ == int_str(n as int),
{
    if n >= 0 {
        u64_to_string(n as u64)
    } else {
        let mag: u64 = ((-(n + 1)) as u64) + 1;
        let mut r = String::new();
        push_char(&mut r, '-');
        let digits = u64_to_string(mag);
        r.append(digits.as_str());
        proof {
            assert(mag == -(n as int));
            assert(r@ == seq!['-'] + dec_str((-(n as int)) as nat));
        }
        r
    }
}

/// `s` cut to `max_len` characters: over-long text keeps its first
/// `max_len - 3` characters and ends in `...`.
pub open spec fn shortened(s: Seq<char>, max_len: nat) -> Seq<char> {
    if s.len() > max_len {
        s.take(max_len - 3) + seq!['.', '.', '.']
    } else {
        s
    }
}

/// If `s` has more than `max_len` characters, keep the first
/// `max_len - 3` and add `...`.
pub fn shorten_to(s: String, max_len: usize) -> (r: String)
    requires
        s@.len() > max_len ==> max_len >= 3,
    ensures
        r@ == shortened(s@, max_len as nat),
{
    let len = s.as_str().unicode_len();
    if len > max_len {
        let head = s.as_str().substring_char(0, max_len - 3);
        let mut r = head.to_owned();
        proof {
            reveal_strlit("...");
            assert("..."@ =~= seq!['.', '.', '.']);
        }
        r.append("...");
        proof {
            assert(s@.subrange(0, max_len - 3) =~= s@.take(max_len - 3));
        }
        r
    } else {
        s
    }
}

/// The items joined with `sep` between each pair.
pub open spec fn joined(items: Seq<Seq<char>>, sep: Seq<char>) -> Seq<char>
    decreases items.len(),
{
    if items.len() == 0 {
        Seq::empty()
    } else if items.len() == 1 {
        items[0]
    } else {
        joined(items.drop_last(), sep) + sep + items.last()
    }
}

/// Join the items with `sep` between each pair.
pub fn join_with(items: &Vec<String>, sep: &str) -> (r: String)
    ensures
        r@ == joined(items.deep_view(), sep@),
{
    let mut r = String::new();
    let mut i: usize = 0;
    while i < items.len()
        invariant
            0 <= i <= items.len(),
            items.deep_view().len() == items.len(),
            r@ == joined(items.deep_view().take(i as int), sep@),
        decreases items.len() - i,
    {
        if i > 0 {
            r.append(sep);
        }
        r.append(items[i].as_str());
        proof {
            let dv = items.deep_view();
            assert(items[i as int]@ == dv[i as int]);
            assert(dv.take(i + 1).drop_last() =~= dv.take(i as int));
            assert(dv.take(i + 1).last() == dv[i as int]);
            if i == 0 {
                assert(joined(dv.take(1), sep@) == dv[0]);
            }
        }
        i += 1;
    }
    proof {
        assert(items.deep_view().take(items.len() as int) =~= items.deep_view());
    }
    r
}

pub open spec fn is_blank(c: char) -> bool {
    c == ' ' || c == '\t' || c == '\n' || c == '\r'
}

/// `s` without leading blanks.
pub open spec fn trim_front(s: Seq<char>) -> Seq<char>
    decreases s.len(),
{
    if s.len() > 0 && is_blank(s[0]) {
        trim_front(s.drop_first())
    } else {
        s
    }
}

/// `s` without trailing blanks.
pub open spec fn trim_back(s: Seq<char>) -> Seq<char>
    decreases s.len(),
{
    if s.len() > 0 && is_blank(s.last()) {
        trim_back(s.drop_last())
    } else {
        s
    }
}

pub open spec fn trimmed(s: Seq<char>) -> Seq<char> {
    trim_back(trim_front(s))
}

pub open spec fn lower_char(c: char) -> char {
    if 'A' <= c && c <= 'Z' {
        ((c as u8) + 0x20) as char
    } else {
        c
    }
}

/// `s` with ASCII letters lowered.
pub open spec fn lowered(s: Seq<char>) -> Seq<char> {
    s.map_values(|c: char| lower_char(c))
}

/// Whether `c` is a blank.
pub fn blank(c: char) -> (r: bool)
    ensures
        r == is_blank(c),
{
    c == ' ' || c == '\t' || c == '\n' || c == '\r'
}

/// Lower one ASCII letter.
pub fn lower(c: char) -> (r: char)
    ensures
        r == lower_char(c),
{
    if 'A' <= c && c <= 'Z' {
        ((c as u8) + 0x20) as char
    } else {
        c
    }
}

pub proof fn lemma_trim_front_at(s: Seq<char>, i: int)
    requires
        0 <= i <= s.len(),
        forall|j: int| 0 <= j < i ==> is_blank(s[j]),
        i < s.len() ==> !is_blank(s[i]),
    ensures
        trim_front(s) == s.skip(i),
    decreases i,
{
    if i == 0 {
        assert(s.skip(0) =~= s);
    } else {
        lemma_trim_front_at(s.drop_first(), i - 1);
        assert(s.drop_first().skip(i - 1) =~= s.skip(i));
    }
}

pub proof fn lemma_trim_back_at(s: Seq<char>, i: int)
    requires
        0 <= i <= s.len(),
        forall|j: int| i <= j < s.len() ==> is_blank(s[j]),
        i > 0 ==> !is_blank(s[i - 1]),
    ensures
        trim_back(s) == s.take(i),
    decreases s.len() - i,
{
    if i < s.len() {
        assert(is_blank(s.last()));
        lemma_trim_back_at(s.drop_last(), i);
        assert(s.drop_last().take(i) =~= s.take(i));
    } else {
        assert(s.take(i) =~= s);
    }
}

/// The first index of `s` holding a non-blank, or `s`'s length.
pub fn first_non_blank(s: &str) -> (r: usize)
    ensures
        0 <= r <= s@.len(),
        forall|j: int| 0 <= j < r ==> is_blank(s@[j]),
        r < s@.len() ==> !is_blank(s@[r as int]),
{
    let len = s.unicode_len();
    let mut i: usize = 0;
    while i < len
        invariant
            len == s@.len(),
            0 <= i <= len,
            forall|j: int| 0 <= j < i ==> is_blank(s@[j]),
        decreases len - i,
    {
        if !blank(s.get_char(i)) {
            return i;
        }
        i += 1;
    }
    len
}

/// One past the last index of `s` holding a non-blank, or zero.
pub fn non_blank_end(s: &str) -> (r: usize)
    ensures
        0 <= r <= s@.len(),
        forall|j: int| r <= j < s@.len() ==> is_blank(s@[j]),
        r > 0 ==> !is_blank(s@[r - 1]),
{
    let len = s.unicode_len();
    let mut i: usize = len;
    while i > 0
        invariant
            len == s@.len(),
            0 <= i <= len,
            forall|j: int| i <= j < len ==> is_blank(s@[j]),
        decreases i,
    {
        if !blank(s.get_char(i - 1)) {
            return i;
        }
        i -= 1;
    }
    0
}

/// The maximal runs of non-space characters of `s`, in order.
pub open spec fn space_tokens(s: Seq<char>) -> Seq<Seq<char>>
    decreases s.len(),
{
    if s.len() == 0 {
        Seq::empty()
    } else {
        let rest = space_tokens(s.drop_first());
        if s[0] == ' ' {
            rest
        } else if s.len() > 1 && s[1] != ' ' {
            seq![seq![s[0]] + rest[0]] + rest.drop_first()
        } else {
            seq![seq![s[0]]] + rest
        }
    }
}

pub proof fn lemma_space_tokens_nonempty(s: Seq<char>)
    requires
        s.len() > 0,
        s[0] != ' ',
    ensures
        space_tokens(s).len() > 0,
    decreases s.len(),
{
    if s.len() > 1 && s[1] != ' ' {
        lemma_space_tokens_nonempty(s.drop_first());
    }
}

/// Split `s` on spaces, dropping empty pieces.
pub fn split_spaces(s: &str) -> (r: Vec<String>)
    ensures
        r.deep_view() == space_tokens(s@),
    decreases s@.len(),
{
    let len = s.unicode_len();
    if len == 0 {
        let r: Vec<String> = Vec::new();
        proof {
            assert(r.deep_view() =~= space_tokens(s@));
        }
        return r;
    }
    let c = s.get_char(0);
    let rest_str = s.substring_char(1, len);
    proof {
        assert(rest_str@ =~= s@.drop_first());
    }
    let mut rtoks = split_spaces(rest_str);
    if c == ' ' {
        rtoks
    } else if rest_str.unicode_len() > 0 && rest_str.get_char(0) != ' ' {
        proof {
            lemma_space_tokens_nonempty(s@.drop_first());
        }
        let first = rtoks.remove(0);
        let mut t = String::new();
        push_char(&mut t, c);
        t.append(first.as_str());
        rtoks.insert(0, t);
        proof {
            assert(t@ =~= seq![s@[0]] + space_tokens(s@.drop_first())[0]);
            assert(rtoks.deep_view() =~= space_tokens(s@));
        }
        rtoks
    } else {
        let mut t = String::new();
        push_char(&mut t, c);
        rtoks.insert(0, t);
        proof {
            assert(t@ =~= seq![s@[0]]);
            assert(rtoks.deep_view() =~= space_tokens(s@));
        }
        rtoks
    }
}

/// Whether `c` has the White_Space property (the set `char::is_whitespace`
/// answers for).
pub open spec fn is_white_char(c: char) -> bool {
    ||| c == '\u{0009}'
    ||| c == '\u{000A}'
    ||| c == '\u{000B}'
    ||| c == '\u{000C}'
    ||| c == '\u{000D}'
    ||| c == ' '
    ||| c == '\u{0085}'
    ||| c == '\u{00A0}'
    ||| c == '\u{1680}'
    ||| ('\u{2000}' <= c && c <= '\u{200A}')
    ||| c == '\u{2028}'
    ||| c == '\u{2029}'
    ||| c == '\u{202F}'
    ||| c == '\u{205F}'
    ||| c == '\u{3000}'
}

/// Whether `c` has the White_Space property.
pub fn white_char(c: char) -> (r: bool)
    ensures
        r == is_white_char(c),
{
    c == '\u{0009}' || c == '\u{000A}' || c == '\u{000B}' || c == '\u{000C}' || c
        == '\u{000D}' || c == ' ' || c == '\u{0085}' || c == '\u{00A0}' || c == '\u{1680}' || (
    '\u{2000}' <= c && c <= '\u{200A}') || c == '\u{2028}' || c == '\u{2029}' || c
        == '\u{202F}' || c == '\u{205F}' || c == '\u{3000}'
}

/// `s` with every whitespace character removed.
pub open spec fn without_white(s: Seq<char>) -> Seq<char>
    decreases s.len(),
{
    if s.len() == 0 {
        Seq::empty()
    } else {
        without_white(s.drop_last()) + if is_white_char(s.last()) {
            Seq::<char>::empty()
        } else {
            seq![s.last()]
        }
    }
}

/// Remove every whitespace character from `s`.
pub fn strip_white(s: &str) -> (r: String)
    ensures
        r@ == without_white(s@),
{
    let len = s.unicode_len();
    let mut r = String::new();
    let mut i: usize = 0;
    while i < len
        invariant
            len == s@.len(),
            0 <= i <= len,
            r@ == without_white(s@.take(i as int)),
        decreases len - i,
    {
        let c = s.get_char(i);
        if !white_char(c) {
            push_char(&mut r, c);
        }
        proof {
            assert(s@.take(i + 1).drop_last() =~= s@.take(i as int));
            assert(s@.take(i + 1).last() == s@[i as int]);
        }
        i += 1;
    }
    proof {
        assert(s@.take(len as int) =~= s@);
    }
    r
}

/// Whether the ten characters of `s` starting at `i` are all digits.
pub open spec fn digit_run_at(s: Seq<char>, i: int) -> bool {
    forall|k: int| i <= k < i + 10 ==> is_dec_digit(#[trigger] s[k])
}

/// Whether `s` holds a run of ten or more consecutive digits.
pub open spec fn has_long_digit_run(s: Seq<char>) -> bool {
    exists|i: int| 0 <= i && i + 10 <= s.len() && #[trigger] digit_run_at(s, i)
}

/// Look for a run of ten or more consecutive digits.
pub fn find_long_digit_run(s: &str) -> (r: bool)
    ensures
        r == has_long_digit_run(s@),
{
    let len = s.unicode_len();
    let mut i: usize = 0;
    let mut run: usize = 0;
    while i < len
        invariant
            len == s@.len(),
            0 <= i <= len,
            run <= i,
            run < 10,
            forall|k: int| i - run <= k < i ==> is_dec_digit(#[trigger] s@[k]),
            run == i || !is_dec_digit(s@[i - run - 1]),
            forall|a: int| 0 <= a && a + 10 <= i ==> !(#[trigger] digit_run_at(s@, a)),
        decreases len - i,
    {
        let c = s.get_char(i);
        if '0' <= c && c <= '9' {
            run = run + 1;
            if run == 10 {
                proof {
                    assert(digit_run_at(s@, i - 9));
                    assert(has_long_digit_run(s@));
                }
                return true;
            }
            proof {
                assert forall|a: int| 0 <= a && a + 10 <= i + 1 implies !(#[trigger] digit_run_at(
                    s@,
                    a,
                )) by {
                    if a + 10 == i + 1 {
                        assert(!is_dec_digit(s@[i - run]));
                        assert(i - run >= a);
                    }
                }
            }
        } else {
            run = 0;
            proof {
                assert forall|a: int| 0 <= a && a + 10 <= i + 1 implies !(#[trigger] digit_run_at(
                    s@,
                    a,
                )) by {
                    if a + 10 == i + 1 {
                        assert(!is_dec_digit(s@[i as int]));
                    }
                }
            }
        }
        i += 1;
    }
    proof {
        assert(!has_long_digit_run(s@)) by {
            if has_long_digit_run(s@) {
                let a = choose|a: int|
                    0 <= a && a + 10 <= s@.len() && #[trigger] digit_run_at(s@, a);
                assert(!digit_run_at(s@, a));
            }
        }
    }
    false
}

/// The position of the first `c` in `t`, or `t.len()` when there is none.
pub open spec fn first_pos(t: Seq<char>, c: char) -> int
    decreases t.len(),
{
    if t.len() == 0 {
        0
    } else if t[0] == c {
        0
    } else {
        1 + first_pos(t.drop_first(), c)
    }
}

pub proof fn lemma_first_pos_at(t: Seq<char>, c: char, i: int)
    requires
        0 <= i <= t.len(),
        forall|j: int| 0 <= j < i ==> t[j] != c,
        i < t.len() ==> t[i] == c,
    ensures
        first_pos(t, c) == i,
    decreases t.len(),
{
    if t.len() > 0 && t[0] != c {
        lemma_first_pos_at(t.drop_first(), c, i - 1);
    }
}

/// Find the first `c` in `t`, or `t`'s length when there is none.
pub fn find_char(t: &str, c: char) -> (r: usize)
    ensures
        r == first_pos(t@, c),
        r <= t@.len(),
{
    let len = t.unicode_len();
    let mut i: usize = 0;
    while i < len
        invariant
            len == t@.len(),
            0 <= i <= len,
            forall|j: int| 0 <= j < i ==> t@[j] != c,
        decreases len - i,
    {
        if t.get_char(i) == c {
            proof {
                lemma_first_pos_at(t@, c, i as int);
            }
            return i;
        }
        i += 1;
    }
    proof {
        lemma_first_pos_at(t@, c, len as int);
    }
    len
}

/// The digits of an unsigned decimal literal: an optional leading `+` is
/// dropped.
pub open spec fn u32_digits_of(s: Seq<char>) -> Seq<char> {
    if s.len() > 0 && s[0] == '+' {
        s.drop_first()
    } else {
        s
    }
}

/// Whether `s` is an unsigned 32-bit decimal literal: an optional `+`,
/// then digits, with a value that fits.
pub open spec fn is_u32_literal(s: Seq<char>) -> bool {
    let b = u32_digits_of(s);
    b.len() > 0 && all_dec_digits(b) && dec_val(b) <= u32::MAX
}

/// Parse an unsigned 32-bit decimal literal, allowing a leading `+`.
pub fn parse_u32_literal(s: &str) -> (r: Option<u32>)
    ensures
        r is Some <==> is_u32_literal(s@),
        r matches Some(v) ==> v == dec_val(u32_digits_of(s@)),
{
    let len = s.unicode_len();
    if len > 0 && s.get_char(0) == '+' {
        let digits = s.substring_char(1, len);
        proof {
            assert(digits@ =~= u32_digits_of(s@));
        }
        parse_u32_digits(digits)
    } else {
        proof {
            assert(s@ == u32_digits_of(s@));
        }
        parse_u32_digits(s)
    }
}

/// The character for one decimal digit.
pub fn digit_of(d: u64) -> (c: char)
    requires
        d < 10,
    ensures
        c == digit_char(d as nat),
{
    if d == 0 {
        '0'
    } else if d == 1 {
        '1'
    } else if d == 2 {
        '2'
    } else if d == 3 {
        '3'
    } else if d == 4 {
        '4'
    } else if d == 5 {
        '5'
    } else if d == 6 {
        '6'
    } else if d == 7 {
        '7'
    } else if d == 8 {
        '8'
    } else {
        '9'
    }
}

} // verus!
