//! Small verified text helpers shared by the rest of the crate.
use vstd::prelude::*;
use vstd::string::StrSliceExecFns;
use vstd::string::StringExecFns;

verus! {

/// The decimal digit character for `d < 10`.
pub open spec fn digit_char(d: nat) -> char {
    if d == 0 { '0' }
    else if d == 1 { '1' }
    else if d == 2 { '2' }
    else if d == 3 { '3' }
    else if d == 4 { '4' }
    else if d == 5 { '5' }
    else if d == 6 { '6' }
    else if d == 7 { '7' }
    else if d == 8 { '8' }
    else { '9' }
}

/// The decimal rendering of a natural number, most significant digit first.
pub open spec fn decimal(n: nat) -> Seq<char>
    decreases n,
{
    if n < 10 {
        seq![digit_char(n)]
    } else {
        decimal(n / 10).push(digit_char(n % 10))
    }
}

/// The decimal rendering of an integer, with a leading `-` when it is negative.
pub open spec fn signed_decimal(i: int) -> Seq<char> {
    if i < 0 {
        seq!['-'] + decimal((-i) as nat)
    } else {
        decimal(i as nat)
    }
}

/// Appends one character to a string (`String::push`).
#[verifier::external_body]
pub(crate) fn push_char(s: &mut String, c: char)
    ensures
        final(s)@ == old(s)@.push(c),
{
    s.push(c);
}

/// A string holding the given text.
pub fn owned(s: &str) -> (res: String)
    ensures
        res@ == s@,
{
    String::from_str(s)
}

/// Whether two pieces of text are equal.
pub fn text_eq(a: &str, b: &str) -> (res: bool)
    ensures
        res == (a@ == b@),
{
    let x = String::from_str(a);
    let y = String::from_str(b);
    x == y
}

fn digit_text(d: u64) -> (res: char)
    requires
        d < 10,
    ensures
        res == digit_char(d as nat),
{
    if d == 0 { '0' }
    else if d == 1 { '1' }
    else if d == 2 { '2' }
    else if d == 3 { '3' }
    else if d == 4 { '4' }
    else if d == 5 { '5' }
    else if d == 6 { '6' }
    else if d == 7 { '7' }
    else if d == 8 { '8' }
    else { '9' }
}

/// Appends the decimal rendering of `n` to `out`.
pub fn push_decimal(out: &mut String, n: u64)
    ensures
        final(out)@ == old(out)@ + decimal(n as nat),
    decreases n,
{
    if n < 10 {
        push_char(out, digit_text(n));
    } else {
        push_decimal(out, n / 10);
        push_char(out, digit_text(n % 10));
        proof {
            assert(decimal(n as nat) == decimal((n / 10) as nat).push(digit_char((n % 10) as nat)));
        }
    }
}

/// The decimal rendering of an unsigned number (`to_string` on an integer).
pub fn u64_to_text(n: u64) -> (res: String)
    ensures
        res@ == decimal(n as nat),
{
    let mut s = String::new();
    push_decimal(&mut s, n);
    assert(s@ == Seq::<char>::empty() + decimal(n as nat));
    s
}

/// The decimal rendering of a signed number (`to_string` on an integer).
pub fn i64_to_text(i: i64) -> (res: String)
    ensures
        res@ == signed_decimal(i as int),
{
    let mut s = String::new();
    if i < 0 {
        push_char(&mut s, '-');
        let m: u64 = if i == i64::MIN { 9223372036854775808u64 } else { (-i) as u64 };
        push_decimal(&mut s, m);
    } else {
        push_decimal(&mut s, i as u64);
        assert(s@ == Seq::<char>::empty() + decimal(i as nat));
    }
    s
}

/// Concatenation of two pieces of text.
pub fn join2(a: &str, b: &str) -> (res: String)
    ensures
        res@ == a@ + b@,
{
    let s = String::from_str(a);
    s.concat(b)
}

/// Concatenation of three pieces of text.
pub fn join3(a: &str, b: &str, c: &str) -> (res: String)
    ensures
        res@ == a@ + b@ + c@,
{
    let s = String::from_str(a);
    let s = s.concat(b);
    s.concat(c)
}

/// The lower-case form of an ASCII letter; other characters are unchanged.
pub open spec fn ascii_lower(c: char) -> char {
    if 'A' <= c && c <= 'Z' {
        ((c as u32) + 32) as char
    } else {
        c
    }
}

/// Whether two texts are equal once ASCII letters are folded to lower case.
pub open spec fn eq_ignore_ascii_case(a: Seq<char>, b: Seq<char>) -> bool {
    &&& a.len() == b.len()
    &&& forall|i: int| 0 <= i < a.len() ==> #[trigger] ascii_lower(a[i]) == ascii_lower(b[i])
}

fn lower_char(c: char) -> (res: char)
    ensures
        res == ascii_lower(c),
{
    if 'A' <= c && c <= 'Z' {
        let u: u32 = (c as u32) + 32;
        assert(u <= 0x7a);
        if u == 97 { 'a' } else if u == 98 { 'b' } else if u == 99 { 'c' } else if u == 100 { 'd' }
        else if u == 101 { 'e' } else if u == 102 { 'f' } else if u == 103 { 'g' } else if u == 104 { 'h' }
        else if u == 105 { 'i' } else if u == 106 { 'j' } else if u == 107 { 'k' } else if u == 108 { 'l' }
        else if u == 109 { 'm' } else if u == 110 { 'n' } else if u == 111 { 'o' } else if u == 112 { 'p' }
        else if u == 113 { 'q' } else if u == 114 { 'r' } else if u == 115 { 's' } else if u == 116 { 't' }
        else if u == 117 { 'u' } else if u == 118 { 'v' } else if u == 119 { 'w' } else if u == 120 { 'x' }
        else if u == 121 { 'y' } else { 'z' }
    } else {
        c
    }
}

/// Case-insensitive (ASCII) comparison of two texts.
pub fn text_eq_ignore_ascii_case(a: &str, b: &str) -> (res: bool)
    ensures
        res == eq_ignore_ascii_case(a@, b@),
{
    let n = a.unicode_len();
    if n != b.unicode_len() {
        return false;
    }
    let mut i: usize = 0;
    while i < n
        invariant
            n == a@.len(),
            n == b@.len(),
            i <= n,
            forall|j: int| 0 <= j < i ==> #[trigger] ascii_lower(a@[j]) == ascii_lower(b@[j]),
        decreases n - i,
    {
        if lower_char(a.get_char(i)) != lower_char(b.get_char(i)) {
            return false;
        }
        i = i + 1;
    }
    true
}

/// The position of the first occurrence of `c` in `s`, if any.
pub open spec fn first_index_of(s: Seq<char>, c: char) -> Option<int> {
    if exists|i: int| 0 <= i < s.len() && s[i] == c {
        Some(choose|i: int| 0 <= i < s.len() && s[i] == c && forall|j: int| 0 <= j < i ==> s[j] != c)
    } else {
        None
    }
}

pub proof fn lemma_first_index_of(s: Seq<char>, c: char, k: int)
    requires
        0 <= k < s.len(),
        s[k] == c,
        forall|j: int| 0 <= j < k ==> s[j] != c,
    ensures
        first_index_of(s, c) == Some(k),
{
    let w = choose|i: int| 0 <= i < s.len() && s[i] == c && forall|j: int| 0 <= j < i ==> s[j] != c;
    assert(0 <= w < s.len() && s[w] == c && forall|j: int| 0 <= j < w ==> s[j] != c);
    if w < k {
        assert(s[w] != c);
    }
    if k < w {
        assert(s[k] != c);
    }
}

/// The text split around the first occurrence of `c` (`str::split_once` with a one-character
/// pattern).
pub open spec fn split_once_spec(s: Seq<char>, c: char) -> Option<(Seq<char>, Seq<char>)> {
    match first_index_of(s, c) {
        Some(i) => Some((s.take(i), s.skip(i + 1))),
        None => None,
    }
}

/// The position of the first `c` in `s`.
pub fn find_char(s: &str, c: char) -> (res: Option<usize>)
    ensures
        match res {
            Some(i) => first_index_of(s@, c) == Some(i as int) && i < s@.len(),
            None => first_index_of(s@, c) is None,
        },
{
    let n = s.unicode_len();
    let mut i: usize = 0;
    while i < n
        invariant
            n == s@.len(),
            i <= n,
            forall|j: int| 0 <= j < i ==> s@[j] != c,
        decreases n - i,
    {
        if s.get_char(i) == c {
            proof {
                lemma_first_index_of(s@, c, i as int);
            }
            return Some(i);
        }
        i = i + 1;
    }
    None
}

/// Splits `s` around the first occurrence of `c`.
pub fn split_once_char(s: &str, c: char) -> (res: Option<(String, String)>)
    ensures
        match res {
            Some((a, b)) => split_once_spec(s@, c) == Some((a@, b@)),
            None => split_once_spec(s@, c) is None,
        },
{
    match find_char(s, c) {
        Some(i) => {
            let n = s.unicode_len();
            let a = owned(s.substring_char(0, i));
            let b = owned(s.substring_char(i + 1, n));
            assert(a@ =~= s@.take(i as int));
            assert(b@ =~= s@.skip(i + 1));
            Some((a, b))
        },
        None => None,
    }
}

/// Pieces of text joined with a separator between each two.
pub open spec fn joined(parts: Seq<Seq<char>>, sep: Seq<char>) -> Seq<char>
    decreases parts.len(),
{
    if parts.len() == 0 {
        Seq::empty()
    } else if parts.len() == 1 {
        parts[0]
    } else {
        joined(parts.drop_last(), sep) + sep + parts.last()
    }
}

/// The views of a list of strings.
pub open spec fn views(v: Seq<String>) -> Seq<Seq<char>> {
    v.map_values(|s: String| s@)
}

/// Joins a list of strings with a separator (`slice::join`).
pub fn join_with(parts: &Vec<String>, sep: &str) -> (res: String)
    ensures
        res@ == joined(views(parts@), sep@),
{
    let mut out = String::new();
    let mut i: usize = 0;
    while i < parts.len()
        invariant
            i <= parts@.len(),
            out@ == joined(views(parts@).take(i as int), sep@),
        decreases parts.len() - i,
    {
        proof {
            assert(views(parts@).take(i + 1).drop_last() =~= views(parts@).take(i as int));
            assert(views(parts@).take(i + 1).last() == parts@[i as int]@);
        }
        if i > 0 {
            out.append(sep);
        } else {
            assert(views(parts@).take(1) =~= seq![parts@[0]@]);
        }
        out.append(parts[i].as_str());
        i = i + 1;
    }
    assert(views(parts@).take(parts@.len() as int) =~= views(parts@));
    out
}

/// Whether a character is an ASCII digit.
pub open spec fn is_digit(c: char) -> bool {
    '0' <= c && c <= '9'
}

/// The value of a text of ASCII digits, most significant first.
pub open spec fn digits_value(s: Seq<char>) -> nat
    decreases s.len(),
{
    if s.len() == 0 {
        0
    } else {
        digits_value(s.drop_last()) * 10 + ((s.last() as u32) - 48) as nat
    }
}

/// What `str::parse::<u32>` gives: an optional `+`, then one or more ASCII digits whose value
/// fits; anything else is refused.
pub open spec fn parse_u32_spec(s: Seq<char>) -> Option<u32> {
    let digits = unsigned_digits(s);
    if digits.len() > 0 && all_digits(digits) && digits_value(digits) <= u32::MAX {
        Some(digits_value(digits) as u32)
    } else {
        None
    }
}

/// The text after an optional leading `+`.
pub open spec fn unsigned_digits(s: Seq<char>) -> Seq<char> {
    if s.len() > 0 && s[0] == '+' { s.drop_first() } else { s }
}

/// Whether every character of a text is an ASCII digit.
pub open spec fn all_digits(s: Seq<char>) -> bool {
    forall|i: int| 0 <= i < s.len() ==> is_digit(#[trigger] s[i])
}

proof fn lemma_digits_value_mono(s: Seq<char>, n: int)
    requires
        0 <= n <= s.len(),
        forall|i: int| 0 <= i < s.len() ==> is_digit(#[trigger] s[i]),
    ensures
        digits_value(s.take(n)) <= digits_value(s),
    decreases s.len() - n,
{
    if n < s.len() {
        lemma_digits_value_mono(s, n + 1);
        assert(s.take(n + 1).drop_last() =~= s.take(n));
        assert(s.take(n + 1).last() == s[n]);
        assert(is_digit(s[n]));
        assert(digits_value(s.take(n + 1)) == digits_value(s.take(n)) * 10 + ((s[n] as u32) - 48) as nat);
    } else {
        assert(s.take(n) =~= s);
    }
}

/// Parses an unsigned 32-bit number (`str::parse::<u32>`).
pub fn parse_u32(s: &str) -> (res: Option<u32>)
    ensures
        res == parse_u32_spec(s@),
{
    let n = s.unicode_len();
    let start: usize = if n > 0 && s.get_char(0) == '+' { 1 } else { 0 };
    let ghost digits = unsigned_digits(s@);
    assert(digits =~= s@.skip(start as int));
    if start >= n {
        return None;
    }
    let mut i: usize = start;
    let mut acc: u64 = 0;
    while i < n
        invariant
            n == s@.len(),
            start <= i <= n,
            digits =~= s@.skip(start as int),
            digits == unsigned_digits(s@),
            forall|j: int| start <= j < i ==> is_digit(#[trigger] s@[j]),
            acc == digits_value(s@.subrange(start as int, i as int)),
            acc <= u32::MAX,
        decreases n - i,
    {
        let c = s.get_char(i);
        if !('0' <= c && c <= '9') {
            assert(digits[i - start] == s@[i as int]);
            assert(!is_digit(digits[i - start]));
            assert(!all_digits(digits));
            return None;
        }
        let d: u64 = (c as u32 - 48) as u64;
        assert(s@.subrange(start as int, i + 1).drop_last() =~= s@.subrange(start as int, i as int));
        if acc * 10 + d > 4294967295u64 {
            proof {
                if all_digits(digits) {
                    assert(digits.take(i + 1 - start) =~= s@.subrange(start as int, i + 1));
                    lemma_digits_value_mono(digits, i + 1 - start);
                }
            }
            return None;
        }
        acc = acc * 10 + d;
        i = i + 1;
    }
    assert(s@.subrange(start as int, n as int) =~= digits);
    Some(acc as u32)
}

/// The pieces of a text between occurrences of a separator character, in order
/// (`str::split` with a character): one more piece than there are separators.
pub open spec fn split_pieces(s: Seq<char>, c: char) -> Seq<Seq<char>>
    decreases s.len(),
{
    if s.len() == 0 {
        seq![Seq::empty()]
    } else {
        let rest = split_pieces(s.drop_last(), c);
        if s.last() == c {
            rest.push(Seq::empty())
        } else {
            rest.update(rest.len() - 1, rest.last().push(s.last()))
        }
    }
}

pub proof fn lemma_split_pieces_nonempty(s: Seq<char>, c: char)
    ensures
        split_pieces(s, c).len() >= 1,
    decreases s.len(),
{
    if s.len() > 0 {
        lemma_split_pieces_nonempty(s.drop_last(), c);
    }
}

/// Splits a text at every occurrence of a character (`str::split`).
pub fn split_text(s: &str, c: char) -> (res: Vec<String>)
    ensures
        views(res@) == split_pieces(s@, c),
{
    let n = s.unicode_len();
    let mut done: Vec<String> = Vec::new();
    let mut cur = String::new();
    let mut i: usize = 0;
    while i < n
        invariant
            n == s@.len(),
            i <= n,
            views(done@).push(cur@) == split_pieces(s@.take(i as int), c),
        decreases n - i,
    {
        let ch = s.get_char(i);
        proof {
            lemma_split_pieces_nonempty(s@.take(i as int), c);
            assert(s@.take(i + 1).drop_last() =~= s@.take(i as int));
            assert(s@.take(i + 1).last() == ch);
        }
        if ch == c {
            let ghost before = views(done@);
            done.push(cur);
            cur = String::new();
            proof {
                assert(views(done@) =~= before.push(views(done@).last()));
                assert(views(done@).push(cur@) =~= split_pieces(s@.take(i as int), c).push(Seq::empty()));
            }
        } else {
            let ghost prev = cur@;
            push_char(&mut cur, ch);
            proof {
                let r = split_pieces(s@.take(i as int), c);
                assert(views(done@).push(cur@) =~= r.update(r.len() - 1, r.last().push(ch)));
            }
        }
        i = i + 1;
    }
    let ghost before = views(done@);
    done.push(cur);
    proof {
        assert(s@.take(n as int) =~= s@);
        assert(views(done@) =~= before.push(cur@));
    }
    done
}

/// A text with every non-overlapping occurrence of a non-empty pattern, found from the left,
/// replaced by another text (`str::replace`).
pub open spec fn replaced(s: Seq<char>, p: Seq<char>, r: Seq<char>) -> Seq<char>
    decreases s.len(),
{
    if p.len() == 0 || s.len() < p.len() {
        s
    } else if s.take(p.len() as int) == p {
        r + replaced(s.skip(p.len() as int), p, r)
    } else {
        seq![s[0]] + replaced(s.skip(1), p, r)
    }
}

proof fn lemma_replaced_short(s: Seq<char>, p: Seq<char>, r: Seq<char>)
    requires
        p.len() > 0,
        s.len() < p.len(),
    ensures
        replaced(s, p, r) == s,
{
}

/// Replaces every occurrence of a non-empty pattern (`str::replace`).
pub fn replace_all(s: &str, p: &str, r: &str) -> (res: String)
    requires
        p@.len() > 0,
    ensures
        res@ == replaced(s@, p@, r@),
{
    let n = s.unicode_len();
    let m = p.unicode_len();
    let mut out = String::new();
    let mut i: usize = 0;
    proof {
        assert(s@.skip(0) =~= s@);
        assert(out@ + replaced(s@, p@, r@) =~= replaced(s@, p@, r@));
    }
    while i < n
        invariant
            n == s@.len(),
            m == p@.len(),
            m > 0,
            i <= n,
            out@ + replaced(s@.skip(i as int), p@, r@) == replaced(s@, p@, r@),
        decreases n - i,
    {
        let ghost t = s@.skip(i as int);
        if m <= n - i && text_eq(s.substring_char(i, i + m), p) {
            proof {
                assert(t.take(m as int) =~= s@.subrange(i as int, i + m));
                assert(t.skip(m as int) =~= s@.skip(i + m));
                assert(out@ + r@ + replaced(s@.skip(i + m), p@, r@) =~= out@ + (r@ + replaced(t.skip(m as int), p@, r@)));
            }
            out.append(r);
            i = i + m;
        } else {
            let ch = s.get_char(i);
            proof {
                assert(t[0] == ch);
                assert(t.skip(1) =~= s@.skip(i + 1));
                if m <= n - i {
                    assert(t.take(m as int) =~= s@.subrange(i as int, i + m));
                    assert(replaced(t, p@, r@) == seq![ch] + replaced(t.skip(1), p@, r@));
                } else {
                    lemma_replaced_short(t, p@, r@);
                    lemma_replaced_short(t.skip(1), p@, r@);
                    assert(t =~= seq![ch] + t.skip(1));
                }
                assert(out@.push(ch) + replaced(s@.skip(i + 1), p@, r@) =~= out@ + (seq![ch] + replaced(t.skip(1), p@, r@)));
            }
            push_char(&mut out, ch);
            i = i + 1;
        }
    }
    proof {
        assert(s@.skip(n as int) =~= Seq::<char>::empty());
        assert(out@ + Seq::<char>::empty() =~= out@);
    }
    out
}

/// Whether a character is ASCII whitespace (`char::is_ascii_whitespace`).
pub open spec fn ascii_ws(c: char) -> bool {
    c == ' ' || c == '\t' || c == '\n' || c == '\u{c}' || c == '\r'
}

/// The whitespace predicate: ASCII whitespace, or Unicode whitespace (`char::is_whitespace`).
pub open spec fn ws_pred(ascii: bool) -> spec_fn(char) -> bool {
    if ascii {
        |c: char| ascii_ws(c)
    } else {
        |c: char| crate::cron::is_whitespace(c)
    }
}

/// The maximal runs of characters that are not whitespace, in order.
pub open spec fn words_by(s: Seq<char>, ws: spec_fn(char) -> bool) -> Seq<Seq<char>>
    decreases s.len(),
{
    if s.len() == 0 {
        Seq::empty()
    } else {
        let rest = words_by(s.drop_last(), ws);
        let c = s.last();
        if ws(c) {
            rest
        } else if s.len() >= 2 && !ws(s[s.len() - 2]) {
            rest.update(rest.len() - 1, rest.last().push(c))
        } else {
            rest.push(seq![c])
        }
    }
}

/// The words of a text separated by ASCII whitespace (`str::split_ascii_whitespace`).
pub open spec fn ascii_words(s: Seq<char>) -> Seq<Seq<char>> {
    words_by(s, ws_pred(true))
}

/// The words of a text separated by Unicode whitespace (`str::split_whitespace`).
pub open spec fn unicode_words(s: Seq<char>) -> Seq<Seq<char>> {
    words_by(s, ws_pred(false))
}

fn ascii_whitespace(c: char) -> (res: bool)
    ensures
        res == ascii_ws(c),
{
    c == ' ' || c == '\t' || c == '\n' || c == '\u{c}' || c == '\r'
}

/// Splits a text into its words, separated by ASCII whitespace (`ascii`) or by Unicode
/// whitespace.
pub fn split_words(s: &str, ascii: bool) -> (res: Vec<String>)
    ensures
        views(res@) == words_by(s@, ws_pred(ascii)),
{
    let ghost p = ws_pred(ascii);
    let n = s.unicode_len();
    let mut done: Vec<String> = Vec::new();
    let mut cur = String::new();
    let mut in_word = false;
    let mut i: usize = 0;
    while i < n
        invariant
            n == s@.len(),
            i <= n,
            p == ws_pred(ascii),
            (if in_word { views(done@).push(cur@) } else { views(done@) }) == words_by(s@.take(i as int), p),
            in_word == (i > 0 && !p(s@[i - 1])),
            !in_word ==> cur@ == Seq::<char>::empty(),
        decreases n - i,
    {
        let c = s.get_char(i);
        let w = if ascii { ascii_whitespace(c) } else { crate::cron::whitespace(c) };
        proof {
            assert(w == p(c));
            assert(s@.take(i + 1).drop_last() =~= s@.take(i as int));
            assert(s@.take(i + 1).last() == c);
            if i > 0 {
                assert(s@.take(i + 1)[i - 1] == s@[i - 1]);
            }
        }
        if w {
            if in_word {
                let ghost before = views(done@);
                done.push(cur);
                cur = String::new();
                proof {
                    assert(views(done@) =~= before.push(views(done@).last()));
                }
                in_word = false;
            }
        } else {
            let ghost before = views(done@);
            let ghost prev = cur@;
            push_char(&mut cur, c);
            proof {
                if in_word {
                    let r = before.push(prev);
                    assert(before.push(cur@) =~= r.update(r.len() - 1, r.last().push(c)));
                } else {
                    assert(cur@ =~= seq![c]);
                }
            }
            in_word = true;
        }
        i = i + 1;
    }
    assert(s@.take(n as int) =~= s@);
    if in_word {
        let ghost before = views(done@);
        done.push(cur);
        assert(views(done@) =~= before.push(views(done@).last()));
    }
    done
}

/// A number written in decimal reads back as that number: its text is all digits, one at
/// least, and their value is the number; so `str::parse::<u32>` gives it back where it fits.
pub proof fn lemma_decimal_reads_back(n: nat)
    ensures
        all_digits(decimal(n)),
        digits_value(decimal(n)) == n,
        decimal(n).len() >= 1,
        decimal(n)[0] != '+',
        n <= u32::MAX ==> parse_u32_spec(decimal(n)) == Some(n as u32),
    decreases n,
{
    if n < 10 {
        assert(decimal(n) == seq![digit_char(n)]);
        assert(decimal(n).drop_last() =~= Seq::<char>::empty());
        assert(digits_value(Seq::<char>::empty()) == 0);
    } else {
        let q = n / 10;
        let r = n % 10;
        lemma_decimal_reads_back(q);
        let d = decimal(q);
        assert(decimal(n) == d.push(digit_char(r)));
        assert(decimal(n).drop_last() =~= d);
        assert(n == q * 10 + r);
        assert(decimal(n)[0] == d[0]);
    }
}

} // verus!
