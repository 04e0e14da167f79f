//! Character-level helpers: white space, ASCII case folding and trimming,
//! stated over `Seq<char>` and implemented over `Vec<char>`.

use vstd::prelude::*;

verus! {

/// The code points that carry the Unicode `White_Space` property.
pub open spec fn is_white_space(c: char) -> bool {
    let n = c as u32;
    ||| 0x09 <= n <= 0x0D
    ||| n == 0x20
    ||| n == 0x85
    ||| n == 0xA0
    ||| n == 0x1680
    ||| 0x2000 <= n <= 0x200A
    ||| n == 0x2028
    ||| n == 0x2029
    ||| n == 0x202F
    ||| n == 0x205F
    ||| n == 0x3000
}

/// `c` with an ASCII lower-case letter replaced by its upper-case form.
pub open spec fn upper_char(c: char) -> char {
    if 0x61 <= c as u32 <= 0x7A {
        ((c as u32 - 0x20) as u32) as char
    } else {
        c
    }
}

/// `s` with every ASCII lower-case letter replaced by its upper-case form.
pub open spec fn upper(s: Seq<char>) -> Seq<char> {
    Seq::new(s.len(), |i: int| upper_char(s[i]))
}

/// `s` without its leading white space.
pub open spec fn trim_start(s: Seq<char>) -> Seq<char>
    decreases s.len(),
{
    if s.len() > 0 && is_white_space(s[0]) {
        trim_start(s.drop_first())
    } else {
        s
    }
}

/// `s` without its trailing white space.
pub open spec fn trim_end(s: Seq<char>) -> Seq<char>
    decreases s.len(),
{
    if s.len() > 0 && is_white_space(s.last()) {
        trim_end(s.drop_last())
    } else {
        s
    }
}

/// `s` without leading and trailing white space.
pub open spec fn trimmed(s: Seq<char>) -> Seq<char> {
    trim_end(trim_start(s))
}

/// Whether `c` carries the Unicode `White_Space` property.
pub fn is_whitespace(c: char) -> (b: bool)
    ensures
        b == is_white_space(c),
{
    let n: u32 = c as u32;
    (0x09 <= n && n <= 0x0D) || n == 0x20 || n == 0x85 || n == 0xA0 || n == 0x1680 || (0x2000 <= n
        && n <= 0x200A) || n == 0x2028 || n == 0x2029 || n == 0x202F || n == 0x205F || n == 0x3000
}

/// Whether `c`, folded to upper case, is `expected`.
pub fn upper_is(c: char, expected: char) -> (b: bool)
    ensures
        b == (upper_char(c) == expected),
{
    let n: u32 = c as u32;
    let e: u32 = expected as u32;
    if 0x61 <= n && n <= 0x7A {
        n - 0x20 == e
    } else {
        n == e
    }
}

/// The characters of `s`, in order.
pub fn to_chars(s: &str) -> (v: Vec<char>)
    ensures
        v@ == s@,
{
    let mut v: Vec<char> = Vec::new();
    for c in it: s.chars()
        invariant
            it.seq() == s@,
            v@ == it.seq().take(it.index()),
    {
        v.push(c);
    }
    v
}

/// The texts of `items`, in order.
pub open spec fn texts(items: Seq<String>) -> Seq<Seq<char>> {
    Seq::new(items.len(), |i: int| items[i]@)
}

/// The texts of `parts` one after the other, with nothing between them.
pub open spec fn joined(parts: Seq<Seq<char>>) -> Seq<char>
    decreases parts.len(),
{
    if parts.len() == 0 {
        Seq::empty()
    } else {
        joined(parts.drop_last()) + parts.last()
    }
}

/// Concatenates `parts` in order.
pub fn join_all(parts: &Vec<String>) -> (out: String)
    ensures
        out@ == joined(texts(parts@)),
{
    let mut out = String::new();
    let mut i: usize = 0;
    while i < parts.len()
        invariant
            i <= parts.len(),
            out@ == joined(texts(parts@.take(i as int))),
        decreases parts.len() - i,
    {
        proof {
            let next = texts(parts@.take(i + 1));
            assert(next.drop_last() =~= texts(parts@.take(i as int)));
            assert(next.last() == parts@[i as int]@);
        }
        out.append(parts[i].as_str());
        i += 1;
    }
    assert(parts@.take(parts.len() as int) =~= parts@);
    out
}

/// Whether every character of `s` is white space.
pub open spec fn all_white(s: Seq<char>) -> bool {
    forall|i: int| 0 <= i < s.len() ==> is_white_space(#[trigger] s[i])
}

/// Whether `s[a..b]` is `s` without its white margins: all before `a` and
/// all from `b` on is white space, and the kept part neither starts nor ends
/// with white space. For an all-white `s` both bounds are its length.
pub open spec fn trims_to(s: Seq<char>, a: int, b: int) -> bool {
    &&& 0 <= a <= b <= s.len()
    &&& forall|i: int| 0 <= i < a ==> is_white_space(#[trigger] s[i])
    &&& forall|i: int| b <= i < s.len() ==> is_white_space(#[trigger] s[i])
    &&& (a == s.len() || !is_white_space(s[a]))
    &&& (b == a || !is_white_space(s[b - 1]))
}

proof fn lemma_trim_start_at(s: Seq<char>, k: int)
    requires
        0 <= k <= s.len(),
        forall|i: int| 0 <= i < k ==> is_white_space(#[trigger] s[i]),
        k == s.len() || !is_white_space(s[k]),
    ensures
        trim_start(s) == s.subrange(k, s.len() as int),
    decreases k,
{
    if k == 0 {
        assert(s.subrange(0, s.len() as int) =~= s);
    } else {
        let rest = s.drop_first();
        assert forall|i: int| 0 <= i < k - 1 implies is_white_space(#[trigger] rest[i]) by {
            assert(rest[i] == s[i + 1]);
        }
        lemma_trim_start_at(rest, k - 1);
        assert(rest.subrange(k - 1, rest.len() as int) =~= s.subrange(k, s.len() as int));
    }
}

proof fn lemma_trim_end_at(s: Seq<char>, k: int)
    requires
        0 <= k <= s.len(),
        forall|i: int| k <= i < s.len() ==> is_white_space(#[trigger] s[i]),
        k == 0 || !is_white_space(s[k - 1]),
    ensures
        trim_end(s) == s.subrange(0, k),
    decreases s.len() - k,
{
    if k == s.len() {
        assert(s.subrange(0, k) =~= s);
    } else {
        let rest = s.drop_last();
        assert forall|i: int| k <= i < rest.len() implies is_white_space(#[trigger] rest[i]) by {
            assert(rest[i] == s[i]);
        }
        lemma_trim_end_at(rest, k);
        assert(rest.subrange(0, k) =~= s.subrange(0, k));
    }
}

/// Trimming keeps exactly the part between the white margins.
pub proof fn lemma_trimmed_at(s: Seq<char>, a: int, b: int)
    requires
        trims_to(s, a, b),
    ensures
        trimmed(s) == s.subrange(a, b),
{
    lemma_trim_start_at(s, a);
    let tail = s.subrange(a, s.len() as int);
    assert forall|i: int| b - a <= i < tail.len() implies is_white_space(#[trigger] tail[i]) by {
        assert(tail[i] == s[a + i]);
    }
    lemma_trim_end_at(tail, b - a);
    assert(tail.subrange(0, b - a) =~= s.subrange(a, b));
}

proof fn lemma_leading_white(s: Seq<char>) -> (k: int)
    ensures
        0 <= k <= s.len(),
        forall|i: int| 0 <= i < k ==> is_white_space(#[trigger] s[i]),
        k == s.len() || !is_white_space(s[k]),
    decreases s.len(),
{
    if s.len() == 0 || !is_white_space(s[0]) {
        0
    } else {
        let rest = s.drop_first();
        let k = lemma_leading_white(rest);
        assert forall|i: int| 0 <= i < k + 1 implies is_white_space(#[trigger] s[i]) by {
            if i > 0 {
                assert(s[i] == rest[i - 1]);
            }
        }
        if k < rest.len() {
            assert(rest[k] == s[k + 1]);
        }
        k + 1
    }
}

proof fn lemma_trailing_white(s: Seq<char>, a: int) -> (b: int)
    requires
        0 <= a <= s.len(),
    ensures
        a <= b <= s.len(),
        forall|i: int| b <= i < s.len() ==> is_white_space(#[trigger] s[i]),
        b == a || !is_white_space(s[b - 1]),
    decreases s.len() - a,
{
    if s.len() == a || !is_white_space(s.last()) {
        s.len() as int
    } else {
        let rest = s.drop_last();
        let b = lemma_trailing_white(rest, a);
        assert forall|i: int| b <= i < s.len() implies is_white_space(#[trigger] s[i]) by {
            if i < rest.len() {
                assert(s[i] == rest[i]);
            }
        }
        if b > a {
            assert(rest[b - 1] == s[b - 1]);
        }
        b
    }
}

/// Every text has white margins: bounds that `trims_to` accepts.
pub proof fn lemma_trim_bounds(s: Seq<char>) -> (r: (int, int))
    ensures
        trims_to(s, r.0, r.1),
        trimmed(s) == s.subrange(r.0, r.1),
{
    let a = lemma_leading_white(s);
    let b = lemma_trailing_white(s, a);
    lemma_trimmed_at(s, a, b);
    (a, b)
}

/// Trimming and folding to upper case commute.
pub proof fn lemma_trimmed_upper(s: Seq<char>)
    ensures
        trimmed(upper(s)) == upper(trimmed(s)),
{
    let (a, b) = lemma_trim_bounds(s);
    let u = upper(s);
    assert(trims_to(u, a, b));
    lemma_trimmed_at(u, a, b);
    assert(u.subrange(a, b) =~= upper(s.subrange(a, b)));
}

/// White space around a text does not change what trimming keeps.
pub proof fn lemma_trimmed_padding(pre: Seq<char>, s: Seq<char>, post: Seq<char>)
    requires
        all_white(pre),
        all_white(post),
    ensures
        trimmed(pre + s + post) == trimmed(s),
{
    let (a, b) = lemma_trim_bounds(s);
    let x = pre + s + post;
    let p = pre.len() as int;
    if a == s.len() {
        assert(trims_to(x, x.len() as int, x.len() as int)) by {
            assert forall|i: int| 0 <= i < x.len() implies is_white_space(#[trigger] x[i]) by {
                if p <= i < p + s.len() {
                    assert(x[i] == s[i - p]);
                }
            }
        }
        lemma_trimmed_at(x, x.len() as int, x.len() as int);
        assert(x.subrange(x.len() as int, x.len() as int) =~= s.subrange(a, b));
    } else {
        assert(trims_to(x, p + a, p + b)) by {
            assert forall|i: int| 0 <= i < p + a implies is_white_space(#[trigger] x[i]) by {
                if p <= i {
                    assert(x[i] == s[i - p]);
                }
            }
            assert forall|i: int| p + b <= i < x.len() implies is_white_space(#[trigger] x[i]) by {
                if i < p + s.len() {
                    assert(x[i] == s[i - p]);
                }
            }
            assert(x[p + a] == s[a]);
            assert(x[p + b - 1] == s[b - 1]);
        }
        lemma_trimmed_at(x, p + a, p + b);
        assert(x.subrange(p + a, p + b) =~= s.subrange(a, b));
    }
}

/// The bounds `(a, b)` of what `trimmed` keeps of `chars[from..to]`.
pub fn trim_range(chars: &Vec<char>, from: usize, to: usize) -> (r: (usize, usize))
    requires
        from <= to <= chars.len(),
    ensures
        from <= r.0 <= r.1 <= to,
        trims_to(chars@.subrange(from as int, to as int), r.0 - from, r.1 - from),
        chars@.subrange(r.0 as int, r.1 as int) == trimmed(chars@.subrange(from as int, to as int)),
{
    let mut a: usize = from;
    while a < to && is_whitespace(chars[a])
        invariant
            from <= a <= to <= chars.len(),
            forall|i: int| from <= i < a ==> is_white_space(#[trigger] chars@[i]),
        decreases to - a,
    {
        a += 1;
    }
    let mut b: usize = to;
    while b > a && is_whitespace(chars[b - 1])
        invariant
            a <= b <= to <= chars.len(),
            forall|i: int| b <= i < to ==> is_white_space(#[trigger] chars@[i]),
        decreases b,
    {
        b -= 1;
    }
    proof {
        let whole = chars@.subrange(from as int, to as int);
        assert(trims_to(whole, a - from, b - from)) by {
            assert forall|i: int| 0 <= i < a - from implies is_white_space(#[trigger] whole[i]) by {
                assert(whole[i] == chars@[from + i]);
            }
            assert forall|i: int| b - from <= i < whole.len() implies is_white_space(
                #[trigger] whole[i],
            ) by {
                assert(whole[i] == chars@[from + i]);
            }
        }
        lemma_trimmed_at(whole, a - from, b - from);
        assert(whole.subrange(a - from, b - from) =~= chars@.subrange(a as int, b as int));
    }
    (a, b)
}

/// Whether `chars[from..to]`, folded to upper case, spells `word`.
pub fn upper_equals(chars: &Vec<char>, from: usize, to: usize, word: &str) -> (b: bool)
    requires
        from <= to <= chars.len(),
    ensures
        b == (upper(chars@.subrange(from as int, to as int)) == word@),
{
    let w = to_chars(word);
    if w.len() != to - from {
        return false;
    }
    let mut i: usize = 0;
    while i < w.len()
        invariant
            from <= to <= chars.len(),
            w@ == word@,
            w.len() == to - from,
            i <= w.len(),
            forall|j: int| 0 <= j < i ==> upper_char(#[trigger] chars@[from + j]) == w@[j],
        decreases w.len() - i,
    {
        if !upper_is(chars[from + i], w[i]) {
            assert(upper(chars@.subrange(from as int, to as int))[i as int] != word@[i as int]);
            return false;
        }
        i += 1;
    }
    proof {
        let folded = upper(chars@.subrange(from as int, to as int));
        assert forall|j: int| 0 <= j < folded.len() implies folded[j] == word@[j] by {
            assert(upper_char(chars@[from + j]) == w@[j]);
        }
        assert(folded =~= word@);
    }
    true
}

/// The pieces of `s` between occurrences of `sep`, in order. There is one
/// piece more than there are separators; a piece may be empty.
pub open spec fn split(s: Seq<char>, sep: char) -> Seq<Seq<char>>
    decreases s.len(),
{
    if s.len() == 0 {
        seq![Seq::empty()]
    } else {
        let before = split(s.drop_last(), sep);
        if s.last() == sep {
            before.push(Seq::empty())
        } else {
            before.drop_last().push(before.last().push(s.last()))
        }
    }
}

/// The trimmed forms of `pieces`, in order, without those that are empty.
pub open spec fn kept_items(pieces: Seq<Seq<char>>) -> Seq<Seq<char>>
    decreases pieces.len(),
{
    if pieces.len() == 0 {
        Seq::empty()
    } else {
        let before = kept_items(pieces.drop_last());
        let item = trimmed(pieces.last());
        if item.len() > 0 {
            before.push(item)
        } else {
            before
        }
    }
}

/// The items of a comma-separated list: the pieces between the commas,
/// trimmed, without the empty ones.
pub open spec fn list_items(s: Seq<char>) -> Seq<Seq<char>> {
    kept_items(split(s, ','))
}

/// Splits a comma-separated list into its items.
pub fn split_list(s: &str) -> (items: Vec<String>)
    ensures
        texts(items@) == list_items(s@),
{
    let chars = to_chars(s);
    let mut items: Vec<String> = Vec::new();
    let ghost mut done: Seq<Seq<char>> = Seq::empty();
    let mut start: usize = 0;
    let mut i: usize = 0;
    assert(chars@.take(0) =~= Seq::<char>::empty());
    assert(seq![Seq::<char>::empty()] =~= done.push(chars@.subrange(0, 0)));
    while i < chars.len()
        invariant
            chars@ == s@,
            start <= i <= chars.len(),
            split(chars@.take(i as int), ',') == done.push(
                chars@.subrange(start as int, i as int),
            ),
            texts(items@) == kept_items(done),
        decreases chars.len() - i,
    {
        proof {
            let prefix = chars@.take(i + 1);
            assert(prefix.drop_last() =~= chars@.take(i as int));
            assert(prefix.last() == chars@[i as int]);
            let before = split(chars@.take(i as int), ',');
            let piece = chars@.subrange(start as int, i as int);
            assert(before.drop_last() =~= done);
            assert(before.last() == piece);
        }
        if chars[i] == ',' {
            let (a, b) = trim_range(&chars, start, i);
            let ghost piece = chars@.subrange(start as int, i as int);
            let ghost before = texts(items@);
            if a < b {
                items.push(String::from_str(s.substring_char(a, b)));
                assert(texts(items@) =~= before.push(trimmed(piece)));
            }
            proof {
                assert(done.push(piece).drop_last() =~= done);
                done = done.push(piece);
                assert(chars@.subrange(i + 1, i + 1) =~= Seq::<char>::empty());
            }
            start = i + 1;
        } else {
            proof {
                let piece = chars@.subrange(start as int, i as int);
                assert(piece.push(chars@[i as int]) =~= chars@.subrange(start as int, i + 1));
            }
        }
        i += 1;
    }
    let (a, b) = trim_range(&chars, start, i);
    let ghost piece = chars@.subrange(start as int, i as int);
    let ghost before = texts(items@);
    if a < b {
        items.push(String::from_str(s.substring_char(a, b)));
        assert(texts(items@) =~= before.push(trimmed(piece)));
    }
    proof {
        assert(chars@.take(chars.len() as int) =~= chars@);
        assert(done.push(piece).drop_last() =~= done);
    }
    items
}

/// Whether `c` is one of the digits `0` to `9`.
pub open spec fn is_digit(c: char) -> bool {
    0x30 <= c as u32 <= 0x39
}

/// The value of the digit `c`.
pub open spec fn digit_value(c: char) -> nat {
    (c as u32 - 0x30) as nat
}

/// Whether `s` holds digits only.
pub open spec fn all_digits(s: Seq<char>) -> bool {
    forall|i: int| 0 <= i < s.len() ==> is_digit(#[trigger] s[i])
}

/// The number that the digits `s` write in base ten.
pub open spec fn decimal(s: Seq<char>) -> nat
    decreases s.len(),
{
    if s.len() == 0 {
        0
    } else {
        decimal(s.drop_last()) * 10 + digit_value(s.last())
    }
}

/// The number that `s` writes, if it writes one that 64 bits hold: an
/// optional `+`, then one or more digits and nothing else.
pub open spec fn decimal_u64(s: Seq<char>) -> Option<u64> {
    let digits = if s.len() > 0 && s[0] == '+' {
        s.drop_first()
    } else {
        s
    };
    if digits.len() > 0 && all_digits(digits) && decimal(digits) <= u64::MAX {
        Some(decimal(digits) as u64)
    } else {
        None
    }
}

/// More digits never write a smaller number.
proof fn lemma_decimal_grows(s: Seq<char>, k: int)
    requires
        0 <= k <= s.len(),
    ensures
        decimal(s.take(k)) <= decimal(s),
    decreases s.len() - k,
{
    if k == s.len() {
        assert(s.take(k) =~= s);
    } else {
        lemma_decimal_grows(s.drop_last(), k);
        assert(s.drop_last().take(k) =~= s.take(k));
    }
}

/// Reads an unsigned decimal number of at most 64 bits.
pub fn parse_u64(s: &str) -> (r: Option<u64>)
    ensures
        r == decimal_u64(s@),
{
    let chars = to_chars(s);
    let n = chars.len();
    let from: usize = if n > 0 && chars[0] == '+' {
        1
    } else {
        0
    };
    let ghost digits = chars@.subrange(from as int, n as int);
    assert(digits =~= if s@.len() > 0 && s@[0] == '+' {
        s@.drop_first()
    } else {
        s@
    });
    if from == n {
        return None;
    }
    let mut value: u64 = 0;
    let mut i: usize = from;
    while i < n
        invariant
            from <= i <= n == chars.len(),
            digits == chars@.subrange(from as int, n as int),
            decimal_u64(s@) == if digits.len() > 0 && all_digits(digits) && decimal(digits)
                <= u64::MAX {
                Some(decimal(digits) as u64)
            } else {
                None
            },
            all_digits(digits.take(i - from)),
            value == decimal(digits.take(i - from)),
        decreases n - i,
    {
        let c = chars[i];
        let code: u32 = c as u32;
        proof {
            let next = digits.take(i - from + 1);
            assert(next.drop_last() =~= digits.take(i - from));
            assert(next.last() == c);
            assert(digits[i - from] == c);
        }
        if code < 0x30 || code > 0x39 {
            return None;
        }
        let d: u64 = (code - 0x30) as u64;
        if value > (u64::MAX - d) / 10 {
            proof {
                lemma_decimal_grows(digits, i - from + 1);
            }
            return None;
        }
        value = value * 10 + d;
        proof {
            let next = digits.take(i - from + 1);
            assert forall|j: int| 0 <= j < next.len() implies is_digit(#[trigger] next[j]) by {
                if j < i - from {
                    assert(next[j] == digits.take(i - from)[j]);
                }
            }
        }
        i += 1;
    }
    assert(digits.take(n - from) =~= digits);
    Some(value)
}

} // verus!
