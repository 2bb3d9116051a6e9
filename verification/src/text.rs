//! Character-level building blocks: decimal rendering, joining, splitting,
//! trimming, pipe escaping, and the short forms of dates and e-mail addresses.
use vstd::prelude::*;

verus! {

// ---------------------------------------------------------------------------
// Decimal numbers
// ---------------------------------------------------------------------------

/// The ASCII digit for `d`, which is below ten.
pub open spec fn digit_char(d: nat) -> char {
    if d == 0 {
        '0'
    } else if d == 1 {
        '1'
    } else if d == 2 {
        '2'
    } else if d == 3 {
        '3'
    } else if d == 4 {
        '4'
    } else if d == 5 {
        '5'
    } else if d == 6 {
        '6'
    } else if d == 7 {
        '7'
    } else if d == 8 {
        '8'
    } else {
        '9'
    }
}

/// The decimal representation of `n`, without sign or leading zeros.
pub open spec fn decimal(n: nat) -> Seq<char>
    decreases n,
{
    if n < 10 {
        seq![digit_char(n)]
    } else {
        decimal(n / 10).push(digit_char(n % 10))
    }
}

/// Appends `c` to `s` with `String::push`, which std documents as appending
/// the character to the end of the string: that is what the contract claims.
#[verifier::external_body]
pub(crate) fn push_char(s: &mut String, c: char)
    ensures
        final(s)@ == old(s)@.push(c),
{
    s.push(c);
}

fn digit(d: u64) -> (c: char)
    requires
        d < 10,
    ensures
        c == digit_char(d as nat),
{
    match d {
        0 => '0',
        1 => '1',
        2 => '2',
        3 => '3',
        4 => '4',
        5 => '5',
        6 => '6',
        7 => '7',
        8 => '8',
        _ => '9',
    }
}

/// Appends the decimal representation of `n`.
pub fn push_decimal(out: &mut String, n: u64)
    ensures
        final(out)@ == old(out)@ + decimal(n as nat),
    decreases n,
{
    if n >= 10 {
        push_decimal(out, n / 10);
    }
    push_char(out, digit(n % 10));
    assert(final(out)@ =~= old(out)@ + decimal(n as nat)) by {
        if n >= 10 {
            assert(decimal(n as nat) == decimal((n / 10) as nat).push(digit_char((n % 10) as nat)));
        }
    }
}

/// The decimal representation of `n` as a new string.
pub fn decimal_string(n: u64) -> (s: String)
    ensures
        s@ == decimal(n as nat),
{
    let mut s = String::new();
    push_decimal(&mut s, n);
    assert(s@ =~= decimal(n as nat));
    s
}

// ---------------------------------------------------------------------------
// Sequences of strings
// ---------------------------------------------------------------------------

/// The character views of a sequence of strings.
pub open spec fn views(v: Seq<String>) -> Seq<Seq<char>> {
    v.map_values(|s: String| s@)
}

/// The items, separated by `sep` (as `[..].join(sep)`).
pub open spec fn join(items: Seq<Seq<char>>, sep: Seq<char>) -> Seq<char>
    decreases items.len(),
{
    if items.len() == 0 {
        seq![]
    } else if items.len() == 1 {
        items[0]
    } else {
        join(items.drop_last(), sep) + sep + items.last()
    }
}

/// One step of `join` over a growing prefix.
pub proof fn lemma_join_step(items: Seq<Seq<char>>, sep: Seq<char>, i: int)
    requires
        0 <= i < items.len(),
    ensures
        join(items.take(i + 1), sep) == if i == 0 {
            items[0]
        } else {
            join(items.take(i), sep) + sep + items[i]
        },
{
    assert(items.take(i + 1).drop_last() =~= items.take(i));
    assert(items.take(i + 1).last() == items[i]);
}

/// Appends the strings of `items`, separated by `sep`.
pub fn push_joined(out: &mut String, items: &Vec<String>, sep: &str)
    ensures
        final(out)@ == old(out)@ + join(views(items@), sep@),
{
    let ghost start = out@;
    let ghost all = views(items@);
    let n = items.len();
    for i in 0..n
        invariant
            n == items.len(),
            all == views(items@),
            out@ == start + join(all.take(i as int), sep@),
    {
        proof {
            lemma_join_step(all, sep@, i as int);
        }
        if i > 0 {
            out.append(sep);
        }
        out.append(items[i].as_str());
    }
    assert(all.take(n as int) =~= all);
}

/// The decimal representations of the ids.
pub open spec fn decimals(ids: Seq<u64>) -> Seq<Seq<char>> {
    ids.map_values(|d: u64| decimal(d as nat))
}

/// Appends the decimal ids, separated by `sep`.
pub fn push_joined_ids(out: &mut String, ids: &Vec<u64>, sep: &str)
    ensures
        final(out)@ == old(out)@ + join(decimals(ids@), sep@),
{
    let ghost start = out@;
    let ghost all = decimals(ids@);
    let n = ids.len();
    for i in 0..n
        invariant
            n == ids.len(),
            all == decimals(ids@),
            out@ == start + join(all.take(i as int), sep@),
    {
        proof {
            lemma_join_step(all, sep@, i as int);
        }
        if i > 0 {
            out.append(sep);
        }
        push_decimal(out, ids[i]);
        assert(out@ =~= start + join(all.take(i + 1), sep@));
    }
    assert(all.take(n as int) =~= all);
}

// ---------------------------------------------------------------------------
// Characters of a string
// ---------------------------------------------------------------------------

/// The characters of `s`, in order.
pub fn chars_of(s: &str) -> (v: Vec<char>)
    ensures
        v@ == s@,
{
    let mut v: Vec<char> = Vec::new();
    for c in it: s.chars()
        invariant
            v@ == it.seq().take(it.index() as int),
            it.seq() == s@,
    {
        v.push(c);
    }
    v
}

// ---------------------------------------------------------------------------
// Pipe escaping for markdown tables
// ---------------------------------------------------------------------------

/// `s` with each `|` replaced by `\|` (as `s.replace('|', "\\|")`).
pub open spec fn escape_pipes(s: Seq<char>) -> Seq<char>
    decreases s.len(),
{
    if s.len() == 0 {
        seq![]
    } else {
        escape_pipes(s.drop_last()) + if s.last() == '|' {
            seq!['\\', '|']
        } else {
            seq![s.last()]
        }
    }
}

/// Appends `s` with its pipes escaped.
pub fn push_escaped(out: &mut String, s: &str)
    ensures
        final(out)@ == old(out)@ + escape_pipes(s@),
{
    let ghost start = out@;
    let cs = chars_of(s);
    let n = cs.len();
    for i in 0..n
        invariant
            n == cs.len(),
            cs@ == s@,
            out@ == start + escape_pipes(cs@.take(i as int)),
    {
        let c = cs[i];
        assert(cs@.take(i + 1).drop_last() =~= cs@.take(i as int));
        if c == '|' {
            push_char(out, '\\');
            push_char(out, '|');
        } else {
            push_char(out, c);
        }
        assert(out@ =~= start + escape_pipes(cs@.take(i + 1)));
    }
    assert(cs@.take(n as int) =~= cs@);
}

// ---------------------------------------------------------------------------
// Short dates: the first ten bytes, when they end on a character boundary
// ---------------------------------------------------------------------------

/// The number of bytes that `c` takes in UTF-8.
pub open spec fn utf8_width(c: char) -> int {
    if (c as u32) < 0x80 {
        1
    } else if (c as u32) < 0x800 {
        2
    } else if (c as u32) < 0x10000 {
        3
    } else {
        4
    }
}

/// The number of leading characters of `s` whose UTF-8 encoding is exactly
/// `budget` bytes long, if there is such a prefix.
pub open spec fn chars_in_bytes(s: Seq<char>, budget: int) -> Option<int>
    decreases s.len(),
{
    if budget == 0 {
        Some(0)
    } else if budget < 0 || s.len() == 0 {
        None
    } else {
        match chars_in_bytes(s.drop_first(), budget - utf8_width(s[0])) {
            Some(k) => Some(k + 1),
            None => None,
        }
    }
}

/// The date part of a timestamp: its first ten bytes when they form whole
/// characters, else the whole string (as `d.get(..10).unwrap_or(d)`).
pub open spec fn date_short(d: Seq<char>) -> Seq<char> {
    match chars_in_bytes(d, 10) {
        Some(k) => d.take(k),
        None => d,
    }
}

fn char_width(c: char) -> (w: u64)
    ensures
        w == utf8_width(c),
{
    let v = c as u32;
    if v < 0x80 {
        1
    } else if v < 0x800 {
        2
    } else if v < 0x10000 {
        3
    } else {
        4
    }
}

proof fn lemma_chars_in_bytes_skip(s: Seq<char>, i: int, budget: int)
    requires
        0 <= i < s.len(),
        budget > 0,
    ensures
        chars_in_bytes(s.skip(i), budget) == match chars_in_bytes(
            s.skip(i + 1),
            budget - utf8_width(s[i]),
        ) {
            Some(k) => Some(k + 1),
            None => None::<int>,
        },
{
    assert(s.skip(i).drop_first() =~= s.skip(i + 1));
    assert(s.skip(i)[0] == s[i]);
}

proof fn lemma_chars_in_bytes_nonneg(s: Seq<char>, budget: int)
    ensures
        chars_in_bytes(s, budget) matches Some(k) ==> 0 <= k <= s.len(),
    decreases s.len(),
{
    if budget != 0 && budget >= 0 && s.len() != 0 {
        lemma_chars_in_bytes_nonneg(s.drop_first(), budget - utf8_width(s[0]));
    }
}

/// The date part of a timestamp (the first ten bytes, when they form whole
/// characters; else the whole string).
pub fn format_date_short(d: &str) -> (r: &str)
    ensures
        r@ == date_short(d@),
{
    let cs = chars_of(d);
    let n = cs.len();
    let mut used: u64 = 0;
    let mut i: usize = 0;
    proof {
        lemma_chars_in_bytes_nonneg(d@, 10);
        assert(d@.skip(0) =~= d@);
    }
    while i < n && used < 10
        invariant
            n == cs.len(),
            cs@ == d@,
            0 <= i <= n,
            used <= 10,
            used == 10 ==> chars_in_bytes(d@, 10) == Some(i as int),
            used < 10 ==> chars_in_bytes(d@, 10) == match chars_in_bytes(
                d@.skip(i as int),
                10 - used,
            ) {
                Some(k) => Some(k + i),
                None => None::<int>,
            },
        decreases n - i,
    {
        proof {
            lemma_chars_in_bytes_skip(d@, i as int, 10 - used);
        }
        let w = char_width(cs[i]);
        if used + w > 10 {
            proof {
                assert(chars_in_bytes(d@.skip(i as int), 10 - used) is None);
            }
            return d;
        }
        used = used + w;
        i = i + 1;
    }
    if used == 10 {
        d.substring_char(0, i)
    } else {
        proof {
            assert(d@.skip(i as int).len() == 0);
        }
        d
    }
}

// ---------------------------------------------------------------------------
// Short assignees: the part before the first `@`
// ---------------------------------------------------------------------------

/// The index of the first `c` in `s`, or `s.len()` when there is none.
pub open spec fn index_of(s: Seq<char>, c: char) -> int
    decreases s.len(),
{
    if s.len() == 0 {
        0
    } else if s[0] == c {
        0
    } else {
        1 + index_of(s.drop_first(), c)
    }
}

/// The local part of an address: everything before the first `@`
/// (as `a.split('@').next().unwrap_or(a)`).
pub open spec fn before_at(a: Seq<char>) -> Seq<char> {
    a.take(index_of(a, '@'))
}

/// `index_of` in terms of indices.
pub proof fn lemma_index_of(s: Seq<char>, c: char)
    ensures
        0 <= index_of(s, c) <= s.len(),
        forall|j: int| 0 <= j < index_of(s, c) ==> s[j] != c,
        index_of(s, c) < s.len() ==> s[index_of(s, c)] == c,
    decreases s.len(),
{
    if s.len() != 0 && s[0] != c {
        lemma_index_of(s.drop_first(), c);
        assert forall|j: int| 0 <= j < index_of(s, c) implies s[j] != c by {
            if j > 0 {
                assert(s[j] == s.drop_first()[j - 1]);
            }
        }
    }
}

/// `index_of` is the first index that holds `c`.
pub proof fn lemma_index_of_unique(s: Seq<char>, c: char, k: int)
    requires
        0 <= k <= s.len(),
        forall|j: int| 0 <= j < k ==> s[j] != c,
        k < s.len() ==> s[k] == c,
    ensures
        index_of(s, c) == k,
{
    lemma_index_of(s, c);
    let m = index_of(s, c);
    if m < k {
        assert(s[m] != c);
    } else if k < m {
        assert(s[k] != c);
    }
}

/// The index of the first `c` in `s`, or its length in characters.
pub fn find_char(cs: &Vec<char>, c: char, from: usize) -> (k: usize)
    requires
        from <= cs.len(),
    ensures
        from <= k <= cs.len(),
        forall|j: int| from <= j < k ==> cs@[j] != c,
        k < cs.len() ==> cs@[k as int] == c,
{
    let mut k = from;
    while k < cs.len() && cs[k] != c
        invariant
            from <= k <= cs.len(),
            forall|j: int| from <= j < k ==> cs@[j] != c,
        decreases cs.len() - k,
    {
        k = k + 1;
    }
    k
}

/// The local part of an address: everything before the first `@`.
pub fn format_assignee_short(a: &str) -> (r: &str)
    ensures
        r@ == before_at(a@),
{
    let cs = chars_of(a);
    let k = find_char(&cs, '@', 0);
    proof {
        lemma_index_of_unique(a@, '@', k as int);
    }
    a.substring_char(0, k)
}

// ---------------------------------------------------------------------------
// Splitting and trimming
// ---------------------------------------------------------------------------

/// The pieces of `s` between occurrences of `c` (as `s.split(c)`): never
/// empty, and one more piece than there are occurrences.
pub open spec fn split(s: Seq<char>, c: char) -> Seq<Seq<char>>
    decreases s.len(),
{
    if s.len() == 0 {
        seq![seq![]]
    } else {
        let r = split(s.drop_last(), c);
        if s.last() == c {
            r.push(seq![])
        } else {
            r.update(r.len() - 1, r.last().push(s.last()))
        }
    }
}

/// `split` always yields at least one piece.
pub proof fn lemma_split_nonempty(s: Seq<char>, c: char)
    ensures
        split(s, c).len() >= 1,
    decreases s.len(),
{
    if s.len() != 0 {
        lemma_split_nonempty(s.drop_last(), c);
    }
}

/// The pieces of `s` between commas, as slices of `s`.
pub fn split_commas(s: &str) -> (parts: Vec<&str>)
    ensures
        parts@.map_values(|p: &str| p@) == split(s@, ','),
{
    let cs = chars_of(s);
    let n = cs.len();
    let mut parts: Vec<&str> = Vec::new();
    let mut start: usize = 0;
    assert(s@.take(0) =~= Seq::<char>::empty());
    assert(s@.subrange(0, 0) =~= Seq::<char>::empty());
    assert(parts@.map_values(|p: &str| p@) =~= Seq::<Seq<char>>::empty());
    for i in 0..n
        invariant
            n == cs.len(),
            cs@ == s@,
            start <= i,
            parts@.map_values(|p: &str| p@).push(s@.subrange(start as int, i as int)) == split(
                s@.take(i as int),
                ',',
            ),
    {
        let ghost prev = parts@.map_values(|p: &str| p@);
        assert(s@.take(i + 1).drop_last() =~= s@.take(i as int));
        assert(s@.take(i + 1).last() == s@[i as int]);
        if cs[i] == ',' {
            let piece = s.substring_char(start, i);
            parts.push(piece);
            start = i + 1;
            assert(s@.subrange(start as int, i + 1) =~= Seq::<char>::empty());
            assert(parts@.map_values(|p: &str| p@) =~= prev.push(piece@));
            assert(parts@.map_values(|p: &str| p@).push(s@.subrange(start as int, i + 1))
                =~= prev.push(piece@).push(seq![]));
        } else {
            assert(s@.subrange(start as int, i + 1) =~= s@.subrange(start as int, i as int).push(
                s@[i as int],
            ));
            assert(parts@.map_values(|p: &str| p@).push(s@.subrange(start as int, i + 1))
                =~= prev.push(s@.subrange(start as int, i as int)).update(
                prev.len() as int,
                s@.subrange(start as int, i as int).push(s@[i as int]),
            ));
        }
    }
    let last = s.substring_char(start, n);
    let ghost prev = parts@.map_values(|p: &str| p@);
    parts.push(last);
    assert(parts@.map_values(|p: &str| p@) =~= prev.push(last@));
    assert(s@.take(n as int) =~= s@);
    parts
}

/// Unicode white space, as `char::is_whitespace` documents it (the
/// `White_Space` property).
pub open spec fn is_space(c: char) -> bool {
    let v = c as u32;
    (0x09 <= v <= 0x0D) || v == 0x20 || v == 0x85 || v == 0xA0 || v == 0x1680 || (0x2000 <= v
        <= 0x200A) || v == 0x2028 || v == 0x2029 || v == 0x202F || v == 0x205F || v == 0x3000
}

fn char_is_space(c: char) -> (b: bool)
    ensures
        b == is_space(c),
{
    let v = c as u32;
    (0x09 <= v && v <= 0x0D) || v == 0x20 || v == 0x85 || v == 0xA0 || v == 0x1680 || (0x2000
        <= v && v <= 0x200A) || v == 0x2028 || v == 0x2029 || v == 0x202F || v == 0x205F || v
        == 0x3000
}

/// `s` without leading white space.
pub open spec fn trim_start(s: Seq<char>) -> Seq<char>
    decreases s.len(),
{
    if s.len() > 0 && is_space(s[0]) {
        trim_start(s.drop_first())
    } else {
        s
    }
}

/// `s` without trailing white space.
pub open spec fn trim_end(s: Seq<char>) -> Seq<char>
    decreases s.len(),
{
    if s.len() > 0 && is_space(s.last()) {
        trim_end(s.drop_last())
    } else {
        s
    }
}

/// `s` without leading and trailing white space (as `str::trim`).
pub open spec fn trim(s: Seq<char>) -> Seq<char> {
    trim_end(trim_start(s))
}

proof fn lemma_trim_start_skip(s: Seq<char>, i: int)
    requires
        0 <= i <= s.len(),
        forall|j: int| 0 <= j < i ==> is_space(s[j]),
    ensures
        trim_start(s) == trim_start(s.skip(i)),
    decreases i,
{
    if i > 0 {
        assert forall|j: int| 0 <= j < i - 1 implies is_space(s.drop_first()[j]) by {
            assert(s.drop_first()[j] == s[j + 1]);
        }
        assert(is_space(s[0]));
        lemma_trim_start_skip(s.drop_first(), i - 1);
        assert(s.drop_first().skip(i - 1) =~= s.skip(i));
    } else {
        assert(s.skip(0) =~= s);
    }
}

proof fn lemma_trim_end_take(s: Seq<char>, k: int)
    requires
        0 <= k <= s.len(),
        forall|j: int| k <= j < s.len() ==> is_space(s[j]),
    ensures
        trim_end(s) == trim_end(s.take(k)),
    decreases s.len() - k,
{
    if k < s.len() {
        assert(s.drop_last().take(k) =~= s.take(k));
        lemma_trim_end_take(s.drop_last(), k);
    } else {
        assert(s.take(k) =~= s);
    }
}

/// The characters of `s` without leading and trailing white space.
pub fn trimmed(s: &str) -> (r: String)
    ensures
        r@ == trim(s@),
{
    let cs = chars_of(s);
    let n = cs.len();
    let mut lo: usize = 0;
    while lo < n && char_is_space(cs[lo])
        invariant
            n == cs.len(),
            cs@ == s@,
            lo <= n,
            forall|j: int| 0 <= j < lo ==> is_space(s@[j]),
        decreases n - lo,
    {
        lo = lo + 1;
    }
    proof {
        lemma_trim_start_skip(s@, lo as int);
    }
    if lo < n {
        assert(!is_space(s@.skip(lo as int)[0]));
    }
    let ghost rest = s@.skip(lo as int);
    assert(trim_start(rest) == rest);
    let mut hi: usize = n;
    while hi > lo && char_is_space(cs[hi - 1])
        invariant
            n == cs.len(),
            cs@ == s@,
            lo <= hi <= n,
            rest == s@.skip(lo as int),
            forall|j: int| hi - lo <= j < rest.len() ==> is_space(rest[j]),
        decreases hi,
    {
        hi = hi - 1;
    }
    proof {
        lemma_trim_end_take(rest, hi - lo);
        if hi > lo {
            assert(!is_space(rest.take(hi - lo).last()));
        }
    }
    let piece = s.substring_char(lo, hi);
    assert(piece@ =~= rest.take(hi - lo));
    String::from_str(piece)
}

} // verus!
