//! Exact properties of the text building blocks: the status keywords, the
//! short form of a date, pipe escaping and decimal numbers.
use vstd::prelude::*;
use crate::laws::{fold_case, same_up_to_case};
use crate::status::{spells, status_list, word_all, word_closed, word_open};
use crate::chart::key;
use crate::model::Flag;
use crate::occurs::{lemma_occurs_between, lemma_occurs_in_sum, lemma_occurs_trans, occurs};
use crate::render::{flag_text, flags_text};
use crate::text::{
    chars_in_bytes, date_short, decimal, digit_char, escape_pipes, is_space, join, trim,
    trim_end, trim_start, utf8_width,
};

verus! {

// ---------------------------------------------------------------------------
// Status keywords
// ---------------------------------------------------------------------------

proof fn lemma_spells_word(s: Seq<char>, t: Seq<char>, w: Seq<char>)
    requires
        same_up_to_case(s, t),
        t == w,
        forall|i: int| 0 <= i < w.len() ==> 97 <= (#[trigger] w[i] as u32) <= 122,
    ensures
        spells(s, w),
{
    assert forall|i: int| 0 <= i < s.len() implies crate::status::same_letter(s[i], w[i]) by {
        assert(fold_case(s[i]) == fold_case(t[i]));
        assert(97 <= (w[i] as u32) <= 122);
    }
}

/// `open`, `closed` and `all`, written in any mix of cases, select the
/// statuses of open bugs (`NEW`, `ASSIGNED`, `REOPENED`, `UNCONFIRMED`), of
/// closed bugs (`RESOLVED`, `VERIFIED`, `CLOSED`), and no status at all.
pub proof fn law_status_keywords(s: Seq<char>)
    ensures
        same_up_to_case(s, "open"@) ==> status_list(s) == seq![
            "NEW"@,
            "ASSIGNED"@,
            "REOPENED"@,
            "UNCONFIRMED"@,
        ],
        same_up_to_case(s, "closed"@) ==> status_list(s) == seq![
            "RESOLVED"@,
            "VERIFIED"@,
            "CLOSED"@,
        ],
        same_up_to_case(s, "all"@) ==> status_list(s) == Seq::<Seq<char>>::empty(),
{
    reveal_strlit("open");
    reveal_strlit("closed");
    reveal_strlit("all");
    if same_up_to_case(s, "open"@) {
        assert("open"@ =~= word_open());
        lemma_spells_word(s, "open"@, word_open());
    }
    if same_up_to_case(s, "closed"@) {
        assert("closed"@ =~= word_closed());
        lemma_spells_word(s, "closed"@, word_closed());
        assert(!spells(s, word_open()));
    }
    if same_up_to_case(s, "all"@) {
        assert("all"@ =~= word_all());
        lemma_spells_word(s, "all"@, word_all());
        assert(!spells(s, word_open()));
        assert(!spells(s, word_closed()));
    }
}

// ---------------------------------------------------------------------------
// Short dates
// ---------------------------------------------------------------------------

/// The length of `s` encoded in UTF-8, in bytes.
pub open spec fn byte_len(s: Seq<char>) -> int
    decreases s.len(),
{
    if s.len() == 0 {
        0
    } else {
        utf8_width(s[0]) + byte_len(s.drop_first())
    }
}

proof fn lemma_byte_len_nonneg(s: Seq<char>)
    ensures
        byte_len(s) >= 0,
    decreases s.len(),
{
    if s.len() > 0 {
        lemma_byte_len_nonneg(s.drop_first());
    }
}

proof fn lemma_prefix_of_bytes(s: Seq<char>, b: int, k: int)
    requires
        0 <= k <= s.len(),
        byte_len(s.take(k)) == b,
    ensures
        chars_in_bytes(s, b) == Some(k),
    decreases k,
{
    if k == 0 {
        assert(s.take(0).len() == 0);
    } else {
        let t = s.take(k);
        assert(t.drop_first() =~= s.drop_first().take(k - 1));
        assert(t[0] == s[0]);
        lemma_byte_len_nonneg(t.drop_first());
        lemma_prefix_of_bytes(s.drop_first(), b - utf8_width(s[0]), k - 1);
    }
}

proof fn lemma_bytes_of_prefix(s: Seq<char>, b: int, k: int)
    requires
        chars_in_bytes(s, b) == Some(k),
    ensures
        0 <= k <= s.len(),
        byte_len(s.take(k)) == b,
    decreases s.len(),
{
    if b == 0 {
        assert(s.take(0).len() == 0);
    } else {
        let w = utf8_width(s[0]);
        let k1 = chars_in_bytes(s.drop_first(), b - w)->0;
        lemma_bytes_of_prefix(s.drop_first(), b - w, k1);
        let t = s.take(k);
        assert(t.drop_first() =~= s.drop_first().take(k1));
        assert(t[0] == s[0]);
    }
}

/// The short form of a timestamp is its first ten bytes: when a prefix of
/// the timestamp is exactly ten bytes long in UTF-8, the short form is that
/// prefix; when none is, the timestamp is kept whole.
pub proof fn law_date_short_ten_bytes(d: Seq<char>)
    ensures
        forall|k: int|
            0 <= k <= d.len() && byte_len(#[trigger] d.take(k)) == 10 ==> date_short(d) == d.take(
                k,
            ),
        (forall|k: int| 0 <= k <= d.len() ==> byte_len(#[trigger] d.take(k)) != 10) ==> date_short(
            d,
        ) == d,
{
    assert forall|k: int| 0 <= k <= d.len() && byte_len(#[trigger] d.take(k)) == 10 implies date_short(
        d,
    ) == d.take(k) by {
        lemma_prefix_of_bytes(d, 10, k);
    }
    if chars_in_bytes(d, 10) is Some {
        let k = chars_in_bytes(d, 10)->0;
        lemma_bytes_of_prefix(d, 10, k);
    }
}

// ---------------------------------------------------------------------------
// Pipe escaping
// ---------------------------------------------------------------------------

proof fn lemma_escape_concat(a: Seq<char>, b: Seq<char>)
    ensures
        escape_pipes(a + b) == escape_pipes(a) + escape_pipes(b),
    decreases b.len(),
{
    if b.len() == 0 {
        assert(a + b =~= a);
        assert(escape_pipes(b) =~= Seq::<char>::empty());
        assert(escape_pipes(a) + escape_pipes(b) =~= escape_pipes(a));
    } else {
        lemma_escape_concat(a, b.drop_last());
        assert((a + b).drop_last() =~= a + b.drop_last());
        assert((a + b).last() == b.last());
        assert(escape_pipes(a + b) =~= escape_pipes(a) + escape_pipes(b));
    }
}

/// Escaping goes character by character: escaping `a + b` escapes `a`, then
/// `b`; a pipe becomes a backslash and a pipe, and every other character is
/// kept as it is.
pub proof fn law_escape_pipes_by_character(a: Seq<char>, b: Seq<char>, c: char)
    ensures
        escape_pipes(a + b) == escape_pipes(a) + escape_pipes(b),
        escape_pipes(Seq::<char>::empty()) == Seq::<char>::empty(),
        c == '|' ==> escape_pipes(seq![c]) == seq!['\\', '|'],
        c != '|' ==> escape_pipes(seq![c]) == seq![c],
{
    lemma_escape_concat(a, b);
    assert(seq![c].drop_last() =~= Seq::<char>::empty());
    assert(escape_pipes(seq![c]) =~= escape_pipes(Seq::<char>::empty()) + if c == '|' {
        seq!['\\', '|']
    } else {
        seq![c]
    });
}

// ---------------------------------------------------------------------------
// Decimal numbers
// ---------------------------------------------------------------------------

/// `c` is one of the ASCII digits `0` to `9`.
pub open spec fn is_digit(c: char) -> bool {
    '0' <= c && c <= '9'
}

/// The number that the ASCII digits `s` stand for in base ten.
pub open spec fn digits_value(s: Seq<char>) -> int
    decreases s.len(),
{
    if s.len() == 0 {
        0
    } else {
        digits_value(s.drop_last()) * 10 + ((s.last() as u32) - 48)
    }
}

proof fn lemma_digit_char(d: nat)
    requires
        d < 10,
    ensures
        is_digit(digit_char(d)),
        (digit_char(d) as u32) - 48 == d,
        digit_char(d) == '0' <==> d == 0,
{
}

/// The decimal form of a number is made of ASCII digits, reads back in base
/// ten as the number, and starts with `0` only when it is `0` itself.
pub proof fn law_decimal_digits(n: nat)
    ensures
        decimal(n).len() >= 1,
        forall|i: int| 0 <= i < decimal(n).len() ==> is_digit(#[trigger] decimal(n)[i]),
        digits_value(decimal(n)) == n,
        decimal(n)[0] == '0' ==> decimal(n) == seq!['0'],
    decreases n,
{
    if n < 10 {
        lemma_digit_char(n);
        let s = decimal(n);
        assert(s.drop_last() =~= Seq::<char>::empty());
        assert(digits_value(Seq::<char>::empty()) == 0);
        assert(digits_value(s) == (digit_char(n) as u32) - 48);
        if n == 0 {
            assert(s =~= seq!['0']);
        }
    } else {
        law_decimal_digits(n / 10);
        lemma_digit_char(n % 10);
        let s = decimal(n);
        let p = decimal(n / 10);
        assert(s.drop_last() =~= p);
        assert(s[0] == p[0]);
        assert forall|i: int| 0 <= i < s.len() implies is_digit(#[trigger] s[i]) by {
            if i < p.len() {
                assert(s[i] == p[i]);
            }
        }
        assert(digits_value(s) == digits_value(p) * 10 + (n % 10));
        assert((n / 10) * 10 + n % 10 == n);
        if s[0] == '0' {
            let z = seq!['0'];
            assert(p == z);
            assert(z.drop_last() =~= Seq::<char>::empty());
            assert(digits_value(Seq::<char>::empty()) == 0);
            assert(digits_value(z) == 0);
        }
    }
}

/// The name of a chart parameter is its letter followed by the number of its
/// operation in decimal, so that the operations are numbered from 0.
pub proof fn law_chart_key_number(letter: char, i: nat)
    ensures
        key(letter, i).len() >= 2,
        key(letter, i)[0] == letter,
        forall|j: int| 1 <= j < key(letter, i).len() ==> is_digit(#[trigger] key(letter, i)[j]),
        digits_value(key(letter, i).skip(1)) == i,
{
    law_decimal_digits(i);
    let k = key(letter, i);
    assert(k.skip(1) =~= decimal(i));
    assert forall|j: int| 1 <= j < k.len() implies is_digit(#[trigger] k[j]) by {
        assert(k[j] == decimal(i)[j - 1]);
    }
}

// ---------------------------------------------------------------------------
// Trimming
// ---------------------------------------------------------------------------

proof fn lemma_trim_start_at(s: Seq<char>) -> (i: int)
    ensures
        0 <= i <= s.len(),
        trim_start(s) == s.skip(i),
        forall|j: int| 0 <= j < i ==> is_space(#[trigger] s[j]),
        i < s.len() ==> !is_space(s[i]),
    decreases s.len(),
{
    if s.len() > 0 && is_space(s[0]) {
        let t = s.drop_first();
        let k = lemma_trim_start_at(t);
        assert(t.skip(k) =~= s.skip(k + 1));
        assert forall|j: int| 0 <= j < k + 1 implies is_space(#[trigger] s[j]) by {
            if j > 0 {
                assert(s[j] == t[j - 1]);
            }
        }
        if k + 1 < s.len() {
            assert(s[k + 1] == t[k]);
        }
        k + 1
    } else {
        assert(s.skip(0) =~= s);
        0
    }
}

proof fn lemma_trim_end_at(s: Seq<char>) -> (m: int)
    ensures
        0 <= m <= s.len(),
        trim_end(s) == s.take(m),
        forall|j: int| m <= j < s.len() ==> is_space(#[trigger] s[j]),
        m > 0 ==> !is_space(s[m - 1]),
    decreases s.len(),
{
    if s.len() > 0 && is_space(s.last()) {
        let t = s.drop_last();
        let k = lemma_trim_end_at(t);
        assert(t.take(k) =~= s.take(k));
        assert forall|j: int| k <= j < s.len() implies is_space(#[trigger] s[j]) by {
            if j < s.len() - 1 {
                assert(s[j] == t[j]);
            }
        }
        if k > 0 {
            assert(s[k - 1] == t[k - 1]);
        }
        k
    } else {
        assert(s.take(s.len() as int) =~= s);
        s.len() as int
    }
}

/// Trimming takes white space off both ends and nothing else: the trimmed
/// text is a piece of the text with only white space before and after it,
/// and it neither starts nor ends with white space.
pub proof fn law_trim(s: Seq<char>)
    ensures
        exists|i: int|
            #![trigger s.subrange(i, i + trim(s).len())]
            0 <= i && i + trim(s).len() <= s.len() && s.subrange(i, i + trim(s).len()) == trim(s)
                && (forall|j: int| 0 <= j < i ==> is_space(#[trigger] s[j])) && (forall|j: int|
                i + trim(s).len() <= j < s.len() ==> is_space(#[trigger] s[j])),
        trim(s).len() > 0 ==> !is_space(trim(s)[0]) && !is_space(trim(s).last()),
{
    let i = lemma_trim_start_at(s);
    let u = s.skip(i);
    let m = lemma_trim_end_at(u);
    let t = trim(s);
    assert(t == u.take(m));
    assert(u.take(m) =~= s.subrange(i, i + m));
    assert forall|j: int| i + m <= j < s.len() implies is_space(#[trigger] s[j]) by {
        assert(s[j] == u[j - i]);
    }
    if m > 0 {
        assert(t[0] == s[i]);
        assert(t.last() == u[m - 1]);
    }
}

// ---------------------------------------------------------------------------
// Flags
// ---------------------------------------------------------------------------

proof fn lemma_join_occurs(items: Seq<Seq<char>>, sep: Seq<char>, k: int)
    requires
        0 <= k < items.len(),
    ensures
        occurs(join(items, sep), items[k]),
    decreases items.len(),
{
    let e = Seq::<char>::empty();
    if items.len() == 1 {
        lemma_occurs_between(e, items[0], e);
        assert(e + items[0] + e =~= items[0]);
    } else {
        let front = items.drop_last();
        if k == items.len() - 1 {
            lemma_occurs_between(join(front, sep) + sep, items[k], e);
            assert(join(front, sep) + sep + items[k] + e =~= join(items, sep));
        } else {
            lemma_join_occurs(front, sep, k);
            assert(front[k] == items[k]);
            lemma_occurs_in_sum(e, join(front, sep), sep + items.last(), items[k]);
            assert(e + join(front, sep) + (sep + items.last()) =~= join(items, sep));
        }
    }
}

/// Every flag is shown among the flags: its name directly followed by its
/// status, and its requestee in parentheses when it has one.
pub proof fn law_flags_show_every_flag(flags: Seq<Flag>, k: int)
    requires
        0 <= k < flags.len(),
    ensures
        occurs(flags_text(flags), flags[k].name@ + flags[k].status@),
        flags[k].requestee matches Some(r) ==> occurs(flags_text(flags), "("@ + r@ + ")"@),
{
    let f = flags[k];
    let items = flags.map_values(|f: Flag| flag_text(f));
    assert(items[k] == flag_text(f));
    lemma_join_occurs(items, ", "@, k);
    let e = Seq::<char>::empty();
    let tail = match f.requestee {
        Some(r) => "("@ + r@ + ")"@,
        None => e,
    };
    assert(flag_text(f) =~= e + (f.name@ + f.status@) + tail);
    lemma_occurs_between(e, f.name@ + f.status@, tail);
    lemma_occurs_trans(flags_text(flags), flag_text(f), f.name@ + f.status@);
    if let Some(r) = f.requestee {
        assert(flag_text(f) =~= (f.name@ + f.status@) + tail + e);
        lemma_occurs_between(f.name@ + f.status@, tail, e);
        lemma_occurs_trans(flags_text(flags), flag_text(f), tail);
    }
}

} // verus!
