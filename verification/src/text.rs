//! Plain-text helpers: decimal digits, comma splitting, trimming and
//! rendering, shared by the candidate parser and the record formatter.

use vstd::prelude::*;

verus! {

/// A decimal digit.
pub open spec fn is_digit(c: char) -> bool {
    '0' as int <= c as int && c as int <= '9' as int
}

/// Numeric value of a decimal digit.
pub open spec fn digit_val(c: char) -> int {
    c as int - '0' as int
}

/// Every character of `s` is a decimal digit.
pub open spec fn all_digits(s: Seq<char>) -> bool {
    forall|i: int| 0 <= i < s.len() ==> is_digit(#[trigger] s[i])
}

/// Value of a digit string read most-significant first.
pub open spec fn dec_val(s: Seq<char>) -> int
    decreases s.len(),
{
    if s.len() == 0 {
        0
    } else {
        dec_val(s.drop_last()) * 10 + digit_val(s.last())
    }
}

/// A digit string's value only grows as digits are appended.
proof fn lemma_dec_val_prefix_bound(s: Seq<char>, n: int)
    requires
        all_digits(s),
        0 <= n <= s.len(),
    ensures
        dec_val(s.subrange(0, n)) <= dec_val(s),
        dec_val(s) >= 0,
    decreases s.len(),
{
    if s.len() == 0 {
        assert(s.subrange(0, n) =~= s);
    } else {
        let head = s.drop_last();
        assert(all_digits(head));
        lemma_dec_val_prefix_bound(head, if n <= head.len() { n } else { head.len() as int });
        if n == s.len() {
            assert(s.subrange(0, n) =~= s);
        } else {
            assert(s.subrange(0, n) =~= head.subrange(0, n));
        }
    }
}

/// What a port field means: a non-empty, all-digit string whose value
/// fits in sixteen bits.
pub open spec fn spec_parse_u16(s: Seq<char>) -> Option<u16> {
    if s.len() > 0 && all_digits(s) && dec_val(s) <= u16::MAX {
        Some(dec_val(s) as u16)
    } else {
        None
    }
}

/// Parses a decimal port number; rejects empty input, any non-digit
/// character, and values above `u16::MAX`.
pub fn parse_u16(s: &str) -> (r: Option<u16>)
    ensures
        r == spec_parse_u16(s@),
{
    let n = s.unicode_len();
    if n == 0 {
        return None;
    }
    let mut acc: u32 = 0;
    let mut i: usize = 0;
    while i < n
        invariant
            0 <= i <= n,
            n == s@.len(),
            all_digits(s@.subrange(0, i as int)),
            acc == dec_val(s@.subrange(0, i as int)),
            acc <= u16::MAX,
        decreases n - i,
    {
        let c = s.get_char(i);
        let cu = c as u32;
        if cu < 48 || cu > 57 {
            assert(!is_digit(s@[i as int]));
            return None;
        }
        let d: u32 = cu - 48;
        assert(s@.subrange(0, i + 1).drop_last() =~= s@.subrange(0, i as int));
        assert(s@.subrange(0, i + 1).last() == s@[i as int]);
        acc = acc * 10 + d;
        if acc > u16::MAX as u32 {
            proof {
                if all_digits(s@) {
                    lemma_dec_val_prefix_bound(s@, i + 1);
                }
            }
            return None;
        }
        i = i + 1;
    }
    assert(s@.subrange(0, n as int) =~= s@);
    Some(acc as u16)
}

/// The character standing for the decimal digit `d`.
pub open spec fn digit_char(d: int) -> char {
    ((48 + d) as u8) as char
}

/// Decimal rendering of a non-negative number, most-significant digit
/// first, with no leading zeros (a sole zero renders as "0").
pub open spec fn dec_digits(n: int) -> Seq<char>
    decreases n,
{
    if n < 10 {
        seq![digit_char(n)]
    } else {
        dec_digits(n / 10) + seq![digit_char(n % 10)]
    }
}

/// Renders a number in decimal.
pub fn render_u64(n: u64) -> (r: String)
    ensures
        r@ == dec_digits(n as int),
    decreases n,
{
    if n < 10 {
        let mut s = String::new();
        push_char(&mut s, ((48 + n as u8)) as char);
        s
    } else {
        let mut s = render_u64(n / 10);
        push_char(&mut s, (48 + (n % 10) as u8) as char);
        s
    }
}

/// Relies on `String::push` of std: appends exactly the given character.
#[verifier::external_body]
fn push_char(s: &mut String, c: char)
    ensures
        final(s)@ == old(s)@ + seq![c],
{
    s.push(c);
}

/// Whether `c` counts as alphanumeric for organisation-name cleaning;
/// the judgement is std's (`char::is_alphanumeric`), named here.
pub uninterp spec fn spec_alphanumeric(c: char) -> bool;

/// Whether `c` counts as white space; the judgement is std's
/// (`char::is_whitespace`), named here.
pub uninterp spec fn spec_whitespace(c: char) -> bool;

/// Relies on `char::is_alphanumeric` of std: a fixed classification of
/// each character, depending on the character alone.
#[verifier::external_body]
fn char_is_alphanumeric(c: char) -> (r: bool)
    ensures
        r == spec_alphanumeric(c),
{
    c.is_alphanumeric()
}

/// Relies on `char::is_whitespace` of std: a fixed classification of
/// each character, depending on the character alone.
#[verifier::external_body]
fn char_is_whitespace(c: char) -> (r: bool)
    ensures
        r == spec_whitespace(c),
{
    c.is_whitespace()
}

/// The characters of an organisation name that survive cleaning:
/// alphanumeric characters and white space, in order.
pub open spec fn spec_clean_org_name(s: Seq<char>) -> Seq<char> {
    s.filter(|c: char| spec_alphanumeric(c) || spec_whitespace(c))
}

/// Drops every character of an organisation name that is neither
/// alphanumeric nor white space. Offered for callers that want a
/// sanitised name; the record formatter deliberately emits the
/// organisation name as the database gives it.
pub fn clean_org_name(org_name: &str) -> (r: String)
    ensures
        r@ == spec_clean_org_name(org_name@),
{
    let n = org_name.unicode_len();
    let mut out = String::new();
    let mut i: usize = 0;
    proof {
        reveal(Seq::filter);
        assert(org_name@.subrange(0, 0).filter(|c: char| spec_alphanumeric(c)
            || spec_whitespace(c)) =~= Seq::<char>::empty());
    }
    while i < n
        invariant
            0 <= i <= n,
            n == org_name@.len(),
            out@ == org_name@.subrange(0, i as int).filter(
                |c: char| spec_alphanumeric(c) || spec_whitespace(c),
            ),
        decreases n - i,
    {
        let c = org_name.get_char(i);
        let keep = char_is_alphanumeric(c) || char_is_whitespace(c);
        proof {
            reveal(Seq::filter);
            assert(org_name@.subrange(0, i + 1).drop_last() =~= org_name@.subrange(0, i as int));
            assert(org_name@.subrange(0, i + 1).last() == c);
        }
        if keep {
            push_char(&mut out, c);
        }
        i = i + 1;
    }
    assert(org_name@.subrange(0, n as int) =~= org_name@);
    out
}

/// `s` split at every occurrence of `sep`: one piece more than there are
/// separators, each piece free of the separator, empty pieces kept.
pub open spec fn split_at_char(s: Seq<char>, sep: char) -> Seq<Seq<char>>
    decreases s.len(),
{
    if s.len() == 0 {
        seq![Seq::<char>::empty()]
    } else if s[0] == sep {
        seq![Seq::<char>::empty()] + split_at_char(s.drop_first(), sep)
    } else {
        let rest = split_at_char(s.drop_first(), sep);
        seq![seq![s[0]] + rest[0]] + rest.drop_first()
    }
}

/// Splitting yields at least one piece.
pub proof fn lemma_split_len(s: Seq<char>, sep: char)
    ensures
        split_at_char(s, sep).len() >= 1,
    decreases s.len(),
{
    if s.len() != 0 {
        lemma_split_len(s.drop_first(), sep);
    }
}

/// A string without the separator splits into itself alone.
pub proof fn lemma_split_nosep(s: Seq<char>, sep: char)
    requires
        forall|i: int| 0 <= i < s.len() ==> s[i] != sep,
    ensures
        split_at_char(s, sep) =~= seq![s],
    decreases s.len(),
{
    if s.len() == 0 {
        assert(s =~= Seq::<char>::empty());
    } else {
        lemma_split_nosep(s.drop_first(), sep);
        assert(seq![s[0]] + s.drop_first() =~= s);
    }
}

/// Splitting steps over the first separator: the piece before it, then
/// the split of what follows it.
pub proof fn lemma_split_step(s: Seq<char>, sep: char, i: int)
    requires
        0 <= i < s.len(),
        s[i] == sep,
        forall|j: int| 0 <= j < i ==> s[j] != sep,
    ensures
        split_at_char(s, sep) =~= seq![s.subrange(0, i)] + split_at_char(
            s.subrange(i + 1, s.len() as int),
            sep,
        ),
    decreases s.len(),
{
    lemma_split_len(s.subrange(i + 1, s.len() as int), sep);
    if i == 0 {
        assert(s.subrange(1, s.len() as int) =~= s.drop_first());
        assert(s.subrange(0, 0) =~= Seq::<char>::empty());
    } else {
        let t = s.drop_first();
        lemma_split_step(t, sep, i - 1);
        lemma_split_len(t.subrange(i, t.len() as int), sep);
        assert(t.subrange(i, t.len() as int) =~= s.subrange(i + 1, s.len() as int));
        assert(seq![s[0]] + t.subrange(0, i - 1) =~= s.subrange(0, i));
    }
}

/// The views of a sequence of owned strings.
pub open spec fn views_of(parts: Seq<String>) -> Seq<Seq<char>> {
    parts.map_values(|p: String| p@)
}

/// Splits `s` at every occurrence of `sep`, keeping empty pieces, as
/// `split_at_char` describes.
pub fn split_on_char(s: &str, sep: char) -> (parts: Vec<String>)
    ensures
        views_of(parts@) =~= split_at_char(s@, sep),
{
    let n = s.unicode_len();
    let mut parts: Vec<String> = Vec::new();
    let mut start: usize = 0;
    let mut go = true;
    proof {
        assert(s@.subrange(0, n as int) =~= s@);
        assert(views_of(parts@) =~= Seq::<Seq<char>>::empty());
        assert(views_of(parts@) + split_at_char(s@, sep) =~= split_at_char(s@, sep));
    }
    while go
        invariant
            0 <= start <= n,
            n == s@.len(),
            go ==> split_at_char(s@, sep) =~= views_of(parts@) + split_at_char(
                s@.subrange(start as int, n as int),
                sep,
            ),
            !go ==> views_of(parts@) =~= split_at_char(s@, sep),
        decreases n - start, (if go { 1int } else { 0int }),
    {
        let mut j = start;
        while j < n && s.get_char(j) != sep
            invariant
                start <= j <= n,
                n == s@.len(),
                forall|k: int| start <= k < j ==> s@[k] != sep,
            decreases n - j,
        {
            j = j + 1;
        }
        let ghost tail = s@.subrange(start as int, n as int);
        if j < n {
            let piece = s.substring_char(start, j).to_owned();
            proof {
                lemma_split_step(tail, sep, j - start);
                assert(tail.subrange(0, j - start) =~= s@.subrange(start as int, j as int));
                assert(tail.subrange(j - start + 1, tail.len() as int) =~= s@.subrange(
                    j + 1,
                    n as int,
                ));
            }
            parts.push(piece);
            proof {
                assert(views_of(parts@) =~= views_of(parts@.drop_last()) + seq![
                    s@.subrange(start as int, j as int),
                ]);
            }
            start = j + 1;
        } else {
            let piece = s.substring_char(start, n).to_owned();
            proof {
                lemma_split_nosep(tail, sep);
            }
            parts.push(piece);
            proof {
                assert(views_of(parts@) =~= views_of(parts@.drop_last()) + seq![tail]);
            }
            go = false;
        }
    }
    parts
}

/// `s` with white space stripped from the front.
pub open spec fn trim_front(s: Seq<char>) -> Seq<char>
    decreases s.len(),
{
    if s.len() > 0 && spec_whitespace(s[0]) {
        trim_front(s.drop_first())
    } else {
        s
    }
}

/// `s` with white space stripped from the back.
pub open spec fn trim_back(s: Seq<char>) -> Seq<char>
    decreases s.len(),
{
    if s.len() > 0 && spec_whitespace(s.last()) {
        trim_back(s.drop_last())
    } else {
        s
    }
}

/// `s` with white space stripped from both ends.
pub open spec fn trimmed(s: Seq<char>) -> Seq<char> {
    trim_back(trim_front(s))
}

proof fn lemma_trim_front_range(s: Seq<char>, a: int)
    requires
        0 <= a <= s.len(),
        forall|i: int| 0 <= i < a ==> spec_whitespace(s[i]),
        a < s.len() ==> !spec_whitespace(s[a]),
    ensures
        trim_front(s) =~= s.subrange(a, s.len() as int),
    decreases a,
{
    if a == 0 {
        assert(s.subrange(0, s.len() as int) =~= s);
    } else {
        let t = s.drop_first();
        lemma_trim_front_range(t, a - 1);
        assert(t.subrange(a - 1, t.len() as int) =~= s.subrange(a, s.len() as int));
    }
}

proof fn lemma_trim_back_range(s: Seq<char>, b: int)
    requires
        0 <= b <= s.len(),
        forall|i: int| b <= i < s.len() ==> spec_whitespace(s[i]),
        b > 0 ==> !spec_whitespace(s[b - 1]),
    ensures
        trim_back(s) =~= s.subrange(0, b),
    decreases s.len() - b,
{
    if b == s.len() {
        if s.len() > 0 && spec_whitespace(s.last()) {
            let t = s.drop_last();
            lemma_trim_back_range(t, b - 1);
            assert(t.subrange(0, b - 1) =~= s.subrange(0, b - 1));
            assert(s.subrange(0, b - 1) =~= s.subrange(0, b).drop_last());
            assert(trim_back(s.subrange(0, b)) =~= s.subrange(0, b));
        } else {
            assert(s.subrange(0, b) =~= s);
        }
    } else {
        let t = s.drop_last();
        lemma_trim_back_range(t, b);
        assert(t.subrange(0, b) =~= s.subrange(0, b));
    }
}

/// Strips white space from both ends of `s`.
pub fn trim_text(s: &str) -> (r: String)
    ensures
        r@ == trimmed(s@),
{
    let n = s.unicode_len();
    let mut a: usize = 0;
    while a < n && char_is_whitespace(s.get_char(a))
        invariant
            0 <= a <= n,
            n == s@.len(),
            forall|i: int| 0 <= i < a ==> spec_whitespace(s@[i]),
        decreases n - a,
    {
        a = a + 1;
    }
    let mut b = n;
    while b > a && char_is_whitespace(s.get_char(b - 1))
        invariant
            a <= b <= n,
            n == s@.len(),
            forall|i: int| 0 <= i < a ==> spec_whitespace(s@[i]),
            a < n ==> !spec_whitespace(s@[a as int]),
            forall|i: int| b <= i < n ==> spec_whitespace(s@[i]),
        decreases b,
    {
        b = b - 1;
    }
    let r = s.substring_char(a, b).to_owned();
    proof {
        lemma_trim_front_range(s@, a as int);
        let f = s@.subrange(a as int, n as int);
        lemma_trim_back_range(f, b - a);
        assert(f.subrange(0, b - a) =~= s@.subrange(a as int, b as int));
    }
    r
}

/// Whether `s` holds nothing but white space.
pub fn is_blank(s: &str) -> (r: bool)
    ensures
        r == (trimmed(s@).len() == 0),
{
    let t = trim_text(s);
    t.as_str().unicode_len() == 0
}

/// The candidate lines of an input file: every line that holds more
/// than white space, kept as it stands.
pub open spec fn spec_candidate_lines(lines: Seq<Seq<char>>) -> Seq<Seq<char>> {
    lines.filter(|l: Seq<char>| trimmed(l).len() != 0)
}

/// Keeps every non-blank line of the candidate file.
pub fn keep_candidate_lines(lines: &Vec<String>) -> (r: Vec<String>)
    ensures
        views_of(r@) == spec_candidate_lines(views_of(lines@)),
{
    let n = lines.len();
    let mut out: Vec<String> = Vec::new();
    let mut i: usize = 0;
    proof {
        reveal(Seq::filter);
        assert(views_of(lines@).subrange(0, 0) =~= Seq::<Seq<char>>::empty());
        assert(views_of(out@) =~= Seq::<Seq<char>>::empty());
    }
    while i < n
        invariant
            0 <= i <= n,
            n == lines@.len(),
            views_of(out@) == views_of(lines@).subrange(0, i as int).filter(
                |l: Seq<char>| trimmed(l).len() != 0,
            ),
        decreases n - i,
    {
        let blank = is_blank(lines[i].as_str());
        proof {
            reveal(Seq::filter);
            assert(views_of(lines@).subrange(0, i + 1).drop_last() =~= views_of(
                lines@,
            ).subrange(0, i as int));
            assert(views_of(lines@).subrange(0, i + 1).last() == lines@[i as int]@);
        }
        if !blank {
            out.push(lines[i].clone());
            proof {
                assert(views_of(out@) =~= views_of(out@.drop_last()).push(lines@[i as int]@));
            }
        }
        i = i + 1;
    }
    proof {
        assert(views_of(lines@).subrange(0, n as int) =~= views_of(lines@));
    }
    out
}

/// Whether `c` occurs in `s`.
pub fn contains_char(s: &str, c: char) -> (r: bool)
    ensures
        r == s@.contains(c),
{
    let n = s.unicode_len();
    let mut i: usize = 0;
    while i < n
        invariant
            0 <= i <= n,
            n == s@.len(),
            forall|k: int| 0 <= k < i ==> s@[k] != c,
        decreases n - i,
    {
        if s.get_char(i) == c {
            assert(s@[i as int] == c);
            return true;
        }
        i = i + 1;
    }
    assert(forall|k: int| 0 <= k < s@.len() ==> s@[k] != c);
    false
}

} // verus!
