//! Character-level text operations shared by the rest of the library.
use vstd::prelude::*;

verus! {

/// Appends one character: `String::push`, which the standard library documents as
/// appending the given `char` to the end of the string.
#[verifier::external_body]
pub(crate) fn push_char(s: &mut String, c: char)
    ensures
        final(s)@ == old(s)@.push(c),
{
    s.push(c);
}

/// What `str::to_lowercase` returns for a string: its Unicode lowercase mapping.
pub uninterp spec fn lowercase(s: Seq<char>) -> Seq<char>;

/// What `str::to_uppercase` returns for a string: its Unicode uppercase mapping.
pub uninterp spec fn uppercase(s: Seq<char>) -> Seq<char>;

/// Every character of `s` is ASCII.
pub open spec fn all_ascii(s: Seq<char>) -> bool {
    forall|i: int| 0 <= i < s.len() ==> (#[trigger] s[i] as int) < 128
}

/// The ASCII lowercase of `c`: `A`..`Z` become `a`..`z`, anything else stays.
pub open spec fn ascii_lower_char(c: char) -> char {
    if 'A' <= c && c <= 'Z' {
        ((c as int) + 32) as char
    } else {
        c
    }
}

/// The ASCII uppercase of `c`: `a`..`z` become `A`..`Z`, anything else stays.
pub open spec fn ascii_upper_char(c: char) -> char {
    if 'a' <= c && c <= 'z' {
        ((c as int) - 32) as char
    } else {
        c
    }
}

/// `s` with every ASCII capital made small.
pub open spec fn ascii_lower(s: Seq<char>) -> Seq<char> {
    s.map_values(|c: char| ascii_lower_char(c))
}

/// `s` with every ASCII small letter made capital.
pub open spec fn ascii_upper(s: Seq<char>) -> Seq<char> {
    s.map_values(|c: char| ascii_upper_char(c))
}

/// Lowercasing ASCII text twice is lowercasing it once, and keeps it ASCII.
pub proof fn lemma_ascii_lower_idempotent(s: Seq<char>)
    requires
        all_ascii(s),
    ensures
        all_ascii(ascii_lower(s)),
        ascii_lower(ascii_lower(s)) == ascii_lower(s),
{
    assert(ascii_lower(ascii_lower(s)) =~= ascii_lower(s));
}

/// `str::to_lowercase`: the Unicode lowercase form of `s`. The result is named: it follows
/// Unicode's case tables, under which ASCII text lowercases letter by letter, `A`..`Z` to
/// `a`..`z`, with every other ASCII character kept.
#[verifier::external_body]
pub(crate) fn to_lowercase(s: &str) -> (res: String)
    ensures
        res@ == lowercase(s@),
        all_ascii(s@) ==> res@ == ascii_lower(s@),
{
    s.to_lowercase()
}

/// `str::to_uppercase`: the Unicode uppercase form of `s`. The result is named: it follows
/// Unicode's case tables, under which ASCII text uppercases letter by letter, `a`..`z` to
/// `A`..`Z`, with every other ASCII character kept.
#[verifier::external_body]
pub(crate) fn to_uppercase(s: &str) -> (res: String)
    ensures
        res@ == uppercase(s@),
        all_ascii(s@) ==> res@ == ascii_upper(s@),
{
    s.to_uppercase()
}

/// Whether two strings hold the same characters.
pub fn same_text(a: &str, b: &str) -> (res: bool)
    ensures
        res == (a@ == b@),
{
    let x = String::from_str(a);
    let y = String::from_str(b);
    x == y
}

/// The characters of `s` after its last `sep`; all of `s` where `sep` does not occur.
/// This is the last piece of `s` split at `sep`.
pub open spec fn after_last(s: Seq<char>, sep: char) -> Seq<char>
    decreases s.len(),
{
    if s.len() == 0 {
        s
    } else if s.last() == sep {
        Seq::empty()
    } else {
        after_last(s.drop_last(), sep).push(s.last())
    }
}

/// The piece after the last `sep` is the suffix of `s` that holds no `sep` and starts right
/// after a `sep`, or at the start of `s` where `s` holds no `sep` at all.
pub proof fn lemma_after_last_suffix(s: Seq<char>, sep: char)
    ensures
        after_last(s, sep).len() <= s.len(),
        after_last(s, sep) == s.skip(s.len() - after_last(s, sep).len()),
        !after_last(s, sep).contains(sep),
        after_last(s, sep).len() < s.len() ==> s[s.len() - after_last(s, sep).len() - 1] == sep,
        after_last(s, sep).len() == s.len() ==> !s.contains(sep),
    decreases s.len(),
{
    if s.len() > 0 && s.last() != sep {
        let rest = s.drop_last();
        lemma_after_last_suffix(rest, sep);
        let a = after_last(rest, sep);
        if a.len() < rest.len() {
            assert(s[s.len() - a.len() - 2] == rest[rest.len() - a.len() - 1]);
        } else if s.contains(sep) {
            let k = choose|k: int| 0 <= k < s.len() && s[k] == sep;
            assert(rest[k] == sep);
        }
        assert(after_last(s, sep) =~= rest.skip(rest.len() - a.len()).push(s.last()));
        assert(after_last(s, sep) =~= s.skip(s.len() - a.len() - 1));
        if after_last(s, sep).contains(sep) {
            let k = choose|k: int| 0 <= k < after_last(s, sep).len() && after_last(s, sep)[k] == sep;
            if k < a.len() {
                assert(a[k] == sep);
            }
        }
    } else if s.len() > 0 {
        assert(s.skip(s.len() as int) =~= Seq::<char>::empty());
    } else {
        assert(s.skip(0) =~= s);
    }
}

/// The characters of `s` after its first `sep`; nothing where `sep` does not occur.
/// This is what joining all pieces but the first of `s` split at `sep` gives back.
pub open spec fn after_first(s: Seq<char>, sep: char) -> Seq<char>
    decreases s.len(),
{
    if s.len() == 0 {
        s
    } else if s[0] == sep {
        s.drop_first()
    } else {
        after_first(s.drop_first(), sep)
    }
}

/// `s` with every `from` replaced by `to`.
pub open spec fn replace_char(s: Seq<char>, from: char, to: char) -> Seq<char> {
    s.map_values(|c: char| if c == from { to } else { c })
}

/// Replacing `from` by `to` changes exactly the characters equal to `from`: every other
/// character stays where it was, and the length is kept.
pub proof fn lemma_replace_char_changes_only_from(s: Seq<char>, from: char, to: char)
    ensures
        replace_char(s, from, to).len() == s.len(),
        forall|i: int|
            0 <= i < s.len() ==> #[trigger] replace_char(s, from, to)[i] == if s[i] == from {
                to
            } else {
                s[i]
            },
{
}

/// The piece of `s` after its last `sep` (all of `s` without one).
pub fn last_piece(s: &str, sep: char) -> (res: String)
    ensures
        res@ == after_last(s@, sep),
{
    let mut res = String::new();
    let ghost mut seen: Seq<char> = Seq::empty();
    for c in it: s.chars()
        invariant
            it.seq() == s@,
            seen == s@.take(it.index() as int),
            res@ == after_last(seen, sep),
    {
        proof {
            assert(seen.push(c).drop_last() == seen);
            seen = seen.push(c);
        }
        if c == sep {
            res = String::new();
        } else {
            push_char(&mut res, c);
        }
    }
    assert(seen == s@);
    res
}

proof fn lemma_after_first_append(s: Seq<char>, sep: char, c: char)
    ensures
        after_first(s.push(c), sep) == if s.contains(sep) {
            after_first(s, sep).push(c)
        } else {
            Seq::<char>::empty()
        },
        !s.contains(sep) ==> after_first(s, sep) == Seq::<char>::empty(),
    decreases s.len(),
{
    if s.len() == 0 {
        assert(s.push(c).drop_first() =~= Seq::<char>::empty());
        if c != sep {
            assert(after_first(s.push(c).drop_first(), sep) == Seq::<char>::empty());
        }
    } else {
        assert(s.push(c).drop_first() =~= s.drop_first().push(c));
        lemma_after_first_append(s.drop_first(), sep, c);
        if s[0] == sep {
            assert(s.contains(sep)) by { assert(s[0] == sep); }
            assert(s.push(c).drop_first() =~= s.drop_first().push(c));
        } else {
            assert(s.contains(sep) == s.drop_first().contains(sep)) by {
                if s.contains(sep) {
                    let k = choose|k: int| 0 <= k < s.len() && s[k] == sep;
                    assert(s.drop_first()[k - 1] == sep);
                }
                if s.drop_first().contains(sep) {
                    let k = choose|k: int| 0 <= k < s.drop_first().len() && s.drop_first()[k] == sep;
                    assert(s[k + 1] == sep);
                }
            }
        }
    }
}

/// The characters of `s` after its first `sep` (none without one).
pub fn piece_after_first(s: &str, sep: char) -> (res: String)
    ensures
        res@ == after_first(s@, sep),
{
    let mut res = String::new();
    let mut found = false;
    let ghost mut seen: Seq<char> = Seq::empty();
    for c in it: s.chars()
        invariant
            it.seq() == s@,
            seen == s@.take(it.index() as int),
            found == seen.contains(sep),
            res@ == after_first(seen, sep),
    {
        proof {
            lemma_after_first_append(seen, sep, c);
            assert(seen.push(c).contains(sep) == (seen.contains(sep) || c == sep)) by {
                if seen.push(c).contains(sep) && !(c == sep) {
                    let k = choose|k: int| 0 <= k < seen.push(c).len() && seen.push(c)[k] == sep;
                    assert(seen[k] == sep);
                }
                if c == sep {
                    assert(seen.push(c)[seen.len() as int] == sep);
                }
                if seen.contains(sep) {
                    let k = choose|k: int| 0 <= k < seen.len() && seen[k] == sep;
                    assert(seen.push(c)[k] == sep);
                }
            }
            seen = seen.push(c);
        }
        if found {
            push_char(&mut res, c);
        } else if c == sep {
            found = true;
        }
    }
    assert(seen == s@);
    res
}

/// `s` with every `from` replaced by `to`.
pub fn replace_chars(s: &str, from: char, to: char) -> (res: String)
    ensures
        res@ == replace_char(s@, from, to),
{
    let mut res = String::new();
    for c in it: s.chars()
        invariant
            it.seq() == s@,
            res@ == replace_char(s@.take(it.index() as int), from, to),
    {
        proof {
            assert(s@.take(it.index() + 1) =~= s@.take(it.index() as int).push(c));
        }
        if c == from {
            push_char(&mut res, to);
        } else {
            push_char(&mut res, c);
        }
        assert(res@ =~= replace_char(s@.take(it.index() + 1), from, to));
    }
    assert(s@.take(s@.len() as int) =~= s@);
    res
}

/// The decimal digit for `d`.
pub open spec fn digit_char(d: nat) -> char {
    seq!['0', '1', '2', '3', '4', '5', '6', '7', '8', '9'][d as int]
}

/// `n` written in decimal, without leading zeros: what `Display` gives for an integer.
pub open spec fn decimal(n: nat) -> Seq<char>
    decreases n,
{
    if n < 10 {
        seq![digit_char(n)]
    } else {
        decimal(n / 10).push(digit_char(n % 10))
    }
}

fn digit(d: usize) -> (c: char)
    requires
        d < 10,
    ensures
        c == digit_char(d as nat),
{
    match d {
        0 => '0',
        1 => '1',
        2 => '2',
        3 => '3',
        4 => '4',
        5 => '5',
        6 => '6',
        7 => '7',
        8 => '8',
        _ => '9',
    }
}

/// Appends `n` in decimal to `s`.
pub fn push_decimal(s: &mut String, n: usize)
    ensures
        final(s)@ == old(s)@ + decimal(n as nat),
    decreases n,
{
    if n >= 10 {
        push_decimal(s, n / 10);
    }
    push_char(s, digit(n % 10));
    assert(s@ =~= old(s)@ + decimal(n as nat));
}

/// Concatenation of `lines`, with `sep` between each two.
pub open spec fn joined(lines: Seq<Seq<char>>, sep: Seq<char>) -> Seq<char>
    decreases lines.len(),
{
    if lines.len() == 0 {
        Seq::empty()
    } else if lines.len() == 1 {
        lines[0]
    } else {
        joined(lines.drop_last(), sep) + sep + lines.last()
    }
}

/// The strings of `lines` joined with `sep` between each two.
pub fn join_with(lines: &Vec<String>, sep: &str) -> (res: String)
    ensures
        res@ == joined(lines.deep_view(), sep@),
{
    let mut res = String::new();
    let ghost all = lines.deep_view();
    let mut i: usize = 0;
    while i < lines.len()
        invariant
            i <= lines.len(),
            all == lines.deep_view(),
            all.len() == lines.len(),
            res@ == joined(all.take(i as int), sep@),
        decreases lines.len() - i,
    {
        assert(all.take(i + 1).drop_last() =~= all.take(i as int));
        assert(all[i as int] == lines[i as int]@);
        if i != 0 {
            res.append(sep);
        } else {
            assert(all.take(0) =~= Seq::<Seq<char>>::empty());
        }
        res.append(lines[i].as_str());
        i = i + 1;
    }
    assert(all.take(lines.len() as int) =~= all);
    res
}

} // verus!
