//! Lines of the client and parser protocols: sanitizing, splitting, and
//! reading counts, flags and player names.

use vstd::prelude::*;
use vstd::string::*;

verus! {

/// `s` with every leading `c` removed.
pub open spec fn strip_leading(s: Seq<char>, c: char) -> Seq<char>
    decreases s.len(),
{
    if s.len() > 0 && s[0] == c {
        strip_leading(s.drop_first(), c)
    } else {
        s
    }
}

/// `s` with every trailing `c` removed.
pub open spec fn strip_trailing(s: Seq<char>, c: char) -> Seq<char>
    decreases s.len(),
{
    if s.len() > 0 && s.last() == c {
        strip_trailing(s.drop_last(), c)
    } else {
        s
    }
}

/// A line without its leading byte-order marks and its trailing line feeds,
/// then carriage returns.
pub open spec fn sanitized(s: Seq<char>) -> Seq<char> {
    strip_trailing(strip_trailing(strip_leading(s, '\u{feff}'), '\n'), '\r')
}

/// `s` with every leading `c` removed.
fn trim_start_char<'a>(s: &'a str, c: char) -> (r: &'a str)
    ensures
        r@ == strip_leading(s@, c),
{
    let n = s.unicode_len();
    let mut i: usize = 0;
    let mut scanning = true;
    assert(s@.subrange(0, n as int) =~= s@);
    while scanning && i < n
        invariant
            i <= n,
            n == s@.len(),
            strip_leading(s@, c) == strip_leading(s@.subrange(i as int, n as int), c),
            !scanning ==> i < n && s@[i as int] != c,
        decreases 2 * (n - i) + if scanning { 1int } else { 0int },
    {
        if s.get_char(i) == c {
            assert(s@.subrange(i as int, n as int).drop_first() =~= s@.subrange(i + 1, n as int));
            i += 1;
        } else {
            scanning = false;
        }
    }
    s.substring_char(i, n)
}

/// `s` with every trailing `c` removed.
fn trim_end_char<'a>(s: &'a str, c: char) -> (r: &'a str)
    ensures
        r@ == strip_trailing(s@, c),
{
    let n = s.unicode_len();
    let mut j: usize = n;
    let mut scanning = true;
    assert(s@.subrange(0, n as int) =~= s@);
    while scanning && j > 0
        invariant
            j <= n,
            n == s@.len(),
            strip_trailing(s@, c) == strip_trailing(s@.subrange(0, j as int), c),
            !scanning ==> j > 0 && s@[j - 1] != c,
        decreases 2 * j + if scanning { 1int } else { 0int },
    {
        if s.get_char(j - 1) == c {
            assert(s@.subrange(0, j as int).drop_last() =~= s@.subrange(0, j - 1));
            j -= 1;
        } else {
            scanning = false;
        }
    }
    s.substring_char(0, j)
}

/// Removes the wrapping that a stream puts around a line: leading
/// byte-order marks, then trailing line feeds, then trailing carriage returns.
pub fn sanitize_string(s: &str) -> (r: String)
    ensures
        r@ == sanitized(s@),
{
    let a = trim_start_char(s, '\u{feff}');
    let b = trim_end_char(a, '\n');
    let c = trim_end_char(b, '\r');
    c.to_owned()
}

/// The pieces of `s` between occurrences of `sep`, the current piece
/// starting with `cur`.
pub open spec fn split_from(s: Seq<char>, sep: char, cur: Seq<char>) -> Seq<Seq<char>>
    decreases s.len(),
{
    if s.len() == 0 {
        seq![cur]
    } else if s[0] == sep {
        seq![cur] + split_from(s.drop_first(), sep, Seq::empty())
    } else {
        split_from(s.drop_first(), sep, cur.push(s[0]))
    }
}

/// The pieces of `s` between occurrences of `sep`; never empty.
pub open spec fn split_on(s: Seq<char>, sep: char) -> Seq<Seq<char>> {
    split_from(s, sep, Seq::empty())
}

/// The character sequences of a list of strings.
pub open spec fn views(v: Seq<String>) -> Seq<Seq<char>> {
    v.map_values(|p: String| p@)
}

/// Splits `s` at every `sep`, keeping empty pieces.
pub fn split_on_char(s: &str, sep: char) -> (r: Vec<String>)
    ensures
        views(r@) == split_on(s@, sep),
{
    let n = s.unicode_len();
    let mut pieces: Vec<String> = Vec::new();
    let mut start: usize = 0;
    let mut i: usize = 0;
    assert(s@.subrange(0, n as int) =~= s@);
    assert(s@.subrange(0, 0) =~= Seq::<char>::empty());
    assert(views(pieces@) + split_on(s@, sep) =~= split_on(s@, sep));
    while i < n
        invariant
            start <= i <= n,
            n == s@.len(),
            views(pieces@) + split_from(
                s@.subrange(i as int, n as int),
                sep,
                s@.subrange(start as int, i as int),
            ) == split_on(s@, sep),
        decreases n - i,
    {
        let c = s.get_char(i);
        let ghost rest = s@.subrange(i as int, n as int);
        let ghost cur = s@.subrange(start as int, i as int);
        assert(rest.drop_first() =~= s@.subrange(i + 1, n as int));
        if c == sep {
            let piece = s.substring_char(start, i).to_owned();
            let ghost before = pieces@;
            pieces.push(piece);
            assert(views(pieces@) =~= views(before).push(cur));
            assert(views(before) + (seq![cur] + split_from(rest.drop_first(), sep, Seq::empty()))
                =~= views(pieces@) + split_from(rest.drop_first(), sep, Seq::empty()));
            assert(s@.subrange(i + 1, i + 1) =~= Seq::<char>::empty());
            start = i + 1;
        } else {
            assert(cur.push(c) =~= s@.subrange(start as int, i + 1));
        }
        i += 1;
    }
    let piece = s.substring_char(start, n).to_owned();
    let ghost before = pieces@;
    pieces.push(piece);
    assert(s@.subrange(n as int, n as int) =~= Seq::<char>::empty());
    assert(views(pieces@) =~= views(before).push(s@.subrange(start as int, n as int)));
    assert(views(pieces@) =~= views(before) + seq![s@.subrange(start as int, n as int)]);
    pieces
}

/// Letters 'A' to 'Z' become 'a' to 'z'; every other character stays.
pub open spec fn ascii_lower_char(c: char) -> char {
    if 'A' <= c && c <= 'Z' {
        ((c as u32) + 32) as char
    } else {
        c
    }
}

pub open spec fn ascii_lower(s: Seq<char>) -> Seq<char> {
    Seq::new(s.len(), |i: int| ascii_lower_char(s[i]))
}

/// Relies on `str::to_ascii_lowercase`: ASCII capitals become small
/// letters, every other character stays.
#[verifier::external_body]
fn ascii_lowercase(s: &str) -> (r: String)
    ensures
        r@ == ascii_lower(s@),
{
    s.to_ascii_lowercase()
}

/// A character with the Unicode White_Space property.
pub open spec fn is_white_space(c: char) -> bool {
    let u = c as u32;
    (9 <= u <= 13) || u == 0x20 || u == 0x85 || u == 0xa0 || u == 0x1680 || (0x2000 <= u
        <= 0x200a) || u == 0x2028 || u == 0x2029 || u == 0x202f || u == 0x205f || u == 0x3000
}

/// `s` without its leading white space.
pub open spec fn strip_leading_white_space(s: Seq<char>) -> Seq<char>
    decreases s.len(),
{
    if s.len() > 0 && is_white_space(s[0]) {
        strip_leading_white_space(s.drop_first())
    } else {
        s
    }
}

/// `s` without its trailing white space.
pub open spec fn strip_trailing_white_space(s: Seq<char>) -> Seq<char>
    decreases s.len(),
{
    if s.len() > 0 && is_white_space(s.last()) {
        strip_trailing_white_space(s.drop_last())
    } else {
        s
    }
}

/// `s` without its leading and trailing white space.
pub open spec fn trimmed(s: Seq<char>) -> Seq<char> {
    strip_trailing_white_space(strip_leading_white_space(s))
}

/// Relies on `str::trim`: leading and trailing characters with the Unicode
/// White_Space property removed.
#[verifier::external_body]
fn trim_whitespace<'a>(s: &'a str) -> (r: &'a str)
    ensures
        r@ == trimmed(s@),
{
    s.trim()
}

/// What `str::to_lowercase` makes of a string.
pub uninterp spec fn lower_of(s: Seq<char>) -> Seq<char>;

/// Relies on `str::to_lowercase`: the Unicode lowercase mapping, a result
/// that depends on the characters alone.
#[verifier::external_body]
fn lowercase(s: &str) -> (r: String)
    ensures
        r@ == lower_of(s@),
{
    s.to_lowercase()
}

/// The lowercase form of a player name.
pub fn lowercase_name(name: &String) -> (r: String)
    ensures
        r@ == lower_of(name@),
{
    lowercase(name.as_str())
}

/// One entry of a filter line: lowercased, then trimmed.
pub open spec fn filter_entry(piece: Seq<char>) -> Seq<char> {
    trimmed(ascii_lower(piece))
}

/// The non-empty entries made of the pieces, in order.
pub open spec fn filter_entries(pieces: Seq<Seq<char>>) -> Seq<Seq<char>>
    decreases pieces.len(),
{
    if pieces.len() == 0 {
        Seq::empty()
    } else {
        let prev = filter_entries(pieces.drop_last());
        let e = filter_entry(pieces.last());
        if e.len() > 0 {
            prev.push(e)
        } else {
            prev
        }
    }
}

/// The names of a filter line: separated by commas, lowercased, trimmed,
/// empty ones dropped. No name means no filtering.
pub open spec fn parse_filter_spec(line: Seq<char>) -> Seq<Seq<char>> {
    filter_entries(split_on(sanitized(line), ','))
}

/// A line that is empty once sanitized asks for no filtering.
pub proof fn lemma_empty_filter_line(line: Seq<char>)
    requires
        sanitized(line).len() == 0,
    ensures
        parse_filter_spec(line).len() == 0,
{
    let pieces = split_on(sanitized(line), ',');
    assert(pieces =~= seq![Seq::<char>::empty()]);
    assert(ascii_lower(Seq::<char>::empty()) =~= Seq::<char>::empty());
    assert(pieces.drop_last() =~= Seq::<Seq<char>>::empty());
    assert(filter_entries(pieces.drop_last()) == Seq::<Seq<char>>::empty());
    assert(strip_leading_white_space(Seq::<char>::empty()) == Seq::<char>::empty());
    assert(strip_trailing_white_space(Seq::<char>::empty()) == Seq::<char>::empty());
    assert(filter_entry(pieces.last()).len() == 0);
}

/// Reads the player-name filter from its line.
pub fn parse_filter(line: &str) -> (r: Vec<String>)
    ensures
        views(r@) == parse_filter_spec(line@),
{
    let clean = sanitize_string(line);
    let pieces = split_on_char(clean.as_str(), ',');
    let ghost all = views(pieces@);
    let mut names: Vec<String> = Vec::new();
    let mut i: usize = 0;
    assert(all.subrange(0, 0) =~= Seq::<Seq<char>>::empty());
    assert(views(names@) =~= Seq::<Seq<char>>::empty());
    while i < pieces.len()
        invariant
            i <= pieces@.len(),
            all == views(pieces@),
            all == split_on(sanitized(line@), ','),
            views(names@) == filter_entries(all.subrange(0, i as int)),
        decreases pieces@.len() - i,
    {
        let lower = ascii_lowercase(pieces[i].as_str());
        let t = trim_whitespace(lower.as_str());
        let ghost before = names@;
        assert(all.subrange(0, i + 1).drop_last() =~= all.subrange(0, i as int));
        assert(all.subrange(0, i + 1).last() == pieces@[i as int]@);
        if t.unicode_len() > 0 {
            names.push(t.to_owned());
            assert(views(names@) =~= views(before).push(t@));
        }
        i += 1;
    }
    assert(all.subrange(0, i as int) =~= all);
    names
}

/// Whether the filter lets the name through: an empty filter lets every
/// name through, another one each name whose lowercase form it holds.
pub open spec fn wanted(filter: Seq<Seq<char>>, name: Seq<char>) -> bool {
    filter.len() == 0 || filter.contains(lower_of(name))
}

/// The names that the filter lets through, in order.
pub open spec fn select_names(names: Seq<Seq<char>>, filter: Seq<Seq<char>>) -> Seq<Seq<char>>
    decreases names.len(),
{
    if names.len() == 0 {
        Seq::empty()
    } else {
        let prev = select_names(names.drop_last(), filter);
        if wanted(filter, names.last()) {
            prev.push(names.last())
        } else {
            prev
        }
    }
}

/// The players of a names line, separated by spaces, that the filter lets
/// through.
pub open spec fn parse_names_spec(line: Seq<char>, filter: Seq<Seq<char>>) -> Seq<Seq<char>> {
    select_names(split_on(sanitized(line), ' '), filter)
}

/// Whether `list` holds `name`.
pub fn contains_name(list: &Vec<String>, name: &String) -> (r: bool)
    ensures
        r == views(list@).contains(name@),
{
    let mut i: usize = 0;
    while i < list.len()
        invariant
            i <= list@.len(),
            forall|j: int| 0 <= j < i ==> list@[j]@ != name@,
        decreases list@.len() - i,
    {
        if list[i].eq(name) {
            assert(views(list@)[i as int] == name@);
            return true;
        }
        i += 1;
    }
    assert(!views(list@).contains(name@)) by {
        if views(list@).contains(name@) {
            let j = choose|j: int| 0 <= j < views(list@).len() && views(list@)[j] == name@;
            assert(list@[j]@ == name@);
        }
    }
    false
}

/// Reads the players of a names line that the filter lets through.
pub fn parse_names(line: &str, filter: &Vec<String>) -> (r: Vec<String>)
    ensures
        views(r@) == parse_names_spec(line@, views(filter@)),
{
    let clean = sanitize_string(line);
    let pieces = split_on_char(clean.as_str(), ' ');
    let ghost all = views(pieces@);
    let mut names: Vec<String> = Vec::new();
    let mut i: usize = 0;
    assert(all.subrange(0, 0) =~= Seq::<Seq<char>>::empty());
    assert(views(names@) =~= Seq::<Seq<char>>::empty());
    while i < pieces.len()
        invariant
            i <= pieces@.len(),
            all == views(pieces@),
            all == split_on(sanitized(line@), ' '),
            views(names@) == select_names(all.subrange(0, i as int), views(filter@)),
        decreases pieces@.len() - i,
    {
        let ghost before = names@;
        assert(all.subrange(0, i + 1).drop_last() =~= all.subrange(0, i as int));
        assert(all.subrange(0, i + 1).last() == pieces@[i as int]@);
        let keep = if filter.len() == 0 {
            true
        } else {
            let lower = lowercase(pieces[i].as_str());
            contains_name(filter, &lower)
        };
        if keep {
            names.push(pieces[i].clone());
            assert(views(names@) =~= views(before).push(pieces@[i as int]@));
        }
        i += 1;
    }
    assert(all.subrange(0, i as int) =~= all);
    names
}

/// One of the characters '0' to '9'.
pub open spec fn is_digit(c: char) -> bool {
    48 <= c as u32 <= 57
}

pub open spec fn digit_value(c: char) -> nat {
    (c as u32 - 48) as nat
}

/// The number that a string of decimal digits writes.
pub open spec fn digits_value(s: Seq<char>) -> nat
    decreases s.len(),
{
    if s.len() == 0 {
        0
    } else {
        digits_value(s.drop_last()) * 10 + digit_value(s.last())
    }
}

/// The digits of a count, after an optional plus sign.
pub open spec fn unsigned_part(s: Seq<char>) -> Seq<char> {
    if s.len() > 0 && s[0] == '+' {
        s.drop_first()
    } else {
        s
    }
}

/// The value of a decimal count as `usize` parsing reads it: an optional
/// plus sign, then at least one digit and nothing else, within range.
pub open spec fn count_value(s: Seq<char>) -> Option<usize> {
    let d = unsigned_part(s);
    if d.len() > 0 && (forall|i: int| 0 <= i < d.len() ==> is_digit(#[trigger] d[i]))
        && digits_value(d) <= usize::MAX {
        Some(digits_value(d) as usize)
    } else {
        None
    }
}

/// Reads a decimal count.
pub fn parse_count(s: &str) -> (r: Option<usize>)
    ensures
        r == count_value(s@),
{
    let n = s.unicode_len();
    let mut start: usize = 0;
    if n > 0 && s.get_char(0) == '+' {
        start = 1;
    }
    let ghost d = unsigned_part(s@);
    assert(d =~= s@.subrange(start as int, n as int));
    if start == n {
        return None;
    }
    let mut value: usize = 0;
    let mut overflow = false;
    let mut j: usize = start;
    assert(s@.subrange(start as int, start as int) =~= Seq::<char>::empty());
    while j < n
        invariant
            start <= j <= n,
            n == s@.len(),
            d == s@.subrange(start as int, n as int),
            d == unsigned_part(s@),
            forall|i: int| start <= i < j ==> is_digit(#[trigger] s@[i]),
            !overflow ==> value == digits_value(s@.subrange(start as int, j as int)),
            overflow ==> digits_value(s@.subrange(start as int, j as int)) > usize::MAX,
        decreases n - j,
    {
        let c = s.get_char(j);
        let code = c as u32;
        if code < 48 || code > 57 {
            assert(!is_digit(d[j - start]));
            return None;
        }
        let digit = (code - 48) as usize;
        let ghost prefix = s@.subrange(start as int, j + 1);
        assert(prefix.drop_last() =~= s@.subrange(start as int, j as int));
        assert(digits_value(prefix) == digits_value(s@.subrange(start as int, j as int)) * 10
            + digit);
        if !overflow {
            match value.checked_mul(10) {
                Some(m) => match m.checked_add(digit) {
                    Some(v) => {
                        value = v;
                    },
                    None => {
                        overflow = true;
                    },
                },
                None => {
                    overflow = true;
                },
            }
        }
        j += 1;
    }
    assert(s@.subrange(start as int, n as int) == d);
    assert forall|i: int| 0 <= i < d.len() implies is_digit(#[trigger] d[i]) by {
        assert(d[i] == s@[start + i]);
    }
    if overflow {
        None
    } else {
        Some(value)
    }
}

/// The value of a flag line: exactly `true` or `false`.
pub open spec fn flag_value(s: Seq<char>) -> Option<bool> {
    if s == "true"@ {
        Some(true)
    } else if s == "false"@ {
        Some(false)
    } else {
        None
    }
}

/// Reads a flag.
pub fn parse_flag(s: &String) -> (r: Option<bool>)
    ensures
        r == flag_value(s@),
{
    let t = "true".to_owned();
    let f = "false".to_owned();
    if s.eq(&t) {
        Some(true)
    } else if s.eq(&f) {
        Some(false)
    } else {
        None
    }
}

} // verus!
