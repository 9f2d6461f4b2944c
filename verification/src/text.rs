//! Text as sequences of characters: splitting, joining, comparing without
//! regard to ASCII case, and whole numbers in decimal.

use vstd::prelude::*;
use vstd::string::*;

verus! {

/// `String::push` of the standard library appends the character it is given.
pub assume_specification[ String::push ](s: &mut String, c: char)
    ensures
        final(s)@ == old(s)@.push(c),
;

// ---------------------------------------------------------------- characters

/// The ASCII lower-case form of a character; others stand for themselves.
pub open spec fn lower(c: char) -> char {
    if 'A' <= c <= 'Z' {
        (c as u32 + 32) as char
    } else {
        c
    }
}

/// Equal up to ASCII case.
pub open spec fn same_letters(a: Seq<char>, b: Seq<char>) -> bool {
    a.len() == b.len() && forall|i: int| 0 <= i < a.len() ==> lower(#[trigger] a[i]) == lower(b[i])
}

pub open spec fn is_digit(c: char) -> bool {
    '0' <= c <= '9'
}

/// The characters of a string.
pub fn chars_of(s: &str) -> (r: Vec<char>)
    ensures
        r@ == s@,
{
    let mut r: Vec<char> = Vec::new();
    for c in it: s.chars()
        invariant
            r@ == it.seq().take(it.index() as int),
            it.seq() == s@,
    {
        r.push(c);
        proof {
            assert(it.seq().take(it.index() as int + 1) =~= it.seq().take(it.index() as int).push(
                c,
            ));
        }
    }
    r
}

/// The string made of the given characters.
pub fn text_of(v: &Vec<char>) -> (r: String)
    ensures
        r@ == v@,
{
    let mut r: String = String::new();
    let mut i: usize = 0;
    while i < v.len()
        invariant
            i <= v.len(),
            r@ == v@.take(i as int),
        decreases v.len() - i,
    {
        r.push(v[i]);
        assert(v@.take(i + 1) =~= v@.take(i as int).push(v@[i as int]));
        i = i + 1;
    }
    assert(v@.take(v@.len() as int) =~= v@);
    r
}

fn lower_of(c: char) -> (r: char)
    ensures
        r == lower(c),
{
    if 'A' <= c && c <= 'Z' {
        (c as u8 + 32) as char
    } else {
        c
    }
}

/// Equality of character vectors.
pub fn same_text(a: &Vec<char>, b: &Vec<char>) -> (r: bool)
    ensures
        r == (a@ == b@),
{
    if a.len() != b.len() {
        return false;
    }
    let mut i: usize = 0;
    while i < a.len()
        invariant
            i <= a.len(),
            a.len() == b.len(),
            forall|j: int| 0 <= j < i ==> a@[j] == b@[j],
        decreases a.len() - i,
    {
        if a[i] != b[i] {
            return false;
        }
        i = i + 1;
    }
    assert(a@ =~= b@);
    true
}

/// Whether the characters spell out `literal`.
pub fn spells(a: &Vec<char>, literal: &str) -> (r: bool)
    ensures
        r == (a@ == literal@),
{
    let b: Vec<char> = chars_of(literal);
    same_text(a, &b)
}

/// Equality up to ASCII case.
pub fn same_ignoring_case(a: &Vec<char>, b: &Vec<char>) -> (r: bool)
    ensures
        r == same_letters(a@, b@),
{
    if a.len() != b.len() {
        return false;
    }
    let mut i: usize = 0;
    while i < a.len()
        invariant
            i <= a.len(),
            a.len() == b.len(),
            forall|j: int| 0 <= j < i ==> lower(#[trigger] a@[j]) == lower(b@[j]),
        decreases a.len() - i,
    {
        if lower_of(a[i]) != lower_of(b[i]) {
            return false;
        }
        i = i + 1;
    }
    true
}

/// The characters from `from` up to, not with, `to`.
pub fn slice_of(v: &Vec<char>, from: usize, to: usize) -> (r: Vec<char>)
    requires
        from <= to <= v.len(),
    ensures
        r@ == v@.subrange(from as int, to as int),
{
    let mut r: Vec<char> = Vec::new();
    let mut i: usize = from;
    while i < to
        invariant
            from <= i <= to <= v.len(),
            r@ == v@.subrange(from as int, i as int),
        decreases to - i,
    {
        r.push(v[i]);
        assert(v@.subrange(from as int, i + 1) =~= v@.subrange(from as int, i as int).push(
            v@[i as int],
        ));
        i = i + 1;
    }
    r
}

/// Appends every character of `b` to `a`.
pub fn extend(a: &mut Vec<char>, b: &Vec<char>)
    ensures
        final(a)@ == old(a)@ + b@,
{
    let ghost start = a@;
    let mut i: usize = 0;
    while i < b.len()
        invariant
            i <= b.len(),
            a@ == start + b@.take(i as int),
        decreases b.len() - i,
    {
        a.push(b[i]);
        assert(start + b@.take(i + 1) =~= (start + b@.take(i as int)).push(b@[i as int]));
        i = i + 1;
    }
    assert(b@.take(b@.len() as int) =~= b@);
}

/// Appends a string to `a`.
pub fn extend_str(a: &mut Vec<char>, b: &str)
    ensures
        final(a)@ == old(a)@ + b@,
{
    let c: Vec<char> = chars_of(b);
    extend(a, &c);
}

/// What follows `prefix`, where the text starts with it.
pub open spec fn after_prefix(s: Seq<char>, prefix: Seq<char>) -> Option<Seq<char>> {
    if prefix.is_prefix_of(s) {
        Some(s.skip(prefix.len() as int))
    } else {
        None
    }
}

/// What follows `prefix`, where the text starts with it.
pub fn strip_prefix(s: &Vec<char>, prefix: &str) -> (r: Option<Vec<char>>)
    ensures
        match r {
            Some(rest) => after_prefix(s@, prefix@) == Some(rest@),
            None => after_prefix(s@, prefix@) is None,
        },
{
    let p: Vec<char> = chars_of(prefix);
    if p.len() > s.len() {
        return None;
    }
    let head: Vec<char> = slice_of(s, 0, p.len());
    if same_text(&head, &p) {
        assert(s@.skip(p@.len() as int) =~= s@.subrange(p@.len() as int, s@.len() as int));
        Some(slice_of(s, p.len(), s.len()))
    } else {
        None
    }
}

// ---------------------------------------------------------------- pieces

/// The pieces of `s` between occurrences of `sep`: one more piece than there
/// are separators.
pub open spec fn split(s: Seq<char>, sep: char) -> Seq<Seq<char>>
    decreases s.len(),
{
    if s.len() == 0 {
        seq![Seq::<char>::empty()]
    } else {
        let before = split(s.drop_last(), sep);
        if s.last() == sep {
            before.push(Seq::<char>::empty())
        } else {
            before.drop_last().push(before.last().push(s.last()))
        }
    }
}

/// The parts with one `sep` between neighbours.
pub open spec fn join(parts: Seq<Seq<char>>, sep: char) -> Seq<char>
    decreases parts.len(),
{
    if parts.len() == 0 {
        Seq::empty()
    } else if parts.len() == 1 {
        parts[0]
    } else {
        join(parts.drop_last(), sep).push(sep) + parts.last()
    }
}

/// The character views of a list of character vectors.
pub open spec fn views(v: Seq<Vec<char>>) -> Seq<Seq<char>> {
    v.map_values(|x: Vec<char>| x@)
}

/// The pieces of `s` between occurrences of `sep`.
pub fn pieces(s: &Vec<char>, sep: char) -> (r: Vec<Vec<char>>)
    ensures
        views(r@) == split(s@, sep),
{
    let mut done: Vec<Vec<char>> = Vec::new();
    let mut current: Vec<char> = Vec::new();
    let mut i: usize = 0;
    while i < s.len()
        invariant
            i <= s.len(),
            views(done@).push(current@) == split(s@.take(i as int), sep),
        decreases s.len() - i,
    {
        let c: char = s[i];
        assert(s@.take(i + 1).drop_last() =~= s@.take(i as int));
        let ghost before = views(done@).push(current@);
        assert(before.drop_last() =~= views(done@));
        if c == sep {
            let mut fresh: Vec<char> = Vec::new();
            std::mem::swap(&mut fresh, &mut current);
            done.push(fresh);
            assert(views(done@) =~= before);
        } else {
            current.push(c);
        }
        i = i + 1;
    }
    assert(s@.take(s@.len() as int) =~= s@);
    let ghost all = views(done@).push(current@);
    done.push(current);
    assert(views(done@) =~= all);
    done
}

/// The parts with one `sep` between neighbours.
pub fn joined(parts: &Vec<Vec<char>>, sep: char) -> (r: Vec<char>)
    ensures
        r@ == join(views(parts@), sep),
{
    let mut r: Vec<char> = Vec::new();
    let mut i: usize = 0;
    while i < parts.len()
        invariant
            i <= parts.len(),
            r@ == join(views(parts@).take(i as int), sep),
        decreases parts.len() - i,
    {
        let ghost next = views(parts@).take(i + 1);
        assert(next.drop_last() =~= views(parts@).take(i as int));
        if i > 0 {
            r.push(sep);
        }
        extend(&mut r, &parts[i]);
        assert(r@ =~= join(next, sep));
        i = i + 1;
    }
    assert(views(parts@).take(parts@.len() as int) =~= views(parts@));
    r
}

/// No separator occurs in `s`.
pub open spec fn free_of(s: Seq<char>, sep: char) -> bool {
    forall|i: int| 0 <= i < s.len() ==> s[i] != sep
}

/// A separator-free tail joins the last piece.
pub proof fn split_then_tail(a: Seq<char>, b: Seq<char>, sep: char)
    requires
        free_of(b, sep),
    ensures
        split(a, sep).len() > 0,
        split(a + b, sep) == split(a, sep).drop_last().push(split(a, sep).last() + b),
    decreases b.len(),
{
    split_is_not_empty(a, sep);
    if b.len() == 0 {
        assert(a + b =~= a);
        assert(split(a, sep).last() + b =~= split(a, sep).last());
        assert(split(a, sep).drop_last().push(split(a, sep).last()) =~= split(a, sep));
    } else {
        let c = b.drop_last();
        assert(free_of(c, sep));
        split_then_tail(a, c, sep);
        assert((a + b).drop_last() =~= a + c);
        assert((a + b).last() == b.last());
        let p = split(a + c, sep);
        assert(p.drop_last() =~= split(a, sep).drop_last());
        assert((split(a, sep).last() + c).push(b.last()) =~= split(a, sep).last() + b);
    }
}

pub proof fn split_is_not_empty(s: Seq<char>, sep: char)
    ensures
        split(s, sep).len() > 0,
    decreases s.len(),
{
    if s.len() > 0 {
        split_is_not_empty(s.drop_last(), sep);
    }
}

/// Splitting what was joined gives the parts back, as long as no part holds
/// the separator.
pub proof fn split_undoes_join(parts: Seq<Seq<char>>, sep: char)
    requires
        parts.len() > 0,
        forall|i: int| 0 <= i < parts.len() ==> free_of(#[trigger] parts[i], sep),
    ensures
        split(join(parts, sep), sep) == parts,
    decreases parts.len(),
{
    if parts.len() == 1 {
        split_then_tail(Seq::empty(), parts[0], sep);
        assert(Seq::<char>::empty() + parts[0] =~= parts[0]);
        assert(split(Seq::<char>::empty(), sep) =~= seq![Seq::<char>::empty()]);
        assert(split(parts[0], sep) =~= parts);
    } else {
        let front = parts.drop_last();
        assert forall|i: int| 0 <= i < front.len() implies free_of(#[trigger] front[i], sep) by {
            assert(front[i] == parts[i]);
        }
        split_undoes_join(front, sep);
        let head = join(front, sep).push(sep);
        assert(head.drop_last() =~= join(front, sep));
        assert(split(head, sep) =~= front.push(Seq::<char>::empty()));
        split_then_tail(head, parts.last(), sep);
        assert(Seq::<char>::empty() + parts.last() =~= parts.last());
        assert(front.push(Seq::<char>::empty()).drop_last() =~= front);
        assert(front.push(parts.last()) =~= parts);
    }
}

/// Joining the pieces gives the text back, and no piece holds the separator.
pub proof fn join_undoes_split(s: Seq<char>, sep: char)
    ensures
        join(split(s, sep), sep) == s,
        forall|i: int| 0 <= i < split(s, sep).len() ==> free_of(#[trigger] split(s, sep)[i], sep),
    decreases s.len(),
{
    if s.len() == 0 {
    } else {
        let before = split(s.drop_last(), sep);
        let all = split(s, sep);
        join_undoes_split(s.drop_last(), sep);
        split_is_not_empty(s.drop_last(), sep);
        if s.last() == sep {
            assert(all.drop_last() =~= before);
            assert(join(all, sep) =~= s);
        } else {
            assert(all.drop_last() =~= before.drop_last());
            assert(join(all, sep) =~= join(before, sep).push(s.last()));
            assert(s.drop_last().push(s.last()) =~= s);
        }
        assert forall|i: int| 0 <= i < all.len() implies free_of(#[trigger] all[i], sep) by {
            if i < before.len() {
                assert(free_of(before[i], sep));
            }
        }
    }
}

/// Where `c` first occurs in `s`, or its length where it does not.
pub open spec fn find(s: Seq<char>, c: char) -> int
    decreases s.len(),
{
    if s.len() == 0 || s[0] == c {
        0
    } else {
        1 + find(s.drop_first(), c)
    }
}

/// What `find` finds: a place where `c` stands and before which it does not.
pub proof fn find_is_first(s: Seq<char>, c: char)
    ensures
        0 <= find(s, c) <= s.len(),
        find(s, c) < s.len() ==> s[find(s, c)] == c,
        forall|j: int| 0 <= j < find(s, c) ==> s[j] != c,
    decreases s.len(),
{
    if s.len() == 0 || s[0] == c {
    } else {
        let t = s.drop_first();
        find_is_first(t, c);
        assert forall|j: int| 0 <= j < find(s, c) implies s[j] != c by {
            if j > 0 {
                assert(t[j - 1] == s[j]);
            }
        }
    }
}

/// The first place of a character is the only one with none before it.
pub proof fn find_is_unique(s: Seq<char>, c: char, i: int)
    requires
        0 <= i <= s.len(),
        i < s.len() ==> s[i] == c,
        forall|j: int| 0 <= j < i ==> s[j] != c,
    ensures
        find(s, c) == i,
{
    find_is_first(s, c);
}

/// The text before and after the first `sep`, where there is one.
pub open spec fn halves(s: Seq<char>, sep: char) -> Option<(Seq<char>, Seq<char>)> {
    let i = find(s, sep);
    if i < s.len() {
        Some((s.take(i), s.skip(i + 1)))
    } else {
        None
    }
}

/// The text before and after the first `sep`, where there is one.
pub fn split_once(s: &Vec<char>, sep: char) -> (r: Option<(Vec<char>, Vec<char>)>)
    ensures
        match r {
            Some(h) => halves(s@, sep) == Some((h.0@, h.1@)),
            None => halves(s@, sep) is None,
        },
{
    let mut i: usize = 0;
    while i < s.len()
        invariant
            i <= s.len(),
            forall|j: int| 0 <= j < i ==> s@[j] != sep,
        decreases s.len() - i,
    {
        if s[i] == sep {
            proof {
                find_is_unique(s@, sep, i as int);
                assert(s@.take(i as int) =~= s@.subrange(0, i as int));
                assert(s@.skip(i + 1) =~= s@.subrange(i + 1, s@.len() as int));
            }
            return Some((slice_of(s, 0, i), slice_of(s, i + 1, s.len())));
        }
        i = i + 1;
    }
    proof {
        find_is_unique(s@, sep, i as int);
    }
    None
}

/// Cutting a key off at its first separator gives the key back.
pub proof fn halves_of_pair(key: Seq<char>, sep: char, value: Seq<char>)
    requires
        free_of(key, sep),
    ensures
        halves(key.push(sep) + value, sep) == Some((key, value)),
{
    let s = key.push(sep) + value;
    find_is_unique(s, sep, key.len() as int);
    assert(s.take(key.len() as int) =~= key);
    assert(s.skip(key.len() as int + 1) =~= value);
}

// ---------------------------------------------------------------- lines

/// A line without the carriage return that a line feed leaves before it.
pub open spec fn without_return(s: Seq<char>) -> Seq<char> {
    if s.len() > 0 && s.last() == '\r' {
        s.drop_last()
    } else {
        s
    }
}

/// The lines of a text: each ends at a line feed, with or without a carriage
/// return before it; text after the last line feed is a line of its own.
pub open spec fn lines(s: Seq<char>) -> Seq<Seq<char>> {
    let p = split(s, '\n');
    let ended = p.drop_last().map_values(|x: Seq<char>| without_return(x));
    if p.last().len() == 0 {
        ended
    } else {
        ended.push(p.last())
    }
}

/// The lines of a text.
pub fn lines_of(s: &Vec<char>) -> (r: Vec<Vec<char>>)
    ensures
        views(r@) == lines(s@),
{
    let p: Vec<Vec<char>> = pieces(s, '\n');
    let ghost all = split(s@, '\n');
    let ghost f = |x: Seq<char>| without_return(x);
    let mut r: Vec<Vec<char>> = Vec::new();
    proof {
        split_is_not_empty(s@, '\n');
        assert(p@.len() == views(p@).len());
    }
    let mut i: usize = 0;
    while i + 1 < p.len()
        invariant
            i + 1 <= p.len(),
            views(p@) == all,
            f == (|x: Seq<char>| without_return(x)),
            views(r@) == all.take(i as int).map_values(f),
        decreases p.len() - i,
    {
        let line: &Vec<char> = &p[i];
        assert(line@ == all[i as int]);
        let n: usize = line.len();
        let kept: Vec<char> = if n > 0 && line[n - 1] == '\r' {
            slice_of(line, 0, n - 1)
        } else {
            slice_of(line, 0, n)
        };
        assert(kept@ =~= without_return(line@));
        let ghost before = views(r@);
        r.push(kept);
        assert(views(r@) =~= before.push(kept@));
        assert(all.take(i + 1).map_values(f) =~= all.take(i as int).map_values(f).push(kept@));
        i = i + 1;
    }
    assert(all.take(i as int) =~= all.drop_last());
    let last: &Vec<char> = &p[i];
    assert(last@ == all.last());
    if last.len() > 0 {
        let kept: Vec<char> = slice_of(last, 0, last.len());
        assert(kept@ =~= last@);
        let ghost before = views(r@);
        r.push(kept);
        assert(views(r@) =~= before.push(kept@));
    }
    r
}

/// The parts, each followed by one `end`.
pub open spec fn ended(parts: Seq<Seq<char>>, end: char) -> Seq<char>
    decreases parts.len(),
{
    if parts.len() == 0 {
        Seq::empty()
    } else {
        ended(parts.drop_last(), end) + parts.last().push(end)
    }
}

proof fn split_of_ended(parts: Seq<Seq<char>>, end: char)
    requires
        forall|i: int| 0 <= i < parts.len() ==> free_of(#[trigger] parts[i], end),
    ensures
        split(ended(parts, end), end) == parts.push(Seq::empty()),
    decreases parts.len(),
{
    if parts.len() == 0 {
        assert(split(Seq::<char>::empty(), end) =~= parts.push(Seq::empty()));
    } else {
        let front = parts.drop_last();
        assert forall|i: int| 0 <= i < front.len() implies free_of(#[trigger] front[i], end) by {
            assert(front[i] == parts[i]);
        }
        split_of_ended(front, end);
        let head = ended(front, end);
        split_then_tail(head, parts.last(), end);
        assert(front.push(Seq::<char>::empty()).drop_last() =~= front);
        assert(Seq::<char>::empty() + parts.last() =~= parts.last());
        assert(front.push(parts.last()) =~= parts);
        let s = ended(parts, end);
        assert(s.drop_last() =~= head + parts.last());
    }
}

/// Reading the lines of a text that was written line by line gives them back,
/// as long as no line holds a line feed or ends in a carriage return.
pub proof fn lines_of_written_lines(parts: Seq<Seq<char>>)
    requires
        forall|i: int| 0 <= i < parts.len() ==> free_of(#[trigger] parts[i], '\n') && free_of(
            parts[i],
            '\r',
        ),
    ensures
        lines(ended(parts, '\n')) == parts,
{
    split_of_ended(parts, '\n');
    let p = parts.push(Seq::<char>::empty());
    let f = |x: Seq<char>| without_return(x);
    assert(p.drop_last() =~= parts);
    assert(parts.map_values(f) =~= parts) by {
        assert forall|i: int| 0 <= i < parts.len() implies f(#[trigger] parts[i]) == parts[i] by {
            assert(free_of(parts[i], '\r'));
        }
    }
}

// ---------------------------------------------------------------- numbers

/// The decimal digit for `d` below ten.
pub open spec fn digit(d: int) -> char {
    (48 + d) as char
}

/// The number a digit stands for.
pub open spec fn digit_value(c: char) -> int {
    c as int - 48
}

/// `n` in decimal, without leading zeros.
pub open spec fn decimal(n: nat) -> Seq<char>
    decreases n,
{
    if n < 10 {
        seq![digit(n as int)]
    } else {
        decimal(n / 10).push(digit((n % 10) as int))
    }
}

/// The number that a run of digits stands for.
pub open spec fn value(s: Seq<char>) -> int
    decreases s.len(),
{
    if s.len() == 0 {
        0
    } else {
        value(s.drop_last()) * 10 + digit_value(s.last())
    }
}

/// One or more digits and nothing else.
pub open spec fn all_digits(s: Seq<char>) -> bool {
    s.len() > 0 && forall|i: int| 0 <= i < s.len() ==> is_digit(#[trigger] s[i])
}

/// `s` without one leading plus sign.
pub open spec fn without_plus(s: Seq<char>) -> Seq<char> {
    if s.len() > 0 && s[0] == '+' {
        s.drop_first()
    } else {
        s
    }
}

/// The whole number written in `s`, at most `max`: digits, with an optional
/// plus sign.
pub open spec fn natural(s: Seq<char>, max: int) -> Option<int> {
    let d = without_plus(s);
    if all_digits(d) && value(d) <= max {
        Some(value(d))
    } else {
        None
    }
}

/// The integer written in `s` between `min` and `max`: digits, with an
/// optional sign.
pub open spec fn integer(s: Seq<char>, min: int, max: int) -> Option<int> {
    if s.len() > 0 && s[0] == '-' {
        let d = s.drop_first();
        if all_digits(d) && -value(d) >= min {
            Some(-value(d))
        } else {
            None
        }
    } else {
        natural(s, max)
    }
}

/// `n` in decimal, with zeros in front up to `width` characters.
pub open spec fn padded(n: nat, width: nat) -> Seq<char> {
    zeros(width - decimal(n).len()) + decimal(n)
}

/// `n` zeros, none for a negative count.
pub open spec fn zeros(n: int) -> Seq<char> {
    if n <= 0 {
        Seq::empty()
    } else {
        Seq::new(n as nat, |i: int| '0')
    }
}

/// `n` in decimal.
pub fn decimal_of(n: u64) -> (r: Vec<char>)
    ensures
        r@ == decimal(n as nat),
    decreases n,
{
    if n < 10 {
        let mut r: Vec<char> = Vec::new();
        r.push((48 + n as u8) as char);
        assert(r@ =~= decimal(n as nat));
        r
    } else {
        let mut r: Vec<char> = decimal_of(n / 10);
        r.push((48 + (n % 10) as u8) as char);
        r
    }
}

/// `n` in decimal, with zeros in front up to `width` characters.
pub fn padded_of(n: u64, width: usize) -> (r: Vec<char>)
    ensures
        r@ == padded(n as nat, width as nat),
{
    let d: Vec<char> = decimal_of(n);
    let mut r: Vec<char> = Vec::new();
    let ghost gap = width - d@.len();
    let mut left: usize = if width > d.len() {
        width - d.len()
    } else {
        0
    };
    let ghost total = left as int;
    while left > 0
        invariant
            0 <= left <= total,
            r@ == zeros(total - left),
        decreases left,
    {
        r.push('0');
        left = left - 1;
        assert(r@ =~= zeros(total - left));
    }
    extend(&mut r, &d);
    r
}

/// The whole number written in `s` from position `from` on, at most `max`:
/// digits alone.
fn digits_from(s: &Vec<char>, from: usize, max: u64) -> (r: Option<u64>)
    requires
        from <= s.len(),
    ensures
        match r {
            Some(n) => all_digits(s@.skip(from as int)) && n == value(s@.skip(from as int)) && n
                <= max,
            None => !all_digits(s@.skip(from as int)) || value(s@.skip(from as int)) > max,
        },
{
    let ghost d = s@.skip(from as int);
    if from == s.len() {
        return None;
    }
    let mut n: u64 = 0;
    let mut i: usize = from;
    while i < s.len()
        invariant
            from <= i <= s.len(),
            d == s@.skip(from as int),
            n == value(d.take(i - from)),
            n <= max,
            forall|j: int| 0 <= j < i - from ==> is_digit(#[trigger] d[j]),
        decreases s.len() - i,
    {
        let c: char = s[i];
        assert(c == d[i - from]);
        if c < '0' || c > '9' {
            assert(!is_digit(d[i - from]));
            return None;
        }
        let step: u64 = c as u64 - 48;
        let wide: u128 = n as u128 * 10 + step as u128;
        assert(d.take(i - from + 1).drop_last() =~= d.take(i - from));
        assert(wide == value(d.take(i - from + 1)));
        if wide > max as u128 {
            proof {
                if all_digits(d) {
                    value_grows(d, i - from + 1);
                }
            }
            return None;
        }
        n = wide as u64;
        i = i + 1;
    }
    assert(d.take(d.len() as int) =~= d);
    Some(n)
}

proof fn value_grows(s: Seq<char>, k: int)
    requires
        all_digits(s),
        0 < k <= s.len(),
    ensures
        0 <= value(s.take(k)) <= value(s),
    decreases s.len() - k,
{
    value_is_natural(s.take(k));
    if k < s.len() {
        value_grows(s, k + 1);
        assert(s.take(k + 1).drop_last() =~= s.take(k));
        assert(is_digit(s[k]));
    } else {
        assert(s.take(k) =~= s);
    }
}

proof fn value_is_natural(s: Seq<char>)
    requires
        forall|i: int| 0 <= i < s.len() ==> is_digit(#[trigger] s[i]),
    ensures
        value(s) >= 0,
    decreases s.len(),
{
    if s.len() > 0 {
        value_is_natural(s.drop_last());
        assert(is_digit(s[s.len() - 1]));
    }
}

/// The whole number written in `s`, at most `max`.
pub fn natural_of(s: &Vec<char>, max: u64) -> (r: Option<u64>)
    ensures
        match r {
            Some(n) => natural(s@, max as int) == Some(n as int),
            None => natural(s@, max as int) is None,
        },
{
    assert(s@.skip(0) =~= s@);
    if s.len() > 0 && s[0] == '+' {
        assert(s@.skip(1) =~= s@.drop_first());
        digits_from(s, 1, max)
    } else {
        digits_from(s, 0, max)
    }
}

/// The 32-bit integer written in `s`.
pub fn integer_of(s: &Vec<char>) -> (r: Option<i32>)
    ensures
        match r {
            Some(n) => integer(s@, i32::MIN as int, i32::MAX as int) == Some(n as int),
            None => integer(s@, i32::MIN as int, i32::MAX as int) is None,
        },
{
    if s.len() > 0 && s[0] == '-' {
        assert(s@.skip(1) =~= s@.drop_first());
        match digits_from(s, 1, 0x8000_0000) {
            Some(n) => Some((-(n as i64)) as i32),
            None => None,
        }
    } else {
        match natural_of(s, 0x7fff_ffff) {
            Some(n) => Some(n as i32),
            None => None,
        }
    }
}

/// A decimal numeral is made of digits and stands for the number it was
/// written from.
pub proof fn value_of_decimal(n: nat)
    ensures
        all_digits(decimal(n)),
        value(decimal(n)) == n,
    decreases n,
{
    if n < 10 {
        let s = decimal(n);
        assert(s.drop_last() =~= Seq::<char>::empty());
        assert(value(s.drop_last()) == 0);
    } else {
        value_of_decimal(n / 10);
        let s = decimal(n);
        assert(s.drop_last() =~= decimal(n / 10));
        assert forall|i: int| 0 <= i < s.len() implies is_digit(#[trigger] s[i]) by {
            if i < s.len() - 1 {
                assert(s[i] == decimal(n / 10)[i]);
            }
        }
    }
}

/// Reading back a number that was written in decimal gives the number.
pub proof fn natural_of_decimal(n: nat, max: int)
    requires
        n <= max,
    ensures
        natural(decimal(n), max) == Some(n as int),
{
    value_of_decimal(n);
    assert(is_digit(decimal(n)[0]));
}

proof fn value_after_zeros(z: nat, s: Seq<char>)
    ensures
        value(zeros(z as int) + s) == value(s),
    decreases s.len(), z,
{
    let all = zeros(z as int) + s;
    if s.len() > 0 {
        value_after_zeros(z, s.drop_last());
        assert(all.drop_last() =~= zeros(z as int) + s.drop_last());
    } else if z > 0 {
        value_after_zeros((z - 1) as nat, s);
        assert(all.drop_last() =~= zeros(z - 1) + s);
    } else {
        assert(all =~= s);
    }
}

/// Reading back a number that was written with leading zeros gives the number,
/// and nothing but digits was written.
pub proof fn natural_of_padded(n: nat, width: nat, max: int)
    requires
        n <= max,
    ensures
        all_digits(padded(n, width)),
        natural(padded(n, width), max) == Some(n as int),
{
    value_of_decimal(n);
    let z = width - decimal(n).len();
    let s = padded(n, width);
    if z > 0 {
        value_after_zeros(z as nat, decimal(n));
    } else {
        assert(s =~= decimal(n));
    }
    assert forall|i: int| 0 <= i < s.len() implies is_digit(#[trigger] s[i]) by {
        if z > 0 && i >= z {
            assert(s[i] == decimal(n)[i - z]);
        }
    }
    assert(is_digit(s[0]));
}

/// The characters of a text added up, each by its place: a check on its spelling.
pub open spec fn spelling(s: Seq<char>) -> int
    decreases s.len(),
{
    if s.len() == 0 {
        0
    } else {
        spelling(s.drop_last()) + s.len() * (s.last() as int)
    }
}

/// The spelling of the first `n` characters, for a text of known characters.
pub open spec fn spelling_to(s: Seq<char>, n: nat) -> int
    decreases n,
{
    if n == 0 {
        0
    } else {
        spelling_to(s, (n - 1) as nat) + n * (s[n - 1] as int)
    }
}

/// Both ways of adding up agree.
pub proof fn spelling_adds_up(s: Seq<char>)
    ensures
        spelling(s) == spelling_to(s, s.len()),
{
    spelling_of_first(s, s.len());
    assert(s.take(s.len() as int) =~= s);
}

proof fn spelling_of_first(s: Seq<char>, n: nat)
    requires
        n <= s.len(),
    ensures
        spelling(s.take(n as int)) == spelling_to(s, n),
    decreases n,
{
    if n > 0 {
        spelling_of_first(s, (n - 1) as nat);
        assert(s.take(n as int).drop_last() =~= s.take(n - 1));
    }
}

/// A number written in decimal is read back, and a minus before it makes it negative;
/// what is read lies within the bounds, where they lie on either side of zero.
pub proof fn integers_are_read_back(n: nat, min: int, max: int)
    requires
        min <= 0 <= max,
    ensures
        n <= max ==> integer(decimal(n), min, max) == Some(n as int),
        n <= -min ==> integer(seq!['-'] + decimal(n), min, max) == Some(-n),
        n > max ==> integer(decimal(n), min, max) is None,
        n > -min ==> integer(seq!['-'] + decimal(n), min, max) is None,
{
    value_of_decimal(n);
    let d = decimal(n);
    assert(is_digit(d[0]));
    assert((seq!['-'] + d).drop_first() =~= d);
    assert(without_plus(d) == d);
}

} // verus!
