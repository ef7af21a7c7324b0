//! Small helpers on texts: a text as a vector of characters, searching one
//! text in another, and joining texts.

use vstd::prelude::*;

verus! {

/// `needle` stands in `hay` at the place `i`.
pub open spec fn occurs_at(needle: Seq<char>, hay: Seq<char>, i: int) -> bool {
    0 <= i && i + needle.len() <= hay.len() && hay.subrange(i, i + needle.len()) == needle
}

/// `needle` stands somewhere in `hay`.
pub open spec fn occurs_in(needle: Seq<char>, hay: Seq<char>) -> bool {
    exists|i: int| occurs_at(needle, hay, i)
}

/// `hay` begins with `needle`.
pub open spec fn begins_with(hay: Seq<char>, needle: Seq<char>) -> bool {
    occurs_at(needle, hay, 0)
}

/// The characters of `s`.
pub fn to_chars(s: &str) -> (chars: Vec<char>)
    ensures
        chars@ == s@,
{
    let mut chars: Vec<char> = Vec::new();
    for c in it: s.chars()
        invariant
            it.seq() == s@,
            chars@ == it.seq().take(it.index()),
    {
        assert(it.seq().take(it.index() + 1) =~= it.seq().take(it.index()).push(c));
        chars.push(c);
    }
    assert(chars@ =~= s@);
    chars
}

/// Whether `needle` stands in `hay` at the place `at`.
pub fn matches_at(hay: &[char], needle: &[char], at: usize) -> (r: bool)
    ensures
        r == occurs_at(needle@, hay@, at as int),
{
    if needle.len() > hay.len() || at > hay.len() - needle.len() {
        return false;
    }
    let mut j: usize = 0;
    while j < needle.len()
        invariant
            j <= needle@.len(),
            at + needle@.len() <= hay@.len() <= usize::MAX,
            forall|k: int| 0 <= k < j ==> hay@[at + k] == needle@[k],
        decreases needle@.len() - j,
    {
        if hay[at + j] != needle[j] {
            assert(hay@.subrange(at as int, at + needle@.len())[j as int] == hay@[at + j]);
            return false;
        }
        j = j + 1;
    }
    assert(hay@.subrange(at as int, at + needle@.len()) =~= needle@);
    true
}

/// Whether `needle` stands somewhere in `hay`.
pub fn contains(hay: &[char], needle: &[char]) -> (r: bool)
    ensures
        r == occurs_in(needle@, hay@),
{
    if needle.len() > hay.len() {
        return false;
    }
    let last = hay.len() - needle.len();
    let mut i: usize = 0;
    loop
        invariant
            i <= last,
            last == hay@.len() - needle@.len(),
            forall|k: int| 0 <= k < i ==> !occurs_at(needle@, hay@, k),
        decreases last - i,
    {
        if matches_at(hay, needle, i) {
            return true;
        }
        if i == last {
            return false;
        }
        i = i + 1;
    }
}

/// Whether `hay` begins with `needle`.
pub fn starts_with(hay: &[char], needle: &[char]) -> (r: bool)
    ensures
        r == begins_with(hay@, needle@),
{
    matches_at(hay, needle, 0)
}

/// The texts of `v`, in their order.
pub open spec fn texts(v: Seq<Vec<char>>) -> Seq<Seq<char>> {
    Seq::new(v.len(), |i: int| v[i]@)
}

/// The place of the first `c` in `s`; the length of `s` where it holds none.
pub open spec fn first_at(s: Seq<char>, c: char) -> int
    decreases s.len(),
{
    if s.len() == 0 || s[0] == c {
        0
    } else {
        1 + first_at(s.skip(1), c)
    }
}

/// `first_at` is the place before which no `c` stands, and at which one
/// stands or the text ends.
pub proof fn lemma_first_at(s: Seq<char>, c: char, k: int)
    requires
        0 <= k <= s.len(),
        forall|j: int| 0 <= j < k ==> s[j] != c,
        k == s.len() || s[k] == c,
    ensures
        first_at(s, c) == k,
    decreases k,
{
    if k > 0 {
        let rest = s.skip(1);
        assert(s[0] != c);
        assert forall|j: int| 0 <= j < k - 1 implies rest[j] != c by {
            assert(rest[j] == s[j + 1]);
        }
        lemma_first_at(rest, c, k - 1);
    }
}

/// The pieces of `s` between the places of `c`: one more than `s` holds
/// `c`s, some of them perhaps empty.
pub open spec fn split(s: Seq<char>, c: char) -> Seq<Seq<char>>
    decreases s.len(),
{
    let i = first_at(s, c);
    if 0 <= i < s.len() {
        seq![s.take(i)] + split(s.skip(i + 1), c)
    } else {
        seq![s]
    }
}

/// `line` without a carriage return at its end.
pub open spec fn without_cr(line: Seq<char>) -> Seq<char> {
    if line.len() > 0 && line.last() == '\r' {
        line.drop_last()
    } else {
        line
    }
}

/// The lines of `s`. A line ends with a line feed, before which a carriage
/// return does not count as part of the line; the last line may end with
/// the text.
pub open spec fn lines(s: Seq<char>) -> Seq<Seq<char>>
    decreases s.len(),
{
    let i = first_at(s, '\n');
    if s.len() == 0 {
        Seq::empty()
    } else if 0 <= i < s.len() {
        seq![without_cr(s.take(i))] + lines(s.skip(i + 1))
    } else {
        seq![s]
    }
}

/// White space as Unicode defines it.
pub open spec fn is_space(c: char) -> bool {
    let code = c as u32;
    ||| 0x9 <= code <= 0xd
    ||| code == 0x20
    ||| code == 0x85
    ||| code == 0xa0
    ||| code == 0x1680
    ||| 0x2000 <= code <= 0x200a
    ||| code == 0x2028
    ||| code == 0x2029
    ||| code == 0x202f
    ||| code == 0x205f
    ||| code == 0x3000
}

/// Whether `c` is to be stripped: `c` is `what`, or, where `what` is
/// `None`, white space.
pub open spec fn strips(what: Option<char>, c: char) -> bool {
    match what {
        Some(x) => c == x,
        None => is_space(c),
    }
}

/// `s` without the characters to be stripped at its front.
pub open spec fn strip_front(s: Seq<char>, what: Option<char>) -> Seq<char>
    decreases s.len(),
{
    if s.len() > 0 && strips(what, s[0]) {
        strip_front(s.skip(1), what)
    } else {
        s
    }
}

/// `s` without the characters to be stripped at its end.
pub open spec fn strip_back(s: Seq<char>, what: Option<char>) -> Seq<char>
    decreases s.len(),
{
    if s.len() > 0 && strips(what, s.last()) {
        strip_back(s.drop_last(), what)
    } else {
        s
    }
}

/// `s` without the characters to be stripped at either end.
pub open spec fn stripped(s: Seq<char>, what: Option<char>) -> Seq<char> {
    strip_back(strip_front(s, what), what)
}

/// `s` without white space at either end.
pub open spec fn trimmed(s: Seq<char>) -> Seq<char> {
    stripped(s, None)
}

/// Calls `String::from_iter` on the characters of `chars`, which makes the
/// text of exactly these characters.
#[verifier::external_body]
pub(crate) fn string_of(chars: &[char]) -> (s: String)
    ensures
        s@ == chars@,
{
    String::from_iter(chars.iter())
}

/// The characters of `text` from `from` up to `to`.
pub fn piece(text: &[char], from: usize, to: usize) -> (r: Vec<char>)
    requires
        from <= to <= text@.len(),
    ensures
        r@ == text@.subrange(from as int, to as int),
{
    vstd::slice::slice_to_vec(vstd::slice::slice_subrange(text, from, to))
}

/// The place of the first `c` in `text` from `from` on; the length of
/// `text` where none follows.
pub fn find_char(text: &[char], from: usize, c: char) -> (at: usize)
    requires
        from <= text@.len(),
    ensures
        from <= at <= text@.len(),
        at - from == first_at(text@.skip(from as int), c),
{
    let mut at: usize = from;
    while at < text.len() && text[at] != c
        invariant
            from <= at <= text@.len(),
            forall|j: int| from <= j < at ==> text@[j] != c,
        decreases text@.len() - at,
    {
        at = at + 1;
    }
    proof {
        let rest = text@.skip(from as int);
        assert forall|j: int| 0 <= j < at - from implies rest[j] != c by {
            assert(rest[j] == text@[from + j]);
        }
        if at < text@.len() {
            assert(rest[at - from] == text@[at as int]);
        }
        lemma_first_at(rest, c, at - from);
    }
    at
}

/// The pieces of `text` between the places of `c`: see `split`.
pub fn split_at_char(text: &[char], c: char) -> (pieces: Vec<Vec<char>>)
    ensures
        texts(pieces@) == split(text@, c),
{
    let mut pieces: Vec<Vec<char>> = Vec::new();
    let mut from: usize = 0;
    assert(text@.skip(0) =~= text@);
    loop
        invariant
            from <= text@.len(),
            split(text@, c) == texts(pieces@) + split(text@.skip(from as int), c),
        decreases text@.len() - from,
    {
        let ghost rest = text@.skip(from as int);
        let ghost done = texts(pieces@);
        let at = find_char(text, from, c);
        let part = piece(text, from, at);
        assert(part@ =~= rest.take(at - from));
        pieces.push(part);
        assert(texts(pieces@) =~= done + seq![part@]);
        if at == text.len() {
            assert(rest.take(at - from) =~= rest);
            return pieces;
        }
        assert(rest.skip(at - from + 1) =~= text@.skip(at + 1));
        from = at + 1;
    }
}

/// The lines of `text`: see `lines`.
pub fn split_lines(text: &[char]) -> (r: Vec<Vec<char>>)
    ensures
        texts(r@) == lines(text@),
{
    let mut found: Vec<Vec<char>> = Vec::new();
    let mut from: usize = 0;
    assert(text@.skip(0) =~= text@);
    loop
        invariant
            from <= text@.len(),
            lines(text@) == texts(found@) + lines(text@.skip(from as int)),
        decreases text@.len() - from,
    {
        let ghost rest = text@.skip(from as int);
        let ghost done = texts(found@);
        if from == text.len() {
            assert(texts(found@) + Seq::<Seq<char>>::empty() =~= texts(found@));
            return found;
        }
        let at = find_char(text, from, '\n');
        if at == text.len() {
            let part = piece(text, from, at);
            assert(part@ =~= rest);
            found.push(part);
            assert(texts(found@) =~= done + seq![rest]);
            return found;
        }
        let end = if at > from && text[at - 1] == '\r' {
            at - 1
        } else {
            at
        };
        let part = piece(text, from, end);
        proof {
            let line = rest.take(at - from);
            assert(line =~= text@.subrange(from as int, at as int));
            if line.len() > 0 {
                assert(line.last() == text@[at - 1]);
            }
            assert(part@ =~= without_cr(line));
        }
        found.push(part);
        assert(texts(found@) =~= done + seq![part@]);
        assert(rest.skip(at - from + 1) =~= text@.skip(at + 1));
        from = at + 1;
    }
}

/// Whether `c` is white space.
pub fn is_whitespace(c: char) -> (r: bool)
    ensures
        r == is_space(c),
{
    let code = c as u32;
    (0x9 <= code && code <= 0xd) || code == 0x20 || code == 0x85 || code == 0xa0 || code == 0x1680
        || (0x2000 <= code && code <= 0x200a) || code == 0x2028 || code == 0x2029 || code
        == 0x202f || code == 0x205f || code == 0x3000
}

/// Whether `c` is to be stripped: see `strips`.
fn is_stripped(what: Option<char>, c: char) -> (r: bool)
    ensures
        r == strips(what, c),
{
    match what {
        Some(x) => c == x,
        None => is_whitespace(c),
    }
}

/// `text` without the characters to be stripped at either end: see
/// `stripped`.
pub fn strip<'a>(text: &'a [char], what: Option<char>) -> (r: &'a [char])
    ensures
        r@ == stripped(text@, what),
{
    let mut from: usize = 0;
    assert(text@.skip(0) =~= text@);
    while from < text.len() && is_stripped(what, text[from])
        invariant
            from <= text@.len(),
            strip_front(text@, what) == strip_front(text@.skip(from as int), what),
        decreases text@.len() - from,
    {
        assert(text@.skip(from as int).skip(1) =~= text@.skip(from + 1));
        from = from + 1;
    }
    let ghost front = text@.skip(from as int);
    assert(strip_front(text@, what) == front);
    let mut to: usize = text.len();
    assert(text@.subrange(from as int, to as int) =~= front);
    while to > from && is_stripped(what, text[to - 1])
        invariant
            from <= to <= text@.len(),
            strip_back(front, what) == strip_back(text@.subrange(from as int, to as int), what),
        decreases to,
    {
        assert(text@.subrange(from as int, to as int).drop_last() =~= text@.subrange(
            from as int,
            to - 1,
        ));
        to = to - 1;
    }
    vstd::slice::slice_subrange(text, from, to)
}

/// `text` without white space at either end.
pub fn trim<'a>(text: &'a [char]) -> (r: &'a [char])
    ensures
        r@ == trimmed(text@),
{
    strip(text, None)
}

/// `text` without `c` at either end, however often it stands there.
pub fn trim_matches<'a>(text: &'a [char], c: char) -> (r: &'a [char])
    ensures
        r@ == stripped(text@, Some(c)),
{
    strip(text, Some(c))
}

/// Whether `a` and `b` are the same text.
pub fn same_text(a: &[char], b: &[char]) -> (r: bool)
    ensures
        r == (a@ == b@),
{
    let r = a.len() == b.len() && matches_at(a, b, 0);
    proof {
        if r {
            assert(a@.subrange(0, b@.len() as int) =~= a@);
        }
        if a@ == b@ {
            assert(a@.subrange(0, b@.len() as int) =~= a@);
        }
    }
    r
}

/// The place of the last `c` in `s`; `-1` where it holds none.
pub open spec fn last_at(s: Seq<char>, c: char) -> int
    decreases s.len(),
{
    if s.len() == 0 {
        -1
    } else if s.last() == c {
        s.len() - 1
    } else {
        last_at(s.drop_last(), c)
    }
}

/// What stands in `s` after the last `c`; nothing where `s` holds no `c`.
pub open spec fn after_last(s: Seq<char>, c: char) -> Seq<char> {
    if last_at(s, c) < 0 {
        Seq::empty()
    } else {
        s.skip(last_at(s, c) + 1)
    }
}

/// What stands in `text` after the last `c`: see `after_last`.
pub fn text_after_last(text: &str, c: char) -> (r: String)
    ensures
        r@ == after_last(text@, c),
{
    let chars = to_chars(text);
    let mut end: usize = chars.len();
    assert(chars@.take(end as int) =~= chars@);
    while end > 0 && chars[end - 1] != c
        invariant
            end <= chars@.len(),
            last_at(chars@, c) == last_at(chars@.take(end as int), c),
        decreases end,
    {
        assert(chars@.take(end as int).drop_last() =~= chars@.take(end - 1));
        end = end - 1;
    }
    if end == 0 {
        string_of(piece(chars.as_slice(), 0, 0).as_slice())
    } else {
        assert(chars@.take(end as int).last() == c);
        let tail = piece(chars.as_slice(), end, chars.len());
        assert(tail@ =~= chars@.skip(end as int));
        string_of(tail.as_slice())
    }
}

} // verus!
