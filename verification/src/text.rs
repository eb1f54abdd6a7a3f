//! Text primitives: white space, words, beginnings, joining and path names.
//! A text is modelled as its sequence of characters.

use vstd::prelude::*;
use vstd::string::StringExecFns;

verus! {

/// The characters of a text, as a vector that can be indexed.
pub fn chars_of(s: &str) -> (r: Vec<char>)
    ensures
        r@ == s@,
{
    let mut out: Vec<char> = Vec::new();
    for c in it: s.chars()
        invariant
            out@ == it.seq().take(it.index() as int),
            it.seq() == s@,
    {
        out.push(c);
    }
    out
}

/// The text made of the characters `from..to`.
pub fn string_of(chars: &[char], from: usize, to: usize) -> (r: String)
    requires
        from <= to <= chars@.len(),
    ensures
        r@ == chars@.subrange(from as int, to as int),
{
    let mut out = String::new();
    let mut i: usize = from;
    while i < to
        invariant
            from <= i <= to <= chars@.len(),
            out@ == chars@.subrange(from as int, i as int),
        decreases to - i,
    {
        out.push(chars[i]);
        i = i + 1;
    }
    out
}

/// Whether two texts are the same.
pub fn same_text(a: &str, b: &str) -> (r: bool)
    ensures
        r == (a@ == b@),
{
    let x = chars_of(a);
    let y = chars_of(b);
    if x.len() != y.len() {
        return false;
    }
    let mut i: usize = 0;
    while i < x.len()
        invariant
            i <= x@.len(),
            x@.len() == y@.len(),
            x@.take(i as int) == y@.take(i as int),
            x@ == a@,
            y@ == b@,
        decreases x@.len() - i,
    {
        if x[i] != y[i] {
            return false;
        }
        proof {
            assert(x@.take(i + 1) =~= x@.take(i as int).push(x@[i as int]));
            assert(y@.take(i + 1) =~= y@.take(i as int).push(y@[i as int]));
        }
        i = i + 1;
    }
    proof {
        assert(x@.take(i as int) =~= x@);
        assert(y@.take(i as int) =~= y@);
    }
    true
}

// ---------------------------------------------------------------------------
// White space
// ---------------------------------------------------------------------------

/// The characters with the Unicode property `White_Space`.
pub open spec fn is_white_space(c: char) -> bool {
    let n = c as u32;
    ||| 0x09 <= n <= 0x0D
    ||| n == 0x20
    ||| n == 0x85
    ||| n == 0xA0
    ||| n == 0x1680
    ||| 0x2000 <= n <= 0x200A
    ||| n == 0x2028
    ||| n == 0x2029
    ||| n == 0x202F
    ||| n == 0x205F
    ||| n == 0x3000
}

/// Whether a character is white space.
pub fn white_space(c: char) -> (r: bool)
    ensures
        r == is_white_space(c),
{
    let n: u32 = c as u32;
    (0x09 <= n && n <= 0x0D) || n == 0x20 || n == 0x85 || n == 0xA0 || n == 0x1680 || (0x2000 <= n
        && n <= 0x200A) || n == 0x2028 || n == 0x2029 || n == 0x202F || n == 0x205F || n == 0x3000
}

/// A text without the white space it starts with.
pub open spec fn trimmed_start(s: Seq<char>) -> Seq<char>
    decreases s.len(),
{
    if s.len() > 0 && is_white_space(s[0]) {
        trimmed_start(s.drop_first())
    } else {
        s
    }
}

/// A text without the white space it ends with.
pub open spec fn trimmed_end(s: Seq<char>) -> Seq<char>
    decreases s.len(),
{
    if s.len() > 0 && is_white_space(s.last()) {
        trimmed_end(s.drop_last())
    } else {
        s
    }
}

/// A text without the white space around it.
pub open spec fn trimmed(s: Seq<char>) -> Seq<char> {
    trimmed_end(trimmed_start(s))
}

/// The characters up to the first white space.
pub open spec fn first_word(s: Seq<char>) -> Seq<char>
    decreases s.len(),
{
    if s.len() > 0 && !is_white_space(s[0]) {
        seq![s[0]] + first_word(s.drop_first())
    } else {
        Seq::empty()
    }
}

/// Index of the first character at or behind `from` that is no white space.
fn skip_white_space(chars: &[char], from: usize) -> (r: usize)
    requires
        from <= chars@.len(),
    ensures
        from <= r <= chars@.len(),
        chars@.skip(r as int) == trimmed_start(chars@.skip(from as int)),
{
    let mut i: usize = from;
    while i < chars.len() && white_space(chars[i])
        invariant
            from <= i <= chars@.len(),
            trimmed_start(chars@.skip(i as int)) == trimmed_start(chars@.skip(from as int)),
        decreases chars@.len() - i,
    {
        proof {
            assert(chars@.skip(i as int).drop_first() =~= chars@.skip(i + 1));
        }
        i = i + 1;
    }
    i
}

/// Index of the first white space at or behind `from`.
fn skip_word(chars: &[char], from: usize) -> (r: usize)
    requires
        from <= chars@.len(),
    ensures
        from <= r <= chars@.len(),
        chars@.subrange(from as int, r as int) == first_word(chars@.skip(from as int)),
{
    let mut i: usize = from;
    proof {
        assert(chars@.subrange(from as int, from as int) + first_word(chars@.skip(from as int))
            =~= first_word(chars@.skip(from as int)));
    }
    while i < chars.len() && !white_space(chars[i])
        invariant
            from <= i <= chars@.len(),
            chars@.subrange(from as int, i as int) + first_word(chars@.skip(i as int))
                == first_word(chars@.skip(from as int)),
        decreases chars@.len() - i,
    {
        proof {
            assert(chars@.skip(i as int).drop_first() =~= chars@.skip(i + 1));
            assert(chars@.subrange(from as int, i as int) + (seq![chars@[i as int]] + first_word(
                chars@.skip(i + 1),
            )) =~= chars@.subrange(from as int, i + 1) + first_word(chars@.skip(i + 1)));
        }
        i = i + 1;
    }
    proof {
        assert(chars@.subrange(from as int, i as int) + Seq::<char>::empty() =~= chars@.subrange(
            from as int,
            i as int,
        ));
    }
    i
}

/// A text without the white space around it.
pub fn trim(s: &str) -> (r: String)
    ensures
        r@ == trimmed(s@),
{
    let chars = chars_of(s);
    proof {
        assert(chars@.skip(0) =~= chars@);
    }
    let from: usize = skip_white_space(chars.as_slice(), 0);
    let mut to: usize = chars.len();
    proof {
        assert(chars@.subrange(from as int, to as int) =~= chars@.skip(from as int));
    }
    while from < to && white_space(chars[to - 1])
        invariant
            from <= to <= chars@.len(),
            trimmed_end(chars@.subrange(from as int, to as int)) == trimmed(s@),
        decreases to,
    {
        proof {
            assert(chars@.subrange(from as int, to as int).drop_last() =~= chars@.subrange(
                from as int,
                to - 1,
            ));
        }
        to = to - 1;
    }
    string_of(chars.as_slice(), from, to)
}

/// The first two words of a text, if it has two.
pub open spec fn two_words(s: Seq<char>) -> Option<(Seq<char>, Seq<char>)> {
    let head = trimmed_start(s);
    let first = first_word(head);
    let rest = trimmed_start(head.skip(first.len() as int));
    let second = first_word(rest);
    if first.len() > 0 && second.len() > 0 {
        Some((first, second))
    } else {
        None
    }
}

/// The first two words of a text, if it has two.
pub fn first_two_words(s: &str) -> (r: Option<(String, String)>)
    ensures
        match r {
            Some(w) => two_words(s@) == Some((w.0@, w.1@)),
            None => two_words(s@) is None,
        },
{
    let chars = chars_of(s);
    proof {
        assert(chars@.skip(0) =~= chars@);
    }
    let a: usize = skip_white_space(chars.as_slice(), 0);
    let b: usize = skip_word(chars.as_slice(), a);
    proof {
        assert(chars@.skip(a as int).skip(b - a) =~= chars@.skip(b as int));
    }
    let c: usize = skip_white_space(chars.as_slice(), b);
    let d: usize = skip_word(chars.as_slice(), c);
    if a < b && c < d {
        Some((string_of(chars.as_slice(), a, b), string_of(chars.as_slice(), c, d)))
    } else {
        None
    }
}

// ---------------------------------------------------------------------------
// Beginnings and joining
// ---------------------------------------------------------------------------

/// Whether `s` begins with `prefix`.
pub open spec fn has_prefix(s: Seq<char>, prefix: Seq<char>) -> bool {
    prefix.len() <= s.len() && s.take(prefix.len() as int) == prefix
}

/// Whether `s` begins with `prefix`.
pub fn starts_with(s: &str, prefix: &str) -> (r: bool)
    ensures
        r == has_prefix(s@, prefix@),
{
    let chars = chars_of(s);
    let start = chars_of(prefix);
    if start.len() > chars.len() {
        return false;
    }
    let mut i: usize = 0;
    while i < start.len()
        invariant
            chars@ == s@,
            start@ == prefix@,
            i <= start@.len() <= chars@.len(),
            forall|j: int| 0 <= j < i ==> chars@[j] == start@[j],
        decreases start@.len() - i,
    {
        if chars[i] != start[i] {
            proof {
                assert(s@.take(prefix@.len() as int)[i as int] != prefix@[i as int]);
            }
            return false;
        }
        i = i + 1;
    }
    proof {
        assert(s@.take(prefix@.len() as int) =~= prefix@);
    }
    true
}

/// The texts, one behind the other, with `separator` between neighbours.
pub open spec fn joined(parts: Seq<Seq<char>>, separator: Seq<char>) -> Seq<char>
    decreases parts.len(),
{
    if parts.len() == 0 {
        Seq::empty()
    } else if parts.len() == 1 {
        parts[0]
    } else {
        joined(parts.drop_last(), separator) + separator + parts.last()
    }
}

/// The views of a sequence of texts.
pub open spec fn views(texts: Seq<String>) -> Seq<Seq<char>> {
    texts.map_values(|t: String| t@)
}

/// The texts, one behind the other, with `separator` between neighbours.
pub fn join(parts: &Vec<String>, separator: &str) -> (r: String)
    ensures
        r@ == joined(views(parts@), separator@),
{
    let mut out = String::new();
    let mut i: usize = 0;
    while i < parts.len()
        invariant
            i <= parts@.len(),
            out@ == joined(views(parts@).take(i as int), separator@),
        decreases parts@.len() - i,
    {
        let ghost done = views(parts@).take(i as int);
        proof {
            assert(views(parts@).take(i + 1).drop_last() =~= done);
            assert(views(parts@).take(i + 1).last() == parts@[i as int]@);
        }
        if i > 0 {
            out.append(separator);
        } else {
            proof {
                assert(out@ + parts@[0]@ =~= parts@[0]@);
            }
        }
        out.append(parts[i].as_str());
        i = i + 1;
    }
    proof {
        assert(views(parts@).take(i as int) =~= views(parts@));
    }
    out
}

/// `a` followed by `b`.
pub fn concat2(a: &str, b: &str) -> (r: String)
    ensures
        r@ == a@ + b@,
{
    let mut out = a.to_owned();
    out.append(b);
    out
}

/// `a` followed by `b` and `c`.
pub fn concat3(a: &str, b: &str, c: &str) -> (r: String)
    ensures
        r@ == a@ + b@ + c@,
{
    let mut out = a.to_owned();
    out.append(b);
    out.append(c);
    out
}

// ---------------------------------------------------------------------------
// Path names
// ---------------------------------------------------------------------------

/// The characters behind the last `/`.
pub open spec fn after_last_slash(s: Seq<char>) -> Seq<char>
    decreases s.len(),
{
    if s.len() > 0 && s.last() != '/' {
        after_last_slash(s.drop_last()).push(s.last())
    } else {
        Seq::empty()
    }
}

/// The name that a path ends with: its last component, where empty components
/// and `.` do not count. A path without a component, or one that ends in `..`,
/// has the empty name.
pub open spec fn base_name(path: Seq<char>) -> Seq<char>
    decreases path.len(),
{
    let last = after_last_slash(path);
    if last.len() < path.len() && (last.len() == 0 || last == seq!['.']) {
        base_name(path.take(path.len() - last.len() - 1))
    } else if last == seq!['.'] || last == seq!['.', '.'] {
        Seq::empty()
    } else {
        last
    }
}

/// The name that a path ends with, or the empty text.
pub fn file_name(path: &str) -> (r: String)
    ensures
        r@ == base_name(path@),
{
    let chars = chars_of(path);
    let mut end: usize = chars.len();
    proof {
        assert(chars@.take(end as int) =~= chars@);
    }
    loop
        invariant
            end <= chars@.len(),
            base_name(chars@.take(end as int)) == base_name(path@),
        decreases end,
    {
        let ghost whole = chars@.take(end as int);
        let mut start: usize = end;
        proof {
            assert(after_last_slash(whole) + chars@.subrange(end as int, end as int)
                =~= after_last_slash(whole));
        }
        while start > 0 && chars[start - 1] != '/'
            invariant
                start <= end <= chars@.len(),
                whole == chars@.take(end as int),
                after_last_slash(whole) == after_last_slash(chars@.take(start as int))
                    + chars@.subrange(start as int, end as int),
            decreases start,
        {
            proof {
                let part = chars@.take(start as int);
                assert(part.drop_last() =~= chars@.take(start - 1));
                assert(after_last_slash(part) + chars@.subrange(start as int, end as int)
                    =~= after_last_slash(chars@.take(start - 1)) + chars@.subrange(
                    start - 1,
                    end as int,
                ));
            }
            start = start - 1;
        }
        proof {
            assert(after_last_slash(whole) =~= chars@.subrange(start as int, end as int));
        }
        let ghost last = after_last_slash(whole);
        let dot = end - start == 1 && chars[start] == '.';
        let dots = end - start == 2 && chars[start] == '.' && chars[start + 1] == '.';
        proof {
            if dot {
                assert(last =~= seq!['.']);
            }
            if dots {
                assert(last =~= seq!['.', '.']);
            }
            if last == seq!['.'] {
                assert(last[0] == '.' && last.len() == 1);
            }
            if last == seq!['.', '.'] {
                assert(last[0] == '.' && last[1] == '.' && last.len() == 2);
            }
        }
        if start > 0 && (start == end || dot) {
            proof {
                assert(whole.take(whole.len() - last.len() - 1) =~= chars@.take(start - 1));
            }
            end = start - 1;
        } else if dot || dots {
            return String::new();
        } else {
            return string_of(chars.as_slice(), start, end);
        }
    }
}

/// What holds no `/` goes on the last component of a path.
pub proof fn lemma_name_goes_on(path: Seq<char>, suffix: Seq<char>)
    requires
        forall|i: int| 0 <= i < suffix.len() ==> #[trigger] suffix[i] != '/',
    ensures
        after_last_slash(path + suffix) == after_last_slash(path) + suffix,
    decreases suffix.len(),
{
    if suffix.len() == 0 {
        assert(path + suffix =~= path);
        assert(after_last_slash(path) + suffix =~= after_last_slash(path));
    } else {
        assert((path + suffix).drop_last() =~= path + suffix.drop_last());
        assert((path + suffix).last() == suffix.last());
        lemma_name_goes_on(path, suffix.drop_last());
        assert(suffix.drop_last().push(suffix.last()) =~= suffix);
        assert(after_last_slash(path + suffix) =~= after_last_slash(path) + suffix);
    }
}

/// The name of a path is what stands behind its last `/`, whatever stands in
/// front of it, and a `/` at its end does not change it.
pub proof fn law_name_stands_behind_the_last_slash(directory: Seq<char>, name: Seq<char>)
    requires
        name.len() > 0,
        forall|i: int| 0 <= i < name.len() ==> #[trigger] name[i] != '/',
        name != seq!['.'],
        name != seq!['.', '.'],
    ensures
        base_name(directory + seq!['/'] + name) == name,
        base_name(directory + seq!['/'] + name + seq!['/']) == name,
        base_name(name) == name,
{
    let front = directory + seq!['/'];
    let path = front + name;
    assert(front.last() == '/');
    lemma_name_goes_on(front, name);
    assert(Seq::<char>::empty() + name =~= name);
    assert(after_last_slash(path) == name);
    lemma_name_goes_on(Seq::empty(), name);
    let closed = path + seq!['/'];
    assert(closed.last() == '/');
    assert(closed.take(closed.len() - 1) =~= path);
}

// ---------------------------------------------------------------------------
// Laws of words
// ---------------------------------------------------------------------------

/// Whether a text is white space alone.
pub open spec fn all_white(s: Seq<char>) -> bool {
    forall|i: int| 0 <= i < s.len() ==> is_white_space(#[trigger] s[i])
}

/// Whether a text is a word: not empty, and without white space.
pub open spec fn is_word(s: Seq<char>) -> bool {
    s.len() > 0 && forall|i: int| 0 <= i < s.len() ==> !is_white_space(#[trigger] s[i])
}

proof fn lemma_start_is_skipped(left: Seq<char>, s: Seq<char>)
    requires
        all_white(left),
    ensures
        trimmed_start(left + s) == trimmed_start(s),
    decreases left.len(),
{
    if left.len() == 0 {
        assert(left + s =~= s);
    } else {
        assert((left + s)[0] == left[0]);
        assert((left + s).drop_first() =~= left.drop_first() + s);
        lemma_start_is_skipped(left.drop_first(), s);
    }
}

proof fn lemma_end_is_skipped(s: Seq<char>, right: Seq<char>)
    requires
        all_white(right),
    ensures
        trimmed_end(s + right) == trimmed_end(s),
    decreases right.len(),
{
    if right.len() == 0 {
        assert(s + right =~= s);
    } else {
        assert((s + right).last() == right.last());
        assert((s + right).drop_last() =~= s + right.drop_last());
        lemma_end_is_skipped(s, right.drop_last());
    }
}

/// Trimming takes off all white space around a text, however much there is,
/// and nothing else.
pub proof fn law_trimming_takes_off_white_space(left: Seq<char>, core: Seq<char>, right: Seq<char>)
    requires
        all_white(left),
        all_white(right),
        core.len() > 0 ==> !is_white_space(core[0]) && !is_white_space(core.last()),
    ensures
        trimmed(left + core + right) == core,
{
    assert(left + core + right =~= left + (core + right));
    lemma_start_is_skipped(left, core + right);
    if core.len() > 0 {
        assert((core + right)[0] == core[0]);
        lemma_end_is_skipped(core, right);
    } else {
        assert(core + right =~= right + core);
        lemma_start_is_skipped(right, core);
        assert(trimmed_start(core) == core);
    }
}

proof fn lemma_first_word(word: Seq<char>, rest: Seq<char>)
    requires
        forall|i: int| 0 <= i < word.len() ==> !is_white_space(#[trigger] word[i]),
        rest.len() > 0 ==> is_white_space(rest[0]),
    ensures
        first_word(word + rest) == word,
    decreases word.len(),
{
    let s = word + rest;
    if word.len() == 0 {
        assert(s =~= rest);
    } else {
        assert(s[0] == word[0]);
        assert(s.drop_first() =~= word.drop_first() + rest);
        lemma_first_word(word.drop_first(), rest);
        assert(seq![word[0]] + word.drop_first() =~= word);
    }
}

/// The first two words of a line are found however much white space stands
/// around them and whatever follows; a line with less than two words has none.
pub proof fn law_two_words_of_a_line(
    left: Seq<char>,
    first: Seq<char>,
    middle: Seq<char>,
    second: Seq<char>,
    rest: Seq<char>,
)
    requires
        all_white(left),
        is_word(first),
        all_white(middle),
        middle.len() > 0,
        is_word(second),
        rest.len() > 0 ==> is_white_space(rest[0]),
    ensures
        two_words(left + first + middle + second + rest) == Some((first, second)),
        two_words(left + first + middle) is None,
        two_words(left + first) is None,
        two_words(left) is None,
{
    let tail = second + rest;
    let behind = middle + tail;
    let line = left + first + middle + second + rest;
    assert(line =~= left + (first + behind));
    lemma_start_is_skipped(left, first + behind);
    assert((first + behind)[0] == first[0]);
    assert(behind[0] == middle[0]);
    lemma_first_word(first, behind);
    assert((first + behind).skip(first.len() as int) =~= behind);
    lemma_start_is_skipped(middle, tail);
    assert(tail[0] == second[0]);
    lemma_first_word(second, rest);

    let nothing = Seq::<char>::empty();
    assert(left + first + middle =~= left + (first + middle));
    lemma_start_is_skipped(left, first + middle);
    assert((first + middle)[0] == first[0]);
    lemma_first_word(first, middle);
    assert((first + middle).skip(first.len() as int) =~= middle);
    assert(middle + nothing =~= middle);
    lemma_start_is_skipped(middle, nothing);

    lemma_start_is_skipped(left, first);
    assert(first + nothing =~= first);
    lemma_first_word(first, nothing);
    assert(first.skip(first.len() as int) =~= nothing);

    assert(left + nothing =~= left);
    lemma_start_is_skipped(left, nothing);
}

/// Joined texts stand one behind the other, with one separator between two
/// neighbours and none at the ends.
pub proof fn law_separator_stands_between(
    parts: Seq<Seq<char>>,
    last: Seq<char>,
    separator: Seq<char>,
)
    ensures
        joined(Seq::empty(), separator) == Seq::<char>::empty(),
        joined(seq![last], separator) == last,
        parts.len() > 0 ==> joined(parts.push(last), separator) == joined(parts, separator)
            + separator + last,
{
    assert(parts.push(last).drop_last() =~= parts);
    assert(seq![last].drop_last() =~= Seq::<Seq<char>>::empty());
}

/// The views of texts are those texts, one by one.
pub proof fn law_views_are_the_texts(texts: Seq<String>, i: int)
    requires
        0 <= i < texts.len(),
    ensures
        views(texts).len() == texts.len(),
        views(texts)[i] == texts[i]@,
{
}

proof fn lemma_trimmed_end_is_prefix(s: Seq<char>)
    ensures
        trimmed_end(s).len() <= s.len(),
        trimmed_end(s) == s.take(trimmed_end(s).len() as int),
        trimmed_end(s).len() > 0 ==> !is_white_space(trimmed_end(s).last()),
    decreases s.len(),
{
    if s.len() > 0 && is_white_space(s.last()) {
        lemma_trimmed_end_is_prefix(s.drop_last());
        let n = trimmed_end(s).len() as int;
        assert(s.drop_last().take(n) =~= s.take(n));
    } else {
        assert(s.take(s.len() as int) =~= s);
    }
}

proof fn lemma_trimmed_start_begins(s: Seq<char>)
    ensures
        trimmed_start(s).len() > 0 ==> !is_white_space(trimmed_start(s)[0]),
    decreases s.len(),
{
    if s.len() > 0 && is_white_space(s[0]) {
        lemma_trimmed_start_begins(s.drop_first());
    }
}

/// A trimmed text neither begins nor ends with white space.
pub proof fn law_trimmed_text_has_no_white_space_around(s: Seq<char>)
    ensures
        trimmed(s).len() > 0 ==> !is_white_space(trimmed(s)[0]) && !is_white_space(
            trimmed(s).last(),
        ),
{
    lemma_trimmed_start_begins(s);
    lemma_trimmed_end_is_prefix(trimmed_start(s));
}

} // verus!
